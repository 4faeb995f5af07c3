//! Template instantiation: argument binding and precedence, positional
//! arity, amount and tag evaluation, the usage audit, and the end-to-end
//! pipeline from a parse tree to dated entries.

use billig::date::{Date, Month, Period};
use billig::entry::{Amount, Category, Duration, Window};
use billig::error::{ErrorRecord, Loc};
use billig::parse::{extract, AstItem, ParseFailure};
use billig::plot::{CumulativeEntry, Plotter};
use billig::summary::Summary;
use billig::table::Table;
use billig::template::{
    build_arguments, instanciate, process, AmountTemplate, AmountTemplateItem, Arg, Instance,
    TagTemplate, TagTemplateItem, Template,
};
use billig::tree::{Node, Rule};

fn node(rule: Rule, text: &str, children: Vec<Node>) -> Node {
    Node { rule, start: 0, end: 0, text: String::from(text), children }
}

fn leaf(rule: Rule, text: &str) -> Node {
    node(rule, text, vec![])
}

fn loc() -> Loc {
    Loc { path: String::from("test"), start: 0, end: 0 }
}

fn home_span_template(
    positional: Vec<&str>,
    named: Vec<(&str, Arg)>,
    sum: Vec<AmountTemplateItem>,
    tag: Vec<TagTemplateItem>,
) -> Template {
    Template {
        positional: positional.into_iter().map(String::from).collect(),
        named: named.into_iter().map(|(n, a)| (String::from(n), a)).collect(),
        value: AmountTemplate { sign: true, sum },
        cat: Category::Home,
        span: billig::entry::Span {
            duration: Duration::Month,
            window: Window::Current,
            count: 1,
        },
        tag: TagTemplate(tag),
    }
}

fn instance(label: &str, pos: Vec<Arg>, named: Vec<(&str, Arg)>) -> Instance {
    Instance {
        label: String::from(label),
        pos,
        named: named.into_iter().map(|(n, a)| (String::from(n), a)).collect(),
    }
}

#[test]
fn named_argument_overrides_default() {
    let t = home_span_template(
        vec![],
        vec![("x", Arg::Amount(Amount(100)))],
        vec![AmountTemplateItem::Cst(Amount(0))],
        vec![TagTemplateItem::Arg(String::from("x"))],
    );
    let i = instance("t", vec![], vec![("x", Arg::Tag(String::from("a")))]);
    let args = build_arguments(&i, &loc(), &loc(), &t).unwrap();
    match args.get("x") {
        Some(Arg::Tag(s)) => assert_eq!(s.as_str(), "a"),
        other => panic!("default was not overridden: {:?}", other),
    }
}

#[test]
fn positional_arity_mismatch_is_fatal() {
    let t = home_span_template(
        vec!["a", "b"],
        vec![],
        vec![AmountTemplateItem::Cst(Amount(0))],
        vec![TagTemplateItem::Raw(String::from("t"))],
    );
    let one = instance("t", vec![Arg::Amount(Amount(1))], vec![]);
    let e = build_arguments(&one, &loc(), &loc(), &t).unwrap_err();
    assert_eq!(e.title.as_str(), "Argcount mismatch");
    assert!(e.fatal);
    assert_eq!(
        e.notes[0].text.as_str(),
        "instanciation provides 1 arguments"
    );
    assert_eq!(e.notes[1].text.as_str(), "template expects 2 arguments");
    let three = instance(
        "t",
        vec![
            Arg::Amount(Amount(1)),
            Arg::Amount(Amount(2)),
            Arg::Amount(Amount(3)),
        ],
        vec![],
    );
    let e = build_arguments(&three, &loc(), &loc(), &t).unwrap_err();
    assert_eq!(e.title.as_str(), "Argcount mismatch");
    let two = instance("t", vec![Arg::Amount(Amount(1)), Arg::Amount(Amount(2))], vec![]);
    assert!(build_arguments(&two, &loc(), &loc(), &t).is_ok());
}

fn template_decl_tree(params: Vec<Node>, body_tag: Vec<Node>) -> Node {
    // template rent(<params>) { val: @amount; type: Home; span: Month; tag: <body_tag> }
    node(
        Rule::Item,
        "",
        vec![node(
            Rule::TemplateDescriptor,
            "",
            vec![
                leaf(Rule::Identifier, "rent"),
                node(Rule::TemplateArgs, "", params),
                node(
                    Rule::TemplateExpansionContents,
                    "",
                    vec![
                        node(
                            Rule::TemplateVal,
                            "",
                            vec![node(
                                Rule::TemplateMoneyAmount,
                                "",
                                vec![node(
                                    Rule::TemplateArgExpand,
                                    "@amount",
                                    vec![leaf(Rule::Identifier, "amount")],
                                )],
                            )],
                        ),
                        node(Rule::EntryType, "", vec![leaf(Rule::CategoryCode, "Home")]),
                        node(
                            Rule::EntrySpan,
                            "",
                            vec![node(
                                Rule::SpanValue,
                                "",
                                vec![leaf(Rule::SpanDuration, "Month")],
                            )],
                        ),
                        node(Rule::TemplateTag, "", body_tag),
                    ],
                ),
            ],
        )],
    )
}

fn rent_call_tree(args: Vec<Node>) -> Node {
    node(
        Rule::Item,
        "",
        vec![node(
            Rule::EntriesYear,
            "",
            vec![
                leaf(Rule::MarkerYear, "2024"),
                node(
                    Rule::EntriesMonth,
                    "",
                    vec![
                        leaf(Rule::MarkerMonth, "01"),
                        node(
                            Rule::EntriesDay,
                            "",
                            vec![
                                leaf(Rule::MarkerDay, "01"),
                                node(
                                    Rule::Entry,
                                    "",
                                    vec![node(
                                        Rule::ExpandEntry,
                                        "",
                                        vec![
                                            leaf(Rule::Identifier, "rent"),
                                            node(Rule::ExpandArgs, "", args),
                                        ],
                                    )],
                                ),
                            ],
                        ),
                    ],
                ),
            ],
        )],
    )
}

fn raw_tag(content: &str) -> Vec<Node> {
    vec![node(Rule::TagText, "", vec![leaf(Rule::TagContent, content)])]
}

fn positional_money(text: &str) -> Node {
    node(Rule::PositionalArg, "", vec![leaf(Rule::MoneyAmount, text)])
}

#[test]
fn end_to_end_rent_template() {
    // template rent(amount) { val: @amount; type: Home; span: Month; tag: "rent" }
    // 2024 { 01 { 01 { rent(-500.00) } } }
    let tree = vec![
        template_decl_tree(
            vec![leaf(Rule::TemplatePositionalArg, "amount")],
            raw_tag("rent"),
        ),
        rent_call_tree(vec![positional_money("-500.00")]),
        leaf(Rule::Eoi, ""),
    ];
    let mut errs = ErrorRecord::new();
    let ast = extract("test", &mut errs, Ok(tree));
    assert_eq!(errs.len(), 0);
    assert_eq!(ast.len(), 2);
    let entries = instanciate(ast, &mut errs).unwrap();
    assert_eq!(errs.len(), 0);
    assert_eq!(entries.len(), 1);
    let (date, entry) = &entries[0];
    assert_eq!(*date, Date::from(2024, Month::January, 1).unwrap());
    assert_eq!(entry.value, Amount(-50000));
    assert_eq!(entry.cat, Category::Home);
    assert_eq!(entry.span.duration, Duration::Month);
    assert_eq!(entry.span.window, Window::Current);
    assert_eq!(entry.span.count, 1);
    assert_eq!(entry.tag.0.as_str(), "rent");
}

#[test]
fn instantiation_before_declaration_resolves() {
    // the registry is completed before any instantiation is resolved, so
    // declaration order does not matter
    let tree = vec![
        rent_call_tree(vec![positional_money("1.00")]),
        template_decl_tree(
            vec![leaf(Rule::TemplatePositionalArg, "amount")],
            raw_tag("rent"),
        ),
        leaf(Rule::Eoi, ""),
    ];
    let mut errs = ErrorRecord::new();
    let entries = process("test", &mut errs, Ok(tree)).unwrap();
    assert_eq!(entries.len(), 1);
    assert_eq!(entries[0].1.value, Amount(100));
}

#[test]
fn unused_argument_warns_once_and_still_produces() {
    // parameter y is bound but referenced by neither expression
    let tree = vec![
        template_decl_tree(
            vec![
                leaf(Rule::TemplatePositionalArg, "amount"),
                leaf(Rule::TemplatePositionalArg, "y"),
            ],
            raw_tag("rent"),
        ),
        rent_call_tree(vec![positional_money("-500.00"), positional_money("1.00")]),
        leaf(Rule::Eoi, ""),
    ];
    let mut errs = ErrorRecord::new();
    let entries = process("test", &mut errs, Ok(tree)).unwrap();
    assert_eq!(entries.len(), 1);
    assert_eq!(entries[0].1.value, Amount(-50000));
    assert_eq!(errs.len(), 1);
    assert_eq!(errs.errors[0].title.as_str(), "Unused argument");
    assert!(!errs.errors[0].fatal);
    assert_eq!(
        errs.errors[0].notes[1].text.as_str(),
        "Argument y is provided but not used"
    );
    assert!(!errs.is_fatal());
}

#[test]
fn needless_amount_warns() {
    // an amount bound to a parameter used only in the tag
    let tag = vec![node(
        Rule::TemplateString,
        "",
        vec![node(
            Rule::TemplateArgExpand,
            "@y",
            vec![leaf(Rule::Identifier, "y")],
        )],
    )];
    let tree = vec![
        template_decl_tree(
            vec![
                leaf(Rule::TemplatePositionalArg, "amount"),
                leaf(Rule::TemplatePositionalArg, "y"),
            ],
            tag,
        ),
        rent_call_tree(vec![positional_money("-500.00"), positional_money("5.00")]),
        leaf(Rule::Eoi, ""),
    ];
    let mut errs = ErrorRecord::new();
    let entries = process("test", &mut errs, Ok(tree)).unwrap();
    assert_eq!(entries.len(), 1);
    assert_eq!(entries[0].1.tag.0.as_str(), "5.00");
    assert_eq!(errs.len(), 1);
    assert_eq!(errs.errors[0].title.as_str(), "Needless amount");
    assert!(!errs.errors[0].fatal);
}

#[test]
fn undeclared_template_is_fatal() {
    let tree = vec![rent_call_tree(vec![positional_money("1.00")]), leaf(Rule::Eoi, "")];
    let mut errs = ErrorRecord::new();
    let e = process("test", &mut errs, Ok(tree)).unwrap_err();
    assert_eq!(e.title.as_str(), "Undeclared template");
    assert_eq!(e.notes[0].text.as_str(), "attempt to instanciate rent");
}

#[test]
fn missing_argument_is_fatal() {
    // the template references @amount but no argument provides it
    let tree = vec![
        template_decl_tree(vec![], raw_tag("rent")),
        rent_call_tree(vec![]),
        leaf(Rule::Eoi, ""),
    ];
    let mut errs = ErrorRecord::new();
    let e = process("test", &mut errs, Ok(tree)).unwrap_err();
    assert_eq!(e.title.as_str(), "Missing argument");
    assert_eq!(e.notes[1].text.as_str(), "Argument 'amount' is not provided");
}

#[test]
fn tag_as_amount_is_a_type_mismatch() {
    let tag_value = node(
        Rule::PositionalArg,
        "",
        vec![node(Rule::TagText, "", vec![leaf(Rule::TagContent, "oops")])],
    );
    let tree = vec![
        template_decl_tree(
            vec![leaf(Rule::TemplatePositionalArg, "amount")],
            raw_tag("rent"),
        ),
        rent_call_tree(vec![tag_value]),
        leaf(Rule::Eoi, ""),
    ];
    let mut errs = ErrorRecord::new();
    let e = process("test", &mut errs, Ok(tree)).unwrap_err();
    assert_eq!(e.title.as_str(), "Type mismatch");
    assert_eq!(
        e.notes[1].text.as_str(),
        "Cannot treat tag as a monetary value"
    );
}

#[test]
fn date_builtins_render_from_the_entry_date() {
    let tag = vec![
        node(Rule::TemplateString, "", vec![leaf(Rule::TemplateTime, "@Date")]),
        node(Rule::TemplateString, "", vec![leaf(Rule::TemplateTime, "@Weekday")]),
        node(Rule::TemplateString, "", vec![leaf(Rule::TemplateTime, "@Month")]),
        node(Rule::TemplateString, "", vec![leaf(Rule::TemplateTime, "@Year")]),
        node(Rule::TemplateString, "", vec![leaf(Rule::TemplateTime, "@Day")]),
    ];
    let concat = vec![node(
        Rule::BuiltinConcat,
        "",
        vec![node(Rule::ConcatList, "", tag)],
    )];
    let tree = vec![
        template_decl_tree(
            vec![leaf(Rule::TemplatePositionalArg, "amount")],
            concat,
        ),
        rent_call_tree(vec![positional_money("1.00")]),
        leaf(Rule::Eoi, ""),
    ];
    let mut errs = ErrorRecord::new();
    let entries = process("test", &mut errs, Ok(tree)).unwrap();
    assert_eq!(entries[0].1.tag.0.as_str(), "2024-01-01MondayJanuary20241");
}

#[test]
fn parse_failure_yields_one_fatal_diagnostic() {
    let mut errs = ErrorRecord::new();
    let failure = ParseFailure {
        loc: loc(),
        message: String::from("expected item"),
    };
    let entries = process("test", &mut errs, Err(failure)).unwrap();
    assert!(entries.is_empty());
    assert_eq!(errs.len(), 1);
    assert_eq!(errs.errors[0].title.as_str(), "Parsing failure");
    assert!(errs.is_fatal());
}

#[test]
fn instanciation_is_idempotent() {
    let mk = || {
        vec![
            template_decl_tree(
                vec![leaf(Rule::TemplatePositionalArg, "amount")],
                raw_tag("rent"),
            ),
            rent_call_tree(vec![positional_money("-500.00")]),
            leaf(Rule::Eoi, ""),
        ]
    };
    let mut errs1 = ErrorRecord::new();
    let mut errs2 = ErrorRecord::new();
    let first = process("test", &mut errs1, Ok(mk())).unwrap();
    let second = process("test", &mut errs2, Ok(mk())).unwrap();
    assert_eq!(first, second);
}

#[test]
fn cumulative_series_and_plot_coordinates() {
    let points = vec![Amount(1), Amount(2), Amount(3)];
    let c = CumulativeEntry::cumul(points);
    assert_eq!(c.points, vec![Amount(1), Amount(3), Amount(6)]);
    let sat = CumulativeEntry::cumul(vec![Amount(i64::MAX), Amount(1)]);
    assert_eq!(sat.points, vec![Amount(i64::MAX), Amount(i64::MAX)]);

    let start = Date::from(2024, Month::January, 1).unwrap();
    let end = Date::from(2024, Month::January, 31).unwrap();
    let mut summary = Summary::new(Period(start, end));
    summary.add(Category::Food, Amount(100));
    summary.add(Category::Food, Amount(50));
    summary.add(Category::Home, Amount(-30));
    let data = vec![summary];
    let plotter = Plotter::from(&data);
    let plot = plotter.cumulative_plot();
    let drawer = plot.to_range_group_drawer();
    assert_eq!(drawer.points.len(), 1);
    let ((x0, x1), ys) = &drawer.points[0];
    assert_eq!(*x0, start.index() as i64);
    assert_eq!(*x1, end.index() as i64);
    // categories in order: Salary, Food, Communication, Movement, School,
    // Cleaning, Home; cumulative totals of [0, 150, 0, 0, 0, 0, -30]
    assert_eq!(ys, &vec![0, 150, 150, 150, 150, 150, 120]);
}

#[test]
fn table_renders_layout() {
    let start = Date::from(2024, Month::January, 1).unwrap();
    let end = Date::from(2024, Month::January, 31).unwrap();
    let mut summary = Summary::new(Period(start, end));
    summary.add(Category::Food, Amount(1234));
    let data = vec![summary];
    let table = Table::from(&data);
    let text = table.to_formatter().render();
    let lines: Vec<&str> = text.lines().collect();
    assert_eq!(lines.len(), 2);
    assert!(lines[0].contains("Salary |"));
    assert!(lines[0].contains("Communication |"));
    assert!(lines[1].starts_with(" 2024-01-01 to 2024-01-31"));
    assert!(lines[1].contains(" |"));
    assert!(lines[1].contains("12.34"));
    // zero amounts stay blank: the Salary cell is all spaces
    let empty_table = Table::from(&data[0..0]);
    let header_only = empty_table.to_formatter().render();
    assert_eq!(header_only.lines().count(), 1);
}

#[test]
fn named_default_applies_and_call_site_overrides() {
    // template rent(amount, x = "dflt") { ...; tag: @x } -- the default is
    // used when the call site stays silent, and overridden when it speaks
    let params = || {
        vec![
            leaf(Rule::TemplatePositionalArg, "amount"),
            node(
                Rule::TemplateNamedArg,
                "",
                vec![
                    leaf(Rule::Identifier, "x"),
                    node(Rule::TagText, "", vec![leaf(Rule::TagContent, "dflt")]),
                ],
            ),
        ]
    };
    let tag = || {
        vec![node(
            Rule::TemplateString,
            "",
            vec![node(
                Rule::TemplateArgExpand,
                "@x",
                vec![leaf(Rule::Identifier, "x")],
            )],
        )]
    };
    let silent = vec![
        template_decl_tree(params(), tag()),
        rent_call_tree(vec![positional_money("1.00")]),
        leaf(Rule::Eoi, ""),
    ];
    let mut errs = ErrorRecord::new();
    let entries = process("test", &mut errs, Ok(silent)).unwrap();
    assert_eq!(entries[0].1.tag.0.as_str(), "dflt");

    let named_override = node(
        Rule::NamedArg,
        "",
        vec![
            leaf(Rule::Identifier, "x"),
            node(
                Rule::ArgValue,
                "",
                vec![node(Rule::TagText, "", vec![leaf(Rule::TagContent, "over")])],
            ),
        ],
    );
    let spoken = vec![
        template_decl_tree(params(), tag()),
        rent_call_tree(vec![positional_money("1.00"), named_override]),
        leaf(Rule::Eoi, ""),
    ];
    let mut errs = ErrorRecord::new();
    let entries = process("test", &mut errs, Ok(spoken)).unwrap();
    assert_eq!(entries[0].1.tag.0.as_str(), "over");
}

#[test]
fn negated_sum_amount_template() {
    // val: neg(sum(@amount, 0.50)) on rent(1.00) gives -(100 + 50) cents
    let val = node(
        Rule::TemplateVal,
        "",
        vec![node(
            Rule::TemplateMoneyAmount,
            "",
            vec![node(
                Rule::BuiltinNeg,
                "",
                vec![node(
                    Rule::BuiltinSum,
                    "",
                    vec![node(
                        Rule::SumList,
                        "",
                        vec![
                            node(
                                Rule::ArgValue,
                                "",
                                vec![node(
                                    Rule::TemplateArgExpand,
                                    "@amount",
                                    vec![leaf(Rule::Identifier, "amount")],
                                )],
                            ),
                            node(Rule::ArgValue, "", vec![leaf(Rule::MoneyAmount, "0.50")]),
                        ],
                    )],
                )],
            )],
        )],
    );
    let templ = node(
        Rule::Item,
        "",
        vec![node(
            Rule::TemplateDescriptor,
            "",
            vec![
                leaf(Rule::Identifier, "rent"),
                node(
                    Rule::TemplateArgs,
                    "",
                    vec![leaf(Rule::TemplatePositionalArg, "amount")],
                ),
                node(
                    Rule::TemplateExpansionContents,
                    "",
                    vec![
                        val,
                        node(Rule::EntryType, "", vec![leaf(Rule::CategoryCode, "Home")]),
                        node(
                            Rule::EntrySpan,
                            "",
                            vec![node(
                                Rule::SpanValue,
                                "",
                                vec![leaf(Rule::SpanDuration, "Month")],
                            )],
                        ),
                        node(Rule::TemplateTag, "", raw_tag("rent")),
                    ],
                ),
            ],
        )],
    );
    let tree = vec![templ, rent_call_tree(vec![positional_money("1.00")]), leaf(Rule::Eoi, "")];
    let mut errs = ErrorRecord::new();
    let entries = process("test", &mut errs, Ok(tree)).unwrap();
    assert_eq!(entries[0].1.value, Amount(-150));
}
