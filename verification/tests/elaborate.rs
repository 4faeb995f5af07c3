//! Elaboration of parse trees into the typed AST: field collection,
//! set-once enforcement, span defaults, date validation, and idempotence.

use billig::entry::{Category, Duration, Window};
use billig::error::ErrorRecord;
use billig::parse::{read_span, validate, validate_plain_entry, AstItem};
use billig::tree::{Node, Rule};

fn node(rule: Rule, text: &str, children: Vec<Node>) -> Node {
    Node { rule, start: 0, end: 0, text: String::from(text), children }
}

fn leaf(rule: Rule, text: &str) -> Node {
    node(rule, text, vec![])
}

fn money(text: &str) -> Node {
    leaf(Rule::MoneyAmount, text)
}

fn tag_text(content: &str) -> Node {
    node(Rule::TagText, "", vec![leaf(Rule::TagContent, content)])
}

fn span_value(parts: Vec<Node>) -> Node {
    node(Rule::SpanValue, "", parts)
}

fn field_val(text: &str) -> Node {
    node(Rule::EntryVal, "", vec![money(text)])
}

fn field_type(code: &str) -> Node {
    node(Rule::EntryType, "", vec![leaf(Rule::CategoryCode, code)])
}

fn field_span(duration: &str) -> Node {
    node(Rule::EntrySpan, "", vec![span_value(vec![leaf(Rule::SpanDuration, duration)])])
}

fn field_tag(content: &str) -> Node {
    node(Rule::EntryTag, "", vec![tag_text(content)])
}

#[test]
fn plain_entry_elaborates() {
    let mut errs = ErrorRecord::new();
    let entry = node(
        Rule::PlainEntry,
        "",
        vec![field_val("12.34"), field_type("Food"), field_span("Month"), field_tag("lunch")],
    );
    let r = validate_plain_entry("test", &mut errs, &entry).unwrap();
    assert_eq!(r.value.0, 1234);
    assert_eq!(r.cat, Category::Food);
    assert_eq!(r.span.duration, Duration::Month);
    assert_eq!(r.span.window, Window::Current);
    assert_eq!(r.span.count, 1);
    assert_eq!(r.tag.0.as_str(), "lunch");
    assert_eq!(errs.len(), 0);
}

#[test]
fn duplicate_val_yields_one_diagnostic_and_no_entry() {
    let mut errs = ErrorRecord::new();
    let entry = node(
        Rule::PlainEntry,
        "",
        vec![
            field_val("12.34"),
            field_type("Food"),
            field_val("1.00"),
            field_span("Month"),
            field_tag("lunch"),
        ],
    );
    let r = validate_plain_entry("test", &mut errs, &entry);
    assert!(r.is_none());
    assert_eq!(errs.len(), 1);
    assert_eq!(errs.errors[0].title.as_str(), "Duplicate field definition");
    assert!(errs.errors[0].fatal);
    assert_eq!(
        errs.errors[0].notes[0].text.as_str(),
        "attempt to override val"
    );
}

#[test]
fn missing_tag_yields_one_diagnostic_and_no_entry() {
    let mut errs = ErrorRecord::new();
    let entry = node(
        Rule::PlainEntry,
        "",
        vec![field_val("12.34"), field_type("Food"), field_span("Month")],
    );
    let r = validate_plain_entry("test", &mut errs, &entry);
    assert!(r.is_none());
    assert_eq!(errs.len(), 1);
    assert_eq!(errs.errors[0].title.as_str(), "Missing field definition");
    assert_eq!(
        errs.errors[0].notes[0].text.as_str(),
        "'tag' may not be omitted"
    );
}

#[test]
fn span_defaults_to_current_once() {
    let sv = span_value(vec![leaf(Rule::SpanDuration, "Month")]);
    let r = read_span(&sv).unwrap();
    assert_eq!(r.duration, Duration::Month);
    assert_eq!(r.window, Window::Current);
    assert_eq!(r.count, 1);
}

#[test]
fn span_reads_window_and_count() {
    let sv = span_value(vec![
        leaf(Rule::SpanDuration, "Week"),
        leaf(Rule::SpanWindow, "Post"),
        leaf(Rule::SpanCount, "3"),
    ]);
    let r = read_span(&sv).unwrap();
    assert_eq!(r.duration, Duration::Week);
    assert_eq!(r.window, Window::Posterior);
    assert_eq!(r.count, 3);
    let sv = span_value(vec![leaf(Rule::SpanDuration, "Year"), leaf(Rule::SpanCount, "2")]);
    let r = read_span(&sv).unwrap();
    assert_eq!(r.duration, Duration::Year);
    assert_eq!(r.window, Window::Current);
    assert_eq!(r.count, 2);
}

fn plain_entry_in_day(day: &str) -> Node {
    node(
        Rule::EntriesDay,
        "",
        vec![
            leaf(Rule::MarkerDay, day),
            node(
                Rule::Entry,
                "",
                vec![node(
                    Rule::PlainEntry,
                    "",
                    vec![
                        field_val("7.00"),
                        field_type("Home"),
                        field_span("Day"),
                        field_tag("x"),
                    ],
                )],
            ),
        ],
    )
}

fn year_tree(year: &str, month: &str, day: &str) -> Vec<Node> {
    vec![
        node(
            Rule::Item,
            "",
            vec![node(
                Rule::EntriesYear,
                "",
                vec![
                    leaf(Rule::MarkerYear, year),
                    node(
                        Rule::EntriesMonth,
                        "",
                        vec![leaf(Rule::MarkerMonth, month), plain_entry_in_day(day)],
                    ),
                ],
            )],
        ),
        leaf(Rule::Eoi, ""),
    ]
}

#[test]
fn invalid_date_is_reported_and_skipped() {
    let mut errs = ErrorRecord::new();
    let ast = validate("test", &mut errs, &year_tree("2023", "02", "29"));
    assert!(ast.is_empty());
    assert_eq!(errs.len(), 1);
    assert_eq!(errs.errors[0].title.as_str(), "Invalid date");
    assert_eq!(
        errs.errors[0].notes[1].text.as_str(),
        "day does not exist in this month"
    );
}

#[test]
fn invalid_month_is_reported_and_skipped() {
    let mut errs = ErrorRecord::new();
    let ast = validate("test", &mut errs, &year_tree("2023", "13", "01"));
    assert!(ast.is_empty());
    assert_eq!(errs.len(), 1);
    assert_eq!(errs.errors[0].title.as_str(), "Invalid date");
    assert_eq!(
        errs.errors[0].notes[1].text.as_str(),
        "month must lie between 01 and 12"
    );
}

#[test]
fn valid_day_elaborates_to_dated_entry() {
    let mut errs = ErrorRecord::new();
    let ast = validate("test", &mut errs, &year_tree("2024", "02", "29"));
    assert_eq!(errs.len(), 0);
    assert_eq!(ast.len(), 1);
    match &ast[0] {
        AstItem::Entry(date, entry) => {
            assert_eq!(date.year(), 2024);
            assert_eq!(date.day(), 29);
            assert_eq!(entry.value.0, 700);
        },
        _ => panic!("expected a dated entry"),
    }
}

#[test]
fn elaboration_is_idempotent() {
    let tree = year_tree("2024", "01", "15");
    let mut errs1 = ErrorRecord::new();
    let mut errs2 = ErrorRecord::new();
    let first = validate("test", &mut errs1, &tree);
    let second = validate("test", &mut errs2, &tree);
    assert_eq!(first, second);
    assert_eq!(errs1.len(), errs2.len());
}

#[test]
fn errors_accumulate_across_siblings() {
    // two bad day blocks in one month: both reported, none elaborated
    let bad_month = node(
        Rule::EntriesMonth,
        "",
        vec![
            leaf(Rule::MarkerMonth, "02"),
            plain_entry_in_day("30"),
            plain_entry_in_day("31"),
            plain_entry_in_day("28"),
        ],
    );
    let tree = vec![
        node(
            Rule::Item,
            "",
            vec![node(
                Rule::EntriesYear,
                "",
                vec![leaf(Rule::MarkerYear, "2023"), bad_month],
            )],
        ),
        leaf(Rule::Eoi, ""),
    ];
    let mut errs = ErrorRecord::new();
    let ast = validate("test", &mut errs, &tree);
    assert_eq!(errs.len(), 2);
    assert_eq!(ast.len(), 1);
}

#[test]
fn template_duplicate_type_field() {
    // the template body names the field "type" in its duplicate diagnostic
    let body = node(
        Rule::TemplateExpansionContents,
        "",
        vec![
            field_type("Food"),
            field_type("Home"),
        ],
    );
    let templ = node(
        Rule::TemplateDescriptor,
        "",
        vec![
            leaf(Rule::Identifier, "t"),
            node(Rule::TemplateArgs, "", vec![]),
            body,
        ],
    );
    let tree = vec![node(Rule::Item, "", vec![templ]), leaf(Rule::Eoi, "")];
    let mut errs = ErrorRecord::new();
    let ast = validate("test", &mut errs, &tree);
    assert!(ast.is_empty());
    assert_eq!(errs.len(), 1);
    assert_eq!(errs.errors[0].title.as_str(), "Duplicate field definition");
    assert_eq!(
        errs.errors[0].notes[0].text.as_str(),
        "attempt to override type"
    );
}
