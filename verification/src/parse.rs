//! The AST elaborator: a deterministic, total mapping from the external
//! grammar's parse tree to a typed AST, or to location-tagged diagnostics.
//! Diagnostics accumulate: a fatal one aborts only the smallest enclosing
//! declaration, and elaboration goes on with its siblings.

use vstd::prelude::*;

use crate::date::{date_wf, month_num, spec_date_error_text, spec_month_from, Date, DateError, Month};
use crate::entry::{
    spec_cat_from_code, spec_dur_from_code, spec_win_from_code, Amount, Category, Duration, Entry,
    EntryV, Span, Tag, Window,
};
use crate::error::{error_v, Error, ErrorRecord, ErrorV, Loc, LocV};
use crate::numfmt::{
    all_digits, digits_val, is_money_lit, money_body, money_cents, money_mag, parse_cents,
    parse_usize, str_eq,
};
use crate::template::{
    ast_dates_wf, item_date_wf, AmountTemplate, AmountTemplateItem, AmountTemplateItemV,
    AmountTemplateV, Arg, ArgV, Instance, InstanceV, TagTemplate, TagTemplateItem,
    TagTemplateItemV, Template, TemplateV,
};
use crate::tree::{
    make_loc, node_loc, spec_subrule, subrule, subrule_of, three_children, two_children, Node, Rule,
};

verus! {

/// One top-level unit of the elaborated AST: a concrete dated entry, a dated
/// template-instantiation request, or a template definition.
#[derive(Debug, PartialEq, Eq)]
pub enum AstItem {
    Entry(Date, Entry),
    Instance(Date, Loc, Instance),
    Template(String, Loc, Template),
}

/// Mathematical image of an [`AstItem`].
pub enum AstItemV {
    Entry(Date, EntryV),
    Instance(Date, LocV, InstanceV),
    Template(Seq<char>, LocV, TemplateV),
}

impl DeepView for AstItem {
    type V = AstItemV;

    open spec fn deep_view(&self) -> AstItemV {
        match self {
            AstItem::Entry(d, e) => AstItemV::Entry(*d, e.deep_view()),
            AstItem::Instance(d, l, i) => AstItemV::Instance(*d, l.deep_view(), i.deep_view()),
            AstItem::Template(n, l, t) => AstItemV::Template(n@, l.deep_view(), t.deep_view()),
        }
    }
}

/// The elaborated form of one source file.
pub type Ast = Vec<AstItem>;

/// Image of [`read_amount`]: the amount a `MoneyAmount` leaf denotes, when
/// its text is a monetary literal whose magnitude fits in `i64` cents.
pub open spec fn spec_read_amount(n: Node) -> Option<Amount> {
    if n.rule == Rule::MoneyAmount && is_money_lit(n.text@) && money_mag(money_body(n.text@))
        <= i64::MAX {
        Some(Amount(money_cents(n.text@) as i64))
    } else {
        None
    }
}

/// Read a monetary literal leaf.
pub fn read_amount(item: &Node) -> (r: Option<Amount>)
    ensures
        r == spec_read_amount(*item),
{
    if item.rule == Rule::MoneyAmount {
        match parse_cents(item.text.as_str()) {
            Some(v) => Some(Amount(v)),
            None => None,
        }
    } else {
        None
    }
}

/// Image of [`read_cat`]: the category a code leaf selects.
pub open spec fn spec_read_cat(n: Node) -> Option<Category> {
    spec_cat_from_code(n.text@)
}

/// Read a category code leaf.
pub fn read_cat(pair: &Node) -> (r: Option<Category>)
    ensures
        r == spec_read_cat(*pair),
{
    Category::from_code(pair.text.as_str())
}

/// Image of a repeat-count leaf: a base-10 numeral that fits in `usize`.
pub open spec fn spec_read_count(n: Node) -> Option<usize> {
    if n.text@.len() > 0 && all_digits(n.text@) && digits_val(n.text@) <= usize::MAX {
        Some(digits_val(n.text@) as usize)
    } else {
        None
    }
}

/// Image of [`read_span`]: duration, then an optional window (default
/// `Current`), then an optional repeat count (default 1).
pub open spec fn spec_read_span(n: Node) -> Option<Span> {
    let c = n.children@;
    if c.len() == 0 || c.len() > 3 {
        None
    } else {
        match spec_dur_from_code(c[0].text@) {
            None => None,
            Some(dur) => {
                if c.len() == 1 {
                    Some(Span { duration: dur, window: Window::Current, count: 1 })
                } else if c[1].rule == Rule::SpanWindow {
                    match spec_win_from_code(c[1].text@) {
                        None => None,
                        Some(win) => {
                            if c.len() == 2 {
                                Some(Span { duration: dur, window: win, count: 1 })
                            } else {
                                match spec_read_count(c[2]) {
                                    None => None,
                                    Some(k) => Some(Span { duration: dur, window: win, count: k }),
                                }
                            }
                        },
                    }
                } else if c.len() == 2 {
                    match spec_read_count(c[1]) {
                        None => None,
                        Some(k) => Some(
                            Span { duration: dur, window: Window::Current, count: k },
                        ),
                    }
                } else {
                    None
                }
            },
        }
    }
}

/// Read a span: `Duration [Window] [count]`.
pub fn read_span(pair: &Node) -> (r: Option<Span>)
    ensures
        r == spec_read_span(*pair),
{
    let len = pair.children.len();
    if len == 0 || len > 3 {
        return None;
    }
    let dur = match Duration::from_code(pair.children[0].text.as_str()) {
        Some(d) => d,
        None => {
            return None;
        },
    };
    if len == 1 {
        return Some(Span { duration: dur, window: Window::Current, count: 1 });
    }
    if pair.children[1].rule == Rule::SpanWindow {
        let win = match Window::from_code(pair.children[1].text.as_str()) {
            Some(w) => w,
            None => {
                return None;
            },
        };
        if len == 2 {
            return Some(Span { duration: dur, window: win, count: 1 });
        }
        match parse_usize(pair.children[2].text.as_str()) {
            Some(k) => Some(Span { duration: dur, window: win, count: k }),
            None => None,
        }
    } else if len == 2 {
        match parse_usize(pair.children[1].text.as_str()) {
            Some(k) => Some(Span { duration: dur, window: Window::Current, count: k }),
            None => None,
        }
    } else {
        None
    }
}

/// Image of a tag-text node: its quoted content, held by its single child.
pub open spec fn spec_read_tag_text(n: Node) -> Option<Seq<char>> {
    if n.rule == Rule::TagText && n.children@.len() == 1 {
        Some(n.children@[0].text@)
    } else {
        None
    }
}

/// Read the content of a tag-text node.
pub fn read_tag_text(n: &Node) -> (r: Option<String>)
    ensures
        r.deep_view() == spec_read_tag_text(*n),
{
    match subrule_of(n, Rule::TagText) {
        Some(c) => Some(c.text.clone()),
        None => None,
    }
}

/// Image of [`read_value`]: a call-site argument value, either a monetary
/// literal or a tag text.
pub open spec fn spec_read_value(n: Node) -> Option<ArgV> {
    if n.rule == Rule::MoneyAmount {
        match spec_read_amount(n) {
            Some(a) => Some(ArgV::Amount(a)),
            None => None,
        }
    } else if n.rule == Rule::TagText {
        match spec_read_tag_text(n) {
            Some(t) => Some(ArgV::Tag(t)),
            None => None,
        }
    } else {
        None
    }
}

/// Read a call-site argument value.
pub fn read_value(pair: &Node) -> (r: Option<Arg>)
    ensures
        r.deep_view() == spec_read_value(*pair),
{
    if pair.rule == Rule::MoneyAmount {
        match read_amount(pair) {
            Some(a) => Some(Arg::Amount(a)),
            None => None,
        }
    } else if pair.rule == Rule::TagText {
        match read_tag_text(pair) {
            Some(t) => Some(Arg::Tag(t)),
            None => None,
        }
    } else {
        None
    }
}

/// Image of [`read_arg`]: one declared template parameter, positional (no
/// default) or named (with a default value).
pub open spec fn spec_read_arg(n: Node) -> Option<(Seq<char>, Option<ArgV>)> {
    if n.rule == Rule::TemplatePositionalArg {
        Some((n.text@, None))
    } else if n.rule == Rule::TemplateNamedArg && n.children@.len() == 2 {
        let name = n.children@[0].text@;
        let dflt = n.children@[1];
        if dflt.rule == Rule::MoneyAmount {
            match spec_read_amount(dflt) {
                Some(a) => Some((name, Some(ArgV::Amount(a)))),
                None => None,
            }
        } else if dflt.rule == Rule::TagText {
            match spec_read_tag_text(dflt) {
                Some(t) => Some((name, Some(ArgV::Tag(t)))),
                None => None,
            }
        } else {
            None
        }
    } else {
        None
    }
}

/// Read one declared template parameter.
pub fn read_arg(pair: &Node) -> (r: Option<(String, Option<Arg>)>)
    ensures
        r.deep_view() == spec_read_arg(*pair),
{
    if pair.rule == Rule::TemplatePositionalArg {
        Some((pair.text.clone(), None))
    } else if pair.rule == Rule::TemplateNamedArg {
        match two_children(pair) {
            Some((name, dflt)) => {
                if dflt.rule == Rule::MoneyAmount {
                    match read_amount(dflt) {
                        Some(a) => Some((name.text.clone(), Some(Arg::Amount(a)))),
                        None => None,
                    }
                } else if dflt.rule == Rule::TagText {
                    match read_tag_text(dflt) {
                        Some(t) => Some((name.text.clone(), Some(Arg::Tag(t)))),
                        None => None,
                    }
                } else {
                    None
                }
            },
            None => None,
        }
    } else {
        None
    }
}

/// Image of [`read_args`]: the declared parameter list, split into positional
/// names and named parameters with defaults, in declaration order.
pub open spec fn spec_read_args(items: Seq<Node>) -> Option<
    (Seq<Seq<char>>, Seq<(Seq<char>, ArgV)>),
>
    decreases items.len(),
{
    if items.len() == 0 {
        Some((Seq::empty(), Seq::empty()))
    } else {
        match spec_read_arg(items[0]) {
            None => None,
            Some(head) => match spec_read_args(items.drop_first()) {
                None => None,
                Some(rest) => match head.1 {
                    None => Some((seq![head.0] + rest.0, rest.1)),
                    Some(d) => Some((rest.0, seq![(head.0, d)] + rest.1)),
                },
            },
        }
    }
}

/// Combine an already-read prefix of a parameter list with the outcome of
/// reading the remainder.
pub open spec fn args_combine(
    done: (Seq<Seq<char>>, Seq<(Seq<char>, ArgV)>),
    rest: Option<(Seq<Seq<char>>, Seq<(Seq<char>, ArgV)>)>,
) -> Option<(Seq<Seq<char>>, Seq<(Seq<char>, ArgV)>)> {
    match rest {
        None => None,
        Some(r) => Some((done.0 + r.0, done.1 + r.1)),
    }
}

/// Read a declared parameter list.
pub fn read_args(pairs: &Vec<Node>) -> (r: Option<(Vec<String>, Vec<(String, Arg)>)>)
    ensures
        r is Some <==> spec_read_args(pairs@) is Some,
        r matches Some(v) ==> spec_read_args(pairs@) matches Some(sv) && v.0.deep_view() == sv.0
            && v.1.deep_view() == sv.1,
{
    let mut positional: Vec<String> = Vec::new();
    let mut named: Vec<(String, Arg)> = Vec::new();
    let mut i: usize = 0;
    proof {
        assert(pairs@.skip(0) =~= pairs@);
        assert(positional.deep_view() =~= Seq::<Seq<char>>::empty());
        assert(named.deep_view() =~= Seq::<(Seq<char>, ArgV)>::empty());
    }
    while i < pairs.len()
        invariant
            i <= pairs.len(),
            spec_read_args(pairs@) == args_combine(
                (positional.deep_view(), named.deep_view()),
                spec_read_args(pairs@.skip(i as int)),
            ),
        decreases pairs.len() - i,
    {
        proof {
            assert(pairs@.skip(i as int)[0] == pairs@[i as int]);
            assert(pairs@.skip(i as int).drop_first() =~= pairs@.skip(i as int + 1));
        }
        match read_arg(&pairs[i]) {
            None => {
                return None;
            },
            Some((name, dflt)) => {
                let ghost old_pos = positional.deep_view();
                let ghost old_named = named.deep_view();
                let ghost dflt_v = dflt.deep_view();
                match dflt {
                    None => {
                        positional.push(name);
                        proof {
                            assert(positional.deep_view() =~= old_pos + seq![
                                pairs@[i as int].text@,
                            ]);
                        }
                    },
                    Some(d) => {
                        let ghost dv = d.deep_view();
                        named.push((name, d));
                        proof {
                            assert(named.deep_view() =~= old_named + seq![(name@, dv)]);
                        }
                    },
                }
            },
        }
        i = i + 1;
        proof {
            match spec_read_args(pairs@.skip(i as int)) {
                Some(rest) => {
                    match spec_read_args(pairs@) {
                        Some(total) => {
                            assert(total.0 =~= positional.deep_view() + rest.0);
                            assert(total.1 =~= named.deep_view() + rest.1);
                        },
                        None => {},
                    }
                },
                None => {},
            }
        }
    }
    proof {
        assert(pairs@.skip(pairs@.len() as int) =~= Seq::<Node>::empty());
    }
    Some((positional, named))
}


/// Image of one amount-template summand: a constant or an argument reference.
pub open spec fn spec_amount_item(n: Node) -> Option<AmountTemplateItemV> {
    if n.rule == Rule::MoneyAmount {
        match spec_read_amount(n) {
            Some(a) => Some(AmountTemplateItemV::Cst(a)),
            None => None,
        }
    } else if n.rule == Rule::TemplateArgExpand {
        if n.children@.len() == 1 {
            Some(AmountTemplateItemV::Arg(n.children@[0].text@))
        } else {
            None
        }
    } else {
        None
    }
}

fn amount_item(n: &Node) -> (r: Option<AmountTemplateItem>)
    ensures
        r.deep_view() == spec_amount_item(*n),
{
    if n.rule == Rule::MoneyAmount {
        match read_amount(n) {
            Some(a) => Some(AmountTemplateItem::Cst(a)),
            None => None,
        }
    } else if n.rule == Rule::TemplateArgExpand {
        match subrule(n) {
            Some(c) => Some(AmountTemplateItem::Arg(c.text.clone())),
            None => None,
        }
    } else {
        None
    }
}

/// Image of a builtin-sum list: each child wraps one summand.
pub open spec fn spec_sum_entries(ws: Seq<Node>) -> Option<Seq<AmountTemplateItemV>>
    decreases ws.len(),
{
    if ws.len() == 0 {
        Some(Seq::empty())
    } else {
        match spec_subrule(ws[0]) {
            None => None,
            Some(item) => match spec_amount_item(item) {
                None => None,
                Some(v) => match spec_sum_entries(ws.drop_first()) {
                    None => None,
                    Some(rest) => Some(seq![v] + rest),
                },
            },
        }
    }
}

/// Combine an already-read prefix of a summand list with the rest.
pub open spec fn sum_combine(
    done: Seq<AmountTemplateItemV>,
    rest: Option<Seq<AmountTemplateItemV>>,
) -> Option<Seq<AmountTemplateItemV>> {
    match rest {
        None => None,
        Some(r) => Some(done + r),
    }
}

/// Image of an amount expression once its sign is known: a builtin sum, or a
/// single summand.
pub open spec fn spec_template_amount_body(sign: bool, x: Node) -> Option<AmountTemplateV> {
    if x.rule == Rule::BuiltinSum {
        match spec_subrule(x) {
            None => None,
            Some(lst) => match spec_sum_entries(lst.children@) {
                None => None,
                Some(items) => Some(AmountTemplateV { sign: sign, sum: items }),
            },
        }
    } else {
        match spec_amount_item(x) {
            None => None,
            Some(it) => Some(AmountTemplateV { sign: sign, sum: seq![it] }),
        }
    }
}

/// Image of [`read_template_amount`]: an optional leading negation around a
/// sum of constants and argument references.
pub open spec fn spec_read_template_amount(n: Node) -> Option<AmountTemplateV> {
    if n.rule == Rule::BuiltinNeg {
        match spec_subrule(n) {
            None => None,
            Some(x) => spec_template_amount_body(false, x),
        }
    } else {
        spec_template_amount_body(true, n)
    }
}

fn template_amount_body(sign: bool, x: &Node) -> (r: Option<AmountTemplate>)
    ensures
        r.deep_view() == spec_template_amount_body(sign, *x),
{
    if x.rule == Rule::BuiltinSum {
        let lst = match subrule(x) {
            Some(l) => l,
            None => {
                return None;
            },
        };
        let mut sum: Vec<AmountTemplateItem> = Vec::new();
        let mut i: usize = 0;
        proof {
            assert(lst.children@.skip(0) =~= lst.children@);
            assert(sum.deep_view() =~= Seq::<AmountTemplateItemV>::empty());
        }
        while i < lst.children.len()
            invariant
                i <= lst.children.len(),
                x.rule == Rule::BuiltinSum,
                x.children@.len() == 1,
                *lst == x.children@[0],
                spec_sum_entries(lst.children@) == sum_combine(
                    sum.deep_view(),
                    spec_sum_entries(lst.children@.skip(i as int)),
                ),
            decreases lst.children.len() - i,
        {
            proof {
                assert(lst.children@.skip(i as int)[0] == lst.children@[i as int]);
                assert(lst.children@.skip(i as int).drop_first() =~= lst.children@.skip(
                    i as int + 1,
                ));
            }
            let item = match subrule(&lst.children[i]) {
                Some(c) => c,
                None => {
                    return None;
                },
            };
            match amount_item(item) {
                Some(v) => {
                    let ghost old_sum = sum.deep_view();
                    let ghost vv = v.deep_view();
                    sum.push(v);
                    proof {
                        assert(sum.deep_view() =~= old_sum + seq![vv]);
                    }
                },
                None => {
                    return None;
                },
            }
            i = i + 1;
            proof {
                match spec_sum_entries(lst.children@.skip(i as int)) {
                    Some(rest) => {
                        match spec_sum_entries(lst.children@) {
                            Some(total) => {
                                assert(total =~= sum.deep_view() + rest);
                            },
                            None => {},
                        }
                    },
                    None => {},
                }
            }
        }
        proof {
            assert(lst.children@.skip(lst.children@.len() as int) =~= Seq::<Node>::empty());
        }
        Some(AmountTemplate { sign: sign, sum: sum })
    } else {
        match amount_item(x) {
            Some(it) => {
                let ghost itv = it.deep_view();
                let sum = vec![it];
                proof {
                    assert(sum.deep_view() =~= seq![itv]);
                }
                Some(AmountTemplate { sign: sign, sum: sum })
            },
            None => None,
        }
    }
}

/// Read an amount expression: optional negation, then a sum of monetary
/// constants and argument references.
pub fn read_template_amount(pair: &Node) -> (r: Option<AmountTemplate>)
    ensures
        r.deep_view() == spec_read_template_amount(*pair),
{
    if pair.rule == Rule::BuiltinNeg {
        match subrule(pair) {
            Some(x) => template_amount_body(false, x),
            None => None,
        }
    } else {
        template_amount_body(true, pair)
    }
}

/// Image of a date builtin token of a tag template.
pub open spec fn spec_time_token(s: Seq<char>) -> Option<TagTemplateItemV> {
    if s == "@Day"@ {
        Some(TagTemplateItemV::Day)
    } else if s == "@Month"@ {
        Some(TagTemplateItemV::Month)
    } else if s == "@Year"@ {
        Some(TagTemplateItemV::Year)
    } else if s == "@Date"@ {
        Some(TagTemplateItemV::Date)
    } else if s == "@Weekday"@ {
        Some(TagTemplateItemV::Weekday)
    } else {
        None
    }
}

/// Image of one tag-template piece: a raw string, an argument reference, or a
/// date builtin.
pub open spec fn spec_tag_item(n: Node) -> Option<TagTemplateItemV> {
    if n.rule == Rule::TagText {
        match spec_read_tag_text(n) {
            Some(t) => Some(TagTemplateItemV::Raw(t)),
            None => None,
        }
    } else if n.rule == Rule::TemplateArgExpand {
        if n.children@.len() == 1 {
            Some(TagTemplateItemV::Arg(n.children@[0].text@))
        } else {
            None
        }
    } else if n.rule == Rule::TemplateTime {
        spec_time_token(n.text@)
    } else {
        None
    }
}

fn tag_item(n: &Node) -> (r: Option<TagTemplateItem>)
    ensures
        r.deep_view() == spec_tag_item(*n),
{
    if n.rule == Rule::TagText {
        match read_tag_text(n) {
            Some(t) => Some(TagTemplateItem::Raw(t)),
            None => None,
        }
    } else if n.rule == Rule::TemplateArgExpand {
        match subrule(n) {
            Some(c) => Some(TagTemplateItem::Arg(c.text.clone())),
            None => None,
        }
    } else if n.rule == Rule::TemplateTime {
        if str_eq(n.text.as_str(), "@Day") {
            Some(TagTemplateItem::Day)
        } else if str_eq(n.text.as_str(), "@Month") {
            Some(TagTemplateItem::Month)
        } else if str_eq(n.text.as_str(), "@Year") {
            Some(TagTemplateItem::Year)
        } else if str_eq(n.text.as_str(), "@Date") {
            Some(TagTemplateItem::Date)
        } else if str_eq(n.text.as_str(), "@Weekday") {
            Some(TagTemplateItem::Weekday)
        } else {
            None
        }
    } else {
        None
    }
}

/// Image of a builtin-concat list: each child wraps one tag piece.
pub open spec fn spec_concat_entries(ws: Seq<Node>) -> Option<Seq<TagTemplateItemV>>
    decreases ws.len(),
{
    if ws.len() == 0 {
        Some(Seq::empty())
    } else if ws[0].rule != Rule::TemplateString {
        None
    } else {
        match spec_subrule(ws[0]) {
            None => None,
            Some(item) => match spec_tag_item(item) {
                None => None,
                Some(v) => match spec_concat_entries(ws.drop_first()) {
                    None => None,
                    Some(rest) => Some(seq![v] + rest),
                },
            },
        }
    }
}

/// Image of a direct piece list: each child is one tag piece.
pub open spec fn spec_tag_items_direct(items: Seq<Node>) -> Option<Seq<TagTemplateItemV>>
    decreases items.len(),
{
    if items.len() == 0 {
        Some(Seq::empty())
    } else {
        match spec_tag_item(items[0]) {
            None => None,
            Some(v) => match spec_tag_items_direct(items.drop_first()) {
                None => None,
                Some(rest) => Some(seq![v] + rest),
            },
        }
    }
}

/// Combine an already-read prefix of a tag-piece list with the rest.
pub open spec fn tag_combine(
    done: Seq<TagTemplateItemV>,
    rest: Option<Seq<TagTemplateItemV>>,
) -> Option<Seq<TagTemplateItemV>> {
    match rest {
        None => None,
        Some(r) => Some(done + r),
    }
}

/// Image of [`read_template_tag`]: a builtin concatenation, a single raw
/// string, or a wrapper around direct pieces.
pub open spec fn spec_read_template_tag(n: Node) -> Option<Seq<TagTemplateItemV>> {
    if n.rule == Rule::BuiltinConcat {
        match spec_subrule(n) {
            None => None,
            Some(lst) => spec_concat_entries(lst.children@),
        }
    } else if n.rule == Rule::TagText {
        match spec_tag_item(n) {
            None => None,
            Some(it) => Some(seq![it]),
        }
    } else {
        spec_tag_items_direct(n.children@)
    }
}

/// Read a tag expression: text pieces, argument references and date builtins
/// concatenated in order.
pub fn read_template_tag(pair: &Node) -> (r: Option<TagTemplate>)
    ensures
        r.deep_view() == spec_read_template_tag(*pair),
{
    if pair.rule == Rule::BuiltinConcat {
        let lst = match subrule(pair) {
            Some(l) => l,
            None => {
                return None;
            },
        };
        let mut strs: Vec<TagTemplateItem> = Vec::new();
        let mut i: usize = 0;
        proof {
            assert(lst.children@.skip(0) =~= lst.children@);
            assert(strs.deep_view() =~= Seq::<TagTemplateItemV>::empty());
        }
        while i < lst.children.len()
            invariant
                i <= lst.children.len(),
                pair.rule == Rule::BuiltinConcat,
                pair.children@.len() == 1,
                *lst == pair.children@[0],
                spec_concat_entries(lst.children@) == tag_combine(
                    strs.deep_view(),
                    spec_concat_entries(lst.children@.skip(i as int)),
                ),
            decreases lst.children.len() - i,
        {
            proof {
                assert(lst.children@.skip(i as int)[0] == lst.children@[i as int]);
                assert(lst.children@.skip(i as int).drop_first() =~= lst.children@.skip(
                    i as int + 1,
                ));
            }
            if lst.children[i].rule != Rule::TemplateString {
                return None;
            }
            let item = match subrule(&lst.children[i]) {
                Some(c) => c,
                None => {
                    return None;
                },
            };
            match tag_item(item) {
                Some(v) => {
                    let ghost old_strs = strs.deep_view();
                    let ghost vv = v.deep_view();
                    strs.push(v);
                    proof {
                        assert(strs.deep_view() =~= old_strs + seq![vv]);
                    }
                },
                None => {
                    return None;
                },
            }
            i = i + 1;
            proof {
                match spec_concat_entries(lst.children@.skip(i as int)) {
                    Some(rest) => {
                        match spec_concat_entries(lst.children@) {
                            Some(total) => {
                                assert(total =~= strs.deep_view() + rest);
                            },
                            None => {},
                        }
                    },
                    None => {},
                }
            }
        }
        proof {
            assert(lst.children@.skip(lst.children@.len() as int) =~= Seq::<Node>::empty());
        }
        Some(TagTemplate(strs))
    } else if pair.rule == Rule::TagText {
        match tag_item(pair) {
            Some(it) => {
                let ghost itv = it.deep_view();
                let strs = vec![it];
                proof {
                    assert(strs.deep_view() =~= seq![itv]);
                }
                Some(TagTemplate(strs))
            },
            None => None,
        }
    } else {
        let mut strs: Vec<TagTemplateItem> = Vec::new();
        let mut i: usize = 0;
        proof {
            assert(pair.children@.skip(0) =~= pair.children@);
            assert(strs.deep_view() =~= Seq::<TagTemplateItemV>::empty());
        }
        while i < pair.children.len()
            invariant
                i <= pair.children.len(),
                pair.rule != Rule::BuiltinConcat,
                pair.rule != Rule::TagText,
                spec_tag_items_direct(pair.children@) == tag_combine(
                    strs.deep_view(),
                    spec_tag_items_direct(pair.children@.skip(i as int)),
                ),
            decreases pair.children.len() - i,
        {
            proof {
                assert(pair.children@.skip(i as int)[0] == pair.children@[i as int]);
                assert(pair.children@.skip(i as int).drop_first() =~= pair.children@.skip(
                    i as int + 1,
                ));
            }
            match tag_item(&pair.children[i]) {
                Some(v) => {
                    let ghost old_strs = strs.deep_view();
                    let ghost vv = v.deep_view();
                    strs.push(v);
                    proof {
                        assert(strs.deep_view() =~= old_strs + seq![vv]);
                    }
                },
                None => {
                    return None;
                },
            }
            i = i + 1;
            proof {
                match spec_tag_items_direct(pair.children@.skip(i as int)) {
                    Some(rest) => {
                        match spec_tag_items_direct(pair.children@) {
                            Some(total) => {
                                assert(total =~= strs.deep_view() + rest);
                            },
                            None => {},
                        }
                    },
                    None => {},
                }
            }
        }
        proof {
            assert(pair.children@.skip(pair.children@.len() as int) =~= Seq::<Node>::empty());
        }
        Some(TagTemplate(strs))
    }
}

/// Image of a call-site argument list: positional values in order, and named
/// values in order.
pub open spec fn spec_expand_args(items: Seq<Node>) -> Option<(Seq<ArgV>, Seq<(Seq<char>, ArgV)>)>
    decreases items.len(),
{
    if items.len() == 0 {
        Some((Seq::empty(), Seq::empty()))
    } else {
        let n = items[0];
        if n.rule == Rule::PositionalArg {
            match spec_subrule(n) {
                None => None,
                Some(v) => match spec_read_value(v) {
                    None => None,
                    Some(a) => match spec_expand_args(items.drop_first()) {
                        None => None,
                        Some(r) => Some((seq![a] + r.0, r.1)),
                    },
                },
            }
        } else if n.rule == Rule::NamedArg && n.children@.len() == 2 {
            match spec_subrule(n.children@[1]) {
                None => None,
                Some(v) => match spec_read_value(v) {
                    None => None,
                    Some(a) => match spec_expand_args(items.drop_first()) {
                        None => None,
                        Some(r) => Some((r.0, seq![(n.children@[0].text@, a)] + r.1)),
                    },
                },
            }
        } else {
            None
        }
    }
}

/// Combine an already-read prefix of a call-site argument list with the rest.
pub open spec fn expand_combine(
    done: (Seq<ArgV>, Seq<(Seq<char>, ArgV)>),
    rest: Option<(Seq<ArgV>, Seq<(Seq<char>, ArgV)>)>,
) -> Option<(Seq<ArgV>, Seq<(Seq<char>, ArgV)>)> {
    match rest {
        None => None,
        Some(r) => Some((done.0 + r.0, done.1 + r.1)),
    }
}

/// Image of [`read_expand_entry`]: a template name and its call-site
/// arguments.
pub open spec fn spec_read_expand_entry(n: Node) -> Option<InstanceV> {
    if n.children@.len() == 2 {
        match spec_expand_args(n.children@[1].children@) {
            None => None,
            Some(args) => Some(
                InstanceV { label: n.children@[0].text@, pos: args.0, named: args.1 },
            ),
        }
    } else {
        None
    }
}

/// Read a template-invocation entry: its label and arguments.
pub fn read_expand_entry(pairs: &Node) -> (r: Option<Instance>)
    ensures
        r.deep_view() == spec_read_expand_entry(*pairs),
{
    let (label, args) = match two_children(pairs) {
        Some(c) => c,
        None => {
            return None;
        },
    };
    let mut pos: Vec<Arg> = Vec::new();
    let mut named: Vec<(String, Arg)> = Vec::new();
    let mut i: usize = 0;
    proof {
        assert(args.children@.skip(0) =~= args.children@);
        assert(pos.deep_view() =~= Seq::<ArgV>::empty());
        assert(named.deep_view() =~= Seq::<(Seq<char>, ArgV)>::empty());
    }
    while i < args.children.len()
        invariant
            i <= args.children.len(),
            pairs.children@.len() == 2,
            *label == pairs.children@[0],
            *args == pairs.children@[1],
            spec_expand_args(args.children@) == expand_combine(
                (pos.deep_view(), named.deep_view()),
                spec_expand_args(args.children@.skip(i as int)),
            ),
        decreases args.children.len() - i,
    {
        proof {
            assert(args.children@.skip(i as int)[0] == args.children@[i as int]);
            assert(args.children@.skip(i as int).drop_first() =~= args.children@.skip(
                i as int + 1,
            ));
        }
        let arg = &args.children[i];
        if arg.rule == Rule::PositionalArg {
            let v = match subrule(arg) {
                Some(c) => c,
                None => {
                    return None;
                },
            };
            match read_value(v) {
                Some(a) => {
                    let ghost old_pos = pos.deep_view();
                    let ghost av = a.deep_view();
                    pos.push(a);
                    proof {
                        assert(pos.deep_view() =~= old_pos + seq![av]);
                    }
                },
                None => {
                    return None;
                },
            }
        } else if arg.rule == Rule::NamedArg {
            let (name, value) = match two_children(arg) {
                Some(c) => c,
                None => {
                    return None;
                },
            };
            let v = match subrule(value) {
                Some(c) => c,
                None => {
                    return None;
                },
            };
            match read_value(v) {
                Some(a) => {
                    let ghost old_named = named.deep_view();
                    let ghost av = a.deep_view();
                    let owned_name = name.text.clone();
                    named.push((owned_name, a));
                    proof {
                        assert(named.deep_view() =~= old_named + seq![
                            (args.children@[i as int].children@[0].text@, av),
                        ]);
                    }
                },
                None => {
                    return None;
                },
            }
        } else {
            return None;
        }
        i = i + 1;
        proof {
            match spec_expand_args(args.children@.skip(i as int)) {
                Some(rest) => {
                    match spec_expand_args(args.children@) {
                        Some(total) => {
                            assert(total.0 =~= pos.deep_view() + rest.0);
                            assert(total.1 =~= named.deep_view() + rest.1);
                        },
                        None => {},
                    }
                },
                None => {},
            }
        }
    }
    proof {
        assert(args.children@.skip(args.children@.len() as int) =~= Seq::<Node>::empty());
    }
    Some(Instance { label: label.text.clone(), pos: pos, named: named })
}


/// The diagnostic for a field defined twice in one declaration.
pub open spec fn dup_field_err(loc: LocV, name: Seq<char>) -> ErrorV {
    error_v("Duplicate field definition"@).with_span_v(loc, "attempt to override "@ + name)
        .with_message_v("Each field may only be defined once"@)
        .with_message_v("Remove this field"@)
}

/// The diagnostic for a field missing from a declaration.
pub open spec fn missing_field_err(loc: LocV, name: Seq<char>) -> ErrorV {
    error_v("Missing field definition"@).with_span_v(loc, "'"@ + name + "' may not be omitted"@)
        .with_message_v("Each field must be defined once"@)
        .with_message_v("Add definition for the missing field"@)
}

/// The diagnostic for a declaration refused for a reason the grammar should
/// have excluded: a shape mismatch or an unreadable literal.
pub open spec fn decl_err(title: Seq<char>, loc: LocV) -> ErrorV {
    error_v(title).with_span_v(loc, "in this declaration"@)
}

fn register_dup_field(errs: &mut ErrorRecord, loc: &Loc, name: &str)
    ensures
        final(errs).deep_view() == old(errs).deep_view().push(
            dup_field_err(loc.deep_view(), name@),
        ),
{
    Error::new("Duplicate field definition").with_span(
        loc,
        String::from_str("attempt to override ").concat(name),
    ).with_message(String::from_str("Each field may only be defined once")).with_message(
        String::from_str("Remove this field"),
    ).register(errs);
}

fn register_missing_field(errs: &mut ErrorRecord, loc: &Loc, name: &str)
    ensures
        final(errs).deep_view() == old(errs).deep_view().push(
            missing_field_err(loc.deep_view(), name@),
        ),
{
    Error::new("Missing field definition").with_span(
        loc,
        String::from_str("'").concat(name).concat("' may not be omitted"),
    ).with_message(String::from_str("Each field must be defined once")).with_message(
        String::from_str("Add definition for the missing field"),
    ).register(errs);
}

fn register_decl_err(errs: &mut ErrorRecord, title: &str, loc: &Loc)
    ensures
        final(errs).deep_view() == old(errs).deep_view().push(decl_err(title@, loc.deep_view())),
{
    Error::new(title).with_span(loc, String::from_str("in this declaration")).register(errs);
}

/// Field slots of a plain entry while its fields are collected.
pub struct PlainSt {
    pub value: Option<Amount>,
    pub cat: Option<Category>,
    pub span: Option<Span>,
    pub tag: Option<Seq<char>>,
}

/// The empty plain-entry state: nothing set yet.
pub open spec fn plain_init() -> PlainSt {
    PlainSt { value: None, cat: None, span: None, tag: None }
}

/// Process one field node of a plain entry: each field is settable at most
/// once, and its payload must be readable.
pub open spec fn spec_plain_step(st: PlainSt, n: Node, loc: LocV) -> Result<PlainSt, ErrorV> {
    if n.rule == Rule::EntryVal {
        if st.value is Some {
            Err(dup_field_err(loc, "val"@))
        } else {
            match spec_subrule(n) {
                None => Err(decl_err("Invalid amount"@, loc)),
                Some(c) => match spec_read_amount(c) {
                    None => Err(decl_err("Invalid amount"@, loc)),
                    Some(a) => Ok(PlainSt { value: Some(a), ..st }),
                },
            }
        }
    } else if n.rule == Rule::EntryType {
        if st.cat is Some {
            Err(dup_field_err(loc, "cat"@))
        } else {
            match spec_subrule(n) {
                None => Err(decl_err("Invalid category"@, loc)),
                Some(c) => match spec_read_cat(c) {
                    None => Err(decl_err("Invalid category"@, loc)),
                    Some(v) => Ok(PlainSt { cat: Some(v), ..st }),
                },
            }
        }
    } else if n.rule == Rule::EntrySpan {
        if st.span is Some {
            Err(dup_field_err(loc, "span"@))
        } else {
            match spec_subrule(n) {
                None => Err(decl_err("Invalid span"@, loc)),
                Some(c) => match spec_read_span(c) {
                    None => Err(decl_err("Invalid span"@, loc)),
                    Some(v) => Ok(PlainSt { span: Some(v), ..st }),
                },
            }
        }
    } else if n.rule == Rule::EntryTag {
        if st.tag is Some {
            Err(dup_field_err(loc, "tag"@))
        } else {
            match spec_subrule(n) {
                None => Err(decl_err("Invalid tag"@, loc)),
                Some(c) => match spec_read_tag_text(c) {
                    None => Err(decl_err("Invalid tag"@, loc)),
                    Some(t) => Ok(PlainSt { tag: Some(t), ..st }),
                },
            }
        }
    } else {
        Err(decl_err("Malformed parse tree"@, loc))
    }
}

/// Collect the fields of a plain entry left to right, stopping at the first
/// refused field.
pub open spec fn spec_plain_fields(items: Seq<Node>, st: PlainSt, loc: LocV) -> Result<
    PlainSt,
    ErrorV,
>
    decreases items.len(),
{
    if items.len() == 0 {
        Ok(st)
    } else {
        match spec_plain_step(st, items[0], loc) {
            Err(e) => Err(e),
            Ok(st2) => spec_plain_fields(items.drop_first(), st2, loc),
        }
    }
}

/// Demand each of the four fields exactly once, in the order `val`, `cat`,
/// `span`, `tag`.
pub open spec fn spec_plain_finish(st: PlainSt, loc: LocV) -> (Option<EntryV>, Seq<ErrorV>) {
    match st.value {
        None => (None::<EntryV>, seq![missing_field_err(loc, "val"@)]),
        Some(value) => match st.cat {
            None => (None::<EntryV>, seq![missing_field_err(loc, "cat"@)]),
            Some(cat) => match st.span {
                None => (None::<EntryV>, seq![missing_field_err(loc, "span"@)]),
                Some(span) => match st.tag {
                    None => (None::<EntryV>, seq![missing_field_err(loc, "tag"@)]),
                    Some(tag) => (
                        Some(EntryV { value: value, cat: cat, span: span, tag: tag }),
                        Seq::empty(),
                    ),
                },
            },
        },
    }
}

/// Image of [`validate_plain_entry`]: the entry a plain declaration denotes,
/// or exactly one diagnostic for the first thing wrong with it.
pub open spec fn spec_validate_plain_entry(path: Seq<char>, n: Node) -> (
    Option<EntryV>,
    Seq<ErrorV>,
) {
    let loc = node_loc(path, n);
    match spec_plain_fields(n.children@, plain_init(), loc) {
        Err(e) => (None::<EntryV>, seq![e]),
        Ok(st) => spec_plain_finish(st, loc),
    }
}

/// Elaborate a plain entry: four fields, each required, each settable at most
/// once; on failure, register one diagnostic and give the declaration up.
pub fn validate_plain_entry(path: &str, errs: &mut ErrorRecord, pair: &Node) -> (r: Option<Entry>)
    ensures
        r.deep_view() == spec_validate_plain_entry(path@, *pair).0,
        final(errs).deep_view() == old(errs).deep_view() + spec_validate_plain_entry(
            path@,
            *pair,
        ).1,
{
    let loc = make_loc(path, pair);
    let ghost lv = node_loc(path@, *pair);
    let mut value: Option<Amount> = None;
    let mut cat: Option<Category> = None;
    let mut span: Option<Span> = None;
    let mut tag: Option<String> = None;
    let mut i: usize = 0;
    proof {
        assert(pair.children@.skip(0) =~= pair.children@);
    }
    while i < pair.children.len()
        invariant
            i <= pair.children.len(),
            errs.deep_view() == old(errs).deep_view(),
            loc.deep_view() == lv,
            lv == node_loc(path@, *pair),
            spec_plain_fields(pair.children@, plain_init(), lv) == spec_plain_fields(
                pair.children@.skip(i as int),
                PlainSt { value: value, cat: cat, span: span, tag: tag.deep_view() },
                lv,
            ),
        decreases pair.children.len() - i,
    {
        proof {
            assert(pair.children@.skip(i as int)[0] == pair.children@[i as int]);
            assert(pair.children@.skip(i as int).drop_first() =~= pair.children@.skip(
                i as int + 1,
            ));
        }
        let item = &pair.children[i];
        if item.rule == Rule::EntryVal {
            if value.is_some() {
                register_dup_field(errs, &loc, "val");
                proof {
                    assert(errs.deep_view() =~= old(errs).deep_view() + seq![
                        dup_field_err(lv, "val"@),
                    ]);
                }
                return None;
            }
            let c = match subrule(item) {
                Some(c) => c,
                None => {
                    register_decl_err(errs, "Invalid amount", &loc);
                    proof {
                        assert(errs.deep_view() =~= old(errs).deep_view() + seq![
                            decl_err("Invalid amount"@, lv),
                        ]);
                    }
                    return None;
                },
            };
            match read_amount(c) {
                Some(a) => {
                    value = Some(a);
                },
                None => {
                    register_decl_err(errs, "Invalid amount", &loc);
                    proof {
                        assert(errs.deep_view() =~= old(errs).deep_view() + seq![
                            decl_err("Invalid amount"@, lv),
                        ]);
                    }
                    return None;
                },
            }
        } else if item.rule == Rule::EntryType {
            if cat.is_some() {
                register_dup_field(errs, &loc, "cat");
                proof {
                    assert(errs.deep_view() =~= old(errs).deep_view() + seq![
                        dup_field_err(lv, "cat"@),
                    ]);
                }
                return None;
            }
            let c = match subrule(item) {
                Some(c) => c,
                None => {
                    register_decl_err(errs, "Invalid category", &loc);
                    proof {
                        assert(errs.deep_view() =~= old(errs).deep_view() + seq![
                            decl_err("Invalid category"@, lv),
                        ]);
                    }
                    return None;
                },
            };
            match read_cat(c) {
                Some(v) => {
                    cat = Some(v);
                },
                None => {
                    register_decl_err(errs, "Invalid category", &loc);
                    proof {
                        assert(errs.deep_view() =~= old(errs).deep_view() + seq![
                            decl_err("Invalid category"@, lv),
                        ]);
                    }
                    return None;
                },
            }
        } else if item.rule == Rule::EntrySpan {
            if span.is_some() {
                register_dup_field(errs, &loc, "span");
                proof {
                    assert(errs.deep_view() =~= old(errs).deep_view() + seq![
                        dup_field_err(lv, "span"@),
                    ]);
                }
                return None;
            }
            let c = match subrule(item) {
                Some(c) => c,
                None => {
                    register_decl_err(errs, "Invalid span", &loc);
                    proof {
                        assert(errs.deep_view() =~= old(errs).deep_view() + seq![
                            decl_err("Invalid span"@, lv),
                        ]);
                    }
                    return None;
                },
            };
            match read_span(c) {
                Some(v) => {
                    span = Some(v);
                },
                None => {
                    register_decl_err(errs, "Invalid span", &loc);
                    proof {
                        assert(errs.deep_view() =~= old(errs).deep_view() + seq![
                            decl_err("Invalid span"@, lv),
                        ]);
                    }
                    return None;
                },
            }
        } else if item.rule == Rule::EntryTag {
            if tag.is_some() {
                register_dup_field(errs, &loc, "tag");
                proof {
                    assert(errs.deep_view() =~= old(errs).deep_view() + seq![
                        dup_field_err(lv, "tag"@),
                    ]);
                }
                return None;
            }
            let c = match subrule(item) {
                Some(c) => c,
                None => {
                    register_decl_err(errs, "Invalid tag", &loc);
                    proof {
                        assert(errs.deep_view() =~= old(errs).deep_view() + seq![
                            decl_err("Invalid tag"@, lv),
                        ]);
                    }
                    return None;
                },
            };
            match read_tag_text(c) {
                Some(t) => {
                    tag = Some(t);
                },
                None => {
                    register_decl_err(errs, "Invalid tag", &loc);
                    proof {
                        assert(errs.deep_view() =~= old(errs).deep_view() + seq![
                            decl_err("Invalid tag"@, lv),
                        ]);
                    }
                    return None;
                },
            }
        } else {
            register_decl_err(errs, "Malformed parse tree", &loc);
            proof {
                assert(errs.deep_view() =~= old(errs).deep_view() + seq![
                    decl_err("Malformed parse tree"@, lv),
                ]);
            }
            return None;
        }
        i = i + 1;
    }
    proof {
        assert(pair.children@.skip(pair.children@.len() as int) =~= Seq::<Node>::empty());
    }
    let value = match value {
        Some(v) => v,
        None => {
            register_missing_field(errs, &loc, "val");
            proof {
                assert(errs.deep_view() =~= old(errs).deep_view() + seq![
                    missing_field_err(lv, "val"@),
                ]);
            }
            return None;
        },
    };
    let cat = match cat {
        Some(v) => v,
        None => {
            register_missing_field(errs, &loc, "cat");
            proof {
                assert(errs.deep_view() =~= old(errs).deep_view() + seq![
                    missing_field_err(lv, "cat"@),
                ]);
            }
            return None;
        },
    };
    let span = match span {
        Some(v) => v,
        None => {
            register_missing_field(errs, &loc, "span");
            proof {
                assert(errs.deep_view() =~= old(errs).deep_view() + seq![
                    missing_field_err(lv, "span"@),
                ]);
            }
            return None;
        },
    };
    let tag = match tag {
        Some(v) => v,
        None => {
            register_missing_field(errs, &loc, "tag");
            proof {
                assert(errs.deep_view() =~= old(errs).deep_view() + seq![
                    missing_field_err(lv, "tag"@),
                ]);
            }
            return None;
        },
    };
    proof {
        assert(errs.deep_view() =~= old(errs).deep_view() + Seq::<ErrorV>::empty());
    }
    Some(Entry { value: value, cat: cat, span: span, tag: Tag(tag) })
}


/// Field slots of a template body while its fields are collected.
pub struct TemplSt {
    pub value: Option<AmountTemplateV>,
    pub cat: Option<Category>,
    pub span: Option<Span>,
    pub tag: Option<Seq<TagTemplateItemV>>,
}

/// The empty template-body state: nothing set yet.
pub open spec fn templ_init() -> TemplSt {
    TemplSt { value: None, cat: None, span: None, tag: None }
}

/// Image of a template `val` field: a `TemplateMoneyAmount` wrapper around
/// the amount expression.
pub open spec fn spec_templ_val(n: Node) -> Option<AmountTemplateV> {
    match spec_subrule(n) {
        None => None,
        Some(tma) => {
            if tma.rule == Rule::TemplateMoneyAmount && tma.children@.len() == 1 {
                spec_read_template_amount(tma.children@[0])
            } else {
                None
            }
        },
    }
}

/// Process one field node of a template body: each field is settable at most
/// once, and its payload must be readable.
pub open spec fn spec_templ_step(st: TemplSt, n: Node, loc: LocV) -> Result<TemplSt, ErrorV> {
    if n.rule == Rule::TemplateVal {
        if st.value is Some {
            Err(dup_field_err(loc, "val"@))
        } else {
            match spec_templ_val(n) {
                None => Err(decl_err("Invalid amount"@, loc)),
                Some(v) => Ok(TemplSt { value: Some(v), ..st }),
            }
        }
    } else if n.rule == Rule::EntryType {
        if st.cat is Some {
            Err(dup_field_err(loc, "type"@))
        } else {
            match spec_subrule(n) {
                None => Err(decl_err("Invalid category"@, loc)),
                Some(c) => match spec_read_cat(c) {
                    None => Err(decl_err("Invalid category"@, loc)),
                    Some(v) => Ok(TemplSt { cat: Some(v), ..st }),
                },
            }
        }
    } else if n.rule == Rule::EntrySpan {
        if st.span is Some {
            Err(dup_field_err(loc, "span"@))
        } else {
            match spec_subrule(n) {
                None => Err(decl_err("Invalid span"@, loc)),
                Some(c) => match spec_read_span(c) {
                    None => Err(decl_err("Invalid span"@, loc)),
                    Some(v) => Ok(TemplSt { span: Some(v), ..st }),
                },
            }
        }
    } else if n.rule == Rule::TemplateTag {
        if st.tag is Some {
            Err(dup_field_err(loc, "tag"@))
        } else {
            match spec_subrule(n) {
                None => Err(decl_err("Invalid tag"@, loc)),
                Some(c) => match spec_read_template_tag(c) {
                    None => Err(decl_err("Invalid tag"@, loc)),
                    Some(t) => Ok(TemplSt { tag: Some(t), ..st }),
                },
            }
        }
    } else {
        Err(decl_err("Malformed parse tree"@, loc))
    }
}

/// Collect the fields of a template body left to right, stopping at the
/// first refused field.
pub open spec fn spec_templ_fields(items: Seq<Node>, st: TemplSt, loc: LocV) -> Result<
    TemplSt,
    ErrorV,
>
    decreases items.len(),
{
    if items.len() == 0 {
        Ok(st)
    } else {
        match spec_templ_step(st, items[0], loc) {
            Err(e) => Err(e),
            Ok(st2) => spec_templ_fields(items.drop_first(), st2, loc),
        }
    }
}

/// Demand each of the four template fields exactly once, in the order `val`,
/// `cat`, `span`, `tag`.
pub open spec fn spec_templ_finish(
    st: TemplSt,
    pos: Seq<Seq<char>>,
    named: Seq<(Seq<char>, ArgV)>,
    loc: LocV,
) -> (Option<TemplateV>, Seq<ErrorV>) {
    match st.value {
        None => (None::<TemplateV>, seq![missing_field_err(loc, "val"@)]),
        Some(value) => match st.cat {
            None => (None::<TemplateV>, seq![missing_field_err(loc, "cat"@)]),
            Some(cat) => match st.span {
                None => (None::<TemplateV>, seq![missing_field_err(loc, "span"@)]),
                Some(span) => match st.tag {
                    None => (None::<TemplateV>, seq![missing_field_err(loc, "tag"@)]),
                    Some(tag) => (
                        Some(
                            TemplateV {
                                positional: pos,
                                named: named,
                                value: value,
                                cat: cat,
                                span: span,
                                tag: tag,
                            },
                        ),
                        Seq::empty(),
                    ),
                },
            },
        },
    }
}

/// Image of [`validate_template`]: the named template a declaration denotes,
/// or exactly one diagnostic for the first thing wrong with it.
pub open spec fn spec_validate_template(path: Seq<char>, n: Node) -> (
    Option<(Seq<char>, TemplateV)>,
    Seq<ErrorV>,
) {
    let loc = node_loc(path, n);
    if n.children@.len() != 3 {
        (None::<(Seq<char>, TemplateV)>, seq![decl_err("Malformed parse tree"@, loc)])
    } else {
        let id = n.children@[0];
        let args = n.children@[1];
        let body = n.children@[2];
        if id.rule != Rule::Identifier || args.rule != Rule::TemplateArgs || body.rule
            != Rule::TemplateExpansionContents {
            (None::<(Seq<char>, TemplateV)>, seq![decl_err("Malformed parse tree"@, loc)])
        } else {
            match spec_read_args(args.children@) {
                None => (
                    None::<(Seq<char>, TemplateV)>,
                    seq![decl_err("Malformed parse tree"@, loc)],
                ),
                Some(ps) => match spec_templ_fields(body.children@, templ_init(), loc) {
                    Err(e) => (None::<(Seq<char>, TemplateV)>, seq![e]),
                    Ok(st) => {
                        let fin = spec_templ_finish(st, ps.0, ps.1, loc);
                        match fin.0 {
                            None => (None::<(Seq<char>, TemplateV)>, fin.1),
                            Some(t) => (Some((id.text@, t)), fin.1),
                        }
                    },
                },
            }
        }
    }
}

/// Elaborate a template declaration: an identifier, a parameter list, and a
/// body with the four entry fields, of which `val` and `tag` may reference
/// parameters.
pub fn validate_template(path: &str, errs: &mut ErrorRecord, pair: &Node) -> (r: Option<
    (String, Template),
>)
    ensures
        r.deep_view() == spec_validate_template(path@, *pair).0,
        final(errs).deep_view() == old(errs).deep_view() + spec_validate_template(
            path@,
            *pair,
        ).1,
{
    let loc = make_loc(path, pair);
    let ghost lv = node_loc(path@, *pair);
    let (id, args, body) = match three_children(pair) {
        Some(c) => c,
        None => {
            register_decl_err(errs, "Malformed parse tree", &loc);
            proof {
                assert(errs.deep_view() =~= old(errs).deep_view() + seq![
                    decl_err("Malformed parse tree"@, lv),
                ]);
            }
            return None;
        },
    };
    if !(id.rule == Rule::Identifier && args.rule == Rule::TemplateArgs && body.rule
        == Rule::TemplateExpansionContents) {
        register_decl_err(errs, "Malformed parse tree", &loc);
        proof {
            assert(errs.deep_view() =~= old(errs).deep_view() + seq![
                decl_err("Malformed parse tree"@, lv),
            ]);
        }
        return None;
    }
    let (positional, named) = match read_args(&args.children) {
        Some(ps) => ps,
        None => {
            register_decl_err(errs, "Malformed parse tree", &loc);
            proof {
                assert(errs.deep_view() =~= old(errs).deep_view() + seq![
                    decl_err("Malformed parse tree"@, lv),
                ]);
            }
            return None;
        },
    };
    let mut value: Option<AmountTemplate> = None;
    let mut cat: Option<Category> = None;
    let mut span: Option<Span> = None;
    let mut tag: Option<TagTemplate> = None;
    let mut i: usize = 0;
    proof {
        assert(body.children@.skip(0) =~= body.children@);
    }
    while i < body.children.len()
        invariant
            i <= body.children.len(),
            errs.deep_view() == old(errs).deep_view(),
            loc.deep_view() == lv,
            lv == node_loc(path@, *pair),
            pair.children@.len() == 3,
            *id == pair.children@[0],
            *args == pair.children@[1],
            *body == pair.children@[2],
            id.rule == Rule::Identifier,
            args.rule == Rule::TemplateArgs,
            body.rule == Rule::TemplateExpansionContents,
            spec_read_args(args.children@) matches Some(ps) && ps.0 == positional.deep_view()
                && ps.1 == named.deep_view(),
            spec_templ_fields(body.children@, templ_init(), lv) == spec_templ_fields(
                body.children@.skip(i as int),
                TemplSt {
                    value: value.deep_view(),
                    cat: cat,
                    span: span,
                    tag: tag.deep_view(),
                },
                lv,
            ),
        decreases body.children.len() - i,
    {
        proof {
            assert(body.children@.skip(i as int)[0] == body.children@[i as int]);
            assert(body.children@.skip(i as int).drop_first() =~= body.children@.skip(
                i as int + 1,
            ));
        }
        let sub = &body.children[i];
        if sub.rule == Rule::TemplateVal {
            if value.is_some() {
                register_dup_field(errs, &loc, "val");
                proof {
                    assert(errs.deep_view() =~= old(errs).deep_view() + seq![
                        dup_field_err(lv, "val"@),
                    ]);
                }
                return None;
            }
            let tma = match subrule(sub) {
                Some(c) => c,
                None => {
                    register_decl_err(errs, "Invalid amount", &loc);
                    proof {
                        assert(errs.deep_view() =~= old(errs).deep_view() + seq![
                            decl_err("Invalid amount"@, lv),
                        ]);
                    }
                    return None;
                },
            };
            let x = match subrule_of(tma, Rule::TemplateMoneyAmount) {
                Some(c) => c,
                None => {
                    register_decl_err(errs, "Invalid amount", &loc);
                    proof {
                        assert(errs.deep_view() =~= old(errs).deep_view() + seq![
                            decl_err("Invalid amount"@, lv),
                        ]);
                    }
                    return None;
                },
            };
            match read_template_amount(x) {
                Some(v) => {
                    value = Some(v);
                },
                None => {
                    register_decl_err(errs, "Invalid amount", &loc);
                    proof {
                        assert(errs.deep_view() =~= old(errs).deep_view() + seq![
                            decl_err("Invalid amount"@, lv),
                        ]);
                    }
                    return None;
                },
            }
        } else if sub.rule == Rule::EntryType {
            if cat.is_some() {
                register_dup_field(errs, &loc, "type");
                proof {
                    assert(errs.deep_view() =~= old(errs).deep_view() + seq![
                        dup_field_err(lv, "type"@),
                    ]);
                }
                return None;
            }
            let c = match subrule(sub) {
                Some(c) => c,
                None => {
                    register_decl_err(errs, "Invalid category", &loc);
                    proof {
                        assert(errs.deep_view() =~= old(errs).deep_view() + seq![
                            decl_err("Invalid category"@, lv),
                        ]);
                    }
                    return None;
                },
            };
            match read_cat(c) {
                Some(v) => {
                    cat = Some(v);
                },
                None => {
                    register_decl_err(errs, "Invalid category", &loc);
                    proof {
                        assert(errs.deep_view() =~= old(errs).deep_view() + seq![
                            decl_err("Invalid category"@, lv),
                        ]);
                    }
                    return None;
                },
            }
        } else if sub.rule == Rule::EntrySpan {
            if span.is_some() {
                register_dup_field(errs, &loc, "span");
                proof {
                    assert(errs.deep_view() =~= old(errs).deep_view() + seq![
                        dup_field_err(lv, "span"@),
                    ]);
                }
                return None;
            }
            let c = match subrule(sub) {
                Some(c) => c,
                None => {
                    register_decl_err(errs, "Invalid span", &loc);
                    proof {
                        assert(errs.deep_view() =~= old(errs).deep_view() + seq![
                            decl_err("Invalid span"@, lv),
                        ]);
                    }
                    return None;
                },
            };
            match read_span(c) {
                Some(v) => {
                    span = Some(v);
                },
                None => {
                    register_decl_err(errs, "Invalid span", &loc);
                    proof {
                        assert(errs.deep_view() =~= old(errs).deep_view() + seq![
                            decl_err("Invalid span"@, lv),
                        ]);
                    }
                    return None;
                },
            }
        } else if sub.rule == Rule::TemplateTag {
            if tag.is_some() {
                register_dup_field(errs, &loc, "tag");
                proof {
                    assert(errs.deep_view() =~= old(errs).deep_view() + seq![
                        dup_field_err(lv, "tag"@),
                    ]);
                }
                return None;
            }
            let c = match subrule(sub) {
                Some(c) => c,
                None => {
                    register_decl_err(errs, "Invalid tag", &loc);
                    proof {
                        assert(errs.deep_view() =~= old(errs).deep_view() + seq![
                            decl_err("Invalid tag"@, lv),
                        ]);
                    }
                    return None;
                },
            };
            match read_template_tag(c) {
                Some(t) => {
                    tag = Some(t);
                },
                None => {
                    register_decl_err(errs, "Invalid tag", &loc);
                    proof {
                        assert(errs.deep_view() =~= old(errs).deep_view() + seq![
                            decl_err("Invalid tag"@, lv),
                        ]);
                    }
                    return None;
                },
            }
        } else {
            register_decl_err(errs, "Malformed parse tree", &loc);
            proof {
                assert(errs.deep_view() =~= old(errs).deep_view() + seq![
                    decl_err("Malformed parse tree"@, lv),
                ]);
            }
            return None;
        }
        i = i + 1;
    }
    proof {
        assert(body.children@.skip(body.children@.len() as int) =~= Seq::<Node>::empty());
    }
    let value = match value {
        Some(v) => v,
        None => {
            register_missing_field(errs, &loc, "val");
            proof {
                assert(errs.deep_view() =~= old(errs).deep_view() + seq![
                    missing_field_err(lv, "val"@),
                ]);
            }
            return None;
        },
    };
    let cat = match cat {
        Some(v) => v,
        None => {
            register_missing_field(errs, &loc, "cat");
            proof {
                assert(errs.deep_view() =~= old(errs).deep_view() + seq![
                    missing_field_err(lv, "cat"@),
                ]);
            }
            return None;
        },
    };
    let span = match span {
        Some(v) => v,
        None => {
            register_missing_field(errs, &loc, "span");
            proof {
                assert(errs.deep_view() =~= old(errs).deep_view() + seq![
                    missing_field_err(lv, "span"@),
                ]);
            }
            return None;
        },
    };
    let tag = match tag {
        Some(v) => v,
        None => {
            register_missing_field(errs, &loc, "tag");
            proof {
                assert(errs.deep_view() =~= old(errs).deep_view() + seq![
                    missing_field_err(lv, "tag"@),
                ]);
            }
            return None;
        },
    };
    proof {
        assert(errs.deep_view() =~= old(errs).deep_view() + Seq::<ErrorV>::empty());
    }
    let identifier = id.text.clone();
    Some(
        (
            identifier,
            Template {
                positional: positional,
                named: named,
                value: value,
                cat: cat,
                span: span,
                tag: tag,
            },
        ),
    )
}


/// The diagnostic for a (year, month, day) triple the calendar refuses.
pub open spec fn invalid_date_err(loc: LocV, e: DateError) -> ErrorV {
    error_v("Invalid date"@).with_span_v(loc, "defined here"@).with_message_v(
        spec_date_error_text(e),
    )
}

/// The diagnostic for a month marker outside 01..=12.
pub open spec fn invalid_month_err(loc: LocV) -> ErrorV {
    error_v("Invalid date"@).with_span_v(loc, "defined here"@).with_message_v(
        "month must lie between 01 and 12"@,
    )
}

/// Image of one entry of a day block: a wrapped plain entry or template
/// invocation, elaborated against the block's date.
pub open spec fn spec_day_one(path: Seq<char>, date: Date, n: Node) -> (
    Seq<AstItemV>,
    Seq<ErrorV>,
) {
    if n.rule == Rule::Entry && n.children@.len() == 1 {
        let e = n.children@[0];
        let loc = node_loc(path, e);
        if e.rule == Rule::ExpandEntry {
            match spec_read_expand_entry(e) {
                Some(inst) => (seq![AstItemV::Instance(date, loc, inst)], Seq::<ErrorV>::empty()),
                None => (Seq::<AstItemV>::empty(), seq![decl_err("Malformed parse tree"@, loc)]),
            }
        } else if e.rule == Rule::PlainEntry {
            let pe = spec_validate_plain_entry(path, e);
            match pe.0 {
                Some(ent) => (seq![AstItemV::Entry(date, ent)], pe.1),
                None => (Seq::<AstItemV>::empty(), pe.1),
            }
        } else {
            (Seq::<AstItemV>::empty(), seq![decl_err("Malformed parse tree"@, loc)])
        }
    } else {
        (Seq::<AstItemV>::empty(), seq![decl_err("Malformed parse tree"@, node_loc(path, n))])
    }
}

/// Elaborate the entries of a day block in order, accumulating items and
/// diagnostics.
pub open spec fn spec_day_items(path: Seq<char>, date: Date, items: Seq<Node>) -> (
    Seq<AstItemV>,
    Seq<ErrorV>,
)
    decreases items.len(),
{
    if items.len() == 0 {
        (Seq::<AstItemV>::empty(), Seq::<ErrorV>::empty())
    } else {
        let one = spec_day_one(path, date, items[0]);
        let rest = spec_day_items(path, date, items.drop_first());
        (one.0 + rest.0, one.1 + rest.1)
    }
}

/// Image of [`validate_day`]: the day block's entries, past its day marker.
pub open spec fn spec_validate_day(path: Seq<char>, date: Date, n: Node) -> (
    Seq<AstItemV>,
    Seq<ErrorV>,
) {
    spec_day_items(path, date, n.children@.skip(1))
}

/// Elaborate a day block: each entry is a plain entry or a template
/// invocation; a refused entry is skipped, its siblings are kept.
pub fn validate_day(path: &str, errs: &mut ErrorRecord, date: Date, days: &Node) -> (r: Option<
    Vec<AstItem>,
>)
    requires
        days.children@.len() >= 1,
    ensures
        r matches Some(v) && v.deep_view() == spec_validate_day(path@, date, *days).0,
        final(errs).deep_view() == old(errs).deep_view() + spec_validate_day(
            path@,
            date,
            *days,
        ).1,
{
    let ghost items = days.children@.skip(1);
    let mut v: Vec<AstItem> = Vec::new();
    let mut i: usize = 1;
    proof {
        assert(items.skip(0) =~= items);
        assert(v.deep_view() =~= Seq::<AstItemV>::empty());
    }
    while i < days.children.len()
        invariant
            1 <= i <= days.children.len(),
            items == days.children@.skip(1),
            spec_day_items(path@, date, items).0 == v.deep_view() + spec_day_items(
                path@,
                date,
                items.skip(i - 1),
            ).0,
            old(errs).deep_view() + spec_day_items(path@, date, items).1 == errs.deep_view()
                + spec_day_items(path@, date, items.skip(i - 1)).1,
        decreases days.children.len() - i,
    {
        proof {
            assert(items.skip(i - 1)[0] == days.children@[i as int]);
            assert(items.skip(i - 1).drop_first() =~= items.skip(i as int));
        }
        let ghost one = spec_day_one(path@, date, days.children@[i as int]);
        let ghost pre_v = v.deep_view();
        let ghost pre_e = errs.deep_view();
        let pair = &days.children[i];
        let entry = match subrule_of(pair, Rule::Entry) {
            Some(e) => e,
            None => {
                let loc = make_loc(path, pair);
                register_decl_err(errs, "Malformed parse tree", &loc);
                i = i + 1;
                proof {
                    assert(errs.deep_view() =~= pre_e + one.1);
                    lemma_day_restep(path@, date, items, i - 1, pre_v, pre_e, old(errs).deep_view(), v.deep_view(), errs.deep_view());
                }
                continue ;
            },
        };
        if entry.rule == Rule::ExpandEntry {
            let loc = make_loc(path, entry);
            match read_expand_entry(entry) {
                Some(res) => {
                    v.push(AstItem::Instance(date, loc, res));
                    proof {
                        assert(v.deep_view() =~= pre_v + one.0);
                        assert(errs.deep_view() =~= pre_e + one.1);
                    }
                },
                None => {
                    register_decl_err(errs, "Malformed parse tree", &loc);
                    proof {
                        assert(errs.deep_view() =~= pre_e + one.1);
                    }
                },
            }
        } else if entry.rule == Rule::PlainEntry {
            match validate_plain_entry(path, errs, entry) {
                Some(res) => {
                    v.push(AstItem::Entry(date, res));
                    proof {
                        assert(v.deep_view() =~= pre_v + one.0);
                        assert(errs.deep_view() =~= pre_e + one.1);
                    }
                },
                None => {
                    proof {
                        assert(errs.deep_view() =~= pre_e + one.1);
                    }
                },
            }
        } else {
            let loc = make_loc(path, entry);
            register_decl_err(errs, "Malformed parse tree", &loc);
            proof {
                assert(errs.deep_view() =~= pre_e + one.1);
            }
        }
        i = i + 1;
        proof {
            lemma_day_restep(path@, date, items, i - 1, pre_v, pre_e, old(errs).deep_view(), v.deep_view(), errs.deep_view());
        }
    }
    proof {
        assert(items.skip(items.len() as int) =~= Seq::<Node>::empty());
        assert(v.deep_view() =~= v.deep_view() + Seq::<AstItemV>::empty());
        assert(errs.deep_view() =~= errs.deep_view() + Seq::<ErrorV>::empty());
        assert(old(errs).deep_view() + spec_day_items(path@, date, items).1 =~= errs.deep_view());
    }
    Some(v)
}

/// Stepping the day fold: if the accumulators absorbed exactly one step's
/// output, the "total = done + rest" equations move one entry forward.
proof fn lemma_day_restep(
    path: Seq<char>,
    date: Date,
    items: Seq<Node>,
    i: int,
    pre_v: Seq<AstItemV>,
    pre_e: Seq<ErrorV>,
    old_e: Seq<ErrorV>,
    cur_v: Seq<AstItemV>,
    cur_e: Seq<ErrorV>,
)
    requires
        1 <= i <= items.len(),
        spec_day_items(path, date, items).0 == pre_v + spec_day_items(
            path,
            date,
            items.skip(i - 1),
        ).0,
        old_e + spec_day_items(path, date, items).1 == pre_e + spec_day_items(
            path,
            date,
            items.skip(i - 1),
        ).1,
        cur_v == pre_v + spec_day_one(path, date, items[i - 1]).0,
        cur_e == pre_e + spec_day_one(path, date, items[i - 1]).1,
    ensures
        spec_day_items(path, date, items).0 == cur_v + spec_day_items(
            path,
            date,
            items.skip(i),
        ).0,
        old_e + spec_day_items(path, date, items).1 == cur_e + spec_day_items(
            path,
            date,
            items.skip(i),
        ).1,
{
    assert(items.skip(i - 1)[0] == items[i - 1]);
    assert(items.skip(i - 1).drop_first() =~= items.skip(i));
    assert(spec_day_items(path, date, items).0 =~= cur_v + spec_day_items(
        path,
        date,
        items.skip(i),
    ).0);
    assert(old_e + spec_day_items(path, date, items).1 =~= cur_e + spec_day_items(
        path,
        date,
        items.skip(i),
    ).1);
}


/// Image of one day block of a month: its marker parsed and validated
/// against the calendar, then its entries.
pub open spec fn spec_month_one(path: Seq<char>, year: usize, month: Month, n: Node) -> (
    Seq<AstItemV>,
    Seq<ErrorV>,
) {
    if n.rule == Rule::EntriesDay && n.children@.len() >= 1 {
        let head = n.children@[0];
        let loc = node_loc(path, head);
        match spec_read_count(head) {
            None => (Seq::<AstItemV>::empty(), seq![decl_err("Invalid number"@, loc)]),
            Some(day) => {
                if date_wf(year as int, month_num(month), day as int) {
                    spec_day_items(
                        path,
                        Date { year: year as u16, month: month, day: day as u8 },
                        n.children@.skip(1),
                    )
                } else {
                    (
                        Seq::<AstItemV>::empty(),
                        seq![
                            invalid_date_err(
                                loc,
                                if !(1 <= year <= 9999) {
                                    DateError::YearOutOfRange
                                } else {
                                    DateError::DayOutOfRange
                                },
                            ),
                        ],
                    )
                }
            },
        }
    } else {
        (Seq::<AstItemV>::empty(), seq![decl_err("Malformed parse tree"@, node_loc(path, n))])
    }
}

/// Elaborate the day blocks of a month in order.
pub open spec fn spec_month_items(path: Seq<char>, year: usize, month: Month, items: Seq<Node>) -> (
    Seq<AstItemV>,
    Seq<ErrorV>,
)
    decreases items.len(),
{
    if items.len() == 0 {
        (Seq::<AstItemV>::empty(), Seq::<ErrorV>::empty())
    } else {
        let one = spec_month_one(path, year, month, items[0]);
        let rest = spec_month_items(path, year, month, items.drop_first());
        (one.0 + rest.0, one.1 + rest.1)
    }
}

/// Image of [`validate_month`]: the month block's day blocks, past its month
/// marker.
pub open spec fn spec_validate_month(path: Seq<char>, year: usize, month: Month, n: Node) -> (
    Seq<AstItemV>,
    Seq<ErrorV>,
) {
    spec_month_items(path, year, month, n.children@.skip(1))
}

proof fn lemma_month_restep(
    path: Seq<char>,
    year: usize,
    month: Month,
    items: Seq<Node>,
    i: int,
    pre_v: Seq<AstItemV>,
    pre_e: Seq<ErrorV>,
    old_e: Seq<ErrorV>,
    cur_v: Seq<AstItemV>,
    cur_e: Seq<ErrorV>,
)
    requires
        1 <= i <= items.len(),
        spec_month_items(path, year, month, items).0 == pre_v + spec_month_items(
            path,
            year,
            month,
            items.skip(i - 1),
        ).0,
        old_e + spec_month_items(path, year, month, items).1 == pre_e + spec_month_items(
            path,
            year,
            month,
            items.skip(i - 1),
        ).1,
        cur_v == pre_v + spec_month_one(path, year, month, items[i - 1]).0,
        cur_e == pre_e + spec_month_one(path, year, month, items[i - 1]).1,
    ensures
        spec_month_items(path, year, month, items).0 == cur_v + spec_month_items(
            path,
            year,
            month,
            items.skip(i),
        ).0,
        old_e + spec_month_items(path, year, month, items).1 == cur_e + spec_month_items(
            path,
            year,
            month,
            items.skip(i),
        ).1,
{
    assert(items.skip(i - 1)[0] == items[i - 1]);
    assert(items.skip(i - 1).drop_first() =~= items.skip(i));
    assert(spec_month_items(path, year, month, items).0 =~= cur_v + spec_month_items(
        path,
        year,
        month,
        items.skip(i),
    ).0);
    assert(old_e + spec_month_items(path, year, month, items).1 =~= cur_e + spec_month_items(
        path,
        year,
        month,
        items.skip(i),
    ).1);
}

/// Elaborate a month block: each day block's marker must name a date the
/// calendar accepts; a refused day block is skipped, its siblings are kept.
pub fn validate_month(path: &str, errs: &mut ErrorRecord, year: usize, month: Month, months: &Node)
    -> (r: Option<Vec<AstItem>>)
    requires
        months.children@.len() >= 1,
    ensures
        r matches Some(v) && v.deep_view() == spec_validate_month(path@, year, month, *months).0,
        final(errs).deep_view() == old(errs).deep_view() + spec_validate_month(
            path@,
            year,
            month,
            *months,
        ).1,
{
    let ghost items = months.children@.skip(1);
    let mut v: Vec<AstItem> = Vec::new();
    let mut i: usize = 1;
    proof {
        assert(items.skip(0) =~= items);
        assert(v.deep_view() =~= Seq::<AstItemV>::empty());
    }
    while i < months.children.len()
        invariant
            1 <= i <= months.children.len(),
            items == months.children@.skip(1),
            spec_month_items(path@, year, month, items).0 == v.deep_view() + spec_month_items(
                path@,
                year,
                month,
                items.skip(i - 1),
            ).0,
            old(errs).deep_view() + spec_month_items(path@, year, month, items).1
                == errs.deep_view() + spec_month_items(path@, year, month, items.skip(i - 1)).1,
        decreases months.children.len() - i,
    {
        proof {
            assert(items.skip(i - 1)[0] == months.children@[i as int]);
            assert(items.skip(i - 1).drop_first() =~= items.skip(i as int));
        }
        let ghost one = spec_month_one(path@, year, month, months.children@[i as int]);
        let ghost pre_v = v.deep_view();
        let ghost pre_e = errs.deep_view();
        let pair = &months.children[i];
        if pair.rule == Rule::EntriesDay && pair.children.len() >= 1 {
            let head = &pair.children[0];
            let loc = make_loc(path, head);
            match parse_usize(head.text.as_str()) {
                None => {
                    register_decl_err(errs, "Invalid number", &loc);
                    proof {
                        assert(errs.deep_view() =~= pre_e + one.1);
                    }
                },
                Some(day) => {
                    match Date::from(year, month, day) {
                        Ok(date) => {
                            match validate_day(path, errs, date, pair) {
                                Some(mut sub) => {
                                    let ghost subv = sub.deep_view();
                                    v.append(&mut sub);
                                    proof {
                                        assert(v.deep_view() =~= pre_v + subv);
                                        assert(errs.deep_view() =~= pre_e + one.1);
                                    }
                                },
                                None => {},
                            }
                        },
                        Err(e) => {
                            Error::new("Invalid date").with_span(
                                &loc,
                                String::from_str("defined here"),
                            ).with_message(e.text()).register(errs);
                            proof {
                                assert(errs.deep_view() =~= pre_e + one.1);
                            }
                        },
                    }
                },
            }
        } else {
            let loc = make_loc(path, pair);
            register_decl_err(errs, "Malformed parse tree", &loc);
            proof {
                assert(errs.deep_view() =~= pre_e + one.1);
            }
        }
        i = i + 1;
        proof {
            assert(v.deep_view() =~= pre_v + one.0);
            lemma_month_restep(
                path@,
                year,
                month,
                items,
                i - 1,
                pre_v,
                pre_e,
                old(errs).deep_view(),
                v.deep_view(),
                errs.deep_view(),
            );
        }
    }
    proof {
        assert(items.skip(items.len() as int) =~= Seq::<Node>::empty());
        assert(v.deep_view() =~= v.deep_view() + Seq::<AstItemV>::empty());
        assert(old(errs).deep_view() + spec_month_items(path@, year, month, items).1
            =~= errs.deep_view());
    }
    Some(v)
}

/// Image of one month block of a year: its marker read as a month, then its
/// day blocks.
pub open spec fn spec_year_one(path: Seq<char>, year: usize, n: Node) -> (
    Seq<AstItemV>,
    Seq<ErrorV>,
) {
    if n.rule == Rule::EntriesMonth && n.children@.len() >= 1 {
        let head = n.children@[0];
        let loc = node_loc(path, head);
        match spec_month_from(head.text@) {
            None => (Seq::<AstItemV>::empty(), seq![invalid_month_err(loc)]),
            Some(m) => spec_month_items(path, year, m, n.children@.skip(1)),
        }
    } else {
        (Seq::<AstItemV>::empty(), seq![decl_err("Malformed parse tree"@, node_loc(path, n))])
    }
}

/// Elaborate the month blocks of a year in order.
pub open spec fn spec_year_items(path: Seq<char>, year: usize, items: Seq<Node>) -> (
    Seq<AstItemV>,
    Seq<ErrorV>,
)
    decreases items.len(),
{
    if items.len() == 0 {
        (Seq::<AstItemV>::empty(), Seq::<ErrorV>::empty())
    } else {
        let one = spec_year_one(path, year, items[0]);
        let rest = spec_year_items(path, year, items.drop_first());
        (one.0 + rest.0, one.1 + rest.1)
    }
}

/// Image of [`validate_year`]: the year block's month blocks, past its year
/// marker.
pub open spec fn spec_validate_year(path: Seq<char>, year: usize, n: Node) -> (
    Seq<AstItemV>,
    Seq<ErrorV>,
) {
    spec_year_items(path, year, n.children@.skip(1))
}

proof fn lemma_year_restep(
    path: Seq<char>,
    year: usize,
    items: Seq<Node>,
    i: int,
    pre_v: Seq<AstItemV>,
    pre_e: Seq<ErrorV>,
    old_e: Seq<ErrorV>,
    cur_v: Seq<AstItemV>,
    cur_e: Seq<ErrorV>,
)
    requires
        1 <= i <= items.len(),
        spec_year_items(path, year, items).0 == pre_v + spec_year_items(
            path,
            year,
            items.skip(i - 1),
        ).0,
        old_e + spec_year_items(path, year, items).1 == pre_e + spec_year_items(
            path,
            year,
            items.skip(i - 1),
        ).1,
        cur_v == pre_v + spec_year_one(path, year, items[i - 1]).0,
        cur_e == pre_e + spec_year_one(path, year, items[i - 1]).1,
    ensures
        spec_year_items(path, year, items).0 == cur_v + spec_year_items(
            path,
            year,
            items.skip(i),
        ).0,
        old_e + spec_year_items(path, year, items).1 == cur_e + spec_year_items(
            path,
            year,
            items.skip(i),
        ).1,
{
    assert(items.skip(i - 1)[0] == items[i - 1]);
    assert(items.skip(i - 1).drop_first() =~= items.skip(i));
    assert(spec_year_items(path, year, items).0 =~= cur_v + spec_year_items(
        path,
        year,
        items.skip(i),
    ).0);
    assert(old_e + spec_year_items(path, year, items).1 =~= cur_e + spec_year_items(
        path,
        year,
        items.skip(i),
    ).1);
}

/// Elaborate a year block: each month block's marker must name a month; a
/// refused month block is skipped, its siblings are kept.
pub fn validate_year(path: &str, errs: &mut ErrorRecord, year: usize, years: &Node) -> (r: Option<
    Vec<AstItem>,
>)
    requires
        years.children@.len() >= 1,
    ensures
        r matches Some(v) && v.deep_view() == spec_validate_year(path@, year, *years).0,
        final(errs).deep_view() == old(errs).deep_view() + spec_validate_year(
            path@,
            year,
            *years,
        ).1,
{
    let ghost items = years.children@.skip(1);
    let mut v: Vec<AstItem> = Vec::new();
    let mut i: usize = 1;
    proof {
        assert(items.skip(0) =~= items);
        assert(v.deep_view() =~= Seq::<AstItemV>::empty());
    }
    while i < years.children.len()
        invariant
            1 <= i <= years.children.len(),
            items == years.children@.skip(1),
            spec_year_items(path@, year, items).0 == v.deep_view() + spec_year_items(
                path@,
                year,
                items.skip(i - 1),
            ).0,
            old(errs).deep_view() + spec_year_items(path@, year, items).1 == errs.deep_view()
                + spec_year_items(path@, year, items.skip(i - 1)).1,
        decreases years.children.len() - i,
    {
        proof {
            assert(items.skip(i - 1)[0] == years.children@[i as int]);
            assert(items.skip(i - 1).drop_first() =~= items.skip(i as int));
        }
        let ghost one = spec_year_one(path@, year, years.children@[i as int]);
        let ghost pre_v = v.deep_view();
        let ghost pre_e = errs.deep_view();
        let pair = &years.children[i];
        if pair.rule == Rule::EntriesMonth && pair.children.len() >= 1 {
            let head = &pair.children[0];
            let loc = make_loc(path, head);
            match Month::from(head.text.as_str()) {
                None => {
                    Error::new("Invalid date").with_span(
                        &loc,
                        String::from_str("defined here"),
                    ).with_message(
                        String::from_str("month must lie between 01 and 12"),
                    ).register(errs);
                    proof {
                        assert(errs.deep_view() =~= pre_e + one.1);
                    }
                },
                Some(month) => {
                    match validate_month(path, errs, year, month, pair) {
                        Some(mut sub) => {
                            let ghost subv = sub.deep_view();
                            v.append(&mut sub);
                            proof {
                                assert(v.deep_view() =~= pre_v + subv);
                                assert(errs.deep_view() =~= pre_e + one.1);
                            }
                        },
                        None => {},
                    }
                },
            }
        } else {
            let loc = make_loc(path, pair);
            register_decl_err(errs, "Malformed parse tree", &loc);
            proof {
                assert(errs.deep_view() =~= pre_e + one.1);
            }
        }
        i = i + 1;
        proof {
            assert(v.deep_view() =~= pre_v + one.0);
            lemma_year_restep(
                path@,
                year,
                items,
                i - 1,
                pre_v,
                pre_e,
                old(errs).deep_view(),
                v.deep_view(),
                errs.deep_view(),
            );
        }
    }
    proof {
        assert(items.skip(items.len() as int) =~= Seq::<Node>::empty());
        assert(v.deep_view() =~= v.deep_view() + Seq::<AstItemV>::empty());
        assert(old(errs).deep_view() + spec_year_items(path@, year, items).1 =~= errs.deep_view());
    }
    Some(v)
}


/// Elaborate the declarations inside one top-level item, left to right. A
/// refused template declaration or unreadable year marker gives up the rest
/// of the item.
pub open spec fn spec_item_children(path: Seq<char>, items: Seq<Node>) -> (
    Seq<AstItemV>,
    Seq<ErrorV>,
)
    decreases items.len(),
{
    if items.len() == 0 {
        (Seq::<AstItemV>::empty(), Seq::<ErrorV>::empty())
    } else {
        let n = items[0];
        if n.rule == Rule::TemplateDescriptor {
            let vt = spec_validate_template(path, n);
            match vt.0 {
                Some(nt) => {
                    let rest = spec_item_children(path, items.drop_first());
                    (seq![AstItemV::Template(nt.0, node_loc(path, n), nt.1)] + rest.0, vt.1 + rest.1)
                },
                None => (Seq::<AstItemV>::empty(), vt.1),
            }
        } else if n.rule == Rule::EntriesYear {
            if n.children@.len() >= 1 {
                let head = n.children@[0];
                match spec_read_count(head) {
                    None => (
                        Seq::<AstItemV>::empty(),
                        seq![decl_err("Invalid number"@, node_loc(path, head))],
                    ),
                    Some(year) => {
                        let y = spec_validate_year(path, year, n);
                        let rest = spec_item_children(path, items.drop_first());
                        (y.0 + rest.0, y.1 + rest.1)
                    },
                }
            } else {
                (
                    Seq::<AstItemV>::empty(),
                    seq![decl_err("Malformed parse tree"@, node_loc(path, n))],
                )
            }
        } else {
            (Seq::<AstItemV>::empty(), seq![decl_err("Malformed parse tree"@, node_loc(path, n))])
        }
    }
}

/// Image of [`validate`]: elaborate the top-level items in order, stopping at
/// the end-of-input marker.
pub open spec fn spec_validate(path: Seq<char>, pairs: Seq<Node>) -> (Seq<AstItemV>, Seq<ErrorV>)
    decreases pairs.len(),
{
    if pairs.len() == 0 {
        (Seq::<AstItemV>::empty(), Seq::<ErrorV>::empty())
    } else {
        let n = pairs[0];
        if n.rule == Rule::Item {
            let a = spec_item_children(path, n.children@);
            let rest = spec_validate(path, pairs.drop_first());
            (a.0 + rest.0, a.1 + rest.1)
        } else if n.rule == Rule::Eoi {
            (Seq::<AstItemV>::empty(), Seq::<ErrorV>::empty())
        } else {
            let rest = spec_validate(path, pairs.drop_first());
            (rest.0, seq![decl_err("Malformed parse tree"@, node_loc(path, n))] + rest.1)
        }
    }
}

proof fn lemma_validate_restep(
    path: Seq<char>,
    pairs: Seq<Node>,
    i: int,
    pre_v: Seq<AstItemV>,
    pre_e: Seq<ErrorV>,
    old_e: Seq<ErrorV>,
    cur_v: Seq<AstItemV>,
    cur_e: Seq<ErrorV>,
    one_v: Seq<AstItemV>,
    one_e: Seq<ErrorV>,
)
    requires
        1 <= i <= pairs.len(),
        pairs[i - 1].rule != Rule::Eoi,
        spec_validate(path, pairs).0 == pre_v + spec_validate(path, pairs.skip(i - 1)).0,
        old_e + spec_validate(path, pairs).1 == pre_e + spec_validate(path, pairs.skip(i - 1)).1,
        cur_v == pre_v + one_v,
        cur_e == pre_e + one_e,
        pairs[i - 1].rule == Rule::Item ==> one_v == spec_item_children(
            path,
            pairs[i - 1].children@,
        ).0 && one_e == spec_item_children(path, pairs[i - 1].children@).1,
        pairs[i - 1].rule != Rule::Item ==> one_v == Seq::<AstItemV>::empty() && one_e == seq![
            decl_err("Malformed parse tree"@, node_loc(path, pairs[i - 1])),
        ],
    ensures
        spec_validate(path, pairs).0 == cur_v + spec_validate(path, pairs.skip(i)).0,
        old_e + spec_validate(path, pairs).1 == cur_e + spec_validate(path, pairs.skip(i)).1,
{
    assert(pairs.skip(i - 1)[0] == pairs[i - 1]);
    assert(pairs.skip(i - 1).drop_first() =~= pairs.skip(i));
    assert(spec_validate(path, pairs).0 =~= cur_v + spec_validate(path, pairs.skip(i)).0);
    assert(old_e + spec_validate(path, pairs).1 =~= cur_e + spec_validate(path, pairs.skip(i)).1);
}

/// Elaborate the declarations inside one top-level item. A refused
/// declaration aborts the rest of the item; what came before it is kept.
fn validate_item_children(path: &str, errs: &mut ErrorRecord, pair: &Node) -> (r: Vec<AstItem>)
    ensures
        r.deep_view() == spec_item_children(path@, pair.children@).0,
        final(errs).deep_view() == old(errs).deep_view() + spec_item_children(
            path@,
            pair.children@,
        ).1,
{
    let ghost chv = spec_item_children(path@, pair.children@);
    let mut ast: Vec<AstItem> = Vec::new();
    let mut j: usize = 0;
    proof {
        assert(pair.children@.skip(0) =~= pair.children@);
        assert(ast.deep_view() =~= Seq::<AstItemV>::empty());
    }
    while j < pair.children.len()
        invariant_except_break
            j <= pair.children.len(),
            chv == spec_item_children(path@, pair.children@),
            chv.0 == ast.deep_view() + spec_item_children(
                path@,
                pair.children@.skip(j as int),
            ).0,
            old(errs).deep_view() + chv.1 == errs.deep_view() + spec_item_children(
                path@,
                pair.children@.skip(j as int),
            ).1,
        ensures
            ast.deep_view() == spec_item_children(path@, pair.children@).0,
            errs.deep_view() == old(errs).deep_view() + spec_item_children(
                path@,
                pair.children@,
            ).1,
        decreases pair.children.len() - j,
    {
        proof {
            assert(pair.children@.skip(j as int)[0] == pair.children@[j as int]);
            assert(pair.children@.skip(j as int).drop_first() =~= pair.children@.skip(
                j as int + 1,
            ));
        }
        let ghost mid_v = ast.deep_view();
        let ghost mid_e = errs.deep_view();
        let item = &pair.children[j];
        if item.rule == Rule::TemplateDescriptor {
            let loc = make_loc(path, item);
            match validate_template(path, errs, item) {
                Some((name, templ)) => {
                    ast.push(AstItem::Template(name, loc, templ));
                    proof {
                        assert(ast.deep_view() =~= mid_v + seq![ast.deep_view().last()]);
                    }
                },
                None => {
                    // give up the rest of this item
                    proof {
                        assert(ast.deep_view() =~= chv.0);
                        assert(errs.deep_view() =~= old(errs).deep_view() + chv.1);
                    }
                    break ;
                },
            }
        } else if item.rule == Rule::EntriesYear && item.children.len() >= 1 {
            let head = &item.children[0];
            match parse_usize(head.text.as_str()) {
                None => {
                    let loc = make_loc(path, head);
                    register_decl_err(errs, "Invalid number", &loc);
                    proof {
                        assert(ast.deep_view() =~= chv.0);
                        assert(errs.deep_view() =~= mid_e + seq![
                            decl_err(
                                "Invalid number"@,
                                node_loc(path@, pair.children@[j as int].children@[0]),
                            ),
                        ]);
                        assert(errs.deep_view() =~= old(errs).deep_view() + chv.1);
                    }
                    break ;
                },
                Some(year) => {
                    match validate_year(path, errs, year, item) {
                        Some(mut sub) => {
                            let ghost subv = sub.deep_view();
                            ast.append(&mut sub);
                            proof {
                                assert(ast.deep_view() =~= mid_v + subv);
                            }
                        },
                        None => {},
                    }
                },
            }
        } else {
            let loc = make_loc(path, item);
            register_decl_err(errs, "Malformed parse tree", &loc);
            proof {
                assert(ast.deep_view() =~= chv.0);
                assert(errs.deep_view() =~= old(errs).deep_view() + chv.1);
            }
            break ;
        }
        j = j + 1;
        proof {
            let ghost rest = spec_item_children(path@, pair.children@.skip(j as int));
            assert(chv.0 =~= ast.deep_view() + rest.0);
            assert(old(errs).deep_view() + chv.1 =~= errs.deep_view() + rest.1);
        }
    }
    proof {
        assert(pair.children@.skip(pair.children@.len() as int) =~= Seq::<Node>::empty());
        assert(ast.deep_view() =~= ast.deep_view() + Seq::<AstItemV>::empty());
        assert(errs.deep_view() =~= errs.deep_view() + Seq::<ErrorV>::empty());
    }
    ast
}

/// Elaborate the top-level items of a parse tree. A refused declaration
/// aborts only its enclosing item; elaboration continues with the siblings,
/// accumulating every diagnostic found in one pass.
pub fn validate(path: &str, errs: &mut ErrorRecord, pairs: &Vec<Node>) -> (r: Ast)
    ensures
        r.deep_view() == spec_validate(path@, pairs@).0,
        final(errs).deep_view() == old(errs).deep_view() + spec_validate(path@, pairs@).1,
{
    let mut ast: Vec<AstItem> = Vec::new();
    let mut i: usize = 0;
    proof {
        assert(pairs@.skip(0) =~= pairs@);
        assert(ast.deep_view() =~= Seq::<AstItemV>::empty());
    }
    while i < pairs.len()
        invariant_except_break
            i <= pairs.len(),
            spec_validate(path@, pairs@).0 == ast.deep_view() + spec_validate(
                path@,
                pairs@.skip(i as int),
            ).0,
            old(errs).deep_view() + spec_validate(path@, pairs@).1 == errs.deep_view()
                + spec_validate(path@, pairs@.skip(i as int)).1,
        ensures
            ast.deep_view() == spec_validate(path@, pairs@).0,
            errs.deep_view() == old(errs).deep_view() + spec_validate(path@, pairs@).1,
        decreases pairs.len() - i,
    {
        proof {
            assert(pairs@.skip(i as int)[0] == pairs@[i as int]);
            assert(pairs@.skip(i as int).drop_first() =~= pairs@.skip(i as int + 1));
        }
        let ghost pre_v = ast.deep_view();
        let ghost pre_e = errs.deep_view();
        let pair = &pairs[i];
        if pair.rule == Rule::Item {
            let mut sub = validate_item_children(path, errs, pair);
            let ghost subv = sub.deep_view();
            ast.append(&mut sub);
            proof {
                assert(ast.deep_view() =~= pre_v + subv);
            }
            i = i + 1;
            proof {
                lemma_validate_restep(
                    path@,
                    pairs@,
                    i as int,
                    pre_v,
                    pre_e,
                    old(errs).deep_view(),
                    ast.deep_view(),
                    errs.deep_view(),
                    spec_item_children(path@, pairs@[i - 1].children@).0,
                    spec_item_children(path@, pairs@[i - 1].children@).1,
                );
            }
        } else if pair.rule == Rule::Eoi {
            proof {
                assert(ast.deep_view() =~= spec_validate(path@, pairs@).0);
                assert(errs.deep_view() =~= old(errs).deep_view() + spec_validate(
                    path@,
                    pairs@,
                ).1);
            }
            break ;
        } else {
            let loc = make_loc(path, pair);
            register_decl_err(errs, "Malformed parse tree", &loc);
            i = i + 1;
            proof {
                assert(ast.deep_view() =~= pre_v + Seq::<AstItemV>::empty());
                assert(errs.deep_view() =~= pre_e + seq![
                    decl_err("Malformed parse tree"@, node_loc(path@, pairs@[i - 1])),
                ]);
                lemma_validate_restep(
                    path@,
                    pairs@,
                    i as int,
                    pre_v,
                    pre_e,
                    old(errs).deep_view(),
                    ast.deep_view(),
                    errs.deep_view(),
                    Seq::<AstItemV>::empty(),
                    seq![decl_err("Malformed parse tree"@, node_loc(path@, pairs@[i - 1]))],
                );
            }
        }
    }
    proof {
        if i >= pairs@.len() {
            assert(pairs@.skip(pairs@.len() as int) =~= Seq::<Node>::empty());
            assert(ast.deep_view() =~= ast.deep_view() + Seq::<AstItemV>::empty());
            assert(errs.deep_view() =~= errs.deep_view() + Seq::<ErrorV>::empty());
        }
    }
    ast
}

/// What the external grammar reports when the source text cannot be parsed:
/// a human-readable description and its location.
#[derive(Debug)]
pub struct ParseFailure {
    pub loc: Loc,
    pub message: String,
}

/// Mathematical image of a [`ParseFailure`].
pub struct ParseFailureV {
    pub loc: LocV,
    pub message: Seq<char>,
}

impl DeepView for ParseFailure {
    type V = ParseFailureV;

    open spec fn deep_view(&self) -> ParseFailureV {
        ParseFailureV { loc: self.loc.deep_view(), message: self.message@ }
    }
}

/// The diagnostic for a structural parse failure.
pub open spec fn parse_failure_err(f: ParseFailureV) -> ErrorV {
    error_v("Parsing failure"@).with_span_v(f.loc, f.message)
}

/// Image of [`extract`]: the AST of a parsed file, or no items and a single
/// fatal diagnostic when the grammar refused the text.
pub open spec fn spec_extract(path: Seq<char>, contents: Result<Seq<Node>, ParseFailureV>) -> (
    Seq<AstItemV>,
    Seq<ErrorV>,
) {
    match contents {
        Ok(pairs) => spec_validate(path, pairs),
        Err(f) => (Seq::<AstItemV>::empty(), seq![parse_failure_err(f)]),
    }
}

/// Turn the outcome of the external grammar into an AST: elaborate the parse
/// tree, or register a single fatal "parsing failure" diagnostic.
pub fn extract(
    path: &str,
    errs: &mut ErrorRecord,
    contents: Result<Vec<Node>, ParseFailure>,
) -> (r: Ast)
    ensures
        r.deep_view() == spec_extract(
            path@,
            match contents {
                Ok(pairs) => Ok(pairs@),
                Err(f) => Err(f.deep_view()),
            },
        ).0,
        final(errs).deep_view() == old(errs).deep_view() + spec_extract(
            path@,
            match contents {
                Ok(pairs) => Ok(pairs@),
                Err(f) => Err(f.deep_view()),
            },
        ).1,
{
    match contents {
        Ok(pairs) => validate(path, errs, &pairs),
        Err(f) => {
            Error::new("Parsing failure").with_span(&f.loc, f.message).register(errs);
            proof {
                assert(errs.deep_view() =~= old(errs).deep_view() + seq![
                    parse_failure_err(
                        ParseFailureV { loc: f.loc.deep_view(), message: f.message@ },
                    ),
                ]);
            }
            Vec::new()
        },
    }
}


proof fn lemma_wf_singleton(it: AstItemV)
    requires
        item_date_wf(it),
    ensures
        ast_dates_wf(seq![it]),
{
    assert(seq![it][0] == it);
}

proof fn lemma_wf_concat(a: Seq<AstItemV>, b: Seq<AstItemV>)
    requires
        ast_dates_wf(a),
        ast_dates_wf(b),
    ensures
        ast_dates_wf(a + b),
{
    assert forall|i: int| 0 <= i < (a + b).len() implies item_date_wf(#[trigger] (a + b)[i]) by {
        if i < a.len() {
            assert((a + b)[i] == a[i]);
        } else {
            assert((a + b)[i] == b[i - a.len()]);
        }
    }
}

proof fn lemma_day_one_wf(path: Seq<char>, date: Date, n: Node)
    requires
        date.wf(),
    ensures
        ast_dates_wf(spec_day_one(path, date, n).0),
{
    let s = spec_day_one(path, date, n).0;
    if s.len() > 0 {
        assert(item_date_wf(s[0]));
        lemma_wf_singleton(s[0]);
        assert(s =~= seq![s[0]]);
    }
}

proof fn lemma_day_items_wf(path: Seq<char>, date: Date, items: Seq<Node>)
    requires
        date.wf(),
    ensures
        ast_dates_wf(spec_day_items(path, date, items).0),
    decreases items.len(),
{
    if items.len() > 0 {
        lemma_day_one_wf(path, date, items[0]);
        lemma_day_items_wf(path, date, items.drop_first());
        lemma_wf_concat(
            spec_day_one(path, date, items[0]).0,
            spec_day_items(path, date, items.drop_first()).0,
        );
    }
}

proof fn lemma_month_one_wf(path: Seq<char>, year: usize, month: Month, n: Node)
    ensures
        ast_dates_wf(spec_month_one(path, year, month, n).0),
{
    if n.rule == Rule::EntriesDay && n.children@.len() >= 1 {
        match spec_read_count(n.children@[0]) {
            None => {},
            Some(day) => {
                if date_wf(year as int, month_num(month), day as int) {
                    let d = Date { year: year as u16, month: month, day: day as u8 };
                    assert(d.wf());
                    lemma_day_items_wf(path, d, n.children@.skip(1));
                }
            },
        }
    }
}

proof fn lemma_month_items_wf(path: Seq<char>, year: usize, month: Month, items: Seq<Node>)
    ensures
        ast_dates_wf(spec_month_items(path, year, month, items).0),
    decreases items.len(),
{
    if items.len() > 0 {
        lemma_month_one_wf(path, year, month, items[0]);
        lemma_month_items_wf(path, year, month, items.drop_first());
        lemma_wf_concat(
            spec_month_one(path, year, month, items[0]).0,
            spec_month_items(path, year, month, items.drop_first()).0,
        );
    }
}

proof fn lemma_year_items_wf(path: Seq<char>, year: usize, items: Seq<Node>)
    ensures
        ast_dates_wf(spec_year_items(path, year, items).0),
    decreases items.len(),
{
    if items.len() > 0 {
        let n = items[0];
        if n.rule == Rule::EntriesMonth && n.children@.len() >= 1 {
            match spec_month_from(n.children@[0].text@) {
                None => {},
                Some(m) => {
                    lemma_month_items_wf(path, year, m, n.children@.skip(1));
                },
            }
        }
        lemma_year_items_wf(path, year, items.drop_first());
        lemma_wf_concat(
            spec_year_one(path, year, items[0]).0,
            spec_year_items(path, year, items.drop_first()).0,
        );
    }
}

proof fn lemma_item_children_wf(path: Seq<char>, items: Seq<Node>)
    ensures
        ast_dates_wf(spec_item_children(path, items).0),
    decreases items.len(),
{
    if items.len() > 0 {
        let n = items[0];
        if n.rule == Rule::TemplateDescriptor {
            match spec_validate_template(path, n).0 {
                Some(nt) => {
                    lemma_wf_singleton(AstItemV::Template(nt.0, node_loc(path, n), nt.1));
                    lemma_item_children_wf(path, items.drop_first());
                    lemma_wf_concat(
                        seq![AstItemV::Template(nt.0, node_loc(path, n), nt.1)],
                        spec_item_children(path, items.drop_first()).0,
                    );
                },
                None => {},
            }
        } else if n.rule == Rule::EntriesYear && n.children@.len() >= 1 {
            match spec_read_count(n.children@[0]) {
                None => {},
                Some(year) => {
                    lemma_year_items_wf(path, year, n.children@.skip(1));
                    lemma_item_children_wf(path, items.drop_first());
                    lemma_wf_concat(
                        spec_validate_year(path, year, n).0,
                        spec_item_children(path, items.drop_first()).0,
                    );
                },
            }
        }
    }
}

/// Every date the elaborator puts into the AST came through the calendar's
/// validation.
pub(crate) proof fn lemma_validate_dates_wf(path: Seq<char>, pairs: Seq<Node>)
    ensures
        ast_dates_wf(spec_validate(path, pairs).0),
    decreases pairs.len(),
{
    if pairs.len() > 0 {
        let n = pairs[0];
        if n.rule == Rule::Item {
            lemma_item_children_wf(path, n.children@);
            lemma_validate_dates_wf(path, pairs.drop_first());
            lemma_wf_concat(
                spec_item_children(path, n.children@).0,
                spec_validate(path, pairs.drop_first()).0,
            );
        } else if n.rule == Rule::Eoi {
        } else {
            lemma_validate_dates_wf(path, pairs.drop_first());
        }
    }
}


proof fn lemma_plain_fields_split(items: Seq<Node>, st: PlainSt, loc: LocV, j: int)
    requires
        0 <= j <= items.len(),
    ensures
        spec_plain_fields(items, st, loc) == match spec_plain_fields(items.take(j), st, loc) {
            Err(e) => Err::<PlainSt, ErrorV>(e),
            Ok(st2) => spec_plain_fields(items.skip(j), st2, loc),
        },
    decreases j,
{
    if j == 0 {
        assert(items.take(0) =~= Seq::<Node>::empty());
        assert(items.skip(0) =~= items);
    } else {
        assert(items.take(j)[0] == items[0]);
        assert(items.take(j).drop_first() =~= items.drop_first().take(j - 1));
        assert(items.drop_first().skip(j - 1) =~= items.skip(j));
        match spec_plain_step(st, items[0], loc) {
            Err(_) => {},
            Ok(st2) => {
                lemma_plain_fields_split(items.drop_first(), st2, loc, j - 1);
            },
        }
    }
}

proof fn lemma_plain_value_stays_set(items: Seq<Node>, st: PlainSt, loc: LocV, st2: PlainSt)
    requires
        st.value is Some,
        spec_plain_fields(items, st, loc) == Ok::<PlainSt, ErrorV>(st2),
    ensures
        st2.value is Some,
    decreases items.len(),
{
    if items.len() > 0 {
        match spec_plain_step(st, items[0], loc) {
            Err(_) => {},
            Ok(mid) => {
                lemma_plain_value_stays_set(items.drop_first(), mid, loc, st2);
            },
        }
    }
}

proof fn lemma_plain_value_set(items: Seq<Node>, st: PlainSt, loc: LocV, st2: PlainSt, i: int)
    requires
        0 <= i < items.len(),
        items[i].rule == Rule::EntryVal,
        spec_plain_fields(items, st, loc) == Ok::<PlainSt, ErrorV>(st2),
    ensures
        st2.value is Some,
    decreases items.len(),
{
    match spec_plain_step(st, items[0], loc) {
        Err(_) => {},
        Ok(mid) => {
            if i == 0 {
                assert(mid.value is Some);
                lemma_plain_value_stays_set(items.drop_first(), mid, loc, st2);
            } else {
                assert(items.drop_first()[i - 1] == items[i]);
                lemma_plain_value_set(items.drop_first(), mid, loc, st2, i - 1);
            }
        },
    }
}

proof fn lemma_plain_tag_stays_unset(items: Seq<Node>, st: PlainSt, loc: LocV, st2: PlainSt)
    requires
        st.tag is None,
        forall|k: int| 0 <= k < items.len() ==> (#[trigger] items[k]).rule != Rule::EntryTag,
        spec_plain_fields(items, st, loc) == Ok::<PlainSt, ErrorV>(st2),
    ensures
        st2.tag is None,
    decreases items.len(),
{
    if items.len() > 0 {
        match spec_plain_step(st, items[0], loc) {
            Err(_) => {},
            Ok(mid) => {
                assert(items[0].rule != Rule::EntryTag);
                assert(mid.tag is None);
                assert(forall|k: int|
                    0 <= k < items.drop_first().len() ==> (#[trigger] items.drop_first()[k])
                        == items[k + 1]);
                lemma_plain_tag_stays_unset(items.drop_first(), mid, loc, st2);
            },
        }
    }
}

/// Set-once fields: when the fields before a second `val` were accepted, the
/// second `val` yields exactly one "duplicate field" diagnostic and the
/// declaration produces no entry.
pub proof fn lemma_duplicate_val(path: Seq<char>, n: Node, i: int, j: int)
    requires
        0 <= i < j < n.children@.len(),
        n.children@[i].rule == Rule::EntryVal,
        n.children@[j].rule == Rule::EntryVal,
        spec_plain_fields(n.children@.take(j), plain_init(), node_loc(path, n)) is Ok,
    ensures
        spec_validate_plain_entry(path, n) == (
            None::<EntryV>,
            seq![dup_field_err(node_loc(path, n), "val"@)],
        ),
{
    let loc = node_loc(path, n);
    let items = n.children@;
    let st2 = match spec_plain_fields(items.take(j), plain_init(), loc) {
        Ok(v) => v,
        Err(_) => plain_init(),
    };
    assert(items.take(j)[i] == items[i]);
    lemma_plain_value_set(items.take(j), plain_init(), loc, st2, i);
    lemma_plain_fields_split(items, plain_init(), loc, j);
    assert(items.skip(j)[0] == items[j]);
    assert(spec_plain_step(st2, items[j], loc) == Err::<PlainSt, ErrorV>(
        dup_field_err(loc, "val"@),
    ));
}

/// Set-once fields: when every field of a plain entry was accepted but no
/// `tag` field was given, the declaration yields exactly one "missing field"
/// diagnostic and produces no entry.
pub proof fn lemma_missing_tag(path: Seq<char>, n: Node, st: PlainSt)
    requires
        spec_plain_fields(n.children@, plain_init(), node_loc(path, n)) == Ok::<PlainSt, ErrorV>(
            st,
        ),
        forall|k: int|
            0 <= k < n.children@.len() ==> (#[trigger] n.children@[k]).rule != Rule::EntryTag,
        st.value is Some,
        st.cat is Some,
        st.span is Some,
    ensures
        spec_validate_plain_entry(path, n) == (
            None::<EntryV>,
            seq![missing_field_err(node_loc(path, n), "tag"@)],
        ),
{
    lemma_plain_tag_stays_unset(n.children@, plain_init(), node_loc(path, n), st);
}

/// Span defaults: a span with a duration alone elaborates with window
/// `Current` and count 1.
pub proof fn lemma_span_defaults(n: Node, dur: Duration)
    requires
        n.children@.len() == 1,
        spec_dur_from_code(n.children@[0].text@) == Some(dur),
    ensures
        spec_read_span(n) == Some(Span { duration: dur, window: Window::Current, count: 1 }),
{
}

/// Idempotence: elaboration and instantiation are functions of the parse
/// tree alone, so re-elaborating the same source yields an identical AST and
/// identical produced entries.
pub proof fn lemma_elaboration_deterministic(
    path: Seq<char>,
    pairs: Seq<Node>,
    first: Seq<AstItemV>,
    second: Seq<AstItemV>,
)
    requires
        first == spec_validate(path, pairs).0,
        second == spec_validate(path, pairs).0,
    ensures
        first == second,
        crate::template::spec_instanciate(first) == crate::template::spec_instanciate(second),
{
}

} // verus!
