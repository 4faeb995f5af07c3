//! Templates and their instantiation: parameterized blueprints for entries,
//! call-site instantiation requests, argument binding with override
//! precedence, amount and tag evaluation, and the usage audit.

use vstd::prelude::*;

use crate::date::{spec_date_text, spec_month_name, spec_weekday_name, Date};
use crate::entry::{spec_amount_text, Amount, Category, Entry, EntryV, Span, Tag};
use crate::error::{error_v, Error, ErrorRecord, ErrorV, Loc, LocV};
use crate::numfmt::{spec_u64_dec, str_eq, u64_dec};
use crate::parse::{
    extract, lemma_validate_dates_wf, spec_extract, Ast, AstItem, AstItemV, ParseFailure,
    ParseFailureV,
};
use crate::tree::Node;

verus! {

/// A value an argument or default may hold: a monetary amount or a tag text.
#[derive(Debug, PartialEq, Eq)]
pub enum Arg {
    Amount(Amount),
    Tag(String),
}

/// Mathematical image of an [`Arg`].
pub enum ArgV {
    Amount(Amount),
    Tag(Seq<char>),
}

impl DeepView for Arg {
    type V = ArgV;

    open spec fn deep_view(&self) -> ArgV {
        match self {
            Arg::Amount(a) => ArgV::Amount(*a),
            Arg::Tag(s) => ArgV::Tag(s@),
        }
    }
}

impl Clone for Arg {
    /// Cloning keeps the value.
    fn clone(&self) -> (r: Arg)
        ensures
            r.deep_view() == self.deep_view(),
    {
        match self {
            Arg::Amount(a) => Arg::Amount(*a),
            Arg::Tag(s) => Arg::Tag(s.clone()),
        }
    }
}

/// A template-invocation request: template name, positional arguments, named
/// arguments.
#[derive(Debug, PartialEq, Eq)]
pub struct Instance {
    pub label: String,
    pub pos: Vec<Arg>,
    pub named: Vec<(String, Arg)>,
}

/// Mathematical image of an [`Instance`].
pub struct InstanceV {
    pub label: Seq<char>,
    pub pos: Seq<ArgV>,
    pub named: Seq<(Seq<char>, ArgV)>,
}

impl DeepView for Instance {
    type V = InstanceV;

    open spec fn deep_view(&self) -> InstanceV {
        InstanceV {
            label: self.label@,
            pos: self.pos.deep_view(),
            named: self.named.deep_view(),
        }
    }
}

/// One summand of an amount template: a constant amount or a reference to a
/// named argument.
#[derive(Debug, PartialEq, Eq)]
pub enum AmountTemplateItem {
    Cst(Amount),
    Arg(String),
}

/// Mathematical image of an [`AmountTemplateItem`].
pub enum AmountTemplateItemV {
    Cst(Amount),
    Arg(Seq<char>),
}

impl DeepView for AmountTemplateItem {
    type V = AmountTemplateItemV;

    open spec fn deep_view(&self) -> AmountTemplateItemV {
        match self {
            AmountTemplateItem::Cst(a) => AmountTemplateItemV::Cst(*a),
            AmountTemplateItem::Arg(s) => AmountTemplateItemV::Arg(s@),
        }
    }
}

/// The amount expression of a template: a sum of items, negated as a whole
/// when `sign` is false.
#[derive(Debug, PartialEq, Eq)]
pub struct AmountTemplate {
    pub sign: bool,
    pub sum: Vec<AmountTemplateItem>,
}

/// Mathematical image of an [`AmountTemplate`].
pub struct AmountTemplateV {
    pub sign: bool,
    pub sum: Seq<AmountTemplateItemV>,
}

impl DeepView for AmountTemplate {
    type V = AmountTemplateV;

    open spec fn deep_view(&self) -> AmountTemplateV {
        AmountTemplateV { sign: self.sign, sum: self.sum.deep_view() }
    }
}

/// One piece of a tag template: a date-derived builtin token, a raw string,
/// or a reference to a named argument.
#[derive(Debug, PartialEq, Eq)]
pub enum TagTemplateItem {
    Day,
    Month,
    Year,
    Date,
    Weekday,
    Raw(String),
    Arg(String),
}

/// Mathematical image of a [`TagTemplateItem`].
pub enum TagTemplateItemV {
    Day,
    Month,
    Year,
    Date,
    Weekday,
    Raw(Seq<char>),
    Arg(Seq<char>),
}

impl DeepView for TagTemplateItem {
    type V = TagTemplateItemV;

    open spec fn deep_view(&self) -> TagTemplateItemV {
        match self {
            TagTemplateItem::Day => TagTemplateItemV::Day,
            TagTemplateItem::Month => TagTemplateItemV::Month,
            TagTemplateItem::Year => TagTemplateItemV::Year,
            TagTemplateItem::Date => TagTemplateItemV::Date,
            TagTemplateItem::Weekday => TagTemplateItemV::Weekday,
            TagTemplateItem::Raw(s) => TagTemplateItemV::Raw(s@),
            TagTemplateItem::Arg(s) => TagTemplateItemV::Arg(s@),
        }
    }
}

/// The tag expression of a template: pieces concatenated in order.
#[derive(Debug, PartialEq, Eq)]
pub struct TagTemplate(pub Vec<TagTemplateItem>);

impl DeepView for TagTemplate {
    type V = Seq<TagTemplateItemV>;

    open spec fn deep_view(&self) -> Seq<TagTemplateItemV> {
        self.0.deep_view()
    }
}

/// A parameterized blueprint for an entry: positional parameter names, named
/// parameters with default values, and the four entry fields, of which the
/// amount and the tag may reference parameters.
#[derive(Debug, PartialEq, Eq)]
pub struct Template {
    pub positional: Vec<String>,
    pub named: Vec<(String, Arg)>,
    pub value: AmountTemplate,
    pub cat: Category,
    pub span: Span,
    pub tag: TagTemplate,
}

/// Mathematical image of a [`Template`].
pub struct TemplateV {
    pub positional: Seq<Seq<char>>,
    pub named: Seq<(Seq<char>, ArgV)>,
    pub value: AmountTemplateV,
    pub cat: Category,
    pub span: Span,
    pub tag: Seq<TagTemplateItemV>,
}

impl DeepView for Template {
    type V = TemplateV;

    open spec fn deep_view(&self) -> TemplateV {
        TemplateV {
            positional: self.positional.deep_view(),
            named: self.named.deep_view(),
            value: self.value.deep_view(),
            cat: self.cat,
            span: self.span,
            tag: self.tag.deep_view(),
        }
    }
}


/// First position at or after `i` where `name` is bound.
pub open spec fn key_index<V>(s: Seq<(Seq<char>, V)>, name: Seq<char>, i: int) -> Option<int>
    decreases s.len() - i,
{
    if i < 0 || i >= s.len() {
        None
    } else if s[i].0 == name {
        Some(i)
    } else {
        key_index(s, name, i + 1)
    }
}

/// The value bound to `name`, if any.
pub open spec fn spec_lookup<V>(s: Seq<(Seq<char>, V)>, name: Seq<char>) -> Option<V> {
    match key_index(s, name, 0) {
        Some(k) => Some(s[k].1),
        None => None,
    }
}

/// Bind `name` to `val`: replace its binding in place, or append a new one.
pub open spec fn spec_bind<V>(s: Seq<(Seq<char>, V)>, name: Seq<char>, val: V) -> Seq<
    (Seq<char>, V),
> {
    match key_index(s, name, 0) {
        Some(k) => s.update(k, (name, val)),
        None => s.push((name, val)),
    }
}

/// No name is bound twice.
pub open spec fn keys_unique<V>(s: Seq<(Seq<char>, V)>) -> bool {
    forall|i: int, j: int| 0 <= i < j < s.len() ==> (#[trigger] s[i]).0 != (#[trigger] s[j]).0
}

proof fn lemma_key_index_found<V>(s: Seq<(Seq<char>, V)>, name: Seq<char>, i: int, k: int)
    requires
        0 <= i <= k < s.len(),
        s[k].0 == name,
        forall|m: int| i <= m < k ==> (#[trigger] s[m]).0 != name,
    ensures
        key_index(s, name, i) == Some(k),
    decreases k - i,
{
    if i < k {
        lemma_key_index_found(s, name, i + 1, k);
    }
}

proof fn lemma_key_index_none<V>(s: Seq<(Seq<char>, V)>, name: Seq<char>, i: int)
    requires
        0 <= i,
        forall|m: int| i <= m < s.len() ==> (#[trigger] s[m]).0 != name,
    ensures
        key_index(s, name, i) == None::<int>,
    decreases s.len() - i,
{
    if i < s.len() {
        lemma_key_index_none(s, name, i + 1);
    }
}

proof fn lemma_key_index_is_first<V>(s: Seq<(Seq<char>, V)>, name: Seq<char>, i: int, k: int)
    requires
        0 <= i,
        key_index(s, name, i) == Some(k),
    ensures
        i <= k < s.len(),
        s[k].0 == name,
        forall|m: int| i <= m < k ==> (#[trigger] s[m]).0 != name,
    decreases s.len() - i,
{
    if i < s.len() && s[i].0 != name {
        lemma_key_index_is_first(s, name, i + 1, k);
    }
}

proof fn lemma_key_index_none_inv<V>(s: Seq<(Seq<char>, V)>, name: Seq<char>, i: int)
    requires
        0 <= i,
        key_index(s, name, i) == None::<int>,
    ensures
        forall|m: int| i <= m < s.len() ==> (#[trigger] s[m]).0 != name,
    decreases s.len() - i,
{
    if i < s.len() {
        lemma_key_index_none_inv(s, name, i + 1);
    }
}

/// Binding a name keeps all names bound at most once.
pub proof fn lemma_bind_unique<V>(s: Seq<(Seq<char>, V)>, name: Seq<char>, val: V)
    requires
        keys_unique(s),
    ensures
        keys_unique(spec_bind(s, name, val)),
{
    match key_index(s, name, 0) {
        Some(k) => {
            lemma_key_index_is_first(s, name, 0, k);
            let t = s.update(k, (name, val));
            assert(forall|i: int| 0 <= i < s.len() && i != k ==> (#[trigger] t[i]).0 == s[i].0);
            assert(t[k].0 == name);
            assert(s[k].0 == name);
            assert(keys_unique(t));
        },
        None => {
            lemma_key_index_none_inv(s, name, 0);
            let t = s.push((name, val));
            assert(forall|i: int| 0 <= i < s.len() ==> (#[trigger] t[i]).0 == s[i].0);
            assert(t[s.len() as int].0 == name);
            assert(keys_unique(t));
        },
    }
}

/// After binding `name`, looking `name` up finds the new value.
pub proof fn lemma_lookup_bind_same<V>(s: Seq<(Seq<char>, V)>, name: Seq<char>, val: V)
    ensures
        spec_lookup(spec_bind(s, name, val), name) == Some(val),
{
    match key_index(s, name, 0) {
        Some(k) => {
            lemma_key_index_is_first(s, name, 0, k);
            let t = s.update(k, (name, val));
            assert(forall|m: int| 0 <= m < k ==> (#[trigger] t[m]).0 == s[m].0);
            lemma_key_index_found(t, name, 0, k);
        },
        None => {
            lemma_key_index_none_inv(s, name, 0);
            let t = s.push((name, val));
            assert(forall|m: int| 0 <= m < s.len() ==> (#[trigger] t[m]).0 == s[m].0);
            lemma_key_index_found(t, name, 0, s.len() as int);
        },
    }
}

/// Binding `name` leaves every other name's binding unchanged.
pub proof fn lemma_lookup_bind_other<V>(
    s: Seq<(Seq<char>, V)>,
    name: Seq<char>,
    val: V,
    other: Seq<char>,
)
    requires
        other != name,
    ensures
        spec_lookup(spec_bind(s, name, val), other) == spec_lookup(s, other),
{
    let t = spec_bind(s, name, val);
    match key_index(s, name, 0) {
        Some(k) => {
            lemma_key_index_is_first(s, name, 0, k);
            assert(forall|i: int| 0 <= i < s.len() && i != k ==> (#[trigger] t[i]).0 == s[i].0);
            assert(t[k].0 == name);
            match key_index(s, other, 0) {
                Some(m) => {
                    lemma_key_index_is_first(s, other, 0, m);
                    assert(m != k);
                    assert(forall|q: int| 0 <= q < m ==> (#[trigger] t[q]).0 != other);
                    lemma_key_index_found(t, other, 0, m);
                },
                None => {
                    lemma_key_index_none_inv(s, other, 0);
                    assert(forall|q: int| 0 <= q < t.len() ==> (#[trigger] t[q]).0 != other);
                    lemma_key_index_none(t, other, 0);
                },
            }
        },
        None => {
            lemma_key_index_none_inv(s, name, 0);
            assert(forall|i: int| 0 <= i < s.len() ==> (#[trigger] t[i]).0 == s[i].0);
            assert(t[s.len() as int].0 == name);
            match key_index(s, other, 0) {
                Some(m) => {
                    lemma_key_index_is_first(s, other, 0, m);
                    assert(forall|q: int| 0 <= q < m ==> (#[trigger] t[q]).0 != other);
                    lemma_key_index_found(t, other, 0, m);
                },
                None => {
                    lemma_key_index_none_inv(s, other, 0);
                    assert(forall|q: int| 0 <= q < t.len() ==> (#[trigger] t[q]).0 != other);
                    lemma_key_index_none(t, other, 0);
                },
            }
        },
    }
}

/// A name-to-value table that binds each name at most once and keeps the
/// order in which names were first bound.
#[derive(Debug)]
pub struct Assoc<V: DeepView> {
    pub entries: Vec<(String, V)>,
}

impl<V: DeepView> DeepView for Assoc<V> {
    type V = Seq<(Seq<char>, V::V)>;

    open spec fn deep_view(&self) -> Seq<(Seq<char>, V::V)> {
        self.entries.deep_view()
    }
}

impl<V: DeepView> Assoc<V> {
    /// An empty table.
    pub fn new() -> (r: Assoc<V>)
        ensures
            r.deep_view() == Seq::<(Seq<char>, V::V)>::empty(),
    {
        let r = Assoc { entries: Vec::new() };
        proof {
            assert(r.deep_view() =~= Seq::<(Seq<char>, V::V)>::empty());
        }
        r
    }

    /// Bind `name` to `val`, replacing any previous binding of `name` in
    /// place.
    pub fn bind(&mut self, name: String, val: V)
        ensures
            final(self).deep_view() == spec_bind(
                old(self).deep_view(),
                name@,
                val.deep_view(),
            ),
    {
        let ghost s = self.deep_view();
        let mut i: usize = 0;
        while i < self.entries.len()
            invariant
                i <= self.entries.len(),
                s == self.deep_view(),
                s == old(self).deep_view(),
                forall|m: int| 0 <= m < i ==> (#[trigger] s[m]).0 != name@,
            decreases self.entries.len() - i,
        {
            if str_eq(self.entries[i].0.as_str(), name.as_str()) {
                let ghost vv = val.deep_view();
                self.entries.set(i, (name, val));
                proof {
                    lemma_key_index_found(s, s[i as int].0, 0, i as int);
                    assert(self.deep_view() =~= s.update(i as int, (s[i as int].0, vv)));
                }
                return ;
            }
            i = i + 1;
        }
        let ghost vv = val.deep_view();
        proof {
            lemma_key_index_none(s, name@, 0);
        }
        self.entries.push((name, val));
        proof {
            assert(self.deep_view() =~= s.push((name@, vv)));
        }
    }

    /// The value bound to `name`, if any.
    pub fn get(&self, name: &str) -> (r: Option<&V>)
        ensures
            r.deep_view() == spec_lookup(self.deep_view(), name@),
    {
        let ghost s = self.deep_view();
        let mut i: usize = 0;
        while i < self.entries.len()
            invariant
                i <= self.entries.len(),
                s == self.deep_view(),
                forall|m: int| 0 <= m < i ==> (#[trigger] s[m]).0 != name@,
            decreases self.entries.len() - i,
        {
            if str_eq(self.entries[i].0.as_str(), name) {
                proof {
                    lemma_key_index_found(s, name@, 0, i as int);
                }
                return Some(&self.entries[i].1);
            }
            i = i + 1;
        }
        proof {
            lemma_key_index_none(s, name@, 0);
        }
        None
    }

    /// The bindings in order: each name once, at the position of its first
    /// binding.
    pub fn entries(&self) -> (r: &Vec<(String, V)>)
        ensures
            r.deep_view() == self.deep_view(),
    {
        &self.entries
    }

    /// How many names are bound.
    pub fn len(&self) -> (n: usize)
        ensures
            n == self.deep_view().len(),
    {
        self.entries.len()
    }
}


/// "in instanciation of '<name>'".
pub open spec fn inst_of_msg(name: Seq<char>) -> Seq<char> {
    "in instanciation of '"@ + name + "'"@
}

fn mk_inst_of_msg(name: &str) -> (r: String)
    ensures
        r@ == inst_of_msg(name@),
{
    let r = String::from_str("in instanciation of '").concat(name).concat("'");
    proof {
        assert(r@ =~= inst_of_msg(name@));
    }
    r
}

/// The diagnostic for an instantiation of a name no template carries.
pub open spec fn undeclared_err(loc: LocV, label: Seq<char>) -> ErrorV {
    error_v("Undeclared template"@).with_span_v(loc, "attempt to instanciate "@ + label)
        .with_message_v("Maybe a typo ?"@)
}

/// The diagnostic for a positional-argument count that does not match the
/// template's positional parameter count.
pub open spec fn argcount_err(loc: LocV, tloc: LocV, got: nat, want: nat) -> ErrorV {
    error_v("Argcount mismatch"@).with_span_v(
        loc,
        "instanciation provides "@ + spec_u64_dec(got) + " arguments"@,
    ).with_span_v(tloc, "template expects "@ + spec_u64_dec(want) + " arguments"@).with_message_v(
        "Fix the count mismatch"@,
    )
}

/// The diagnostic for a referenced argument that is not bound.
pub open spec fn missing_arg_err(
    name: Seq<char>,
    loc_inst: LocV,
    loc_templ: LocV,
    a: Seq<char>,
) -> ErrorV {
    error_v("Missing argument"@).with_span_v(loc_inst, inst_of_msg(name)).with_message_v(
        "Argument '"@ + a + "' is not provided"@,
    ).with_span_v(loc_templ, "defined here"@).with_message_v(
        "Remove argument from template body or provide a default value"@,
    )
}

/// The diagnostic for a tag-valued argument used as a monetary value.
pub open spec fn type_mismatch_err(name: Seq<char>, loc_inst: LocV, loc_templ: LocV) -> ErrorV {
    error_v("Type mismatch"@).with_span_v(loc_inst, inst_of_msg(name)).with_message_v(
        "Cannot treat tag as a monetary value"@,
    ).with_span_v(loc_templ, "defined here"@).with_message_v("Make it a value"@)
}

/// The advisory for an argument consulted by neither the amount nor the tag.
pub open spec fn unused_arg_err(
    name: Seq<char>,
    loc_inst: LocV,
    loc_templ: LocV,
    argname: Seq<char>,
) -> ErrorV {
    error_v("Unused argument"@).nonfatal_v().with_span_v(loc_inst, inst_of_msg(name))
        .with_message_v("Argument "@ + argname + " is provided but not used"@)
        .with_span_v(loc_templ, "defined here"@)
        .with_message_v("Remove argument or use in template"@)
}

/// The advisory for an amount-typed argument the amount expression never
/// consulted.
pub open spec fn needless_amount_err(
    name: Seq<char>,
    loc_inst: LocV,
    loc_templ: LocV,
    argname: Seq<char>,
) -> ErrorV {
    error_v("Needless amount"@).nonfatal_v().with_span_v(loc_inst, inst_of_msg(name))
        .with_message_v("Argument '"@ + argname + "' has type 'amount' but could be a 'tag'"@)
        .with_span_v(loc_templ, "defined here"@)
        .with_message_v("Change to string or use in amount calculation"@)
}

fn mk_missing_arg_err(name: &str, loc_inst: &Loc, loc_templ: &Loc, a: &str) -> (r: Error)
    ensures
        r.deep_view() == missing_arg_err(
            name@,
            loc_inst.deep_view(),
            loc_templ.deep_view(),
            a@,
        ),
{
    let msg = String::from_str("Argument '").concat(a).concat("' is not provided");
    proof {
        assert(msg@ =~= "Argument '"@ + a@ + "' is not provided"@);
    }
    Error::new("Missing argument").with_span(loc_inst, mk_inst_of_msg(name)).with_message(
        msg,
    ).with_span(loc_templ, String::from_str("defined here")).with_message(
        String::from_str("Remove argument from template body or provide a default value"),
    )
}

fn mk_type_mismatch_err(name: &str, loc_inst: &Loc, loc_templ: &Loc) -> (r: Error)
    ensures
        r.deep_view() == type_mismatch_err(name@, loc_inst.deep_view(), loc_templ.deep_view()),
{
    Error::new("Type mismatch").with_span(loc_inst, mk_inst_of_msg(name)).with_message(
        String::from_str("Cannot treat tag as a monetary value"),
    ).with_span(loc_templ, String::from_str("defined here")).with_message(
        String::from_str("Make it a value"),
    )
}

/// Positional parameter names zipped with the call site's positional values.
pub open spec fn zip_bindings(names: Seq<Seq<char>>, vals: Seq<ArgV>) -> Seq<(Seq<char>, ArgV)> {
    Seq::new(names.len(), |i: int| (names[i], vals[i]))
}

/// Bind every (name, value) pair in order, later bindings overriding earlier
/// ones.
pub open spec fn bind_all(
    s: Seq<(Seq<char>, ArgV)>,
    items: Seq<(Seq<char>, ArgV)>,
) -> Seq<(Seq<char>, ArgV)>
    decreases items.len(),
{
    if items.len() == 0 {
        s
    } else {
        bind_all(spec_bind(s, items[0].0, items[0].1), items.drop_first())
    }
}

/// Image of [`build_arguments`]: positional bindings first, then the
/// template's named defaults, then the call site's named arguments on top,
/// so that the call site overrides any default with the same name.
pub open spec fn spec_build_arguments(inst: InstanceV, t: TemplateV) -> Seq<(Seq<char>, ArgV)> {
    bind_all(
        bind_all(bind_all(Seq::empty(), zip_bindings(t.positional, inst.pos)), t.named),
        inst.named,
    )
}

/// Binding every pair of a list keeps names bound at most once.
proof fn lemma_bind_all_unique(s: Seq<(Seq<char>, ArgV)>, items: Seq<(Seq<char>, ArgV)>)
    requires
        keys_unique(s),
    ensures
        keys_unique(bind_all(s, items)),
    decreases items.len(),
{
    if items.len() > 0 {
        lemma_bind_unique(s, items[0].0, items[0].1);
        lemma_bind_all_unique(spec_bind(s, items[0].0, items[0].1), items.drop_first());
    }
}

/// Bind the call-site arguments against the template's parameters: the
/// positional lists are zipped (their lengths must agree), then the named
/// defaults are seeded, then the call site's named arguments override them.
pub fn build_arguments(
    instance: &Instance,
    loc: &Loc,
    templ_loc: &Loc,
    template: &Template,
) -> (r: Result<Assoc<Arg>, Error>)
    ensures
        r is Ok <==> instance.pos@.len() == template.positional@.len(),
        r matches Ok(m) ==> m.deep_view() == spec_build_arguments(
            instance.deep_view(),
            template.deep_view(),
        ) && keys_unique(m.deep_view()),
        r matches Err(e) ==> e.deep_view() == argcount_err(
            loc.deep_view(),
            templ_loc.deep_view(),
            instance.pos@.len(),
            template.positional@.len(),
        ),
{
    // check number of positional arguments
    if instance.pos.len() != template.positional.len() {
        let got = u64_dec(instance.pos.len() as u64);
        let want = u64_dec(template.positional.len() as u64);
        let msg_got = String::from_str("instanciation provides ").concat(got.as_str()).concat(
            " arguments",
        );
        let msg_want = String::from_str("template expects ").concat(want.as_str()).concat(
            " arguments",
        );
        proof {
            assert(msg_got@ =~= "instanciation provides "@ + spec_u64_dec(
                instance.pos@.len(),
            ) + " arguments"@);
            assert(msg_want@ =~= "template expects "@ + spec_u64_dec(
                template.positional@.len(),
            ) + " arguments"@);
        }
        let err = Error::new("Argcount mismatch").with_span(loc, msg_got).with_span(
            templ_loc,
            msg_want,
        ).with_message(String::from_str("Fix the count mismatch"));
        return Err(err);
    }
    let ghost pos_pairs = zip_bindings(
        template.positional.deep_view(),
        instance.pos.deep_view(),
    );
    let ghost stage1 = bind_all(Seq::empty(), pos_pairs);
    let ghost stage2 = bind_all(stage1, template.named.deep_view());
    let ghost stage3 = bind_all(stage2, instance.named.deep_view());
    let mut args: Assoc<Arg> = Assoc::new();
    let mut i: usize = 0;
    proof {
        assert(pos_pairs.skip(0) =~= pos_pairs);
    }
    while i < template.positional.len()
        invariant
            i <= template.positional.len(),
            template.positional@.len() == instance.pos@.len(),
            pos_pairs == zip_bindings(template.positional.deep_view(), instance.pos.deep_view()),
            stage1 == bind_all(Seq::empty(), pos_pairs),
            keys_unique(args.deep_view()),
            stage1 == bind_all(args.deep_view(), pos_pairs.skip(i as int)),
        decreases template.positional.len() - i,
    {
        proof {
            assert(pos_pairs.skip(i as int)[0] == pos_pairs[i as int]);
            assert(pos_pairs.skip(i as int).drop_first() =~= pos_pairs.skip(i as int + 1));
            lemma_bind_unique(
                args.deep_view(),
                pos_pairs[i as int].0,
                pos_pairs[i as int].1,
            );
        }
        let name = template.positional[i].clone();
        let val = instance.pos[i].clone();
        args.bind(name, val);
        i = i + 1;
    }
    proof {
        assert(pos_pairs.skip(pos_pairs.len() as int) =~= Seq::<(Seq<char>, ArgV)>::empty());
        assert(template.named.deep_view().skip(0) =~= template.named.deep_view());
    }
    // template defaults first so that the instance overrides them
    let mut i: usize = 0;
    while i < template.named.len()
        invariant
            i <= template.named.len(),
            keys_unique(args.deep_view()),
            stage2 == bind_all(args.deep_view(), template.named.deep_view().skip(i as int)),
        decreases template.named.len() - i,
    {
        proof {
            assert(template.named.deep_view().skip(i as int)[0] == template.named.deep_view()[i as int]);
            assert(template.named.deep_view().skip(i as int).drop_first()
                =~= template.named.deep_view().skip(i as int + 1));
            assert(template.named.deep_view()[i as int] == template.named@[i as int].deep_view());
            lemma_bind_unique(
                args.deep_view(),
                template.named.deep_view()[i as int].0,
                template.named.deep_view()[i as int].1,
            );
        }
        let name = template.named[i].0.clone();
        let val = template.named[i].1.clone();
        args.bind(name, val);
        i = i + 1;
    }
    proof {
        assert(template.named.deep_view().skip(template.named.deep_view().len() as int)
            =~= Seq::<(Seq<char>, ArgV)>::empty());
        assert(instance.named.deep_view().skip(0) =~= instance.named.deep_view());
    }
    let mut i: usize = 0;
    while i < instance.named.len()
        invariant
            i <= instance.named.len(),
            keys_unique(args.deep_view()),
            stage3 == bind_all(args.deep_view(), instance.named.deep_view().skip(i as int)),
        decreases instance.named.len() - i,
    {
        proof {
            assert(instance.named.deep_view().skip(i as int)[0] == instance.named.deep_view()[i as int]);
            assert(instance.named.deep_view().skip(i as int).drop_first()
                =~= instance.named.deep_view().skip(i as int + 1));
            assert(instance.named.deep_view()[i as int] == instance.named@[i as int].deep_view());
            lemma_bind_unique(
                args.deep_view(),
                instance.named.deep_view()[i as int].0,
                instance.named.deep_view()[i as int].1,
            );
        }
        let name = instance.named[i].0.clone();
        let val = instance.named[i].1.clone();
        args.bind(name, val);
        i = i + 1;
    }
    proof {
        assert(instance.named.deep_view().skip(instance.named.deep_view().len() as int)
            =~= Seq::<(Seq<char>, ArgV)>::empty());
    }
    Ok(args)
}


/// Membership in a sequence after a push.
proof fn lemma_push_contains(s: Seq<Seq<char>>, x: Seq<char>, nm: Seq<char>)
    ensures
        s.push(x).contains(nm) <==> (s.contains(nm) || nm == x),
{
    if s.contains(nm) {
        let m = choose|m: int| 0 <= m < s.len() && s[m] == nm;
        assert(s.push(x)[m] == nm);
    }
    if nm == x {
        assert(s.push(x)[s.len() as int] == nm);
    }
    if s.push(x).contains(nm) {
        let m = choose|m: int| 0 <= m < s.push(x).len() && s.push(x)[m] == nm;
        if m < s.len() {
            assert(s[m] == nm);
        }
    }
}

/// The argument names an amount expression references.
pub open spec fn amount_refs(sum: Seq<AmountTemplateItemV>) -> Set<Seq<char>>
    decreases sum.len(),
{
    if sum.len() == 0 {
        Set::empty()
    } else {
        let rest = amount_refs(sum.drop_last());
        match sum.last() {
            AmountTemplateItemV::Arg(a) => rest.insert(a),
            AmountTemplateItemV::Cst(_) => rest,
        }
    }
}

/// Evaluate an amount expression left to right: constants add their cents,
/// argument references add the bound amount; the first unbound or tag-valued
/// reference is the error.
pub open spec fn spec_amount_eval(
    sum: Seq<AmountTemplateItemV>,
    args: Seq<(Seq<char>, ArgV)>,
    name: Seq<char>,
    loc_inst: LocV,
    loc_templ: LocV,
) -> Result<int, ErrorV>
    decreases sum.len(),
{
    if sum.len() == 0 {
        Ok(0)
    } else {
        let head: Result<int, ErrorV> = match sum[0] {
            AmountTemplateItemV::Cst(a) => Ok(a.0 as int),
            AmountTemplateItemV::Arg(a) => match spec_lookup(args, a) {
                None => Err(missing_arg_err(name, loc_inst, loc_templ, a)),
                Some(ArgV::Amount(a2)) => Ok(a2.0 as int),
                Some(ArgV::Tag(_)) => Err(type_mismatch_err(name, loc_inst, loc_templ)),
            },
        };
        match head {
            Err(e) => Err(e),
            Ok(v) => match spec_amount_eval(sum.drop_first(), args, name, loc_inst, loc_templ) {
                Err(e) => Err(e),
                Ok(rest) => Ok(v + rest),
            },
        }
    }
}

/// Clamp a mathematical number of cents into the `i64` range.
pub open spec fn clamp_i64(v: int) -> int {
    if v > i64::MAX {
        i64::MAX as int
    } else if v < i64::MIN {
        i64::MIN as int
    } else {
        v
    }
}

/// Image of [`instantiate_amount`]: the evaluated sum, negated as a whole
/// when the template's sign is negative, saturating at the `i64` bounds.
pub open spec fn spec_instantiate_amount(
    t: AmountTemplateV,
    args: Seq<(Seq<char>, ArgV)>,
    name: Seq<char>,
    loc_inst: LocV,
    loc_templ: LocV,
) -> Result<Amount, ErrorV> {
    match spec_amount_eval(t.sum, args, name, loc_inst, loc_templ) {
        Err(e) => Err(e),
        Ok(s) => Ok(
            Amount(
                clamp_i64(
                    if t.sign {
                        s
                    } else {
                        -s
                    },
                ) as i64,
            ),
        ),
    }
}

/// Whether a name occurs in a list of owned names.
fn contains_name(v: &Vec<String>, name: &str) -> (r: bool)
    ensures
        r == v.deep_view().contains(name@),
{
    let mut i: usize = 0;
    while i < v.len()
        invariant
            i <= v.len(),
            forall|m: int| 0 <= m < i ==> v.deep_view()[m] != name@,
        decreases v.len() - i,
    {
        if str_eq(v[i].as_str(), name) {
            proof {
                assert(v.deep_view()[i as int] == name@);
            }
            return true;
        }
        i = i + 1;
    }
    proof {
        assert(!v.deep_view().contains(name@));
    }
    false
}

/// Evaluate a template's amount expression against bound arguments. On
/// success the result also carries the names the evaluation consulted, for
/// the usage audit.
pub fn instantiate_amount(
    name: &str,
    loc_inst: &Loc,
    loc_templ: &Loc,
    templ: &AmountTemplate,
    args: &Assoc<Arg>,
) -> (r: Result<(Amount, Vec<String>), Error>)
    ensures
        r is Ok <==> spec_instantiate_amount(
            templ.deep_view(),
            args.deep_view(),
            name@,
            loc_inst.deep_view(),
            loc_templ.deep_view(),
        ) is Ok,
        r matches Ok(p) ==> spec_instantiate_amount(
            templ.deep_view(),
            args.deep_view(),
            name@,
            loc_inst.deep_view(),
            loc_templ.deep_view(),
        ) matches Ok(a) && p.0 == a && (forall|nm: Seq<char>|
            p.1.deep_view().contains(nm) <==> amount_refs(templ.sum.deep_view()).contains(nm)),
        r matches Err(e) ==> spec_instantiate_amount(
            templ.deep_view(),
            args.deep_view(),
            name@,
            loc_inst.deep_view(),
            loc_templ.deep_view(),
        ) matches Err(ev) && e.deep_view() == ev,
{
    let ghost sum_v = templ.sum.deep_view();
    let ghost argsv = args.deep_view();
    let mut sum: i128 = 0;
    let mut used: Vec<String> = Vec::new();
    let mut i: usize = 0;
    proof {
        assert(sum_v.skip(0) =~= sum_v);
        assert(sum_v.take(0) =~= Seq::<AmountTemplateItemV>::empty());
    }
    while i < templ.sum.len()
        invariant
            i <= templ.sum.len(),
            sum_v == templ.sum.deep_view(),
            argsv == args.deep_view(),
            -(i as int) * 0x8000_0000_0000_0000 <= sum as int <= (i as int)
                * 0x7fff_ffff_ffff_ffff,
            spec_amount_eval(sum_v, argsv, name@, loc_inst.deep_view(), loc_templ.deep_view())
                == match spec_amount_eval(
                sum_v.skip(i as int),
                argsv,
                name@,
                loc_inst.deep_view(),
                loc_templ.deep_view(),
            ) {
                Ok(v) => Ok((sum as int) + v),
                Err(e) => Err::<int, ErrorV>(e),
            },
            forall|nm: Seq<char>|
                used.deep_view().contains(nm) <==> amount_refs(sum_v.take(i as int)).contains(nm),
        decreases templ.sum.len() - i,
    {
        proof {
            assert(sum_v.skip(i as int)[0] == sum_v[i as int]);
            assert(sum_v.skip(i as int).drop_first() =~= sum_v.skip(i as int + 1));
            assert(sum_v.take(i as int + 1).drop_last() =~= sum_v.take(i as int));
            assert(sum_v.take(i as int + 1).last() == sum_v[i as int]);
            assert(sum_v[i as int] == templ.sum@[i as int].deep_view());
        }
        let ghost old_used = used.deep_view();
        let item = &templ.sum[i];
        let n: i64;
        match item {
            AmountTemplateItem::Cst(a) => {
                n = a.0;
            },
            AmountTemplateItem::Arg(a) => {
                used.push(a.clone());
                proof {
                    assert(used.deep_view() =~= old_used.push(a@));
                    assert forall|nm: Seq<char>|
                        used.deep_view().contains(nm) <==> (old_used.contains(nm)
                            || nm == a@) by {
                        lemma_push_contains(old_used, a@, nm);
                    }
                }
                match args.get(a.as_str()) {
                    None => {
                        return Err(
                            mk_missing_arg_err(name, loc_inst, loc_templ, a.as_str()),
                        );
                    },
                    Some(bound) => {
                        match bound {
                            Arg::Amount(a2) => {
                                n = a2.0;
                            },
                            Arg::Tag(_) => {
                                return Err(mk_type_mismatch_err(name, loc_inst, loc_templ));
                            },
                        }
                    },
                }
            },
        }
        proof {
            assert((i + 1) as int * 0x8000_0000_0000_0000 <= 0x1_0000_0000_0000_0000i128
                * 0x8000_0000_0000_0000);
        }
        sum = sum + n as i128;
        i = i + 1;
        proof {
            let ghost k = i as int - 1;
            assert forall|nm: Seq<char>|
                used.deep_view().contains(nm) <==> amount_refs(sum_v.take(i as int)).contains(
                    nm,
                ) by {
                assert(old_used.contains(nm) <==> amount_refs(sum_v.take(k)).contains(nm));
                match sum_v[k] {
                    AmountTemplateItemV::Arg(a) => {
                        lemma_push_contains(old_used, a, nm);
                        assert(amount_refs(sum_v.take(i as int)) == amount_refs(
                            sum_v.take(k),
                        ).insert(a));
                    },
                    AmountTemplateItemV::Cst(_) => {
                        assert(amount_refs(sum_v.take(i as int)) == amount_refs(sum_v.take(k)));
                    },
                }
            }
        }
    }
    proof {
        assert(sum_v.skip(sum_v.len() as int) =~= Seq::<AmountTemplateItemV>::empty());
        assert(sum_v.take(sum_v.len() as int) =~= sum_v);
    }
    let total: i128 = if templ.sign {
        sum
    } else {
        -sum
    };
    let value: i64 = if total > i64::MAX as i128 {
        i64::MAX
    } else if total < i64::MIN as i128 {
        i64::MIN
    } else {
        total as i64
    };
    Ok((Amount(value), used))
}

/// The argument names a tag expression references.
pub open spec fn tag_refs(items: Seq<TagTemplateItemV>) -> Set<Seq<char>>
    decreases items.len(),
{
    if items.len() == 0 {
        Set::empty()
    } else {
        let rest = tag_refs(items.drop_last());
        match items.last() {
            TagTemplateItemV::Arg(a) => rest.insert(a),
            _ => rest,
        }
    }
}

/// Evaluate a tag expression left to right, concatenating text: raw pieces
/// verbatim, date builtins as the entry's own date renders them, bound tags
/// verbatim, bound amounts in their decimal form; the first unbound
/// reference is the error.
pub open spec fn spec_tag_eval(
    items: Seq<TagTemplateItemV>,
    args: Seq<(Seq<char>, ArgV)>,
    date: Date,
    name: Seq<char>,
    loc_inst: LocV,
    loc_templ: LocV,
) -> Result<Seq<char>, ErrorV>
    decreases items.len(),
{
    if items.len() == 0 {
        Ok(Seq::empty())
    } else {
        let head: Result<Seq<char>, ErrorV> = match items[0] {
            TagTemplateItemV::Day => Ok(spec_u64_dec(date.day as nat)),
            TagTemplateItemV::Month => Ok(spec_month_name(date.month)),
            TagTemplateItemV::Year => Ok(spec_u64_dec(date.year as nat)),
            TagTemplateItemV::Date => Ok(spec_date_text(date)),
            TagTemplateItemV::Weekday => Ok(spec_weekday_name(date)),
            TagTemplateItemV::Raw(s) => Ok(s),
            TagTemplateItemV::Arg(a) => match spec_lookup(args, a) {
                None => Err(missing_arg_err(name, loc_inst, loc_templ, a)),
                Some(ArgV::Amount(am)) => Ok(spec_amount_text(am.0 as int)),
                Some(ArgV::Tag(t)) => Ok(t),
            },
        };
        match head {
            Err(e) => Err(e),
            Ok(s) => match spec_tag_eval(
                items.drop_first(),
                args,
                date,
                name,
                loc_inst,
                loc_templ,
            ) {
                Err(e) => Err(e),
                Ok(rest) => Ok(s + rest),
            },
        }
    }
}

/// Evaluate a template's tag expression against bound arguments and the
/// entry's own date. On success the result also carries the names the
/// evaluation consulted, for the usage audit.
pub fn instanciate_tag(
    name: &str,
    loc_inst: &Loc,
    loc_templ: &Loc,
    templ: &TagTemplate,
    args: &Assoc<Arg>,
    date: Date,
) -> (r: Result<(Tag, Vec<String>), Error>)
    requires
        date.wf(),
    ensures
        r is Ok <==> spec_tag_eval(
            templ.deep_view(),
            args.deep_view(),
            date,
            name@,
            loc_inst.deep_view(),
            loc_templ.deep_view(),
        ) is Ok,
        r matches Ok(p) ==> spec_tag_eval(
            templ.deep_view(),
            args.deep_view(),
            date,
            name@,
            loc_inst.deep_view(),
            loc_templ.deep_view(),
        ) matches Ok(t) && p.0.deep_view() == t && (forall|nm: Seq<char>|
            p.1.deep_view().contains(nm) <==> tag_refs(templ.deep_view()).contains(nm)),
        r matches Err(e) ==> spec_tag_eval(
            templ.deep_view(),
            args.deep_view(),
            date,
            name@,
            loc_inst.deep_view(),
            loc_templ.deep_view(),
        ) matches Err(ev) && e.deep_view() == ev,
{
    let ghost items = templ.deep_view();
    let ghost argsv = args.deep_view();
    let mut tag = String::new();
    let mut used: Vec<String> = Vec::new();
    let mut i: usize = 0;
    proof {
        assert(items.skip(0) =~= items);
        assert(items.take(0) =~= Seq::<TagTemplateItemV>::empty());
        assert(tag@ =~= Seq::<char>::empty());
    }
    while i < templ.0.len()
        invariant
            i <= templ.0.len(),
            items == templ.deep_view(),
            argsv == args.deep_view(),
            date.wf(),
            spec_tag_eval(items, argsv, date, name@, loc_inst.deep_view(), loc_templ.deep_view())
                == match spec_tag_eval(
                items.skip(i as int),
                argsv,
                date,
                name@,
                loc_inst.deep_view(),
                loc_templ.deep_view(),
            ) {
                Ok(v) => Ok(tag@ + v),
                Err(e) => Err::<Seq<char>, ErrorV>(e),
            },
            forall|nm: Seq<char>|
                used.deep_view().contains(nm) <==> tag_refs(items.take(i as int)).contains(nm),
        decreases templ.0.len() - i,
    {
        proof {
            assert(items.skip(i as int)[0] == items[i as int]);
            assert(items.skip(i as int).drop_first() =~= items.skip(i as int + 1));
            assert(items.take(i as int + 1).drop_last() =~= items.take(i as int));
            assert(items.take(i as int + 1).last() == items[i as int]);
            assert(items[i as int] == templ.0@[i as int].deep_view());
        }
        let ghost old_used = used.deep_view();
        let ghost old_tag = tag@;
        let item = &templ.0[i];
        match item {
            TagTemplateItem::Day => {
                let piece = u64_dec(date.day as u64);
                tag.append(piece.as_str());
            },
            TagTemplateItem::Month => {
                let piece = date.month.name();
                tag.append(piece.as_str());
            },
            TagTemplateItem::Year => {
                let piece = u64_dec(date.year as u64);
                tag.append(piece.as_str());
            },
            TagTemplateItem::Date => {
                let piece = date.text();
                tag.append(piece.as_str());
            },
            TagTemplateItem::Weekday => {
                let piece = date.weekday_name();
                tag.append(piece.as_str());
            },
            TagTemplateItem::Raw(s) => {
                tag.append(s.as_str());
            },
            TagTemplateItem::Arg(a) => {
                used.push(a.clone());
                proof {
                    assert(used.deep_view() =~= old_used.push(a@));
                    assert forall|nm: Seq<char>|
                        used.deep_view().contains(nm) <==> (old_used.contains(nm)
                            || nm == a@) by {
                        lemma_push_contains(old_used, a@, nm);
                    }
                }
                match args.get(a.as_str()) {
                    None => {
                        return Err(
                            mk_missing_arg_err(name, loc_inst, loc_templ, a.as_str()),
                        );
                    },
                    Some(bound) => {
                        match bound {
                            Arg::Amount(am) => {
                                let piece = am.render();
                                tag.append(piece.as_str());
                            },
                            Arg::Tag(t) => {
                                tag.append(t.as_str());
                            },
                        }
                    },
                }
            },
        }
        i = i + 1;
        proof {
            let ghost k = i as int - 1;
            assert forall|nm: Seq<char>|
                used.deep_view().contains(nm) <==> tag_refs(items.take(i as int)).contains(
                    nm,
                ) by {
                assert(old_used.contains(nm) <==> tag_refs(items.take(k)).contains(nm));
                match items[k] {
                    TagTemplateItemV::Arg(a) => {
                        lemma_push_contains(old_used, a, nm);
                        assert(tag_refs(items.take(i as int)) == tag_refs(items.take(k)).insert(
                            a,
                        ));
                    },
                    _ => {
                        assert(used.deep_view() == old_used);
                        assert(tag_refs(items.take(i as int)) == tag_refs(items.take(k)));
                    },
                }
            }
            match spec_tag_eval(
                items.skip(i as int),
                argsv,
                date,
                name@,
                loc_inst.deep_view(),
                loc_templ.deep_view(),
            ) {
                Ok(v) => {
                    match spec_tag_eval(
                        items,
                        argsv,
                        date,
                        name@,
                        loc_inst.deep_view(),
                        loc_templ.deep_view(),
                    ) {
                        Ok(total) => {
                            assert(total =~= tag@ + v);
                        },
                        Err(_) => {},
                    }
                },
                Err(_) => {},
            }
        }
    }
    proof {
        assert(items.skip(items.len() as int) =~= Seq::<TagTemplateItemV>::empty());
        assert(items.take(items.len() as int) =~= items);
        match spec_tag_eval(
            items,
            argsv,
            date,
            name@,
            loc_inst.deep_view(),
            loc_templ.deep_view(),
        ) {
            Ok(total) => {
                assert(total =~= tag@);
            },
            Err(_) => {},
        }
    }
    Ok((Tag(tag), used))
}


/// The advisories of the usage audit: a binding consulted by neither
/// evaluation is unused; an amount-typed binding consulted only by the tag
/// evaluation carries no arithmetic meaning there.
pub open spec fn spec_audit(
    bindings: Seq<(Seq<char>, ArgV)>,
    aref: Set<Seq<char>>,
    tref: Set<Seq<char>>,
    name: Seq<char>,
    loc_inst: LocV,
    loc_templ: LocV,
) -> Seq<ErrorV>
    decreases bindings.len(),
{
    if bindings.len() == 0 {
        Seq::empty()
    } else {
        let b = bindings[0];
        let head: Seq<ErrorV> = if !aref.contains(b.0) && !tref.contains(b.0) {
            seq![unused_arg_err(name, loc_inst, loc_templ, b.0)]
        } else if b.1 is Amount && !aref.contains(b.0) && tref.contains(b.0) {
            seq![needless_amount_err(name, loc_inst, loc_templ, b.0)]
        } else {
            Seq::empty()
        };
        head + spec_audit(bindings.drop_first(), aref, tref, name, loc_inst, loc_templ)
    }
}

/// Image of [`perform_replacements`]: the amount and tag evaluations (the
/// first failure is the error), and on success the advisories of the usage
/// audit beside the finished entry. Category and span are copied from the
/// template verbatim.
pub open spec fn spec_perform(
    t: TemplateV,
    bindings: Seq<(Seq<char>, ArgV)>,
    date: Date,
    name: Seq<char>,
    loc_inst: LocV,
    loc_templ: LocV,
) -> (Result<EntryV, ErrorV>, Seq<ErrorV>) {
    match spec_instantiate_amount(t.value, bindings, name, loc_inst, loc_templ) {
        Err(e) => (Err::<EntryV, ErrorV>(e), Seq::<ErrorV>::empty()),
        Ok(value) => match spec_tag_eval(t.tag, bindings, date, name, loc_inst, loc_templ) {
            Err(e) => (Err::<EntryV, ErrorV>(e), Seq::<ErrorV>::empty()),
            Ok(tag) => (
                Ok(EntryV { value: value, cat: t.cat, span: t.span, tag: tag }),
                spec_audit(
                    bindings,
                    amount_refs(t.value.sum),
                    tag_refs(t.tag),
                    name,
                    loc_inst,
                    loc_templ,
                ),
            ),
        },
    }
}

fn register_unused_arg(
    errs: &mut ErrorRecord,
    name: &str,
    loc_inst: &Loc,
    loc_templ: &Loc,
    argname: &str,
)
    ensures
        final(errs).deep_view() == old(errs).deep_view().push(
            unused_arg_err(name@, loc_inst.deep_view(), loc_templ.deep_view(), argname@),
        ),
{
    let msg = String::from_str("Argument ").concat(argname).concat(" is provided but not used");
    proof {
        assert(msg@ =~= "Argument "@ + argname@ + " is provided but not used"@);
    }
    Error::new("Unused argument").nonfatal().with_span(loc_inst, mk_inst_of_msg(name))
        .with_message(msg)
        .with_span(loc_templ, String::from_str("defined here"))
        .with_message(String::from_str("Remove argument or use in template"))
        .register(errs);
}

fn register_needless_amount(
    errs: &mut ErrorRecord,
    name: &str,
    loc_inst: &Loc,
    loc_templ: &Loc,
    argname: &str,
)
    ensures
        final(errs).deep_view() == old(errs).deep_view().push(
            needless_amount_err(name@, loc_inst.deep_view(), loc_templ.deep_view(), argname@),
        ),
{
    let msg = String::from_str("Argument '").concat(argname).concat(
        "' has type 'amount' but could be a 'tag'",
    );
    proof {
        assert(msg@ =~= "Argument '"@ + argname@ + "' has type 'amount' but could be a 'tag'"@);
    }
    Error::new("Needless amount").nonfatal().with_span(loc_inst, mk_inst_of_msg(name))
        .with_message(msg)
        .with_span(loc_templ, String::from_str("defined here"))
        .with_message(String::from_str("Change to string or use in amount calculation"))
        .register(errs);
}

/// Evaluate a template's amount and tag against bound arguments, then audit
/// every binding: the advisories are registered as non-fatal diagnostics and
/// never stop the instantiation.
pub fn perform_replacements(
    name: &str,
    loc_inst: &Loc,
    loc_templ: &Loc,
    templ: &Template,
    args: &Assoc<Arg>,
    date: Date,
    errs: &mut ErrorRecord,
) -> (r: Result<Entry, Error>)
    requires
        date.wf(),
    ensures
        r is Ok <==> spec_perform(
            templ.deep_view(),
            args.deep_view(),
            date,
            name@,
            loc_inst.deep_view(),
            loc_templ.deep_view(),
        ).0 is Ok,
        r matches Ok(e) ==> spec_perform(
            templ.deep_view(),
            args.deep_view(),
            date,
            name@,
            loc_inst.deep_view(),
            loc_templ.deep_view(),
        ).0 matches Ok(ev) && e.deep_view() == ev,
        r matches Err(e) ==> spec_perform(
            templ.deep_view(),
            args.deep_view(),
            date,
            name@,
            loc_inst.deep_view(),
            loc_templ.deep_view(),
        ).0 matches Err(ev) && e.deep_view() == ev,
        final(errs).deep_view() == old(errs).deep_view() + spec_perform(
            templ.deep_view(),
            args.deep_view(),
            date,
            name@,
            loc_inst.deep_view(),
            loc_templ.deep_view(),
        ).1,
{
    let ghost bindings = args.deep_view();
    let ghost aref = amount_refs(templ.value.sum.deep_view());
    let ghost tref = tag_refs(templ.tag.deep_view());
    let (value, used_val) = match instantiate_amount(name, loc_inst, loc_templ, &templ.value, args)
    {
        Ok(p) => p,
        Err(e) => {
            proof {
                assert(errs.deep_view() =~= old(errs).deep_view() + Seq::<ErrorV>::empty());
            }
            return Err(e);
        },
    };
    let (tag, used_tag) = match instanciate_tag(name, loc_inst, loc_templ, &templ.tag, args, date)
    {
        Ok(p) => p,
        Err(e) => {
            proof {
                assert(errs.deep_view() =~= old(errs).deep_view() + Seq::<ErrorV>::empty());
            }
            return Err(e);
        },
    };
    let entries = args.entries();
    let mut i: usize = 0;
    proof {
        assert(bindings.skip(0) =~= bindings);
    }
    while i < entries.len()
        invariant
            i <= entries.len(),
            bindings == entries.deep_view(),
            forall|nm: Seq<char>| used_val.deep_view().contains(nm) <==> aref.contains(nm),
            forall|nm: Seq<char>| used_tag.deep_view().contains(nm) <==> tref.contains(nm),
            old(errs).deep_view() + spec_audit(
                bindings,
                aref,
                tref,
                name@,
                loc_inst.deep_view(),
                loc_templ.deep_view(),
            ) == errs.deep_view() + spec_audit(
                bindings.skip(i as int),
                aref,
                tref,
                name@,
                loc_inst.deep_view(),
                loc_templ.deep_view(),
            ),
        decreases entries.len() - i,
    {
        proof {
            assert(bindings.skip(i as int)[0] == bindings[i as int]);
            assert(bindings.skip(i as int).drop_first() =~= bindings.skip(i as int + 1));
            assert(bindings[i as int] == entries@[i as int].deep_view());
        }
        let ghost pre_e = errs.deep_view();
        let argname = &entries[i].0;
        let argval = &entries[i].1;
        let use_v = contains_name(&used_val, argname.as_str());
        let use_t = contains_name(&used_tag, argname.as_str());
        if !use_v && !use_t {
            register_unused_arg(errs, name, loc_inst, loc_templ, argname.as_str());
            proof {
                assert(errs.deep_view() =~= pre_e + seq![
                    unused_arg_err(
                        name@,
                        loc_inst.deep_view(),
                        loc_templ.deep_view(),
                        bindings[i as int].0,
                    ),
                ]);
            }
        } else {
            let is_amount = match argval {
                Arg::Amount(_) => true,
                Arg::Tag(_) => false,
            };
            if is_amount && !use_v && use_t {
                register_needless_amount(errs, name, loc_inst, loc_templ, argname.as_str());
                proof {
                    assert(errs.deep_view() =~= pre_e + seq![
                        needless_amount_err(
                            name@,
                            loc_inst.deep_view(),
                            loc_templ.deep_view(),
                            bindings[i as int].0,
                        ),
                    ]);
                }
            } else {
                proof {
                    assert(errs.deep_view() =~= pre_e + Seq::<ErrorV>::empty());
                }
            }
        }
        i = i + 1;
        proof {
            assert(old(errs).deep_view() + spec_audit(
                bindings,
                aref,
                tref,
                name@,
                loc_inst.deep_view(),
                loc_templ.deep_view(),
            ) =~= errs.deep_view() + spec_audit(
                bindings.skip(i as int),
                aref,
                tref,
                name@,
                loc_inst.deep_view(),
                loc_templ.deep_view(),
            ));
        }
    }
    proof {
        assert(bindings.skip(bindings.len() as int) =~= Seq::<(Seq<char>, ArgV)>::empty());
        assert(old(errs).deep_view() + spec_audit(
            bindings,
            aref,
            tref,
            name@,
            loc_inst.deep_view(),
            loc_templ.deep_view(),
        ) =~= errs.deep_view());
    }
    Ok(Entry { value: value, cat: templ.cat, span: templ.span, tag: tag })
}

/// Image of [`instanciate_item`]: look the template up by exact name, bind
/// the arguments, and perform the replacements.
pub open spec fn spec_instanciate_item(
    inst: InstanceV,
    date: Date,
    loc: LocV,
    reg: Seq<(Seq<char>, (LocV, TemplateV))>,
) -> (Result<EntryV, ErrorV>, Seq<ErrorV>) {
    match spec_lookup(reg, inst.label) {
        None => (Err::<EntryV, ErrorV>(undeclared_err(loc, inst.label)), Seq::<ErrorV>::empty()),
        Some(tp) => {
            if inst.pos.len() != tp.1.positional.len() {
                (
                    Err::<EntryV, ErrorV>(
                        argcount_err(loc, tp.0, inst.pos.len(), tp.1.positional.len()),
                    ),
                    Seq::<ErrorV>::empty(),
                )
            } else {
                spec_perform(
                    tp.1,
                    spec_build_arguments(inst, tp.1),
                    date,
                    inst.label,
                    loc,
                    tp.0,
                )
            }
        },
    }
}

/// Resolve one instantiation request against the registry and produce a
/// concrete entry; advisories go to the accumulator, the first fatal problem
/// is the error.
pub fn instanciate_item(
    instance: &Instance,
    date: Date,
    loc: &Loc,
    templates: &Assoc<(Loc, Template)>,
    errs: &mut ErrorRecord,
) -> (r: Result<Entry, Error>)
    requires
        date.wf(),
    ensures
        r is Ok <==> spec_instanciate_item(
            instance.deep_view(),
            date,
            loc.deep_view(),
            templates.deep_view(),
        ).0 is Ok,
        r matches Ok(e) ==> spec_instanciate_item(
            instance.deep_view(),
            date,
            loc.deep_view(),
            templates.deep_view(),
        ).0 matches Ok(ev) && e.deep_view() == ev,
        r matches Err(e) ==> spec_instanciate_item(
            instance.deep_view(),
            date,
            loc.deep_view(),
            templates.deep_view(),
        ).0 matches Err(ev) && e.deep_view() == ev,
        final(errs).deep_view() == old(errs).deep_view() + spec_instanciate_item(
            instance.deep_view(),
            date,
            loc.deep_view(),
            templates.deep_view(),
        ).1,
{
    let templ = match templates.get(instance.label.as_str()) {
        None => {
            let msg = String::from_str("attempt to instanciate ").concat(
                instance.label.as_str(),
            );
            proof {
                assert(msg@ =~= "attempt to instanciate "@ + instance.label@);
                assert(errs.deep_view() =~= old(errs).deep_view() + Seq::<ErrorV>::empty());
            }
            return Err(
                Error::new("Undeclared template").with_span(loc, msg).with_message(
                    String::from_str("Maybe a typo ?"),
                ),
            );
        },
        Some(t) => t,
    };
    let args = match build_arguments(instance, loc, &templ.0, &templ.1) {
        Ok(a) => a,
        Err(e) => {
            proof {
                assert(errs.deep_view() =~= old(errs).deep_view() + Seq::<ErrorV>::empty());
            }
            return Err(e);
        },
    };
    perform_replacements(
        instance.label.as_str(),
        loc,
        &templ.0,
        &templ.1,
        &args,
        date,
        errs,
    )
}


/// The dates carried by AST items are ones the calendar accepts.
pub open spec fn item_date_wf(it: AstItemV) -> bool {
    match it {
        AstItemV::Entry(d, _) => d.wf(),
        AstItemV::Instance(d, _, _) => d.wf(),
        AstItemV::Template(_, _, _) => true,
    }
}

/// Every date carried by the AST is one the calendar accepts.
pub open spec fn ast_dates_wf(items: Seq<AstItemV>) -> bool {
    forall|i: int| 0 <= i < items.len() ==> item_date_wf(#[trigger] items[i])
}

/// The registry after folding the template declarations of `items` onto
/// `acc`, a later declaration of a name replacing an earlier one.
pub open spec fn spec_registry_from(
    items: Seq<AstItemV>,
    acc: Seq<(Seq<char>, (LocV, TemplateV))>,
) -> Seq<(Seq<char>, (LocV, TemplateV))>
    decreases items.len(),
{
    if items.len() == 0 {
        acc
    } else {
        spec_registry_from(
            items.drop_first(),
            match items[0] {
                AstItemV::Template(n, l, t) => spec_bind(acc, n, (l, t)),
                _ => acc,
            },
        )
    }
}

/// The registry of all template declarations of `items`.
pub open spec fn spec_registry(items: Seq<AstItemV>) -> Seq<(Seq<char>, (LocV, TemplateV))> {
    spec_registry_from(items, Seq::empty())
}

/// The items that are not template declarations, in order.
pub open spec fn non_templates(items: Seq<AstItemV>) -> Seq<AstItemV>
    decreases items.len(),
{
    if items.len() == 0 {
        Seq::empty()
    } else {
        let rest = non_templates(items.drop_first());
        match items[0] {
            AstItemV::Template(_, _, _) => rest,
            _ => seq![items[0]] + rest,
        }
    }
}

/// Resolve the items in source order against a fixed registry: entries pass
/// through, instantiation requests are resolved, the first fatal problem
/// aborts the run; advisories of the instances resolved so far are kept.
pub open spec fn spec_resolve(
    items: Seq<AstItemV>,
    reg: Seq<(Seq<char>, (LocV, TemplateV))>,
) -> (Result<Seq<(Date, EntryV)>, ErrorV>, Seq<ErrorV>)
    decreases items.len(),
{
    if items.len() == 0 {
        (Ok(Seq::<(Date, EntryV)>::empty()), Seq::<ErrorV>::empty())
    } else {
        match items[0] {
            AstItemV::Template(_, _, _) => spec_resolve(items.drop_first(), reg),
            AstItemV::Entry(d, e) => {
                let rest = spec_resolve(items.drop_first(), reg);
                (
                    match rest.0 {
                        Ok(s) => Ok(seq![(d, e)] + s),
                        Err(er) => Err::<Seq<(Date, EntryV)>, ErrorV>(er),
                    },
                    rest.1,
                )
            },
            AstItemV::Instance(d, l, inst) => {
                let one = spec_instanciate_item(inst, d, l, reg);
                match one.0 {
                    Err(e) => (Err::<Seq<(Date, EntryV)>, ErrorV>(e), one.1),
                    Ok(en) => {
                        let rest = spec_resolve(items.drop_first(), reg);
                        (
                            match rest.0 {
                                Ok(s) => Ok(seq![(d, en)] + s),
                                Err(er) => Err::<Seq<(Date, EntryV)>, ErrorV>(er),
                            },
                            one.1 + rest.1,
                        )
                    },
                }
            },
        }
    }
}

/// Image of [`instanciate`]: all templates are registered first, then the
/// dated items are resolved in source order.
pub open spec fn spec_instanciate(items: Seq<AstItemV>) -> (
    Result<Seq<(Date, EntryV)>, ErrorV>,
    Seq<ErrorV>,
) {
    spec_resolve(items, spec_registry(items))
}

/// Template declarations play no part in resolution.
proof fn lemma_resolve_skip_templates(
    items: Seq<AstItemV>,
    reg: Seq<(Seq<char>, (LocV, TemplateV))>,
)
    ensures
        spec_resolve(items, reg) == spec_resolve(non_templates(items), reg),
    decreases items.len(),
{
    if items.len() > 0 {
        lemma_resolve_skip_templates(items.drop_first(), reg);
        match items[0] {
            AstItemV::Template(_, _, _) => {},
            _ => {
                let nt = non_templates(items);
                assert(nt == seq![items[0]] + non_templates(items.drop_first()));
                assert(nt[0] == items[0]);
                assert(nt.drop_first() =~= non_templates(items.drop_first()));
            },
        }
    }
}

/// Consume the AST: register every template, then resolve entries and
/// instantiation requests in source order. Fatal instantiation problems stop
/// the run; advisories accumulate and never do.
pub fn instanciate(ast: Ast, errs: &mut ErrorRecord) -> (r: Result<Vec<(Date, Entry)>, Error>)
    requires
        ast_dates_wf(ast.deep_view()),
    ensures
        r is Ok <==> spec_instanciate(ast.deep_view()).0 is Ok,
        r matches Ok(v) ==> spec_instanciate(ast.deep_view()).0 matches Ok(s) && v.deep_view()
            == s,
        r matches Err(e) ==> spec_instanciate(ast.deep_view()).0 matches Err(ev) && e.deep_view()
            == ev,
        final(errs).deep_view() == old(errs).deep_view() + spec_instanciate(ast.deep_view()).1,
{
    let ghost orig = ast.deep_view();
    let mut work = ast;
    // first pass: register every template declaration
    let mut templates: Assoc<(Loc, Template)> = Assoc::new();
    let mut pending: Vec<AstItem> = Vec::new();
    proof {
        assert(templates.deep_view() =~= Seq::<(Seq<char>, (LocV, TemplateV))>::empty());
        assert(pending.deep_view() =~= Seq::<AstItemV>::empty());
        assert(non_templates(orig) =~= pending.deep_view() + non_templates(work.deep_view()));
    }
    while work.len() > 0
        invariant
            ast_dates_wf(work.deep_view()),
            ast_dates_wf(pending.deep_view()),
            spec_registry_from(orig, Seq::empty()) == spec_registry_from(
                work.deep_view(),
                templates.deep_view(),
            ),
            non_templates(orig) == pending.deep_view() + non_templates(work.deep_view()),
        decreases work.len(),
    {
        let ghost pre_work = work.deep_view();
        let ghost pre_pending = pending.deep_view();
        let item = work.remove(0);
        proof {
            assert(work.deep_view() =~= pre_work.drop_first());
            assert(item.deep_view() == pre_work[0]);
            assert(ast_dates_wf(work.deep_view())) by {
                assert(forall|k: int|
                    0 <= k < work.deep_view().len() ==> work.deep_view()[k] == pre_work[k + 1]);
            }
        }
        match item {
            AstItem::Template(name, l, t) => {
                let ghost lv = l.deep_view();
                let ghost tv = t.deep_view();
                templates.bind(name, (l, t));
                proof {
                    assert(non_templates(orig) =~= pending.deep_view() + non_templates(
                        work.deep_view(),
                    ));
                }
            },
            other => {
                pending.push(other);
                proof {
                    assert(pending.deep_view() =~= pre_pending.push(pre_work[0]));
                    assert(pending.deep_view() + non_templates(work.deep_view())
                        =~= pre_pending + (seq![pre_work[0]] + non_templates(
                        pre_work.drop_first(),
                    )));
                    assert(ast_dates_wf(pending.deep_view())) by {
                        assert(forall|k: int|
                            0 <= k < pre_pending.len() ==> pending.deep_view()[k]
                                == pre_pending[k]);
                        assert(pending.deep_view()[pre_pending.len() as int] == pre_work[0]);
                    }
                }
            },
        }
    }
    let ghost reg = templates.deep_view();
    let ghost pitems = pending.deep_view();
    proof {
        assert(work.deep_view() =~= Seq::<AstItemV>::empty());
        assert(non_templates(orig) =~= pitems);
        assert(reg == spec_registry(orig));
        lemma_resolve_skip_templates(orig, reg);
    }
    // second pass: resolve entries and instantiation requests in order
    let mut entries: Vec<(Date, Entry)> = Vec::new();
    let mut failure: Option<Error> = None;
    proof {
        assert(entries.deep_view() =~= Seq::<(Date, EntryV)>::empty());
    }
    while pending.len() > 0
        invariant_except_break
            failure is None,
            spec_resolve(pitems, reg).0 == (match spec_resolve(pending.deep_view(), reg).0 {
                Ok(s) => Ok::<Seq<(Date, EntryV)>, ErrorV>(entries.deep_view() + s),
                Err(e) => Err::<Seq<(Date, EntryV)>, ErrorV>(e),
            }),
            old(errs).deep_view() + spec_resolve(pitems, reg).1 == errs.deep_view()
                + spec_resolve(pending.deep_view(), reg).1,
        invariant
            reg == templates.deep_view(),
            ast_dates_wf(pending.deep_view()),
        ensures
            failure matches None ==> spec_resolve(pitems, reg).0 == Ok::<
                Seq<(Date, EntryV)>,
                ErrorV,
            >(entries.deep_view()) && errs.deep_view() == old(errs).deep_view() + spec_resolve(
                pitems,
                reg,
            ).1,
            failure matches Some(e) ==> spec_resolve(pitems, reg).0 == Err::<
                Seq<(Date, EntryV)>,
                ErrorV,
            >(e.deep_view()) && errs.deep_view() == old(errs).deep_view() + spec_resolve(
                pitems,
                reg,
            ).1,
        decreases pending.len(),
    {
        let ghost pre_pending = pending.deep_view();
        let ghost pre_entries = entries.deep_view();
        let ghost pre_errs = errs.deep_view();
        let item = pending.remove(0);
        proof {
            assert(pending.deep_view() =~= pre_pending.drop_first());
            assert(item.deep_view() == pre_pending[0]);
            assert(item_date_wf(pre_pending[0]));
            assert(ast_dates_wf(pending.deep_view())) by {
                assert(forall|k: int|
                    0 <= k < pending.deep_view().len() ==> pending.deep_view()[k] == pre_pending[k
                        + 1]);
            }
        }
        match item {
            AstItem::Entry(d, e) => {
                let ghost ev = e.deep_view();
                entries.push((d, e));
                proof {
                    assert(entries.deep_view() =~= pre_entries.push((d, ev)));
                    match spec_resolve(pending.deep_view(), reg).0 {
                        Ok(s) => {
                            assert(pre_entries + (seq![(d, ev)] + s) =~= entries.deep_view() + s);
                        },
                        Err(_) => {},
                    }
                }
            },
            AstItem::Instance(d, l, inst) => {
                match instanciate_item(&inst, d, &l, &templates, errs) {
                    Ok(en) => {
                        let ghost env = en.deep_view();
                        entries.push((d, en));
                        proof {
                            assert(entries.deep_view() =~= pre_entries.push((d, env)));
                            match spec_resolve(pending.deep_view(), reg).0 {
                                Ok(s) => {
                                    assert(pre_entries + (seq![(d, env)] + s)
                                        =~= entries.deep_view() + s);
                                },
                                Err(_) => {},
                            }
                        }
                    },
                    Err(e) => {
                        failure = Some(e);
                        break ;
                    },
                }
            },
            AstItem::Template(_, _, _) => {
                // templates were consumed by the first pass; one here plays
                // no part in resolution
            },
        }
    }
    proof {
        if failure is None {
            assert(pitems == non_templates(orig));
        }
    }
    match failure {
        Some(e) => Err(e),
        None => Ok(entries),
    }
}


/// Run the whole front end on the outcome of the external grammar: elaborate
/// the parse tree into an AST (or register a single parsing-failure
/// diagnostic), then resolve every template instantiation. Elaboration
/// accumulates every diagnostic it can find in one pass; resolution stops at
/// its first fatal problem.
pub fn process(
    path: &str,
    errs: &mut ErrorRecord,
    contents: Result<Vec<Node>, ParseFailure>,
) -> (r: Result<Vec<(Date, Entry)>, Error>)
    ensures
        ({
            let ex = spec_extract(
                path@,
                match contents {
                    Ok(pairs) => Ok(pairs@),
                    Err(f) => Err(f.deep_view()),
                },
            );
            &&& r is Ok <==> spec_instanciate(ex.0).0 is Ok
            &&& (r matches Ok(v) ==> spec_instanciate(ex.0).0 matches Ok(s) && v.deep_view() == s)
            &&& (r matches Err(e) ==> spec_instanciate(ex.0).0 matches Err(ev) && e.deep_view()
                == ev)
            &&& final(errs).deep_view() == old(errs).deep_view() + ex.1 + spec_instanciate(ex.0).1
        }),
{
    let ghost was_ok = contents is Ok;
    let ghost pairs_v: Seq<Node> = if contents is Ok {
        contents->Ok_0@
    } else {
        Seq::empty()
    };
    let ast = extract(path, errs, contents);
    proof {
        if was_ok {
            lemma_validate_dates_wf(path@, pairs_v);
        }
    }
    instanciate(ast, errs)
}


/// The value of the last binding of `x` in a (name, value) list, if any.
pub open spec fn last_binding(items: Seq<(Seq<char>, ArgV)>, x: Seq<char>) -> Option<ArgV>
    decreases items.len(),
{
    if items.len() == 0 {
        None
    } else {
        let rest = last_binding(items.drop_first(), x);
        if rest is Some {
            rest
        } else if items[0].0 == x {
            Some(items[0].1)
        } else {
            None
        }
    }
}

proof fn lemma_bind_all_lookup(
    s: Seq<(Seq<char>, ArgV)>,
    items: Seq<(Seq<char>, ArgV)>,
    x: Seq<char>,
)
    ensures
        spec_lookup(bind_all(s, items), x) == match last_binding(items, x) {
            Some(v) => Some(v),
            None => spec_lookup(s, x),
        },
    decreases items.len(),
{
    if items.len() > 0 {
        let s2 = spec_bind(s, items[0].0, items[0].1);
        lemma_bind_all_lookup(s2, items.drop_first(), x);
        match last_binding(items.drop_first(), x) {
            Some(_) => {},
            None => {
                if items[0].0 == x {
                    lemma_lookup_bind_same(s, items[0].0, items[0].1);
                } else {
                    lemma_lookup_bind_other(s, items[0].0, items[0].1, x);
                }
            },
        }
    }
}

/// Argument precedence: a named argument given at the call site resolves to
/// the call site's value, overriding any template default with the same
/// name.
pub proof fn lemma_argument_precedence(inst: InstanceV, t: TemplateV, x: Seq<char>, v: ArgV)
    requires
        last_binding(inst.named, x) == Some(v),
    ensures
        spec_lookup(spec_build_arguments(inst, t), x) == Some(v),
{
    let stage2 = bind_all(
        bind_all(Seq::empty(), zip_bindings(t.positional, inst.pos)),
        t.named,
    );
    lemma_bind_all_lookup(stage2, inst.named, x);
}


/// How many members of `s` equal `e`.
pub open spec fn count_eq(s: Seq<ErrorV>, e: ErrorV) -> nat
    decreases s.len(),
{
    if s.len() == 0 {
        0
    } else {
        (if s[0] == e {
            1nat
        } else {
            0nat
        }) + count_eq(s.drop_first(), e)
    }
}

/// How many bindings of `s` bind the name `y`.
pub open spec fn count_keys(s: Seq<(Seq<char>, ArgV)>, y: Seq<char>) -> nat
    decreases s.len(),
{
    if s.len() == 0 {
        0
    } else {
        (if s[0].0 == y {
            1nat
        } else {
            0nat
        }) + count_keys(s.drop_first(), y)
    }
}

proof fn lemma_count_eq_concat(a: Seq<ErrorV>, b: Seq<ErrorV>, e: ErrorV)
    ensures
        count_eq(a + b, e) == count_eq(a, e) + count_eq(b, e),
    decreases a.len(),
{
    if a.len() == 0 {
        assert(a + b =~= b);
    } else {
        assert((a + b).drop_first() =~= a.drop_first() + b);
        lemma_count_eq_concat(a.drop_first(), b, e);
    }
}

/// Two "unused argument" advisories about different names differ.
proof fn lemma_unused_err_injective(
    name: Seq<char>,
    loc_inst: LocV,
    loc_templ: LocV,
    z: Seq<char>,
    y: Seq<char>,
)
    requires
        z != y,
    ensures
        unused_arg_err(name, loc_inst, loc_templ, z) != unused_arg_err(name, loc_inst, loc_templ, y),
{
    let mz = "Argument "@ + z + " is provided but not used"@;
    let my = "Argument "@ + y + " is provided but not used"@;
    if mz == my {
        let pre = "Argument "@.len() as int;
        let suf = " is provided but not used"@.len() as int;
        assert(mz.len() == pre + z.len() + suf);
        assert(my.len() == pre + y.len() + suf);
        assert(z.len() == y.len());
        assert forall|i: int| 0 <= i < z.len() implies z[i] == y[i] by {
            assert(mz[pre + i] == z[i]);
            assert(my[pre + i] == y[i]);
        }
        assert(z =~= y);
    }
    assert(unused_arg_err(name, loc_inst, loc_templ, z).notes[1].text == mz);
    assert(unused_arg_err(name, loc_inst, loc_templ, y).notes[1].text == my);
}

proof fn lemma_count_eq_singleton(x: ErrorV, e: ErrorV)
    ensures
        count_eq(seq![x], e) == if x == e {
            1nat
        } else {
            0nat
        },
{
    assert(seq![x].drop_first() =~= Seq::<ErrorV>::empty());
    assert(count_eq(Seq::<ErrorV>::empty(), e) == 0);
    assert(seq![x][0] == x);
}

proof fn lemma_audit_count(
    bindings: Seq<(Seq<char>, ArgV)>,
    aref: Set<Seq<char>>,
    tref: Set<Seq<char>>,
    name: Seq<char>,
    loc_inst: LocV,
    loc_templ: LocV,
    y: Seq<char>,
)
    requires
        !aref.contains(y),
        !tref.contains(y),
    ensures
        count_eq(
            spec_audit(bindings, aref, tref, name, loc_inst, loc_templ),
            unused_arg_err(name, loc_inst, loc_templ, y),
        ) == count_keys(bindings, y),
    decreases bindings.len(),
{
    let e = unused_arg_err(name, loc_inst, loc_templ, y);
    if bindings.len() > 0 {
        let b = bindings[0];
        let head: Seq<ErrorV> = if !aref.contains(b.0) && !tref.contains(b.0) {
            seq![unused_arg_err(name, loc_inst, loc_templ, b.0)]
        } else if b.1 is Amount && !aref.contains(b.0) && tref.contains(b.0) {
            seq![needless_amount_err(name, loc_inst, loc_templ, b.0)]
        } else {
            Seq::empty()
        };
        let rest = spec_audit(bindings.drop_first(), aref, tref, name, loc_inst, loc_templ);
        lemma_count_eq_concat(head, rest, e);
        lemma_audit_count(bindings.drop_first(), aref, tref, name, loc_inst, loc_templ, y);
        if b.0 == y {
            assert(head == seq![e]);
            lemma_count_eq_singleton(e, e);
        } else {
            if !aref.contains(b.0) && !tref.contains(b.0) {
                lemma_unused_err_injective(name, loc_inst, loc_templ, b.0, y);
                lemma_count_eq_singleton(unused_arg_err(name, loc_inst, loc_templ, b.0), e);
            } else if b.1 is Amount && !aref.contains(b.0) && tref.contains(b.0) {
                assert(head[0].title == "Needless amount"@);
                assert(e.title == "Unused argument"@);
                assert(head[0] != e) by {
                    reveal_strlit("Needless amount");
                    reveal_strlit("Unused argument");
                    assert(head[0].title[0] != e.title[0]);
                }
                lemma_count_eq_singleton(needless_amount_err(name, loc_inst, loc_templ, b.0), e);
            } else {
                assert(count_eq(head, e) == 0);
            }
        }
    }
}

proof fn lemma_unique_count_keys(s: Seq<(Seq<char>, ArgV)>, y: Seq<char>)
    requires
        keys_unique(s),
        spec_lookup(s, y) is Some,
    ensures
        count_keys(s, y) == 1,
{
    let k = choose|k: int| key_index(s, y, 0) == Some(k);
    lemma_key_index_is_first(s, y, 0, k);
    lemma_count_keys_one(s, y, k);
}

proof fn lemma_count_keys_one(s: Seq<(Seq<char>, ArgV)>, y: Seq<char>, k: int)
    requires
        0 <= k < s.len(),
        s[k].0 == y,
        forall|i: int, j: int| 0 <= i < j < s.len() ==> (#[trigger] s[i]).0 != (#[trigger] s[j]).0,
    ensures
        count_keys(s, y) == 1,
    decreases s.len(),
{
    if k == 0 {
        lemma_count_keys_zero(s.drop_first(), y);
        assert(forall|m: int|
            0 <= m < s.drop_first().len() ==> (#[trigger] s.drop_first()[m]).0 == s[m + 1].0);
    } else {
        assert(s[0].0 != y);
        assert(forall|m: int|
            0 <= m < s.drop_first().len() ==> (#[trigger] s.drop_first()[m]) == s[m + 1]);
        lemma_count_keys_one(s.drop_first(), y, k - 1);
    }
}

proof fn lemma_count_keys_zero(s: Seq<(Seq<char>, ArgV)>, y: Seq<char>)
    requires
        forall|m: int| 0 <= m < s.len() ==> (#[trigger] s[m]).0 != y,
    ensures
        count_keys(s, y) == 0,
    decreases s.len(),
{
    if s.len() > 0 {
        assert(forall|m: int|
            0 <= m < s.drop_first().len() ==> (#[trigger] s.drop_first()[m]) == s[m + 1]);
        lemma_count_keys_zero(s.drop_first(), y);
    }
}

/// Usage audit: an argument that is bound but referenced by neither the
/// amount expression nor the tag expression yields exactly one non-fatal
/// "unused argument" advisory, and the instantiation still succeeds.
pub proof fn lemma_unused_argument_audit(
    t: TemplateV,
    bindings: Seq<(Seq<char>, ArgV)>,
    date: Date,
    name: Seq<char>,
    loc_inst: LocV,
    loc_templ: LocV,
    y: Seq<char>,
)
    requires
        keys_unique(bindings),
        spec_lookup(bindings, y) is Some,
        !amount_refs(t.value.sum).contains(y),
        !tag_refs(t.tag).contains(y),
        spec_instantiate_amount(t.value, bindings, name, loc_inst, loc_templ) is Ok,
        spec_tag_eval(t.tag, bindings, date, name, loc_inst, loc_templ) is Ok,
    ensures
        spec_perform(t, bindings, date, name, loc_inst, loc_templ).0 is Ok,
        count_eq(
            spec_perform(t, bindings, date, name, loc_inst, loc_templ).1,
            unused_arg_err(name, loc_inst, loc_templ, y),
        ) == 1,
        !unused_arg_err(name, loc_inst, loc_templ, y).fatal,
{
    lemma_audit_count(
        bindings,
        amount_refs(t.value.sum),
        tag_refs(t.tag),
        name,
        loc_inst,
        loc_templ,
        y,
    );
    lemma_unique_count_keys(bindings, y);
}

} // verus!
