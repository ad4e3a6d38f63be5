use vstd::prelude::*;

use crate::diag::format_diagnostic;
use crate::diag::spec_diagnostic;
use crate::parse::group::Visibility;
use crate::span::Span;
use crate::strutil::str_eq;

verus! {

/// A formatted compile failure: the human-readable diagnostic text.
#[derive(Debug)]
pub struct Error(pub String);

impl Error {
    /// The rendered diagnostic text.
    pub open spec fn spec_text(self) -> Seq<char> {
        self.0@
    }

    /// Build the formatted diagnostic for an error at `span`.
    pub fn new(template: &str, span: Span, message: &str) -> (r: Error)
        ensures
            r.spec_text() == spec_diagnostic(template@, span, message@),
    {
        Error(format_diagnostic(template, span, message))
    }

    pub fn to_string(&self) -> (r: String)
        ensures
            r@ == self.spec_text(),
    {
        self.0.clone()
    }
}

impl PartialEq for Error {
    fn eq(&self, other: &Error) -> (r: bool) {
        str_eq(self.0.as_str(), other.0.as_str())
    }
}

impl vstd::std_specs::cmp::PartialEqSpecImpl for Error {
    open spec fn obeys_eq_spec() -> bool {
        true
    }

    open spec fn eq_spec(&self, other: &Error) -> bool {
        self.0@ == other.0@
    }
}

/// One compiled unit of the plain template dialect: a literal run or
/// an attribute reference.
#[derive(Debug, PartialEq, Eq)]
pub enum Expr {
    Literal(String),
    Attribute(String),
}

/// The mathematical shape of one compiled expression.
pub enum ExprModel {
    Literal(Seq<char>),
    Attribute(Seq<char>),
}

impl View for Expr {
    type V = ExprModel;

    open spec fn view(&self) -> ExprModel {
        match self {
            Expr::Literal(s) => ExprModel::Literal(s@),
            Expr::Attribute(s) => ExprModel::Attribute(s@),
        }
    }
}

impl Clone for Expr {
    fn clone(&self) -> (r: Expr)
        ensures
            r@ == self@,
    {
        match self {
            Expr::Literal(s) => Expr::Literal(s.clone()),
            Expr::Attribute(s) => Expr::Attribute(s.clone()),
        }
    }
}

impl Default for Expr {
    /// The default expression is an empty literal.
    fn default() -> (r: Expr)
        ensures
            r@ == ExprModel::Literal(Seq::<char>::empty()),
    {
        Expr::Literal(String::new())
    }
}

/// The view of an expression vector.
pub open spec fn exprs_view(exprs: Seq<Expr>) -> Seq<ExprModel> {
    exprs.map_values(|e: Expr| e@)
}

/// One scanning step over the template: a `<` always closes the run
/// so far as a literal, a `>` always closes it as an attribute
/// reference, and the scan fails only when input ends between a `<`
/// and its `>`.
pub open spec fn spec_scan(s: Seq<char>, i: int, start: int, in_expr: bool, acc: Seq<ExprModel>)
    -> Option<Seq<ExprModel>>
    decreases s.len() - i,
    when 0 <= i
{
    if i >= s.len() {
        if in_expr {
            None
        } else {
            Some(acc.push(ExprModel::Literal(s.subrange(start, s.len() as int))))
        }
    } else if s[i] == '<' {
        spec_scan(s, i + 1, i + 1, true, acc.push(ExprModel::Literal(s.subrange(start, i))))
    } else if s[i] == '>' {
        spec_scan(s, i + 1, i + 1, false, acc.push(ExprModel::Attribute(s.subrange(start, i))))
    } else {
        spec_scan(s, i + 1, start, in_expr, acc)
    }
}

/// What compiling a template yields: its expression sequence, or
/// nothing when the template ends inside an unfinished expression.
pub open spec fn spec_compile(s: Seq<char>) -> Option<Seq<ExprModel>> {
    spec_scan(s, 0, 0, false, Seq::empty())
}

/// The compiled form of one plain template: its source text and
/// expression sequence.
#[derive(Debug)]
pub struct CompiledSt {
    pub template: String,
    pub expressions: Vec<Expr>,
}

impl Clone for CompiledSt {
    fn clone(&self) -> (r: CompiledSt)
        ensures
            r.template@ == self.template@,
            exprs_view(r.expressions@) == exprs_view(self.expressions@),
    {
        let mut expressions: Vec<Expr> = Vec::new();
        let mut i: usize = 0;
        while i < self.expressions.len()
            invariant
                i <= self.expressions@.len(),
                expressions@.len() == i,
                forall|k: int| 0 <= k < i ==> expressions@[k]@ == self.expressions@[k]@,
            decreases self.expressions@.len() - i,
        {
            expressions.push(self.expressions[i].clone());
            i = i + 1;
        }
        proof {
            assert(exprs_view(expressions@) =~= exprs_view(self.expressions@));
        }
        CompiledSt { template: self.template.clone(), expressions }
    }
}

impl CompiledSt {
    pub fn new(template: String, expressions: Vec<Expr>) -> (r: CompiledSt)
        ensures
            r.template == template,
            r.expressions == expressions,
    {
        CompiledSt { template, expressions }
    }

    /// Compile template text by one scan, checking the delimiters:
    /// literal runs split at `<` and `>`, with the text between a `<`
    /// and the next `>` becoming an attribute reference. A template
    /// whose text ends inside an unfinished expression yields `None`.
    #[verifier::loop_isolation(false)]
    pub fn try_compile(template: String) -> (r: Option<CompiledSt>)
        ensures
            match r {
                Some(c) => spec_compile(template@) == Some(exprs_view(c.expressions@))
                    && c.template@ == template@,
                None => spec_compile(template@) is None,
            },
    {
        let s = template.as_str();
        let n = s.unicode_len();
        let mut expressions: Vec<Expr> = Vec::new();
        let mut i: usize = 0;
        let mut start: usize = 0;
        let mut in_expr = false;
        proof {
            assert(exprs_view(expressions@) =~= Seq::<ExprModel>::empty());
        }
        while i < n
            invariant
                start <= i <= n,
                spec_compile(template@) == spec_scan(
                    s@,
                    i as int,
                    start as int,
                    in_expr,
                    exprs_view(expressions@),
                ),
            decreases n - i,
        {
            let c = s.get_char(i);
            if c == '<' {
                let text = s.substring_char(start, i).to_owned();
                let ghost before = exprs_view(expressions@);
                expressions.push(Expr::Literal(text));
                proof {
                    assert(exprs_view(expressions@) =~= before.push(
                        ExprModel::Literal(s@.subrange(start as int, i as int)),
                    ));
                }
                in_expr = true;
                start = i + 1;
            } else if c == '>' {
                let text = s.substring_char(start, i).to_owned();
                let ghost before = exprs_view(expressions@);
                expressions.push(Expr::Attribute(text));
                proof {
                    assert(exprs_view(expressions@) =~= before.push(
                        ExprModel::Attribute(s@.subrange(start as int, i as int)),
                    ));
                }
                in_expr = false;
                start = i + 1;
            }
            i = i + 1;
        }
        if in_expr {
            return None;
        }
        let text = s.substring_char(start, n).to_owned();
        let ghost before = exprs_view(expressions@);
        expressions.push(Expr::Literal(text));
        proof {
            assert(exprs_view(expressions@) =~= before.push(
                ExprModel::Literal(s@.subrange(start as int, n as int)),
            ));
        }
        Some(CompiledSt { template, expressions })
    }

    /// Compile template text whose delimiters are known to balance. A
    /// template ending inside an unfinished expression is outside this
    /// compiler's domain; `try_compile` checks instead of requiring.
    pub fn compile(template: String) -> (r: CompiledSt)
        requires
            spec_compile(template@) is Some,
        ensures
            r.template@ == template@,
            Some(exprs_view(r.expressions@)) == spec_compile(template@),
    {
        match Self::try_compile(template) {
            Some(r) => r,
            None => unreached(),
        }
    }
}

/// The string bound to `name`, if any (first match).
pub open spec fn spec_str_lookup(entries: Seq<(String, String)>, name: Seq<char>) -> Option<
    Seq<char>,
>
    decreases entries.len(),
{
    if entries.len() == 0 {
        None
    } else if entries[0].0@ == name {
        Some(entries[0].1@)
    } else {
        spec_str_lookup(entries.drop_first(), name)
    }
}

/// Plain name-to-string bindings with unique keys. Repeated insertion
/// under one name accumulates by appending to the bound text, so a
/// render concatenates the values in call order.
#[derive(Debug)]
pub struct Attributes {
    entries: Vec<(String, String)>,
}

impl Attributes {
    pub closed spec fn entries_seq(self) -> Seq<(String, String)> {
        self.entries@
    }

    /// What `name` is bound to.
    pub open spec fn spec_get(self, name: Seq<char>) -> Option<Seq<char>> {
        spec_str_lookup(self.entries_seq(), name)
    }

    pub fn new() -> (r: Attributes)
        ensures
            r.entries_seq() =~= Seq::<(String, String)>::empty(),
    {
        Attributes { entries: Vec::new() }
    }

    /// Bind `value` under `name`: a fresh name is bound outright, and
    /// an existing binding accumulates by appending the new text to
    /// the old, so that rendering concatenates values in call order.
    #[verifier::loop_isolation(false)]
    pub fn insert(&mut self, name: String, value: String)
        ensures
            final(self).spec_get(name@) == match old(self).spec_get(name@) {
                Some(prev) => Some(prev + value@),
                None => Some(value@),
            },
            forall|other: Seq<char>| other != name@ ==> final(self).spec_get(other) == old(
                self,
            ).spec_get(other),
    {
        let ghost entries0 = self.entries@;
        let ghost nm0 = name@;
        let ghost vv = value@;
        let mut i: usize = 0;
        while i < self.entries.len()
            invariant
                i <= self.entries@.len(),
                entries0 == self.entries@,
                forall|k: int| 0 <= k < i ==> entries0[k].0@ != nm0,
            decreases self.entries@.len() - i,
        {
            if str_eq(self.entries[i].0.as_str(), name.as_str()) {
                let mut pair: (String, String) = (String::new(), String::new());
                self.entries.set_and_swap(i, &mut pair);
                let (key, mut combined) = pair;
                combined.append(value.as_str());
                let mut pair2: (String, String) = (key, combined);
                self.entries.set_and_swap(i, &mut pair2);
                proof {
                    let entries1 = self.entries@;
                    assert(entries1 =~= entries0.update(
                        i as int,
                        (entries0[i as int].0, entries1[i as int].1),
                    ));
                    assert(entries1[i as int].0@ == nm0);
                    assert(entries1[i as int].1@ == entries0[i as int].1@ + vv);
                    lemma_str_lookup_first(entries0, i as int, nm0);
                    lemma_str_lookup_update(entries0, entries1, i as int, nm0);
                    assert forall|other: Seq<char>| other != nm0 implies spec_str_lookup(
                        entries1,
                        other,
                    ) == spec_str_lookup(entries0, other) by {
                        lemma_str_lookup_update(entries0, entries1, i as int, other);
                    }
                }
                return;
            }
            i = i + 1;
        }
        proof {
            lemma_str_lookup_none(entries0, nm0);
        }
        self.entries.push((name, value));
        proof {
            let entries1 = self.entries@;
            let p = entries1.last();
            assert(entries1 == entries0.push(p));
            assert(p.0@ == nm0 && p.1@ == vv);
            lemma_str_lookup_push(entries0, p, nm0);
            assert forall|other: Seq<char>| other != nm0 implies spec_str_lookup(entries1, other)
                == spec_str_lookup(entries0, other) by {
                lemma_str_lookup_push(entries0, p, other);
            }
        }
    }

    /// The string bound to `name`, if any.
    pub fn get(&self, name: &str) -> (r: Option<&String>)
        ensures
            match r {
                Some(v) => self.spec_get(name@) == Some(v@),
                None => self.spec_get(name@) is None,
            },
    {
        let ghost entries0 = self.entries@;
        let mut i: usize = 0;
        proof {
            assert(entries0.skip(0) =~= entries0);
        }
        while i < self.entries.len()
            invariant
                i <= self.entries@.len(),
                entries0 == self.entries@,
                spec_str_lookup(entries0, name@) == spec_str_lookup(
                    entries0.skip(i as int),
                    name@,
                ),
            decreases self.entries@.len() - i,
        {
            proof {
                assert(entries0.skip(i as int)[0] == entries0[i as int]);
                assert(entries0.skip(i as int).drop_first() =~= entries0.skip(i as int + 1));
            }
            if str_eq(self.entries[i].0.as_str(), name) {
                return Some(&self.entries[i].1);
            }
            i = i + 1;
        }
        proof {
            assert(entries0.skip(entries0.len() as int) =~= Seq::<(String, String)>::empty());
        }
        None
    }
}

impl Clone for Attributes {
    fn clone(&self) -> (r: Attributes)
        ensures
            r.entries_seq().len() == self.entries_seq().len(),
            forall|k: int| 0 <= k < self.entries_seq().len() ==> r.entries_seq()[k].0@
                == self.entries_seq()[k].0@ && r.entries_seq()[k].1@ == self.entries_seq()[k].1@,
            forall|nm: Seq<char>| r.spec_get(nm) == self.spec_get(nm),
    {
        let mut entries: Vec<(String, String)> = Vec::new();
        let mut i: usize = 0;
        while i < self.entries.len()
            invariant
                i <= self.entries@.len(),
                entries@.len() == i,
                forall|k: int| 0 <= k < i ==> entries@[k].0@ == self.entries@[k].0@
                    && entries@[k].1@ == self.entries@[k].1@,
            decreases self.entries@.len() - i,
        {
            let name = self.entries[i].0.clone();
            let value = self.entries[i].1.clone();
            entries.push((name, value));
            i = i + 1;
        }
        let r = Attributes { entries };
        proof {
            assert forall|nm: Seq<char>| r.spec_get(nm) == self.spec_get(nm) by {
                lemma_str_lookup_congruence(r.entries@, self.entries@, nm);
            }
        }
        r
    }
}

/// Lookups agree on entry lists with equal keys and values.
proof fn lemma_str_lookup_congruence(a: Seq<(String, String)>, b: Seq<(String, String)>, name: Seq<
    char,
>)
    requires
        a.len() == b.len(),
        forall|k: int| 0 <= k < a.len() ==> a[k].0@ == b[k].0@ && a[k].1@ == b[k].1@,
    ensures
        spec_str_lookup(a, name) == spec_str_lookup(b, name),
    decreases a.len(),
{
    if a.len() > 0 {
        assert forall|k: int| 0 <= k < a.drop_first().len() implies a.drop_first()[k].0@
            == b.drop_first()[k].0@ && a.drop_first()[k].1@ == b.drop_first()[k].1@ by {
            assert(a.drop_first()[k] == a[k + 1]);
            assert(b.drop_first()[k] == b[k + 1]);
        }
        lemma_str_lookup_congruence(a.drop_first(), b.drop_first(), name);
    }
}

/// A name carried by no entry is unbound.
proof fn lemma_str_lookup_none(entries: Seq<(String, String)>, name: Seq<char>)
    requires
        forall|k: int| 0 <= k < entries.len() ==> entries[k].0@ != name,
    ensures
        spec_str_lookup(entries, name) is None,
    decreases entries.len(),
{
    if entries.len() > 0 {
        assert forall|k: int| 0 <= k < entries.drop_first().len()
            implies entries.drop_first()[k].0@ != name by {
            assert(entries.drop_first()[k] == entries[k + 1]);
        }
        lemma_str_lookup_none(entries.drop_first(), name);
    }
}

/// A lookup finds the first entry holding its name.
proof fn lemma_str_lookup_first(entries: Seq<(String, String)>, i: int, name: Seq<char>)
    requires
        0 <= i < entries.len(),
        entries[i].0@ == name,
        forall|k: int| 0 <= k < i ==> entries[k].0@ != name,
    ensures
        spec_str_lookup(entries, name) == Some(entries[i].1@),
    decreases i,
{
    if i > 0 {
        let rest = entries.drop_first();
        assert(rest[i - 1] == entries[i]);
        assert forall|k: int| 0 <= k < i - 1 implies #[trigger] rest[k].0@ != name by {
            assert(rest[k] == entries[k + 1]);
        }
        lemma_str_lookup_first(rest, i - 1, name);
    }
}

/// How replacing the first entry holding `name` changes lookups.
proof fn lemma_str_lookup_update(
    a: Seq<(String, String)>,
    b: Seq<(String, String)>,
    i: int,
    q: Seq<char>,
)
    requires
        0 <= i < a.len(),
        b.len() == a.len(),
        b[i].0@ == a[i].0@,
        forall|k: int| 0 <= k < a.len() && k != i ==> b[k] == a[k],
        forall|k: int| 0 <= k < i ==> a[k].0@ != a[i].0@,
    ensures
        q == a[i].0@ ==> spec_str_lookup(b, q) == Some(b[i].1@),
        q != a[i].0@ ==> spec_str_lookup(b, q) == spec_str_lookup(a, q),
    decreases a.len(),
{
    let ra = a.drop_first();
    let rb = b.drop_first();
    if i == 0 {
        if q != a[0].0@ {
            assert forall|k: int| 0 <= k < ra.len() implies rb[k].0@ == ra[k].0@ && rb[k].1@
                == ra[k].1@ by {
                assert(rb[k] == b[k + 1]);
                assert(ra[k] == a[k + 1]);
            }
            lemma_str_lookup_congruence(rb, ra, q);
        }
    } else {
        assert(b[0] == a[0]);
        assert forall|k: int| 0 <= k < ra.len() && k != i - 1 implies rb[k] == ra[k] by {
            assert(rb[k] == b[k + 1]);
            assert(ra[k] == a[k + 1]);
        }
        assert(rb[i - 1] == b[i]);
        assert(ra[i - 1] == a[i]);
        assert forall|k: int| 0 <= k < i - 1 implies #[trigger] ra[k].0@ != ra[i - 1].0@ by {
            assert(ra[k] == a[k + 1]);
        }
        lemma_str_lookup_update(ra, rb, i - 1, q);
    }
}

/// How appending a binding under a fresh name changes lookups.
proof fn lemma_str_lookup_push(a: Seq<(String, String)>, p: (String, String), q: Seq<char>)
    requires
        forall|k: int| 0 <= k < a.len() ==> a[k].0@ != p.0@,
    ensures
        q == p.0@ ==> spec_str_lookup(a.push(p), q) == Some(p.1@),
        q != p.0@ ==> spec_str_lookup(a.push(p), q) == spec_str_lookup(a, q),
    decreases a.len(),
{
    if a.len() == 0 {
        assert(a.push(p)[0] == p);
        assert(a.push(p).drop_first() =~= Seq::<(String, String)>::empty());
        if q != p.0@ {
            assert(spec_str_lookup(Seq::<(String, String)>::empty(), q) is None);
            assert(spec_str_lookup(a.push(p), q) is None);
        }
    } else {
        assert(a.push(p)[0] == a[0]);
        assert(a.push(p).drop_first() =~= a.drop_first().push(p));
        assert forall|k: int| 0 <= k < a.drop_first().len() implies a.drop_first()[k].0@
            != p.0@ by {
            assert(a.drop_first()[k] == a[k + 1]);
        }
        lemma_str_lookup_push(a.drop_first(), p, q);
        if q != p.0@ && a[0].0@ != q {
            assert(spec_str_lookup(a.push(p), q) == spec_str_lookup(a.drop_first().push(p), q));
            assert(spec_str_lookup(a, q) == spec_str_lookup(a.drop_first(), q));
        }
    }
}

/// One pass over a compiled expression sequence: literals verbatim,
/// attribute references by their bound string (empty when unbound).
pub open spec fn spec_render(exprs: Seq<ExprModel>, attrs: Seq<(String, String)>) -> Seq<char>
    decreases exprs.len(),
{
    if exprs.len() == 0 {
        Seq::empty()
    } else {
        let head: Seq<char> = match exprs[0] {
            ExprModel::Literal(t) => t,
            ExprModel::Attribute(name) => match spec_str_lookup(attrs, name) {
                Some(v) => v,
                None => Seq::empty(),
            },
        };
        head + spec_render(exprs.drop_first(), attrs)
    }
}

impl CompiledSt {
    /// Render against the given attributes; total — a missing
    /// attribute renders as empty output.
    #[verifier::loop_isolation(false)]
    pub fn render(&self, attributes: &Attributes) -> (out: String)
        ensures
            out@ == spec_render(exprs_view(self.expressions@), attributes.entries_seq()),
    {
        let ghost ev = exprs_view(self.expressions@);
        let ghost attrs = attributes.entries_seq();
        let mut out = String::new();
        let mut j: usize = 0;
        proof {
            assert(ev.skip(0) =~= ev);
        }
        while j < self.expressions.len()
            invariant
                j <= self.expressions@.len(),
                out@ + spec_render(ev.skip(j as int), attrs) == spec_render(ev, attrs),
            decreases self.expressions@.len() - j,
        {
            proof {
                assert(ev.skip(j as int)[0] == ev[j as int]);
                assert(ev.skip(j as int).drop_first() =~= ev.skip(j as int + 1));
            }
            match &self.expressions[j] {
                Expr::Literal(t) => {
                    out.append(t.as_str());
                },
                Expr::Attribute(name) => {
                    match attributes.get(name.as_str()) {
                        Some(v) => {
                            out.append(v.as_str());
                        },
                        None => {
                            proof {
                                assert(out@ + Seq::<char>::empty() =~= out@);
                            }
                        },
                    }
                },
            }
            j = j + 1;
        }
        proof {
            assert(ev.skip(ev.len() as int) =~= Seq::<ExprModel>::empty());
            assert(out@ + Seq::<char>::empty() =~= out@);
        }
        out
    }
}

proof fn lemma_scan_no_delims(s: Seq<char>, i: int, start: int, acc: Seq<ExprModel>)
    requires
        0 <= start <= i <= s.len(),
        forall|k: int| 0 <= k < s.len() ==> s[k] != '<' && s[k] != '>',
    ensures
        spec_scan(s, i, start, false, acc) == Some(
            acc.push(ExprModel::Literal(s.subrange(start, s.len() as int))),
        ),
    decreases s.len() - i,
{
    if i < s.len() {
        lemma_scan_no_delims(s, i + 1, start, acc);
    }
}

/// Literal pass-through: a template containing neither `<` nor `>`
/// compiles to one literal equal to the whole template, and renders
/// byte-identical to its source against any attributes.
pub proof fn lemma_literal_passthrough(s: Seq<char>, attrs: Seq<(String, String)>)
    requires
        forall|k: int| 0 <= k < s.len() ==> s[k] != '<' && s[k] != '>',
    ensures
        spec_compile(s) matches Some(exprs) && exprs =~= seq![ExprModel::Literal(s)] && spec_render(
            exprs,
            attrs,
        ) == s,
{
    lemma_scan_no_delims(s, 0, 0, Seq::empty());
    assert(s.subrange(0, s.len() as int) =~= s);
    match spec_compile(s) {
        Some(exprs) => {
            assert(exprs =~= seq![ExprModel::Literal(s)]);
            assert(exprs[0] == ExprModel::Literal(s));
            assert(exprs.drop_first() =~= Seq::<ExprModel>::empty());
            assert(spec_render(exprs.drop_first(), attrs) == Seq::<char>::empty());
            assert(spec_render(exprs, attrs) == s + Seq::<char>::empty());
            assert(s + Seq::<char>::empty() =~= s);
        },
        None => {
            assert(false);
        },
    }
}

/// A render-ready plain template: a compiled template and its own
/// attribute bindings.
#[derive(Debug)]
pub struct St {
    pub imp: CompiledSt,
    pub attributes: Attributes,
}

impl Clone for St {
    fn clone(&self) -> (r: St)
        ensures
            r.imp.template@ == self.imp.template@,
            exprs_view(r.imp.expressions@) == exprs_view(self.imp.expressions@),
            forall|nm: Seq<char>| r.attributes.spec_get(nm) == self.attributes.spec_get(nm),
    {
        St { imp: self.imp.clone(), attributes: self.attributes.clone() }
    }
}

impl St {
    /// Compile a fresh template with empty attributes.
    pub fn new(template: String) -> (r: St)
        requires
            spec_compile(template@) is Some,
        ensures
            r.imp.template@ == template@,
            Some(exprs_view(r.imp.expressions@)) == spec_compile(template@),
            r.attributes.entries_seq() =~= Seq::<(String, String)>::empty(),
    {
        St { imp: CompiledSt::compile(template), attributes: Attributes::new() }
    }

    /// Compile a fresh template with empty attributes, checking the
    /// delimiters: `None` when the text ends inside an unfinished
    /// expression.
    pub fn try_new(template: String) -> (r: Option<St>)
        ensures
            match r {
                Some(st) => spec_compile(template@) == Some(exprs_view(st.imp.expressions@))
                    && st.imp.template@ == template@ && st.attributes.entries_seq() =~= Seq::<
                    (String, String),
                >::empty(),
                None => spec_compile(template@) is None,
            },
    {
        match CompiledSt::try_compile(template) {
            Some(imp) => Some(St { imp, attributes: Attributes::new() }),
            None => None,
        }
    }

    /// Bind `value` under `name`: repeated assignment under one name
    /// accumulates, appending the new text to the old, so that a
    /// render concatenates the values in call order.
    pub fn add(&mut self, name: String, value: String)
        ensures
            final(self).imp == old(self).imp,
            final(self).attributes.spec_get(name@) == match old(self).attributes.spec_get(name@) {
                Some(prev) => Some(prev + value@),
                None => Some(value@),
            },
            forall|other: Seq<char>| other != name@ ==> final(self).attributes.spec_get(other)
                == old(self).attributes.spec_get(other),
    {
        self.attributes.insert(name, value);
    }

    /// Render against this template's own attributes.
    pub fn render(&self) -> (out: String)
        ensures
            out@ == spec_render(exprs_view(self.imp.expressions@), self.attributes.entries_seq()),
    {
        self.imp.render(&self.attributes)
    }
}

/// The template registered under `name`, if any (first match).
pub open spec fn spec_group_get(entries: Seq<(String, St)>, name: Seq<char>) -> Option<St>
    decreases entries.len(),
{
    if entries.len() == 0 {
        None
    } else if entries[0].0@ == name {
        Some(entries[0].1)
    } else {
        spec_group_get(entries.drop_first(), name)
    }
}

/// A named registry of plain templates.
#[derive(Debug)]
pub struct StGroup {
    templates: Vec<(String, St)>,
}

impl StGroup {
    pub closed spec fn templates_seq(self) -> Seq<(String, St)> {
        self.templates@
    }

    pub fn new(templates: Vec<(String, St)>) -> (r: StGroup)
        ensures
            r.templates_seq() == templates@,
    {
        StGroup { templates }
    }

    /// A fresh copy of the named template, if the group holds one.
    pub fn get(&self, template_name: &str) -> (r: Option<St>)
        ensures
            match r {
                Some(st) => spec_group_get(self.templates_seq(), template_name@) matches Some(st2)
                    && st.imp.template@ == st2.imp.template@ && exprs_view(st.imp.expressions@)
                    == exprs_view(st2.imp.expressions@) && (forall|nm: Seq<char>|
                    st.attributes.spec_get(nm) == st2.attributes.spec_get(nm)),
                None => spec_group_get(self.templates_seq(), template_name@) is None,
            },
    {
        let ghost entries0 = self.templates@;
        let mut i: usize = 0;
        proof {
            assert(entries0.skip(0) =~= entries0);
        }
        while i < self.templates.len()
            invariant
                i <= self.templates@.len(),
                entries0 == self.templates@,
                spec_group_get(entries0, template_name@) == spec_group_get(
                    entries0.skip(i as int),
                    template_name@,
                ),
            decreases self.templates@.len() - i,
        {
            proof {
                assert(entries0.skip(i as int)[0] == entries0[i as int]);
                assert(entries0.skip(i as int).drop_first() =~= entries0.skip(i as int + 1));
            }
            if str_eq(self.templates[i].0.as_str(), template_name) {
                return Some(self.templates[i].1.clone());
            }
            i = i + 1;
        }
        proof {
            assert(entries0.skip(entries0.len() as int) =~= Seq::<(String, St)>::empty());
        }
        None
    }
}

/// One parsed plain template declaration: a name, formal arguments,
/// and the body text (kept uncompiled).
#[derive(Debug)]
pub struct StaticSt {
    pub name: String,
    pub formal_args: Vec<String>,
    pub template_body: String,
}

impl PartialEq for StaticSt {
    /// Declarations compare by name.
    fn eq(&self, other: &StaticSt) -> (r: bool) {
        str_eq(self.name.as_str(), other.name.as_str())
    }
}

impl vstd::std_specs::cmp::PartialEqSpecImpl for StaticSt {
    open spec fn obeys_eq_spec() -> bool {
        true
    }

    open spec fn eq_spec(&self, other: &StaticSt) -> bool {
        self.name@ == other.name@
    }
}

/// A parsed `static ref name { ... }` group of plain templates.
#[derive(Debug)]
pub struct StaticStGroup {
    pub visibility: Visibility,
    pub group_name: String,
    pub templates: Vec<StaticSt>,
}

impl PartialEq for StaticStGroup {
    /// Groups compare by name.
    fn eq(&self, other: &StaticStGroup) -> (r: bool) {
        str_eq(self.group_name.as_str(), other.group_name.as_str())
    }
}

impl vstd::std_specs::cmp::PartialEqSpecImpl for StaticStGroup {
    open spec fn obeys_eq_spec() -> bool {
        true
    }

    open spec fn eq_spec(&self, other: &StaticStGroup) -> bool {
        self.group_name@ == other.group_name@
    }
}

impl StaticStGroup {
    /// An empty group declaration under the given name.
    pub fn new(visibility: Visibility, group_name: String) -> (r: StaticStGroup)
        ensures
            r.visibility == visibility,
            r.group_name == group_name,
            r.templates@.len() == 0,
    {
        StaticStGroup { visibility, group_name, templates: Vec::new() }
    }

    /// Parse a whole `static ref name { ... }` declaration; a grammar
    /// violation yields the formatted diagnostic for its source span.
    pub fn parse_str(template: &str) -> (r: Result<StaticStGroup, Error>)
        ensures
            crate::parse::group::source_fits(template@) ==> match crate::parse::group::spec_static_source(
                template@,
            ) {
                Ok(gm) => r matches Ok(g) && (g.visibility == Visibility::Public
                    <==> gm.is_public) && g.group_name@ == gm.group_name && g.templates@.len()
                    == gm.templates.len() && (forall|k: int| 0 <= k < gm.templates.len() ==> {
                        let st = #[trigger] g.templates@[k];
                        st.name@ == gm.templates[k].name && crate::parse::body::strings_view(
                            st.formal_args@,
                        ) == gm.templates[k].formal_args && st.template_body@
                            == gm.templates[k].body
                    }),
                Err((span, msg)) => r matches Err(e) && e.spec_text() == spec_diagnostic(
                    template@,
                    span,
                    msg,
                ),
            },
    {
        match crate::parse::group::parse_static_source(template) {
            Ok((is_public, group_name, raws)) => {
                let visibility = if is_public {
                    Visibility::Public
                } else {
                    Visibility::Inherited
                };
                let ghost raws0 = crate::parse::group::decls_view(raws@);
                let mut templates: Vec<StaticSt> = Vec::new();
                let mut work = raws;
                let mut k: usize = 0;
                while k < work.len()
                    invariant
                        k <= work@.len(),
                        raws0.len() == work@.len(),
                        forall|j: int| k <= j < raws0.len() ==> work@[j]@ == raws0[j],
                        templates@.len() == k,
                        forall|j: int| 0 <= j < k ==> {
                            let st = #[trigger] templates@[j];
                            st.name@ == raws0[j].name && crate::parse::body::strings_view(
                                st.formal_args@,
                            ) == raws0[j].formal_args && st.template_body@ == raws0[j].body
                        },
                    decreases work@.len() - k,
                {
                    let mut placeholder = crate::parse::group::RawTemplate {
                        name: String::new(),
                        formal_args: Vec::new(),
                        body: String::new(),
                        body_span: Span { start_line: 1, start_col: 0, end_line: 1, end_col: 1 },
                    };
                    work.set_and_swap(k, &mut placeholder);
                    templates.push(
                        StaticSt {
                            name: placeholder.name,
                            formal_args: placeholder.formal_args,
                            template_body: placeholder.body,
                        },
                    );
                    proof {
                        let st = templates@[k as int];
                        assert(crate::parse::body::strings_view(st.formal_args@)
                            =~= raws0[k as int].formal_args);
                    }
                    k = k + 1;
                }
                Ok(StaticStGroup { visibility, group_name, templates })
            },
            Err(e) => Err(Error(e.to_string())),
        }
    }
}

} // verus!
