use vstd::prelude::*;

use crate::attributes::Attributes;
use crate::attributes::insert_rel;
use crate::context::Context;
use crate::error::Error;
use crate::strutil::str_eq;
use crate::value::Value;

verus! {

/// One compiled unit of a template body: a literal run, an attribute
/// reference, a dotted attribute path, or an include of another
/// template by name. Immutable once produced by the compiler.
#[derive(Debug, PartialEq, Eq)]
pub enum Expr {
    Literal(String),
    Attribute(String),
    AttributePath(String, Vec<String>),
    Include(String, Vec<String>),
}

/// The mathematical shape of one compiled expression.
pub enum ExprModel {
    Literal(Seq<char>),
    Attribute(Seq<char>),
    AttributePath(Seq<char>, Seq<Seq<char>>),
    Include(Seq<char>, Seq<Seq<char>>),
}

impl View for Expr {
    type V = ExprModel;

    open spec fn view(&self) -> ExprModel {
        match self {
            Expr::Literal(s) => ExprModel::Literal(s@),
            Expr::Attribute(s) => ExprModel::Attribute(s@),
            Expr::AttributePath(s, path) => ExprModel::AttributePath(
                s@,
                path@.map_values(|seg: String| seg@),
            ),
            Expr::Include(s, args) => ExprModel::Include(
                s@,
                args@.map_values(|seg: String| seg@),
            ),
        }
    }
}

/// The view of an expression vector.
pub open spec fn exprs_view(exprs: Seq<Expr>) -> Seq<ExprModel> {
    exprs.map_values(|e: Expr| e@)
}

impl Clone for Expr {
    fn clone(&self) -> (r: Expr)
        ensures
            r@ == self@,
    {
        match self {
            Expr::Literal(s) => Expr::Literal(s.clone()),
            Expr::Attribute(s) => Expr::Attribute(s.clone()),
            Expr::AttributePath(s, path) => Expr::AttributePath(s.clone(), clone_strings(path)),
            Expr::Include(s, args) => Expr::Include(s.clone(), clone_strings(args)),
        }
    }
}

/// Clone a vector of strings, keeping its view.
pub fn clone_strings(v: &Vec<String>) -> (r: Vec<String>)
    ensures
        r@.map_values(|s: String| s@) == v@.map_values(|s: String| s@),
        r@.len() == v@.len(),
{
    let mut out: Vec<String> = Vec::new();
    let mut i: usize = 0;
    while i < v.len()
        invariant
            i <= v@.len(),
            out@.len() == i,
            forall|k: int| 0 <= k < i ==> out@[k]@ == v@[k]@,
        decreases v@.len() - i,
    {
        out.push(v[i].clone());
        i = i + 1;
    }
    proof {
        assert(out@.map_values(|s: String| s@) =~= v@.map_values(|s: String| s@));
    }
    out
}

fn clone_exprs(v: &Vec<Expr>) -> (r: Vec<Expr>)
    ensures
        exprs_view(r@) == exprs_view(v@),
{
    let mut out: Vec<Expr> = Vec::new();
    let mut i: usize = 0;
    while i < v.len()
        invariant
            i <= v@.len(),
            out@.len() == i,
            forall|k: int| 0 <= k < i ==> out@[k]@ == v@[k]@,
        decreases v@.len() - i,
    {
        out.push(v[i].clone());
        i = i + 1;
    }
    proof {
        assert(exprs_view(out@) =~= exprs_view(v@));
    }
    out
}

impl Default for Expr {
    /// The default expression is an empty literal.
    fn default() -> (r: Expr)
        ensures
            r@ == ExprModel::Literal(Seq::<char>::empty()),
    {
        Expr::Literal(String::new())
    }
}

/// The immutable compiled form of one template: its source text, an
/// optional declared formal-argument set, and the compiled expression
/// sequence. A `None` formal-argument set accepts any attribute name
/// at render time; `Some` accepts only the declared names (so a
/// declared empty list forbids every name).
#[derive(Debug)]
pub struct CompiledTemplate {
    pub template: String,
    pub formal_arguments: Option<Vec<String>>,
    pub expressions: Vec<Expr>,
}

/// The mathematical shape of a compiled template.
pub struct CompiledTemplateModel {
    pub template: Seq<char>,
    pub formal_arguments: Option<Seq<Seq<char>>>,
    pub expressions: Seq<ExprModel>,
}

impl View for CompiledTemplate {
    type V = CompiledTemplateModel;

    open spec fn view(&self) -> CompiledTemplateModel {
        CompiledTemplateModel {
            template: self.template@,
            formal_arguments: match self.formal_arguments {
                Some(args) => Some(args@.map_values(|s: String| s@)),
                None => None,
            },
            expressions: exprs_view(self.expressions@),
        }
    }
}

impl Clone for CompiledTemplate {
    fn clone(&self) -> (r: CompiledTemplate)
        ensures
            r@ == self@,
    {
        let formal_arguments = match &self.formal_arguments {
            Some(args) => Some(clone_strings(args)),
            None => None,
        };
        let r = CompiledTemplate {
            template: self.template.clone(),
            formal_arguments,
            expressions: clone_exprs(&self.expressions),
        };
        proof {
            assert(r@ == self@);
        }
        r
    }
}

/// Whether `name` occurs in a declared argument list.
pub open spec fn contains_name(names: Seq<Seq<char>>, name: Seq<char>) -> bool {
    exists|i: int| 0 <= i < names.len() && names[i] == name
}

/// Whether a template whose declared formal arguments are `formals`
/// accepts the attribute name `name`.
pub open spec fn accepts_attribute(formals: Option<Seq<Seq<char>>>, name: Seq<char>) -> bool {
    match formals {
        None => true,
        Some(names) => contains_name(names, name),
    }
}

impl CompiledTemplate {
    /// A compiled template without a declared formal-argument set:
    /// any attribute name is accepted at render time.
    pub fn new(template: String, expressions: Vec<Expr>) -> (r: CompiledTemplate)
        ensures
            r@.template == template@,
            r@.formal_arguments is None,
            r@.expressions == exprs_view(expressions@),
    {
        CompiledTemplate { template, formal_arguments: None, expressions }
    }

    /// A compiled template with a declared formal-argument set: only
    /// the named arguments may be assigned.
    pub fn with_args(template: String, formal_arguments: Vec<String>, expressions: Vec<Expr>) -> (r:
        CompiledTemplate)
        ensures
            r@.template == template@,
            r@.formal_arguments == Some(formal_arguments@.map_values(|s: String| s@)),
            r@.expressions == exprs_view(expressions@),
    {
        CompiledTemplate { template, formal_arguments: Some(formal_arguments), expressions }
    }

    /// Compile a standalone, groupless template: the body grammar
    /// with no declared formal-argument set, so any attribute name is
    /// accepted at render time.
    pub fn from_str(template: &str) -> (r: Result<CompiledTemplate, Error>)
        ensures
            match crate::parse::body::spec_body(template@) {
                Ok((em, _)) => r matches Ok(ct) && ct@.template == template@
                    && ct@.formal_arguments is None && ct@.expressions == em,
                Err((pos, msg)) => r matches Err(e) && e matches Error::Parse(pe)
                    && pe.spec_text() == crate::diag::spec_diagnostic(
                    template@,
                    crate::diag::span_at(template@, pos),
                    msg,
                ),
            },
    {
        match crate::parse::body::TemplateParser::expressions_of(template) {
            Ok(expressions) => Ok(CompiledTemplate::new(template.to_owned(), expressions)),
            Err(e) => Err(Error::Parse(e)),
        }
    }

    /// Check that `arg_name` may be assigned on this template: always
    /// allowed with no declared argument set, and otherwise exactly
    /// when the name is declared.
    #[verifier::loop_isolation(false)]
    pub fn assert_is_argument(&self, arg_name: &str) -> (r: Result<(), Error>)
        ensures
            accepts_attribute(self@.formal_arguments, arg_name@) <==> r is Ok,
            r matches Err(e) ==> e matches Error::NoSuchAttribute(n) && n@ == arg_name@,
    {
        match &self.formal_arguments {
            None => Ok(()),
            Some(args) => {
                let mut i: usize = 0;
                let ghost names = match self@.formal_arguments {
                    Some(n) => n,
                    None => Seq::<Seq<char>>::empty(),
                };
                proof {
                    assert(self@.formal_arguments == Some(names));
                    assert(names.len() == args@.len());
                }
                while i < args.len()
                    invariant
                        i <= args@.len(),
                        names.len() == args@.len(),
                        forall|k: int| 0 <= k < args@.len() ==> names[k] == args@[k]@,
                        forall|k: int| 0 <= k < i ==> names[k] != arg_name@,
                    decreases args@.len() - i,
                {
                    if str_eq(args[i].as_str(), arg_name) {
                        proof {
                            assert(names[i as int] == arg_name@);
                        }
                        return Ok(());
                    }
                    i = i + 1;
                }
                Err(Error::NoSuchAttribute(arg_name.to_owned()))
            },
        }
    }
}

/// The named registry of compiled templates a group owns: a mapping
/// from template name to compiled template with unique names. Built
/// once from a parsed group body and read-only afterwards; every
/// template obtained from it observes the same contents.
#[derive(Debug)]
pub struct Group {
    templates: Vec<(String, CompiledTemplate)>,
}

/// The compiled template registered under `name`, if any (first
/// match).
pub open spec fn group_lookup(
    g: Seq<(Seq<char>, CompiledTemplateModel)>,
    name: Seq<char>,
) -> Option<CompiledTemplateModel>
    decreases g.len(),
{
    if g.len() == 0 {
        None
    } else if g[0].0 == name {
        Some(g[0].1)
    } else {
        group_lookup(g.drop_first(), name)
    }
}

impl View for Group {
    type V = Seq<(Seq<char>, CompiledTemplateModel)>;

    closed spec fn view(&self) -> Seq<(Seq<char>, CompiledTemplateModel)> {
        self.templates@.map_values(|p: (String, CompiledTemplate)| (p.0@, p.1@))
    }
}

impl Clone for Group {
    fn clone(&self) -> (r: Group)
        ensures
            r@ == self@,
    {
        let mut out: Vec<(String, CompiledTemplate)> = Vec::new();
        let mut i: usize = 0;
        while i < self.templates.len()
            invariant
                i <= self.templates@.len(),
                out@.len() == i,
                forall|k: int| 0 <= k < i ==> out@[k].0@ == self.templates@[k].0@
                    && out@[k].1@ == self.templates@[k].1@,
            decreases self.templates@.len() - i,
        {
            let name = self.templates[i].0.clone();
            let imp = self.templates[i].1.clone();
            out.push((name, imp));
            i = i + 1;
        }
        let r = Group { templates: out };
        proof {
            assert(r@ =~= self@);
        }
        r
    }
}

impl Group {
    /// An empty group.
    pub fn new() -> (r: Group)
        ensures
            r@ =~= Seq::<(Seq<char>, CompiledTemplateModel)>::empty(),
    {
        Group { templates: Vec::new() }
    }

    /// Register `imp` under `name`, replacing any template already
    /// registered under that name (so later declarations win).
    #[verifier::loop_isolation(false)]
    pub fn register(&mut self, name: String, imp: CompiledTemplate)
        ensures
            group_lookup(final(self)@, name@) == Some(imp@),
            final(self)@.len() >= old(self)@.len(),
            forall|other: Seq<char>| other != name@ ==> group_lookup(final(self)@, other)
                == group_lookup(old(self)@, other),
    {
        let ghost g0 = self@;
        let mut i: usize = 0;
        proof {
            assert(g0.skip(0) =~= g0);
        }
        while i < self.templates.len()
            invariant
                i <= self.templates@.len(),
                g0 == self@,
                g0.len() == self.templates@.len(),
                forall|k: int| 0 <= k < g0.len() ==> g0[k] == (
                    self.templates@[k].0@,
                    self.templates@[k].1@,
                ),
                forall|k: int| 0 <= k < i ==> g0[k].0 != name@,
            decreases self.templates@.len() - i,
        {
            if str_eq(self.templates[i].0.as_str(), name.as_str()) {
                let ghost n0 = name@;
                let ghost imp0 = imp@;
                let mut pair = (name, imp);
                self.templates.set_and_swap(i, &mut pair);
                proof {
                    let g1 = self@;
                    assert(g0[i as int].0 == n0);
                    assert(g1[i as int] == (n0, imp0));
                    assert forall|k: int| 0 <= k < g0.len() && k != i as int
                        implies g1[k] == g0[k] by {}
                    lemma_group_lookup_update(g0, g1, i as int, n0);
                    assert forall|other: Seq<char>| other != n0 implies group_lookup(g1, other)
                        == group_lookup(g0, other) by {
                        lemma_group_lookup_update(g0, g1, i as int, other);
                    }
                }
                return;
            }
            i = i + 1;
        }
        let ghost n0 = name@;
        let ghost imp0 = imp@;
        proof {
            lemma_group_lookup_none(g0, n0);
        }
        self.templates.push((name, imp));
        proof {
            let g1 = self@;
            assert(g1 =~= g0.push((n0, imp0)));
            lemma_group_lookup_push(g0, (n0, imp0), n0);
            assert forall|other: Seq<char>| other != n0 implies group_lookup(g1, other)
                == group_lookup(g0, other) by {
                lemma_group_lookup_push(g0, (n0, imp0), other);
            }
        }
    }
}

/// How replacing the entry at `i` (keeping its key) changes a lookup
/// for any one name `q`: a name whose first occurrence is at `i`
/// finds the replacement, and a name different from that key is
/// unaffected.
proof fn lemma_group_lookup_update(
    g0: Seq<(Seq<char>, CompiledTemplateModel)>,
    g1: Seq<(Seq<char>, CompiledTemplateModel)>,
    i: int,
    q: Seq<char>,
)
    requires
        0 <= i < g0.len(),
        g1.len() == g0.len(),
        g1[i].0 == g0[i].0,
        forall|k: int| 0 <= k < g0.len() && k != i ==> g1[k] == g0[k],
    ensures
        q != g0[i].0 ==> group_lookup(g1, q) == group_lookup(g0, q),
        (q == g0[i].0 && (forall|k: int| 0 <= k < i ==> g0[k].0 != q)) ==> group_lookup(g1, q)
            == Some(g1[i].1),
    decreases g0.len(),
{
    let r0 = g0.drop_first();
    let r1 = g1.drop_first();
    assert(r0.len() == r1.len());
    if i == 0 {
        if q != g0[0].0 {
            assert(r1 =~= r0);
        }
    } else {
        assert(g1[0] == g0[0]);
        assert forall|k: int| 0 <= k < r0.len() && k != i - 1 implies r1[k] == r0[k] by {
            assert(r1[k] == g1[k + 1]);
            assert(r0[k] == g0[k + 1]);
        }
        assert(r1[i - 1] == g1[i]);
        assert(r0[i - 1] == g0[i]);
        lemma_group_lookup_update(r0, r1, i - 1, q);
        if q == g0[i].0 && (forall|k: int| 0 <= k < i ==> g0[k].0 != q) {
            assert forall|k: int| 0 <= k < i - 1 implies r0[k].0 != q by {
                assert(r0[k] == g0[k + 1]);
            }
        }
    }
}

/// A name carried by no entry is unbound.
proof fn lemma_group_lookup_none(g0: Seq<(Seq<char>, CompiledTemplateModel)>, q: Seq<char>)
    requires
        forall|k: int| 0 <= k < g0.len() ==> g0[k].0 != q,
    ensures
        group_lookup(g0, q) is None,
    decreases g0.len(),
{
    if g0.len() > 0 {
        assert forall|k: int| 0 <= k < g0.drop_first().len()
            implies g0.drop_first()[k].0 != q by {
            assert(g0.drop_first()[k] == g0[k + 1]);
        }
        lemma_group_lookup_none(g0.drop_first(), q);
    }
}

/// How appending an entry changes a lookup for any one name `q`: a
/// name already bound is unaffected, a fresh name matching the new
/// entry finds it, and any other name stays unbound.
proof fn lemma_group_lookup_push(
    g0: Seq<(Seq<char>, CompiledTemplateModel)>,
    p: (Seq<char>, CompiledTemplateModel),
    q: Seq<char>,
)
    ensures
        group_lookup(g0, q) is Some ==> group_lookup(g0.push(p), q) == group_lookup(g0, q),
        group_lookup(g0, q) is None && p.0 == q ==> group_lookup(g0.push(p), q) == Some(p.1),
        group_lookup(g0, q) is None && p.0 != q ==> group_lookup(g0.push(p), q) is None,
    decreases g0.len(),
{
    if g0.len() == 0 {
        assert(g0.push(p)[0] == p);
        assert(g0.push(p).drop_first() =~= Seq::<(Seq<char>, CompiledTemplateModel)>::empty());
    } else {
        assert(g0.push(p)[0] == g0[0]);
        assert(g0.push(p).drop_first() =~= g0.drop_first().push(p));
        lemma_group_lookup_push(g0.drop_first(), p, q);
    }
}

impl Group {
    pub(crate) fn find_template(&self, name: &str) -> (r: Option<&CompiledTemplate>)
        ensures
            match r {
                Some(imp) => group_lookup(self@, name@) == Some(imp@),
                None => group_lookup(self@, name@) is None,
            },
    {
        let ghost g0 = self@;
        let mut i: usize = 0;
        proof {
            assert(g0.skip(0) =~= g0);
        }
        while i < self.templates.len()
            invariant
                i <= self.templates@.len(),
                g0 == self@,
                g0.len() == self.templates@.len(),
                forall|k: int| 0 <= k < g0.len() ==> g0[k] == (
                    self.templates@[k].0@,
                    self.templates@[k].1@,
                ),
                group_lookup(g0, name@) == group_lookup(g0.skip(i as int), name@),
            decreases self.templates@.len() - i,
        {
            proof {
                assert(g0.skip(i as int)[0] == g0[i as int]);
                assert(g0.skip(i as int).drop_first() =~= g0.skip(i as int + 1));
            }
            if str_eq(self.templates[i].0.as_str(), name) {
                return Some(&self.templates[i].1);
            }
            i = i + 1;
        }
        proof {
            assert(g0.skip(g0.len() as int) =~= Seq::<(Seq<char>, CompiledTemplateModel)>::empty());
        }
        None
    }

    /// Fetch a fresh render-ready binding of the named template: a
    /// clone of the compiled template, a copy of this group for
    /// include resolution, and brand-new empty attributes. `None` when
    /// no template of that name is registered.
    pub fn get(&self, template_name: &str) -> (r: Option<Template>)
        ensures
            match r {
                Some(t) => group_lookup(self@, template_name@) == Some(t.imp@) && t.group@ == self@
                    && t.attributes.entries_seq() =~= Seq::<(String, Context)>::empty(),
                None => group_lookup(self@, template_name@) is None,
            },
    {
        match self.find_template(template_name) {
            Some(imp) => {
                let imp = imp.clone();
                let group = self.clone();
                Some(Template { group, imp, attributes: Attributes::new() })
            },
            None => None,
        }
    }
}

/// The compiled form a parsed declaration registers under its name.
pub open spec fn ctm_of(p: crate::parse::group::ParsedTemplateModel) -> CompiledTemplateModel {
    CompiledTemplateModel {
        template: p.body,
        formal_arguments: Some(p.formal_args),
        expressions: p.expressions,
    }
}

/// The template a name finds among a group body's declarations: the
/// last declaration under that name wins.
pub open spec fn body_lookup(
    ts: Seq<crate::parse::group::ParsedTemplateModel>,
    name: Seq<char>,
) -> Option<CompiledTemplateModel>
    decreases ts.len(),
{
    if ts.len() == 0 {
        None
    } else if ts.last().name == name {
        Some(ctm_of(ts.last()))
    } else {
        body_lookup(ts.drop_last(), name)
    }
}

impl Group {
    /// Build the registry from a parsed group body: each declaration
    /// is registered under its name, later declarations replacing
    /// earlier ones.
    #[verifier::loop_isolation(false)]
    pub fn from_body(body: crate::parse::group::GroupBody) -> (r: Group)
        ensures
            forall|nm: Seq<char>| group_lookup(r@, nm) == body_lookup(
                crate::parse::group::parsed_view(body.templates@),
                nm,
            ),
    {
        let ghost ts0 = crate::parse::group::parsed_view(body.templates@);
        let mut g = Group::new();
        let mut work = body.templates();
        let mut k: usize = 0;
        proof {
            assert(ts0.take(0) =~= Seq::<crate::parse::group::ParsedTemplateModel>::empty());
        }
        while k < work.len()
            invariant
                k <= work@.len(),
                ts0.len() == work@.len(),
                forall|j: int| k <= j < ts0.len() ==> (#[trigger] work@[j]).0@ == ts0[j].name
                    && work@[j].1@ == ctm_of(ts0[j]),
                forall|nm: Seq<char>| group_lookup(g@, nm) == body_lookup(
                    ts0.take(k as int),
                    nm,
                ),
            decreases work@.len() - k,
        {
            let mut pair: (String, CompiledTemplate) = (
                String::new(),
                CompiledTemplate { template: String::new(), formal_arguments: None, expressions: Vec::new() },
            );
            work.set_and_swap(k, &mut pair);
            let (name, imp) = pair;
            proof {
                assert(imp@ == ctm_of(ts0[k as int]));
            }
            g.register(name, imp);
            proof {
                assert forall|nm: Seq<char>| group_lookup(g@, nm) == body_lookup(
                    ts0.take(k + 1 as int),
                    nm,
                ) by {
                    assert(ts0.take(k + 1 as int).last() == ts0[k as int]);
                    assert(ts0.take(k + 1 as int).drop_last() =~= ts0.take(k as int));
                }
            }
            k = k + 1;
        }
        proof {
            assert(ts0.take(ts0.len() as int) =~= ts0);
        }
        g
    }

    /// Parse a bare group body (template declarations without the
    /// `static ref name { ... }` framing) and build the registry.
    pub fn from_str(source: &str) -> (r: Result<Group, Error>)
        ensures
            crate::parse::group::source_fits(source@) ==> match crate::parse::group::spec_group_body_source(
                source@,
            ) {
                Ok(ts) => r matches Ok(g) && (forall|nm: Seq<char>| group_lookup(g@, nm)
                    == body_lookup(ts, nm)),
                Err((span, msg)) => r matches Err(e) && e matches Error::Parse(pe)
                    && pe.spec_text() == crate::diag::spec_diagnostic(source@, span, msg),
            },
    {
        match crate::parse::group::GroupBody::from_str(source) {
            Ok(body) => Ok(Group::from_body(body)),
            Err(e) => Err(Error::Parse(e)),
        }
    }
}

/// A render-ready binding: a compiled template, a reference to its
/// owning group for include resolution, and this binding's own
/// private attributes.
#[derive(Debug)]
pub struct Template {
    pub group: Group,
    pub imp: CompiledTemplate,
    pub attributes: Attributes,
}

impl Template {
    /// Bind `imp` to `group` with fresh, empty attributes.
    pub fn new(group: Group, imp: CompiledTemplate) -> (r: Template)
        ensures
            r.group == group,
            r.imp == imp,
            r.attributes.entries_seq() =~= Seq::<(String, Context)>::empty(),
            r.attributes.wf(),
    {
        Template { group, imp, attributes: Attributes::new() }
    }

    /// Bind a standalone compiled template to an empty group.
    pub fn from_compiled(imp: CompiledTemplate) -> (r: Template)
        ensures
            r.group@ =~= Seq::<(Seq<char>, CompiledTemplateModel)>::empty(),
            r.imp == imp,
            r.attributes.entries_seq() =~= Seq::<(String, Context)>::empty(),
            r.attributes.wf(),
    {
        Template { group: Group::new(), imp, attributes: Attributes::new() }
    }

    /// Assign `value` under `name`: rejected with `NoSuchAttribute`
    /// (and the attributes left unmodified) exactly when this
    /// template declares a formal-argument set that does not contain
    /// `name`; otherwise the value accumulates into the attributes
    /// per the concatenation rule.
    pub fn add(&mut self, name: String, value: Value) -> (r: Result<(), Error>)
        ensures
            final(self).group == old(self).group,
            final(self).imp == old(self).imp,
            r is Ok <==> accepts_attribute(old(self).imp@.formal_arguments, name@),
            r matches Err(e) ==> e matches Error::NoSuchAttribute(n) && n@ == name@
                && final(self).attributes == old(self).attributes,
            r is Ok ==> insert_rel(
                old(self).attributes.entries_seq(),
                final(self).attributes.entries_seq(),
                name@,
                value,
            ) && final(self).attributes.spec_value_of(name@).rendered() == old(
                self,
            ).attributes.spec_value_of(name@).rendered() + value.rendered() && (old(
                self,
            ).attributes.wf() ==> final(self).attributes.wf()),
    {
        match self.imp.assert_is_argument(name.as_str()) {
            Ok(_) => {
                self.attributes.insert(name, Context::new(value));
                Ok(())
            },
            Err(e) => Err(e),
        }
    }

    /// Render this binding; total — missing attributes and includes
    /// degrade to empty output, and the template, its attributes, and
    /// the group are left untouched.
    pub fn render(&self) -> (out: String)
        ensures
            out@ == crate::interpreter::spec_template_render(*self),
    {
        crate::interpreter::render_exprs(
            &self.group,
            &self.imp.expressions,
            &self.attributes,
            crate::interpreter::INCLUDE_DEPTH_LIMIT,
        )
    }
}

} // verus!
