use vstd::prelude::*;

use crate::attributes::Attributes;
use crate::attributes::value_of;
use crate::context::Context;
use crate::context::spec_navigate;
use crate::template::CompiledTemplate;
use crate::template::CompiledTemplateModel;
use crate::template::Expr;
use crate::template::ExprModel;
use crate::template::Group;
use crate::template::Template;
use crate::template::exprs_view;
use crate::template::group_lookup;

verus! {

/// How deep a chain of includes may go before further includes render
/// as empty output. The include grammar has no cycle detection, so a
/// self-referential chain of templates is cut off at this depth
/// rather than recursing without bound.
pub const INCLUDE_DEPTH_LIMIT: u64 = 64;

/// One left-to-right pass over a compiled expression sequence: the
/// concatenation of each expression's rendered form.
pub open spec fn spec_render(
    group: Seq<(Seq<char>, CompiledTemplateModel)>,
    exprs: Seq<ExprModel>,
    attrs: Seq<(String, Context)>,
    fuel: nat,
) -> Seq<char>
    decreases fuel, exprs.len(),
{
    if exprs.len() == 0 {
        Seq::empty()
    } else {
        spec_render_one(group, exprs[0], attrs, fuel) + spec_render(
            group,
            exprs.drop_first(),
            attrs,
            fuel,
        )
    }
}

/// One expression's rendered form: a literal verbatim; an attribute
/// (or dotted path into it) by its value's textual form, with a
/// missing attribute rendering as empty; an include by rendering the
/// named template with its own fresh, empty attributes, or as empty
/// when the group holds no such template or the depth limit is
/// reached.
pub open spec fn spec_render_one(
    group: Seq<(Seq<char>, CompiledTemplateModel)>,
    e: ExprModel,
    attrs: Seq<(String, Context)>,
    fuel: nat,
) -> Seq<char>
    decreases fuel, 0nat,
{
    match e {
        ExprModel::Literal(s) => s,
        ExprModel::Attribute(name) => value_of(attrs, name).rendered(),
        ExprModel::AttributePath(name, path) => spec_navigate(
            value_of(attrs, name),
            path,
        ).rendered(),
        ExprModel::Include(name, _args) => match group_lookup(group, name) {
            Some(imp) => if fuel > 0 {
                spec_render(group, imp.expressions, Seq::empty(), (fuel - 1) as nat)
            } else {
                Seq::empty()
            },
            None => Seq::empty(),
        },
    }
}

/// A missing attribute renders as empty output, not as an error.
pub proof fn lemma_missing_attribute_renders_empty(
    group: Seq<(Seq<char>, CompiledTemplateModel)>,
    name: Seq<char>,
    attrs: Seq<(String, Context)>,
    fuel: nat,
)
    requires
        crate::attributes::spec_lookup(attrs, name) is None,
    ensures
        spec_render_one(group, ExprModel::Attribute(name), attrs, fuel) == Seq::<char>::empty(),
{
}

/// An include of a template the group does not hold renders as empty
/// output, not as an error.
pub proof fn lemma_missing_include_renders_empty(
    group: Seq<(Seq<char>, CompiledTemplateModel)>,
    name: Seq<char>,
    args: Seq<Seq<char>>,
    attrs: Seq<(String, Context)>,
    fuel: nat,
)
    requires
        group_lookup(group, name) is None,
    ensures
        spec_render_one(group, ExprModel::Include(name, args), attrs, fuel) == Seq::<char>::empty(),
{
}

/// A literal run with no `<` reaches to the end of the input.
proof fn lemma_literal_run_full(s: Seq<char>, i: int)
    requires
        0 <= i <= s.len(),
        forall|k: int| 0 <= k < s.len() ==> s[k] != '<',
    ensures
        crate::parse::body::literal_len(s, i) == s.len() - i,
    decreases s.len() - i,
{
    if i < s.len() {
        lemma_literal_run_full(s, i + 1);
    }
}

/// Literal pass-through: a template body containing no expression
/// compiles to one literal equal to the whole body, and renders
/// byte-identical to its source against any attributes, any group,
/// and any include depth.
pub proof fn lemma_literal_passthrough(
    s: Seq<char>,
    group: Seq<(Seq<char>, CompiledTemplateModel)>,
    attrs: Seq<(String, Context)>,
    fuel: nat,
)
    requires
        forall|k: int| 0 <= k < s.len() ==> s[k] != '<',
    ensures
        crate::parse::body::spec_body(s) matches Ok((exprs, _)) && exprs =~= seq![
            ExprModel::Literal(s),
        ] && spec_render(group, exprs, attrs, fuel) == s,
{
    lemma_literal_run_full(s, 0);
    assert(s.subrange(0, s.len() as int) =~= s);
    match crate::parse::body::spec_body(s) {
        Ok((exprs, _)) => {
            assert(exprs =~= seq![ExprModel::Literal(s)]);
            assert(exprs[0] == ExprModel::Literal(s));
            assert(exprs.drop_first() =~= Seq::<ExprModel>::empty());
            assert(spec_render_one(group, exprs[0], attrs, fuel) == s);
            assert(spec_render(group, exprs.drop_first(), attrs, fuel) == Seq::<char>::empty());
            assert(spec_render(group, exprs, attrs, fuel) == s + Seq::<char>::empty());
            assert(s + Seq::<char>::empty() =~= s);
        },
        Err(_) => {
            assert(false);
        },
    }
}

/// What a render-ready template binding renders to.
pub open spec fn spec_template_render(t: Template) -> Seq<char> {
    spec_render(
        t.group@,
        t.imp@.expressions,
        t.attributes.entries_seq(),
        INCLUDE_DEPTH_LIMIT as nat,
    )
}

/// Rendering is a pure function of the compiled template, the
/// attribute bindings, and the group contents at call time: rendering
/// an unmodified template twice yields identical output.
pub proof fn lemma_render_is_pure(t1: Template, t2: Template)
    requires
        t1.group@ == t2.group@,
        t1.imp@ == t2.imp@,
        t1.attributes == t2.attributes,
    ensures
        spec_template_render(t1) == spec_template_render(t2),
{
}

/// Render `exprs` against `attributes`, resolving includes in
/// `group`, with `fuel` bounding the include depth.
#[verifier::loop_isolation(false)]
pub(crate) fn render_exprs(
    group: &Group,
    exprs: &Vec<Expr>,
    attributes: &Attributes,
    fuel: u64,
) -> (out: String)
    ensures
        out@ == spec_render(group@, exprs_view(exprs@), attributes.entries_seq(), fuel as nat),
    decreases fuel, exprs@.len(),
{
    let ghost ev = exprs_view(exprs@);
    let ghost attrs = attributes.entries_seq();
    let mut out = String::new();
    let mut j: usize = 0;
    proof {
        assert(ev.skip(0) =~= ev);
    }
    while j < exprs.len()
        invariant
            j <= exprs@.len(),
            out@ + spec_render(group@, ev.skip(j as int), attrs, fuel as nat) == spec_render(
                group@,
                ev,
                attrs,
                fuel as nat,
            ),
        decreases exprs@.len() - j,
    {
        proof {
            assert(ev.skip(j as int)[0] == ev[j as int]);
            assert(ev.skip(j as int).drop_first() =~= ev.skip(j as int + 1));
        }
        let ghost head = spec_render_one(group@, ev[j as int], attrs, fuel as nat);
        match &exprs[j] {
            Expr::Literal(s) => {
                out.append(s.as_str());
            },
            Expr::Attribute(name) => {
                match attributes.get(name.as_str()) {
                    Some(c) => {
                        let piece = c.data.render();
                        out.append(piece.as_str());
                    },
                    None => {
                        proof {
                            assert(head =~= Seq::<char>::empty());
                            assert(out@ + head =~= out@);
                        }
                    },
                }
            },
            Expr::AttributePath(name, path) => {
                let ghost model_path = match ev[j as int] {
                    ExprModel::AttributePath(_, p) => p,
                    _ => Seq::empty(),
                };
                proof {
                    assert(crate::context::path_view(path@) =~= model_path);
                }
                match attributes.get(name.as_str()) {
                    Some(c) => {
                        match c.navigate(path) {
                            Some(v) => {
                                let piece = v.render();
                                out.append(piece.as_str());
                            },
                            None => {
                                proof {
                                    assert(head =~= Seq::<char>::empty());
                                    assert(out@ + head =~= out@);
                                }
                            },
                        }
                    },
                    None => {
                        proof {
                            crate::context::lemma_navigate_null(model_path);
                            assert(head =~= Seq::<char>::empty());
                            assert(out@ + head =~= out@);
                        }
                    },
                }
            },
            Expr::Include(name, _args) => {
                if fuel > 0 {
                    match group.find_template(name.as_str()) {
                        Some(imp) => {
                            let empty_attrs = Attributes::new();
                            let piece = render_exprs(group, &imp.expressions, &empty_attrs, fuel
                                - 1);
                            proof {
                                assert(empty_attrs.entries_seq()
                                    =~= Seq::<(String, Context)>::empty());
                            }
                            out.append(piece.as_str());
                        },
                        None => {
                            proof {
                                assert(head =~= Seq::<char>::empty());
                                assert(out@ + head =~= out@);
                            }
                        },
                    }
                } else {
                    proof {
                        assert(head =~= Seq::<char>::empty());
                        assert(out@ + head =~= out@);
                    }
                }
            },
        }
        j = j + 1;
    }
    proof {
        assert(ev.skip(exprs@.len() as int) =~= Seq::<ExprModel>::empty());
        assert(out@ + Seq::<char>::empty() =~= out@);
    }
    out
}

/// The rendering interpreter: walks a compiled expression sequence,
/// resolving attributes against one attribute set and includes
/// against one group.
#[derive(Debug)]
pub struct Interpreter {
    pub group: Group,
}

impl Interpreter {
    pub fn new(group: Group) -> (r: Interpreter)
        ensures
            r.group == group,
    {
        Interpreter { group }
    }

    /// Render a compiled template against an attribute set; total —
    /// missing attributes and includes degrade to empty output.
    pub fn render(&self, template: &CompiledTemplate, attributes: &Attributes) -> (out: String)
        ensures
            out@ == spec_render(
                self.group@,
                template@.expressions,
                attributes.entries_seq(),
                INCLUDE_DEPTH_LIMIT as nat,
            ),
    {
        render_exprs(&self.group, &template.expressions, attributes, INCLUDE_DEPTH_LIMIT)
    }
}

} // verus!
