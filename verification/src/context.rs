use vstd::prelude::*;

use crate::strutil::str_eq;
use crate::value::Value;
use crate::value::rendered_elems;

verus! {

/// The context wraps one attribute's accumulated value: a typed value
/// tree, mutated only through `concat` and read through `navigate`
/// and rendering.
#[derive(Debug)]
pub struct Context {
    pub data: Value,
}

/// The accumulation rule for repeated assignment under one attribute
/// name: a null current value is replaced outright, a list appends
/// the new value, and any other current value becomes a two-element
/// list of the old and the new value.
pub open spec fn is_concat_of(cur: Value, new: Value, result: Value) -> bool {
    match cur {
        Value::Null => result == new,
        Value::List(l) => result matches Value::List(l2) && l2@ == l@.push(new),
        _ => result matches Value::List(l2) && l2@ =~= seq![cur, new],
    }
}

/// Accumulation concatenates rendered output: whatever the current
/// value is, the result of `concat` renders as the current value's
/// rendered form followed by the new value's rendered form.
pub proof fn lemma_concat_renders_in_call_order(cur: Value, new: Value, result: Value)
    requires
        is_concat_of(cur, new, result),
    ensures
        result.rendered() == cur.rendered() + new.rendered(),
{
    match cur {
        Value::Null => {
            assert(cur.rendered() + new.rendered() =~= new.rendered());
        },
        Value::List(l) => {
            crate::value::lemma_rendered_elems_push(l@, new);
        },
        _ => {
            let pair = seq![cur, new];
            assert(pair[0] == cur);
            assert(pair.drop_first() =~= seq![new]);
            assert(seq![new][0] == new);
            assert(seq![new].drop_first() =~= Seq::<Value>::empty());
            assert(rendered_elems(Seq::<Value>::empty()) == Seq::<char>::empty());
            assert(rendered_elems(seq![new]) == new.rendered() + Seq::<char>::empty());
            assert(new.rendered() + Seq::<char>::empty() =~= new.rendered());
            assert(rendered_elems(pair) == cur.rendered() + new.rendered());
        },
    }
}

impl Context {
    /// A context holding the null value.
    pub fn null() -> (r: Context)
        ensures
            r.data == Value::Null,
    {
        Context { data: Value::Null }
    }

    /// A context holding the given value.
    pub fn new(data: Value) -> (r: Context)
        ensures
            r.data == data,
    {
        Context { data }
    }

    /// A context holding an empty list.
    pub fn array() -> (r: Context)
        ensures
            r.data matches Value::List(l) && l@ =~= Seq::<Value>::empty(),
    {
        Context { data: Value::List(Vec::new()) }
    }

    /// Accumulate `new_value` into this context per the concatenation
    /// rule.
    pub fn concat(&mut self, new_value: Context)
        ensures
            is_concat_of(old(self).data, new_value.data, final(self).data),
            final(self).data.rendered() == old(self).data.rendered() + new_value.data.rendered(),
    {
        let ghost cur0 = self.data;
        let ghost new0 = new_value.data;
        let mut cur = Value::Null;
        core::mem::swap(&mut self.data, &mut cur);
        match cur {
            Value::Null => {
                self.data = new_value.data;
            },
            Value::List(mut l) => {
                l.push(new_value.data);
                self.data = Value::List(l);
            },
            previous => {
                let mut pair: Vec<Value> = Vec::new();
                pair.push(previous);
                pair.push(new_value.data);
                proof {
                    assert(pair@ =~= seq![cur0, new0]);
                }
                self.data = Value::List(pair);
            },
        }
        proof {
            lemma_concat_renders_in_call_order(cur0, new0, self.data);
        }
    }

    /// Give the wrapped value back.
    pub fn into_inner(self) -> (r: Value)
        ensures
            r == self.data,
    {
        self.data
    }

    /// The textual form of the wrapped value.
    pub fn render_string(&self) -> (r: String)
        ensures
            r@ == self.data.rendered(),
    {
        self.data.render()
    }
}

/// Path navigation: starting at `v`, each segment descends into the
/// named field while the current node is a map; on a missing field
/// the result is null, and on a non-map node the remaining segments
/// are ignored. Navigation never fails.
pub open spec fn spec_navigate(v: Value, path: Seq<Seq<char>>) -> Value
    decreases path.len(),
{
    if path.len() == 0 {
        v
    } else {
        match v {
            Value::Object(fields) => spec_navigate(spec_field(fields@, path[0]), path.drop_first()),
            _ => Value::Null,
        }
    }
}

/// The value of the first field named `name`, or null if there is
/// none.
pub open spec fn spec_field(fields: Seq<(String, Value)>, name: Seq<char>) -> Value
    decreases fields.len(),
{
    if fields.len() == 0 {
        Value::Null
    } else if fields[0].0@ == name {
        fields[0].1
    } else {
        spec_field(fields.drop_first(), name)
    }
}

/// The view of a vector of path segments as a sequence of character
/// sequences.
pub open spec fn path_view(path: Seq<String>) -> Seq<Seq<char>> {
    path.map_values(|s: String| s@)
}

/// Navigating any path from the null value stays at null.
pub proof fn lemma_navigate_null(path: Seq<Seq<char>>)
    ensures
        spec_navigate(Value::Null, path) == Value::Null,
{
}

fn field_of<'a>(fields: &'a Vec<(String, Value)>, name: &str) -> (r: Option<&'a Value>)
    ensures
        match r {
            Some(v) => *v == spec_field(fields@, name@),
            None => spec_field(fields@, name@) == Value::Null,
        },
{
    let mut i: usize = 0;
    proof {
        assert(fields@.skip(0) =~= fields@);
    }
    while i < fields.len()
        invariant
            i <= fields@.len(),
            spec_field(fields@, name@) == spec_field(fields@.skip(i as int), name@),
        decreases fields@.len() - i,
    {
        proof {
            assert(fields@.skip(i as int)[0] == fields@[i as int]);
            assert(fields@.skip(i as int).drop_first() =~= fields@.skip(i as int + 1));
        }
        if str_eq(fields[i].0.as_str(), name) {
            return Some(&fields[i].1);
        }
        i = i + 1;
    }
    None
}

impl Context {
    /// Navigate a dotted path from this context's root value: `None`
    /// stands for the null result.
    pub fn navigate<'a>(&'a self, path: &Vec<String>) -> (r: Option<&'a Value>)
        ensures
            match r {
                Some(v) => *v == spec_navigate(self.data, path_view(path@)),
                None => spec_navigate(self.data, path_view(path@)) == Value::Null,
            },
    {
        let ghost pv = path_view(path@);
        let mut node: &Value = &self.data;
        let mut i: usize = 0;
        proof {
            assert(pv.skip(0) =~= pv);
        }
        while i < path.len()
            invariant
                i <= path@.len(),
                pv == path_view(path@),
                pv.len() == path@.len(),
                spec_navigate(self.data, pv) == spec_navigate(*node, pv.skip(i as int)),
            decreases path@.len() - i,
        {
            proof {
                assert(pv.skip(i as int)[0] == path@[i as int]@);
                assert(pv.skip(i as int).drop_first() =~= pv.skip(i as int + 1));
            }
            match node {
                Value::Object(fields) => {
                    match field_of(fields, path[i].as_str()) {
                        Some(v) => {
                            node = v;
                        },
                        None => {
                            proof {
                                lemma_navigate_null(pv.skip(i as int + 1));
                            }
                            return None;
                        },
                    }
                },
                _ => {
                    return None;
                },
            }
            i = i + 1;
        }
        proof {
            assert(pv.skip(path@.len() as int) =~= Seq::<Seq<char>>::empty());
        }
        Some(node)
    }
}

} // verus!
