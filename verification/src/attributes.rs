use vstd::prelude::*;

use crate::context::Context;
use crate::context::is_concat_of;
use crate::strutil::str_eq;
use crate::value::Value;

verus! {

/// The name-to-context bindings owned by one template: a mapping with
/// unique keys whose order carries no meaning. Repeated insertion
/// under one name accumulates via the concatenation rule rather than
/// overwriting.
#[derive(Debug)]
pub struct Attributes {
    entries: Vec<(String, Context)>,
}

/// The context bound to `name`, if any (first match).
pub open spec fn spec_lookup(entries: Seq<(String, Context)>, name: Seq<char>) -> Option<Context>
    decreases entries.len(),
{
    if entries.len() == 0 {
        None
    } else if entries[0].0@ == name {
        Some(entries[0].1)
    } else {
        spec_lookup(entries.drop_first(), name)
    }
}

/// The value bound to `name` in a binding list, with null standing in
/// for a missing binding.
pub open spec fn value_of(entries: Seq<(String, Context)>, name: Seq<char>) -> Value {
    match spec_lookup(entries, name) {
        Some(c) => c.data,
        None => Value::Null,
    }
}

/// The index of the entry bound to `name`, or -1 if there is none.
pub open spec fn spec_index_of(entries: Seq<(String, Context)>, name: Seq<char>) -> int
    decreases entries.len(),
{
    if entries.len() == 0 {
        -1
    } else if entries[0].0@ == name {
        0
    } else if spec_index_of(entries.drop_first(), name) >= 0 {
        1 + spec_index_of(entries.drop_first(), name)
    } else {
        -1
    }
}

/// Keys are unique.
pub open spec fn unique_keys(entries: Seq<(String, Context)>) -> bool {
    forall|i: int, j: int|
        0 <= i < j < entries.len() ==> entries[i].0@ != entries[j].0@
}

/// How one insertion changes the binding list: a fresh name is
/// appended bound to `value` outright, while an existing binding
/// accumulates `value` via the concatenation rule and every other
/// entry stays as it was.
pub open spec fn insert_rel(
    entries0: Seq<(String, Context)>,
    entries1: Seq<(String, Context)>,
    name: Seq<char>,
    value: Value,
) -> bool {
    let i = spec_index_of(entries0, name);
    if i == -1 {
        entries1.len() == entries0.len() + 1
        && (forall|j: int| 0 <= j < entries0.len() ==> entries1[j] == entries0[j])
        && entries1.last().0@ == name
        && entries1.last().1.data == value
    } else {
        entries1.len() == entries0.len()
        && (forall|j: int| 0 <= j < entries0.len() && j != i ==> entries1[j] == entries0[j])
        && entries1[i].0 == entries0[i].0
        && is_concat_of(entries0[i].1.data, value, entries1[i].1.data)
    }
}

/// Repeated assignment concatenates in call order: one insertion
/// leaves the name rendering as whatever it rendered before followed
/// by the new value's rendered form, whatever kind either value has.
pub proof fn lemma_insert_renders_in_call_order(
    entries0: Seq<(String, Context)>,
    entries1: Seq<(String, Context)>,
    name: Seq<char>,
    value: Value,
)
    requires
        insert_rel(entries0, entries1, name, value),
    ensures
        value_of(entries1, name).rendered() == value_of(entries0, name).rendered()
            + value.rendered(),
{
    let i = spec_index_of(entries0, name);
    lemma_lookup_at_index(entries0, name);
    if i == -1 {
        assert(entries1 =~= entries0.push(entries1.last()));
        lemma_lookup_push(entries0, name, entries1.last());
        assert(Seq::<char>::empty() + value.rendered() =~= value.rendered());
    } else {
        assert forall|j: int| 0 <= j < entries0.len() implies entries0[j].0@
            == entries1[j].0@ by {}
        lemma_index_of_unchanged(entries0, entries1, name);
        lemma_lookup_at_index(entries1, name);
        crate::context::lemma_concat_renders_in_call_order(
            entries0[i].1.data,
            value,
            entries1[i].1.data,
        );
    }
}

impl Attributes {
    pub closed spec fn entries_seq(self) -> Seq<(String, Context)> {
        self.entries@
    }

    pub open spec fn wf(self) -> bool {
        unique_keys(self.entries_seq())
    }

    /// The value bound to `name`, with null standing in for a missing
    /// binding.
    pub open spec fn spec_value_of(self, name: Seq<char>) -> Value {
        value_of(self.entries_seq(), name)
    }

    /// An empty attribute set.
    pub fn new() -> (r: Attributes)
        ensures
            r.entries_seq() =~= Seq::<(String, Context)>::empty(),
            r.wf(),
    {
        Attributes { entries: Vec::new() }
    }

    /// How many names are bound.
    pub fn len(&self) -> (r: usize)
        ensures
            r == self.entries_seq().len(),
    {
        self.entries.len()
    }

    fn index_of(&self, name: &str) -> (r: Option<usize>)
        ensures
            match r {
                Some(i) => i == spec_index_of(self.entries@, name@)
                    && 0 <= i < self.entries@.len() && self.entries@[i as int].0@ == name@,
                None => spec_index_of(self.entries@, name@) == -1
                    && spec_lookup(self.entries@, name@) is None,
            },
    {
        let mut i: usize = 0;
        proof {
            assert(self.entries@.skip(0) =~= self.entries@);
        }
        while i < self.entries.len()
            invariant
                i <= self.entries@.len(),
                forall|k: int| 0 <= k < i ==> self.entries@[k].0@ != name@,
                spec_index_of(self.entries@, name@) == if spec_index_of(
                    self.entries@.skip(i as int),
                    name@,
                ) >= 0 {
                    i + spec_index_of(self.entries@.skip(i as int), name@)
                } else {
                    -1int
                },
                spec_lookup(self.entries@, name@) == spec_lookup(
                    self.entries@.skip(i as int),
                    name@,
                ),
            decreases self.entries@.len() - i,
        {
            proof {
                assert(self.entries@.skip(i as int)[0] == self.entries@[i as int]);
                assert(self.entries@.skip(i as int).drop_first() =~= self.entries@.skip(
                    i as int + 1,
                ));
            }
            if str_eq(self.entries[i].0.as_str(), name) {
                return Some(i);
            }
            i = i + 1;
        }
        None
    }

    /// The context bound to `name`, if any.
    pub fn get(&self, name: &str) -> (r: Option<&Context>)
        ensures
            match r {
                Some(c) => spec_lookup(self.entries_seq(), name@) == Some(*c),
                None => spec_lookup(self.entries_seq(), name@) is None,
            },
    {
        match self.index_of(name) {
            Some(i) => {
                proof {
                    lemma_lookup_at_index(self.entries@, name@);
                }
                Some(&self.entries[i].1)
            },
            None => None,
        }
    }

    /// Bind `value` under `name`: a fresh name is added outright; an
    /// existing binding accumulates the value via the concatenation
    /// rule. The rendered form of the binding afterwards is always
    /// what it rendered before followed by the new value's rendered
    /// form.
    pub fn insert(&mut self, name: String, value: Context)
        ensures
            insert_rel(old(self).entries_seq(), final(self).entries_seq(), name@, value.data),
            final(self).spec_value_of(name@).rendered()
                == old(self).spec_value_of(name@).rendered() + value.data.rendered(),
            old(self).wf() ==> final(self).wf(),
    {
        let ghost entries0 = self.entries@;
        let ghost name0 = name@;
        match self.index_of(name.as_str()) {
            Some(i) => {
                let mut pair: (String, Context) = (String::new(), Context::null());
                self.entries.set_and_swap(i, &mut pair);
                let (key, mut ctx) = pair;
                ctx.concat(value);
                let mut pair2: (String, Context) = (key, ctx);
                self.entries.set_and_swap(i, &mut pair2);
                proof {
                    let entries1 = self.entries@;
                    assert(entries1 =~= entries0.update(
                        i as int,
                        (entries0[i as int].0, entries1[i as int].1),
                    ));
                    lemma_lookup_at_index(entries0, name0);
                    lemma_index_of_unchanged(entries0, entries1, name0);
                    lemma_lookup_at_index(entries1, name0);
                }
            },
            None => {
                self.entries.push((name, value));
                proof {
                    let entries1 = self.entries@;
                    lemma_lookup_at_index(entries0, name0);
                    lemma_lookup_push(entries0, name0, entries1.last());
                    assert(entries1 == entries0.push(entries1.last()));
                    assert(Seq::<char>::empty() + value.data.rendered()
                        =~= value.data.rendered());
                    assert(old(self).wf() ==> final(self).wf()) by {
                        if unique_keys(entries0) {
                            assert forall|a: int, b: int| 0 <= a < b < entries1.len()
                                implies entries1[a].0@ != entries1[b].0@ by {
                                if b < entries0.len() {
                                } else {
                                    assert(entries1[a] == entries0[a]);
                                }
                            }
                        }
                    }
                }
            },
        }
    }
}

/// When `name` is bound, `spec_lookup` finds the entry at
/// `spec_index_of`.
proof fn lemma_lookup_at_index(entries: Seq<(String, Context)>, name: Seq<char>)
    ensures
        spec_index_of(entries, name) >= 0 ==> {
            let i = spec_index_of(entries, name);
            0 <= i < entries.len() && entries[i].0@ == name
                && spec_lookup(entries, name) == Some(entries[i].1)
                && (forall|j: int| 0 <= j < i ==> entries[j].0@ != name)
        },
        spec_index_of(entries, name) == -1 ==> spec_lookup(entries, name) is None
            && (forall|j: int| 0 <= j < entries.len() ==> entries[j].0@ != name),
    decreases entries.len(),
{
    if entries.len() == 0 {
    } else if entries[0].0@ == name {
    } else {
        let rest = entries.drop_first();
        lemma_lookup_at_index(rest, name);
        if spec_index_of(rest, name) >= 0 {
            let k = spec_index_of(rest, name);
            assert(rest[k] == entries[k + 1]);
            assert forall|j: int| 0 <= j < k + 1 implies entries[j].0@ != name by {
                if j > 0 {
                    assert(rest[j - 1] == entries[j]);
                }
            }
        } else {
            assert forall|j: int| 0 <= j < entries.len() implies entries[j].0@ != name by {
                if j > 0 {
                    assert(rest[j - 1] == entries[j]);
                }
            }
        }
    }
}

/// Two entry lists that agree on length and keys have the same index
/// for every name.
proof fn lemma_index_of_unchanged(
    a: Seq<(String, Context)>,
    b: Seq<(String, Context)>,
    name: Seq<char>,
)
    requires
        a.len() == b.len(),
        forall|j: int| 0 <= j < a.len() ==> a[j].0@ == b[j].0@,
    ensures
        spec_index_of(a, name) == spec_index_of(b, name),
    decreases a.len(),
{
    if a.len() > 0 {
        assert(a.drop_first().len() == b.drop_first().len());
        assert forall|j: int| 0 <= j < a.drop_first().len()
            implies a.drop_first()[j].0@ == b.drop_first()[j].0@ by {
            assert(a.drop_first()[j] == a[j + 1]);
            assert(b.drop_first()[j] == b[j + 1]);
        }
        lemma_index_of_unchanged(a.drop_first(), b.drop_first(), name);
    }
}

/// Pushing a fresh name binds it.
proof fn lemma_lookup_push(entries: Seq<(String, Context)>, name: Seq<char>, p: (String, Context))
    requires
        p.0@ == name,
        forall|j: int| 0 <= j < entries.len() ==> entries[j].0@ != name,
    ensures
        spec_lookup(entries.push(p), name) == Some(p.1),
    decreases entries.len(),
{
    if entries.len() == 0 {
        assert(entries.push(p)[0] == p);
    } else {
        assert(entries.push(p)[0] == entries[0]);
        assert(entries.push(p).drop_first() =~= entries.drop_first().push(p));
        assert forall|j: int| 0 <= j < entries.drop_first().len()
            implies entries.drop_first()[j].0@ != name by {
            assert(entries.drop_first()[j] == entries[j + 1]);
        }
        lemma_lookup_push(entries.drop_first(), name, p);
    }
}

} // verus!
