use vstd::prelude::*;

verus! {

/// A typed attribute value: the closed tree of kinds an attribute can
/// take (null, boolean, integer number, string, ordered list, map of
/// named fields).
#[derive(Debug)]
pub enum Value {
    Null,
    Bool(bool),
    Int(i64),
    Str(String),
    List(Vec<Value>),
    Object(Vec<(String, Value)>),
}

impl Value {
    /// The textual form this value takes in rendered output:
    /// a string is itself, a boolean or number its canonical decimal
    /// form, null the empty string, a list the concatenation of its
    /// elements with no separator, and a map a fixed placeholder.
    pub open spec fn rendered(self) -> Seq<char>
        decreases self,
    {
        match self {
            Value::Null => Seq::empty(),
            Value::Bool(b) => spec_bool_chars(b),
            Value::Int(i) => spec_i64_chars(i as int),
            Value::Str(s) => s@,
            Value::List(l) => rendered_elems(l@),
            Value::Object(_) => "[object]"@,
        }
    }
}

/// The concatenation of the rendered forms of a sequence of values,
/// with no separator.
pub open spec fn rendered_elems(l: Seq<Value>) -> Seq<char>
    decreases l,
{
    if l.len() == 0 {
        Seq::empty()
    } else {
        l[0].rendered() + rendered_elems(l.drop_first())
    }
}

/// Appending a value to a list appends its rendered form to the
/// list's rendered form.
pub proof fn lemma_rendered_elems_push(l: Seq<Value>, v: Value)
    ensures
        rendered_elems(l.push(v)) == rendered_elems(l) + v.rendered(),
    decreases l.len(),
{
    if l.len() == 0 {
        assert(l.push(v)[0] == v);
        assert(l.push(v).drop_first() =~= Seq::<Value>::empty());
        assert(rendered_elems(Seq::<Value>::empty()) == Seq::<char>::empty());
        assert(rendered_elems(l.push(v)) == v.rendered() + Seq::<char>::empty());
        assert(rendered_elems(l) == Seq::<char>::empty());
        assert(v.rendered() + Seq::<char>::empty() =~= Seq::<char>::empty() + v.rendered());
    } else {
        let rest = l.drop_first();
        assert(l.push(v)[0] == l[0]);
        assert(l.push(v).drop_first() =~= rest.push(v));
        lemma_rendered_elems_push(rest, v);
        assert(l[0].rendered() + (rendered_elems(rest) + v.rendered()) =~= (l[0].rendered()
            + rendered_elems(rest)) + v.rendered());
    }
}

pub open spec fn spec_bool_chars(b: bool) -> Seq<char> {
    if b {
        "true"@
    } else {
        "false"@
    }
}

/// The decimal digit character for `d` (0 through 9).
pub open spec fn spec_digit_char(d: int) -> char {
    if d == 0 { '0' }
    else if d == 1 { '1' }
    else if d == 2 { '2' }
    else if d == 3 { '3' }
    else if d == 4 { '4' }
    else if d == 5 { '5' }
    else if d == 6 { '6' }
    else if d == 7 { '7' }
    else if d == 8 { '8' }
    else { '9' }
}

/// The decimal digits of a non-negative integer, most significant
/// first, with no leading zeros (a single `0` for zero).
pub open spec fn spec_nat_chars(n: nat) -> Seq<char>
    decreases n,
{
    if n < 10 {
        seq![spec_digit_char(n as int)]
    } else {
        spec_nat_chars(n / 10).push(spec_digit_char((n % 10) as int))
    }
}

/// The canonical decimal form of an integer: a `-` sign followed by
/// the digits of its magnitude when negative.
pub open spec fn spec_i64_chars(n: int) -> Seq<char> {
    if n < 0 {
        seq!['-'] + spec_nat_chars((-n) as nat)
    } else {
        spec_nat_chars(n as nat)
    }
}

fn digit_char(d: u64) -> (c: char)
    requires
        d < 10,
    ensures
        c == spec_digit_char(d as int),
{
    match d {
        0 => '0',
        1 => '1',
        2 => '2',
        3 => '3',
        4 => '4',
        5 => '5',
        6 => '6',
        7 => '7',
        8 => '8',
        _ => '9',
    }
}

pub fn u64_to_string(n: u64) -> (r: String)
    ensures
        r@ == spec_nat_chars(n as nat),
    decreases n,
{
    if n < 10 {
        let mut s = String::new();
        s.push(digit_char(n));
        s
    } else {
        let mut s = u64_to_string(n / 10);
        s.push(digit_char(n % 10));
        s
    }
}

pub fn i64_to_string(n: i64) -> (r: String)
    ensures
        r@ == spec_i64_chars(n as int),
{
    if n >= 0 {
        u64_to_string(n as u64)
    } else {
        // -(n + 1) avoids overflow when n is the smallest i64.
        let magnitude: u64 = ((-(n + 1)) as u64) + 1;
        let mut s = String::new();
        s.push('-');
        let digits = u64_to_string(magnitude);
        s.append(digits.as_str());
        proof {
            assert(s@ =~= spec_i64_chars(n as int));
        }
        s
    }
}

pub fn bool_to_string(b: bool) -> (r: String)
    ensures
        r@ == spec_bool_chars(b),
{
    if b {
        String::from_str("true")
    } else {
        String::from_str("false")
    }
}

impl Value {
    /// Render this value to its textual form.
    pub fn render(&self) -> (r: String)
        ensures
            r@ == self.rendered(),
        decreases *self,
    {
        match self {
            Value::Null => String::new(),
            Value::Bool(b) => bool_to_string(*b),
            Value::Int(i) => i64_to_string(*i),
            Value::Str(s) => s.clone(),
            Value::List(l) => {
                let mut out = String::new();
                let mut j: usize = 0;
                proof {
                    assert(l@.skip(0) =~= l@);
                }
                while j < l.len()
                    invariant
                        j <= l@.len(),
                        out@ + rendered_elems(l@.skip(j as int)) == rendered_elems(l@),
                        forall|k: int| 0 <= k < l@.len() ==> decreases_to!(*self => l@[k]),
                    decreases l@.len() - j,
                {
                    proof {
                        assert(l@.skip(j as int)[0] == l@[j as int]);
                        assert(l@.skip(j as int).drop_first() =~= l@.skip(j as int + 1));
                    }
                    let piece = Self::render(&l[j]);
                    out.append(piece.as_str());
                    j = j + 1;
                }
                proof {
                    assert(l@.skip(l@.len() as int) =~= Seq::<Value>::empty());
                }
                out
            },
            Value::Object(_) => String::from_str("[object]"),
        }
    }
}

} // verus!
