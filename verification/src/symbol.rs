//! Symbols: the names that key a mapping, and their total order.

use vstd::prelude::*;
use vstd::std_specs::cmp::PartialEqSpecImpl;
use vstd::std_specs::iter::IteratorSpec;
use vstd::string::*;
use vstd::utf8::encode_utf8;

verus! {

/// A name, used as a variable identifier and as a key of a mapping.
#[derive(Debug, Hash)]
pub struct Symbol(pub String);

impl View for Symbol {
    type V = Seq<char>;

    open spec fn view(&self) -> Seq<char> {
        self.0@
    }
}

/// The strict order of names: lexicographic by code point, a proper prefix
/// first.
pub open spec fn precedes(a: Seq<char>, b: Seq<char>) -> bool
    decreases a.len(),
{
    if b.len() == 0 {
        false
    } else if a.len() == 0 {
        true
    } else if a[0] == b[0] {
        precedes(a.drop_first(), b.drop_first())
    } else {
        a[0] < b[0]
    }
}

/// The length of a name in bytes, encoded as UTF-8.
pub open spec fn byte_len(name: Seq<char>) -> nat {
    encode_utf8(name).len()
}

/// A name has at least as many bytes as characters.
pub proof fn byte_len_bounds(name: Seq<char>)
    ensures
        name.len() <= byte_len(name),
    decreases name.len(),
{
    if name.len() > 0 {
        byte_len_bounds(name.drop_first());
    }
}

/// No name comes before itself.
pub proof fn precedes_irreflexive(a: Seq<char>)
    ensures
        !precedes(a, a),
    decreases a.len(),
{
    if a.len() > 0 {
        precedes_irreflexive(a.drop_first());
    }
}

/// The order of names is transitive.
pub proof fn precedes_transitive(a: Seq<char>, b: Seq<char>, c: Seq<char>)
    requires
        precedes(a, b),
        precedes(b, c),
    ensures
        precedes(a, c),
    decreases a.len(),
{
    if a.len() > 0 && a[0] == b[0] && b[0] == c[0] {
        precedes_transitive(a.drop_first(), b.drop_first(), c.drop_first());
    }
}

/// Of two different names, one comes before the other.
pub proof fn precedes_connected(a: Seq<char>, b: Seq<char>)
    requires
        a != b,
    ensures
        precedes(a, b) || precedes(b, a),
    decreases a.len(),
{
    if a.len() > 0 && b.len() > 0 && a[0] == b[0] {
        if a.drop_first() == b.drop_first() {
            assert(a =~= seq![a[0]] + a.drop_first());
            assert(b =~= seq![b[0]] + b.drop_first());
        }
        precedes_connected(a.drop_first(), b.drop_first());
    } else if a.len() == 0 && b.len() == 0 {
        assert(a =~= b);
    }
}

impl Symbol {
    /// The symbol with the given name.
    pub fn new(name: &str) -> (symbol: Symbol)
        ensures
            symbol@ == name@,
    {
        Symbol(String::from_str(name))
    }

    /// The name.
    pub fn as_str(&self) -> (name: &str)
        ensures
            name@ == self@,
    {
        self.0.as_str()
    }

    /// The length of the name in bytes.
    pub fn len(&self) -> (length: usize)
        ensures
            length == byte_len(self@),
    {
        self.0.as_str().as_bytes().len()
    }

    /// Whether `self` comes strictly before `other` in the order of names.
    pub fn is_before(&self, other: &Symbol) -> (before: bool)
        ensures
            before == precedes(self@, other@),
    {
        broadcast use vstd::string::group_string_axioms;

        let mut left = self.0.as_str().chars();
        let mut right = other.0.as_str().chars();
        let ghost mut a = self@;
        let ghost mut b = other@;
        loop
            invariant
                left.obeys_prophetic_iter_laws(),
                right.obeys_prophetic_iter_laws(),
                left.remaining() == a,
                right.remaining() == b,
                precedes(self@, other@) == precedes(a, b),
            decreases a.len(),
        {
            let y = right.next();
            let x = left.next();
            match (x, y) {
                (_, None) => {
                    return false;
                },
                (None, Some(_)) => {
                    return true;
                },
                (Some(x), Some(y)) => {
                    if x != y {
                        return x < y;
                    }
                    proof {
                        a = a.drop_first();
                        b = b.drop_first();
                    }
                },
            }
        }
    }
}

impl Clone for Symbol {
    fn clone(&self) -> (copy: Symbol)
        ensures
            copy == *self,
    {
        Symbol(self.0.clone())
    }
}

impl PartialEq for Symbol {
    fn eq(&self, other: &Symbol) -> (equal: bool) {
        self.0 == other.0
    }
}

impl PartialEqSpecImpl for Symbol {
    open spec fn obeys_eq_spec() -> bool {
        true
    }

    open spec fn eq_spec(&self, other: &Symbol) -> bool {
        self@ == other@
    }
}

impl Eq for Symbol {

}

} // verus!
