//! Hierarchical sequence numbers (e.g. `1 -> 1.1 -> 1.1.1`) used to track
//! buffer lineage through pipelines.
//!
//! A sequence number is a list of components; numbers are ordered
//! lexicographically, so a parent precedes all of its descendants and
//! siblings are ordered by their last component.

use crate::text::{decimal, u64_to_decimal};
use vstd::prelude::*;
use vstd::string::*;

verus! {

/// Hierarchical sequence number, represented by its components
/// (`[1, 1, 2]` is `1.1.2`).
#[derive(Debug, PartialEq, Eq, PartialOrd, Ord, Hash)]
pub struct SequenceNumber {
    components: Vec<u64>,
}

impl View for SequenceNumber {
    type V = Seq<u64>;

    closed spec fn view(&self) -> Seq<u64> {
        self.components@
    }
}

/// `a` is lexicographically smaller than `b`: either `a` is a proper prefix
/// of `b`, or at the first position where they differ `a` has the smaller
/// component.
pub open spec fn lex_lt(a: Seq<u64>, b: Seq<u64>) -> bool {
    exists|k: int| #[trigger] lex_split(a, b, k)
}

/// `k` is the length of the common prefix of `a` and `b` and witnesses
/// `a < b`.
pub open spec fn lex_split(a: Seq<u64>, b: Seq<u64>, k: int) -> bool {
    &&& 0 <= k <= a.len()
    &&& k <= b.len()
    &&& forall|i: int| 0 <= i < k ==> a[i] == b[i]
    &&& ((k == a.len() && k < b.len()) || (k < a.len() && k < b.len() && a[k] < b[k]))
}

/// The dotted text of a component list: `[1, 2, 3]` is `"1.2.3"`, the empty
/// list is the empty text.
pub open spec fn dotted(s: Seq<u64>) -> Seq<char>
    decreases s.len(),
{
    if s.len() == 0 {
        Seq::empty()
    } else if s.len() == 1 {
        decimal(s[0] as nat)
    } else {
        dotted(s.drop_last()) + seq!['.'] + decimal(s.last() as nat)
    }
}

impl SequenceNumber {
    /// Creates a root-level sequence number with the single component
    /// `initial`.
    pub fn new(initial: u64) -> (r: Self)
        ensures
            r@ == seq![initial],
    {
        let mut components = Vec::new();
        components.push(initial);
        Self { components }
    }

    /// Creates a sequence number from a component list.
    pub fn from_components(components: Vec<u64>) -> (r: Self)
        ensures
            r@ == components@,
    {
        Self { components }
    }

    /// A child of this number: the same components with `offset` appended.
    pub fn child(&self, offset: u64) -> (r: Self)
        ensures
            r@ == self@.push(offset),
    {
        let mut components = self.components.clone();
        components.push(offset);
        Self { components }
    }

    /// A copy of this sequence number.
    pub fn duplicate(&self) -> (r: Self)
        ensures
            r@ == self@,
    {
        Self { components: self.components.clone() }
    }

    /// The number of components.
    pub fn depth(&self) -> (r: usize)
        ensures
            r == self@.len(),
    {
        self.components.len()
    }

    /// The component list.
    pub fn components(&self) -> (r: &[u64])
        ensures
            r@ == self@,
    {
        self.components.as_slice()
    }

    /// The root (first) component, or 0 for an empty component list.
    pub fn as_u64(&self) -> (r: u64)
        ensures
            r == (if self@.len() > 0 { self@[0] } else { 0 }),
    {
        if self.components.len() > 0 {
            self.components[0]
        } else {
            0
        }
    }

    /// Lexicographic comparison: `self` comes strictly before `other`.
    /// This is the order `<` of the type.
    pub fn precedes(&self, other: &SequenceNumber) -> (r: bool)
        ensures
            r == lex_lt(self@, other@),
    {
        let a = &self.components;
        let b = &other.components;
        let mut i: usize = 0;
        while i < a.len() && i < b.len() && a[i] == b[i]
            invariant
                i <= a.len(),
                i <= b.len(),
                forall|j: int| 0 <= j < i ==> a@[j] == b@[j],
            decreases a.len() - i,
        {
            i = i + 1;
        }
        let r = if i == a.len() {
            i < b.len()
        } else if i == b.len() {
            false
        } else {
            a[i] < b[i]
        };
        proof {
            if r {
                assert(lex_split(a@, b@, i as int));
            } else {
                assert forall|k: int| !#[trigger] lex_split(a@, b@, k) by {
                    if lex_split(a@, b@, k) {
                        if k < i {
                            assert(a@[k] == b@[k]);
                        } else if k > i {
                            assert(a@[i as int] == b@[i as int]);
                        }
                    }
                }
            }
        }
        r
    }

    /// The dotted decimal text, e.g. `"1.1.3"`.
    pub fn to_string(&self) -> (r: String)
        ensures
            r@ == dotted(self@),
    {
        let mut out = String::new();
        let mut i: usize = 0;
        while i < self.components.len()
            invariant
                i <= self@.len(),
                out@ == dotted(self@.subrange(0, i as int)),
            decreases self@.len() - i,
        {
            let part = u64_to_decimal(self.components[i]);
            proof {
                let s = self@.subrange(0, i as int + 1);
                assert(s.drop_last() =~= self@.subrange(0, i as int));
            }
            if i > 0 {
                out.append(".");
                proof {
                    reveal_strlit(".");
                }
            }
            out.append(part.as_str());
            proof {
                let s = self@.subrange(0, i as int + 1);
                if i == 0 {
                    assert(out@ =~= dotted(s));
                } else {
                    assert(out@ =~= dotted(s));
                }
            }
            i = i + 1;
        }
        assert(self@.subrange(0, self@.len() as int) =~= self@);
        out
    }
}

impl From<u64> for SequenceNumber {
    fn from(value: u64) -> (r: Self)
        ensures
            r@ == seq![value],
    {
        Self::new(value)
    }
}

impl vstd::std_specs::convert::FromSpecImpl<u64> for SequenceNumber {
    /// A component list has no spec-level constructor, so the library's
    /// claim about `from` is the `ensures` of the impl above.
    open spec fn obeys_from_spec() -> bool {
        false
    }

    open spec fn from_spec(v: u64) -> Self {
        arbitrary()
    }
}

impl From<Vec<u64>> for SequenceNumber {
    fn from(components: Vec<u64>) -> (r: Self)
        ensures
            r@ == components@,
    {
        Self { components }
    }
}

impl vstd::std_specs::convert::FromSpecImpl<Vec<u64>> for SequenceNumber {
    open spec fn obeys_from_spec() -> bool {
        true
    }

    closed spec fn from_spec(v: Vec<u64>) -> Self {
        SequenceNumber { components: v }
    }
}

// ---------------------------------------------------------------------
// Laws of the order
// ---------------------------------------------------------------------

/// No sequence number precedes itself.
pub proof fn lemma_precedes_irreflexive(a: Seq<u64>)
    ensures
        !lex_lt(a, a),
{
}

/// The order is transitive.
pub proof fn lemma_precedes_transitive(a: Seq<u64>, b: Seq<u64>, c: Seq<u64>)
    requires
        lex_lt(a, b),
        lex_lt(b, c),
    ensures
        lex_lt(a, c),
{
    let k1 = choose|k: int| lex_split(a, b, k);
    let k2 = choose|k: int| lex_split(b, c, k);
    if k1 < k2 {
        assert(lex_split(a, c, k1));
    } else if k2 < k1 {
        assert(lex_split(a, c, k2));
    } else {
        assert(lex_split(a, c, k1));
    }
}

/// Any two different sequence numbers are ordered one way or the other.
pub proof fn lemma_precedes_total(a: Seq<u64>, b: Seq<u64>)
    requires
        a != b,
    ensures
        lex_lt(a, b) || lex_lt(b, a),
{
    let n = if a.len() < b.len() { a.len() as int } else { b.len() as int };
    if forall|i: int| 0 <= i < n ==> a[i] == b[i] {
        if a.len() < b.len() {
            assert(lex_split(a, b, n));
        } else if b.len() < a.len() {
            assert(lex_split(b, a, n));
        } else {
            assert(a =~= b);
        }
    } else {
        let j = choose|j: int| 0 <= j < n && a[j] != b[j];
        lemma_first_difference(a, b, j);
    }
}

proof fn lemma_first_difference(a: Seq<u64>, b: Seq<u64>, j: int)
    requires
        0 <= j < a.len(),
        j < b.len(),
        a[j] != b[j],
    ensures
        lex_lt(a, b) || lex_lt(b, a),
    decreases j,
{
    if forall|i: int| 0 <= i < j ==> a[i] == b[i] {
        if a[j] < b[j] {
            assert(lex_split(a, b, j));
        } else {
            assert(lex_split(b, a, j));
        }
    } else {
        let i = choose|i: int| 0 <= i < j && a[i] != b[i];
        lemma_first_difference(a, b, i);
    }
}

/// A parent precedes each of its children.
pub proof fn lemma_parent_precedes_child(a: Seq<u64>, offset: u64)
    ensures
        lex_lt(a, a.push(offset)),
{
    assert(lex_split(a, a.push(offset), a.len() as int));
}

/// Children of one parent are ordered by their offsets.
pub proof fn lemma_children_ordered_by_offset(a: Seq<u64>, x: u64, y: u64)
    ensures
        lex_lt(a.push(x), a.push(y)) <==> x < y,
{
    let n = a.len() as int;
    if x < y {
        assert(lex_split(a.push(x), a.push(y), n));
    }
    if lex_lt(a.push(x), a.push(y)) {
        let k = choose|k: int| lex_split(a.push(x), a.push(y), k);
        if k < n {
            assert(a.push(x)[k] == a.push(y)[k]);
        }
    }
}

/// A descendant of a smaller sibling precedes every later sibling.
pub proof fn lemma_descendant_precedes_later_sibling(a: Seq<u64>, x: u64, y: u64, rest: Seq<u64>)
    requires
        x < y,
    ensures
        lex_lt(a.push(x) + rest, a.push(y)),
{
    let n = a.len() as int;
    assert(lex_split(a.push(x) + rest, a.push(y), n));
}

} // verus!
