//! Atoms: the typed symbols that chain histories are written in.
use vstd::prelude::*;
use crate::text::string_of;

verus! {

/// One typed symbol, identified by its text.
#[derive(Debug, Clone, PartialEq, Eq, PartialOrd, Ord, Hash)]
pub struct Atom {
    text: String,
}

impl View for Atom {
    type V = Seq<char>;

    closed spec fn view(&self) -> Seq<char> {
        self.text@
    }
}

impl Atom {
    /// The atom with the given text.
    pub fn new(text: &str) -> (a: Atom)
        ensures
            a@ == text@,
    {
        Atom { text: string_of(text) }
    }

    /// The atom's text.
    pub fn as_str(&self) -> (s: &str)
        ensures
            s@ == self@,
    {
        self.text.as_str()
    }

    /// A copy of the atom.
    pub fn duplicate(&self) -> (a: Atom)
        ensures
            a@ == self@,
    {
        Atom { text: self.text.clone() }
    }

    /// Whether two atoms have the same text.
    pub fn same(&self, other: &Atom) -> (b: bool)
        ensures
            b == (self@ == other@),
    {
        self.text == other.text
    }
}

/// The texts of a sequence of atoms.
pub open spec fn atoms_view(s: Seq<Atom>) -> Seq<Seq<char>> {
    s.map_values(|a: Atom| a@)
}

/// The texts of a sequence of atom sequences.
pub open spec fn bindings_view(s: Seq<Vec<Atom>>) -> Seq<Seq<Seq<char>>> {
    s.map_values(|b: Vec<Atom>| atoms_view(b@))
}

/// A copy of a sequence of atoms.
pub fn copy_atoms(v: &[Atom]) -> (r: Vec<Atom>)
    ensures
        atoms_view(r@) == atoms_view(v@),
{
    let mut r: Vec<Atom> = Vec::new();
    let mut i: usize = 0;
    while i < v.len()
        invariant
            i <= v@.len(),
            r@.len() == i,
            forall|k: int| 0 <= k < i ==> #[trigger] r@[k]@ == v@[k]@,
        decreases v@.len() - i,
    {
        r.push(v[i].duplicate());
        i = i + 1;
    }
    assert(atoms_view(r@) =~= atoms_view(v@));
    r
}

/// Whether two atom sequences have the same texts in the same order.
pub fn atoms_equal(a: &[Atom], b: &[Atom]) -> (r: bool)
    ensures
        r == (atoms_view(a@) == atoms_view(b@)),
{
    if a.len() != b.len() {
        assert(atoms_view(a@).len() != atoms_view(b@).len());
        return false;
    }
    let mut i: usize = 0;
    while i < a.len()
        invariant
            a@.len() == b@.len(),
            i <= a@.len(),
            forall|j: int| 0 <= j < i ==> a@[j]@ == b@[j]@,
        decreases a@.len() - i,
    {
        if !a[i].same(&b[i]) {
            assert(atoms_view(a@)[i as int] != atoms_view(b@)[i as int]);
            return false;
        }
        i = i + 1;
    }
    assert(atoms_view(a@) =~= atoms_view(b@));
    true
}

/// Whether an atom sequence contains an atom with the given text.
pub fn atoms_contains(v: &[Atom], x: &Atom) -> (r: bool)
    ensures
        r == atoms_view(v@).contains(x@),
{
    let mut i: usize = 0;
    while i < v.len()
        invariant
            i <= v@.len(),
            forall|j: int| 0 <= j < i ==> v@[j]@ != x@,
        decreases v@.len() - i,
    {
        if v[i].same(x) {
            assert(atoms_view(v@)[i as int] == x@);
            return true;
        }
        i = i + 1;
    }
    assert forall|j: int| 0 <= j < atoms_view(v@).len() implies atoms_view(v@)[j] != x@ by {
        assert(atoms_view(v@)[j] == v@[j]@);
    }
    false
}

/// Whether the atoms of a sequence have pairwise different texts.
pub fn atoms_distinct(v: &[Atom]) -> (r: bool)
    ensures
        r == atoms_view(v@).no_duplicates(),
{
    let n = v.len();
    let mut i: usize = 0;
    while i < n
        invariant
            n == v@.len(),
            i <= n,
            forall|p: int, q: int| 0 <= p < q < n && p < i ==> v@[p]@ != v@[q]@,
        decreases n - i,
    {
        let mut j: usize = i + 1;
        while j < n
            invariant
                n == v@.len(),
                i < n,
                i + 1 <= j <= n,
                forall|p: int, q: int| 0 <= p < q < n && p < i ==> v@[p]@ != v@[q]@,
                forall|q: int| i < q < j ==> v@[i as int]@ != v@[q]@,
            decreases n - j,
        {
            if v[i].same(&v[j]) {
                assert(atoms_view(v@)[i as int] == atoms_view(v@)[j as int]);
                return false;
            }
            j = j + 1;
        }
        i = i + 1;
    }
    assert forall|p: int, q: int|
        0 <= p < atoms_view(v@).len() && 0 <= q < atoms_view(v@).len() && p != q implies atoms_view(
        v@,
    )[p] != atoms_view(v@)[q] by {
        if p < q {
            assert(v@[p]@ != v@[q]@);
        } else {
            assert(v@[q]@ != v@[p]@);
        }
    }
    true
}

} // verus!
