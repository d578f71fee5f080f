//! The symbol table: assigns each distinct variable name a stable slot index
//! on first sight, in first-seen order starting at 0.  Pure lookup/allocate,
//! no eviction; one table lives for exactly one compilation.

use vstd::prelude::*;

use crate::strings;

verus! {

/// The character sequences of a list of strings, in order.
pub open spec fn names_view(v: Seq<String>) -> Seq<Seq<char>> {
    v.map_values(|s: String| s@)
}

/// Whether table `t` has an entry for `name`.
pub open spec fn table_contains(t: Seq<Seq<char>>, name: Seq<char>) -> bool {
    exists|i: int| 0 <= i < t.len() && t[i] == name
}

/// The slot of `name` in table `t`: the index of its first occurrence
/// (meaningful only when `t` contains `name`).
pub open spec fn slot_of(t: Seq<Seq<char>>, name: Seq<char>) -> int
    decreases t.len(),
{
    if t.len() == 0 {
        0
    } else if t[0] == name {
        0
    } else {
        1 + slot_of(t.drop_first(), name)
    }
}

/// No name occurs twice: every allocated slot belongs to exactly one name.
pub open spec fn table_distinct(t: Seq<Seq<char>>) -> bool {
    forall|i: int, j: int| 0 <= i < j < t.len() ==> t[i] != t[j]
}

/// The first occurrence is at `i` when `name` sits at `i` and nowhere
/// earlier.
proof fn lemma_slot_of_at(t: Seq<Seq<char>>, name: Seq<char>, i: int)
    requires
        0 <= i < t.len(),
        t[i] == name,
        forall|j: int| 0 <= j < i ==> t[j] != name,
    ensures
        slot_of(t, name) == i,
    decreases i,
{
    if i > 0 {
        lemma_slot_of_at(t.drop_first(), name, i - 1);
    }
}

/// First-use allocation: in a duplicate-free table the name holding slot
/// `k` is the k-th distinct name that was allocated (counting from 0), so
/// each distinct name receives the next unused index, in first-seen order.
pub proof fn lemma_first_use_slot(t: Seq<Seq<char>>, k: int)
    requires
        table_distinct(t),
        0 <= k < t.len(),
    ensures
        slot_of(t, t[k]) == k,
{
    lemma_slot_of_at(t, t[k], k);
}

/// Maps each variable name to a slot index; `names[k]` is the name that owns
/// slot `k`.
pub struct SymbolTable {
    names: Vec<String>,
}

impl View for SymbolTable {
    type V = Seq<Seq<char>>;

    closed spec fn view(&self) -> Seq<Seq<char>> {
        names_view(self.names@)
    }
}

impl SymbolTable {
    /// Every slot belongs to exactly one name.
    pub open spec fn wf(&self) -> bool {
        table_distinct(self@)
    }

    /// A fresh, empty table.
    pub fn new() -> (r: SymbolTable)
        ensures
            r@ == Seq::<Seq<char>>::empty(),
            r.wf(),
    {
        let r = SymbolTable { names: Vec::new() };
        proof {
            assert(r@ =~= Seq::<Seq<char>>::empty());
        }
        r
    }

    /// The slot of `name`: its existing slot when the name was seen before,
    /// else the next unused index, which is remembered.  The k-th distinct
    /// name handed to a fresh table therefore receives slot k-1.
    pub fn index_for(&mut self, name: &str) -> (r: usize)
        requires
            old(self).wf(),
        ensures
            final(self).wf(),
            table_contains(old(self)@, name@) ==> final(self)@ == old(self)@,
            !table_contains(old(self)@, name@) ==> final(self)@ == old(self)@.push(name@)
                && r == old(self)@.len(),
            table_contains(final(self)@, name@),
            r == slot_of(final(self)@, name@),
            r < final(self)@.len(),
    {
        let ghost orig = self.names@;
        let n = self.names.len();
        let mut i: usize = 0;
        while i < n
            invariant
                self.names@ == orig,
                table_distinct(names_view(orig)),
                self@ == names_view(orig),
                n == self.names@.len(),
                i <= n,
                forall|j: int| 0 <= j < i ==> names_view(self.names@)[j] != name@,
            decreases n - i,
        {
            if strings::str_eq(self.names[i].as_str(), name) {
                proof {
                    assert(self@[i as int] == name@);
                    lemma_slot_of_at(self@, name@, i as int);
                }
                return i;
            }
            i += 1;
        }
        assert(!table_contains(self@, name@));
        let ghost t0 = self@;
        self.names.push(name.to_owned());
        proof {
            assert(self@ =~= t0.push(name@));
            lemma_slot_of_at(self@, name@, n as int);
        }
        n
    }

    /// Hands the table's names out, slot by slot.
    pub fn into_names(self) -> (r: Vec<String>)
        ensures
            names_view(r@) == self@,
    {
        self.names
    }
}

} // verus!
