//! The fallback page table of the servers that name a status by its text:
//! from the bytes of a status to the bytes that are sent for it. It is filled
//! before serving begins and only read afterwards.

use vstd::prelude::*;

verus! {

/// The map that the registrations `e` stand for: a later one replaces an
/// earlier one for the same status.
pub open spec fn pages_of(e: Seq<(Vec<u8>, Vec<u8>)>) -> Map<Seq<u8>, Seq<u8>>
    decreases e.len(),
{
    if e.len() == 0 {
        Map::empty()
    } else {
        pages_of(e.drop_last()).insert(e.last().0@, e.last().1@)
    }
}

/// An entry decides for its status; the entries after it do not matter where
/// none of them is for that status.
pub proof fn lemma_pages_of_decided(e: Seq<(Vec<u8>, Vec<u8>)>, i: int, key: Seq<u8>)
    requires
        0 <= i <= e.len(),
        forall|j: int| i <= j < e.len() ==> (#[trigger] e[j]).0@ != key,
    ensures
        pages_of(e).dom().contains(key) == pages_of(e.take(i)).dom().contains(key),
        pages_of(e).dom().contains(key) ==> pages_of(e)[key] == pages_of(e.take(i))[key],
    decreases e.len() - i,
{
    if i < e.len() {
        let t = e.drop_last();
        assert(t.take(i) =~= e.take(i));
        assert(e.last() == e[e.len() - 1]);
        assert forall|j: int| i <= j < t.len() implies (#[trigger] t[j]).0@ != key by {
            assert(t[j] == e[j]);
        }
        lemma_pages_of_decided(t, i, key);
    } else {
        assert(e.take(i) =~= e);
    }
}

/// A table of pre-rendered pages.
#[derive(Debug, Clone)]
pub struct PageTable {
    entries: Vec<(Vec<u8>, Vec<u8>)>,
}

impl View for PageTable {
    type V = Map<Seq<u8>, Seq<u8>>;

    closed spec fn view(&self) -> Map<Seq<u8>, Seq<u8>> {
        pages_of(self.entries@)
    }
}

impl PageTable {
    /// A table without pages.
    pub fn new() -> (t: PageTable)
        ensures
            t@ == Map::<Seq<u8>, Seq<u8>>::empty(),
    {
        PageTable { entries: Vec::new() }
    }

    /// Registers `page` for `status`, in place of what was registered for it.
    pub fn register(&mut self, status: Vec<u8>, page: Vec<u8>)
        ensures
            final(self)@ == old(self)@.insert(status@, page@),
    {
        proof {
            assert(self.entries@.push((status, page)).drop_last() =~= self.entries@);
        }
        self.entries.push((status, page));
    }

    /// The page that is registered for `status`, where there is one.
    pub fn lookup(&self, status: &[u8]) -> (r: Option<&Vec<u8>>)
        ensures
            match r {
                Some(page) => self@.dom().contains(status@) && self@[status@] == page@,
                None => !self@.dom().contains(status@),
            },
    {
        let mut i: usize = self.entries.len();
        while i > 0
            invariant
                i <= self.entries@.len(),
                forall|j: int| i <= j < self.entries@.len() ==> (#[trigger] self.entries@[j]).0@
                    != status@,
            decreases i,
        {
            if same_bytes(self.entries[i - 1].0.as_slice(), status) {
                proof {
                    lemma_pages_of_decided(self.entries@, i as int, status@);
                    let t = self.entries@.take(i as int);
                    assert(t.last() == self.entries@[i - 1]);
                }
                return Some(&self.entries[i - 1].1);
            }
            i -= 1;
        }
        proof {
            lemma_pages_of_decided(self.entries@, 0, status@);
            assert(self.entries@.take(0) =~= Seq::<(Vec<u8>, Vec<u8>)>::empty());
        }
        None
    }
}

/// Whether `a` and `b` hold the same bytes.
pub fn same_bytes(a: &[u8], b: &[u8]) -> (r: bool)
    ensures
        r == (a@ == b@),
{
    if a.len() != b.len() {
        return false;
    }
    let mut i: usize = 0;
    while i < a.len()
        invariant
            a@.len() == b@.len(),
            i <= a@.len(),
            forall|j: int| 0 <= j < i ==> a@[j] == b@[j],
        decreases a@.len() - i,
    {
        if a[i] != b[i] {
            return false;
        }
        i += 1;
    }
    proof {
        assert(a@ =~= b@);
    }
    true
}

} // verus!
