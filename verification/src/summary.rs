//! Totals of files, directories and bytes, and the cache that keeps the
//! total of each directory listing once it is known.

use crate::entry::{Entry, EntryKind, EntryView, TreeId};
use std::collections::BTreeMap;
use vstd::prelude::*;

verus! {

/// `a + b`, held at the largest `usize` where the sum is larger.
pub open spec fn capped_count(a: usize, b: usize) -> usize {
    if a + b > usize::MAX {
        usize::MAX
    } else {
        (a + b) as usize
    }
}

/// `a + b`, held at the largest `u64` where the sum is larger.
pub open spec fn capped_size(a: u64, b: u64) -> u64 {
    if a + b > u64::MAX {
        u64::MAX
    } else {
        (a + b) as u64
    }
}

/// How many files and directories a set of entries holds, and how many
/// bytes its files take. Each number stops at the largest value of its type.
#[derive(Clone, Copy, Debug, PartialEq, Eq, Structural)]
pub struct Summary {
    pub files: usize,
    pub dirs: usize,
    pub size: u64,
}

impl Summary {
    /// The total of nothing.
    pub open spec fn zero() -> Summary {
        Summary { files: 0, dirs: 0, size: 0 }
    }

    /// The sum of two totals, number by number.
    pub open spec fn merged(self, other: Summary) -> Summary {
        Summary {
            files: capped_count(self.files, other.files),
            dirs: capped_count(self.dirs, other.dirs),
            size: capped_size(self.size, other.size),
        }
    }

    /// The total with one more entry counted: a file adds one file and its
    /// size, a directory adds one directory and no size, and an entry of
    /// another kind adds nothing.
    pub open spec fn updated(self, entry: EntryView) -> Summary {
        match entry.kind {
            EntryKind::File => Summary {
                files: capped_count(self.files, 1),
                dirs: self.dirs,
                size: capped_size(self.size, entry.size),
            },
            EntryKind::Dir(_) => Summary {
                files: self.files,
                dirs: capped_count(self.dirs, 1),
                size: self.size,
            },
            EntryKind::Other => self,
        }
    }

    /// The total of nothing.
    pub fn new() -> (s: Summary)
        ensures
            s == Summary::zero(),
    {
        Summary { files: 0, dirs: 0, size: 0 }
    }

    /// Adds `other` to this total.
    pub fn merge(&mut self, other: Summary)
        ensures
            *final(self) == old(self).merged(other),
    {
        self.files = self.files.saturating_add(other.files);
        self.dirs = self.dirs.saturating_add(other.dirs);
        self.size = self.size.saturating_add(other.size);
    }

    /// Counts one more entry.
    pub fn update(&mut self, entry: &Entry)
        ensures
            *final(self) == old(self).updated(entry@),
    {
        match entry.kind {
            EntryKind::File => {
                self.files = self.files.saturating_add(1);
                self.size = self.size.saturating_add(entry.size);
            },
            EntryKind::Dir(_) => {
                self.dirs = self.dirs.saturating_add(1);
            },
            EntryKind::Other => {},
        }
    }
}

impl Default for Summary {
    fn default() -> (s: Summary)
        ensures
            s == Summary::zero(),
    {
        Summary::new()
    }
}

/// Merging is the same in either order.
pub proof fn lemma_merge_commutes(a: Summary, b: Summary)
    ensures
        a.merged(b) == b.merged(a),
{
}

/// Merging three totals gives the same whichever two are merged first.
pub proof fn lemma_merge_associates(a: Summary, b: Summary, c: Summary)
    ensures
        a.merged(b).merged(c) == a.merged(b.merged(c)),
{
}

/// The total of nothing changes no total that it is merged into.
pub proof fn lemma_merge_zero(a: Summary)
    ensures
        a.merged(Summary::zero()) == a,
        Summary::zero().merged(a) == a,
{
}

/// The totals of directory listings that are known so far, by identifier.
#[derive(Debug, PartialEq, Eq)]
pub struct SummaryMap {
    known: BTreeMap<(u128, u128), Summary>,
}

impl View for SummaryMap {
    type V = Map<TreeId, Summary>;

    closed spec fn view(&self) -> Map<TreeId, Summary> {
        Map::new(
            |id: TreeId| self.known@.contains_key((id.hi, id.lo)),
            |id: TreeId| self.known@[(id.hi, id.lo)],
        )
    }
}

/// `cache` with the total of `id` added, unless `id` has one already.
pub open spec fn recorded(cache: Map<TreeId, Summary>, id: TreeId, summary: Summary) -> Map<
    TreeId,
    Summary,
> {
    if cache.contains_key(id) {
        cache
    } else {
        cache.insert(id, summary)
    }
}

/// `cache` with the first `upto` pairs of `found` recorded in their order.
pub open spec fn absorbed(
    cache: Map<TreeId, Summary>,
    found: Seq<(TreeId, Summary)>,
    upto: int,
) -> Map<TreeId, Summary>
    decreases upto,
{
    if upto <= 0 {
        cache
    } else {
        recorded(absorbed(cache, found, upto - 1), found[upto - 1].0, found[upto - 1].1)
    }
}

/// Whether `later` holds every total of `earlier`, unchanged.
pub open spec fn keeps(earlier: Map<TreeId, Summary>, later: Map<TreeId, Summary>) -> bool {
    forall|id: TreeId| #[trigger]
        earlier.contains_key(id) ==> later.contains_key(id) && later[id] == earlier[id]
}

impl SummaryMap {
    /// A cache that knows no total.
    pub fn new() -> (cache: SummaryMap)
        ensures
            cache@ == Map::<TreeId, Summary>::empty(),
    {
        let cache = SummaryMap { known: BTreeMap::new() };
        assert(cache@ =~= Map::<TreeId, Summary>::empty());
        cache
    }

    /// The total known for `id`. Nothing is computed.
    pub fn get(&self, id: &TreeId) -> (r: Option<Summary>)
        ensures
            r == if self@.contains_key(*id) {
                Some(self@[*id])
            } else {
                None::<Summary>
            },
    {
        broadcast use vstd::std_specs::btree::group_btree_axioms;

        let key = (id.hi, id.lo);
        match self.known.get(&key) {
            Some(s) => Some(*s),
            None => None,
        }
    }

    /// Keeps `summary` as the total of `id`, unless a total of `id` is
    /// known already: a known total is never replaced.
    pub fn record(&mut self, id: TreeId, summary: Summary)
        ensures
            final(self)@ == recorded(old(self)@, id, summary),
    {
        broadcast use vstd::std_specs::btree::group_btree_axioms;

        let key = (id.hi, id.lo);
        if self.known.get(&key).is_none() {
            self.known.insert(key, summary);
            assert(self@ =~= old(self)@.insert(id, summary));
        }
    }

    /// Records each pair of `found` in order.
    pub fn absorb(&mut self, found: &Vec<(TreeId, Summary)>)
        ensures
            final(self)@ == absorbed(old(self)@, found@, found@.len() as int),
            keeps(old(self)@, final(self)@),
    {
        let mut i: usize = 0;
        while i < found.len()
            invariant
                i <= found.len(),
                self@ == absorbed(old(self)@, found@, i as int),
                keeps(old(self)@, self@),
            decreases found.len() - i,
        {
            let (id, summary) = found[i];
            self.record(id, summary);
            i = i + 1;
        }
    }
}

impl Default for SummaryMap {
    fn default() -> (cache: SummaryMap)
        ensures
            cache@ == Map::<TreeId, Summary>::empty(),
    {
        SummaryMap::new()
    }
}

/// Recording keeps every total that was known.
pub proof fn lemma_recorded_keeps(cache: Map<TreeId, Summary>, id: TreeId, summary: Summary)
    ensures
        keeps(cache, recorded(cache, id, summary)),
        recorded(cache, id, summary).contains_key(id),
{
}

/// Absorbing keeps every total that was known, and knows a total for the
/// identifier of every pair it was given.
pub proof fn lemma_absorbed_keeps(
    cache: Map<TreeId, Summary>,
    found: Seq<(TreeId, Summary)>,
    upto: int,
)
    requires
        0 <= upto <= found.len(),
    ensures
        keeps(cache, absorbed(cache, found, upto)),
        forall|i: int| 0 <= i < upto ==> absorbed(cache, found, upto).contains_key(#[trigger] found[i].0),
    decreases upto,
{
    if upto > 0 {
        lemma_absorbed_keeps(cache, found, upto - 1);
    }
}

} // verus!
