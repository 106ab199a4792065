//! The walk that sums a directory and everything below it. It asks for one
//! listing at a time and is handed each; listings whose total is known
//! already are not asked for.

use crate::entry::{subtree_of, EntryKind, EntryView, Tree, TreeId};
use crate::summary::{
    absorbed, keeps, lemma_absorbed_keeps, recorded, Summary, SummaryMap,
};
use vstd::prelude::*;

verus! {

/// The totals that are known once `found` has been recorded on top of
/// `base`, in order.
pub open spec fn cache_of(base: Map<TreeId, Summary>, found: Seq<(TreeId, Summary)>) -> Map<
    TreeId,
    Summary,
> {
    absorbed(base, found, found.len() as int)
}

/// `total` with one entry added: the entry is counted, and where it is a
/// directory whose listing has a total in `cache`, that total is added too.
pub open spec fn with_entry(total: Summary, entry: EntryView, cache: Map<TreeId, Summary>) -> Summary {
    let counted = total.updated(entry);
    match entry.kind {
        EntryKind::Dir(sub) => if cache.contains_key(sub) {
            counted.merged(cache[sub])
        } else {
            counted
        },
        _ => counted,
    }
}

/// The total of the first `upto` entries of a listing.
pub open spec fn listing_total(
    entries: Seq<EntryView>,
    cache: Map<TreeId, Summary>,
    upto: int,
) -> Summary
    decreases upto,
{
    if upto <= 0 {
        Summary::zero()
    } else {
        with_entry(listing_total(entries, cache, upto - 1), entries[upto - 1], cache)
    }
}

/// Whether `cache` has a total for every directory among the first `upto`
/// entries of a listing.
pub open spec fn covers(entries: Seq<EntryView>, cache: Map<TreeId, Summary>, upto: int) -> bool {
    forall|i: int|
        0 <= i < upto && i < entries.len() ==> match (#[trigger] entries[i]).kind {
            EntryKind::Dir(sub) => cache.contains_key(sub),
            _ => true,
        }
}

/// A listing that the walk has entered and not yet left.
#[derive(Debug)]
pub struct Level {
    id: TreeId,
    tree: Tree,
    next: usize,
}

/// A listing on the walk's way, with the place up to which its directories
/// have totals.
pub struct LevelView {
    pub id: TreeId,
    pub entries: Seq<EntryView>,
    pub next: nat,
}

impl View for Level {
    type V = LevelView;

    closed spec fn view(&self) -> LevelView {
        LevelView { id: self.id, entries: self.tree@, next: self.next as nat }
    }
}

/// The state of a walk, as mathematical values.
pub struct WalkView {
    /// The listing whose total the walk is after.
    pub root: TreeId,
    /// The listings entered and not yet left, outermost first.
    pub levels: Seq<LevelView>,
    /// The totals found so far, in the order they were found.
    pub found: Seq<(TreeId, Summary)>,
    /// The listing that the walk is waiting for; none once it has ended.
    pub waiting: Option<TreeId>,
}

/// How many entries of the innermost listing are still to be passed.
pub open spec fn remaining(m: WalkView) -> nat {
    if m.levels.len() > 0 && m.levels.last().next < m.levels.last().entries.len() {
        (m.levels.last().entries.len() - m.levels.last().next) as nat
    } else {
        0
    }
}

/// The walk carried on until it needs a listing or has none left to leave.
///
/// In the innermost listing it passes every entry that is no directory or
/// whose listing has a total. At a directory without one it stops and waits
/// for that listing. At the end of a listing it records the listing's
/// total, unless one is known, and carries on in the listing above.
pub open spec fn settle(m: WalkView, base: Map<TreeId, Summary>) -> WalkView
    decreases m.levels.len(), remaining(m),
{
    if m.levels.len() == 0 {
        WalkView { waiting: None, ..m }
    } else {
        let top = m.levels.last();
        let cache = cache_of(base, m.found);
        if top.next >= top.entries.len() {
            let found = if cache.contains_key(top.id) {
                m.found
            } else {
                m.found.push((top.id, listing_total(top.entries, cache, top.entries.len() as int)))
            };
            settle(WalkView { levels: m.levels.drop_last(), found, ..m }, base)
        } else {
            let sub = subtree_of(top.entries[top.next as int].kind);
            if sub is Some && !cache.contains_key(sub->0) {
                WalkView { waiting: sub, ..m }
            } else {
                let passed = LevelView { next: top.next + 1, ..top };
                settle(
                    WalkView { levels: m.levels.update(m.levels.len() - 1, passed), ..m },
                    base,
                )
            }
        }
    }
}

/// A walk that is after the total of `root`: it waits for the listing of
/// `root`, or has ended at once where `base` knows the total.
pub open spec fn started(base: Map<TreeId, Summary>, root: TreeId) -> WalkView {
    WalkView {
        root,
        levels: Seq::empty(),
        found: Seq::empty(),
        waiting: if base.contains_key(root) {
            None
        } else {
            Some(root)
        },
    }
}

/// The walk after it was handed `entries` as the listing it waited for. A
/// walk that has ended stays as it is.
pub open spec fn supplied(m: WalkView, base: Map<TreeId, Summary>, entries: Seq<EntryView>) -> WalkView {
    match m.waiting {
        None => m,
        Some(id) => settle(
            WalkView { levels: m.levels.push(LevelView { id, entries, next: 0 }), ..m },
            base,
        ),
    }
}

/// The total that `cache` knows for `id`.
pub open spec fn lookup(cache: Map<TreeId, Summary>, id: TreeId) -> Option<Summary> {
    if cache.contains_key(id) {
        Some(cache[id])
    } else {
        None
    }
}

/// What is found by recording on top of `base` is what `base` knows, and
/// beyond that what recording the same pairs on top of nothing gives.
pub proof fn lemma_absorbed_over_base(
    base: Map<TreeId, Summary>,
    found: Seq<(TreeId, Summary)>,
    upto: int,
    id: TreeId,
)
    requires
        0 <= upto <= found.len(),
    ensures
        lookup(absorbed(base, found, upto), id) == if base.contains_key(id) {
            Some(base[id])
        } else {
            lookup(absorbed(Map::empty(), found, upto), id)
        },
    decreases upto,
{
    if upto > 0 {
        lemma_absorbed_over_base(base, found, upto - 1, id);
        lemma_absorbed_over_base(base, found, upto - 1, found[upto - 1].0);
    }
}

/// Recording the pairs of a longer sequence up to the length of a shorter
/// one that it starts with gives what recording the shorter one gives.
pub proof fn lemma_absorbed_prefix(
    cache: Map<TreeId, Summary>,
    found: Seq<(TreeId, Summary)>,
    longer: Seq<(TreeId, Summary)>,
    upto: int,
)
    requires
        0 <= upto <= found.len() <= longer.len(),
        forall|i: int| 0 <= i < found.len() ==> longer[i] == found[i],
    ensures
        absorbed(cache, longer, upto) == absorbed(cache, found, upto),
    decreases upto,
{
    if upto > 0 {
        lemma_absorbed_prefix(cache, found, longer, upto - 1);
    }
}

/// One more pair found is one more pair recorded.
pub proof fn lemma_cache_of_push(
    base: Map<TreeId, Summary>,
    found: Seq<(TreeId, Summary)>,
    id: TreeId,
    summary: Summary,
)
    ensures
        cache_of(base, found.push((id, summary))) == recorded(cache_of(base, found), id, summary),
{
    lemma_absorbed_prefix(base, found, found.push((id, summary)), found.len() as int);
}

/// A repository as the walk meets it: the listing behind each identifier.
pub type Store = Map<TreeId, Seq<EntryView>>;

/// Whether every total that `cache` knows beyond `base` is the total of the
/// listing that `store` holds for its identifier, and `cache` has a total
/// for every directory of that listing.
pub open spec fn summed(cache: Map<TreeId, Summary>, base: Map<TreeId, Summary>, store: Store) -> bool {
    forall|id: TreeId| #[trigger]
        cache.contains_key(id) && !base.contains_key(id) ==> {
            &&& store.contains_key(id)
            &&& cache[id] == listing_total(store[id], cache, store[id].len() as int)
            &&& covers(store[id], cache, store[id].len() as int)
        }
}

/// Whether each listing on the walk's way is the one that `store` holds for
/// its identifier, with totals known for its directories up to its place.
pub open spec fn levels_follow(levels: Seq<LevelView>, cache: Map<TreeId, Summary>, store: Store) -> bool {
    forall|k: int|
        0 <= k < levels.len() ==> {
            &&& store.contains_key((#[trigger] levels[k]).id)
            &&& levels[k].entries == store[levels[k].id]
            &&& covers(levels[k].entries, cache, levels[k].next as int)
        }
}

/// Whether each listing on the walk's way but the innermost stands at the
/// directory that leads to the next listing.
pub open spec fn chained(levels: Seq<LevelView>) -> bool {
    forall|k: int|
        0 <= k < levels.len() - 1 ==> {
            &&& (#[trigger] levels[k]).next < levels[k].entries.len()
            &&& subtree_of(levels[k].entries[levels[k].next as int].kind) == Some(levels[k + 1].id)
        }
}

/// What holds of a walk while it is carried on.
pub open spec fn in_flight(m: WalkView, base: Map<TreeId, Summary>, store: Store) -> bool {
    let cache = cache_of(base, m.found);
    &&& levels_follow(m.levels, cache, store)
    &&& chained(m.levels)
    &&& summed(cache, base, store)
    &&& m.levels.len() > 0 ==> m.levels[0].id == m.root
    &&& m.levels.len() == 0 ==> cache.contains_key(m.root)
}

/// What holds of a walk between two listings, when every listing it was
/// handed is the one that `store` holds for the identifier it waited for:
/// the listings on its way are those of `store`, each standing at the
/// directory that leads to the next, the innermost at the first of its
/// directories without a total, which is what the walk waits for; every
/// total found is the total of its listing; the outermost listing is the
/// root's; and a walk that waits for nothing has the root's total.
pub open spec fn on_course(m: WalkView, base: Map<TreeId, Summary>, store: Store) -> bool {
    let cache = cache_of(base, m.found);
    &&& levels_follow(m.levels, cache, store)
    &&& chained(m.levels)
    &&& (m.waiting matches Some(id) ==> !cache.contains_key(id))
    &&& m.levels.len() > 0 ==> {
        &&& m.levels.last().next < m.levels.last().entries.len()
        &&& subtree_of(m.levels.last().entries[m.levels.last().next as int].kind) == m.waiting
    }
    &&& summed(cache, base, store)
    &&& m.levels.len() > 0 ==> m.levels[0].id == m.root && m.waiting is Some
    &&& m.levels.len() == 0 ==> (m.waiting is Some ==> m.waiting == Some(m.root))
    &&& m.levels.len() == 0 ==> (m.waiting is None ==> cache.contains_key(m.root))
}

/// Whether `cache` has a total for every directory of every listing that it
/// has a total for: with a directory, everything below it.
pub open spec fn closed_under(cache: Map<TreeId, Summary>, store: Store) -> bool {
    forall|id: TreeId| #[trigger]
        cache.contains_key(id) ==> store.contains_key(id) && covers(
            store[id],
            cache,
            store[id].len() as int,
        )
}

/// More known totals change no total of a listing whose directories all had
/// totals before.
pub proof fn lemma_total_stable(
    entries: Seq<EntryView>,
    earlier: Map<TreeId, Summary>,
    later: Map<TreeId, Summary>,
    upto: int,
)
    requires
        keeps(earlier, later),
        covers(entries, earlier, upto),
        0 <= upto <= entries.len(),
    ensures
        listing_total(entries, later, upto) == listing_total(entries, earlier, upto),
        covers(entries, later, upto),
    decreases upto,
{
    if upto > 0 {
        lemma_total_stable(entries, earlier, later, upto - 1);
        let e = entries[upto - 1];
        match e.kind {
            EntryKind::Dir(sub) => {
                assert(earlier.contains_key(sub));
            },
            _ => {},
        }
    }
    assert forall|i: int| 0 <= i < upto && i < entries.len() implies match (#[trigger] entries[i]).kind {
        EntryKind::Dir(sub) => later.contains_key(sub),
        _ => true,
    } by {
        match entries[i].kind {
            EntryKind::Dir(sub) => {
                assert(earlier.contains_key(sub));
            },
            _ => {},
        }
    }
}

/// Carrying a walk on keeps what held of it, and every total that was known.
pub proof fn lemma_settle_on_course(m: WalkView, base: Map<TreeId, Summary>, store: Store)
    requires
        in_flight(m, base, store),
    ensures
        on_course(settle(m, base), base, store),
        keeps(cache_of(base, m.found), cache_of(base, settle(m, base).found)),
        settle(m, base).root == m.root,
    decreases m.levels.len(), remaining(m),
{
    let cache = cache_of(base, m.found);
    if m.levels.len() == 0 {
    } else {
        let top = m.levels.last();
        let len = top.entries.len() as int;
        if top.next >= top.entries.len() {
            let rest = m.levels.drop_last();
            if cache.contains_key(top.id) {
                let next = WalkView { levels: rest, ..m };
                assert(levels_follow(rest, cache, store)) by {
                    assert forall|k: int| 0 <= k < rest.len() implies {
                        &&& store.contains_key((#[trigger] rest[k]).id)
                        &&& rest[k].entries == store[rest[k].id]
                        &&& covers(rest[k].entries, cache, rest[k].next as int)
                    } by {
                        assert(rest[k] == m.levels[k]);
                    }
                }
                if rest.len() > 0 {
                    assert(rest[0] == m.levels[0]);
                }
                lemma_chained_rest(m.levels);
                lemma_settle_on_course(next, base, store);
            } else {
                let total = listing_total(top.entries, cache, len);
                let found = m.found.push((top.id, total));
                let after = cache_of(base, found);
                lemma_cache_of_push(base, m.found, top.id, total);
                assert(after == cache.insert(top.id, total));
                assert(keeps(cache, after));
                let next = WalkView { levels: rest, found, ..m };
                assert(covers(top.entries, cache, len));
                lemma_total_stable(top.entries, cache, after, len);
                assert(levels_follow(rest, after, store)) by {
                    assert forall|k: int| 0 <= k < rest.len() implies {
                        &&& store.contains_key((#[trigger] rest[k]).id)
                        &&& rest[k].entries == store[rest[k].id]
                        &&& covers(rest[k].entries, after, rest[k].next as int)
                    } by {
                        assert(rest[k] == m.levels[k]);
                        lemma_covers_stable(rest[k].entries, cache, after, rest[k].next as int);
                    }
                }
                assert(summed(after, base, store)) by {
                    assert forall|id: TreeId| #[trigger]
                        after.contains_key(id) && !base.contains_key(id) implies {
                        &&& store.contains_key(id)
                        &&& after[id] == listing_total(store[id], after, store[id].len() as int)
                        &&& covers(store[id], after, store[id].len() as int)
                    } by {
                        if id == top.id {
                        } else {
                            assert(cache.contains_key(id));
                            lemma_total_stable(store[id], cache, after, store[id].len() as int);
                        }
                    }
                }
                if rest.len() > 0 {
                    assert(rest[0] == m.levels[0]);
                }
                lemma_chained_rest(m.levels);
                lemma_settle_on_course(next, base, store);
                assert(keeps(cache, cache_of(base, settle(next, base).found)));
            }
        } else {
            let sub = subtree_of(top.entries[top.next as int].kind);
            if sub is Some && !cache.contains_key(sub->0) {
            } else {
                let passed = LevelView { next: top.next + 1, ..top };
                let levels = m.levels.update(m.levels.len() - 1, passed);
                let next = WalkView { levels, ..m };
                assert(levels_follow(levels, cache, store)) by {
                    assert forall|k: int| 0 <= k < levels.len() implies {
                        &&& store.contains_key((#[trigger] levels[k]).id)
                        &&& levels[k].entries == store[levels[k].id]
                        &&& covers(levels[k].entries, cache, levels[k].next as int)
                    } by {
                        if k == m.levels.len() - 1 {
                            assert(m.levels[k] == top);
                            assert(covers(top.entries, cache, top.next as int));
                        } else {
                            assert(levels[k] == m.levels[k]);
                        }
                    }
                }
                assert(chained(levels)) by {
                    assert forall|k: int| 0 <= k < levels.len() - 1 implies {
                        &&& (#[trigger] levels[k]).next < levels[k].entries.len()
                        &&& subtree_of(levels[k].entries[levels[k].next as int].kind) == Some(
                            levels[k + 1].id,
                        )
                    } by {
                        assert(levels[k] == m.levels[k]);
                        assert(levels[k + 1].id == m.levels[k + 1].id);
                    }
                }
                lemma_settle_on_course(next, base, store);
            }
        }
    }
}

/// The listings above the innermost are chained where all of them are.
pub proof fn lemma_chained_rest(levels: Seq<LevelView>)
    requires
        chained(levels),
        levels.len() > 0,
    ensures
        chained(levels.drop_last()),
{
    let rest = levels.drop_last();
    assert forall|k: int| 0 <= k < rest.len() - 1 implies {
        &&& (#[trigger] rest[k]).next < rest[k].entries.len()
        &&& subtree_of(rest[k].entries[rest[k].next as int].kind) == Some(rest[k + 1].id)
    } by {
        assert(rest[k] == levels[k]);
        assert(rest[k + 1] == levels[k + 1]);
    }
}

/// More known totals leave every directory with a total that had one.
pub proof fn lemma_covers_stable(
    entries: Seq<EntryView>,
    earlier: Map<TreeId, Summary>,
    later: Map<TreeId, Summary>,
    upto: int,
)
    requires
        keeps(earlier, later),
        covers(entries, earlier, upto),
    ensures
        covers(entries, later, upto),
{
    assert forall|i: int| 0 <= i < upto && i < entries.len() implies match (#[trigger] entries[i]).kind {
        EntryKind::Dir(sub) => later.contains_key(sub),
        _ => true,
    } by {
        match entries[i].kind {
            EntryKind::Dir(sub) => {
                assert(earlier.contains_key(sub));
            },
            _ => {},
        }
    }
}

/// A walk that has just begun is on course.
pub proof fn lemma_start_on_course(base: Map<TreeId, Summary>, root: TreeId, store: Store)
    ensures
        on_course(started(base, root), base, store),
        cache_of(base, started(base, root).found) == base,
{
}

/// Handing a walk on course the listing that the repository holds for what
/// it waits for leaves it on course, and keeps every total that was known.
pub proof fn lemma_supply_on_course(
    m: WalkView,
    base: Map<TreeId, Summary>,
    store: Store,
    entries: Seq<EntryView>,
)
    requires
        on_course(m, base, store),
        m.waiting matches Some(id) ==> store.contains_key(id) && store[id] == entries,
    ensures
        on_course(supplied(m, base, entries), base, store),
        keeps(cache_of(base, m.found), cache_of(base, supplied(m, base, entries).found)),
        supplied(m, base, entries).root == m.root,
{
    match m.waiting {
        None => {},
        Some(id) => {
            let cache = cache_of(base, m.found);
            let level = LevelView { id, entries, next: 0 };
            let levels = m.levels.push(level);
            let pushed = WalkView { levels, ..m };
            assert(levels_follow(levels, cache, store)) by {
                assert forall|k: int| 0 <= k < levels.len() implies {
                    &&& store.contains_key((#[trigger] levels[k]).id)
                    &&& levels[k].entries == store[levels[k].id]
                    &&& covers(levels[k].entries, cache, levels[k].next as int)
                } by {
                    if k < m.levels.len() {
                        assert(levels[k] == m.levels[k]);
                    }
                }
            }
            if m.levels.len() > 0 {
                assert(levels[0] == m.levels[0]);
            }
            assert(chained(levels)) by {
                assert forall|k: int| 0 <= k < levels.len() - 1 implies {
                    &&& (#[trigger] levels[k]).next < levels[k].entries.len()
                    &&& subtree_of(levels[k].entries[levels[k].next as int].kind) == Some(
                        levels[k + 1].id,
                    )
                } by {
                    assert(levels[k] == m.levels[k]);
                    if k + 1 < m.levels.len() {
                        assert(levels[k + 1] == m.levels[k + 1]);
                    } else {
                        assert(m.levels[k] == m.levels.last());
                        assert(levels[k + 1] == level);
                    }
                }
            }
            lemma_settle_on_course(pushed, base, store);
        },
    }
}

/// A walk on course that waits for nothing has the total of its root.
pub proof fn lemma_ended_walk_has_root(m: WalkView, base: Map<TreeId, Summary>, store: Store)
    requires
        on_course(m, base, store),
        m.waiting is None,
    ensures
        cache_of(base, m.found).contains_key(m.root),
{
}

/// Every total that a walk on course found is the total of its listing:
/// each file counts once with its size, each directory counts once and
/// adds the total of its own listing.
pub proof fn lemma_found_totals(m: WalkView, base: Map<TreeId, Summary>, store: Store, id: TreeId)
    requires
        on_course(m, base, store),
        cache_of(base, m.found).contains_key(id),
        !base.contains_key(id),
    ensures
        store.contains_key(id),
        cache_of(base, m.found)[id] == listing_total(
            store[id],
            cache_of(base, m.found),
            store[id].len() as int,
        ),
        covers(store[id], cache_of(base, m.found), store[id].len() as int),
{
}

/// Where the totals known before the walk were closed under the
/// repository, so are the totals known with what the walk found: with a
/// directory, every directory below it has a total.
pub proof fn lemma_walk_closed(m: WalkView, base: Map<TreeId, Summary>, store: Store)
    requires
        on_course(m, base, store),
        closed_under(base, store),
    ensures
        closed_under(cache_of(base, m.found), store),
{
    let cache = cache_of(base, m.found);
    lemma_absorbed_keeps(base, m.found, m.found.len() as int);
    assert forall|id: TreeId| #[trigger] cache.contains_key(id) implies store.contains_key(id)
        && covers(store[id], cache, store[id].len() as int) by {
        if base.contains_key(id) {
            lemma_covers_stable(store[id], base, cache, store[id].len() as int);
        }
    }
}

/// Where the root's total is known, the walk ends before it begins: it
/// asks for nothing and finds nothing, and recording what it found leaves
/// the cache as it was.
pub proof fn lemma_known_root_is_not_walked(base: Map<TreeId, Summary>, root: TreeId)
    requires
        base.contains_key(root),
    ensures
        started(base, root).waiting is None,
        started(base, root).found.len() == 0,
        cache_of(base, started(base, root).found) == base,
{
}

/// What a walk found, recorded in the cache it was read against, is the
/// cache that the walk went by.
pub proof fn lemma_absorb_found(base: Map<TreeId, Summary>, found: Seq<(TreeId, Summary)>)
    ensures
        absorbed(base, found, found.len() as int) == cache_of(base, found),
        keeps(base, cache_of(base, found)),
{
    lemma_absorbed_keeps(base, found, found.len() as int);
}

/// The state of a walk.
#[derive(Debug)]
pub struct Walk {
    root: TreeId,
    levels: Vec<Level>,
    found: Vec<(TreeId, Summary)>,
    index: SummaryMap,
    waiting: Option<TreeId>,
}

impl View for Walk {
    type V = WalkView;

    closed spec fn view(&self) -> WalkView {
        WalkView {
            root: self.root,
            levels: Seq::new(self.levels@.len(), |i: int| self.levels@[i]@),
            found: self.found@,
            waiting: self.waiting,
        }
    }
}

impl Walk {
    /// Whether the walk's own record of what it found is in order.
    pub closed spec fn wf(&self) -> bool {
        self.index@ == absorbed(Map::empty(), self.found@, self.found@.len() as int)
    }

    /// Begins a walk after the total of `root`.
    pub fn start(base: &SummaryMap, root: TreeId) -> (walk: Walk)
        ensures
            walk.wf(),
            walk@ == started(base@, root),
    {
        let waiting = if base.get(&root).is_some() {
            None
        } else {
            Some(root)
        };
        let walk = Walk {
            root,
            levels: Vec::new(),
            found: Vec::new(),
            index: SummaryMap::new(),
            waiting,
        };
        assert(walk@.levels =~= Seq::<LevelView>::empty());
        walk
    }

    /// The listing that the walk is waiting for; none once it has ended.
    pub fn wanted(&self) -> (id: Option<TreeId>)
        ensures
            id == self@.waiting,
    {
        self.waiting
    }

    /// The total known for `id`, in `base` or among what the walk found.
    fn known(&self, base: &SummaryMap, id: &TreeId) -> (r: Option<Summary>)
        requires
            self.wf(),
        ensures
            r == lookup(cache_of(base@, self@.found), *id),
    {
        proof {
            lemma_absorbed_over_base(base@, self@.found, self@.found.len() as int, *id);
        }
        match base.get(id) {
            Some(s) => Some(s),
            None => self.index.get(id),
        }
    }

    /// The total of a listing, with what is known of its directories.
    fn total_of(&self, base: &SummaryMap, tree: &Tree) -> (sum: Summary)
        requires
            self.wf(),
        ensures
            sum == listing_total(tree@, cache_of(base@, self@.found), tree@.len() as int),
    {
        let ghost cache = cache_of(base@, self@.found);
        let mut sum = Summary::new();
        let mut i: usize = 0;
        while i < tree.nodes.len()
            invariant
                self.wf(),
                i <= tree.nodes.len(),
                cache == cache_of(base@, self@.found),
                sum == listing_total(tree@, cache, i as int),
            decreases tree.nodes.len() - i,
        {
            let entry = &tree.nodes[i];
            assert(entry@ == tree@[i as int]);
            sum.update(entry);
            match entry.kind {
                EntryKind::Dir(sub) => {
                    match self.known(base, &sub) {
                        Some(s) => {
                            sum.merge(s);
                        },
                        None => {},
                    }
                },
                _ => {},
            }
            i = i + 1;
        }
        sum
    }

    /// Hands the walk the listing it waits for. The walk then goes on until
    /// it needs another listing or has ended. A walk that has ended ignores
    /// what it is handed.
    pub fn supply(&mut self, base: &SummaryMap, tree: Tree)
        requires
            old(self).wf(),
        ensures
            final(self).wf(),
            final(self)@ == supplied(old(self)@, base@, tree@),
    {
        let id = match self.waiting {
            None => {
                return ;
            },
            Some(id) => id,
        };
        self.levels.push(Level { id, tree, next: 0 });
        let ghost goal = supplied(old(self)@, base@, tree@);
        assert(self@.levels =~= old(self)@.levels.push(LevelView { id, entries: tree@, next: 0 }));
        assert(self@ == (WalkView {
            levels: old(self)@.levels.push(LevelView { id, entries: tree@, next: 0 }),
            ..old(self)@
        }));
        loop
            invariant
                self.wf(),
                goal == supplied(old(self)@, base@, tree@),
                settle(self@, base@) == goal,
            decreases self@.levels.len(), remaining(self@),
        {
            let ghost before = self@;
            if self.levels.len() == 0 {
                self.waiting = None;
                assert(self@ == settle(before, base@));
                return ;
            }
            let mut top = self.levels.pop().unwrap();
            assert(top@ == before.levels.last());
            assert(self@.levels =~= before.levels.drop_last());
            if top.next >= top.tree.nodes.len() {
                if self.known(base, &top.id).is_none() {
                    let sum = self.total_of(base, &top.tree);
                    proof {
                        lemma_absorbed_prefix(
                            Map::empty(),
                            self.found@,
                            self.found@.push((top.id, sum)),
                            self.found@.len() as int,
                        );
                    }
                    self.found.push((top.id, sum));
                    self.index.record(top.id, sum);
                }
                assert(settle(self@, base@) == settle(before, base@));
            } else {
                let sub = top.tree.nodes[top.next].subtree();
                assert(top.tree.nodes[top.next as int]@ == top@.entries[top@.next as int]);
                let stop = match sub {
                    Some(s) => self.known(base, &s).is_none(),
                    None => false,
                };
                if stop {
                    self.waiting = sub;
                    self.levels.push(top);
                    assert(self@.levels =~= before.levels);
                    assert(self@ == settle(before, base@));
                    return ;
                }
                top.next = top.next + 1;
                let ghost passed = top@;
                self.levels.push(top);
                assert(self@.levels =~= before.levels.update(before.levels.len() - 1, passed));
                assert(settle(self@, base@) == settle(before, base@));
            }
        }
    }

    /// Ends the walk and gives what it found, in the order it was found.
    pub fn finish(self) -> (found: Vec<(TreeId, Summary)>)
        ensures
            found@ == self@.found,
    {
        self.found
    }
}

impl SummaryMap {
    /// Begins to compute the total of `root` and of every directory below
    /// it that has none yet. The walk that is returned asks for the
    /// listings it needs; what it has found at its end is to be recorded
    /// with `absorb`.
    pub fn compute(&self, root: TreeId) -> (walk: Walk)
        ensures
            walk.wf(),
            walk@ == started(self@, root),
    {
        Walk::start(self, root)
    }
}

} // verus!
