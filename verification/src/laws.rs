//! What holds of the browser whatever the events are.

use crate::entry::{EntryKind, EntryView, TreeId};
use crate::model::{exit_popup, initial, read_length, FrameView, SnapshotView, VIEW_LIMIT};
use crate::screen::{Event, Key, PromptResult, ReplyView, Request, ResultView, ScreenView};
use crate::summary::{absorbed, keeps, lemma_absorbed_keeps, Summary};
use vstd::prelude::*;
use vstd::utf8::valid_utf8;

verus! {

/// A state in shape is valid once its table is filled again.
pub proof fn lemma_refreshed_valid(s: SnapshotView)
    requires
        s.shaped(),
    ensures
        s.refreshed().valid(),
{
    let t = s.refreshed();
    assert forall|k: int| 0 <= k < t.trees.len() implies {
        &&& (#[trigger] t.trees[k]).selected < t.trees[k].entries.len()
        &&& t.trees[k].entries[t.trees[k].selected as int].kind == EntryKind::Dir(t.child_of(k))
        &&& t.trees[k].entries[t.trees[k].selected as int].name == t.path[k]
    } by {
        assert(t.trees[k] == s.trees[k]);
        assert(t.child_of(k) == s.child_of(k));
    }
}

/// The state in which the browser begins is valid.
pub proof fn lemma_initial_valid(
    id: Seq<char>,
    root: TreeId,
    tree: Seq<EntryView>,
    cache: Map<TreeId, Summary>,
    cold: bool,
    absolute: bool,
)
    ensures
        initial(id, root, tree, cache, cold, absolute).valid(),
        initial(id, root, tree, cache, cold, absolute).at_root(),
{
}

/// Entering a directory leaves a valid state valid.
pub proof fn lemma_entered_valid(s: SnapshotView, child: Seq<EntryView>)
    requires
        s.valid(),
    ensures
        s.entered(child).valid(),
{
    match s.selected_subtree() {
        Some(sub) => {
            let row = s.table.selected->0;
            let mid = SnapshotView {
                path: s.path.push(s.tree[row as int].name),
                trees: s.trees.push(
                    FrameView { entries: s.tree, id: s.tree_id, selected: row },
                ),
                tree: child,
                tree_id: sub,
                ..s
            }.with_selected(Some(0));
            assert forall|k: int| 0 <= k < mid.trees.len() implies {
                &&& (#[trigger] mid.trees[k]).selected < mid.trees[k].entries.len()
                &&& mid.trees[k].entries[mid.trees[k].selected as int].kind == EntryKind::Dir(
                    mid.child_of(k),
                )
                &&& mid.trees[k].entries[mid.trees[k].selected as int].name == mid.path[k]
            } by {
                if k < s.trees.len() {
                    assert(mid.trees[k] == s.trees[k]);
                    assert(mid.child_of(k) == s.child_of(k));
                    assert(mid.path[k] == s.path[k]);
                }
            }
            if s.trees.len() > 0 {
                assert(mid.trees[0] == s.trees[0]);
            }
            lemma_shape_kept_by_refresh(mid);
        },
        None => {},
    }
}

/// Filling the table again makes a state valid where the stack and the
/// path fit together and the selected row, if the directory is not empty,
/// exists.
pub proof fn lemma_shape_kept_by_refresh(s: SnapshotView)
    requires
        s.with_selected(None).shaped(),
        s.table.selected matches Some(i) ==> i < s.tree.len() || s.tree.len() == 0,
    ensures
        s.refreshed().valid(),
{
    let t = s.refreshed();
    let u = s.with_selected(None);
    assert forall|k: int| 0 <= k < t.trees.len() implies {
        &&& (#[trigger] t.trees[k]).selected < t.trees[k].entries.len()
        &&& t.trees[k].entries[t.trees[k].selected as int].kind == EntryKind::Dir(t.child_of(k))
        &&& t.trees[k].entries[t.trees[k].selected as int].name == t.path[k]
    } by {
        assert(t.trees[k] == u.trees[k]);
        assert(t.child_of(k) == u.child_of(k));
    }
}

/// Going back leaves a valid state valid.
pub proof fn lemma_gone_back_valid(s: SnapshotView)
    requires
        s.valid(),
    ensures
        s.gone_back().valid(),
{
    if s.trees.len() > 0 {
        let frame = s.trees.last();
        let mid = SnapshotView {
            path: s.path.drop_last(),
            trees: s.trees.drop_last(),
            tree: frame.entries,
            tree_id: frame.id,
            ..s
        }.with_selected(Some(frame.selected));
        let u = mid.with_selected(None);
        assert(s.trees[s.trees.len() - 1] == frame);
        assert forall|k: int| 0 <= k < u.trees.len() implies {
            &&& (#[trigger] u.trees[k]).selected < u.trees[k].entries.len()
            &&& u.trees[k].entries[u.trees[k].selected as int].kind == EntryKind::Dir(
                u.child_of(k),
            )
            &&& u.trees[k].entries[u.trees[k].selected as int].name == u.path[k]
        } by {
            assert(u.trees[k] == s.trees[k]);
            assert(u.child_of(k) == s.child_of(k));
            assert(u.path[k] == s.path[k]);
        }
        if u.trees.len() > 0 {
            assert(u.trees[0] == s.trees[0]);
        }
        lemma_shape_kept_by_refresh(mid);
    }
}

/// Changing what the table is filled from, and filling it again, leaves a
/// valid state valid.
pub proof fn lemma_refilled_valid(s: SnapshotView, numeric: bool, cache: Map<TreeId, Summary>)
    requires
        s.valid(),
    ensures
        (SnapshotView { numeric, cache, ..s }).refreshed().valid(),
{
    let mid = SnapshotView { numeric, cache, ..s };
    assert forall|k: int| 0 <= k < mid.trees.len() implies {
        &&& (#[trigger] mid.trees[k]).selected < mid.trees[k].entries.len()
        &&& mid.trees[k].entries[mid.trees[k].selected as int].kind == EntryKind::Dir(
            mid.child_of(k),
        )
        &&& mid.trees[k].entries[mid.trees[k].selected as int].name == mid.path[k]
    } by {
        assert(mid.trees[k] == s.trees[k]);
        assert(mid.child_of(k) == s.child_of(k));
    }
    lemma_refreshed_valid(mid);
}

/// Selecting a row, or changing the screen's mode, leaves a valid state
/// valid.
pub proof fn lemma_selecting_valid(s: SnapshotView, row: Option<usize>, screen: ScreenView)
    requires
        s.valid(),
    ensures
        s.selecting(row).valid(),
        s.with_screen(screen).valid(),
{
    let t = s.selecting(row);
    assert forall|k: int| 0 <= k < t.trees.len() implies {
        &&& (#[trigger] t.trees[k]).selected < t.trees[k].entries.len()
        &&& t.trees[k].entries[t.trees[k].selected as int].kind == EntryKind::Dir(t.child_of(k))
        &&& t.trees[k].entries[t.trees[k].selected as int].name == t.path[k]
    } by {
        assert(t.trees[k] == s.trees[k]);
        assert(t.child_of(k) == s.child_of(k));
    }
    let u = s.with_screen(screen);
    assert forall|k: int| 0 <= k < u.trees.len() implies {
        &&& (#[trigger] u.trees[k]).selected < u.trees[k].entries.len()
        &&& u.trees[k].entries[u.trees[k].selected as int].kind == EntryKind::Dir(u.child_of(k))
        &&& u.trees[k].entries[u.trees[k].selected as int].name == u.path[k]
    } by {
        assert(u.trees[k] == s.trees[k]);
        assert(u.child_of(k) == s.child_of(k));
    }
}

/// Whatever the event and the answer, a valid state stays valid: so at all
/// times the stack is as deep as the path is long.
pub proof fn lemma_step_valid(s: SnapshotView, event: Event, reply: ReplyView)
    requires
        s.valid(),
    ensures
        s.step(event, reply).0.valid(),
        s.step(event, reply).0.trees.len() == s.step(event, reply).0.path.len(),
{
    let t = s.step(event, reply).0;
    lemma_selecting_valid(s, None, t.screen);
    match s.screen {
        ScreenView::Snapshot => match event {
            Event::Press(key) => {
                match reply {
                    ReplyView::Tree(child) => lemma_entered_valid(s, child),
                    ReplyView::Sizes(found) => {
                        lemma_refilled_valid(
                            s,
                            s.numeric,
                            absorbed(s.cache, found, found.len() as int),
                        );
                    },
                    ReplyView::Selection(row) => lemma_selecting_valid(s, row, s.screen),
                    _ => {},
                }
                lemma_gone_back_valid(s);
                lemma_refilled_valid(s, !s.numeric, s.cache);
                lemma_refilled_valid(s, s.numeric, Map::empty());
            },
            Event::Other => {},
        },
        _ => {},
    }
}


/// Entering a directory and going back gives the state that was left: the
/// same listing, identifier, path and selected row, and with them the same
/// table, stack and cache.
pub proof fn lemma_enter_then_goback(s: SnapshotView, child: Seq<EntryView>)
    requires
        s.valid(),
        s.selected_subtree() is Some,
    ensures
        !s.entered(child).at_root(),
        s.entered(child).gone_back() == s,
        s.entered(child).tree == child,
        s.entered(child).tree_id == s.selected_subtree()->0,
{
    let e = s.entered(child);
    let b = e.gone_back();
    assert(b.path =~= s.path);
    assert(b.trees =~= s.trees);
    assert(b.table == s.table);
}

/// On its way into a directory and back, the browser is as deep as its
/// path is long, and one deeper inside than outside.
pub proof fn lemma_depth_follows_path(s: SnapshotView, child: Seq<EntryView>)
    requires
        s.valid(),
    ensures
        s.trees.len() == s.path.len(),
        s.entered(child).trees.len() == s.entered(child).path.len(),
        s.gone_back().trees.len() == s.gone_back().path.len(),
        s.selected_subtree() is Some ==> s.entered(child).trees.len() == s.trees.len() + 1,
        !s.at_root() ==> s.gone_back().trees.len() == s.trees.len() - 1,
        initial(s.id, s.root, s.tree, s.cache, s.cold, s.absolute).trees.len() == 0,
{
    lemma_entered_valid(s, child);
    lemma_gone_back_valid(s);
}

/// Showing owners the other way twice shows them as before: the rows, the
/// title and the footer are those that were there.
pub proof fn lemma_toggle_twice(s: SnapshotView)
    requires
        s.valid(),
    ensures
        s.toggled().toggled().numeric == s.numeric,
        s.toggled().toggled().table.rows == s.table.rows,
        s.toggled().toggled().table.title == s.table.title,
        s.toggled().toggled().table.footer == s.table.footer,
        s.toggled().toggled() == s.refreshed(),
        s.table.selected is Some || s.tree.len() == 0 ==> s.toggled().toggled() == s,
{
}

/// Showing owners the other way fetches nothing and changes nothing but
/// the table and the way itself.
pub proof fn lemma_toggle_is_display_only(s: SnapshotView)
    ensures
        s.toggled() == (SnapshotView { numeric: !s.numeric, table: s.toggled().table, ..s }),
        s.screen is Snapshot ==> s.asked(Event::Press(Key::Char('n'))) == Request::Nothing,
{
}

/// One event moves the screen between browsing and at most one other
/// mode, and where the mode changes nothing else does. While another mode
/// than browsing is active, an event changes nothing but the mode.
pub proof fn lemma_one_mode_at_a_time(s: SnapshotView, event: Event, reply: ReplyView)
    ensures
        ({
            let t = s.step(event, reply).0;
            &&& (s.screen is Snapshot || t.screen is Snapshot || t.screen == s.screen)
            &&& (t.screen != s.screen ==> t == s.with_screen(t.screen))
            &&& (!(s.screen is Snapshot) ==> t == s.with_screen(t.screen))
        }),
{
}

/// The quit key opens the exit prompt and changes nothing else. Accepting
/// the prompt then leaves the program; declining it gives the state in
/// which the key was pressed.
pub proof fn lemma_exit_confirmation(
    s: SnapshotView,
    first: ReplyView,
    event: Event,
    quit: Key,
)
    requires
        s.screen is Snapshot,
        quit == Key::Esc || quit == Key::Char('q'),
    ensures
        ({
            let asking = s.step(Event::Press(quit), first);
            &&& asking.1 == ResultView::Stay
            &&& asking.0 == s.with_screen(ScreenView::PromptExit(exit_popup()))
            &&& asking.0.asked(event) == Request::Prompt
            &&& asking.0.step(event, ReplyView::Prompt(PromptResult::Accept)).1 == ResultView::Exit
            &&& asking.0.step(event, ReplyView::Prompt(PromptResult::Cancel)) == (
                s,
                ResultView::Stay,
            )
            &&& asking.0.step(event, ReplyView::Prompt(PromptResult::Pending)) == (
                asking.0,
                ResultView::Stay,
            )
        }),
{
}

/// Going back at the root changes nothing and says that the browser is to
/// be left; the key for it hands the cache to the caller as it was.
pub proof fn lemma_leaving_at_the_root(s: SnapshotView, reply: ReplyView, back: Key)
    requires
        s.screen is Snapshot,
        s.at_root(),
        back == Key::Backspace || back == Key::Left,
    ensures
        s.gone_back() == s,
        s.step(Event::Press(back), reply).1 == ResultView::Return(s.cache),
{
}

/// Away from the root the key for going back leaves the browser on and
/// the cache as it was.
pub proof fn lemma_staying_below_the_root(s: SnapshotView, reply: ReplyView, back: Key)
    requires
        s.screen is Snapshot,
        !s.at_root(),
        back == Key::Backspace || back == Key::Left,
    ensures
        s.step(Event::Press(back), reply) == (s.gone_back(), ResultView::Stay),
        s.step(Event::Press(back), reply).0.cache == s.cache,
{
}

/// No more than the limit is read of a file, and all of a file that is
/// not larger.
pub proof fn lemma_read_length(size: u64)
    ensures
        read_length(size) <= VIEW_LIMIT,
        size <= VIEW_LIMIT ==> read_length(size) == size,
        size > VIEW_LIMIT ==> read_length(size) == VIEW_LIMIT,
{
}

/// Bytes that are no text never open the file viewer, nor does anything
/// while the repository is cold.
pub proof fn lemma_viewer_needs_text(s: SnapshotView, bytes: Seq<u8>)
    ensures
        !valid_utf8(bytes) ==> s.viewing(bytes) == s,
        s.cold ==> s.viewing(bytes) == s,
        s.cold ==> s.asked(Event::Press(Key::Char('v'))) == Request::Nothing || !(s.screen is Snapshot),
        s.viewing(bytes) == s || s.viewing(bytes).screen is ShowFile,
{
}

/// Every event but the one that hands the cache to the caller keeps each
/// total that is known: a total, once known, is never computed again.
pub proof fn lemma_step_keeps_totals(s: SnapshotView, event: Event, reply: ReplyView)
    ensures
        ({
            let (t, result) = s.step(event, reply);
            match result {
                ResultView::Return(cache) => cache == s.cache,
                _ => keeps(s.cache, t.cache),
            }
        }),
{
    match reply {
        ReplyView::Sizes(found) => {
            lemma_absorbed_keeps(s.cache, found, found.len() as int);
        },
        _ => {},
    }
}

/// Recording what was found gives each identifier that was found a
/// total, and keeps each total that was known.
pub proof fn lemma_sized_knows(s: SnapshotView, found: Seq<(TreeId, Summary)>)
    ensures
        keeps(s.cache, s.sized(found).cache),
        forall|i: int| 0 <= i < found.len() ==> s.sized(found).cache.contains_key(#[trigger] found[i].0),
{
    lemma_absorbed_keeps(s.cache, found, found.len() as int);
}

} // verus!
