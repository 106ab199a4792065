//! The table that shows a directory: one row for each entry, a title, a
//! footer with the totals, and the row that is selected.

use crate::entry::{text_view, Entry, EntryKind, EntryView, Timestamp, Tree, TreeId};
use crate::summary::{Summary, SummaryMap};
use crate::text::{decimal, decimal_text, join_path, names_view, path_text};
use vstd::prelude::*;
use vstd::string::*;

verus! {

/// One row of the table. The size is in bytes; how it is written out is
/// left to whoever draws the row.
#[derive(Debug, PartialEq, Eq)]
pub struct Row {
    pub name: String,
    pub size: u64,
    pub mode: String,
    pub user: String,
    pub group: String,
    pub time: String,
}

/// What a `Row` holds, as mathematical values.
pub struct RowView {
    pub name: Seq<char>,
    pub size: u64,
    pub mode: Seq<char>,
    pub user: Seq<char>,
    pub group: Seq<char>,
    pub time: Seq<char>,
}

impl View for Row {
    type V = RowView;

    open spec fn view(&self) -> RowView {
        RowView {
            name: self.name@,
            size: self.size,
            mode: self.mode@,
            user: self.user@,
            group: self.group@,
            time: self.time@,
        }
    }
}

/// What stands in a row for something unknown.
pub open spec fn unknown_text() -> Seq<char> {
    seq!['?']
}

/// How an owner is shown: by number where numbers are asked for, else by
/// name, and as unknown where the entry holds neither.
pub open spec fn owner_text(numeric: bool, id: Option<u32>, name: Option<Seq<char>>) -> Seq<char> {
    if numeric {
        match id {
            Some(n) => decimal_text(n as nat),
            None => unknown_text(),
        }
    } else {
        match name {
            Some(s) => s,
            None => unknown_text(),
        }
    }
}

/// How the time of the last change is shown.
pub open spec fn time_text(mtime: Option<Timestamp>) -> Seq<char> {
    match mtime {
        Some(t) => t.text(),
        None => unknown_text(),
    }
}

/// The row that shows `entry`.
pub open spec fn row_of(entry: EntryView, numeric: bool) -> RowView {
    RowView {
        name: entry.name,
        size: entry.size,
        mode: entry.mode,
        user: owner_text(numeric, entry.uid, entry.user),
        group: owner_text(numeric, entry.gid, entry.group),
        time: time_text(entry.mtime),
    }
}

/// The size that is shown for `entry`: for a directory whose total is
/// known, the size of that total; else the size that the entry declares.
pub open spec fn shown_size(entry: EntryView, cache: Map<TreeId, Summary>) -> u64 {
    match entry.kind {
        EntryKind::Dir(sub) => if cache.contains_key(sub) {
            cache[sub].size
        } else {
            entry.size
        },
        _ => entry.size,
    }
}

/// The rows that show `entries`.
pub open spec fn rows_of(entries: Seq<EntryView>, cache: Map<TreeId, Summary>, numeric: bool) -> Seq<
    RowView,
> {
    Seq::new(
        entries.len(),
        |i: int| RowView { size: shown_size(entries[i], cache), ..row_of(entries[i], numeric) },
    )
}

/// The footer's running total with one more entry: a directory whose total
/// is known adds that total, any other entry is counted by itself.
pub open spec fn with_shown(total: Summary, entry: EntryView, cache: Map<TreeId, Summary>) -> Summary {
    match entry.kind {
        EntryKind::Dir(sub) => if cache.contains_key(sub) {
            total.merged(cache[sub])
        } else {
            total.updated(entry)
        },
        _ => total.updated(entry),
    }
}

/// The footer's total of the first `upto` entries.
pub open spec fn shown_total(entries: Seq<EntryView>, cache: Map<TreeId, Summary>, upto: int) -> Summary
    decreases upto,
{
    if upto <= 0 {
        Summary::zero()
    } else {
        with_shown(shown_total(entries, cache, upto - 1), entries[upto - 1], cache)
    }
}

/// The title: the snapshot's name, a colon, and the path.
pub open spec fn title_text(id: Seq<char>, path: Seq<Seq<char>>) -> Seq<char> {
    id + seq![':'] + path_text(path)
}

/// The footer: the number of entries, the totals, and how owners are shown.
pub open spec fn footer_text(entries: nat, total: Summary, numeric: bool) -> Seq<char> {
    "total: "@ + decimal_text(entries) + ", files: "@ + decimal_text(total.files as nat)
        + ", dirs: "@ + decimal_text(total.dirs as nat) + ", size: "@ + decimal_text(
        total.size as nat,
    ) + " - "@ + if numeric {
        "numeric IDs"@
    } else {
        " Id names"@
    }
}

/// The row that is selected once the table is filled again: none in an
/// empty directory, else the row that was selected, or the first.
pub open spec fn kept_selection(entries: nat, selected: Option<usize>) -> Option<usize> {
    if entries == 0 {
        None
    } else {
        match selected {
            Some(i) => Some(i),
            None => Some(0usize),
        }
    }
}

/// The table on the screen.
#[derive(Debug, PartialEq, Eq)]
pub struct Table {
    pub rows: Vec<Row>,
    pub selected: Option<usize>,
    pub title: String,
    pub footer: String,
}

/// What a `Table` holds, as mathematical values.
pub struct TableView {
    pub rows: Seq<RowView>,
    pub selected: Option<usize>,
    pub title: Seq<char>,
    pub footer: Seq<char>,
}

impl View for Table {
    type V = TableView;

    open spec fn view(&self) -> TableView {
        TableView {
            rows: Seq::new(self.rows@.len(), |i: int| self.rows@[i]@),
            selected: self.selected,
            title: self.title@,
            footer: self.footer@,
        }
    }
}

/// The table that shows `entries` under the given title parts, with the
/// selection carried over from `selected`.
pub open spec fn rendered(
    entries: Seq<EntryView>,
    cache: Map<TreeId, Summary>,
    numeric: bool,
    id: Seq<char>,
    path: Seq<Seq<char>>,
    selected: Option<usize>,
) -> TableView {
    TableView {
        rows: rows_of(entries, cache, numeric),
        selected: kept_selection(entries.len(), selected),
        title: title_text(id, path),
        footer: footer_text(
            entries.len(),
            shown_total(entries, cache, entries.len() as int),
            numeric,
        ),
    }
}

/// Writes an owner as `owner_text` describes.
fn owner(numeric: bool, id: Option<u32>, name: &Option<String>) -> (s: String)
    ensures
        s@ == owner_text(numeric, id, text_view(*name)),
{
    proof {
        reveal_strlit("?");
    }
    if numeric {
        match id {
            Some(n) => decimal(n as u64),
            None => {
                let s = String::from_str("?");
                assert(s@ =~= unknown_text());
                s
            },
        }
    } else {
        match name {
            Some(s) => s.clone(),
            None => {
                let s = String::from_str("?");
                assert(s@ =~= unknown_text());
                s
            },
        }
    }
}

/// The row that shows `entry`, with its own declared size.
pub fn ls_row(entry: &Entry, numeric: bool) -> (row: Row)
    ensures
        row@ == row_of(entry@, numeric),
{
    proof {
        reveal_strlit("?");
    }
    let time = match entry.mtime {
        Some(t) => t.format(),
        None => {
            let s = String::from_str("?");
            assert(s@ =~= unknown_text());
            s
        },
    };
    Row {
        name: entry.name.clone(),
        size: entry.size,
        mode: entry.mode.clone(),
        user: owner(numeric, entry.uid, &entry.user),
        group: owner(numeric, entry.gid, &entry.group),
        time,
    }
}

/// Writes the title.
pub fn title(id: &String, path: &Vec<String>) -> (s: String)
    ensures
        s@ == title_text(id@, names_view(path@)),
{
    proof {
        reveal_strlit(":");
    }
    let mut s = id.clone();
    s.append(":");
    s.append(join_path(path).as_str());
    assert(s@ =~= title_text(id@, names_view(path@)));
    s
}

/// Writes the footer.
pub fn footer(entries: usize, total: Summary, numeric: bool) -> (s: String)
    ensures
        s@ == footer_text(entries as nat, total, numeric),
{
    let mut s = String::from_str("total: ");
    s.append(decimal(entries as u64).as_str());
    s.append(", files: ");
    s.append(decimal(total.files as u64).as_str());
    s.append(", dirs: ");
    s.append(decimal(total.dirs as u64).as_str());
    s.append(", size: ");
    s.append(decimal(total.size).as_str());
    s.append(" - ");
    if numeric {
        s.append("numeric IDs");
    } else {
        s.append(" Id names");
    }
    assert(s@ =~= footer_text(entries as nat, total, numeric));
    s
}

/// Fills the table for a directory: a row for each entry, the totals of
/// the footer, the title, and the selection carried over.
pub fn render(
    tree: &Tree,
    cache: &SummaryMap,
    numeric: bool,
    id: &String,
    path: &Vec<String>,
    selected: Option<usize>,
) -> (table: Table)
    ensures
        table@ == rendered(tree@, cache@, numeric, id@, names_view(path@), selected),
{
    let mut rows: Vec<Row> = Vec::new();
    let mut total = Summary::new();
    let mut i: usize = 0;
    while i < tree.nodes.len()
        invariant
            i <= tree.nodes.len(),
            rows@.len() == i,
            forall|j: int| 0 <= j < i ==> (#[trigger] rows@[j])@ == rows_of(tree@, cache@, numeric)[j],
            total == shown_total(tree@, cache@, i as int),
        decreases tree.nodes.len() - i,
    {
        let entry = &tree.nodes[i];
        assert(entry@ == tree@[i as int]);
        let mut row = ls_row(entry, numeric);
        let known = match entry.kind {
            EntryKind::Dir(sub) => cache.get(&sub),
            _ => None,
        };
        match known {
            Some(sum) => {
                total.merge(sum);
                row.size = sum.size;
            },
            None => {
                total.update(entry);
            },
        }
        rows.push(row);
        i = i + 1;
    }
    let kept = if tree.nodes.len() == 0 {
        None
    } else {
        match selected {
            Some(i) => Some(i),
            None => Some(0),
        }
    };
    let table = Table {
        rows,
        selected: kept,
        title: title(id, path),
        footer: footer(tree.nodes.len(), total, numeric),
    };
    assert(table@.rows =~= rows_of(tree@, cache@, numeric));
    table
}

} // verus!
