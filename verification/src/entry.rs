//! The entries of a directory as the browser reads them: plain values, with
//! a mathematical view of each.

use crate::text::{lemma_decimal_len, lemma_padded_len, padded, padded_text};
use vstd::prelude::*;
use vstd::string::*;

verus! {

/// The identifier of one directory listing: 256 bits, held as two words.
#[derive(Clone, Copy, Debug, PartialEq, Eq, Structural, Hash)]
pub struct TreeId {
    pub hi: u128,
    pub lo: u128,
}

/// What an entry is. A directory names the listing of what it holds.
#[derive(Clone, Copy, Debug, PartialEq, Eq, Structural)]
pub enum EntryKind {
    File,
    Dir(TreeId),
    Other,
}

/// A moment on the calendar and the clock, as its fields are written.
#[derive(Clone, Copy, Debug, PartialEq, Eq, Structural)]
pub struct Timestamp {
    pub year: u16,
    pub month: u8,
    pub day: u8,
    pub hour: u8,
    pub minute: u8,
    pub second: u8,
}

impl Timestamp {
    /// The moment written as year-month-day, a space, and
    /// hour:minute:second: four digits for the year, two for each other
    /// field, more where a field's numeral is longer.
    pub open spec fn text(self) -> Seq<char> {
        padded_text(self.year as nat, 4) + seq!['-'] + padded_text(self.month as nat, 2)
            + seq!['-'] + padded_text(self.day as nat, 2) + seq![' '] + padded_text(
            self.hour as nat,
            2,
        ) + seq![':'] + padded_text(self.minute as nat, 2) + seq![':'] + padded_text(
            self.second as nat,
            2,
        )
    }

    /// Writes the moment as `text` describes it.
    pub fn format(&self) -> (s: String)
        ensures
            s@ == self.text(),
    {
        proof {
            reveal_strlit("-");
            reveal_strlit(" ");
            reveal_strlit(":");
        }
        let mut s = padded(self.year as u64, 4);
        s.append("-");
        s.append(padded(self.month as u64, 2).as_str());
        s.append("-");
        s.append(padded(self.day as u64, 2).as_str());
        s.append(" ");
        s.append(padded(self.hour as u64, 2).as_str());
        s.append(":");
        s.append(padded(self.minute as u64, 2).as_str());
        s.append(":");
        s.append(padded(self.second as u64, 2).as_str());
        assert(s@ =~= self.text());
        s
    }
}

/// A moment of the first ten thousand years, with all other fields below a
/// hundred, is written with nineteen characters.
pub proof fn lemma_time_text_len(t: Timestamp)
    requires
        t.year < 10000,
        t.month < 100,
        t.day < 100,
        t.hour < 100,
        t.minute < 100,
        t.second < 100,
    ensures
        t.text().len() == 19,
{
    lemma_decimal_len(t.year as nat);
    lemma_decimal_len(t.month as nat);
    lemma_decimal_len(t.day as nat);
    lemma_decimal_len(t.hour as nat);
    lemma_decimal_len(t.minute as nat);
    lemma_decimal_len(t.second as nat);
    lemma_padded_len(t.year as nat, 4);
    lemma_padded_len(t.month as nat, 2);
    lemma_padded_len(t.day as nat, 2);
    lemma_padded_len(t.hour as nat, 2);
    lemma_padded_len(t.minute as nat, 2);
    lemma_padded_len(t.second as nat, 2);
}

/// One child of a directory.
#[derive(Debug, PartialEq, Eq)]
pub struct Entry {
    pub name: String,
    pub kind: EntryKind,
    /// The size that the entry itself declares, in bytes.
    pub size: u64,
    /// The permissions, already written out.
    pub mode: String,
    pub user: Option<String>,
    pub group: Option<String>,
    pub uid: Option<u32>,
    pub gid: Option<u32>,
    pub mtime: Option<Timestamp>,
}

/// What an `Entry` holds, as mathematical values.
pub struct EntryView {
    pub name: Seq<char>,
    pub kind: EntryKind,
    pub size: u64,
    pub mode: Seq<char>,
    pub user: Option<Seq<char>>,
    pub group: Option<Seq<char>>,
    pub uid: Option<u32>,
    pub gid: Option<u32>,
    pub mtime: Option<Timestamp>,
}

/// The view of a string that may be absent.
pub open spec fn text_view(text: Option<String>) -> Option<Seq<char>> {
    match text {
        Some(s) => Some(s@),
        None => None,
    }
}

/// Copies a string that may be absent.
pub fn copy_text(text: &Option<String>) -> (r: Option<String>)
    ensures
        text_view(r) == text_view(*text),
{
    match text {
        Some(s) => Some(s.clone()),
        None => None,
    }
}

impl View for Entry {
    type V = EntryView;

    open spec fn view(&self) -> EntryView {
        EntryView {
            name: self.name@,
            kind: self.kind,
            size: self.size,
            mode: self.mode@,
            user: text_view(self.user),
            group: text_view(self.group),
            uid: self.uid,
            gid: self.gid,
            mtime: self.mtime,
        }
    }
}

impl Clone for Entry {
    fn clone(&self) -> (r: Self)
        ensures
            r@ == self@,
    {
        Entry {
            name: self.name.clone(),
            kind: self.kind,
            size: self.size,
            mode: self.mode.clone(),
            user: copy_text(&self.user),
            group: copy_text(&self.group),
            uid: self.uid,
            gid: self.gid,
            mtime: self.mtime,
        }
    }
}

impl Entry {
    /// A regular file of `size` bytes, with nothing else known of it.
    pub fn file(name: String, size: u64) -> (e: Entry)
        ensures
            e@ == (EntryView {
                name: name@,
                kind: EntryKind::File,
                size,
                mode: Seq::<char>::empty(),
                user: None,
                group: None,
                uid: None,
                gid: None,
                mtime: None,
            }),
    {
        Entry {
            name,
            kind: EntryKind::File,
            size,
            mode: String::new(),
            user: None,
            group: None,
            uid: None,
            gid: None,
            mtime: None,
        }
    }

    /// A directory whose listing is `subtree`, with nothing else known of it.
    pub fn dir(name: String, subtree: TreeId) -> (e: Entry)
        ensures
            e@ == (EntryView {
                name: name@,
                kind: EntryKind::Dir(subtree),
                size: 0,
                mode: Seq::<char>::empty(),
                user: None,
                group: None,
                uid: None,
                gid: None,
                mtime: None,
            }),
    {
        Entry {
            name,
            kind: EntryKind::Dir(subtree),
            size: 0,
            mode: String::new(),
            user: None,
            group: None,
            uid: None,
            gid: None,
            mtime: None,
        }
    }

    /// Whether the entry is a directory.
    pub fn is_dir(&self) -> (b: bool)
        ensures
            b == (self.kind is Dir),
    {
        match self.kind {
            EntryKind::Dir(_) => true,
            _ => false,
        }
    }

    /// Whether the entry is a regular file.
    pub fn is_file(&self) -> (b: bool)
        ensures
            b == (self.kind is File),
    {
        match self.kind {
            EntryKind::File => true,
            _ => false,
        }
    }

    /// The listing that the entry leads to, if it is a directory.
    pub fn subtree(&self) -> (id: Option<TreeId>)
        ensures
            id == subtree_of(self.kind),
    {
        match self.kind {
            EntryKind::Dir(id) => Some(id),
            _ => None,
        }
    }
}

/// The listing that an entry of this kind leads to.
pub open spec fn subtree_of(kind: EntryKind) -> Option<TreeId> {
    match kind {
        EntryKind::Dir(id) => Some(id),
        _ => None,
    }
}

/// The contents of one directory, in their order.
#[derive(Debug, PartialEq, Eq)]
pub struct Tree {
    pub nodes: Vec<Entry>,
}

impl View for Tree {
    type V = Seq<EntryView>;

    open spec fn view(&self) -> Seq<EntryView> {
        Seq::new(self.nodes@.len(), |i: int| self.nodes@[i]@)
    }
}

impl Tree {
    /// A directory that holds nothing.
    pub fn new() -> (t: Tree)
        ensures
            t@ == Seq::<EntryView>::empty(),
    {
        let t = Tree { nodes: Vec::new() };
        assert(t@ =~= Seq::<EntryView>::empty());
        t
    }

    /// The number of entries.
    pub fn len(&self) -> (n: usize)
        ensures
            n == self@.len(),
    {
        self.nodes.len()
    }

    /// The entry at `index`.
    pub fn get(&self, index: usize) -> (e: Option<&Entry>)
        ensures
            index < self@.len() ==> e is Some && e->0@ == self@[index as int],
            index >= self@.len() ==> e is None,
    {
        if index < self.nodes.len() {
            Some(&self.nodes[index])
        } else {
            None
        }
    }
}

} // verus!
