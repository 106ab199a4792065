//! How the type and the permissions of an entry are written: one letter
//! for the type, then read, write and execute for the owner, the group and
//! everyone else.

use vstd::prelude::*;
use vstd::string::*;

verus! {

/// The types of entries that a listing tells apart.
#[derive(Clone, Copy, Debug, PartialEq, Eq, Structural)]
pub enum FileType {
    File,
    Dir,
    Symlink,
    Dev,
    Chardev,
    Fifo,
    Socket,
}

/// The letter that stands for a type.
pub open spec fn type_letter(file_type: FileType) -> char {
    match file_type {
        FileType::File => '-',
        FileType::Dir => 'd',
        FileType::Symlink => 'l',
        FileType::Dev => 'b',
        FileType::Chardev => 'c',
        FileType::Fifo => 'p',
        FileType::Socket => 's',
    }
}

/// `letter` where `mode` has a bit of `mask` set, a dash where it has none.
pub open spec fn flag_char(mode: u32, mask: u32, letter: char) -> char {
    if mode & mask != 0 {
        letter
    } else {
        '-'
    }
}

/// The nine characters of the permissions in `mode`.
pub open spec fn permission_text(mode: u32) -> Seq<char> {
    seq![
        flag_char(mode, 0o400, 'r'),
        flag_char(mode, 0o200, 'w'),
        flag_char(mode, 0o100, 'x'),
        flag_char(mode, 0o040, 'r'),
        flag_char(mode, 0o020, 'w'),
        flag_char(mode, 0o010, 'x'),
        flag_char(mode, 0o004, 'r'),
        flag_char(mode, 0o002, 'w'),
        flag_char(mode, 0o001, 'x'),
    ]
}

/// The nine question marks that stand for permissions that are not known.
pub open spec fn unknown_permissions() -> Seq<char> {
    Seq::new(9, |i: int| '?')
}

/// The letter of the type, then the permissions.
pub open spec fn mode_text(file_type: FileType, mode: Option<u32>) -> Seq<char> {
    seq![type_letter(file_type)] + match mode {
        Some(m) => permission_text(m),
        None => unknown_permissions(),
    }
}

/// Writes the letter of a type.
fn letter_str(file_type: FileType) -> (s: &'static str)
    ensures
        s@ == seq![type_letter(file_type)],
{
    proof {
        reveal_strlit("-");
        reveal_strlit("d");
        reveal_strlit("l");
        reveal_strlit("b");
        reveal_strlit("c");
        reveal_strlit("p");
        reveal_strlit("s");
    }
    let s: &'static str = match file_type {
        FileType::File => "-",
        FileType::Dir => "d",
        FileType::Symlink => "l",
        FileType::Dev => "b",
        FileType::Chardev => "c",
        FileType::Fifo => "p",
        FileType::Socket => "s",
    };
    assert(s@ =~= seq![type_letter(file_type)]);
    s
}

/// Writes one permission: `letter` where the bit is set, else a dash.
fn flag_str(mode: u32, mask: u32, letter: &'static str) -> (s: &'static str)
    requires
        letter@.len() == 1,
    ensures
        s@ == seq![flag_char(mode, mask, letter@[0])],
{
    proof {
        reveal_strlit("-");
    }
    let s: &'static str = if mode & mask != 0 {
        letter
    } else {
        "-"
    };
    assert(s@ =~= seq![flag_char(mode, mask, letter@[0])]);
    s
}

/// Writes the type and the permissions of an entry, ten characters in
/// all: the type's letter and three times `rwx`, with a dash for each
/// permission that is not given, or nine question marks where the
/// permissions are not known.
pub fn mode_str(file_type: FileType, mode: Option<u32>) -> (s: String)
    ensures
        s@ == mode_text(file_type, mode),
        s@.len() == 10,
{
    let mut s = String::from_str(letter_str(file_type));
    match mode {
        Some(m) => {
            proof {
                reveal_strlit("r");
                reveal_strlit("w");
                reveal_strlit("x");
            }
            s.append(flag_str(m, 0o400, "r"));
            s.append(flag_str(m, 0o200, "w"));
            s.append(flag_str(m, 0o100, "x"));
            s.append(flag_str(m, 0o040, "r"));
            s.append(flag_str(m, 0o020, "w"));
            s.append(flag_str(m, 0o010, "x"));
            s.append(flag_str(m, 0o004, "r"));
            s.append(flag_str(m, 0o002, "w"));
            s.append(flag_str(m, 0o001, "x"));
            assert(s@ =~= mode_text(file_type, mode));
        },
        None => {
            proof {
                reveal_strlit("?????????");
            }
            s.append("?????????");
            assert(s@ =~= mode_text(file_type, mode));
        },
    }
    s
}

} // verus!
