//! Text that the browser composes: decimal numerals, zero-padded fields,
//! paths written with `/` between their names, and the count of lines in a
//! file's bytes.

use vstd::prelude::*;
use vstd::string::*;
use vstd::utf8::{decode_utf8, valid_utf8};

verus! {

/// The character that stands for the decimal digit `d`.
pub open spec fn digit_char(d: nat) -> char {
    if d == 0 {
        '0'
    } else if d == 1 {
        '1'
    } else if d == 2 {
        '2'
    } else if d == 3 {
        '3'
    } else if d == 4 {
        '4'
    } else if d == 5 {
        '5'
    } else if d == 6 {
        '6'
    } else if d == 7 {
        '7'
    } else if d == 8 {
        '8'
    } else {
        '9'
    }
}

/// The decimal numeral of `n`: most significant digit first, no leading zero.
pub open spec fn decimal_text(n: nat) -> Seq<char>
    decreases n,
{
    if n < 10 {
        seq![digit_char(n)]
    } else {
        decimal_text(n / 10) + seq![digit_char(n % 10)]
    }
}

/// `count` zeros in a row.
pub open spec fn zeros(count: nat) -> Seq<char> {
    Seq::new(count, |i: int| '0')
}

/// The decimal numeral of `n`, with zeros in front until it has `width`
/// characters. A numeral that is already as long stays as it is.
pub open spec fn padded_text(n: nat, width: nat) -> Seq<char> {
    let digits = decimal_text(n);
    if digits.len() >= width {
        digits
    } else {
        zeros((width - digits.len()) as nat) + digits
    }
}

/// The names of `names` in order, with one `/` between neighbours.
pub open spec fn path_text(names: Seq<Seq<char>>) -> Seq<char>
    decreases names.len(),
{
    if names.len() == 0 {
        Seq::empty()
    } else if names.len() == 1 {
        names[0]
    } else {
        path_text(names.drop_last()) + seq!['/'] + names.last()
    }
}

/// How many of the first `upto` bytes are line feeds.
pub open spec fn line_feeds(bytes: Seq<u8>, upto: int) -> nat
    decreases upto,
{
    if upto <= 0 {
        0
    } else {
        line_feeds(bytes, upto - 1) + if bytes[upto - 1] == 10u8 {
            1nat
        } else {
            0nat
        }
    }
}

/// The number of lines in `bytes`: every line feed ends a line, and what
/// follows the last line feed is one more line unless it is empty.
pub open spec fn line_count(bytes: Seq<u8>) -> nat {
    let len = bytes.len() as int;
    line_feeds(bytes, len) + if len > 0 && bytes[len - 1] != 10u8 {
        1nat
    } else {
        0nat
    }
}

/// The views of the strings of `names`, in order.
pub open spec fn names_view(names: Seq<String>) -> Seq<Seq<char>> {
    Seq::new(names.len(), |i: int| names[i]@)
}

/// A numeral has one digit below ten, two below a hundred, three below a
/// thousand and four below ten thousand.
pub proof fn lemma_decimal_len(n: nat)
    ensures
        decimal_text(n).len() >= 1,
        n < 10 ==> decimal_text(n).len() == 1,
        10 <= n < 100 ==> decimal_text(n).len() == 2,
        100 <= n < 1000 ==> decimal_text(n).len() == 3,
        1000 <= n < 10000 ==> decimal_text(n).len() == 4,
    decreases n,
{
    if n >= 10 {
        lemma_decimal_len(n / 10);
    }
}

/// A padded numeral is as wide as asked for, or wider where the numeral
/// itself is, and ends with the numeral.
pub proof fn lemma_padded_len(n: nat, width: nat)
    ensures
        padded_text(n, width).len() >= width,
        decimal_text(n).len() <= width ==> padded_text(n, width).len() == width,
        decimal_text(n).len() >= width ==> padded_text(n, width) == decimal_text(n),
{
}

fn digit_str(d: u64) -> (s: &'static str)
    requires
        d < 10,
    ensures
        s@ == seq![digit_char(d as nat)],
{
    proof {
        reveal_strlit("0");
        reveal_strlit("1");
        reveal_strlit("2");
        reveal_strlit("3");
        reveal_strlit("4");
        reveal_strlit("5");
        reveal_strlit("6");
        reveal_strlit("7");
        reveal_strlit("8");
        reveal_strlit("9");
    }
    let s: &'static str = if d == 0 {
        "0"
    } else if d == 1 {
        "1"
    } else if d == 2 {
        "2"
    } else if d == 3 {
        "3"
    } else if d == 4 {
        "4"
    } else if d == 5 {
        "5"
    } else if d == 6 {
        "6"
    } else if d == 7 {
        "7"
    } else if d == 8 {
        "8"
    } else {
        "9"
    };
    assert(s@ =~= seq![digit_char(d as nat)]);
    s
}

/// Writes `n` as a decimal numeral.
pub fn decimal(n: u64) -> (s: String)
    ensures
        s@ == decimal_text(n as nat),
    decreases n,
{
    if n < 10 {
        String::from_str(digit_str(n))
    } else {
        let mut s = decimal(n / 10);
        s.append(digit_str(n % 10));
        s
    }
}

/// Writes `n` as a decimal numeral of at least `width` characters, with
/// zeros in front where the numeral is shorter.
pub fn padded(n: u64, width: usize) -> (s: String)
    ensures
        s@ == padded_text(n as nat, width as nat),
{
    let digits = decimal(n);
    let len: usize = digits.as_str().unicode_len();
    if len >= width {
        return digits;
    }
    let mut s = String::new();
    let mut i: usize = len;
    while i < width
        invariant
            len <= i <= width,
            s@ == zeros((i - len) as nat),
        decreases width - i,
    {
        proof {
            reveal_strlit("0");
        }
        s.append("0");
        i = i + 1;
        assert(s@ =~= zeros((i - len) as nat));
    }
    s.append(digits.as_str());
    s
}

/// Writes the names of `names` in order, with one `/` between neighbours.
pub fn join_path(names: &Vec<String>) -> (s: String)
    ensures
        s@ == path_text(names_view(names@)),
{
    let mut s = String::new();
    let mut i: usize = 0;
    while i < names.len()
        invariant
            i <= names.len(),
            s@ == path_text(names_view(names@).take(i as int)),
        decreases names.len() - i,
    {
        let ghost before = names_view(names@).take(i as int);
        let ghost after = names_view(names@).take(i + 1);
        proof {
            assert(after.drop_last() =~= before);
            assert(after.last() == names@[i as int]@);
        }
        if i > 0 {
            proof {
                reveal_strlit("/");
            }
            s.append("/");
        }
        s.append(names[i].as_str());
        proof {
            if i == 0 {
                assert(s@ =~= path_text(after));
            } else {
                assert(s@ =~= path_text(after));
            }
        }
        i = i + 1;
    }
    proof {
        assert(names_view(names@).take(names.len() as int) =~= names_view(names@));
    }
    s
}

/// Reads `bytes` as text. This is `String::from_utf8` of the standard
/// library, of which the contract claims, without proof, that it gives a
/// string exactly where the bytes are well-formed UTF-8, and that the
/// string then holds the characters that the bytes encode.
#[verifier::external_body]
pub(crate) fn utf8_text(bytes: Vec<u8>) -> (text: Option<String>)
    ensures
        text is Some <==> valid_utf8(bytes@),
        text matches Some(s) ==> s@ == decode_utf8(bytes@),
{
    String::from_utf8(bytes).ok()
}

/// Whether `path` is absolute on this machine. This is `Path::is_absolute`
/// of the standard library; what it answers depends on the platform, so
/// nothing is claimed of it.
#[verifier::external_body]
pub(crate) fn path_is_absolute(path: &str) -> bool {
    std::path::Path::new(path).is_absolute()
}

/// Counts the lines of `bytes`.
pub fn count_lines(bytes: &Vec<u8>) -> (n: usize)
    ensures
        n == line_count(bytes@),
{
    let len: usize = bytes.len();
    let mut feeds: usize = 0;
    let mut i: usize = 0;
    while i < len
        invariant
            i <= len,
            len == bytes.len(),
            feeds == line_feeds(bytes@, i as int),
            feeds <= i,
            i > 0 && bytes[i - 1] != 10u8 ==> feeds < i,
        decreases len - i,
    {
        if bytes[i] == 10u8 {
            feeds = feeds + 1;
        }
        i = i + 1;
    }
    if len > 0 && bytes[len - 1] != 10u8 {
        feeds + 1
    } else {
        feeds
    }
}

} // verus!
