//! Text as the screens show it: numbers, padding and plurals.

use bytesize::ByteSize;
use vstd::prelude::*;
use vstd::string::*;
use vstd::utf8::encode_utf8_decode_utf8;

use crate::path::same_bytes;

verus! {

/// The decimal digit of `d`.
pub open spec fn digit(d: nat) -> char
    recommends
        d < 10,
{
    "0123456789"@[d as int]
}

/// The decimal digits of `n`, without leading zeros.
pub open spec fn decimal(n: nat) -> Seq<char>
    decreases n,
{
    if n < 10 {
        seq![digit(n)]
    } else {
        decimal(n / 10).push(digit(n % 10))
    }
}

/// `n` spaces.
pub open spec fn spaces(n: nat) -> Seq<char> {
    Seq::new(n, |i: int| ' ')
}

/// `text`, filled up with spaces on the right to `width` characters.
pub open spec fn padded_right(text: Seq<char>, width: nat) -> Seq<char> {
    if text.len() < width {
        text + spaces((width - text.len()) as nat)
    } else {
        text
    }
}

/// `text`, filled up with spaces on the left to `width` characters.
pub open spec fn padded_left(text: Seq<char>, width: nat) -> Seq<char> {
    if text.len() < width {
        spaces((width - text.len()) as nat) + text
    } else {
        text
    }
}

/// The ending that makes a noun agree with `n`.
pub open spec fn plural_of(n: nat) -> Seq<char> {
    if n == 1 {
        ""@
    } else {
        "s"@
    }
}

/// The human-readable form in which bytesize shows a number of bytes.
pub uninterp spec fn size_shown(bytes: u64) -> Seq<char>;

/// Calls `ByteSize::b` and the `to_string` of its result. The text depends on
/// the number alone. Below 1024 it is the number, a space and `B`; from there
/// on it is a rounded count of a larger unit, which is not spelled out here.
#[verifier::external_body]
pub(crate) fn size_text(bytes: u64) -> (text: String)
    ensures
        text@ == size_shown(bytes),
        bytes < 1024 ==> text@ == decimal(bytes as nat) + " B"@,
{
    ByteSize::b(bytes).to_string()
}

/// Whether two texts are equal.
pub fn same_text(a: &str, b: &str) -> (same: bool)
    ensures
        same == (a@ == b@),
{
    proof {
        encode_utf8_decode_utf8(a@);
        encode_utf8_decode_utf8(b@);
    }
    same_bytes(a.as_bytes(), b.as_bytes())
}

fn digit_text(d: u64) -> (text: &'static str)
    requires
        d < 10,
    ensures
        text@ == seq![digit(d as nat)],
{
    proof {
        reveal_strlit("0123456789");
        reveal_strlit("0");
        reveal_strlit("1");
        reveal_strlit("2");
        reveal_strlit("3");
        reveal_strlit("4");
        reveal_strlit("5");
        reveal_strlit("6");
        reveal_strlit("7");
        reveal_strlit("8");
        reveal_strlit("9");
    }
    let text = if d == 0 {
        "0"
    } else if d == 1 {
        "1"
    } else if d == 2 {
        "2"
    } else if d == 3 {
        "3"
    } else if d == 4 {
        "4"
    } else if d == 5 {
        "5"
    } else if d == 6 {
        "6"
    } else if d == 7 {
        "7"
    } else if d == 8 {
        "8"
    } else {
        "9"
    };
    assert(text@ =~= seq![digit(d as nat)]);
    text
}

/// Appends the decimal digits of `n`.
pub fn push_decimal(out: &mut String, n: u64)
    ensures
        final(out)@ == old(out)@ + decimal(n as nat),
    decreases n,
{
    let ghost before = out@;
    if n >= 10 {
        push_decimal(out, n / 10);
    }
    out.append(digit_text(n % 10));
    proof {
        if n >= 10 {
            assert(out@ =~= before + decimal((n / 10) as nat).push(digit((n % 10) as nat)));
        }
    }
}

/// Appends `n` spaces.
fn push_spaces(out: &mut String, n: usize)
    ensures
        final(out)@ == old(out)@ + spaces(n as nat),
{
    let ghost before = out@;
    let mut i: usize = 0;
    proof {
        reveal_strlit(" ");
        assert(out@ =~= before + spaces(0));
    }
    while i < n
        invariant
            i <= n,
            out@ == before + spaces(i as nat),
        decreases n - i,
    {
        proof {
            reveal_strlit(" ");
        }
        out.append(" ");
        i = i + 1;
        assert(out@ =~= before + spaces(i as nat));
    }
}

/// `text`, filled up with spaces on the right to `width` characters.
pub fn pad_right(text: &str, width: usize) -> (padded: String)
    ensures
        padded@ == padded_right(text@, width as nat),
{
    let len: usize = text.unicode_len();
    let mut padded = text.to_owned();
    if len < width {
        push_spaces(&mut padded, width - len);
    }
    padded
}

/// `text`, filled up with spaces on the left to `width` characters.
pub fn pad_left(text: &str, width: usize) -> (padded: String)
    ensures
        padded@ == padded_left(text@, width as nat),
{
    let len: usize = text.unicode_len();
    let mut padded = String::new();
    if len < width {
        push_spaces(&mut padded, width - len);
    }
    padded.append(text);
    assert(padded@ =~= padded_left(text@, width as nat));
    padded
}

/// The ending that makes a noun agree with `n`.
pub fn plural(n: usize) -> (ending: &'static str)
    ensures
        ending@ == plural_of(n as nat),
{
    if n == 1 {
        ""
    } else {
        "s"
    }
}

} // verus!
