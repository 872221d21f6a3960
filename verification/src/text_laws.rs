//! What holds of every text that the screen is made of.

use vstd::prelude::*;

use crate::text::decimal;
use crate::text::pad_left;
use crate::text::pad_right;
use crate::text::padded_left;
use crate::text::padded_right;
use crate::text::plural;
use crate::text::plural_of;

verus! {

/// The number that a row of decimal digits stands for.
pub open spec fn number_of(digits: Seq<char>) -> int
    decreases digits.len(),
{
    if digits.len() == 0 {
        0
    } else {
        10 * number_of(digits.drop_last()) + (digits.last() as int - '0' as int)
    }
}

/// A number is written in decimal digits that stand for it, without a leading zero.
pub proof fn decimals_read_back(n: nat)
    ensures
        number_of(decimal(n)) == n,
        decimal(n).len() > 0,
        decimal(n).len() > 1 ==> decimal(n)[0] != '0',
        forall|i: int| 0 <= i < decimal(n).len() ==> '0' <= #[trigger] decimal(n)[i] <= '9',
    decreases n,
{
    reveal_strlit("0123456789");
    reveal_with_fuel(number_of, 2);
    let all = decimal(n);
    if n < 10 {
        assert(all.drop_last() =~= Seq::<char>::empty());
    } else {
        let before = decimal(n / 10);
        decimals_read_back(n / 10);
        assert(all.drop_last() =~= before);
        if before.len() == 1 {
            assert(before.drop_last() =~= Seq::<char>::empty());
            assert(number_of(before) == before[0] as int - '0' as int);
        }
    }
}

/// Different numbers are written differently.
pub proof fn decimals_tell_numbers_apart(a: nat, b: nat)
    requires
        decimal(a) == decimal(b),
    ensures
        a == b,
{
    decimals_read_back(a);
    decimals_read_back(b);
}

/// Padding on the right keeps the text at the beginning and adds spaces up to the
/// width, and nothing where the text is as wide already.
pub proof fn padding_on_the_right(text: &str, width: usize, padded: String)
    requires
        call_ensures(pad_right, (text, width), padded),
    ensures
        text@.is_prefix_of(padded@),
        forall|i: int| text@.len() <= i < padded@.len() ==> #[trigger] padded@[i] == ' ',
        text@.len() <= width ==> padded@.len() == width,
        text@.len() >= width ==> padded@ == text@,
{
    assert(padded@ == padded_right(text@, width as nat));
    assert(padded@.subrange(0, text@.len() as int) =~= text@);
}

/// Padding on the left keeps the text at the end and adds spaces up to the width, and
/// nothing where the text is as wide already.
pub proof fn padding_on_the_left(text: &str, width: usize, padded: String)
    requires
        call_ensures(pad_left, (text, width), padded),
    ensures
        padded@.skip(padded@.len() - text@.len()) == text@,
        forall|i: int| 0 <= i < padded@.len() - text@.len() ==> #[trigger] padded@[i] == ' ',
        text@.len() <= width ==> padded@.len() == width,
        text@.len() >= width ==> padded@ == text@,
{
    assert(padded@ == padded_left(text@, width as nat));
    assert(padded@.skip(padded@.len() - text@.len()) =~= text@);
}

/// One is singular, and every other number is plural.
pub proof fn only_one_is_singular(n: usize, ending: &'static str)
    requires
        call_ensures(plural, (n,), ending),
    ensures
        n == 1 <==> ending@.len() == 0,
        n != 1 ==> ending@ == "s"@,
        ending@ == plural_of(n as nat),
{
    reveal_strlit("");
    reveal_strlit("s");
}

/// The ending of a noun tells whether a number is one.
pub proof fn the_ending_tells_one(n: nat)
    ensures
        n == 1 <==> plural_of(n).len() == 0,
        n != 1 ==> plural_of(n) == seq!['s'],
{
    reveal_strlit("");
    reveal_strlit("s");
    assert("s"@ =~= seq!['s']);
}

} // verus!
