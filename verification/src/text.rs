//! Text building blocks: concatenation of rendered parts, numerals, and the
//! upper-case form of names used for constants.

use heck::ShoutySnakeCase;
use vstd::arithmetic::power2::{lemma2_to64, lemma_pow2_adds, lemma_pow2_pos, pow2};
use vstd::prelude::*;
use vstd::string::*;

verus! {

/// The SHOUTY_SNAKE_CASE form of a name, as the `heck` crate computes it.
pub uninterp spec fn shouty_snake_case(name: Seq<char>) -> Seq<char>;

/// Calls `heck::ShoutySnakeCase::to_shouty_snake_case` on a string slice.
///
/// The conversion splits the input into words along Unicode rules and is not
/// restated here; the contract only gives its result the name
/// [`shouty_snake_case`], which is sound because the result depends on the
/// input text alone.
#[verifier::external_body]
pub(crate) fn to_shouty_snake_case(name: &str) -> (shouty: String)
    ensures
        shouty@ == shouty_snake_case(name@),
{
    name.to_shouty_snake_case()
}

/// All parts one after another, in order.
pub open spec fn concat_all(parts: Seq<Seq<char>>) -> Seq<char>
    decreases parts.len(),
{
    if parts.len() == 0 {
        Seq::empty()
    } else {
        concat_all(parts.drop_last()) + parts.last()
    }
}

/// Appending one more part appends its text; no parts give no text.
pub proof fn lemma_concat_all_step(parts: Seq<Seq<char>>, i: int)
    requires
        0 <= i <= parts.len(),
    ensures
        concat_all(parts.take(0)) == Seq::<char>::empty(),
        parts.take(parts.len() as int) == parts,
        i < parts.len() ==> concat_all(parts.take(i + 1)) == concat_all(parts.take(i)) + parts[i],
{
    assert(parts.take(parts.len() as int) =~= parts);
    if i < parts.len() {
        assert(parts.take(i + 1).drop_last() =~= parts.take(i));
    }
}

/// The text of a single digit below sixteen, lower case.
pub open spec fn digit(d: nat) -> Seq<char> {
    if d == 0 {
        "0"@
    } else if d == 1 {
        "1"@
    } else if d == 2 {
        "2"@
    } else if d == 3 {
        "3"@
    } else if d == 4 {
        "4"@
    } else if d == 5 {
        "5"@
    } else if d == 6 {
        "6"@
    } else if d == 7 {
        "7"@
    } else if d == 8 {
        "8"@
    } else if d == 9 {
        "9"@
    } else if d == 10 {
        "a"@
    } else if d == 11 {
        "b"@
    } else if d == 12 {
        "c"@
    } else if d == 13 {
        "d"@
    } else if d == 14 {
        "e"@
    } else {
        "f"@
    }
}

/// `n` in decimal, most significant digit first, without leading zeros.
pub open spec fn decimal(n: nat) -> Seq<char>
    decreases n,
{
    if n < 10 {
        digit(n)
    } else {
        decimal(n / 10) + digit(n % 10)
    }
}

/// `n` in lower-case hexadecimal, most significant digit first, without a
/// prefix or leading zeros.
pub open spec fn hex(n: nat) -> Seq<char>
    decreases n,
{
    if n < 16 {
        digit(n)
    } else {
        hex(n / 16) + digit(n % 16)
    }
}

/// The text of a single digit below sixteen.
fn digit_str(d: u64) -> (s: &'static str)
    requires
        d < 16,
    ensures
        s@ == digit(d as nat),
{
    if d == 0 {
        "0"
    } else if d == 1 {
        "1"
    } else if d == 2 {
        "2"
    } else if d == 3 {
        "3"
    } else if d == 4 {
        "4"
    } else if d == 5 {
        "5"
    } else if d == 6 {
        "6"
    } else if d == 7 {
        "7"
    } else if d == 8 {
        "8"
    } else if d == 9 {
        "9"
    } else if d == 10 {
        "a"
    } else if d == 11 {
        "b"
    } else if d == 12 {
        "c"
    } else if d == 13 {
        "d"
    } else if d == 14 {
        "e"
    } else {
        "f"
    }
}

/// Appends `n` in decimal.
pub fn push_decimal(src: &mut String, n: u64)
    ensures
        final(src)@ == old(src)@ + decimal(n as nat),
    decreases n,
{
    if n >= 10 {
        push_decimal(src, n / 10);
    }
    src.append(digit_str(n % 10));
}

/// Appends `n` in lower-case hexadecimal, without a prefix.
pub fn push_hex(src: &mut String, n: u64)
    ensures
        final(src)@ == old(src)@ + hex(n as nat),
    decreases n,
{
    if n >= 16 {
        push_hex(src, n / 16);
    }
    src.append(digit_str(n % 16));
}

/// `n` zeros.
pub open spec fn zeros(n: nat) -> Seq<char>
    decreases n,
{
    if n == 0 {
        Seq::empty()
    } else {
        zeros((n - 1) as nat) + "0"@
    }
}

/// A single bit in hexadecimal is one of the digits 1, 2, 4 and 8, followed
/// by one zero for every four positions below the bit.
pub proof fn lemma_hex_of_bit(position: nat)
    ensures
        hex(pow2(position)) == digit(pow2(position % 4)) + zeros(position / 4),
        pow2(position % 4) == if position % 4 == 0 {
            1nat
        } else if position % 4 == 1 {
            2nat
        } else if position % 4 == 2 {
            4nat
        } else {
            8nat
        },
    decreases position,
{
    lemma2_to64();
    if position < 4 {
        assert(digit(pow2(position)) + zeros(0) =~= digit(pow2(position)));
    } else {
        let below = (position - 4) as nat;
        lemma_hex_of_bit(below);
        lemma_pow2_adds(below, 4);
        assert(pow2(position) == pow2(below) * 16);
        lemma_pow2_pos(below);
        assert(pow2(position) / 16 == pow2(below));
        assert(pow2(position) % 16 == 0);
        assert(below % 4 == position % 4);
        assert(below / 4 + 1 == position / 4);
        assert(hex(pow2(position)) == hex(pow2(below)) + digit(0));
        assert(zeros(position / 4) == zeros(below / 4) + "0"@);
        assert(hex(pow2(position)) =~= digit(pow2(position % 4)) + zeros(position / 4));
    }
}

} // verus!
