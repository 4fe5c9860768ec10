//! Laws of the texts.
use vstd::prelude::*;

use crate::utils::text::{decimal, decimal_text, joined, signed_decimal};

verus! {

/// The number that a text of decimal digits stands for.
pub open spec fn value_of(text: Seq<char>) -> int
    decreases text.len(),
{
    if text.len() == 0 {
        0
    } else {
        10 * value_of(text.drop_last()) + (text.last() as int - '0' as int)
    }
}

/// The text is a number in decimal: digits, at least one, and no needless zero in front.
pub open spec fn is_decimal(text: Seq<char>) -> bool {
    &&& text.len() > 0
    &&& forall|i: int| 0 <= i < text.len() ==> '0' <= #[trigger] text[i] && text[i] <= '9'
    &&& text.len() > 1 ==> text[0] != '0'
}

/// The text reads as the number `n`.
pub open spec fn reads_as(text: Seq<char>, n: int) -> bool {
    is_decimal(text) && value_of(text) == n
}

/// The text reads as the number `n`, with a minus sign in front if it is negative.
pub open spec fn reads_as_signed(text: Seq<char>, n: int) -> bool {
    if n < 0 {
        &&& text.len() > 0
        &&& text[0] == '-'
        &&& reads_as(text.skip(1), -n)
    } else {
        reads_as(text, n)
    }
}

/// A number in decimal reads as that number.
pub proof fn lemma_decimal_reads(n: nat)
    ensures
        reads_as(decimal_text(n), n as int),
        n > 0 ==> decimal_text(n)[0] != '0',
    decreases n,
{
    let text = decimal_text(n);
    if n < 10 {
        assert(text.drop_last() =~= Seq::empty());
        assert(value_of(Seq::<char>::empty()) == 0);
        assert(text.last() as int == 48 + n);
    } else {
        lemma_decimal_reads(n / 10);
        assert(text.drop_last() =~= decimal_text(n / 10));
        assert(text.last() as int == 48 + n % 10);
        assert(text[0] == decimal_text(n / 10)[0]);
        assert forall|i: int| 0 <= i < text.len() implies '0' <= #[trigger] text[i] && text[i]
            <= '9' by {
            if i < text.len() - 1 {
                assert(text[i] == decimal_text(n / 10)[i]);
            }
        }
    }
}

/// A number is written so that it reads as itself.
pub proof fn numbers_are_read_back(n: u64, r: String)
    requires
        call_ensures(decimal, (n,), r),
    ensures
        is_decimal(r@),
        value_of(r@) == n,
{
    lemma_decimal_reads(n as nat);
}

/// Different numbers are written differently.
pub proof fn numbers_are_told_apart(a: u64, b: u64, r: String)
    requires
        call_ensures(decimal, (a,), r),
        call_ensures(decimal, (b,), r),
    ensures
        a == b,
{
    lemma_decimal_reads(a as nat);
    lemma_decimal_reads(b as nat);
}

/// A number with a sign is written so that it reads as itself.
pub proof fn signed_numbers_are_read_back(n: i32, r: String)
    requires
        call_ensures(signed_decimal, (n,), r),
    ensures
        n < 0 ==> r@.len() > 0 && r@[0] == '-' && is_decimal(r@.skip(1)) && value_of(r@.skip(1))
            == -(n as int),
        n >= 0 ==> is_decimal(r@) && value_of(r@) == n,
{
    lemma_signed_reads(n);
    assert(reads_as_signed(r@, n as int));
}

/// A number with a sign reads as that number.
pub proof fn lemma_signed_reads(n: i32)
    ensures
        reads_as_signed(crate::utils::text::signed_text(n as int), n as int),
{
    if n < 0 {
        let m = (-(n as int)) as nat;
        lemma_decimal_reads(m);
        let text = crate::utils::text::signed_text(n as int);
        assert(text.skip(1) =~= decimal_text(m));
    } else {
        lemma_decimal_reads(n as nat);
    }
}

/// Two joined texts are there one behind the other, whole and with nothing between.
pub proof fn joined_texts_are_kept(first: &str, second: &str, r: String)
    requires
        call_ensures(joined, (first, second), r),
    ensures
        r@.len() == first@.len() + second@.len(),
        r@.take(first@.len() as int) == first@,
        r@.skip(first@.len() as int) == second@,
{
    assert(r@.take(first@.len() as int) =~= first@);
    assert(r@.skip(first@.len() as int) =~= second@);
}

} // verus!
