//! Decimal digits.

use vstd::prelude::*;

verus! {

/// The decimal digits of `n`, lowest first. Zero has none.
pub open spec fn digits_low_first(n: nat) -> Seq<u8>
    decreases n,
{
    if n == 0 {
        Seq::empty()
    } else {
        seq![(n % 10) as u8] + digits_low_first(n / 10)
    }
}

/// `digits` followed by as many zeros as it lacks to `width`.
pub open spec fn zero_padded(digits: Seq<u8>, width: nat) -> Seq<u8> {
    if digits.len() < width {
        digits + Seq::new((width - digits.len()) as nat, |k: int| 0u8)
    } else {
        digits
    }
}

/// Appends the decimal digits of `val` to `out`, lowest first, fills `out`
/// with zeros up to three entries, and then reverses all of `out`. Called
/// with an empty `out`, it leaves the digits of `val` highest first, with
/// leading zeros where `val` is below 100.
pub fn get_digits(val: u16, out: &mut Vec<u8>)
    ensures
        final(out)@ == zero_padded(old(out)@ + digits_low_first(val as nat), 3).reverse(),
{
    let mut rest = val;
    while rest > 0
        invariant
            out@ + digits_low_first(rest as nat) == old(out)@ + digits_low_first(val as nat),
        decreases rest,
    {
        let digit = rest % 10;
        proof {
            let higher = digits_low_first((rest / 10) as nat);
            assert(digits_low_first(rest as nat) == seq![digit as u8] + higher);
            assert(out@.push(digit as u8) + higher =~= out@ + (seq![digit as u8] + higher));
        }
        out.push(digit as u8);
        rest /= 10;
    }
    let ghost digits = out@;
    assert(digits =~= old(out)@ + digits_low_first(val as nat)) by {
        assert(digits_low_first(0) =~= Seq::<u8>::empty());
    }
    while out.len() < 3
        invariant
            digits.len() <= out@.len(),
            out@.len() <= 3 || out@.len() == digits.len(),
            out@ == digits + Seq::new((out@.len() - digits.len()) as nat, |k: int| 0u8),
        decreases 3 - out@.len(),
    {
        out.push(0);
        assert(out@ =~= digits + Seq::new((out@.len() - digits.len()) as nat, |k: int| 0u8));
    }
    assert(out@ =~= zero_padded(digits, 3));
    reverse(out);
}

/// Reverses `out` in place.
fn reverse(out: &mut Vec<u8>)
    ensures
        final(out)@ == old(out)@.reverse(),
{
    let len = out.len();
    let mut low: usize = 0;
    while low < len / 2
        invariant
            len == out@.len(),
            len == old(out)@.len(),
            low <= len / 2,
            forall|k: int| 0 <= k < low ==> out@[k] == old(out)@[len - 1 - k],
            forall|k: int| len - low <= k < len ==> out@[k] == old(out)@[len - 1 - k],
            forall|k: int| low <= k < len - low ==> out@[k] == old(out)@[k],
        decreases len / 2 - low,
    {
        let high = len - 1 - low;
        let first = out[low];
        let second = out[high];
        out[low] = second;
        out[high] = first;
        low += 1;
    }
    assert(out@ =~= old(out)@.reverse());
}

/// The digits that `get_digits` leaves of a value below 1000 in an empty
/// vector are its hundreds, tens and ones.
pub proof fn lemma_three_digits(val: nat)
    requires
        val < 1000,
    ensures
        zero_padded(Seq::<u8>::empty() + digits_low_first(val), 3).reverse() == seq![
            (val / 100) as u8,
            ((val / 10) % 10) as u8,
            (val % 10) as u8,
        ],
{
    reveal_with_fuel(digits_low_first, 4);
    let digits = Seq::<u8>::empty() + digits_low_first(val);
    assert(digits =~= digits_low_first(val));
    let hundreds = (val / 100) as u8;
    let tens = ((val / 10) % 10) as u8;
    let ones = (val % 10) as u8;
    if val == 0 {
        assert(digits =~= Seq::<u8>::empty());
    } else if val < 10 {
        assert(digits =~= seq![ones]);
    } else if val < 100 {
        assert(digits =~= seq![ones, tens]);
    } else {
        assert(digits =~= seq![ones, tens, hundreds]);
    }
    assert(zero_padded(digits, 3) =~= seq![ones, tens, hundreds]);
    assert(seq![ones, tens, hundreds].reverse() =~= seq![hundreds, tens, ones]);
}

} // verus!
