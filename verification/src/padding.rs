//! The padding width that is proposed for a given number of files.

use vstd::prelude::*;

verus! {

/// Ten to the power `k`.
pub open spec fn pow10(k: nat) -> nat
    decreases k,
{
    if k == 0 {
        1
    } else {
        10 * pow10((k - 1) as nat)
    }
}

/// The least `k` with `n <= pow10(k)`: the logarithm of `n` to base ten,
/// rounded up. For 0 it is 0.
pub open spec fn ceil_log10(n: nat) -> nat
    decreases n,
{
    if n <= 1 {
        0
    } else {
        1 + ceil_log10((n + 9) / 10)
    }
}

/// The width proposed for `total_files` files: 3 where there is none, else
/// one more than the rounded-up logarithm of their number.
pub open spec fn auto_padding(total_files: nat) -> nat {
    if total_files == 0 {
        3
    } else {
        ceil_log10(total_files) + 1
    }
}

/// `ceil_log10(n)` is the least exponent whose power of ten reaches `n`:
/// that power reaches it, and the one below does not.
pub proof fn lemma_ceil_log10_is_least(n: nat)
    requires
        n >= 1,
    ensures
        n <= pow10(ceil_log10(n)),
        ceil_log10(n) > 0 ==> pow10((ceil_log10(n) - 1) as nat) < n,
    decreases n,
{
    if n > 1 {
        let m = (n + 9) / 10;
        lemma_ceil_log10_is_least(m);
        let k = ceil_log10(m);
        assert(pow10(k + 1) == 10 * pow10(k));
        if k > 0 {
            assert(pow10(k) == 10 * pow10((k - 1) as nat));
        } else {
            assert(pow10(0) == 1);
        }
    } else {
        assert(pow10(0) == 1);
    }
}

/// The proposed width is never 0.
pub proof fn lemma_auto_padding_positive(total_files: nat)
    ensures
        auto_padding(total_files) >= 1,
{
}

/// Proposes a padding width for `total_files` files.
pub fn compute_auto_padding(total_files: usize) -> (width: usize)
    ensures
        width == auto_padding(total_files as nat),
{
    if total_files == 0 {
        return 3;
    }
    let mut rest: usize = total_files;
    let mut width: usize = 1;
    while rest > 1
        invariant
            rest >= 1,
            width >= 1,
            width + rest <= total_files + 1,
            ceil_log10(total_files as nat) + 1 == ceil_log10(rest as nat) + width,
        decreases rest,
    {
        let tenth: usize = rest / 10;
        let next: usize = if rest % 10 == 0 {
            tenth
        } else {
            tenth + 1
        };
        assert(next as nat == (rest as nat + 9) / 10);
        rest = next;
        width += 1;
    }
    width
}

} // verus!
