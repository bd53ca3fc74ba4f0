use vstd::prelude::*;

verus! {

/// A signed 64-bit value times an unsigned 64-bit value stays well inside
/// the range of `i128`.
pub proof fn lemma_signed_times_unsigned(a: int, b: int)
    requires
        isize::MIN <= a <= isize::MAX,
        0 <= b <= usize::MAX,
    ensures
        isize::MIN * usize::MAX <= a * b <= isize::MAX * usize::MAX,
{
    if a >= 0 {
        assert(0 <= a * b <= isize::MAX * usize::MAX) by (nonlinear_arith)
            requires
                0 <= a <= isize::MAX,
                0 <= b <= usize::MAX,
        ;
    } else {
        assert(isize::MIN * usize::MAX <= a * b <= 0) by (nonlinear_arith)
            requires
                isize::MIN <= a < 0,
                0 <= b <= usize::MAX,
        ;
    }
}

/// The product of two unsigned 64-bit values fits in `u128`.
pub proof fn lemma_unsigned_product(a: int, b: int)
    requires
        0 <= a <= usize::MAX,
        0 <= b <= usize::MAX,
    ensures
        0 <= a * b <= usize::MAX * usize::MAX,
{
    assert(0 <= a * b <= usize::MAX * usize::MAX) by (nonlinear_arith)
        requires
            0 <= a <= usize::MAX,
            0 <= b <= usize::MAX,
    ;
}

} // verus!
