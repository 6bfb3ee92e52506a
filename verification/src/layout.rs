//! Sizes and alignments of the blocks that the heap hands out.

use vstd::arithmetic::div_mod::*;
use vstd::prelude::*;

verus! {

/// The layout of a block of memory.
#[derive(Clone, Copy, Debug, PartialEq, Eq, Structural)]
pub struct Layout {
    size: usize,
    align: usize,
}

/// The parameters do not describe a block that could exist.
#[derive(Clone, Copy, Debug, PartialEq, Eq, Structural)]
pub struct LayoutError;

/// Whether a block of `size` bytes aligned to `align` may exist: `align` is a power of two and
/// `size`, rounded up to it, does not exceed `isize::MAX`.
pub open spec fn fits(size: int, align: int) -> bool {
    &&& vstd::arithmetic::power2::is_pow2(align)
    &&& 0 < align
    &&& 0 <= size <= isize::MAX - (isize::MAX as int % align)
}

/// The least multiple of `align` that is not below `n`.
pub open spec fn round_up(n: int, align: int) -> int {
    if n % align == 0 {
        n
    } else {
        n + (align - n % align)
    }
}

/// Rounding up gives the least multiple that is not below its argument.
pub proof fn round_up_is_least_multiple(n: int, align: int)
    requires
        0 <= n,
        0 < align,
    ensures
        n <= round_up(n, align) < n + align,
        round_up(n, align) % align == 0,
        forall|m: int| n <= m && #[trigger] (m % align) == 0 ==> round_up(n, align) <= m,
{
    lemma_fundamental_div_mod(n, align);
    lemma_mod_bound(n, align);
    let q = n / align;
    if n % align != 0 {
        assert(round_up(n, align) == align * (q + 1)) by (nonlinear_arith)
            requires
                n == align * q + n % align,
                round_up(n, align) == n + (align - n % align),
        ;
        assert(align * (q + 1) == (q + 1) * align) by (nonlinear_arith);
        lemma_mod_multiples_basic(q + 1, align);
    }
    assert forall|m: int| n <= m && #[trigger] (m % align) == 0 implies round_up(n, align) <= m by {
        lemma_fundamental_div_mod(m, align);
        let p = m / align;
        if n % align != 0 {
            assert(p >= q + 1) by (nonlinear_arith)
                requires
                    m == align * p,
                    n == align * q + n % align,
                    n <= m,
                    0 < n % align,
                    0 < align,
            ;
            assert(align * p >= align * (q + 1)) by (nonlinear_arith)
                requires
                    p >= q + 1,
                    0 < align,
            ;
            assert(align * (q + 1) == align * q + align) by (nonlinear_arith);
        }
    }
}

/// The least multiple of `align` that is not below `n`, if it fits the machine word.
pub fn checked_round_up(n: usize, align: usize) -> (r: Option<usize>)
    requires
        0 < align,
    ensures
        match r {
            Some(m) => m == round_up(n as int, align as int),
            None => round_up(n as int, align as int) > usize::MAX,
        },
{
    let rest: usize = n % align;
    if rest == 0 {
        Some(n)
    } else {
        n.checked_add(align - rest)
    }
}

/// The size of a row of `n` values.
pub open spec fn row_size<T>(n: int) -> int {
    n * vstd::layout::size_of::<T>()
}

impl Layout {
    /// The number of bytes.
    pub closed spec fn spec_size(&self) -> usize {
        self.size
    }

    /// The alignment in bytes.
    pub closed spec fn spec_align(&self) -> usize {
        self.align
    }

    /// Whether a block of this layout may exist.
    pub open spec fn wf(&self) -> bool {
        fits(self.size() as int, self.align() as int)
    }

    /// The number of bytes in the block.
    #[verifier::when_used_as_spec(spec_size)]
    pub fn size(&self) -> (size: usize)
        ensures
            size == self.size(),
    {
        self.size
    }

    /// The alignment of the block.
    #[verifier::when_used_as_spec(spec_align)]
    pub fn align(&self) -> (align: usize)
        ensures
            align == self.align(),
    {
        self.align
    }

    /// Builds a layout, or fails if no such block may exist.
    pub fn from_size_align(size: usize, align: usize) -> (r: Result<Layout, LayoutError>)
        ensures
            match r {
                Ok(layout) => layout.wf() && layout.size() == size && layout.align() == align,
                Err(_) => !fits(size as int, align as int),
            },
    {
        if !is_power_of_two(align) {
            return Err(LayoutError);
        }
        let max: usize = isize::MAX as usize;
        proof {
            lemma_mod_decreases(max as nat, align as nat);
        }
        if size > max - max % align {
            return Err(LayoutError);
        }
        Ok(Layout { size, align })
    }

    /// The layout of a value of type `T`.
    pub fn new<T>() -> (layout: Layout)
        ensures
            layout.wf(),
            layout.size() == vstd::layout::size_of::<T>(),
            layout.align() == vstd::layout::align_of::<T>(),
    {
        vstd::layout::layout_for_type_is_valid::<T>();
        let size: usize = core::mem::size_of::<T>();
        let align: usize = core::mem::align_of::<T>();
        Layout { size, align }
    }

    /// The layout of `len` values of type `T` in a row.
    pub fn array<T>(len: usize) -> (r: Result<Layout, LayoutError>)
        ensures
            match r {
                Ok(layout) => {
                    &&& layout.wf()
                    &&& layout.size() == row_size::<T>(len as int)
                    &&& layout.align() == vstd::layout::align_of::<T>()
                },
                Err(_) => !fits(
                    row_size::<T>(len as int),
                    vstd::layout::align_of::<T>() as int,
                ),
            },
    {
        let unit = Layout::new::<T>();
        match unit.size.checked_mul(len) {
            Some(size) => {
                proof {
                    assert(size == len * vstd::layout::size_of::<T>()) by (nonlinear_arith)
                        requires
                            size == unit.size * len,
                            unit.size == vstd::layout::size_of::<T>(),
                    ;
                }
                Layout::from_size_align(size, unit.align)
            },
            None => {
                proof {
                    assert(len * vstd::layout::size_of::<T>() > usize::MAX) by (nonlinear_arith)
                        requires
                            unit.size * len > usize::MAX,
                            unit.size == vstd::layout::size_of::<T>(),
                    ;
                }
                Err(LayoutError)
            },
        }
    }

    /// The layout of a block that holds `self` followed by `next`, each suitably aligned, together
    /// with the offset of `next` in it.
    pub fn extend(self, next: Layout) -> (r: Result<(Layout, usize), LayoutError>)
        requires
            self.wf(),
            next.wf(),
        ensures
            ({
                let offset = round_up(self.size() as int, next.align() as int);
                let align = crate::layout::max(self.align() as int, next.align() as int);
                match r {
                    Ok((layout, at)) => {
                        &&& layout.wf()
                        &&& at == offset
                        &&& layout.size() == offset + next.size()
                        &&& layout.align() == align
                    },
                    Err(_) => !fits(offset + next.size(), align),
                }
            }),
    {
        let align: usize = if self.align < next.align {
            next.align
        } else {
            self.align
        };
        match checked_round_up(self.size, next.align) {
            None => Err(LayoutError),
            Some(offset) => match offset.checked_add(next.size) {
                None => Err(LayoutError),
                Some(size) => match Layout::from_size_align(size, align) {
                    Ok(layout) => Ok((layout, offset)),
                    Err(e) => Err(e),
                },
            },
        }
    }
}

/// The greater of two numbers.
pub open spec fn max(a: int, b: int) -> int {
    if a < b {
        b
    } else {
        a
    }
}

/// Whether a word has exactly one bit set.
fn is_power_of_two(n: usize) -> (b: bool)
    ensures
        b == (n > 0 && vstd::arithmetic::power2::is_pow2(n as int)),
{
    let mut rest: usize = n;
    while rest > 1 && rest % 2 == 0
        invariant
            n > 0 <==> rest > 0,
            vstd::arithmetic::power2::is_pow2(n as int) == vstd::arithmetic::power2::is_pow2(
                rest as int,
            ),
        decreases rest,
    {
        proof {
            reveal(vstd::arithmetic::power2::is_pow2);
        }
        rest = rest / 2;
    }
    proof {
        reveal(vstd::arithmetic::power2::is_pow2);
    }
    rest == 1
}

/// Of two powers of two the smaller divides the greater.
pub proof fn lemma_pow2_divides(a: int, b: int)
    requires
        vstd::arithmetic::power2::is_pow2(a),
        vstd::arithmetic::power2::is_pow2(b),
        a <= b,
    ensures
        b % a == 0,
    decreases a,
{
    reveal(vstd::arithmetic::power2::is_pow2);
    if a > 1 {
        lemma_pow2_divides(a / 2, b / 2);
        let h = a / 2;
        lemma_fundamental_div_mod(b / 2, h);
        let q = (b / 2) / h;
        assert(b == a * q) by (nonlinear_arith)
            requires
                b / 2 == h * q,
                b % 2 == 0,
                a == 2 * h,
        ;
        assert(a * q == q * a) by (nonlinear_arith);
        lemma_mod_multiples_basic(q, a);
    }
}

/// A divisor of a divisor is a divisor.
pub proof fn lemma_divides_transitive(x: int, b: int, a: int)
    requires
        0 < a,
        0 < b,
        x % b == 0,
        b % a == 0,
    ensures
        x % a == 0,
{
    lemma_fundamental_div_mod(x, b);
    lemma_fundamental_div_mod(b, a);
    let p = x / b;
    let q = b / a;
    assert(x == (p * q) * a) by (nonlinear_arith)
        requires
            x == b * p,
            b == a * q,
    ;
    lemma_mod_multiples_basic(p * q, a);
}

} // verus!
