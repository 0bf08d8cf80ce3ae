use vstd::prelude::*;

verus! {

/// One unit of length, mass, speed or time, in thousandths.
pub const ONE: u64 = 1000;

/// The largest value that `cube_root_floor` accepts.
pub const CUBE_ROOT_INPUT_MAX: u128 = 309_485_009_821_345_068_724_781_056;

/// `r` is the integer cube root of `n`, rounded down.
pub open spec fn is_cube_root_floor(n: int, r: int) -> bool {
    &&& 0 <= r
    &&& r * r * r <= n
    &&& n < (r + 1) * (r + 1) * (r + 1)
}

/// The scale (in thousandths) of a unit whose mass is `mass` thousandths:
/// the cube root of the mass, rounded down to a thousandth.
pub open spec fn is_scale_of(mass: int, scale: int) -> bool {
    is_cube_root_floor(mass * 1_000_000, scale)
}

/// The scale of a unit of mass `mass`; see `is_scale_of`.
pub open spec fn scale_for_mass(mass: int) -> int {
    choose|s: int| is_scale_of(mass, s)
}

/// There is at most one integer cube root rounded down.
pub proof fn lemma_cube_root_unique(n: int, r1: int, r2: int)
    requires
        is_cube_root_floor(n, r1),
        is_cube_root_floor(n, r2),
    ensures
        r1 == r2,
{
    if r1 < r2 {
        lemma_cube_monotone(r1 + 1, r2);
    } else if r2 < r1 {
        lemma_cube_monotone(r2 + 1, r1);
    }
}

/// Cubing preserves the order of non-negative integers.
proof fn lemma_cube_monotone(a: int, b: int)
    requires
        0 <= a <= b,
    ensures
        a * a * a <= b * b * b,
{
    assert(a * a <= b * b) by (nonlinear_arith)
        requires
            0 <= a <= b,
    ;
    assert(a * a * a <= b * b * b) by (nonlinear_arith)
        requires
            0 <= a <= b,
            a * a <= b * b,
    ;
}

/// The integer cube root of `n`, rounded down, by bisection.
pub fn cube_root_floor(n: u128) -> (r: u64)
    requires
        n <= CUBE_ROOT_INPUT_MAX,
    ensures
        is_cube_root_floor(n as int, r as int),
{
    let mut lo: u128 = 0;
    let mut hi: u128 = 1u128 << 30;
    assert((1u128 << 30) == 1073741824u128) by (bit_vector);
    assert(1073741824int * 1073741824int * 1073741824int == 1237940039285380274899124224int)
        by (nonlinear_arith);
    while lo + 1 < hi
        invariant
            lo < hi <= 1073741824,
            lo * lo * lo <= n,
            n < hi * hi * hi,
        decreases hi - lo,
    {
        let mid: u128 = lo + (hi - lo) / 2;
        proof {
            lemma_cube_monotone(mid as int, 1073741824int);
            assert(mid * mid <= 1073741824int * 1073741824int) by (nonlinear_arith)
                requires
                    mid <= 1073741824int,
            ;
        }
        let cube: u128 = mid * mid * mid;
        if cube <= n {
            lo = mid;
        } else {
            hi = mid;
        }
    }
    assert(hi == lo + 1);
    lo as u64
}

/// The scale of a unit of mass `mass` (thousandths): `mass ** (1/3)`,
/// rounded down to a thousandth.
pub fn scale_of(mass: u64) -> (s: u64)
    ensures
        is_scale_of(mass as int, s as int),
        s == scale_for_mass(mass as int),
{
    assert(mass as int * 1_000_000 <= CUBE_ROOT_INPUT_MAX);
    let s = cube_root_floor(mass as u128 * 1_000_000);
    proof {
        assert(is_scale_of(mass as int, s as int));
        let c = scale_for_mass(mass as int);
        assert(is_scale_of(mass as int, c));
        lemma_cube_root_unique(mass * 1_000_000, s as int, c);
    }
    s
}

/// `num / den` rounded towards negative infinity.
pub fn floor_div(num: i128, den: i128) -> (q: i128)
    requires
        den > 0,
    ensures
        q == num as int / den as int,
{
    assert(i128::MIN <= num as int / den as int <= i128::MAX) by (nonlinear_arith)
        requires
            den > 0,
            i128::MIN <= num <= i128::MAX,
    ;
    match num.checked_div_euclid(den) {
        Some(q) => q,
        None => 0,
    }
}

/// `num` modulo `den`, in `0 .. den`.
pub fn floor_mod(num: i128, den: i128) -> (m: i128)
    requires
        den > 0,
    ensures
        m == num as int % den as int,
        0 <= m < den,
{
    match num.checked_rem_euclid(den) {
        Some(m) => m,
        None => 0,
    }
}

} // verus!
