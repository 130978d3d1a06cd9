use vstd::arithmetic::power2::{pow2, lemma2_to64};
use vstd::prelude::*;

verus! {

/// Absolute value of a mathematical integer.
pub open spec fn abs_int(v: int) -> int {
    if v >= 0 {
        v
    } else {
        -v
    }
}

/// Division that rounds toward zero, as Rust's `/` on signed integers does.
pub open spec fn trunc_div(v: int, d: int) -> int
    recommends
        d > 0,
{
    if v >= 0 {
        v / d
    } else {
        -((-v) / d)
    }
}

/// One motion-vector component rounded toward zero to a whole pixel
/// (the low three eighth-pel bits cleared on the magnitude).
pub open spec fn quantize_comp(v: int) -> int {
    8 * trunc_div(v, 8)
}

/// Number of bits needed to write `n` in binary; 0 for 0.
pub open spec fn bit_len(n: nat) -> nat
    decreases n,
{
    if n == 0 {
        0
    } else {
        (1 + bit_len(n / 2)) as nat
    }
}

/// Rate proxy of one motion-vector component difference `d`.  Without
/// high-precision vectors the difference first loses its eighth-pel bit
/// (an arithmetic shift right, which floors).
pub open spec fn comp_rate(d: int, hp: bool) -> int {
    let dp = if hp {
        d
    } else {
        d / 2
    };
    if dp == 0 {
        0
    } else {
        2 * (bit_len(abs_int(dp) as nat) as int)
    }
}

/// Rate proxy of coding motion vector `a` against reference vector `b`.
pub open spec fn mv_rate_spec(a: MotionVector, b: MotionVector, hp: bool) -> int {
    comp_rate(a.row - b.row, hp) + comp_rate(a.col - b.col, hp)
}

/// The neutral motion vector.
pub open spec fn zero_mv() -> MotionVector {
    MotionVector { row: 0i16, col: 0i16 }
}

/// A whole vector rounded toward zero to whole pixels.
pub open spec fn quantize_mv(v: MotionVector) -> MotionVector {
    MotionVector {
        row: quantize_comp(v.row as int) as i16,
        col: quantize_comp(v.col as int) as i16,
    }
}

/// Two multiples of `m` differ by a multiple of `m`, and stepping a
/// multiple by `radius * dir` with a `radius` that is itself a multiple
/// keeps it one.
pub proof fn lemma_mod_step(diff: int, radius: int, dir: int, m: int)
    requires
        m >= 1,
        diff % m == 0,
        radius % m == 0,
        -1 <= dir <= 1,
    ensures
        (diff + radius * dir) % m == 0,
{
    vstd::arithmetic::div_mod::lemma_fundamental_div_mod(diff, m);
    vstd::arithmetic::div_mod::lemma_fundamental_div_mod(radius, m);
    let qd = diff / m;
    let qr = radius / m;
    if dir == 0 {
        assert(diff + radius * dir == diff);
    } else if dir == 1 {
        assert(diff + radius * dir == (qd + qr) * m) by (nonlinear_arith)
            requires
                diff == m * qd + 0,
                radius == m * qr + 0,
                dir == 1,
        ;
        vstd::arithmetic::div_mod::lemma_mod_multiples_basic(qd + qr, m);
    } else {
        assert(diff + radius * dir == (qd - qr) * m) by (nonlinear_arith)
            requires
                diff == m * qd + 0,
                radius == m * qr + 0,
                dir == -1,
        ;
        vstd::arithmetic::div_mod::lemma_mod_multiples_basic(qd - qr, m);
    }
}

/// The sum of two multiples of `m` is a multiple of `m`.
pub proof fn lemma_mod_add(a: int, b: int, m: int)
    requires
        m >= 1,
        a % m == 0,
        b % m == 0,
    ensures
        (a + b) % m == 0,
{
    vstd::arithmetic::div_mod::lemma_fundamental_div_mod(a, m);
    vstd::arithmetic::div_mod::lemma_fundamental_div_mod(b, m);
    let qa = a / m;
    let qb = b / m;
    assert(a + b == (qa + qb) * m) by (nonlinear_arith)
        requires
            a == m * qa + 0,
            b == m * qb + 0,
    ;
    vstd::arithmetic::div_mod::lemma_mod_multiples_basic(qa + qb, m);
}

/// Rounding toward zero never grows a quotient's magnitude past `m` when
/// the dividend's stays within `d * m`.
pub proof fn lemma_trunc_div_bound(s: int, d: int, m: int)
    requires
        d >= 1,
        m >= 0,
        -(d * m) <= s <= d * m,
    ensures
        -m <= trunc_div(s, d) <= m,
{
    if s >= 0 {
        vstd::arithmetic::div_mod::lemma_div_is_ordered(s, d * m, d);
        vstd::arithmetic::div_mod::lemma_div_multiples_vanish(m, d);
        vstd::arithmetic::div_mod::lemma_div_pos_is_pos(s, d);
    } else {
        vstd::arithmetic::div_mod::lemma_div_is_ordered(-s, d * m, d);
        vstd::arithmetic::div_mod::lemma_div_multiples_vanish(m, d);
        vstd::arithmetic::div_mod::lemma_div_pos_is_pos(-s, d);
    }
}

/// Division rounding toward zero, as Rust's `/` does on signed values.
pub fn div_trunc_i32(s: i32, d: i32) -> (r: i32)
    requires
        1 <= d,
        -0x10_0000 <= s <= 0x10_0000,
    ensures
        r as int == trunc_div(s as int, d as int),
{
    if s >= 0 {
        ((s as u32) / (d as u32)) as i32
    } else {
        let m: u32 = (-s) as u32;
        let q: u32 = m / (d as u32);
        proof {
            vstd::arithmetic::div_mod::lemma_div_nonincreasing(m as int, d as int);
            vstd::arithmetic::div_mod::lemma_div_pos_is_pos(m as int, d as int);
        }
        -(q as i32)
    }
}

/// A motion vector in units of one eighth of a pixel: value 8 is one
/// whole pixel.  `row` moves down, `col` moves right.
#[derive(Clone, Copy, Debug, PartialEq, Eq, Structural)]
pub struct MotionVector {
    pub row: i16,
    pub col: i16,
}

impl Default for MotionVector {
    /// The neutral (zero) motion vector.
    fn default() -> (mv: Self)
        ensures
            mv == (MotionVector { row: 0i16, col: 0i16 }),
    {
        MotionVector { row: 0, col: 0 }
    }
}

impl MotionVector {
    pub open spec fn is_zero_spec(self) -> bool {
        self.row == 0 && self.col == 0
    }

    /// True when both components are zero.
    #[verifier::when_used_as_spec(is_zero_spec)]
    pub fn is_zero(self) -> (z: bool)
        ensures
            z == self.is_zero_spec(),
    {
        self.row == 0 && self.col == 0
    }

    /// Both components rounded toward zero to whole pixels.
    pub fn quantize_to_fullpel(self) -> (q: Self)
        ensures
            q.row as int == quantize_comp(self.row as int),
            q.col as int == quantize_comp(self.col as int),
            q == quantize_mv(self),
    {
        MotionVector { row: quantize_comp_i16(self.row), col: quantize_comp_i16(self.col) }
    }
}

fn quantize_comp_i16(v: i16) -> (q: i16)
    ensures
        q as int == quantize_comp(v as int),
{
    let w: i32 = v as i32;
    if w >= 0 {
        let m: u32 = w as u32;
        let mq: u32 = (m / 8) * 8;
        assert(mq as int == 8 * ((v as int) / 8));
        mq as i16
    } else {
        let m: u32 = (-w) as u32;
        let mq: u32 = (m / 8) * 8;
        assert(mq as int == 8 * ((-(v as int)) / 8));
        (-(mq as i32)) as i16
    }
}

/// Quantizing to a whole pixel is idempotent, and the result is a
/// multiple of eight eighth-pels.
pub proof fn lemma_quantize_idempotent(v: int)
    ensures
        quantize_comp(quantize_comp(v)) == quantize_comp(v),
        quantize_comp(v) % 8 == 0,
{
    let t = trunc_div(v, 8);
    assert((8 * t) % 8 == 0 && (8 * t) / 8 == t && (8 * (-t)) / 8 == -t) by (nonlinear_arith);
    if t >= 0 {
        assert(quantize_comp(8 * t) == 8 * t);
    } else {
        assert(-(8 * t) == 8 * (-t));
        assert(quantize_comp(8 * t) == 8 * t);
    }
}

/// The rate of a vector against itself is zero.
pub proof fn lemma_mv_rate_parity(a: MotionVector, hp: bool)
    ensures
        mv_rate_spec(a, a, hp) == 0,
{
}

/// The rate model is symmetric in its two vectors whenever the component
/// differences survive the precision shift unchanged: always with
/// high-precision vectors, and for even differences without them.  (With
/// `hp` false and an odd difference the arithmetic shift floors, so the
/// two directions can differ by one bit position.)
pub proof fn lemma_mv_rate_symmetry(a: MotionVector, b: MotionVector, hp: bool)
    requires
        hp || ((a.row - b.row) % 2 == 0 && (a.col - b.col) % 2 == 0),
    ensures
        mv_rate_spec(a, b, hp) == mv_rate_spec(b, a, hp),
{
    lemma_comp_rate_symmetry(a.row - b.row, hp);
    lemma_comp_rate_symmetry(a.col - b.col, hp);
}

proof fn lemma_comp_rate_symmetry(d: int, hp: bool)
    requires
        hp || d % 2 == 0,
    ensures
        comp_rate(d, hp) == comp_rate(-d, hp),
{
    if hp {
        assert(abs_int(d) == abs_int(-d));
    } else {
        let k = d / 2;
        assert(d == 2 * k);
        assert((-d) / 2 == -k);
        assert(abs_int(k) == abs_int(-k));
    }
}

proof fn lemma_comp_rate_bound(d: int, hp: bool)
    requires
        -0x1_0000 < d < 0x1_0000,
    ensures
        0 <= comp_rate(d, hp) <= 34,
{
    let dp = if hp {
        d
    } else {
        d / 2
    };
    assert(-0x1_0000 <= dp < 0x1_0000);
    if dp != 0 {
        lemma2_to64();
        lemma_bit_len_bound(abs_int(dp) as nat, 17);
    }
}

/// The rate of one vector against another never exceeds 68.
pub proof fn lemma_mv_rate_bound(a: MotionVector, b: MotionVector, hp: bool)
    ensures
        0 <= mv_rate_spec(a, b, hp) <= 68,
{
    lemma_comp_rate_bound(a.row - b.row, hp);
    lemma_comp_rate_bound(a.col - b.col, hp);
}

/// Exact bit length of small values, for use at known rates.
pub proof fn lemma_bit_len_bound(n: nat, k: nat)
    requires
        n < pow2(k),
    ensures
        bit_len(n) <= k,
    decreases k,
{
    lemma2_to64();
    if k == 0 {
        assert(pow2(0) == 1);
    } else if n == 0 {
    } else {
        assert(pow2(k) == 2 * pow2((k - 1) as nat)) by {
            vstd::arithmetic::power2::lemma_pow2_unfold(k);
        }
        assert(n / 2 < pow2((k - 1) as nat));
        lemma_bit_len_bound(n / 2, (k - 1) as nat);
    }
}

fn bit_len_exec(n0: u32) -> (r: u32)
    ensures
        r as nat == bit_len(n0 as nat),
        r <= 32,
{
    proof {
        lemma2_to64();
        lemma_bit_len_bound(n0 as nat, 32);
    }
    let mut n: u32 = n0;
    let mut len: u32 = 0;
    while n > 0
        invariant
            len + bit_len(n as nat) == bit_len(n0 as nat),
            bit_len(n0 as nat) <= 32,
        decreases n,
    {
        n = n / 2;
        len = len + 1;
    }
    len
}

fn diff_to_rate(diff: i32, hp: bool) -> (r: u32)
    requires
        -0x1_0000 < diff < 0x1_0000,
    ensures
        r as int == comp_rate(diff as int, hp),
        r <= 34,
{
    let dp: i32 = if hp {
        diff
    } else {
        floor_half(diff)
    };
    let mag: u32 = if dp >= 0 {
        dp as u32
    } else {
        (-dp) as u32
    };
    assert(mag as int == abs_int(dp as int));
    if mag == 0 {
        0
    } else {
        proof {
            lemma2_to64();
            lemma_bit_len_bound(mag as nat, 17);
        }
        2 * bit_len_exec(mag)
    }
}

/// Floor division of a bounded value by a small positive divisor, as an
/// arithmetic shift right computes it for powers of two.
pub fn floor_div_i64(v: i64, d: i64) -> (r: i64)
    requires
        1 <= d <= 8,
        -0x1000_0000 <= v <= 0x1000_0000,
    ensures
        r as int == (v as int) / (d as int),
{
    if v >= 0 {
        ((v as u64) / (d as u64)) as i64
    } else {
        let m: u64 = (-v) as u64;
        let h: u64 = (m + (d as u64) - 1) / (d as u64);
        proof {
            let mi = m as int;
            let di = d as int;
            vstd::arithmetic::div_mod::lemma_fundamental_div_mod(mi + di - 1, di);
            vstd::arithmetic::div_mod::lemma_fundamental_div_mod(-mi, di);
            assert((v as int) / di == -((mi + di - 1) / di)) by (nonlinear_arith)
                requires
                    1 <= di <= 8,
                    mi > 0,
                    v as int == -mi,
                    mi + di - 1 == di * ((mi + di - 1) / di) + (mi + di - 1) % di,
                    0 <= (mi + di - 1) % di < di,
                    -mi == di * ((-mi) / di) + (-mi) % di,
                    0 <= (-mi) % di < di,
            ;
        }
        -(h as i64)
    }
}

fn floor_half(d: i32) -> (r: i32)
    requires
        -0x1_0000 < d < 0x1_0000,
    ensures
        r as int == (d as int) / 2,
{
    if d >= 0 {
        ((d as u32) / 2) as i32
    } else {
        let m: u32 = (-d) as u32;
        let h: u32 = (m + 1) / 2;
        assert((d as int) / 2 == -(((m as int) + 1) / 2));
        -(h as i32)
    }
}

/// Rate proxy for coding `a` against the reference vector `b`, summed
/// over the two components.
pub fn get_mv_rate(a: MotionVector, b: MotionVector, allow_high_precision_mv: bool) -> (r: u32)
    ensures
        r as int == mv_rate_spec(a, b, allow_high_precision_mv),
        r <= 68,
{
    let dr: i32 = (a.row as i32) - (b.row as i32);
    let dc: i32 = (a.col as i32) - (b.col as i32);
    diff_to_rate(dr, allow_high_precision_mv) + diff_to_rate(dc, allow_high_precision_mv)
}

} // verus!

