//! An exact ratio of two integers representing a recipe ingredient amount.
//!
//! Handles fractions with a whole number part, e.g. `1 1/2`. Values are not
//! auto-reduced to lowest terms; two fractions represent the same amount
//! when they are equal under cross multiplication.

use crate::text;
use vstd::math::abs;
use vstd::prelude::*;

verus! {

/// A fraction type.
pub struct Fraction {
    pub numerator: i32,
    pub denominator: i32,
}

/// Truncating division, as Rust's `/` computes it on signed integers: the
/// magnitude quotient, with the sign of the exact quotient.
pub open spec fn tdiv(a: int, b: int) -> int {
    if (a >= 0) == (b >= 0) {
        abs(a) as int / abs(b) as int
    } else {
        -(abs(a) as int / abs(b) as int)
    }
}

/// Truncating remainder: what truncating division leaves of `a`.
pub open spec fn tmod(a: int, b: int) -> int {
    a - b * tdiv(a, b)
}

/// Truncating division and remainder recombine to the dividend; the
/// remainder is smaller than the divisor and carries the dividend's sign.
pub proof fn lemma_tdiv_tmod(a: int, b: int)
    requires
        b != 0,
    ensures
        b * tdiv(a, b) + tmod(a, b) == a,
        abs(tmod(a, b)) < abs(b),
        abs(tdiv(a, b)) <= abs(a),
        a >= 0 ==> tmod(a, b) == abs(a) as int % abs(b) as int,
        a < 0 ==> tmod(a, b) == -(abs(a) as int % abs(b) as int),
{
    let am = abs(a) as int;
    let bm = abs(b) as int;
    let q0 = am / bm;
    let r0 = am % bm;
    vstd::arithmetic::div_mod::lemma_fundamental_div_mod(am, bm);
    vstd::arithmetic::div_mod::lemma_mod_division_less_than_divisor(am, bm);
    vstd::arithmetic::div_mod::lemma_div_pos_is_pos(am, bm);
    vstd::arithmetic::div_mod::lemma_div_nonincreasing(am, bm);
    assert(am == bm * q0 + r0);
    assert(0 <= r0 < bm);
    assert(0 <= q0 <= am);
    if (a >= 0) == (b >= 0) {
        assert(tdiv(a, b) == q0);
        if a >= 0 {
            assert(b * q0 == bm * q0);
            assert(tmod(a, b) == am - bm * q0);
            assert(tmod(a, b) == r0);
        } else {
            assert(a == -am);
            assert(b == -bm);
            assert(b * q0 == -(bm * q0)) by (nonlinear_arith)
                requires
                    b == -bm,
            ;
            assert(tmod(a, b) == -am + bm * q0);
            assert(tmod(a, b) == -r0);
        }
    } else {
        assert(tdiv(a, b) == -q0);
        if a >= 0 {
            assert(b == -bm);
            assert(b * (-q0) == bm * q0) by (nonlinear_arith)
                requires
                    b == -bm,
            ;
            assert(tmod(a, b) == am - bm * q0);
            assert(tmod(a, b) == r0);
        } else {
            assert(a == -am);
            assert(b == bm);
            assert(b * (-q0) == -(bm * q0)) by (nonlinear_arith)
                requires
                    b == bm,
            ;
            assert(tmod(a, b) == -am + bm * q0);
            assert(tmod(a, b) == -r0);
        }
    }
}

/// Rust-style truncating division and remainder of two `i32`s, computed on
/// magnitudes.
fn div_rem_trunc(a: i32, b: i32) -> (r: (i32, i32))
    requires
        b != 0,
        !(a == i32::MIN && b == -1),
    ensures
        r.0 == tdiv(a as int, b as int),
        r.1 == tmod(a as int, b as int),
{
    proof {
        lemma_tdiv_tmod(a as int, b as int);
    }
    let am: u64 = if a >= 0 {
        a as u64
    } else {
        (-(a as i64)) as u64
    };
    let bm: u64 = if b >= 0 {
        b as u64
    } else {
        (-(b as i64)) as u64
    };
    assert(am == abs(a as int));
    assert(bm == abs(b as int));
    let qm: u64 = am / bm;
    let rm: u64 = am % bm;
    let same_sign: bool = (a >= 0) == (b >= 0);
    let q: i32 = if same_sign {
        assert(qm <= am);
        if a == i32::MIN {
            assert(b < 0 && bm >= 2);
            assert(qm <= am / 2) by {
                vstd::arithmetic::div_mod::lemma_div_is_ordered_by_denominator(am as int, 2, bm as int);
            }
        }
        qm as i32
    } else {
        (-(qm as i64)) as i32
    };
    let m: i32 = if a >= 0 {
        rm as i32
    } else {
        (-(rm as i64)) as i32
    };
    (q, m)
}

impl Fraction {
    /// The two fractions denote the same amount: equal under cross
    /// multiplication.
    pub open spec fn same_value(self, other: Fraction) -> bool {
        self.numerator * other.denominator == other.numerator * self.denominator
    }

    pub fn new(numerator: i32, denominator: i32) -> (r: Self)
        ensures
            r == (Fraction { numerator, denominator }),
    {
        Self { numerator, denominator }
    }
}

/// Round `p / q` to the nearest integer, ties away from zero — the
/// rounding that `round` applies to a quotient.
pub open spec fn rnd_half_away(p: int, q: int) -> int {
    if (p >= 0) == (q >= 0) {
        (2 * abs(p) + abs(q)) as int / (2 * abs(q)) as int
    } else {
        -((2 * abs(p) + abs(q)) as int / (2 * abs(q)) as int)
    }
}

/// The numerator that best approximates `n0 / m0` over denominator `d`.
pub open spec fn approx_num(n0: int, m0: int, d: int) -> int {
    rnd_half_away(n0 * d, m0)
}

/// Is `num / den` within 1/10000 of `n0 / m0`? (for positive `m0`, `den`)
pub open spec fn within_epsilon(n0: int, m0: int, num: int, den: int) -> bool {
    10000 * abs(num * m0 - n0 * den) <= m0 * den
}

/// Does the best numerator over denominator `d` approximate `n0 / m0`
/// within the fixed epsilon?
pub open spec fn approx_ok(n0: int, m0: int, d: int) -> bool {
    within_epsilon(n0, m0, approx_num(n0, m0, d), d)
}

/// Sign-magnitude reading of the rounded quotient and of the
/// approximation error, connecting the spec to magnitude arithmetic.
proof fn lemma_approx_bridge(n0: int, m0: int, d: int, na: int, nm: int)
    requires
        m0 >= 1,
        d >= 1,
        na == abs(n0),
        nm == (2 * (na * d) + m0) / (2 * m0),
    ensures
        approx_num(n0, m0, d) == if n0 >= 0 {
            nm
        } else {
            -nm
        },
        abs(approx_num(n0, m0, d) * m0 - n0 * d) == abs(nm * m0 - na * d),
        approx_ok(n0, m0, d) == (10000 * abs(nm * m0 - na * d) <= m0 * d),
        nm >= 0,
{
    let p = n0 * d;
    assert((n0 >= 0 ==> p == na * d && p >= 0) && (n0 < 0 ==> p == -(na * d) && p <= 0))
        by (nonlinear_arith)
        requires
            p == n0 * d,
            d >= 1,
            (n0 >= 0 ==> na == n0) && (n0 < 0 ==> na == -n0),
    ;
    assert(na * d >= 0) by (nonlinear_arith)
        requires
            na >= 0,
            d >= 1,
    ;
    assert(abs(p) == na * d);
    assert(2 * abs(p) + abs(m0) == 2 * (na * d) + m0);
    vstd::arithmetic::div_mod::lemma_div_pos_is_pos(2 * (na * d) + m0, 2 * m0);
    if n0 >= 0 {
        assert((p >= 0) == (m0 >= 0));
        assert(approx_num(n0, m0, d) == nm);
        assert(approx_num(n0, m0, d) * m0 - n0 * d == nm * m0 - na * d);
    } else {
        if p == 0 {
            assert(na * d == 0);
            assert(nm == m0 / (2 * m0));
            assert(m0 / (2 * m0) == 0) by {
                vstd::arithmetic::div_mod::lemma_basic_div(m0, 2 * m0);
            }
            assert(approx_num(n0, m0, d) == -nm);
        } else {
            assert(!((p >= 0) == (m0 >= 0)));
            assert(approx_num(n0, m0, d) == -nm);
        }
        assert(approx_num(n0, m0, d) * m0 - n0 * d == -(nm * m0) + na * d) by (nonlinear_arith)
            requires
                approx_num(n0, m0, d) == -nm,
                n0 * d == -(na * d),
        ;
        assert(abs(-(nm * m0) + na * d) == abs(nm * m0 - na * d));
    }
}

/// A ratio approximates itself exactly: over its own denominator, the
/// best numerator is the ratio's, with no error at all.
pub proof fn lemma_exact_denominator_is_within(n0: int, m0: int)
    requires
        1 <= m0,
    ensures
        approx_ok(n0, m0, m0),
        approx_num(n0, m0, m0) == n0,
{
    let na = abs(n0) as int;
    let p = n0 * m0;
    assert((n0 >= 0 ==> p == na * m0 && p >= 0) && (n0 < 0 ==> p == -(na * m0) && p <= -m0))
        by (nonlinear_arith)
        requires
            p == n0 * m0,
            m0 >= 1,
            (n0 >= 0 ==> na == n0) && (n0 < 0 ==> na == -n0),
    ;
    assert(na * m0 >= 0) by (nonlinear_arith)
        requires
            na >= 0,
            m0 >= 1,
    ;
    assert(abs(p) == na * m0);
    assert(2 * (na * m0) + m0 == m0 * (2 * na + 1)) by (nonlinear_arith);
    assert((m0 * (2 * na + 1)) / (2 * m0) == na) by {
        assert(m0 * (2 * na + 1) >= 1) by (nonlinear_arith)
            requires
                m0 >= 1,
                na >= 0,
        ;
        assert(m0 * (2 * na + 1) == (2 * na + 1) * m0) by {
            vstd::arithmetic::mul::lemma_mul_is_commutative(m0, 2 * na + 1);
        }
        assert(2 * m0 == m0 * 2);
        vstd::arithmetic::div_mod::lemma_div_denominator(m0 * (2 * na + 1), m0, 2);
        vstd::arithmetic::div_mod::lemma_div_by_multiple(2 * na + 1, m0);
        assert((2 * na + 1) / 2 == na);
    }
    if n0 >= 0 {
        assert(rnd_half_away(p, m0) == na);
    } else {
        assert(rnd_half_away(p, m0) == -na);
    }
    assert(approx_num(n0, m0, m0) == n0);
    assert(n0 * m0 - n0 * m0 == 0);
    assert(m0 * m0 >= 1) by (nonlinear_arith)
        requires
            m0 >= 1,
    ;
}

/// The denominator search always lands within the epsilon when the ratio's
/// own denominator is at or below the search cap: with such a ratio the
/// result of the search — the smallest denominator not ruled out, or the
/// cap — satisfies the epsilon bound.
pub proof fn lemma_search_finds_low_denominator(n0: int, m0: int, den: int)
    requires
        1 <= m0 <= 10000,
        1 <= den <= 10000,
        approx_ok(n0, m0, den) || den == 10000,
        forall|e: int| 1 <= e < den ==> !approx_ok(n0, m0, e),
    ensures
        approx_ok(n0, m0, den),
{
    lemma_exact_denominator_is_within(n0, m0);
    if den == 10000 && !approx_ok(n0, m0, den) {
        assert(!approx_ok(n0, m0, m0));
    }
}

impl Fraction {
    /// The closest fraction to the exact ratio `n0 / m0`: the fraction over
    /// the smallest denominator whose value lies within 1/10000 of the
    /// ratio. A ratio that is a whole number comes back over a unit
    /// denominator; otherwise the denominator search is capped at 10000,
    /// and the best numerator over the cap stands when no smaller
    /// denominator suffices.
    pub fn from_ratio(n0: i64, m0: i64) -> (r: Self)
        requires
            1 <= m0 <= 1_000_000_000_000i64,
            -100_000 * m0 <= n0 <= 100_000 * m0,
        ensures
            n0 % m0 == 0 ==> r.numerator == n0 as int / m0 as int && r.denominator == 1,
            n0 % m0 != 0 ==> {
                &&& 1 <= r.denominator <= 10000
                &&& r.numerator == approx_num(n0 as int, m0 as int, r.denominator as int)
                &&& forall|e: int|
                    1 <= e < r.denominator ==> !approx_ok(n0 as int, m0 as int, e)
                &&& approx_ok(n0 as int, m0 as int, r.denominator as int) || r.denominator
                    == 10000
            },
            m0 <= 10000 && n0 % m0 != 0 ==> approx_ok(n0 as int, m0 as int, r.denominator as int),
    {
        let na: u64 = if n0 >= 0 {
            n0 as u64
        } else {
            (-n0) as u64
        };
        let m0u: u64 = m0 as u64;
        assert(na == abs(n0 as int));
        assert(na <= 100_000 * m0) by (nonlinear_arith)
            requires
                -100_000 * m0 <= n0 <= 100_000 * m0,
                na == abs(n0 as int),
                m0 >= 1,
        ;
        if na % m0u == 0 {
            let q: u64 = na / m0u;
            proof {
                vstd::arithmetic::div_mod::lemma_fundamental_div_mod(na as int, m0u as int);
                assert(na == m0u * q);
                assert(q <= 100_000) by {
                    vstd::arithmetic::div_mod::lemma_div_is_ordered(
                        na as int,
                        100_000 * m0,
                        m0 as int,
                    );
                    vstd::arithmetic::div_mod::lemma_div_by_multiple(100_000, m0 as int);
                }
                if n0 >= 0 {
                    assert(n0 % m0 == 0 && n0 / m0 == q as int) by {
                        vstd::arithmetic::div_mod::lemma_fundamental_div_mod_converse(
                            n0 as int,
                            m0 as int,
                            q as int,
                            0,
                        );
                    }
                } else {
                    assert(n0 == m0 * (-(q as int))) by (nonlinear_arith)
                        requires
                            n0 == -(na as int),
                            na == m0u * q,
                            m0u == m0,
                    ;
                    assert(n0 % m0 == 0 && n0 / m0 == -(q as int)) by {
                        vstd::arithmetic::div_mod::lemma_fundamental_div_mod_converse(
                            n0 as int,
                            m0 as int,
                            -(q as int),
                            0,
                        );
                    }
                }
            }
            let numerator: i32 = if n0 >= 0 {
                q as i32
            } else {
                (-(q as i64)) as i32
            };
            return Fraction { numerator, denominator: 1 };
        }
        proof {
            vstd::arithmetic::div_mod::lemma_fundamental_div_mod(na as int, m0u as int);
            if n0 < 0 {
                let k = n0 as int / m0 as int;
                vstd::arithmetic::div_mod::lemma_fundamental_div_mod(n0 as int, m0 as int);
                if n0 % m0 == 0 {
                    assert(n0 == m0 * k);
                    assert(na == m0 * (-k)) by (nonlinear_arith)
                        requires
                            n0 == m0 * k,
                            na == -(n0 as int),
                    ;
                    assert(na % m0u == 0) by {
                        vstd::arithmetic::div_mod::lemma_mod_multiples_basic(-k, m0 as int);
                    }
                }
            }
            assert(n0 % m0 != 0);
        }
        let mut d: u64 = 1;
        loop
            invariant
                1 <= d <= 10000,
                na == abs(n0 as int),
                1 <= m0 <= 1_000_000_000_000i64,
                m0u == m0,
                na <= 100_000 * m0,
                n0 % m0 != 0,
                forall|e: int| 1 <= e < d ==> !approx_ok(n0 as int, m0 as int, e),
            decreases 10000 - d,
        {
            proof {
                assert((na as int) * (d as int) <= 1_000_000_000_000_000_000_000)
                    by (nonlinear_arith)
                    requires
                        0 <= na <= 100_000 * m0,
                        m0 <= 1_000_000_000_000i64,
                        1 <= d <= 10000,
                ;
            }
            let pm: u128 = (na as u128) * (d as u128);
            let qm: u128 = m0u as u128;
            let nm: u128 = (2 * pm + qm) / (2 * qm);
            proof {
                assert(pm <= 100_000 * m0 * d) by (nonlinear_arith)
                    requires
                        pm == na * d,
                        na <= 100_000 * m0,
                        d >= 1,
                        m0 >= 1,
                ;
                assert(2 * pm + qm <= m0 * (200_000 * d + 1)) by (nonlinear_arith)
                    requires
                        pm <= 100_000 * m0 * d,
                        qm == m0,
                        m0 >= 1,
                ;
                assert(nm <= 100_000 * d) by {
                    vstd::arithmetic::div_mod::lemma_div_is_ordered(
                        (2 * pm + qm) as int,
                        m0 * (200_000 * d + 1),
                        2 * qm as int,
                    );
                    assert((m0 * (200_000 * d + 1)) as int / (2 * m0 as int) == (200_000 * d
                        + 1) as int / 2) by {
                        vstd::arithmetic::div_mod::lemma_div_denominator(
                            (m0 * (200_000 * d + 1)) as int,
                            m0 as int,
                            2,
                        );
                        vstd::arithmetic::div_mod::lemma_div_by_multiple(
                            (200_000 * d + 1) as int,
                            m0 as int,
                        );
                    }
                    assert((200_000 * d + 1) as int / 2 == 100_000 * d);
                }
                lemma_approx_bridge(n0 as int, m0 as int, d as int, na as int, nm as int);
                assert(nm * qm <= 10_000_000_000_000_000_000_000) by (nonlinear_arith)
                    requires
                        0 <= nm <= 100_000 * d,
                        qm == m0,
                        1 <= m0 <= 1_000_000_000_000i64,
                        d <= 10000,
                ;
            }
            let diff: u128 = if nm * qm >= pm {
                nm * qm - pm
            } else {
                pm - nm * qm
            };
            assert(diff == abs(nm * m0 - na * d));
            let lhs: u128 = 10000 * diff;
            proof {
                assert(qm * d <= 10_000_000_000_000_000) by (nonlinear_arith)
                    requires
                        0 <= qm <= 1_000_000_000_000i64,
                        0 <= d <= 10000,
                ;
            }
            let rhs: u128 = qm * (d as u128);
            let ok: bool = lhs <= rhs;
            assert(ok == approx_ok(n0 as int, m0 as int, d as int));
            if ok || d == 10000 {
                proof {
                    if m0 <= 10000 {
                        lemma_search_finds_low_denominator(n0 as int, m0 as int, d as int);
                    }
                }
                let numerator: i32 = if n0 >= 0 {
                    nm as i32
                } else {
                    (-(nm as i64)) as i32
                };
                return Fraction { numerator, denominator: d as i32 };
            }
            d += 1;
        }
    }

    /// The fraction rounded to three decimal places: the nearest fraction
    /// over a denominator of 1000, ties away from zero. `None` when the
    /// rounded numerator does not fit an `i32`.
    pub fn round_to_thousandths(&self) -> (r: Option<Self>)
        requires
            self.denominator != 0,
        ensures
            match r {
                Some(f) => f.denominator == 1000 && f.numerator == rnd_half_away(
                    self.numerator as int * 1000,
                    self.denominator as int,
                ),
                None => !(i32::MIN <= rnd_half_away(
                    self.numerator as int * 1000,
                    self.denominator as int,
                ) <= i32::MAX),
            },
    {
        let n = self.numerator;
        let dn = self.denominator;
        let na: u64 = if n >= 0 {
            (n as u64) * 1000
        } else {
            ((-(n as i64)) as u64) * 1000
        };
        let da: u64 = if dn >= 0 {
            dn as u64
        } else {
            (-(dn as i64)) as u64
        };
        assert(na == abs(n as int * 1000));
        assert(da == abs(dn as int));
        let nm: u64 = (2 * na + da) / (2 * da);
        proof {
            vstd::arithmetic::div_mod::lemma_div_pos_is_pos((2 * na + da) as int, (2 * da) as int);
            assert(nm <= (2 * na + da) as int / 2) by {
                vstd::arithmetic::div_mod::lemma_div_is_ordered_by_denominator(
                    (2 * na + da) as int,
                    2,
                    (2 * da) as int,
                );
            }
        }
        let same_sign: bool = (n >= 0) == (dn >= 0);
        if same_sign {
            if nm > 0x7FFF_FFFFu64 {
                return None;
            }
            Some(Fraction { numerator: nm as i32, denominator: 1000 })
        } else {
            if nm > 0x8000_0000u64 {
                return None;
            }
            Some(Fraction { numerator: (-(nm as i64)) as i32, denominator: 1000 })
        }
    }
}

/// The rendering of a fraction: the numerator alone over a unit
/// denominator, a mixed number when the numerator exceeds the denominator,
/// and `numerator/denominator` otherwise.
pub open spec fn spec_format(n: int, d: int) -> Seq<char> {
    if d == 1 {
        text::spec_idec(n)
    } else if n > d {
        text::spec_idec(tdiv(n, d)) + seq![' '] + text::spec_idec(tmod(n, d)) + seq!['/']
            + text::spec_idec(d)
    } else {
        text::spec_idec(n) + seq!['/'] + text::spec_idec(d)
    }
}

/// `numerator/denominator`, both sides an optionally signed integer,
/// split at the first slash.
pub open spec fn spec_parse_parts(s: Seq<char>) -> Option<(int, int)> {
    let k = text::find_char(s, '/');
    if k < 0 {
        None
    } else {
        match (text::spec_parse_i32(s.take(k)), text::spec_parse_i32(s.skip(k + 1))) {
            (Some(nu), Some(de)) => Some((nu, de)),
            _ => None,
        }
    }
}

/// A fraction with an optional whole-number part split at the first space:
/// `numerator/denominator` or `whole numerator/denominator`. The whole part
/// is combined as `whole * denominator + numerator`; a combination outside
/// the `i32` range does not parse.
pub open spec fn spec_parse_fraction(s: Seq<char>) -> Option<(int, int)> {
    let sp = text::find_char(s, ' ');
    if sp < 0 {
        spec_parse_parts(s)
    } else {
        match (text::spec_parse_i32(s.take(sp)), spec_parse_parts(s.skip(sp + 1))) {
            (Some(w), Some((nu, de))) => {
                let combined = w * de + nu;
                if i32::MIN <= combined <= i32::MAX {
                    Some((combined, de))
                } else {
                    None
                }
            },
            _ => None,
        }
    }
}

/// A decimal number `digits.digits` with an optional leading sign, as an
/// exact ratio over a power of ten. A value outside the `i32` range, or a
/// denominator above it, does not parse.
pub open spec fn spec_parse_decimal(s: Seq<char>) -> Option<(int, int)> {
    let neg = s.len() > 0 && s[0] == '-';
    let body = if s.len() > 0 && (s[0] == '-' || s[0] == '+') {
        s.drop_first()
    } else {
        s
    };
    let k = text::find_char(body, '.');
    if k < 0 {
        None
    } else {
        let ip = body.take(k);
        let fp = body.skip(k + 1);
        if text::all_digits(ip) && text::all_digits(fp) {
            let den = text::pow10(fp.len()) as int;
            let mag = text::dec_val(ip) * den + text::dec_val(fp);
            let num: int = if neg {
                -mag
            } else {
                mag as int
            };
            if i32::MIN <= num <= i32::MAX && den <= i32::MAX {
                Some((num, den))
            } else {
                None
            }
        } else {
            None
        }
    }
}

/// `digits/digits`, split at the first slash, with no sign and no further
/// slash.
pub open spec fn is_simple_fraction_text(s: Seq<char>) -> bool {
    let k = text::find_char(s, '/');
    k >= 0 && text::all_digits(s.take(k)) && text::all_digits(s.skip(k + 1))
}

/// A fraction with an optional whole-number prefix before a space; the
/// prefix may not start with a zero.
pub open spec fn is_fraction_text(s: Seq<char>) -> bool {
    let sp = text::find_char(s, ' ');
    if sp < 0 {
        is_simple_fraction_text(s)
    } else {
        text::all_digits(s.take(sp)) && s[0] != '0' && is_simple_fraction_text(s.skip(sp + 1))
    }
}

/// `digits.digits`, split at the first dot, with no sign and no further
/// dot.
pub open spec fn is_decimal_text(s: Seq<char>) -> bool {
    let k = text::find_char(s, '.');
    k >= 0 && text::all_digits(s.take(k)) && text::all_digits(s.skip(k + 1))
}

/// A whole number, a fraction with or without a mixed-number prefix, or a
/// decimal number: what an amount input field accepts.
pub open spec fn is_valid_fractional_text(s: Seq<char>) -> bool {
    text::all_digits(s) || is_fraction_text(s) || is_decimal_text(s)
}

/// Does `s[from..]` read as `digits/digits`?
fn is_simple_fraction_str(s: &str, from: usize) -> (r: bool)
    requires
        from <= s@.len(),
    ensures
        r == is_simple_fraction_text(s@.skip(from as int)),
{
    let ghost t = s@.skip(from as int);
    let n: usize = s.unicode_len();
    let tail = s.substring_char(from, n);
    proof {
        assert(tail@ =~= t);
    }
    let k: usize = match text::find_char_in_str(tail, '/') {
        Some(k) => k,
        None => {
            return false;
        },
    };
    proof {
        text::lemma_find_char(t, '/');
    }
    let tail_len: usize = tail.unicode_len();
    let num_text = tail.substring_char(0, k);
    let den_text = tail.substring_char(k + 1, tail_len);
    proof {
        assert(num_text@ =~= t.take(k as int));
        assert(den_text@ =~= t.skip(k + 1));
    }
    let num_ok = text::str_all_digits(num_text);
    let den_ok = text::str_all_digits(den_text);
    num_ok && den_ok
}

/// Does `s` read as a fraction, with or without a mixed-number prefix?
/// This is the shape an amount input tests before it parses a fraction.
pub fn is_fraction_input(s: &str) -> (r: bool)
    ensures
        r == is_fraction_text(s@),
{
    match text::find_char_in_str(s, ' ') {
        None => {
            proof {
                assert(s@.skip(0) =~= s@);
            }
            is_simple_fraction_str(s, 0)
        },
        Some(sp) => {
            proof {
                text::lemma_find_char(s@, ' ');
            }
            let n: usize = s.unicode_len();
            let whole_text = s.substring_char(0, sp);
            proof {
                assert(whole_text@ =~= s@.take(sp as int));
            }
            if !text::str_all_digits(whole_text) {
                return false;
            }
            if s.get_char(0) == '0' {
                return false;
            }
            is_simple_fraction_str(s, sp + 1)
        },
    }
}

/// Does `s` read as a decimal number `digits.digits`?
fn is_decimal_str(s: &str) -> (r: bool)
    ensures
        r == is_decimal_text(s@),
{
    let k: usize = match text::find_char_in_str(s, '.') {
        Some(k) => k,
        None => {
            return false;
        },
    };
    proof {
        text::lemma_find_char(s@, '.');
    }
    let n: usize = s.unicode_len();
    let ip = s.substring_char(0, k);
    let fp = s.substring_char(k + 1, n);
    proof {
        assert(ip@ =~= s@.take(k as int));
        assert(fp@ =~= s@.skip(k + 1));
    }
    let ip_ok = text::str_all_digits(ip);
    let fp_ok = text::str_all_digits(fp);
    ip_ok && fp_ok
}

/// Does `s` read as a whole number, a fraction with or without a
/// mixed-number prefix, or a decimal number? This is the shape an amount
/// input accepts at all.
pub fn is_valid_fractional_input(s: &str) -> (r: bool)
    ensures
        r == is_valid_fractional_text(s@),
{
    if text::str_all_digits(s) {
        return true;
    }
    if is_fraction_input(s) {
        return true;
    }
    is_decimal_str(s)
}

/// The full amount grammar: a fraction-shaped text (with an optional
/// whole-number part) parses as a fraction; otherwise a plain integer
/// parses over a unit denominator; otherwise a decimal number parses as an
/// exact ratio over a power of ten.
pub open spec fn spec_parse_amount(s: Seq<char>) -> Option<(int, int)> {
    if spec_parse_fraction(s) is Some {
        spec_parse_fraction(s)
    } else if text::spec_parse_i32(s) is Some {
        Some((text::spec_parse_i32(s).unwrap(), 1))
    } else {
        spec_parse_decimal(s)
    }
}

impl Fraction {
    /// Parse a fraction from a string in the format `numerator/denominator`
    /// or `whole numerator/denominator` (a mixed number fraction).
    pub fn from_str(s: &str) -> (r: Result<Self, ()>)
        ensures
            match r {
                Ok(f) => spec_parse_fraction(s@) == Some(
                    (f.numerator as int, f.denominator as int),
                ),
                Err(()) => spec_parse_fraction(s@) is None,
            },
    {
        match text::find_char_in_str(s, ' ') {
            None => {
                proof {
                    assert(s@.skip(0) =~= s@);
                }
                match Self::parse_parts(s, 0) {
                    Ok(f) => Ok(f),
                    Err(()) => Err(()),
                }
            },
            Some(sp) => {
                proof {
                    text::lemma_find_char(s@, ' ');
                }
                let n: usize = s.unicode_len();
                let whole_text = s.substring_char(0, sp);
                proof {
                    assert(whole_text@ =~= s@.take(sp as int));
                }
                let whole = match text::parse_i32(whole_text) {
                    Ok(w) => w,
                    Err(()) => {
                        return Err(());
                    },
                };
                let parts = match Self::parse_parts(s, sp + 1) {
                    Ok(f) => f,
                    Err(()) => {
                        return Err(());
                    },
                };
                proof {
                    assert(-0x4000_0000_0000_0000 <= (whole as int) * (parts.denominator as int)
                        <= 0x4000_0000_0000_0000) by (nonlinear_arith)
                        requires
                            -0x8000_0000 <= whole as int <= 0x7FFF_FFFF,
                            -0x8000_0000 <= parts.denominator as int <= 0x7FFF_FFFF,
                    ;
                }
                let combined: i64 = (whole as i64) * (parts.denominator as i64) + (
                parts.numerator as i64);
                if combined < i32::MIN as i64 || combined > i32::MAX as i64 {
                    return Err(());
                }
                Ok(Fraction { numerator: combined as i32, denominator: parts.denominator })
            },
        }
    }

    /// Parse `numerator/denominator` spanning `s[from..]`.
    fn parse_parts(s: &str, from: usize) -> (r: Result<Self, ()>)
        requires
            from <= s@.len(),
        ensures
            match r {
                Ok(f) => spec_parse_parts(s@.skip(from as int)) == Some(
                    (f.numerator as int, f.denominator as int),
                ),
                Err(()) => spec_parse_parts(s@.skip(from as int)) is None,
            },
    {
        let ghost t = s@.skip(from as int);
        let n: usize = s.unicode_len();
        let tail = s.substring_char(from, n);
        proof {
            assert(tail@ =~= t);
        }
        let k: usize = match text::find_char_in_str(tail, '/') {
            Some(k) => k,
            None => {
                return Err(());
            },
        };
        proof {
            text::lemma_find_char(t, '/');
        }
        let tail_len: usize = tail.unicode_len();
        let num_text = tail.substring_char(0, k);
        let den_text = tail.substring_char(k + 1, tail_len);
        proof {
            assert(num_text@ =~= t.take(k as int));
            assert(den_text@ =~= t.skip(k + 1));
        }
        let numerator = match text::parse_i32(num_text) {
            Ok(v) => v,
            Err(()) => {
                return Err(());
            },
        };
        let denominator = match text::parse_i32(den_text) {
            Ok(v) => v,
            Err(()) => {
                return Err(());
            },
        };
        Ok(Fraction { numerator, denominator })
    }

    /// Parse text in the full amount grammar: a fraction (with an optional
    /// whole-number part) when the text is fraction-shaped, else a plain
    /// integer, else a decimal number read as an exact ratio over a power
    /// of ten.
    pub fn parse(s: &str) -> (r: Result<Self, ()>)
        ensures
            match r {
                Ok(f) => spec_parse_amount(s@) == Some((f.numerator as int, f.denominator as int)),
                Err(()) => spec_parse_amount(s@) is None,
            },
    {
        match Self::from_str(s) {
            Ok(f) => {
                return Ok(f);
            },
            Err(()) => {},
        }
        match text::parse_i32(s) {
            Ok(v) => {
                return Ok(Fraction { numerator: v, denominator: 1 });
            },
            Err(()) => {},
        }
        match Self::parse_decimal(s) {
            Ok(f) => Ok(f),
            Err(()) => Err(()),
        }
    }

    /// Parse a decimal number `digits.digits`, with an optional sign, as an
    /// exact ratio over a power of ten.
    fn parse_decimal(s: &str) -> (r: Result<Self, ()>)
        ensures
            match r {
                Ok(f) => spec_parse_decimal(s@) == Some((f.numerator as int, f.denominator as int)),
                Err(()) => spec_parse_decimal(s@) is None,
            },
    {
        let n: usize = s.unicode_len();
        if n == 0 {
            proof {
                text::lemma_find_char(s@, '.');
            }
            return Err(());
        }
        let c0 = s.get_char(0);
        let neg: bool = c0 == '-';
        let start: usize = if c0 == '-' || c0 == '+' {
            1
        } else {
            0
        };
        let body = s.substring_char(start, n);
        let ghost bspec = if s@.len() > 0 && (s@[0] == '-' || s@[0] == '+') {
            s@.drop_first()
        } else {
            s@
        };
        proof {
            assert(body@ =~= bspec);
        }
        let k: usize = match text::find_char_in_str(body, '.') {
            Some(k) => k,
            None => {
                return Err(());
            },
        };
        proof {
            text::lemma_find_char(bspec, '.');
        }
        let body_len: usize = body.unicode_len();
        let ip = body.substring_char(0, k);
        proof {
            assert(ip@ =~= bspec.take(k as int));
            assert(body@.skip(k + 1) =~= bspec.skip(k + 1));
        }
        let ghost fp = bspec.skip(k + 1);
        let frac_len: usize = body_len - (k + 1);
        proof {
            assert(fp.len() == frac_len);
            text::lemma_pow10_values();
        }
        let fv: u64 = match text::parse_digits_capped(body, k + 1) {
            Ok(v) => v,
            Err(()) => {
                proof {
                    if text::all_digits(fp) {
                        text::lemma_dec_val_lt_pow10(fp);
                        if frac_len > 9 {
                        } else {
                            text::lemma_pow10_mono(fp.len(), 9);
                        }
                    }
                }
                return Err(());
            },
        };
        if frac_len > 9 {
            proof {
                text::lemma_pow10_mono(10, fp.len());
            }
            return Err(());
        }
        let iv: u64 = match text::parse_digits_capped(ip, 0) {
            Ok(v) => v,
            Err(()) => {
                proof {
                    assert(ip@.skip(0) =~= ip@);
                    if text::all_digits(bspec.take(k as int)) && text::all_digits(fp) {
                        let den = text::pow10(fp.len()) as int;
                        assert(den >= 1) by {
                            text::lemma_pow10_mono(0, fp.len());
                        }
                        if text::dec_val(bspec.take(k as int)) > 0x8000_0000u64 {
                            assert(text::dec_val(bspec.take(k as int)) * den >= text::dec_val(
                                bspec.take(k as int),
                            ) * 1) by (nonlinear_arith)
                                requires
                                    den >= 1,
                            ;
                        }
                    }
                }
                return Err(());
            },
        };
        proof {
            assert(ip@.skip(0) =~= ip@);
        }
        let den: u64 = text::pow10_u64(frac_len);
        proof {
            text::lemma_pow10_mono(fp.len(), 9);
            assert(iv == text::dec_val(bspec.take(k as int)));
            assert(fv == text::dec_val(fp));
            assert(den == text::pow10(fp.len()));
        }
        proof {
            assert(iv * den <= 0x8000_0000u64 * 1000000000u64) by (nonlinear_arith)
                requires
                    iv <= 0x8000_0000u64,
                    0 <= den <= 1000000000u64,
            ;
        }
        let mag: u64 = iv * den + fv;
        if neg {
            if mag > 0x8000_0000u64 {
                return Err(());
            }
            let v: i64 = -(mag as i64);
            Ok(Fraction { numerator: v as i32, denominator: den as i32 })
        } else {
            if mag > 0x7FFF_FFFFu64 {
                return Err(());
            }
            Ok(Fraction { numerator: mag as i32, denominator: den as i32 })
        }
    }

    /// What an amount input field does with its text: reject text outside
    /// the accepted shapes; parse fraction-shaped text as a fraction and
    /// round it to three decimal places; parse anything else as a whole
    /// number or a decimal, passed through exactly. Fraction-shaped text
    /// whose fraction does not fit, has a zero denominator, or rounds
    /// outside the `i32` range yields nothing.
    pub fn parse_fractional_input(s: &str) -> (r: Option<Self>)
        ensures
            !is_valid_fractional_text(s@) ==> r is None,
            is_valid_fractional_text(s@) && is_fraction_text(s@) ==> match spec_parse_fraction(
                s@,
            ) {
                Some((n, d)) => {
                    if d != 0 && i32::MIN <= rnd_half_away(n * 1000, d) <= i32::MAX {
                        r matches Some(f) && f.denominator == 1000 && f.numerator
                            == rnd_half_away(n * 1000, d)
                    } else {
                        r is None
                    }
                },
                None => r is None,
            },
            is_valid_fractional_text(s@) && !is_fraction_text(s@) ==> match spec_parse_amount(
                s@,
            ) {
                Some((n, d)) => r matches Some(f) && f.numerator == n && f.denominator == d,
                None => r is None,
            },
    {
        if !is_valid_fractional_input(s) {
            return None;
        }
        if is_fraction_input(s) {
            match Self::from_str(s) {
                Ok(f) => {
                    if f.denominator == 0 {
                        None
                    } else {
                        f.round_to_thousandths()
                    }
                },
                Err(()) => None,
            }
        } else {
            match Self::parse(s) {
                Ok(f) => Some(f),
                Err(()) => None,
            }
        }
    }

    /// Render the fraction: the numerator alone when the denominator is
    /// one, a mixed number when the numerator exceeds the denominator, and
    /// `numerator/denominator` otherwise.
    pub fn to_string(&self) -> (r: String)
        requires
            self.denominator != 0,
        ensures
            r@ == spec_format(self.numerator as int, self.denominator as int),
    {
        let n = self.numerator;
        let d = self.denominator;
        let mut s = String::new();
        proof {
            reveal_strlit(" ");
            reveal_strlit("/");
            assert(" "@ =~= seq![' ']);
            assert("/"@ =~= seq!['/']);
        }
        if d == 1 {
            text::push_i64(&mut s, n as i64);
            proof {
                assert(Seq::<char>::empty() + text::spec_idec(n as int) =~= spec_format(
                    n as int,
                    d as int,
                ));
            }
            return s;
        }
        if n > d {
            let (whole, remainder) = div_rem_trunc(n, d);
            text::push_i64(&mut s, whole as i64);
            s.append(" ");
            text::push_i64(&mut s, remainder as i64);
            s.append("/");
            text::push_i64(&mut s, d as i64);
            proof {
                assert(Seq::<char>::empty() + text::spec_idec(tdiv(n as int, d as int))
                    + seq![' '] + text::spec_idec(tmod(n as int, d as int)) + seq!['/']
                    + text::spec_idec(d as int) =~= spec_format(n as int, d as int));
            }
            s
        } else {
            text::push_i64(&mut s, n as i64);
            s.append("/");
            text::push_i64(&mut s, d as i64);
            proof {
                assert(Seq::<char>::empty() + text::spec_idec(n as int) + seq!['/']
                    + text::spec_idec(d as int) =~= spec_format(n as int, d as int));
            }
            s
        }
    }
}

/// A rendered integer never contains a space, a slash, or a dot.
proof fn lemma_idec_no_separator(v: int)
    ensures
        forall|i: int|
            0 <= i < text::spec_idec(v).len() ==> #[trigger] text::spec_idec(v)[i] != ' '
                && text::spec_idec(v)[i] != '/',
        text::spec_idec(v).len() >= 1,
{
    text::lemma_idec_chars(v);
    assert forall|i: int|
        0 <= i < text::spec_idec(v).len() implies #[trigger] text::spec_idec(v)[i] != ' '
        && text::spec_idec(v)[i] != '/' by {
        assert(text::is_digit_char(text::spec_idec(v)[i]) || text::spec_idec(v)[i] == '-');
    }
}

/// Fraction round trip: for any fraction with a non-zero denominator,
/// parsing its rendering back yields a fraction that denotes the same
/// value under cross multiplication, with a non-zero denominator.
pub proof fn lemma_format_parse_round_trip(n: i32, d: i32)
    requires
        d != 0,
    ensures
        ({
            let parsed = spec_parse_amount(spec_format(n as int, d as int));
            &&& parsed is Some
            &&& parsed.unwrap().1 != 0
            &&& parsed.unwrap().0 * d == n * parsed.unwrap().1
            &&& (Fraction { numerator: n, denominator: d }).same_value(
                Fraction {
                    numerator: parsed.unwrap().0 as i32,
                    denominator: parsed.unwrap().1 as i32,
                },
            )
        }),
{
    let ni = n as int;
    let di = d as int;
    if di == 1 {
        let s = text::spec_idec(ni);
        lemma_idec_no_separator(ni);
        text::lemma_find_char_none(s, ' ');
        text::lemma_find_char_none(s, '/');
        assert(spec_parse_parts(s) is None);
        assert(spec_parse_fraction(s) is None);
        text::lemma_parse_idec(ni);
        assert(spec_parse_amount(s) == Some((ni, 1int)));
    } else if ni > di {
        let w = tdiv(ni, di);
        let m = tmod(ni, di);
        lemma_tdiv_tmod(ni, di);
        assert(ni > i32::MIN);
        assert(abs(ni) <= i32::MAX);
        assert(i32::MIN <= w <= i32::MAX);
        assert(abs(di) <= 0x8000_0000);
        assert(i32::MIN <= m <= i32::MAX);
        let a = text::spec_idec(w);
        let b = text::spec_idec(m);
        let c = text::spec_idec(di);
        lemma_idec_no_separator(w);
        lemma_idec_no_separator(m);
        lemma_idec_no_separator(di);
        let s = spec_format(ni, di);
        assert(s == a + seq![' '] + b + seq!['/'] + c);
        let t = b + seq!['/'] + c;
        assert(s =~= a + seq![' '] + t);
        assert(s[a.len() as int] == ' ');
        assert forall|i: int| 0 <= i < a.len() implies s[i] != ' ' by {
            assert(s[i] == a[i]);
        }
        text::lemma_find_char_is_first(s, ' ', a.len() as int);
        assert(s.take(a.len() as int) =~= a);
        assert(s.skip(a.len() as int + 1) =~= t);
        text::lemma_parse_idec(w);
        assert(t[b.len() as int] == '/');
        assert forall|i: int| 0 <= i < b.len() implies t[i] != '/' by {
            assert(t[i] == b[i]);
        }
        text::lemma_find_char_is_first(t, '/', b.len() as int);
        assert(t.take(b.len() as int) =~= b);
        assert(t.skip(b.len() as int + 1) =~= c);
        text::lemma_parse_idec(m);
        text::lemma_parse_idec(di);
        assert(spec_parse_parts(t) == Some((m, di)));
        assert(w * di + m == ni) by {
            vstd::arithmetic::mul::lemma_mul_is_commutative(w, di);
        }
        assert(spec_parse_fraction(s) == Some((ni, di)));
        assert(spec_parse_amount(s) == Some((ni, di)));
    } else {
        let a = text::spec_idec(ni);
        let c = text::spec_idec(di);
        lemma_idec_no_separator(ni);
        lemma_idec_no_separator(di);
        let s = spec_format(ni, di);
        assert(s == a + seq!['/'] + c);
        assert forall|i: int| 0 <= i < s.len() implies s[i] != ' ' by {
            if i < a.len() {
                assert(s[i] == a[i]);
            } else if i == a.len() {
                assert(s[i] == '/');
            } else {
                assert(s[i] == c[i - a.len() - 1]);
            }
        }
        text::lemma_find_char_none(s, ' ');
        assert(s[a.len() as int] == '/');
        assert forall|i: int| 0 <= i < a.len() implies s[i] != '/' by {
            assert(s[i] == a[i]);
        }
        text::lemma_find_char_is_first(s, '/', a.len() as int);
        assert(s.take(a.len() as int) =~= a);
        assert(s.skip(a.len() as int + 1) =~= c);
        text::lemma_parse_idec(ni);
        text::lemma_parse_idec(di);
        assert(spec_parse_parts(s) == Some((ni, di)));
        assert(spec_parse_fraction(s) == Some((ni, di)));
        assert(spec_parse_amount(s) == Some((ni, di)));
    }
}

} // verus!
