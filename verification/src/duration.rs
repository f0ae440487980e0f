//! An hours/minutes/seconds decomposition of an elapsed time (for example a
//! preparation or cooking time). Two decompositions are equal exactly when
//! their totals in seconds are equal.

use crate::text;
use vstd::prelude::*;

verus! {

/// A second duration decomposed into hours, minutes, and seconds.
#[derive(Debug, Default, Clone, Copy)]
pub struct HourMinuteSecond {
    pub hours: usize,
    pub minutes: usize,
    pub seconds: usize,
}

impl HourMinuteSecond {
    /// The total length in seconds.
    pub open spec fn spec_as_secs(self) -> int {
        self.hours * 3600 + self.minutes * 60 + self.seconds
    }

    /// A decomposition is simplified when the minute and second parts are
    /// below their carrying bounds.
    pub open spec fn is_simplified(self) -> bool {
        self.minutes < 60 && self.seconds < 60
    }

    /// The simplified decomposition with the same total.
    pub open spec fn spec_simplify(self) -> HourMinuteSecond {
        HourMinuteSecond {
            hours: (self.spec_as_secs() / 3600) as usize,
            minutes: ((self.spec_as_secs() % 3600) / 60) as usize,
            seconds: (self.spec_as_secs() % 60) as usize,
        }
    }

    pub fn new(hours: usize, minutes: usize, seconds: usize) -> (r: Self)
        ensures
            r == (HourMinuteSecond { hours, minutes, seconds }),
    {
        Self { hours, minutes, seconds }
    }

    /// Construct the simplified decomposition of a total in seconds.
    pub fn from_secs(seconds: usize) -> (r: Self)
        ensures
            r.hours == seconds as int / 3600,
            r.minutes == (seconds as int % 3600) / 60,
            r.seconds == seconds as int % 60,
            r.spec_as_secs() == seconds,
            r.is_simplified(),
    {
        let hours: usize = seconds / 3600;
        let minutes: usize = (seconds % 3600) / 60;
        let secs: usize = seconds % 60;
        proof {
            lemma_decompose_secs(seconds as int);
        }
        Self::new(hours, minutes, secs)
    }

    /// Convert into a total in seconds.
    pub fn as_secs(&self) -> (r: usize)
        requires
            self.spec_as_secs() <= usize::MAX,
        ensures
            r == self.spec_as_secs(),
    {
        (self.hours * 3600) + (self.minutes * 60) + self.seconds
    }

    /// Render as `"{hours}h {minutes}m {seconds}s"`.
    pub fn as_hms(&self) -> (r: String)
        ensures
            r@ == text::spec_udec(self.hours as nat) + "h "@ + text::spec_udec(
                self.minutes as nat,
            ) + "m "@ + text::spec_udec(self.seconds as nat) + "s"@,
    {
        let mut s = String::new();
        text::push_u64(&mut s, self.hours as u64);
        s.append("h ");
        text::push_u64(&mut s, self.minutes as u64);
        s.append("m ");
        text::push_u64(&mut s, self.seconds as u64);
        s.append("s");
        proof {
            assert(Seq::<char>::empty() + text::spec_udec(self.hours as nat) + "h "@
                + text::spec_udec(self.minutes as nat) + "m "@ + text::spec_udec(
                self.seconds as nat,
            ) + "s"@ =~= text::spec_udec(self.hours as nat) + "h "@ + text::spec_udec(
                self.minutes as nat,
            ) + "m "@ + text::spec_udec(self.seconds as nat) + "s"@);
        }
        s
    }

    /// Simplify the current values to the smallest possible decomposition,
    /// e.g. (0 hours, 70 minutes, 0 seconds) -> (1 hour, 10 minutes,
    /// 0 seconds).
    pub fn simplify(&self) -> (r: Self)
        requires
            self.spec_as_secs() <= usize::MAX,
        ensures
            r == self.spec_simplify(),
            r.spec_as_secs() == self.spec_as_secs(),
            r.is_simplified(),
    {
        let seconds: usize = self.as_secs();
        Self::from_secs(seconds)
    }
}

/// Splitting a total into hours, minutes and seconds parts loses nothing:
/// the parts weighted back together give the total, and the minute and
/// second parts are below their carrying bounds.
proof fn lemma_decompose_secs(total: int)
    requires
        total >= 0,
    ensures
        (total / 3600) * 3600 + ((total % 3600) / 60) * 60 + total % 60 == total,
        (total % 3600) / 60 < 60,
        total % 60 < 60,
        total / 3600 <= total,
{
    vstd::arithmetic::div_mod::lemma_fundamental_div_mod(total, 3600);
    vstd::arithmetic::div_mod::lemma_fundamental_div_mod(total % 3600, 60);
    vstd::arithmetic::div_mod::lemma_mod_mod(total, 60, 60);
    assert(0 <= total % 3600 < 3600) by {
        vstd::arithmetic::div_mod::lemma_mod_division_less_than_divisor(total, 3600);
    }
    assert(0 <= total % 60 < 60) by {
        vstd::arithmetic::div_mod::lemma_mod_division_less_than_divisor(total, 60);
    }
    assert((total % 3600) / 60 < 60) by {
        vstd::arithmetic::div_mod::lemma_div_is_ordered(total % 3600, 3599, 60);
    }
    assert(total / 3600 <= total) by {
        vstd::arithmetic::div_mod::lemma_div_nonincreasing(total, 3600);
    }
}

/// Equality is by total seconds, not field by field: two structurally
/// different decompositions with equal totals are equal.
impl PartialEq for HourMinuteSecond {
    fn eq(&self, other: &Self) -> (r: bool)
        ensures
            r == (self.spec_as_secs() == other.spec_as_secs()),
    {
        let a: u128 = (self.hours as u128) * 3600 + (self.minutes as u128) * 60 + (
        self.seconds as u128);
        let b: u128 = (other.hours as u128) * 3600 + (other.minutes as u128) * 60 + (
        other.seconds as u128);
        a == b
    }
}

impl vstd::std_specs::cmp::PartialEqSpecImpl for HourMinuteSecond {
    open spec fn obeys_eq_spec() -> bool {
        true
    }

    open spec fn eq_spec(&self, other: &Self) -> bool {
        self.spec_as_secs() == other.spec_as_secs()
    }
}

/// Simplifying is idempotent: a simplified decomposition simplifies to
/// itself.
pub proof fn lemma_simplify_idempotent(d: HourMinuteSecond)
    requires
        d.spec_as_secs() <= usize::MAX,
    ensures
        d.spec_simplify().spec_simplify() == d.spec_simplify(),
{
    let total = d.spec_as_secs();
    lemma_decompose_secs(total);
    assert(0 <= total / 3600 <= usize::MAX);
    let s = d.spec_simplify();
    assert(s.spec_as_secs() == total);
    lemma_decompose_secs(s.spec_as_secs());
}

/// Simplifying never changes a duration's value: the simplified
/// decomposition and the one it came from are equal under total-seconds
/// equality.
pub proof fn lemma_simplify_preserves_value(d: HourMinuteSecond)
    requires
        d.spec_as_secs() <= usize::MAX,
    ensures
        d.spec_simplify().spec_as_secs() == d.spec_as_secs(),
{
    lemma_decompose_secs(d.spec_as_secs());
    assert(0 <= d.spec_as_secs() / 3600 <= usize::MAX);
}

} // verus!
