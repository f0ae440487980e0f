//! Decimal digit text: spec-level rendering and value of digit strings,
//! and executable rendering of integers into `String`s.

use vstd::prelude::*;

verus! {

/// Is `c` one of the ten decimal digit characters?
pub open spec fn is_digit_char(c: char) -> bool {
    c == '0' || c == '1' || c == '2' || c == '3' || c == '4' || c == '5' || c == '6' || c == '7'
        || c == '8' || c == '9'
}

/// The numeric value of a decimal digit character.
pub open spec fn char_digit_val(c: char) -> nat {
    if c == '0' {
        0
    } else if c == '1' {
        1
    } else if c == '2' {
        2
    } else if c == '3' {
        3
    } else if c == '4' {
        4
    } else if c == '5' {
        5
    } else if c == '6' {
        6
    } else if c == '7' {
        7
    } else if c == '8' {
        8
    } else {
        9
    }
}

/// The decimal digit character for a value below ten.
pub open spec fn digit_char(d: nat) -> char {
    if d == 0 {
        '0'
    } else if d == 1 {
        '1'
    } else if d == 2 {
        '2'
    } else if d == 3 {
        '3'
    } else if d == 4 {
        '4'
    } else if d == 5 {
        '5'
    } else if d == 6 {
        '6'
    } else if d == 7 {
        '7'
    } else if d == 8 {
        '8'
    } else {
        '9'
    }
}

/// All characters of `s` are decimal digits and `s` is not empty.
pub open spec fn all_digits(s: Seq<char>) -> bool {
    s.len() > 0 && forall|i: int| 0 <= i < s.len() ==> is_digit_char(#[trigger] s[i])
}

/// The numeric value of a string of decimal digits, most significant first.
pub open spec fn dec_val(s: Seq<char>) -> nat
    decreases s.len(),
{
    if s.len() == 0 {
        0
    } else {
        dec_val(s.drop_last()) * 10 + char_digit_val(s.last())
    }
}

/// The decimal rendering of a non-negative integer, most significant digit
/// first.
pub open spec fn spec_udec(n: nat) -> Seq<char>
    decreases n,
{
    if n < 10 {
        seq![digit_char(n)]
    } else {
        spec_udec(n / 10) + seq![digit_char(n % 10)]
    }
}

/// The decimal rendering of an integer: a minus sign for negative values,
/// then the magnitude's digits.
pub open spec fn spec_idec(n: int) -> Seq<char> {
    if n < 0 {
        seq!['-'] + spec_udec((-n) as nat)
    } else {
        spec_udec(n as nat)
    }
}

proof fn lemma_digit_char_val(d: nat)
    requires
        d < 10,
    ensures
        is_digit_char(digit_char(d)),
        char_digit_val(digit_char(d)) == d,
{
}

/// Rendering produces digit characters only.
pub proof fn lemma_udec_all_digits(n: nat)
    ensures
        all_digits(spec_udec(n)),
    decreases n,
{
    if n < 10 {
        lemma_digit_char_val(n);
    } else {
        lemma_udec_all_digits(n / 10);
        lemma_digit_char_val(n % 10);
    }
}

/// Reading the rendered digits back gives the rendered value.
pub proof fn lemma_udec_val(n: nat)
    ensures
        dec_val(spec_udec(n)) == n,
    decreases n,
{
    if n < 10 {
        lemma_digit_char_val(n);
        let s = spec_udec(n);
        assert(s == seq![digit_char(n)]);
        assert(s.len() == 1);
        assert(s.last() == digit_char(n));
        assert(s.drop_last() =~= Seq::<char>::empty());
        assert(dec_val(Seq::<char>::empty()) == 0);
        assert(dec_val(s) == dec_val(s.drop_last()) * 10 + char_digit_val(s.last()));
    } else {
        lemma_udec_val(n / 10);
        lemma_digit_char_val(n % 10);
        let s = spec_udec(n);
        assert(s == spec_udec(n / 10) + seq![digit_char(n % 10)]);
        assert(s.len() == spec_udec(n / 10).len() + 1);
        assert(s.last() == digit_char(n % 10));
        assert(s.drop_last() =~= spec_udec(n / 10));
        assert(dec_val(s) == dec_val(s.drop_last()) * 10 + char_digit_val(s.last()));
        assert(n / 10 * 10 + n % 10 == n) by {
            vstd::arithmetic::div_mod::lemma_fundamental_div_mod(n as int, 10);
        }
    }
}

/// Append one decimal digit character to `s`.
fn push_digit(s: &mut String, d: u64)
    requires
        d < 10,
    ensures
        final(s)@ == old(s)@ + seq![digit_char(d as nat)],
{
    match d {
        0 => {
            proof {
                reveal_strlit("0");
            }
            assert("0"@ =~= seq!['0']);
            s.append("0");
        },
        1 => {
            proof {
                reveal_strlit("1");
            }
            assert("1"@ =~= seq!['1']);
            s.append("1");
        },
        2 => {
            proof {
                reveal_strlit("2");
            }
            assert("2"@ =~= seq!['2']);
            s.append("2");
        },
        3 => {
            proof {
                reveal_strlit("3");
            }
            assert("3"@ =~= seq!['3']);
            s.append("3");
        },
        4 => {
            proof {
                reveal_strlit("4");
            }
            assert("4"@ =~= seq!['4']);
            s.append("4");
        },
        5 => {
            proof {
                reveal_strlit("5");
            }
            assert("5"@ =~= seq!['5']);
            s.append("5");
        },
        6 => {
            proof {
                reveal_strlit("6");
            }
            assert("6"@ =~= seq!['6']);
            s.append("6");
        },
        7 => {
            proof {
                reveal_strlit("7");
            }
            assert("7"@ =~= seq!['7']);
            s.append("7");
        },
        8 => {
            proof {
                reveal_strlit("8");
            }
            assert("8"@ =~= seq!['8']);
            s.append("8");
        },
        _ => {
            proof {
                reveal_strlit("9");
            }
            assert("9"@ =~= seq!['9']);
            s.append("9");
        },
    }
}

/// Append the decimal rendering of `n` to `s`.
pub fn push_u64(s: &mut String, n: u64)
    ensures
        final(s)@ == old(s)@ + spec_udec(n as nat),
    decreases n,
{
    if n < 10 {
        push_digit(s, n);
    } else {
        push_u64(s, n / 10);
        push_digit(s, n % 10);
        proof {
            assert(old(s)@ + spec_udec(n as nat / 10) + seq![digit_char(n as nat % 10)] =~= old(
                s,
            )@ + spec_udec(n as nat));
        }
    }
}

/// Append the decimal rendering of `n`, with a minus sign when negative.
pub fn push_i64(s: &mut String, n: i64)
    ensures
        final(s)@ == old(s)@ + spec_idec(n as int),
{
    if n >= 0 {
        push_u64(s, n as u64);
    } else {
        proof {
            reveal_strlit("-");
        }
        assert("-"@ =~= seq!['-']);
        s.append("-");
        let m: u64 = if n == i64::MIN {
            9223372036854775808u64
        } else {
            (-n) as u64
        };
        assert(m == -(n as int));
        push_u64(s, m);
        proof {
            assert(old(s)@ + seq!['-'] + spec_udec(m as nat) =~= old(s)@ + spec_idec(n as int));
        }
    }
}

/// The index of the first occurrence of `c` in `s`, or -1 when absent.
pub open spec fn find_char(s: Seq<char>, c: char) -> int
    decreases s.len(),
{
    if s.len() == 0 {
        -1
    } else if s[0] == c {
        0
    } else {
        let r = find_char(s.drop_first(), c);
        if r < 0 {
            -1
        } else {
            r + 1
        }
    }
}

/// What `find_char` finds is the first occurrence; -1 means no occurrence.
pub proof fn lemma_find_char(s: Seq<char>, c: char)
    ensures
        find_char(s, c) < 0 ==> forall|i: int| 0 <= i < s.len() ==> s[i] != c,
        find_char(s, c) >= 0 ==> 0 <= find_char(s, c) < s.len() && s[find_char(s, c)] == c
            && forall|i: int| 0 <= i < find_char(s, c) ==> s[i] != c,
    decreases s.len(),
{
    if s.len() == 0 {
    } else if s[0] == c {
    } else {
        let t = s.drop_first();
        lemma_find_char(t, c);
        let r = find_char(t, c);
        if r < 0 {
            assert(find_char(s, c) == -1);
            assert forall|i: int| 0 <= i < s.len() implies s[i] != c by {
                if i > 0 {
                    assert(t[i - 1] == s[i]);
                    assert(t[i - 1] != c);
                }
            }
        } else {
            assert(find_char(s, c) == r + 1);
            assert(s[r + 1] == t[r]);
            assert forall|i: int| 0 <= i < r + 1 implies s[i] != c by {
                if i > 0 {
                    assert(t[i - 1] == s[i]);
                    assert(t[i - 1] != c);
                }
            }
        }
    }
}

/// A position known to be a first occurrence is what `find_char` finds.
pub proof fn lemma_find_char_is_first(s: Seq<char>, c: char, j: int)
    requires
        0 <= j < s.len(),
        s[j] == c,
        forall|i: int| 0 <= i < j ==> s[i] != c,
    ensures
        find_char(s, c) == j,
{
    lemma_find_char(s, c);
    let r = find_char(s, c);
    if r < 0 {
        assert(s[j] != c);
    } else if r < j {
        assert(s[r] != c);
    } else if r > j {
        assert(s[j] != c);
    }
}

/// There is no occurrence, so `find_char` reports none.
pub proof fn lemma_find_char_none(s: Seq<char>, c: char)
    requires
        forall|i: int| 0 <= i < s.len() ==> s[i] != c,
    ensures
        find_char(s, c) == -1,
{
    lemma_find_char(s, c);
    let r = find_char(s, c);
    if r >= 0 {
        assert(s[r] != c);
    }
}

/// The first occurrence of `c` in `s`, as executable code.
pub fn find_char_in_str(s: &str, c: char) -> (r: Option<usize>)
    ensures
        match r {
            Some(j) => find_char(s@, c) == j,
            None => find_char(s@, c) == -1,
        },
{
    let n: usize = s.unicode_len();
    let mut i: usize = 0;
    while i < n
        invariant
            0 <= i <= n,
            n == s@.len(),
            forall|k: int| 0 <= k < i ==> s@[k] != c,
        decreases n - i,
    {
        if s.get_char(i) == c {
            proof {
                lemma_find_char_is_first(s@, c, i as int);
            }
            return Some(i);
        }
        i += 1;
    }
    proof {
        lemma_find_char_none(s@, c);
    }
    None
}

/// The integer denoted by `s`: an optional sign followed by decimal digits.
/// `None` when `s` has any other shape.
pub open spec fn spec_parse_int(s: Seq<char>) -> Option<int> {
    if s.len() > 0 && s[0] == '-' {
        if all_digits(s.drop_first()) {
            Some(-(dec_val(s.drop_first()) as int))
        } else {
            None
        }
    } else if s.len() > 0 && s[0] == '+' {
        if all_digits(s.drop_first()) {
            Some(dec_val(s.drop_first()) as int)
        } else {
            None
        }
    } else if all_digits(s) {
        Some(dec_val(s) as int)
    } else {
        None
    }
}

/// The integer denoted by `s` when it fits an `i32`, else `None`.
pub open spec fn spec_parse_i32(s: Seq<char>) -> Option<int> {
    match spec_parse_int(s) {
        Some(v) => if i32::MIN <= v <= i32::MAX {
            Some(v)
        } else {
            None
        },
        None => None,
    }
}

/// The value of a longer digit prefix is at least the value of a shorter
/// one.
proof fn lemma_dec_val_take_le(s: Seq<char>, i: int, j: int)
    requires
        0 <= i <= j <= s.len(),
    ensures
        dec_val(s.take(i)) <= dec_val(s.take(j)),
    decreases j - i,
{
    if i < j {
        lemma_dec_val_take_le(s, i, j - 1);
        assert(s.take(j).drop_last() =~= s.take(j - 1));
        assert(dec_val(s.take(j)) == dec_val(s.take(j - 1)) * 10 + char_digit_val(s.take(j).last()));
    }
}

/// The executable digit test and value of one character.
fn digit_of(c: char) -> (r: Option<u64>)
    ensures
        match r {
            Some(d) => is_digit_char(c) && d == char_digit_val(c) && d < 10,
            None => !is_digit_char(c),
        },
{
    match c {
        '0' => Some(0),
        '1' => Some(1),
        '2' => Some(2),
        '3' => Some(3),
        '4' => Some(4),
        '5' => Some(5),
        '6' => Some(6),
        '7' => Some(7),
        '8' => Some(8),
        '9' => Some(9),
        _ => None,
    }
}

/// Parse an unsigned run of digits spanning all of `s[from..]`, as a value
/// capped for an `i32` magnitude test. `Err` when a non-digit occurs, when
/// the run is empty, or when the value exceeds 2^31.
pub(crate) fn parse_digits_capped(s: &str, from: usize) -> (r: Result<u64, ()>)
    requires
        from <= s@.len(),
    ensures
        match r {
            Ok(v) => all_digits(s@.skip(from as int)) && v == dec_val(s@.skip(from as int)) && v
                <= 0x8000_0000u64,
            Err(()) => !all_digits(s@.skip(from as int)) || dec_val(s@.skip(from as int))
                > 0x8000_0000u64,
        },
{
    let ghost t = s@.skip(from as int);
    let n: usize = s.unicode_len();
    if from >= n {
        assert(t.len() == 0);
        return Err(());
    }
    let mut acc: u64 = 0;
    let mut i: usize = from;
    while i < n
        invariant
            from <= i <= n,
            n == s@.len(),
            t == s@.skip(from as int),
            forall|k: int| 0 <= k < i - from ==> is_digit_char(#[trigger] t[k]),
            acc == dec_val(t.take(i - from)),
            acc <= 0x8000_0000u64,
        decreases n - i,
    {
        let c = s.get_char(i);
        assert(c == t[i - from]);
        match digit_of(c) {
            Some(d) => {
                proof {
                    assert(t.take(i - from + 1).drop_last() =~= t.take(i - from));
                    assert(t.take(i - from + 1).last() == t[i - from]);
                }
                let next: u64 = acc * 10 + d;
                assert(next == dec_val(t.take(i - from + 1)));
                if next > 0x8000_0000u64 {
                    proof {
                        lemma_dec_val_take_le(t, i - from + 1, t.len() as int);
                        assert(t.take(t.len() as int) =~= t);
                    }
                    return Err(());
                }
                acc = next;
            },
            None => {
                assert(!all_digits(t));
                return Err(());
            },
        }
        i += 1;
    }
    proof {
        assert(t.take(i - from) =~= t);
        assert(t.len() > 0);
    }
    Ok(acc)
}

/// Parse a signed decimal integer spanning all of `s`, as `str::parse`
/// for `i32` reads it: an optional sign, then digits, rejecting overflow.
pub fn parse_i32(s: &str) -> (r: Result<i32, ()>)
    ensures
        match r {
            Ok(v) => spec_parse_i32(s@) == Some(v as int),
            Err(()) => spec_parse_i32(s@) is None,
        },
{
    let n: usize = s.unicode_len();
    if n == 0 {
        assert(!all_digits(s@));
        return Err(());
    }
    let c0 = s.get_char(0);
    if c0 == '-' {
        assert(s@.skip(1) =~= s@.drop_first());
        match parse_digits_capped(s, 1) {
            Ok(v) => {
                let r: i64 = -(v as i64);
                assert(i32::MIN <= r <= i32::MAX);
                Ok(r as i32)
            },
            Err(()) => Err(()),
        }
    } else if c0 == '+' {
        assert(s@.skip(1) =~= s@.drop_first());
        match parse_digits_capped(s, 1) {
            Ok(v) => {
                if v > 0x7FFF_FFFFu64 {
                    Err(())
                } else {
                    Ok(v as i32)
                }
            },
            Err(()) => Err(()),
        }
    } else {
        assert(s@.skip(0) =~= s@);
        match parse_digits_capped(s, 0) {
            Ok(v) => {
                if v > 0x7FFF_FFFFu64 {
                    Err(())
                } else {
                    assert(is_digit_char(s@[0]));
                    Ok(v as i32)
                }
            },
            Err(()) => Err(()),
        }
    }
}

/// Ten to the `k`-th power.
pub open spec fn pow10(k: nat) -> nat
    decreases k,
{
    if k == 0 {
        1
    } else {
        10 * pow10((k - 1) as nat)
    }
}

/// Powers of ten do not decrease.
pub proof fn lemma_pow10_mono(i: nat, j: nat)
    requires
        i <= j,
    ensures
        pow10(i) <= pow10(j),
    decreases j - i,
{
    if i < j {
        lemma_pow10_mono(i, (j - 1) as nat);
        assert(pow10(j) == 10 * pow10((j - 1) as nat));
    }
}

/// The small powers of ten, written out.
pub proof fn lemma_pow10_values()
    ensures
        pow10(0) == 1,
        pow10(1) == 10,
        pow10(2) == 100,
        pow10(3) == 1000,
        pow10(4) == 10000,
        pow10(5) == 100000,
        pow10(6) == 1000000,
        pow10(7) == 10000000,
        pow10(8) == 100000000,
        pow10(9) == 1000000000,
        pow10(10) == 10000000000,
{
    assert(pow10(0) == 1);
    assert(pow10(1) == 10);
    assert(pow10(2) == 100);
    assert(pow10(3) == 1000);
    assert(pow10(4) == 10000);
    assert(pow10(5) == 100000);
    assert(pow10(6) == 1000000);
    assert(pow10(7) == 10000000);
    assert(pow10(8) == 100000000);
    assert(pow10(9) == 1000000000);
    assert(pow10(10) == 10000000000);
}

/// A digit string's value is below ten to its length.
pub proof fn lemma_dec_val_lt_pow10(s: Seq<char>)
    ensures
        dec_val(s) < pow10(s.len()),
    decreases s.len(),
{
    if s.len() > 0 {
        lemma_dec_val_lt_pow10(s.drop_last());
        assert(char_digit_val(s.last()) <= 9);
        assert(pow10(s.len()) == 10 * pow10((s.len() - 1) as nat));
    }
}

/// Ten to the `k`-th power, as executable code.
pub fn pow10_u64(k: usize) -> (r: u64)
    requires
        k <= 9,
    ensures
        r == pow10(k as nat),
{
    proof {
        lemma_pow10_values();
    }
    let mut r: u64 = 1;
    let mut i: usize = 0;
    while i < k
        invariant
            0 <= i <= k <= 9,
            r == pow10(i as nat),
        decreases k - i,
    {
        proof {
            lemma_pow10_mono(i as nat, 8);
            lemma_pow10_values();
        }
        r = r * 10;
        i += 1;
    }
    r
}

/// A rendered integer consists of digits, possibly after one leading minus
/// sign.
pub proof fn lemma_idec_chars(v: int)
    ensures
        spec_idec(v).len() >= 1,
        forall|i: int|
            0 <= i < spec_idec(v).len() ==> is_digit_char(#[trigger] spec_idec(v)[i]) || (i == 0
                && spec_idec(v)[i] == '-'),
{
    if v < 0 {
        lemma_udec_all_digits((-v) as nat);
        let s = seq!['-'] + spec_udec((-v) as nat);
        assert forall|i: int|
            0 <= i < s.len() implies is_digit_char(#[trigger] s[i]) || (i == 0 && s[i]
            == '-') by {
            if i > 0 {
                assert(s[i] == spec_udec((-v) as nat)[i - 1]);
            }
        }
    } else {
        lemma_udec_all_digits(v as nat);
    }
}

/// Parsing a rendered integer gives the integer back.
pub proof fn lemma_parse_idec(v: int)
    requires
        i32::MIN <= v <= i32::MAX,
    ensures
        spec_parse_i32(spec_idec(v)) == Some(v),
{
    if v >= 0 {
        let s = spec_udec(v as nat);
        lemma_udec_all_digits(v as nat);
        lemma_udec_val(v as nat);
        assert(is_digit_char(s[0]));
        assert(s[0] != '-' && s[0] != '+');
        assert(spec_parse_int(s) == Some(dec_val(s) as int));
    } else {
        let m = (-v) as nat;
        let s = spec_idec(v);
        lemma_udec_all_digits(m);
        lemma_udec_val(m);
        assert(s[0] == '-');
        assert(s.drop_first() =~= spec_udec(m));
        assert(spec_parse_int(s) == Some(-(dec_val(spec_udec(m)) as int)));
    }
}

/// Are all characters of `s` decimal digits (and `s` not empty)?
pub fn str_all_digits(s: &str) -> (r: bool)
    ensures
        r == all_digits(s@),
{
    let n: usize = s.unicode_len();
    if n == 0 {
        return false;
    }
    let mut i: usize = 0;
    while i < n
        invariant
            0 <= i <= n,
            n == s@.len(),
            forall|k: int| 0 <= k < i ==> is_digit_char(#[trigger] s@[k]),
        decreases n - i,
    {
        match digit_of(s.get_char(i)) {
            Some(_) => {
                i += 1;
            },
            None => {
                return false;
            },
        }
    }
    true
}

} // verus!
