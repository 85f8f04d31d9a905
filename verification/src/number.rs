//! Integer parsing with the semantics of std's `from_str_radix` and
//! `str::parse` for integers: an optional sign, then at least one digit,
//! scanned left to right until the first bad digit or overflow.
use vstd::prelude::*;

verus! {

/// Why an integer could not be parsed (std's `IntErrorKind`).
#[derive(Debug, Clone, Copy, PartialEq, Eq, Structural)]
pub enum IntErrorKind {
    /// The text is empty.
    Empty,
    /// A character is not a digit of the radix (a lone sign counts).
    InvalidDigit,
    /// The value is above the type's maximum.
    PosOverflow,
    /// The value is below the type's minimum.
    NegOverflow,
}

/// The value of `c` as a digit of `radix` (2, 10 or 16), if it is one.
pub open spec fn digit_value(c: char, radix: nat) -> Option<nat> {
    if '0' <= c && c <= '9' && (c as nat) - 48 < radix {
        Some((c as nat - 48) as nat)
    } else if radix == 16 && 'a' <= c && c <= 'f' {
        Some((c as nat - 87) as nat)
    } else if radix == 16 && 'A' <= c && c <= 'F' {
        Some((c as nat - 55) as nat)
    } else {
        None
    }
}

/// Scanning the digits of `s` left to right: the magnitude so far, or the
/// first failure (a non-digit, or a magnitude above `max`).
pub open spec fn scan_digits(s: Seq<char>, radix: nat, max: nat) -> Result<nat, IntErrorKind>
    decreases s.len(),
{
    if s.len() == 0 {
        Ok(0)
    } else {
        match scan_digits(s.drop_last(), radix, max) {
            Err(e) => Err(e),
            Ok(v) => match digit_value(s.last(), radix) {
                None => Err(IntErrorKind::InvalidDigit),
                Some(d) => if v * radix + d > max {
                    Err(IntErrorKind::PosOverflow)
                } else {
                    Ok(v * radix + d)
                },
            },
        }
    }
}

/// An unsigned integer up to `max` in `radix`, as `from_str_radix` reads it.
pub open spec fn parse_unsigned_spec(s: Seq<char>, radix: nat, max: nat) -> Result<nat, IntErrorKind> {
    if s.len() == 0 {
        Err(IntErrorKind::Empty)
    } else if s[0] == '+' {
        if s.len() == 1 {
            Err(IntErrorKind::InvalidDigit)
        } else {
            scan_digits(s.drop_first(), radix, max)
        }
    } else {
        scan_digits(s, radix, max)
    }
}

/// An `i64` in `radix`, as `i64::from_str_radix` reads it: an optional
/// sign, then digits.
pub open spec fn parse_signed_spec(s: Seq<char>, radix: nat) -> Result<int, IntErrorKind> {
    if s.len() == 0 {
        Err(IntErrorKind::Empty)
    } else if (s[0] == '+' || s[0] == '-') && s.len() == 1 {
        Err(IntErrorKind::InvalidDigit)
    } else if s[0] == '-' {
        match scan_digits(s.drop_first(), radix, 0x8000_0000_0000_0000) {
            Ok(v) => Ok(-v),
            Err(IntErrorKind::PosOverflow) => Err(IntErrorKind::NegOverflow),
            Err(e) => Err(e),
        }
    } else if s[0] == '+' {
        match scan_digits(s.drop_first(), radix, 0x7FFF_FFFF_FFFF_FFFF) {
            Ok(v) => Ok(v as int),
            Err(e) => Err(e),
        }
    } else {
        match scan_digits(s, radix, 0x7FFF_FFFF_FFFF_FFFF) {
            Ok(v) => Ok(v as int),
            Err(e) => Err(e),
        }
    }
}

/// A decimal `i64`, as `str::parse::<i64>` reads it.
pub open spec fn parse_i64_spec(s: Seq<char>) -> Result<int, IntErrorKind> {
    parse_signed_spec(s, 10)
}

/// The value of `c` as a digit of `radix` (2, 10 or 16).
pub fn digit_of(c: char, radix: u32) -> (r: Option<u32>)
    requires
        radix == 2 || radix == 10 || radix == 16,
    ensures
        match digit_value(c, radix as nat) {
            Some(d) => r == Some(d as u32),
            None => r is None,
        },
{
    if '0' <= c && c <= '9' && (c as u32) - 48 < radix {
        Some((c as u32) - 48)
    } else if radix == 16 && 'a' <= c && c <= 'f' {
        Some((c as u32) - 87)
    } else if radix == 16 && 'A' <= c && c <= 'F' {
        Some((c as u32) - 55)
    } else {
        None
    }
}

/// Scans `s[lo..hi]` as digits of `radix`, failing past `max`.
pub fn scan(s: &[char], lo: usize, hi: usize, radix: u32, max: u64) -> (r: Result<u64, IntErrorKind>)
    requires
        lo <= hi <= s.len(),
        radix == 2 || radix == 10 || radix == 16,
    ensures
        match scan_digits(s@.subrange(lo as int, hi as int), radix as nat, max as nat) {
            Ok(v) => r == Ok::<u64, IntErrorKind>(v as u64),
            Err(e) => r == Err::<u64, IntErrorKind>(e),
        },
{
    let mut v: u64 = 0;
    let mut i = lo;
    while i < hi
        invariant
            lo <= i <= hi <= s.len(),
            radix == 2 || radix == 10 || radix == 16,
            scan_digits(s@.subrange(lo as int, i as int), radix as nat, max as nat) == Ok::<nat, IntErrorKind>(
                v as nat,
            ),
            v <= max,
        decreases hi - i,
    {
        let ghost pre = s@.subrange(lo as int, i as int);
        let ghost next = s@.subrange(lo as int, i + 1);
        assert(next.drop_last() =~= pre);
        assert(next.last() == s@[i as int]);
        match digit_of(s[i], radix) {
            None => {
                proof {
                    lemma_scan_stays_err(s@, lo as int, i + 1, hi as int, radix as nat, max as nat);
                }
                return Err(IntErrorKind::InvalidDigit);
            },
            Some(d) => {
                if d as u64 > max {
                    proof {
                        assert(v * radix + d > max) by (nonlinear_arith)
                            requires
                                d > max,
                                v >= 0,
                                radix > 0,
                        ;
                        lemma_scan_stays_err(s@, lo as int, i + 1, hi as int, radix as nat, max as nat);
                    }
                    return Err(IntErrorKind::PosOverflow);
                }
                if v > (max - d as u64) / (radix as u64) {
                    proof {
                        assert(v * radix + d > max) by (nonlinear_arith)
                            requires
                                v > (max - d) / (radix as int),
                                radix > 0,
                                d <= max,
                        ;
                        lemma_scan_stays_err(s@, lo as int, i + 1, hi as int, radix as nat, max as nat);
                    }
                    return Err(IntErrorKind::PosOverflow);
                }
                proof {
                    assert(v * radix + d <= max) by (nonlinear_arith)
                        requires
                            v <= (max - d) / (radix as int),
                            radix > 0,
                            d <= max,
                    ;
                }
                v = v * (radix as u64) + d as u64;
            },
        }
        i += 1;
    }
    Ok(v)
}

/// Once a scan fails, scanning more characters fails the same way.
proof fn lemma_scan_stays_err(s: Seq<char>, lo: int, mid: int, hi: int, radix: nat, max: nat)
    requires
        0 <= lo <= mid <= hi <= s.len(),
        scan_digits(s.subrange(lo, mid), radix, max) is Err,
    ensures
        scan_digits(s.subrange(lo, hi), radix, max) == scan_digits(s.subrange(lo, mid), radix, max),
    decreases hi - mid,
{
    if hi > mid {
        lemma_scan_stays_err(s, lo, mid, hi - 1, radix, max);
        assert(s.subrange(lo, hi).drop_last() =~= s.subrange(lo, hi - 1));
    }
}

/// An unsigned integer at most `max` read from `s[lo..hi]` in `radix`, as
/// `from_str_radix` (and `str::parse` in radix 10) reads it.
pub fn parse_unsigned(s: &[char], lo: usize, hi: usize, radix: u32, max: u64) -> (r: Result<
    u64,
    IntErrorKind,
>)
    requires
        lo <= hi <= s.len(),
        radix == 10 || radix == 16,
    ensures
        match parse_unsigned_spec(s@.subrange(lo as int, hi as int), radix as nat, max as nat) {
            Ok(v) => r == Ok::<u64, IntErrorKind>(v as u64),
            Err(e) => r == Err::<u64, IntErrorKind>(e),
        },
{
    let ghost t = s@.subrange(lo as int, hi as int);
    if lo == hi {
        return Err(IntErrorKind::Empty);
    }
    if s[lo] == '+' {
        if hi - lo == 1 {
            return Err(IntErrorKind::InvalidDigit);
        }
        assert(t.drop_first() =~= s@.subrange(lo + 1, hi as int));
        scan(s, lo + 1, hi, radix, max)
    } else {
        scan(s, lo, hi, radix, max)
    }
}

/// An `i64` in `radix` read from `s[lo..hi]`, as `i64::from_str_radix`
/// reads it.
pub fn parse_i64_radix(s: &[char], lo: usize, hi: usize, radix: u32) -> (r: Result<i64, IntErrorKind>)
    requires
        lo <= hi <= s.len(),
        radix == 2 || radix == 10 || radix == 16,
    ensures
        match parse_signed_spec(s@.subrange(lo as int, hi as int), radix as nat) {
            Ok(v) => r == Ok::<i64, IntErrorKind>(v as i64),
            Err(e) => r == Err::<i64, IntErrorKind>(e),
        },
        r matches Ok(v) ==> parse_signed_spec(s@.subrange(lo as int, hi as int), radix as nat) == Ok::<
            int,
            IntErrorKind,
        >(v as int),
{
    let ghost t = s@.subrange(lo as int, hi as int);
    if lo == hi {
        return Err(IntErrorKind::Empty);
    }
    if (s[lo] == '+' || s[lo] == '-') && hi - lo == 1 {
        return Err(IntErrorKind::InvalidDigit);
    }
    if s[lo] == '-' {
        assert(t.drop_first() =~= s@.subrange(lo + 1, hi as int));
        match scan(s, lo + 1, hi, radix, 0x8000_0000_0000_0000u64) {
            Ok(v) => {
                if v == 0x8000_0000_0000_0000u64 {
                    Ok(i64::MIN)
                } else {
                    Ok(-(v as i64))
                }
            },
            Err(IntErrorKind::PosOverflow) => Err(IntErrorKind::NegOverflow),
            Err(e) => Err(e),
        }
    } else if s[lo] == '+' {
        assert(t.drop_first() =~= s@.subrange(lo + 1, hi as int));
        match scan(s, lo + 1, hi, radix, 0x7FFF_FFFF_FFFF_FFFFu64) {
            Ok(v) => Ok(v as i64),
            Err(e) => Err(e),
        }
    } else {
        match scan(s, lo, hi, radix, 0x7FFF_FFFF_FFFF_FFFFu64) {
            Ok(v) => Ok(v as i64),
            Err(e) => Err(e),
        }
    }
}

/// A decimal `i64` read from `s[lo..hi]`, as `str::parse::<i64>` reads it.
pub fn parse_i64(s: &[char], lo: usize, hi: usize) -> (r: Result<i64, IntErrorKind>)
    requires
        lo <= hi <= s.len(),
    ensures
        match parse_i64_spec(s@.subrange(lo as int, hi as int)) {
            Ok(v) => r == Ok::<i64, IntErrorKind>(v as i64),
            Err(e) => r == Err::<i64, IntErrorKind>(e),
        },
        r matches Ok(v) ==> parse_i64_spec(s@.subrange(lo as int, hi as int)) == Ok::<int, IntErrorKind>(v as int),
{
    parse_i64_radix(s, lo, hi, 10)
}


/// A magnitude that scanning accepts is at most `max`.
pub proof fn lemma_scan_digits_bound(t: Seq<char>, radix: nat, max: nat)
    ensures
        scan_digits(t, radix, max) matches Ok(v) ==> v <= max,
    decreases t.len(),
{
    if t.len() > 0 {
        lemma_scan_digits_bound(t.drop_last(), radix, max);
    }
}

/// A value that `parse_unsigned_spec` accepts is at most `max`.
pub proof fn lemma_parse_unsigned_bound(t: Seq<char>, radix: nat, max: nat)
    ensures
        parse_unsigned_spec(t, radix, max) matches Ok(v) ==> v <= max,
{
    lemma_scan_digits_bound(t, radix, max);
    if t.len() > 0 {
        lemma_scan_digits_bound(t.drop_first(), radix, max);
    }
}

} // verus!
