use vstd::prelude::*;

verus! {

/// Why a raw sensor reading could not be turned into a number.
#[derive(Clone, Copy, Debug, PartialEq, Eq, Structural)]
pub enum SensorError {
    /// Nothing but whitespace in the reading.
    Empty,
    /// A byte that is not a decimal digit.
    NonDigit,
    /// The digits denote a value above `u64::MAX`.
    Overflow,
}

/// The whitespace bytes that sensor files carry around the number:
/// space, tab, line feed, carriage return.
pub open spec fn is_space(b: u8) -> bool {
    b == 32 || b == 9 || b == 10 || b == 13
}

/// An ASCII decimal digit.
pub open spec fn is_digit(b: u8) -> bool {
    48 <= b <= 57
}

/// The numeric value of one digit byte.
pub open spec fn digit_val(b: u8) -> int {
    b - 48
}

/// The value of a run of decimal digits, most significant first.
pub open spec fn digits_val(s: Seq<u8>) -> int
    decreases s.len(),
{
    if s.len() == 0 {
        0
    } else {
        digits_val(s.drop_last()) * 10 + digit_val(s.last())
    }
}

pub open spec fn all_digits(s: Seq<u8>) -> bool {
    forall|i: int| 0 <= i < s.len() ==> is_digit(s[i])
}

/// `s` with its leading whitespace removed.
pub open spec fn trim_start(s: Seq<u8>) -> Seq<u8>
    decreases s.len(),
{
    if s.len() > 0 && is_space(s[0]) {
        trim_start(s.skip(1))
    } else {
        s
    }
}

/// `s` with its trailing whitespace removed.
pub open spec fn trim_end(s: Seq<u8>) -> Seq<u8>
    decreases s.len(),
{
    if s.len() > 0 && is_space(s.last()) {
        trim_end(s.drop_last())
    } else {
        s
    }
}

/// `s` with whitespace removed on both sides.
pub open spec fn trim(s: Seq<u8>) -> Seq<u8> {
    trim_end(trim_start(s))
}

/// What parsing a raw reading returns: the digits' value, or the first
/// applicable error, judged on the whole trimmed reading.
pub open spec fn spec_parse_raw(s: Seq<u8>) -> Result<u64, SensorError> {
    if trim(s).len() == 0 {
        Err(SensorError::Empty)
    } else if !all_digits(trim(s)) {
        Err(SensorError::NonDigit)
    } else if digits_val(trim(s)) > u64::MAX {
        Err(SensorError::Overflow)
    } else {
        Ok(digits_val(trim(s)) as u64)
    }
}

fn is_space_byte(b: u8) -> (r: bool)
    ensures
        r == is_space(b),
{
    b == 32 || b == 9 || b == 10 || b == 13
}

fn is_digit_byte(b: u8) -> (r: bool)
    ensures
        r == is_digit(b),
{
    48 <= b && b <= 57
}

/// Parse a raw sensor reading: whitespace around a run of decimal digits.
pub fn parse_raw(s: &[u8]) -> (r: Result<u64, SensorError>)
    ensures
        r == spec_parse_raw(s@),
{
    let n: usize = s.len();
    let mut lo: usize = 0;
    proof {
        assert(s@.skip(0) =~= s@);
    }
    while lo < n && is_space_byte(s[lo])
        invariant
            n == s@.len(),
            lo <= n,
            trim_start(s@) == trim_start(s@.skip(lo as int)),
        decreases n - lo,
    {
        proof {
            let t = s@.skip(lo as int);
            assert(t[0] == s@[lo as int]);
            assert(t.skip(1) =~= s@.skip(lo as int + 1));
        }
        lo = lo + 1;
    }
    proof {
        if lo < n {
            assert(s@.skip(lo as int)[0] == s@[lo as int]);
        }
        assert(trim_start(s@) == s@.skip(lo as int));
        assert(s@.skip(lo as int) =~= s@.subrange(lo as int, n as int));
    }
    let mut hi: usize = n;
    while hi > lo && is_space_byte(s[hi - 1])
        invariant
            n == s@.len(),
            lo <= hi <= n,
            trim_start(s@) == s@.subrange(lo as int, n as int),
            trim_end(s@.subrange(lo as int, n as int)) == trim_end(
                s@.subrange(lo as int, hi as int),
            ),
        decreases hi,
    {
        proof {
            let t = s@.subrange(lo as int, hi as int);
            assert(t.last() == s@[hi - 1]);
            assert(t.drop_last() =~= s@.subrange(lo as int, hi as int - 1));
        }
        hi = hi - 1;
    }
    proof {
        if hi > lo {
            assert(s@.subrange(lo as int, hi as int).last() == s@[hi - 1]);
        }
        assert(trim(s@) == s@.subrange(lo as int, hi as int));
    }
    if hi == lo {
        return Err(SensorError::Empty);
    }
    let mut acc: u64 = 0;
    let mut overflowed: bool = false;
    let mut i: usize = lo;
    while i < hi
        invariant
            n == s@.len(),
            lo <= i <= hi <= n,
            lo < hi,
            trim(s@) == s@.subrange(lo as int, hi as int),
            forall|j: int| lo <= j < i ==> is_digit(s@[j]),
            overflowed ==> digits_val(s@.subrange(lo as int, i as int)) > u64::MAX,
            !overflowed ==> acc == digits_val(s@.subrange(lo as int, i as int)),
        decreases hi - i,
    {
        let b = s[i];
        if !is_digit_byte(b) {
            proof {
                assert(trim(s@)[i - lo] == s@[i as int]);
            }
            return Err(SensorError::NonDigit);
        }
        proof {
            let pre = s@.subrange(lo as int, i as int);
            let ext = s@.subrange(lo as int, i as int + 1);
            assert(ext.drop_last() =~= pre);
            assert(ext.last() == s@[i as int]);
            assert(digits_val(ext) == digits_val(pre) * 10 + digit_val(s@[i as int]));
        }
        let d = b - 48;
        if overflowed {
            proof {
                let pre = s@.subrange(lo as int, i as int);
                assert(digits_val(pre) * 10 + digit_val(s@[i as int]) > u64::MAX) by {
                    assert(digits_val(pre) > u64::MAX);
                    assert(digit_val(s@[i as int]) >= 0);
                };
            }
        } else {
            match acc.checked_mul(10) {
                Some(m) => {
                    match m.checked_add(d as u64) {
                        Some(v) => {
                            acc = v;
                        },
                        None => {
                            overflowed = true;
                        },
                    }
                },
                None => {
                    overflowed = true;
                },
            }
        }
        i = i + 1;
    }
    proof {
        assert forall|k: int| 0 <= k < trim(s@).len() implies is_digit(trim(s@)[k]) by {
            assert(trim(s@)[k] == s@[lo + k]);
        }
        assert(s@.subrange(lo as int, i as int) =~= trim(s@));
    }
    if overflowed {
        Err(SensorError::Overflow)
    } else {
        Ok(acc)
    }
}

/// Raw sensor units are milli-units: one temperature unit is 1000 raw units,
/// with the remainder discarded.
pub open spec fn spec_convert(raw: u64) -> u64 {
    (raw as int / 1000) as u64
}

/// Convert a raw reading to whole temperature units by integer division.
pub fn convert_raw(raw: u64) -> (t: u64)
    ensures
        t == spec_convert(raw),
{
    raw / 1000
}

/// What a whole sensor sample yields: the converted temperature, or the
/// parse error of the raw text.
pub open spec fn spec_read_temperature(s: Seq<u8>) -> Result<u64, SensorError> {
    match spec_parse_raw(s) {
        Ok(v) => Ok(spec_convert(v)),
        Err(e) => Err(e),
    }
}

/// Parse a raw reading and convert it to whole temperature units.
pub fn read_temperature(s: &[u8]) -> (r: Result<u64, SensorError>)
    ensures
        r == spec_read_temperature(s@),
{
    match parse_raw(s) {
        Ok(v) => Ok(convert_raw(v)),
        Err(e) => Err(e),
    }
}

} // verus!
