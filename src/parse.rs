use vstd::prelude::*;

verus! {

/// Why a numeric argument was rejected.
#[derive(Debug, Clone, Copy, PartialEq, Eq, Structural)]
pub enum ParseError {
    /// Not an optional sign followed by one or more ASCII digits.
    Malformed,
    /// Well formed, but the number does not fit the target type.
    OutOfRange,
}

pub open spec fn is_digit(c: char) -> bool {
    '0' <= c && c <= '9'
}

/// One or more ASCII digits.
pub open spec fn all_digits(d: Seq<char>) -> bool {
    d.len() > 0 && forall|i: int| 0 <= i < d.len() ==> is_digit(#[trigger] d[i])
}

/// The number that a string of decimal digits denotes.
pub open spec fn decimal_value(d: Seq<char>) -> nat
    decreases d.len(),
{
    if d.len() == 0 {
        0
    } else {
        decimal_value(d.drop_last()) * 10 + ((d.last() as int) - ('0' as int)) as nat
    }
}

/// What follows a leading sign, if there is one; `signed` admits `-` as well as `+`.
pub open spec fn unsigned_part(s: Seq<char>, signed: bool) -> Seq<char> {
    if s.len() > 0 && (s[0] == '+' || signed && s[0] == '-') {
        s.subrange(1, s.len() as int)
    } else {
        s
    }
}

pub open spec fn is_negative(s: Seq<char>) -> bool {
    s.len() > 0 && s[0] == '-'
}

/// A reservation id as text: an optional `+`, then decimal digits, at most `u32::MAX`.
pub open spec fn id_of(s: Seq<char>) -> Result<u32, ParseError> {
    let d = unsigned_part(s, false);
    if !all_digits(d) {
        Err(ParseError::Malformed)
    } else if decimal_value(d) > u32::MAX {
        Err(ParseError::OutOfRange)
    } else {
        Ok(decimal_value(d) as u32)
    }
}

/// A bid amount as text: an optional `+` or `-`, then decimal digits, within `i32`.
pub open spec fn amount_of(s: Seq<char>) -> Result<i32, ParseError> {
    let d = unsigned_part(s, true);
    if !all_digits(d) {
        Err(ParseError::Malformed)
    } else if is_negative(s) {
        if decimal_value(d) > 0x8000_0000 {
            Err(ParseError::OutOfRange)
        } else {
            Ok((-decimal_value(d)) as i32)
        }
    } else if decimal_value(d) > i32::MAX {
        Err(ParseError::OutOfRange)
    } else {
        Ok(decimal_value(d) as i32)
    }
}

proof fn lemma_value_grows(d: Seq<char>, c: char)
    requires
        is_digit(c),
    ensures
        decimal_value(d.push(c)) >= decimal_value(d),
        decimal_value(d.push(c)) == decimal_value(d) * 10 + ((c as int) - ('0' as int)),
{
    assert(d.push(c).drop_last() =~= d);
}

/// Reads the digits of `s` from `start` to the end, up to the value `limit`.
fn digits_from(s: &str, start: usize, limit: u64) -> (r: Result<u64, ParseError>)
    requires
        start <= s@.len(),
        limit <= u32::MAX,
    ensures
        ({
            let d = s@.subrange(start as int, s@.len() as int);
            r == if !all_digits(d) {
                Err(ParseError::Malformed)
            } else if decimal_value(d) > limit {
                Err(ParseError::OutOfRange)
            } else {
                Ok(decimal_value(d) as u64)
            }
        }),
{
    let n = s.unicode_len();
    if start == n {
        return Err(ParseError::Malformed);
    }
    let mut i: usize = start;
    let mut value: u64 = 0;
    let mut over = false;
    while i < n
        invariant
            start < n,
            n == s@.len(),
            start <= i <= n,
            limit <= u32::MAX,
            forall|j: int| start <= j < i ==> is_digit(#[trigger] s@[j]),
            !over ==> value == decimal_value(s@.subrange(start as int, i as int)) && value <= limit,
            over ==> decimal_value(s@.subrange(start as int, i as int)) > limit,
        decreases n - i,
    {
        let c = s.get_char(i);
        if !('0' <= c && c <= '9') {
            proof {
                let d = s@.subrange(start as int, n as int);
                assert(d[i - start] == c);
            }
            return Err(ParseError::Malformed);
        }
        proof {
            let d0 = s@.subrange(start as int, i as int);
            assert(s@.subrange(start as int, i + 1) =~= d0.push(c));
            lemma_value_grows(d0, c);
        }
        if !over {
            let v = value * 10 + (c as u64 - '0' as u64);
            if v > limit {
                over = true;
            } else {
                value = v;
            }
        }
        i = i + 1;
    }
    proof {
        let d = s@.subrange(start as int, n as int);
        assert forall|j: int| 0 <= j < d.len() implies is_digit(#[trigger] d[j]) by {
            assert(d[j] == s@[start + j]);
        }
    }
    if over {
        Err(ParseError::OutOfRange)
    } else {
        Ok(value)
    }
}

/// Parses a reservation id.
pub fn parse_id(s: &str) -> (r: Result<u32, ParseError>)
    ensures
        r == id_of(s@),
{
    let n = s.unicode_len();
    let start: usize = if n > 0 && s.get_char(0) == '+' {
        1
    } else {
        0
    };
    proof {
        assert(unsigned_part(s@, false) =~= s@.subrange(start as int, n as int));
    }
    match digits_from(s, start, 0xFFFF_FFFF) {
        Ok(v) => Ok(v as u32),
        Err(e) => Err(e),
    }
}

/// Parses a bid amount.
pub fn parse_amount(s: &str) -> (r: Result<i32, ParseError>)
    ensures
        r == amount_of(s@),
{
    let n = s.unicode_len();
    let first = if n > 0 {
        s.get_char(0)
    } else {
        ' '
    };
    let negative = n > 0 && first == '-';
    let start: usize = if n > 0 && (first == '+' || first == '-') {
        1
    } else {
        0
    };
    proof {
        assert(unsigned_part(s@, true) =~= s@.subrange(start as int, n as int));
    }
    let limit: u64 = if negative {
        0x8000_0000
    } else {
        0x7FFF_FFFF
    };
    match digits_from(s, start, limit) {
        Ok(v) => {
            if negative {
                Ok((0 - (v as i64)) as i32)
            } else {
                Ok(v as i32)
            }
        },
        Err(e) => Err(e),
    }
}

} // verus!
