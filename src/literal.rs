use vstd::prelude::*;

verus! {

/// Why the digits of an integer literal do not give a number.
#[derive(Clone, Copy, Debug, PartialEq, Eq, Structural)]
pub enum IntError {
    /// There are no digits at all.
    Empty,
    /// A character is not a digit of the radix.
    InvalidDigit,
    /// The number does not fit in 64 bits.
    PosOverflow,
}

impl IntError {
    /// The wording of the error, as std words it.
    pub fn message(self) -> (r: &'static str)
        ensures
            r@ == int_error_message(self),
    {
        match self {
            IntError::Empty => "cannot parse integer from empty string",
            IntError::InvalidDigit => "invalid digit found in string",
            IntError::PosOverflow => "number too large to fit in target type",
        }
    }
}

pub open spec fn int_error_message(e: IntError) -> Seq<char> {
    match e {
        IntError::Empty => "cannot parse integer from empty string"@,
        IntError::InvalidDigit => "invalid digit found in string"@,
        IntError::PosOverflow => "number too large to fit in target type"@,
    }
}

/// The value of `c` as a digit in bases up to 36; 36 where it is none.
pub open spec fn digit_value(c: char) -> nat {
    let u = c as u32;
    if 48 <= u <= 57 {
        (u - 48) as nat
    } else if 97 <= u <= 122 {
        (u - 97 + 10) as nat
    } else if 65 <= u <= 90 {
        (u - 65 + 10) as nat
    } else {
        36
    }
}

/// Reading `s` as digits in `radix`, left to right: the first character that is
/// not a digit, or the first digit that takes the value past `u64::MAX`, decides
/// the error.
pub open spec fn digits_spec(s: Seq<char>, radix: nat) -> Result<u64, IntError>
    decreases s.len(),
{
    if s.len() == 0 {
        Ok(0)
    } else {
        match digits_spec(s.drop_last(), radix) {
            Err(e) => Err(e),
            Ok(v) => {
                let d = digit_value(s.last());
                if d >= radix {
                    Err(IntError::InvalidDigit)
                } else if v * radix + d > u64::MAX {
                    Err(IntError::PosOverflow)
                } else {
                    Ok((v * radix + d) as u64)
                }
            },
        }
    }
}

/// What `u64::from_str_radix` gives: an optional leading `+`, then digits.
pub open spec fn from_str_radix_spec(s: Seq<char>, radix: nat) -> Result<u64, IntError> {
    if s.len() == 0 {
        Err(IntError::Empty)
    } else if (s[0] == '+' || s[0] == '-') && s.len() == 1 {
        Err(IntError::InvalidDigit)
    } else if s[0] == '+' {
        digits_spec(s.skip(1), radix)
    } else {
        digits_spec(s, radix)
    }
}

proof fn lemma_digits_error_sticks(s: Seq<char>, radix: nat, i: int, j: int)
    requires
        0 <= i <= j <= s.len(),
        digits_spec(s.subrange(0, i), radix) is Err,
    ensures
        digits_spec(s.subrange(0, j), radix) == digits_spec(s.subrange(0, i), radix),
    decreases j - i,
{
    if j > i {
        lemma_digits_error_sticks(s, radix, i, j - 1);
        assert(s.subrange(0, j).drop_last() =~= s.subrange(0, j - 1));
    }
}

pub fn digit_of(c: char) -> (r: u32)
    ensures
        r == digit_value(c),
{
    let u = c as u32;
    if 48 <= u && u <= 57 {
        u - 48
    } else if 97 <= u && u <= 122 {
        u - 97 + 10
    } else if 65 <= u && u <= 90 {
        u - 65 + 10
    } else {
        36
    }
}

/// Reads the characters of `s` from `start` on as digits in `radix`.
fn parse_digits(s: &str, start: usize, radix: u32) -> (r: Result<u64, IntError>)
    requires
        start <= s@.len(),
        2 <= radix <= 36,
    ensures
        r == digits_spec(s@.skip(start as int), radix as nat),
{
    let n = s.unicode_len();
    let ghost t = s@.skip(start as int);
    let mut v: u64 = 0;
    let mut i: usize = start;
    while i < n
        invariant
            n == s@.len(),
            start <= i <= n,
            t == s@.skip(start as int),
            2 <= radix <= 36,
            digits_spec(t.subrange(0, i - start), radix as nat) == Ok::<u64, IntError>(v),
        decreases n - i,
    {
        let ghost k = i - start;
        assert(t.subrange(0, k + 1).drop_last() =~= t.subrange(0, k));
        assert(t.subrange(0, k + 1).last() == s@[i as int]);
        let d = digit_of(s.get_char(i));
        if d >= radix {
            proof {
                lemma_digits_error_sticks(t, radix as nat, k + 1, t.len() as int);
                assert(t.subrange(0, t.len() as int) =~= t);
            }
            return Err(IntError::InvalidDigit);
        }
        let m = v.checked_mul(radix as u64);
        let w = match m {
            Some(m) => m.checked_add(d as u64),
            None => None,
        };
        match w {
            Some(w) => {
                v = w;
            },
            None => {
                proof {
                    assert(v * radix + d > u64::MAX) by (nonlinear_arith)
                        requires
                            m is None ==> v * radix > u64::MAX,
                            m matches Some(mm) ==> mm == v * radix && mm + d > u64::MAX,
                            d >= 0,
                    ;
                    lemma_digits_error_sticks(t, radix as nat, k + 1, t.len() as int);
                    assert(t.subrange(0, t.len() as int) =~= t);
                }
                return Err(IntError::PosOverflow);
            },
        }
        i = i + 1;
    }
    assert(t.subrange(0, n - start) =~= t);
    Ok(v)
}

/// The digits of an integer literal in `radix` (2 to 36), as `u64::from_str_radix`
/// reads them.
pub fn parse_integer(s: &str, radix: u32) -> (r: Result<u64, IntError>)
    requires
        2 <= radix <= 36,
    ensures
        r == from_str_radix_spec(s@, radix as nat),
{
    let n = s.unicode_len();
    if n == 0 {
        return Err(IntError::Empty);
    }
    let c = s.get_char(0);
    if (c == '+' || c == '-') && n == 1 {
        return Err(IntError::InvalidDigit);
    }
    if c == '+' {
        parse_digits(s, 1, radix)
    } else {
        proof {
            assert(s@.skip(0) =~= s@);
        }
        parse_digits(s, 0, radix)
    }
}

proof fn lemma_invalid_digit_in_digits(s: Seq<char>, radix: nat, i: int)
    requires
        0 <= i < s.len(),
        digit_value(s[i]) >= radix,
    ensures
        digits_spec(s, radix) is Err,
    decreases s.len(),
{
    if i < s.len() - 1 {
        lemma_invalid_digit_in_digits(s.drop_last(), radix, i);
    }
}

/// A character that is no digit of the radix makes the literal an error,
/// whatever comes before or after it: there is no wraparound to a value.
pub proof fn lemma_invalid_digit_rejected(s: Seq<char>, radix: nat, i: int)
    requires
        0 <= i < s.len(),
        digit_value(s[i]) >= radix,
        i > 0 || s[0] != '+',
    ensures
        from_str_radix_spec(s, radix) is Err,
{
    if s[0] == '+' && s.len() > 1 {
        lemma_invalid_digit_in_digits(s.skip(1), radix, i - 1);
    } else if s.len() > 1 || !(s[0] == '+' || s[0] == '-') {
        lemma_invalid_digit_in_digits(s, radix, i);
    }
}

} // verus!
