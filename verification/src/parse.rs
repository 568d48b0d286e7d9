//! Reading an unsigned 32-bit decimal number from text, as `str::parse::<u32>`
//! does, and trimming white space from a line.

use vstd::prelude::*;

verus! {

/// Why a text is not a `u32` number.
#[derive(Clone, Copy, Debug, PartialEq, Eq, Structural)]
pub enum IntErrorKind {
    /// The text is empty.
    Empty,
    /// The text holds a character that is not a decimal digit where one is
    /// needed.
    InvalidDigit,
    /// The number is larger than `u32::MAX`.
    PosOverflow,
}

/// The byte is an ASCII decimal digit.
pub open spec fn is_digit(b: u8) -> bool {
    0x30 <= b <= 0x39
}

/// Reading the first `i` digits of `d` from left to right: the number so far,
/// or the first error met.
pub open spec fn scan_digits(d: Seq<u8>, i: nat) -> Result<u32, IntErrorKind>
    recommends
        i <= d.len(),
    decreases i,
{
    if i == 0 {
        Ok(0u32)
    } else {
        match scan_digits(d, (i - 1) as nat) {
            Err(e) => Err(e),
            Ok(v) => {
                let c = d[i - 1];
                if !is_digit(c) {
                    Err(IntErrorKind::InvalidDigit)
                } else if v * 10 + (c - 0x30) > u32::MAX {
                    Err(IntErrorKind::PosOverflow)
                } else {
                    Ok((v * 10 + (c - 0x30)) as u32)
                }
            },
        }
    }
}

/// The result of reading the text `s` as a `u32`: an optional leading `+`,
/// then decimal digits.
pub open spec fn parse_u32_spec(s: Seq<u8>) -> Result<u32, IntErrorKind> {
    if s.len() == 0 {
        Err(IntErrorKind::Empty)
    } else if s.len() == 1 && (s[0] == 0x2b || s[0] == 0x2d) {
        Err(IntErrorKind::InvalidDigit)
    } else if s[0] == 0x2b {
        scan_digits(s.skip(1), (s.len() - 1) as nat)
    } else {
        scan_digits(s, s.len())
    }
}

/// Reads the digits `s[from..]` as a number.
fn scan_from(s: &[u8], from: usize) -> (r: Result<u32, IntErrorKind>)
    requires
        from <= s@.len(),
    ensures
        r == scan_digits(s@.skip(from as int), (s@.len() - from) as nat),
{
    let ghost d = s@.skip(from as int);
    let mut acc: u32 = 0;
    let mut i: usize = from;
    while i < s.len()
        invariant
            from <= i <= s@.len(),
            d == s@.skip(from as int),
            scan_digits(d, (i - from) as nat) == Ok::<u32, IntErrorKind>(acc),
        decreases s@.len() - i,
    {
        let c = s[i];
        assert(d[(i - from) as int] == c);
        if c < 0x30 || c > 0x39 {
            proof {
                lemma_scan_error_sticks(d, (i - from + 1) as nat, (s@.len() - from) as nat);
            }
            return Err(IntErrorKind::InvalidDigit);
        }
        let next: u64 = acc as u64 * 10 + (c - 0x30) as u64;
        if next > 0xffff_ffff {
            proof {
                lemma_scan_error_sticks(d, (i - from + 1) as nat, (s@.len() - from) as nat);
            }
            return Err(IntErrorKind::PosOverflow);
        }
        acc = next as u32;
        i = i + 1;
    }
    Ok(acc)
}

/// Once reading the digits has failed, reading more of them fails the same way.
proof fn lemma_scan_error_sticks(d: Seq<u8>, i: nat, j: nat)
    requires
        i <= j,
        scan_digits(d, i) is Err,
    ensures
        scan_digits(d, j) == scan_digits(d, i),
    decreases j - i,
{
    if i < j {
        lemma_scan_error_sticks(d, i, (j - 1) as nat);
    }
}

/// Reads the text `s` as an unsigned 32-bit decimal number, as
/// `str::parse::<u32>` does: an optional `+` sign, then one or more digits.
pub fn parse_u32(s: &[u8]) -> (r: Result<u32, IntErrorKind>)
    ensures
        r == parse_u32_spec(s@),
{
    if s.len() == 0 {
        Err(IntErrorKind::Empty)
    } else if s.len() == 1 && (s[0] == 0x2b || s[0] == 0x2d) {
        Err(IntErrorKind::InvalidDigit)
    } else if s[0] == 0x2b {
        scan_from(s, 1)
    } else {
        proof {
            assert(s@.skip(0) =~= s@);
        }
        scan_from(s, 0)
    }
}


/// Every byte of `s` is an ASCII decimal digit.
pub open spec fn all_digits(s: Seq<u8>) -> bool {
    forall|k: int| 0 <= k < s.len() ==> 0x30 <= #[trigger] s[k] <= 0x39
}

/// The number that the decimal digits `s` write: the sum of
/// `digit_k * 10^(n - 1 - k)` over the `n` digits.
pub open spec fn decimal_value(s: Seq<u8>) -> int
    decreases s.len(),
{
    if s.len() == 0 {
        0
    } else {
        (s[0] - 0x30) * vstd::arithmetic::power::pow(10, (s.len() - 1) as nat) + decimal_value(
            s.drop_first(),
        )
    }
}

proof fn lemma_decimal_value_nonneg(s: Seq<u8>)
    requires
        all_digits(s),
    ensures
        decimal_value(s) >= 0,
    decreases s.len(),
{
    if s.len() > 0 {
        assert(all_digits(s.drop_first())) by {
            assert forall|k: int| 0 <= k < s.drop_first().len() implies 0x30 <= #[trigger] s.drop_first()[k] <= 0x39 by {
                assert(s.drop_first()[k] == s[k + 1]);
            }
        }
        lemma_decimal_value_nonneg(s.drop_first());
        vstd::arithmetic::power::lemma_pow_positive(10, (s.len() - 1) as nat);
        let d = s[0] - 0x30;
        let p = vstd::arithmetic::power::pow(10, (s.len() - 1) as nat);
        assert(d * p >= 0) by (nonlinear_arith)
            requires
                d >= 0,
                p > 0,
        ;
    }
}

/// Appending a digit multiplies the number by ten and adds the digit.
proof fn lemma_decimal_value_push(s: Seq<u8>, b: u8)
    ensures
        decimal_value(s.push(b)) == decimal_value(s) * 10 + (b - 0x30),
    decreases s.len(),
{
    reveal(vstd::arithmetic::power::pow);
    if s.len() == 0 {
        assert(s.push(b).drop_first() =~= Seq::<u8>::empty());
        assert(vstd::arithmetic::power::pow(10, 0) == 1);
        assert(decimal_value(s.push(b)) == (b - 0x30) * 1 + decimal_value(Seq::<u8>::empty()));
    } else {
        let t = s.push(b);
        assert(t.drop_first() =~= s.drop_first().push(b));
        lemma_decimal_value_push(s.drop_first(), b);
        let d = s[0] - 0x30;
        let n = s.len();
        let p = vstd::arithmetic::power::pow(10, (n - 1) as nat);
        assert(vstd::arithmetic::power::pow(10, n as nat) == 10 * p);
        assert(d * (10 * p) == (d * p) * 10) by (nonlinear_arith);
        assert(t[0] == s[0]);
        assert(decimal_value(t) == d * vstd::arithmetic::power::pow(10, n as nat) + decimal_value(
            t.drop_first(),
        ));
        assert(decimal_value(s) == d * p + decimal_value(s.drop_first()));
    }
}

proof fn lemma_all_digits_take(s: Seq<u8>, i: int)
    requires
        all_digits(s),
        0 <= i <= s.len(),
    ensures
        all_digits(s.take(i)),
{
    assert forall|k: int| 0 <= k < s.take(i).len() implies 0x30 <= #[trigger] s.take(i)[k] <= 0x39 by {
        assert(s.take(i)[k] == s[k]);
    }
}

/// Reading the first `i` digits gives their number while it fits in a `u32`,
/// and fails with `PosOverflow` once it does not.
proof fn lemma_scan_digits_value(d: Seq<u8>, i: nat)
    requires
        all_digits(d),
        i <= d.len(),
    ensures
        decimal_value(d.take(i as int)) <= u32::MAX ==> scan_digits(d, i) == Ok::<u32, IntErrorKind>(
            decimal_value(d.take(i as int)) as u32,
        ),
        decimal_value(d.take(i as int)) > u32::MAX ==> scan_digits(d, i) == Err::<u32, IntErrorKind>(
            IntErrorKind::PosOverflow,
        ),
    decreases i,
{
    if i == 0 {
        assert(d.take(0) =~= Seq::<u8>::empty());
    } else {
        lemma_scan_digits_value(d, (i - 1) as nat);
        let prev = d.take(i - 1);
        assert(d.take(i as int) =~= prev.push(d[i - 1]));
        lemma_decimal_value_push(prev, d[i - 1]);
        lemma_all_digits_take(d, i - 1);
        lemma_decimal_value_nonneg(prev);
        assert(0x30 <= d[i - 1] <= 0x39);
        if decimal_value(prev) > u32::MAX {
            assert(decimal_value(d.take(i as int)) > u32::MAX);
        }
    }
}

/// Reading digits gives their decimal number: for every non-empty string of
/// ASCII digits whose number fits in a `u32`, the result is that number; when
/// it does not fit, the result is `PosOverflow`.
pub proof fn lemma_parse_digits(s: Seq<u8>)
    requires
        s.len() > 0,
        all_digits(s),
    ensures
        decimal_value(s) <= u32::MAX ==> parse_u32_spec(s) == Ok::<u32, IntErrorKind>(
            decimal_value(s) as u32,
        ),
        decimal_value(s) > u32::MAX ==> parse_u32_spec(s) == Err::<u32, IntErrorKind>(
            IntErrorKind::PosOverflow,
        ),
{
    assert(0x30 <= s[0] <= 0x39);
    lemma_scan_digits_value(s, s.len());
    assert(s.take(s.len() as int) =~= s);
}

/// A `+` sign before the digits reads as the digits alone.
pub proof fn lemma_parse_plus_digits(s: Seq<u8>)
    requires
        s.len() > 0,
        all_digits(s),
    ensures
        parse_u32_spec(seq![0x2bu8] + s) == parse_u32_spec(s),
{
    let t = seq![0x2bu8] + s;
    assert(t.skip(1) =~= s);
    assert(0x30 <= s[0] <= 0x39);
}

/// The empty text is `Empty`; a text whose first character is neither a
/// digit nor `+`, or whose only character is a sign, is `InvalidDigit`.
pub proof fn lemma_parse_rejects(s: Seq<u8>)
    ensures
        s.len() == 0 ==> parse_u32_spec(s) == Err::<u32, IntErrorKind>(IntErrorKind::Empty),
        s.len() > 0 && !is_digit(s[0]) && s[0] != 0x2b ==> parse_u32_spec(s) == Err::<u32, IntErrorKind>(
            IntErrorKind::InvalidDigit,
        ),
        s.len() == 1 && (s[0] == 0x2b || s[0] == 0x2d) ==> parse_u32_spec(s) == Err::<u32, IntErrorKind>(
            IntErrorKind::InvalidDigit,
        ),
{
    if s.len() > 0 && !is_digit(s[0]) && s[0] != 0x2b && s.len() > 1 {
        assert(scan_digits(s, 0) == Ok::<u32, IntErrorKind>(0u32));
        assert(scan_digits(s, 1) == Err::<u32, IntErrorKind>(IntErrorKind::InvalidDigit));
        lemma_scan_error_sticks(s, 1, s.len());
    }
}

/// The character has the Unicode `White_Space` property, as
/// `char::is_whitespace` tests.
pub open spec fn is_white_space(c: char) -> bool {
    let v = c as u32;
    ||| 0x09 <= v <= 0x0d
    ||| v == 0x20
    ||| v == 0x85
    ||| v == 0xa0
    ||| v == 0x1680
    ||| 0x2000 <= v <= 0x200a
    ||| v == 0x2028
    ||| v == 0x2029
    ||| v == 0x202f
    ||| v == 0x205f
    ||| v == 0x3000
}

/// `s` without its leading white space.
pub open spec fn trim_start(s: Seq<char>) -> Seq<char>
    decreases s.len(),
{
    if s.len() > 0 && is_white_space(s[0]) {
        trim_start(s.drop_first())
    } else {
        s
    }
}

/// `s` without its trailing white space.
pub open spec fn trim_end(s: Seq<char>) -> Seq<char>
    decreases s.len(),
{
    if s.len() > 0 && is_white_space(s.last()) {
        trim_end(s.drop_last())
    } else {
        s
    }
}

/// `s` without leading and trailing white space, as `str::trim` gives it.
pub open spec fn trim(s: Seq<char>) -> Seq<char> {
    trim_end(trim_start(s))
}

/// Tests whether `c` is white space.
pub fn is_white_space_char(c: char) -> (r: bool)
    ensures
        r == is_white_space(c),
{
    let v = c as u32;
    (0x09 <= v && v <= 0x0d) || v == 0x20 || v == 0x85 || v == 0xa0 || v == 0x1680 || (0x2000
        <= v && v <= 0x200a) || v == 0x2028 || v == 0x2029 || v == 0x202f || v == 0x205f || v
        == 0x3000
}

/// The bounds `(i, j)` of the part of `s` that trimming keeps.
pub fn trim_bounds(s: &[char]) -> (r: (usize, usize))
    ensures
        r.0 <= r.1 <= s@.len(),
        s@.subrange(r.0 as int, r.1 as int) == trim(s@),
        r.0 == s@.len() - trim_start(s@).len(),
        r.1 == r.0 + trim(s@).len(),
{
    let mut i: usize = 0;
    assert(s@.subrange(0, s@.len() as int) =~= s@);
    while i < s.len() && is_white_space_char(s[i])
        invariant
            i <= s@.len(),
            trim_start(s@) == trim_start(s@.subrange(i as int, s@.len() as int)),
        decreases s@.len() - i,
    {
        assert(s@.subrange(i as int, s@.len() as int).drop_first() =~= s@.subrange(
            i + 1,
            s@.len() as int,
        ));
        i = i + 1;
    }
    let ghost t = s@.subrange(i as int, s@.len() as int);
    assert(trim_start(s@) == t);
    let mut j: usize = s.len();
    while j > i && is_white_space_char(s[j - 1])
        invariant
            i <= j <= s@.len(),
            t == s@.subrange(i as int, s@.len() as int),
            trim_end(t) == trim_end(s@.subrange(i as int, j as int)),
        decreases j,
    {
        assert(s@.subrange(i as int, j as int).drop_last() =~= s@.subrange(i as int, j - 1));
        j = j - 1;
    }
    (i, j)
}

/// The byte that stands for the character `c` when it is read as part of a
/// number: its ASCII code, or 0xff (never a digit nor a sign) for a
/// character outside ASCII.
pub open spec fn ascii_byte(c: char) -> u8 {
    if (c as u32) < 0x80 {
        (c as u32) as u8
    } else {
        0xffu8
    }
}

/// Reads a line typed by the user as a `u32`: white space around the number
/// is dropped, then the rest is read as `str::parse::<u32>` reads it.
pub fn parse_line_u32(line: &[char]) -> (r: Result<u32, IntErrorKind>)
    ensures
        r == parse_u32_spec(trim(line@).map_values(|c: char| ascii_byte(c))),
{
    let (i, j) = trim_bounds(line);
    let mut bytes: Vec<u8> = Vec::new();
    let mut k: usize = i;
    while k < j
        invariant
            i <= k <= j <= line@.len(),
            bytes@ =~= line@.subrange(i as int, k as int).map_values(|c: char| ascii_byte(c)),
        decreases j - k,
    {
        let v = line[k] as u32;
        let b: u8 = if v < 0x80 {
            v as u8
        } else {
            0xff
        };
        bytes.push(b);
        k = k + 1;
    }
    parse_u32(bytes.as_slice())
}

proof fn lemma_trim_start_shape(s: Seq<char>)
    ensures
        trim_start(s).len() <= s.len(),
        trim_start(s) == s.skip(s.len() - trim_start(s).len()),
        forall|k: int| 0 <= k < s.len() - trim_start(s).len() ==> is_white_space(#[trigger] s[k]),
        trim_start(s).len() > 0 ==> !is_white_space(trim_start(s)[0]),
    decreases s.len(),
{
    if s.len() > 0 && is_white_space(s[0]) {
        lemma_trim_start_shape(s.drop_first());
        assert forall|k: int| 0 <= k < s.len() - trim_start(s).len() implies is_white_space(#[trigger] s[k]) by {
            if k > 0 {
                assert(s[k] == s.drop_first()[k - 1]);
            }
        }
        assert(s.drop_first().skip(s.drop_first().len() - trim_start(s).len()) =~= s.skip(s.len()
            - trim_start(s).len()));
    } else {
        assert(s.skip(0) =~= s);
    }
}

proof fn lemma_trim_end_shape(s: Seq<char>)
    ensures
        trim_end(s).len() <= s.len(),
        trim_end(s) == s.take(trim_end(s).len() as int),
        forall|k: int| trim_end(s).len() <= k < s.len() ==> is_white_space(#[trigger] s[k]),
        trim_end(s).len() > 0 ==> !is_white_space(trim_end(s).last()),
    decreases s.len(),
{
    if s.len() > 0 && is_white_space(s.last()) {
        lemma_trim_end_shape(s.drop_last());
        assert forall|k: int| trim_end(s).len() <= k < s.len() implies is_white_space(#[trigger] s[k]) by {
            if k < s.len() - 1 {
                assert(s[k] == s.drop_last()[k]);
            }
        }
        assert(s.drop_last().take(trim_end(s).len() as int) =~= s.take(trim_end(s).len() as int));
    } else {
        assert(s.take(s.len() as int) =~= s);
    }
}

/// Trimming keeps a contiguous part of the line that neither starts nor ends
/// with white space, and everything it drops before and after that part is
/// white space.
pub proof fn lemma_trim_shape(s: Seq<char>)
    ensures
        ({
            let t = trim(s);
            let i = s.len() - trim_start(s).len();
            &&& 0 <= i && i + t.len() <= s.len()
            &&& t == s.subrange(i, i + t.len())
            &&& forall|k: int| 0 <= k < i ==> is_white_space(#[trigger] s[k])
            &&& forall|k: int| i + t.len() <= k < s.len() ==> is_white_space(#[trigger] s[k])
            &&& t.len() > 0 ==> !is_white_space(t[0]) && !is_white_space(t.last())
        }),
{
    lemma_trim_start_shape(s);
    let u = trim_start(s);
    lemma_trim_end_shape(u);
    let t = trim(s);
    let i = s.len() - u.len();
    assert(t =~= s.subrange(i, i + t.len()));
    assert forall|k: int| i + t.len() <= k < s.len() implies is_white_space(#[trigger] s[k]) by {
        assert(s[k] == u[k - i]);
    }
    if t.len() > 0 {
        assert(t[0] == u[0]);
    }
}

/// A character of the line reads as its own code when it is ASCII, and
/// otherwise as a byte that is neither a digit nor a sign.
pub proof fn lemma_ascii_byte(c: char)
    ensures
        (c as u32) < 0x80 ==> ascii_byte(c) as u32 == c as u32,
        (c as u32) >= 0x80 ==> !is_digit(ascii_byte(c)) && ascii_byte(c) != 0x2b && ascii_byte(c)
            != 0x2d,
{
}

} // verus!
