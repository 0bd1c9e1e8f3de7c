//! Character-level helpers shared by the other modules: decimal numbers,
//! string building and the small std calls that Verus has no specification for.

use vstd::prelude::*;

verus! {

/// The ASCII digit character for `d` (expected to be below 10).
pub open spec fn digit_char(d: nat) -> char {
    ((48 + d) as int) as char
}

/// Whether `c` is one of the ASCII digits `0`..`9`.
pub open spec fn is_digit(c: char) -> bool {
    '0' <= c && c <= '9'
}

/// The numeric value of an ASCII digit character.
pub open spec fn digit_value(c: char) -> nat {
    ((c as int) - 48) as nat
}

/// The shortest decimal representation of `n` (what `Display` prints for an unsigned integer).
pub open spec fn decimal(n: nat) -> Seq<char>
    decreases n,
{
    if n < 10 {
        seq![digit_char(n)]
    } else {
        decimal(n / 10).push(digit_char(n % 10))
    }
}

/// Every character of `s` is an ASCII digit.
pub open spec fn all_digits(s: Seq<char>) -> bool {
    forall|i: int| 0 <= i < s.len() ==> is_digit(#[trigger] s[i])
}

/// The value of a string of digits, most significant first.
pub open spec fn digits_value(s: Seq<char>) -> nat
    decreases s.len(),
{
    if s.len() == 0 {
        0
    } else {
        digits_value(s.drop_last()) * 10 + digit_value(s.last())
    }
}

/// The digits that `str::parse` reads for an unsigned integer: an optional leading `+` is skipped.
pub open spec fn unsigned_digits(s: Seq<char>) -> Seq<char> {
    if s.len() > 0 && s[0] == '+' {
        s.drop_first()
    } else {
        s
    }
}

/// What `str::parse::<uN>()` gives for `s`, where `max` is `uN::MAX`:
/// the value when `s` is an optional `+` followed by at least one digit and
/// the value does not exceed `max`, otherwise no value.
pub open spec fn parse_unsigned(s: Seq<char>, max: nat) -> Option<nat> {
    let d = unsigned_digits(s);
    if d.len() == 0 || !all_digits(d) || digits_value(d) > max {
        None
    } else {
        Some(digits_value(d))
    }
}

/// `parse_unsigned` for `u64`, with the value as a `u64`.
pub open spec fn parse_u64_spec(s: Seq<char>) -> Option<u64> {
    match parse_unsigned(s, u64::MAX as nat) {
        Some(v) => Some(v as u64),
        None => None,
    }
}

/// `parse_unsigned` for `u32`, with the value as a `u32`.
pub open spec fn parse_u32_spec(s: Seq<char>) -> Option<u32> {
    match parse_unsigned(s, u32::MAX as nat) {
        Some(v) => Some(v as u32),
        None => None,
    }
}

/// An owned copy of a string slice.
pub fn owned(s: &str) -> (r: String)
    ensures
        r@ == s@,
{
    let mut r = String::new();
    push_str(&mut r, s);
    r
}

/// `char::is_alphanumeric`: the character is alphabetic or numeric in Unicode.
pub uninterp spec fn char_alphanumeric(c: char) -> bool;

/// `char::is_whitespace`: the character has the Unicode `White_Space` property
/// (PropList.txt): U+0009 to U+000D, U+0020, U+0085, U+00A0, U+1680, U+2000 to
/// U+200A, U+2028, U+2029, U+202F, U+205F and U+3000.
pub open spec fn char_whitespace(c: char) -> bool {
    let n = c as u32;
    ||| 0x9 <= n <= 0xD
    ||| n == 0x20
    ||| n == 0x85
    ||| n == 0xA0
    ||| n == 0x1680
    ||| 0x2000 <= n <= 0x200A
    ||| n == 0x2028
    ||| n == 0x2029
    ||| n == 0x202F
    ||| n == 0x205F
    ||| n == 0x3000
}

/// Whether a character is alphanumeric (`char::is_alphanumeric`).
/// The contract names the result; the Unicode tables behind it are not restated.
#[verifier::external_body]
pub(crate) fn is_alphanumeric(c: char) -> (r: bool)
    ensures
        r == char_alphanumeric(c),
{
    c.is_alphanumeric()
}

/// Whether a character is white space (`char::is_whitespace`, see `char_whitespace`).
#[verifier::external_body]
pub(crate) fn is_whitespace(c: char) -> (r: bool)
    ensures
        r == char_whitespace(c),
{
    c.is_whitespace()
}

/// Every character of `s` is white space, i.e. `str::trim` leaves nothing.
pub open spec fn blank(s: Seq<char>) -> bool {
    forall|i: int| 0 <= i < s.len() ==> char_whitespace(#[trigger] s[i])
}

/// Whether `cs[from..to]` is blank.
pub fn is_blank(cs: &Vec<char>, from: usize, to: usize) -> (r: bool)
    requires
        from <= to <= cs.len(),
    ensures
        r == blank(cs@.subrange(from as int, to as int)),
{
    let ghost s = cs@.subrange(from as int, to as int);
    let mut i = from;
    while i < to
        invariant
            from <= i <= to <= cs.len(),
            s == cs@.subrange(from as int, to as int),
            forall|j: int| 0 <= j < i - from ==> char_whitespace(#[trigger] s[j]),
        decreases to - i,
    {
        if !is_whitespace(cs[i]) {
            assert(s[i - from] == cs@[i as int]);
            return false;
        }
        assert(s[i - from] == cs@[i as int]);
        i += 1;
    }
    true
}

/// Appends a character to a string (`String::push`).
#[verifier::external_body]
pub(crate) fn push_char(s: &mut String, c: char)
    ensures
        final(s)@ == old(s)@.push(c),
{
    s.push(c)
}

/// Collects the characters of a string slice (`str::chars`).
#[verifier::external_body]
pub(crate) fn to_chars(s: &str) -> (r: Vec<char>)
    ensures
        r@ == s@,
{
    s.chars().collect()
}

/// Builds a string from the characters `v[from..to]`.
pub fn string_from_chars(v: &Vec<char>, from: usize, to: usize) -> (r: String)
    requires
        from <= to <= v.len(),
    ensures
        r@ == v@.subrange(from as int, to as int),
{
    let mut r = String::new();
    let mut i = from;
    while i < to
        invariant
            from <= i <= to <= v.len(),
            r@ == v@.subrange(from as int, i as int),
        decreases to - i,
    {
        push_char(&mut r, v[i]);
        assert(v@.subrange(from as int, i + 1) == v@.subrange(from as int, i as int).push(v@[i as int]));
        i += 1;
    }
    r
}

/// Appends the characters of `t` to `s`.
pub fn push_str(s: &mut String, t: &str)
    ensures
        final(s)@ == old(s)@ + t@,
{
    let cs = to_chars(t);
    let ghost start = s@;
    let mut i: usize = 0;
    while i < cs.len()
        invariant
            i <= cs.len(),
            cs@ == t@,
            s@ == start + cs@.subrange(0, i as int),
        decreases cs.len() - i,
    {
        push_char(s, cs[i]);
        assert(cs@.subrange(0, i + 1) == cs@.subrange(0, i as int).push(cs@[i as int]));
        i += 1;
    }
    assert(cs@.subrange(0, cs.len() as int) == cs@);
}

/// The character of a decimal digit.
pub fn digit_to_char(d: u64) -> (c: char)
    requires
        d < 10,
    ensures
        c == digit_char(d as nat),
{
    if d == 0 {
        '0'
    } else if d == 1 {
        '1'
    } else if d == 2 {
        '2'
    } else if d == 3 {
        '3'
    } else if d == 4 {
        '4'
    } else if d == 5 {
        '5'
    } else if d == 6 {
        '6'
    } else if d == 7 {
        '7'
    } else if d == 8 {
        '8'
    } else {
        '9'
    }
}

/// Appends the decimal representation of `n` to `s`.
pub fn push_decimal(s: &mut String, n: u64)
    ensures
        final(s)@ == old(s)@ + decimal(n as nat),
    decreases n,
{
    if n >= 10 {
        push_decimal(s, n / 10);
    }
    push_char(s, digit_to_char(n % 10));
}

/// The decimal representation of a signed integer, with a leading `-` when negative.
pub open spec fn signed_decimal(x: int) -> Seq<char> {
    if x < 0 {
        seq!['-'] + decimal((-x) as nat)
    } else {
        decimal(x as nat)
    }
}

/// Appends the decimal representation of `x` to `s`.
pub fn push_signed_decimal(s: &mut String, x: i64)
    ensures
        final(s)@ == old(s)@ + signed_decimal(x as int),
{
    if x < 0 {
        push_char(s, '-');
        let magnitude: u64 = ((-(x + 1)) as u64) + 1;
        push_decimal(s, magnitude);
        assert(old(s)@.push('-') + decimal(magnitude as nat) =~= old(s)@ + (seq!['-'] + decimal(
            magnitude as nat,
        )));
    } else {
        push_decimal(s, x as u64);
    }
}

/// The value of a digit character.
pub fn char_digit_value(c: char) -> (d: u64)
    requires
        is_digit(c),
    ensures
        d == digit_value(c),
        d < 10,
{
    (c as u32 - 48) as u64
}

/// The value of a prefix of a digit string never exceeds the value of the whole.
pub proof fn lemma_digits_value_prefix(s: Seq<char>, i: int)
    requires
        0 <= i <= s.len(),
    ensures
        digits_value(s.subrange(0, i)) <= digits_value(s),
    decreases s.len(),
{
    if i < s.len() {
        assert(s.drop_last() == s.subrange(0, s.len() - 1));
        lemma_digits_value_prefix(s.drop_last(), i);
        assert(s.drop_last().subrange(0, i) == s.subrange(0, i));
    } else {
        assert(s.subrange(0, i) == s);
    }
}

/// Reads an unsigned number from `cs[from..to]` as `str::parse::<u64>()` does.
pub fn parse_u64_chars(cs: &Vec<char>, from: usize, to: usize) -> (r: Option<u64>)
    requires
        from <= to <= cs.len(),
    ensures
        r == parse_u64_spec(cs@.subrange(from as int, to as int)),
{
    let ghost s = cs@.subrange(from as int, to as int);
    let mut start = from;
    if start < to && cs[start] == '+' {
        start += 1;
    }
    let ghost d = cs@.subrange(start as int, to as int);
    assert(d == unsigned_digits(s));
    if start == to {
        return None;
    }
    let mut acc: u64 = 0;
    let mut i = start;
    while i < to
        invariant
            from <= start <= i <= to <= cs.len(),
            d == cs@.subrange(start as int, to as int),
            s == cs@.subrange(from as int, to as int),
            d == unsigned_digits(s),
            d.len() > 0,
            all_digits(d.subrange(0, i - start)),
            acc as nat == digits_value(d.subrange(0, i - start)),
        decreases to - i,
    {
        let c = cs[i];
        assert(d[i - start] == c);
        assert(d.subrange(0, i - start + 1).drop_last() == d.subrange(0, i - start));
        if !('0' <= c && c <= '9') {
            assert(!is_digit(d[i - start]));
            assert(!all_digits(d));
            return None;
        }
        let v = char_digit_value(c);
        match acc.checked_mul(10) {
            Some(m) => match m.checked_add(v) {
                Some(next) => {
                    acc = next;
                },
                None => {
                    proof {
                        lemma_digits_value_prefix(d, i - start + 1);
                    }
                    return None;
                },
            },
            None => {
                proof {
                    lemma_digits_value_prefix(d, i - start + 1);
                }
                return None;
            },
        }
        i += 1;
    }
    assert(d.subrange(0, i - start) == d);
    Some(acc)
}

/// Reads an unsigned number from `cs[from..to]` as `str::parse::<u32>()` does.
pub fn parse_u32_chars(cs: &Vec<char>, from: usize, to: usize) -> (r: Option<u32>)
    requires
        from <= to <= cs.len(),
    ensures
        r == parse_u32_spec(cs@.subrange(from as int, to as int)),
{
    match parse_u64_chars(cs, from, to) {
        Some(v) => {
            if v <= u32::MAX as u64 {
                Some(v as u32)
            } else {
                None
            }
        },
        None => {
            let ghost s = cs@.subrange(from as int, to as int);
            assert(parse_unsigned(s, u64::MAX as nat) is None);
            None
        },
    }
}


/// Ten to the power `n`.
pub open spec fn pow10(n: nat) -> nat
    decreases n,
{
    if n == 0 {
        1
    } else {
        10 * pow10((n - 1) as nat)
    }
}

/// The nine digits of nanoseconds that the fractional digits `f` of a number of
/// seconds stand for: the first nine, padded with zeros.
pub open spec fn nine_digits(f: Seq<char>) -> Seq<char> {
    if f.len() >= 9 {
        f.take(9)
    } else {
        f + Seq::new((9 - f.len()) as nat, |i: int| '0')
    }
}

/// A number of seconds written `digits[.digits]` (ASCII digits, at least one in
/// all), in nanoseconds, digits below the nanosecond dropped; no value for any
/// other text.
pub open spec fn seconds_nanos(s: Seq<char>) -> Option<nat> {
    let k = crate::lines::find_char(s, '.') as int;
    let ip = s.take(k);
    let fp = if k < s.len() {
        s.skip(k + 1)
    } else {
        Seq::<char>::empty()
    };
    if all_digits(ip) && all_digits(fp) && ip.len() + fp.len() > 0 {
        Some(digits_value(ip) * 1_000_000_000 + digits_value(nine_digits(fp)))
    } else {
        None
    }
}

/// The value of the digit string `cs[from..to]` (0 when empty); no value when a
/// character is not an ASCII digit or the value exceeds `u64::MAX`.
pub fn digits_u64(cs: &Vec<char>, from: usize, to: usize) -> (r: Option<u64>)
    requires
        from <= to <= cs.len(),
    ensures
        match r {
            Some(v) => all_digits(cs@.subrange(from as int, to as int)) && v == digits_value(
                cs@.subrange(from as int, to as int),
            ),
            None => !all_digits(cs@.subrange(from as int, to as int)) || digits_value(
                cs@.subrange(from as int, to as int),
            ) > u64::MAX,
        },
{
    let ghost d = cs@.subrange(from as int, to as int);
    let mut acc: u64 = 0;
    let mut i = from;
    assert(d.subrange(0, 0) =~= Seq::<char>::empty());
    while i < to
        invariant
            from <= i <= to <= cs.len(),
            d == cs@.subrange(from as int, to as int),
            all_digits(d.subrange(0, i - from)),
            acc as nat == digits_value(d.subrange(0, i - from)),
        decreases to - i,
    {
        let c = cs[i];
        assert(d[i - from] == c);
        assert(d.subrange(0, i - from + 1).drop_last() == d.subrange(0, i - from));
        if !('0' <= c && c <= '9') {
            assert(!is_digit(d[i - from]));
            return None;
        }
        let v = char_digit_value(c);
        match acc.checked_mul(10) {
            Some(m) => match m.checked_add(v) {
                Some(next) => {
                    acc = next;
                },
                None => {
                    proof {
                        lemma_digits_value_prefix(d, i - from + 1);
                    }
                    return None;
                },
            },
            None => {
                proof {
                    lemma_digits_value_prefix(d, i - from + 1);
                }
                return None;
            },
        }
        i += 1;
    }
    assert(d.subrange(0, i - from) == d);
    Some(acc)
}

/// Every character of `cs[from..to]` is an ASCII digit.
pub fn all_digits_in(cs: &Vec<char>, from: usize, to: usize) -> (r: bool)
    requires
        from <= to <= cs.len(),
    ensures
        r == all_digits(cs@.subrange(from as int, to as int)),
{
    let ghost d = cs@.subrange(from as int, to as int);
    let mut i = from;
    while i < to
        invariant
            from <= i <= to <= cs.len(),
            d == cs@.subrange(from as int, to as int),
            forall|t: int| 0 <= t < i - from ==> is_digit(#[trigger] d[t]),
        decreases to - i,
    {
        if !('0' <= cs[i] && cs[i] <= '9') {
            assert(!is_digit(d[i - from]));
            return false;
        }
        i += 1;
    }
    true
}

/// The nanoseconds that the digits `cs[from..to]` after a decimal point stand for.
fn frac_nanos_in(cs: &Vec<char>, from: usize, to: usize) -> (r: u64)
    requires
        from <= to <= cs.len(),
        all_digits(cs@.subrange(from as int, to as int)),
    ensures
        r == digits_value(nine_digits(cs@.subrange(from as int, to as int))),
{
    let ghost f = cs@.subrange(from as int, to as int);
    let mut nine: Vec<char> = Vec::new();
    let mut i = from;
    while i < to && nine.len() < 9
        invariant
            from <= i <= to <= cs.len(),
            f == cs@.subrange(from as int, to as int),
            nine@ == f.take(i - from),
            nine@.len() == i - from,
            nine@.len() <= 9,
        decreases to - i,
    {
        nine.push(cs[i]);
        i += 1;
        assert(nine@ =~= f.take(i - from));
    }
    let ghost taken = nine@;
    while nine.len() < 9
        invariant
            nine@.len() <= 9,
            taken.len() <= nine@.len(),
            nine@ == taken + Seq::new((nine@.len() - taken.len()) as nat, |t: int| '0'),
        decreases 9 - nine.len(),
    {
        nine.push('0');
        assert(nine@ =~= taken + Seq::new((nine@.len() - taken.len()) as nat, |t: int| '0'));
    }
    proof {
        if f.len() >= 9 {
            assert(nine@ =~= nine_digits(f));
        } else {
            assert(taken =~= f);
            assert(nine@ =~= nine_digits(f));
        }
        assert forall|t: int| 0 <= t < nine@.len() implies is_digit(#[trigger] nine@[t]) by {
            if t < taken.len() {
                assert(nine@[t] == f[t]);
            }
        }
        lemma_digits_below(nine@);
        lemma_pow10_nine();
        assert(nine@.subrange(0, 9) =~= nine@);
    }
    match digits_u64(&nine, 0, 9) {
        Some(v) => v,
        None => 0,
    }
}

/// Reads a number of seconds from `cs[from..to]` (see `seconds_nanos`); no value
/// also when the nanoseconds exceed `u64::MAX`.
pub fn parse_seconds_nanos(cs: &Vec<char>, from: usize, to: usize) -> (r: Option<u64>)
    requires
        from <= to <= cs.len(),
    ensures
        r == (match seconds_nanos(cs@.subrange(from as int, to as int)) {
            Some(v) => if v <= u64::MAX {
                Some(v as u64)
            } else {
                None
            },
            None => None,
        }),
{
    let ghost s = cs@.subrange(from as int, to as int);
    let k = crate::lines::find_char_in(cs, from, to, '.');
    let ghost kk = (k - from) as int;
    assert(s.take(kk) =~= cs@.subrange(from as int, k as int));
    let fstart = if k < to {
        k + 1
    } else {
        to
    };
    assert(k < to ==> s.skip(kk + 1) =~= cs@.subrange(fstart as int, to as int));
    assert(k >= to ==> cs@.subrange(fstart as int, to as int) =~= Seq::<char>::empty());
    if k == from && fstart == to {
        return None;
    }
    if !all_digits_in(cs, from, k) || !all_digits_in(cs, fstart, to) {
        return None;
    }
    let fv = frac_nanos_in(cs, fstart, to);
    let iv = match digits_u64(cs, from, k) {
        Some(v) => v,
        None => {
            return None;
        },
    };
    match iv.checked_mul(1_000_000_000) {
        Some(m) => match m.checked_add(fv) {
            Some(total) => Some(total),
            None => None,
        },
        None => None,
    }
}

proof fn lemma_pow10_nine()
    ensures
        pow10(9) == 1_000_000_000,
{
    reveal_with_fuel(pow10, 10);
}

/// The value of a digit string is below ten to the power of its length.
proof fn lemma_digits_below(s: Seq<char>)
    requires
        all_digits(s),
    ensures
        digits_value(s) < pow10(s.len()),
    decreases s.len(),
{
    if s.len() > 0 {
        let p = s.drop_last();
        assert(all_digits(p)) by {
            assert forall|i: int| 0 <= i < p.len() implies is_digit(#[trigger] p[i]) by {
                assert(p[i] == s[i]);
            }
        }
        lemma_digits_below(p);
        assert(is_digit(s[s.len() - 1]));
        assert(digit_value(s.last()) < 10);
        assert(digits_value(s) < pow10(s.len())) by (nonlinear_arith)
            requires
                digits_value(s) == digits_value(p) * 10 + digit_value(s.last()),
                digits_value(p) < pow10(p.len()),
                digit_value(s.last()) < 10,
                pow10(s.len()) == 10 * pow10(p.len());
    }
}


/// What `str::parse::<i32>()` gives for `s`: an optional sign and at least one
/// ASCII digit, the value within the range of `i32`.
pub open spec fn parse_i32_spec(s: Seq<char>) -> Option<i32> {
    if s.len() > 0 && s[0] == '-' {
        let d = s.drop_first();
        if d.len() == 0 || !all_digits(d) || digits_value(d) > 0x8000_0000 {
            None
        } else {
            Some((-(digits_value(d) as int)) as i32)
        }
    } else {
        match parse_unsigned(s, i32::MAX as nat) {
            Some(v) => Some(v as i32),
            None => None,
        }
    }
}

/// Reads a signed number from `cs[from..to]` as `str::parse::<i32>()` does.
pub fn parse_i32_chars(cs: &Vec<char>, from: usize, to: usize) -> (r: Option<i32>)
    requires
        from <= to <= cs.len(),
    ensures
        r == parse_i32_spec(cs@.subrange(from as int, to as int)),
{
    let ghost s = cs@.subrange(from as int, to as int);
    if from < to && cs[from] == '-' {
        assert(s.drop_first() =~= cs@.subrange(from + 1, to as int));
        if from + 1 == to {
            return None;
        }
        match digits_u64(cs, from + 1, to) {
            Some(v) => {
                if v <= 0x8000_0000 {
                    let n: i64 = 0 - (v as i64);
                    Some(n as i32)
                } else {
                    None
                }
            },
            None => None,
        }
    } else {
        match parse_u64_chars(cs, from, to) {
            Some(v) => {
                if v <= i32::MAX as u64 {
                    Some(v as i32)
                } else {
                    None
                }
            },
            None => {
                assert(parse_unsigned(s, u64::MAX as nat) is None);
                None
            },
        }
    }
}
} // verus!
