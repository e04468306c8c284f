use vstd::prelude::*;
use super::util::dec_digits;
use super::util::digit_char;
use super::util::pad2;
use super::util::pad3;

verus! {

/// Whether `c` is a decimal digit.
pub open spec fn is_digit(c: char) -> bool {
    '0' <= c && c <= '9'
}

/// The numeric value of a digit character.
pub open spec fn digit_val(c: char) -> int {
    c as int - 48
}

/// Whether positions `i..j` of `s` hold only digits.
pub open spec fn digits_in(s: Seq<char>, i: int, j: int) -> bool {
    forall|k: int| i <= k < j ==> is_digit(#[trigger] s[k])
}

/// The numeric value of the digit run at positions `i..j`.
pub open spec fn digits_val(s: Seq<char>, i: int, j: int) -> int
    decreases j - i,
{
    if j <= i {
        0
    } else {
        digits_val(s, i, j - 1) * 10 + digit_val(s[j - 1])
    }
}

/// A digit run's value is never negative.
pub proof fn lemma_digits_val_nonneg(s: Seq<char>, i: int, j: int)
    requires
        digits_in(s, i, j),
        0 <= i,
        j <= s.len(),
    ensures
        digits_val(s, i, j) >= 0,
    decreases j - i,
{
    if j > i {
        lemma_digits_val_nonneg(s, i, j - 1);
        assert(digits_val(s, i, j - 1) * 10 >= 0) by (nonlinear_arith)
            requires digits_val(s, i, j - 1) >= 0;
    }
}

/// Extending a digit run never shrinks its value.
pub proof fn lemma_digits_val_grows(s: Seq<char>, i: int, j: int, j2: int)
    requires
        digits_in(s, i, j2),
        0 <= i <= j <= j2 <= s.len(),
    ensures
        digits_val(s, i, j) <= digits_val(s, i, j2),
    decreases j2 - j,
{
    if j2 > j {
        lemma_digits_val_grows(s, i, j, j2 - 1);
        lemma_digits_val_nonneg(s, i, j2 - 1);
        assert(digits_val(s, i, j2 - 1) * 10 >= digits_val(s, i, j2 - 1)) by (nonlinear_arith)
            requires digits_val(s, i, j2 - 1) >= 0;
    }
}

/// The first position at or after `k` holding character `c`, or the length.
pub open spec fn char_pos(s: Seq<char>, c: char, k: int) -> int
    decreases s.len() - k,
{
    if k < 0 || k >= s.len() {
        s.len() as int
    } else if s[k] == c {
        k
    } else {
        char_pos(s, c, k + 1)
    }
}

/// What `char_pos` returns: the first occurrence, if any.
pub proof fn lemma_char_pos(s: Seq<char>, c: char, k: int)
    requires
        0 <= k <= s.len(),
    ensures
        k <= char_pos(s, c, k) <= s.len(),
        char_pos(s, c, k) < s.len() ==> s[char_pos(s, c, k)] == c,
        forall|j: int| k <= j < char_pos(s, c, k) ==> s[j] != c,
    decreases s.len() - k,
{
    if k < s.len() && s[k] != c {
        lemma_char_pos(s, c, k + 1);
    }
}

/// Reads the digit run `from..to` of `s` as an unsigned number; `None` when
/// the run is empty, holds a non-digit, or exceeds `u64::MAX`.
#[verifier::loop_isolation(false)]
pub fn scan_u64(s: &str, from: usize, to: usize) -> (r: Option<u64>)
    requires
        from <= to <= s@.len(),
    ensures
        r matches Some(v) ==> from < to && digits_in(s@, from as int, to as int)
            && v == digits_val(s@, from as int, to as int),
        r is None ==> !(from < to && digits_in(s@, from as int, to as int)
            && digits_val(s@, from as int, to as int) <= u64::MAX),
{
    if from >= to {
        return None;
    }
    let mut v: u64 = 0;
    let mut k: usize = from;
    while k < to
        invariant
            from <= k <= to,
            digits_in(s@, from as int, k as int),
            v == digits_val(s@, from as int, k as int),
        decreases to - k,
    {
        let c = s.get_char(k);
        if c < '0' || c > '9' {
            return None;
        }
        let d: u64 = (c as u32 - 48) as u64;
        if v > (u64::MAX - d) / 10 {
            proof {
                assert(digits_in(s@, from as int, k + 1));
                assert(digits_val(s@, from as int, k + 1) == v * 10 + d);
                assert(v * 10 + d > u64::MAX) by (nonlinear_arith)
                    requires v > (u64::MAX - d) / 10, d <= 9, v >= 0;
                if digits_in(s@, from as int, to as int) {
                    lemma_digits_val_grows(s@, from as int, k + 1, to as int);
                }
            }
            return None;
        }
        proof {
            assert(v * 10 + d <= u64::MAX) by (nonlinear_arith)
                requires v <= (u64::MAX - d) / 10, d <= 9, v >= 0;
        }
        v = v * 10 + d;
        k = k + 1;
    }
    Some(v)
}

/// The value of the two-digit pair at positions `i`, `i + 1`.
pub open spec fn pair_val(s: Seq<char>, i: int) -> int {
    digit_val(s[i]) * 10 + digit_val(s[i + 1])
}

/// A clock reading `HH:MM:SS`, optionally followed by `.mmm`.
pub open spec fn is_clock_text(s: Seq<char>) -> bool {
    &&& (s.len() == 8 || s.len() == 12)
    &&& is_digit(s[0]) && is_digit(s[1]) && s[2] == ':'
    &&& is_digit(s[3]) && is_digit(s[4]) && s[5] == ':'
    &&& is_digit(s[6]) && is_digit(s[7])
    &&& pair_val(s, 0) <= 23
    &&& pair_val(s, 3) <= 59
    &&& pair_val(s, 6) <= 59
    &&& (s.len() == 12 ==> s[8] == '.' && is_digit(s[9]) && is_digit(s[10]) && is_digit(s[11]))
}

/// A calendar date `YYYY-MM-DD` with month `01..=12` and day `01..=31`.
pub open spec fn is_date_text(s: Seq<char>) -> bool {
    &&& s.len() == 10
    &&& is_digit(s[0]) && is_digit(s[1]) && is_digit(s[2]) && is_digit(s[3])
    &&& s[4] == '-'
    &&& is_digit(s[5]) && is_digit(s[6])
    &&& s[7] == '-'
    &&& is_digit(s[8]) && is_digit(s[9])
    &&& 1 <= pair_val(s, 5) <= 12
    &&& 1 <= pair_val(s, 8) <= 31
}

/// A timestamp `YYYY-MM-DD HH:MM:SS[.mmm]`.
pub open spec fn is_timestamp_text(s: Seq<char>) -> bool {
    &&& s.len() >= 11
    &&& is_date_text(s.subrange(0, 10))
    &&& s[10] == ' '
    &&& is_clock_text(s.subrange(11, s.len() as int))
}

/// A canonical hyphenated UUID: five lower- or upper-case hexadecimal groups
/// of lengths 8, 4, 4, 4 and 12.
pub open spec fn is_uuid_text(s: Seq<char>) -> bool {
    &&& s.len() == 36
    &&& s[8] == '-' && s[13] == '-' && s[18] == '-' && s[23] == '-'
    &&& (forall|k: int| 0 <= k < 36 && k != 8 && k != 13 && k != 18 && k != 23
        ==> is_hex_digit(#[trigger] s[k]))
}

/// Whether `c` is a hexadecimal digit.
pub open spec fn is_hex_digit(c: char) -> bool {
    ('0' <= c && c <= '9') || ('a' <= c && c <= 'f') || ('A' <= c && c <= 'F')
}

/// The characters an IP address literal may contain: hexadecimal digits,
/// dots and colons.
pub open spec fn is_ip_text(s: Seq<char>) -> bool {
    &&& s.len() > 0
    &&& (forall|k: int| 0 <= k < s.len() ==> is_hex_digit(#[trigger] s[k]) || s[k] == '.'
        || s[k] == ':')
}

/// A plain base-10 decimal literal: an optional sign, then digits with at
/// most one decimal point and at least one digit.
pub open spec fn is_decimal_text(s: Seq<char>) -> bool {
    let body = if s.len() > 0 && (s[0] == '-' || s[0] == '+') {
        s.subrange(1, s.len() as int)
    } else {
        s
    };
    let dot = char_pos(body, '.', 0);
    &&& body.len() > 0
    &&& if dot == body.len() {
        digits_in(body, 0, body.len() as int)
    } else {
        &&& digits_in(body, 0, dot)
        &&& digits_in(body, dot + 1, body.len() as int)
        &&& body.len() > 1
    }
}

/// An interval of years and months `[-]Y-M`, both parts `u32`-sized.
pub open spec fn is_year_month_text(s: Seq<char>) -> bool {
    let body = if s.len() > 0 && s[0] == '-' {
        s.subrange(1, s.len() as int)
    } else {
        s
    };
    let dash = char_pos(body, '-', 0);
    &&& 0 < dash
    &&& dash + 1 < body.len()
    &&& digits_in(body, 0, dash)
    &&& digits_in(body, dash + 1, body.len() as int)
    &&& digits_val(body, 0, dash) <= u32::MAX
    &&& digits_val(body, dash + 1, body.len() as int) <= u32::MAX
}

/// Whether the interval begins with a minus sign.
pub open spec fn ym_negative(s: Seq<char>) -> bool {
    s.len() > 0 && s[0] == '-'
}

/// The year part of a year-month interval.
pub open spec fn ym_years(s: Seq<char>) -> int {
    let body = if s.len() > 0 && s[0] == '-' {
        s.subrange(1, s.len() as int)
    } else {
        s
    };
    digits_val(body, 0, char_pos(body, '-', 0))
}

/// The month part of a year-month interval.
pub open spec fn ym_months(s: Seq<char>) -> int {
    let body = if s.len() > 0 && s[0] == '-' {
        s.subrange(1, s.len() as int)
    } else {
        s
    };
    digits_val(body, char_pos(body, '-', 0) + 1, body.len() as int)
}

/// An interval of days and a clock `[-]D HH:MM:SS[.mmm]`, the day part
/// `i64`-sized.
pub open spec fn is_day_second_text(s: Seq<char>) -> bool {
    let sp = char_pos(s, ' ', 0);
    let day_start: int = if s.len() > 0 && s[0] == '-' { 1 } else { 0 };
    &&& sp < s.len()
    &&& day_start < sp
    &&& digits_in(s, day_start, sp)
    &&& digits_val(s, day_start, sp) <= i64::MAX
    &&& is_clock_text(s.subrange(sp + 1, s.len() as int))
}

/// Whether the day-second interval begins with a minus sign.
pub open spec fn ds_negative(s: Seq<char>) -> bool {
    s.len() > 0 && s[0] == '-'
}

/// The day part of a day-second interval.
pub open spec fn ds_days(s: Seq<char>) -> int {
    let day_start: int = if s.len() > 0 && s[0] == '-' { 1 } else { 0 };
    digits_val(s, day_start, char_pos(s, ' ', 0))
}

/// The clock part of a day-second interval.
pub open spec fn ds_clock(s: Seq<char>) -> Seq<char> {
    s.subrange(char_pos(s, ' ', 0) + 1, s.len() as int)
}

/// The hours of a clock reading.
pub open spec fn clock_hours(t: Seq<char>) -> int {
    pair_val(t, 0)
}

/// The minutes of a clock reading.
pub open spec fn clock_minutes(t: Seq<char>) -> int {
    pair_val(t, 3)
}

/// The seconds of a clock reading.
pub open spec fn clock_seconds(t: Seq<char>) -> int {
    pair_val(t, 6)
}

/// The milliseconds of a clock reading, zero when absent.
pub open spec fn clock_millis(t: Seq<char>) -> int {
    if t.len() == 12 {
        digit_val(t[9]) * 100 + digit_val(t[10]) * 10 + digit_val(t[11])
    } else {
        0
    }
}


/// A digit condition shifted out of a suffix keeps its meaning.
pub proof fn lemma_digits_in_shift(s: Seq<char>, off: int, i: int, j: int)
    requires
        0 <= off <= s.len(),
        0 <= i <= j,
        off + j <= s.len(),
    ensures
        digits_in(s.subrange(off, s.len() as int), i, j) == digits_in(s, off + i, off + j),
{
    let sub = s.subrange(off, s.len() as int);
    if digits_in(sub, i, j) {
        assert forall|k: int| off + i <= k < off + j implies is_digit(#[trigger] s[k]) by {
            assert(is_digit(sub[k - off]));
            assert(sub[k - off] == s[k]);
        }
    }
    if digits_in(s, off + i, off + j) {
        assert forall|k: int| i <= k < j implies is_digit(#[trigger] sub[k]) by {
            assert(sub[k] == s[k + off]);
        }
    }
}

/// A digit run shifted out of a suffix keeps its value.
pub proof fn lemma_digits_val_shift(s: Seq<char>, off: int, i: int, j: int)
    requires
        0 <= off <= s.len(),
        0 <= i <= j,
        off + j <= s.len(),
    ensures
        digits_val(s.subrange(off, s.len() as int), i, j) == digits_val(s, off + i, off + j),
    decreases j - i,
{
    if j > i {
        lemma_digits_val_shift(s, off, i, j - 1);
    }
}

/// Whether positions `from..to` hold only digits, decided executably.
#[verifier::loop_isolation(false)]
pub fn digits_range(s: &str, from: usize, to: usize) -> (r: bool)
    requires
        from <= to <= s@.len(),
    ensures
        r == digits_in(s@, from as int, to as int),
{
    let mut k: usize = from;
    while k < to
        invariant
            from <= k <= to,
            forall|j: int| from <= j < k ==> is_digit(#[trigger] s@[j]),
        decreases to - k,
    {
        let c = s.get_char(k);
        if c < '0' || c > '9' {
            return false;
        }
        k = k + 1;
    }
    true
}

/// The position of the first `c` at or after `from`, decided executably.
#[verifier::loop_isolation(false)]
pub fn char_find(s: &str, c: char, from: usize) -> (r: usize)
    requires
        from <= s@.len(),
    ensures
        r as int == char_pos(s@, c, from as int),
{
    proof {
        lemma_char_pos(s@, c, from as int);
    }
    let n = s.unicode_len();
    let mut k: usize = from;
    while k < n
        invariant
            from <= k <= n,
            forall|j: int| from <= j < k ==> s@[j] != c,
        decreases n - k,
    {
        if s.get_char(k) == c {
            return k;
        }
        k = k + 1;
    }
    n
}

/// Whether position `i` holds a digit.
fn digit_at(s: &str, i: usize) -> (r: bool)
    requires
        i < s@.len(),
        s@.len() <= usize::MAX,
    ensures
        r == is_digit(s@[i as int]),
{
    let c = s.get_char(i);
    '0' <= c && c <= '9'
}

/// The value of the two-digit pair at `i`, meaningful when both are digits.
fn pair_at(s: &str, i: usize) -> (r: u32)
    requires
        i + 1 < s@.len(),
        s@.len() <= usize::MAX,
        is_digit(s@[i as int]),
        is_digit(s@[i as int + 1]),
    ensures
        r == pair_val(s@, i as int),
{
    let a = s.get_char(i) as u32 - 48;
    let b = s.get_char(i + 1) as u32 - 48;
    a * 10 + b
}

/// Checks the clock reading that starts at `from`, to the end of the text.
pub fn check_clock_at(s: &str, from: usize) -> (r: bool)
    requires
        from <= s@.len(),
        s@.len() <= usize::MAX,
    ensures
        r == is_clock_text(s@.subrange(from as int, s@.len() as int)),
{
    let ghost t = s@.subrange(from as int, s@.len() as int);
    let n = s.unicode_len();
    let len = n - from;
    if len != 8 && len != 12 {
        return false;
    }
    if !(digit_at(s, from) && digit_at(s, from + 1) && s.get_char(from + 2) == ':'
        && digit_at(s, from + 3) && digit_at(s, from + 4) && s.get_char(from + 5) == ':'
        && digit_at(s, from + 6) && digit_at(s, from + 7)) {
        return false;
    }
    if pair_at(s, from) > 23 || pair_at(s, from + 3) > 59 || pair_at(s, from + 6) > 59 {
        return false;
    }
    if len == 12 {
        if !(s.get_char(from + 8) == '.' && digit_at(s, from + 9) && digit_at(s, from + 10)
            && digit_at(s, from + 11)) {
            return false;
        }
    }
    proof {
        assert(is_clock_text(t));
    }
    true
}

/// Checks the ten-character date that starts at `from`.
pub fn check_date_at(s: &str, from: usize) -> (r: bool)
    requires
        from + 10 <= s@.len(),
        s@.len() <= usize::MAX,
    ensures
        r == is_date_text(s@.subrange(from as int, from as int + 10)),
{
    let ghost t = s@.subrange(from as int, from as int + 10);
    if !(digit_at(s, from) && digit_at(s, from + 1) && digit_at(s, from + 2)
        && digit_at(s, from + 3) && s.get_char(from + 4) == '-' && digit_at(s, from + 5)
        && digit_at(s, from + 6) && s.get_char(from + 7) == '-' && digit_at(s, from + 8)
        && digit_at(s, from + 9)) {
        return false;
    }
    let month = pair_at(s, from + 5);
    let day = pair_at(s, from + 8);
    if month < 1 || month > 12 || day < 1 || day > 31 {
        return false;
    }
    proof {
        assert(is_date_text(t));
    }
    true
}

/// Checks a whole date text.
pub fn check_date(s: &str) -> (r: bool)
    ensures
        r == is_date_text(s@),
{
    let n = s.unicode_len();
    if n != 10 {
        return false;
    }
    let r = check_date_at(s, 0);
    proof {
        assert(s@.subrange(0, 10) =~= s@);
    }
    r
}

/// Checks a whole clock text.
pub fn check_clock(s: &str) -> (r: bool)
    ensures
        r == is_clock_text(s@),
{
    let n = s.unicode_len();
    if n != 8 && n != 12 {
        return false;
    }
    let r = check_clock_at(s, 0);
    proof {
        assert(s@.subrange(0, s@.len() as int) =~= s@);
    }
    r
}

/// Checks a whole timestamp text.
pub fn check_timestamp(s: &str) -> (r: bool)
    ensures
        r == is_timestamp_text(s@),
{
    let n = s.unicode_len();
    if n < 11 {
        return false;
    }
    if !check_date_at(s, 0) {
        return false;
    }
    if s.get_char(10) != ' ' {
        return false;
    }
    check_clock_at(s, 11)
}

/// Checks a canonical hyphenated UUID text.
#[verifier::loop_isolation(false)]
pub fn check_uuid(s: &str) -> (r: bool)
    ensures
        r == is_uuid_text(s@),
{
    if s.unicode_len() != 36 {
        return false;
    }
    if !(s.get_char(8) == '-' && s.get_char(13) == '-' && s.get_char(18) == '-'
        && s.get_char(23) == '-') {
        return false;
    }
    let mut k: usize = 0;
    while k < 36
        invariant
            k <= 36,
            s@.len() == 36,
            forall|j: int| 0 <= j < k && j != 8 && j != 13 && j != 18 && j != 23
                ==> is_hex_digit(#[trigger] s@[j]),
        decreases 36 - k,
    {
        if k != 8 && k != 13 && k != 18 && k != 23 {
            let c = s.get_char(k);
            let hex = ('0' <= c && c <= '9') || ('a' <= c && c <= 'f')
                || ('A' <= c && c <= 'F');
            if !hex {
                return false;
            }
        }
        k = k + 1;
    }
    true
}

/// Checks an IP address literal's character set.
#[verifier::loop_isolation(false)]
pub fn check_ip(s: &str) -> (r: bool)
    ensures
        r == is_ip_text(s@),
{
    let n = s.unicode_len();
    if n == 0 {
        return false;
    }
    let mut k: usize = 0;
    while k < n
        invariant
            k <= n,
            forall|j: int| 0 <= j < k ==> is_hex_digit(#[trigger] s@[j]) || s@[j] == '.'
                || s@[j] == ':',
        decreases n - k,
    {
        let c = s.get_char(k);
        let ok = ('0' <= c && c <= '9') || ('a' <= c && c <= 'f') || ('A' <= c && c <= 'F')
            || c == '.' || c == ':';
        if !ok {
            return false;
        }
        k = k + 1;
    }
    true
}

/// Checks a plain base-10 decimal literal.
pub fn check_decimal(s: &str) -> (r: bool)
    ensures
        r == is_decimal_text(s@),
{
    let n = s.unicode_len();
    let start: usize = if n > 0 && (s.get_char(0) == '-' || s.get_char(0) == '+') {
        1
    } else {
        0
    };
    let ghost body = if s@.len() > 0 && (s@[0] == '-' || s@[0] == '+') {
        s@.subrange(1, s@.len() as int)
    } else {
        s@
    };
    proof {
        assert(body =~= s@.subrange(start as int, s@.len() as int));
        lemma_char_pos(body, '.', 0);
    }
    if start >= n {
        return false;
    }
    let dot = char_find(s, '.', start);
    proof {
        lemma_char_pos(s@, '.', start as int);
        assert forall|j: int| 0 <= j < body.len() implies body[j] == s@[start + j] by {}
        assert(char_pos(body, '.', 0) == dot - start) by {
            if dot < n {
                assert(body[dot - start] == '.');
            }
            assert forall|j: int| 0 <= j < dot - start implies body[j] != '.' by {
                assert(s@[start + j] != '.');
            }
            lemma_char_pos_unique(body, '.', dot - start);
        }
    }
    proof {
        lemma_digits_in_shift(s@, start as int, 0, s@.len() - start);
        lemma_digits_in_shift(s@, start as int, 0, dot - start);
        if dot < n {
            lemma_digits_in_shift(s@, start as int, dot - start + 1, s@.len() - start);
        }
    }
    if dot == n {
        digits_range(s, start, n)
    } else {
        if n - start <= 1 {
            return false;
        }
        digits_range(s, start, dot) && digits_range(s, dot + 1, n)
    }
}

/// A position that holds `c` with no earlier occurrence is where `char_pos`
/// points.
pub proof fn lemma_char_pos_unique(s: Seq<char>, c: char, p: int)
    requires
        0 <= p <= s.len(),
        p < s.len() ==> s[p] == c,
        forall|j: int| 0 <= j < p ==> s[j] != c,
    ensures
        char_pos(s, c, 0) == if p < s.len() { p } else { s.len() as int },
{
    lemma_char_pos(s, c, 0);
    if p < s.len() {
        if char_pos(s, c, 0) < p {
            assert(s[char_pos(s, c, 0)] == c);
        }
    }
}

/// Parses a year-month interval into its sign, years and months.
#[verifier::rlimit(60)]
#[verifier::spinoff_prover]
pub fn parse_year_month(s: &str) -> (r: Option<(bool, u32, u32)>)
    ensures
        r matches Some(p) ==> is_year_month_text(s@) && p.0 == ym_negative(s@)
            && p.1 == ym_years(s@) && p.2 == ym_months(s@),
        r is None ==> !is_year_month_text(s@),
{
    let n = s.unicode_len();
    let start: usize = if n > 0 && s.get_char(0) == '-' {
        1
    } else {
        0
    };
    let ghost body = if s@.len() > 0 && s@[0] == '-' {
        s@.subrange(1, s@.len() as int)
    } else {
        s@
    };
    proof {
        assert(body =~= s@.subrange(start as int, s@.len() as int));
        assert forall|j: int| 0 <= j < body.len() implies body[j] == s@[start + j] by {}
    }
    if start >= n {
        proof {
            lemma_char_pos(body, '-', 0);
        }
        return None;
    }
    let dash = char_find(s, '-', start);
    proof {
        lemma_char_pos(s@, '-', start as int);
        assert(char_pos(body, '-', 0) == dash - start) by {
            if dash < n {
                assert(body[dash - start] == '-');
            }
            assert forall|j: int| 0 <= j < dash - start implies body[j] != '-' by {
                assert(s@[start + j] != '-');
            }
            lemma_char_pos_unique(body, '-', dash - start);
        }
    }
    if dash == start || dash >= n - 1 || n == 0 {
        return None;
    }
    proof {
        lemma_digits_in_shift(s@, start as int, 0, dash - start);
        lemma_digits_in_shift(s@, start as int, dash - start + 1, s@.len() - start);
        lemma_digits_val_shift(s@, start as int, 0, dash - start);
        lemma_digits_val_shift(s@, start as int, dash - start + 1, s@.len() - start);
    }
    let years = match scan_u64(s, start, dash) {
        Some(v) => v,
        None => {
            proof {
                if is_year_month_text(s@) {
                    assert(false);
                }
            }
            return None;
        },
    };
    let months = match scan_u64(s, dash + 1, n) {
        Some(v) => v,
        None => {
            proof {
                if is_year_month_text(s@) {
                    assert(false);
                }
            }
            return None;
        },
    };
    if years > u32::MAX as u64 || months > u32::MAX as u64 {
        return None;
    }
    proof {
        assert(is_year_month_text(s@));
    }
    Some((start == 1, years as u32, months as u32))
}

/// Parses a day-second interval into its sign, days, hours, minutes,
/// seconds and milliseconds.
pub fn parse_day_second(s: &str) -> (r: Option<(bool, u64, u8, u8, u8, u32)>)
    ensures
        r matches Some(p) ==> is_day_second_text(s@) && p.0 == ds_negative(s@)
            && p.1 == ds_days(s@) && p.2 == clock_hours(ds_clock(s@))
            && p.3 == clock_minutes(ds_clock(s@)) && p.4 == clock_seconds(ds_clock(s@))
            && p.5 == clock_millis(ds_clock(s@)),
        r is None ==> !is_day_second_text(s@),
{
    let n = s.unicode_len();
    let start: usize = if n > 0 && s.get_char(0) == '-' {
        1
    } else {
        0
    };
    let sp = char_find(s, ' ', 0);
    proof {
        lemma_char_pos(s@, ' ', 0);
    }
    if sp >= n || sp <= start {
        return None;
    }
    let days = match scan_u64(s, start, sp) {
        Some(v) => v,
        None => {
            return None;
        },
    };
    if days > i64::MAX as u64 {
        return None;
    }
    if !check_clock_at(s, sp + 1) {
        return None;
    }
    let ghost t = s@.subrange(sp as int + 1, s@.len() as int);
    let hours = pair_at(s, sp + 1) as u8;
    let minutes = pair_at(s, sp + 4) as u8;
    let seconds = pair_at(s, sp + 7) as u8;
    let millis: u32 = if n - (sp + 1) == 12 {
        let a = s.get_char(sp + 10) as u32 - 48;
        let b = s.get_char(sp + 11) as u32 - 48;
        let c = s.get_char(sp + 12) as u32 - 48;
        a * 100 + b * 10 + c
    } else {
        0
    };
    proof {
        assert(pair_val(t, 0) == pair_val(s@, sp + 1));
        assert(pair_val(t, 3) == pair_val(s@, sp + 4));
        assert(pair_val(t, 6) == pair_val(s@, sp + 7));
        assert(is_day_second_text(s@));
    }
    Some((start == 1, days, hours, minutes, seconds, millis))
}


/// A digit run read from two sequences that agree on it has one value.
pub proof fn lemma_digits_val_congruent(a: Seq<char>, b: Seq<char>, i: int, j: int)
    requires
        forall|k: int| i <= k < j ==> a[k] == b[k],
    ensures
        digits_val(a, i, j) == digits_val(b, i, j),
    decreases j - i,
{
    if j > i {
        lemma_digits_val_congruent(a, b, i, j - 1);
    }
}

/// The base-10 rendering of a number holds only digits, at least one, and
/// reads back as the number.
pub proof fn lemma_dec_digits(n: nat)
    ensures
        dec_digits(n).len() >= 1,
        digits_in(dec_digits(n), 0, dec_digits(n).len() as int),
        digits_val(dec_digits(n), 0, dec_digits(n).len() as int) == n,
        forall|k: int| 0 <= k < dec_digits(n).len() ==> is_digit(#[trigger] dec_digits(n)[k]),
    decreases n,
{
    if n < 10 {
        let dd = dec_digits(n);
        assert(dd =~= seq![digit_char(n as int)]);
        assert(dd[0] == digit_char(n as int));
        assert(is_digit(digit_char(n as int)) && digit_val(digit_char(n as int)) == n);
        assert(digits_val(dd, 0, 1) == digits_val(dd, 0, 0) * 10 + digit_val(dd[0]));
    } else {
        lemma_dec_digits(n / 10);
        let pre = dec_digits(n / 10);
        let whole = dec_digits(n);
        assert(whole == pre.push(digit_char((n % 10) as int)));
        lemma_digits_val_congruent(whole, pre, 0, pre.len() as int);
        assert(digits_val(whole, 0, whole.len() as int)
            == digits_val(whole, 0, pre.len() as int) * 10
                + digit_val(whole[whole.len() - 1]));
    }
}

/// The wire rendering of a year-month interval.
pub open spec fn ym_render(neg: bool, years: nat, months: nat) -> Seq<char> {
    let body = dec_digits(years) + seq!['-'] + dec_digits(months);
    if neg {
        seq!['-'] + body
    } else {
        body
    }
}

/// Rendering a year-month interval and parsing the text back yields the
/// same sign, years and months.
pub proof fn lemma_ym_render_parses(neg: bool, years: nat, months: nat)
    requires
        years <= u32::MAX,
        months <= u32::MAX,
    ensures
        is_year_month_text(ym_render(neg, years, months)),
        ym_negative(ym_render(neg, years, months)) == neg,
        ym_years(ym_render(neg, years, months)) == years,
        ym_months(ym_render(neg, years, months)) == months,
{
    lemma_dec_digits(years);
    lemma_dec_digits(months);
    let dy = dec_digits(years);
    let dm = dec_digits(months);
    let body = dy + seq!['-'] + dm;
    let s = ym_render(neg, years, months);
    assert(s[0] == '-' <==> neg) by {
        if !neg {
            assert(s[0] == dy[0]);
            assert(is_digit(dy[0]));
        }
    }
    let stripped = if s.len() > 0 && s[0] == '-' {
        s.subrange(1, s.len() as int)
    } else {
        s
    };
    assert(stripped =~= body);
    let dash = dy.len() as int;
    assert(body[dash] == '-');
    assert forall|j: int| 0 <= j < dash implies body[j] != '-' by {
        assert(body[j] == dy[j]);
        assert(is_digit(dy[j]));
    }
    lemma_char_pos_unique(body, '-', dash);
    assert(char_pos(body, '-', 0) == dash);
    assert(digits_in(body, 0, dash)) by {
        assert forall|k: int| 0 <= k < dash implies is_digit(#[trigger] body[k]) by {
            assert(body[k] == dy[k]);
        }
    }
    assert(digits_in(body, dash + 1, body.len() as int)) by {
        assert forall|k: int| dash + 1 <= k < body.len() implies
            is_digit(#[trigger] body[k]) by {
            assert(body[k] == dm[k - (dash + 1)]);
        }
    }
    assert(digits_val(body, 0, dash) == years) by {
        lemma_digits_val_congruent(body, dy, 0, dash);
    }
    assert(digits_val(body, dash + 1, body.len() as int) == months) by {
        lemma_digits_val_shift(body, dash + 1, 0, dm.len() as int);
        let tail = body.subrange(dash + 1, body.len() as int);
        assert(tail =~= dm);
    }
    assert(char_pos(stripped, '-', 0) == dash);
    assert(is_year_month_text(s));
}


/// The wire rendering of a clock reading, always with milliseconds.
pub open spec fn clock_render(h: int, m: int, sec: int, ms: int) -> Seq<char> {
    pad2(h) + seq![':'] + pad2(m) + seq![':'] + pad2(sec) + seq!['.'] + pad3(ms)
}

/// The wire rendering of a day-second interval.
pub open spec fn ds_render(neg: bool, days: nat, h: int, m: int, sec: int, ms: int)
    -> Seq<char> {
    let body = dec_digits(days) + seq![' '] + clock_render(h, m, sec, ms);
    if neg {
        seq!['-'] + body
    } else {
        body
    }
}

/// Rendering a day-second interval and parsing the text back yields the
/// same sign and components.
#[verifier::rlimit(100)]
#[verifier::spinoff_prover]
pub proof fn lemma_ds_render_parses(neg: bool, days: nat, h: int, m: int, sec: int, ms: int)
    requires
        days <= i64::MAX,
        0 <= h <= 23,
        0 <= m <= 59,
        0 <= sec <= 59,
        0 <= ms <= 999,
    ensures
        is_day_second_text(ds_render(neg, days, h, m, sec, ms)),
        ds_negative(ds_render(neg, days, h, m, sec, ms)) == neg,
        ds_days(ds_render(neg, days, h, m, sec, ms)) == days,
        clock_hours(ds_clock(ds_render(neg, days, h, m, sec, ms))) == h,
        clock_minutes(ds_clock(ds_render(neg, days, h, m, sec, ms))) == m,
        clock_seconds(ds_clock(ds_render(neg, days, h, m, sec, ms))) == sec,
        clock_millis(ds_clock(ds_render(neg, days, h, m, sec, ms))) == ms,
{
    lemma_dec_digits(days);
    let dy = dec_digits(days);
    let t = clock_render(h, m, sec, ms);
    let s = ds_render(neg, days, h, m, sec, ms);
    let day_start: int = if neg { 1 } else { 0 };
    assert(t.len() == 12);
    assert(s.len() == day_start + dy.len() + 1 + 12);
    assert(s[0] == '-' <==> neg) by {
        if !neg {
            assert(s[0] == dy[0]);
            assert(is_digit(dy[0]));
        }
    }
    let sp = day_start + dy.len() as int;
    assert(s[sp] == ' ');
    assert forall|j: int| 0 <= j < sp implies s[j] != ' ' by {
        if j >= day_start {
            assert(s[j] == dy[j - day_start]);
            assert(is_digit(dy[j - day_start]));
        }
    }
    lemma_char_pos(s, ' ', 0);
    assert(char_pos(s, ' ', 0) == sp) by {
        lemma_char_pos_unique(s, ' ', sp);
    }
    assert(digits_in(s, day_start, sp)) by {
        assert forall|k: int| day_start <= k < sp implies is_digit(#[trigger] s[k]) by {
            assert(s[k] == dy[k - day_start]);
        }
    }
    assert(digits_val(s, day_start, sp) == days) by {
        lemma_digits_val_shift(s, day_start, 0, dy.len() as int);
        let sub = s.subrange(day_start, s.len() as int);
        lemma_digits_val_congruent(sub, dy, 0, dy.len() as int);
    }
    let tail = s.subrange(sp + 1, s.len() as int);
    assert(tail =~= t);
    assert(digit_val(digit_char(h / 10)) == h / 10 && digit_val(digit_char(h % 10)) == h % 10);
    assert(pair_val(t, 0) == h);
    assert(pair_val(t, 3) == m);
    assert(pair_val(t, 6) == sec);
    assert(is_clock_text(t));
    assert(clock_millis(t) == ms);
    assert(is_day_second_text(s));
}

} // verus!
