//! The temporal parser: heterogeneous date and date-time strings are parsed
//! into one calendar-checked representation and always rendered back in the
//! single canonical `YYYY-MM-DDTHH:MM:SS` form.

use vstd::prelude::*;

use crate::text::chars_of;
use crate::text::is_digit;
use crate::text::is_digit_char;
use crate::text::string_from_chars;
use crate::text::trim_chars;
use crate::text::trim_seq;

verus! {

/// A parsed calendar timestamp.
#[derive(Clone, Copy, Debug, PartialEq, Eq, Structural)]
pub struct DateTime {
    pub year: u32,
    pub month: u32,
    pub day: u32,
    pub hour: u32,
    pub minute: u32,
    pub second: u32,
}

pub open spec fn is_leap_year(y: int) -> bool {
    y % 4 == 0 && (y % 100 != 0 || y % 400 == 0)
}

pub open spec fn days_in_month(y: int, m: int) -> int {
    if m == 2 {
        if is_leap_year(y) {
            29
        } else {
            28
        }
    } else if m == 4 || m == 6 || m == 9 || m == 11 {
        30
    } else {
        31
    }
}

/// A real calendar instant: a valid date of the proleptic Gregorian calendar
/// within four-digit years, and a time of day.
pub open spec fn dt_valid(dt: DateTime) -> bool {
    &&& dt.year <= 9999
    &&& 1 <= dt.month <= 12
    &&& 1 <= dt.day <= days_in_month(dt.year as int, dt.month as int)
    &&& dt.hour <= 23
    &&& dt.minute <= 59
    &&& dt.second <= 59
}

pub open spec fn all_digits(s: Seq<char>) -> bool {
    forall|i: int| 0 <= i < s.len() ==> is_digit_char(s[i])
}

/// The number denoted by a run of decimal digits.
pub open spec fn digits_val(s: Seq<char>) -> int
    decreases s.len(),
{
    if s.len() == 0 {
        0
    } else {
        digits_val(s.drop_last()) * 10 + (s.last() as u32 - 48)
    }
}

/// A digit run of an accepted width.
pub open spec fn is_field(s: Seq<char>, lo: int, hi: int) -> bool {
    lo <= s.len() <= hi && all_digits(s)
}

/// The sequence split at every `sep`; always one part more than separators.
pub open spec fn split_on(s: Seq<char>, sep: char) -> Seq<Seq<char>>
    decreases s.len(),
{
    if s.len() == 0 {
        seq![Seq::<char>::empty()]
    } else {
        let rest = split_on(s.drop_last(), sep);
        if s.last() == sep {
            rest + seq![Seq::<char>::empty()]
        } else {
            rest.update(rest.len() - 1, rest.last().push(s.last()))
        }
    }
}

proof fn lemma_split_on_nonempty(s: Seq<char>, sep: char)
    ensures
        split_on(s, sep).len() >= 1,
    decreases s.len(),
{
    if s.len() > 0 {
        lemma_split_on_nonempty(s.drop_last(), sep);
    }
}

/// Day, month, four-digit year.
pub open spec fn dmy_of(parts: Seq<Seq<char>>) -> Option<(int, int, int)> {
    if is_field(parts[0], 1, 2) && is_field(parts[1], 1, 2) && is_field(parts[2], 4, 4) {
        let d = digits_val(parts[0]);
        let m = digits_val(parts[1]);
        let y = digits_val(parts[2]);
        if 1 <= m <= 12 && 1 <= d <= days_in_month(y, m) {
            Some((y, m, d))
        } else {
            None
        }
    } else {
        None
    }
}

/// Four-digit year, month, day.
pub open spec fn ymd_of(parts: Seq<Seq<char>>) -> Option<(int, int, int)> {
    if is_field(parts[0], 4, 4) && is_field(parts[1], 1, 2) && is_field(parts[2], 1, 2) {
        let y = digits_val(parts[0]);
        let m = digits_val(parts[1]);
        let d = digits_val(parts[2]);
        if 1 <= m <= 12 && 1 <= d <= days_in_month(y, m) {
            Some((y, m, d))
        } else {
            None
        }
    } else {
        None
    }
}

/// The date grammar: `d/m/yyyy`, `d-m-yyyy` or `yyyy-m-d`, calendar-checked.
/// The boolean records whether the ISO `yyyy-m-d` shape was used.
pub open spec fn parse_date_seq(ds: Seq<char>) -> Option<(int, int, int, bool)> {
    let slash = split_on(ds, '/');
    if slash.len() == 3 {
        match dmy_of(slash) {
            Some((y, m, d)) => Some((y, m, d, false)),
            None => None,
        }
    } else {
        let dash = split_on(ds, '-');
        if dash.len() == 3 {
            if dash[0].len() <= 2 {
                match dmy_of(dash) {
                    Some((y, m, d)) => Some((y, m, d, false)),
                    None => None,
                }
            } else {
                match ymd_of(dash) {
                    Some((y, m, d)) => Some((y, m, d, true)),
                    None => None,
                }
            }
        } else {
            None
        }
    }
}

/// The time grammar: `H:M` or `H:M:S`, each one or two digits, range-checked.
pub open spec fn parse_time_seq(ts: Seq<char>) -> Option<(int, int, int)> {
    let parts = split_on(ts, ':');
    if parts.len() == 2 {
        if is_field(parts[0], 1, 2) && is_field(parts[1], 1, 2) {
            let h = digits_val(parts[0]);
            let mi = digits_val(parts[1]);
            if h <= 23 && mi <= 59 {
                Some((h, mi, 0))
            } else {
                None
            }
        } else {
            None
        }
    } else if parts.len() == 3 {
        if is_field(parts[0], 1, 2) && is_field(parts[1], 1, 2) && is_field(parts[2], 1, 2) {
            let h = digits_val(parts[0]);
            let mi = digits_val(parts[1]);
            let sec = digits_val(parts[2]);
            if h <= 23 && mi <= 59 && sec <= 59 {
                Some((h, mi, sec))
            } else {
                None
            }
        } else {
            None
        }
    } else {
        None
    }
}

/// The first date/time separator (space or `T`) at or after `i`.
pub open spec fn find_sep_from(s: Seq<char>, i: int) -> Option<int>
    decreases s.len() - i,
{
    if i >= s.len() {
        None
    } else if s[i] == ' ' || s[i] == 'T' {
        Some(i)
    } else {
        find_sep_from(s, i + 1)
    }
}

proof fn lemma_find_sep_scan(s: Seq<char>, k: int)
    requires
        0 <= k <= s.len(),
        forall|j: int| 0 <= j < k ==> (#[trigger] s[j]) != ' ' && s[j] != 'T',
        k == s.len() || s[k] == ' ' || s[k] == 'T',
    ensures
        find_sep_from(s, 0) == if k == s.len() {
            None::<int>
        } else {
            Some(k)
        },
{
    lemma_find_sep_scan_from(s, 0, k);
}

proof fn lemma_find_sep_scan_from(s: Seq<char>, a: int, k: int)
    requires
        0 <= a <= k <= s.len(),
        forall|j: int| a <= j < k ==> (#[trigger] s[j]) != ' ' && s[j] != 'T',
        k == s.len() || s[k] == ' ' || s[k] == 'T',
    ensures
        find_sep_from(s, a) == if k == s.len() {
            None::<int>
        } else {
            Some(k)
        },
    decreases k - a,
{
    if a < k {
        lemma_find_sep_scan_from(s, a + 1, k);
    }
}

pub open spec fn mk_dt(y: int, m: int, d: int, h: int, mi: int, sec: int) -> DateTime {
    DateTime {
        year: y as u32,
        month: m as u32,
        day: d as u32,
        hour: h as u32,
        minute: mi as u32,
        second: sec as u32,
    }
}

/// The full timestamp grammar: a date, optionally followed by a time after a
/// single space, or after `T` when the date was in ISO shape; a bare date
/// means midnight.
pub open spec fn parse_timestamp_seq(s: Seq<char>) -> Option<DateTime> {
    match find_sep_from(s, 0) {
        None => match parse_date_seq(s) {
            Some((y, m, d, _iso)) => Some(mk_dt(y, m, d, 0, 0, 0)),
            None => None,
        },
        Some(i) => match (parse_date_seq(s.take(i)), parse_time_seq(s.skip(i + 1))) {
            (Some((y, m, d, iso)), Some((h, mi, sec))) => if s[i] == ' ' || iso {
                Some(mk_dt(y, m, d, h, mi, sec))
            } else {
                None
            },
            _ => None,
        },
    }
}

pub fn leap_year(y: u32) -> (b: bool)
    ensures
        b == is_leap_year(y as int),
{
    y % 4 == 0 && (y % 100 != 0 || y % 400 == 0)
}

pub fn month_days(y: u32, m: u32) -> (d: u32)
    ensures
        d == days_in_month(y as int, m as int),
{
    if m == 2 {
        if leap_year(y) {
            29
        } else {
            28
        }
    } else if m == 4 || m == 6 || m == 9 || m == 11 {
        30
    } else {
        31
    }
}

spec fn pow10(n: nat) -> int
    decreases n,
{
    if n == 0 {
        1
    } else {
        10 * pow10((n - 1) as nat)
    }
}

proof fn lemma_digits_val_bound(s: Seq<char>)
    requires
        all_digits(s),
    ensures
        0 <= digits_val(s) < pow10(s.len()),
    decreases s.len(),
{
    if s.len() == 0 {
    } else {
        assert(forall|i: int| 0 <= i < s.drop_last().len() ==> s.drop_last()[i] == s[i]);
        lemma_digits_val_bound(s.drop_last());
        assert(is_digit_char(s.last()));
        assert((s.last() as u32) >= 48 && (s.last() as u32) <= 57) by {
            assert(('0' as u32) == 48 && ('9' as u32) == 57);
        }
    }
}

/// The value of a digit run of width at most four.
pub fn digits_value(p: &Vec<char>) -> (n: u32)
    requires
        all_digits(p@),
        1 <= p@.len() <= 4,
    ensures
        n == digits_val(p@),
        n <= 9999,
{
    proof {
        lemma_digits_val_bound(p@);
        reveal_with_fuel(pow10, 5);
        assert(pow10(1) == 10 && pow10(2) == 100 && pow10(3) == 1000 && pow10(4) == 10000);
    }
    let mut n: u32 = 0;
    let mut i: usize = 0;
    while i < p.len()
        invariant
            0 <= i <= p@.len() <= 4,
            all_digits(p@),
            n == digits_val(p@.take(i as int)),
            n <= 9999,
        decreases p@.len() - i,
    {
        proof {
            assert(p@.take(i + 1).drop_last() =~= p@.take(i as int));
            assert(p@.take(i + 1).last() == p@[i as int]);
            assert(forall|j: int|
                0 <= j < p@.take(i + 1).len() ==> is_digit_char(#[trigger] p@.take(i + 1)[j]));
            lemma_digits_val_bound(p@.take(i + 1));
            reveal_with_fuel(pow10, 5);
            assert(pow10(1) == 10 && pow10(2) == 100 && pow10(3) == 1000 && pow10(4) == 10000);
        }
        let c = p[i];
        assert(is_digit_char(c));
        assert((c as u32) >= 48 && (c as u32) <= 57) by {
            assert(('0' as u32) == 48 && ('9' as u32) == 57);
        }
        n = n * 10 + (c as u32 - 48);
        i = i + 1;
    }
    proof {
        assert(p@.take(p@.len() as int) =~= p@);
    }
    n
}

/// Whether `p` is a digit run of width between `lo` and `hi`.
pub fn check_field(p: &Vec<char>, lo: usize, hi: usize) -> (b: bool)
    ensures
        b == is_field(p@, lo as int, hi as int),
{
    if p.len() < lo || p.len() > hi {
        return false;
    }
    let mut i: usize = 0;
    while i < p.len()
        invariant
            0 <= i <= p@.len(),
            forall|j: int| 0 <= j < i ==> is_digit_char(p@[j]),
        decreases p@.len() - i,
    {
        if !is_digit(p[i]) {
            return false;
        }
        i = i + 1;
    }
    true
}

/// The characters of `v` between `a` and `b`.
pub fn subvec(v: &Vec<char>, a: usize, b: usize) -> (r: Vec<char>)
    requires
        a <= b <= v@.len(),
    ensures
        r@ == v@.subrange(a as int, b as int),
{
    let mut r: Vec<char> = Vec::new();
    let mut i: usize = a;
    while i < b
        invariant
            a <= i <= b <= v@.len(),
            r@ == v@.subrange(a as int, i as int),
        decreases b - i,
    {
        r.push(v[i]);
        assert(r@ =~= v@.subrange(a as int, i + 1));
        i = i + 1;
    }
    r
}

/// The views of a sequence of character vectors.
pub open spec fn seqs_of(vs: Seq<Vec<char>>) -> Seq<Seq<char>> {
    vs.map_values(|v: Vec<char>| v@)
}

/// `v` split at every `sep`.
pub fn split_chars(v: &Vec<char>, sep: char) -> (parts: Vec<Vec<char>>)
    ensures
        seqs_of(parts@) == split_on(v@, sep),
        parts@.len() >= 1,
{
    let mut parts: Vec<Vec<char>> = Vec::new();
    parts.push(Vec::new());
    assert(seqs_of(parts@) =~~= split_on(v@.take(0), sep)) by {
        assert(v@.take(0) =~= Seq::<char>::empty());
    }
    let mut i: usize = 0;
    while i < v.len()
        invariant
            0 <= i <= v@.len(),
            parts@.len() >= 1,
            seqs_of(parts@) == split_on(v@.take(i as int), sep),
        decreases v@.len() - i,
    {
        proof {
            assert(v@.take(i + 1).drop_last() =~= v@.take(i as int));
            assert(v@.take(i + 1).last() == v@[i as int]);
        }
        let c = v[i];
        if c == sep {
            parts.push(Vec::new());
            assert(seqs_of(parts@) =~~= split_on(v@.take(i + 1), sep));
        } else {
            let mut last = match parts.pop() {
                Some(l) => l,
                None => Vec::new(),
            };
            last.push(c);
            parts.push(last);
            proof {
                let prev = split_on(v@.take(i as int), sep);
                lemma_split_on_nonempty(v@.take(i as int), sep);
                assert(seqs_of(parts@) =~~= prev.update(
                    prev.len() - 1,
                    prev.last().push(c),
                ));
            }
        }
        i = i + 1;
    }
    proof {
        assert(v@.take(v@.len() as int) =~= v@);
    }
    parts
}

/// The date part of the grammar, on character vectors.
pub fn parse_date_chars(ds: &Vec<char>) -> (r: Option<(u32, u32, u32, bool)>)
    ensures
        match r {
            Some((y, m, d, iso)) => parse_date_seq(ds@) == Some(
                (y as int, m as int, d as int, iso),
            ) && y <= 9999 && 1 <= m <= 12 && 1 <= d <= days_in_month(y as int, m as int),
            None => parse_date_seq(ds@) is None,
        },
{
    let slash = split_chars(ds, '/');
    if slash.len() == 3 {
        assert(seqs_of(slash@)[0] == slash@[0]@);
        assert(seqs_of(slash@)[1] == slash@[1]@);
        assert(seqs_of(slash@)[2] == slash@[2]@);
        if check_field(&slash[0], 1, 2) && check_field(&slash[1], 1, 2) && check_field(
            &slash[2],
            4,
            4,
        ) {
            let d = digits_value(&slash[0]);
            let m = digits_value(&slash[1]);
            let y = digits_value(&slash[2]);
            if 1 <= m && m <= 12 && 1 <= d && d <= month_days(y, m) {
                return Some((y, m, d, false));
            }
        }
        return None;
    }
    let dash = split_chars(ds, '-');
    if dash.len() == 3 {
        assert(seqs_of(dash@)[0] == dash@[0]@);
        assert(seqs_of(dash@)[1] == dash@[1]@);
        assert(seqs_of(dash@)[2] == dash@[2]@);
        if dash[0].len() <= 2 {
            if check_field(&dash[0], 1, 2) && check_field(&dash[1], 1, 2) && check_field(
                &dash[2],
                4,
                4,
            ) {
                let d = digits_value(&dash[0]);
                let m = digits_value(&dash[1]);
                let y = digits_value(&dash[2]);
                if 1 <= m && m <= 12 && 1 <= d && d <= month_days(y, m) {
                    return Some((y, m, d, false));
                }
            }
            return None;
        } else {
            if check_field(&dash[0], 4, 4) && check_field(&dash[1], 1, 2) && check_field(
                &dash[2],
                1,
                2,
            ) {
                let y = digits_value(&dash[0]);
                let m = digits_value(&dash[1]);
                let d = digits_value(&dash[2]);
                if 1 <= m && m <= 12 && 1 <= d && d <= month_days(y, m) {
                    return Some((y, m, d, true));
                }
            }
            return None;
        }
    }
    None
}

/// The time part of the grammar, on character vectors.
pub fn parse_time_chars(ts: &Vec<char>) -> (r: Option<(u32, u32, u32)>)
    ensures
        match r {
            Some((h, mi, sec)) => parse_time_seq(ts@) == Some((h as int, mi as int, sec as int))
                && h <= 23 && mi <= 59 && sec <= 59,
            None => parse_time_seq(ts@) is None,
        },
{
    let parts = split_chars(ts, ':');
    if parts.len() == 2 {
        assert(seqs_of(parts@)[0] == parts@[0]@);
        assert(seqs_of(parts@)[1] == parts@[1]@);
        if check_field(&parts[0], 1, 2) && check_field(&parts[1], 1, 2) {
            let h = digits_value(&parts[0]);
            let mi = digits_value(&parts[1]);
            if h <= 23 && mi <= 59 {
                return Some((h, mi, 0));
            }
        }
        return None;
    }
    if parts.len() == 3 {
        assert(seqs_of(parts@)[0] == parts@[0]@);
        assert(seqs_of(parts@)[1] == parts@[1]@);
        assert(seqs_of(parts@)[2] == parts@[2]@);
        if check_field(&parts[0], 1, 2) && check_field(&parts[1], 1, 2) && check_field(
            &parts[2],
            1,
            2,
        ) {
            let h = digits_value(&parts[0]);
            let mi = digits_value(&parts[1]);
            let sec = digits_value(&parts[2]);
            if h <= 23 && mi <= 59 && sec <= 59 {
                return Some((h, mi, sec));
            }
        }
        return None;
    }
    None
}

/// The full grammar, on character vectors.
pub fn parse_timestamp_chars(s: &Vec<char>) -> (r: Option<DateTime>)
    ensures
        r == parse_timestamp_seq(s@),
        r matches Some(dt) ==> dt_valid(dt),
{
    let n = s.len();
    let mut i: usize = 0;
    while i < n && !(s[i] == ' ' || s[i] == 'T')
        invariant
            0 <= i <= n,
            n == s@.len(),
            forall|j: int| 0 <= j < i ==> (#[trigger] s@[j]) != ' ' && s@[j] != 'T',
        decreases n - i,
    {
        i = i + 1;
    }
    proof {
        lemma_find_sep_scan(s@, i as int);
    }
    if i == n {
        match parse_date_chars(s) {
            Some((y, m, d, _iso)) => Some(
                DateTime { year: y, month: m, day: d, hour: 0, minute: 0, second: 0 },
            ),
            None => None,
        }
    } else {
        let sep = s[i];
        let date_part = subvec(s, 0, i);
        let time_part = subvec(s, i + 1, n);
        proof {
            assert(date_part@ =~= s@.take(i as int));
            assert(time_part@ =~= s@.skip(i + 1));
        }
        let dr = parse_date_chars(&date_part);
        let tr = parse_time_chars(&time_part);
        match (dr, tr) {
            (Some((y, m, d, iso)), Some((h, mi, sec))) => {
                if sep == ' ' || iso {
                    Some(DateTime { year: y, month: m, day: d, hour: h, minute: mi, second: sec })
                } else {
                    None
                }
            },
            _ => None,
        }
    }
}

pub open spec fn digit_char(d: int) -> char {
    if d == 0 {
        '0'
    } else if d == 1 {
        '1'
    } else if d == 2 {
        '2'
    } else if d == 3 {
        '3'
    } else if d == 4 {
        '4'
    } else if d == 5 {
        '5'
    } else if d == 6 {
        '6'
    } else if d == 7 {
        '7'
    } else if d == 8 {
        '8'
    } else {
        '9'
    }
}

fn digit_char_exec(d: u32) -> (c: char)
    requires
        d <= 9,
    ensures
        c == digit_char(d as int),
{
    if d == 0 {
        '0'
    } else if d == 1 {
        '1'
    } else if d == 2 {
        '2'
    } else if d == 3 {
        '3'
    } else if d == 4 {
        '4'
    } else if d == 5 {
        '5'
    } else if d == 6 {
        '6'
    } else if d == 7 {
        '7'
    } else if d == 8 {
        '8'
    } else {
        '9'
    }
}

/// Two-digit zero-padded rendering.
pub open spec fn pad2(n: int) -> Seq<char> {
    seq![digit_char(n / 10 % 10), digit_char(n % 10)]
}

/// Four-digit zero-padded rendering.
pub open spec fn pad4(n: int) -> Seq<char> {
    seq![
        digit_char(n / 1000 % 10),
        digit_char(n / 100 % 10),
        digit_char(n / 10 % 10),
        digit_char(n % 10),
    ]
}

/// The canonical textual form `YYYY-MM-DDTHH:MM:SS`.
pub open spec fn canon_seq(dt: DateTime) -> Seq<char> {
    pad4(dt.year as int) + seq!['-'] + pad2(dt.month as int) + seq!['-'] + pad2(dt.day as int)
        + seq!['T'] + pad2(dt.hour as int) + seq![':'] + pad2(dt.minute as int) + seq![':'] + pad2(
        dt.second as int,
    )
}

fn push_pad2(out: &mut Vec<char>, n: u32)
    ensures
        final(out)@ == old(out)@ + pad2(n as int),
{
    out.push(digit_char_exec(n / 10 % 10));
    out.push(digit_char_exec(n % 10));
    assert(out@ =~= old(out)@ + pad2(n as int));
}

fn push_pad4(out: &mut Vec<char>, n: u32)
    ensures
        final(out)@ == old(out)@ + pad4(n as int),
{
    out.push(digit_char_exec(n / 1000 % 10));
    out.push(digit_char_exec(n / 100 % 10));
    out.push(digit_char_exec(n / 10 % 10));
    out.push(digit_char_exec(n % 10));
    assert(out@ =~= old(out)@ + pad4(n as int));
}

/// The canonical rendering of a timestamp.
pub fn canonical_string(dt: &DateTime) -> (r: String)
    ensures
        r@ == canon_seq(*dt),
{
    let mut out: Vec<char> = Vec::new();
    push_pad4(&mut out, dt.year);
    out.push('-');
    push_pad2(&mut out, dt.month);
    out.push('-');
    push_pad2(&mut out, dt.day);
    out.push('T');
    push_pad2(&mut out, dt.hour);
    out.push(':');
    push_pad2(&mut out, dt.minute);
    out.push(':');
    push_pad2(&mut out, dt.second);
    proof {
        assert(out@ =~= canon_seq(*dt));
    }
    string_from_chars(&out)
}

/// Surrounding double quotes removed, after trimming.
pub open spec fn strip_quotes_start(s: Seq<char>) -> Seq<char>
    decreases s.len(),
{
    if s.len() > 0 && s[0] == '"' {
        strip_quotes_start(s.drop_first())
    } else {
        s
    }
}

pub open spec fn strip_quotes_end(s: Seq<char>) -> Seq<char>
    decreases s.len(),
{
    if s.len() > 0 && s.last() == '"' {
        strip_quotes_end(s.drop_last())
    } else {
        s
    }
}

pub open spec fn strip_quotes(s: Seq<char>) -> Seq<char> {
    strip_quotes_end(strip_quotes_start(s))
}

proof fn lemma_strip_start_at(s: Seq<char>, i: int)
    requires
        0 <= i <= s.len(),
        forall|j: int| 0 <= j < i ==> s[j] == '"',
        i == s.len() || s[i] != '"',
    ensures
        strip_quotes_start(s) == s.skip(i),
    decreases i,
{
    if i == 0 {
        assert(s.skip(0) =~= s);
    } else {
        let t = s.drop_first();
        assert(t =~= s.skip(1));
        lemma_strip_start_at(t, i - 1);
        assert(t.skip(i - 1) =~= s.skip(i));
    }
}

proof fn lemma_strip_end_at(s: Seq<char>, k: int)
    requires
        0 <= k <= s.len(),
        forall|j: int| k <= j < s.len() ==> s[j] == '"',
        k == 0 || s[k - 1] != '"',
    ensures
        strip_quotes_end(s) == s.take(k),
    decreases s.len(),
{
    if k == s.len() {
        if s.len() > 0 && s.last() == '"' {
            assert(s[k - 1] == '"');
            assert(false);
        }
        assert(s.take(k) =~= s);
    } else {
        assert(s.last() == '"');
        let t = s.drop_last();
        assert(t =~= s.take(s.len() - 1));
        lemma_strip_end_at(t, k);
        assert(t.take(k) =~= s.take(k));
    }
}

/// Quote characters stripped from both ends of `v`.
fn strip_quote_chars(v: &Vec<char>) -> (r: Vec<char>)
    ensures
        r@ == strip_quotes(v@),
{
    let n = v.len();
    let mut start: usize = 0;
    while start < n && v[start] == '"'
        invariant
            0 <= start <= n,
            n == v@.len(),
            forall|j: int| 0 <= j < start ==> v@[j] == '"',
        decreases n - start,
    {
        start = start + 1;
    }
    let mut end: usize = n;
    while end > start && v[end - 1] == '"'
        invariant
            start <= end <= n,
            n == v@.len(),
            forall|j: int| 0 <= j < start ==> v@[j] == '"',
            forall|j: int| end <= j < n ==> v@[j] == '"',
        decreases end,
    {
        end = end - 1;
    }
    proof {
        lemma_strip_start_at(v@, start as int);
        if end == start {
            lemma_strip_end_at(v@.skip(start as int), 0);
        } else {
            assert(v@.skip(start as int)[end - start - 1] == v@[end as int - 1]);
            lemma_strip_end_at(v@.skip(start as int), end - start);
        }
    }
    let r = subvec(v, start, end);
    proof {
        assert(v@.skip(start as int).take(end - start) =~= v@.subrange(
            start as int,
            end as int,
        ));
    }
    r
}

/// All commas removed.
pub open spec fn remove_commas(s: Seq<char>) -> Seq<char>
    decreases s.len(),
{
    if s.len() == 0 {
        Seq::empty()
    } else {
        remove_commas(s.drop_last()) + if s.last() == ',' {
            Seq::empty()
        } else {
            seq![s.last()]
        }
    }
}

fn remove_comma_chars(v: &Vec<char>) -> (r: Vec<char>)
    ensures
        r@ == remove_commas(v@),
{
    let mut r: Vec<char> = Vec::new();
    let mut i: usize = 0;
    while i < v.len()
        invariant
            0 <= i <= v@.len(),
            r@ == remove_commas(v@.take(i as int)),
        decreases v@.len() - i,
    {
        proof {
            assert(v@.take(i + 1).drop_last() =~= v@.take(i as int));
            assert(v@.take(i + 1).last() == v@[i as int]);
        }
        if v[i] != ',' {
            r.push(v[i]);
        }
        i = i + 1;
    }
    proof {
        assert(v@.take(v@.len() as int) =~= v@);
    }
    r
}

/// The raw cell after trimming and quote stripping: what failure messages
/// report.
pub open spec fn cleaned_of(s: Seq<char>) -> Seq<char> {
    strip_quotes(trim_seq(s))
}

/// What is actually parsed: the cleaned cell with thousands-separator commas
/// removed and trimmed again.
pub open spec fn normalized_of(s: Seq<char>) -> Seq<char> {
    trim_seq(remove_commas(cleaned_of(s)))
}

/// Parses one raw date/time cell. An empty cell (after cleaning) carries no
/// value; a non-empty cell either parses to the canonical textual form or is
/// rejected with a message that quotes the cleaned input.
pub fn parse_csv_datetime(raw: &str) -> (r: Result<Option<String>, String>)
    ensures
        match r {
            Ok(out) => match out {
                None => cleaned_of(raw@).len() == 0,
                Some(v) => cleaned_of(raw@).len() > 0 && (parse_timestamp_seq(
                    normalized_of(raw@),
                ) matches Some(dt) && v@ == canon_seq(dt)),
            },
            Err(m) => cleaned_of(raw@).len() > 0 && parse_timestamp_seq(normalized_of(raw@))
                is None && m@ == "data inválida: "@ + cleaned_of(raw@),
        },
{
    let rv = chars_of(raw);
    let t = trim_chars(&rv);
    let cleaned = strip_quote_chars(&t);
    if cleaned.len() == 0 {
        return Ok(None);
    }
    let nc = remove_comma_chars(&cleaned);
    let normalized = trim_chars(&nc);
    match parse_timestamp_chars(&normalized) {
        Some(dt) => Ok(Some(canonical_string(&dt))),
        None => {
            let mut m = String::from_str("data inválida: ");
            let cs = string_from_chars(&cleaned);
            m.append(cs.as_str());
            Err(m)
        },
    }
}

/// A parsed timestamp cell, or the current time for an empty cell: the shape
/// the import pipeline stores into the two timestamp columns.
pub fn read_csv_datetime_or_now(raw: &str) -> (r: Result<String, String>)
    ensures
        match r {
            Ok(out) => cleaned_of(raw@).len() == 0 || (parse_timestamp_seq(normalized_of(raw@))
                matches Some(dt) && out@ == canon_seq(dt)),
            Err(m) => cleaned_of(raw@).len() > 0 && parse_timestamp_seq(normalized_of(raw@))
                is None && m@ == "data inválida: "@ + cleaned_of(raw@),
        },
{
    match parse_csv_datetime(raw) {
        Ok(Some(v)) => Ok(v),
        Ok(None) => Ok(crate::clock::now_iso()),
        Err(e) => Err(e),
    }
}

/// No date/time separator occurs in `s`.
pub open spec fn no_dt_sep(s: Seq<char>) -> bool {
    forall|i: int| 0 <= i < s.len() ==> (#[trigger] s[i]) != ' ' && s[i] != 'T'
}

proof fn lemma_digit_char_val(d: int)
    requires
        0 <= d <= 9,
    ensures
        is_digit_char(digit_char(d)),
        digit_char(d) as u32 == 48 + d,
{
}

proof fn lemma_digits_val_single(c: char)
    ensures
        digits_val(seq![c]) == c as u32 - 48,
{
    assert(seq![c].drop_last() =~= Seq::<char>::empty());
    assert(seq![c].last() == c);
    assert(digits_val(Seq::<char>::empty()) == 0);
}

proof fn lemma_digits_val_push(s: Seq<char>, c: char)
    ensures
        digits_val(s.push(c)) == digits_val(s) * 10 + (c as u32 - 48),
{
    assert(s.push(c).drop_last() =~= s);
    assert(s.push(c).last() == c);
}

proof fn lemma_pad2(n: int)
    requires
        0 <= n <= 99,
    ensures
        pad2(n).len() == 2,
        all_digits(pad2(n)),
        digits_val(pad2(n)) == n,
{
    let c1 = digit_char(n / 10 % 10);
    let c0 = digit_char(n % 10);
    lemma_digit_char_val(n / 10 % 10);
    lemma_digit_char_val(n % 10);
    assert(pad2(n) =~= seq![c1].push(c0));
    lemma_digits_val_single(c1);
    lemma_digits_val_push(seq![c1], c0);
    assert(n / 10 % 10 == n / 10);
    assert(digits_val(pad2(n)) == (n / 10) * 10 + n % 10);
}

proof fn lemma_pad4(n: int)
    requires
        0 <= n <= 9999,
    ensures
        pad4(n).len() == 4,
        all_digits(pad4(n)),
        digits_val(pad4(n)) == n,
{
    let c3 = digit_char(n / 1000 % 10);
    let c2 = digit_char(n / 100 % 10);
    let c1 = digit_char(n / 10 % 10);
    let c0 = digit_char(n % 10);
    lemma_digit_char_val(n / 1000 % 10);
    lemma_digit_char_val(n / 100 % 10);
    lemma_digit_char_val(n / 10 % 10);
    lemma_digit_char_val(n % 10);
    assert(pad4(n) =~= seq![c3].push(c2).push(c1).push(c0));
    lemma_digits_val_single(c3);
    lemma_digits_val_push(seq![c3], c2);
    lemma_digits_val_push(seq![c3].push(c2), c1);
    lemma_digits_val_push(seq![c3].push(c2).push(c1), c0);
    assert(n / 1000 % 10 == n / 1000);
    assert(digits_val(seq![c3]) == n / 1000);
    assert((n / 1000) * 10 + n / 100 % 10 == n / 100) by (nonlinear_arith)
        requires
            0 <= n <= 9999,
    ;
    assert((n / 100) * 10 + n / 10 % 10 == n / 10) by (nonlinear_arith)
        requires
            0 <= n <= 9999,
    ;
    assert(digits_val(pad4(n)) == (n / 10) * 10 + n % 10);
}

/// A run without the separator splits to itself alone.
proof fn lemma_split_no_sep(s: Seq<char>, sep: char)
    requires
        forall|i: int| 0 <= i < s.len() ==> (#[trigger] s[i]) != sep,
    ensures
        split_on(s, sep) == seq![s],
    decreases s.len(),
{
    if s.len() == 0 {
        assert(split_on(s, sep) =~~= seq![s]);
    } else {
        let t = s.drop_last();
        assert(forall|i: int| 0 <= i < t.len() ==> (#[trigger] t[i]) != sep);
        lemma_split_no_sep(t, sep);
        assert(split_on(s, sep) =~~= seq![s]);
    }
}

/// Appending a separator and a separator-free run appends one part.
proof fn lemma_split_append(s: Seq<char>, sep: char, t: Seq<char>)
    requires
        forall|i: int| 0 <= i < t.len() ==> (#[trigger] t[i]) != sep,
    ensures
        split_on(s + seq![sep] + t, sep) == split_on(s, sep) + seq![t],
    decreases t.len(),
{
    if t.len() == 0 {
        let w = s + seq![sep] + t;
        assert(w =~= s + seq![sep]);
        assert(w.drop_last() =~= s);
        assert(w.last() == sep);
        assert(split_on(w, sep) =~~= split_on(s, sep) + seq![t]);
    } else {
        let t0 = t.drop_last();
        assert(forall|i: int| 0 <= i < t0.len() ==> (#[trigger] t0[i]) != sep);
        lemma_split_append(s, sep, t0);
        let w = s + seq![sep] + t;
        let w0 = s + seq![sep] + t0;
        assert(w.drop_last() =~= w0);
        assert(w.last() == t.last());
        assert(t.last() != sep);
        lemma_split_on_nonempty(w0, sep);
        assert((split_on(s, sep) + seq![t0]).last() == t0);
        assert(split_on(w, sep) =~~= split_on(s, sep) + seq![t]);
    }
}

/// The date part of the canonical renderings, digits with their separators.
pub open spec fn dmy_digits(dt: DateTime) -> Seq<char> {
    pad2(dt.day as int) + seq!['/'] + pad2(dt.month as int) + seq!['/'] + pad4(dt.year as int)
}

pub open spec fn ymd_digits(dt: DateTime) -> Seq<char> {
    pad4(dt.year as int) + seq!['-'] + pad2(dt.month as int) + seq!['-'] + pad2(dt.day as int)
}

pub open spec fn time_digits(dt: DateTime) -> Seq<char> {
    pad2(dt.hour as int) + seq![':'] + pad2(dt.minute as int) + seq![':'] + pad2(dt.second as int)
}

/// `dd/mm/yyyy HH:MM:SS`.
pub open spec fn render_dmy_slash(dt: DateTime) -> Seq<char> {
    dmy_digits(dt) + seq![' '] + time_digits(dt)
}

/// `yyyy-mm-dd HH:MM:SS`.
pub open spec fn render_ymd_space(dt: DateTime) -> Seq<char> {
    ymd_digits(dt) + seq![' '] + time_digits(dt)
}

proof fn lemma_parse_time_digits(dt: DateTime)
    requires
        dt_valid(dt),
    ensures
        parse_time_seq(time_digits(dt)) == Some(
            (dt.hour as int, dt.minute as int, dt.second as int),
        ),
        no_dt_sep(time_digits(dt)),
        forall|i: int|
            0 <= i < time_digits(dt).len() ==> (#[trigger] time_digits(dt)[i]) != '/'
                && time_digits(dt)[i] != '-',
{
    let h = dt.hour as int;
    let mi = dt.minute as int;
    let sec = dt.second as int;
    lemma_pad2(h);
    lemma_pad2(mi);
    lemma_pad2(sec);
    let ts = time_digits(dt);
    assert(pad2(h) + seq![':'] + pad2(mi) + seq![':'] + pad2(sec) =~= (pad2(h) + seq![':'] + pad2(
        mi,
    )) + seq![':'] + pad2(sec));
    lemma_split_append(pad2(h) + seq![':'] + pad2(mi), ':', pad2(sec));
    lemma_split_append(pad2(h), ':', pad2(mi));
    lemma_split_no_sep(pad2(h), ':');
    let parts = split_on(ts, ':');
    assert(parts =~~= seq![pad2(h), pad2(mi), pad2(sec)]);
    assert(parts[0] == pad2(h) && parts[1] == pad2(mi) && parts[2] == pad2(sec));
    assert(is_field(parts[0], 1, 2) && is_field(parts[1], 1, 2) && is_field(parts[2], 1, 2));
}

proof fn lemma_parse_date_dmy(dt: DateTime)
    requires
        dt_valid(dt),
    ensures
        parse_date_seq(dmy_digits(dt)) == Some((dt.year as int, dt.month as int, dt.day as int, false)),
        no_dt_sep(dmy_digits(dt)),
        dmy_digits(dt).len() == 10,
{
    let y = dt.year as int;
    let m = dt.month as int;
    let d = dt.day as int;
    lemma_pad2(d);
    lemma_pad2(m);
    lemma_pad4(y);
    let ds = dmy_digits(dt);
    assert(ds =~= (pad2(d) + seq!['/'] + pad2(m)) + seq!['/'] + pad4(y));
    lemma_split_append(pad2(d) + seq!['/'] + pad2(m), '/', pad4(y));
    lemma_split_append(pad2(d), '/', pad2(m));
    lemma_split_no_sep(pad2(d), '/');
    let parts = split_on(ds, '/');
    assert(parts =~~= seq![pad2(d), pad2(m), pad4(y)]);
    assert(parts[0] == pad2(d) && parts[1] == pad2(m) && parts[2] == pad4(y));
    assert(dmy_of(parts) == Some((y, m, d)));
}

proof fn lemma_parse_date_ymd(dt: DateTime)
    requires
        dt_valid(dt),
    ensures
        parse_date_seq(ymd_digits(dt)) == Some((dt.year as int, dt.month as int, dt.day as int, true)),
        no_dt_sep(ymd_digits(dt)),
        ymd_digits(dt).len() == 10,
{
    let y = dt.year as int;
    let m = dt.month as int;
    let d = dt.day as int;
    lemma_pad2(d);
    lemma_pad2(m);
    lemma_pad4(y);
    let ds = ymd_digits(dt);
    assert(forall|i: int| 0 <= i < ds.len() ==> (#[trigger] ds[i]) != '/');
    lemma_split_no_sep(ds, '/');
    assert(split_on(ds, '/').len() == 1);
    assert(ds =~= (pad4(y) + seq!['-'] + pad2(m)) + seq!['-'] + pad2(d));
    lemma_split_append(pad4(y) + seq!['-'] + pad2(m), '-', pad2(d));
    lemma_split_append(pad4(y), '-', pad2(m));
    lemma_split_no_sep(pad4(y), '-');
    let parts = split_on(ds, '-');
    assert(parts =~~= seq![pad4(y), pad2(m), pad2(d)]);
    assert(parts[0] == pad4(y) && parts[1] == pad2(m) && parts[2] == pad2(d));
    assert(ymd_of(parts) == Some((y, m, d)));
}

proof fn lemma_parse_with_sep(date_part: Seq<char>, sep: char, time_part: Seq<char>)
    requires
        no_dt_sep(date_part),
        no_dt_sep(time_part),
        sep == ' ' || sep == 'T',
    ensures
        find_sep_from(date_part + seq![sep] + time_part, 0) == Some(date_part.len() as int),
        (date_part + seq![sep] + time_part).take(date_part.len() as int) == date_part,
        (date_part + seq![sep] + time_part).skip(date_part.len() as int + 1) == time_part,
        (date_part + seq![sep] + time_part)[date_part.len() as int] == sep,
{
    let s = date_part + seq![sep] + time_part;
    assert forall|j: int| 0 <= j < date_part.len() implies (#[trigger] s[j]) != ' ' && s[j]
        != 'T' by {
        assert(s[j] == date_part[j]);
    }
    assert(s[date_part.len() as int] == sep);
    lemma_find_sep_scan(s, date_part.len() as int);
    assert(s.take(date_part.len() as int) =~= date_part);
    assert(s.skip(date_part.len() as int + 1) =~= time_part);
}

/// All three accepted renderings of one calendar instant — day-first with
/// slashes, ISO with a space, and ISO with a `T` (the canonical form
/// itself) — parse back to exactly that instant; the parser therefore
/// renders them all to the same canonical text.
#[verifier::rlimit(100)]
pub proof fn lemma_formats_agree(dt: DateTime)
    requires
        dt_valid(dt),
    ensures
        parse_timestamp_seq(render_dmy_slash(dt)) == Some(dt),
        parse_timestamp_seq(render_ymd_space(dt)) == Some(dt),
        parse_timestamp_seq(canon_seq(dt)) == Some(dt),
{
    lemma_parse_time_digits(dt);
    lemma_parse_date_dmy(dt);
    lemma_parse_date_ymd(dt);
    lemma_parse_with_sep(dmy_digits(dt), ' ', time_digits(dt));
    lemma_parse_with_sep(ymd_digits(dt), ' ', time_digits(dt));
    lemma_parse_with_sep(ymd_digits(dt), 'T', time_digits(dt));
    assert(canon_seq(dt) =~= ymd_digits(dt) + seq!['T'] + time_digits(dt));
    let s1 = render_dmy_slash(dt);
    assert(parse_timestamp_seq(s1) == Some(
        mk_dt(
            dt.year as int,
            dt.month as int,
            dt.day as int,
            dt.hour as int,
            dt.minute as int,
            dt.second as int,
        ),
    ));
    assert(mk_dt(
        dt.year as int,
        dt.month as int,
        dt.day as int,
        dt.hour as int,
        dt.minute as int,
        dt.second as int,
    ) == dt);
}

} // verus!
