//! Loggable summaries for the instrumented unit-of-work wrapper: value
//! truncation, redaction of sensitive keys, and synthesis of a default
//! bracketed tag for errors that carry none.

use vstd::prelude::*;

use crate::text::chars_of;
use crate::text::chars_eq_str;
use crate::text::string_from_chars;

verus! {

/// ASCII letters mapped to lower case; everything else unchanged.
pub open spec fn lower_ascii_char(c: char) -> char {
    match c {
        'A' => 'a',
        'B' => 'b',
        'C' => 'c',
        'D' => 'd',
        'E' => 'e',
        'F' => 'f',
        'G' => 'g',
        'H' => 'h',
        'I' => 'i',
        'J' => 'j',
        'K' => 'k',
        'L' => 'l',
        'M' => 'm',
        'N' => 'n',
        'O' => 'o',
        'P' => 'p',
        'Q' => 'q',
        'R' => 'r',
        'S' => 's',
        'T' => 't',
        'U' => 'u',
        'V' => 'v',
        'W' => 'w',
        'X' => 'x',
        'Y' => 'y',
        'Z' => 'z',
        _ => c,
    }
}

pub fn lower_ascii(c: char) -> (r: char)
    ensures
        r == lower_ascii_char(c),
{
    match c {
        'A' => 'a',
        'B' => 'b',
        'C' => 'c',
        'D' => 'd',
        'E' => 'e',
        'F' => 'f',
        'G' => 'g',
        'H' => 'h',
        'I' => 'i',
        'J' => 'j',
        'K' => 'k',
        'L' => 'l',
        'M' => 'm',
        'N' => 'n',
        'O' => 'o',
        'P' => 'p',
        'Q' => 'q',
        'R' => 'r',
        'S' => 's',
        'T' => 't',
        'U' => 'u',
        'V' => 'v',
        'W' => 'w',
        'X' => 'x',
        'Y' => 'y',
        'Z' => 'z',
        _ => c,
    }
}

/// ASCII letters mapped to upper case; everything else unchanged.
pub open spec fn upper_ascii_char(c: char) -> char {
    match c {
        'a' => 'A',
        'b' => 'B',
        'c' => 'C',
        'd' => 'D',
        'e' => 'E',
        'f' => 'F',
        'g' => 'G',
        'h' => 'H',
        'i' => 'I',
        'j' => 'J',
        'k' => 'K',
        'l' => 'L',
        'm' => 'M',
        'n' => 'N',
        'o' => 'O',
        'p' => 'P',
        'q' => 'Q',
        'r' => 'R',
        's' => 'S',
        't' => 'T',
        'u' => 'U',
        'v' => 'V',
        'w' => 'W',
        'x' => 'X',
        'y' => 'Y',
        'z' => 'Z',
        _ => c,
    }
}

pub fn upper_ascii(c: char) -> (r: char)
    ensures
        r == upper_ascii_char(c),
{
    match c {
        'a' => 'A',
        'b' => 'B',
        'c' => 'C',
        'd' => 'D',
        'e' => 'E',
        'f' => 'F',
        'g' => 'G',
        'h' => 'H',
        'i' => 'I',
        'j' => 'J',
        'k' => 'K',
        'l' => 'L',
        'm' => 'M',
        'n' => 'N',
        'o' => 'O',
        'p' => 'P',
        'q' => 'Q',
        'r' => 'R',
        's' => 'S',
        't' => 'T',
        'u' => 'U',
        'v' => 'V',
        'w' => 'W',
        'x' => 'X',
        'y' => 'Y',
        'z' => 'Z',
        _ => c,
    }
}

pub open spec fn is_ascii_alnum_char(c: char) -> bool {
    ('a' <= c && c <= 'z') || ('A' <= c && c <= 'Z') || ('0' <= c && c <= '9')
}

pub fn is_ascii_alnum(c: char) -> (b: bool)
    ensures
        b == is_ascii_alnum_char(c),
{
    ('a' <= c && c <= 'z') || ('A' <= c && c <= 'Z') || ('0' <= c && c <= '9')
}

/// Log values longer than 120 characters are cut and marked with an ellipsis.
pub open spec fn truncate_seq(s: Seq<char>) -> Seq<char> {
    if s.len() > 120 {
        s.take(120) + seq!['…']
    } else {
        s
    }
}

pub fn truncate_log_value(value: &str) -> (r: String)
    ensures
        r@ == truncate_seq(value@),
{
    let v = chars_of(value);
    if v.len() > 120 {
        let mut out: Vec<char> = Vec::new();
        let mut i: usize = 0;
        while i < 120
            invariant
                0 <= i <= 120,
                v@.len() > 120,
                v@ == value@,
                out@ == v@.take(i as int),
            decreases 120 - i,
        {
            out.push(v[i]);
            assert(out@ =~= v@.take(i + 1));
            i = i + 1;
        }
        out.push('…');
        let r = string_from_chars(&out);
        proof {
            assert(r@ =~= value@.take(120) + seq!['…']);
        }
        r
    } else {
        value.to_owned()
    }
}

/// A payload summary is the payload itself, truncated for the log.
pub fn summarize_payload(payload: &str) -> (r: String)
    ensures
        r@ == truncate_seq(payload@),
{
    truncate_log_value(payload)
}

/// ASCII letters of a whole string mapped to lower case.
pub open spec fn ascii_lower_seq(s: Seq<char>) -> Seq<char> {
    s.map_values(|c: char| lower_ascii_char(c))
}

/// The lower-cased characters of a string.
pub fn ascii_lower_chars(s: &str) -> (r: Vec<char>)
    ensures
        r@ == ascii_lower_seq(s@),
{
    let v = chars_of(s);
    let mut low: Vec<char> = Vec::new();
    let mut i: usize = 0;
    while i < v.len()
        invariant
            0 <= i <= v@.len(),
            v@ == s@,
            low@ == ascii_lower_seq(v@.take(i as int)),
        decreases v@.len() - i,
    {
        low.push(lower_ascii(v[i]));
        assert(low@ =~= ascii_lower_seq(v@.take(i + 1)));
        i = i + 1;
    }
    proof {
        assert(v@.take(v@.len() as int) =~= v@);
    }
    low
}

/// Whether a payload key names data that must not reach the log.
pub open spec fn redact_key_seq(s: Seq<char>) -> bool {
    let l = ascii_lower_seq(s);
    ||| l == "email"@
    ||| l == "phone"@
    ||| l == "contact"@
    ||| l == "contact_name"@
    ||| l == "description"@
    ||| l == "descricao"@
    ||| l == "notes"@
    ||| l == "company"@
    ||| l == "companyname"@
    ||| l == "csv"@
    ||| l == "csv_content"@
    ||| l == "backup_path"@
    ||| l == "destination_path"@
}

pub fn should_redact_log_key(key: &str) -> (b: bool)
    ensures
        b == redact_key_seq(key@),
{
    let low = ascii_lower_chars(key);
    chars_eq_str(&low, "email") || chars_eq_str(&low, "phone") || chars_eq_str(&low, "contact")
        || chars_eq_str(&low, "contact_name") || chars_eq_str(&low, "description")
        || chars_eq_str(&low, "descricao") || chars_eq_str(&low, "notes") || chars_eq_str(
        &low,
        "company",
    ) || chars_eq_str(&low, "companyname") || chars_eq_str(&low, "csv") || chars_eq_str(
        &low,
        "csv_content",
    ) || chars_eq_str(&low, "backup_path") || chars_eq_str(&low, "destination_path")
}

pub open spec fn is_tag_char(c: char) -> bool {
    ('A' <= c && c <= 'Z') || ('0' <= c && c <= '9') || c == '_'
}

/// The position of the first `"] "` at or after `i`, if any.
pub open spec fn find_tag_close(s: Seq<char>, i: int) -> Option<int>
    decreases s.len() - i,
{
    if i + 1 >= s.len() {
        None
    } else if s[i] == ']' && s[i + 1] == ' ' {
        Some(i)
    } else {
        find_tag_close(s, i + 1)
    }
}

proof fn lemma_find_tag_close_step(s: Seq<char>, a: int, b: int)
    requires
        0 <= a <= b,
        forall|j: int| a <= j < b ==> !((#[trigger] s[j]) == ']' && j + 1 < s.len() && s[j + 1] == ' '),
    ensures
        find_tag_close(s, a) == find_tag_close(s, b),
    decreases b - a,
{
    if a < b {
        if a + 1 >= s.len() {
            lemma_find_tag_close_none(s, a);
            lemma_find_tag_close_none(s, b);
        } else {
            lemma_find_tag_close_step(s, a + 1, b);
        }
    }
}

proof fn lemma_find_tag_close_none(s: Seq<char>, a: int)
    requires
        a + 1 >= s.len(),
    ensures
        find_tag_close(s, a) is None,
    decreases s.len() - a,
{
}

/// A message carries a leading tag when it looks like `[TAG] ...` with a
/// non-empty tag of capitals, digits and underscores.
pub open spec fn has_leading_tag_seq(s: Seq<char>) -> bool {
    &&& s.len() > 0
    &&& s[0] == '['
    &&& match find_tag_close(s, 0) {
        Some(i) => i >= 2 && (forall|j: int| 1 <= j < i ==> is_tag_char(s[j])),
        None => false,
    }
}

pub fn has_leading_tag(message: &str) -> (b: bool)
    ensures
        b == has_leading_tag_seq(message@),
{
    let v = chars_of(message);
    if v.len() == 0 || v[0] != '[' {
        return false;
    }
    let n = v.len();
    let mut i: usize = 0;
    while i < n - 1 && !(v[i] == ']' && v[i + 1] == ' ')
        invariant
            1 <= n,
            n == v@.len(),
            v@ == message@,
            0 <= i <= n - 1,
            forall|j: int|
                0 <= j < i ==> !((#[trigger] v@[j]) == ']' && j + 1 < v@.len() && v@[j + 1]
                    == ' '),
        decreases n - 1 - i,
    {
        i = i + 1;
    }
    if i == n - 1 {
        proof {
            lemma_find_tag_close_step(v@, 0, i as int);
            lemma_find_tag_close_none(v@, i as int);
        }
        return false;
    }
    let c = i;
    proof {
        lemma_find_tag_close_step(v@, 0, c as int);
    }
    assert(find_tag_close(v@, 0) == Some(c as int));
    if c < 2 {
        return false;
    }
    let mut j: usize = 1;
    while j < c
        invariant
            1 <= j <= c,
            2 <= c,
            c < v@.len(),
            v@ == message@,
            v@[0] == '[',
            find_tag_close(v@, 0) == Some(c as int),
            forall|k: int| 1 <= k < j ==> is_tag_char(v@[k]),
        decreases c - j,
    {
        let ch = v[j];
        if !(('A' <= ch && ch <= 'Z') || ('0' <= ch && ch <= '9') || ch == '_') {
            assert(!is_tag_char(v@[j as int]));
            return false;
        }
        j = j + 1;
    }
    true
}

/// The character mapping behind the synthesized command tag.
pub open spec fn command_tag_char(c: char) -> char {
    if is_ascii_alnum_char(c) {
        upper_ascii_char(c)
    } else {
        '_'
    }
}

/// `CMD_<NAME>_FAILED`, with the command name upper-cased and padded.
pub open spec fn default_tag_seq(s: Seq<char>) -> Seq<char> {
    "CMD_"@ + s.map_values(|c: char| command_tag_char(c)) + "_FAILED"@
}

pub fn default_command_tag(command: &str) -> (r: String)
    ensures
        r@ == default_tag_seq(command@),
{
    let v = chars_of(command);
    let mut mid: Vec<char> = Vec::new();
    let mut i: usize = 0;
    while i < v.len()
        invariant
            0 <= i <= v@.len(),
            v@ == command@,
            mid@ == v@.take(i as int).map_values(|c: char| command_tag_char(c)),
        decreases v@.len() - i,
    {
        let ch = v[i];
        if is_ascii_alnum(ch) {
            mid.push(upper_ascii(ch));
        } else {
            mid.push('_');
        }
        assert(mid@ =~= v@.take(i + 1).map_values(|c: char| command_tag_char(c)));
        i = i + 1;
    }
    proof {
        assert(v@.take(v@.len() as int) =~= v@);
    }
    let mut r = String::from_str("CMD_");
    let mids = string_from_chars(&mid);
    r.append(mids.as_str());
    r.append("_FAILED");
    r
}

/// An error message is passed through when it already carries a tag, and is
/// wrapped in the synthesized command tag otherwise.
pub fn ensure_tagged_error(command: &str, message: String) -> (r: String)
    ensures
        has_leading_tag_seq(message@) ==> r@ == message@,
        !has_leading_tag_seq(message@) ==> r@ == "["@ + default_tag_seq(command@) + "] "@
            + message@,
{
    if has_leading_tag(message.as_str()) {
        return message;
    }
    let mut r = String::from_str("[");
    let tag = default_command_tag(command);
    r.append(tag.as_str());
    r.append("] ");
    r.append(message.as_str());
    r
}

} // verus!
