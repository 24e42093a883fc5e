//! The lead payload produced for each CSV row, and its validation rules:
//! required fields, a plausible e-mail shape, and a phone number with enough
//! digits.

use vstd::prelude::*;

use crate::text::chars_of;
use crate::text::is_blank_chars;
use crate::text::is_blank_seq;
use crate::text::only_digits_chars;
use crate::text::only_digits_seq;
use crate::text::string_from_chars;
use crate::text::trim_chars;
use crate::text::trim_seq;

verus! {

/// The canonical shape of one incoming record before validation.
#[derive(Debug, Clone)]
pub struct LeadPayload {
    pub company: String,
    pub contact_name: String,
    pub job_title: String,
    pub email: String,
    pub phone: String,
    pub linkedin: String,
    pub location: String,
    pub country: String,
    pub state: String,
    pub city: String,
    pub company_size: String,
    pub industry: String,
    pub interest: String,
    pub stage: String,
    pub notes: String,
    pub rating: Option<i64>,
    pub next_followup_at: Option<String>,
}

pub fn is_blank(s: &str) -> (b: bool)
    ensures
        b == is_blank_seq(s@),
{
    let v = chars_of(s);
    is_blank_chars(&v)
}

/// The position of the first `c` at or after `i`, if any.
pub open spec fn find_char_from(s: Seq<char>, c: char, i: int) -> Option<int>
    decreases s.len() - i,
{
    if i >= s.len() {
        None
    } else if s[i] == c {
        Some(i)
    } else {
        find_char_from(s, c, i + 1)
    }
}

proof fn lemma_find_char_scan(s: Seq<char>, c: char, k: int)
    requires
        0 <= k <= s.len(),
        forall|j: int| 0 <= j < k ==> s[j] != c,
        k == s.len() || s[k] == c,
    ensures
        find_char_from(s, c, 0) == if k == s.len() {
            None::<int>
        } else {
            Some(k)
        },
    decreases s.len(),
{
    lemma_find_char_scan_from(s, c, 0, k);
}

proof fn lemma_find_char_scan_from(s: Seq<char>, c: char, a: int, k: int)
    requires
        0 <= a <= k <= s.len(),
        forall|j: int| a <= j < k ==> s[j] != c,
        k == s.len() || s[k] == c,
    ensures
        find_char_from(s, c, a) == if k == s.len() {
            None::<int>
        } else {
            Some(k)
        },
    decreases k - a,
{
    if a < k {
        lemma_find_char_scan_from(s, c, a + 1, k);
    }
}

/// A plausible e-mail: an `@` at a positive position, and a `.` somewhere
/// after it, once surrounding whitespace is removed.
pub open spec fn is_valid_email_seq(s: Seq<char>) -> bool {
    let e = trim_seq(s);
    match find_char_from(e, '@', 0) {
        None => false,
        Some(at) => at > 0 && exists|j: int| at < j < e.len() && e[j] == '.',
    }
}

pub fn is_valid_email(email: &str) -> (b: bool)
    ensures
        b == is_valid_email_seq(email@),
{
    let v = chars_of(email);
    let e = trim_chars(&v);
    let n = e.len();
    let mut at: usize = 0;
    while at < n && e[at] != '@'
        invariant
            0 <= at <= n,
            n == e@.len(),
            e@ == trim_seq(email@),
            forall|j: int| 0 <= j < at ==> e@[j] != '@',
        decreases n - at,
    {
        at = at + 1;
    }
    proof {
        lemma_find_char_scan(e@, '@', at as int);
    }
    if at == n {
        return false;
    }
    if at == 0 {
        return false;
    }
    let mut j: usize = at + 1;
    while j < n
        invariant
            0 < at < j <= n,
            n == e@.len(),
            e@ == trim_seq(email@),
            e@[at as int] == '@',
            find_char_from(e@, '@', 0) == Some(at as int),
            forall|k: int| at < k < j ==> e@[k] != '.',
        decreases n - j,
    {
        if e[j] == '.' {
            assert(e@[j as int] == '.');
            assert(exists|k: int| at < k < e@.len() && e@[k] == '.');
            return true;
        }
        j = j + 1;
    }
    false
}

/// Only the decimal digits of `s`, in order.
pub fn only_digits(s: &str) -> (r: String)
    ensures
        r@ == only_digits_seq(s@),
{
    let v = chars_of(s);
    let d = only_digits_chars(&v);
    string_from_chars(&d)
}

/// A plausible phone number holds at least ten digits.
pub open spec fn is_valid_phone_seq(s: Seq<char>) -> bool {
    only_digits_seq(s).len() >= 10
}

pub fn is_valid_phone(phone: &str) -> (b: bool)
    ensures
        b == is_valid_phone_seq(phone@),
{
    let v = chars_of(phone);
    let d = only_digits_chars(&v);
    d.len() >= 10
}

pub open spec fn opt_view(s: Option<String>) -> Option<Seq<char>> {
    match s {
        Some(x) => Some(x@),
        None => None,
    }
}

pub open spec fn opt_int(s: Option<i64>) -> Option<int> {
    match s {
        Some(x) => Some(x as int),
        None => None,
    }
}

/// The mathematical shadow of an incoming payload.
pub ghost struct PayloadModel {
    pub company: Seq<char>,
    pub contact_name: Seq<char>,
    pub job_title: Seq<char>,
    pub email: Seq<char>,
    pub phone: Seq<char>,
    pub linkedin: Seq<char>,
    pub location: Seq<char>,
    pub country: Seq<char>,
    pub state: Seq<char>,
    pub city: Seq<char>,
    pub company_size: Seq<char>,
    pub industry: Seq<char>,
    pub interest: Seq<char>,
    pub stage: Seq<char>,
    pub notes: Seq<char>,
    pub rating: Option<int>,
    pub next_followup_at: Option<Seq<char>>,
}

impl View for LeadPayload {
    type V = PayloadModel;

    open spec fn view(&self) -> PayloadModel {
        PayloadModel {
            company: self.company@,
            contact_name: self.contact_name@,
            job_title: self.job_title@,
            email: self.email@,
            phone: self.phone@,
            linkedin: self.linkedin@,
            location: self.location@,
            country: self.country@,
            state: self.state@,
            city: self.city@,
            company_size: self.company_size@,
            industry: self.industry@,
            interest: self.interest@,
            stage: self.stage@,
            notes: self.notes@,
            rating: opt_int(self.rating),
            next_followup_at: opt_view(self.next_followup_at),
        }
    }
}

/// The first validation failure for a payload, if any: the checks run in a
/// fixed order and the first one that fails names the error.
pub open spec fn validate_msg_model(p: PayloadModel) -> Option<Seq<char>> {
    if is_blank_seq(p.company) {
        Some("Empresa é obrigatória"@)
    } else if is_blank_seq(p.contact_name) {
        Some("Contato é obrigatório"@)
    } else if is_blank_seq(p.email) {
        Some("E-mail é obrigatório"@)
    } else if !is_valid_email_seq(p.email) {
        Some("E-mail inválido"@)
    } else if is_blank_seq(p.phone) {
        Some("Telefone é obrigatório"@)
    } else if !is_valid_phone_seq(p.phone) {
        Some("Telefone inválido"@)
    } else if is_blank_seq(p.stage) {
        Some("Status é obrigatório"@)
    } else if p.rating matches Some(r) && !(1 <= r && r <= 5) {
        Some("Rating deve estar entre 1 e 5"@)
    } else {
        None
    }
}

pub open spec fn validate_message(p: LeadPayload) -> Option<Seq<char>> {
    validate_msg_model(p@)
}

pub fn validate_payload(payload: &LeadPayload) -> (r: Result<(), String>)
    ensures
        match r {
            Ok(_) => validate_message(*payload) is None,
            Err(m) => validate_message(*payload) == Some(m@),
        },
{
    if is_blank(payload.company.as_str()) {
        return Err(String::from_str("Empresa é obrigatória"));
    }
    if is_blank(payload.contact_name.as_str()) {
        return Err(String::from_str("Contato é obrigatório"));
    }
    if is_blank(payload.email.as_str()) {
        return Err(String::from_str("E-mail é obrigatório"));
    }
    if !is_valid_email(payload.email.as_str()) {
        return Err(String::from_str("E-mail inválido"));
    }
    if is_blank(payload.phone.as_str()) {
        return Err(String::from_str("Telefone é obrigatório"));
    }
    if !is_valid_phone(payload.phone.as_str()) {
        return Err(String::from_str("Telefone inválido"));
    }
    if is_blank(payload.stage.as_str()) {
        return Err(String::from_str("Status é obrigatório"));
    }
    if let Some(rating) = payload.rating {
        if !(1 <= rating && rating <= 5) {
            return Err(String::from_str("Rating deve estar entre 1 e 5"));
        }
    }
    Ok(())
}

/// A trimmed copy of a string.
pub fn trim_string(s: &str) -> (r: String)
    ensures
        r@ == trim_seq(s@),
{
    let v = chars_of(s);
    let t = trim_chars(&v);
    string_from_chars(&t)
}

/// `Some` of the trimmed value when it is non-empty, `None` otherwise:
/// the shape stored for optional columns.
pub open spec fn trimmed_nonempty(s: Option<Seq<char>>) -> Option<Seq<char>> {
    match s {
        None => None,
        Some(t) => if trim_seq(t).len() == 0 {
            None
        } else {
            Some(trim_seq(t))
        },
    }
}

pub fn trim_optional(s: &Option<String>) -> (r: Option<String>)
    ensures
        match (r, trimmed_nonempty(match s {
            Some(x) => Some(x@),
            None => None,
        })) {
            (None, None) => true,
            (Some(a), Some(b)) => a@ == b,
            _ => false,
        },
{
    match s {
        None => None,
        Some(x) => {
            let t = trim_string(x.as_str());
            if t.as_str().unicode_len() == 0 {
                proof {
                    assert(t@.len() == 0);
                }
                None
            } else {
                Some(t)
            }
        },
    }
}

} // verus!
