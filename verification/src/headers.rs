//! The header mapper: each header cell is normalized (lower case, accents
//! folded, everything but ASCII letters and digits dropped) and a fixed alias
//! table maps each canonical field to the column it will be read from.

use vstd::prelude::*;

use crate::stage::lower_latin_char;
use crate::stage::lower_latin;
use crate::text::chars_of;
use crate::text::chars_eq_str;
use crate::text::string_from_chars;

verus! {

/// The normalized form of one header character: lower-cased, accents folded
/// to their base letter, and `None` for anything that is not an ASCII letter
/// or digit.
pub open spec fn fold_header_char(c: char) -> Option<char> {
    let l = lower_latin_char(c);
    let f = match l {
        'á' | 'à' | 'ã' | 'â' | 'ä' => 'a',
        'é' | 'ê' | 'è' | 'ë' => 'e',
        'í' | 'ì' | 'î' | 'ï' => 'i',
        'ó' | 'ò' | 'õ' | 'ô' | 'ö' => 'o',
        'ú' | 'ù' | 'û' | 'ü' => 'u',
        'ç' => 'c',
        _ => l,
    };
    if ('a' <= f && f <= 'z') || ('0' <= f && f <= '9') {
        Some(f)
    } else {
        None
    }
}

fn fold_header(c: char) -> (r: Option<char>)
    ensures
        r == fold_header_char(c),
{
    let l = lower_latin(c);
    let f = match l {
        'á' | 'à' | 'ã' | 'â' | 'ä' => 'a',
        'é' | 'ê' | 'è' | 'ë' => 'e',
        'í' | 'ì' | 'î' | 'ï' => 'i',
        'ó' | 'ò' | 'õ' | 'ô' | 'ö' => 'o',
        'ú' | 'ù' | 'û' | 'ü' => 'u',
        'ç' => 'c',
        other => other,
    };
    if ('a' <= f && f <= 'z') || ('0' <= f && f <= '9') {
        Some(f)
    } else {
        None
    }
}

/// A header cell reduced to its canonical key.
pub open spec fn normalize_header_seq(s: Seq<char>) -> Seq<char>
    decreases s.len(),
{
    if s.len() == 0 {
        Seq::empty()
    } else {
        normalize_header_seq(s.drop_last()) + match fold_header_char(s.last()) {
            Some(c) => seq![c],
            None => Seq::empty(),
        }
    }
}

pub fn normalize_header_chars(v: &Vec<char>) -> (r: Vec<char>)
    ensures
        r@ == normalize_header_seq(v@),
{
    let mut r: Vec<char> = Vec::new();
    let mut i: usize = 0;
    while i < v.len()
        invariant
            0 <= i <= v@.len(),
            r@ == normalize_header_seq(v@.take(i as int)),
        decreases v@.len() - i,
    {
        proof {
            assert(v@.take(i + 1).drop_last() =~= v@.take(i as int));
            assert(v@.take(i + 1).last() == v@[i as int]);
        }
        match fold_header(v[i]) {
            Some(c) => {
                r.push(c);
            },
            None => {},
        }
        i = i + 1;
    }
    proof {
        assert(v@.take(v@.len() as int) =~= v@);
    }
    r
}

/// The canonical key of a raw header cell.
pub fn normalize_csv_header(s: &str) -> (r: String)
    ensures
        r@ == normalize_header_seq(s@),
{
    let v = chars_of(s);
    let n = normalize_header_chars(&v);
    string_from_chars(&n)
}

/// The column whose normalized header equals `key`; when several do, the
/// rightmost wins.
pub open spec fn key_index(headers: Seq<Seq<char>>, key: Seq<char>) -> Option<int>
    decreases headers.len(),
{
    if headers.len() == 0 {
        None
    } else if normalize_header_seq(headers.last()) == key {
        Some(headers.len() - 1)
    } else {
        key_index(headers.drop_last(), key)
    }
}

/// The first alias, in table order, that names a column of the header.
pub open spec fn field_slot(headers: Seq<Seq<char>>, aliases: Seq<Seq<char>>) -> Option<int>
    decreases aliases.len(),
{
    if aliases.len() == 0 {
        None
    } else {
        match key_index(headers, aliases[0]) {
            Some(i) => Some(i),
            None => field_slot(headers, aliases.drop_first()),
        }
    }
}

pub open spec fn slot_eq(a: Option<usize>, b: Option<int>) -> bool {
    match (a, b) {
        (Option::None, Option::None) => true,
        (Option::Some(x), Option::Some(y)) => x as int == y,
        _ => false,
    }
}

pub open spec fn views_of_strings(hs: Seq<String>) -> Seq<Seq<char>> {
    hs.map_values(|s: String| s@)
}

pub open spec fn strs_views(ss: Seq<&str>) -> Seq<Seq<char>> {
    ss.map_values(|s: &str| s@)
}

pub open spec fn company_aliases() -> Seq<Seq<char>> {
    seq!["empresa"@, "company"@, "nomeempresa"@, "razaosocial"@, "organizacao"@]
}

pub open spec fn contact_name_aliases() -> Seq<Seq<char>> {
    seq!["contato"@, "contact"@, "nomecontato"@, "responsavel"@, "pessoa"@, "nome"@]
}

pub open spec fn job_title_aliases() -> Seq<Seq<char>> {
    seq!["cargo"@, "jobtitle"@, "funcao"@]
}

pub open spec fn email_aliases() -> Seq<Seq<char>> {
    seq!["email"@, "mail"@]
}

pub open spec fn phone_aliases() -> Seq<Seq<char>> {
    seq!["telefone"@, "phone"@, "celular"@, "whatsapp"@, "tel"@, "fone"@]
}

pub open spec fn interest_aliases() -> Seq<Seq<char>> {
    seq!["interesse"@, "interest"@]
}

pub open spec fn stage_aliases() -> Seq<Seq<char>> {
    seq!["status"@, "stage"@, "etapa"@, "fase"@]
}

pub open spec fn created_at_aliases() -> Seq<Seq<char>> {
    seq!["criadoem"@, "createdat"@, "datacriacao"@, "criacao"@]
}

pub open spec fn updated_at_aliases() -> Seq<Seq<char>> {
    seq!["atualizadoem"@, "updatedat"@, "dataatualizacao"@, "atualizacao"@]
}

/// Canonical field to column index, from the alias table.
pub struct HeaderMap {
    pub company: Option<usize>,
    pub contact_name: Option<usize>,
    pub job_title: Option<usize>,
    pub email: Option<usize>,
    pub phone: Option<usize>,
    pub interest: Option<usize>,
    pub stage: Option<usize>,
    pub created_at: Option<usize>,
    pub updated_at: Option<usize>,
}

fn find_key(norm: &Vec<Vec<char>>, key: &str, Ghost(hv): Ghost<Seq<Seq<char>>>) -> (r: Option<
    usize,
>)
    requires
        norm@.len() == hv.len(),
        forall|i: int| 0 <= i < hv.len() ==> (#[trigger] norm@[i])@ == normalize_header_seq(hv[i]),
    ensures
        slot_eq(r, key_index(hv, key@)),
{
    let mut i: usize = norm.len();
    proof {
        assert(hv.take(hv.len() as int) =~= hv);
    }
    while i > 0
        invariant
            0 <= i <= norm@.len(),
            norm@.len() == hv.len(),
            forall|k: int|
                0 <= k < hv.len() ==> (#[trigger] norm@[k])@ == normalize_header_seq(hv[k]),
            key_index(hv, key@) == key_index(hv.take(i as int), key@),
        decreases i,
    {
        proof {
            assert(hv.take(i as int).last() == hv[i - 1]);
            assert(hv.take(i as int).drop_last() =~= hv.take(i - 1));
        }
        if chars_eq_str(&norm[i - 1], key) {
            assert(normalize_header_seq(hv[i - 1]) == key@);
            return Some(i - 1);
        }
        assert(normalize_header_seq(hv[i - 1]) != key@);
        i = i - 1;
    }
    proof {
        assert(hv.take(0) =~= Seq::<Seq<char>>::empty());
    }
    None
}

fn find_slot(norm: &Vec<Vec<char>>, aliases: &Vec<&str>, Ghost(hv): Ghost<Seq<Seq<char>>>) -> (r:
    Option<usize>)
    requires
        norm@.len() == hv.len(),
        forall|i: int| 0 <= i < hv.len() ==> (#[trigger] norm@[i])@ == normalize_header_seq(hv[i]),
    ensures
        slot_eq(r, field_slot(hv, strs_views(aliases@))),
{
    let mut k: usize = 0;
    proof {
        assert(aliases@.skip(0) =~= aliases@);
    }
    while k < aliases.len()
        invariant
            0 <= k <= aliases@.len(),
            norm@.len() == hv.len(),
            forall|i: int|
                0 <= i < hv.len() ==> (#[trigger] norm@[i])@ == normalize_header_seq(hv[i]),
            field_slot(hv, strs_views(aliases@)) == field_slot(
                hv,
                strs_views(aliases@.skip(k as int)),
            ),
        decreases aliases@.len() - k,
    {
        proof {
            assert(strs_views(aliases@.skip(k as int))[0] == aliases@[k as int]@);
            assert(strs_views(aliases@.skip(k as int)).drop_first() =~= strs_views(
                aliases@.skip(k + 1),
            ));
        }
        match find_key(norm, aliases[k], Ghost(hv)) {
            Some(i) => {
                return Some(i);
            },
            None => {},
        }
        k = k + 1;
    }
    proof {
        assert(strs_views(aliases@.skip(aliases@.len() as int)).len() == 0);
    }
    None
}

/// Builds the canonical-field-to-column map for a header row: for each field
/// the first alias present in the header decides, and among equal header
/// keys the rightmost column wins.
pub fn build_header_map(headers: &Vec<String>) -> (r: HeaderMap)
    ensures
        slot_eq(r.company, field_slot(views_of_strings(headers@), company_aliases())),
        slot_eq(r.contact_name, field_slot(views_of_strings(headers@), contact_name_aliases())),
        slot_eq(r.job_title, field_slot(views_of_strings(headers@), job_title_aliases())),
        slot_eq(r.email, field_slot(views_of_strings(headers@), email_aliases())),
        slot_eq(r.phone, field_slot(views_of_strings(headers@), phone_aliases())),
        slot_eq(r.interest, field_slot(views_of_strings(headers@), interest_aliases())),
        slot_eq(r.stage, field_slot(views_of_strings(headers@), stage_aliases())),
        slot_eq(r.created_at, field_slot(views_of_strings(headers@), created_at_aliases())),
        slot_eq(r.updated_at, field_slot(views_of_strings(headers@), updated_at_aliases())),
{
    let ghost hv = views_of_strings(headers@);
    let mut norm: Vec<Vec<char>> = Vec::new();
    let mut i: usize = 0;
    while i < headers.len()
        invariant
            0 <= i <= headers@.len(),
            hv == views_of_strings(headers@),
            norm@.len() == i,
            forall|k: int| 0 <= k < i ==> (#[trigger] norm@[k])@ == normalize_header_seq(hv[k]),
        decreases headers@.len() - i,
    {
        let hc = chars_of(headers[i].as_str());
        let nh = normalize_header_chars(&hc);
        norm.push(nh);
        i = i + 1;
    }
    proof {
        assert(hv.len() == headers@.len());
    }
    let a_company: Vec<&str> = vec!["empresa", "company", "nomeempresa", "razaosocial", "organizacao"];
    let a_contact: Vec<&str> = vec!["contato", "contact", "nomecontato", "responsavel", "pessoa", "nome"];
    let a_job: Vec<&str> = vec!["cargo", "jobtitle", "funcao"];
    let a_email: Vec<&str> = vec!["email", "mail"];
    let a_phone: Vec<&str> = vec!["telefone", "phone", "celular", "whatsapp", "tel", "fone"];
    let a_interest: Vec<&str> = vec!["interesse", "interest"];
    let a_stage: Vec<&str> = vec!["status", "stage", "etapa", "fase"];
    let a_created: Vec<&str> = vec!["criadoem", "createdat", "datacriacao", "criacao"];
    let a_updated: Vec<&str> = vec!["atualizadoem", "updatedat", "dataatualizacao", "atualizacao"];
    proof {
        assert(strs_views(a_company@) =~~= company_aliases());
        assert(strs_views(a_contact@) =~~= contact_name_aliases());
        assert(strs_views(a_job@) =~~= job_title_aliases());
        assert(strs_views(a_email@) =~~= email_aliases());
        assert(strs_views(a_phone@) =~~= phone_aliases());
        assert(strs_views(a_interest@) =~~= interest_aliases());
        assert(strs_views(a_stage@) =~~= stage_aliases());
        assert(strs_views(a_created@) =~~= created_at_aliases());
        assert(strs_views(a_updated@) =~~= updated_at_aliases());
    }
    HeaderMap {
        company: find_slot(&norm, &a_company, Ghost(hv)),
        contact_name: find_slot(&norm, &a_contact, Ghost(hv)),
        job_title: find_slot(&norm, &a_job, Ghost(hv)),
        email: find_slot(&norm, &a_email, Ghost(hv)),
        phone: find_slot(&norm, &a_phone, Ghost(hv)),
        interest: find_slot(&norm, &a_interest, Ghost(hv)),
        stage: find_slot(&norm, &a_stage, Ghost(hv)),
        created_at: find_slot(&norm, &a_created, Ghost(hv)),
        updated_at: find_slot(&norm, &a_updated, Ghost(hv)),
    }
}

} // verus!
