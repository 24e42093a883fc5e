//! The import orchestrator: one CSV document is driven through delimiter
//! detection, header mapping, per-row temporal parsing, validation and the
//! upsert engine, accumulating counts and structured per-row errors. A bad
//! row never aborts the document; only an empty or headerless document is
//! rejected as a whole.

use vstd::prelude::*;

use crate::csv::csv_rows;
use crate::csv::csv_delimiter_chars;
use crate::csv::delimiter_of;
use crate::csv::parse_csv_rows;
use crate::headers::HeaderMap;
use crate::headers::build_header_map;
use crate::headers::company_aliases;
use crate::headers::contact_name_aliases;
use crate::headers::created_at_aliases;
use crate::headers::email_aliases;
use crate::headers::field_slot;
use crate::headers::interest_aliases;
use crate::headers::job_title_aliases;
use crate::headers::phone_aliases;
use crate::headers::stage_aliases;
use crate::headers::updated_at_aliases;
use crate::headers::views_of_strings;
use crate::lead::LeadPayload;
use crate::lead::PayloadModel;
use crate::lead::validate_msg_model;
use crate::lead::validate_payload;
use crate::lead::opt_view;
use crate::store::LeadModel;
use crate::store::LeadStore;
use crate::store::bump_id;
use crate::store::email_key;
use crate::store::find_email_from;
use crate::store::store_wf;
use crate::store::has_email;
use crate::store::lemma_upsert_model_wf;
use crate::store::lemma_upsert_model_keys;
use crate::store::upsert_lead_by_email;
use crate::store::upsert_model;
use crate::tags::ErrorTag;
use crate::tags::tag_seq;
use crate::tags::tagged_error;
use crate::tags::tagged_seq;
use crate::text::chars_of;
use crate::text::is_blank_chars;
use crate::text::is_blank_seq;
use crate::text::string_from_chars;
use crate::text::trim_seq;
use crate::timestamp::canon_seq;
use crate::timestamp::cleaned_of;
use crate::timestamp::normalized_of;
use crate::timestamp::parse_csv_datetime;
use crate::timestamp::parse_timestamp_seq;
use crate::timestamp::seqs_of;
use crate::timestamp::subvec;

verus! {

/// One structured per-row diagnostic.
pub struct RowError {
    pub row: usize,
    pub message: String,
    pub company: String,
    pub email: String,
    pub column: Option<String>,
    pub received_value: Option<String>,
}

/// The mathematical shadow of a row error.
pub ghost struct RowErrorModel {
    pub row: int,
    pub message: Seq<char>,
    pub company: Seq<char>,
    pub email: Seq<char>,
    pub column: Option<Seq<char>>,
    pub received_value: Option<Seq<char>>,
}

impl View for RowError {
    type V = RowErrorModel;

    open spec fn view(&self) -> RowErrorModel {
        RowErrorModel {
            row: self.row as int,
            message: self.message@,
            company: self.company@,
            email: self.email@,
            column: opt_view(self.column),
            received_value: opt_view(self.received_value),
        }
    }
}

/// The aggregate of one import call.
pub struct ImportResult {
    pub imported: usize,
    pub skipped: usize,
    pub errors: Vec<RowError>,
}

pub ghost struct ImportOutcomeModel {
    pub imported: int,
    pub skipped: int,
    pub errors: Seq<RowErrorModel>,
}

pub open spec fn errs_of(es: Seq<RowError>) -> Seq<RowErrorModel> {
    es.map_values(|e: RowError| e@)
}

impl View for ImportResult {
    type V = ImportOutcomeModel;

    open spec fn view(&self) -> ImportOutcomeModel {
        ImportOutcomeModel {
            imported: self.imported as int,
            skipped: self.skipped as int,
            errors: errs_of(self.errors@),
        }
    }
}

proof fn lemma_errs_of_push(es: Seq<RowError>, e: RowError)
    ensures
        errs_of(es.push(e)) == errs_of(es).push(e@),
{
    assert(errs_of(es.push(e)) =~= errs_of(es).push(e@));
}

/// Leading byte-order marks removed.
pub open spec fn strip_bom(s: Seq<char>) -> Seq<char>
    decreases s.len(),
{
    if s.len() > 0 && s[0] == '\u{feff}' {
        strip_bom(s.drop_first())
    } else {
        s
    }
}

proof fn lemma_strip_bom_at(s: Seq<char>, i: int)
    requires
        0 <= i <= s.len(),
        forall|j: int| 0 <= j < i ==> s[j] == '\u{feff}',
        i == s.len() || s[i] != '\u{feff}',
    ensures
        strip_bom(s) == s.skip(i),
    decreases i,
{
    if i == 0 {
        assert(s.skip(0) =~= s);
    } else {
        let t = s.drop_first();
        assert(t =~= s.skip(1));
        lemma_strip_bom_at(t, i - 1);
        assert(t.skip(i - 1) =~= s.skip(i));
    }
}

/// The column indices the nine canonical fields are read from.
pub ghost struct SlotsModel {
    pub company: Option<int>,
    pub contact_name: Option<int>,
    pub job_title: Option<int>,
    pub email: Option<int>,
    pub phone: Option<int>,
    pub interest: Option<int>,
    pub stage: Option<int>,
    pub created_at: Option<int>,
    pub updated_at: Option<int>,
}

pub open spec fn opt_usize_int(o: Option<usize>) -> Option<int> {
    match o {
        Some(i) => Some(i as int),
        None => None,
    }
}

pub open spec fn slots_model(m: HeaderMap) -> SlotsModel {
    SlotsModel {
        company: opt_usize_int(m.company),
        contact_name: opt_usize_int(m.contact_name),
        job_title: opt_usize_int(m.job_title),
        email: opt_usize_int(m.email),
        phone: opt_usize_int(m.phone),
        interest: opt_usize_int(m.interest),
        stage: opt_usize_int(m.stage),
        created_at: opt_usize_int(m.created_at),
        updated_at: opt_usize_int(m.updated_at),
    }
}

/// The slot map the alias table derives from a header row.
pub open spec fn slots_of(header: Seq<Seq<char>>) -> SlotsModel {
    SlotsModel {
        company: field_slot(header, company_aliases()),
        contact_name: field_slot(header, contact_name_aliases()),
        job_title: field_slot(header, job_title_aliases()),
        email: field_slot(header, email_aliases()),
        phone: field_slot(header, phone_aliases()),
        interest: field_slot(header, interest_aliases()),
        stage: field_slot(header, stage_aliases()),
        created_at: field_slot(header, created_at_aliases()),
        updated_at: field_slot(header, updated_at_aliases()),
    }
}

/// A cell of a record, by optional column index: absent columns and columns
/// beyond the record's width read as empty, and cells are trimmed.
pub open spec fn field_value(row: Seq<Seq<char>>, slot: Option<int>) -> Seq<char> {
    match slot {
        Some(i) => if 0 <= i < row.len() {
            trim_seq(row[i])
        } else {
            Seq::empty()
        },
        None => Seq::empty(),
    }
}

/// What one timestamp cell yields: no value, a canonical value, or a failure.
pub ghost enum DateRead {
    Absent,
    Value(Seq<char>),
    Invalid,
}

pub open spec fn date_read(raw: Seq<char>) -> DateRead {
    if cleaned_of(raw).len() == 0 {
        DateRead::Absent
    } else {
        match parse_timestamp_seq(normalized_of(raw)) {
            Some(dt) => DateRead::Value(canon_seq(dt)),
            None => DateRead::Invalid,
        }
    }
}

/// The message of an invalid date cell: the invalid-date tag, then the
/// cleaned offending value.
pub open spec fn invalid_date_message(raw: Seq<char>) -> Seq<char> {
    tag_seq(ErrorTag::ImportInvalidDate) + ": data inválida: "@ + cleaned_of(raw)
}

/// The payload a record produces: the mapped cells, everything else empty.
pub open spec fn payload_model_of(row: Seq<Seq<char>>, slots: SlotsModel) -> PayloadModel {
    PayloadModel {
        company: field_value(row, slots.company),
        contact_name: field_value(row, slots.contact_name),
        job_title: field_value(row, slots.job_title),
        email: field_value(row, slots.email),
        phone: field_value(row, slots.phone),
        interest: field_value(row, slots.interest),
        stage: field_value(row, slots.stage),
        linkedin: Seq::empty(),
        location: Seq::empty(),
        country: Seq::empty(),
        state: Seq::empty(),
        city: Seq::empty(),
        company_size: Seq::empty(),
        industry: Seq::empty(),
        notes: Seq::empty(),
        rating: None,
        next_followup_at: None,
    }
}

pub open spec fn row_blank(row: Seq<Seq<char>>) -> bool {
    forall|i: int| 0 <= i < row.len() ==> is_blank_seq(#[trigger] row[i])
}

/// What happens to one data record.
pub ghost enum RowOutcome {
    Blank,
    Failed(RowErrorModel),
    Upserted(PayloadModel, Seq<char>, Seq<char>),
}

/// The fate of one record: blank rows are dropped silently; a bad timestamp
/// or a validation failure yields a structured error naming the column; a
/// good record is upserted with its document timestamps, the updated-at
/// column defaulting to `now`.
pub open spec fn row_outcome(
    row: Seq<Seq<char>>,
    slots: SlotsModel,
    row_no: int,
    now: Seq<char>,
) -> RowOutcome {
    if row_blank(row) {
        RowOutcome::Blank
    } else {
        let company = field_value(row, slots.company);
        let email = field_value(row, slots.email);
        let craw = field_value(row, slots.created_at);
        let uraw = field_value(row, slots.updated_at);
        if date_read(craw) is Invalid {
            RowOutcome::Failed(
                RowErrorModel {
                    row: row_no,
                    message: invalid_date_message(craw),
                    company: company,
                    email: email,
                    column: Some("created_at"@),
                    received_value: Some(craw),
                },
            )
        } else if date_read(uraw) is Invalid {
            RowOutcome::Failed(
                RowErrorModel {
                    row: row_no,
                    message: invalid_date_message(uraw),
                    company: company,
                    email: email,
                    column: Some("updated_at"@),
                    received_value: Some(uraw),
                },
            )
        } else {
            let p = payload_model_of(row, slots);
            match validate_msg_model(p) {
                Some(m) => RowOutcome::Failed(
                    RowErrorModel {
                        row: row_no,
                        message: m,
                        company: company,
                        email: email,
                        column: Some("payload"@),
                        received_value: None,
                    },
                ),
                None => {
                    let created = match date_read(craw) {
                        DateRead::Value(v) => v,
                        _ => Seq::empty(),
                    };
                    let updated = match date_read(uraw) {
                        DateRead::Value(v) => v,
                        _ => now,
                    };
                    RowOutcome::Upserted(p, created, updated)
                },
            }
        }
    }
}

/// The running aggregate of an import.
pub ghost struct ImportAcc {
    pub imported: int,
    pub skipped: int,
    pub errors: Seq<RowErrorModel>,
    pub leads: Seq<LeadModel>,
    pub next_id: int,
}

pub open spec fn apply_row(
    acc: ImportAcc,
    row: Seq<Seq<char>>,
    slots: SlotsModel,
    row_no: int,
    now: Seq<char>,
) -> ImportAcc {
    match row_outcome(row, slots, row_no, now) {
        RowOutcome::Blank => ImportAcc { skipped: acc.skipped + 1, ..acc },
        RowOutcome::Failed(e) => ImportAcc {
            skipped: acc.skipped + 1,
            errors: acc.errors.push(e),
            ..acc
        },
        RowOutcome::Upserted(p, c, u) => ImportAcc {
            imported: acc.imported + 1,
            leads: upsert_model(acc.leads, p, c, u, now, acc.next_id),
            next_id: if find_email_from(acc.leads, email_key(trim_seq(p.email)), 0) is Some {
                acc.next_id
            } else {
                bump_id(acc.next_id)
            },
            ..acc
        },
    }
}

/// The aggregate after the records from `i` on.
pub open spec fn import_rows(
    acc: ImportAcc,
    rows: Seq<Seq<Seq<char>>>,
    i: int,
    slots: SlotsModel,
    now: Seq<char>,
) -> ImportAcc
    decreases rows.len() - i,
{
    if i < 0 || i >= rows.len() {
        acc
    } else {
        import_rows(apply_row(acc, rows[i], slots, i + 1, now), rows, i + 1, slots, now)
    }
}

pub ghost enum ImportSpecResult {
    Rejected(Seq<char>),
    Done(ImportAcc),
}

/// The import of a whole document against a store: rejected as empty when
/// only whitespace and byte-order marks remain, rejected when no header row
/// can be read, and otherwise the fold of every data record.
pub open spec fn import_model(
    leads0: Seq<LeadModel>,
    next_id0: int,
    content: Seq<char>,
    now: Seq<char>,
) -> ImportSpecResult {
    let stripped = strip_bom(content);
    if is_blank_seq(stripped) {
        ImportSpecResult::Rejected(tagged_seq(ErrorTag::ImportEmptyCsv, "CSV vazio"@))
    } else {
        let rows = csv_rows(stripped, delimiter_of(stripped));
        if rows.len() == 0 {
            ImportSpecResult::Rejected(
                tagged_seq(ErrorTag::ImportParseFailed, "Falha ao ler cabeçalho CSV"@),
            )
        } else {
            let acc0 = ImportAcc {
                imported: 0,
                skipped: 0,
                errors: Seq::empty(),
                leads: leads0,
                next_id: next_id0,
            };
            ImportSpecResult::Done(import_rows(acc0, rows, 1, slots_of(rows[0]), now))
        }
    }
}

/// Reads one cell of a record by its mapped column.
pub fn read_csv_field(record: &Vec<Vec<char>>, slot: &Option<usize>) -> (r: String)
    ensures
        r@ == field_value(seqs_of(record@), opt_usize_int(*slot)),
{
    match slot {
        Some(i) => {
            if *i < record.len() {
                let t = crate::text::trim_chars(&record[*i]);
                let s = string_from_chars(&t);
                proof {
                    assert(seqs_of(record@)[*i as int] == (record@[*i as int])@);
                }
                s
            } else {
                String::new()
            }
        },
        None => String::new(),
    }
}

fn blank_row(record: &Vec<Vec<char>>) -> (b: bool)
    ensures
        b == row_blank(seqs_of(record@)),
{
    let mut i: usize = 0;
    while i < record.len()
        invariant
            0 <= i <= record@.len(),
            forall|j: int| 0 <= j < i ==> is_blank_seq(#[trigger] seqs_of(record@)[j]),
        decreases record@.len() - i,
    {
        proof {
            assert(seqs_of(record@)[i as int] == (record@[i as int])@);
        }
        if !is_blank_chars(&record[i]) {
            return false;
        }
        i = i + 1;
    }
    true
}

/// Builds the invalid-date message for one cell.
fn date_error_message(err: &str) -> (r: String)
    ensures
        r@ == tag_seq(ErrorTag::ImportInvalidDate) + ": "@ + err@,
{
    let mut m = String::from_str(ErrorTag::ImportInvalidDate.as_str());
    m.append(": ");
    m.append(err);
    proof {
        assert(m@ =~= tag_seq(ErrorTag::ImportInvalidDate) + ": "@ + err@);
    }
    m
}

/// Imports one CSV document into the store. Counts, errors and the final
/// store contents are exactly the import model of the document; on a
/// rejected document the store is untouched.
#[verifier::rlimit(100)]
pub fn import_csv_with_store(store: &mut LeadStore, csv_content: &str, now: &str) -> (r: Result<
    ImportResult,
    String,
>)
    requires
        store_wf(old(store)@),
    ensures
        match r {
            Ok(res) => {
                &&& import_model(old(store)@, old(store).next_id as int, csv_content@, now@)
                    matches ImportSpecResult::Done(acc)
                &&& import_model(old(store)@, old(store).next_id as int, csv_content@, now@)
                    == ImportSpecResult::Done(ImportAcc {
                    imported: res@.imported,
                    skipped: res@.skipped,
                    errors: res@.errors,
                    leads: final(store)@,
                    next_id: final(store).next_id as int,
                })
                &&& store_wf(final(store)@)
            },
            Err(m) => {
                &&& import_model(old(store)@, old(store).next_id as int, csv_content@, now@)
                    == ImportSpecResult::Rejected(m@)
                &&& final(store)@ == old(store)@
                &&& final(store).next_id == old(store).next_id
            },
        },
{
    let cv = chars_of(csv_content);
    let n = cv.len();
    let mut b: usize = 0;
    while b < n && cv[b] == '\u{feff}'
        invariant
            0 <= b <= n,
            n == cv@.len(),
            cv@ == csv_content@,
            forall|j: int| 0 <= j < b ==> cv@[j] == '\u{feff}',
        decreases n - b,
    {
        b = b + 1;
    }
    proof {
        lemma_strip_bom_at(cv@, b as int);
    }
    let stripped = subvec(&cv, b, n);
    proof {
        assert(cv@.subrange(b as int, n as int) =~= cv@.skip(b as int));
        assert(stripped@ == strip_bom(csv_content@));
    }
    if is_blank_chars(&stripped) {
        return Err(tagged_error(ErrorTag::ImportEmptyCsv, "CSV vazio"));
    }
    let delim = csv_delimiter_chars(&stripped);
    let rows = parse_csv_rows(&stripped, delim);
    let ghost rv = crate::csv::rows_of(rows@);
    if rows.len() == 0 {
        return Err(tagged_error(ErrorTag::ImportParseFailed, "Falha ao ler cabeçalho CSV"));
    }
    let header = &rows[0];
    let mut header_strings: Vec<String> = Vec::new();
    let mut h: usize = 0;
    while h < header.len()
        invariant
            0 <= h <= header@.len(),
            header_strings@.len() == h,
            forall|j: int| 0 <= j < h ==> (#[trigger] header_strings@[j])@ == (header@[j])@,
        decreases header@.len() - h,
    {
        header_strings.push(string_from_chars(&header[h]));
        h = h + 1;
    }
    let map = build_header_map(&header_strings);
    let ghost slots = slots_of(rv[0]);
    proof {
        assert(views_of_strings(header_strings@) =~= seqs_of(header@));
        assert(rv[0] == seqs_of(rows@[0]@));
        assert(slots_model(map) == slots);
    }
    let ghost acc0 = ImportAcc {
        imported: 0,
        skipped: 0,
        errors: Seq::empty(),
        leads: old(store)@,
        next_id: old(store).next_id as int,
    };
    let ghost accn = import_rows(acc0, rv, 1, slots, now@);
    let mut imported: usize = 0;
    let mut skipped: usize = 0;
    let mut errors: Vec<RowError> = Vec::new();
    let mut i: usize = 1;
    proof {
        assert(errs_of(errors@) =~= Seq::<RowErrorModel>::empty());
        assert(acc0 == ImportAcc {
            imported: imported as int,
            skipped: skipped as int,
            errors: errs_of(errors@),
            leads: store@,
            next_id: store.next_id as int,
        });
    }
    while i < rows.len()
        invariant
            1 <= i <= rows@.len(),
            rv == crate::csv::rows_of(rows@),
            rv.len() == rows@.len(),
            slots == slots_model(map),
            imported + skipped == i - 1,
            store_wf(store@),
            accn == import_rows(
                ImportAcc {
                    imported: imported as int,
                    skipped: skipped as int,
                    errors: errs_of(errors@),
                    leads: store@,
                    next_id: store.next_id as int,
                },
                rv,
                i as int,
                slots,
                now@,
            ),
        decreases rows@.len() - i,
    {
        let ghost acc_i = ImportAcc {
            imported: imported as int,
            skipped: skipped as int,
            errors: errs_of(errors@),
            leads: store@,
            next_id: store.next_id as int,
        };
        let ghost row_spec = rv[i as int];
        proof {
            assert(row_spec == seqs_of(rows@[i as int]@));
        }
        let row_no = i + 1;
        let record = &rows[i];
        if blank_row(record) {
            skipped = skipped + 1;
            proof {
                assert(row_outcome(row_spec, slots, row_no as int, now@) == RowOutcome::Blank);
                assert(apply_row(acc_i, row_spec, slots, row_no as int, now@) == ImportAcc {
                    imported: imported as int,
                    skipped: skipped as int,
                    errors: errs_of(errors@),
                    leads: store@,
                    next_id: store.next_id as int,
                });
            }
            i = i + 1;
            continue;
        }
        let company = read_csv_field(record, &map.company);
        let email = read_csv_field(record, &map.email);
        let created_raw = read_csv_field(record, &map.created_at);
        let updated_raw = read_csv_field(record, &map.updated_at);
        let created_at: String = match parse_csv_datetime(created_raw.as_str()) {
            Ok(v) => match v {
                Some(value) => value,
                None => String::new(),
            },
            Err(err) => {
                let ghost eprev = errors@;
                let e = RowError {
                    row: row_no,
                    message: date_error_message(err.as_str()),
                    company: company,
                    email: email,
                    column: Some(String::from_str("created_at")),
                    received_value: Some(created_raw),
                };
                proof {
                    reveal_strlit(": ");
                    reveal_strlit("data inválida: ");
                    reveal_strlit(": data inválida: ");
                    assert(e@.message =~= invalid_date_message(field_value(
                        row_spec,
                        slots.created_at,
                    )));
                }
                errors.push(e);
                skipped = skipped + 1;
                proof {
                    lemma_errs_of_push(eprev, e);
                    assert(row_outcome(row_spec, slots, row_no as int, now@)
                        == RowOutcome::Failed(e@));
                }
                i = i + 1;
                continue;
            },
        };
        let updated_at: String = match parse_csv_datetime(updated_raw.as_str()) {
            Ok(v) => match v {
                Some(value) => value,
                None => now.to_owned(),
            },
            Err(err) => {
                let ghost eprev = errors@;
                let e = RowError {
                    row: row_no,
                    message: date_error_message(err.as_str()),
                    company: company,
                    email: email,
                    column: Some(String::from_str("updated_at")),
                    received_value: Some(updated_raw),
                };
                proof {
                    reveal_strlit(": ");
                    reveal_strlit("data inválida: ");
                    reveal_strlit(": data inválida: ");
                    assert(e@.message =~= invalid_date_message(field_value(
                        row_spec,
                        slots.updated_at,
                    )));
                }
                errors.push(e);
                skipped = skipped + 1;
                proof {
                    lemma_errs_of_push(eprev, e);
                    assert(row_outcome(row_spec, slots, row_no as int, now@)
                        == RowOutcome::Failed(e@));
                }
                i = i + 1;
                continue;
            },
        };
        let payload = LeadPayload {
            company: company,
            contact_name: read_csv_field(record, &map.contact_name),
            job_title: read_csv_field(record, &map.job_title),
            email: email,
            phone: read_csv_field(record, &map.phone),
            stage: read_csv_field(record, &map.stage),
            linkedin: String::new(),
            location: String::new(),
            country: String::new(),
            state: String::new(),
            city: String::new(),
            company_size: String::new(),
            industry: String::new(),
            interest: read_csv_field(record, &map.interest),
            notes: String::new(),
            rating: None,
            next_followup_at: None,
        };
        proof {
            assert(payload@ == payload_model_of(row_spec, slots));
        }
        if let Err(err) = validate_payload(&payload) {
            let ghost eprev = errors@;
            let e = RowError {
                row: row_no,
                message: err,
                company: payload.company,
                email: payload.email,
                column: Some(String::from_str("payload")),
                received_value: None,
            };
            errors.push(e);
            skipped = skipped + 1;
            proof {
                lemma_errs_of_push(eprev, e);
                assert(row_outcome(row_spec, slots, row_no as int, now@) == RowOutcome::Failed(
                    e@,
                ));
            }
            i = i + 1;
            continue;
        }
        let _ = upsert_lead_by_email(store, &payload, created_at.as_str(), updated_at.as_str(), now);
        imported = imported + 1;
        proof {
            assert(row_outcome(row_spec, slots, row_no as int, now@) == RowOutcome::Upserted(
                payload@,
                created_at@,
                updated_at@,
            ));
        }
        i = i + 1;
    }
    proof {
        assert(import_rows(
            ImportAcc {
                imported: imported as int,
                skipped: skipped as int,
                errors: errs_of(errors@),
                leads: store@,
                next_id: store.next_id as int,
            },
            rv,
            rows@.len() as int,
            slots,
            now@,
        ) == accn);
    }
    Ok(ImportResult { imported, skipped, errors })
}

/// A document holding nothing but whitespace and byte-order marks is
/// rejected with the empty-CSV tag; the import contract then guarantees the
/// store is untouched.
pub proof fn lemma_blank_document_rejected(
    leads0: Seq<LeadModel>,
    next_id0: int,
    content: Seq<char>,
    now: Seq<char>,
)
    requires
        is_blank_seq(strip_bom(content)),
    ensures
        import_model(leads0, next_id0, content, now) == ImportSpecResult::Rejected(
            tagged_seq(ErrorTag::ImportEmptyCsv, "CSV vazio"@),
        ),
{
}

/// A record whose cells are all blank is skipped silently: the skip count
/// rises by one and nothing else changes — no error entry, no store change.
pub proof fn lemma_blank_row_skipped_silently(
    acc: ImportAcc,
    row: Seq<Seq<char>>,
    slots: SlotsModel,
    row_no: int,
    now: Seq<char>,
)
    requires
        row_blank(row),
    ensures
        apply_row(acc, row, slots, row_no, now) == (ImportAcc { skipped: acc.skipped + 1, ..acc }),
        apply_row(acc, row, slots, row_no, now).errors == acc.errors,
        apply_row(acc, row, slots, row_no, now).leads == acc.leads,
{
}

proof fn lemma_fold_wf(
    acc: ImportAcc,
    rows: Seq<Seq<Seq<char>>>,
    i: int,
    slots: SlotsModel,
    now: Seq<char>,
)
    requires
        store_wf(acc.leads),
    ensures
        store_wf(import_rows(acc, rows, i, slots, now).leads),
    decreases rows.len() - i,
{
    if 0 <= i < rows.len() {
        let acc2 = apply_row(acc, rows[i], slots, i + 1, now);
        match row_outcome(rows[i], slots, i + 1, now) {
            RowOutcome::Upserted(p, c, u) => {
                lemma_upsert_model_wf(acc.leads, p, c, u, now, acc.next_id);
            },
            _ => {},
        }
        lemma_fold_wf(acc2, rows, i + 1, slots, now);
    }
}

proof fn lemma_fold_keys_monotone(
    acc: ImportAcc,
    rows: Seq<Seq<Seq<char>>>,
    i: int,
    slots: SlotsModel,
    now: Seq<char>,
    key: Seq<char>,
)
    requires
        store_wf(acc.leads),
        has_email(acc.leads, key),
    ensures
        has_email(import_rows(acc, rows, i, slots, now).leads, key),
    decreases rows.len() - i,
{
    if 0 <= i < rows.len() {
        let acc2 = apply_row(acc, rows[i], slots, i + 1, now);
        match row_outcome(rows[i], slots, i + 1, now) {
            RowOutcome::Upserted(p, c, u) => {
                lemma_upsert_model_keys(acc.leads, p, c, u, now, acc.next_id);
                lemma_upsert_model_wf(acc.leads, p, c, u, now, acc.next_id);
            },
            _ => {},
        }
        lemma_fold_keys_monotone(acc2, rows, i + 1, slots, now, key);
    }
}

/// After the fold, the e-mail identity of every row that was upserted is
/// present in the store.
proof fn lemma_fold_upserted_keys_present(
    acc: ImportAcc,
    rows: Seq<Seq<Seq<char>>>,
    i: int,
    slots: SlotsModel,
    now: Seq<char>,
)
    requires
        0 <= i,
        store_wf(acc.leads),
    ensures
        forall|j: int|
            i <= j < rows.len() && (row_outcome(#[trigger] rows[j], slots, j + 1, now)
                is Upserted) ==> has_email(
                import_rows(acc, rows, i, slots, now).leads,
                email_key(
                    trim_seq(row_outcome(rows[j], slots, j + 1, now)->Upserted_0.email),
                ),
            ),
    decreases rows.len() - i,
{
    if i < rows.len() {
        let acc2 = apply_row(acc, rows[i], slots, i + 1, now);
        let fin = import_rows(acc, rows, i, slots, now);
        assert(fin == import_rows(acc2, rows, i + 1, slots, now));
        match row_outcome(rows[i], slots, i + 1, now) {
            RowOutcome::Upserted(p, c, u) => {
                lemma_upsert_model_keys(acc.leads, p, c, u, now, acc.next_id);
                lemma_upsert_model_wf(acc.leads, p, c, u, now, acc.next_id);
                lemma_fold_keys_monotone(
                    acc2,
                    rows,
                    i + 1,
                    slots,
                    now,
                    email_key(trim_seq(p.email)),
                );
            },
            _ => {},
        }
        lemma_fold_upserted_keys_present(acc2, rows, i + 1, slots, now);
        assert forall|j: int|
            i <= j < rows.len() && (row_outcome(#[trigger] rows[j], slots, j + 1, now)
                is Upserted) implies has_email(
            fin.leads,
            email_key(trim_seq(row_outcome(rows[j], slots, j + 1, now)->Upserted_0.email)),
        ) by {
            if j == i {
                assert(has_email(
                    fin.leads,
                    email_key(
                        trim_seq(row_outcome(rows[i], slots, i + 1, now)->Upserted_0.email),
                    ),
                ));
            }
        }
    }
}

/// When every row that will be upserted already has its identity in the
/// store, the fold never inserts: the count and the identity set are
/// unchanged.
proof fn lemma_fold_no_growth(
    acc: ImportAcc,
    rows: Seq<Seq<Seq<char>>>,
    i: int,
    slots: SlotsModel,
    now: Seq<char>,
)
    requires
        store_wf(acc.leads),
        forall|j: int|
            i <= j < rows.len() && (row_outcome(#[trigger] rows[j], slots, j + 1, now)
                is Upserted) ==> has_email(
                acc.leads,
                email_key(
                    trim_seq(row_outcome(rows[j], slots, j + 1, now)->Upserted_0.email),
                ),
            ),
    ensures
        import_rows(acc, rows, i, slots, now).leads.len() == acc.leads.len(),
    decreases rows.len() - i,
{
    if 0 <= i < rows.len() {
        let acc2 = apply_row(acc, rows[i], slots, i + 1, now);
        match row_outcome(rows[i], slots, i + 1, now) {
            RowOutcome::Upserted(p, c, u) => {
                lemma_upsert_model_keys(acc.leads, p, c, u, now, acc.next_id);
                lemma_upsert_model_wf(acc.leads, p, c, u, now, acc.next_id);
                assert(has_email(acc.leads, email_key(trim_seq(p.email))));
                assert(acc2.leads.len() == acc.leads.len());
                assert forall|j: int|
                    i + 1 <= j < rows.len() && (row_outcome(#[trigger] rows[j], slots, j + 1, now)
                        is Upserted) implies has_email(
                    acc2.leads,
                    email_key(
                        trim_seq(row_outcome(rows[j], slots, j + 1, now)->Upserted_0.email),
                    ),
                ) by {
                    let k = email_key(
                        trim_seq(row_outcome(rows[j], slots, j + 1, now)->Upserted_0.email),
                    );
                    assert(has_email(acc.leads, k));
                }
            },
            _ => {},
        }
        lemma_fold_no_growth(acc2, rows, i + 1, slots, now);
    }
}

/// A row's fate does not depend on the clock: only the resolved updated-at
/// value of an upserted row does. In particular the same document yields the
/// same upserted payloads on every run.
proof fn lemma_row_outcome_now_irrelevant(
    row: Seq<Seq<char>>,
    slots: SlotsModel,
    row_no: int,
    now1: Seq<char>,
    now2: Seq<char>,
)
    ensures
        (row_outcome(row, slots, row_no, now2) is Upserted) ==> (row_outcome(
            row,
            slots,
            row_no,
            now1,
        ) is Upserted && row_outcome(row, slots, row_no, now1)->Upserted_0 == row_outcome(
            row,
            slots,
            row_no,
            now2,
        )->Upserted_0 && row_outcome(row, slots, row_no, now1)->Upserted_1 == row_outcome(
            row,
            slots,
            row_no,
            now2,
        )->Upserted_1),
{
}

/// Re-importing an identical document leaves the record count unchanged:
/// the first pass put every imported row's e-mail identity into the store,
/// so the second pass only ever updates. The clocks of the two runs may
/// differ.
pub proof fn lemma_reimport_keeps_count(
    leads0: Seq<LeadModel>,
    next_id0: int,
    content: Seq<char>,
    now1: Seq<char>,
    now2: Seq<char>,
)
    requires
        store_wf(leads0),
        import_model(leads0, next_id0, content, now1) is Done,
    ensures
        import_model(
            import_model(leads0, next_id0, content, now1)->Done_0.leads,
            import_model(leads0, next_id0, content, now1)->Done_0.next_id,
            content,
            now2,
        ) is Done,
        import_model(
            import_model(leads0, next_id0, content, now1)->Done_0.leads,
            import_model(leads0, next_id0, content, now1)->Done_0.next_id,
            content,
            now2,
        )->Done_0.leads.len() == import_model(leads0, next_id0, content, now1)->Done_0.leads.len(),
{
    let stripped = strip_bom(content);
    let rows = csv_rows(stripped, delimiter_of(stripped));
    let slots = slots_of(rows[0]);
    let acc1 = import_model(leads0, next_id0, content, now1)->Done_0;
    let acc0 = ImportAcc {
        imported: 0,
        skipped: 0,
        errors: Seq::empty(),
        leads: leads0,
        next_id: next_id0,
    };
    assert(acc1 == import_rows(acc0, rows, 1, slots, now1));
    lemma_fold_wf(acc0, rows, 1, slots, now1);
    lemma_fold_upserted_keys_present(acc0, rows, 1, slots, now1);
    let acc0b = ImportAcc {
        imported: 0,
        skipped: 0,
        errors: Seq::empty(),
        leads: acc1.leads,
        next_id: acc1.next_id,
    };
    assert forall|j: int|
        1 <= j < rows.len() && (row_outcome(#[trigger] rows[j], slots, j + 1, now2)
            is Upserted) implies has_email(
        acc0b.leads,
        email_key(trim_seq(row_outcome(rows[j], slots, j + 1, now2)->Upserted_0.email)),
    ) by {
        lemma_row_outcome_now_irrelevant(rows[j], slots, j + 1, now1, now2);
    }
    lemma_fold_no_growth(acc0b, rows, 1, slots, now2);
}

/// Blank records among the data rows from `i` on.
pub open spec fn blank_count(rows: Seq<Seq<Seq<char>>>, i: int) -> int
    decreases rows.len() - i,
{
    if i < 0 || i >= rows.len() {
        0int
    } else {
        (if row_blank(rows[i]) {
            1int
        } else {
            0int
        }) + blank_count(rows, i + 1)
    }
}

proof fn lemma_fold_accounting(
    acc: ImportAcc,
    rows: Seq<Seq<Seq<char>>>,
    i: int,
    slots: SlotsModel,
    now: Seq<char>,
)
    requires
        0 <= i <= rows.len(),
    ensures
        import_rows(acc, rows, i, slots, now).imported + import_rows(
            acc,
            rows,
            i,
            slots,
            now,
        ).skipped == acc.imported + acc.skipped + (rows.len() - i),
        import_rows(acc, rows, i, slots, now).skipped - acc.skipped == (import_rows(
            acc,
            rows,
            i,
            slots,
            now,
        ).errors.len() - acc.errors.len()) + blank_count(rows, i),
    decreases rows.len() - i,
{
    if i < rows.len() {
        let acc2 = apply_row(acc, rows[i], slots, i + 1, now);
        lemma_fold_accounting(acc2, rows, i + 1, slots, now);
    }
}

/// The accounting of one accepted document: every data row is either
/// imported or skipped, and every skipped row left exactly one error entry
/// unless it was entirely blank.
pub proof fn lemma_import_accounting(
    leads0: Seq<LeadModel>,
    next_id0: int,
    content: Seq<char>,
    now: Seq<char>,
)
    requires
        import_model(leads0, next_id0, content, now) is Done,
    ensures
        ({
            let acc = import_model(leads0, next_id0, content, now)->Done_0;
            let stripped = strip_bom(content);
            let rows = csv_rows(stripped, delimiter_of(stripped));
            &&& acc.imported + acc.skipped == rows.len() - 1
            &&& acc.skipped == acc.errors.len() + blank_count(rows, 1)
            &&& acc.imported >= 0 && acc.skipped >= 0
        }),
{
    let stripped = strip_bom(content);
    let rows = csv_rows(stripped, delimiter_of(stripped));
    let slots = slots_of(rows[0]);
    let acc0 = ImportAcc {
        imported: 0,
        skipped: 0,
        errors: Seq::empty(),
        leads: leads0,
        next_id: next_id0,
    };
    lemma_fold_accounting(acc0, rows, 1, slots, now);
    lemma_fold_counts_nonneg(acc0, rows, 1, slots, now);
}

proof fn lemma_fold_counts_nonneg(
    acc: ImportAcc,
    rows: Seq<Seq<Seq<char>>>,
    i: int,
    slots: SlotsModel,
    now: Seq<char>,
)
    requires
        acc.imported >= 0,
        acc.skipped >= 0,
    ensures
        import_rows(acc, rows, i, slots, now).imported >= 0,
        import_rows(acc, rows, i, slots, now).skipped >= 0,
    decreases rows.len() - i,
{
    if 0 <= i < rows.len() {
        let acc2 = apply_row(acc, rows[i], slots, i + 1, now);
        lemma_fold_counts_nonneg(acc2, rows, i + 1, slots, now);
    }
}

/// The creation time a key's records end with, given the records from `i`
/// on: each upserted row for the key overrides it when its created-at cell
/// is non-blank.
pub open spec fn created_chain(
    rows: Seq<Seq<Seq<char>>>,
    i: int,
    slots: SlotsModel,
    now: Seq<char>,
    key: Seq<char>,
    cur: Seq<char>,
) -> Seq<char>
    decreases rows.len() - i,
{
    if i < 0 || i >= rows.len() {
        cur
    } else {
        let cur2 = match row_outcome(rows[i], slots, i + 1, now) {
            RowOutcome::Upserted(p, c, u) => if email_key(trim_seq(p.email)) == key
                && !is_blank_seq(c) {
                c
            } else {
                cur
            },
            _ => cur,
        };
        created_chain(rows, i + 1, slots, now, key, cur2)
    }
}

proof fn lemma_chain_now_irrelevant(
    rows: Seq<Seq<Seq<char>>>,
    i: int,
    slots: SlotsModel,
    now1: Seq<char>,
    now2: Seq<char>,
    key: Seq<char>,
    cur: Seq<char>,
)
    ensures
        created_chain(rows, i, slots, now1, key, cur) == created_chain(
            rows,
            i,
            slots,
            now2,
            key,
            cur,
        ),
    decreases rows.len() - i,
{
    if 0 <= i < rows.len() {
        lemma_row_outcome_now_irrelevant(rows[i], slots, i + 1, now1, now2);
        lemma_row_outcome_now_irrelevant(rows[i], slots, i + 1, now2, now1);
        let cur2 = match row_outcome(rows[i], slots, i + 1, now1) {
            RowOutcome::Upserted(p, c, u) => if email_key(trim_seq(p.email)) == key
                && !is_blank_seq(c) {
                c
            } else {
                cur
            },
            _ => cur,
        };
        lemma_chain_now_irrelevant(rows, i + 1, slots, now1, now2, key, cur2);
    }
}

/// How the fold treats one existing position: it never moves, its e-mail
/// identity never changes, and its creation time is exactly the created
/// chain of its key applied to its current creation time.
proof fn lemma_fold_position(
    acc: ImportAcc,
    rows: Seq<Seq<Seq<char>>>,
    i: int,
    slots: SlotsModel,
    now: Seq<char>,
    k: int,
)
    requires
        0 <= i,
        store_wf(acc.leads),
        0 <= k < acc.leads.len(),
    ensures
        ({
            let r = import_rows(acc, rows, i, slots, now);
            &&& r.leads.len() >= acc.leads.len()
            &&& email_key(r.leads[k].email) == email_key(acc.leads[k].email)
            &&& r.leads[k].created_at == created_chain(
                rows,
                i,
                slots,
                now,
                email_key(acc.leads[k].email),
                acc.leads[k].created_at,
            )
        }),
    decreases rows.len() - i,
{
    if i < rows.len() {
        let kk = email_key(acc.leads[k].email);
        let acc2 = apply_row(acc, rows[i], slots, i + 1, now);
        match row_outcome(rows[i], slots, i + 1, now) {
            RowOutcome::Upserted(p, c, u) => {
                let pkey = email_key(trim_seq(p.email));
                crate::store::lemma_find_email_props(acc.leads, pkey, 0);
                lemma_upsert_model_wf(acc.leads, p, c, u, now, acc.next_id);
                match find_email_from(acc.leads, pkey, 0) {
                    Some(j) => {
                        if pkey == kk {
                            assert(j == k);
                        } else {
                            assert(j != k);
                            assert(acc2.leads[k] == acc.leads[k]);
                        }
                    },
                    None => {
                        assert(pkey != kk);
                        assert(acc2.leads[k] == acc.leads[k]);
                    },
                }
            },
            _ => {},
        }
        lemma_fold_position(acc2, rows, i + 1, slots, now, k);
    }
}

/// After the fold, every record's creation time is a fixed point of its
/// key's created chain over the very rows just processed.
proof fn lemma_fold_fixed_point(
    acc: ImportAcc,
    rows: Seq<Seq<Seq<char>>>,
    i: int,
    slots: SlotsModel,
    now: Seq<char>,
)
    requires
        0 <= i,
        store_wf(acc.leads),
    ensures
        ({
            let r = import_rows(acc, rows, i, slots, now);
            forall|k: int|
                0 <= k < r.leads.len() ==> created_chain(
                    rows,
                    i,
                    slots,
                    now,
                    email_key((#[trigger] r.leads[k]).email),
                    r.leads[k].created_at,
                ) == r.leads[k].created_at
        }),
    decreases rows.len() - i,
{
    let r = import_rows(acc, rows, i, slots, now);
    if i < rows.len() {
        let acc2 = apply_row(acc, rows[i], slots, i + 1, now);
        match row_outcome(rows[i], slots, i + 1, now) {
            RowOutcome::Upserted(p, c, u) => {
                lemma_upsert_model_wf(acc.leads, p, c, u, now, acc.next_id);
            },
            _ => {},
        }
        lemma_fold_fixed_point(acc2, rows, i + 1, slots, now);
        lemma_fold_wf(acc2, rows, i + 1, slots, now);
        assert forall|k: int|
            0 <= k < r.leads.len() implies created_chain(
            rows,
            i,
            slots,
            now,
            email_key((#[trigger] r.leads[k]).email),
            r.leads[k].created_at,
        ) == r.leads[k].created_at by {
            let kk = email_key(r.leads[k].email);
            match row_outcome(rows[i], slots, i + 1, now) {
                RowOutcome::Upserted(p, c, u) => {
                    let pkey = email_key(trim_seq(p.email));
                    crate::store::lemma_find_email_props(acc.leads, pkey, 0);
                    let jj: int = match find_email_from(acc.leads, pkey, 0) {
                        Some(j) => j,
                        None => acc.leads.len() as int,
                    };
                    assert(email_key(acc2.leads[jj].email) == pkey);
                    assert(acc2.leads[jj].created_at == if is_blank_seq(c) {
                        acc2.leads[jj].created_at
                    } else {
                        c
                    });
                    if pkey == kk && !is_blank_seq(c) {
                        lemma_fold_position(acc2, rows, i + 1, slots, now, jj);
                        assert(email_key(r.leads[jj].email) == kk);
                        assert(store_wf(import_rows(acc2, rows, i + 1, slots, now).leads));
                        if jj != k {
                            assert(email_key(r.leads[k].email) == email_key(r.leads[jj].email));
                            assert(false);
                        }
                        assert(r.leads[k].created_at == created_chain(
                            rows,
                            i + 1,
                            slots,
                            now,
                            kk,
                            c,
                        ));
                    }
                },
                _ => {},
            }
        }
    }
}

/// Re-importing an identical document also preserves every record's
/// creation time: the first pass already wrote the last explicit created-at
/// override of each identity, so the second pass re-applies the same values.
/// The clocks of the two runs may differ.
pub proof fn lemma_reimport_keeps_created(
    leads0: Seq<LeadModel>,
    next_id0: int,
    content: Seq<char>,
    now1: Seq<char>,
    now2: Seq<char>,
)
    requires
        store_wf(leads0),
        import_model(leads0, next_id0, content, now1) is Done,
    ensures
        ({
            let acc1 = import_model(leads0, next_id0, content, now1)->Done_0;
            let acc2 = import_model(acc1.leads, acc1.next_id, content, now2)->Done_0;
            forall|k: int|
                0 <= k < acc1.leads.len() ==> k < acc2.leads.len() && (#[trigger] acc2.leads[k])
                    .created_at == acc1.leads[k].created_at
        }),
{
    let stripped = strip_bom(content);
    let rows = csv_rows(stripped, delimiter_of(stripped));
    let slots = slots_of(rows[0]);
    let acc1 = import_model(leads0, next_id0, content, now1)->Done_0;
    let acc2 = import_model(acc1.leads, acc1.next_id, content, now2)->Done_0;
    let acc0 = ImportAcc {
        imported: 0,
        skipped: 0,
        errors: Seq::empty(),
        leads: leads0,
        next_id: next_id0,
    };
    assert(acc1 == import_rows(acc0, rows, 1, slots, now1));
    lemma_fold_wf(acc0, rows, 1, slots, now1);
    lemma_fold_fixed_point(acc0, rows, 1, slots, now1);
    let acc0b = ImportAcc {
        imported: 0,
        skipped: 0,
        errors: Seq::empty(),
        leads: acc1.leads,
        next_id: acc1.next_id,
    };
    assert(acc2 == import_rows(acc0b, rows, 1, slots, now2));
    assert forall|k: int|
        0 <= k < acc1.leads.len() implies k < acc2.leads.len() && (#[trigger] acc2.leads[k])
        .created_at == acc1.leads[k].created_at by {
        lemma_fold_position(acc0b, rows, 1, slots, now2, k);
        let kk = email_key(acc1.leads[k].email);
        lemma_chain_now_irrelevant(rows, 1, slots, now2, now1, kk, acc1.leads[k].created_at);
        assert(created_chain(rows, 1, slots, now1, kk, acc1.leads[k].created_at)
            == acc1.leads[k].created_at);
    }
}

} // verus!
