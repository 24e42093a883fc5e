//! The lead store and its upsert engine: records are keyed by e-mail,
//! compared case-insensitively; an update preserves the original creation
//! time unless the incoming record carries an explicit override, and an
//! insert marks last contact only for leads arriving in the Contatado stage.

use vstd::prelude::*;

use crate::lead::LeadPayload;
use crate::lead::PayloadModel;
use crate::lead::opt_view;
use crate::lead::opt_int;
use crate::lead::is_blank;
use crate::lead::trim_string;
use crate::lead::trim_optional;
use crate::lead::trimmed_nonempty;
use crate::logging::ascii_lower_chars;
use crate::logging::ascii_lower_seq;
use crate::stage::CanonicalStage;
use crate::stage::canonical_stage_of;
use crate::stage::stage_of_seq;
use crate::text::chars_eq;
use crate::text::is_blank_seq;
use crate::text::trim_seq;

verus! {

/// One persisted lead.
pub struct StoredLead {
    pub id: i64,
    pub company: String,
    pub contact_name: String,
    pub job_title: String,
    pub email: String,
    pub phone: String,
    pub linkedin: String,
    pub location: String,
    pub country: String,
    pub state: String,
    pub city: String,
    pub company_size: String,
    pub industry: String,
    pub interest: String,
    pub stage: CanonicalStage,
    pub notes: String,
    pub rating: Option<i64>,
    pub created_at: String,
    pub updated_at: String,
    pub last_contacted_at: Option<String>,
    pub next_followup_at: Option<String>,
}

/// The mathematical shadow of a stored lead.
pub ghost struct LeadModel {
    pub id: int,
    pub company: Seq<char>,
    pub contact_name: Seq<char>,
    pub job_title: Seq<char>,
    pub email: Seq<char>,
    pub phone: Seq<char>,
    pub linkedin: Seq<char>,
    pub location: Seq<char>,
    pub country: Seq<char>,
    pub state: Seq<char>,
    pub city: Seq<char>,
    pub company_size: Seq<char>,
    pub industry: Seq<char>,
    pub interest: Seq<char>,
    pub stage: CanonicalStage,
    pub notes: Seq<char>,
    pub rating: Option<int>,
    pub created_at: Seq<char>,
    pub updated_at: Seq<char>,
    pub last_contacted_at: Option<Seq<char>>,
    pub next_followup_at: Option<Seq<char>>,
}

impl View for StoredLead {
    type V = LeadModel;

    open spec fn view(&self) -> LeadModel {
        LeadModel {
            id: self.id as int,
            company: self.company@,
            contact_name: self.contact_name@,
            job_title: self.job_title@,
            email: self.email@,
            phone: self.phone@,
            linkedin: self.linkedin@,
            location: self.location@,
            country: self.country@,
            state: self.state@,
            city: self.city@,
            company_size: self.company_size@,
            industry: self.industry@,
            interest: self.interest@,
            stage: self.stage,
            notes: self.notes@,
            rating: opt_int(self.rating),
            created_at: self.created_at@,
            updated_at: self.updated_at@,
            last_contacted_at: opt_view(self.last_contacted_at),
            next_followup_at: opt_view(self.next_followup_at),
        }
    }
}

/// The identity key of an e-mail: trimmed and lower-cased.
pub open spec fn email_key(e: Seq<char>) -> Seq<char> {
    ascii_lower_seq(e)
}

/// No two records share an e-mail identity.
pub open spec fn store_wf(s: Seq<LeadModel>) -> bool {
    forall|i: int, j: int|
        0 <= i < j < s.len() ==> email_key(#[trigger] s[i].email) != email_key(
            #[trigger] s[j].email,
        )
}

/// The first record whose e-mail identity is `key`, at or after `i`.
pub open spec fn find_email_from(s: Seq<LeadModel>, key: Seq<char>, i: int) -> Option<int>
    decreases s.len() - i,
{
    if i >= s.len() {
        None
    } else if email_key(s[i].email) == key {
        Some(i)
    } else {
        find_email_from(s, key, i + 1)
    }
}

pub proof fn lemma_find_email_scan(s: Seq<LeadModel>, key: Seq<char>, a: int, k: int)
    requires
        0 <= a <= k <= s.len(),
        forall|j: int| a <= j < k ==> email_key((#[trigger] s[j]).email) != key,
        k == s.len() || email_key(s[k].email) == key,
    ensures
        find_email_from(s, key, a) == if k == s.len() {
            None::<int>
        } else {
            Some(k)
        },
    decreases k - a,
{
    if a < k {
        lemma_find_email_scan(s, key, a + 1, k);
    }
}

pub proof fn lemma_find_email_props(s: Seq<LeadModel>, key: Seq<char>, a: int)
    requires
        0 <= a <= s.len(),
    ensures
        match find_email_from(s, key, a) {
            Some(i) => a <= i < s.len() && email_key(s[i].email) == key && forall|j: int|
                a <= j < i ==> email_key((#[trigger] s[j]).email) != key,
            None => forall|j: int| a <= j < s.len() ==> email_key((#[trigger] s[j]).email) != key,
        },
    decreases s.len() - a,
{
    if a < s.len() && email_key(s[a].email) != key {
        lemma_find_email_props(s, key, a + 1);
    }
}

/// The record after an update: mutable fields replaced with the trimmed
/// payload, the stage normalized, and the creation time preserved unless the
/// incoming record overrides it.
pub open spec fn merged_model(
    old_l: LeadModel,
    p: PayloadModel,
    created_at: Seq<char>,
    updated_at: Seq<char>,
) -> LeadModel {
    LeadModel {
        company: trim_seq(p.company),
        contact_name: trim_seq(p.contact_name),
        job_title: trim_seq(p.job_title),
        email: trim_seq(p.email),
        phone: trim_seq(p.phone),
        interest: trim_seq(p.interest),
        stage: stage_of_seq(p.stage),
        updated_at: updated_at,
        created_at: if is_blank_seq(created_at) {
            old_l.created_at
        } else {
            created_at
        },
        ..old_l
    }
}

/// A freshly inserted record: every field trimmed, the stage normalized,
/// the creation time defaulted to `now` when absent, and last contact set
/// exactly for leads arriving already contacted.
pub open spec fn inserted_model(
    p: PayloadModel,
    created_at: Seq<char>,
    updated_at: Seq<char>,
    now: Seq<char>,
    id: int,
) -> LeadModel {
    LeadModel {
        id: id,
        company: trim_seq(p.company),
        contact_name: trim_seq(p.contact_name),
        job_title: trim_seq(p.job_title),
        email: trim_seq(p.email),
        phone: trim_seq(p.phone),
        linkedin: trim_seq(p.linkedin),
        location: trim_seq(p.location),
        country: trim_seq(p.country),
        state: trim_seq(p.state),
        city: trim_seq(p.city),
        company_size: trim_seq(p.company_size),
        industry: trim_seq(p.industry),
        interest: trim_seq(p.interest),
        stage: stage_of_seq(p.stage),
        notes: trim_seq(p.notes),
        rating: p.rating,
        created_at: if is_blank_seq(created_at) {
            now
        } else {
            created_at
        },
        updated_at: updated_at,
        last_contacted_at: if stage_of_seq(p.stage) == CanonicalStage::Contatado {
            Some(updated_at)
        } else {
            None
        },
        next_followup_at: trimmed_nonempty(p.next_followup_at),
    }
}

/// The next fresh id after an insert; ids stop growing at the integer cap.
pub open spec fn bump_id(id: int) -> int {
    if id < i64::MAX {
        id + 1
    } else {
        id
    }
}

/// What one upsert does to the store contents.
pub open spec fn upsert_model(
    s: Seq<LeadModel>,
    p: PayloadModel,
    created_at: Seq<char>,
    updated_at: Seq<char>,
    now: Seq<char>,
    id: int,
) -> Seq<LeadModel> {
    match find_email_from(s, email_key(trim_seq(p.email)), 0) {
        Some(i) => s.update(i, merged_model(s[i], p, created_at, updated_at)),
        None => s.push(inserted_model(p, created_at, updated_at, now, id)),
    }
}

/// The in-memory store the verified import pipeline works against.
pub struct LeadStore {
    pub leads: Vec<StoredLead>,
    pub next_id: i64,
}

impl View for LeadStore {
    type V = Seq<LeadModel>;

    open spec fn view(&self) -> Seq<LeadModel> {
        self.leads@.map_values(|l: StoredLead| l@)
    }
}

impl LeadStore {
    pub fn new() -> (s: LeadStore)
        ensures
            s@ == Seq::<LeadModel>::empty(),
            s.next_id == 1,
    {
        let s = LeadStore { leads: Vec::new(), next_id: 1 };
        proof {
            assert(s@ =~= Seq::<LeadModel>::empty());
        }
        s
    }

    pub fn count(&self) -> (n: usize)
        ensures
            n == self@.len(),
    {
        self.leads.len()
    }
}

fn clone_opt_string(s: &Option<String>) -> (r: Option<String>)
    ensures
        opt_view(r) == opt_view(*s),
{
    match s {
        Some(x) => Some(x.clone()),
        None => None,
    }
}

/// Inserts or updates by e-mail identity. `created_at` and `updated_at` come
/// from the document (blank meaning absent); `now` is the creation-time
/// fallback for fresh records. The store stays well-formed and afterwards
/// holds exactly the upsert result.
pub fn upsert_lead_by_email(
    store: &mut LeadStore,
    payload: &LeadPayload,
    created_at: &str,
    updated_at: &str,
    now: &str,
) -> (r: Result<(), String>)
    requires
        store_wf(old(store)@),
    ensures
        r is Ok,
        final(store)@ == upsert_model(
            old(store)@,
            payload@,
            created_at@,
            updated_at@,
            now@,
            old(store).next_id as int,
        ),
        final(store).next_id as int == (match find_email_from(
            old(store)@,
            email_key(trim_seq(payload@.email)),
            0,
        ) {
            Some(_) => old(store).next_id as int,
            None => bump_id(old(store).next_id as int),
        }),
        store_wf(final(store)@),
        final(store)@.len() >= old(store)@.len(),
{
    let ghost s0 = store@;
    let ghost key = email_key(trim_seq(payload.email@));
    let tkey = trim_string(payload.email.as_str());
    let key_vec = ascii_lower_chars(tkey.as_str());
    assert(key_vec@ == key);
    let n = store.leads.len();
    proof {
        assert(s0.len() == n);
    }
    let mut i: usize = 0;
    while i < n && !eq_email_key(&store.leads, i, &key_vec)
        invariant
            0 <= i <= n,
            n == store.leads@.len(),
            store@ == s0,
            store.leads@.map_values(|l: StoredLead| l@) == s0,
            key_vec@ == key,
            forall|j: int| 0 <= j < i ==> email_key((#[trigger] s0[j]).email) != key,
        decreases n - i,
    {
        i = i + 1;
    }
    proof {
        assert(forall|j: int| 0 <= j < s0.len() ==> s0[j] == (#[trigger] store.leads@[j])@);
        if i < n {
            assert(email_key(s0[i as int].email) == key);
        }
        lemma_find_email_scan(s0, key, 0, i as int);
    }
    if i < n {
        let merged = {
            let old_l = &store.leads[i];
            StoredLead {
                id: old_l.id,
                company: trim_string(payload.company.as_str()),
                contact_name: trim_string(payload.contact_name.as_str()),
                job_title: trim_string(payload.job_title.as_str()),
                email: trim_string(payload.email.as_str()),
                phone: trim_string(payload.phone.as_str()),
                linkedin: old_l.linkedin.clone(),
                location: old_l.location.clone(),
                country: old_l.country.clone(),
                state: old_l.state.clone(),
                city: old_l.city.clone(),
                company_size: old_l.company_size.clone(),
                industry: old_l.industry.clone(),
                interest: trim_string(payload.interest.as_str()),
                stage: canonical_stage_of(payload.stage.as_str()),
                notes: old_l.notes.clone(),
                rating: old_l.rating,
                created_at: if is_blank(created_at) {
                    old_l.created_at.clone()
                } else {
                    created_at.to_owned()
                },
                updated_at: updated_at.to_owned(),
                last_contacted_at: clone_opt_string(&old_l.last_contacted_at),
                next_followup_at: clone_opt_string(&old_l.next_followup_at),
            }
        };
        proof {
            assert(merged@ == merged_model(s0[i as int], payload@, created_at@, updated_at@));
        }
        store.leads.set(i, merged);
        proof {
            assert(store@ =~= s0.update(
                i as int,
                merged_model(s0[i as int], payload@, created_at@, updated_at@),
            ));
            lemma_upsert_wf_update(s0, payload@, created_at@, updated_at@, i as int);
        }
        Ok(())
    } else {
        let fresh = StoredLead {
            id: store.next_id,
            company: trim_string(payload.company.as_str()),
            contact_name: trim_string(payload.contact_name.as_str()),
            job_title: trim_string(payload.job_title.as_str()),
            email: trim_string(payload.email.as_str()),
            phone: trim_string(payload.phone.as_str()),
            linkedin: trim_string(payload.linkedin.as_str()),
            location: trim_string(payload.location.as_str()),
            country: trim_string(payload.country.as_str()),
            state: trim_string(payload.state.as_str()),
            city: trim_string(payload.city.as_str()),
            company_size: trim_string(payload.company_size.as_str()),
            industry: trim_string(payload.industry.as_str()),
            interest: trim_string(payload.interest.as_str()),
            stage: canonical_stage_of(payload.stage.as_str()),
            notes: trim_string(payload.notes.as_str()),
            rating: payload.rating,
            created_at: if is_blank(created_at) {
                now.to_owned()
            } else {
                created_at.to_owned()
            },
            updated_at: updated_at.to_owned(),
            last_contacted_at: {
                let st = canonical_stage_of(payload.stage.as_str());
                if matches!(st, CanonicalStage::Contatado) {
                    Some(updated_at.to_owned())
                } else {
                    None
                }
            },
            next_followup_at: trim_optional(&payload.next_followup_at),
        };
        proof {
            assert(fresh@ == inserted_model(
                payload@,
                created_at@,
                updated_at@,
                now@,
                old(store).next_id as int,
            ));
        }
        if store.next_id < i64::MAX {
            store.next_id = store.next_id + 1;
        }
        store.leads.push(fresh);
        proof {
            assert(store@ =~= s0.push(
                inserted_model(
                    payload@,
                    created_at@,
                    updated_at@,
                    now@,
                    old(store).next_id as int,
                ),
            ));
            lemma_upsert_wf_push(s0, payload@, created_at@, updated_at@, now@, old(
                store,
            ).next_id as int);
        }
        Ok(())
    }
}

/// Whether stored lead `i`'s e-mail identity equals `key`.
fn eq_email_key(leads: &Vec<StoredLead>, i: usize, key: &Vec<char>) -> (b: bool)
    requires
        i < leads@.len(),
    ensures
        b == (email_key(leads@[i as int]@.email) == key@),
{
    let low = ascii_lower_chars(leads[i].email.as_str());
    chars_eq(&low, key)
}

proof fn lemma_upsert_wf_update(
    s: Seq<LeadModel>,
    p: PayloadModel,
    c: Seq<char>,
    u: Seq<char>,
    i: int,
)
    requires
        store_wf(s),
        0 <= i < s.len(),
        email_key(s[i].email) == email_key(trim_seq(p.email)),
    ensures
        store_wf(s.update(i, merged_model(s[i], p, c, u))),
{
    let s2 = s.update(i, merged_model(s[i], p, c, u));
    assert forall|a: int, b: int|
        0 <= a < b < s2.len() implies email_key((#[trigger] s2[a]).email) != email_key(
        (#[trigger] s2[b]).email,
    ) by {
        assert(email_key(s[a].email) != email_key(s[b].email));
    }
}

proof fn lemma_upsert_wf_push(
    s: Seq<LeadModel>,
    p: PayloadModel,
    c: Seq<char>,
    u: Seq<char>,
    now: Seq<char>,
    id: int,
)
    requires
        store_wf(s),
        find_email_from(s, email_key(trim_seq(p.email)), 0) is None,
    ensures
        store_wf(s.push(inserted_model(p, c, u, now, id))),
{
    let key = email_key(trim_seq(p.email));
    lemma_find_email_props(s, key, 0);
    let s2 = s.push(inserted_model(p, c, u, now, id));
    assert forall|a: int, b: int|
        0 <= a < b < s2.len() implies email_key((#[trigger] s2[a]).email) != email_key(
        (#[trigger] s2[b]).email,
    ) by {
        if b < s.len() {
            assert(email_key(s[a].email) != email_key(s[b].email));
        } else {
            assert(s2[a] == s[a]);
            assert(email_key(s[a].email) != key);
        }
    }
}

/// Applying the same upsert twice leaves the store exactly as after the
/// first application: record count, creation times, and every other field.
pub proof fn lemma_upsert_idempotent(
    s: Seq<LeadModel>,
    p: PayloadModel,
    c: Seq<char>,
    u: Seq<char>,
    now: Seq<char>,
    id1: int,
    id2: int,
)
    requires
        store_wf(s),
    ensures
        upsert_model(upsert_model(s, p, c, u, now, id1), p, c, u, now, id2) == upsert_model(
            s,
            p,
            c,
            u,
            now,
            id1,
        ),
{
    let key = email_key(trim_seq(p.email));
    lemma_find_email_props(s, key, 0);
    match find_email_from(s, key, 0) {
        Some(i) => {
            let m = merged_model(s[i], p, c, u);
            let s1 = s.update(i, m);
            assert(email_key(s1[i].email) == key);
            assert forall|j: int| 0 <= j < i implies email_key((#[trigger] s1[j]).email) != key by {
                assert(s1[j] == s[j]);
            }
            lemma_find_email_scan(s1, key, 0, i);
            assert(find_email_from(s1, key, 0) == Some(i));
            let m2 = merged_model(s1[i], p, c, u);
            assert(m2 == m);
            assert(s1.update(i, m2) =~= s1);
        },
        None => {
            let f = inserted_model(p, c, u, now, id1);
            let s1 = s.push(f);
            assert(email_key(s1[s.len() as int].email) == key);
            assert forall|j: int|
                0 <= j < s.len() implies email_key((#[trigger] s1[j]).email) != key by {
                assert(s1[j] == s[j]);
            }
            lemma_find_email_scan(s1, key, 0, s.len() as int);
            assert(find_email_from(s1, key, 0) == Some(s.len() as int));
            let m2 = merged_model(s1[s.len() as int], p, c, u);
            assert(m2 == f);
            assert(s1.update(s.len() as int, m2) =~= s1);
        },
    }
}

/// Some record carries this e-mail identity.
pub open spec fn has_email(s: Seq<LeadModel>, key: Seq<char>) -> bool {
    exists|i: int| 0 <= i < s.len() && email_key((#[trigger] s[i]).email) == key
}

pub proof fn lemma_find_some_iff_has(s: Seq<LeadModel>, key: Seq<char>)
    ensures
        (find_email_from(s, key, 0) is Some) <==> has_email(s, key),
{
    lemma_find_email_props(s, key, 0);
    if find_email_from(s, key, 0) is Some {
        let i = find_email_from(s, key, 0)->Some_0;
        assert(email_key(s[i].email) == key);
    } else {
        if has_email(s, key) {
            let i = choose|i: int| 0 <= i < s.len() && email_key((#[trigger] s[i]).email) == key;
            assert(false);
        }
    }
}

/// An upsert preserves the store's well-formedness.
pub proof fn lemma_upsert_model_wf(
    s: Seq<LeadModel>,
    p: PayloadModel,
    c: Seq<char>,
    u: Seq<char>,
    now: Seq<char>,
    id: int,
)
    requires
        store_wf(s),
    ensures
        store_wf(upsert_model(s, p, c, u, now, id)),
{
    let key = email_key(trim_seq(p.email));
    lemma_find_email_props(s, key, 0);
    match find_email_from(s, key, 0) {
        Some(i) => {
            lemma_upsert_wf_update(s, p, c, u, i);
        },
        None => {
            lemma_upsert_wf_push(s, p, c, u, now, id);
        },
    }
}

/// What an upsert does to identities and to the record count: every identity
/// already present stays, the payload's identity is present afterwards, no
/// other identity appears, and the count grows exactly when the identity was
/// new.
pub proof fn lemma_upsert_model_keys(
    s: Seq<LeadModel>,
    p: PayloadModel,
    c: Seq<char>,
    u: Seq<char>,
    now: Seq<char>,
    id: int,
)
    requires
        store_wf(s),
    ensures
        forall|key: Seq<char>|
            #[trigger] has_email(upsert_model(s, p, c, u, now, id), key) <==> (has_email(s, key)
                || key == email_key(trim_seq(p.email))),
        upsert_model(s, p, c, u, now, id).len() == if has_email(s, email_key(trim_seq(p.email))) {
            s.len()
        } else {
            s.len() + 1
        },
{
    let pkey = email_key(trim_seq(p.email));
    lemma_find_email_props(s, pkey, 0);
    lemma_find_some_iff_has(s, pkey);
    let s2 = upsert_model(s, p, c, u, now, id);
    match find_email_from(s, pkey, 0) {
        Some(i) => {
            assert forall|key: Seq<char>|
                #[trigger] has_email(s2, key) <==> (has_email(s, key) || key == pkey) by {
                assert(email_key(s2[i].email) == email_key(s[i].email));
                if has_email(s2, key) {
                    let a = choose|a: int|
                        0 <= a < s2.len() && email_key((#[trigger] s2[a]).email) == key;
                    assert(email_key(s[a].email) == key);
                }
                if has_email(s, key) {
                    let a = choose|a: int|
                        0 <= a < s.len() && email_key((#[trigger] s[a]).email) == key;
                    assert(email_key(s2[a].email) == key);
                }
                if key == pkey {
                    assert(email_key(s2[i].email) == key);
                }
            }
        },
        None => {
            assert(email_key(s2[s.len() as int].email) == pkey);
            assert forall|key: Seq<char>|
                #[trigger] has_email(s2, key) <==> (has_email(s, key) || key == pkey) by {
                if has_email(s2, key) {
                    let a = choose|a: int|
                        0 <= a < s2.len() && email_key((#[trigger] s2[a]).email) == key;
                    if a < s.len() {
                        assert(email_key(s[a].email) == key);
                    }
                }
                if has_email(s, key) {
                    let a = choose|a: int|
                        0 <= a < s.len() && email_key((#[trigger] s[a]).email) == key;
                    assert(email_key(s2[a].email) == key);
                }
            }
        },
    }
}

} // verus!
