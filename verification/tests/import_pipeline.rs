use leadflow::import::import_csv_with_store;
use leadflow::lead::{is_valid_email, is_valid_phone, only_digits, validate_payload, LeadPayload};
use leadflow::csv::csv_delimiter;
use leadflow::headers::{build_header_map, normalize_csv_header};
use leadflow::stage::normalize_stage;
use leadflow::store::{upsert_lead_by_email, LeadStore};
use leadflow::timestamp::{parse_csv_datetime, read_csv_datetime_or_now};

const NOW: &str = "2024-05-06T07:08:09";

fn payload(company: &str, email: &str, phone: &str, contact: &str, stage: &str) -> LeadPayload {
    LeadPayload {
        company: company.to_string(),
        contact_name: contact.to_string(),
        job_title: String::new(),
        email: email.to_string(),
        phone: phone.to_string(),
        linkedin: String::new(),
        location: String::new(),
        country: String::new(),
        state: String::new(),
        city: String::new(),
        company_size: String::new(),
        industry: String::new(),
        interest: String::new(),
        stage: stage.to_string(),
        notes: String::new(),
        rating: None,
        next_followup_at: None,
    }
}

#[test]
fn blank_document_is_rejected_and_store_untouched() {
    let mut store = LeadStore::new();
    let r = import_csv_with_store(&mut store, "\u{feff}  \n\t  \n", NOW);
    let err = r.err().expect("blank document must be rejected");
    assert!(err.starts_with("[IMPORT_EMPTY_CSV] "));
    assert!(err.contains("CSV vazio"));
    assert_eq!(store.count(), 0);
}

#[test]
fn blank_rows_are_skipped_silently() {
    let mut store = LeadStore::new();
    let doc = "empresa,email,telefone,contato,status\n,,,,\nACME,ok@acme.com,(11)99999-9999,Joao,Novo\n , , , , \n";
    let r = import_csv_with_store(&mut store, doc, NOW).expect("import must run");
    assert_eq!(r.imported, 1);
    assert_eq!(r.skipped, 2);
    assert_eq!(r.errors.len(), 0);
    assert_eq!(store.count(), 1);
}

#[test]
fn bad_date_row_is_reported_with_column_and_tag() {
    let mut store = LeadStore::new();
    let doc = "empresa,email,telefone,contato,status,criadoem\n\
               ACME,ok@acme.com,(11)99999-9999,Joao,Novo,2023-01-02\n\
               BadDate,bad@acme.com,(11)99999-9999,Ana,Novo,not-a-date";
    let r = import_csv_with_store(&mut store, doc, NOW).expect("import must run");
    assert_eq!(r.imported, 1);
    assert_eq!(r.skipped, 1);
    assert_eq!(r.errors.len(), 1);
    let e = &r.errors[0];
    assert_eq!(e.column.as_deref(), Some("created_at"));
    assert!(e.message.contains("IMPORT_INVALID_DATE"));
    assert!(e.message.contains("data inválida: not-a-date"));
    assert_eq!(e.company, "BadDate");
    assert_eq!(e.email, "bad@acme.com");
    assert_eq!(e.received_value.as_deref(), Some("not-a-date"));
}

#[test]
fn reimport_is_idempotent() {
    let mut store = LeadStore::new();
    let doc = "empresa,email,telefone,contato,status,criadoem\n\
               ACME,ok@acme.com,(11)99999-9999,Joao,Novo,2023-01-02\n\
               Beta,two@beta.com,11988887777,Maria,Contatado,";
    let r1 = import_csv_with_store(&mut store, doc, NOW).expect("first import");
    assert_eq!(r1.imported, 2);
    let created_first: Vec<String> = store.leads.iter().map(|l| l.created_at.clone()).collect();
    let r2 = import_csv_with_store(&mut store, doc, "2030-01-01T00:00:00").expect("second import");
    assert_eq!(r2.imported, 2);
    assert_eq!(store.count(), 2);
    let created_second: Vec<String> = store.leads.iter().map(|l| l.created_at.clone()).collect();
    assert_eq!(created_first, created_second);
}

#[test]
fn upsert_matches_email_case_insensitively() {
    let mut store = LeadStore::new();
    let p1 = payload("ACME", "Someone@Acme.com", "(11)99999-9999", "Joao", "Novo");
    upsert_lead_by_email(&mut store, &p1, "2020-01-01T00:00:00", "2020-01-01T00:00:00", NOW)
        .unwrap();
    let p2 = payload("ACME 2", "someone@ACME.COM", "(11)99999-9999", "Joao", "Novo");
    upsert_lead_by_email(&mut store, &p2, "", "2021-01-01T00:00:00", NOW).unwrap();
    assert_eq!(store.count(), 1);
    assert_eq!(store.leads[0].company, "ACME 2");
    assert_eq!(store.leads[0].created_at, "2020-01-01T00:00:00");
    assert_eq!(store.leads[0].updated_at, "2021-01-01T00:00:00");
}

#[test]
fn insert_marks_last_contact_only_for_contacted_leads() {
    let mut store = LeadStore::new();
    let p1 = payload("A", "a@x.com", "1234567890", "A", "Contatado");
    upsert_lead_by_email(&mut store, &p1, "", "2021-02-03T04:05:06", NOW).unwrap();
    assert_eq!(
        store.leads[0].last_contacted_at.as_deref(),
        Some("2021-02-03T04:05:06")
    );
    let p2 = payload("B", "b@x.com", "1234567890", "B", "Novo");
    upsert_lead_by_email(&mut store, &p2, "", "2021-02-03T04:05:06", NOW).unwrap();
    assert_eq!(store.leads[1].last_contacted_at, None);
    assert_eq!(store.leads[0].created_at, NOW);
}

#[test]
fn semicolon_documents_are_detected() {
    let mut store = LeadStore::new();
    let doc = "Razão Social;E-mail;Telefone;Contato;Status\n\
               Empresa, Ltda;c@d.com;(11) 98888-7777;Ze;Ganho";
    let r = import_csv_with_store(&mut store, doc, NOW).expect("import must run");
    assert_eq!(r.imported, 1);
    assert_eq!(store.leads[0].company, "Empresa, Ltda");
    assert_eq!(store.leads[0].stage.as_str(), "Ganho");
}

#[test]
fn quoted_fields_keep_embedded_delimiters() {
    let mut store = LeadStore::new();
    let doc = "empresa,email,telefone,contato,status\n\
               \"ACME, Inc\",q@acme.com,\"(11) 99999-9999\",\"Joao \"\"Jo\"\"\",Novo";
    let r = import_csv_with_store(&mut store, doc, NOW).expect("import must run");
    assert_eq!(r.imported, 1);
    assert_eq!(store.leads[0].company, "ACME, Inc");
    assert_eq!(store.leads[0].contact_name, "Joao \"Jo\"");
}

#[test]
fn header_cells_are_normalized() {
    assert_eq!(normalize_csv_header("  É-Mail "), "email");
    assert_eq!(normalize_csv_header("\u{feff}Razão Social"), "razaosocial");
    assert_eq!(normalize_csv_header("Criado em"), "criadoem");
    assert_eq!(normalize_csv_header("__"), "");
}

#[test]
fn stages_normalize_to_the_closed_set() {
    assert_eq!(normalize_stage(" Contatado "), "Contatado");
    assert_eq!(normalize_stage("ganha"), "Ganho");
    assert_eq!(normalize_stage("CONVERTIDO"), "Ganho");
    assert_eq!(normalize_stage("won"), "Ganho");
    assert_eq!(
        normalize_stage("Apresentação de Portifolio Feita"),
        "Apresentação"
    );
    assert_eq!(normalize_stage("whatever else"), "Novo");
    assert_eq!(normalize_stage("Proposta"), "Proposta");
    assert_eq!(normalize_stage("Negociação"), "Negociação");
}

#[test]
fn validation_reports_the_first_failure() {
    let ok = payload("A", "a@b.com", "12345678901", "C", "Novo");
    assert!(validate_payload(&ok).is_ok());
    let mut p = payload(" ", "a@b.com", "12345678901", "C", "Novo");
    assert_eq!(validate_payload(&p).unwrap_err(), "Empresa é obrigatória");
    p = payload("A", "a@b.com", "12345678901", "", "Novo");
    assert_eq!(validate_payload(&p).unwrap_err(), "Contato é obrigatório");
    p = payload("A", "", "12345678901", "C", "Novo");
    assert_eq!(validate_payload(&p).unwrap_err(), "E-mail é obrigatório");
    p = payload("A", "not-an-email", "12345678901", "C", "Novo");
    assert_eq!(validate_payload(&p).unwrap_err(), "E-mail inválido");
    p = payload("A", "a@b.com", " ", "C", "Novo");
    assert_eq!(validate_payload(&p).unwrap_err(), "Telefone é obrigatório");
    p = payload("A", "a@b.com", "123", "C", "Novo");
    assert_eq!(validate_payload(&p).unwrap_err(), "Telefone inválido");
    p = payload("A", "a@b.com", "12345678901", "C", " ");
    assert_eq!(validate_payload(&p).unwrap_err(), "Status é obrigatório");
    p = payload("A", "a@b.com", "12345678901", "C", "Novo");
    p.rating = Some(6);
    assert_eq!(
        validate_payload(&p).unwrap_err(),
        "Rating deve estar entre 1 e 5"
    );
    p.rating = Some(5);
    assert!(validate_payload(&p).is_ok());
}

#[test]
fn email_and_phone_plausibility() {
    assert!(is_valid_email("a@b.co"));
    assert!(is_valid_email("  a@b.co  "));
    assert!(!is_valid_email("@b.co"));
    assert!(!is_valid_email("a@bco"));
    assert!(!is_valid_email("abco"));
    assert!(!is_valid_email(""));
    assert!(is_valid_phone("(11) 99999-9999"));
    assert!(!is_valid_phone("123456789"));
    assert_eq!(only_digits("(11) 99999-9999"), "11999999999");
}

#[test]
fn accepted_formats_share_one_canonical_form() {
    let expected = Ok(Some("2023-12-31T10:20:30".to_string()));
    assert_eq!(parse_csv_datetime("31/12/2023 10:20:30"), expected);
    assert_eq!(parse_csv_datetime("31-12-2023 10:20:30"), expected);
    assert_eq!(parse_csv_datetime("2023-12-31 10:20:30"), expected);
    assert_eq!(parse_csv_datetime("2023-12-31T10:20:30"), expected);
    assert_eq!(
        parse_csv_datetime("31/12/2023 10:20"),
        Ok(Some("2023-12-31T10:20:00".to_string()))
    );
    assert_eq!(
        parse_csv_datetime("31/12/2023"),
        Ok(Some("2023-12-31T00:00:00".to_string()))
    );
    assert_eq!(
        parse_csv_datetime("2023-12-31"),
        Ok(Some("2023-12-31T00:00:00".to_string()))
    );
    assert_eq!(
        parse_csv_datetime("  \"05/01/2024\"  "),
        Ok(Some("2024-01-05T00:00:00".to_string()))
    );
}

#[test]
fn empty_cells_carry_no_value() {
    assert_eq!(parse_csv_datetime(""), Ok(None));
    assert_eq!(parse_csv_datetime("  \"\"  "), Ok(None));
    let now_or = read_csv_datetime_or_now("").expect("empty cell yields the current time");
    assert!(!now_or.is_empty());
    assert_eq!(
        read_csv_datetime_or_now("2023-12-31"),
        Ok("2023-12-31T00:00:00".to_string())
    );
}

#[test]
fn invalid_dates_quote_the_cleaned_input() {
    let e = parse_csv_datetime("31/02/2023").unwrap_err();
    assert_eq!(e, "data inválida: 31/02/2023");
    let e2 = parse_csv_datetime(" \"29/02/2023\" ").unwrap_err();
    assert_eq!(e2, "data inválida: 29/02/2023");
    assert_eq!(
        parse_csv_datetime("29/02/2024"),
        Ok(Some("2024-02-29T00:00:00".to_string()))
    );
    assert!(parse_csv_datetime("29/02/2100").is_err());
    assert_eq!(
        parse_csv_datetime("29/02/2000"),
        Ok(Some("2000-02-29T00:00:00".to_string()))
    );
    assert!(parse_csv_datetime("2023-12-31 24:00").is_err());
    assert!(parse_csv_datetime("garbage").is_err());
}

#[test]
fn thousand_separator_commas_are_removed_before_parsing() {
    assert_eq!(
        parse_csv_datetime("31/12/2,023"),
        Ok(Some("2023-12-31T00:00:00".to_string()))
    );
    let e = parse_csv_datetime("31/13/2,023").unwrap_err();
    assert_eq!(e, "data inválida: 31/13/2,023");
}

#[test]
fn delimiter_detection_prefers_the_strictly_more_frequent() {
    assert_eq!(csv_delimiter("a,b,c
d,e,f"), ',');
    assert_eq!(csv_delimiter("a;b;c
d;e;f"), ';');
    assert_eq!(csv_delimiter("a;b
c,d"), ',');
    assert_eq!(csv_delimiter(""), ',');
    assert_eq!(csv_delimiter("x"), ',');
}

#[test]
fn header_map_takes_the_first_matching_alias() {
    let headers: Vec<String> = vec![
        "Empresa".to_string(),
        "Nome".to_string(),
        "Contato".to_string(),
        "E-mail".to_string(),
        "Whatsapp".to_string(),
        "Etapa".to_string(),
        "Criação".to_string(),
    ];
    let m = build_header_map(&headers);
    assert_eq!(m.company, Some(0));
    // "contato" precedes "nome" in the alias table, so column 2 wins.
    assert_eq!(m.contact_name, Some(2));
    assert_eq!(m.email, Some(3));
    assert_eq!(m.phone, Some(4));
    assert_eq!(m.stage, Some(5));
    assert_eq!(m.created_at, Some(6));
    assert_eq!(m.job_title, None);
    assert_eq!(m.interest, None);
    assert_eq!(m.updated_at, None);
}

#[test]
fn header_map_rightmost_duplicate_column_wins() {
    let headers: Vec<String> = vec!["email".to_string(), "E-MAIL".to_string()];
    let m = build_header_map(&headers);
    assert_eq!(m.email, Some(1));
}
