use std::cell::Cell;
use std::collections::HashMap;

use leadflow::backup::{
    has_valid_backup_extension, BackupAction, BackupEvent, BackupMachine, BackupState,
};
use leadflow::restore::{
    check_sqlite_shape, restore_with_rollback, RestoreAction, RestoreEvent, RestoreMachine,
    RestoreState,
};

const MAGIC: &[u8; 16] = b"SQLite format 3\0";

fn sqlite_bytes() -> Vec<u8> {
    let mut b = MAGIC.to_vec();
    b.resize(200, 0u8);
    b
}

#[test]
fn accepted_extensions() {
    assert!(has_valid_backup_extension("leads.db"));
    assert!(has_valid_backup_extension("/home/x/Leads.SQLITE"));
    assert!(has_valid_backup_extension("C:\\data\\leads.sqlite3"));
    assert!(!has_valid_backup_extension("leads.txt"));
    assert!(!has_valid_backup_extension("leads"));
    assert!(!has_valid_backup_extension(".db"));
    assert!(!has_valid_backup_extension("dir.db/leads"));
}

#[test]
fn backup_to_txt_fails_extension_check_without_copying() {
    let (mut m, first) = BackupMachine::start("live.db".to_string(), "out.txt".to_string());
    assert!(matches!(first, BackupAction::ProbeSource));
    let a = m.step(&BackupEvent::SourceExists(true));
    assert!(matches!(a, BackupAction::Stop));
    match &m.state {
        BackupState::Done(Err(msg)) => {
            assert_eq!(
                msg,
                "Arquivo de backup inválido. Use extensão .db, .sqlite ou .sqlite3."
            );
        }
        other => panic!("unexpected state: {:?}", std::mem::discriminant(other)),
    }
}

#[test]
fn backup_requires_an_existing_source() {
    let (mut m, _) = BackupMachine::start("live.db".to_string(), "out.db".to_string());
    let a = m.step(&BackupEvent::SourceExists(false));
    assert!(matches!(a, BackupAction::Stop));
    match &m.state {
        BackupState::Done(Err(msg)) => {
            assert_eq!(msg, "Banco local não encontrado para backup.");
        }
        _ => panic!("expected failure"),
    }
}

#[test]
fn backup_happy_path_copies_source_to_destination() {
    let (mut m, _) = BackupMachine::start("live.db".to_string(), "out.db".to_string());
    let a1 = m.step(&BackupEvent::SourceExists(true));
    assert!(matches!(a1, BackupAction::EnsureParentDir));
    let a2 = m.step(&BackupEvent::DirPrepared(Ok(())));
    match a2 {
        BackupAction::CopyFile(from, to) => {
            assert_eq!(from, "live.db");
            assert_eq!(to, "out.db");
        }
        _ => panic!("expected the copy request"),
    }
    let a3 = m.step(&BackupEvent::CopyDone(Ok(())));
    assert!(matches!(a3, BackupAction::Stop));
    match &m.state {
        BackupState::Done(Ok(dest)) => assert_eq!(dest, "out.db"),
        _ => panic!("expected success"),
    }
}

#[test]
fn sqlite_shape_check() {
    assert!(check_sqlite_shape(&sqlite_bytes()));
    let mut small = MAGIC.to_vec();
    small.resize(99, 0u8);
    assert!(!check_sqlite_shape(&small));
    let mut wrong = sqlite_bytes();
    wrong[0] = b'X';
    assert!(!check_sqlite_shape(&wrong));
}

#[test]
fn non_sqlite_candidate_is_rejected_before_any_copy() {
    let (mut m, _) = RestoreMachine::start("candidate.db".to_string());
    let a1 = m.step(&RestoreEvent::CandidateExists(true));
    assert!(matches!(a1, RestoreAction::ReadCandidate));
    let a2 = m.step(&RestoreEvent::CandidateBytes(Ok(vec![0u8; 500])));
    assert!(matches!(a2, RestoreAction::Stop));
    match &m.state {
        RestoreState::Done(Err(msg)) => {
            assert!(msg.starts_with("[RESTORE_INVALID_SQLITE] "));
            assert!(msg.contains("header SQLite não reconhecido"));
        }
        _ => panic!("expected the invalid-sqlite rejection"),
    }
}

#[test]
fn missing_candidate_and_wrong_extension_are_distinct() {
    let (mut m, _) = RestoreMachine::start("candidate.db".to_string());
    let a = m.step(&RestoreEvent::CandidateExists(false));
    assert!(matches!(a, RestoreAction::Stop));
    match &m.state {
        RestoreState::Done(Err(msg)) => assert!(msg.starts_with("[RESTORE_FILE_NOT_FOUND] ")),
        _ => panic!("expected failure"),
    }
    let (mut m2, _) = RestoreMachine::start("candidate.zip".to_string());
    let a2 = m2.step(&RestoreEvent::CandidateExists(true));
    assert!(matches!(a2, RestoreAction::Stop));
    match &m2.state {
        RestoreState::Done(Err(msg)) => {
            assert!(msg.starts_with("[RESTORE_INVALID_EXTENSION] "))
        }
        _ => panic!("expected failure"),
    }
}

#[test]
fn corrupt_integrity_report_rejects_the_candidate() {
    let (mut m, _) = RestoreMachine::start("candidate.db".to_string());
    m.step(&RestoreEvent::CandidateExists(true));
    m.step(&RestoreEvent::CandidateBytes(Ok(sqlite_bytes())));
    m.step(&RestoreEvent::DbOpened(Ok(())));
    let a = m.step(&RestoreEvent::IntegrityReport(Ok("row 3 missing".to_string())));
    assert!(matches!(a, RestoreAction::Stop));
    match &m.state {
        RestoreState::Done(Err(msg)) => {
            assert!(msg.starts_with("[RESTORE_INVALID_SQLITE] "));
            assert!(msg.contains("integridade SQLite falhou (row 3 missing)"));
        }
        _ => panic!("expected failure"),
    }
}

/// Drives a whole restore against an in-memory file system, with the swap
/// copy forced to fail (it corrupts the target first, as a real partial copy
/// could), and checks the rollback behaviour end to end.
#[test]
fn swap_failure_rolls_back_exactly_once_and_restores_content() {
    let mut fs: HashMap<String, Vec<u8>> = HashMap::new();
    fs.insert("live.db".to_string(), b"old live content".to_vec());
    fs.insert("candidate.db".to_string(), sqlite_bytes());

    let (mut m, _) = RestoreMachine::start("candidate.db".to_string());
    m.step(&RestoreEvent::CandidateExists(true));
    m.step(&RestoreEvent::CandidateBytes(Ok(fs["candidate.db"].clone())));
    m.step(&RestoreEvent::DbOpened(Ok(())));
    m.step(&RestoreEvent::IntegrityReport(Ok("ok".to_string())));
    let a = m.step(&RestoreEvent::TargetResolved(Ok((
        "live.db".to_string(),
        "snap.db".to_string(),
    ))));
    assert!(matches!(a, RestoreAction::ProbeTarget));

    // Snapshot: the live store exists, so it is copied to the snapshot path.
    let a = m.step(&RestoreEvent::TargetExists(true));
    match &a {
        RestoreAction::CopyFile(from, to) => {
            assert_eq!((from.as_str(), to.as_str()), ("live.db", "snap.db"));
            let c = fs[from.as_str()].clone();
            fs.insert(to.clone(), c);
        }
        _ => panic!("expected the snapshot copy"),
    }

    // Swap: fails halfway, leaving the target corrupted.
    let a = m.step(&RestoreEvent::CopyDone(Ok(())));
    match &a {
        RestoreAction::CopyFile(from, to) => {
            assert_eq!((from.as_str(), to.as_str()), ("candidate.db", "live.db"));
            fs.insert(to.clone(), b"half-written garbage".to_vec());
        }
        _ => panic!("expected the swap copy"),
    }

    // Rollback: requested exactly once, and performed.
    let mut rollback_copies = 0;
    let a = m.step(&RestoreEvent::CopyDone(Err("disk full".to_string())));
    match &a {
        RestoreAction::CopyFile(from, to) => {
            assert_eq!((from.as_str(), to.as_str()), ("snap.db", "live.db"));
            rollback_copies += 1;
            let c = fs[from.as_str()].clone();
            fs.insert(to.clone(), c);
        }
        _ => panic!("expected the rollback copy"),
    }
    let a = m.step(&RestoreEvent::CopyDone(Ok(())));
    assert!(matches!(a, RestoreAction::Stop));
    assert_eq!(rollback_copies, 1);

    match &m.state {
        RestoreState::Done(Err(msg)) => {
            assert!(msg.starts_with("[RESTORE_COPY_FAILED] "));
            assert!(msg.contains("disk full"));
            assert!(msg.contains("Rollback automático aplicado."));
        }
        _ => panic!("expected the annotated swap failure"),
    }
    assert_eq!(fs["live.db"], b"old live content".to_vec());
}

#[test]
fn restore_happy_path_reports_the_snapshot() {
    let (mut m, _) = RestoreMachine::start("candidate.db".to_string());
    m.step(&RestoreEvent::CandidateExists(true));
    m.step(&RestoreEvent::CandidateBytes(Ok(sqlite_bytes())));
    m.step(&RestoreEvent::DbOpened(Ok(())));
    m.step(&RestoreEvent::IntegrityReport(Ok("OK".to_string())));
    m.step(&RestoreEvent::TargetResolved(Ok((
        "live.db".to_string(),
        "snap.db".to_string(),
    ))));
    // No live store yet: the candidate itself becomes the snapshot.
    let a = m.step(&RestoreEvent::TargetExists(false));
    match &a {
        RestoreAction::CopyFile(from, to) => {
            assert_eq!((from.as_str(), to.as_str()), ("candidate.db", "snap.db"));
        }
        _ => panic!("expected the snapshot copy"),
    }
    m.step(&RestoreEvent::CopyDone(Ok(())));
    let a = m.step(&RestoreEvent::CopyDone(Ok(())));
    assert!(matches!(a, RestoreAction::Stop));
    match &m.state {
        RestoreState::Done(Ok(out)) => {
            assert_eq!(out.pre_restore_backup_path, "snap.db");
            assert!(out.restart_required);
        }
        _ => panic!("expected success"),
    }
}

#[test]
fn snapshot_failure_is_fatal_before_the_swap() {
    let (mut m, _) = RestoreMachine::start("candidate.db".to_string());
    m.step(&RestoreEvent::CandidateExists(true));
    m.step(&RestoreEvent::CandidateBytes(Ok(sqlite_bytes())));
    m.step(&RestoreEvent::DbOpened(Ok(())));
    m.step(&RestoreEvent::IntegrityReport(Ok("ok".to_string())));
    m.step(&RestoreEvent::TargetResolved(Ok((
        "live.db".to_string(),
        "snap.db".to_string(),
    ))));
    m.step(&RestoreEvent::TargetExists(true));
    let a = m.step(&RestoreEvent::CopyDone(Err("no space".to_string())));
    assert!(matches!(a, RestoreAction::Stop));
    match &m.state {
        RestoreState::Done(Err(msg)) => {
            assert!(msg.starts_with("[RESTORE_PRE_BACKUP_FAILED] "));
            assert!(msg.contains("Falha ao criar backup automático pré-restore: no space"));
        }
        _ => panic!("expected failure"),
    }
}

#[test]
fn injected_copy_rollback_runs_exactly_once() {
    let calls: Cell<u32> = Cell::new(0);
    let rollbacks: Cell<u32> = Cell::new(0);
    let r = restore_with_rollback("src.db", "live.db", "snap.db", |from: &str, to: &str| {
        calls.set(calls.get() + 1);
        if from == "src.db" {
            Err("copy exploded".to_string())
        } else {
            assert_eq!((from, to), ("snap.db", "live.db"));
            rollbacks.set(rollbacks.get() + 1);
            Ok(42)
        }
    });
    assert_eq!(calls.get(), 2);
    assert_eq!(rollbacks.get(), 1);
    let msg = r.unwrap_err();
    assert!(msg.starts_with("[RESTORE_COPY_FAILED] "));
    assert!(msg.contains("copy exploded"));
    assert!(msg.ends_with("Rollback automático aplicado."));
}

#[test]
fn injected_copy_failure_of_both_copies_reports_both() {
    let r = restore_with_rollback("src.db", "live.db", "snap.db", |_: &str, _: &str| {
        Err::<u64, String>("boom".to_string())
    });
    let msg = r.unwrap_err();
    assert!(msg.starts_with("[RESTORE_COPY_FAILED] "));
    assert!(msg.contains("Falha ao restaurar backup: boom"));
    assert!(msg.contains("[RESTORE_ROLLBACK_FAILED] Falha no rollback automático: boom"));
}

#[test]
fn injected_copy_success_swaps_without_rollback() {
    let calls: Cell<u32> = Cell::new(0);
    let r = restore_with_rollback("src.db", "live.db", "snap.db", |_: &str, _: &str| {
        calls.set(calls.get() + 1);
        Ok(7u64)
    });
    assert!(r.is_ok());
    assert_eq!(calls.get(), 1);
}
