//! The restore orchestrator, as an explicit state machine: candidate probing
//! and extension check, the backup-file validation gate (size, SQLite magic
//! header, structural self-check), a mandatory pre-restore snapshot, the
//! swap, and automatic rollback when the swap fails. The caller performs the
//! file-system and database actions and reports each outcome back; every
//! decision and every message is the machine's.

use vstd::prelude::*;

use crate::backup::valid_backup_extension;
use crate::backup::has_valid_backup_extension;
use crate::logging::ascii_lower_seq;
use crate::logging::ascii_lower_chars;
use crate::tags::ErrorTag;
use crate::tags::tag_seq;
use crate::tags::tagged_error;
use crate::tags::tagged_seq;
use crate::text::chars_eq_str;

verus! {

/// The first sixteen bytes of every SQLite database file.
pub open spec fn sqlite_magic() -> Seq<u8> {
    seq![
        0x53u8, 0x51u8, 0x4cu8, 0x69u8, 0x74u8, 0x65u8, 0x20u8, 0x66u8, 0x6fu8, 0x72u8, 0x6du8,
        0x61u8, 0x74u8, 0x20u8, 0x33u8, 0x00u8,
    ]
}

/// A byte buffer that passes the two shape checks of the validation gate:
/// at least one hundred bytes, opening with the SQLite magic header.
pub open spec fn sqlite_shaped(bytes: Seq<u8>) -> bool {
    bytes.len() >= 100 && bytes.take(16) == sqlite_magic()
}

pub fn check_sqlite_shape(bytes: &Vec<u8>) -> (b: bool)
    ensures
        b == sqlite_shaped(bytes@),
{
    if bytes.len() < 100 {
        return false;
    }
    let magic: [u8; 16] = [
        0x53, 0x51, 0x4c, 0x69, 0x74, 0x65, 0x20, 0x66, 0x6f, 0x72, 0x6d, 0x61, 0x74, 0x20, 0x33,
        0x00,
    ];
    let mut i: usize = 0;
    while i < 16
        invariant
            0 <= i <= 16,
            bytes@.len() >= 100,
            magic@ == sqlite_magic(),
            forall|j: int| 0 <= j < i ==> bytes@[j] == sqlite_magic()[j],
        decreases 16 - i,
    {
        if bytes[i] != magic[i] {
            assert(bytes@.take(16)[i as int] != sqlite_magic()[i as int]);
            return false;
        }
        i = i + 1;
    }
    proof {
        assert(bytes@.take(16) =~= sqlite_magic());
    }
    true
}

pub ghost struct RestoreOutcomeModel {
    pub pre_restore_backup_path: Seq<char>,
    pub restart_required: bool,
}

/// What a successful restore hands back: the snapshot path, and the flag
/// telling the application it must restart; the flag is always set.
pub struct RestoreDatabaseResult {
    pub pre_restore_backup_path: String,
    pub restart_required: bool,
}

impl View for RestoreDatabaseResult {
    type V = RestoreOutcomeModel;

    open spec fn view(&self) -> RestoreOutcomeModel {
        RestoreOutcomeModel {
            pre_restore_backup_path: self.pre_restore_backup_path@,
            restart_required: self.restart_required,
        }
    }
}

pub ghost enum RestoreStateModel {
    ProbingCandidate,
    ReadingBytes,
    OpeningDb,
    CheckingIntegrity,
    ResolvingTarget,
    ProbingTarget { target: Seq<char>, snapshot: Seq<char> },
    CopyingSnapshot { target: Seq<char>, snapshot: Seq<char>, from_target: bool },
    Swapping { target: Seq<char>, snapshot: Seq<char> },
    RollingBack { target: Seq<char>, snapshot: Seq<char>, swap_error: Seq<char> },
    Done(Result<RestoreOutcomeModel, Seq<char>>),
}

pub ghost struct RestoreModel {
    pub candidate: Seq<char>,
    pub state: RestoreStateModel,
}

pub ghost enum RestoreEventModel {
    CandidateExists(bool),
    CandidateBytes(Result<Seq<u8>, Seq<char>>),
    DbOpened(Result<(), Seq<char>>),
    IntegrityReport(Result<Seq<char>, Seq<char>>),
    TargetResolved(Result<(Seq<char>, Seq<char>), Seq<char>>),
    TargetExists(bool),
    CopyDone(Result<(), Seq<char>>),
}

pub ghost enum RestoreActionModel {
    ProbeCandidate,
    ReadCandidate,
    OpenCandidate,
    CheckIntegrity,
    ResolveTarget,
    ProbeTarget,
    CopyFile(Seq<char>, Seq<char>),
    Stop,
}

pub open spec fn restore_not_found_msg() -> Seq<char> {
    tagged_seq(ErrorTag::RestoreFileNotFound, "Arquivo de backup não encontrado."@)
}

pub open spec fn restore_bad_extension_msg() -> Seq<char> {
    tagged_seq(
        ErrorTag::RestoreInvalidExtension,
        "Arquivo inválido. Selecione um backup SQLite (.db/.sqlite/.sqlite3)."@,
    )
}

pub open spec fn restore_read_failed_msg(e: Seq<char>) -> Seq<char> {
    tagged_seq(ErrorTag::RestoreInvalidSqlite, "Falha ao ler arquivo de backup: "@ + e)
}

pub open spec fn restore_too_small_msg() -> Seq<char> {
    tagged_seq(
        ErrorTag::RestoreInvalidSqlite,
        "Arquivo de backup inválido: tamanho muito pequeno."@,
    )
}

pub open spec fn restore_bad_header_msg() -> Seq<char> {
    tagged_seq(
        ErrorTag::RestoreInvalidSqlite,
        "Arquivo de backup inválido: header SQLite não reconhecido."@,
    )
}

pub open spec fn restore_open_failed_msg(e: Seq<char>) -> Seq<char> {
    tagged_seq(ErrorTag::RestoreInvalidSqlite, "Falha ao abrir backup SQLite: "@ + e)
}

pub open spec fn restore_check_failed_msg(e: Seq<char>) -> Seq<char> {
    tagged_seq(ErrorTag::RestoreInvalidSqlite, "Falha ao validar integridade do backup: "@ + e)
}

pub open spec fn restore_check_not_ok_msg(qc: Seq<char>) -> Seq<char> {
    tagged_seq(
        ErrorTag::RestoreInvalidSqlite,
        "Backup inválido: integridade SQLite falhou ("@ + qc + ")."@,
    )
}

pub open spec fn restore_prebackup_failed_msg(e: Seq<char>) -> Seq<char> {
    tagged_seq(ErrorTag::RestorePreBackupFailed, e)
}

pub open spec fn restore_snapshot_failed_msg(from_target: bool, e: Seq<char>) -> Seq<char> {
    if from_target {
        tagged_seq(
            ErrorTag::RestorePreBackupFailed,
            "Falha ao criar backup automático pré-restore: "@ + e,
        )
    } else {
        tagged_seq(ErrorTag::RestorePreBackupFailed, "Falha ao criar snapshot pré-restore: "@ + e)
    }
}

/// The message after a failed swap whose rollback succeeded.
pub open spec fn rollback_applied_msg(swap_err: Seq<char>) -> Seq<char> {
    tagged_seq(
        ErrorTag::RestoreCopyFailed,
        "Falha ao restaurar backup: "@ + swap_err + ". Rollback automático aplicado."@,
    )
}

/// The message after a failed swap whose rollback failed too.
pub open spec fn rollback_failed_msg(swap_err: Seq<char>, rb_err: Seq<char>) -> Seq<char> {
    tagged_seq(
        ErrorTag::RestoreCopyFailed,
        "Falha ao restaurar backup: "@ + swap_err + ". "@ + tagged_seq(
            ErrorTag::RestoreRollbackFailed,
            "Falha no rollback automático: "@ + rb_err,
        ),
    )
}

/// Which events a state can answer; `Done` answers none.
pub open spec fn restore_event_fits(st: RestoreStateModel, e: RestoreEventModel) -> bool {
    match (st, e) {
        (RestoreStateModel::ProbingCandidate, RestoreEventModel::CandidateExists(_)) => true,
        (RestoreStateModel::ReadingBytes, RestoreEventModel::CandidateBytes(_)) => true,
        (RestoreStateModel::OpeningDb, RestoreEventModel::DbOpened(_)) => true,
        (RestoreStateModel::CheckingIntegrity, RestoreEventModel::IntegrityReport(_)) => true,
        (RestoreStateModel::ResolvingTarget, RestoreEventModel::TargetResolved(_)) => true,
        (RestoreStateModel::ProbingTarget { .. }, RestoreEventModel::TargetExists(_)) => true,
        (RestoreStateModel::CopyingSnapshot { .. }, RestoreEventModel::CopyDone(_)) => true,
        (RestoreStateModel::Swapping { .. }, RestoreEventModel::CopyDone(_)) => true,
        (RestoreStateModel::RollingBack { .. }, RestoreEventModel::CopyDone(_)) => true,
        _ => false,
    }
}

/// The whole transition relation of the restore orchestrator.
pub open spec fn restore_step_spec(m: RestoreModel, e: RestoreEventModel) -> (
    RestoreModel,
    RestoreActionModel,
) {
    match (m.state, e) {
        (RestoreStateModel::ProbingCandidate, RestoreEventModel::CandidateExists(ex)) => {
            if !ex {
                (
                    RestoreModel { state: RestoreStateModel::Done(Err(restore_not_found_msg())), ..m },
                    RestoreActionModel::Stop,
                )
            } else if !valid_backup_extension(m.candidate) {
                (
                    RestoreModel {
                        state: RestoreStateModel::Done(Err(restore_bad_extension_msg())),
                        ..m
                    },
                    RestoreActionModel::Stop,
                )
            } else {
                (
                    RestoreModel { state: RestoreStateModel::ReadingBytes, ..m },
                    RestoreActionModel::ReadCandidate,
                )
            }
        },
        (RestoreStateModel::ReadingBytes, RestoreEventModel::CandidateBytes(res)) => match res {
            Err(err) => (
                RestoreModel {
                    state: RestoreStateModel::Done(Err(restore_read_failed_msg(err))),
                    ..m
                },
                RestoreActionModel::Stop,
            ),
            Ok(bytes) => {
                if bytes.len() < 100 {
                    (
                        RestoreModel {
                            state: RestoreStateModel::Done(Err(restore_too_small_msg())),
                            ..m
                        },
                        RestoreActionModel::Stop,
                    )
                } else if bytes.take(16) != sqlite_magic() {
                    (
                        RestoreModel {
                            state: RestoreStateModel::Done(Err(restore_bad_header_msg())),
                            ..m
                        },
                        RestoreActionModel::Stop,
                    )
                } else {
                    (
                        RestoreModel { state: RestoreStateModel::OpeningDb, ..m },
                        RestoreActionModel::OpenCandidate,
                    )
                }
            },
        },
        (RestoreStateModel::OpeningDb, RestoreEventModel::DbOpened(res)) => match res {
            Err(err) => (
                RestoreModel {
                    state: RestoreStateModel::Done(Err(restore_open_failed_msg(err))),
                    ..m
                },
                RestoreActionModel::Stop,
            ),
            Ok(_) => (
                RestoreModel { state: RestoreStateModel::CheckingIntegrity, ..m },
                RestoreActionModel::CheckIntegrity,
            ),
        },
        (RestoreStateModel::CheckingIntegrity, RestoreEventModel::IntegrityReport(res)) => match res {
            Err(err) => (
                RestoreModel {
                    state: RestoreStateModel::Done(Err(restore_check_failed_msg(err))),
                    ..m
                },
                RestoreActionModel::Stop,
            ),
            Ok(qc) => {
                if ascii_lower_seq(qc) != "ok"@ {
                    (
                        RestoreModel {
                            state: RestoreStateModel::Done(Err(restore_check_not_ok_msg(qc))),
                            ..m
                        },
                        RestoreActionModel::Stop,
                    )
                } else {
                    (
                        RestoreModel { state: RestoreStateModel::ResolvingTarget, ..m },
                        RestoreActionModel::ResolveTarget,
                    )
                }
            },
        },
        (RestoreStateModel::ResolvingTarget, RestoreEventModel::TargetResolved(res)) => match res {
            Err(err) => (
                RestoreModel {
                    state: RestoreStateModel::Done(Err(restore_prebackup_failed_msg(err))),
                    ..m
                },
                RestoreActionModel::Stop,
            ),
            Ok((target, snapshot)) => (
                RestoreModel {
                    state: RestoreStateModel::ProbingTarget { target: target, snapshot: snapshot },
                    ..m
                },
                RestoreActionModel::ProbeTarget,
            ),
        },
        (
            RestoreStateModel::ProbingTarget { target, snapshot },
            RestoreEventModel::TargetExists(ex),
        ) => (
            RestoreModel {
                state: RestoreStateModel::CopyingSnapshot {
                    target: target,
                    snapshot: snapshot,
                    from_target: ex,
                },
                ..m
            },
            RestoreActionModel::CopyFile(
                if ex {
                    target
                } else {
                    m.candidate
                },
                snapshot,
            ),
        ),
        (
            RestoreStateModel::CopyingSnapshot { target, snapshot, from_target },
            RestoreEventModel::CopyDone(res),
        ) => match res {
            Err(err) => (
                RestoreModel {
                    state: RestoreStateModel::Done(
                        Err(restore_snapshot_failed_msg(from_target, err)),
                    ),
                    ..m
                },
                RestoreActionModel::Stop,
            ),
            Ok(_) => (
                RestoreModel {
                    state: RestoreStateModel::Swapping { target: target, snapshot: snapshot },
                    ..m
                },
                RestoreActionModel::CopyFile(m.candidate, target),
            ),
        },
        (
            RestoreStateModel::Swapping { target, snapshot },
            RestoreEventModel::CopyDone(res),
        ) => match res {
            Ok(_) => (
                RestoreModel {
                    state: RestoreStateModel::Done(
                        Ok(
                            RestoreOutcomeModel {
                                pre_restore_backup_path: snapshot,
                                restart_required: true,
                            },
                        ),
                    ),
                    ..m
                },
                RestoreActionModel::Stop,
            ),
            Err(err) => (
                RestoreModel {
                    state: RestoreStateModel::RollingBack {
                        target: target,
                        snapshot: snapshot,
                        swap_error: err,
                    },
                    ..m
                },
                RestoreActionModel::CopyFile(snapshot, target),
            ),
        },
        (
            RestoreStateModel::RollingBack { target, snapshot, swap_error },
            RestoreEventModel::CopyDone(res),
        ) => match res {
            Ok(_) => (
                RestoreModel {
                    state: RestoreStateModel::Done(Err(rollback_applied_msg(swap_error))),
                    ..m
                },
                RestoreActionModel::Stop,
            ),
            Err(rb) => (
                RestoreModel {
                    state: RestoreStateModel::Done(Err(rollback_failed_msg(swap_error, rb))),
                    ..m
                },
                RestoreActionModel::Stop,
            ),
        },
        _ => (m, RestoreActionModel::Stop),
    }
}

/// `s` begins with `p`.
pub open spec fn starts_with(s: Seq<char>, p: Seq<char>) -> bool {
    p.len() <= s.len() && s.take(p.len() as int) == p
}

/// `s` ends with `p`.
pub open spec fn ends_with(s: Seq<char>, p: Seq<char>) -> bool {
    p.len() <= s.len() && s.skip(s.len() - p.len()) == p
}

/// `m` carries the bracketed tag `t`.
pub open spec fn has_tag(m: Seq<char>, t: ErrorTag) -> bool {
    starts_with(m, "["@ + tag_seq(t) + "] "@)
}

proof fn lemma_tagged_has_tag(t: ErrorTag, body: Seq<char>)
    ensures
        has_tag(tagged_seq(t, body), t),
{
    let p = "["@ + tag_seq(t) + "] "@;
    assert(tagged_seq(t, body).take(p.len() as int) =~= p);
}

/// Rejecting a candidate that is not SQLite-shaped: the validation gate
/// answers with the invalid-sqlite tag, halts the machine, and no copy — no
/// snapshot, no swap — was or can ever be requested from that run.
pub proof fn lemma_invalid_sqlite_rejected(m: RestoreModel, bytes: Seq<u8>)
    requires
        m.state is ReadingBytes,
        !sqlite_shaped(bytes),
    ensures
        restore_step_spec(m, RestoreEventModel::CandidateBytes(Ok(bytes))).1
            == RestoreActionModel::Stop,
        restore_step_spec(m, RestoreEventModel::CandidateBytes(Ok(bytes))).0.state matches
            RestoreStateModel::Done(r) && r matches Err(msg) && has_tag(
            msg,
            ErrorTag::RestoreInvalidSqlite,
        ),
        forall|e2: RestoreEventModel|
            !restore_event_fits(
                restore_step_spec(m, RestoreEventModel::CandidateBytes(Ok(bytes))).0.state,
                e2,
            ),
{
    if bytes.len() < 100 {
        lemma_tagged_has_tag(
            ErrorTag::RestoreInvalidSqlite,
            "Arquivo de backup inválido: tamanho muito pequeno."@,
        );
    } else {
        lemma_tagged_has_tag(
            ErrorTag::RestoreInvalidSqlite,
            "Arquivo de backup inválido: header SQLite não reconhecido."@,
        );
    }
}

/// Before the snapshot stage no transition requests a file copy: the
/// validation gate always runs before anything touches the disk.
pub proof fn lemma_no_copy_before_snapshot(m: RestoreModel, e: RestoreEventModel)
    requires
        !(m.state is ProbingTarget),
        !(m.state is CopyingSnapshot),
        !(m.state is Swapping),
        !(m.state is RollingBack),
    ensures
        !(restore_step_spec(m, e).1 is CopyFile),
{
}

/// A failed swap rolls back exactly once: the step out of `Swapping` with a
/// failure requests the single copy of the snapshot back over the live
/// store; whatever the rollback reports, the next step halts, carries the
/// copy-failed tag, and — when the rollback succeeded — acknowledges it.
pub proof fn lemma_swap_failure_rolls_back_once(
    m: RestoreModel,
    target: Seq<char>,
    snapshot: Seq<char>,
    swap_err: Seq<char>,
    res2: Result<(), Seq<char>>,
)
    requires
        m.state == (RestoreStateModel::Swapping { target, snapshot }),
    ensures
        ({
            let (m2, a) = restore_step_spec(m, RestoreEventModel::CopyDone(Err(swap_err)));
            let (m3, a3) = restore_step_spec(m2, RestoreEventModel::CopyDone(res2));
            &&& a == RestoreActionModel::CopyFile(snapshot, target)
            &&& m2.state == (RestoreStateModel::RollingBack { target, snapshot, swap_error: swap_err })
            &&& a3 == RestoreActionModel::Stop
            &&& m3.state matches RestoreStateModel::Done(r) && r matches Err(msg) && has_tag(
                msg,
                ErrorTag::RestoreCopyFailed,
            )
            &&& res2 is Ok ==> (m3.state matches RestoreStateModel::Done(r) && r matches Err(msg)
                && msg == rollback_applied_msg(swap_err) && ends_with(
                msg,
                ". Rollback automático aplicado."@,
            ))
            &&& forall|e3: RestoreEventModel| !restore_event_fits(m3.state, e3)
        }),
{
    let (m2, a) = restore_step_spec(m, RestoreEventModel::CopyDone(Err(swap_err)));
    let (m3, a3) = restore_step_spec(m2, RestoreEventModel::CopyDone(res2));
    match res2 {
        Ok(_) => {
            lemma_tagged_has_tag(
                ErrorTag::RestoreCopyFailed,
                "Falha ao restaurar backup: "@ + swap_err + ". Rollback automático aplicado."@,
            );
            let msg = rollback_applied_msg(swap_err);
            let suffix = ". Rollback automático aplicado."@;
            assert(msg.skip(msg.len() - suffix.len()) =~= suffix);
        },
        Err(rb) => {
            lemma_tagged_has_tag(
                ErrorTag::RestoreCopyFailed,
                "Falha ao restaurar backup: "@ + swap_err + ". "@ + tagged_seq(
                    ErrorTag::RestoreRollbackFailed,
                    "Falha no rollback automático: "@ + rb,
                ),
            );
        },
    }
}

/// A file system as a map from paths to contents; a copy overwrites the
/// destination with the source's content.
pub open spec fn copy_file_model(
    fs: Map<Seq<char>, Seq<u8>>,
    from: Seq<char>,
    to: Seq<char>,
) -> Map<Seq<char>, Seq<u8>> {
    fs.insert(to, fs[from])
}

/// The content law behind the rollback: the snapshot holds the pre-restore
/// content of the live store, so after a failed swap — whatever it wrote —
/// a successful rollback copy leaves the live store with exactly its
/// pre-restore content.
pub proof fn lemma_rollback_restores_content(
    fs0: Map<Seq<char>, Seq<u8>>,
    fs_mid: Map<Seq<char>, Seq<u8>>,
    target: Seq<char>,
    snapshot: Seq<char>,
)
    requires
        fs0.contains_key(target),
        fs_mid.contains_key(snapshot),
        fs_mid[snapshot] == copy_file_model(fs0, target, snapshot)[snapshot],
        snapshot != target,
    ensures
        copy_file_model(fs_mid, snapshot, target)[target] == fs0[target],
{
}

/// The restore orchestrator.
pub struct RestoreMachine {
    pub candidate: String,
    pub state: RestoreState,
}

pub enum RestoreState {
    ProbingCandidate,
    ReadingBytes,
    OpeningDb,
    CheckingIntegrity,
    ResolvingTarget,
    ProbingTarget { target: String, snapshot: String },
    CopyingSnapshot { target: String, snapshot: String, from_target: bool },
    Swapping { target: String, snapshot: String },
    RollingBack { target: String, snapshot: String, swap_error: String },
    Done(Result<RestoreDatabaseResult, String>),
}

pub enum RestoreEvent {
    CandidateExists(bool),
    CandidateBytes(Result<Vec<u8>, String>),
    DbOpened(Result<(), String>),
    IntegrityReport(Result<String, String>),
    TargetResolved(Result<(String, String), String>),
    TargetExists(bool),
    CopyDone(Result<(), String>),
}

pub enum RestoreAction {
    ProbeCandidate,
    ReadCandidate,
    OpenCandidate,
    CheckIntegrity,
    ResolveTarget,
    ProbeTarget,
    CopyFile(String, String),
    Stop,
}

impl View for RestoreState {
    type V = RestoreStateModel;

    open spec fn view(&self) -> RestoreStateModel {
        match self {
            RestoreState::ProbingCandidate => RestoreStateModel::ProbingCandidate,
            RestoreState::ReadingBytes => RestoreStateModel::ReadingBytes,
            RestoreState::OpeningDb => RestoreStateModel::OpeningDb,
            RestoreState::CheckingIntegrity => RestoreStateModel::CheckingIntegrity,
            RestoreState::ResolvingTarget => RestoreStateModel::ResolvingTarget,
            RestoreState::ProbingTarget { target, snapshot } => RestoreStateModel::ProbingTarget {
                target: target@,
                snapshot: snapshot@,
            },
            RestoreState::CopyingSnapshot { target, snapshot, from_target } => RestoreStateModel::CopyingSnapshot {
                target: target@,
                snapshot: snapshot@,
                from_target: *from_target,
            },
            RestoreState::Swapping { target, snapshot } => RestoreStateModel::Swapping {
                target: target@,
                snapshot: snapshot@,
            },
            RestoreState::RollingBack { target, snapshot, swap_error } => RestoreStateModel::RollingBack {
                target: target@,
                snapshot: snapshot@,
                swap_error: swap_error@,
            },
            RestoreState::Done(r) => RestoreStateModel::Done(
                match r {
                    Ok(o) => Ok(o@),
                    Err(m) => Err(m@),
                },
            ),
        }
    }
}

impl View for RestoreMachine {
    type V = RestoreModel;

    open spec fn view(&self) -> RestoreModel {
        RestoreModel { candidate: self.candidate@, state: self.state@ }
    }
}

impl View for RestoreEvent {
    type V = RestoreEventModel;

    open spec fn view(&self) -> RestoreEventModel {
        match self {
            RestoreEvent::CandidateExists(b) => RestoreEventModel::CandidateExists(*b),
            RestoreEvent::CandidateBytes(r) => RestoreEventModel::CandidateBytes(
                match r {
                    Ok(b) => Ok(b@),
                    Err(m) => Err(m@),
                },
            ),
            RestoreEvent::DbOpened(r) => RestoreEventModel::DbOpened(
                match r {
                    Ok(_) => Ok(()),
                    Err(m) => Err(m@),
                },
            ),
            RestoreEvent::IntegrityReport(r) => RestoreEventModel::IntegrityReport(
                match r {
                    Ok(s) => Ok(s@),
                    Err(m) => Err(m@),
                },
            ),
            RestoreEvent::TargetResolved(r) => RestoreEventModel::TargetResolved(
                match r {
                    Ok(p) => Ok((p.0@, p.1@)),
                    Err(m) => Err(m@),
                },
            ),
            RestoreEvent::TargetExists(b) => RestoreEventModel::TargetExists(*b),
            RestoreEvent::CopyDone(r) => RestoreEventModel::CopyDone(
                match r {
                    Ok(_) => Ok(()),
                    Err(m) => Err(m@),
                },
            ),
        }
    }
}

impl View for RestoreAction {
    type V = RestoreActionModel;

    open spec fn view(&self) -> RestoreActionModel {
        match self {
            RestoreAction::ProbeCandidate => RestoreActionModel::ProbeCandidate,
            RestoreAction::ReadCandidate => RestoreActionModel::ReadCandidate,
            RestoreAction::OpenCandidate => RestoreActionModel::OpenCandidate,
            RestoreAction::CheckIntegrity => RestoreActionModel::CheckIntegrity,
            RestoreAction::ResolveTarget => RestoreActionModel::ResolveTarget,
            RestoreAction::ProbeTarget => RestoreActionModel::ProbeTarget,
            RestoreAction::CopyFile(a, b) => RestoreActionModel::CopyFile(a@, b@),
            RestoreAction::Stop => RestoreActionModel::Stop,
        }
    }
}

impl RestoreMachine {
    /// Starts a restore from the candidate path; the caller's first duty is
    /// to probe whether the candidate exists.
    pub fn start(candidate: String) -> (r: (RestoreMachine, RestoreAction))
        ensures
            r.0@.candidate == candidate@,
            r.0@.state == RestoreStateModel::ProbingCandidate,
            r.1@ == RestoreActionModel::ProbeCandidate,
    {
        (
            RestoreMachine { candidate, state: RestoreState::ProbingCandidate },
            RestoreAction::ProbeCandidate,
        )
    }

    /// Feeds one outcome back and learns the next duty; the step is exactly
    /// the transition relation.
    #[verifier::rlimit(50)]
    pub fn step(&mut self, event: &RestoreEvent) -> (a: RestoreAction)
        requires
            restore_event_fits(old(self)@.state, event@),
        ensures
            (final(self)@, a@) == restore_step_spec(old(self)@, event@),
    {
        match (&self.state, event) {
            (RestoreState::ProbingCandidate, RestoreEvent::CandidateExists(ex)) => {
                if !*ex {
                    self.state = RestoreState::Done(
                        Err(
                            tagged_error(
                                ErrorTag::RestoreFileNotFound,
                                "Arquivo de backup não encontrado.",
                            ),
                        ),
                    );
                    RestoreAction::Stop
                } else if !has_valid_backup_extension(self.candidate.as_str()) {
                    self.state = RestoreState::Done(
                        Err(
                            tagged_error(
                                ErrorTag::RestoreInvalidExtension,
                                "Arquivo inválido. Selecione um backup SQLite (.db/.sqlite/.sqlite3).",
                            ),
                        ),
                    );
                    RestoreAction::Stop
                } else {
                    self.state = RestoreState::ReadingBytes;
                    RestoreAction::ReadCandidate
                }
            },
            (RestoreState::ReadingBytes, RestoreEvent::CandidateBytes(res)) => match res {
                Err(err) => {
                    let mut b = String::from_str("Falha ao ler arquivo de backup: ");
                    b.append(err.as_str());
                    self.state = RestoreState::Done(
                        Err(tagged_error(ErrorTag::RestoreInvalidSqlite, b.as_str())),
                    );
                    RestoreAction::Stop
                },
                Ok(bytes) => {
                    if bytes.len() < 100 {
                        self.state = RestoreState::Done(
                            Err(
                                tagged_error(
                                    ErrorTag::RestoreInvalidSqlite,
                                    "Arquivo de backup inválido: tamanho muito pequeno.",
                                ),
                            ),
                        );
                        RestoreAction::Stop
                    } else if !check_sqlite_shape(bytes) {
                        self.state = RestoreState::Done(
                            Err(
                                tagged_error(
                                    ErrorTag::RestoreInvalidSqlite,
                                    "Arquivo de backup inválido: header SQLite não reconhecido.",
                                ),
                            ),
                        );
                        RestoreAction::Stop
                    } else {
                        self.state = RestoreState::OpeningDb;
                        RestoreAction::OpenCandidate
                    }
                },
            },
            (RestoreState::OpeningDb, RestoreEvent::DbOpened(res)) => match res {
                Err(err) => {
                    let mut b = String::from_str("Falha ao abrir backup SQLite: ");
                    b.append(err.as_str());
                    self.state = RestoreState::Done(
                        Err(tagged_error(ErrorTag::RestoreInvalidSqlite, b.as_str())),
                    );
                    RestoreAction::Stop
                },
                Ok(_) => {
                    self.state = RestoreState::CheckingIntegrity;
                    RestoreAction::CheckIntegrity
                },
            },
            (RestoreState::CheckingIntegrity, RestoreEvent::IntegrityReport(res)) => match res {
                Err(err) => {
                    let mut b = String::from_str("Falha ao validar integridade do backup: ");
                    b.append(err.as_str());
                    self.state = RestoreState::Done(
                        Err(tagged_error(ErrorTag::RestoreInvalidSqlite, b.as_str())),
                    );
                    RestoreAction::Stop
                },
                Ok(qc) => {
                    let low = ascii_lower_chars(qc.as_str());
                    if !chars_eq_str(&low, "ok") {
                        let mut b = String::from_str("Backup inválido: integridade SQLite falhou (");
                        b.append(qc.as_str());
                        b.append(").");
                        proof {
                            assert(b@ =~= "Backup inválido: integridade SQLite falhou ("@ + qc@
                                + ")."@);
                        }
                        self.state = RestoreState::Done(
                            Err(tagged_error(ErrorTag::RestoreInvalidSqlite, b.as_str())),
                        );
                        RestoreAction::Stop
                    } else {
                        self.state = RestoreState::ResolvingTarget;
                        RestoreAction::ResolveTarget
                    }
                },
            },
            (RestoreState::ResolvingTarget, RestoreEvent::TargetResolved(res)) => match res {
                Err(err) => {
                    self.state = RestoreState::Done(
                        Err(tagged_error(ErrorTag::RestorePreBackupFailed, err.as_str())),
                    );
                    RestoreAction::Stop
                },
                Ok(paths) => {
                    let target = paths.0.clone();
                    let snapshot = paths.1.clone();
                    self.state = RestoreState::ProbingTarget { target, snapshot };
                    RestoreAction::ProbeTarget
                },
            },
            (RestoreState::ProbingTarget { target, snapshot }, RestoreEvent::TargetExists(ex)) => {
                let t = target.clone();
                let sn = snapshot.clone();
                let from = if *ex {
                    t.clone()
                } else {
                    self.candidate.clone()
                };
                let a = RestoreAction::CopyFile(from, sn.clone());
                self.state = RestoreState::CopyingSnapshot {
                    target: t,
                    snapshot: sn,
                    from_target: *ex,
                };
                a
            },
            (
                RestoreState::CopyingSnapshot { target, snapshot, from_target },
                RestoreEvent::CopyDone(res),
            ) => {
                let t = target.clone();
                let sn = snapshot.clone();
                let ft = *from_target;
                match res {
                    Err(err) => {
                        let mut b = if ft {
                            String::from_str("Falha ao criar backup automático pré-restore: ")
                        } else {
                            String::from_str("Falha ao criar snapshot pré-restore: ")
                        };
                        b.append(err.as_str());
                        self.state = RestoreState::Done(
                            Err(tagged_error(ErrorTag::RestorePreBackupFailed, b.as_str())),
                        );
                        RestoreAction::Stop
                    },
                    Ok(_) => {
                        let a = RestoreAction::CopyFile(self.candidate.clone(), t.clone());
                        self.state = RestoreState::Swapping { target: t, snapshot: sn };
                        a
                    },
                }
            },
            (RestoreState::Swapping { target, snapshot }, RestoreEvent::CopyDone(res)) => {
                let t = target.clone();
                let sn = snapshot.clone();
                match res {
                    Ok(_) => {
                        self.state = RestoreState::Done(
                            Ok(
                                RestoreDatabaseResult {
                                    pre_restore_backup_path: sn,
                                    restart_required: true,
                                },
                            ),
                        );
                        RestoreAction::Stop
                    },
                    Err(err) => {
                        let a = RestoreAction::CopyFile(sn.clone(), t.clone());
                        self.state = RestoreState::RollingBack {
                            target: t,
                            snapshot: sn,
                            swap_error: err.clone(),
                        };
                        a
                    },
                }
            },
            (
                RestoreState::RollingBack { target: _, snapshot: _, swap_error },
                RestoreEvent::CopyDone(res),
            ) => {
                let se = swap_error.clone();
                match res {
                    Ok(_) => {
                        let m = rollback_applied_message(se.as_str());
                        self.state = RestoreState::Done(Err(m));
                        RestoreAction::Stop
                    },
                    Err(rb) => {
                        let m = rollback_failed_message(se.as_str(), rb.as_str());
                        self.state = RestoreState::Done(Err(m));
                        RestoreAction::Stop
                    },
                }
            },
            _ => {
                proof {
                    assert(false);
                }
                RestoreAction::Stop
            },
        }
    }
}

/// The message after a failed swap whose rollback copy succeeded.
fn rollback_applied_message(swap_err: &str) -> (r: String)
    ensures
        r@ == rollback_applied_msg(swap_err@),
{
    let mut b = String::from_str("Falha ao restaurar backup: ");
    b.append(swap_err);
    b.append(". Rollback automático aplicado.");
    proof {
        assert(b@ =~= "Falha ao restaurar backup: "@ + swap_err@
            + ". Rollback automático aplicado."@);
    }
    tagged_error(ErrorTag::RestoreCopyFailed, b.as_str())
}

/// The message after a failed swap whose rollback copy failed too.
fn rollback_failed_message(swap_err: &str, rb_err: &str) -> (r: String)
    ensures
        r@ == rollback_failed_msg(swap_err@, rb_err@),
{
    let mut inner = String::from_str("Falha no rollback automático: ");
    inner.append(rb_err);
    let tagged_inner = tagged_error(ErrorTag::RestoreRollbackFailed, inner.as_str());
    let mut b = String::from_str("Falha ao restaurar backup: ");
    b.append(swap_err);
    b.append(". ");
    b.append(tagged_inner.as_str());
    proof {
        assert(b@ =~= "Falha ao restaurar backup: "@ + swap_err@ + ". "@ + tagged_seq(
            ErrorTag::RestoreRollbackFailed,
            "Falha no rollback automático: "@ + rb_err@,
        ));
    }
    tagged_error(ErrorTag::RestoreCopyFailed, b.as_str())
}

/// Swaps the validated candidate over the live store with the injected copy
/// primitive, restoring the snapshot on failure. The result classifies what
/// the copies did: success means the swap copy succeeded; an error carries
/// the copy-failed tag and states whether the rollback was applied, and both
/// copy calls are reflected in the closure's own contract.
pub fn restore_with_rollback<F: Fn(&str, &str) -> Result<u64, String>>(
    source: &str,
    target: &str,
    pre_restore_path: &str,
    copy_op: F,
) -> (r: Result<(), String>)
    requires
        call_requires(copy_op, (source, target)),
        call_requires(copy_op, (pre_restore_path, target)),
    ensures
        match r {
            Ok(_) => exists|n: u64| call_ensures(copy_op, (source, target), Ok(n)),
            Err(m) => exists|e: String|
                {
                    &&& #[trigger] call_ensures(copy_op, (source, target), Err(e))
                    &&& ((exists|n: u64| call_ensures(copy_op, (pre_restore_path, target), Ok(n)))
                        && m@ == rollback_applied_msg(e@)) || (exists|e2: String|
                        (#[trigger] call_ensures(copy_op, (pre_restore_path, target), Err(e2)))
                            && m@ == rollback_failed_msg(e@, e2@))
                },
        },
{
    match copy_op(source, target) {
        Ok(n) => {
            proof {
                assert(call_ensures(copy_op, (source, target), Ok::<u64, String>(n)));
            }
            Ok(())
        },
        Err(restore_err) => {
            let ghost w = restore_err;
            match copy_op(pre_restore_path, target) {
                Ok(n2) => {
                    proof {
                        assert(call_ensures(copy_op, (source, target), Err::<u64, String>(w)));
                        assert(call_ensures(
                            copy_op,
                            (pre_restore_path, target),
                            Ok::<u64, String>(n2),
                        ));
                    }
                    Err(rollback_applied_message(restore_err.as_str()))
                },
                Err(rb) => {
                    let ghost w2 = rb;
                    proof {
                        assert(call_ensures(copy_op, (source, target), Err::<u64, String>(w)));
                        assert(call_ensures(
                            copy_op,
                            (pre_restore_path, target),
                            Err::<u64, String>(w2),
                        ));
                    }
                    Err(rollback_failed_message(restore_err.as_str(), rb.as_str()))
                },
            }
        },
    }
}

} // verus!
