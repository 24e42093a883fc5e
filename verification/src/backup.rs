//! The backup writer, as an explicit state machine: the caller performs the
//! file-system actions the machine asks for and reports each outcome back.
//! The machine owns every decision: the source must exist, the destination
//! must carry an accepted extension, the parent directory is prepared, and
//! only then is a copy requested.

use vstd::prelude::*;

use crate::logging::ascii_lower_seq;
use crate::logging::lower_ascii;
use crate::text::chars_of;
use crate::text::chars_eq_str;

verus! {

/// The file name of a path: everything after the last separator.
pub open spec fn path_sep(c: char) -> bool {
    c == '/' || c == '\\'
}

pub open spec fn rfind_sep(p: Seq<char>) -> Option<int>
    decreases p.len(),
{
    if p.len() == 0 {
        None
    } else if path_sep(p.last()) {
        Some(p.len() - 1)
    } else {
        rfind_sep(p.drop_last())
    }
}

pub open spec fn file_name_of(p: Seq<char>) -> Seq<char> {
    match rfind_sep(p) {
        Some(i) => p.skip(i + 1),
        None => p,
    }
}

pub open spec fn rfind_dot(p: Seq<char>) -> Option<int>
    decreases p.len(),
{
    if p.len() == 0 {
        None
    } else if p.last() == '.' {
        Some(p.len() - 1)
    } else {
        rfind_dot(p.drop_last())
    }
}

/// The extension of a path: what follows the last dot of its file name,
/// absent when there is no dot or the name starts with its only dot.
pub open spec fn extension_of(p: Seq<char>) -> Option<Seq<char>> {
    let name = file_name_of(p);
    match rfind_dot(name) {
        Some(i) => if i == 0 {
            None
        } else {
            Some(name.skip(i + 1))
        },
        None => None,
    }
}

/// Only `.db`, `.sqlite` and `.sqlite3` destinations are accepted, in any
/// letter case.
pub open spec fn valid_backup_extension(p: Seq<char>) -> bool {
    match extension_of(p) {
        Some(e) => {
            let l = ascii_lower_seq(e);
            l == "db"@ || l == "sqlite"@ || l == "sqlite3"@
        },
        None => false,
    }
}

proof fn lemma_rfind_sep_scan(p: Seq<char>, k: int)
    requires
        0 <= k <= p.len(),
        forall|j: int| k <= j < p.len() ==> !path_sep(#[trigger] p[j]),
        k == 0 || path_sep(p[k - 1]),
    ensures
        rfind_sep(p) == if k == 0 {
            None::<int>
        } else {
            Some(k - 1)
        },
    decreases p.len(),
{
    if p.len() == 0 {
    } else if k == p.len() {
        assert(path_sep(p.last()));
    } else {
        let t = p.drop_last();
        assert(!path_sep(p.last()));
        assert forall|j: int| k <= j < t.len() implies !path_sep(#[trigger] t[j]) by {
            assert(t[j] == p[j]);
        }
        if k > 0 {
            assert(t[k - 1] == p[k - 1]);
        }
        lemma_rfind_sep_scan(t, k);
    }
}

proof fn lemma_rfind_dot_scan(p: Seq<char>, k: int)
    requires
        0 <= k <= p.len(),
        forall|j: int| k <= j < p.len() ==> (#[trigger] p[j]) != '.',
        k == 0 || p[k - 1] == '.',
    ensures
        rfind_dot(p) == if k == 0 {
            None::<int>
        } else {
            Some(k - 1)
        },
    decreases p.len(),
{
    if p.len() == 0 {
    } else if k == p.len() {
        assert(p.last() == '.');
    } else {
        let t = p.drop_last();
        assert(p.last() != '.');
        assert forall|j: int| k <= j < t.len() implies (#[trigger] t[j]) != '.' by {
            assert(t[j] == p[j]);
        }
        if k > 0 {
            assert(t[k - 1] == p[k - 1]);
        }
        lemma_rfind_dot_scan(t, k);
    }
}

/// Whether a destination path carries one of the accepted extensions.
pub fn has_valid_backup_extension(path: &str) -> (b: bool)
    ensures
        b == valid_backup_extension(path@),
{
    let v = chars_of(path);
    let n = v.len();
    let mut k: usize = n;
    while k > 0 && !(v[k - 1] == '/' || v[k - 1] == '\\')
        invariant
            0 <= k <= n,
            n == v@.len(),
            v@ == path@,
            forall|j: int| k <= j < n ==> !path_sep(#[trigger] v@[j]),
        decreases k,
    {
        k = k - 1;
    }
    proof {
        lemma_rfind_sep_scan(v@, k as int);
    }
    let ghost name = file_name_of(path@);
    proof {
        if k == 0 {
            assert(name == path@);
        } else {
            assert(name == path@.skip(k as int));
        }
    }
    let m = n - k;
    let mut d: usize = m;
    while d > 0 && v[k + d - 1] != '.'
        invariant
            0 <= d <= m,
            m == n - k,
            0 <= k <= n,
            n == v@.len(),
            v@ == path@,
            name.len() == m,
            forall|j: int| 0 <= j < m ==> name[j] == v@[k + j],
            forall|j: int| d <= j < m ==> (#[trigger] name[j]) != '.',
        decreases d,
    {
        d = d - 1;
    }
    proof {
        if d > 0 {
            assert(name[d - 1] == v@[k + d - 1]);
        }
        lemma_rfind_dot_scan(name, d as int);
    }
    if d <= 1 {
        return false;
    }
    let mut low: Vec<char> = Vec::new();
    let mut j: usize = k + d;
    while j < n
        invariant
            k + d <= j <= n,
            k + d >= 0,
            n == v@.len(),
            v@ == path@,
            low@ == ascii_lower_seq(v@.subrange(k + d, j as int)),
        decreases n - j,
    {
        low.push(lower_ascii(v[j]));
        assert(low@ =~= ascii_lower_seq(v@.subrange(k + d, j + 1)));
        j = j + 1;
    }
    proof {
        assert(extension_of(path@) == Some(name.skip(d as int)));
        assert(name.skip(d as int) =~= v@.subrange(k + d, n as int));
    }
    chars_eq_str(&low, "db") || chars_eq_str(&low, "sqlite") || chars_eq_str(&low, "sqlite3")
}

/// The machine's view: paths and state at the level of character sequences.
pub ghost enum BackupStateModel {
    ProbingSource,
    PreparingDir,
    Copying,
    Done(Result<Seq<char>, Seq<char>>),
}

pub ghost struct BackupModel {
    pub source: Seq<char>,
    pub destination: Seq<char>,
    pub state: BackupStateModel,
}

pub ghost enum BackupEventModel {
    SourceExists(bool),
    DirPrepared(Result<(), Seq<char>>),
    CopyDone(Result<(), Seq<char>>),
}

pub ghost enum BackupActionModel {
    ProbeSource,
    EnsureParentDir,
    CopyFile(Seq<char>, Seq<char>),
    Stop,
}

pub open spec fn backup_source_missing_msg() -> Seq<char> {
    "Banco local não encontrado para backup."@
}

pub open spec fn backup_bad_extension_msg() -> Seq<char> {
    "Arquivo de backup inválido. Use extensão .db, .sqlite ou .sqlite3."@
}

pub open spec fn backup_dir_failed_msg(e: Seq<char>) -> Seq<char> {
    "Falha ao preparar diretório de backup: "@ + e
}

pub open spec fn backup_copy_failed_msg(e: Seq<char>) -> Seq<char> {
    "Falha ao criar backup: "@ + e
}

/// Which events a state can answer; `Done` answers none.
pub open spec fn backup_event_fits(st: BackupStateModel, e: BackupEventModel) -> bool {
    match (st, e) {
        (BackupStateModel::ProbingSource, BackupEventModel::SourceExists(_)) => true,
        (BackupStateModel::PreparingDir, BackupEventModel::DirPrepared(_)) => true,
        (BackupStateModel::Copying, BackupEventModel::CopyDone(_)) => true,
        _ => false,
    }
}

/// The whole transition relation of the backup writer.
pub open spec fn backup_step_spec(m: BackupModel, e: BackupEventModel) -> (
    BackupModel,
    BackupActionModel,
) {
    match (m.state, e) {
        (BackupStateModel::ProbingSource, BackupEventModel::SourceExists(ex)) => {
            if !ex {
                (
                    BackupModel {
                        state: BackupStateModel::Done(Err(backup_source_missing_msg())),
                        ..m
                    },
                    BackupActionModel::Stop,
                )
            } else if !valid_backup_extension(m.destination) {
                (
                    BackupModel {
                        state: BackupStateModel::Done(Err(backup_bad_extension_msg())),
                        ..m
                    },
                    BackupActionModel::Stop,
                )
            } else {
                (
                    BackupModel { state: BackupStateModel::PreparingDir, ..m },
                    BackupActionModel::EnsureParentDir,
                )
            }
        },
        (BackupStateModel::PreparingDir, BackupEventModel::DirPrepared(res)) => match res {
            Ok(_) => (
                BackupModel { state: BackupStateModel::Copying, ..m },
                BackupActionModel::CopyFile(m.source, m.destination),
            ),
            Err(err) => (
                BackupModel {
                    state: BackupStateModel::Done(Err(backup_dir_failed_msg(err))),
                    ..m
                },
                BackupActionModel::Stop,
            ),
        },
        (BackupStateModel::Copying, BackupEventModel::CopyDone(res)) => match res {
            Ok(_) => (
                BackupModel { state: BackupStateModel::Done(Ok(m.destination)), ..m },
                BackupActionModel::Stop,
            ),
            Err(err) => (
                BackupModel {
                    state: BackupStateModel::Done(Err(backup_copy_failed_msg(err))),
                    ..m
                },
                BackupActionModel::Stop,
            ),
        },
        _ => (m, BackupActionModel::Stop),
    }
}

/// A destination without an accepted extension stops the machine before any
/// copy: the step answers with the extension error and no state of the
/// machine ever requests a file copy afterwards.
pub proof fn lemma_backup_bad_extension_no_copy(m: BackupModel, e: BackupEventModel)
    requires
        m.state is ProbingSource,
        e == BackupEventModel::SourceExists(true),
        !valid_backup_extension(m.destination),
    ensures
        backup_step_spec(m, e).0.state == BackupStateModel::Done(
            Err(backup_bad_extension_msg()),
        ),
        backup_step_spec(m, e).1 == BackupActionModel::Stop,
        forall|e2: BackupEventModel| !backup_event_fits(backup_step_spec(m, e).0.state, e2),
{
}

/// The only transition that requests the backup copy is the one out of
/// `PreparingDir`; in particular no copy is ever requested while the source
/// probe or the extension check can still fail.
pub proof fn lemma_backup_copy_only_after_checks(m: BackupModel, e: BackupEventModel)
    requires
        backup_step_spec(m, e).1 matches BackupActionModel::CopyFile(from, to),
    ensures
        m.state is PreparingDir,
        backup_step_spec(m, e).1 == BackupActionModel::CopyFile(m.source, m.destination),
{
}

/// The backup writer.
pub struct BackupMachine {
    pub source: String,
    pub destination: String,
    pub state: BackupState,
}

pub enum BackupState {
    ProbingSource,
    PreparingDir,
    Copying,
    Done(Result<String, String>),
}

pub enum BackupEvent {
    SourceExists(bool),
    DirPrepared(Result<(), String>),
    CopyDone(Result<(), String>),
}

pub enum BackupAction {
    ProbeSource,
    EnsureParentDir,
    CopyFile(String, String),
    Stop,
}

impl View for BackupState {
    type V = BackupStateModel;

    open spec fn view(&self) -> BackupStateModel {
        match self {
            BackupState::ProbingSource => BackupStateModel::ProbingSource,
            BackupState::PreparingDir => BackupStateModel::PreparingDir,
            BackupState::Copying => BackupStateModel::Copying,
            BackupState::Done(r) => BackupStateModel::Done(
                match r {
                    Ok(p) => Ok(p@),
                    Err(m) => Err(m@),
                },
            ),
        }
    }
}

impl View for BackupMachine {
    type V = BackupModel;

    open spec fn view(&self) -> BackupModel {
        BackupModel { source: self.source@, destination: self.destination@, state: self.state@ }
    }
}

impl View for BackupEvent {
    type V = BackupEventModel;

    open spec fn view(&self) -> BackupEventModel {
        match self {
            BackupEvent::SourceExists(b) => BackupEventModel::SourceExists(*b),
            BackupEvent::DirPrepared(r) => BackupEventModel::DirPrepared(
                match r {
                    Ok(_) => Ok(()),
                    Err(m) => Err(m@),
                },
            ),
            BackupEvent::CopyDone(r) => BackupEventModel::CopyDone(
                match r {
                    Ok(_) => Ok(()),
                    Err(m) => Err(m@),
                },
            ),
        }
    }
}

impl View for BackupAction {
    type V = BackupActionModel;

    open spec fn view(&self) -> BackupActionModel {
        match self {
            BackupAction::ProbeSource => BackupActionModel::ProbeSource,
            BackupAction::EnsureParentDir => BackupActionModel::EnsureParentDir,
            BackupAction::CopyFile(a, b) => BackupActionModel::CopyFile(a@, b@),
            BackupAction::Stop => BackupActionModel::Stop,
        }
    }
}

impl BackupMachine {
    /// Starts a backup of `source` into `destination`; the first duty of the
    /// caller is to probe whether the source store exists.
    pub fn start(source: String, destination: String) -> (r: (BackupMachine, BackupAction))
        ensures
            r.0@.source == source@,
            r.0@.destination == destination@,
            r.0@.state == BackupStateModel::ProbingSource,
            r.1@ == BackupActionModel::ProbeSource,
    {
        (
            BackupMachine { source, destination, state: BackupState::ProbingSource },
            BackupAction::ProbeSource,
        )
    }

    /// Feeds one outcome back and learns the next duty; the step is exactly
    /// the transition relation.
    pub fn step(&mut self, event: &BackupEvent) -> (a: BackupAction)
        requires
            backup_event_fits(old(self)@.state, event@),
        ensures
            (final(self)@, a@) == backup_step_spec(old(self)@, event@),
    {
        match (&self.state, event) {
            (BackupState::ProbingSource, BackupEvent::SourceExists(ex)) => {
                if !*ex {
                    self.state = BackupState::Done(
                        Err(String::from_str("Banco local não encontrado para backup.")),
                    );
                    BackupAction::Stop
                } else if !has_valid_backup_extension(self.destination.as_str()) {
                    self.state = BackupState::Done(
                        Err(
                            String::from_str(
                                "Arquivo de backup inválido. Use extensão .db, .sqlite ou .sqlite3.",
                            ),
                        ),
                    );
                    BackupAction::Stop
                } else {
                    self.state = BackupState::PreparingDir;
                    BackupAction::EnsureParentDir
                }
            },
            (BackupState::PreparingDir, BackupEvent::DirPrepared(res)) => match res {
                Ok(_) => {
                    self.state = BackupState::Copying;
                    BackupAction::CopyFile(self.source.clone(), self.destination.clone())
                },
                Err(err) => {
                    let mut m = String::from_str("Falha ao preparar diretório de backup: ");
                    m.append(err.as_str());
                    self.state = BackupState::Done(Err(m));
                    BackupAction::Stop
                },
            },
            (BackupState::Copying, BackupEvent::CopyDone(res)) => match res {
                Ok(_) => {
                    self.state = BackupState::Done(Ok(self.destination.clone()));
                    BackupAction::Stop
                },
                Err(err) => {
                    let mut m = String::from_str("Falha ao criar backup: ");
                    m.append(err.as_str());
                    self.state = BackupState::Done(Err(m));
                    BackupAction::Stop
                },
            },
            _ => {
                proof {
                    assert(false);
                }
                BackupAction::Stop
            },
        }
    }
}

} // verus!
