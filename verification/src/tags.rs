//! The shared error-tagging scheme: every user-facing failure is a single
//! string, optionally prefixed with a bracketed uppercase tag such as
//! `[RESTORE_INVALID_SQLITE] message`.

use vstd::prelude::*;

verus! {

#[derive(Clone, Copy, Debug, PartialEq, Eq, Structural)]
pub enum ErrorTag {
    RestoreInvalidSqlite,
    RestoreFileNotFound,
    RestoreInvalidExtension,
    RestorePreBackupFailed,
    RestoreCopyFailed,
    RestoreRollbackFailed,
    ImportEmptyCsv,
    ImportInvalidDate,
    ImportParseFailed,
    ImportDatabaseFailed,
}

/// The tag text, as a sequence of characters.
pub open spec fn tag_seq(tag: ErrorTag) -> Seq<char> {
    match tag {
        ErrorTag::RestoreInvalidSqlite => "RESTORE_INVALID_SQLITE"@,
        ErrorTag::RestoreFileNotFound => "RESTORE_FILE_NOT_FOUND"@,
        ErrorTag::RestoreInvalidExtension => "RESTORE_INVALID_EXTENSION"@,
        ErrorTag::RestorePreBackupFailed => "RESTORE_PRE_BACKUP_FAILED"@,
        ErrorTag::RestoreCopyFailed => "RESTORE_COPY_FAILED"@,
        ErrorTag::RestoreRollbackFailed => "RESTORE_ROLLBACK_FAILED"@,
        ErrorTag::ImportEmptyCsv => "IMPORT_EMPTY_CSV"@,
        ErrorTag::ImportInvalidDate => "IMPORT_INVALID_DATE"@,
        ErrorTag::ImportParseFailed => "IMPORT_PARSE_FAILED"@,
        ErrorTag::ImportDatabaseFailed => "IMPORT_DATABASE_FAILED"@,
    }
}

impl ErrorTag {
    pub fn as_str(self) -> (r: &'static str)
        ensures
            r@ == tag_seq(self),
    {
        match self {
            ErrorTag::RestoreInvalidSqlite => "RESTORE_INVALID_SQLITE",
            ErrorTag::RestoreFileNotFound => "RESTORE_FILE_NOT_FOUND",
            ErrorTag::RestoreInvalidExtension => "RESTORE_INVALID_EXTENSION",
            ErrorTag::RestorePreBackupFailed => "RESTORE_PRE_BACKUP_FAILED",
            ErrorTag::RestoreCopyFailed => "RESTORE_COPY_FAILED",
            ErrorTag::RestoreRollbackFailed => "RESTORE_ROLLBACK_FAILED",
            ErrorTag::ImportEmptyCsv => "IMPORT_EMPTY_CSV",
            ErrorTag::ImportInvalidDate => "IMPORT_INVALID_DATE",
            ErrorTag::ImportParseFailed => "IMPORT_PARSE_FAILED",
            ErrorTag::ImportDatabaseFailed => "IMPORT_DATABASE_FAILED",
        }
    }
}

/// `[TAG] message`.
pub open spec fn tagged_seq(tag: ErrorTag, message: Seq<char>) -> Seq<char> {
    "["@ + tag_seq(tag) + "] "@ + message
}

pub fn tagged_error(tag: ErrorTag, message: &str) -> (r: String)
    ensures
        r@ == tagged_seq(tag, message@),
{
    let mut r = String::from_str("[");
    r.append(tag.as_str());
    r.append("] ");
    r.append(message);
    r
}

} // verus!
