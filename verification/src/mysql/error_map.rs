//! Backend error messages as the errors of the MySQL protocol engine.
use opensrv_mysql::ErrorKind;
use vstd::prelude::*;

verus! {

/// The error kinds of `opensrv-mysql`.
#[verifier::external_type_specification]
#[verifier::external_body]
pub struct ExErrorKind(ErrorKind);

/// The error kind with a MySQL error code.
pub uninterp spec fn kind_of(code: u16) -> ErrorKind;

/// "Access denied".
pub const ER_ACCESS_DENIED_ERROR: u16 = 1045;

/// "Unknown prepared statement handler".
pub const ER_UNKNOWN_STMT_HANDLER: u16 = 1243;

/// "Can't create more than max_prepared_stmt_count statements".
pub const ER_MAX_PREPARED_STMT_COUNT_REACHED: u16 = 1461;

/// The codes that this frontend reports.
pub open spec fn is_reported(code: u16) -> bool {
    ||| code == crate::session::error_map::ER_DUP_ENTRY
    ||| code == crate::session::error_map::ER_UNKNOWN_ERROR
    ||| code == crate::session::error_map::ER_NO_SUCH_TABLE
    ||| code == crate::session::error_map::ER_LOCK_WAIT_TIMEOUT
    ||| code == crate::session::error_map::ER_OPTION_PREVENTS_STATEMENT
    ||| code == crate::session::error_map::ER_NO_REFERENCED_ROW_2
    ||| code == crate::session::ER_PARSE_ERROR
    ||| code == ER_ACCESS_DENIED_ERROR
    ||| code == ER_UNKNOWN_STMT_HANDLER
    ||| code == ER_MAX_PREPARED_STMT_COUNT_REACHED
}

/// `ErrorKind::from` gives the error kind with a MySQL error code. It panics
/// on a code that has none; the codes that this frontend reports all have
/// one.
#[verifier::external_body]
pub(crate) fn error_kind(code: u16) -> (r: ErrorKind)
    requires
        is_reported(code),
    ensures
        r == kind_of(code),
{
    ErrorKind::from(code)
}

/// An error as the protocol engine takes it.
#[derive(Debug)]
pub struct MysqlError {
    pub code: ErrorKind,
    /// The SQLSTATE that is meant. On the wire it follows from the kind.
    pub sqlstate: [u8; 5],
    pub message: String,
}

/// The error of a backend's message.
pub fn classify(err_msg: &str) -> (r: MysqlError)
    ensures
        r.code == kind_of(crate::session::error_map::code_of(err_msg@)),
        r.sqlstate@ == crate::session::error_map::state_of(
            crate::session::error_map::code_of(err_msg@),
        ),
        r.message@ == crate::session::error_map::message_of(err_msg@),
{
    let mapped = crate::session::error_map::classify(err_msg);
    MysqlError {
        code: error_kind(mapped.code),
        sqlstate: mapped.sqlstate,
        message: mapped.message,
    }
}

} // verus!
