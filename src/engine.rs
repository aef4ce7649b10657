use vstd::prelude::*;

verus! {

/// Result code: the call succeeded.
pub const SQLITE_OK: i32 = 0;

/// Step result: a row of results is ready to be read.
pub const SQLITE_ROW: i32 = 100;

/// Step result: the statement has run to completion.
pub const SQLITE_DONE: i32 = 101;

/// Column type tag: 64-bit signed integer.
pub const SQLITE_INTEGER: i32 = 1;

/// Column type tag: 64-bit IEEE floating point number.
pub const SQLITE_FLOAT: i32 = 2;

/// Column type tag: text string.
pub const SQLITE_TEXT: i32 = 3;

/// Column type tag: binary large object.
pub const SQLITE_BLOB: i32 = 4;

/// Column type tag: SQL NULL.
pub const SQLITE_NULL: i32 = 5;

/// Failures reported while driving the embedded engine.
#[derive(Clone, Copy, Debug, PartialEq, Eq, Structural)]
pub enum SQLite3Error {
    /// The native instance could not be created.
    OpenError,
    /// The query text could not be compiled.
    StatementError,
    /// A step failed after successful compilation.
    ExecuteError,
    /// The connection is currently held by another operation.
    SharedConnection,
}

/// An open native database instance, identified by the handle the engine returned.
///
/// The type is neither `Clone` nor `Copy`: a connection has a single owner.
#[derive(Debug)]
pub struct RawConnection {
    pub handle: u64,
}

/// A compiled statement, identified by its native handle, together with the
/// handle of the connection it was compiled against.
#[derive(Debug)]
pub struct Statement {
    pub handle: u64,
    pub connection: u64,
}

/// The record a host key's payload holds: the connection of its database.
#[allow(non_camel_case_types)]
#[derive(Debug)]
pub struct db_connection {
    pub connection: RawConnection,
}

/// The instance that opening a database produced, when the engine answered
/// `status` and wrote `handle`.
pub open spec fn opened_handle(status: i32, handle: Option<u64>) -> Option<u64> {
    if status == SQLITE_OK {
        handle
    } else {
        None
    }
}

/// Decides the outcome of opening a database: the engine answered `status`,
/// and wrote `handle` (`None` when it produced no instance).
pub fn open_connection(status: i32, handle: Option<u64>) -> (r: Result<RawConnection, SQLite3Error>)
    ensures
        match r {
            Ok(c) => opened_handle(status, handle) == Some(c.handle),
            Err(e) => e == SQLite3Error::OpenError && opened_handle(status, handle) is None,
        },
{
    if status == SQLITE_OK {
        match handle {
            Some(h) => Ok(RawConnection { handle: h }),
            None => Err(SQLite3Error::OpenError),
        }
    } else {
        Err(SQLite3Error::OpenError)
    }
}

/// Decides the outcome of compiling a query against the connection whose
/// handle is `connection`: the engine answered `status` and produced the
/// compiled form `handle` (`None` when it was null).
pub fn create_statement(connection: u64, status: i32, handle: Option<u64>) -> (r: Result<
    Statement,
    SQLite3Error,
>)
    ensures
        match r {
            Ok(s) => status == SQLITE_OK && handle == Some(s.handle) && s.connection
                == connection,
            Err(e) => e == SQLite3Error::StatementError && !(status == SQLITE_OK
                && handle is Some),
        },
{
    if status == SQLITE_OK {
        match handle {
            Some(h) => Ok(Statement { handle: h, connection }),
            None => Err(SQLite3Error::StatementError),
        }
    } else {
        Err(SQLite3Error::StatementError)
    }
}

} // verus!
