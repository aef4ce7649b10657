use vstd::prelude::*;

use crate::engine::SQLite3Error;
use crate::entity::{row_view, Entity, EntityView};
use crate::reply::{replies_view, row_replies, row_reply, Reply, ReplyView};

verus! {

/// The commands this library offers to the host.
#[derive(Clone, Copy, Debug, PartialEq, Eq, Structural)]
pub enum HostCommand {
    CreateDb,
    DeleteDb,
    Exec,
}

/// How many strings a command's argument vector holds, its name included.
pub open spec fn arity(c: HostCommand) -> usize {
    match c {
        HostCommand::CreateDb => 2,
        HostCommand::DeleteDb => 2,
        HostCommand::Exec => 3,
    }
}

/// Why a host command failed; each becomes one error reply.
#[derive(Clone, Copy, Debug, PartialEq, Eq, Structural)]
pub enum CommandError {
    /// The command was called with the wrong number of arguments.
    WrongArity { command: HostCommand },
    /// The key holds no database.
    KeyEmpty,
    /// The key already holds a database.
    KeyNotEmpty,
    /// The key holds a value of another type.
    WrongType,
    /// A query is running against the key's database.
    KeyBusy,
    /// The engine failed.
    Engine { error: SQLite3Error },
}

/// The text of the error reply for `e`; its first word names the category.
pub open spec fn error_text(e: CommandError) -> Seq<char> {
    match e {
        CommandError::WrongArity { command } => match command {
            HostCommand::CreateDb => "Wrong number of arguments, it accepts 2"@,
            HostCommand::Exec => "Wrong number of arguments, it accepts 3"@,
            HostCommand::DeleteDb => "ERR wrong number of arguments"@,
        },
        CommandError::KeyEmpty => "ERR - Error the key is empty"@,
        CommandError::KeyNotEmpty => "ERR - Error the key is not empty"@,
        CommandError::WrongType => "WRONGTYPE Operation against a key holding the wrong kind of value"@,
        CommandError::KeyBusy => "ERR - Error a query is running on the key"@,
        CommandError::Engine { error } => match error {
            SQLite3Error::OpenError => "ERR - Error opening the in memory database"@,
            SQLite3Error::StatementError => "ERR - Error, was impossible to create the statement"@,
            SQLite3Error::ExecuteError => "ERR - Error, the statement to executed gave some problem"@,
            SQLite3Error::SharedConnection => "ERR - Error the connection is in use"@,
        },
    }
}

impl CommandError {
    /// The text of the error reply for this error.
    pub fn message(&self) -> (r: String)
        ensures
            r@ == error_text(*self),
    {
        match self {
            CommandError::WrongArity { command } => match command {
                HostCommand::CreateDb => "Wrong number of arguments, it accepts 2".to_owned(),
                HostCommand::Exec => "Wrong number of arguments, it accepts 3".to_owned(),
                HostCommand::DeleteDb => "ERR wrong number of arguments".to_owned(),
            },
            CommandError::KeyEmpty => "ERR - Error the key is empty".to_owned(),
            CommandError::KeyNotEmpty => "ERR - Error the key is not empty".to_owned(),
            CommandError::WrongType => "WRONGTYPE Operation against a key holding the wrong kind of value".to_owned(),
            CommandError::KeyBusy => "ERR - Error a query is running on the key".to_owned(),
            CommandError::Engine { error } => match error {
                SQLite3Error::OpenError => "ERR - Error opening the in memory database".to_owned(),
                SQLite3Error::StatementError => "ERR - Error, was impossible to create the statement".to_owned(),
                SQLite3Error::ExecuteError => "ERR - Error, the statement to executed gave some problem".to_owned(),
                SQLite3Error::SharedConnection => "ERR - Error the connection is in use".to_owned(),
            },
        }
    }
}

/// The whole reply to one host command.
#[derive(Clone, Debug, PartialEq)]
pub enum Response {
    /// A short status string.
    Status { text: String },
    /// A single error reply.
    Error { text: String },
    /// An array with one array per row.
    Rows { rows: Vec<Vec<Reply>> },
    /// The host's own reply to a command called with the wrong number of
    /// arguments.
    WrongArity,
}

/// The mathematical value of a [`Response`].
pub ghost enum ResponseView {
    Status(Seq<char>),
    Error(Seq<char>),
    Rows(Seq<Seq<ReplyView>>),
    WrongArity,
}

impl View for Response {
    type V = ResponseView;

    open spec fn view(&self) -> ResponseView {
        match self {
            Response::Status { text } => ResponseView::Status(text@),
            Response::Error { text } => ResponseView::Error(text@),
            Response::Rows { rows } => ResponseView::Rows(
                rows@.map_values(|r: Vec<Reply>| replies_view(r@)),
            ),
            Response::WrongArity => ResponseView::WrongArity,
        }
    }
}

/// The values of a sequence of rows.
pub open spec fn rows_view(rows: Seq<Vec<Entity>>) -> Seq<Seq<EntityView>> {
    rows.map_values(|r: Vec<Entity>| row_view(r@))
}

/// The reply to a query whose drained rows are `rows`: the single row of an
/// acknowledgement becomes its status, anything else an array of row arrays.
pub open spec fn rows_response(rows: Seq<Seq<EntityView>>) -> ResponseView {
    if rows == seq![seq![EntityView::OK]] {
        ResponseView::Status("OK"@)
    } else if rows == seq![seq![EntityView::DONE]] {
        ResponseView::Status("DONE"@)
    } else {
        ResponseView::Rows(rows.map_values(|r: Seq<EntityView>| row_replies(r)))
    }
}

/// The reply to a query: its rows, or one error reply and nothing else.
pub open spec fn query_response(result: Result<Seq<Seq<EntityView>>, CommandError>) -> ResponseView {
    match result {
        Ok(rows) => rows_response(rows),
        Err(e) => failure_response(e),
    }
}

/// The view of a query's outcome.
pub open spec fn outcome_view(result: Result<Vec<Vec<Entity>>, CommandError>) -> Result<
    Seq<Seq<EntityView>>,
    CommandError,
> {
    match result {
        Ok(rows) => Ok(rows_view(rows@)),
        Err(e) => Err(e),
    }
}

/// Checks the argument count of a host command: `argv` holds the command's
/// name and its arguments.
pub fn create_argument(argv: Vec<String>, command: HostCommand) -> (r: Result<
    Vec<String>,
    CommandError,
>)
    ensures
        r is Ok <==> argv@.len() == arity(command),
        r is Ok ==> r->Ok_0@ == argv@,
        r is Err ==> r->Err_0 == (CommandError::WrongArity { command }),
{
    let expected: usize = match command {
        HostCommand::CreateDb => 2,
        HostCommand::DeleteDb => 2,
        HostCommand::Exec => 3,
    };
    if argv.len() == expected {
        Ok(argv)
    } else {
        Err(CommandError::WrongArity { command })
    }
}

/// The reply to a failed command: the host's own wrong-arity reply for a
/// deletion called with the wrong number of arguments, else an error reply
/// with the error's text.
pub open spec fn failure_response(e: CommandError) -> ResponseView {
    if e == (CommandError::WrongArity { command: HostCommand::DeleteDb }) {
        ResponseView::WrongArity
    } else {
        ResponseView::Error(error_text(e))
    }
}

/// The status reply `OK`, given when a database was created or deleted.
pub fn ok_response() -> (r: Response)
    ensures
        r@ == ResponseView::Status("OK"@),
{
    Response::Status { text: "OK".to_owned() }
}

/// The reply to a command that failed with `e`.
pub fn error_response(e: CommandError) -> (r: Response)
    ensures
        r@ == failure_response(e),
{
    match e {
        CommandError::WrongArity { command: HostCommand::DeleteDb } => Response::WrongArity,
        _ => Response::Error { text: e.message() },
    }
}

fn single_entity(rows: &Vec<Vec<Entity>>) -> (r: Option<&Entity>)
    ensures
        match r {
            Some(e) => rows@.len() == 1 && rows@[0]@.len() == 1 && *e == rows@[0]@[0],
            None => !(rows@.len() == 1 && rows@[0]@.len() == 1),
        },
{
    if rows.len() == 1 && rows[0].len() == 1 {
        Some(&rows[0][0])
    } else {
        None
    }
}

/// The reply to a query: its rows, or one error reply and nothing else.
pub fn exec_response(result: &Result<Vec<Vec<Entity>>, CommandError>) -> (r: Response)
    ensures
        r@ == query_response(outcome_view(*result)),
{
    match result {
        Err(e) => error_response(*e),
        Ok(rows) => {
            let ghost rv = rows_view(rows@);
            match single_entity(rows) {
                Some(Entity::OK) => {
                    assert(rv =~= seq![seq![EntityView::OK]]) by {
                        assert(rv[0] =~= seq![EntityView::OK]);
                    }
                    return Response::Status { text: "OK".to_owned() };
                },
                Some(Entity::DONE) => {
                    assert(rv =~= seq![seq![EntityView::DONE]]) by {
                        assert(rv[0] =~= seq![EntityView::DONE]);
                    }
                    assert(rv != seq![seq![EntityView::OK]]) by {
                        assert(seq![seq![EntityView::OK]][0][0] == EntityView::OK);
                    }
                    return Response::Status { text: "DONE".to_owned() };
                },
                Some(e) => {
                    assert(rv[0][0] == e@);
                },
                None => {
                    assert(rv.len() != 1 || rv[0].len() != 1);
                },
            }
            let mut out: Vec<Vec<Reply>> = Vec::new();
            let mut i: usize = 0;
            while i < rows.len()
                invariant
                    0 <= i <= rows@.len(),
                    out@.len() == i,
                    forall|j: int|
                        0 <= j < i ==> replies_view((#[trigger] out@[j])@) == row_replies(
                            row_view(rows@[j]@),
                        ),
                decreases rows@.len() - i,
            {
                out.push(row_reply(&rows[i]));
                i += 1;
            }
            let r = Response::Rows { rows: out };
            assert(r@ == ResponseView::Rows(rv.map_values(|x: Seq<EntityView>| row_replies(x))))
                by {
                assert(out@.map_values(|x: Vec<Reply>| replies_view(x@)) =~= rv.map_values(
                    |x: Seq<EntityView>| row_replies(x),
                ));
            }
            r
        },
    }
}

} // verus!
