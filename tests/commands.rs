use redisql::{
    create_argument, create_statement, error_response, exec_response, execute_statement,
    ok_response, ColumnValue, CommandError, Cursor, Entity, FinishOutcome, HostCommand, KeyState,
    Registry, Reply, Response, SQLite3Error,
};

const OK: i32 = 0;
const ROW: i32 = 100;
const DONE: i32 = 101;

/// Creates a database as the host command does: decide, open, bind.
fn create(
    reg: &mut Registry,
    k: &String,
    other: bool,
    status: i32,
    handle: Option<u64>,
) -> Result<u64, CommandError> {
    reg.prepare_create(k, other)?;
    reg.create_database(k.clone(), status, handle).map_err(|f| f.error)
}

fn key(s: &str) -> String {
    s.to_string()
}

/// Runs the job handed out for `k` as an engine would: the statement compiles,
/// its first step reports `first` with `tags`, and the rows come from `rows`.
fn run(
    reg: &mut Registry,
    k: &String,
    first: i32,
    tags: Vec<i32>,
    rows: Vec<Vec<ColumnValue>>,
) -> Response {
    let job = reg.start_next(k).expect("a query waits");
    let stmt = create_statement(job.handle, OK, Some(77)).unwrap();
    assert_eq!(stmt.connection, job.handle);
    let outcome = match execute_statement(stmt, first, tags) {
        Err(e) => Err(CommandError::Engine { error: e }),
        Ok(mut cursor) => {
            let mut out = Vec::new();
            let mut pending = rows.into_iter();
            while cursor.has_row() {
                let cols = pending.next().unwrap_or_default();
                let next = if pending.len() > 0 { ROW } else { DONE };
                out.push(cursor.next(cols, next).unwrap());
            }
            Ok(out)
        }
    };
    assert!(matches!(reg.finish(k, job.request.ticket), FinishOutcome::Finished));
    exec_response(&outcome)
}

#[test]
fn sql_session_example() {
    let mut reg = Registry::new();
    let db1 = key("db1");
    assert_eq!(create(&mut reg, &db1, false, OK, Some(1)), Ok(0));
    assert_eq!(ok_response(), Response::Status { text: "OK".to_string() });

    reg.execute(&db1, false, "CREATE TABLE t(a INT, b TEXT)".to_string()).unwrap();
    assert_eq!(run(&mut reg, &db1, DONE, vec![], vec![vec![]]), Response::Status { text: "DONE".to_string() });

    reg.execute(&db1, false, "INSERT INTO t VALUES (1,'x')".to_string()).unwrap();
    assert_eq!(run(&mut reg, &db1, DONE, vec![], vec![vec![]]), Response::Status { text: "DONE".to_string() });

    reg.execute(&db1, false, "SELECT * FROM t".to_string()).unwrap();
    let rows = vec![vec![
        ColumnValue::Integer { value: 1 },
        ColumnValue::Bytes { bytes: b"x".to_vec() },
    ]];
    assert_eq!(
        run(&mut reg, &db1, ROW, vec![1, 3], rows),
        Response::Rows {
            rows: vec![vec![Reply::Integer { value: 1 }, Reply::Bulk { bytes: b"x".to_vec() }]]
        }
    );

    assert_eq!(reg.delete_database(&db1, false).unwrap().handle, 1);
    assert_eq!(
        reg.execute(&db1, false, "SELECT * FROM t".to_string()),
        Err(CommandError::KeyEmpty)
    );
    assert_eq!(
        error_response(CommandError::KeyEmpty),
        Response::Error { text: "ERR - Error the key is empty".to_string() }
    );
}

#[test]
fn absent_key_refuses_execute_and_delete() {
    let mut reg = Registry::new();
    let k = key("nothing");
    assert_eq!(reg.key_state(&k, false), KeyState::Absent);
    assert_eq!(reg.execute(&k, false, "SELECT 1".to_string()), Err(CommandError::KeyEmpty));
    assert_eq!(reg.delete_database(&k, false).unwrap_err(), CommandError::KeyEmpty);
    assert_eq!(create(&mut reg, &k, false, OK, Some(9)), Ok(0));
    assert_eq!(reg.key_state(&k, false), KeyState::Bound);
}

#[test]
fn bound_key_refuses_create() {
    let mut reg = Registry::new();
    let k = key("db");
    create(&mut reg, &k, false, OK, Some(3)).unwrap();
    assert_eq!(reg.prepare_create(&k, false), Err(CommandError::KeyNotEmpty));
    assert_eq!(reg.prepare_create(&k, true), Err(CommandError::KeyNotEmpty));
    assert_eq!(reg.delete_database(&k, false).unwrap().handle, 3);
}

#[test]
fn key_of_another_type_is_wrong_type() {
    let mut reg = Registry::new();
    let k = key("a-list");
    assert_eq!(reg.key_state(&k, true), KeyState::WrongType);
    assert_eq!(create(&mut reg, &k, true, OK, Some(1)), Err(CommandError::WrongType));
    assert_eq!(reg.execute(&k, true, "SELECT 1".to_string()), Err(CommandError::WrongType));
    assert_eq!(reg.delete_database(&k, true).unwrap_err(), CommandError::WrongType);
}

#[test]
fn failed_open_leaves_key_absent() {
    let mut reg = Registry::new();
    let k = key("db");
    assert_eq!(
        create(&mut reg, &k, false, 14, None),
        Err(CommandError::Engine { error: SQLite3Error::OpenError })
    );
    assert_eq!(reg.key_state(&k, false), KeyState::Absent);
    assert_eq!(
        create(&mut reg, &k, false, OK, None),
        Err(CommandError::Engine { error: SQLite3Error::OpenError })
    );
    assert_eq!(reg.key_state(&k, false), KeyState::Absent);
}

#[test]
fn create_then_delete_releases_once() {
    let mut reg = Registry::new();
    let k = key("db");
    let serial = create(&mut reg, &k, false, OK, Some(42)).unwrap();
    assert_eq!(serial, 0);
    let conn = reg.delete_database(&k, false).unwrap();
    assert_eq!(conn.handle, 42);
    assert_eq!(reg.key_state(&k, false), KeyState::Absent);
    assert!(reg.free_db(&k).is_none());
    assert_eq!(reg.delete_database(&k, false).unwrap_err(), CommandError::KeyEmpty);
    // a new database under the same key gets a new serial
    assert_eq!(create(&mut reg, &k, false, OK, Some(42)), Ok(1));
    assert_eq!(reg.free_db(&k).unwrap().handle, 42);
}

#[test]
fn delete_is_refused_while_a_query_runs() {
    let mut reg = Registry::new();
    let k = key("db");
    create(&mut reg, &k, false, OK, Some(5)).unwrap();
    reg.execute(&k, false, "SELECT 1".to_string()).unwrap();
    let job = reg.start_next(&k).unwrap();
    assert_eq!(reg.delete_database(&k, false).unwrap_err(), CommandError::KeyBusy);
    assert!(matches!(reg.finish(&k, job.request.ticket), FinishOutcome::Finished));
    assert_eq!(reg.delete_database(&k, false).unwrap().handle, 5);
}

#[test]
fn queries_run_one_at_a_time_in_submission_order() {
    let mut reg = Registry::new();
    let k = key("db");
    create(&mut reg, &k, false, OK, Some(8)).unwrap();
    assert_eq!(reg.execute(&k, false, "q0".to_string()), Ok(0));
    assert_eq!(reg.execute(&k, false, "q1".to_string()), Ok(1));
    assert_eq!(reg.execute(&k, false, "q2".to_string()), Ok(2));

    let first = reg.start_next(&k).unwrap();
    assert_eq!((first.request.ticket, first.request.query.as_str(), first.handle), (0, "q0", 8));
    assert!(reg.start_next(&k).is_none());
    assert!(matches!(reg.finish(&k, 1), FinishOutcome::NotRunning));
    assert!(matches!(reg.finish(&k, 0), FinishOutcome::Finished));
    assert!(matches!(reg.finish(&k, 0), FinishOutcome::NotRunning));

    let second = reg.start_next(&k).unwrap();
    assert_eq!((second.request.ticket, second.request.query.as_str()), (1, "q1"));
    assert!(matches!(reg.finish(&k, 1), FinishOutcome::Finished));
    let third = reg.start_next(&k).unwrap();
    assert_eq!((third.request.ticket, third.request.query.as_str()), (2, "q2"));
    assert!(matches!(reg.finish(&k, 2), FinishOutcome::Finished));
    assert!(reg.start_next(&k).is_none());
}

#[test]
fn different_keys_do_not_block_each_other() {
    let mut reg = Registry::new();
    let a = key("a");
    let b = key("b");
    create(&mut reg, &a, false, OK, Some(1)).unwrap();
    create(&mut reg, &b, false, OK, Some(2)).unwrap();
    reg.execute(&a, false, "qa".to_string()).unwrap();
    reg.execute(&b, false, "qb".to_string()).unwrap();
    let ja = reg.start_next(&a).unwrap();
    let jb = reg.start_next(&b).unwrap();
    assert_eq!((ja.handle, jb.handle), (1, 2));
    assert_eq!(jb.request.query, "qb");
    assert!(matches!(reg.finish(&b, jb.request.ticket), FinishOutcome::Finished));
    assert_eq!(reg.delete_database(&b, false).unwrap().handle, 2);
    assert_eq!(reg.delete_database(&a, false).unwrap_err(), CommandError::KeyBusy);
}

#[test]
fn arity_is_checked() {
    let argv = vec!["REDISQL.CREATE_DB".to_string(), "db1".to_string()];
    assert_eq!(create_argument(argv.clone(), HostCommand::CreateDb), Ok(argv.clone()));
    assert_eq!(create_argument(argv.clone(), HostCommand::DeleteDb), Ok(argv.clone()));
    assert_eq!(
        create_argument(argv.clone(), HostCommand::Exec),
        Err(CommandError::WrongArity { command: HostCommand::Exec })
    );
    assert_eq!(
        create_argument(vec!["REDISQL.CREATE_DB".to_string()], HostCommand::CreateDb),
        Err(CommandError::WrongArity { command: HostCommand::CreateDb })
    );
}

#[test]
fn wrong_argument_count_replies() {
    assert_eq!(
        error_response(CommandError::WrongArity { command: HostCommand::Exec }),
        Response::Error { text: "Wrong number of arguments, it accepts 3".to_string() }
    );
    assert_eq!(
        error_response(CommandError::WrongArity { command: HostCommand::CreateDb }),
        Response::Error { text: "Wrong number of arguments, it accepts 2".to_string() }
    );
    assert_eq!(
        error_response(CommandError::WrongArity { command: HostCommand::DeleteDb }),
        Response::WrongArity
    );
}

#[test]
fn failed_open_hands_back_the_instance() {
    let mut reg = Registry::new();
    let k = key("db");
    assert_eq!(reg.prepare_create(&k, false), Ok(()));
    let failure = reg.create_database(k.clone(), 14, Some(5)).unwrap_err();
    assert_eq!(failure.error, CommandError::Engine { error: SQLite3Error::OpenError });
    assert_eq!(failure.leftover.unwrap().handle, 5);
    let failure = reg.create_database(k.clone(), 14, None).unwrap_err();
    assert!(failure.leftover.is_none());
    assert_eq!(reg.key_state(&k, false), KeyState::Absent);
}

#[test]
fn host_removal_during_a_query_releases_when_it_finishes() {
    let mut reg = Registry::new();
    let k = key("db");
    create(&mut reg, &k, false, OK, Some(6)).unwrap();
    reg.execute(&k, false, "SELECT 1".to_string()).unwrap();
    let job = reg.start_next(&k).unwrap();
    assert!(reg.free_db(&k).is_none());
    assert_eq!(reg.key_state(&k, false), KeyState::Bound);
    match reg.finish(&k, job.request.ticket) {
        FinishOutcome::Released { connection } => assert_eq!(connection.handle, 6),
        other => panic!("expected a release, got {:?}", other),
    }
    assert_eq!(reg.key_state(&k, false), KeyState::Absent);
    assert!(reg.free_db(&k).is_none());
}

#[test]
fn error_replies_name_their_category() {
    let cases = [
        (CommandError::KeyNotEmpty, "ERR - Error the key is not empty"),
        (CommandError::WrongType, "WRONGTYPE Operation against a key holding the wrong kind of value"),
        (CommandError::KeyBusy, "ERR - Error a query is running on the key"),
        (CommandError::Engine { error: SQLite3Error::OpenError }, "ERR - Error opening the in memory database"),
        (CommandError::Engine { error: SQLite3Error::StatementError }, "ERR - Error, was impossible to create the statement"),
        (CommandError::Engine { error: SQLite3Error::ExecuteError }, "ERR - Error, the statement to executed gave some problem"),
        (CommandError::Engine { error: SQLite3Error::SharedConnection }, "ERR - Error the connection is in use"),
    ];
    for (e, text) in cases {
        assert_eq!(e.message(), text);
        assert_eq!(exec_response(&Err(e)), Response::Error { text: text.to_string() });
    }
}

#[test]
fn acknowledgements_reply_with_status() {
    assert_eq!(
        exec_response(&Ok(vec![vec![Entity::OK]])),
        Response::Status { text: "OK".to_string() }
    );
    assert_eq!(
        exec_response(&Ok(vec![vec![Entity::DONE]])),
        Response::Status { text: "DONE".to_string() }
    );
    assert_eq!(exec_response(&Ok(vec![])), Response::Rows { rows: vec![] });
    assert_eq!(
        exec_response(&Ok(vec![vec![Entity::Null], vec![Entity::Integer { value: -3 }]])),
        Response::Rows { rows: vec![vec![Reply::Null], vec![Reply::Integer { value: -3 }]] }
    );
    let mut c = Cursor::OKCursor;
    assert_eq!(c.next(vec![], DONE), Some(vec![Entity::OK]));
    assert_eq!(c.next(vec![], DONE), None);
}
