use redisql::{
    create_statement, decode_reply, execute_statement, open_connection, row_reply, ColumnValue,
    Cursor, Entity, EntityType, Reply, SQLite3Error,
};
use redisql::entity::entity_type_of;

const OK: i32 = 0;
const ROW: i32 = 100;
const DONE: i32 = 101;

#[test]
fn open_decides_on_status_and_handle() {
    assert_eq!(open_connection(OK, Some(17)).unwrap().handle, 17);
    assert_eq!(open_connection(14, Some(17)).unwrap_err(), SQLite3Error::OpenError);
    assert_eq!(open_connection(OK, None).unwrap_err(), SQLite3Error::OpenError);
}

#[test]
fn prepare_decides_on_status_and_handle() {
    let conn = open_connection(OK, Some(3)).unwrap();
    let stmt = create_statement(conn.handle, OK, Some(9)).unwrap();
    assert_eq!((stmt.handle, stmt.connection), (9, 3));
    assert_eq!(create_statement(conn.handle, 1, Some(9)).unwrap_err(), SQLite3Error::StatementError);
    assert_eq!(create_statement(conn.handle, OK, None).unwrap_err(), SQLite3Error::StatementError);
}

#[test]
fn first_step_picks_the_cursor() {
    let conn = open_connection(OK, Some(3)).unwrap();
    let s = || create_statement(conn.handle, OK, Some(9)).unwrap();
    assert!(matches!(execute_statement(s(), OK, vec![]), Ok(Cursor::OKCursor)));
    assert!(matches!(execute_statement(s(), DONE, vec![]), Ok(Cursor::DONECursor)));
    assert!(matches!(execute_statement(s(), 1, vec![]), Err(SQLite3Error::ExecuteError)));
    assert!(matches!(execute_statement(s(), 5, vec![]), Err(SQLite3Error::ExecuteError)));
    match execute_statement(s(), ROW, vec![1, 2, 3, 4, 5, 42]) {
        Ok(Cursor::RowsCursor { stmt, num_columns, types, previous_status }) => {
            assert_eq!(stmt.handle, 9);
            assert_eq!(num_columns, 6);
            assert_eq!(
                types,
                vec![
                    EntityType::Integer,
                    EntityType::Float,
                    EntityType::Text,
                    EntityType::Blob,
                    EntityType::Null,
                    EntityType::Null
                ]
            );
            assert_eq!(previous_status, ROW);
        }
        _ => panic!("expected a result set"),
    }
}

#[test]
fn type_tags_map_to_column_types() {
    assert_eq!(entity_type_of(1), EntityType::Integer);
    assert_eq!(entity_type_of(2), EntityType::Float);
    assert_eq!(entity_type_of(3), EntityType::Text);
    assert_eq!(entity_type_of(4), EntityType::Blob);
    assert_eq!(entity_type_of(5), EntityType::Null);
    assert_eq!(entity_type_of(0), EntityType::Null);
    assert_eq!(entity_type_of(-7), EntityType::Null);
}

#[test]
fn draining_yields_one_row_per_row_status() {
    let conn = open_connection(OK, Some(3)).unwrap();
    let stmt = create_statement(conn.handle, OK, Some(9)).unwrap();
    let mut c = execute_statement(stmt, ROW, vec![1]).unwrap();
    assert_eq!(c.column_types(), vec![EntityType::Integer]);
    let statuses = [ROW, ROW, DONE, ROW];
    let mut rows = Vec::new();
    let mut k = 0;
    while c.has_row() {
        let cols = vec![ColumnValue::Integer { value: k as i32 * 10 }];
        rows.push(c.next(cols, statuses[k]).unwrap());
        k += 1;
    }
    assert_eq!(
        rows,
        vec![
            vec![Entity::Integer { value: 0 }],
            vec![Entity::Integer { value: 10 }],
            vec![Entity::Integer { value: 20 }]
        ]
    );
    assert_eq!(c.next(vec![ColumnValue::Integer { value: 1 }], ROW), None);
    assert!(!c.has_row());
}

#[test]
fn a_failed_step_ends_the_rows() {
    let conn = open_connection(OK, Some(3)).unwrap();
    let stmt = create_statement(conn.handle, OK, Some(9)).unwrap();
    let mut c = execute_statement(stmt, ROW, vec![]).unwrap();
    assert_eq!(c.next(vec![], 1), Some(vec![]));
    assert!(!c.has_row());
}

#[test]
fn acknowledgement_yields_once() {
    let mut c = Cursor::DONECursor;
    assert!(c.has_row());
    assert_eq!(c.next(vec![], ROW), Some(vec![Entity::DONE]));
    assert!(!c.has_row());
    assert_eq!(c.next(vec![], ROW), None);
}

#[test]
fn columns_are_decoded_by_type() {
    let conn = open_connection(OK, Some(3)).unwrap();
    let stmt = create_statement(conn.handle, OK, Some(9)).unwrap();
    let mut c = execute_statement(stmt, ROW, vec![1, 2, 3, 4, 5]).unwrap();
    let cols = vec![
        ColumnValue::Integer { value: -5 },
        ColumnValue::Double { bits: 2.5f64.to_bits() },
        ColumnValue::Bytes { bytes: "héllo".as_bytes().to_vec() },
        ColumnValue::Bytes { bytes: vec![0, 255, 1] },
        ColumnValue::Null,
    ];
    assert!(c.accepts(&cols));
    let row = c.next(cols, DONE).unwrap();
    assert_eq!(
        row,
        vec![
            Entity::Integer { value: -5 },
            Entity::Float { bits: 2.5f64.to_bits() },
            Entity::Text { text: "héllo".to_string() },
            Entity::Blob { blob: vec![0, 255, 1] },
            Entity::Null
        ]
    );
}

#[test]
fn invalid_text_is_replaced_not_rejected() {
    let conn = open_connection(OK, Some(3)).unwrap();
    let stmt = create_statement(conn.handle, OK, Some(9)).unwrap();
    let mut c = execute_statement(stmt, ROW, vec![3]).unwrap();
    let row = c.next(vec![ColumnValue::Bytes { bytes: vec![b'f', 0xff, b'g'] }], DONE).unwrap();
    assert_eq!(row, vec![Entity::Text { text: "f\u{FFFD}g".to_string() }]);
}

#[test]
fn mismatched_columns_are_not_accepted() {
    let conn = open_connection(OK, Some(3)).unwrap();
    let stmt = create_statement(conn.handle, OK, Some(9)).unwrap();
    let c = execute_statement(stmt, ROW, vec![1, 3]).unwrap();
    assert!(!c.accepts(&vec![ColumnValue::Integer { value: 1 }]));
    assert!(!c.accepts(&vec![ColumnValue::Null, ColumnValue::Bytes { bytes: vec![] }]));
    assert!(c.accepts(&vec![ColumnValue::Integer { value: 1 }, ColumnValue::Bytes { bytes: vec![] }]));
}

#[test]
fn values_encode_to_reply_primitives() {
    assert_eq!(Entity::Integer { value: i32::MIN }.reply(), Reply::Integer { value: -2147483648 });
    assert_eq!(Entity::Float { bits: 0.1f64.to_bits() }.reply(), Reply::Double { bits: 0.1f64.to_bits() });
    assert_eq!(Entity::Text { text: "é".to_string() }.reply(), Reply::Bulk { bytes: vec![0xc3, 0xa9] });
    assert_eq!(Entity::Blob { blob: vec![7, 0] }.reply(), Reply::Bulk { bytes: vec![7, 0] });
    assert_eq!(Entity::Null.reply(), Reply::Null);
    assert_eq!(Entity::OK.reply(), Reply::Status { text: "OK".to_string() });
    assert_eq!(Entity::DONE.reply(), Reply::Status { text: "DONE".to_string() });
    assert_eq!(
        row_reply(&vec![Entity::Null, Entity::Integer { value: 4 }]),
        vec![Reply::Null, Reply::Integer { value: 4 }]
    );
}

#[test]
fn reply_round_trip_for_each_kind() {
    let values = vec![
        (Entity::Integer { value: 123456 }, EntityType::Integer),
        (Entity::Integer { value: i32::MIN }, EntityType::Integer),
        (Entity::Float { bits: (-0.0f64).to_bits() }, EntityType::Float),
        (Entity::Float { bits: f64::NAN.to_bits() }, EntityType::Float),
        (Entity::Text { text: "ünïcode ✓".to_string() }, EntityType::Text),
        (Entity::Blob { blob: vec![0xff, 0x00, 0x80] }, EntityType::Blob),
        (Entity::Null, EntityType::Null),
    ];
    for (e, t) in values {
        assert_eq!(decode_reply(&e.reply(), t), Some(e));
    }
}

#[test]
fn reference_decoder_rejects_what_a_column_cannot_give() {
    assert_eq!(decode_reply(&Reply::Bulk { bytes: vec![0xff] }, EntityType::Text), None);
    assert_eq!(
        decode_reply(&Reply::Bulk { bytes: b"ab".to_vec() }, EntityType::Text),
        Some(Entity::Text { text: "ab".to_string() })
    );
    assert_eq!(decode_reply(&Reply::Integer { value: 1 << 40 }, EntityType::Integer), None);
    assert_eq!(decode_reply(&Reply::Null, EntityType::Integer), None);
    assert_eq!(decode_reply(&Reply::Status { text: "OK".to_string() }, EntityType::Text), None);
}
