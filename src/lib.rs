pub mod command;
pub mod cursor;
pub mod engine;
pub mod entity;
pub mod registry;
pub mod reply;
pub mod worker;

pub use command::{
    create_argument, error_response, exec_response, ok_response, CommandError, HostCommand,
    Response,
};
pub use cursor::{execute_statement, Cursor};
pub use engine::{
    create_statement, db_connection, open_connection, RawConnection, SQLite3Error, Statement,
};
pub use entity::{ColumnValue, Entity, EntityType};
pub use registry::{CreateFailure, FinishOutcome, Job, KeyState, Registry};
pub use reply::{decode_reply, row_reply, Reply};
pub use worker::Request;
