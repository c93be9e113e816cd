use matchmaker::errors::{AuthError, ServiceError, SqliteError};
use matchmaker::live::{MessageData, Registry, SseMessage, SseMessageType};

fn receipt(love: &str) -> SseMessage {
    SseMessage {
        message_type: SseMessageType::GreenTickMessage,
        data: MessageData::GreenTickMessage { uuid_love_room: love.to_string() },
    }
}

fn room(e: &SseMessage) -> String {
    match &e.data {
        MessageData::GreenTickMessage { uuid_love_room } => uuid_love_room.clone(),
        MessageData::ChatMessage { uuid_love_room, .. } => uuid_love_room.clone(),
    }
}

#[test]
fn open_then_publish_delivers_the_event() {
    let mut reg = Registry::new(4);
    let x = "x".to_string();
    let conn = reg.open_channel(&x);
    assert!(reg.publish(&x, receipt("room-1")));
    let got = reg.take_events(&x, conn).unwrap();
    assert_eq!(got.len(), 1);
    assert_eq!(room(&got[0]), "room-1");
    assert_eq!(reg.take_events(&x, conn).unwrap().len(), 0);
}

#[test]
fn publish_without_channel_is_dropped() {
    let mut reg = Registry::new(4);
    assert!(!reg.publish(&"nobody".to_string(), receipt("r")));
    assert!(!reg.is_open(&"nobody".to_string()));
}

#[test]
fn close_then_reopen_receives_again() {
    let mut reg = Registry::new(4);
    let x = "x".to_string();
    let first = reg.open_channel(&x);
    reg.close_channel(&x);
    assert!(!reg.is_open(&x));
    assert!(!reg.publish(&x, receipt("lost")));
    assert!(reg.take_events(&x, first).is_none());
    reg.close_channel(&x);
    let second = reg.open_channel(&x);
    assert!(reg.publish(&x, receipt("kept")));
    let got = reg.take_events(&x, second).unwrap();
    assert_eq!(got.len(), 1);
    assert_eq!(room(&got[0]), "kept");
}

#[test]
fn replaced_connection_stops_receiving() {
    let mut reg = Registry::new(4);
    let x = "x".to_string();
    let old = reg.open_channel(&x);
    assert!(reg.publish(&x, receipt("before")));
    let new = reg.open_channel(&x);
    assert_ne!(old, new);
    assert!(reg.take_events(&x, old).is_none());
    assert!(reg.publish(&x, receipt("after")));
    let got = reg.take_events(&x, new).unwrap();
    assert_eq!(got.len(), 1);
    assert_eq!(room(&got[0]), "after");
}

#[test]
fn full_channel_drops_events_without_waiting() {
    let mut reg = Registry::new(2);
    let x = "x".to_string();
    let y = "y".to_string();
    let cx = reg.open_channel(&x);
    let cy = reg.open_channel(&y);
    assert!(reg.publish(&x, receipt("1")));
    assert!(reg.publish(&x, receipt("2")));
    assert!(!reg.publish(&x, receipt("3")));
    assert!(reg.publish(&y, receipt("other")));
    let got = reg.take_events(&x, cx).unwrap();
    assert_eq!(got.iter().map(room).collect::<Vec<_>>(), vec!["1", "2"]);
    assert_eq!(reg.take_events(&y, cy).unwrap().len(), 1);
}

#[test]
fn service_error_messages_and_codes() {
    assert_eq!(ServiceError::Internal.error_message(), "Internal error");
    assert_eq!(ServiceError::ForbiddenQuery.error_message(), "Query forbidden error");
    assert_eq!(
        ServiceError::ValueNotAccepted("v".to_string(), "r".to_string()).error_message(),
        "SQL provided value not accepted, value = v reason : r"
    );
    assert_eq!(ServiceError::ForbiddenQuery.status_code(), 403);
    assert_eq!(ServiceError::NoPotentialMatchFound.status_code(), 404);
    assert_eq!(ServiceError::Sqlite(SqliteError::NotFound).status_code(), 404);
    assert_eq!(ServiceError::Sqlite(SqliteError::UnknownSqliteProblem).status_code(), 500);
    assert_eq!(ServiceError::Conflict.status_code(), 409);
    assert_eq!(ServiceError::UserAlreadyExist.status_code(), 422);
    let body = ServiceError::Transaction.to_api_error();
    assert_eq!(body.error_message, "Transaction error");
    assert!(matches!(ServiceError::from(SqliteError::NotFound), ServiceError::Internal));
    let (code, text) = AuthError::WrongCredentials.response_parts();
    assert_eq!((code, text.as_str()), (401, "Wrong credentials"));
}

#[test]
fn account_error_messages_and_codes() {
    type E = matchmaker::account_errors::ServiceError;
    assert_eq!(E::ServiceError("x".to_string()).error_message(), "Service layer error");
    assert_eq!(E::UserAlreadyExist.error_message(), "User already exists");
    assert_eq!(E::SqliteError(SqliteError::NotFound).error_message(), "Sqlite internal error");
    assert_eq!(E::LoginError.error_message(), "Login error");
    assert_eq!(E::JwtError.error_message(), "Jwt internal error");
    assert_eq!(E::UnknownServiceError.error_message(), "Unknown service layer error");
    assert_eq!(E::UserAlreadyExist.status_code(), 422);
    assert_eq!(E::JwtError.status_code(), 500);
}

#[test]
fn reopening_gives_a_new_connection_and_stale_close_is_ignored() {
    let mut reg = Registry::new(2);
    let x = "x".to_string();
    let first = reg.open_channel(&x);
    let second = reg.open_channel(&x);
    assert_ne!(first, second);
    reg.close_connection(&x, first);
    assert!(reg.is_open(&x));
    assert!(reg.publish(&x, receipt("still")));
    assert_eq!(reg.take_events(&x, second).unwrap().len(), 1);
    reg.close_connection(&x, second);
    assert!(!reg.is_open(&x));
}
