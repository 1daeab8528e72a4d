use bradis_bridge::marshal::Payload;
use bradis_bridge::session::{
    inline_command, poll, poll_decoded, Decoded, Polled, SessionError, TRANSPORT_CAPACITY,
};
use bradis_bridge::value::RespValue;

#[test]
fn transport_holds_one_hundred_thousand_bytes() {
    assert_eq!(TRANSPORT_CAPACITY, 100000);
}

#[test]
fn inline_command_is_written_verbatim() {
    assert_eq!(inline_command("PING\r\n"), b"PING\r\n".to_vec());
    assert_eq!(inline_command("SET k v"), b"SET k v".to_vec());
    assert_eq!(inline_command(""), Vec::<u8>::new());
    assert_eq!(inline_command("GET caf\u{e9}\r\n"), "GET caf\u{e9}\r\n".as_bytes().to_vec());
}

#[test]
fn poll_before_anything_arrives_is_nothing_yet() {
    assert_eq!(poll(Decoded::Pending), None);
    assert_eq!(poll_decoded(Decoded::Pending), Ok(Polled::Pending));
    assert_ne!(poll_decoded(Decoded::Pending), Ok(Polled::Closed));
}

#[test]
fn poll_after_a_value_arrives_gives_it() {
    assert_eq!(poll(Decoded::Pending), None);
    let value = poll(Decoded::Value(RespValue::String(b"PONG".to_vec()))).expect("a value");
    assert_eq!(value.tag(), "string");
    assert_eq!(value.value(), Payload::Text("PONG".to_string()));
}

#[test]
fn poll_tells_a_value_from_the_end() {
    match poll_decoded(Decoded::Value(RespValue::Integer(3))) {
        Ok(Polled::Value(value)) => {
            assert_eq!(value.tag(), "int");
            assert_eq!(value.value(), Payload::Integer(3));
        }
        other => panic!("expected a value, got {:?}", other),
    }
    assert_eq!(poll_decoded(Decoded::Closed), Ok(Polled::Closed));
}

#[test]
fn poll_at_the_end_is_collapsed_to_none() {
    assert_eq!(poll(Decoded::Closed), None);
    assert_eq!(Polled::Closed.into_value(), None);
    assert_eq!(Polled::Pending.into_value(), None);
}

#[test]
fn decode_failure_ends_the_session() {
    assert_eq!(poll_decoded(Decoded::Failed), Err(SessionError::Desync));
}

#[test]
fn reply_that_is_no_text_ends_the_session() {
    assert_eq!(
        poll_decoded(Decoded::Value(RespValue::Bignum(vec![0xFF]))),
        Err(SessionError::InvalidText)
    );
}

#[test]
fn error_reply_is_a_value() {
    let value = poll(Decoded::Value(RespValue::Error(b"ERR unknown".to_vec()))).expect("a value");
    assert_eq!(value.tag(), "error");
    assert_eq!(value.value(), Payload::Text("ERR unknown".to_string()));
}
