use bradis::{Addr, Server};
use bradis_bridge::marshal::JsRespValue;
use bradis_bridge::session::{
    inline_command, poll_decoded, Decoded, Polled, SessionError, TRANSPORT_CAPACITY,
};
use bradis_bridge::value::{RespPrimitive, RespValue};
use futures::stream::{BoxStream, Stream};
use futures::task::noop_waker_ref;
use respite::{RespConfig, RespError, RespReader};
use std::pin::Pin;
use std::task::{Context, Poll};
use tokio::io::{duplex, split, AsyncRead, AsyncWrite, DuplexStream, ReadBuf, WriteHalf};
use tokio::runtime::{Builder, Runtime};

type Replies = BoxStream<'static, Result<respite::RespValue, RespError>>;

struct World {
    runtime: Runtime,
    server: Server,
    sessions: usize,
}

struct Session {
    replies: Replies,
    writer: WriteHalf<DuplexStream>,
}

fn primitive(value: respite::RespPrimitive) -> RespPrimitive {
    match value {
        respite::RespPrimitive::Integer(n) => RespPrimitive::Integer(n),
        respite::RespPrimitive::Nil => RespPrimitive::Nil,
        respite::RespPrimitive::String(bytes) => RespPrimitive::String(bytes.to_vec()),
    }
}

fn protocol_value(value: respite::RespValue) -> RespValue {
    match value {
        respite::RespValue::Attribute(map) => RespValue::Attribute(
            map.into_iter().map(|(k, v)| (primitive(k), protocol_value(v))).collect(),
        ),
        respite::RespValue::Array(items) => {
            RespValue::Array(items.into_iter().map(protocol_value).collect())
        }
        respite::RespValue::Bignum(digits) => RespValue::Bignum(digits.to_vec()),
        respite::RespValue::Boolean(b) => RespValue::Boolean(b),
        respite::RespValue::Double(number) => RespValue::Double(number.into_inner().to_bits()),
        respite::RespValue::Error(bytes) => RespValue::Error(bytes.to_vec()),
        respite::RespValue::Integer(n) => RespValue::Integer(n),
        respite::RespValue::Map(map) => RespValue::MapOf(
            map.into_iter().map(|(k, v)| (primitive(k), protocol_value(v))).collect(),
        ),
        respite::RespValue::Nil => RespValue::Nil,
        respite::RespValue::Push(items) => {
            RespValue::Push(items.into_iter().map(protocol_value).collect())
        }
        respite::RespValue::Set(set) => RespValue::SetOf(set.into_iter().map(primitive).collect()),
        respite::RespValue::String(bytes) => RespValue::String(bytes.to_vec()),
        respite::RespValue::Verbatim(format, text) => {
            RespValue::Verbatim(format.to_vec(), text.to_vec())
        }
    }
}

fn create() -> World {
    let runtime = Builder::new_current_thread().enable_time().build().expect("a runtime");
    let server = {
        let _guard = runtime.enter();
        Server::default()
    };
    World { runtime, server, sessions: 0 }
}

fn tick(world: &World) {
    world.runtime.block_on(async {
        for _ in 0..64 {
            tokio::task::yield_now().await;
        }
    });
}

fn connect(world: &mut World) -> Session {
    world.sessions += 1;
    let (local, remote) = duplex(TRANSPORT_CAPACITY);
    let addr = Addr {
        local: format!("127.0.0.1:{}", 6379).parse().expect("an address"),
        peer: format!("127.0.0.1:{}", 40000 + world.sessions).parse().expect("an address"),
    };
    {
        let _guard = world.runtime.enter();
        world.server.connect(remote, addr);
    }
    let (reader, writer) = split(local);
    let replies = RespReader::new(reader, RespConfig::default()).values();
    Session { replies, writer }
}

fn write_some(writer: &mut WriteHalf<DuplexStream>, bytes: &[u8]) -> Poll<std::io::Result<usize>> {
    let mut context = Context::from_waker(noop_waker_ref());
    Pin::new(writer).poll_write(&mut context, bytes)
}

fn write_inline(session: &mut Session, command: &str) {
    let bytes = inline_command(command);
    let mut sent = 0;
    while sent < bytes.len() {
        match write_some(&mut session.writer, &bytes[sent..]) {
            Poll::Ready(Ok(n)) => sent += n,
            _ => return,
        }
    }
}

fn poll_session(session: &mut Session) -> Result<Polled, SessionError> {
    let mut context = Context::from_waker(noop_waker_ref());
    let step = match session.replies.as_mut().poll_next(&mut context) {
        Poll::Pending => Decoded::Pending,
        Poll::Ready(None) => Decoded::Closed,
        Poll::Ready(Some(Ok(value))) => Decoded::Value(protocol_value(value)),
        Poll::Ready(Some(Err(_))) => Decoded::Failed,
    };
    poll_decoded(step)
}

fn poll(session: &mut Session) -> Option<JsRespValue> {
    poll_session(session).expect("a session that can go on").into_value()
}

#[test]
fn ping_is_answered_after_one_step() {
    let mut world = create();
    let mut session = connect(&mut world);
    write_inline(&mut session, "PING\r\n");
    tick(&world);
    let reply = poll(&mut session).expect("a reply, not nothing yet");
    assert!(reply.tag() == "string" || reply.tag() == "error", "tag {}", reply.tag());
}

#[test]
fn nothing_moves_without_a_step() {
    let mut world = create();
    let mut session = connect(&mut world);
    assert_eq!(poll_session(&mut session), Ok(Polled::Pending));
    write_inline(&mut session, "PING\r\n");
    assert_eq!(poll_session(&mut session), Ok(Polled::Pending));
    assert_eq!(poll(&mut session), None);
    tick(&world);
    match poll_session(&mut session) {
        Ok(Polled::Value(reply)) => assert_eq!(reply.tag(), "string"),
        other => panic!("expected a value, got {:?}", other),
    }
    assert_eq!(poll_session(&mut session), Ok(Polled::Pending));
}

#[test]
fn replies_come_in_the_order_of_the_commands() {
    let mut world = create();
    let mut session = connect(&mut world);
    write_inline(&mut session, "SET k 41\r\n");
    write_inline(&mut session, "INCR k\r\n");
    write_inline(&mut session, "GET k\r\n");
    write_inline(&mut session, "NOSUCHCOMMAND\r\n");
    tick(&world);
    let tags: Vec<String> = std::iter::from_fn(|| poll(&mut session)).map(|r| r.tag()).collect();
    assert_eq!(tags, vec!["string", "int", "string", "error"]);
}

#[test]
fn sessions_are_independent() {
    let mut world = create();
    let mut first = connect(&mut world);
    let mut second = connect(&mut world);
    write_inline(&mut first, "PING\r\n");
    tick(&world);
    assert_eq!(poll_session(&mut second), Ok(Polled::Pending));
    assert!(poll(&mut first).is_some());
}

#[test]
fn stream_end_is_told_from_nothing_yet() {
    let (local, remote) = duplex(TRANSPORT_CAPACITY);
    let (reader, writer) = split(local);
    let mut session =
        Session { replies: RespReader::new(reader, RespConfig::default()).values(), writer };
    assert_eq!(poll_session(&mut session), Ok(Polled::Pending));
    drop(remote);
    assert_eq!(poll_session(&mut session), Ok(Polled::Closed));
    assert_eq!(poll(&mut session), None);
}

#[test]
fn garbage_from_the_server_is_a_desync() {
    let (local, mut remote) = duplex(TRANSPORT_CAPACITY);
    let (reader, writer) = split(local);
    let mut session =
        Session { replies: RespReader::new(reader, RespConfig::default()).values(), writer };
    let mut context = Context::from_waker(noop_waker_ref());
    assert!(Pin::new(&mut remote).poll_write(&mut context, b"?what\r\n").is_ready());
    assert_eq!(poll_session(&mut session), Err(SessionError::Desync));
}

#[test]
fn write_beyond_capacity_waits_for_the_reader() {
    let (mut local, mut remote) = duplex(TRANSPORT_CAPACITY);
    let (_reader, mut writer) = split(&mut local);
    let bytes = vec![b'x'; TRANSPORT_CAPACITY + 10];
    let mut context = Context::from_waker(noop_waker_ref());
    let first = match Pin::new(&mut writer).poll_write(&mut context, &bytes) {
        Poll::Ready(Ok(n)) => n,
        other => panic!("expected a partial write, got {:?}", other),
    };
    assert_eq!(first, TRANSPORT_CAPACITY);
    assert!(Pin::new(&mut writer).poll_write(&mut context, &bytes[first..]).is_pending());
    assert!(Pin::new(&mut writer).poll_write(&mut context, &bytes[first..]).is_pending());
    let mut space = vec![0u8; 4];
    let mut buffer = ReadBuf::new(&mut space);
    assert!(Pin::new(&mut remote).poll_read(&mut context, &mut buffer).is_ready());
    assert_eq!(buffer.filled(), b"xxxx");
    match Pin::new(&mut writer).poll_write(&mut context, &bytes[first..]) {
        Poll::Ready(Ok(n)) => assert_eq!(n, 4),
        other => panic!("expected the write to go on, got {:?}", other),
    }
}

#[test]
fn write_after_the_peer_closed_fails_without_panic() {
    let (local, remote) = duplex(TRANSPORT_CAPACITY);
    let (reader, writer) = split(local);
    let mut session =
        Session { replies: RespReader::new(reader, RespConfig::default()).values(), writer };
    drop(remote);
    match write_some(&mut session.writer, b"PING\r\n") {
        Poll::Ready(Err(_)) => {}
        other => panic!("expected a closed channel, got {:?}", other),
    }
    write_inline(&mut session, "PING\r\n");
    assert_eq!(poll_session(&mut session), Ok(Polled::Closed));
}
