use uhttp_sse::BoundedSink;
use uhttp_sse::FailSink;
use uhttp_sse::IoError;
use uhttp_sse::SseField;
use uhttp_sse::SseMessage;
use uhttp_sse::VecSink;

#[test]
fn test_sse_field() {
    let sink = BoundedSink::new(37);

    let mut f = SseField::new(sink, b"hello").ok().unwrap();
    f.write(format!("a message {}", 1337).as_bytes()).unwrap();
    f.write(b" another message").unwrap();
    let sink = f.close();

    assert_eq!(sink.bytes, b"hello:a message 1337 another message\n".to_vec());
}

#[test]
fn test_sse_msg() {
    let msg = SseMessage::new(BoundedSink::new(44));

    let mut f = msg.event().ok().unwrap();
    f.write(b"1337").unwrap();
    let msg = f.end();
    let mut f = msg.data().ok().unwrap();
    f.write(b"abc").unwrap();
    let msg = f.end();
    let mut f = msg.data().ok().unwrap();
    f.write(b"def").unwrap();
    let msg = f.end();
    let mut f = msg.id().ok().unwrap();
    f.write(b"42").unwrap();
    let msg = f.end();
    let mut f = msg.retry().ok().unwrap();
    f.write(b"7").unwrap();
    let msg = f.end();
    let sink = msg.close();

    assert_eq!(sink.bytes, b"event:1337\ndata:abc\ndata:def\nid:42\nretry:7\n\n".to_vec());

    let sink = BoundedSink::new(20);

    let msg = SseMessage::new(sink);
    let mut f = msg.data().ok().unwrap();
    f.write(b"abc").unwrap();
    let sink = f.end().close();

    let msg = SseMessage::new(sink);
    let mut f = msg.data().ok().unwrap();
    f.write(b"def").unwrap();
    let sink = f.end().close();

    assert_eq!(sink.bytes, b"data:abc\n\ndata:def\n\n".to_vec());
}

#[test]
fn single_field_each_name() {
    let mut f = SseMessage::new(VecSink::new()).data().ok().unwrap();
    f.write(b"v").unwrap();
    assert_eq!(f.end().close().bytes, b"data:v\n\n".to_vec());

    let mut f = SseMessage::new(VecSink::new()).event().ok().unwrap();
    f.write(b"v").unwrap();
    assert_eq!(f.end().close().bytes, b"event:v\n\n".to_vec());

    let mut f = SseMessage::new(VecSink::new()).id().ok().unwrap();
    f.write(b"v").unwrap();
    assert_eq!(f.end().close().bytes, b"id:v\n\n".to_vec());

    let mut f = SseMessage::new(VecSink::new()).retry().ok().unwrap();
    f.write(b"v").unwrap();
    assert_eq!(f.end().close().bytes, b"retry:v\n\n".to_vec());
}

#[test]
fn multiple_writes_concatenate() {
    let mut f = SseMessage::new(VecSink::new()).data().ok().unwrap();
    f.write(b"abc").unwrap();
    f.write(format!("{}", 1337).as_bytes()).unwrap();
    assert_eq!(f.end().close().bytes, b"data:abc1337\n\n".to_vec());
}

#[test]
fn scenario_event_with_two_data_fields() {
    let msg = SseMessage::new(VecSink::new());
    let mut f = msg.event().ok().unwrap();
    f.write(b"ping").unwrap();
    let msg = f.end();
    let mut f = msg.data().ok().unwrap();
    f.write(b"abc").unwrap();
    let msg = f.end();
    let mut f = msg.data().ok().unwrap();
    f.write(format!("{}", 1337).as_bytes()).unwrap();
    let sink = f.end().close();

    assert_eq!(sink.bytes, b"event:ping\ndata:abc\ndata:1337\n\n".to_vec());
}

#[test]
fn sequential_messages_on_growing_sink() {
    let sink = VecSink::new();

    let msg = SseMessage::new(sink);
    let mut f = msg.data().ok().unwrap();
    f.write(b"abc").unwrap();
    let sink = f.end().close();

    let msg = SseMessage::new(sink);
    let mut f = msg.data().ok().unwrap();
    f.write(b"def").unwrap();
    let sink = f.end().close();

    assert_eq!(sink.bytes, b"data:abc\n\ndata:def\n\n".to_vec());
}

#[test]
fn empty_message_is_bare_terminator() {
    let sink = SseMessage::new(VecSink::new()).close();
    assert_eq!(sink.bytes, b"\n".to_vec());
}

#[test]
fn empty_field_value() {
    let f = SseMessage::new(VecSink::new()).data().ok().unwrap();
    let sink = f.end().close();
    assert_eq!(sink.bytes, b"data:\n\n".to_vec());
}

#[test]
fn failed_open_leaves_no_field_and_allows_retry() {
    let msg = SseMessage::new(FailSink);
    match msg.data() {
        Ok(_) => panic!("open must fail on a failing sink"),
        Err((msg, e)) => {
            assert_eq!(e, IoError::Other);
            match msg.data() {
                Ok(_) => panic!("retry must fail the same way"),
                Err((_, e)) => assert_eq!(e, IoError::Other),
            }
        }
    }
}

#[test]
fn failed_open_on_full_sink_reports_write_zero() {
    let msg = SseMessage::new(BoundedSink::new(2));
    match msg.data() {
        Ok(_) => panic!("open must fail once the sink is full"),
        Err((msg, e)) => {
            assert_eq!(e, IoError::WriteZero);
            let sink = msg.close();
            assert_eq!(sink.bytes, b"da".to_vec());
        }
    }
}

#[test]
fn standalone_field_open_failure_returns_sink() {
    match SseField::new(FailSink, b"data") {
        Ok(_) => panic!("open must fail on a failing sink"),
        Err((_, e)) => assert_eq!(e, IoError::Other),
    }
}

#[test]
fn partial_write_and_swallowed_terminator() {
    let sink = BoundedSink::new(6);
    let mut f = SseField::new(sink, b"data").ok().unwrap();
    assert_eq!(f.write(b"xy").unwrap(), 1);
    assert_eq!(f.write(b"z").unwrap(), 0);
    let sink = f.close();
    assert_eq!(sink.bytes, b"data:x".to_vec());
}

#[test]
fn message_terminator_swallowed_when_full() {
    let msg = SseMessage::new(BoundedSink::new(9));
    let mut f = msg.data().ok().unwrap();
    f.write(b"abc").unwrap();
    let sink = f.end().close();
    assert_eq!(sink.bytes, b"data:abc\n".to_vec());
}

#[test]
fn explicit_flush_propagates() {
    let mut f = SseField::new(VecSink::new(), b"data").ok().unwrap();
    f.write(b"abc").unwrap();
    assert_eq!(f.flush(), Ok(()));
    assert_eq!(f.close().bytes, b"data:abc\n".to_vec());
}
