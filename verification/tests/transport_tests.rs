use simcore::codec::encode;
use simcore::message::Message;
use simcore::transport::{
    reader_step, recv_message, send_message, writer_step, Frame, Mailbox, ReadEvent,
};

#[test]
fn mailbox_delivers_in_send_order() {
    let mut q = Mailbox::new();
    q.send(vec![1]);
    q.send(vec![2]);
    q.send(vec![3]);
    assert_eq!(q.try_receive(), Some(vec![1]));
    assert_eq!(q.try_receive(), Some(vec![2]));
    assert_eq!(q.try_receive(), Some(vec![3]));
    assert_eq!(q.try_receive(), None);
}

#[test]
fn empty_mailbox_polls_nothing() {
    let mut q = Mailbox::new();
    assert_eq!(q.try_receive(), None);
    assert_eq!(q.len(), 0);
}

#[test]
fn messages_cross_the_mailbox_intact_and_in_order() {
    let mut q = Mailbox::new();
    let m1 = Message::LoginRequest { class: 5 };
    let m2 = Message::TerrainRequest;
    send_message(&mut q, &m1);
    send_message(&mut q, &m2);
    assert_eq!(recv_message(&mut q), Ok(Some(m1)));
    assert_eq!(recv_message(&mut q), Ok(Some(m2)));
    assert_eq!(recv_message(&mut q), Ok(None));
}

#[test]
fn malformed_inbound_frame_is_an_error_not_skipped() {
    let mut q = Mailbox::new();
    q.send(vec![9, 9]);
    send_message(&mut q, &Message::TerrainRequest);
    assert!(recv_message(&mut q).is_err());
    // The bad frame was consumed; the good one follows.
    assert_eq!(recv_message(&mut q), Ok(Some(Message::TerrainRequest)));
}

#[test]
fn reader_echoes_close_and_stops() {
    let r = reader_step(ReadEvent::Frame(Frame::Close));
    assert_eq!(r.reply, Some(Frame::Close));
    assert_eq!(r.deliver, None);
    assert!(r.stop);
}

#[test]
fn reader_answers_ping_with_pong() {
    let r = reader_step(ReadEvent::Frame(Frame::Ping(vec![7, 8])));
    assert_eq!(r.reply, Some(Frame::Pong(vec![7, 8])));
    assert_eq!(r.deliver, None);
    assert!(!r.stop);
}

#[test]
fn reader_forwards_binary_payloads() {
    let payload = encode(&Message::LoginRequest { class: 1 });
    let r = reader_step(ReadEvent::Frame(Frame::Binary(payload.clone())));
    assert_eq!(r.deliver, Some(payload));
    assert_eq!(r.reply, None);
    assert!(!r.stop);
}

#[test]
fn reader_drops_unsupported_frames() {
    let r = reader_step(ReadEvent::Frame(Frame::Text(vec![1])));
    assert_eq!(r.reply, None);
    assert_eq!(r.deliver, None);
    assert!(!r.stop);
}

#[test]
fn reader_closes_on_failure() {
    let r = reader_step(ReadEvent::Failure);
    assert_eq!(r.reply, Some(Frame::Close));
    assert!(r.stop);
}

#[test]
fn writer_forwards_and_stops_only_on_close() {
    let r = writer_step(Frame::Binary(vec![1, 2]));
    assert_eq!(r.write, Frame::Binary(vec![1, 2]));
    assert!(!r.stop);
    let r = writer_step(Frame::Close);
    assert_eq!(r.write, Frame::Close);
    assert!(r.stop);
}
