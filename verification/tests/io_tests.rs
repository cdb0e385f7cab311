use bytes::Bytes;
use bytes::BytesMut;
use denocore::buffer_channel::BoundedBufferChannelInner;
use denocore::buffer_channel::ChannelReadResult;
use denocore::buffer_channel::BUFFER_AGGREGATION_LIMIT;
use denocore::buffer_channel::BUFFER_BACKPRESSURE_LIMIT;
use denocore::buffer_channel::BUFFER_CHANNEL_SIZE;
use denocore::io::BufMutView;
use denocore::io::BufView;
use denocore::io::WriteOutcome;

fn create_buffer(byte_length: usize) -> BufView {
    BufView::from_vec(vec![0; byte_length])
}

#[test]
fn bufview_read_and_truncate() {
    let mut buf = BufView::from_vec(vec![1, 2, 3, 4]);
    assert_eq!(4, buf.len());
    assert_eq!(0, buf.cursor());
    assert_eq!(1, buf.get_u8());
    assert_eq!(3, buf.len());
    // The cursor is at position 1, so this truncates the underlying buffer to 2+1
    buf.truncate(2);
    assert_eq!(2, buf.len());
    assert_eq!(2, buf.get_u8());
    assert_eq!(1, buf.len());

    buf.reset_cursor();
    assert_eq!(3, buf.len());
}

#[test]
fn bufview_split() {
    let mut buf = BufView::from_vec(Vec::from_iter(0..100));
    assert_eq!(100, buf.len());
    buf.advance_cursor(25);
    assert_eq!(75, buf.len());
    let mut other = buf.split_off(10);
    assert_eq!(25, buf.cursor());
    assert_eq!(10, buf.len());
    assert_eq!(65, other.len());

    let other2 = other.split_to(20);
    assert_eq!(20, other2.len());
    assert_eq!(45, other.len());

    assert_eq!(100, buf.cursor() + buf.len() + other.len() + other2.len());
    buf.reset_cursor();
    assert_eq!(100, buf.cursor() + buf.len() + other.len() + other2.len());
}

#[test]
fn bufmutview_read_and_truncate() {
    let mut buf = BufMutView::from_bytes_mut(BytesMut::from([1, 2, 3, 4].as_slice()));
    assert_eq!(4, buf.len());
    assert_eq!(0, buf.cursor());
    assert_eq!(1, buf.get_u8());
    assert_eq!(3, buf.len());
    // The cursor is at position 1, so this truncates the underlying buffer to 2+1
    buf.truncate(2);
    assert_eq!(2, buf.len());
    assert_eq!(2, buf.get_u8());
    assert_eq!(1, buf.len());

    buf.reset_cursor();
    assert_eq!(3, buf.len());
}

#[test]
fn bufmutview_split() {
    let mut buf = BufMutView::from_bytes_mut(BytesMut::from(Vec::from_iter(0..100).as_slice()));
    assert_eq!(100, buf.len());
    buf.advance_cursor(25);
    assert_eq!(75, buf.len());
    let mut other = buf.split_off(10);
    assert_eq!(25, buf.cursor());
    assert_eq!(10, buf.len());
    assert_eq!(65, other.len());

    let other2 = other.split_to(20);
    assert_eq!(20, other2.len());
    assert_eq!(45, other.len());

    assert_eq!(100, buf.cursor() + buf.len() + other.len() + other2.len());
    buf.reset_cursor();
    assert_eq!(100, buf.cursor() + buf.len() + other.len() + other2.len());
}

fn new_hundred() -> BufMutView {
    BufMutView::from_bytes_mut(BytesMut::from(Vec::from_iter(0..100).as_slice()))
}

#[test]
fn bufmutview_resize() {
    let mut buf = new_hundred();
    assert_eq!(100, buf.len());
    buf.maybe_resize(200, 10).unwrap();
    assert_eq!(110, buf.len());

    let mut buf = new_hundred();
    assert_eq!(100, buf.len());
    buf.maybe_resize(200, 100).unwrap();
    assert_eq!(200, buf.len());

    let mut buf = new_hundred();
    assert_eq!(100, buf.len());
    buf.maybe_resize(200, 1000).unwrap();
    assert_eq!(200, buf.len());

    let mut buf = new_hundred();
    buf.advance_cursor(50);
    assert_eq!(50, buf.len());
    buf.maybe_resize(100, 100).unwrap();
    assert_eq!(100, buf.len());
    buf.reset_cursor();
    assert_eq!(150, buf.len());
}

#[test]
fn bufmutview_grow() {
    let mut buf = new_hundred();
    assert_eq!(100, buf.len());
    buf.maybe_grow(200).unwrap();
    assert_eq!(200, buf.len());

    let mut buf = new_hundred();
    buf.advance_cursor(50);
    assert_eq!(50, buf.len());
    buf.maybe_grow(100).unwrap();
    assert_eq!(100, buf.len());
    buf.reset_cursor();
    assert_eq!(150, buf.len());
}

#[test]
fn bufmutview_resize_shrinks_and_grows_with_zeros() {
    let mut buf = BufMutView::from_slice(&[9, 8, 7, 6]);
    assert_eq!(buf.maybe_resize(2, 10), Some(2));
    assert_eq!(buf.as_slice(), &[9, 8]);
    assert_eq!(buf.maybe_grow(4), Some(4));
    assert_eq!(buf.as_slice(), &[9, 8, 0, 0]);
    assert_eq!(buf.maybe_grow(1), Some(4));
}

#[test]
fn bufview_split_parts_rejoin() {
    let mut buf = BufView::from_vec(vec![1, 2, 3, 4, 5, 6]);
    buf.advance_cursor(1);
    let front = buf.split_to(2);
    assert_eq!(front.as_slice(), &[2, 3]);
    assert_eq!(front.cursor(), 1);
    assert_eq!(buf.as_slice(), &[4, 5, 6]);
    let back = buf.split_off(1);
    assert_eq!(buf.as_slice(), &[4]);
    assert_eq!(back.as_slice(), &[5, 6]);
}

#[test]
fn bufview_bytes_round_trip() {
    let mut view = BufView::from_bytes(Bytes::from(vec![1u8, 2, 3]));
    assert_eq!(view.chunk(), &[1, 2, 3]);
    view.advance(2);
    assert_eq!(view.remaining(), 1);
    // The conversion hands back the whole buffer; the cursor is dropped.
    let bytes = view.into_bytes();
    assert_eq!(&bytes[..], &[1, 2, 3]);
    let empty = BufView::empty();
    assert!(empty.is_empty());
}

#[test]
fn bufmutview_into_view_keeps_cursor() {
    let mut buf = BufMutView::from_slice(&[1, 2, 3]);
    buf.advance_cursor(1);
    let view = buf.into_view();
    assert_eq!(view.cursor(), 1);
    assert_eq!(view.as_slice(), &[2, 3]);
    let fresh = BufMutView::new(3);
    assert_eq!(fresh.as_slice(), &[0, 0, 0]);
}

#[test]
fn write_outcome_reports_bytes_written() {
    let partial = WriteOutcome::Partial { nwritten: 3, view: BufView::from_vec(vec![1]) };
    assert_eq!(partial.nwritten(), 3);
    let full = WriteOutcome::Full { nwritten: 7 };
    assert_eq!(full.nwritten(), 7);
}

#[test]
fn test_bounded_buffer_channel() {
    let mut channel = BoundedBufferChannelInner::new();

    for _ in 0..BUFFER_CHANNEL_SIZE - 1 {
        assert!(channel.write(create_buffer(1024)).is_ok());
    }
}

#[test]
fn channel_full_hands_buffer_back() {
    let mut channel = BoundedBufferChannelInner::new();
    for _ in 0..BUFFER_CHANNEL_SIZE - 1 {
        assert!(channel.write(create_buffer(1)).is_ok());
    }
    assert!(!channel.can_write());
    match channel.write(BufView::from_vec(vec![7, 7])) {
        Err(back) => assert_eq!(back.as_slice(), &[7, 7]),
        Ok(()) => panic!("a full channel must hand the buffer back"),
    }
    channel.close();
    assert!(channel.write(create_buffer(1)).is_ok());
}

#[test]
fn channel_reads_in_order_and_aggregates() {
    let mut channel = BoundedBufferChannelInner::new();
    let mut out = Vec::new();
    assert!(matches!(channel.read(&mut out, 1024).0, ChannelReadResult::PollAgain));
    assert!(channel.write(BufView::from_vec(vec![1, 2])).is_ok());
    assert!(channel.write(BufView::from_vec(vec![3])).is_ok());
    assert_eq!(channel.byte_size(), 3);
    let (res, wake) = channel.read(&mut out, 1024);
    assert!(matches!(res, ChannelReadResult::Ready));
    assert!(wake);
    assert_eq!(out, vec![1, 2, 3]);
    assert_eq!(channel.byte_size(), 0);

    assert!(channel.write(BufView::from_vec(vec![4, 5])).is_ok());
    assert!(channel.write(BufView::from_vec(vec![6])).is_ok());
    let (res, _) = channel.read(&mut out, 1);
    match res {
        ChannelReadResult::ReadyBuf(b) => assert_eq!(b.as_slice(), &[4, 5]),
        _ => panic!("expected the oldest buffer"),
    }
    assert_eq!(channel.byte_size(), 1);
    channel.close();
    let (res, _) = channel.read(&mut out, 1);
    match res {
        ChannelReadResult::ReadyBuf(b) => assert_eq!(b.as_slice(), &[6]),
        _ => panic!("expected the last buffer"),
    }
    assert!(matches!(channel.read(&mut out, 1).0, ChannelReadResult::EOF));
}

#[test]
fn channel_error_is_read_once() {
    let mut channel = BoundedBufferChannelInner::new();
    channel.write_error(anyhow::Error::msg("boom"));
    assert!(channel.can_read());
    let mut out = Vec::new();
    match channel.read(&mut out, 10).0 {
        ChannelReadResult::Error(e) => assert_eq!(e.to_string(), "boom"),
        _ => panic!("expected the error"),
    }
    assert!(matches!(channel.read(&mut out, 10).0, ChannelReadResult::PollAgain));
}

#[test]
fn channel_backpressure_limit() {
    let mut channel = BoundedBufferChannelInner::new();
    assert!(channel.write(create_buffer(BUFFER_BACKPRESSURE_LIMIT)).is_ok());
    assert!(!channel.can_write());
    let mut out = Vec::new();
    assert!(channel.write(create_buffer(BUFFER_AGGREGATION_LIMIT)).is_ok());
    let (res, wake) = channel.read(&mut out, usize::MAX);
    assert!(matches!(res, ChannelReadResult::ReadyBuf(_)));
    assert!(wake);
}

#[test]
fn channel_read_hands_back_the_stored_error_once() {
    let mut channel = BoundedBufferChannelInner::new();
    channel.write_error(anyhow::Error::msg("broken pipe"));
    let mut out = vec![1u8];
    match channel.read(&mut out, 16) {
        (ChannelReadResult::Error(e), false) => assert_eq!(e.to_string(), "broken pipe"),
        _ => panic!("expected the stored error"),
    }
    assert_eq!(out, vec![1u8]);
    assert!(matches!(channel.read(&mut out, 16), (ChannelReadResult::PollAgain, false)));
    channel.close();
    assert!(matches!(channel.read(&mut out, 16), (ChannelReadResult::EOF, false)));
}
