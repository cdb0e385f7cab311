use denocore::core_error::IoErrorInfo;
use denocore::core_error::IoErrorKind;
use denocore::io::BufMutView;
use denocore::io::BufView;
use denocore::io::WriteOutcome;
use denocore::resource_io::ReadResultSync;
use denocore::resource_io::WriteResultSync;
use denocore::resource_object::complete_sync_read;
use denocore::resource_object::complete_write;
use denocore::resource_object::WriteOutcome as PolledWrite;

#[test]
fn read_byob_result_copies_handed_back_bytes() {
    let buf = BufMutView::from_slice(&[9, 9, 9, 9]);
    let (n, out) = ReadResultSync::ReadyBuf(BufView::from_vec(vec![1, 2]))
        .into_read_byob_result(buf, 7)
        .unwrap();
    assert_eq!(n, 2);
    assert_eq!(out.as_slice(), &[1, 2, 9, 9]);

    let mut buf = BufMutView::from_slice(&[5, 6, 7, 8]);
    buf.advance_cursor(1);
    let (n, out) = ReadResultSync::ReadyBufMut(BufMutView::from_slice(&[0]))
        .into_read_byob_result(buf, 7)
        .unwrap();
    assert_eq!(n, 1);
    assert_eq!(out.as_slice(), &[0, 7, 8]);
}

#[test]
fn read_byob_result_other_outcomes() {
    let (n, out) = ReadResultSync::Ready.into_read_byob_result(BufMutView::new(3), 3).unwrap();
    assert_eq!(n, 3);
    assert_eq!(out.len(), 3);
    let (n, _) = ReadResultSync::EOF.into_read_byob_result(BufMutView::new(3), 3).unwrap();
    assert_eq!(n, 0);
    let err = ReadResultSync::Failed(anyhow::Error::msg("broken"))
        .into_read_byob_result(BufMutView::new(3), 3)
        .err()
        .unwrap();
    assert_eq!(err.to_string(), "broken");
}

#[test]
fn write_result_outcomes() {
    match WriteResultSync::Ready(4).into_write_result().unwrap() {
        WriteOutcome::Full { nwritten } => assert_eq!(nwritten, 4),
        _ => panic!("expected a full write"),
    }
    match WriteResultSync::ReadyReturn(2, BufView::from_vec(vec![3, 4])).into_write_result().unwrap() {
        WriteOutcome::Partial { nwritten, view } => {
            assert_eq!(nwritten, 2);
            assert_eq!(view.as_slice(), &[3, 4]);
        },
        _ => panic!("expected a partial write"),
    }
    match WriteResultSync::EOF(BufView::from_vec(vec![1])).into_write_result().unwrap() {
        WriteOutcome::Partial { nwritten, view } => {
            assert_eq!(nwritten, 0);
            assert_eq!(view.len(), 1);
        },
        _ => panic!("expected a partial write"),
    }
    assert!(WriteResultSync::Failed(anyhow::Error::msg("no")).into_write_result().is_err());
}

#[test]
fn polled_write_and_sync_read_outcomes() {
    assert_eq!(complete_write(PolledWrite::EOF).unwrap(), 0);
    assert_eq!(complete_write(PolledWrite::Ready(5)).unwrap(), 5);
    assert!(complete_write(PolledWrite::Failed(anyhow::Error::msg("x"))).is_err());
    assert_eq!(complete_sync_read(Ok(8)).unwrap(), 8);
    let would_block = IoErrorInfo { kind: IoErrorKind::WouldBlock, message: "wait".to_string(), source: None };
    assert_eq!(complete_sync_read(Err(would_block)).unwrap(), 0);
    let broken = IoErrorInfo { kind: IoErrorKind::BrokenPipe, message: "pipe".to_string(), source: None };
    assert_eq!(complete_sync_read(Err(broken)).err().unwrap().message, "pipe");
}
