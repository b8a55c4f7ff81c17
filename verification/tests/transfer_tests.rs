use sftp_engine::errors::FsError;
use sftp_engine::transfer::progress_schedule;
use sftp_engine::transfer::TransferState;
use sftp_engine::transfer::CHUNK_SIZE;
use sftp_engine::types::TransferEvent;
use sftp_engine::types::TransferKind;

fn progress_values(events: &[TransferEvent]) -> Vec<u64> {
    let mut out = Vec::new();
    for e in events {
        if let TransferEvent::Progress { transferred, .. } = e {
            out.push(*transferred);
        }
    }
    out
}

#[test]
fn schedule_matches_ceiling_of_size_over_chunk() {
    assert_eq!(progress_schedule(20, 8), vec![8, 16, 20]);
    assert_eq!(progress_schedule(0, 8), Vec::<u64>::new());
    assert_eq!(progress_schedule(8, 8), vec![8]);
    assert_eq!(progress_schedule(9, 8), vec![8, 9]);
    assert_eq!(progress_schedule(16384, 8192), vec![8192, 16384]);
}

#[test]
fn full_transfer_reports_the_schedule_and_finishes() {
    let mut m = TransferState::new(1, Some(4), String::from("/r/file"), TransferKind::Upload, Some(20));
    let mut seen: Vec<TransferEvent> = Vec::new();
    // Reads of a 20-byte source with chunk size 8: 8, 8, 4, then exhausted.
    seen.extend(m.on_chunk(8, false));
    seen.extend(m.on_chunk(8, false));
    seen.extend(m.on_chunk(4, false));
    assert!(!m.is_done());
    seen.extend(m.on_chunk(0, false));
    assert!(m.completed());
    assert_eq!(progress_values(&seen), progress_schedule(20, 8));
    match seen.last().unwrap() {
        TransferEvent::Finished { transfer_id, kind, path, connection_id } => {
            assert_eq!(*transfer_id, 1);
            assert_eq!(*kind, TransferKind::Upload);
            assert_eq!(path, "/r/file");
            assert_eq!(*connection_id, Some(4));
        }
        other => panic!("expected a finished event, got {:?}", other),
    }
}

#[test]
fn progress_is_strictly_increasing_and_carries_the_total() {
    let mut m = TransferState::new(2, None, String::from("/x"), TransferKind::Download, Some(30));
    let mut values = Vec::new();
    for _ in 0..3 {
        let evs = m.on_chunk(10, false);
        values.extend(progress_values(&evs));
        for e in &evs {
            if let TransferEvent::Progress { total, .. } = e {
                assert_eq!(*total, 30);
            }
        }
    }
    assert_eq!(values, vec![10, 20, 30]);
    for w in values.windows(2) {
        assert!(w[0] < w[1]);
    }
}

#[test]
fn unknown_length_counts_as_zero_total() {
    let mut m = TransferState::new(3, None, String::from("/y"), TransferKind::Download, None);
    let evs = m.on_chunk(5, false);
    match &evs[0] {
        TransferEvent::Progress { transferred, total, .. } => {
            assert_eq!(*transferred, 5);
            assert_eq!(*total, 0);
        }
        other => panic!("expected a progress event, got {:?}", other),
    }
}

#[test]
fn cancellation_before_the_last_chunk() {
    let mut m = TransferState::new(7, Some(1), String::from("/big"), TransferKind::Copy, Some(100));
    let mut seen: Vec<TransferEvent> = Vec::new();
    seen.extend(m.on_chunk(8, false));
    // The token is observed set after the second chunk.
    seen.extend(m.on_chunk(8, true));
    assert!(m.cancelled());
    let cancels = seen
        .iter()
        .filter(|e| matches!(e, TransferEvent::Cancelled { .. }))
        .count();
    let finishes = seen
        .iter()
        .filter(|e| matches!(e, TransferEvent::Finished { .. }))
        .count();
    assert_eq!(cancels, 1);
    assert_eq!(finishes, 0);
    match seen.last().unwrap() {
        TransferEvent::Cancelled { transfer_id, kind } => {
            assert_eq!(*transfer_id, 7);
            assert_eq!(*kind, TransferKind::Copy);
        }
        other => panic!("expected a cancellation event, got {:?}", other),
    }
}

#[test]
fn chunk_size_is_eight_kibibytes() {
    assert_eq!(CHUNK_SIZE, 8192);
}

#[test]
fn error_duplicate_is_equal() {
    let e = FsError::RemoteIoFailed { path: String::from("/p") };
    assert_eq!(e.duplicate(), e);
}
