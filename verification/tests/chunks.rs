use windows_clear::mover::chunks::{ChunkReply, ChunkStep, CHUNK_BYTES};
use windows_clear::mover::{FailureKind, OsFailure};

fn failed() -> ChunkReply {
    ChunkReply::Failed(OsFailure {
        kind: FailureKind::Other,
        code: Some(112),
        text: "disk full".to_string(),
    })
}

/// Copies a file of the given length; the given call of a write fails.
fn play(length: u64, bad_write: Option<u32>) -> (u64, u64, ChunkStep) {
    let mut left = length;
    let mut written = 0;
    let mut reported = 0;
    let mut writes = 0;
    let mut waited = false;
    let mut step = ChunkStep::start();
    loop {
        let reply = match &step {
            ChunkStep::Finished(_) => return (written, reported, step),
            ChunkStep::WaitWhilePaused => {
                waited = true;
                ChunkReply::Done
            }
            ChunkStep::Read => {
                assert!(waited);
                waited = false;
                let bytes = left.min(CHUNK_BYTES as u64);
                left -= bytes;
                ChunkReply::Bytes(bytes)
            }
            ChunkStep::Write { bytes } => {
                writes += 1;
                if Some(writes) == bad_write {
                    failed()
                } else {
                    written += bytes;
                    ChunkReply::Done
                }
            }
            ChunkStep::Report { bytes } => {
                assert!(1 <= *bytes && *bytes <= CHUNK_BYTES as u64);
                reported += bytes;
                ChunkReply::Done
            }
            _ => ChunkReply::Done,
        };
        step = step.next(reply);
    }
}

#[test]
fn every_byte_is_written_and_reported() {
    assert_eq!(CHUNK_BYTES, 1024 * 1024);
    for length in [0, 1, 1048575, 1048576, 1048577, 5000000] {
        let (written, reported, step) = play(length, None);
        assert_eq!((written, reported), (length, length));
        assert!(matches!(step, ChunkStep::Finished(Ok(()))));
    }
}

#[test]
fn failed_write_ends_the_copy() {
    let (written, reported, step) = play(3000000, Some(2));
    assert_eq!((written, reported), (1048576, 1048576));
    match step {
        ChunkStep::Finished(Err(failure)) => assert_eq!(failure.text, "disk full"),
        other => panic!("{:?}", other),
    }
}

#[test]
fn every_failure_ends_the_copy() {
    for step in [
        ChunkStep::OpenSource,
        ChunkStep::CreateTarget,
        ChunkStep::Read,
        ChunkStep::Write { bytes: 3 },
        ChunkStep::Flush,
    ] {
        assert!(matches!(step.next(failed()), ChunkStep::Finished(Err(_))));
    }
}

#[test]
fn copy_is_flushed_and_stamped_at_the_end() {
    let step = ChunkStep::Read.next(ChunkReply::Bytes(0));
    assert!(matches!(step, ChunkStep::Flush));
    let step = step.next(ChunkReply::Done);
    assert!(matches!(step, ChunkStep::StampTime));
    assert!(matches!(step.next(ChunkReply::Done), ChunkStep::Finished(Ok(()))));
}

/// Copies real bytes, in chunks of the given lengths, over what stood at the target.
fn copy_bytes(source: &[u8], lengths: &[usize], old: &[u8]) -> Vec<u8> {
    let mut target = old.to_vec();
    let mut position = 0;
    let mut chunk: Vec<u8> = Vec::new();
    let mut reads = 0;
    let mut step = ChunkStep::start();
    loop {
        let reply = match &step {
            ChunkStep::Finished(_) => return target,
            ChunkStep::CreateTarget => {
                target.clear();
                ChunkReply::Done
            }
            ChunkStep::Read => {
                let wanted = lengths.get(reads).copied().unwrap_or(CHUNK_BYTES);
                reads += 1;
                let end = (position + wanted).min(source.len());
                chunk = source[position..end].to_vec();
                position = end;
                ChunkReply::Bytes(chunk.len() as u64)
            }
            ChunkStep::Write { bytes } => {
                target.extend_from_slice(&chunk[..*bytes as usize]);
                ChunkReply::Done
            }
            _ => ChunkReply::Done,
        };
        step = step.next(reply);
    }
}

#[test]
fn copy_is_exact() {
    let source: Vec<u8> = (0..100).collect();
    assert_eq!(copy_bytes(&source, &[1, 50, 3], &[7; 500]), source);
    assert_eq!(copy_bytes(&[], &[], &[7; 500]), Vec::<u8>::new());
}

#[test]
fn file_that_cannot_be_opened_leaves_the_target() {
    let step = ChunkStep::start().next(failed());
    assert!(matches!(step, ChunkStep::Finished(Err(_))));
}
