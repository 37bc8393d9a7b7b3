use ssimulacra2::payload::{DecodeError, Pixels};
use ssimulacra2::session::{Command, Step, Worker, TAG_REFERENCE, TAG_SCORE};

fn pixels() -> Pixels {
    Pixels::Rgb8 { width: 1, height: 1, data: vec![1, 2, 3] }
}

#[test]
fn worker_score_before_ref_is_an_error() {
    let w: Worker<u32> = Worker::new();
    assert!(!w.has_reference());
    assert_eq!(w.next_step(b'S', Ok(pixels())), Step::NoReference);
}

#[test]
fn worker_loads_then_scores() {
    let mut w: Worker<u32> = Worker::new();
    assert_eq!(
        w.next_step(TAG_REFERENCE, Ok(pixels())),
        Step::Run(Command::LoadReference(pixels()))
    );
    assert_eq!(w.install::<String>(Ok(7)), Ok(()));
    assert_eq!(w.reference(), Some(&7));
    assert_eq!(
        w.next_step(TAG_SCORE, Ok(pixels())),
        Step::Run(Command::ScoreCandidate(pixels()))
    );
}

#[test]
fn failed_load_keeps_the_previous_reference() {
    let mut w: Worker<u32> = Worker::new();
    assert_eq!(w.install::<&str>(Ok(1)), Ok(()));
    assert_eq!(w.install(Err("too small")), Err("too small"));
    assert_eq!(w.reference(), Some(&1));
    let mut fresh: Worker<u32> = Worker::new();
    assert_eq!(fresh.install(Err(3u8)), Err(3u8));
    assert!(!fresh.has_reference());
    assert_eq!(fresh.next_step(TAG_SCORE, Ok(pixels())), Step::NoReference);
}

#[test]
fn unknown_tags_end_the_session_whatever_the_payload() {
    let w: Worker<u32> = Worker::new();
    assert_eq!(w.next_step(b'Z', Err(DecodeError::UnknownFormat(9))), Step::UnknownTag(b'Z'));
    assert_eq!(w.next_step(b'Z', Ok(pixels())), Step::UnknownTag(b'Z'));
    assert_eq!(
        w.next_step(b'S', Err(DecodeError::AlphaUnsupported)),
        Step::Reject(DecodeError::AlphaUnsupported)
    );
    assert_eq!(
        w.next_step(b'R', Err(DecodeError::UnknownFormat(4))),
        Step::Reject(DecodeError::UnknownFormat(4))
    );
}
