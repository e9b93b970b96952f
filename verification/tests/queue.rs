use crossbeam_channel::{bounded, TrySendError};
use diskann3_rest::queue::Acceptor;
use diskann3_rest::serve::{Body, Reply};

fn error(r: Reply) -> (u16, String) {
    match r.body {
        Body::Error(e) => (r.status, e.error),
        other => panic!("{other:?}"),
    }
}

#[test]
fn requests_are_queued_while_there_is_room() {
    let (tx, rx) = bounded::<u32>(2);
    let mut a = Acceptor::new();
    assert!(a.accept(&tx, 1).is_none());
    assert!(a.accept(&tx, 2).is_none());
    assert_eq!(a.rejected, 0);
    assert_eq!(rx.recv(), Ok(1));
    assert_eq!(rx.recv(), Ok(2));
}

#[test]
fn a_full_queue_turns_requests_away() {
    let (tx, rx) = bounded::<&str>(1);
    let mut a = Acceptor::new();
    assert!(a.accept(&tx, "first").is_none());
    let (back, reply) = a.accept(&tx, "second").unwrap();
    assert_eq!(back, "second");
    assert_eq!(error(reply), (503, "server busy, retry later".to_string()));
    assert_eq!(a.rejected, 1);
    assert_eq!(rx.recv(), Ok("first"));
    assert!(a.accept(&tx, "third").is_none());
    assert_eq!(a.rejected, 1);
}

#[test]
fn a_queue_without_workers_turns_requests_away_uncounted() {
    let (tx, rx) = bounded::<u8>(1);
    drop(rx);
    let mut a = Acceptor::new();
    let (back, reply) = a.accept(&tx, 7).unwrap();
    assert_eq!(back, 7);
    assert_eq!(error(reply), (503, "server shutting down".to_string()));
    assert_eq!(a.rejected, 0);
}

#[test]
fn each_result_of_the_queue_has_its_answer() {
    let mut a = Acceptor { rejected: u64::MAX };
    assert!(a.answer::<u8>(Ok(())).is_none());
    assert_eq!(a.rejected, u64::MAX);
    let (back, _) = a.answer(Err(TrySendError::Full(4u8))).unwrap();
    assert_eq!(back, 4);
    assert_eq!(a.rejected, 0);
    let (back, reply) = a.answer(Err(TrySendError::Disconnected(5u8))).unwrap();
    assert_eq!((back, reply.status), (5, 503));
    assert_eq!(a.rejected, 0);
}
