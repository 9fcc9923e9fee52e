use ambient_runtime::diffs::{batch, gather, prepare, DiffAction, DiffEvent, DiffSender};

#[test]
fn batches_keep_the_order() {
    assert_eq!(batch(1, vec![2, 3]), [1, 2, 3]);
    assert_eq!(batch(1, vec![]), [1]);
}

#[test]
fn gathering_empties_the_channel() {
    let (tx, mut rx) = flume::unbounded();
    tx.send(2).unwrap();
    tx.send(3).unwrap();
    assert_eq!(gather(1, &mut rx), [1, 2, 3]);
    assert!(rx.is_empty());
    assert_eq!(gather(4, &mut rx), [4]);
}

#[test]
fn messages_are_merged_deduplicated_and_serialized() {
    let message = prepare(
        vec![1, 2, 2],
        |diffs| diffs.iter().map(|diff| format!("{diff}")).collect::<Vec<_>>(),
        |mut merged| {
            merged.dedup();
            merged
        },
        |rest| rest.join(","),
    );
    assert_eq!(message, "1,2");
}

#[test]
fn every_diff_is_sent_in_order() {
    let mut sender = DiffSender::Receiving;
    let mut sent = vec![];
    for (diff, waiting) in [(1, vec![2]), (3, vec![]), (4, vec![5, 6])] {
        match sender.next(DiffEvent::Received(batch(diff, waiting))) {
            DiffAction::Send(diffs) => sent.extend(diffs),
            _ => panic!("nothing to send"),
        }
        assert_eq!(sender, DiffSender::Sending);
        assert!(matches!(sender.next(DiffEvent::<i32>::Sent), DiffAction::Receive));
        assert_eq!(sender, DiffSender::Receiving);
    }
    assert_eq!(sent, [1, 2, 3, 4, 5, 6]);
    assert!(matches!(sender.next(DiffEvent::<i32>::Closed), DiffAction::Stop));
    assert_eq!(sender, DiffSender::Stopped);
}

#[test]
fn the_end_is_final() {
    let mut sender = DiffSender::Receiving;
    assert!(matches!(sender.next(DiffEvent::Received(vec![1])), DiffAction::Send(_)));
    assert!(matches!(sender.next(DiffEvent::<i32>::Failed), DiffAction::Stop));
    assert_eq!(sender, DiffSender::Stopped);
    assert!(matches!(sender.next(DiffEvent::Received(vec![2])), DiffAction::Stop));
    assert!(matches!(sender.next(DiffEvent::<i32>::Sent), DiffAction::Stop));
    assert_eq!(sender, DiffSender::Stopped);
}
