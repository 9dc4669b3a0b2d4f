use brightness_ctrl::worker::Worker;

/// The values that are set over a course of receptions, and where the worker is
/// after them.
fn work(received: &[Option<u32>]) -> (Vec<u32>, Worker) {
    let mut worker = Worker::new();
    let mut set = vec![];
    for r in received {
        worker = worker.next(*r);
        if let Worker::Setting(value) = worker {
            set.push(value);
        }
    }
    (set, worker)
}

#[test]
fn a_single_value_is_set() {
    assert_eq!(work(&[Some(30), None]), (vec![30], Worker::Setting(30)));
    assert_eq!(work(&[Some(30), None, None]), (vec![30], Worker::Waiting));
}

#[test]
fn only_the_last_queued_value_is_set() {
    assert_eq!(
        work(&[Some(1), Some(2), Some(3), None, None, Some(9), Some(8), None, None]),
        (vec![3, 8], Worker::Waiting)
    );
    assert_eq!(work(&[Some(1), Some(2)]), (vec![], Worker::Draining(2)));
}

#[test]
fn closing_ends_the_worker() {
    assert_eq!(work(&[None]), (vec![], Worker::Done));
    assert_eq!(work(&[None, Some(4)]), (vec![], Worker::Done));
    assert_eq!(work(&[Some(5), None, None, None]), (vec![5], Worker::Done));
}

#[test]
fn values_are_set_in_the_order_received() {
    // A value comes only when the worker looks for one; now and then there is none.
    for gap in 2..6u32 {
        let mut worker = Worker::new();
        let mut sent = vec![];
        let mut set = vec![];
        for k in 1..200u32 {
            let asks = matches!(worker, Worker::Waiting | Worker::Draining(_));
            let waiting = worker == Worker::Waiting;
            let received = if asks && (waiting || k % gap != 0) { Some(k) } else { None };
            sent.extend(received);
            worker = worker.next(received);
            if let Worker::Setting(value) = worker {
                assert_eq!(Some(&value), sent.last());
                set.push(value);
            }
        }
        // The channel is closed: what is left is set, and the worker ends.
        for _ in 0..3 {
            worker = worker.next(None);
            if let Worker::Setting(value) = worker {
                set.push(value);
            }
        }
        assert_eq!(worker, Worker::Done);
        assert_eq!(set.last(), sent.last());
        assert!(1 <= set.len() && set.len() <= sent.len());
        let mut rest = sent.iter();
        assert!(set.iter().all(|value| rest.any(|s| s == value)));
    }
}
