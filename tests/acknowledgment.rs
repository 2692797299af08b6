use aether_lib::acknowledgment::{AcknowledgmentCheck, AcknowledgmentList};

#[test]
fn acknowledgment_false_positive_raw() {
    let values = [16, 1024, 99, 45];

    let check = [19, 32, 63, 6000];

    let mut ack_check = AcknowledgmentCheck::new(16);

    for v in values {
        ack_check.insert(v);
    }

    for c in check {
        assert!(!ack_check.check(&c));
    }
}

#[test]
fn acknowledgment_true_negatives_raw() {
    let values = [16, 1024, 99, 45];

    let mut ack_check = AcknowledgmentCheck::new(16);

    for v in values {
        ack_check.insert(v);
    }

    for c in values {
        assert!(ack_check.check(&c));
    }
}

#[test]
fn acknowledgment_false_positives() {
    let values = [16, 20, 17, 18, 22, 23];

    let check = [19, 21, 63];

    let mut ack_list = AcknowledgmentList::new(16);

    for v in values {
        ack_list.insert(v).unwrap();
    }

    let mut ack_check = AcknowledgmentCheck::new(16);

    let ack = ack_list.get();

    ack_check.acknowledge(ack);
    for c in check {
        assert!(!ack_check.check(&c));
    }
}

#[test]
fn acknowledgment_true_negatives() {
    let values = [16, 17, 18, 20, 21, 22, 32];

    let mut ack_list = AcknowledgmentList::new(16);

    for v in values {
        ack_list.insert(v).unwrap();
    }

    let mut ack_check = AcknowledgmentCheck::new(16);

    let ack = ack_list.get();

    ack_check.acknowledge(ack);
    for c in values {
        assert!(ack_check.check(&c));
    }
}

#[test]
fn acknowledgment_list_false_positives() {
    let sequence = 10;
    let mut ack_list = AcknowledgmentList::new(sequence);

    let values = [10, 20, 30, 40];

    let check = [12, 15, 320, 44, 39];

    for v in values {
        ack_list.insert(v).unwrap();
    }

    for c in check {
        assert!(!ack_list.check(&c));
    }
}

#[test]
fn acknowledgment_list_true_negatives() {
    let sequence = 10;
    let mut ack_list = AcknowledgmentList::new(sequence);

    let values = [10, 20, 30, 40];

    for v in values {
        ack_list.insert(v).unwrap();
    }

    for c in values {
        assert!(ack_list.check(&c));
    }
}

#[test]
fn acknowledgment_missing_test() {
    let sequence = 10;
    let mut ack_list = AcknowledgmentList::new(sequence);

    let misses = [11, 14, 22, 28];

    for v in sequence..(sequence + 20) {
        if !misses.contains(&v) {
            ack_list.insert(v).unwrap();
        }
    }

    let ack = ack_list.get();

    for m in ack.miss {
        assert!(misses.contains(&(m as u32 + sequence)));
    }
}

#[test]
fn acknowledgment_check_complete_test() {
    let sequence = 10;
    let mut ack_list = AcknowledgmentList::new(sequence);

    let values = sequence..(sequence + 20);

    for v in values {
        ack_list.insert(v).unwrap();
    }

    assert!(ack_list.is_complete());
}
