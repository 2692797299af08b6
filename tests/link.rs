use aether_lib::acknowledgement::{AcknowledgementCheck, AcknowledgementList, MAX_WINDOW};
use aether_lib::config::LinkConfig;
use aether_lib::error::AetherError;
use aether_lib::link::needs_ack;
use aether_lib::link::receivethread::{link_expired, receive_datagram, OrderList};
use aether_lib::link::sendthread::{next_data_packet, SendAction, SendWindow};
use aether_lib::packet::{PType, Packet};

fn data(seq: u32) -> Packet {
    let mut p = Packet::new(PType::Data, seq);
    p.append_payload(vec![seq as u8]);
    p
}

#[test]
fn ordering_releases_in_sequence() {
    let mut order = OrderList::new(99);
    let mut delivered: Vec<u32> = Vec::new();
    for s in [102, 101, 100, 103] {
        if let Ok(run) = order.insert(data(s)) {
            delivered.extend(run.iter().map(|p| p.sequence));
        }
    }
    assert_eq!(delivered, vec![100, 101, 102, 103]);
}

#[test]
fn ordering_codes_for_old_and_early_packets() {
    let mut order = OrderList::new(10);
    assert_eq!(order.insert(data(10)).unwrap_err(), 0);
    assert_eq!(order.insert(data(13)).unwrap_err(), 1);
    let run = order.insert(data(11)).unwrap();
    assert_eq!(run.len(), 1);
    assert_eq!(order.insert(data(5)).unwrap_err(), 0);
}

#[test]
fn ack_list_missing_after_compaction() {
    let mut list = AcknowledgementList::new(10);
    for s in [10, 12, 13, 15, 16, 17, 18, 19, 20, 21, 23, 24, 25, 26, 27, 28, 29] {
        list.insert(s).unwrap();
    }
    let ack = list.get();
    assert_eq!(ack.ack_begin, 10);
    assert_eq!(ack.ack_end, 19);
    assert_eq!(ack.miss, vec![1, 4, 12]);
    assert_eq!(ack.miss_count, 3);
    for m in &ack.miss {
        assert!([11, 14, 22].contains(&(*m as u32 + 10)));
    }
    list.insert(11).unwrap();
    let ack = list.get();
    assert_eq!(ack.ack_begin, 13);
    assert_eq!(ack.miss, vec![1, 9]);
}

#[test]
fn ack_list_refuses_beyond_window() {
    let mut list = AcknowledgementList::new(100);
    assert_eq!(list.insert(100 + MAX_WINDOW as u32 + 1), Err(AetherError::WindowOverflow));
    assert!(!list.check(&(100 + MAX_WINDOW as u32 + 1)));
    assert_eq!(list.insert(100 + MAX_WINDOW as u32), Ok(()));
    assert!(list.check(&(100 + MAX_WINDOW as u32)));
    assert_eq!(list.get().ack_end, MAX_WINDOW);
}

#[test]
fn ack_list_insert_twice_is_insert_once() {
    let mut a = AcknowledgementList::new(0);
    let mut b = AcknowledgementList::new(0);
    for s in [3, 5, 1] {
        a.insert(s).unwrap();
        b.insert(s).unwrap();
        b.insert(s).unwrap();
    }
    let (x, y) = (a.get(), b.get());
    assert_eq!((x.ack_begin, x.ack_end, x.miss), (y.ack_begin, y.ack_end, y.miss));
    assert_eq!(x.ack_begin, 1);
}

#[test]
fn ack_check_acknowledge_window() {
    let mut check = AcknowledgementCheck::new(0);
    let mut list = AcknowledgementList::new(40);
    for s in [42, 43, 45] {
        list.insert(s).unwrap();
    }
    let ack = list.get();
    assert_eq!((ack.ack_begin, ack.ack_end, ack.miss.clone()), (40, 5, vec![1, 4]));
    check.acknowledge(ack);
    for s in [0, 17, 40, 42, 43, 45] {
        assert!(check.check(&s));
    }
    for s in [41, 44, 46] {
        assert!(!check.check(&s));
    }
}

#[test]
fn kinds_that_need_acknowledgement() {
    assert!(needs_ack(&Packet::new(PType::Data, 1)));
    assert!(needs_ack(&Packet::new(PType::KeyExchange, 1)));
    assert!(!needs_ack(&Packet::new(PType::AckOnly, 1)));
    assert!(!needs_ack(&Packet::new(PType::Initiation, 1)));
    assert!(!needs_ack(&Packet::new(PType::Extended, 1)));
}

#[test]
fn data_packets_are_numbered_in_send_order() {
    let mut seq = 41;
    let p = next_data_packet(&mut seq, b"hello".to_vec());
    assert_eq!(seq, 42);
    assert_eq!(p.sequence, 42);
    assert_eq!(p.payload, b"hello".to_vec());
    assert_eq!(p.flags.p_type, PType::Data);
    let q = next_data_packet(&mut seq, Vec::new());
    assert_eq!(q.sequence, 43);
}

#[test]
fn liveness_timeout() {
    assert!(link_expired(2_500, 2_000));
    assert!(!link_expired(2_000, 2_000));
    assert!(!link_expired(10, 2_000));
}

#[test]
fn receive_path_drops_duplicates_and_bare_acks() {
    let mut list = AcknowledgementList::new(0);
    let mut check = AcknowledgementCheck::new(500);
    let mut order = OrderList::new(0);
    let first = data(1).compile();
    let out = receive_datagram(&first, &mut list, &mut check, &mut order);
    assert_eq!(out.len(), 1);
    assert_eq!(out[0].payload, vec![1]);
    let again = receive_datagram(&first, &mut list, &mut check, &mut order);
    assert!(again.is_empty());
    let mut bare = Packet::new(PType::AckOnly, 2);
    let mut peer = AcknowledgementList::new(500);
    peer.insert(502).unwrap();
    bare.add_ack(peer.get());
    let out = receive_datagram(&bare.compile(), &mut list, &mut check, &mut order);
    assert!(out.is_empty());
    assert!(check.check(&500));
    assert!(!check.check(&501));
    assert!(check.check(&502));
    assert!(!list.check(&2));
    assert!(receive_datagram(&vec![1, 2, 3], &mut list, &mut check, &mut order).is_empty());
}

fn reply(list: &AcknowledgementList, seq: u32) -> Vec<u8> {
    let mut p = Packet::new(PType::AckOnly, seq);
    p.add_ack(list.get());
    p.compile()
}

#[test]
fn retransmission_delivers_window_in_order() {
    let config = LinkConfig { window_size: 4, ..LinkConfig::default() };
    // peer A sends from sequence 0, peer B sends from 1000
    let mut a_check = AcknowledgementCheck::new(0);
    let mut a_list = AcknowledgementList::new(1000);
    let mut a_order = OrderList::new(1000);
    let mut b_check = AcknowledgementCheck::new(1000);
    let mut b_list = AcknowledgementList::new(0);
    let mut b_order = OrderList::new(0);

    let mut send_seq = 0;
    let mut queue: Vec<Packet> = (1..=4u8)
        .map(|i| next_data_packet(&mut send_seq, vec![i]))
        .collect();

    let mut window = SendWindow::new();
    let mut first_pass = true;
    let mut delivered: Vec<Vec<u8>> = Vec::new();
    let mut passes = 0;
    let mut idle = false;
    for _ in 0..200 {
        match window.step(&a_check, &a_list, &config) {
            SendAction::Refill => {
                let n = queue.len().min(config.window_size as usize);
                let fetched: Vec<Packet> = queue.drain(..n).collect();
                idle = window.refill(fetched, send_seq, &config);
                if idle {
                    break;
                }
            }
            SendAction::Transmit(bytes) => {
                let p = Packet::parse(&bytes).unwrap();
                if first_pass && (p.sequence == 2 || p.sequence == 3) {
                    continue;
                }
                for q in receive_datagram(&bytes, &mut b_list, &mut b_check, &mut b_order) {
                    delivered.push(q.payload);
                }
            }
            SendAction::Skip => {}
            SendAction::Wait(_) => {
                first_pass = false;
                passes += 1;
                let back = reply(&b_list, 1000);
                receive_datagram(&back, &mut a_list, &mut a_check, &mut a_order);
            }
            SendAction::Stop(_) => panic!("link given up"),
        }
    }
    assert!(idle);
    assert!(passes < config.max_retries);
    assert_eq!(delivered, vec![vec![1], vec![2], vec![3], vec![4]]);
}

#[test]
fn window_is_given_up_after_max_retries() {
    let config = LinkConfig { window_size: 1, max_retries: 3, ..LinkConfig::default() };
    let check = AcknowledgementCheck::new(0);
    let list = AcknowledgementList::new(0);
    let mut window = SendWindow::new();
    assert!(matches!(window.step(&check, &list, &config), SendAction::Refill));
    assert!(!window.refill(vec![data(1)], 1, &config));
    let mut waits = 0;
    loop {
        match window.step(&check, &list, &config) {
            SendAction::Transmit(_) => {}
            SendAction::Wait(d) => {
                assert_eq!(d, config.retry_delay);
                waits += 1;
            }
            SendAction::Stop(_) => break,
            other => panic!("unexpected {:?}", other),
        }
    }
    assert_eq!(waits, 3);
}

#[test]
fn idle_window_sends_keepalive() {
    let config = LinkConfig::default();
    let check = AcknowledgementCheck::new(0);
    let list = AcknowledgementList::new(7);
    let mut window = SendWindow::new();
    assert!(window.refill(Vec::new(), 9, &config));
    match window.step(&check, &list, &config) {
        SendAction::Transmit(bytes) => {
            let p = Packet::parse(&bytes).unwrap();
            assert_eq!(p.flags.p_type, PType::AckOnly);
            assert_eq!(p.sequence, 9);
            assert_eq!(p.ack.ack_begin, 7);
            assert!(p.flags.ack);
        }
        other => panic!("unexpected {:?}", other),
    }
    match window.step(&check, &list, &config) {
        SendAction::Wait(d) => assert_eq!(d, config.ack_only_time),
        other => panic!("unexpected {:?}", other),
    }
    assert!(window.is_empty());
}

#[test]
fn receive_path_routes_packets_beyond_the_window() {
    let mut list = AcknowledgementList::new(0);
    let mut check = AcknowledgementCheck::new(0);
    let mut order = OrderList::new(299);
    let out = receive_datagram(&data(300).compile(), &mut list, &mut check, &mut order);
    assert_eq!(out.len(), 1);
    assert_eq!(out[0].sequence, 300);
    assert!(!list.check(&300));
    let again = receive_datagram(&data(300).compile(), &mut list, &mut check, &mut order);
    assert!(again.is_empty());
}

#[test]
fn summary_describes_received_set() {
    let mut list = AcknowledgementList::new(16);
    for v in [16, 17, 18, 20, 21, 22, 32] {
        list.insert(v).unwrap();
    }
    let ack = list.get();
    assert_eq!((ack.ack_begin, ack.ack_end), (18, 14));
    assert_eq!(ack.miss[0], 1);
    assert!(!ack.miss.contains(&ack.ack_end));
    let mut check = AcknowledgementCheck::new(0);
    check.acknowledge(ack);
    for s in 0..40u32 {
        assert_eq!(check.check(&s), list.check(&s));
    }
}
