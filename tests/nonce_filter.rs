use shadowsocks_core::bloom::PingPongBloom;
use shadowsocks_core::config::ConfigType;

fn nonce(i: u64) -> Vec<u8> {
    let mut v = b"nonce-".to_vec();
    v.extend_from_slice(&i.to_be_bytes());
    v
}

#[test]
fn new_filter_sizes_slots_by_role() {
    let client = PingPongBloom::new(ConfigType::Local);
    assert_eq!(client.item_count, 5_000);
    let server = PingPongBloom::new(ConfigType::Server);
    assert_eq!(server.item_count, 500_000);
    assert_eq!(server.active.count, 0);
    assert_eq!(server.retiring.count, 0);
}

#[test]
fn first_check_is_novel_second_is_replay() {
    let mut f = PingPongBloom::new(ConfigType::Local);
    assert!(!f.check_and_set(b"abc"));
    assert!(f.check_and_set(b"abc"));
    assert!(!f.check_and_set(b"abd"));
    assert_eq!(f.active.count, 2);
}

#[test]
fn same_nonce_admitted_exactly_once() {
    let mut f = PingPongBloom::new(ConfigType::Server);
    let results: Vec<bool> = (0..16).map(|_| f.check_nonce_and_set(b"repeated nonce")).collect();
    assert_eq!(results.iter().filter(|r| !**r).count(), 1);
    assert!(!results[0]);
}

#[test]
fn empty_nonce_is_always_novel() {
    let mut f = PingPongBloom::new(ConfigType::Local);
    for _ in 0..5 {
        assert!(!f.check_nonce_and_set(b""));
    }
    assert_eq!(f.active.count, 0);
    assert_eq!(f.retiring.count, 0);
}

#[test]
fn full_active_slot_rotates() {
    let mut f = PingPongBloom::new(ConfigType::Local);
    for i in 0..5_000 {
        assert!(!f.check_and_set(&nonce(i)));
    }
    assert_eq!(f.active.count, 5_000);
    assert_eq!(f.retiring.count, 0);
    assert!(!f.check_and_set(&nonce(5_000)));
    assert_eq!(f.active.count, 1);
    assert_eq!(f.retiring.count, 5_000);
    // the retiring slot still answers for the items before the rotation
    assert!(f.check_and_set(&nonce(0)));
    assert!(f.check_and_set(&nonce(4_999)));
}

#[test]
fn record_counts_and_rotates() {
    let mut f = PingPongBloom::new(ConfigType::Local);
    f.record(b"x");
    assert_eq!(f.active.count, 1);
    assert!(f.check_and_set(b"x"));
}

#[test]
fn items_older_than_two_rotations_are_forgotten() {
    let mut f = PingPongBloom::new(ConfigType::Local);
    for i in 0..15_000 {
        assert!(!f.check_and_set(&nonce(i)));
    }
    // the last 10,000 are still held
    for i in 5_000..15_000 {
        assert!(f.check_and_set(&nonce(i)));
    }
    // the first 5,000 were cleared
    for i in 0..100 {
        assert!(!f.check_and_set(&nonce(i)));
    }
}

#[test]
fn false_positive_rate_is_small() {
    let mut f = PingPongBloom::new(ConfigType::Local);
    for i in 0..10_000 {
        f.check_and_set(&nonce(i));
    }
    let mut hits = 0u32;
    for i in 1_000_000..1_100_000u64 {
        if f.check_and_set(&nonce(i)) {
            hits += 1;
        }
    }
    // the client filter is sized for one false positive in 10^15
    assert!(hits <= 1);
}

#[test]
fn server_filter_keeps_most_recent_million() {
    let mut f = PingPongBloom::new(ConfigType::Server);
    // at a false-positive rate of one in a million a handful of fresh nonces may
    // be reported as replays; those are not recorded
    let mut recorded = Vec::new();
    for i in 0..1_500_000u64 {
        if !f.check_and_set(&nonce(i)) {
            recorded.push(i);
        }
    }
    assert!(recorded.len() >= 1_499_980);
    assert_eq!(f.retiring.count, 500_000);
    assert_eq!(f.active.count, recorded.len() - 1_000_000);
    // the two slots hold the most recent recorded nonces: a full retiring slot and the
    // active one, so 1,000,000 less the fresh nonces that were reported as replays
    let window = f.active.count + f.retiring.count;
    assert_eq!(window, recorded.len() - 500_000);
    assert!(window >= 999_980);
    for &i in &recorded[recorded.len() - window..] {
        assert!(f.check_and_set(&nonce(i)));
    }
    let mut forgotten = 0u32;
    for i in 0..500_000u64 {
        if !f.check_and_set(&nonce(i)) {
            forgotten += 1;
        }
    }
    assert!(forgotten >= 499_000);
}

#[test]
fn server_false_positive_rate_is_near_configured() {
    let mut f = PingPongBloom::new(ConfigType::Server);
    for i in 0..1_000_000u64 {
        f.check_and_set(&nonce(i));
    }
    let mut hits = 0u32;
    for i in 10_000_000..11_000_000u64 {
        if f.check_and_set(&nonce(i)) {
            hits += 1;
        }
    }
    // about one in a million per slot: within an order of magnitude
    assert!(hits <= 20);
}

#[test]
fn bitmaps_are_sized_by_role_and_keep_their_size() {
    let mut server = PingPongBloom::new(ConfigType::Server);
    assert_eq!(server.active.bloom.number_of_bits(), 8 * 1_797_199);
    let mut client = PingPongBloom::new(ConfigType::Local);
    assert_eq!(client.retiring.bloom.number_of_bits(), 8 * 44_930);
    for i in 0..12_000 {
        client.check_and_set(&nonce(i));
    }
    server.check_and_set(b"one");
    assert_eq!(client.active.bloom.number_of_bits(), 8 * 44_930);
    assert_eq!(client.retiring.bloom.number_of_bits(), 8 * 44_930);
    assert_eq!(server.active.bloom.number_of_bits(), 8 * 1_797_199);
}

#[test]
fn item_followed_by_a_full_slot_is_still_held() {
    let mut f = PingPongBloom::new(ConfigType::Local);
    assert!(!f.check_and_set(b"first"));
    for i in 0..5_000 {
        f.check_and_set(&nonce(i));
    }
    // exactly a slot's worth of later inserts: one rotation has passed
    assert!(f.check_and_set(b"first"));
}
