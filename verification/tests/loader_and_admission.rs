use user_lookup::admission::AdmissionController;
use user_lookup::cache::load_cache;
use user_lookup::payload::payload_matches_key;
use user_lookup::user::demo_users;

fn payload(id: u32, email: &str) -> Vec<u8> {
    format!(
        "{{\"id\":{},\"email\":\"{}\",\"password\":\"pw\",\"created_at\":\"2025-06-17T12:00:00Z\"}}",
        id, email
    )
    .into_bytes()
}

#[test]
fn loader_keeps_decodable_matching_entries() {
    let entries = vec![(1u32, payload(1, "a@example.com")), (2u32, payload(2, "b@example.com"))];
    let cache = load_cache(&entries);
    assert_eq!(cache.len(), 2);
    assert_eq!(cache.get(1), Some(&entries[0].1));
    assert_eq!(cache.get(2), Some(&entries[1].1));
    assert_eq!(cache.get(3), None);
}

#[test]
fn loader_skips_undecodable_entries() {
    let entries = vec![
        (1u32, payload(1, "a@example.com")),
        (2u32, b"not json at all".to_vec()),
        (3u32, b"{\"id\":3}".to_vec()),
        (4u32, b"{\"id\":\"4\",\"email\":\"x\",\"password\":\"y\",\"created_at\":\"z\"}".to_vec()),
        (5u32, payload(5, "e@example.com")),
    ];
    let cache = load_cache(&entries);
    assert_eq!(cache.len(), 2);
    assert!(cache.contains(1));
    assert!(!cache.contains(2));
    assert!(!cache.contains(3));
    assert!(!cache.contains(4));
    assert!(cache.contains(5));
}

#[test]
fn loader_skips_entries_whose_embedded_id_mismatches_the_key() {
    let entries = vec![(7u32, payload(8, "misfiled@example.com")), (9u32, payload(9, "ok@example.com"))];
    let cache = load_cache(&entries);
    assert_eq!(cache.len(), 1);
    assert!(!cache.contains(7));
    assert!(!cache.contains(8));
    assert!(cache.contains(9));
}

#[test]
fn later_entry_under_the_same_key_replaces_the_earlier() {
    let first = payload(6, "old@example.com");
    let second = payload(6, "new@example.com");
    let entries = vec![(6u32, first), (6u32, second.clone())];
    let cache = load_cache(&entries);
    assert_eq!(cache.len(), 1);
    assert_eq!(cache.get(6), Some(&second));
}

#[test]
fn reloading_an_unchanged_scan_is_idempotent() {
    let mut entries: Vec<(u32, Vec<u8>)> = demo_users()
        .iter()
        .map(|u| {
            (
                u.id,
                format!(
                    "{{\"id\":{},\"email\":\"{}\",\"password\":\"{}\",\"created_at\":\"{}\"}}",
                    u.id, u.email, u.password, u.created_at
                )
                .into_bytes(),
            )
        })
        .collect();
    entries.push((77u32, b"corrupt".to_vec()));
    let first = load_cache(&entries);
    let second = load_cache(&entries);
    assert_eq!(first.len(), second.len());
    for id in 0u32..100 {
        assert_eq!(first.get(id), second.get(id));
    }
}

#[test]
fn payload_check_rejects_bytes_handed_back_unchanged() {
    let good = payload(3, "c@example.com");
    assert!(payload_matches_key(3, &good));
    assert!(!payload_matches_key(4, &good));
    assert!(!payload_matches_key(3, b"{\"id\":3"));
    assert!(!payload_matches_key(0, b""));
}

#[test]
fn admission_pool_grants_up_to_capacity_and_recovers() {
    let mut pool = AdmissionController::new(2);
    assert_eq!(pool.available(), 2);
    assert!(pool.try_acquire());
    assert!(pool.try_acquire());
    // the pool is exhausted: excess requests are denied, never queued
    assert!(!pool.try_acquire());
    assert!(!pool.try_acquire());
    assert_eq!(pool.available(), 0);
    pool.release();
    assert_eq!(pool.available(), 1);
    assert!(pool.try_acquire());
    pool.release();
    pool.release();
    // after the burst the pool is back at nominal capacity
    assert_eq!(pool.available(), 2);
}

#[test]
fn zero_capacity_pool_denies_everything() {
    let mut pool = AdmissionController::new(0);
    assert!(!pool.try_acquire());
    assert_eq!(pool.available(), 0);
}

#[test]
fn demo_users_hold_the_seeded_records() {
    let users = demo_users();
    assert_eq!(users.len(), 5);
    let emails: Vec<&str> = users.iter().map(|u| u.email.as_str()).collect();
    assert_eq!(
        emails,
        vec![
            "alice@example.com",
            "bob@example.com",
            "carol@example.com",
            "dave@example.com",
            "eve@example.com",
        ]
    );
    for (i, u) in users.iter().enumerate() {
        assert_eq!(u.id as usize, i + 1);
    }
}
