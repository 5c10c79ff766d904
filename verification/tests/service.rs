use user_lookup::admission::AdmissionController;
use user_lookup::cache::{load_cache, Cache};
use user_lookup::router::{parse_u32, router, HttpResponse};
use user_lookup::user::demo_users;

fn payload(id: u32, email: &str, password: &str, created_at: &str) -> Vec<u8> {
    format!(
        "{{\"id\":{},\"email\":\"{}\",\"password\":\"{}\",\"created_at\":\"{}\"}}",
        id, email, password, created_at
    )
    .into_bytes()
}

fn demo_entries() -> Vec<(u32, Vec<u8>)> {
    demo_users()
        .iter()
        .map(|u| (u.id, payload(u.id, &u.email, &u.password, &u.created_at)))
        .collect()
}

fn demo_cache() -> Cache {
    load_cache(&demo_entries())
}

fn get(cache: &Cache, path: &str) -> HttpResponse {
    router(true, b"GET", path.as_bytes(), cache)
}

fn assert_json_headers(r: &HttpResponse) {
    assert_eq!(r.content_type, "application/json");
    if r.status == 200 {
        assert_eq!(r.cache_control.as_deref(), Some("public, max-age=3600"));
    } else {
        assert!(r.cache_control.is_none());
    }
}

#[test]
fn present_id_round_trips_to_stored_record() {
    let entries = demo_entries();
    let cache = load_cache(&entries);
    for (id, bytes) in &entries {
        let r = get(&cache, &format!("/user/{}", id));
        assert_eq!(r.status, 200);
        assert_eq!(&r.body, bytes);
        assert_json_headers(&r);
        let v: serde_json::Value = serde_json::from_slice(&r.body).unwrap();
        assert_eq!(v.get("id").and_then(serde_json::Value::as_u64), Some(*id as u64));
    }
}

#[test]
fn absent_id_is_not_found() {
    let cache = demo_cache();
    let r = get(&cache, "/user/99");
    assert_eq!(r.status, 404);
    assert_eq!(r.body, b"{\"error\":\"User not found\"}".to_vec());
    assert_json_headers(&r);
}

#[test]
fn unparsable_segment_is_bad_request() {
    let cache = demo_cache();
    for path in ["/user/abc", "/user/-1", "/user/", "/user/4294967296", "/user/+", "/user/1x"] {
        let r = get(&cache, path);
        assert_eq!(r.status, 400, "path {:?}", path);
        assert_eq!(r.body, b"{\"error\":\"Invalid user ID\"}".to_vec());
        assert_json_headers(&r);
    }
}

#[test]
fn unmatched_routes_are_not_found() {
    let cache = demo_cache();
    for path in ["/", "/user", "/users/3", "/other", ""] {
        let r = get(&cache, path);
        assert_eq!(r.status, 404, "path {:?}", path);
        assert_eq!(r.body, b"{\"error\":\"User not found\"}".to_vec());
    }
    let r = router(true, b"POST", b"/user/3", &cache);
    assert_eq!(r.status, 404);
    let r = router(true, b"get", b"/user/3", &cache);
    assert_eq!(r.status, 404);
}

#[test]
fn trailing_segments_are_not_found() {
    let cache = demo_cache();
    for path in ["/user/3/extra", "/user/3/", "/user//3", "/user//"] {
        let r = get(&cache, path);
        assert_eq!(r.status, 404, "path {:?}", path);
        assert_eq!(r.body, b"{\"error\":\"User not found\"}".to_vec());
    }
}

#[test]
fn denied_admission_is_busy() {
    let cache = demo_cache();
    let r = router(false, b"GET", b"/user/3", &cache);
    assert_eq!(r.status, 503);
    assert_eq!(r.body, b"{\"error\":\"Server busy\"}".to_vec());
    assert_json_headers(&r);
}

#[test]
fn repeated_reads_are_byte_identical() {
    let cache = demo_cache();
    let r1 = get(&cache, "/user/3");
    let r2 = get(&cache, "/user/3");
    assert_eq!(r1.status, r2.status);
    assert_eq!(r1.body, r2.body);
}

#[test]
fn scenario_demo_store() {
    let cache = demo_cache();

    let r = get(&cache, "/user/3");
    assert_eq!(r.status, 200);
    let v: serde_json::Value = serde_json::from_slice(&r.body).unwrap();
    assert_eq!(v.get("email").and_then(serde_json::Value::as_str), Some("carol@example.com"));

    let r = get(&cache, "/user/99");
    assert_eq!(r.status, 404);

    let r = get(&cache, "/user/abc");
    assert_eq!(r.status, 400);

    // A burst of 1000 reads of the same id, each round acquiring one of 10
    // permits and releasing it at the terminal response: every read
    // succeeds with an identical body and the pool ends at nominal.
    let mut pool = AdmissionController::new(10);
    let reference = get(&cache, "/user/3");
    for _ in 0..1000 {
        let granted = pool.try_acquire();
        assert!(granted);
        let r = get(&cache, "/user/3");
        assert_eq!(r.status, 200);
        assert_eq!(r.body, reference.body);
        pool.release();
    }
    assert_eq!(pool.available(), 10);
}

#[test]
fn parse_u32_accepts_exactly_u32_decimals() {
    assert_eq!(parse_u32(b"0"), Some(0));
    assert_eq!(parse_u32(b"3"), Some(3));
    assert_eq!(parse_u32(b"007"), Some(7));
    assert_eq!(parse_u32(b"+3"), Some(3));
    assert_eq!(parse_u32(b"4294967295"), Some(u32::MAX));
    assert_eq!(parse_u32(b"4294967296"), None);
    assert_eq!(parse_u32(b"99999999999999999999"), None);
    assert_eq!(parse_u32(b""), None);
    assert_eq!(parse_u32(b"+"), None);
    assert_eq!(parse_u32(b"++1"), None);
    assert_eq!(parse_u32(b"-1"), None);
    assert_eq!(parse_u32(b"1 "), None);
    assert_eq!(parse_u32(b"abc"), None);
    // parse_u32 agrees with str::parse::<u32> on every case above
    for s in ["0", "3", "007", "+3", "4294967295", "4294967296", "", "+", "++1", "-1", "1 ", "abc"]
    {
        assert_eq!(parse_u32(s.as_bytes()), s.parse::<u32>().ok(), "input {:?}", s);
    }
}
