use sui_id::refresh_tokens::{first_opened_match, lookup_result, plan_backfill, token_hash_bytes, LookupError};

#[test]
fn hash_is_sha256_of_the_bytes() {
    let h = token_hash_bytes("abc");
    let hex: String = h.iter().map(|x| format!("{:02x}", x)).collect();
    assert_eq!(hex, "ba7816bf8f01cfea414140de5dae2223b00361a396177a9cb410ff61f20015ad");
}

#[test]
fn fallback_scan_picks_first_match() {
    let opened = vec![None, Some(b"other".to_vec()), Some(b"tok".to_vec()), Some(b"tok".to_vec())];
    assert_eq!(first_opened_match(&opened, "tok"), Some(2));
    assert_eq!(first_opened_match(&opened, "to"), None);
    assert_eq!(first_opened_match(&vec![], "tok"), None);
}

#[test]
fn lookup_prefers_indexed_hit() {
    assert_eq!(lookup_result(Some(1), Some(2)), Ok(1));
    assert_eq!(lookup_result(None, Some(2)), Ok(2));
    assert_eq!(lookup_result::<i32>(None, None), Err(LookupError::NotFound));
}

#[test]
fn backfill_skips_unopenable_and_non_utf8_rows() {
    let rows = vec![
        ("a".to_string(), Some(b"abc".to_vec())),
        ("b".to_string(), None),
        ("c".to_string(), Some(vec![0xff, 0xfe])),
        ("d".to_string(), Some(b"x".to_vec())),
    ];
    let plan = plan_backfill(&rows);
    assert_eq!(plan.len(), 2);
    assert_eq!(plan[0].0, "a");
    assert_eq!(plan[0].1, token_hash_bytes("abc"));
    assert_eq!(plan[1].0, "d");
    assert_eq!(plan[1].1, token_hash_bytes("x"));
}
