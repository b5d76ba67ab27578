use redis_postgres_migrator::redis_extraction::{ids_from_captures, key_ids, key_ids_of, keys_pattern};

#[test]
fn keys_pattern_for_entities() {
    assert_eq!(keys_pattern("account"), "*account:*");
    assert_eq!(keys_pattern("origin"), "*origin:*");
    assert_eq!(keys_pattern(""), "*:*");
}

#[test]
fn account_key_gives_its_id() {
    assert_eq!(key_ids_of("account:123"), vec![Some(123)]);
}

#[test]
fn every_colon_number_is_an_id() {
    assert_eq!(key_ids_of("origin:5:6"), vec![Some(5), Some(6)]);
    assert_eq!(key_ids_of("origin:invites:17"), vec![Some(17)]);
    assert_eq!(key_ids_of("account:abc"), Vec::<Option<u64>>::new());
    assert_eq!(key_ids_of("account"), Vec::<Option<u64>>::new());
    assert_eq!(key_ids_of("account:12x"), vec![Some(12)]);
}

#[test]
fn ids_too_large_do_not_read() {
    assert_eq!(key_ids_of("account:99999999999999999999"), vec![None]);
}

#[test]
fn unicode_digits_match_but_do_not_read() {
    assert_eq!(key_ids_of("account:١٢"), vec![None]);
}

#[test]
fn ids_of_keys_in_order() {
    let keys = vec!["account:1".to_string(), "account:20".to_string(), "account:x".to_string(), "origin:3:4".to_string()];
    assert_eq!(key_ids(&keys), vec![Some(1), Some(20), Some(3), Some(4)]);
    assert_eq!(key_ids(&Vec::new()), Vec::<Option<u64>>::new());
}

#[test]
fn captures_read_as_ids() {
    let caps = vec!["7".to_string(), "+8".to_string(), "x".to_string()];
    assert_eq!(ids_from_captures(&caps), vec![Some(7), Some(8), None]);
}
