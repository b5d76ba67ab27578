use redis_postgres_migrator::model::OAuthProvider;
use redis_postgres_migrator::postgres_lib::{
    create_account_origin, create_origin, create_session, data_store_config, data_store_config_for,
    data_store_config_with,
    is_account_in_origin, is_member_in_origin, pool_shards,
};

#[test]
fn session_for_github() {
    let sc = create_session(String::from("hail2theking"), 64, String::from("bobo@chef.io"), String::from("Bobo T. Clown"));
    assert_eq!(sc.token, "hail2theking");
    assert_eq!(sc.extern_id, 64);
    assert_eq!(sc.email, "bobo@chef.io");
    assert_eq!(sc.name, "Bobo T. Clown");
    assert_eq!(sc.provider, OAuthProvider::GitHub);
}

#[test]
fn origin_request() {
    let oc = create_origin(&"bb8".to_string(), 5000, &"account_name".to_string());
    assert_eq!(oc.name, "bb8");
    assert_eq!(oc.owner_id, 5000);
    assert_eq!(oc.owner_name, "account_name");
}

#[test]
fn account_origin_request() {
    let aoc = create_account_origin(3, &"core".to_string(), 9, &"bobo".to_string());
    assert_eq!((aoc.origin_id, aoc.origin_name.as_str(), aoc.account_id, aoc.account_name.as_str()), (3, "core", 9, "bobo"));
}

#[test]
fn membership_checks() {
    let names = vec!["core".to_string(), "bb8".to_string()];
    assert!(is_account_in_origin(&names, &"bb8".to_string()));
    assert!(!is_account_in_origin(&names, &"bb9".to_string()));
    assert!(!is_account_in_origin(&Vec::new(), &"bb8".to_string()));
    assert!(is_member_in_origin(&names, &"core".to_string()));
    assert!(!is_member_in_origin(&names, &"Core".to_string()));
}

#[test]
fn data_store_settings() {
    let cfg = data_store_config_for("builder_sessionsrv", Some("secret".to_string()), 4);
    assert_eq!(cfg.host, [127, 0, 0, 1]);
    assert_eq!(cfg.port, 5432);
    assert_eq!(cfg.user, "hab");
    assert_eq!(cfg.password, Some("secret".to_string()));
    assert_eq!(cfg.database, "builder_sessionsrv");
    assert_eq!(cfg.connection_retry_ms, 300);
    assert_eq!(cfg.connection_timeout_sec, 60);
    assert!(!cfg.connection_test);
    assert_eq!(cfg.pool_size, 8);
    let cfg = data_store_config_for("builder_originsrv", None, 1);
    assert_eq!(cfg.password, None);
    assert_eq!(cfg.pool_size, 2);
}

#[test]
fn data_store_settings_on_this_machine() {
    let cfg = data_store_config("builder_originsrv", None).unwrap();
    assert!(cfg.pool_size >= 2);
    assert_eq!(cfg.pool_size % 2, 0);
    assert_eq!(cfg.database, "builder_originsrv");
}

#[test]
fn shards_one_to_127() {
    let shards = pool_shards();
    assert_eq!(shards, (1..128).collect::<Vec<u32>>());
}

#[test]
fn data_store_settings_for_a_cpu_count() {
    let cfg = data_store_config_with("builder_sessionsrv", None, 3).unwrap();
    assert_eq!(cfg.pool_size, 6);
    assert_eq!(cfg.database, "builder_sessionsrv");
    assert!(data_store_config_with("builder_sessionsrv", None, usize::MAX / 2 + 1).is_none());
    assert_eq!(data_store_config_with("builder_sessionsrv", None, usize::MAX / 2).map(|c| c.port), Some(5432));
}
