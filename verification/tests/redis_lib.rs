use redis_postgres_migrator::redis_lib::{
    account_value, create_account, create_invitation, create_origin, create_secret_key,
    create_session, datastore_address, join, key_path, key_root, lower_hex,
};

#[test]
fn account_record_from_session() {
    let session = create_session(String::from("hail2theking"), 64, String::from("bobo@chef.io"), String::from("Bobo T. Clown"));
    let account = create_account(&session);
    assert_eq!(account.id, 0);
    assert_eq!(account.email, "bobo@chef.io");
    assert_eq!(account.name, "Bobo T. Clown");
}

#[test]
fn origin_invitation_and_key_records() {
    let o = create_origin("blah", 7);
    assert_eq!((o.id, o.name.as_str(), o.owner_id), (0, "blah", 7));
    let i = create_invitation(5000, "invitee1", 3, "blah", 7);
    assert_eq!((i.account_id, i.account_name.as_str(), i.origin_id, i.origin_name.as_str(), i.owner_id), (5000, "invitee1", 3, "blah", 7));
    let k = create_secret_key(3, "bb8", "revision1", "body1", 5000);
    assert_eq!(k.body, b"body1".to_vec());
    assert_eq!((k.origin_id, k.name.as_str(), k.revision.as_str(), k.owner_id), (3, "bb8", "revision1", 5000));
    let k = create_secret_key(3, "bb8", "r", "é", 1);
    assert_eq!(k.body, "é".as_bytes().to_vec());
}

#[test]
fn account_value_reads_the_id() {
    assert_eq!(account_value("64".to_string()), 64);
    assert_eq!(account_value("5000".to_string()), 5000);
}

#[test]
fn hex_without_padding() {
    assert_eq!(lower_hex(0), "0");
    assert_eq!(lower_hex(0x0c), "c");
    assert_eq!(lower_hex(0xab), "ab");
    assert_eq!(lower_hex(0x10), "10");
    for b in 0..=255u8 {
        assert_eq!(lower_hex(b), format!("{:x}", b));
    }
}

#[test]
fn join_like_path_join() {
    for (base, part) in [("a", "b"), ("a/", "b"), ("", "b"), ("a", "/b"), ("/x/y", "keys"), ("a", "")] {
        let expected = std::path::Path::new(base).join(part).to_string_lossy().into_owned();
        assert_eq!(join(base.to_string(), part), expected, "{} {}", base, part);
    }
}

#[test]
fn key_root_default() {
    assert_eq!(key_root(None), "/hab/svc/builder-depot/data");
    assert_eq!(key_root(Some("/tmp/keys".to_string())), "/tmp/keys");
}

#[test]
fn key_paths() {
    assert_eq!(
        key_path("/hab/svc/builder-depot/data".to_string(), "bb8", "20160423193732"),
        "/hab/svc/builder-depot/data/keys/35/ab/bb8-20160423193732.pub"
    );
    assert_eq!(key_path("/r".to_string(), "core", "8"), "/r/keys/12/c/core-8.pub");
    assert_eq!(key_path("/r/".to_string(), "core", "22"), "/r/keys/a/34/core-22.pub");
}

#[test]
fn datastore_addresses() {
    assert_eq!(datastore_address("redis://127.0.0.1:6379"), "127.0.0.1:6379");
    assert_eq!(datastore_address("127.0.0.1:6379"), "127.0.0.1:6379");
    assert_eq!(datastore_address("redis://redis://a"), "a");
    assert_eq!(datastore_address("xredis:/"), "xredis:/");
    for s in ["redis://127.0.0.1/", "rredis://x", "redis:/", "", "aredis://bredis://c"] {
        assert_eq!(datastore_address(s), s.replace("redis://", ""));
    }
}
