use redis_postgres_migrator::migrators::account::AccountMigrator;
use redis_postgres_migrator::migrators::account_origin::AccountOriginMigrator;
use redis_postgres_migrator::migrators::common::{Action, Failure, Reply};
use redis_postgres_migrator::migrators::invitation::InvitationMigrator;
use redis_postgres_migrator::migrators::origin::OriginMigrator;
use redis_postgres_migrator::migrators::origin_key::OriginKeyMigrator;
use redis_postgres_migrator::migrators::origin_member::OriginMemberMigrator;
use redis_postgres_migrator::migrators::package::PackageMigrator;
use redis_postgres_migrator::migrators::public_keys::PublicKeysMigration;
use redis_postgres_migrator::migrators::secret_key::SecretKeyMigrator;
use redis_postgres_migrator::model::{
    Account, Origin, OriginInvitation, OriginInvitationCreate, OriginKeyIdent, OriginPackageCreate,
    OriginPublicKeyCreate, OriginSecretKey, OriginSecretKeyCreate, Package, PackageIdent,
    SessionCreate,
};
use redis_postgres_migrator::postgres_lib;
use redis_postgres_migrator::redis_lib;

/// Both stores, held in memory.
#[derive(Default)]
struct World {
    next_id: u64,
    redis_accounts: Vec<Account>,
    redis_origins: Vec<Origin>,
    redis_invitations: Vec<OriginInvitation>,
    redis_secret_keys: Vec<OriginSecretKey>,
    redis_packages: Vec<Package>,
    redis_origin_keys: Vec<OriginKeyIdent>,
    redis_account_origins: Vec<(u64, String)>,
    redis_origin_members: Vec<(u64, String)>,
    stray_keys: Vec<String>,
    key_files: Vec<(String, Vec<u8>)>,
    pg_accounts: Vec<Account>,
    pg_origins: Vec<Origin>,
    pg_account_origins: Vec<(u64, String)>,
    pg_members: Vec<(u64, String)>,
    pg_invitations: Vec<OriginInvitationCreate>,
    pg_public_keys: Vec<OriginPublicKeyCreate>,
    pg_packages: Vec<OriginPackageCreate>,
    pg_secret_keys: Vec<OriginSecretKeyCreate>,
    writes: usize,
}

fn ident_text(i: &PackageIdent) -> String {
    format!("{}/{}/{}/{}", i.origin, i.name, i.version, i.release)
}

impl World {
    fn fresh_id(&mut self) -> u64 {
        self.next_id += 1;
        self.next_id
    }

    fn redis_create_account(&mut self, session: SessionCreate) -> Account {
        let mut a = redis_lib::create_account(&session);
        a.id = self.fresh_id();
        self.redis_accounts.push(a.clone());
        a
    }

    fn redis_create_origin(&mut self, name: &str, owner_id: u64) -> Origin {
        let mut o = redis_lib::create_origin(name, owner_id);
        o.id = self.fresh_id();
        self.redis_origins.push(o.clone());
        o
    }

    fn redis_create_invitation(&mut self, account_id: u64, account_name: &str, origin_id: u64, origin_name: &str, owner_id: u64) -> OriginInvitation {
        let mut i = redis_lib::create_invitation(account_id, account_name, origin_id, origin_name, owner_id);
        i.id = self.fresh_id();
        self.redis_invitations.push(i.clone());
        i
    }

    fn redis_create_secret_key(&mut self, origin_id: u64, name: &str, revision: &str, body: &str, owner_id: u64) -> OriginSecretKey {
        let mut k = redis_lib::create_secret_key(origin_id, name, revision, body, owner_id);
        k.id = self.fresh_id();
        self.redis_secret_keys.push(k.clone());
        k
    }

    fn pg_create_account(&mut self, session: SessionCreate) -> Account {
        if let Some(a) = self.pg_accounts.iter().find(|a| a.name == session.name) {
            return a.clone();
        }
        let a = Account { id: self.fresh_id(), email: session.email, name: session.name };
        self.pg_accounts.push(a.clone());
        a
    }

    fn pg_get_account(&self, name: &str) -> Option<Account> {
        self.pg_accounts.iter().find(|a| a.name == name).cloned()
    }

    fn pg_create_origin(&mut self, name: &str, owner_id: u64, owner_name: &str) -> Option<Origin> {
        let oc = postgres_lib::create_origin(&name.to_string(), owner_id, &owner_name.to_string());
        if self.pg_origins.iter().any(|o| o.name == oc.name) {
            return None;
        }
        let o = Origin { id: self.fresh_id(), name: oc.name.clone(), owner_id: oc.owner_id };
        self.pg_origins.push(o.clone());
        self.pg_members.push((o.id, oc.owner_name));
        self.pg_account_origins.push((oc.owner_id, oc.name));
        Some(o)
    }

    fn keys(&self, pattern: &str) -> Vec<String> {
        let inner = &pattern[1..pattern.len() - 1];
        let mut all: Vec<String> = Vec::new();
        all.extend(self.redis_accounts.iter().map(|a| format!("account:{}", a.id)));
        all.extend(self.redis_origins.iter().map(|o| format!("origin:{}", o.id)));
        all.extend(self.redis_secret_keys.iter().map(|k| format!("origin_secret_key:{}", k.id)));
        all.extend(self.stray_keys.iter().cloned());
        all.into_iter().filter(|k| k.contains(inner)).collect()
    }

    fn perform(&mut self, action: Action) -> Reply {
        match action {
            Action::ListRedisKeys(p) => Reply::Keys(self.keys(&p)),
            Action::FindRedisAccount(id) => Reply::RedisAccount(self.redis_accounts.iter().find(|a| a.id == id).cloned().expect("no redis account")),
            Action::FindRedisOrigin(id) => Reply::RedisOrigin(self.redis_origins.iter().find(|o| o.id == id).cloned().expect("no redis origin")),
            Action::FindRedisSecretKey(id) => Reply::RedisSecretKey(self.redis_secret_keys.iter().find(|k| k.id == id).cloned().expect("no redis key")),
            Action::ListRedisAccountOrigins(id) => Reply::Names(self.redis_account_origins.iter().filter(|p| p.0 == id).map(|p| p.1.clone()).collect()),
            Action::ListRedisInvitations(id) => Reply::Invitations(self.redis_invitations.iter().filter(|i| i.origin_id == id).cloned().collect()),
            Action::ListRedisOriginMembers(id) => Reply::Names(self.redis_origin_members.iter().filter(|p| p.0 == id).map(|p| p.1.clone()).collect()),
            Action::ListRedisPackageIdents(origin) => {
                let mut idents: Vec<PackageIdent> = self.redis_packages.iter().filter(|p| p.ident.origin == origin).map(|p| p.ident.clone()).collect();
                idents.sort_by_key(ident_text);
                Reply::PackageIdents(idents)
            },
            Action::FindRedisPackage(ident) => Reply::RedisPackage(self.redis_packages.iter().find(|p| p.ident == ident).cloned().expect("no package")),
            Action::ListRedisOriginKeys(origin) => Reply::OriginKeys(self.redis_origin_keys.iter().filter(|k| k.origin == origin).cloned().collect()),
            Action::ReadKeyBody(location) => Reply::KeyBody(self.key_files.iter().find(|f| f.0 == location).map(|f| f.1.clone()).expect("that key file does not exist")),
            Action::GetPgAccount(name) => Reply::PgAccount(self.pg_get_account(&name)),
            Action::GetPgOrigin(name) => Reply::PgOrigin(self.pg_origins.iter().find(|o| o.name == name).cloned()),
            Action::ListPgAccountOrigins(id) => Reply::Names(self.pg_account_origins.iter().filter(|p| p.0 == id).map(|p| p.1.clone()).collect()),
            Action::ListPgOriginMembers(id) => Reply::Names(self.pg_members.iter().filter(|p| p.0 == id).map(|p| p.1.clone()).collect()),
            Action::CheckPgOriginKey(origin, revision) => Reply::Exists(self.pg_public_keys.iter().any(|k| k.revision == revision && self.pg_origins.iter().any(|o| o.id == k.origin_id && o.name == origin))),
            Action::CheckPgPackage(ident) => Reply::Exists(self.pg_packages.iter().any(|p| p.ident == ident)),
            Action::CheckPgSecretKey(origin) => Reply::Exists(self.pg_secret_keys.iter().any(|k| self.pg_origins.iter().any(|o| o.id == k.origin_id && o.name == origin))),
            Action::CreateAccount(sc) => {
                self.writes += 1;
                self.pg_create_account(sc);
                Reply::Written
            },
            Action::CreateOrigin(oc) => {
                self.writes += 1;
                self.pg_create_origin(&oc.name, oc.owner_id, &oc.owner_name).expect("error saving origin");
                Reply::Written
            },
            Action::CreateAccountOrigin(aoc) => {
                self.writes += 1;
                self.pg_account_origins.push((aoc.account_id, aoc.origin_name));
                Reply::Written
            },
            Action::CreateInvitation(oic) => {
                self.writes += 1;
                if !self.pg_invitations.iter().any(|i| i.origin_id == oic.origin_id && i.account_id == oic.account_id) {
                    self.pg_invitations.push(oic);
                }
                Reply::Written
            },
            Action::CreateOriginMember(omc) => {
                self.writes += 1;
                self.pg_members.push((omc.origin_id, omc.account_name));
                Reply::Written
            },
            Action::CreateOriginPublicKey(okc) => {
                self.writes += 1;
                self.pg_public_keys.push(okc);
                Reply::Written
            },
            Action::CreatePackage(opc) => {
                self.writes += 1;
                self.pg_packages.push(opc);
                Reply::Written
            },
            Action::CreateSecretKey(osk) => {
                self.writes += 1;
                self.pg_secret_keys.push(osk);
                Reply::Written
            },
            Action::Finish | Action::Abort(_) => panic!("the run has ended"),
        }
    }
}

trait Machine: Sized {
    fn go(self, reply: Reply) -> (Self, Action);
}

impl Machine for AccountMigrator {
    fn go(self, r: Reply) -> (Self, Action) { self.step(r) }
}
impl Machine for AccountOriginMigrator {
    fn go(self, r: Reply) -> (Self, Action) { self.step(r) }
}
impl Machine for InvitationMigrator {
    fn go(self, r: Reply) -> (Self, Action) { self.step(r) }
}
impl Machine for OriginMigrator {
    fn go(self, r: Reply) -> (Self, Action) { self.step(r) }
}
impl Machine for OriginKeyMigrator {
    fn go(self, r: Reply) -> (Self, Action) { self.step(r) }
}
impl Machine for OriginMemberMigrator {
    fn go(self, r: Reply) -> (Self, Action) { self.step(r) }
}
impl Machine for PackageMigrator {
    fn go(self, r: Reply) -> (Self, Action) { self.step(r) }
}
impl Machine for SecretKeyMigrator {
    fn go(self, r: Reply) -> (Self, Action) { self.step(r) }
}
impl Machine for PublicKeysMigration {
    fn go(self, r: Reply) -> (Self, Action) { self.step(r) }
}

/// Runs a migration against the world; the last action it asked for.
fn run<M: Machine>(world: &mut World, machine: M) -> Action {
    let mut m = machine;
    let mut reply = Reply::Start;
    for _ in 0..10_000 {
        let (next, act) = m.go(reply);
        m = next;
        match act {
            Action::Finish | Action::Abort(_) => return act,
            other => reply = world.perform(other),
        }
    }
    panic!("the migration did not end");
}

fn session(token: &str, extern_id: u64, email: &str, name: &str) -> SessionCreate {
    postgres_lib::create_session(token.to_string(), extern_id, email.to_string(), name.to_string())
}

fn ident(origin: &str, name: &str, version: &str, release: &str) -> PackageIdent {
    PackageIdent { origin: origin.into(), name: name.into(), version: version.into(), release: release.into() }
}

fn package(origin: &str, name: &str, version: &str, release: &str) -> Package {
    Package {
        ident: ident(origin, name, version, release),
        checksum: format!("sum-{}", name),
        manifest: format!("manifest of {}", name),
        deps: vec![ident("core", "glibc", "2.22", "20160612063629")],
        tdeps: vec![ident("core", "glibc", "2.22", "20160612063629"), ident("core", "linux-headers", "4.3", "20160612063537")],
        exposes: vec![80, 443],
        config: format!("config of {}", name),
    }
}

fn sample_public_key() -> String {
    "-----BEGIN PUBLIC KEY-----
MIGfMA0GCSqGSIb3DQEBAQUAA4GNADCBiQKBgQCqGKukO1De7zhZj6+H0qtjTkVxwTCpvKe4eCZ0
FPqri0cb2JZfXJ/DgYSF6vUpwmJG8wVQZKjeGcjDOL5UlsuusFncCzWBQ7RKNUSesmQRMSGkVb1/
3j+skZ6UtW+5u09lHNsj6tQ51s1SPrCBkedbNf0Tp0GbMJDyR4e9T04ZZwIDAQAB
-----END PUBLIC KEY-----".to_string()
}

#[test]
fn test_redis_account_create() {
    let mut world = World::default();
    let session = redis_lib::create_session(String::from("hail2theking"), 64, String::from("bobo@chef.io"), String::from("Bobo T. Clown"));
    let account = world.redis_create_account(session);
    let id_text = redis_postgres_migrator::text::u64_to_decimal(account.id);
    let found_account = world.redis_accounts.iter().find(|a| a.id == redis_lib::account_value(id_text.clone())).cloned().unwrap();
    assert_eq!(account.id, found_account.id);
}

#[test]
fn test_postgres_account_create() {
    let mut world = World::default();
    let session = postgres_lib::create_session(String::from("hail2theking"), 64, String::from("bobo@chef.io"), String::from("Bobo T. Clown"));
    let account = world.pg_create_account(session);
    let found_account = world.pg_get_account(&account.name).unwrap();
    assert_eq!(account.id, found_account.id);
}

#[test]
fn test_redis_to_postgres_account1() {
    let mut world = World::default();
    let redis_account = world.redis_create_account(session("scopuli", 64, "julie.mao@chef.io", "Julie Mao"));
    let not_found = world.pg_get_account(&redis_account.name);
    assert_eq!(not_found, None);

    let end = run(&mut world, AccountMigrator::redis_to_postgres_account(redis_account.id));
    assert_eq!(end, Action::Finish);

    let postgres_account = world.pg_get_account(&redis_account.name).unwrap();
    assert_eq!(redis_account.name, postgres_account.name);
}

#[test]
fn test_redis_to_postgres_accounts() {
    let mut world = World::default();
    let redis_account = world.redis_create_account(session("scopuli", 64, "julie.mao@chef.io", "Julie Mao"));
    let redis_account2 = world.redis_create_account(session("canterbury", 64, "james.holden@chef.io", "James Holden"));
    let _redis_account3 = world.redis_create_account(session("canterbury", 64, "james.holden@chef.io", "James Holden"));

    let not_found1 = world.pg_get_account(&redis_account.name);
    let not_found2 = world.pg_get_account(&redis_account2.name);
    assert_eq!(not_found1, None);
    assert_eq!(not_found2, None);

    let end = run(&mut world, AccountMigrator::redis_to_postgres());
    assert_eq!(end, Action::Finish);

    let postgres_account = world.pg_get_account(&redis_account.name).unwrap();
    assert_eq!(redis_account.name, postgres_account.name);
    let postgres_account2 = world.pg_get_account(&redis_account2.name).unwrap();
    assert_eq!(redis_account2.name, postgres_account2.name);
}

#[test]
fn account_migration_skips_known_names_and_keeps_data() {
    let mut world = World::default();
    world.redis_create_account(session("t", 1, "a@b.c", "known"));
    let fresh = world.redis_create_account(session("t", 2, "x@y.z", "fresh"));
    world.pg_create_account(session("t", 9, "old@b.c", "known"));
    let writes_before = world.writes;
    assert_eq!(run(&mut world, AccountMigrator::redis_to_postgres()), Action::Finish);
    assert_eq!(world.writes - writes_before, 1);
    let pg = world.pg_get_account("fresh").unwrap();
    assert_eq!(pg.email, fresh.email);
    assert_eq!(world.pg_get_account("known").unwrap().email, "old@b.c");
}

#[test]
fn account_migration_sends_a_pretend_session() {
    let m = AccountMigrator::redis_to_postgres_account(7);
    let (m, a) = m.step(Reply::Start);
    assert_eq!(a, Action::FindRedisAccount(7));
    let acct = Account { id: 7, email: "e@x".into(), name: "n".into() };
    let (m, a) = m.step(Reply::RedisAccount(acct));
    assert_eq!(a, Action::GetPgAccount("n".into()));
    let (m, a) = m.step(Reply::PgAccount(None));
    assert_eq!(a, Action::CreateAccount(session("pretend_session", 7, "e@x", "n")));
    let (_m, a) = m.step(Reply::Written);
    assert_eq!(a, Action::Finish);
}

#[test]
fn malformed_key_id_stops_the_run() {
    let mut world = World::default();
    world.stray_keys.push("account:99999999999999999999".to_string());
    assert_eq!(run(&mut world, AccountMigrator::redis_to_postgres()), Action::Abort(Failure::MalformedKeyId));
}

#[test]
fn unexpected_reply_stops_the_run() {
    let m = AccountMigrator::redis_to_postgres();
    let (m, a) = m.step(Reply::Written);
    assert_eq!(a, Action::Abort(Failure::UnexpectedReply));
    let (_m, a) = m.step(Reply::Start);
    assert_eq!(a, Action::Abort(Failure::UnexpectedReply));
}

#[test]
fn finished_run_stays_finished() {
    let mut world = World::default();
    let m = AccountMigrator::redis_to_postgres();
    let (m, a) = m.step(Reply::Start);
    let r = world.perform(a);
    let (m, a) = m.step(r);
    assert_eq!(a, Action::Finish);
    let (_m, a) = m.step(Reply::Start);
    assert_eq!(a, Action::Finish);
}

#[test]
fn test_migrate() {
    let mut world = World::default();
    let redis_account = world.redis_create_account(session("token", 64, "bobo@chef.io", "owner name"));
    let pg_account = world.pg_create_account(session("token", redis_account.id, &redis_account.email, &redis_account.name));
    let origin1 = world.redis_create_origin("origin_name1", redis_account.id);
    let origin2 = world.redis_create_origin("origin_name2", redis_account.id);

    assert_eq!(run(&mut world, OriginMigrator::new()), Action::Finish);

    let in_origin = |w: &World, name: &str| {
        let o = w.pg_origins.iter().find(|o| o.name == name).unwrap();
        w.pg_members.iter().any(|m| m.0 == o.id && m.1 == pg_account.name) && o.owner_id == pg_account.id
    };
    assert!(in_origin(&world, &origin1.name));
    assert!(in_origin(&world, &origin2.name));
}

#[test]
fn origin_without_postgres_owner_stops() {
    let mut world = World::default();
    let a = world.redis_create_account(session("t", 1, "e", "nobody"));
    world.redis_create_origin("o", a.id);
    assert_eq!(run(&mut world, OriginMigrator::new()), Action::Abort(Failure::NoAccountForOrigin));
    assert_eq!(world.writes, 0);
}

#[test]
fn single_origin_migration() {
    let mut world = World::default();
    let a = world.redis_create_account(session("t", 1, "e", "own"));
    world.pg_create_account(session("t", 1, "e", "own"));
    world.redis_create_origin("o1", a.id);
    let o2 = world.redis_create_origin("o2", a.id);
    assert_eq!(run(&mut world, OriginMigrator::migrate_origin(o2.id)), Action::Finish);
    assert!(world.pg_origins.iter().any(|o| o.name == "o2"));
    assert!(!world.pg_origins.iter().any(|o| o.name == "o1"));
}

#[test]
fn test_migrate_invitations() {
    let mut world = World::default();
    let redis_account_inviter = world.redis_create_account(session("token1", 64, "bobo@chef.io", "inviter"));
    let pg_account_inviter = world.pg_create_account(session("token1", 64, "bobo@chef.io", "inviter"));
    let pg_account_invitee1 = world.pg_create_account(session("token2", 64, "booboo@chef.io", "invitee1"));
    let pg_account_invitee2 = world.pg_create_account(session("token3", 64, "beebee@chef.io", "invitee2"));

    let redis_origin = world.redis_create_origin("blah", redis_account_inviter.id);
    let pg_origin = world.pg_create_origin(&redis_origin.name, redis_account_inviter.id, &redis_account_inviter.name).unwrap();

    world.redis_create_invitation(5000, &pg_account_invitee1.name, redis_origin.id, &redis_origin.name, redis_account_inviter.id);
    world.redis_create_invitation(5001, &pg_account_invitee2.name, redis_origin.id, &redis_origin.name, redis_account_inviter.id);
    world.redis_create_invitation(5001, &pg_account_invitee2.name, redis_origin.id, &redis_origin.name, redis_account_inviter.id);

    assert_eq!(run(&mut world, InvitationMigrator::new()), Action::Finish);

    let pg_invitations: Vec<&OriginInvitationCreate> = world.pg_invitations.iter().filter(|i| i.origin_id == pg_origin.id).collect();
    assert_eq!(2, pg_invitations.len());

    assert_eq!(pg_account_invitee1.id, pg_invitations[0].account_id);
    assert_eq!(pg_account_invitee1.name, pg_invitations[0].account_name);
    assert_eq!(pg_origin.id, pg_invitations[0].origin_id);
    assert_eq!(pg_origin.name, pg_invitations[0].origin_name);
    assert_eq!(pg_account_inviter.id, pg_invitations[0].owner_id);

    assert_eq!(pg_account_invitee2.id, pg_invitations[1].account_id);
    assert_eq!(pg_account_invitee2.name, pg_invitations[1].account_name);
    assert_eq!(pg_origin.id, pg_invitations[1].origin_id);
    assert_eq!(pg_origin.name, pg_invitations[1].origin_name);
    assert_eq!(pg_account_inviter.id, pg_invitations[1].owner_id);
}

#[test]
fn invitation_failures() {
    let mut world = World::default();
    let inviter = world.redis_create_account(session("t", 1, "e", "inviter"));
    let o = world.redis_create_origin("blah", inviter.id);
    assert_eq!(run(&mut world, InvitationMigrator::new()), Action::Abort(Failure::NoOriginInPostgres));
    world.pg_create_origin("blah", inviter.id, "inviter");
    world.redis_create_invitation(1, "ghost", o.id, "blah", inviter.id);
    assert_eq!(run(&mut world, InvitationMigrator::new()), Action::Abort(Failure::NoInviteeAccount));
    world.pg_create_account(session("t", 1, "e", "ghost"));
    assert_eq!(run(&mut world, InvitationMigrator::new()), Action::Abort(Failure::NoOwnerAccount));
}

#[test]
fn test_migrate_public_key() {
    let mut world = World::default();
    let origin = world.redis_create_origin("bb8", 5000);
    let pg_origin = world.pg_create_origin(&origin.name, 5000, "account_name").unwrap();

    let revision = "20160423193732";
    let revision_2 = "20160523193732";
    world.redis_origin_keys.push(OriginKeyIdent { origin: origin.name.clone(), revision: revision.into(), location: "depot".into() });
    world.redis_origin_keys.push(OriginKeyIdent { origin: origin.name.clone(), revision: revision_2.into(), location: "depot".into() });
    world.key_files.push(("tests/fixtures/my_origin_1/my_origin_public_key.pub".into(), sample_public_key().into_bytes()));
    world.key_files.push(("tests/fixtures/my_origin_2/my_origin_public_key2.pub".into(), sample_public_key().into_bytes()));

    let mut origin_keys: Vec<OriginKeyIdent> = world.redis_origin_keys.iter().filter(|k| k.origin == origin.name).cloned().collect();
    origin_keys[0].location = "tests/fixtures/my_origin_1/my_origin_public_key.pub".to_string();
    origin_keys[1].location = "tests/fixtures/my_origin_2/my_origin_public_key2.pub".to_string();
    assert_eq!(origin_keys.len(), 2);

    assert_eq!(run(&mut world, OriginKeyMigrator::new(origin.name.clone(), origin_keys)), Action::Finish);

    let pg_origin_keys: Vec<&OriginPublicKeyCreate> = world.pg_public_keys.iter().filter(|k| k.origin_id == pg_origin.id).collect();
    assert_eq!(pg_origin_keys.len(), 2);
    assert_eq!(pg_origin_keys[0].body, sample_public_key().into_bytes());
    assert_eq!(pg_origin_keys[1].revision, revision_2);
}

#[test]
fn public_keys_stop_at_first_known_revision() {
    let mut world = World::default();
    world.redis_create_origin("bb8", 5);
    let pg = world.pg_create_origin("bb8", 5, "a").unwrap();
    world.pg_public_keys.push(OriginPublicKeyCreate { origin_id: pg.id, owner_id: 5, name: "bb8".into(), revision: "r1".into(), body: vec![] });
    world.key_files.push(("f".into(), b"k".to_vec()));
    let keys = vec![
        OriginKeyIdent { origin: "bb8".into(), revision: "r0".into(), location: "f".into() },
        OriginKeyIdent { origin: "bb8".into(), revision: "r1".into(), location: "f".into() },
        OriginKeyIdent { origin: "bb8".into(), revision: "r2".into(), location: "f".into() },
    ];
    assert_eq!(run(&mut world, OriginKeyMigrator::new("bb8".into(), keys)), Action::Finish);
    let revs: Vec<&str> = world.pg_public_keys.iter().map(|k| k.revision.as_str()).collect();
    assert_eq!(revs, vec!["r1", "r0"]);
}

#[test]
fn public_keys_of_every_origin() {
    let mut world = World::default();
    world.redis_create_origin("bb8", 5);
    world.redis_create_origin("bb9", 5);
    world.pg_create_origin("bb8", 5, "a");
    world.pg_create_origin("bb9", 5, "a");
    world.key_files.push(("f".into(), b"k".to_vec()));
    world.redis_origin_keys.push(OriginKeyIdent { origin: "bb8".into(), revision: "1".into(), location: "f".into() });
    world.redis_origin_keys.push(OriginKeyIdent { origin: "bb9".into(), revision: "2".into(), location: "f".into() });
    world.redis_origin_keys.push(OriginKeyIdent { origin: "bb9".into(), revision: "3".into(), location: "f".into() });
    assert_eq!(run(&mut world, PublicKeysMigration::migrate_origin_public_keys()), Action::Finish);
    assert_eq!(world.pg_public_keys.len(), 3);
    assert!(world.pg_public_keys.iter().all(|k| k.body == b"k".to_vec()));
}

#[test]
fn test_migrate_package() {
    let mut world = World::default();
    let origin = world.redis_create_origin("core", 5000);
    let pg_origin = world.pg_create_origin(&origin.name, 5000, "account_name").unwrap();

    let package1 = package("core", "libossp-uuid", "1.6.2", "20161214075157");
    world.redis_packages.push(package1.clone());
    assert_eq!(run(&mut world, PackageMigrator::new()), Action::Finish);

    let package2 = package("core", "libcap", "2.24", "20161208223353");
    let package3 = package("core", "busybox-static", "1.24.2", "20161214032531");
    world.redis_packages.push(package2.clone());
    world.redis_packages.push(package3.clone());
    assert_eq!(run(&mut world, PackageMigrator::new()), Action::Finish);

    let get = |w: &World, text: &str| w.pg_packages.iter().find(|p| ident_text(&p.ident) == text).cloned();
    let pg_package1 = get(&world, "core/libossp-uuid/1.6.2/20161214075157").expect("could not get libossp");
    let pg_package2 = get(&world, "core/libcap/2.24/20161208223353").expect("could not get libcap");
    let pg_package3 = get(&world, "core/busybox-static/1.24.2/20161214032531").expect("could not get busybox");

    for (package, pg_package) in [(&package1, &pg_package1), (&package2, &pg_package2), (&package3, &pg_package3)] {
        assert_eq!(ident_text(&package.ident), ident_text(&pg_package.ident));
        assert_eq!(package.checksum, pg_package.checksum);
        assert_eq!(package.manifest, pg_package.manifest);
        assert_eq!(package.exposes, pg_package.exposes);
        assert_eq!(package.config, pg_package.config);
        assert_eq!("x86_64-linux", pg_package.target);
        assert_eq!(pg_origin.id, pg_package.origin_id);
        assert_eq!(5000, pg_package.owner_id);
        assert_eq!(package.deps, pg_package.deps);
        assert_eq!(package.tdeps, pg_package.tdeps);
    }
}

#[test]
fn test_migrate_secret_key() {
    let mut world = World::default();
    let redis_session1 = redis_lib::create_session(String::from("token1"), 5000, String::from("bobo@chef.io"), String::from("account1"));
    let redis_account1 = world.redis_create_account(redis_session1.clone());
    let origin1 = world.redis_create_origin("bb8", redis_account1.id);
    let pg_account1 = world.pg_create_account(session(&redis_session1.token, 5000, &redis_session1.email, &redis_session1.name));
    let pg_origin1 = world.pg_create_origin(&origin1.name, pg_account1.id, &pg_account1.name).unwrap();

    let redis_session2 = redis_lib::create_session(String::from("token2"), 5001, String::from("bobo@chef.io"), String::from("account2"));
    let redis_account2 = world.redis_create_account(redis_session2.clone());
    let pg_account2 = world.pg_create_account(session(&redis_session2.token, 5001, &redis_session2.email, &redis_session2.name));
    let origin2 = world.redis_create_origin("bb9", redis_account2.id);
    let pg_origin2 = world.pg_create_origin(&origin2.name, pg_account2.id, &pg_account2.name).unwrap();

    let secret_key_1 = world.redis_create_secret_key(origin1.id, &origin1.name, "revision1", "body1", redis_account1.id);
    let secret_key_2 = world.redis_create_secret_key(origin2.id, &origin2.name, "revision2", "body2", redis_account2.id);

    assert_eq!(run(&mut world, SecretKeyMigrator::new()), Action::Finish);

    let get = |w: &World, origin_id: u64| w.pg_secret_keys.iter().find(|k| k.origin_id == origin_id).cloned();
    let pg_secret_key1 = get(&world, pg_origin1.id).expect("did not get first key");
    assert_eq!(pg_origin1.id, pg_secret_key1.origin_id);
    assert_eq!(secret_key_1.name, pg_secret_key1.name);
    assert_eq!(secret_key_1.revision, pg_secret_key1.revision);
    assert_eq!(secret_key_1.body, pg_secret_key1.body);
    assert_eq!(pg_account1.id, pg_secret_key1.owner_id);

    let pg_secret_key2 = get(&world, pg_origin2.id).expect("did not get second key");
    assert_eq!(pg_origin2.id, pg_secret_key2.origin_id);
    assert_eq!(secret_key_2.name, pg_secret_key2.name);
    assert_eq!(secret_key_2.revision, pg_secret_key2.revision);
    assert_eq!(secret_key_2.body, pg_secret_key2.body);
    assert_eq!(pg_account2.id, pg_secret_key2.owner_id);

    let before = world.writes;
    assert_eq!(run(&mut world, SecretKeyMigrator::new()), Action::Finish);
    assert_eq!(world.writes, before);
}

#[test]
fn account_origins_up_to_the_first_known() {
    let mut world = World::default();
    let a = world.redis_create_account(session("t", 1, "e", "bobo"));
    let pg = world.pg_create_account(session("t", 1, "e", "bobo"));
    let other = world.pg_create_account(session("t", 1, "e", "other"));
    world.pg_create_origin("o1", other.id, "other");
    world.pg_create_origin("o2", other.id, "other");
    world.pg_create_origin("o3", other.id, "other");
    world.redis_account_origins.push((a.id, "o1".into()));
    world.redis_account_origins.push((a.id, "o2".into()));
    world.redis_account_origins.push((a.id, "o3".into()));
    world.pg_account_origins.push((pg.id, "o2".into()));
    assert_eq!(run(&mut world, AccountOriginMigrator::new()), Action::Finish);
    let mine: Vec<&str> = world.pg_account_origins.iter().filter(|p| p.0 == pg.id).map(|p| p.1.as_str()).collect();
    assert_eq!(mine, vec!["o2", "o1"]);
    assert_eq!(run(&mut world, AccountOriginMigrator::migrate_account(a.id)), Action::Finish);
}

#[test]
fn account_origin_failures() {
    let mut world = World::default();
    let a = world.redis_create_account(session("t", 1, "e", "bobo"));
    assert_eq!(run(&mut world, AccountOriginMigrator::new()), Action::Abort(Failure::NoAccountForOrigin));
    world.pg_create_account(session("t", 1, "e", "bobo"));
    world.redis_account_origins.push((a.id, "nowhere".into()));
    assert_eq!(run(&mut world, AccountOriginMigrator::new()), Action::Abort(Failure::NoOriginInPostgres));
}

#[test]
fn origin_members_skip_known_ones() {
    let mut world = World::default();
    let owner = world.redis_create_account(session("t", 1, "e", "owner"));
    let o = world.redis_create_origin("core", owner.id);
    world.pg_create_account(session("t", 1, "e", "owner"));
    let m1 = world.pg_create_account(session("t", 2, "e", "m1"));
    let pg_o = world.pg_create_origin("core", 1, "owner").unwrap();
    world.redis_origin_members.push((o.id, "owner".into()));
    world.redis_origin_members.push((o.id, "m1".into()));
    assert_eq!(run(&mut world, OriginMemberMigrator::new()), Action::Finish);
    let members: Vec<&str> = world.pg_members.iter().filter(|p| p.0 == pg_o.id).map(|p| p.1.as_str()).collect();
    assert_eq!(members, vec!["owner", "m1"]);
    let _ = m1;
    world.redis_origin_members.push((o.id, "ghost".into()));
    assert_eq!(run(&mut world, OriginMemberMigrator::migrate_origin(o.id)), Action::Abort(Failure::NoAccountForAccountName));
}

#[test]
fn origin_members_need_the_postgres_origin() {
    let mut world = World::default();
    let owner = world.redis_create_account(session("t", 1, "e", "owner"));
    world.redis_create_origin("core", owner.id);
    assert_eq!(run(&mut world, OriginMemberMigrator::new()), Action::Abort(Failure::NoOriginForOriginName));
}

#[test]
fn packages_stop_at_the_first_known_one() {
    let mut world = World::default();
    let origin = world.redis_create_origin("core", 5000);
    let pg_origin = world.pg_create_origin(&origin.name, 5000, "account_name").unwrap();
    let first = package("core", "aaa", "1.0.0", "20170101000000");
    let known = package("core", "bbb", "1.0.0", "20170101000000");
    let later = package("core", "ccc", "1.0.0", "20170101000000");
    world.redis_packages.push(later.clone());
    world.redis_packages.push(known.clone());
    world.redis_packages.push(first.clone());
    world.pg_packages.push(OriginPackageCreate {
        origin_id: pg_origin.id,
        owner_id: 5000,
        ident: known.ident.clone(),
        checksum: known.checksum.clone(),
        manifest: known.manifest.clone(),
        deps: known.deps.clone(),
        tdeps: known.tdeps.clone(),
        exposes: known.exposes.clone(),
        config: known.config.clone(),
        target: String::from("x86_64-linux"),
    });
    assert_eq!(run(&mut world, PackageMigrator::new()), Action::Finish);
    let held: Vec<String> = world.pg_packages.iter().map(|p| ident_text(&p.ident)).collect();
    assert_eq!(held, vec![String::from("core/bbb/1.0.0/20170101000000"), String::from("core/aaa/1.0.0/20170101000000")]);
    assert_eq!(world.writes, 1);
}

#[test]
fn account_rerun_writes_nothing() {
    let mut world = World::default();
    world.redis_create_account(session("t1", 1, "a@chef.io", "alpha"));
    world.redis_create_account(session("t2", 2, "b@chef.io", "beta"));
    assert_eq!(run(&mut world, AccountMigrator::redis_to_postgres()), Action::Finish);
    assert_eq!(world.writes, 2);
    assert_eq!(run(&mut world, AccountMigrator::redis_to_postgres()), Action::Finish);
    assert_eq!(world.writes, 2);
    assert_eq!(world.pg_accounts.len(), 2);
}

#[test]
fn package_rerun_writes_nothing() {
    let mut world = World::default();
    let origin = world.redis_create_origin("core", 5000);
    world.pg_create_origin(&origin.name, 5000, "account_name").unwrap();
    world.redis_packages.push(package("core", "aaa", "1.0.0", "20170101000000"));
    world.redis_packages.push(package("core", "bbb", "1.0.0", "20170101000000"));
    assert_eq!(run(&mut world, PackageMigrator::new()), Action::Finish);
    assert_eq!(world.writes, 2);
    assert_eq!(run(&mut world, PackageMigrator::new()), Action::Finish);
    assert_eq!(world.writes, 2);
    assert_eq!(world.pg_packages.len(), 2);
}
