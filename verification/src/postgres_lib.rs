//! The requests that the migration sends to the Postgres data stores, and the
//! settings it opens them with.
use vstd::prelude::*;
use crate::model::{AccountOriginCreate, OAuthProvider, OriginCreate, SessionCreate};
use vstd::string::StringExecFns;

verus! {

/// Builds a session request for a GitHub account.
pub fn create_session(token: String, extern_id: u64, email: String, name: String) -> (sc:
    SessionCreate)
    ensures
        sc.token == token,
        sc.extern_id == extern_id,
        sc.email == email,
        sc.name == name,
        sc.provider == OAuthProvider::GitHub,
{
    SessionCreate { token, extern_id, email, name, provider: OAuthProvider::GitHub }
}

/// The request that `create_origin` sends: an origin of the given name, owned
/// by the given account.
pub fn create_origin(name: &String, owner_id: u64, owner_name: &String) -> (oc: OriginCreate)
    ensures
        oc.name == *name,
        oc.owner_id == owner_id,
        oc.owner_name == *owner_name,
{
    OriginCreate { name: name.clone(), owner_id, owner_name: owner_name.clone() }
}

/// The request that `create_account_origin` sends: the account belongs to the
/// origin.
pub fn create_account_origin(
    origin_id: u64,
    origin_name: &String,
    account_id: u64,
    account_name: &String,
) -> (aoc: AccountOriginCreate)
    ensures
        aoc.origin_id == origin_id,
        aoc.origin_name == *origin_name,
        aoc.account_id == account_id,
        aoc.account_name == *account_name,
{
    AccountOriginCreate {
        account_id,
        account_name: account_name.clone(),
        origin_id,
        origin_name: origin_name.clone(),
    }
}

/// Whether `name` is one of `names` (the check behind `is_account_in_origin`
/// and `is_member_in_origin`).
pub open spec fn lists(names: Seq<Seq<char>>, name: Seq<char>) -> bool {
    names.contains(name)
}

fn contains_name(names: &Vec<String>, name: &String) -> (res: bool)
    ensures
        res == lists(names.deep_view(), name@),
{
    let mut i: usize = 0;
    while i < names.len()
        invariant
            i <= names.len(),
            forall|j: int| 0 <= j < i ==> names.deep_view()[j] != name@,
        decreases names.len() - i,
    {
        if names[i] == *name {
            assert(names.deep_view()[i as int] == name@);
            return true;
        }
        i = i + 1;
    }
    proof {
        if names.deep_view().contains(name@) {
            let k = choose|k: int| 0 <= k < names.deep_view().len() && names.deep_view()[k] == name@;
            assert(names.deep_view()[k] == name@);
        }
    }
    false
}

/// Given the origins that Postgres lists for an account, whether `origin` is
/// among them.
pub fn is_account_in_origin(account_origins: &Vec<String>, origin: &String) -> (res: bool)
    ensures
        res == lists(account_origins.deep_view(), origin@),
{
    contains_name(account_origins, origin)
}

/// Given the members that Postgres lists for an origin, whether `account` is
/// among them.
pub fn is_member_in_origin(origin_members: &Vec<String>, account: &String) -> (res: bool)
    ensures
        res == lists(origin_members.deep_view(), account@),
{
    contains_name(origin_members, account)
}

/// How to reach one Postgres database.
pub struct DataStoreCfg {
    pub host: [u8; 4],
    pub port: u16,
    pub user: String,
    pub password: Option<String>,
    pub database: String,
    pub connection_retry_ms: u64,
    pub connection_timeout_sec: u64,
    pub connection_test: bool,
    pub pool_size: u32,
}

/// The settings for `database_name` on this machine with `cpus` logical CPUs.
pub open spec fn is_data_store_config(
    cfg: DataStoreCfg,
    database_name: Seq<char>,
    password: Option<String>,
    cpus: usize,
) -> bool {
    &&& cfg.host@ == seq![127u8, 0u8, 0u8, 1u8]
    &&& cfg.port == 5432
    &&& cfg.user@ == "hab"@
    &&& cfg.password == password
    &&& cfg.database@ == database_name
    &&& cfg.connection_retry_ms == 300
    &&& cfg.connection_timeout_sec == 60
    &&& !cfg.connection_test
    &&& cfg.pool_size == (cpus * 2) as u32
}

/// The settings of `data_store_config`, given the number of CPUs: a local
/// server on port 5432, user `hab`, and a pool of two connections per CPU.
pub fn data_store_config_for(database_name: &str, password: Option<String>, cpus: usize) -> (cfg:
    DataStoreCfg)
    requires
        cpus * 2 <= usize::MAX,
    ensures
        is_data_store_config(cfg, database_name@, password, cpus),
{
    let user = String::from_str("hab");
    proof {
        reveal_strlit("hab");
    }
    let database = String::from_str(database_name);
    let host: [u8; 4] = [127u8, 0u8, 0u8, 1u8];
    assert(host@ =~= seq![127u8, 0u8, 0u8, 1u8]);
    DataStoreCfg {
        host,
        port: 5432,
        user,
        password,
        database,
        connection_retry_ms: 300,
        connection_timeout_sec: 60,
        connection_test: false,
        pool_size: (cpus * 2) as u32,
    }
}

/// `num_cpus::get`: the number of logical CPUs available to this process,
/// which its documentation says is always at least one.
#[verifier::external_body]
fn cpu_count() -> (n: usize)
    ensures
        n >= 1,
{
    num_cpus::get()
}

/// What `data_store_config` gives for `database_name` and `password` on a
/// machine with `cpus` logical CPUs: the settings for those CPUs, or `None`
/// where twice the CPU count would not fit in a `usize`.
pub open spec fn config_outcome(
    res: Option<DataStoreCfg>,
    database_name: Seq<char>,
    password: Option<String>,
    cpus: usize,
) -> bool {
    if cpus * 2 <= usize::MAX {
        res matches Some(cfg) && is_data_store_config(cfg, database_name, password, cpus)
    } else {
        res is None
    }
}

/// The settings for `database_name` on a machine with `cpus` logical CPUs, or
/// `None` where twice `cpus` would not fit in a `usize`.
pub fn data_store_config_with(database_name: &str, password: Option<String>, cpus: usize) -> (res:
    Option<DataStoreCfg>)
    ensures
        config_outcome(res, database_name@, password, cpus),
{
    if cpus > usize::MAX / 2 {
        return None;
    }
    let ghost pw = password;
    let cfg = data_store_config_for(database_name, password, cpus);
    let res = Some(cfg);
    assert(config_outcome(res, database_name@, pw, cpus));
    res
}

/// The settings for `database_name`, sized for the CPUs of this machine.
/// `None` only where twice the CPU count would not fit in a `usize`.
pub fn data_store_config(database_name: &str, password: Option<String>) -> (res: Option<
    DataStoreCfg,
>)
    ensures
        exists|cpus: usize|
            cpus >= 1 && #[trigger] config_outcome(res, database_name@, password, cpus),
{
    let cpus = cpu_count();
    data_store_config_with(database_name, password, cpus)
}

/// The shard ids that a connection pool serves: 1 through 127.
pub fn pool_shards() -> (shards: Vec<u32>)
    ensures
        shards@.len() == 127,
        forall|i: int| 0 <= i < 127 ==> #[trigger] shards@[i] == i + 1,
{
    let mut shards: Vec<u32> = Vec::new();
    let mut s: u32 = 1;
    while s < 128
        invariant
            1 <= s <= 128,
            shards@.len() == s - 1,
            forall|i: int| 0 <= i < shards@.len() ==> #[trigger] shards@[i] == i + 1,
        decreases 128 - s,
    {
        shards.push(s);
        s = s + 1;
    }
    shards
}

} // verus!
