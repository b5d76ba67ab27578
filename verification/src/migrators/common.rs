//! What the migrators ask of the stores, what the stores answer, and the walk
//! over the ids found in Redis keys.
use vstd::prelude::*;
use crate::model::{
    Account, AccountOriginCreate, OriginCreate, Origin, OriginInvitation, OriginInvitationCreate,
    OriginKeyIdent, OriginMemberCreate, OriginPackageCreate, OriginPublicKeyCreate, OriginSecretKey,
    OriginSecretKeyCreate, Package, PackageIdent, SessionCreate,
};
use crate::redis_extraction::{key_ids, key_ids_spec};

verus! {

/// Why a migration stops before its end.
#[derive(Clone, Copy, Debug, PartialEq, Eq)]
pub enum Failure {
    /// A key's id is not a decimal `u64`.
    MalformedKeyId,
    /// The owner of an origin has no Postgres account.
    NoAccountForOrigin,
    /// An origin has not been migrated to Postgres.
    NoOriginInPostgres,
    /// An origin member's origin has not been migrated to Postgres.
    NoOriginForOriginName,
    /// An invited account has no Postgres account.
    NoInviteeAccount,
    /// The sender of an invitation has no Postgres account.
    NoOwnerAccount,
    /// An origin member has no Postgres account.
    NoAccountForAccountName,
    /// The reply does not answer the action that was asked for.
    UnexpectedReply,
}

/// An operation against one of the stores, or the end of a run.
#[derive(Debug, PartialEq, Eq)]
pub enum Action {
    /// List the Redis keys that match a `KEYS` pattern.
    ListRedisKeys(String),
    /// Fetch the Redis account with this id.
    FindRedisAccount(u64),
    /// Fetch the Redis origin with this id.
    FindRedisOrigin(u64),
    /// Fetch the Redis secret key with this id.
    FindRedisSecretKey(u64),
    /// List the names of the origins a Redis account belongs to.
    ListRedisAccountOrigins(u64),
    /// List the invitations of a Redis origin.
    ListRedisInvitations(u64),
    /// List the member names of a Redis origin.
    ListRedisOriginMembers(u64),
    /// List the package identifiers of a Redis origin, by origin name.
    ListRedisPackageIdents(String),
    /// Fetch a package from the Redis depot.
    FindRedisPackage(PackageIdent),
    /// List the public keys of a Redis origin, by origin name.
    ListRedisOriginKeys(String),
    /// Read the body of a public key file at this location.
    ReadKeyBody(String),
    /// Look up a Postgres account by name.
    GetPgAccount(String),
    /// Look up a Postgres origin by name.
    GetPgOrigin(String),
    /// List the names of the origins a Postgres account belongs to.
    ListPgAccountOrigins(u64),
    /// List the member names of a Postgres origin.
    ListPgOriginMembers(u64),
    /// Ask whether Postgres holds the public key of this origin and revision.
    CheckPgOriginKey(String, String),
    /// Ask whether Postgres holds this package.
    CheckPgPackage(PackageIdent),
    /// Ask whether Postgres holds a secret key for this origin name.
    CheckPgSecretKey(String),
    /// Create a Postgres account through a session.
    CreateAccount(SessionCreate),
    /// Create a Postgres origin.
    CreateOrigin(OriginCreate),
    /// Record in Postgres that an account belongs to an origin.
    CreateAccountOrigin(AccountOriginCreate),
    /// Create a Postgres invitation.
    CreateInvitation(OriginInvitationCreate),
    /// Add a member to a Postgres origin.
    CreateOriginMember(OriginMemberCreate),
    /// Store a public origin key in Postgres.
    CreateOriginPublicKey(OriginPublicKeyCreate),
    /// Store a package in Postgres.
    CreatePackage(OriginPackageCreate),
    /// Store a secret origin key in Postgres.
    CreateSecretKey(OriginSecretKeyCreate),
    /// The run is complete.
    Finish,
    /// The run stops here, for this reason.
    Abort(Failure),
}

/// The outcome of an action.
#[derive(Debug, PartialEq, Eq)]
pub enum Reply {
    /// Begin the run.
    Start,
    /// The keys that a `KEYS` pattern matched.
    Keys(Vec<String>),
    /// A Redis account.
    RedisAccount(Account),
    /// A Redis origin.
    RedisOrigin(Origin),
    /// A Redis secret key.
    RedisSecretKey(OriginSecretKey),
    /// A list of names.
    Names(Vec<String>),
    /// A list of invitations.
    Invitations(Vec<OriginInvitation>),
    /// A list of package identifiers.
    PackageIdents(Vec<PackageIdent>),
    /// A package.
    RedisPackage(Package),
    /// A list of public key identifiers.
    OriginKeys(Vec<OriginKeyIdent>),
    /// The body of a key file.
    KeyBody(Vec<u8>),
    /// A Postgres account lookup.
    PgAccount(Option<Account>),
    /// A Postgres origin lookup.
    PgOrigin(Option<Origin>),
    /// Whether the record asked about is already in Postgres.
    Exists(bool),
    /// A write went through.
    Written,
}

/// The ids a run visits, and how far it has come.
pub struct IdCursor {
    pub ids: Vec<Option<u64>>,
    pub pos: usize,
}

/// What the walk over ids yields next.
pub enum NextId {
    /// No ids are left.
    Exhausted,
    /// The next key id does not read as a `u64`.
    Malformed,
    /// The next id.
    Id(u64),
}

/// One move of the walk over ids.
pub open spec fn next_id_spec(c: IdCursor) -> (IdCursor, NextId) {
    if c.pos >= c.ids.len() {
        (c, NextId::Exhausted)
    } else {
        let moved = IdCursor { ids: c.ids, pos: (c.pos + 1) as usize };
        match c.ids@[c.pos as int] {
            None => (moved, NextId::Malformed),
            Some(id) => (moved, NextId::Id(id)),
        }
    }
}

/// How many ids are left to visit.
pub open spec fn remaining(c: IdCursor) -> nat {
    if c.pos >= c.ids.len() {
        0
    } else {
        (c.ids.len() - c.pos) as nat
    }
}

/// Takes the next id.
pub fn next_id(c: IdCursor) -> (res: (IdCursor, NextId))
    ensures
        res == next_id_spec(c),
{
    if c.pos >= c.ids.len() {
        (c, NextId::Exhausted)
    } else {
        let v = c.ids[c.pos];
        let moved = IdCursor { ids: c.ids, pos: c.pos + 1 };
        match v {
            None => (moved, NextId::Malformed),
            Some(id) => (moved, NextId::Id(id)),
        }
    }
}

/// Taking an id leaves fewer to visit.
pub proof fn lemma_next_id_progress(c: IdCursor)
    ensures
        next_id_spec(c).1 !is Exhausted ==> remaining(next_id_spec(c).0) < remaining(c),
        next_id_spec(c).1 is Exhausted ==> remaining(next_id_spec(c).0) == 0,
{
}

/// A walk over every id that the keys carry, from the first.
pub fn cursor_over_keys(keys: &Vec<String>) -> (c: IdCursor)
    ensures
        c.ids@ == key_ids_spec(keys.deep_view()),
        c.pos == 0,
{
    IdCursor { ids: key_ids(keys), pos: 0 }
}

/// A walk over a single id.
pub fn cursor_for(id: u64) -> (c: IdCursor)
    ensures
        c.ids@ == seq![Some(id)],
        c.pos == 0,
{
    let mut ids: Vec<Option<u64>> = Vec::new();
    ids.push(Some(id));
    IdCursor { ids, pos: 0 }
}

/// A walk with nothing to visit.
pub fn empty_cursor() -> (c: IdCursor)
    ensures
        c.ids@ == Seq::<Option<u64>>::empty(),
        c.pos == 0,
{
    IdCursor { ids: Vec::new(), pos: 0 }
}

/// How many items are left from `index` on, of `len`.
pub open spec fn left(len: usize, index: usize) -> nat {
    if index < len {
        (len - index) as nat
    } else {
        0
    }
}

/// `a` comes strictly before `b` in the lexicographic order on four numbers.
pub open spec fn lex_lt(a: (nat, nat, nat, nat), b: (nat, nat, nat, nat)) -> bool {
    ||| a.0 < b.0
    ||| a.0 == b.0 && a.1 < b.1
    ||| a.0 == b.0 && a.1 == b.1 && a.2 < b.2
    ||| a.0 == b.0 && a.1 == b.1 && a.2 == b.2 && a.3 < b.3
}

} // verus!
