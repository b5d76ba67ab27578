//! Secret keys: each Redis origin secret key is stored in Postgres, unless
//! Postgres already holds a secret key for its origin.
use vstd::prelude::*;
use crate::model::{Account, Origin, OriginSecretKey, OriginSecretKeyCreate};
use crate::redis_extraction::{keys_pattern, keys_pattern_spec, key_ids_spec};
use crate::migrators::common::{
    Action, Failure, IdCursor, NextId, Reply, cursor_over_keys, empty_cursor, lex_lt, next_id,
    next_id_spec, remaining, lemma_next_id_progress,
};

verus! {

/// Where a secret-key migration stands.
pub enum SecretKeyPhase {
    /// Waiting for `Reply::Start`, to list the secret key keys.
    Begin,
    /// Waiting for the secret key keys.
    ListingKeys,
    /// Waiting for the Redis secret key of the current id.
    FetchingSecretKey,
    /// Waiting for the Redis origin of the key.
    FetchingRedisOrigin(OriginSecretKey),
    /// Waiting for Postgres to say whether it holds a secret key for the origin.
    CheckingKey { key: OriginSecretKey, origin: Origin },
    /// Waiting for the Postgres origin of the Redis origin's name.
    FetchingPgOrigin { key: OriginSecretKey, origin: Origin },
    /// Waiting for the Redis account that owns the origin.
    FetchingRedisOwner { key: OriginSecretKey, pg_origin: Origin },
    /// Waiting for the Postgres account of the owner's name.
    FetchingPgOwner { key: OriginSecretKey, pg_origin: Origin },
    /// Waiting for the key to be written.
    Storing,
    /// Every id has been handled.
    Finished,
    /// The run stopped.
    Failed(Failure),
}

/// The secret-key migration.
pub struct SecretKeyMigrator {
    pub phase: SecretKeyPhase,
    pub cursor: IdCursor,
}

/// The secret key request for a Redis key in a Postgres origin, owned by the
/// Postgres account of the origin's owner.
pub open spec fn is_secret_key_for(act: Action, key: OriginSecretKey, origin: Origin, owner: Account) -> bool {
    &&& act matches Action::CreateSecretKey(osk)
    &&& osk.body == key.body
    &&& osk.name == key.name
    &&& osk.revision == key.revision
    &&& osk.origin_id == origin.id
    &&& osk.owner_id == owner.id
}

fn secret_key_request(key: OriginSecretKey, origin: &Origin, owner: &Account) -> (act: Action)
    ensures
        is_secret_key_for(act, key, *origin, *owner),
{
    Action::CreateSecretKey(
        OriginSecretKeyCreate {
            origin_id: origin.id,
            owner_id: owner.id,
            name: key.name,
            revision: key.revision,
            body: key.body,
        },
    )
}

impl SecretKeyMigrator {
    /// The move to the next id, from `cursor`.
    pub open spec fn advances(cursor: IdCursor, post: Self, act: Action) -> bool {
        let (c, n) = next_id_spec(cursor);
        match n {
            NextId::Exhausted => post == (SecretKeyMigrator {
                phase: SecretKeyPhase::Finished,
                cursor: c,
            }) && act == Action::Finish,
            NextId::Malformed => Self::fails(c, Failure::MalformedKeyId, post, act),
            NextId::Id(id) => post == (SecretKeyMigrator {
                phase: SecretKeyPhase::FetchingSecretKey,
                cursor: c,
            }) && act == Action::FindRedisSecretKey(id),
        }
    }

    /// Stopping for `f`.
    pub open spec fn fails(cursor: IdCursor, f: Failure, post: Self, act: Action) -> bool {
        post == (SecretKeyMigrator { phase: SecretKeyPhase::Failed(f), cursor }) && act
            == Action::Abort(f)
    }

    /// One step: from `self`, on `reply`, the migration moves to `post` and asks
    /// for `act`.
    pub open spec fn steps_to(self, reply: Reply, post: Self, act: Action) -> bool {
        let bad = Self::fails(self.cursor, Failure::UnexpectedReply, post, act);
        match self.phase {
            SecretKeyPhase::Begin => match reply {
                Reply::Start => {
                    &&& post == (SecretKeyMigrator {
                        phase: SecretKeyPhase::ListingKeys,
                        cursor: self.cursor,
                    })
                    &&& act matches Action::ListRedisKeys(p)
                    &&& p@ == keys_pattern_spec("origin_secret_key"@)
                },
                _ => bad,
            },
            SecretKeyPhase::ListingKeys => match reply {
                Reply::Keys(keys) => exists|c: IdCursor|
                    c.ids@ == key_ids_spec(keys.deep_view()) && c.pos == 0
                        && #[trigger] Self::advances(c, post, act),
                _ => bad,
            },
            SecretKeyPhase::FetchingSecretKey => match reply {
                Reply::RedisSecretKey(k) => post == (SecretKeyMigrator {
                    phase: SecretKeyPhase::FetchingRedisOrigin(k),
                    cursor: self.cursor,
                }) && act == Action::FindRedisOrigin(k.origin_id),
                _ => bad,
            },
            SecretKeyPhase::FetchingRedisOrigin(key) => match reply {
                Reply::RedisOrigin(origin) => post == (SecretKeyMigrator {
                    phase: SecretKeyPhase::CheckingKey { key, origin },
                    cursor: self.cursor,
                }) && act == Action::CheckPgSecretKey(origin.name),
                _ => bad,
            },
            SecretKeyPhase::CheckingKey { key, origin } => match reply {
                Reply::Exists(true) => Self::advances(self.cursor, post, act),
                Reply::Exists(false) => post == (SecretKeyMigrator {
                    phase: SecretKeyPhase::FetchingPgOrigin { key, origin },
                    cursor: self.cursor,
                }) && act == Action::GetPgOrigin(origin.name),
                _ => bad,
            },
            SecretKeyPhase::FetchingPgOrigin { key, origin } => match reply {
                Reply::PgOrigin(None) => Self::fails(self.cursor, Failure::NoOriginInPostgres, post, act),
                Reply::PgOrigin(Some(pg_origin)) => post == (SecretKeyMigrator {
                    phase: SecretKeyPhase::FetchingRedisOwner { key, pg_origin },
                    cursor: self.cursor,
                }) && act == Action::FindRedisAccount(origin.owner_id),
                _ => bad,
            },
            SecretKeyPhase::FetchingRedisOwner { key, pg_origin } => match reply {
                Reply::RedisAccount(owner) => post == (SecretKeyMigrator {
                    phase: SecretKeyPhase::FetchingPgOwner { key, pg_origin },
                    cursor: self.cursor,
                }) && act == Action::GetPgAccount(owner.name),
                _ => bad,
            },
            SecretKeyPhase::FetchingPgOwner { key, pg_origin } => match reply {
                Reply::PgAccount(None) => Self::fails(self.cursor, Failure::NoAccountForOrigin, post, act),
                Reply::PgAccount(Some(owner)) => post == (SecretKeyMigrator {
                    phase: SecretKeyPhase::Storing,
                    cursor: self.cursor,
                }) && is_secret_key_for(act, key, pg_origin, owner),
                _ => bad,
            },
            SecretKeyPhase::Storing => match reply {
                Reply::Written => Self::advances(self.cursor, post, act),
                _ => bad,
            },
            SecretKeyPhase::Finished => post == self && act == Action::Finish,
            SecretKeyPhase::Failed(f) => post == self && act == Action::Abort(f),
        }
    }

    /// The migration of every secret key (`SecretKeyMigrator::new(..).migrate()`).
    pub fn new() -> (m: Self)
        ensures
            m.phase == SecretKeyPhase::Begin,
            m.cursor.ids@.len() == 0,
            m.cursor.pos == 0,
    {
        SecretKeyMigrator { phase: SecretKeyPhase::Begin, cursor: empty_cursor() }
    }

    fn advance(cursor: IdCursor) -> (res: (Self, Action))
        ensures
            Self::advances(cursor, res.0, res.1),
    {
        let (c, n) = next_id(cursor);
        match n {
            NextId::Exhausted => (
                SecretKeyMigrator { phase: SecretKeyPhase::Finished, cursor: c },
                Action::Finish,
            ),
            NextId::Malformed => Self::fail(c, Failure::MalformedKeyId),
            NextId::Id(id) => (
                SecretKeyMigrator { phase: SecretKeyPhase::FetchingSecretKey, cursor: c },
                Action::FindRedisSecretKey(id),
            ),
        }
    }

    fn fail(cursor: IdCursor, f: Failure) -> (res: (Self, Action))
        ensures
            Self::fails(cursor, f, res.0, res.1),
    {
        (SecretKeyMigrator { phase: SecretKeyPhase::Failed(f), cursor }, Action::Abort(f))
    }

    /// Takes one step on `reply`.
    pub fn step(self, reply: Reply) -> (res: (Self, Action))
        ensures
            self.steps_to(reply, res.0, res.1),
    {
        let SecretKeyMigrator { phase, cursor } = self;
        match phase {
            SecretKeyPhase::Begin => match reply {
                Reply::Start => {
                    let p = keys_pattern("origin_secret_key");
                    proof {
                        reveal_strlit("origin_secret_key");
                    }
                    (
                        SecretKeyMigrator { phase: SecretKeyPhase::ListingKeys, cursor },
                        Action::ListRedisKeys(p),
                    )
                },
                _ => Self::fail(cursor, Failure::UnexpectedReply),
            },
            SecretKeyPhase::ListingKeys => match reply {
                Reply::Keys(keys) => {
                    let c = cursor_over_keys(&keys);
                    let res = Self::advance(c);
                    assert(Self::advances(c, res.0, res.1));
                    res
                },
                _ => Self::fail(cursor, Failure::UnexpectedReply),
            },
            SecretKeyPhase::FetchingSecretKey => match reply {
                Reply::RedisSecretKey(k) => {
                    let origin_id = k.origin_id;
                    (
                        SecretKeyMigrator { phase: SecretKeyPhase::FetchingRedisOrigin(k), cursor },
                        Action::FindRedisOrigin(origin_id),
                    )
                },
                _ => Self::fail(cursor, Failure::UnexpectedReply),
            },
            SecretKeyPhase::FetchingRedisOrigin(key) => match reply {
                Reply::RedisOrigin(origin) => {
                    let name = origin.name.clone();
                    (
                        SecretKeyMigrator { phase: SecretKeyPhase::CheckingKey { key, origin }, cursor },
                        Action::CheckPgSecretKey(name),
                    )
                },
                _ => Self::fail(cursor, Failure::UnexpectedReply),
            },
            SecretKeyPhase::CheckingKey { key, origin } => match reply {
                Reply::Exists(true) => Self::advance(cursor),
                Reply::Exists(false) => {
                    let name = origin.name.clone();
                    (
                        SecretKeyMigrator {
                            phase: SecretKeyPhase::FetchingPgOrigin { key, origin },
                            cursor,
                        },
                        Action::GetPgOrigin(name),
                    )
                },
                _ => Self::fail(cursor, Failure::UnexpectedReply),
            },
            SecretKeyPhase::FetchingPgOrigin { key, origin } => match reply {
                Reply::PgOrigin(None) => Self::fail(cursor, Failure::NoOriginInPostgres),
                Reply::PgOrigin(Some(pg_origin)) => (
                    SecretKeyMigrator {
                        phase: SecretKeyPhase::FetchingRedisOwner { key, pg_origin },
                        cursor,
                    },
                    Action::FindRedisAccount(origin.owner_id),
                ),
                _ => Self::fail(cursor, Failure::UnexpectedReply),
            },
            SecretKeyPhase::FetchingRedisOwner { key, pg_origin } => match reply {
                Reply::RedisAccount(owner) => (
                    SecretKeyMigrator {
                        phase: SecretKeyPhase::FetchingPgOwner { key, pg_origin },
                        cursor,
                    },
                    Action::GetPgAccount(owner.name),
                ),
                _ => Self::fail(cursor, Failure::UnexpectedReply),
            },
            SecretKeyPhase::FetchingPgOwner { key, pg_origin } => match reply {
                Reply::PgAccount(None) => Self::fail(cursor, Failure::NoAccountForOrigin),
                Reply::PgAccount(Some(owner)) => {
                    let act = secret_key_request(key, &pg_origin, &owner);
                    (SecretKeyMigrator { phase: SecretKeyPhase::Storing, cursor }, act)
                },
                _ => Self::fail(cursor, Failure::UnexpectedReply),
            },
            SecretKeyPhase::Storing => match reply {
                Reply::Written => Self::advance(cursor),
                _ => Self::fail(cursor, Failure::UnexpectedReply),
            },
            SecretKeyPhase::Finished => (
                SecretKeyMigrator { phase: SecretKeyPhase::Finished, cursor },
                Action::Finish,
            ),
            SecretKeyPhase::Failed(f) => Self::fail(cursor, f),
        }
    }

    /// The run has ended, well or not.
    pub open spec fn ended(self) -> bool {
        self.phase is Finished || self.phase is Failed
    }

    /// How far the run is from its end (compared lexicographically).
    pub open spec fn rank(self) -> (nat, nat, nat, nat) {
        let r = remaining(self.cursor);
        match self.phase {
            SecretKeyPhase::Begin => (2, 0, 0, 0),
            SecretKeyPhase::ListingKeys => (1, 0, 0, 0),
            SecretKeyPhase::FetchingSecretKey => (0, r, 7, 0),
            SecretKeyPhase::FetchingRedisOrigin(_) => (0, r, 6, 0),
            SecretKeyPhase::CheckingKey { .. } => (0, r, 5, 0),
            SecretKeyPhase::FetchingPgOrigin { .. } => (0, r, 4, 0),
            SecretKeyPhase::FetchingRedisOwner { .. } => (0, r, 3, 0),
            SecretKeyPhase::FetchingPgOwner { .. } => (0, r, 2, 0),
            SecretKeyPhase::Storing => (0, r, 1, 0),
            SecretKeyPhase::Finished => (0, r, 0, 0),
            SecretKeyPhase::Failed(_) => (0, r, 0, 0),
        }
    }
}

proof fn lemma_advances_rank(c: IdCursor, post: SecretKeyMigrator, act: Action)
    requires
        SecretKeyMigrator::advances(c, post, act),
    ensures
        post.rank().0 == 0,
        remaining(c) == 0 ==> post.rank() == (0nat, 0nat, 0nat, 0nat),
        remaining(c) > 0 ==> post.rank().1 < remaining(c),
{
    lemma_next_id_progress(c);
}

/// Law: a secret key is stored only after Postgres said that it holds no
/// secret key for the origin and returned the Postgres origin and the
/// Postgres account of its owner; the stored key keeps the Redis key's name,
/// revision and body.
pub proof fn law_secret_key_stored_only_when_missing(
    m: SecretKeyMigrator,
    reply: Reply,
    post: SecretKeyMigrator,
    act: Action,
)
    requires
        m.steps_to(reply, post, act),
        act is CreateSecretKey,
    ensures
        m.phase matches SecretKeyPhase::FetchingPgOwner { key, pg_origin }
            && reply matches Reply::PgAccount(Some(owner))
            && is_secret_key_for(act, key, pg_origin, owner),
{
    if let SecretKeyPhase::ListingKeys = m.phase {
        if let Reply::Keys(keys) = reply {
            let c = choose|c: IdCursor|
                c.ids@ == key_ids_spec(keys.deep_view()) && c.pos == 0
                    && #[trigger] SecretKeyMigrator::advances(c, post, act);
        }
    }
}

/// Law: when Postgres already holds a secret key for the origin, the Redis key
/// is passed over.
pub proof fn law_secret_key_known_is_skipped(
    m: SecretKeyMigrator,
    post: SecretKeyMigrator,
    act: Action,
)
    requires
        m.phase is CheckingKey,
        m.steps_to(Reply::Exists(true), post, act),
    ensures
        SecretKeyMigrator::advances(m.cursor, post, act),
{
}

/// Law: a run that has ended stays where it is and repeats its last word.
pub proof fn law_secret_key_ended_run_stays(
    m: SecretKeyMigrator,
    reply: Reply,
    post: SecretKeyMigrator,
    act: Action,
)
    requires
        m.steps_to(reply, post, act),
        m.ended(),
    ensures
        post == m,
{
}

/// Law: every step of a run that has not ended brings it closer to its end.
pub proof fn law_secret_key_run_progresses(
    m: SecretKeyMigrator,
    reply: Reply,
    post: SecretKeyMigrator,
    act: Action,
)
    requires
        m.steps_to(reply, post, act),
        !m.ended(),
    ensures
        lex_lt(post.rank(), m.rank()),
{
    if let SecretKeyPhase::ListingKeys = m.phase {
        if let Reply::Keys(keys) = reply {
            let c = choose|c: IdCursor|
                c.ids@ == key_ids_spec(keys.deep_view()) && c.pos == 0
                    && #[trigger] SecretKeyMigrator::advances(c, post, act);
            lemma_advances_rank(c, post, act);
        }
    } else if SecretKeyMigrator::advances(m.cursor, post, act) {
        lemma_advances_rank(m.cursor, post, act);
    }
}

/// The Redis data and the Postgres lookups that the secret-key migration
/// reads: the key list, the secret keys, origins and accounts of Redis by id,
/// and the origins and accounts of Postgres by name.
pub struct SecretKeyStores {
    pub keys: Seq<Seq<char>>,
    pub redis_keys: Map<u64, OriginSecretKey>,
    pub redis_origins: Map<u64, Origin>,
    pub redis_accounts: Map<u64, Account>,
    pub pg_origins: Map<Seq<char>, Origin>,
    pub pg_accounts: Map<Seq<char>, Account>,
}

impl SecretKeyStores {
    /// Whether Postgres holds a secret key for the origin named `name`, when
    /// `held` maps the id of each Postgres origin that has one to its record.
    pub open spec fn has_key(self, name: Seq<char>, held: Map<u64, OriginSecretKeyCreate>) -> bool {
        self.pg_origins.contains_key(name) && held.contains_key(self.pg_origins[name].id)
    }

    /// The Postgres account of this name, if there is one.
    pub open spec fn pg_account(self, name: Seq<char>) -> Option<Account> {
        if self.pg_accounts.contains_key(name) {
            Some(self.pg_accounts[name])
        } else {
            None
        }
    }

    /// The Postgres record of the Redis secret key `id`: its name, revision
    /// and body, in the Postgres origin of its origin's name, owned by the
    /// Postgres account that bears the name of the Redis origin's owner.
    pub open spec fn key_record(self, id: u64) -> OriginSecretKeyCreate {
        let key = self.redis_keys[id];
        let origin = self.redis_origins[key.origin_id];
        OriginSecretKeyCreate {
            origin_id: self.pg_origins[origin.name@].id,
            owner_id: self.pg_accounts[self.redis_accounts[origin.owner_id].name@].id,
            name: key.name,
            revision: key.revision,
            body: key.body,
        }
    }

    /// The Redis secret key `id` has its counterpart in Postgres: Postgres
    /// holds a secret key for its origin, and that key is the key's own
    /// record, unless its origin's name is in `found`.
    pub open spec fn migrated(
        self,
        id: u64,
        held: Map<u64, OriginSecretKeyCreate>,
        found: Set<Seq<char>>,
    ) -> bool {
        let origin = self.redis_origins[self.redis_keys[id].origin_id];
        &&& self.redis_keys.contains_key(id)
        &&& self.redis_origins.contains_key(self.redis_keys[id].origin_id)
        &&& self.has_key(origin.name@, held)
        &&& (found.contains(origin.name@) || held[self.pg_origins[origin.name@].id] == self.key_record(id))
    }

    /// The stores answer `act` with `reply`; the records of the Postgres
    /// origins holding a secret key, by origin id, go from `held` to
    /// `held_after`.
    pub open spec fn answers(
        self,
        act: Action,
        reply: Reply,
        held: Map<u64, OriginSecretKeyCreate>,
        held_after: Map<u64, OriginSecretKeyCreate>,
    ) -> bool {
        match act {
            Action::ListRedisKeys(_) => reply matches Reply::Keys(k) && k.deep_view() == self.keys
                && held_after == held,
            Action::FindRedisSecretKey(id) => self.redis_keys.contains_key(id) && reply
                == Reply::RedisSecretKey(self.redis_keys[id]) && held_after == held,
            Action::FindRedisOrigin(id) => self.redis_origins.contains_key(id) && reply
                == Reply::RedisOrigin(self.redis_origins[id]) && held_after == held,
            Action::FindRedisAccount(id) => self.redis_accounts.contains_key(id) && reply
                == Reply::RedisAccount(self.redis_accounts[id]) && held_after == held,
            Action::CheckPgSecretKey(name) => reply == Reply::Exists(self.has_key(name@, held))
                && held_after == held,
            Action::GetPgOrigin(name) => reply == Reply::PgOrigin(
                if self.pg_origins.contains_key(name@) {
                    Some(self.pg_origins[name@])
                } else {
                    None
                },
            ) && held_after == held,
            Action::GetPgAccount(name) => reply == Reply::PgAccount(self.pg_account(name@))
                && held_after == held,
            Action::CreateSecretKey(osk) => reply == Reply::Written && held_after == held.insert(
                osk.origin_id,
                osk,
            ),
            _ => false,
        }
    }

    /// `act` asks whether Postgres holds a secret key for the origin named
    /// `name` while `held` has one.
    pub open spec fn asks_held(self, act: Action, held: Map<u64, OriginSecretKeyCreate>, name: Seq<char>) -> bool {
        &&& act matches Action::CheckPgSecretKey(n)
        &&& n@ == name
        &&& self.has_key(name, held)
    }

    /// The origin names that the run asked about, in its first `n` actions,
    /// while Postgres held a secret key for them; `helds[t]` is what Postgres
    /// holds when action `t` is made.
    pub open spec fn held_when_asked(
        self,
        actions: Seq<Action>,
        helds: Seq<Map<u64, OriginSecretKeyCreate>>,
        n: int,
    ) -> Set<Seq<char>> {
        Set::new(
            |name: Seq<char>|
                exists|t: int| 0 <= t < n && #[trigger] self.asks_held(actions[t], helds[t], name),
        )
    }

    /// Every origin name that `act` asks about while `held` has a key for it
    /// is in `found`.
    pub open spec fn records_ask(
        self,
        act: Action,
        held: Map<u64, OriginSecretKeyCreate>,
        found: Set<Seq<char>>,
    ) -> bool {
        forall|name: Seq<char>| #[trigger] self.asks_held(act, held, name) ==> found.contains(name)
    }

    /// The first `k` ids of the walk are secret keys that have their
    /// counterpart in Postgres.
    pub open spec fn migrated_before(
        self,
        c: IdCursor,
        k: int,
        held: Map<u64, OriginSecretKeyCreate>,
        found: Set<Seq<char>>,
    ) -> bool {
        forall|j: int|
            0 <= j < k ==> (#[trigger] c.ids@[j] matches Some(id) && self.migrated(id, held, found))
    }

    /// The Redis secret key `id`, its Redis origin and the Postgres origin of
    /// the same name, which holds no secret key in `held`.
    pub open spec fn missing(
        self,
        current: Option<u64>,
        key: OriginSecretKey,
        held: Map<u64, OriginSecretKeyCreate>,
    ) -> bool {
        &&& current matches Some(id)
        &&& self.redis_keys.contains_key(id)
        &&& key == self.redis_keys[id]
        &&& self.redis_origins.contains_key(key.origin_id)
        &&& !self.has_key(self.redis_origins[key.origin_id].name@, held)
    }

    /// What holds of a faithful run of the whole secret-key migration when it
    /// is in state `m`, about to receive `reply`, with Postgres holding the
    /// records `held`, and `found` the origin names the run asked about while
    /// Postgres held a key for them.
    pub open spec fn run_invariant(
        self,
        m: SecretKeyMigrator,
        reply: Reply,
        held: Map<u64, OriginSecretKeyCreate>,
        found: Set<Seq<char>>,
    ) -> bool {
        let c = m.cursor;
        let walking = c.ids@ == key_ids_spec(self.keys) && 1 <= c.pos <= c.ids@.len();
        let current = c.ids@[c.pos - 1];
        let before = self.migrated_before(c, c.pos - 1, held, found);
        match m.phase {
            SecretKeyPhase::Begin => reply == Reply::Start,
            SecretKeyPhase::ListingKeys => reply matches Reply::Keys(k) && k.deep_view() == self.keys,
            SecretKeyPhase::FetchingSecretKey => {
                &&& walking
                &&& before
                &&& current matches Some(id)
                &&& self.redis_keys.contains_key(id)
                &&& reply == Reply::RedisSecretKey(self.redis_keys[id])
            },
            SecretKeyPhase::FetchingRedisOrigin(key) => {
                &&& walking
                &&& before
                &&& current matches Some(id)
                &&& self.redis_keys.contains_key(id)
                &&& key == self.redis_keys[id]
                &&& self.redis_origins.contains_key(key.origin_id)
                &&& reply == Reply::RedisOrigin(self.redis_origins[key.origin_id])
            },
            SecretKeyPhase::CheckingKey { key, origin } => {
                &&& walking
                &&& before
                &&& current matches Some(id)
                &&& self.redis_keys.contains_key(id)
                &&& key == self.redis_keys[id]
                &&& self.redis_origins.contains_key(key.origin_id)
                &&& origin == self.redis_origins[key.origin_id]
                &&& reply == Reply::Exists(self.has_key(origin.name@, held))
                &&& self.has_key(origin.name@, held) ==> found.contains(origin.name@)
            },
            SecretKeyPhase::FetchingPgOrigin { key, origin } => {
                &&& walking
                &&& before
                &&& self.missing(current, key, held)
                &&& origin == self.redis_origins[key.origin_id]
                &&& reply == Reply::PgOrigin(
                    if self.pg_origins.contains_key(origin.name@) {
                        Some(self.pg_origins[origin.name@])
                    } else {
                        None
                    },
                )
            },
            SecretKeyPhase::FetchingRedisOwner { key, pg_origin } => {
                let origin = self.redis_origins[key.origin_id];
                &&& walking
                &&& before
                &&& self.missing(current, key, held)
                &&& self.pg_origins.contains_key(origin.name@)
                &&& pg_origin == self.pg_origins[origin.name@]
                &&& self.redis_accounts.contains_key(origin.owner_id)
                &&& reply == Reply::RedisAccount(self.redis_accounts[origin.owner_id])
            },
            SecretKeyPhase::FetchingPgOwner { key, pg_origin } => {
                let origin = self.redis_origins[key.origin_id];
                &&& walking
                &&& before
                &&& self.missing(current, key, held)
                &&& self.pg_origins.contains_key(origin.name@)
                &&& pg_origin == self.pg_origins[origin.name@]
                &&& self.redis_accounts.contains_key(origin.owner_id)
                &&& reply == Reply::PgAccount(
                    self.pg_account(self.redis_accounts[origin.owner_id].name@),
                )
            },
            SecretKeyPhase::Storing => {
                &&& walking
                &&& self.migrated_before(c, c.pos as int, held, found)
                &&& reply == Reply::Written
            },
            _ => false,
        }
    }
}

proof fn lemma_migrated_grows(
    st: SecretKeyStores,
    c: IdCursor,
    k: int,
    held: Map<u64, OriginSecretKeyCreate>,
    held2: Map<u64, OriginSecretKeyCreate>,
    found: Set<Seq<char>>,
    found2: Set<Seq<char>>,
)
    requires
        st.migrated_before(c, k, held, found),
        held.submap_of(held2),
        found.subset_of(found2),
    ensures
        st.migrated_before(c, k, held2, found2),
{
    assert forall|j: int| 0 <= j < k implies (#[trigger] c.ids@[j] matches Some(id) && st.migrated(
        id,
        held2,
        found2,
    )) by {
        if let Some(id) = c.ids@[j] {
            assert(st.migrated(id, held, found));
            let origin = st.redis_origins[st.redis_keys[id].origin_id];
            let pid = st.pg_origins[origin.name@].id;
            assert(held.contains_key(pid));
            assert(held2.contains_key(pid) && held2[pid] == held[pid]);
            if found.contains(origin.name@) {
                assert(found2.contains(origin.name@));
            }
        }
    }
}

proof fn lemma_current_done(
    st: SecretKeyStores,
    c: IdCursor,
    held: Map<u64, OriginSecretKeyCreate>,
    found: Set<Seq<char>>,
)
    requires
        1 <= c.pos <= c.ids@.len(),
        st.migrated_before(c, c.pos - 1, held, found),
        c.ids@[c.pos - 1] matches Some(id) && st.migrated(id, held, found),
    ensures
        st.migrated_before(c, c.pos as int, held, found),
{
    assert forall|j: int| 0 <= j < c.pos implies (#[trigger] c.ids@[j] matches Some(id)
        && st.migrated(id, held, found)) by {
        if j < c.pos - 1 {
        }
    }
}

proof fn lemma_advance_keeps_invariant(
    st: SecretKeyStores,
    c: IdCursor,
    held: Map<u64, OriginSecretKeyCreate>,
    found: Set<Seq<char>>,
    post: SecretKeyMigrator,
    act: Action,
    reply2: Reply,
    held2: Map<u64, OriginSecretKeyCreate>,
    found2: Set<Seq<char>>,
)
    requires
        c.ids@ == key_ids_spec(st.keys),
        c.pos <= c.ids@.len(),
        st.migrated_before(c, c.pos as int, held, found),
        SecretKeyMigrator::advances(c, post, act),
        st.answers(act, reply2, held, held2),
        found.subset_of(found2),
    ensures
        st.run_invariant(post, reply2, held2, found2),
{
    let (c2, n) = next_id_spec(c);
    if let NextId::Id(id) = n {
        assert(held2 == held);
        lemma_migrated_grows(st, c, c.pos as int, held, held2, found, found2);
        assert(c2.pos == c.pos + 1);
        assert(st.migrated_before(c2, c2.pos - 1, held2, found2));
    }
}

proof fn lemma_step_keeps_invariant(
    st: SecretKeyStores,
    m: SecretKeyMigrator,
    reply: Reply,
    held: Map<u64, OriginSecretKeyCreate>,
    found: Set<Seq<char>>,
    post: SecretKeyMigrator,
    act: Action,
    reply2: Reply,
    held2: Map<u64, OriginSecretKeyCreate>,
    found2: Set<Seq<char>>,
)
    requires
        st.run_invariant(m, reply, held, found),
        m.steps_to(reply, post, act),
        st.answers(act, reply2, held, held2),
        found.subset_of(found2),
        st.records_ask(act, held, found2),
    ensures
        st.run_invariant(post, reply2, held2, found2),
        held.submap_of(held2),
{
    let c = m.cursor;
    match m.phase {
        SecretKeyPhase::ListingKeys => {
            if let Reply::Keys(k) = reply {
                let c0 = choose|c0: IdCursor|
                    c0.ids@ == key_ids_spec(k.deep_view()) && c0.pos == 0
                        && #[trigger] SecretKeyMigrator::advances(c0, post, act);
                lemma_advance_keeps_invariant(st, c0, held, found, post, act, reply2, held2, found2);
            }
        },
        SecretKeyPhase::FetchingSecretKey => {
            lemma_migrated_grows(st, c, c.pos - 1, held, held2, found, found2);
        },
        SecretKeyPhase::FetchingRedisOrigin(key) => {
            lemma_migrated_grows(st, c, c.pos - 1, held, held2, found, found2);
            if let Reply::RedisOrigin(origin) = reply {
                if st.has_key(origin.name@, held) {
                    assert(st.asks_held(act, held, origin.name@));
                }
            }
        },
        SecretKeyPhase::CheckingKey { key, origin } => {
            if let Reply::Exists(true) = reply {
                lemma_current_done(st, c, held, found);
                lemma_advance_keeps_invariant(st, c, held, found, post, act, reply2, held2, found2);
            } else {
                lemma_migrated_grows(st, c, c.pos - 1, held, held2, found, found2);
            }
        },
        SecretKeyPhase::FetchingPgOrigin { key, origin } => {
            lemma_migrated_grows(st, c, c.pos - 1, held, held2, found, found2);
        },
        SecretKeyPhase::FetchingRedisOwner { key, pg_origin } => {
            lemma_migrated_grows(st, c, c.pos - 1, held, held2, found, found2);
        },
        SecretKeyPhase::FetchingPgOwner { key, pg_origin } => {
            if let Reply::PgAccount(Some(owner)) = reply {
                let id = c.ids@[c.pos - 1]->0;
                let origin = st.redis_origins[key.origin_id];
                assert(owner == st.pg_accounts[st.redis_accounts[origin.owner_id].name@]);
                assert(act == Action::CreateSecretKey(st.key_record(id)));
                assert(!held.contains_key(pg_origin.id));
                assert(held2 == held.insert(pg_origin.id, st.key_record(id)));
                assert(held.submap_of(held2));
                lemma_migrated_grows(st, c, c.pos - 1, held, held2, found, found2);
                assert(st.migrated(id, held2, found2));
                lemma_current_done(st, c, held2, found2);
            }
        },
        SecretKeyPhase::Storing => {
            if let Reply::Written = reply {
                lemma_advance_keeps_invariant(st, c, held, found, post, act, reply2, held2, found2);
            }
        },
        _ => {},
    }
}

proof fn lemma_finish_means_all_migrated(
    st: SecretKeyStores,
    m: SecretKeyMigrator,
    reply: Reply,
    held: Map<u64, OriginSecretKeyCreate>,
    found: Set<Seq<char>>,
    post: SecretKeyMigrator,
)
    requires
        st.run_invariant(m, reply, held, found),
        m.steps_to(reply, post, Action::Finish),
    ensures
        post.cursor.ids@ == key_ids_spec(st.keys),
        st.migrated_before(
            IdCursor { ids: post.cursor.ids, pos: 0 },
            key_ids_spec(st.keys).len() as int,
            held,
            found,
        ),
{
    let c = m.cursor;
    let d = IdCursor { ids: post.cursor.ids, pos: 0 };
    match m.phase {
        SecretKeyPhase::ListingKeys => {
            if let Reply::Keys(k) = reply {
                let c0 = choose|c0: IdCursor|
                    c0.ids@ == key_ids_spec(k.deep_view()) && c0.pos == 0
                        && #[trigger] SecretKeyMigrator::advances(c0, post, Action::Finish);
            }
        },
        SecretKeyPhase::CheckingKey { .. } => {
            lemma_current_done(st, c, held, found);
            assert forall|j: int| 0 <= j < c.pos implies (#[trigger] d.ids@[j] matches Some(id)
                && st.migrated(id, held, found)) by {
                assert(d.ids@[j] == c.ids@[j]);
            }
        },
        SecretKeyPhase::Storing => {
            assert forall|j: int| 0 <= j < c.pos implies (#[trigger] d.ids@[j] matches Some(id)
                && st.migrated(id, held, found)) by {
                assert(d.ids@[j] == c.ids@[j]);
            }
        },
        _ => {},
    }
}

proof fn lemma_held_when_asked_grows(
    st: SecretKeyStores,
    actions: Seq<Action>,
    helds: Seq<Map<u64, OriginSecretKeyCreate>>,
    i: int,
)
    requires
        0 <= i < actions.len(),
        helds.len() == actions.len(),
    ensures
        st.held_when_asked(actions, helds, i).subset_of(st.held_when_asked(actions, helds, i + 1)),
        st.records_ask(actions[i], helds[i], st.held_when_asked(actions, helds, i + 1)),
{
    assert forall|name: Seq<char>| #[trigger] st.held_when_asked(actions, helds, i).contains(
        name,
    ) implies st.held_when_asked(actions, helds, i + 1).contains(name) by {
        let t = choose|t: int| 0 <= t < i && #[trigger] st.asks_held(actions[t], helds[t], name);
        assert(0 <= t < i + 1 && st.asks_held(actions[t], helds[t], name));
    }
    assert forall|name: Seq<char>| #[trigger] st.asks_held(
        actions[i],
        helds[i],
        name,
    ) implies st.held_when_asked(actions, helds, i + 1).contains(name) by {
        assert(0 <= i < i + 1 && st.asks_held(actions[i], helds[i], name));
    }
}

proof fn lemma_run_invariant_at(
    st: SecretKeyStores,
    i: int,
    states: Seq<SecretKeyMigrator>,
    replies: Seq<Reply>,
    actions: Seq<Action>,
    helds: Seq<Map<u64, OriginSecretKeyCreate>>,
)
    requires
        0 <= i < actions.len(),
        states.len() == actions.len() + 1,
        replies.len() == actions.len(),
        helds.len() == actions.len(),
        states[0].phase == SecretKeyPhase::Begin,
        replies[0] == Reply::Start,
        forall|k: int|
            0 <= k < actions.len() ==> #[trigger] states[k].steps_to(
                replies[k],
                states[k + 1],
                actions[k],
            ),
        forall|k: int|
            0 <= k < actions.len() - 1 ==> #[trigger] st.answers(
                actions[k],
                replies[k + 1],
                helds[k],
                helds[k + 1],
            ),
    ensures
        st.run_invariant(states[i], replies[i], helds[i], st.held_when_asked(actions, helds, i)),
        forall|k: int| 0 <= k < i ==> (#[trigger] helds[k]).submap_of(helds[k + 1]),
    decreases i,
{
    if i > 0 {
        lemma_run_invariant_at(st, i - 1, states, replies, actions, helds);
        let k = i - 1;
        assert(states[k].steps_to(replies[k], states[k + 1], actions[k]));
        assert(st.answers(actions[k], replies[k + 1], helds[k], helds[k + 1]));
        assert(k + 1 == i);
        lemma_held_when_asked_grows(st, actions, helds, k);
        lemma_step_keeps_invariant(
            st,
            states[k],
            replies[k],
            helds[k],
            st.held_when_asked(actions, helds, k),
            states[i],
            actions[k],
            replies[i],
            helds[i],
            st.held_when_asked(actions, helds, i),
        );
    }
}

/// Law: a run of the whole secret-key migration against stores that answer
/// faithfully, from its start to `Finish`, leaves Postgres holding a secret
/// key for the origin of every Redis secret key whose id the keys carry; that
/// key is the Redis key's own record (its name, revision and body, in the
/// Postgres origin of its origin's name, owned by the Postgres account of its
/// origin owner's name) unless the run found, when it asked, that Postgres
/// already held a secret key for that origin. Postgres only gains secret keys
/// along the way and never changes one it holds.
///
/// `states[k]` takes `replies[k]` and moves to `states[k + 1]`, asking for
/// `actions[k]`; `helds[k]` maps the id of each Postgres origin that holds a
/// secret key to that key's record, when `replies[k]` arrives.
pub proof fn law_secret_key_run_migrates_every_key(
    st: SecretKeyStores,
    states: Seq<SecretKeyMigrator>,
    replies: Seq<Reply>,
    actions: Seq<Action>,
    helds: Seq<Map<u64, OriginSecretKeyCreate>>,
)
    requires
        actions.len() > 0,
        states.len() == actions.len() + 1,
        replies.len() == actions.len(),
        helds.len() == actions.len(),
        states[0].phase == SecretKeyPhase::Begin,
        replies[0] == Reply::Start,
        forall|k: int|
            0 <= k < actions.len() ==> #[trigger] states[k].steps_to(
                replies[k],
                states[k + 1],
                actions[k],
            ),
        forall|k: int|
            0 <= k < actions.len() - 1 ==> #[trigger] st.answers(
                actions[k],
                replies[k + 1],
                helds[k],
                helds[k + 1],
            ),
        actions.last() == Action::Finish,
    ensures
        forall|j: int|
            0 <= j < key_ids_spec(st.keys).len() ==> (#[trigger] key_ids_spec(st.keys)[j] matches Some(
                id,
            ) && st.migrated(id, helds.last(), st.held_when_asked(actions, helds, actions.len() as int))),
        forall|k: int| 0 <= k < helds.len() - 1 ==> (#[trigger] helds[k]).submap_of(helds[k + 1]),
{
    let n = actions.len() as int;
    lemma_run_invariant_at(st, n - 1, states, replies, actions, helds);
    let k = n - 1;
    let found = st.held_when_asked(actions, helds, k);
    let found_all = st.held_when_asked(actions, helds, n);
    assert(states[k].steps_to(replies[k], states[k + 1], actions[k]));
    assert(k + 1 == n);
    lemma_finish_means_all_migrated(st, states[k], replies[k], helds[k], found, states[n]);
    lemma_held_when_asked_grows(st, actions, helds, k);
    let d = IdCursor { ids: states[n].cursor.ids, pos: 0 };
    lemma_migrated_grows(st, d, key_ids_spec(st.keys).len() as int, helds[k], helds[k], found, found_all);
    assert forall|j: int| 0 <= j < key_ids_spec(st.keys).len() implies (#[trigger] key_ids_spec(
        st.keys,
    )[j] matches Some(id) && st.migrated(id, helds.last(), found_all)) by {
        assert(d.ids@[j] == key_ids_spec(st.keys)[j]);
    }
}

} // verus!
