//! Origins: each Redis origin is created in Postgres, owned by the Postgres
//! account that has its Redis owner's name.
use vstd::prelude::*;
use crate::model::{Account, Origin};
use crate::postgres_lib::create_origin;
use crate::redis_extraction::{keys_pattern, keys_pattern_spec, key_ids_spec};
use crate::migrators::common::{
    Action, Failure, IdCursor, NextId, Reply, cursor_for, cursor_over_keys, empty_cursor,
    lex_lt, next_id, next_id_spec, remaining, lemma_next_id_progress,
};

verus! {

/// Where an origin migration stands.
pub enum OriginPhase {
    /// Waiting for `Reply::Start`, to list the origin keys.
    Begin,
    /// Waiting for the origin keys.
    ListingKeys,
    /// Waiting for `Reply::Start`, to take the next id.
    Next,
    /// Waiting for the Redis origin of the current id.
    FetchingRedisOrigin,
    /// Waiting for the Redis account that owns the origin.
    FetchingOwner(Origin),
    /// Waiting for the Postgres account of the owner's name.
    FetchingPgOwner(Origin),
    /// Waiting for the origin to be written.
    Creating,
    /// Every id has been handled.
    Finished,
    /// The run stopped.
    Failed(Failure),
}

/// The origin migration.
pub struct OriginMigrator {
    pub phase: OriginPhase,
    pub cursor: IdCursor,
}

/// The origin request for a Redis origin and the Postgres account of its
/// owner: the same name, owned by that account.
pub open spec fn is_origin_for(act: Action, origin: Origin, owner: Account) -> bool {
    &&& act matches Action::CreateOrigin(oc)
    &&& oc.name == origin.name
    &&& oc.owner_id == owner.id
    &&& oc.owner_name == owner.name
}

impl OriginMigrator {
    /// The move to the next id, from `cursor`.
    pub open spec fn advances(cursor: IdCursor, post: Self, act: Action) -> bool {
        let (c, n) = next_id_spec(cursor);
        match n {
            NextId::Exhausted => post == (OriginMigrator { phase: OriginPhase::Finished, cursor: c })
                && act == Action::Finish,
            NextId::Malformed => post == (OriginMigrator {
                phase: OriginPhase::Failed(Failure::MalformedKeyId),
                cursor: c,
            }) && act == Action::Abort(Failure::MalformedKeyId),
            NextId::Id(id) => post == (OriginMigrator {
                phase: OriginPhase::FetchingRedisOrigin,
                cursor: c,
            }) && act == Action::FindRedisOrigin(id),
        }
    }

    /// Stopping for `f`.
    pub open spec fn fails(cursor: IdCursor, f: Failure, post: Self, act: Action) -> bool {
        post == (OriginMigrator { phase: OriginPhase::Failed(f), cursor }) && act == Action::Abort(f)
    }

    /// One step: from `self`, on `reply`, the migration moves to `post` and asks
    /// for `act`.
    pub open spec fn steps_to(self, reply: Reply, post: Self, act: Action) -> bool {
        let bad = Self::fails(self.cursor, Failure::UnexpectedReply, post, act);
        match self.phase {
            OriginPhase::Begin => match reply {
                Reply::Start => {
                    &&& post == (OriginMigrator { phase: OriginPhase::ListingKeys, cursor: self.cursor })
                    &&& act matches Action::ListRedisKeys(p)
                    &&& p@ == keys_pattern_spec("origin"@)
                },
                _ => bad,
            },
            OriginPhase::ListingKeys => match reply {
                Reply::Keys(keys) => exists|c: IdCursor|
                    c.ids@ == key_ids_spec(keys.deep_view()) && c.pos == 0
                        && #[trigger] Self::advances(c, post, act),
                _ => bad,
            },
            OriginPhase::Next => match reply {
                Reply::Start => Self::advances(self.cursor, post, act),
                _ => bad,
            },
            OriginPhase::FetchingRedisOrigin => match reply {
                Reply::RedisOrigin(o) => post == (OriginMigrator {
                    phase: OriginPhase::FetchingOwner(o),
                    cursor: self.cursor,
                }) && act == Action::FindRedisAccount(o.owner_id),
                _ => bad,
            },
            OriginPhase::FetchingOwner(o) => match reply {
                Reply::RedisAccount(a) => post == (OriginMigrator {
                    phase: OriginPhase::FetchingPgOwner(o),
                    cursor: self.cursor,
                }) && act == Action::GetPgAccount(a.name),
                _ => bad,
            },
            OriginPhase::FetchingPgOwner(o) => match reply {
                Reply::PgAccount(None) => Self::fails(self.cursor, Failure::NoAccountForOrigin, post, act),
                Reply::PgAccount(Some(owner)) => post == (OriginMigrator {
                    phase: OriginPhase::Creating,
                    cursor: self.cursor,
                }) && is_origin_for(act, o, owner),
                _ => bad,
            },
            OriginPhase::Creating => match reply {
                Reply::Written => Self::advances(self.cursor, post, act),
                _ => bad,
            },
            OriginPhase::Finished => post == self && act == Action::Finish,
            OriginPhase::Failed(f) => post == self && act == Action::Abort(f),
        }
    }

    /// The migration of every origin (`OriginMigrator::new(..).migrate()`).
    pub fn new() -> (m: Self)
        ensures
            m.phase == OriginPhase::Begin,
            m.cursor.ids@.len() == 0,
            m.cursor.pos == 0,
    {
        OriginMigrator { phase: OriginPhase::Begin, cursor: empty_cursor() }
    }

    /// The migration of the single origin `id`.
    pub fn migrate_origin(id: u64) -> (m: Self)
        ensures
            m.phase == OriginPhase::Next,
            m.cursor.ids@ == seq![Some(id)],
            m.cursor.pos == 0,
    {
        OriginMigrator { phase: OriginPhase::Next, cursor: cursor_for(id) }
    }

    fn advance(cursor: IdCursor) -> (res: (Self, Action))
        ensures
            Self::advances(cursor, res.0, res.1),
    {
        let (c, n) = next_id(cursor);
        match n {
            NextId::Exhausted => (OriginMigrator { phase: OriginPhase::Finished, cursor: c }, Action::Finish),
            NextId::Malformed => Self::fail(c, Failure::MalformedKeyId),
            NextId::Id(id) => (
                OriginMigrator { phase: OriginPhase::FetchingRedisOrigin, cursor: c },
                Action::FindRedisOrigin(id),
            ),
        }
    }

    fn fail(cursor: IdCursor, f: Failure) -> (res: (Self, Action))
        ensures
            Self::fails(cursor, f, res.0, res.1),
    {
        (OriginMigrator { phase: OriginPhase::Failed(f), cursor }, Action::Abort(f))
    }

    /// Takes one step on `reply`.
    pub fn step(self, reply: Reply) -> (res: (Self, Action))
        ensures
            self.steps_to(reply, res.0, res.1),
    {
        let OriginMigrator { phase, cursor } = self;
        match phase {
            OriginPhase::Begin => match reply {
                Reply::Start => {
                    let p = keys_pattern("origin");
                    proof {
                        reveal_strlit("origin");
                    }
                    (OriginMigrator { phase: OriginPhase::ListingKeys, cursor }, Action::ListRedisKeys(p))
                },
                _ => Self::fail(cursor, Failure::UnexpectedReply),
            },
            OriginPhase::ListingKeys => match reply {
                Reply::Keys(keys) => {
                    let c = cursor_over_keys(&keys);
                    let res = Self::advance(c);
                    assert(Self::advances(c, res.0, res.1));
                    res
                },
                _ => Self::fail(cursor, Failure::UnexpectedReply),
            },
            OriginPhase::Next => match reply {
                Reply::Start => Self::advance(cursor),
                _ => Self::fail(cursor, Failure::UnexpectedReply),
            },
            OriginPhase::FetchingRedisOrigin => match reply {
                Reply::RedisOrigin(o) => {
                    let owner = o.owner_id;
                    (
                        OriginMigrator { phase: OriginPhase::FetchingOwner(o), cursor },
                        Action::FindRedisAccount(owner),
                    )
                },
                _ => Self::fail(cursor, Failure::UnexpectedReply),
            },
            OriginPhase::FetchingOwner(o) => match reply {
                Reply::RedisAccount(a) => (
                    OriginMigrator { phase: OriginPhase::FetchingPgOwner(o), cursor },
                    Action::GetPgAccount(a.name),
                ),
                _ => Self::fail(cursor, Failure::UnexpectedReply),
            },
            OriginPhase::FetchingPgOwner(o) => match reply {
                Reply::PgAccount(None) => Self::fail(cursor, Failure::NoAccountForOrigin),
                Reply::PgAccount(Some(owner)) => {
                    let oc = create_origin(&o.name, owner.id, &owner.name);
                    (OriginMigrator { phase: OriginPhase::Creating, cursor }, Action::CreateOrigin(oc))
                },
                _ => Self::fail(cursor, Failure::UnexpectedReply),
            },
            OriginPhase::Creating => match reply {
                Reply::Written => Self::advance(cursor),
                _ => Self::fail(cursor, Failure::UnexpectedReply),
            },
            OriginPhase::Finished => (OriginMigrator { phase: OriginPhase::Finished, cursor }, Action::Finish),
            OriginPhase::Failed(f) => Self::fail(cursor, f),
        }
    }

    /// The run has ended, well or not.
    pub open spec fn ended(self) -> bool {
        self.phase is Finished || self.phase is Failed
    }

    /// How far the run is from its end (compared lexicographically).
    pub open spec fn rank(self) -> (nat, nat, nat, nat) {
        let r = remaining(self.cursor);
        match self.phase {
            OriginPhase::Begin => (2, 0, 0, 0),
            OriginPhase::ListingKeys => (1, 0, 0, 0),
            OriginPhase::Next => (0, r, 5, 0),
            OriginPhase::FetchingRedisOrigin => (0, r, 4, 0),
            OriginPhase::FetchingOwner(_) => (0, r, 3, 0),
            OriginPhase::FetchingPgOwner(_) => (0, r, 2, 0),
            OriginPhase::Creating => (0, r, 1, 0),
            OriginPhase::Finished => (0, r, 0, 0),
            OriginPhase::Failed(_) => (0, r, 0, 0),
        }
    }
}

proof fn lemma_advances_rank(c: IdCursor, post: OriginMigrator, act: Action)
    requires
        OriginMigrator::advances(c, post, act),
    ensures
        post.rank().0 == 0,
        remaining(c) == 0 ==> post.rank() == (0nat, 0nat, 0nat, 0nat),
        remaining(c) > 0 ==> post.rank().1 < remaining(c),
{
    lemma_next_id_progress(c);
}

/// Law: an origin is created in Postgres only right after Postgres returned
/// the account of its Redis owner's name, and it keeps the Redis origin's name
/// and is owned by that account.
pub proof fn law_origin_created_for_owner(
    m: OriginMigrator,
    reply: Reply,
    post: OriginMigrator,
    act: Action,
)
    requires
        m.steps_to(reply, post, act),
        act is CreateOrigin,
    ensures
        m.phase is FetchingPgOwner,
        reply matches Reply::PgAccount(Some(owner)) && is_origin_for(act, m.phase->FetchingPgOwner_0, owner),
{
    if let OriginPhase::ListingKeys = m.phase {
        if let Reply::Keys(keys) = reply {
            let c = choose|c: IdCursor|
                c.ids@ == key_ids_spec(keys.deep_view()) && c.pos == 0
                    && #[trigger] OriginMigrator::advances(c, post, act);
        }
    }
}

/// Law: an origin without a Postgres owner account stops the run.
pub proof fn law_origin_without_owner_fails(m: OriginMigrator, post: OriginMigrator, act: Action)
    requires
        m.phase is FetchingPgOwner,
        m.steps_to(Reply::PgAccount(None), post, act),
    ensures
        post.phase == OriginPhase::Failed(Failure::NoAccountForOrigin),
        act == Action::Abort(Failure::NoAccountForOrigin),
{
}

/// Law: a run that has ended stays where it is and repeats its last word.
pub proof fn law_origin_ended_run_stays(
    m: OriginMigrator,
    reply: Reply,
    post: OriginMigrator,
    act: Action,
)
    requires
        m.steps_to(reply, post, act),
        m.ended(),
    ensures
        post == m,
{
}

/// Law: every step of a run that has not ended brings it closer to its end.
pub proof fn law_origin_run_progresses(
    m: OriginMigrator,
    reply: Reply,
    post: OriginMigrator,
    act: Action,
)
    requires
        m.steps_to(reply, post, act),
        !m.ended(),
    ensures
        lex_lt(post.rank(), m.rank()),
{
    if let OriginPhase::ListingKeys = m.phase {
        if let Reply::Keys(keys) = reply {
            let c = choose|c: IdCursor|
                c.ids@ == key_ids_spec(keys.deep_view()) && c.pos == 0
                    && #[trigger] OriginMigrator::advances(c, post, act);
            lemma_advances_rank(c, post, act);
        }
    } else if OriginMigrator::advances(m.cursor, post, act) {
        lemma_advances_rank(m.cursor, post, act);
    }
}

/// A store that answers the origin migration faithfully: Redis holds the key
/// list `keys`, the origins `redis_origins` and the accounts `redis_accounts`
/// by id; Postgres holds the accounts `pg_accounts` by name, and the names
/// of its origins are `pg` before the action and `pg_after` after it.
pub open spec fn answers(
    act: Action,
    reply: Reply,
    keys: Seq<Seq<char>>,
    redis_origins: Map<u64, Origin>,
    redis_accounts: Map<u64, Account>,
    pg_accounts: Map<Seq<char>, Account>,
    pg: Set<Seq<char>>,
    pg_after: Set<Seq<char>>,
) -> bool {
    match act {
        Action::ListRedisKeys(_) => reply matches Reply::Keys(k) && k.deep_view() == keys && pg_after
            == pg,
        Action::FindRedisOrigin(id) => redis_origins.contains_key(id) && reply == Reply::RedisOrigin(
            redis_origins[id],
        ) && pg_after == pg,
        Action::FindRedisAccount(id) => redis_accounts.contains_key(id) && reply
            == Reply::RedisAccount(redis_accounts[id]) && pg_after == pg,
        Action::GetPgAccount(name) => reply == Reply::PgAccount(
            if pg_accounts.contains_key(name@) {
                Some(pg_accounts[name@])
            } else {
                None
            },
        ) && pg_after == pg,
        Action::CreateOrigin(oc) => reply == Reply::Written && pg_after == pg.insert(oc.name@),
        _ => false,
    }
}

/// The first `k` ids of the walk are ids of Redis origins whose names
/// Postgres holds.
pub open spec fn migrated_before(
    c: IdCursor,
    k: int,
    redis_origins: Map<u64, Origin>,
    pg: Set<Seq<char>>,
) -> bool {
    forall|j: int|
        0 <= j < k ==> (#[trigger] c.ids@[j] matches Some(id) && redis_origins.contains_key(id)
            && pg.contains(redis_origins[id].name@))
}

/// What holds of a faithful run of the whole origin migration when it is in
/// state `m`, about to receive `reply`, with Postgres holding the origin
/// names `pg`.
pub open spec fn run_invariant(
    m: OriginMigrator,
    reply: Reply,
    keys: Seq<Seq<char>>,
    redis_origins: Map<u64, Origin>,
    redis_accounts: Map<u64, Account>,
    pg_accounts: Map<Seq<char>, Account>,
    pg: Set<Seq<char>>,
) -> bool {
    let c = m.cursor;
    let walking = c.ids@ == key_ids_spec(keys) && 1 <= c.pos <= c.ids@.len();
    let current = c.ids@[c.pos - 1];
    let before = migrated_before(c, c.pos - 1, redis_origins, pg);
    match m.phase {
        OriginPhase::Begin => reply == Reply::Start,
        OriginPhase::ListingKeys => reply matches Reply::Keys(k) && k.deep_view() == keys,
        OriginPhase::FetchingRedisOrigin => {
            &&& walking
            &&& before
            &&& current matches Some(id)
            &&& redis_origins.contains_key(id)
            &&& reply == Reply::RedisOrigin(redis_origins[id])
        },
        OriginPhase::FetchingOwner(o) => {
            &&& walking
            &&& before
            &&& current matches Some(id)
            &&& redis_origins.contains_key(id)
            &&& o == redis_origins[id]
            &&& redis_accounts.contains_key(o.owner_id)
            &&& reply == Reply::RedisAccount(redis_accounts[o.owner_id])
        },
        OriginPhase::FetchingPgOwner(o) => {
            &&& walking
            &&& before
            &&& current matches Some(id)
            &&& redis_origins.contains_key(id)
            &&& o == redis_origins[id]
            &&& reply matches Reply::PgAccount(_)
        },
        OriginPhase::Creating => {
            &&& walking
            &&& migrated_before(c, c.pos as int, redis_origins, pg)
            &&& reply == Reply::Written
        },
        _ => false,
    }
}

proof fn lemma_migrated_before_grows(
    c: IdCursor,
    k: int,
    redis_origins: Map<u64, Origin>,
    pg: Set<Seq<char>>,
    pg2: Set<Seq<char>>,
)
    requires
        migrated_before(c, k, redis_origins, pg),
        pg.subset_of(pg2),
    ensures
        migrated_before(c, k, redis_origins, pg2),
{
    assert forall|j: int| 0 <= j < k implies (#[trigger] c.ids@[j] matches Some(id)
        && redis_origins.contains_key(id) && pg2.contains(redis_origins[id].name@)) by {
        if let Some(id) = c.ids@[j] {
            assert(pg.contains(redis_origins[id].name@));
        }
    }
}

proof fn lemma_advance_keeps_invariant(
    c: IdCursor,
    keys: Seq<Seq<char>>,
    redis_origins: Map<u64, Origin>,
    redis_accounts: Map<u64, Account>,
    pg_accounts: Map<Seq<char>, Account>,
    pg: Set<Seq<char>>,
    post: OriginMigrator,
    act: Action,
    reply2: Reply,
    pg2: Set<Seq<char>>,
)
    requires
        c.ids@ == key_ids_spec(keys),
        c.pos <= c.ids@.len(),
        migrated_before(c, c.pos as int, redis_origins, pg),
        OriginMigrator::advances(c, post, act),
        answers(act, reply2, keys, redis_origins, redis_accounts, pg_accounts, pg, pg2),
    ensures
        run_invariant(post, reply2, keys, redis_origins, redis_accounts, pg_accounts, pg2),
{
    let (c2, n) = next_id_spec(c);
    if let NextId::Id(id) = n {
        assert(c2.pos == c.pos + 1);
        assert(migrated_before(c2, c2.pos - 1, redis_origins, pg2));
    }
}

proof fn lemma_step_keeps_invariant(
    m: OriginMigrator,
    reply: Reply,
    keys: Seq<Seq<char>>,
    redis_origins: Map<u64, Origin>,
    redis_accounts: Map<u64, Account>,
    pg_accounts: Map<Seq<char>, Account>,
    pg: Set<Seq<char>>,
    post: OriginMigrator,
    act: Action,
    reply2: Reply,
    pg2: Set<Seq<char>>,
)
    requires
        run_invariant(m, reply, keys, redis_origins, redis_accounts, pg_accounts, pg),
        m.steps_to(reply, post, act),
        answers(act, reply2, keys, redis_origins, redis_accounts, pg_accounts, pg, pg2),
    ensures
        run_invariant(post, reply2, keys, redis_origins, redis_accounts, pg_accounts, pg2),
{
    let c = m.cursor;
    match m.phase {
        OriginPhase::ListingKeys => {
            if let Reply::Keys(k) = reply {
                let c0 = choose|c0: IdCursor|
                    c0.ids@ == key_ids_spec(k.deep_view()) && c0.pos == 0
                        && #[trigger] OriginMigrator::advances(c0, post, act);
                lemma_advance_keeps_invariant(
                    c0,
                    keys,
                    redis_origins,
                    redis_accounts,
                    pg_accounts,
                    pg,
                    post,
                    act,
                    reply2,
                    pg2,
                );
            }
        },
        OriginPhase::FetchingPgOwner(o) => {
            if let Reply::PgAccount(Some(_)) = reply {
                assert(pg2 == pg.insert(o.name@));
                lemma_migrated_before_grows(c, c.pos - 1, redis_origins, pg, pg2);
                assert(migrated_before(c, c.pos as int, redis_origins, pg2)) by {
                    assert forall|j: int| 0 <= j < c.pos implies (#[trigger] c.ids@[j] matches Some(
                        id,
                    ) && redis_origins.contains_key(id) && pg2.contains(redis_origins[id].name@)) by {
                        if j < c.pos - 1 {
                        }
                    }
                }
            }
        },
        OriginPhase::Creating => {
            if let Reply::Written = reply {
                lemma_advance_keeps_invariant(
                    c,
                    keys,
                    redis_origins,
                    redis_accounts,
                    pg_accounts,
                    pg,
                    post,
                    act,
                    reply2,
                    pg2,
                );
            }
        },
        _ => {},
    }
}

proof fn lemma_finish_means_all_migrated(
    m: OriginMigrator,
    reply: Reply,
    keys: Seq<Seq<char>>,
    redis_origins: Map<u64, Origin>,
    redis_accounts: Map<u64, Account>,
    pg_accounts: Map<Seq<char>, Account>,
    pg: Set<Seq<char>>,
    post: OriginMigrator,
)
    requires
        run_invariant(m, reply, keys, redis_origins, redis_accounts, pg_accounts, pg),
        m.steps_to(reply, post, Action::Finish),
    ensures
        post.cursor.ids@ == key_ids_spec(keys),
        migrated_before(
            IdCursor { ids: post.cursor.ids, pos: 0 },
            key_ids_spec(keys).len() as int,
            redis_origins,
            pg,
        ),
{
    let c = m.cursor;
    if let OriginPhase::ListingKeys = m.phase {
        if let Reply::Keys(k) = reply {
            let c0 = choose|c0: IdCursor|
                c0.ids@ == key_ids_spec(k.deep_view()) && c0.pos == 0
                    && #[trigger] OriginMigrator::advances(c0, post, Action::Finish);
        }
    } else if let OriginPhase::Creating = m.phase {
        let d = IdCursor { ids: post.cursor.ids, pos: 0 };
        assert forall|j: int| 0 <= j < c.pos implies (#[trigger] d.ids@[j] matches Some(id)
            && redis_origins.contains_key(id) && pg.contains(redis_origins[id].name@)) by {
            assert(d.ids@[j] == c.ids@[j]);
        }
    }
}

proof fn lemma_run_invariant_at(
    i: int,
    keys: Seq<Seq<char>>,
    redis_origins: Map<u64, Origin>,
    redis_accounts: Map<u64, Account>,
    pg_accounts: Map<Seq<char>, Account>,
    states: Seq<OriginMigrator>,
    replies: Seq<Reply>,
    actions: Seq<Action>,
    pgs: Seq<Set<Seq<char>>>,
)
    requires
        0 <= i < actions.len(),
        states.len() == actions.len() + 1,
        replies.len() == actions.len(),
        pgs.len() == actions.len(),
        states[0].phase == OriginPhase::Begin,
        replies[0] == Reply::Start,
        forall|k: int|
            0 <= k < actions.len() ==> #[trigger] states[k].steps_to(
                replies[k],
                states[k + 1],
                actions[k],
            ),
        forall|k: int|
            0 <= k < actions.len() - 1 ==> #[trigger] answers(
                actions[k],
                replies[k + 1],
                keys,
                redis_origins,
                redis_accounts,
                pg_accounts,
                pgs[k],
                pgs[k + 1],
            ),
    ensures
        run_invariant(states[i], replies[i], keys, redis_origins, redis_accounts, pg_accounts, pgs[i]),
    decreases i,
{
    if i > 0 {
        lemma_run_invariant_at(
            i - 1,
            keys,
            redis_origins,
            redis_accounts,
            pg_accounts,
            states,
            replies,
            actions,
            pgs,
        );
        let k = i - 1;
        assert(states[k].steps_to(replies[k], states[k + 1], actions[k]));
        assert(answers(
            actions[k],
            replies[k + 1],
            keys,
            redis_origins,
            redis_accounts,
            pg_accounts,
            pgs[k],
            pgs[k + 1],
        ));
        assert(k + 1 == i);
        lemma_step_keeps_invariant(
            states[k],
            replies[k],
            keys,
            redis_origins,
            redis_accounts,
            pg_accounts,
            pgs[k],
            states[i],
            actions[k],
            replies[i],
            pgs[i],
        );
    }
}

/// Law: a run of the whole origin migration against a store that answers
/// faithfully, from its start to `Finish`, leaves Postgres holding an origin
/// of the name of every Redis origin whose id the origin keys carry.
///
/// `states[k]` takes `replies[k]` and moves to `states[k + 1]`, asking for
/// `actions[k]`; `pgs[k]` is the set of origin names Postgres holds when
/// `replies[k]` arrives.
pub proof fn law_origin_run_migrates_every_origin(
    keys: Seq<Seq<char>>,
    redis_origins: Map<u64, Origin>,
    redis_accounts: Map<u64, Account>,
    pg_accounts: Map<Seq<char>, Account>,
    states: Seq<OriginMigrator>,
    replies: Seq<Reply>,
    actions: Seq<Action>,
    pgs: Seq<Set<Seq<char>>>,
)
    requires
        actions.len() > 0,
        states.len() == actions.len() + 1,
        replies.len() == actions.len(),
        pgs.len() == actions.len(),
        states[0].phase == OriginPhase::Begin,
        replies[0] == Reply::Start,
        forall|k: int|
            0 <= k < actions.len() ==> #[trigger] states[k].steps_to(
                replies[k],
                states[k + 1],
                actions[k],
            ),
        forall|k: int|
            0 <= k < actions.len() - 1 ==> #[trigger] answers(
                actions[k],
                replies[k + 1],
                keys,
                redis_origins,
                redis_accounts,
                pg_accounts,
                pgs[k],
                pgs[k + 1],
            ),
        actions.last() == Action::Finish,
    ensures
        forall|j: int|
            0 <= j < key_ids_spec(keys).len() ==> (#[trigger] key_ids_spec(keys)[j] matches Some(id)
                && redis_origins.contains_key(id) && pgs.last().contains(
                redis_origins[id].name@,
            )),
{
    let n = actions.len() as int;
    lemma_run_invariant_at(
        n - 1,
        keys,
        redis_origins,
        redis_accounts,
        pg_accounts,
        states,
        replies,
        actions,
        pgs,
    );
    let k = n - 1;
    assert(states[k].steps_to(replies[k], states[k + 1], actions[k]));
    assert(k + 1 == n);
    lemma_finish_means_all_migrated(
        states[k],
        replies[k],
        keys,
        redis_origins,
        redis_accounts,
        pg_accounts,
        pgs[k],
        states[n],
    );
    let d = IdCursor { ids: states[n].cursor.ids, pos: 0 };
    assert forall|j: int| 0 <= j < key_ids_spec(keys).len() implies (#[trigger] key_ids_spec(
        keys,
    )[j] matches Some(id) && redis_origins.contains_key(id) && pgs.last().contains(
        redis_origins[id].name@,
    )) by {
        assert(d.ids@[j] == key_ids_spec(keys)[j]);
    }
}

} // verus!
