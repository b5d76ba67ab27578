//! Accounts: each Redis account that Postgres does not yet know by name gets a
//! Postgres account, created through a GitHub session.
use vstd::prelude::*;
use vstd::string::StringExecFns;
use crate::model::{Account, OAuthProvider};
use crate::postgres_lib::create_session;
use crate::redis_extraction::{keys_pattern, keys_pattern_spec};
use crate::migrators::common::{
    Action, Failure, IdCursor, NextId, Reply, cursor_for, cursor_over_keys, empty_cursor,
    lex_lt, next_id, next_id_spec, remaining, lemma_next_id_progress,
};

verus! {

/// Where an account migration stands.
pub enum AccountPhase {
    /// Waiting for `Reply::Start`, to list the account keys.
    Begin,
    /// Waiting for the account keys.
    ListingKeys,
    /// Waiting for `Reply::Start`, to take the next id.
    Next,
    /// Waiting for the Redis account of the current id.
    FetchingRedisAccount,
    /// Waiting for Postgres to say whether it knows this account's name.
    CheckingPg(Account),
    /// Waiting for the new account to be written.
    Creating,
    /// Every id has been handled.
    Finished,
    /// The run stopped.
    Failed(Failure),
}

/// The account migration.
pub struct AccountMigrator {
    pub phase: AccountPhase,
    pub cursor: IdCursor,
}

/// The session through which a Redis account is recreated in Postgres: token
/// `pretend_session`, the Redis id as external id, and the same email and name.
pub open spec fn is_session_for(action: Action, account: Account) -> bool {
    &&& action matches Action::CreateAccount(sc)
    &&& sc.token@ == "pretend_session"@
    &&& sc.extern_id == account.id
    &&& sc.email == account.email
    &&& sc.name == account.name
    &&& sc.provider == OAuthProvider::GitHub
}

impl AccountMigrator {
    /// The move to the next id, from `cursor`.
    pub open spec fn advances(cursor: IdCursor, post: Self, act: Action) -> bool {
        let (c, n) = next_id_spec(cursor);
        match n {
            NextId::Exhausted => post == (AccountMigrator { phase: AccountPhase::Finished, cursor: c })
                && act == Action::Finish,
            NextId::Malformed => post == (AccountMigrator {
                phase: AccountPhase::Failed(Failure::MalformedKeyId),
                cursor: c,
            }) && act == Action::Abort(Failure::MalformedKeyId),
            NextId::Id(id) => post == (AccountMigrator {
                phase: AccountPhase::FetchingRedisAccount,
                cursor: c,
            }) && act == Action::FindRedisAccount(id),
        }
    }

    /// Stopping on a reply that does not fit.
    pub open spec fn rejects(self, post: Self, act: Action) -> bool {
        post == (AccountMigrator {
            phase: AccountPhase::Failed(Failure::UnexpectedReply),
            cursor: self.cursor,
        }) && act == Action::Abort(Failure::UnexpectedReply)
    }

    /// One step: from `self`, on `reply`, the migration moves to `post` and asks
    /// for `act`.
    pub open spec fn steps_to(self, reply: Reply, post: Self, act: Action) -> bool {
        match self.phase {
            AccountPhase::Begin => match reply {
                Reply::Start => {
                    &&& post == (AccountMigrator {
                        phase: AccountPhase::ListingKeys,
                        cursor: self.cursor,
                    })
                    &&& act matches Action::ListRedisKeys(p)
                    &&& p@ == keys_pattern_spec("account"@)
                },
                _ => self.rejects(post, act),
            },
            AccountPhase::ListingKeys => match reply {
                Reply::Keys(keys) => exists|c: IdCursor|
                    c.ids@ == crate::redis_extraction::key_ids_spec(keys.deep_view()) && c.pos == 0
                        && #[trigger] Self::advances(c, post, act),
                _ => self.rejects(post, act),
            },
            AccountPhase::Next => match reply {
                Reply::Start => Self::advances(self.cursor, post, act),
                _ => self.rejects(post, act),
            },
            AccountPhase::FetchingRedisAccount => match reply {
                Reply::RedisAccount(a) => post == (AccountMigrator {
                    phase: AccountPhase::CheckingPg(a),
                    cursor: self.cursor,
                }) && act == Action::GetPgAccount(a.name),
                _ => self.rejects(post, act),
            },
            AccountPhase::CheckingPg(a) => match reply {
                Reply::PgAccount(Some(_)) => Self::advances(self.cursor, post, act),
                Reply::PgAccount(None) => post == (AccountMigrator {
                    phase: AccountPhase::Creating,
                    cursor: self.cursor,
                }) && is_session_for(act, a),
                _ => self.rejects(post, act),
            },
            AccountPhase::Creating => match reply {
                Reply::Written => Self::advances(self.cursor, post, act),
                _ => self.rejects(post, act),
            },
            AccountPhase::Finished => post == self && act == Action::Finish,
            AccountPhase::Failed(f) => post == self && act == Action::Abort(f),
        }
    }

    /// The migration of every account: `redis_to_postgres`.
    pub fn redis_to_postgres() -> (m: Self)
        ensures
            m.phase == AccountPhase::Begin,
            m.cursor.ids@.len() == 0,
            m.cursor.pos == 0,
    {
        AccountMigrator { phase: AccountPhase::Begin, cursor: empty_cursor() }
    }

    /// The migration of the single account `id`: `redis_to_postgres_account`.
    pub fn redis_to_postgres_account(id: u64) -> (m: Self)
        ensures
            m.phase == AccountPhase::Next,
            m.cursor.ids@ == seq![Some(id)],
            m.cursor.pos == 0,
    {
        AccountMigrator { phase: AccountPhase::Next, cursor: cursor_for(id) }
    }

    fn advance(cursor: IdCursor) -> (res: (Self, Action))
        ensures
            Self::advances(cursor, res.0, res.1),
    {
        let (c, n) = next_id(cursor);
        match n {
            NextId::Exhausted => (
                AccountMigrator { phase: AccountPhase::Finished, cursor: c },
                Action::Finish,
            ),
            NextId::Malformed => (
                AccountMigrator { phase: AccountPhase::Failed(Failure::MalformedKeyId), cursor: c },
                Action::Abort(Failure::MalformedKeyId),
            ),
            NextId::Id(id) => (
                AccountMigrator { phase: AccountPhase::FetchingRedisAccount, cursor: c },
                Action::FindRedisAccount(id),
            ),
        }
    }

    fn reject(cursor: IdCursor) -> (res: (Self, Action))
        ensures
            res.0 == (AccountMigrator {
                phase: AccountPhase::Failed(Failure::UnexpectedReply),
                cursor,
            }),
            res.1 == Action::Abort(Failure::UnexpectedReply),
    {
        (
            AccountMigrator { phase: AccountPhase::Failed(Failure::UnexpectedReply), cursor },
            Action::Abort(Failure::UnexpectedReply),
        )
    }

    /// Takes one step on `reply`.
    pub fn step(self, reply: Reply) -> (res: (Self, Action))
        ensures
            self.steps_to(reply, res.0, res.1),
    {
        let AccountMigrator { phase, cursor } = self;
        match phase {
            AccountPhase::Begin => match reply {
                Reply::Start => {
                    let p = keys_pattern("account");
                    proof {
                        reveal_strlit("account");
                    }
                    (AccountMigrator { phase: AccountPhase::ListingKeys, cursor }, Action::ListRedisKeys(p))
                },
                _ => Self::reject(cursor),
            },
            AccountPhase::ListingKeys => match reply {
                Reply::Keys(keys) => {
                    let c = cursor_over_keys(&keys);
                    let res = Self::advance(c);
                    assert(Self::advances(c, res.0, res.1));
                    res
                },
                _ => Self::reject(cursor),
            },
            AccountPhase::Next => match reply {
                Reply::Start => Self::advance(cursor),
                _ => Self::reject(cursor),
            },
            AccountPhase::FetchingRedisAccount => match reply {
                Reply::RedisAccount(a) => {
                    let name = a.name.clone();
                    (
                        AccountMigrator { phase: AccountPhase::CheckingPg(a), cursor },
                        Action::GetPgAccount(name),
                    )
                },
                _ => Self::reject(cursor),
            },
            AccountPhase::CheckingPg(a) => match reply {
                Reply::PgAccount(Some(_)) => Self::advance(cursor),
                Reply::PgAccount(None) => {
                    let token = String::from_str("pretend_session");
                    proof {
                        reveal_strlit("pretend_session");
                    }
                    let sc = create_session(token, a.id, a.email, a.name);
                    (AccountMigrator { phase: AccountPhase::Creating, cursor }, Action::CreateAccount(sc))
                },
                _ => Self::reject(cursor),
            },
            AccountPhase::Creating => match reply {
                Reply::Written => Self::advance(cursor),
                _ => Self::reject(cursor),
            },
            AccountPhase::Finished => (AccountMigrator { phase: AccountPhase::Finished, cursor }, Action::Finish),
            AccountPhase::Failed(f) => (AccountMigrator { phase: AccountPhase::Failed(f), cursor }, Action::Abort(f)),
        }
    }
}

impl AccountMigrator {
    /// The run has ended, well or not.
    pub open spec fn ended(self) -> bool {
        self.phase is Finished || self.phase is Failed
    }

    /// How far the run is from its end: first the stage (before the keys are
    /// listed, while they are, after), then the ids left, then the place in the
    /// handling of one id.
    pub open spec fn rank(self) -> (nat, nat, nat, nat) {
        let r = remaining(self.cursor);
        match self.phase {
            AccountPhase::Begin => (2, 0, 0, 0),
            AccountPhase::ListingKeys => (1, 0, 0, 0),
            AccountPhase::Next => (0, r, 4, 0),
            AccountPhase::FetchingRedisAccount => (0, r, 3, 0),
            AccountPhase::CheckingPg(_) => (0, r, 2, 0),
            AccountPhase::Creating => (0, r, 1, 0),
            AccountPhase::Finished => (0, r, 0, 0),
            AccountPhase::Failed(_) => (0, r, 0, 0),
        }
    }
}

proof fn lemma_advances_rank(c: IdCursor, post: AccountMigrator, act: Action)
    requires
        AccountMigrator::advances(c, post, act),
    ensures
        post.rank().0 == 0,
        remaining(c) == 0 ==> post.rank().1 == 0 && post.rank().2 == 0 && post.rank().3 == 0,
        remaining(c) > 0 ==> post.rank().1 < remaining(c),
{
    lemma_next_id_progress(c);
}

/// Law: a Postgres account is asked for only right after Postgres said that it
/// has no account of that name, and it is made from the Redis account just
/// fetched, through a `pretend_session` GitHub session.
pub proof fn law_account_created_only_when_missing(
    m: AccountMigrator,
    reply: Reply,
    post: AccountMigrator,
    act: Action,
)
    requires
        m.steps_to(reply, post, act),
        act is CreateAccount,
    ensures
        m.phase is CheckingPg,
        reply == Reply::PgAccount(None),
        is_session_for(act, m.phase->CheckingPg_0),
{
    match m.phase {
        AccountPhase::ListingKeys => {
            if let Reply::Keys(keys) = reply {
                let c = choose|c: IdCursor|
                    c.ids@ == crate::redis_extraction::key_ids_spec(keys.deep_view()) && c.pos == 0
                        && #[trigger] AccountMigrator::advances(c, post, act);
            }
        },
        _ => {},
    }
}

/// Law: a run that has ended stays where it is and repeats its last word.
pub proof fn law_account_ended_run_stays(
    m: AccountMigrator,
    reply: Reply,
    post: AccountMigrator,
    act: Action,
)
    requires
        m.steps_to(reply, post, act),
        m.ended(),
    ensures
        post == m,
        m.phase is Finished ==> act == Action::Finish,
        m.phase is Failed ==> act == Action::Abort(m.phase->Failed_0),
{
}

/// Law: every step of a run that has not ended brings it closer to its end, so
/// every run ends.
pub proof fn law_account_run_progresses(
    m: AccountMigrator,
    reply: Reply,
    post: AccountMigrator,
    act: Action,
)
    requires
        m.steps_to(reply, post, act),
        !m.ended(),
    ensures
        lex_lt(post.rank(), m.rank()),
{
    match m.phase {
        AccountPhase::ListingKeys => {
            if let Reply::Keys(keys) = reply {
                let c = choose|c: IdCursor|
                    c.ids@ == crate::redis_extraction::key_ids_spec(keys.deep_view()) && c.pos == 0
                        && #[trigger] AccountMigrator::advances(c, post, act);
                lemma_advances_rank(c, post, act);
            }
        },
        _ => {
            if AccountMigrator::advances(m.cursor, post, act) {
                lemma_advances_rank(m.cursor, post, act);
            }
        },
    }
}

/// A store that answers the account migration faithfully: Redis holds the
/// key list `keys` and the accounts `redis` by id, Postgres knows the account
/// names `pg` before the action and `pg_after` after it.
pub open spec fn answers(
    act: Action,
    reply: Reply,
    keys: Seq<Seq<char>>,
    redis: Map<u64, Account>,
    pg: Set<Seq<char>>,
    pg_after: Set<Seq<char>>,
) -> bool {
    match act {
        Action::ListRedisKeys(_) => reply matches Reply::Keys(k) && k.deep_view() == keys && pg_after
            == pg,
        Action::FindRedisAccount(id) => redis.contains_key(id) && reply == Reply::RedisAccount(
            redis[id],
        ) && pg_after == pg,
        Action::GetPgAccount(name) => reply matches Reply::PgAccount(found) && (found is Some
            <==> pg.contains(name@)) && pg_after == pg,
        Action::CreateAccount(sc) => reply == Reply::Written && pg_after == pg.insert(sc.name@),
        _ => false,
    }
}

/// The first `k` ids of the walk are ids of Redis accounts whose names
/// Postgres knows.
pub open spec fn migrated_before(
    c: IdCursor,
    k: int,
    redis: Map<u64, Account>,
    pg: Set<Seq<char>>,
) -> bool {
    forall|j: int|
        0 <= j < k ==> (#[trigger] c.ids@[j] matches Some(id) && redis.contains_key(id)
            && pg.contains(redis[id].name@))
}

/// What holds of a faithful run of the whole account migration when it is
/// in state `m`, about to receive `reply`, with Postgres knowing `pg`.
pub open spec fn run_invariant(
    m: AccountMigrator,
    reply: Reply,
    keys: Seq<Seq<char>>,
    redis: Map<u64, Account>,
    pg: Set<Seq<char>>,
) -> bool {
    let c = m.cursor;
    let walking = c.ids@ == crate::redis_extraction::key_ids_spec(keys) && 1 <= c.pos <= c.ids@.len();
    match m.phase {
        AccountPhase::Begin => reply == Reply::Start,
        AccountPhase::ListingKeys => reply matches Reply::Keys(k) && k.deep_view() == keys,
        AccountPhase::FetchingRedisAccount => {
            &&& walking
            &&& migrated_before(c, c.pos - 1, redis, pg)
            &&& c.ids@[c.pos - 1] matches Some(id)
            &&& redis.contains_key(id)
            &&& reply == Reply::RedisAccount(redis[id])
        },
        AccountPhase::CheckingPg(a) => {
            &&& walking
            &&& migrated_before(c, c.pos - 1, redis, pg)
            &&& c.ids@[c.pos - 1] matches Some(id)
            &&& redis.contains_key(id)
            &&& a == redis[id]
            &&& reply matches Reply::PgAccount(found)
            &&& (found is Some <==> pg.contains(a.name@))
        },
        AccountPhase::Creating => {
            &&& walking
            &&& migrated_before(c, c.pos as int, redis, pg)
            &&& reply == Reply::Written
        },
        _ => false,
    }
}

proof fn lemma_migrated_before_grows(
    c: IdCursor,
    k: int,
    redis: Map<u64, Account>,
    pg: Set<Seq<char>>,
    pg2: Set<Seq<char>>,
)
    requires
        migrated_before(c, k, redis, pg),
        pg.subset_of(pg2),
    ensures
        migrated_before(c, k, redis, pg2),
{
    assert forall|j: int| 0 <= j < k implies (#[trigger] c.ids@[j] matches Some(id)
        && redis.contains_key(id) && pg2.contains(redis[id].name@)) by {
        if let Some(id) = c.ids@[j] {
            assert(pg.contains(redis[id].name@));
        }
    }
}

/// A faithful store only ever adds names.
proof fn lemma_answers_grow(
    act: Action,
    reply: Reply,
    keys: Seq<Seq<char>>,
    redis: Map<u64, Account>,
    pg: Set<Seq<char>>,
    pg2: Set<Seq<char>>,
)
    requires
        answers(act, reply, keys, redis, pg, pg2),
    ensures
        pg.subset_of(pg2),
{
}

/// Moving to the next id keeps the run invariant, given that every id before
/// the cursor is migrated.
proof fn lemma_advance_keeps_invariant(
    c: IdCursor,
    keys: Seq<Seq<char>>,
    redis: Map<u64, Account>,
    pg: Set<Seq<char>>,
    post: AccountMigrator,
    act: Action,
    reply2: Reply,
    pg2: Set<Seq<char>>,
)
    requires
        c.ids@ == crate::redis_extraction::key_ids_spec(keys),
        c.pos <= c.ids@.len(),
        migrated_before(c, c.pos as int, redis, pg),
        AccountMigrator::advances(c, post, act),
        answers(act, reply2, keys, redis, pg, pg2),
    ensures
        run_invariant(post, reply2, keys, redis, pg2),
{
    lemma_answers_grow(act, reply2, keys, redis, pg, pg2);
    let (c2, n) = next_id_spec(c);
    if let NextId::Id(id) = n {
        assert(c2.pos == c.pos + 1);
        assert(c2.ids == c.ids);
        assert(migrated_before(c2, c2.pos - 1, redis, pg2));
    }
}

/// One faithful step keeps the run invariant.
proof fn lemma_step_keeps_invariant(
    m: AccountMigrator,
    reply: Reply,
    keys: Seq<Seq<char>>,
    redis: Map<u64, Account>,
    pg: Set<Seq<char>>,
    post: AccountMigrator,
    act: Action,
    reply2: Reply,
    pg2: Set<Seq<char>>,
)
    requires
        run_invariant(m, reply, keys, redis, pg),
        m.steps_to(reply, post, act),
        answers(act, reply2, keys, redis, pg, pg2),
    ensures
        run_invariant(post, reply2, keys, redis, pg2),
{
    lemma_answers_grow(act, reply2, keys, redis, pg, pg2);
    let c = m.cursor;
    match m.phase {
        AccountPhase::Begin => {},
        AccountPhase::ListingKeys => {
            if let Reply::Keys(k) = reply {
                let c0 = choose|c0: IdCursor|
                    c0.ids@ == crate::redis_extraction::key_ids_spec(k.deep_view()) && c0.pos == 0
                        && #[trigger] AccountMigrator::advances(c0, post, act);
                lemma_advance_keeps_invariant(c0, keys, redis, pg, post, act, reply2, pg2);
            }
        },
        AccountPhase::FetchingRedisAccount => {
            lemma_migrated_before_grows(c, c.pos - 1, redis, pg, pg2);
        },
        AccountPhase::CheckingPg(a) => {
            if let Reply::PgAccount(Some(_)) = reply {
                assert(migrated_before(c, c.pos as int, redis, pg)) by {
                    assert forall|j: int| 0 <= j < c.pos implies (#[trigger] c.ids@[j] matches Some(
                        id,
                    ) && redis.contains_key(id) && pg.contains(redis[id].name@)) by {
                        if j < c.pos - 1 {
                        }
                    }
                }
                lemma_advance_keeps_invariant(c, keys, redis, pg, post, act, reply2, pg2);
            } else if let Reply::PgAccount(None) = reply {
                lemma_migrated_before_grows(c, c.pos - 1, redis, pg, pg2);
                assert(migrated_before(post.cursor, post.cursor.pos as int, redis, pg2)) by {
                    assert forall|j: int| 0 <= j < c.pos implies (#[trigger] c.ids@[j] matches Some(
                        id,
                    ) && redis.contains_key(id) && pg2.contains(redis[id].name@)) by {
                        if j < c.pos - 1 {
                        }
                    }
                }
            }
        },
        AccountPhase::Creating => {
            if let Reply::Written = reply {
                lemma_advance_keeps_invariant(c, keys, redis, pg, post, act, reply2, pg2);
            }
        },
        _ => {},
    }
}

/// A step that finishes a faithful run finds every id migrated.
proof fn lemma_finish_means_all_migrated(
    m: AccountMigrator,
    reply: Reply,
    keys: Seq<Seq<char>>,
    redis: Map<u64, Account>,
    pg: Set<Seq<char>>,
    post: AccountMigrator,
)
    requires
        run_invariant(m, reply, keys, redis, pg),
        m.steps_to(reply, post, Action::Finish),
    ensures
        migrated_before(
            IdCursor { ids: post.cursor.ids, pos: 0 },
            crate::redis_extraction::key_ids_spec(keys).len() as int,
            redis,
            pg,
        ),
        post.cursor.ids@ == crate::redis_extraction::key_ids_spec(keys),
{
    let c = m.cursor;
    match m.phase {
        AccountPhase::ListingKeys => {
            if let Reply::Keys(k) = reply {
                let c0 = choose|c0: IdCursor|
                    c0.ids@ == crate::redis_extraction::key_ids_spec(k.deep_view()) && c0.pos == 0
                        && #[trigger] AccountMigrator::advances(c0, post, Action::Finish);
            }
        },
        AccountPhase::CheckingPg(a) => {
            assert forall|j: int| 0 <= j < c.pos implies (#[trigger] c.ids@[j] matches Some(id)
                && redis.contains_key(id) && pg.contains(redis[id].name@)) by {
                if j < c.pos - 1 {
                    assert(migrated_before(c, c.pos - 1, redis, pg));
                }
            }
            let d = IdCursor { ids: post.cursor.ids, pos: 0 };
            assert forall|j: int| 0 <= j < c.pos implies (#[trigger] d.ids@[j] matches Some(id)
                && redis.contains_key(id) && pg.contains(redis[id].name@)) by {
                assert(d.ids@[j] == c.ids@[j]);
            }
        },
        AccountPhase::Creating => {
            let d = IdCursor { ids: post.cursor.ids, pos: 0 };
            assert forall|j: int| 0 <= j < c.pos implies (#[trigger] d.ids@[j] matches Some(id)
                && redis.contains_key(id) && pg.contains(redis[id].name@)) by {
                assert(d.ids@[j] == c.ids@[j]);
            }
        },
        _ => {},
    }
}

proof fn lemma_run_invariant_at(
    i: int,
    keys: Seq<Seq<char>>,
    redis: Map<u64, Account>,
    states: Seq<AccountMigrator>,
    replies: Seq<Reply>,
    actions: Seq<Action>,
    pgs: Seq<Set<Seq<char>>>,
)
    requires
        0 <= i < actions.len(),
        states.len() == actions.len() + 1,
        replies.len() == actions.len(),
        pgs.len() == actions.len(),
        states[0].phase == AccountPhase::Begin,
        replies[0] == Reply::Start,
        forall|k: int|
            0 <= k < actions.len() ==> #[trigger] states[k].steps_to(
                replies[k],
                states[k + 1],
                actions[k],
            ),
        forall|k: int|
            0 <= k < actions.len() - 1 ==> #[trigger] answers(
                actions[k],
                replies[k + 1],
                keys,
                redis,
                pgs[k],
                pgs[k + 1],
            ),
    ensures
        run_invariant(states[i], replies[i], keys, redis, pgs[i]),
    decreases i,
{
    if i > 0 {
        lemma_run_invariant_at(i - 1, keys, redis, states, replies, actions, pgs);
        let k = i - 1;
        assert(states[k].steps_to(replies[k], states[k + 1], actions[k]));
        assert(answers(actions[k], replies[k + 1], keys, redis, pgs[k], pgs[k + 1]));
        assert(k + 1 == i);
        lemma_step_keeps_invariant(
            states[i - 1],
            replies[i - 1],
            keys,
            redis,
            pgs[i - 1],
            states[i],
            actions[i - 1],
            replies[i],
            pgs[i],
        );
    }
}

/// Law: a run of the whole account migration against a store that answers
/// faithfully, from its start to `Finish`, leaves Postgres knowing the name
/// of every Redis account whose id the account keys carry; and Postgres only
/// ever gains names along the way.
///
/// `states[k]` takes `replies[k]` and moves to `states[k + 1]`, asking for
/// `actions[k]`; `pgs[k]` is what Postgres knows when `replies[k]` arrives.
pub proof fn law_account_run_migrates_every_account(
    keys: Seq<Seq<char>>,
    redis: Map<u64, Account>,
    states: Seq<AccountMigrator>,
    replies: Seq<Reply>,
    actions: Seq<Action>,
    pgs: Seq<Set<Seq<char>>>,
)
    requires
        actions.len() > 0,
        states.len() == actions.len() + 1,
        replies.len() == actions.len(),
        pgs.len() == actions.len(),
        states[0].phase == AccountPhase::Begin,
        replies[0] == Reply::Start,
        forall|k: int|
            0 <= k < actions.len() ==> #[trigger] states[k].steps_to(
                replies[k],
                states[k + 1],
                actions[k],
            ),
        forall|k: int|
            0 <= k < actions.len() - 1 ==> #[trigger] answers(
                actions[k],
                replies[k + 1],
                keys,
                redis,
                pgs[k],
                pgs[k + 1],
            ),
        actions.last() == Action::Finish,
    ensures
        forall|j: int|
            0 <= j < crate::redis_extraction::key_ids_spec(keys).len() ==> (
            #[trigger] crate::redis_extraction::key_ids_spec(keys)[j] matches Some(id)
                && redis.contains_key(id) && pgs.last().contains(redis[id].name@)),
        forall|k: int| 0 <= k < pgs.len() - 1 ==> (#[trigger] pgs[k]).subset_of(pgs[k + 1]),
{
    let n = actions.len() as int;
    lemma_run_invariant_at(n - 1, keys, redis, states, replies, actions, pgs);
    let k = n - 1;
    assert(states[k].steps_to(replies[k], states[k + 1], actions[k]));
    assert(k + 1 == n);
    lemma_finish_means_all_migrated(states[n - 1], replies[n - 1], keys, redis, pgs[n - 1], states[n]);
    let d = IdCursor { ids: states[n].cursor.ids, pos: 0 };
    assert forall|j: int| 0 <= j < crate::redis_extraction::key_ids_spec(keys).len() implies (
    #[trigger] crate::redis_extraction::key_ids_spec(keys)[j] matches Some(id)
        && redis.contains_key(id) && pgs.last().contains(redis[id].name@)) by {
        assert(d.ids@[j] == crate::redis_extraction::key_ids_spec(keys)[j]);
    }
    assert forall|k: int| 0 <= k < pgs.len() - 1 implies (#[trigger] pgs[k]).subset_of(pgs[k + 1]) by {
        assert(answers(actions[k], replies[k + 1], keys, redis, pgs[k], pgs[k + 1]));
        lemma_answers_grow(actions[k], replies[k + 1], keys, redis, pgs[k], pgs[k + 1]);
    }
}

/// Postgres knows the name of every Redis account whose id the keys carry.
pub open spec fn all_known(keys: Seq<Seq<char>>, redis: Map<u64, Account>, pg: Set<Seq<char>>) -> bool {
    forall|j: int|
        0 <= j < crate::redis_extraction::key_ids_spec(keys).len() ==> (
        #[trigger] crate::redis_extraction::key_ids_spec(keys)[j] matches Some(id) ==> redis.contains_key(
            id,
        ) && pg.contains(redis[id].name@))
}

/// A faithful step, where Postgres knows every name already, asks for no
/// account to be created.
proof fn lemma_rerun_step(
    m: AccountMigrator,
    reply: Reply,
    keys: Seq<Seq<char>>,
    redis: Map<u64, Account>,
    pg: Set<Seq<char>>,
    post: AccountMigrator,
    act: Action,
)
    requires
        run_invariant(m, reply, keys, redis, pg),
        m.steps_to(reply, post, act),
        all_known(keys, redis, pg),
    ensures
        !(act is CreateAccount),
{
    let c = m.cursor;
    match m.phase {
        AccountPhase::ListingKeys => {
            if let Reply::Keys(k) = reply {
                let c0 = choose|c0: IdCursor|
                    c0.ids@ == crate::redis_extraction::key_ids_spec(k.deep_view()) && c0.pos == 0
                        && #[trigger] AccountMigrator::advances(c0, post, act);
            }
        },
        AccountPhase::CheckingPg(a) => {
            let j = c.pos - 1;
            assert(crate::redis_extraction::key_ids_spec(keys)[j] == c.ids@[j]);
            assert(pg.contains(a.name@));
        },
        _ => {},
    }
}

proof fn lemma_rerun_at(
    i: int,
    keys: Seq<Seq<char>>,
    redis: Map<u64, Account>,
    states: Seq<AccountMigrator>,
    replies: Seq<Reply>,
    actions: Seq<Action>,
    pgs: Seq<Set<Seq<char>>>,
)
    requires
        0 <= i < actions.len(),
        states.len() == actions.len() + 1,
        replies.len() == actions.len(),
        pgs.len() == actions.len(),
        states[0].phase == AccountPhase::Begin,
        replies[0] == Reply::Start,
        forall|k: int|
            0 <= k < actions.len() ==> #[trigger] states[k].steps_to(
                replies[k],
                states[k + 1],
                actions[k],
            ),
        forall|k: int|
            0 <= k < actions.len() - 1 ==> #[trigger] answers(
                actions[k],
                replies[k + 1],
                keys,
                redis,
                pgs[k],
                pgs[k + 1],
            ),
        all_known(keys, redis, pgs[0]),
    ensures
        pgs[i] == pgs[0],
        forall|k: int| 0 <= k <= i ==> !(#[trigger] actions[k] is CreateAccount),
    decreases i,
{
    if i > 0 {
        lemma_rerun_at(i - 1, keys, redis, states, replies, actions, pgs);
        let k = i - 1;
        assert(answers(actions[k], replies[k + 1], keys, redis, pgs[k], pgs[k + 1]));
        assert(k + 1 == i);
    }
    lemma_run_invariant_at(i, keys, redis, states, replies, actions, pgs);
    assert(states[i].steps_to(replies[i], states[i + 1], actions[i]));
    lemma_rerun_step(states[i], replies[i], keys, redis, pgs[i], states[i + 1], actions[i]);
}

/// Law: a run of the account migration against a store that answers
/// faithfully, in which Postgres already knows the name of every Redis account
/// whose id the account keys carry (as a finished run leaves it), asks for no
/// account to be created, and what Postgres knows stays as it was.
pub proof fn law_account_rerun_writes_nothing(
    keys: Seq<Seq<char>>,
    redis: Map<u64, Account>,
    states: Seq<AccountMigrator>,
    replies: Seq<Reply>,
    actions: Seq<Action>,
    pgs: Seq<Set<Seq<char>>>,
)
    requires
        actions.len() > 0,
        states.len() == actions.len() + 1,
        replies.len() == actions.len(),
        pgs.len() == actions.len(),
        states[0].phase == AccountPhase::Begin,
        replies[0] == Reply::Start,
        forall|k: int|
            0 <= k < actions.len() ==> #[trigger] states[k].steps_to(
                replies[k],
                states[k + 1],
                actions[k],
            ),
        forall|k: int|
            0 <= k < actions.len() - 1 ==> #[trigger] answers(
                actions[k],
                replies[k + 1],
                keys,
                redis,
                pgs[k],
                pgs[k + 1],
            ),
        all_known(keys, redis, pgs[0]),
    ensures
        forall|k: int| 0 <= k < actions.len() ==> !(#[trigger] actions[k] is CreateAccount),
        forall|k: int| 0 <= k < pgs.len() ==> #[trigger] pgs[k] == pgs[0],
{
    let n = actions.len() as int;
    lemma_rerun_at(n - 1, keys, redis, states, replies, actions, pgs);
    assert forall|k: int| 0 <= k < pgs.len() implies #[trigger] pgs[k] == pgs[0] by {
        lemma_rerun_at(k, keys, redis, states, replies, actions, pgs);
    }
}

/// Every account key carries a readable id.
pub open spec fn ids_readable(keys: Seq<Seq<char>>) -> bool {
    forall|j: int|
        0 <= j < crate::redis_extraction::key_ids_spec(keys).len()
            ==> #[trigger] crate::redis_extraction::key_ids_spec(keys)[j] is Some
}

proof fn lemma_advance_no_abort(keys: Seq<Seq<char>>, c: IdCursor, post: AccountMigrator, act: Action)
    requires
        c.ids@ == crate::redis_extraction::key_ids_spec(keys),
        c.pos <= c.ids@.len(),
        ids_readable(keys),
        AccountMigrator::advances(c, post, act),
    ensures
        !(act is Abort),
{
    if c.pos < c.ids@.len() {
        assert(crate::redis_extraction::key_ids_spec(keys)[c.pos as int] == c.ids@[c.pos as int]);
    }
}

proof fn lemma_step_no_abort(
    m: AccountMigrator,
    reply: Reply,
    keys: Seq<Seq<char>>,
    redis: Map<u64, Account>,
    pg: Set<Seq<char>>,
    post: AccountMigrator,
    act: Action,
)
    requires
        run_invariant(m, reply, keys, redis, pg),
        m.steps_to(reply, post, act),
        ids_readable(keys),
    ensures
        !(act is Abort),
{
    let c = m.cursor;
    match m.phase {
        AccountPhase::Begin => {},
        AccountPhase::ListingKeys => {
            if let Reply::Keys(k) = reply {
                let c0 = choose|c0: IdCursor|
                    c0.ids@ == crate::redis_extraction::key_ids_spec(k.deep_view()) && c0.pos == 0
                        && #[trigger] AccountMigrator::advances(c0, post, act);
                lemma_advance_no_abort(keys, c0, post, act);
            }
        },
        _ => {
            if AccountMigrator::advances(c, post, act) {
                lemma_advance_no_abort(keys, c, post, act);
            }
        },
    }
}

/// Law: a run of the account migration against a store that answers
/// faithfully, whose account keys all carry a readable id, never aborts,
/// whatever the accounts hold (an account with an empty email is migrated like
/// any other); every run ending (`law_account_run_progresses`), it ends at
/// `Finish`, and then Postgres knows every account's name
/// (`law_account_run_migrates_every_account`).
pub proof fn law_account_complete_run_never_aborts(
    keys: Seq<Seq<char>>,
    redis: Map<u64, Account>,
    states: Seq<AccountMigrator>,
    replies: Seq<Reply>,
    actions: Seq<Action>,
    pgs: Seq<Set<Seq<char>>>,
)
    requires
        actions.len() > 0,
        states.len() == actions.len() + 1,
        replies.len() == actions.len(),
        pgs.len() == actions.len(),
        states[0].phase == AccountPhase::Begin,
        replies[0] == Reply::Start,
        ids_readable(keys),
        forall|k: int|
            0 <= k < actions.len() ==> #[trigger] states[k].steps_to(
                replies[k],
                states[k + 1],
                actions[k],
            ),
        forall|k: int|
            0 <= k < actions.len() - 1 ==> #[trigger] answers(
                actions[k],
                replies[k + 1],
                keys,
                redis,
                pgs[k],
                pgs[k + 1],
            ),
    ensures
        forall|k: int| 0 <= k < actions.len() ==> !(#[trigger] actions[k] is Abort),
{
    assert forall|k: int| 0 <= k < actions.len() implies !(#[trigger] actions[k] is Abort) by {
        lemma_run_invariant_at(k, keys, redis, states, replies, actions, pgs);
        assert(states[k].steps_to(replies[k], states[k + 1], actions[k]));
        lemma_step_no_abort(states[k], replies[k], keys, redis, pgs[k], states[k + 1], actions[k]);
    }
}

} // verus!
