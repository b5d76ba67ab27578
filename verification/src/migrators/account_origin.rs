//! Account origins: for each Redis account, the origins it belongs to are
//! recorded against its Postgres account, up to the first that Postgres
//! already lists for it.
use vstd::prelude::*;
use crate::model::{Account, Origin};
use crate::postgres_lib::{create_account_origin, is_account_in_origin, lists};
use crate::redis_extraction::{keys_pattern, keys_pattern_spec, key_ids_spec};
use crate::migrators::common::{
    Action, Failure, IdCursor, NextId, Reply, cursor_for, cursor_over_keys, empty_cursor,
    left, lex_lt, next_id, next_id_spec, remaining, lemma_next_id_progress,
};

verus! {

/// Where an account-origin migration stands.
pub enum AccountOriginPhase {
    /// Waiting for `Reply::Start`, to list the account keys.
    Begin,
    /// Waiting for the account keys.
    ListingKeys,
    /// Waiting for `Reply::Start`, to take the next id.
    Next,
    /// Waiting for the Redis account of the current id.
    FetchingRedisAccount,
    /// Waiting for the names of the origins the Redis account belongs to.
    ListingRedisOrigins(Account),
    /// Waiting for the Postgres account of the Redis account's name.
    FetchingPgAccount(Vec<String>),
    /// Waiting for the origins Postgres lists for `account`, to see whether
    /// `origins[index]` is among them.
    CheckingMembership { account: Account, origins: Vec<String>, index: usize },
    /// Waiting for the Postgres origin named `origins[index]`.
    FetchingPgOrigin { account: Account, origins: Vec<String>, index: usize },
    /// Waiting for the link of `account` to `origins[index]` to be written.
    Linking { account: Account, origins: Vec<String>, index: usize },
    /// Every id has been handled.
    Finished,
    /// The run stopped.
    Failed(Failure),
}

/// The account-origin migration.
pub struct AccountOriginMigrator {
    pub phase: AccountOriginPhase,
    pub cursor: IdCursor,
}

/// The link request for a Postgres account and origin.
pub open spec fn is_link_for(act: Action, account: Account, origin: Origin) -> bool {
    &&& act matches Action::CreateAccountOrigin(aoc)
    &&& aoc.account_id == account.id
    &&& aoc.account_name == account.name
    &&& aoc.origin_id == origin.id
    &&& aoc.origin_name == origin.name
}

impl AccountOriginMigrator {
    /// The move to the next id, from `cursor`.
    pub open spec fn advances(cursor: IdCursor, post: Self, act: Action) -> bool {
        let (c, n) = next_id_spec(cursor);
        match n {
            NextId::Exhausted => post == (AccountOriginMigrator {
                phase: AccountOriginPhase::Finished,
                cursor: c,
            }) && act == Action::Finish,
            NextId::Malformed => Self::fails(c, Failure::MalformedKeyId, post, act),
            NextId::Id(id) => post == (AccountOriginMigrator {
                phase: AccountOriginPhase::FetchingRedisAccount,
                cursor: c,
            }) && act == Action::FindRedisAccount(id),
        }
    }

    /// Stopping for `f`.
    pub open spec fn fails(cursor: IdCursor, f: Failure, post: Self, act: Action) -> bool {
        post == (AccountOriginMigrator { phase: AccountOriginPhase::Failed(f), cursor })
            && act == Action::Abort(f)
    }

    /// The move to origin `index` of the account, or past the account when
    /// none is left.
    pub open spec fn visits(
        cursor: IdCursor,
        account: Account,
        origins: Vec<String>,
        index: usize,
        post: Self,
        act: Action,
    ) -> bool {
        if index < origins.len() {
            post == (AccountOriginMigrator {
                phase: AccountOriginPhase::CheckingMembership { account, origins, index },
                cursor,
            }) && act == Action::ListPgAccountOrigins(account.id)
        } else {
            Self::advances(cursor, post, act)
        }
    }

    /// One step: from `self`, on `reply`, the migration moves to `post` and asks
    /// for `act`.
    pub open spec fn steps_to(self, reply: Reply, post: Self, act: Action) -> bool {
        let bad = Self::fails(self.cursor, Failure::UnexpectedReply, post, act);
        match self.phase {
            AccountOriginPhase::Begin => match reply {
                Reply::Start => {
                    &&& post == (AccountOriginMigrator {
                        phase: AccountOriginPhase::ListingKeys,
                        cursor: self.cursor,
                    })
                    &&& act matches Action::ListRedisKeys(p)
                    &&& p@ == keys_pattern_spec("account"@)
                },
                _ => bad,
            },
            AccountOriginPhase::ListingKeys => match reply {
                Reply::Keys(keys) => exists|c: IdCursor|
                    c.ids@ == key_ids_spec(keys.deep_view()) && c.pos == 0
                        && #[trigger] Self::advances(c, post, act),
                _ => bad,
            },
            AccountOriginPhase::Next => match reply {
                Reply::Start => Self::advances(self.cursor, post, act),
                _ => bad,
            },
            AccountOriginPhase::FetchingRedisAccount => match reply {
                Reply::RedisAccount(a) => post == (AccountOriginMigrator {
                    phase: AccountOriginPhase::ListingRedisOrigins(a),
                    cursor: self.cursor,
                }) && act == Action::ListRedisAccountOrigins(a.id),
                _ => bad,
            },
            AccountOriginPhase::ListingRedisOrigins(a) => match reply {
                Reply::Names(origins) => post == (AccountOriginMigrator {
                    phase: AccountOriginPhase::FetchingPgAccount(origins),
                    cursor: self.cursor,
                }) && act == Action::GetPgAccount(a.name),
                _ => bad,
            },
            AccountOriginPhase::FetchingPgAccount(origins) => match reply {
                Reply::PgAccount(None) => Self::fails(
                    self.cursor,
                    Failure::NoAccountForOrigin,
                    post,
                    act,
                ),
                Reply::PgAccount(Some(account)) => Self::visits(
                    self.cursor,
                    account,
                    origins,
                    0,
                    post,
                    act,
                ),
                _ => bad,
            },
            AccountOriginPhase::CheckingMembership { account, origins, index } => match reply {
                Reply::Names(pg_origins) => if index < origins.len() && lists(
                    pg_origins.deep_view(),
                    origins@[index as int]@,
                ) {
                    Self::advances(self.cursor, post, act)
                } else if index < origins.len() {
                    post == (AccountOriginMigrator {
                        phase: AccountOriginPhase::FetchingPgOrigin { account, origins, index },
                        cursor: self.cursor,
                    }) && act == Action::GetPgOrigin(origins@[index as int])
                } else {
                    Self::advances(self.cursor, post, act)
                },
                _ => bad,
            },
            AccountOriginPhase::FetchingPgOrigin { account, origins, index } => match reply {
                Reply::PgOrigin(None) => Self::fails(
                    self.cursor,
                    Failure::NoOriginInPostgres,
                    post,
                    act,
                ),
                Reply::PgOrigin(Some(o)) => post == (AccountOriginMigrator {
                    phase: AccountOriginPhase::Linking { account, origins, index },
                    cursor: self.cursor,
                }) && is_link_for(act, account, o),
                _ => bad,
            },
            AccountOriginPhase::Linking { account, origins, index } => match reply {
                Reply::Written => if index < origins.len() {
                    Self::visits(self.cursor, account, origins, (index + 1) as usize, post, act)
                } else {
                    Self::advances(self.cursor, post, act)
                },
                _ => bad,
            },
            AccountOriginPhase::Finished => post == self && act == Action::Finish,
            AccountOriginPhase::Failed(f) => post == self && act == Action::Abort(f),
        }
    }

    /// The migration for every account (`AccountOriginMigrator::new(..).migrate()`).
    pub fn new() -> (m: Self)
        ensures
            m.phase == AccountOriginPhase::Begin,
            m.cursor.ids@.len() == 0,
            m.cursor.pos == 0,
    {
        AccountOriginMigrator { phase: AccountOriginPhase::Begin, cursor: empty_cursor() }
    }

    /// The migration for the single account `id`.
    pub fn migrate_account(id: u64) -> (m: Self)
        ensures
            m.phase == AccountOriginPhase::Next,
            m.cursor.ids@ == seq![Some(id)],
            m.cursor.pos == 0,
    {
        AccountOriginMigrator { phase: AccountOriginPhase::Next, cursor: cursor_for(id) }
    }

    fn advance(cursor: IdCursor) -> (res: (Self, Action))
        ensures
            Self::advances(cursor, res.0, res.1),
    {
        let (c, n) = next_id(cursor);
        match n {
            NextId::Exhausted => (
                AccountOriginMigrator { phase: AccountOriginPhase::Finished, cursor: c },
                Action::Finish,
            ),
            NextId::Malformed => Self::fail(c, Failure::MalformedKeyId),
            NextId::Id(id) => (
                AccountOriginMigrator { phase: AccountOriginPhase::FetchingRedisAccount, cursor: c },
                Action::FindRedisAccount(id),
            ),
        }
    }

    fn fail(cursor: IdCursor, f: Failure) -> (res: (Self, Action))
        ensures
            Self::fails(cursor, f, res.0, res.1),
    {
        (AccountOriginMigrator { phase: AccountOriginPhase::Failed(f), cursor }, Action::Abort(f))
    }

    fn visit(cursor: IdCursor, account: Account, origins: Vec<String>, index: usize) -> (res: (
        Self,
        Action,
    ))
        ensures
            Self::visits(cursor, account, origins, index, res.0, res.1),
    {
        if index < origins.len() {
            let id = account.id;
            (
                AccountOriginMigrator {
                    phase: AccountOriginPhase::CheckingMembership { account, origins, index },
                    cursor,
                },
                Action::ListPgAccountOrigins(id),
            )
        } else {
            Self::advance(cursor)
        }
    }

    /// Takes one step on `reply`.
    pub fn step(self, reply: Reply) -> (res: (Self, Action))
        ensures
            self.steps_to(reply, res.0, res.1),
    {
        let AccountOriginMigrator { phase, cursor } = self;
        match phase {
            AccountOriginPhase::Begin => match reply {
                Reply::Start => {
                    let p = keys_pattern("account");
                    proof {
                        reveal_strlit("account");
                    }
                    (
                        AccountOriginMigrator { phase: AccountOriginPhase::ListingKeys, cursor },
                        Action::ListRedisKeys(p),
                    )
                },
                _ => Self::fail(cursor, Failure::UnexpectedReply),
            },
            AccountOriginPhase::ListingKeys => match reply {
                Reply::Keys(keys) => {
                    let c = cursor_over_keys(&keys);
                    let res = Self::advance(c);
                    assert(Self::advances(c, res.0, res.1));
                    res
                },
                _ => Self::fail(cursor, Failure::UnexpectedReply),
            },
            AccountOriginPhase::Next => match reply {
                Reply::Start => Self::advance(cursor),
                _ => Self::fail(cursor, Failure::UnexpectedReply),
            },
            AccountOriginPhase::FetchingRedisAccount => match reply {
                Reply::RedisAccount(a) => {
                    let id = a.id;
                    (
                        AccountOriginMigrator {
                            phase: AccountOriginPhase::ListingRedisOrigins(a),
                            cursor,
                        },
                        Action::ListRedisAccountOrigins(id),
                    )
                },
                _ => Self::fail(cursor, Failure::UnexpectedReply),
            },
            AccountOriginPhase::ListingRedisOrigins(a) => match reply {
                Reply::Names(origins) => (
                    AccountOriginMigrator {
                        phase: AccountOriginPhase::FetchingPgAccount(origins),
                        cursor,
                    },
                    Action::GetPgAccount(a.name),
                ),
                _ => Self::fail(cursor, Failure::UnexpectedReply),
            },
            AccountOriginPhase::FetchingPgAccount(origins) => match reply {
                Reply::PgAccount(None) => Self::fail(cursor, Failure::NoAccountForOrigin),
                Reply::PgAccount(Some(account)) => Self::visit(cursor, account, origins, 0),
                _ => Self::fail(cursor, Failure::UnexpectedReply),
            },
            AccountOriginPhase::CheckingMembership { account, origins, index } => match reply {
                Reply::Names(pg_origins) => {
                    if index < origins.len() && is_account_in_origin(&pg_origins, &origins[index]) {
                        Self::advance(cursor)
                    } else if index < origins.len() {
                        let name = origins[index].clone();
                        (
                            AccountOriginMigrator {
                                phase: AccountOriginPhase::FetchingPgOrigin { account, origins, index },
                                cursor,
                            },
                            Action::GetPgOrigin(name),
                        )
                    } else {
                        Self::advance(cursor)
                    }
                },
                _ => Self::fail(cursor, Failure::UnexpectedReply),
            },
            AccountOriginPhase::FetchingPgOrigin { account, origins, index } => match reply {
                Reply::PgOrigin(None) => Self::fail(cursor, Failure::NoOriginInPostgres),
                Reply::PgOrigin(Some(o)) => {
                    let aoc = create_account_origin(o.id, &o.name, account.id, &account.name);
                    (
                        AccountOriginMigrator {
                            phase: AccountOriginPhase::Linking { account, origins, index },
                            cursor,
                        },
                        Action::CreateAccountOrigin(aoc),
                    )
                },
                _ => Self::fail(cursor, Failure::UnexpectedReply),
            },
            AccountOriginPhase::Linking { account, origins, index } => match reply {
                Reply::Written => {
                    if index < origins.len() {
                        Self::visit(cursor, account, origins, index + 1)
                    } else {
                        Self::advance(cursor)
                    }
                },
                _ => Self::fail(cursor, Failure::UnexpectedReply),
            },
            AccountOriginPhase::Finished => (
                AccountOriginMigrator { phase: AccountOriginPhase::Finished, cursor },
                Action::Finish,
            ),
            AccountOriginPhase::Failed(f) => Self::fail(cursor, f),
        }
    }

    /// The run has ended, well or not.
    pub open spec fn ended(self) -> bool {
        self.phase is Finished || self.phase is Failed
    }

    /// How far the run is from its end (compared lexicographically).
    pub open spec fn rank(self) -> (nat, nat, nat, nat) {
        let r = remaining(self.cursor);
        match self.phase {
            AccountOriginPhase::Begin => (2, 0, 0, 0),
            AccountOriginPhase::ListingKeys => (1, 0, 0, 0),
            AccountOriginPhase::Next => (0, r, 5, 0),
            AccountOriginPhase::FetchingRedisAccount => (0, r, 4, 0),
            AccountOriginPhase::ListingRedisOrigins(_) => (0, r, 3, 0),
            AccountOriginPhase::FetchingPgAccount(_) => (0, r, 2, 0),
            AccountOriginPhase::CheckingMembership { origins, index, .. } => (
                0,
                r,
                1,
                left(origins.len(), index) * 3 + 3,
            ),
            AccountOriginPhase::FetchingPgOrigin { origins, index, .. } => (
                0,
                r,
                1,
                left(origins.len(), index) * 3 + 2,
            ),
            AccountOriginPhase::Linking { origins, index, .. } => (
                0,
                r,
                1,
                left(origins.len(), index) * 3 + 1,
            ),
            AccountOriginPhase::Finished => (0, r, 0, 0),
            AccountOriginPhase::Failed(_) => (0, r, 0, 0),
        }
    }
}

proof fn lemma_advances_rank(c: IdCursor, post: AccountOriginMigrator, act: Action)
    requires
        AccountOriginMigrator::advances(c, post, act),
    ensures
        post.rank().0 == 0,
        remaining(c) == 0 ==> post.rank() == (0nat, 0nat, 0nat, 0nat),
        remaining(c) > 0 ==> post.rank().1 < remaining(c),
{
    lemma_next_id_progress(c);
}

/// Law: an account is linked to an origin only after Postgres listed the
/// account's origins without it, and the link carries the Postgres account
/// and the Postgres origin of that name.
pub proof fn law_account_origin_linked_only_when_missing(
    m: AccountOriginMigrator,
    reply: Reply,
    post: AccountOriginMigrator,
    act: Action,
)
    requires
        m.steps_to(reply, post, act),
        act is CreateAccountOrigin,
    ensures
        m.phase matches AccountOriginPhase::FetchingPgOrigin { account, .. }
            && reply matches Reply::PgOrigin(Some(o)) && is_link_for(act, account, o),
{
    match m.phase {
        AccountOriginPhase::ListingKeys => {
            if let Reply::Keys(keys) = reply {
                let c = choose|c: IdCursor|
                    c.ids@ == key_ids_spec(keys.deep_view()) && c.pos == 0
                        && #[trigger] AccountOriginMigrator::advances(c, post, act);
            }
        },
        _ => {},
    }
}

/// Law: once Postgres lists an origin for the account, no further origin of
/// that account is linked: the run moves on to the next id.
pub proof fn law_account_origin_stops_at_known_origin(
    m: AccountOriginMigrator,
    pg_origins: Vec<String>,
    post: AccountOriginMigrator,
    act: Action,
)
    requires
        m.phase matches AccountOriginPhase::CheckingMembership { origins, index, .. }
            && index < origins.len() && lists(pg_origins.deep_view(), origins@[index as int]@),
        m.steps_to(Reply::Names(pg_origins), post, act),
    ensures
        AccountOriginMigrator::advances(m.cursor, post, act),
{
}

/// Law: a run that has ended stays where it is and repeats its last word.
pub proof fn law_account_origin_ended_run_stays(
    m: AccountOriginMigrator,
    reply: Reply,
    post: AccountOriginMigrator,
    act: Action,
)
    requires
        m.steps_to(reply, post, act),
        m.ended(),
    ensures
        post == m,
{
}

/// Law: every step of a run that has not ended brings it closer to its end.
pub proof fn law_account_origin_run_progresses(
    m: AccountOriginMigrator,
    reply: Reply,
    post: AccountOriginMigrator,
    act: Action,
)
    requires
        m.steps_to(reply, post, act),
        !m.ended(),
    ensures
        lex_lt(post.rank(), m.rank()),
{
    if let AccountOriginPhase::ListingKeys = m.phase {
        if let Reply::Keys(keys) = reply {
            let c = choose|c: IdCursor|
                c.ids@ == key_ids_spec(keys.deep_view()) && c.pos == 0
                    && #[trigger] AccountOriginMigrator::advances(c, post, act);
            lemma_advances_rank(c, post, act);
        }
    } else if AccountOriginMigrator::advances(m.cursor, post, act) {
        lemma_advances_rank(m.cursor, post, act);
    }
}

/// The Redis data and the Postgres lookups that the account-origin migration
/// reads: the key list, the accounts of Redis by id, the origin names of each
/// Redis account by account id, and the accounts and origins of Postgres by
/// name.
pub struct AccountOriginStores {
    pub keys: Seq<Seq<char>>,
    pub redis_accounts: Map<u64, Account>,
    pub redis_account_origins: Map<u64, Seq<Seq<char>>>,
    pub pg_accounts: Map<Seq<char>, Account>,
    pub pg_origins: Map<Seq<char>, Origin>,
}

/// `m` checks whether Postgres lists the origin `link.1` for the account
/// `link.0`, and `pg`, what Postgres holds at that moment, has that link.
pub open spec fn checks_held_link(m: AccountOriginMigrator, pg: Set<(u64, Seq<char>)>, link: (u64, Seq<char>)) -> bool {
    &&& m.phase matches AccountOriginPhase::CheckingMembership { account, origins, index }
    &&& index < origins.len()
    &&& link == (account.id, origins@[index as int]@)
    &&& pg.contains(link)
}

/// The links (account id, origin name) that the run, in its first `n` states,
/// checked while Postgres held them; `pgs[t]` is what Postgres holds in state
/// `t`.
pub open spec fn held_when_checked(
    states: Seq<AccountOriginMigrator>,
    pgs: Seq<Set<(u64, Seq<char>)>>,
    n: int,
) -> Set<(u64, Seq<char>)> {
    Set::new(
        |link: (u64, Seq<char>)|
            exists|t: int| 0 <= t < n && #[trigger] checks_held_link(states[t], pgs[t], link),
    )
}

impl AccountOriginStores {
    /// Each Postgres origin is found under its own name.
    pub open spec fn origins_by_name(self) -> bool {
        forall|n: Seq<char>| self.pg_origins.contains_key(n) ==> (#[trigger] self.pg_origins[n]).name@
            == n
    }

    /// The Postgres account of this name, if there is one.
    pub open spec fn pg_account(self, name: Seq<char>) -> Option<Account> {
        if self.pg_accounts.contains_key(name) {
            Some(self.pg_accounts[name])
        } else {
            None
        }
    }

    /// The Postgres origin of this name, if there is one.
    pub open spec fn pg_origin(self, name: Seq<char>) -> Option<Origin> {
        if self.pg_origins.contains_key(name) {
            Some(self.pg_origins[name])
        } else {
            None
        }
    }

    /// The stores answer `act` with `reply`; the links Postgres holds, as
    /// pairs of an account id and an origin name, go from `pg` to `pg_after`.
    pub open spec fn answers(
        self,
        act: Action,
        reply: Reply,
        pg: Set<(u64, Seq<char>)>,
        pg_after: Set<(u64, Seq<char>)>,
    ) -> bool {
        match act {
            Action::ListRedisKeys(_) => reply matches Reply::Keys(k) && k.deep_view() == self.keys
                && pg_after == pg,
            Action::FindRedisAccount(id) => self.redis_accounts.contains_key(id) && reply
                == Reply::RedisAccount(self.redis_accounts[id]) && pg_after == pg,
            Action::ListRedisAccountOrigins(id) => {
                &&& self.redis_account_origins.contains_key(id)
                &&& reply matches Reply::Names(v)
                &&& v.deep_view() == self.redis_account_origins[id]
                &&& pg_after == pg
            },
            Action::GetPgAccount(name) => reply == Reply::PgAccount(self.pg_account(name@))
                && pg_after == pg,
            Action::ListPgAccountOrigins(id) => {
                &&& reply matches Reply::Names(v)
                &&& forall|n: Seq<char>| #[trigger] lists(v.deep_view(), n) <==> pg.contains((id, n))
                &&& pg_after == pg
            },
            Action::GetPgOrigin(name) => reply == Reply::PgOrigin(self.pg_origin(name@)) && pg_after
                == pg,
            Action::CreateAccountOrigin(aoc) => reply == Reply::Written && pg_after == pg.insert(
                (aoc.account_id, aoc.origin_name@),
            ),
            _ => false,
        }
    }

    /// Postgres links account `aid` to each of the first `k` origin names.
    pub open spec fn prefix_linked(
        aid: u64,
        names: Seq<Seq<char>>,
        k: int,
        pg: Set<(u64, Seq<char>)>,
    ) -> bool {
        forall|j: int| 0 <= j < k ==> pg.contains((aid, #[trigger] names[j]))
    }

    /// The Postgres account of the name of Redis account `id` is linked to the
    /// origins of the Redis account in order, up to their end or up to a link
    /// that is in `found`.
    pub open spec fn account_migrated(
        self,
        id: u64,
        pg: Set<(u64, Seq<char>)>,
        found: Set<(u64, Seq<char>)>,
    ) -> bool {
        let a = self.redis_accounts[id];
        let names = self.redis_account_origins[a.id];
        let aid = self.pg_accounts[a.name@].id;
        &&& self.redis_accounts.contains_key(id)
        &&& self.redis_account_origins.contains_key(a.id)
        &&& self.pg_accounts.contains_key(a.name@)
        &&& exists|k: int|
            0 <= k <= names.len() && #[trigger] Self::prefix_linked(aid, names, k, pg) && (k
                == names.len() || found.contains((aid, names[k])))
    }

    /// The first `k` ids of the walk are ids of migrated Redis accounts.
    pub open spec fn migrated_before(
        self,
        c: IdCursor,
        k: int,
        pg: Set<(u64, Seq<char>)>,
        found: Set<(u64, Seq<char>)>,
    ) -> bool {
        forall|j: int|
            0 <= j < k ==> (#[trigger] c.ids@[j] matches Some(id) && self.account_migrated(
                id,
                pg,
                found,
            ))
    }

    /// `account` and `origins` are the Postgres account and the Redis origin
    /// names of the Redis account `current`.
    pub open spec fn working_on(
        self,
        current: Option<u64>,
        account: Account,
        origins: Vec<String>,
    ) -> bool {
        &&& current matches Some(id)
        &&& self.redis_accounts.contains_key(id)
        &&& self.redis_account_origins.contains_key(self.redis_accounts[id].id)
        &&& self.pg_accounts.contains_key(self.redis_accounts[id].name@)
        &&& account == self.pg_accounts[self.redis_accounts[id].name@]
        &&& origins.deep_view() == self.redis_account_origins[self.redis_accounts[id].id]
    }

    /// What holds of a faithful run of the whole account-origin migration
    /// when it is in state `m`, about to receive `reply`, with Postgres holding
    /// the links `pg`, and `found` the links the run checked while Postgres
    /// held them.
    pub open spec fn run_invariant(
        self,
        m: AccountOriginMigrator,
        reply: Reply,
        pg: Set<(u64, Seq<char>)>,
        found: Set<(u64, Seq<char>)>,
    ) -> bool {
        let c = m.cursor;
        let walking = c.ids@ == key_ids_spec(self.keys) && 1 <= c.pos <= c.ids@.len();
        let current = c.ids@[c.pos - 1];
        let before = self.migrated_before(c, c.pos - 1, pg, found);
        match m.phase {
            AccountOriginPhase::Begin => reply == Reply::Start,
            AccountOriginPhase::ListingKeys => reply matches Reply::Keys(k) && k.deep_view()
                == self.keys,
            AccountOriginPhase::FetchingRedisAccount => {
                &&& walking
                &&& before
                &&& current matches Some(id)
                &&& self.redis_accounts.contains_key(id)
                &&& reply == Reply::RedisAccount(self.redis_accounts[id])
            },
            AccountOriginPhase::ListingRedisOrigins(a) => {
                &&& walking
                &&& before
                &&& current matches Some(id)
                &&& self.redis_accounts.contains_key(id)
                &&& a == self.redis_accounts[id]
                &&& self.redis_account_origins.contains_key(a.id)
                &&& reply matches Reply::Names(v)
                &&& v.deep_view() == self.redis_account_origins[a.id]
            },
            AccountOriginPhase::FetchingPgAccount(origins) => {
                &&& walking
                &&& before
                &&& current matches Some(id)
                &&& self.redis_accounts.contains_key(id)
                &&& self.redis_account_origins.contains_key(self.redis_accounts[id].id)
                &&& origins.deep_view() == self.redis_account_origins[self.redis_accounts[id].id]
                &&& reply == Reply::PgAccount(self.pg_account(self.redis_accounts[id].name@))
            },
            AccountOriginPhase::CheckingMembership { account, origins, index } => {
                &&& walking
                &&& before
                &&& self.working_on(current, account, origins)
                &&& index < origins.len()
                &&& Self::prefix_linked(account.id, origins.deep_view(), index as int, pg)
                &&& reply matches Reply::Names(v)
                &&& forall|n: Seq<char>| #[trigger] lists(v.deep_view(), n) <==> pg.contains((account.id, n))
            },
            AccountOriginPhase::FetchingPgOrigin { account, origins, index } => {
                &&& walking
                &&& before
                &&& self.working_on(current, account, origins)
                &&& index < origins.len()
                &&& Self::prefix_linked(account.id, origins.deep_view(), index as int, pg)
                &&& reply == Reply::PgOrigin(self.pg_origin(origins@[index as int]@))
            },
            AccountOriginPhase::Linking { account, origins, index } => {
                &&& walking
                &&& before
                &&& self.working_on(current, account, origins)
                &&& index < origins.len()
                &&& Self::prefix_linked(account.id, origins.deep_view(), index + 1, pg)
                &&& reply == Reply::Written
            },
            _ => false,
        }
    }
}

/// Every link that `m` checks while `pg` holds it is in `found`.
spec fn records_check(m: AccountOriginMigrator, pg: Set<(u64, Seq<char>)>, found: Set<(u64, Seq<char>)>) -> bool {
    forall|link: (u64, Seq<char>)| #[trigger] checks_held_link(m, pg, link) ==> found.contains(link)
}

proof fn lemma_answers_grow(
    st: AccountOriginStores,
    act: Action,
    reply: Reply,
    pg: Set<(u64, Seq<char>)>,
    pg2: Set<(u64, Seq<char>)>,
)
    requires
        st.answers(act, reply, pg, pg2),
    ensures
        pg.subset_of(pg2),
{
}

proof fn lemma_migrated_before_grows(
    st: AccountOriginStores,
    c: IdCursor,
    k: int,
    pg: Set<(u64, Seq<char>)>,
    pg2: Set<(u64, Seq<char>)>,
    found: Set<(u64, Seq<char>)>,
    found2: Set<(u64, Seq<char>)>,
)
    requires
        st.migrated_before(c, k, pg, found),
        pg.subset_of(pg2),
        found.subset_of(found2),
    ensures
        st.migrated_before(c, k, pg2, found2),
{
    assert forall|j: int| 0 <= j < k implies (#[trigger] c.ids@[j] matches Some(id)
        && st.account_migrated(id, pg2, found2)) by {
        if let Some(id) = c.ids@[j] {
            assert(st.account_migrated(id, pg, found));
            let a = st.redis_accounts[id];
            let names = st.redis_account_origins[a.id];
            let aid = st.pg_accounts[a.name@].id;
            let w = choose|w: int|
                0 <= w <= names.len() && #[trigger] AccountOriginStores::prefix_linked(
                    aid,
                    names,
                    w,
                    pg,
                ) && (w == names.len() || found.contains((aid, names[w])));
            assert(AccountOriginStores::prefix_linked(aid, names, w, pg2)) by {
                assert forall|i: int| 0 <= i < w implies pg2.contains((aid, #[trigger] names[i])) by {
                    assert(pg.contains((aid, names[i])));
                }
            }
        }
    }
}

proof fn lemma_current_done(
    st: AccountOriginStores,
    c: IdCursor,
    account: Account,
    origins: Vec<String>,
    k: int,
    pg: Set<(u64, Seq<char>)>,
    found: Set<(u64, Seq<char>)>,
)
    requires
        1 <= c.pos <= c.ids@.len(),
        st.migrated_before(c, c.pos - 1, pg, found),
        st.working_on(c.ids@[c.pos - 1], account, origins),
        0 <= k <= origins.len(),
        AccountOriginStores::prefix_linked(account.id, origins.deep_view(), k, pg),
        k == origins.len() || found.contains((account.id, origins.deep_view()[k])),
    ensures
        st.migrated_before(c, c.pos as int, pg, found),
{
    assert(origins.deep_view().len() == origins.len());
    if let Some(id) = c.ids@[c.pos - 1] {
        let names = st.redis_account_origins[st.redis_accounts[id].id];
        assert(AccountOriginStores::prefix_linked(account.id, names, k, pg));
        assert(st.account_migrated(id, pg, found));
    }
    assert forall|j: int| 0 <= j < c.pos implies (#[trigger] c.ids@[j] matches Some(id)
        && st.account_migrated(id, pg, found)) by {
        if j < c.pos - 1 {
        }
    }
}

proof fn lemma_advance_keeps_invariant(
    st: AccountOriginStores,
    c: IdCursor,
    pg: Set<(u64, Seq<char>)>,
    found: Set<(u64, Seq<char>)>,
    post: AccountOriginMigrator,
    act: Action,
    reply2: Reply,
    pg2: Set<(u64, Seq<char>)>,
    found2: Set<(u64, Seq<char>)>,
)
    requires
        c.ids@ == key_ids_spec(st.keys),
        c.pos <= c.ids@.len(),
        st.migrated_before(c, c.pos as int, pg, found),
        AccountOriginMigrator::advances(c, post, act),
        st.answers(act, reply2, pg, pg2),
        found.subset_of(found2),
    ensures
        st.run_invariant(post, reply2, pg2, found2),
{
    lemma_migrated_before_grows(st, c, c.pos as int, pg, pg2, found, found2);
    let (c2, n) = next_id_spec(c);
    if let NextId::Id(id) = n {
        assert(c2.pos == c.pos + 1);
        assert(st.migrated_before(c2, c2.pos - 1, pg2, found2));
    }
}

proof fn lemma_visit_keeps_invariant(
    st: AccountOriginStores,
    c: IdCursor,
    account: Account,
    origins: Vec<String>,
    index: usize,
    pg: Set<(u64, Seq<char>)>,
    found: Set<(u64, Seq<char>)>,
    post: AccountOriginMigrator,
    act: Action,
    reply2: Reply,
    pg2: Set<(u64, Seq<char>)>,
    found2: Set<(u64, Seq<char>)>,
)
    requires
        c.ids@ == key_ids_spec(st.keys),
        1 <= c.pos <= c.ids@.len(),
        st.migrated_before(c, c.pos - 1, pg, found),
        st.working_on(c.ids@[c.pos - 1], account, origins),
        index <= origins.len(),
        AccountOriginStores::prefix_linked(account.id, origins.deep_view(), index as int, pg),
        AccountOriginMigrator::visits(c, account, origins, index, post, act),
        st.answers(act, reply2, pg, pg2),
        found.subset_of(found2),
    ensures
        st.run_invariant(post, reply2, pg2, found2),
{
    if index < origins.len() {
        assert(pg2 == pg);
        lemma_migrated_before_grows(st, c, c.pos - 1, pg, pg2, found, found2);
    } else {
        lemma_current_done(st, c, account, origins, index as int, pg, found);
        lemma_advance_keeps_invariant(st, c, pg, found, post, act, reply2, pg2, found2);
    }
}

proof fn lemma_step_keeps_invariant(
    st: AccountOriginStores,
    m: AccountOriginMigrator,
    reply: Reply,
    pg: Set<(u64, Seq<char>)>,
    found: Set<(u64, Seq<char>)>,
    post: AccountOriginMigrator,
    act: Action,
    reply2: Reply,
    pg2: Set<(u64, Seq<char>)>,
    found2: Set<(u64, Seq<char>)>,
)
    requires
        st.origins_by_name(),
        st.run_invariant(m, reply, pg, found),
        m.steps_to(reply, post, act),
        st.answers(act, reply2, pg, pg2),
        found.subset_of(found2),
        records_check(m, pg, found2),
    ensures
        st.run_invariant(post, reply2, pg2, found2),
{
    lemma_answers_grow(st, act, reply2, pg, pg2);
    let c = m.cursor;
    match m.phase {
        AccountOriginPhase::ListingKeys => {
            if let Reply::Keys(k) = reply {
                let c0 = choose|c0: IdCursor|
                    c0.ids@ == key_ids_spec(k.deep_view()) && c0.pos == 0
                        && #[trigger] AccountOriginMigrator::advances(c0, post, act);
                lemma_advance_keeps_invariant(st, c0, pg, found, post, act, reply2, pg2, found2);
            }
        },
        AccountOriginPhase::FetchingRedisAccount => {
            lemma_migrated_before_grows(st, c, c.pos - 1, pg, pg2, found, found2);
        },
        AccountOriginPhase::ListingRedisOrigins(a) => {
            lemma_migrated_before_grows(st, c, c.pos - 1, pg, pg2, found, found2);
        },
        AccountOriginPhase::FetchingPgAccount(origins) => {
            if let Reply::PgAccount(Some(account)) = reply {
                lemma_visit_keeps_invariant(
                    st,
                    c,
                    account,
                    origins,
                    0,
                    pg,
                    found,
                    post,
                    act,
                    reply2,
                    pg2,
                    found2,
                );
            }
        },
        AccountOriginPhase::CheckingMembership { account, origins, index } => {
            if let Reply::Names(v) = reply {
                let name = origins@[index as int]@;
                assert(origins.deep_view()[index as int] == name);
                if lists(v.deep_view(), name) {
                    assert(checks_held_link(m, pg, (account.id, name)));
                    lemma_migrated_before_grows(st, c, c.pos - 1, pg, pg, found, found2);
                    lemma_current_done(st, c, account, origins, index as int, pg, found2);
                    lemma_advance_keeps_invariant(st, c, pg, found2, post, act, reply2, pg2, found2);
                } else {
                    lemma_migrated_before_grows(st, c, c.pos - 1, pg, pg2, found, found2);
                }
            }
        },
        AccountOriginPhase::FetchingPgOrigin { account, origins, index } => {
            if let Reply::PgOrigin(Some(o)) = reply {
                let name = origins@[index as int]@;
                assert(o == st.pg_origins[name]);
                assert(o.name@ == name);
                assert(pg2 == pg.insert((account.id, name)));
                assert(origins.deep_view()[index as int] == name);
                lemma_migrated_before_grows(st, c, c.pos - 1, pg, pg2, found, found2);
                assert(AccountOriginStores::prefix_linked(
                    account.id,
                    origins.deep_view(),
                    index + 1,
                    pg2,
                )) by {
                    assert forall|j: int| 0 <= j < index + 1 implies pg2.contains(
                        (account.id, #[trigger] origins.deep_view()[j]),
                    ) by {
                        if j < index {
                            assert(pg.contains((account.id, origins.deep_view()[j])));
                        }
                    }
                }
            }
        },
        AccountOriginPhase::Linking { account, origins, index } => {
            if let Reply::Written = reply {
                lemma_visit_keeps_invariant(
                    st,
                    c,
                    account,
                    origins,
                    (index + 1) as usize,
                    pg,
                    found,
                    post,
                    act,
                    reply2,
                    pg2,
                    found2,
                );
            }
        },
        _ => {},
    }
}

proof fn lemma_advance_to_finish(
    st: AccountOriginStores,
    c: IdCursor,
    pg: Set<(u64, Seq<char>)>,
    found: Set<(u64, Seq<char>)>,
    post: AccountOriginMigrator,
)
    requires
        c.pos <= c.ids@.len(),
        st.migrated_before(c, c.pos as int, pg, found),
        AccountOriginMigrator::advances(c, post, Action::Finish),
    ensures
        post.cursor.ids == c.ids,
        st.migrated_before(IdCursor { ids: post.cursor.ids, pos: 0 }, c.ids@.len() as int, pg, found),
{
    let d = IdCursor { ids: post.cursor.ids, pos: 0 };
    assert forall|j: int| 0 <= j < c.ids@.len() implies (#[trigger] d.ids@[j] matches Some(id)
        && st.account_migrated(id, pg, found)) by {
        assert(d.ids@[j] == c.ids@[j]);
    }
}

proof fn lemma_finish_means_all_migrated(
    st: AccountOriginStores,
    m: AccountOriginMigrator,
    reply: Reply,
    pg: Set<(u64, Seq<char>)>,
    found: Set<(u64, Seq<char>)>,
    found2: Set<(u64, Seq<char>)>,
    post: AccountOriginMigrator,
)
    requires
        st.run_invariant(m, reply, pg, found),
        m.steps_to(reply, post, Action::Finish),
        found.subset_of(found2),
        records_check(m, pg, found2),
    ensures
        post.cursor.ids@ == key_ids_spec(st.keys),
        st.migrated_before(
            IdCursor { ids: post.cursor.ids, pos: 0 },
            key_ids_spec(st.keys).len() as int,
            pg,
            found2,
        ),
{
    let c = m.cursor;
    match m.phase {
        AccountOriginPhase::ListingKeys => {
            if let Reply::Keys(k) = reply {
                let c0 = choose|c0: IdCursor|
                    c0.ids@ == key_ids_spec(k.deep_view()) && c0.pos == 0
                        && #[trigger] AccountOriginMigrator::advances(c0, post, Action::Finish);
                lemma_advance_to_finish(st, c0, pg, found2, post);
            }
        },
        AccountOriginPhase::FetchingPgAccount(origins) => {
            if let Reply::PgAccount(Some(account)) = reply {
                lemma_migrated_before_grows(st, c, c.pos - 1, pg, pg, found, found2);
                lemma_current_done(st, c, account, origins, 0, pg, found2);
                lemma_advance_to_finish(st, c, pg, found2, post);
            }
        },
        AccountOriginPhase::CheckingMembership { account, origins, index } => {
            let name = origins@[index as int]@;
            assert(origins.deep_view()[index as int] == name);
            assert(checks_held_link(m, pg, (account.id, name)));
            lemma_migrated_before_grows(st, c, c.pos - 1, pg, pg, found, found2);
            lemma_current_done(st, c, account, origins, index as int, pg, found2);
            lemma_advance_to_finish(st, c, pg, found2, post);
        },
        AccountOriginPhase::Linking { account, origins, index } => {
            lemma_migrated_before_grows(st, c, c.pos - 1, pg, pg, found, found2);
            lemma_current_done(st, c, account, origins, origins.len() as int, pg, found2);
            lemma_advance_to_finish(st, c, pg, found2, post);
        },
        _ => {},
    }
}

/// What the run has found grows with the run, and takes in each link that a
/// state checks while Postgres holds it.
proof fn lemma_held_when_checked_grows(
    states: Seq<AccountOriginMigrator>,
    pgs: Seq<Set<(u64, Seq<char>)>>,
    i: int,
)
    requires
        0 <= i < pgs.len(),
        pgs.len() < states.len(),
    ensures
        held_when_checked(states, pgs, i).subset_of(held_when_checked(states, pgs, i + 1)),
        records_check(states[i], pgs[i], held_when_checked(states, pgs, i + 1)),
{
    assert forall|link: (u64, Seq<char>)| #[trigger] held_when_checked(states, pgs, i).contains(
        link,
    ) implies held_when_checked(states, pgs, i + 1).contains(link) by {
        let t = choose|t: int| 0 <= t < i && #[trigger] checks_held_link(states[t], pgs[t], link);
        assert(0 <= t < i + 1 && checks_held_link(states[t], pgs[t], link));
    }
    assert forall|link: (u64, Seq<char>)| #[trigger] checks_held_link(
        states[i],
        pgs[i],
        link,
    ) implies held_when_checked(states, pgs, i + 1).contains(link) by {
        assert(0 <= i < i + 1 && checks_held_link(states[i], pgs[i], link));
    }
}

proof fn lemma_run_invariant_at(
    st: AccountOriginStores,
    i: int,
    states: Seq<AccountOriginMigrator>,
    replies: Seq<Reply>,
    actions: Seq<Action>,
    pgs: Seq<Set<(u64, Seq<char>)>>,
)
    requires
        0 <= i < actions.len(),
        states.len() == actions.len() + 1,
        replies.len() == actions.len(),
        pgs.len() == actions.len(),
        states[0].phase == AccountOriginPhase::Begin,
        replies[0] == Reply::Start,
        st.origins_by_name(),
        forall|k: int|
            0 <= k < actions.len() ==> #[trigger] states[k].steps_to(
                replies[k],
                states[k + 1],
                actions[k],
            ),
        forall|k: int|
            0 <= k < actions.len() - 1 ==> #[trigger] st.answers(
                actions[k],
                replies[k + 1],
                pgs[k],
                pgs[k + 1],
            ),
    ensures
        st.run_invariant(states[i], replies[i], pgs[i], held_when_checked(states, pgs, i)),
    decreases i,
{
    if i > 0 {
        lemma_run_invariant_at(st, i - 1, states, replies, actions, pgs);
        let k = i - 1;
        assert(states[k].steps_to(replies[k], states[k + 1], actions[k]));
        assert(st.answers(actions[k], replies[k + 1], pgs[k], pgs[k + 1]));
        assert(k + 1 == i);
        lemma_held_when_checked_grows(states, pgs, k);
        lemma_step_keeps_invariant(
            st,
            states[k],
            replies[k],
            pgs[k],
            held_when_checked(states, pgs, k),
            states[i],
            actions[k],
            replies[i],
            pgs[i],
            held_when_checked(states, pgs, i),
        );
    }
}

/// Law: a run of the whole account-origin migration against stores that
/// answer faithfully and find each Postgres origin under its own name, from
/// its start to `Finish`, leaves, for every Redis account whose id the account
/// keys carry, the Postgres account of the same name linked to the Redis
/// account's origins in order, up to their end or up to an origin that Postgres
/// already listed for the account when the run checked it; and Postgres only
/// ever gains links along the way.
///
/// `states[k]` takes `replies[k]` and moves to `states[k + 1]`, asking for
/// `actions[k]`; `pgs[k]` holds the links, as pairs of an account id and an
/// origin name, that Postgres knows when `replies[k]` arrives.
pub proof fn law_account_origin_run_links_every_account(
    st: AccountOriginStores,
    states: Seq<AccountOriginMigrator>,
    replies: Seq<Reply>,
    actions: Seq<Action>,
    pgs: Seq<Set<(u64, Seq<char>)>>,
)
    requires
        actions.len() > 0,
        states.len() == actions.len() + 1,
        replies.len() == actions.len(),
        pgs.len() == actions.len(),
        states[0].phase == AccountOriginPhase::Begin,
        replies[0] == Reply::Start,
        st.origins_by_name(),
        forall|k: int|
            0 <= k < actions.len() ==> #[trigger] states[k].steps_to(
                replies[k],
                states[k + 1],
                actions[k],
            ),
        forall|k: int|
            0 <= k < actions.len() - 1 ==> #[trigger] st.answers(
                actions[k],
                replies[k + 1],
                pgs[k],
                pgs[k + 1],
            ),
        actions.last() == Action::Finish,
    ensures
        forall|j: int|
            0 <= j < key_ids_spec(st.keys).len() ==> (#[trigger] key_ids_spec(st.keys)[j] matches Some(
                id,
            ) && st.account_migrated(
                id,
                pgs.last(),
                held_when_checked(states, pgs, actions.len() as int),
            )),
        forall|k: int| 0 <= k < pgs.len() - 1 ==> (#[trigger] pgs[k]).subset_of(pgs[k + 1]),
{
    let n = actions.len() as int;
    lemma_run_invariant_at(st, n - 1, states, replies, actions, pgs);
    let k = n - 1;
    let found = held_when_checked(states, pgs, k);
    let found_all = held_when_checked(states, pgs, n);
    assert(states[k].steps_to(replies[k], states[k + 1], actions[k]));
    assert(k + 1 == n);
    lemma_held_when_checked_grows(states, pgs, k);
    lemma_finish_means_all_migrated(st, states[k], replies[k], pgs[k], found, found_all, states[n]);
    let d = IdCursor { ids: states[n].cursor.ids, pos: 0 };
    assert forall|j: int| 0 <= j < key_ids_spec(st.keys).len() implies (#[trigger] key_ids_spec(
        st.keys,
    )[j] matches Some(id) && st.account_migrated(id, pgs.last(), found_all)) by {
        assert(d.ids@[j] == key_ids_spec(st.keys)[j]);
    }
    assert forall|k: int| 0 <= k < pgs.len() - 1 implies (#[trigger] pgs[k]).subset_of(pgs[k + 1]) by {
        assert(st.answers(actions[k], replies[k + 1], pgs[k], pgs[k + 1]));
        lemma_answers_grow(st, actions[k], replies[k + 1], pgs[k], pgs[k + 1]);
    }
}

impl AccountOriginStores {
    /// Every key carries a readable id, and every Redis account of those ids
    /// has a Postgres account of its name and belongs only to origins that
    /// Postgres has.
    pub open spec fn complete(self) -> bool {
        forall|j: int|
            0 <= j < key_ids_spec(self.keys).len() ==> (#[trigger] key_ids_spec(self.keys)[j] matches Some(
                id,
            ) && (self.redis_accounts.contains_key(id) ==> self.account_complete(self.redis_accounts[id])))
    }

    /// The Redis account `a` has a Postgres account of its name, and each
    /// origin it belongs to is a Postgres origin.
    pub open spec fn account_complete(self, a: Account) -> bool {
        &&& self.pg_accounts.contains_key(a.name@)
        &&& self.redis_account_origins.contains_key(a.id) ==> forall|i: int|
            0 <= i < self.redis_account_origins[a.id].len() ==> self.pg_origins.contains_key(
                #[trigger] self.redis_account_origins[a.id][i],
            )
    }
}

proof fn lemma_advance_no_abort(st: AccountOriginStores, c: IdCursor, post: AccountOriginMigrator, act: Action)
    requires
        c.ids@ == key_ids_spec(st.keys),
        c.pos <= c.ids@.len(),
        st.complete(),
        AccountOriginMigrator::advances(c, post, act),
    ensures
        !(act is Abort),
{
    if c.pos < c.ids@.len() {
        assert(key_ids_spec(st.keys)[c.pos as int] == c.ids@[c.pos as int]);
    }
}

proof fn lemma_step_no_abort(
    st: AccountOriginStores,
    m: AccountOriginMigrator,
    reply: Reply,
    pg: Set<(u64, Seq<char>)>,
    found: Set<(u64, Seq<char>)>,
    post: AccountOriginMigrator,
    act: Action,
)
    requires
        st.run_invariant(m, reply, pg, found),
        m.steps_to(reply, post, act),
        st.complete(),
    ensures
        !(act is Abort),
{
    let c = m.cursor;
    match m.phase {
        AccountOriginPhase::Begin => {},
        AccountOriginPhase::ListingKeys => {
            if let Reply::Keys(k) = reply {
                let c0 = choose|c0: IdCursor|
                    c0.ids@ == key_ids_spec(k.deep_view()) && c0.pos == 0
                        && #[trigger] AccountOriginMigrator::advances(c0, post, act);
                lemma_advance_no_abort(st, c0, post, act);
            }
        },
        AccountOriginPhase::FetchingPgAccount(origins) => {
            let j = c.pos - 1;
            assert(key_ids_spec(st.keys)[j] == c.ids@[j]);
            if AccountOriginMigrator::advances(c, post, act) {
                lemma_advance_no_abort(st, c, post, act);
            }
        },
        AccountOriginPhase::FetchingPgOrigin { account, origins, index } => {
            let j = c.pos - 1;
            assert(key_ids_spec(st.keys)[j] == c.ids@[j]);
            assert(origins.deep_view()[index as int] == origins@[index as int]@);
        },
        _ => {
            if AccountOriginMigrator::advances(c, post, act) {
                lemma_advance_no_abort(st, c, post, act);
            }
        },
    }
}

/// Law: a run of the account-origin migration against stores that answer
/// faithfully, in which every key carries a readable id, every Redis account
/// has a Postgres account of its name and every origin it belongs to is a
/// Postgres origin, never aborts: an account that belongs to no origin is
/// passed over like any other, and (every run ending, by
/// `law_account_origin_run_progresses`) the run ends at `Finish`.
pub proof fn law_account_origin_complete_run_never_aborts(
    st: AccountOriginStores,
    states: Seq<AccountOriginMigrator>,
    replies: Seq<Reply>,
    actions: Seq<Action>,
    pgs: Seq<Set<(u64, Seq<char>)>>,
)
    requires
        actions.len() > 0,
        states.len() == actions.len() + 1,
        replies.len() == actions.len(),
        pgs.len() == actions.len(),
        states[0].phase == AccountOriginPhase::Begin,
        replies[0] == Reply::Start,
        st.origins_by_name(),
        st.complete(),
        forall|k: int|
            0 <= k < actions.len() ==> #[trigger] states[k].steps_to(
                replies[k],
                states[k + 1],
                actions[k],
            ),
        forall|k: int|
            0 <= k < actions.len() - 1 ==> #[trigger] st.answers(
                actions[k],
                replies[k + 1],
                pgs[k],
                pgs[k + 1],
            ),
    ensures
        forall|k: int| 0 <= k < actions.len() ==> !(#[trigger] actions[k] is Abort),
{
    assert forall|k: int| 0 <= k < actions.len() implies !(#[trigger] actions[k] is Abort) by {
        lemma_run_invariant_at(st, k, states, replies, actions, pgs);
        assert(states[k].steps_to(replies[k], states[k + 1], actions[k]));
        lemma_step_no_abort(
            st,
            states[k],
            replies[k],
            pgs[k],
            held_when_checked(states, pgs, k),
            states[k + 1],
            actions[k],
        );
    }
}

} // verus!
