//! Origin members: each member of a Redis origin that Postgres does not yet
//! list for the origin is added, as the Postgres account of that name.
use vstd::prelude::*;
use crate::model::{Account, Origin, OriginMemberCreate};
use crate::postgres_lib::{is_member_in_origin, lists};
use crate::redis_extraction::{keys_pattern, keys_pattern_spec, key_ids_spec};
use crate::migrators::common::{
    Action, Failure, IdCursor, NextId, Reply, cursor_for, cursor_over_keys, empty_cursor, left,
    lex_lt, next_id, next_id_spec, remaining, lemma_next_id_progress,
};

verus! {

/// Where an origin-member migration stands.
pub enum OriginMemberPhase {
    /// Waiting for `Reply::Start`, to list the origin keys.
    Begin,
    /// Waiting for the origin keys.
    ListingKeys,
    /// Waiting for `Reply::Start`, to take the next id.
    Next,
    /// Waiting for the Redis origin of the current id.
    FetchingRedisOrigin,
    /// Waiting for the member names of the Redis origin.
    ListingRedisMembers(Origin),
    /// Waiting for the Postgres origin of the Redis origin's name.
    FetchingPgOrigin(Vec<String>),
    /// Waiting for the members Postgres lists for `origin`, to see whether
    /// `members[index]` is among them.
    CheckingMember { origin: Origin, members: Vec<String>, index: usize },
    /// Waiting for the Postgres account named `members[index]`.
    FetchingAccount { origin: Origin, members: Vec<String>, index: usize },
    /// Waiting for the membership to be written.
    Adding { origin: Origin, members: Vec<String>, index: usize },
    /// Every id has been handled.
    Finished,
    /// The run stopped.
    Failed(Failure),
}

/// The origin-member migration.
pub struct OriginMemberMigrator {
    pub phase: OriginMemberPhase,
    pub cursor: IdCursor,
}

/// The membership request of a Postgres account in a Postgres origin.
pub open spec fn is_membership_for(act: Action, origin: Origin, account: Account) -> bool {
    &&& act matches Action::CreateOriginMember(omc)
    &&& omc.origin_id == origin.id
    &&& omc.origin_name == origin.name
    &&& omc.account_id == account.id
    &&& omc.account_name == account.name
}

fn membership_request(origin: &Origin, account: Account) -> (act: Action)
    ensures
        is_membership_for(act, *origin, account),
{
    Action::CreateOriginMember(
        OriginMemberCreate {
            origin_id: origin.id,
            origin_name: origin.name.clone(),
            account_id: account.id,
            account_name: account.name,
        },
    )
}

impl OriginMemberMigrator {
    /// The move to the next id, from `cursor`.
    pub open spec fn advances(cursor: IdCursor, post: Self, act: Action) -> bool {
        let (c, n) = next_id_spec(cursor);
        match n {
            NextId::Exhausted => post == (OriginMemberMigrator {
                phase: OriginMemberPhase::Finished,
                cursor: c,
            }) && act == Action::Finish,
            NextId::Malformed => Self::fails(c, Failure::MalformedKeyId, post, act),
            NextId::Id(id) => post == (OriginMemberMigrator {
                phase: OriginMemberPhase::FetchingRedisOrigin,
                cursor: c,
            }) && act == Action::FindRedisOrigin(id),
        }
    }

    /// Stopping for `f`.
    pub open spec fn fails(cursor: IdCursor, f: Failure, post: Self, act: Action) -> bool {
        post == (OriginMemberMigrator { phase: OriginMemberPhase::Failed(f), cursor }) && act
            == Action::Abort(f)
    }

    /// The move to member `index`, or past the origin when none is left.
    pub open spec fn visits(
        cursor: IdCursor,
        origin: Origin,
        members: Vec<String>,
        index: usize,
        post: Self,
        act: Action,
    ) -> bool {
        if index < members.len() {
            post == (OriginMemberMigrator {
                phase: OriginMemberPhase::CheckingMember { origin, members, index },
                cursor,
            }) && act == Action::ListPgOriginMembers(origin.id)
        } else {
            Self::advances(cursor, post, act)
        }
    }

    /// One step: from `self`, on `reply`, the migration moves to `post` and asks
    /// for `act`.
    pub open spec fn steps_to(self, reply: Reply, post: Self, act: Action) -> bool {
        let bad = Self::fails(self.cursor, Failure::UnexpectedReply, post, act);
        match self.phase {
            OriginMemberPhase::Begin => match reply {
                Reply::Start => {
                    &&& post == (OriginMemberMigrator {
                        phase: OriginMemberPhase::ListingKeys,
                        cursor: self.cursor,
                    })
                    &&& act matches Action::ListRedisKeys(p)
                    &&& p@ == keys_pattern_spec("origin"@)
                },
                _ => bad,
            },
            OriginMemberPhase::ListingKeys => match reply {
                Reply::Keys(keys) => exists|c: IdCursor|
                    c.ids@ == key_ids_spec(keys.deep_view()) && c.pos == 0
                        && #[trigger] Self::advances(c, post, act),
                _ => bad,
            },
            OriginMemberPhase::Next => match reply {
                Reply::Start => Self::advances(self.cursor, post, act),
                _ => bad,
            },
            OriginMemberPhase::FetchingRedisOrigin => match reply {
                Reply::RedisOrigin(o) => post == (OriginMemberMigrator {
                    phase: OriginMemberPhase::ListingRedisMembers(o),
                    cursor: self.cursor,
                }) && act == Action::ListRedisOriginMembers(o.id),
                _ => bad,
            },
            OriginMemberPhase::ListingRedisMembers(o) => match reply {
                Reply::Names(members) => post == (OriginMemberMigrator {
                    phase: OriginMemberPhase::FetchingPgOrigin(members),
                    cursor: self.cursor,
                }) && act == Action::GetPgOrigin(o.name),
                _ => bad,
            },
            OriginMemberPhase::FetchingPgOrigin(members) => match reply {
                Reply::PgOrigin(None) => Self::fails(
                    self.cursor,
                    Failure::NoOriginForOriginName,
                    post,
                    act,
                ),
                Reply::PgOrigin(Some(origin)) => Self::visits(
                    self.cursor,
                    origin,
                    members,
                    0,
                    post,
                    act,
                ),
                _ => bad,
            },
            OriginMemberPhase::CheckingMember { origin, members, index } => match reply {
                Reply::Names(pg_members) => if index < members.len() && lists(
                    pg_members.deep_view(),
                    members@[index as int]@,
                ) {
                    Self::visits(self.cursor, origin, members, (index + 1) as usize, post, act)
                } else if index < members.len() {
                    post == (OriginMemberMigrator {
                        phase: OriginMemberPhase::FetchingAccount { origin, members, index },
                        cursor: self.cursor,
                    }) && act == Action::GetPgAccount(members@[index as int])
                } else {
                    Self::advances(self.cursor, post, act)
                },
                _ => bad,
            },
            OriginMemberPhase::FetchingAccount { origin, members, index } => match reply {
                Reply::PgAccount(None) => Self::fails(
                    self.cursor,
                    Failure::NoAccountForAccountName,
                    post,
                    act,
                ),
                Reply::PgAccount(Some(account)) => post == (OriginMemberMigrator {
                    phase: OriginMemberPhase::Adding { origin, members, index },
                    cursor: self.cursor,
                }) && is_membership_for(act, origin, account),
                _ => bad,
            },
            OriginMemberPhase::Adding { origin, members, index } => match reply {
                Reply::Written => if index < members.len() {
                    Self::visits(self.cursor, origin, members, (index + 1) as usize, post, act)
                } else {
                    Self::advances(self.cursor, post, act)
                },
                _ => bad,
            },
            OriginMemberPhase::Finished => post == self && act == Action::Finish,
            OriginMemberPhase::Failed(f) => post == self && act == Action::Abort(f),
        }
    }

    /// The migration of the members of every origin
    /// (`OriginMemberMigrator::new(..).migrate()`).
    pub fn new() -> (m: Self)
        ensures
            m.phase == OriginMemberPhase::Begin,
            m.cursor.ids@.len() == 0,
            m.cursor.pos == 0,
    {
        OriginMemberMigrator { phase: OriginMemberPhase::Begin, cursor: empty_cursor() }
    }

    /// The migration of the members of the single origin `id`.
    pub fn migrate_origin(id: u64) -> (m: Self)
        ensures
            m.phase == OriginMemberPhase::Next,
            m.cursor.ids@ == seq![Some(id)],
            m.cursor.pos == 0,
    {
        OriginMemberMigrator { phase: OriginMemberPhase::Next, cursor: cursor_for(id) }
    }

    fn advance(cursor: IdCursor) -> (res: (Self, Action))
        ensures
            Self::advances(cursor, res.0, res.1),
    {
        let (c, n) = next_id(cursor);
        match n {
            NextId::Exhausted => (
                OriginMemberMigrator { phase: OriginMemberPhase::Finished, cursor: c },
                Action::Finish,
            ),
            NextId::Malformed => Self::fail(c, Failure::MalformedKeyId),
            NextId::Id(id) => (
                OriginMemberMigrator { phase: OriginMemberPhase::FetchingRedisOrigin, cursor: c },
                Action::FindRedisOrigin(id),
            ),
        }
    }

    fn fail(cursor: IdCursor, f: Failure) -> (res: (Self, Action))
        ensures
            Self::fails(cursor, f, res.0, res.1),
    {
        (OriginMemberMigrator { phase: OriginMemberPhase::Failed(f), cursor }, Action::Abort(f))
    }

    fn visit(cursor: IdCursor, origin: Origin, members: Vec<String>, index: usize) -> (res: (
        Self,
        Action,
    ))
        ensures
            Self::visits(cursor, origin, members, index, res.0, res.1),
    {
        if index < members.len() {
            let id = origin.id;
            (
                OriginMemberMigrator {
                    phase: OriginMemberPhase::CheckingMember { origin, members, index },
                    cursor,
                },
                Action::ListPgOriginMembers(id),
            )
        } else {
            Self::advance(cursor)
        }
    }

    /// Takes one step on `reply`.
    pub fn step(self, reply: Reply) -> (res: (Self, Action))
        ensures
            self.steps_to(reply, res.0, res.1),
    {
        let OriginMemberMigrator { phase, cursor } = self;
        match phase {
            OriginMemberPhase::Begin => match reply {
                Reply::Start => {
                    let p = keys_pattern("origin");
                    proof {
                        reveal_strlit("origin");
                    }
                    (
                        OriginMemberMigrator { phase: OriginMemberPhase::ListingKeys, cursor },
                        Action::ListRedisKeys(p),
                    )
                },
                _ => Self::fail(cursor, Failure::UnexpectedReply),
            },
            OriginMemberPhase::ListingKeys => match reply {
                Reply::Keys(keys) => {
                    let c = cursor_over_keys(&keys);
                    let res = Self::advance(c);
                    assert(Self::advances(c, res.0, res.1));
                    res
                },
                _ => Self::fail(cursor, Failure::UnexpectedReply),
            },
            OriginMemberPhase::Next => match reply {
                Reply::Start => Self::advance(cursor),
                _ => Self::fail(cursor, Failure::UnexpectedReply),
            },
            OriginMemberPhase::FetchingRedisOrigin => match reply {
                Reply::RedisOrigin(o) => {
                    let id = o.id;
                    (
                        OriginMemberMigrator {
                            phase: OriginMemberPhase::ListingRedisMembers(o),
                            cursor,
                        },
                        Action::ListRedisOriginMembers(id),
                    )
                },
                _ => Self::fail(cursor, Failure::UnexpectedReply),
            },
            OriginMemberPhase::ListingRedisMembers(o) => match reply {
                Reply::Names(members) => (
                    OriginMemberMigrator { phase: OriginMemberPhase::FetchingPgOrigin(members), cursor },
                    Action::GetPgOrigin(o.name),
                ),
                _ => Self::fail(cursor, Failure::UnexpectedReply),
            },
            OriginMemberPhase::FetchingPgOrigin(members) => match reply {
                Reply::PgOrigin(None) => Self::fail(cursor, Failure::NoOriginForOriginName),
                Reply::PgOrigin(Some(origin)) => Self::visit(cursor, origin, members, 0),
                _ => Self::fail(cursor, Failure::UnexpectedReply),
            },
            OriginMemberPhase::CheckingMember { origin, members, index } => match reply {
                Reply::Names(pg_members) => {
                    if index < members.len() && is_member_in_origin(&pg_members, &members[index]) {
                        Self::visit(cursor, origin, members, index + 1)
                    } else if index < members.len() {
                        let name = members[index].clone();
                        (
                            OriginMemberMigrator {
                                phase: OriginMemberPhase::FetchingAccount { origin, members, index },
                                cursor,
                            },
                            Action::GetPgAccount(name),
                        )
                    } else {
                        Self::advance(cursor)
                    }
                },
                _ => Self::fail(cursor, Failure::UnexpectedReply),
            },
            OriginMemberPhase::FetchingAccount { origin, members, index } => match reply {
                Reply::PgAccount(None) => Self::fail(cursor, Failure::NoAccountForAccountName),
                Reply::PgAccount(Some(account)) => {
                    let act = membership_request(&origin, account);
                    (
                        OriginMemberMigrator {
                            phase: OriginMemberPhase::Adding { origin, members, index },
                            cursor,
                        },
                        act,
                    )
                },
                _ => Self::fail(cursor, Failure::UnexpectedReply),
            },
            OriginMemberPhase::Adding { origin, members, index } => match reply {
                Reply::Written => {
                    if index < members.len() {
                        Self::visit(cursor, origin, members, index + 1)
                    } else {
                        Self::advance(cursor)
                    }
                },
                _ => Self::fail(cursor, Failure::UnexpectedReply),
            },
            OriginMemberPhase::Finished => (
                OriginMemberMigrator { phase: OriginMemberPhase::Finished, cursor },
                Action::Finish,
            ),
            OriginMemberPhase::Failed(f) => Self::fail(cursor, f),
        }
    }

    /// The run has ended, well or not.
    pub open spec fn ended(self) -> bool {
        self.phase is Finished || self.phase is Failed
    }

    /// How far the run is from its end (compared lexicographically).
    pub open spec fn rank(self) -> (nat, nat, nat, nat) {
        let r = remaining(self.cursor);
        match self.phase {
            OriginMemberPhase::Begin => (2, 0, 0, 0),
            OriginMemberPhase::ListingKeys => (1, 0, 0, 0),
            OriginMemberPhase::Next => (0, r, 5, 0),
            OriginMemberPhase::FetchingRedisOrigin => (0, r, 4, 0),
            OriginMemberPhase::ListingRedisMembers(_) => (0, r, 3, 0),
            OriginMemberPhase::FetchingPgOrigin(_) => (0, r, 2, 0),
            OriginMemberPhase::CheckingMember { members, index, .. } => (
                0,
                r,
                1,
                left(members.len(), index) * 3 + 3,
            ),
            OriginMemberPhase::FetchingAccount { members, index, .. } => (
                0,
                r,
                1,
                left(members.len(), index) * 3 + 2,
            ),
            OriginMemberPhase::Adding { members, index, .. } => (
                0,
                r,
                1,
                left(members.len(), index) * 3 + 1,
            ),
            OriginMemberPhase::Finished => (0, r, 0, 0),
            OriginMemberPhase::Failed(_) => (0, r, 0, 0),
        }
    }
}

proof fn lemma_advances_rank(c: IdCursor, post: OriginMemberMigrator, act: Action)
    requires
        OriginMemberMigrator::advances(c, post, act),
    ensures
        post.rank().0 == 0,
        remaining(c) == 0 ==> post.rank() == (0nat, 0nat, 0nat, 0nat),
        remaining(c) > 0 ==> post.rank().1 < remaining(c),
{
    lemma_next_id_progress(c);
}

/// Law: a member is added only after Postgres listed the origin's members
/// without that name, and the Postgres account of that name is added to the
/// Postgres origin.
pub proof fn law_member_added_only_when_missing(
    m: OriginMemberMigrator,
    reply: Reply,
    post: OriginMemberMigrator,
    act: Action,
)
    requires
        m.steps_to(reply, post, act),
        act is CreateOriginMember,
    ensures
        m.phase matches OriginMemberPhase::FetchingAccount { origin, .. }
            && reply matches Reply::PgAccount(Some(account))
            && is_membership_for(act, origin, account),
{
    if let OriginMemberPhase::ListingKeys = m.phase {
        if let Reply::Keys(keys) = reply {
            let c = choose|c: IdCursor|
                c.ids@ == key_ids_spec(keys.deep_view()) && c.pos == 0
                    && #[trigger] OriginMemberMigrator::advances(c, post, act);
        }
    }
}

/// Law: a member that Postgres already lists is passed over, and the run goes
/// on with the next member.
pub proof fn law_member_known_is_skipped(
    m: OriginMemberMigrator,
    pg_members: Vec<String>,
    post: OriginMemberMigrator,
    act: Action,
)
    requires
        m.phase matches OriginMemberPhase::CheckingMember { members, index, .. } && index
            < members.len() && lists(pg_members.deep_view(), members@[index as int]@),
        m.steps_to(Reply::Names(pg_members), post, act),
    ensures
        m.phase matches OriginMemberPhase::CheckingMember { origin, members, index }
            && OriginMemberMigrator::visits(m.cursor, origin, members, (index + 1) as usize, post, act),
{
}

/// Law: a run that has ended stays where it is and repeats its last word.
pub proof fn law_member_ended_run_stays(
    m: OriginMemberMigrator,
    reply: Reply,
    post: OriginMemberMigrator,
    act: Action,
)
    requires
        m.steps_to(reply, post, act),
        m.ended(),
    ensures
        post == m,
{
}

/// Law: every step of a run that has not ended brings it closer to its end.
pub proof fn law_member_run_progresses(
    m: OriginMemberMigrator,
    reply: Reply,
    post: OriginMemberMigrator,
    act: Action,
)
    requires
        m.steps_to(reply, post, act),
        !m.ended(),
    ensures
        lex_lt(post.rank(), m.rank()),
{
    if let OriginMemberPhase::ListingKeys = m.phase {
        if let Reply::Keys(keys) = reply {
            let c = choose|c: IdCursor|
                c.ids@ == key_ids_spec(keys.deep_view()) && c.pos == 0
                    && #[trigger] OriginMemberMigrator::advances(c, post, act);
            lemma_advances_rank(c, post, act);
        }
    } else if OriginMemberMigrator::advances(m.cursor, post, act) {
        lemma_advances_rank(m.cursor, post, act);
    }
}

/// A store that answers the origin-member migration faithfully: Redis holds
/// the key list `keys`, the origins `redis_origins` by id and the member names
/// `redis_members` of each origin by origin id; Postgres holds the origins
/// `pg_origins` and the accounts `pg_accounts` by name, and the memberships,
/// as pairs of an origin id and a member name, `pg` before the action and
/// `pg_after` after it.
pub open spec fn answers(
    act: Action,
    reply: Reply,
    keys: Seq<Seq<char>>,
    redis_origins: Map<u64, Origin>,
    redis_members: Map<u64, Seq<Seq<char>>>,
    pg_origins: Map<Seq<char>, Origin>,
    pg_accounts: Map<Seq<char>, Account>,
    pg: Set<(u64, Seq<char>)>,
    pg_after: Set<(u64, Seq<char>)>,
) -> bool {
    match act {
        Action::ListRedisKeys(_) => reply matches Reply::Keys(k) && k.deep_view() == keys && pg_after
            == pg,
        Action::FindRedisOrigin(id) => redis_origins.contains_key(id) && reply == Reply::RedisOrigin(
            redis_origins[id],
        ) && pg_after == pg,
        Action::ListRedisOriginMembers(id) => {
            &&& redis_members.contains_key(id)
            &&& reply matches Reply::Names(v)
            &&& v.deep_view() == redis_members[id]
            &&& pg_after == pg
        },
        Action::GetPgOrigin(name) => reply == Reply::PgOrigin(
            if pg_origins.contains_key(name@) {
                Some(pg_origins[name@])
            } else {
                None
            },
        ) && pg_after == pg,
        Action::ListPgOriginMembers(id) => {
            &&& reply matches Reply::Names(v)
            &&& forall|n: Seq<char>| #[trigger] lists(v.deep_view(), n) <==> pg.contains((id, n))
            &&& pg_after == pg
        },
        Action::GetPgAccount(name) => reply == Reply::PgAccount(
            if pg_accounts.contains_key(name@) {
                Some(pg_accounts[name@])
            } else {
                None
            },
        ) && pg_after == pg,
        Action::CreateOriginMember(omc) => reply == Reply::Written && pg_after == pg.insert(
            (omc.origin_id, omc.account_name@),
        ),
        _ => false,
    }
}

/// Postgres holds the membership in origin `oid` of each of the first `k`
/// names.
pub open spec fn members_added(
    oid: u64,
    names: Seq<Seq<char>>,
    k: int,
    pg: Set<(u64, Seq<char>)>,
) -> bool {
    forall|j: int| 0 <= j < k ==> pg.contains((oid, #[trigger] names[j]))
}

/// Every member of Redis origin `id` is a member of the Postgres origin of the
/// same name.
pub open spec fn origin_members_migrated(
    id: u64,
    redis_origins: Map<u64, Origin>,
    redis_members: Map<u64, Seq<Seq<char>>>,
    pg_origins: Map<Seq<char>, Origin>,
    pg: Set<(u64, Seq<char>)>,
) -> bool {
    &&& redis_origins.contains_key(id)
    &&& redis_members.contains_key(redis_origins[id].id)
    &&& pg_origins.contains_key(redis_origins[id].name@)
    &&& members_added(
        pg_origins[redis_origins[id].name@].id,
        redis_members[redis_origins[id].id],
        redis_members[redis_origins[id].id].len() as int,
        pg,
    )
}

/// The first `k` ids of the walk are ids of Redis origins whose members are
/// all in Postgres.
pub open spec fn migrated_before(
    c: IdCursor,
    k: int,
    redis_origins: Map<u64, Origin>,
    redis_members: Map<u64, Seq<Seq<char>>>,
    pg_origins: Map<Seq<char>, Origin>,
    pg: Set<(u64, Seq<char>)>,
) -> bool {
    forall|j: int|
        0 <= j < k ==> (#[trigger] c.ids@[j] matches Some(id) && origin_members_migrated(
            id,
            redis_origins,
            redis_members,
            pg_origins,
            pg,
        ))
}

/// `origin` and `members` are the Postgres origin and the Redis member names
/// of the Redis origin `current`.
pub open spec fn working_on(
    current: Option<u64>,
    origin: Origin,
    members: Vec<String>,
    redis_origins: Map<u64, Origin>,
    redis_members: Map<u64, Seq<Seq<char>>>,
    pg_origins: Map<Seq<char>, Origin>,
) -> bool {
    &&& current matches Some(id)
    &&& redis_origins.contains_key(id)
    &&& redis_members.contains_key(redis_origins[id].id)
    &&& pg_origins.contains_key(redis_origins[id].name@)
    &&& origin == pg_origins[redis_origins[id].name@]
    &&& members.deep_view() == redis_members[redis_origins[id].id]
}

/// What holds of a faithful run of the whole origin-member migration when it
/// is in state `m`, about to receive `reply`, with Postgres holding the
/// memberships `pg`.
pub open spec fn run_invariant(
    m: OriginMemberMigrator,
    reply: Reply,
    keys: Seq<Seq<char>>,
    redis_origins: Map<u64, Origin>,
    redis_members: Map<u64, Seq<Seq<char>>>,
    pg_origins: Map<Seq<char>, Origin>,
    pg_accounts: Map<Seq<char>, Account>,
    pg: Set<(u64, Seq<char>)>,
) -> bool {
    let c = m.cursor;
    let walking = c.ids@ == key_ids_spec(keys) && 1 <= c.pos <= c.ids@.len();
    let current = c.ids@[c.pos - 1];
    let before = migrated_before(c, c.pos - 1, redis_origins, redis_members, pg_origins, pg);
    match m.phase {
        OriginMemberPhase::Begin => reply == Reply::Start,
        OriginMemberPhase::ListingKeys => reply matches Reply::Keys(k) && k.deep_view() == keys,
        OriginMemberPhase::FetchingRedisOrigin => {
            &&& walking
            &&& before
            &&& current matches Some(id)
            &&& redis_origins.contains_key(id)
            &&& reply == Reply::RedisOrigin(redis_origins[id])
        },
        OriginMemberPhase::ListingRedisMembers(o) => {
            &&& walking
            &&& before
            &&& current matches Some(id)
            &&& redis_origins.contains_key(id)
            &&& o == redis_origins[id]
            &&& redis_members.contains_key(o.id)
            &&& reply matches Reply::Names(v)
            &&& v.deep_view() == redis_members[o.id]
        },
        OriginMemberPhase::FetchingPgOrigin(members) => {
            &&& walking
            &&& before
            &&& current matches Some(id)
            &&& redis_origins.contains_key(id)
            &&& redis_members.contains_key(redis_origins[id].id)
            &&& members.deep_view() == redis_members[redis_origins[id].id]
            &&& reply == Reply::PgOrigin(
                if pg_origins.contains_key(redis_origins[id].name@) {
                    Some(pg_origins[redis_origins[id].name@])
                } else {
                    None
                },
            )
        },
        OriginMemberPhase::CheckingMember { origin, members, index } => {
            &&& walking
            &&& before
            &&& working_on(current, origin, members, redis_origins, redis_members, pg_origins)
            &&& index < members.len()
            &&& members_added(origin.id, members.deep_view(), index as int, pg)
            &&& reply matches Reply::Names(v)
            &&& forall|n: Seq<char>| #[trigger] lists(v.deep_view(), n) <==> pg.contains((origin.id, n))
        },
        OriginMemberPhase::FetchingAccount { origin, members, index } => {
            &&& walking
            &&& before
            &&& working_on(current, origin, members, redis_origins, redis_members, pg_origins)
            &&& index < members.len()
            &&& members_added(origin.id, members.deep_view(), index as int, pg)
            &&& reply == Reply::PgAccount(
                if pg_accounts.contains_key(members@[index as int]@) {
                    Some(pg_accounts[members@[index as int]@])
                } else {
                    None
                },
            )
        },
        OriginMemberPhase::Adding { origin, members, index } => {
            &&& walking
            &&& before
            &&& working_on(current, origin, members, redis_origins, redis_members, pg_origins)
            &&& index < members.len()
            &&& members_added(origin.id, members.deep_view(), index + 1, pg)
            &&& reply == Reply::Written
        },
        _ => false,
    }
}

/// A faithful store only ever adds memberships.
proof fn lemma_answers_grow(
    act: Action,
    reply: Reply,
    keys: Seq<Seq<char>>,
    redis_origins: Map<u64, Origin>,
    redis_members: Map<u64, Seq<Seq<char>>>,
    pg_origins: Map<Seq<char>, Origin>,
    pg_accounts: Map<Seq<char>, Account>,
    pg: Set<(u64, Seq<char>)>,
    pg2: Set<(u64, Seq<char>)>,
)
    requires
        answers(act, reply, keys, redis_origins, redis_members, pg_origins, pg_accounts, pg, pg2),
    ensures
        pg.subset_of(pg2),
{
}

proof fn lemma_migrated_before_grows(
    c: IdCursor,
    k: int,
    redis_origins: Map<u64, Origin>,
    redis_members: Map<u64, Seq<Seq<char>>>,
    pg_origins: Map<Seq<char>, Origin>,
    pg: Set<(u64, Seq<char>)>,
    pg2: Set<(u64, Seq<char>)>,
)
    requires
        migrated_before(c, k, redis_origins, redis_members, pg_origins, pg),
        pg.subset_of(pg2),
    ensures
        migrated_before(c, k, redis_origins, redis_members, pg_origins, pg2),
{
    assert forall|j: int| 0 <= j < k implies (#[trigger] c.ids@[j] matches Some(id)
        && origin_members_migrated(id, redis_origins, redis_members, pg_origins, pg2)) by {
        if let Some(id) = c.ids@[j] {
            assert(origin_members_migrated(id, redis_origins, redis_members, pg_origins, pg));
            let names = redis_members[redis_origins[id].id];
            let oid = pg_origins[redis_origins[id].name@].id;
            assert forall|i: int| 0 <= i < names.len() implies pg2.contains(
                (oid, #[trigger] names[i]),
            ) by {
                assert(pg.contains((oid, names[i])));
            }
        }
    }
}

/// Once every member of the current origin is in Postgres, the ids up to and
/// including the current one are migrated.
proof fn lemma_current_done(
    c: IdCursor,
    origin: Origin,
    members: Vec<String>,
    redis_origins: Map<u64, Origin>,
    redis_members: Map<u64, Seq<Seq<char>>>,
    pg_origins: Map<Seq<char>, Origin>,
    pg: Set<(u64, Seq<char>)>,
)
    requires
        1 <= c.pos <= c.ids@.len(),
        migrated_before(c, c.pos - 1, redis_origins, redis_members, pg_origins, pg),
        working_on(c.ids@[c.pos - 1], origin, members, redis_origins, redis_members, pg_origins),
        members_added(origin.id, members.deep_view(), members.len() as int, pg),
    ensures
        migrated_before(c, c.pos as int, redis_origins, redis_members, pg_origins, pg),
{
    assert(members.deep_view().len() == members.len());
    assert forall|j: int| 0 <= j < c.pos implies (#[trigger] c.ids@[j] matches Some(id)
        && origin_members_migrated(id, redis_origins, redis_members, pg_origins, pg)) by {
        if j < c.pos - 1 {
        }
    }
}

/// Moving to the next id keeps the run invariant, given that every id before
/// the cursor is migrated.
proof fn lemma_advance_keeps_invariant(
    c: IdCursor,
    keys: Seq<Seq<char>>,
    redis_origins: Map<u64, Origin>,
    redis_members: Map<u64, Seq<Seq<char>>>,
    pg_origins: Map<Seq<char>, Origin>,
    pg_accounts: Map<Seq<char>, Account>,
    pg: Set<(u64, Seq<char>)>,
    post: OriginMemberMigrator,
    act: Action,
    reply2: Reply,
    pg2: Set<(u64, Seq<char>)>,
)
    requires
        c.ids@ == key_ids_spec(keys),
        c.pos <= c.ids@.len(),
        migrated_before(c, c.pos as int, redis_origins, redis_members, pg_origins, pg),
        OriginMemberMigrator::advances(c, post, act),
        answers(act, reply2, keys, redis_origins, redis_members, pg_origins, pg_accounts, pg, pg2),
    ensures
        run_invariant(post, reply2, keys, redis_origins, redis_members, pg_origins, pg_accounts, pg2),
{
    let (c2, n) = next_id_spec(c);
    if let NextId::Id(id) = n {
        assert(c2.pos == c.pos + 1);
        assert(migrated_before(c2, c2.pos - 1, redis_origins, redis_members, pg_origins, pg2));
    }
}

/// Moving to member `index` of the current origin keeps the run invariant.
proof fn lemma_visit_keeps_invariant(
    c: IdCursor,
    origin: Origin,
    members: Vec<String>,
    index: usize,
    keys: Seq<Seq<char>>,
    redis_origins: Map<u64, Origin>,
    redis_members: Map<u64, Seq<Seq<char>>>,
    pg_origins: Map<Seq<char>, Origin>,
    pg_accounts: Map<Seq<char>, Account>,
    pg: Set<(u64, Seq<char>)>,
    post: OriginMemberMigrator,
    act: Action,
    reply2: Reply,
    pg2: Set<(u64, Seq<char>)>,
)
    requires
        c.ids@ == key_ids_spec(keys),
        1 <= c.pos <= c.ids@.len(),
        migrated_before(c, c.pos - 1, redis_origins, redis_members, pg_origins, pg),
        working_on(c.ids@[c.pos - 1], origin, members, redis_origins, redis_members, pg_origins),
        index <= members.len(),
        members_added(origin.id, members.deep_view(), index as int, pg),
        OriginMemberMigrator::visits(c, origin, members, index, post, act),
        answers(act, reply2, keys, redis_origins, redis_members, pg_origins, pg_accounts, pg, pg2),
    ensures
        run_invariant(post, reply2, keys, redis_origins, redis_members, pg_origins, pg_accounts, pg2),
{
    if index < members.len() {
        assert(pg2 == pg);
    } else {
        lemma_current_done(c, origin, members, redis_origins, redis_members, pg_origins, pg);
        lemma_advance_keeps_invariant(
            c,
            keys,
            redis_origins,
            redis_members,
            pg_origins,
            pg_accounts,
            pg,
            post,
            act,
            reply2,
            pg2,
        );
    }
}

/// One faithful step keeps the run invariant, in a store that finds each
/// account under its own name.
proof fn lemma_step_keeps_invariant(
    m: OriginMemberMigrator,
    reply: Reply,
    keys: Seq<Seq<char>>,
    redis_origins: Map<u64, Origin>,
    redis_members: Map<u64, Seq<Seq<char>>>,
    pg_origins: Map<Seq<char>, Origin>,
    pg_accounts: Map<Seq<char>, Account>,
    pg: Set<(u64, Seq<char>)>,
    post: OriginMemberMigrator,
    act: Action,
    reply2: Reply,
    pg2: Set<(u64, Seq<char>)>,
)
    requires
        forall|n: Seq<char>| pg_accounts.contains_key(n) ==> (#[trigger] pg_accounts[n]).name@ == n,
        run_invariant(m, reply, keys, redis_origins, redis_members, pg_origins, pg_accounts, pg),
        m.steps_to(reply, post, act),
        answers(act, reply2, keys, redis_origins, redis_members, pg_origins, pg_accounts, pg, pg2),
    ensures
        run_invariant(post, reply2, keys, redis_origins, redis_members, pg_origins, pg_accounts, pg2),
{
    let c = m.cursor;
    match m.phase {
        OriginMemberPhase::ListingKeys => {
            if let Reply::Keys(k) = reply {
                let c0 = choose|c0: IdCursor|
                    c0.ids@ == key_ids_spec(k.deep_view()) && c0.pos == 0
                        && #[trigger] OriginMemberMigrator::advances(c0, post, act);
                lemma_advance_keeps_invariant(
                    c0,
                    keys,
                    redis_origins,
                    redis_members,
                    pg_origins,
                    pg_accounts,
                    pg,
                    post,
                    act,
                    reply2,
                    pg2,
                );
            }
        },
        OriginMemberPhase::FetchingPgOrigin(members) => {
            if let Reply::PgOrigin(Some(origin)) = reply {
                lemma_visit_keeps_invariant(
                    c,
                    origin,
                    members,
                    0,
                    keys,
                    redis_origins,
                    redis_members,
                    pg_origins,
                    pg_accounts,
                    pg,
                    post,
                    act,
                    reply2,
                    pg2,
                );
            }
        },
        OriginMemberPhase::CheckingMember { origin, members, index } => {
            if let Reply::Names(v) = reply {
                if lists(v.deep_view(), members@[index as int]@) {
                    assert(members.deep_view()[index as int] == members@[index as int]@);
                    assert(members_added(origin.id, members.deep_view(), index + 1, pg)) by {
                        assert forall|j: int| 0 <= j < index + 1 implies pg.contains(
                            (origin.id, #[trigger] members.deep_view()[j]),
                        ) by {
                            if j < index {
                            }
                        }
                    }
                    lemma_visit_keeps_invariant(
                        c,
                        origin,
                        members,
                        (index + 1) as usize,
                        keys,
                        redis_origins,
                        redis_members,
                        pg_origins,
                        pg_accounts,
                        pg,
                        post,
                        act,
                        reply2,
                        pg2,
                    );
                }
            }
        },
        OriginMemberPhase::FetchingAccount { origin, members, index } => {
            if let Reply::PgAccount(Some(account)) = reply {
                let name = members@[index as int]@;
                assert(account == pg_accounts[name]);
                assert(account.name@ == name);
                assert(pg2 == pg.insert((origin.id, name)));
                assert(members.deep_view()[index as int] == name);
                lemma_migrated_before_grows(
                    c,
                    c.pos - 1,
                    redis_origins,
                    redis_members,
                    pg_origins,
                    pg,
                    pg2,
                );
                assert(members_added(origin.id, members.deep_view(), index + 1, pg2)) by {
                    assert forall|j: int| 0 <= j < index + 1 implies pg2.contains(
                        (origin.id, #[trigger] members.deep_view()[j]),
                    ) by {
                        if j < index {
                            assert(pg.contains((origin.id, members.deep_view()[j])));
                        }
                    }
                }
            }
        },
        OriginMemberPhase::Adding { origin, members, index } => {
            if let Reply::Written = reply {
                lemma_visit_keeps_invariant(
                    c,
                    origin,
                    members,
                    (index + 1) as usize,
                    keys,
                    redis_origins,
                    redis_members,
                    pg_origins,
                    pg_accounts,
                    pg,
                    post,
                    act,
                    reply2,
                    pg2,
                );
            }
        },
        _ => {},
    }
}

/// Finishing from a walk whose visited ids are all migrated finds every id of
/// the walk migrated.
proof fn lemma_advance_to_finish(
    c: IdCursor,
    redis_origins: Map<u64, Origin>,
    redis_members: Map<u64, Seq<Seq<char>>>,
    pg_origins: Map<Seq<char>, Origin>,
    pg: Set<(u64, Seq<char>)>,
    post: OriginMemberMigrator,
)
    requires
        c.pos <= c.ids@.len(),
        migrated_before(c, c.pos as int, redis_origins, redis_members, pg_origins, pg),
        OriginMemberMigrator::advances(c, post, Action::Finish),
    ensures
        post.cursor.ids == c.ids,
        migrated_before(
            IdCursor { ids: post.cursor.ids, pos: 0 },
            c.ids@.len() as int,
            redis_origins,
            redis_members,
            pg_origins,
            pg,
        ),
{
    let d = IdCursor { ids: post.cursor.ids, pos: 0 };
    assert forall|j: int| 0 <= j < c.ids@.len() implies (#[trigger] d.ids@[j] matches Some(id)
        && origin_members_migrated(id, redis_origins, redis_members, pg_origins, pg)) by {
        assert(d.ids@[j] == c.ids@[j]);
    }
}

/// A step that finishes a faithful run finds every id migrated.
proof fn lemma_finish_means_all_migrated(
    m: OriginMemberMigrator,
    reply: Reply,
    keys: Seq<Seq<char>>,
    redis_origins: Map<u64, Origin>,
    redis_members: Map<u64, Seq<Seq<char>>>,
    pg_origins: Map<Seq<char>, Origin>,
    pg_accounts: Map<Seq<char>, Account>,
    pg: Set<(u64, Seq<char>)>,
    post: OriginMemberMigrator,
)
    requires
        run_invariant(m, reply, keys, redis_origins, redis_members, pg_origins, pg_accounts, pg),
        m.steps_to(reply, post, Action::Finish),
    ensures
        post.cursor.ids@ == key_ids_spec(keys),
        migrated_before(
            IdCursor { ids: post.cursor.ids, pos: 0 },
            key_ids_spec(keys).len() as int,
            redis_origins,
            redis_members,
            pg_origins,
            pg,
        ),
{
    let c = m.cursor;
    match m.phase {
        OriginMemberPhase::ListingKeys => {
            if let Reply::Keys(k) = reply {
                let c0 = choose|c0: IdCursor|
                    c0.ids@ == key_ids_spec(k.deep_view()) && c0.pos == 0
                        && #[trigger] OriginMemberMigrator::advances(c0, post, Action::Finish);
                lemma_advance_to_finish(c0, redis_origins, redis_members, pg_origins, pg, post);
            }
        },
        OriginMemberPhase::FetchingPgOrigin(members) => {
            if let Reply::PgOrigin(Some(origin)) = reply {
                assert(members.deep_view().len() == members.len());
                lemma_current_done(c, origin, members, redis_origins, redis_members, pg_origins, pg);
                lemma_advance_to_finish(c, redis_origins, redis_members, pg_origins, pg, post);
            }
        },
        OriginMemberPhase::CheckingMember { origin, members, index } => {
            if let Reply::Names(v) = reply {
                assert(members.deep_view()[index as int] == members@[index as int]@);
                assert(members_added(origin.id, members.deep_view(), index + 1, pg)) by {
                    assert forall|j: int| 0 <= j < index + 1 implies pg.contains(
                        (origin.id, #[trigger] members.deep_view()[j]),
                    ) by {
                        if j < index {
                        }
                    }
                }
                lemma_current_done(c, origin, members, redis_origins, redis_members, pg_origins, pg);
                lemma_advance_to_finish(c, redis_origins, redis_members, pg_origins, pg, post);
            }
        },
        OriginMemberPhase::Adding { origin, members, index } => {
            lemma_current_done(c, origin, members, redis_origins, redis_members, pg_origins, pg);
            lemma_advance_to_finish(c, redis_origins, redis_members, pg_origins, pg, post);
        },
        _ => {},
    }
}

proof fn lemma_run_invariant_at(
    i: int,
    keys: Seq<Seq<char>>,
    redis_origins: Map<u64, Origin>,
    redis_members: Map<u64, Seq<Seq<char>>>,
    pg_origins: Map<Seq<char>, Origin>,
    pg_accounts: Map<Seq<char>, Account>,
    states: Seq<OriginMemberMigrator>,
    replies: Seq<Reply>,
    actions: Seq<Action>,
    pgs: Seq<Set<(u64, Seq<char>)>>,
)
    requires
        0 <= i < actions.len(),
        states.len() == actions.len() + 1,
        replies.len() == actions.len(),
        pgs.len() == actions.len(),
        states[0].phase == OriginMemberPhase::Begin,
        replies[0] == Reply::Start,
        forall|n: Seq<char>| pg_accounts.contains_key(n) ==> (#[trigger] pg_accounts[n]).name@ == n,
        forall|k: int|
            0 <= k < actions.len() ==> #[trigger] states[k].steps_to(
                replies[k],
                states[k + 1],
                actions[k],
            ),
        forall|k: int|
            0 <= k < actions.len() - 1 ==> #[trigger] answers(
                actions[k],
                replies[k + 1],
                keys,
                redis_origins,
                redis_members,
                pg_origins,
                pg_accounts,
                pgs[k],
                pgs[k + 1],
            ),
    ensures
        run_invariant(
            states[i],
            replies[i],
            keys,
            redis_origins,
            redis_members,
            pg_origins,
            pg_accounts,
            pgs[i],
        ),
    decreases i,
{
    if i > 0 {
        lemma_run_invariant_at(
            i - 1,
            keys,
            redis_origins,
            redis_members,
            pg_origins,
            pg_accounts,
            states,
            replies,
            actions,
            pgs,
        );
        let k = i - 1;
        assert(states[k].steps_to(replies[k], states[k + 1], actions[k]));
        assert(answers(
            actions[k],
            replies[k + 1],
            keys,
            redis_origins,
            redis_members,
            pg_origins,
            pg_accounts,
            pgs[k],
            pgs[k + 1],
        ));
        assert(k + 1 == i);
        lemma_step_keeps_invariant(
            states[k],
            replies[k],
            keys,
            redis_origins,
            redis_members,
            pg_origins,
            pg_accounts,
            pgs[k],
            states[i],
            actions[k],
            replies[i],
            pgs[i],
        );
    }
}

/// Law: a run of the whole origin-member migration against a store that
/// answers faithfully and finds each Postgres account under its own name,
/// from its start to `Finish`, leaves every member name of every Redis origin
/// whose id the origin keys carry a member of the Postgres origin of the same
/// name; and Postgres only ever gains memberships along the way.
///
/// `states[k]` takes `replies[k]` and moves to `states[k + 1]`, asking for
/// `actions[k]`; `pgs[k]` holds the memberships, as pairs of an origin id and
/// a member name, that Postgres knows when `replies[k]` arrives.
pub proof fn law_member_run_migrates_every_member(
    keys: Seq<Seq<char>>,
    redis_origins: Map<u64, Origin>,
    redis_members: Map<u64, Seq<Seq<char>>>,
    pg_origins: Map<Seq<char>, Origin>,
    pg_accounts: Map<Seq<char>, Account>,
    states: Seq<OriginMemberMigrator>,
    replies: Seq<Reply>,
    actions: Seq<Action>,
    pgs: Seq<Set<(u64, Seq<char>)>>,
)
    requires
        actions.len() > 0,
        states.len() == actions.len() + 1,
        replies.len() == actions.len(),
        pgs.len() == actions.len(),
        states[0].phase == OriginMemberPhase::Begin,
        replies[0] == Reply::Start,
        forall|n: Seq<char>| pg_accounts.contains_key(n) ==> (#[trigger] pg_accounts[n]).name@ == n,
        forall|k: int|
            0 <= k < actions.len() ==> #[trigger] states[k].steps_to(
                replies[k],
                states[k + 1],
                actions[k],
            ),
        forall|k: int|
            0 <= k < actions.len() - 1 ==> #[trigger] answers(
                actions[k],
                replies[k + 1],
                keys,
                redis_origins,
                redis_members,
                pg_origins,
                pg_accounts,
                pgs[k],
                pgs[k + 1],
            ),
        actions.last() == Action::Finish,
    ensures
        forall|j: int|
            0 <= j < key_ids_spec(keys).len() ==> (#[trigger] key_ids_spec(keys)[j] matches Some(id)
                && origin_members_migrated(
                id,
                redis_origins,
                redis_members,
                pg_origins,
                pgs.last(),
            )),
        forall|k: int| 0 <= k < pgs.len() - 1 ==> (#[trigger] pgs[k]).subset_of(pgs[k + 1]),
{
    let n = actions.len() as int;
    lemma_run_invariant_at(
        n - 1,
        keys,
        redis_origins,
        redis_members,
        pg_origins,
        pg_accounts,
        states,
        replies,
        actions,
        pgs,
    );
    let k = n - 1;
    assert(states[k].steps_to(replies[k], states[k + 1], actions[k]));
    assert(k + 1 == n);
    lemma_finish_means_all_migrated(
        states[k],
        replies[k],
        keys,
        redis_origins,
        redis_members,
        pg_origins,
        pg_accounts,
        pgs[k],
        states[n],
    );
    let d = IdCursor { ids: states[n].cursor.ids, pos: 0 };
    assert forall|j: int| 0 <= j < key_ids_spec(keys).len() implies (#[trigger] key_ids_spec(
        keys,
    )[j] matches Some(id) && origin_members_migrated(
        id,
        redis_origins,
        redis_members,
        pg_origins,
        pgs.last(),
    )) by {
        assert(d.ids@[j] == key_ids_spec(keys)[j]);
    }
    assert forall|k: int| 0 <= k < pgs.len() - 1 implies (#[trigger] pgs[k]).subset_of(pgs[k + 1]) by {
        assert(answers(
            actions[k],
            replies[k + 1],
            keys,
            redis_origins,
            redis_members,
            pg_origins,
            pg_accounts,
            pgs[k],
            pgs[k + 1],
        ));
        lemma_answers_grow(
            actions[k],
            replies[k + 1],
            keys,
            redis_origins,
            redis_members,
            pg_origins,
            pg_accounts,
            pgs[k],
            pgs[k + 1],
        );
    }
}

} // verus!
