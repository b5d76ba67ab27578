//! Invitations: each invitation of a Redis origin is recreated in Postgres
//! between the Postgres accounts of the invitee and of the sender.
use vstd::prelude::*;
use crate::model::{Account, Origin, OriginInvitation, OriginInvitationCreate};
use crate::redis_extraction::{keys_pattern, keys_pattern_spec, key_ids_spec};
use crate::migrators::common::{
    Action, Failure, IdCursor, NextId, Reply, cursor_over_keys, empty_cursor, left, lex_lt,
    next_id, next_id_spec, remaining, lemma_next_id_progress,
};

verus! {

/// Where an invitation migration stands.
pub enum InvitationPhase {
    /// Waiting for `Reply::Start`, to list the origin keys.
    Begin,
    /// Waiting for the origin keys.
    ListingKeys,
    /// Waiting for the Redis origin of the current id.
    FetchingRedisOrigin,
    /// Waiting for the Postgres origin of the Redis origin's name.
    FetchingPgOrigin(Origin),
    /// Waiting for the invitations of the Redis origin; `Origin` is the
    /// Postgres one.
    ListingInvitations(Origin),
    /// Waiting for the Postgres account of the invitee of `invitations[index]`.
    FetchingInvitee { origin: Origin, invitations: Vec<OriginInvitation>, index: usize },
    /// Waiting for the Redis account that sent `invitations[index]`.
    FetchingRedisOwner {
        origin: Origin,
        invitations: Vec<OriginInvitation>,
        index: usize,
        invitee: Account,
    },
    /// Waiting for the Postgres account of the sender's name.
    FetchingPgOwner {
        origin: Origin,
        invitations: Vec<OriginInvitation>,
        index: usize,
        invitee: Account,
    },
    /// Waiting for the invitation to be written.
    Inviting { origin: Origin, invitations: Vec<OriginInvitation>, index: usize },
    /// Every id has been handled.
    Finished,
    /// The run stopped.
    Failed(Failure),
}

/// The invitation migration.
pub struct InvitationMigrator {
    pub phase: InvitationPhase,
    pub cursor: IdCursor,
}

/// The invitation request between a Postgres invitee, a Postgres origin and
/// the Postgres account of the sender.
pub open spec fn is_invitation_for(act: Action, invitee: Account, origin: Origin, owner: Account) -> bool {
    &&& act matches Action::CreateInvitation(oic)
    &&& oic.account_id == invitee.id
    &&& oic.account_name == invitee.name
    &&& oic.origin_id == origin.id
    &&& oic.origin_name == origin.name
    &&& oic.owner_id == owner.id
}

fn invitation_request(invitee: Account, origin: &Origin, owner: &Account) -> (act: Action)
    ensures
        is_invitation_for(act, invitee, *origin, *owner),
{
    Action::CreateInvitation(
        OriginInvitationCreate {
            account_id: invitee.id,
            account_name: invitee.name,
            origin_id: origin.id,
            origin_name: origin.name.clone(),
            owner_id: owner.id,
        },
    )
}

impl InvitationMigrator {
    /// The move to the next id, from `cursor`.
    pub open spec fn advances(cursor: IdCursor, post: Self, act: Action) -> bool {
        let (c, n) = next_id_spec(cursor);
        match n {
            NextId::Exhausted => post == (InvitationMigrator {
                phase: InvitationPhase::Finished,
                cursor: c,
            }) && act == Action::Finish,
            NextId::Malformed => Self::fails(c, Failure::MalformedKeyId, post, act),
            NextId::Id(id) => post == (InvitationMigrator {
                phase: InvitationPhase::FetchingRedisOrigin,
                cursor: c,
            }) && act == Action::FindRedisOrigin(id),
        }
    }

    /// Stopping for `f`.
    pub open spec fn fails(cursor: IdCursor, f: Failure, post: Self, act: Action) -> bool {
        post == (InvitationMigrator { phase: InvitationPhase::Failed(f), cursor }) && act
            == Action::Abort(f)
    }

    /// The move to invitation `index`, or past the origin when none is left.
    pub open spec fn visits(
        cursor: IdCursor,
        origin: Origin,
        invitations: Vec<OriginInvitation>,
        index: usize,
        post: Self,
        act: Action,
    ) -> bool {
        if index < invitations.len() {
            post == (InvitationMigrator {
                phase: InvitationPhase::FetchingInvitee { origin, invitations, index },
                cursor,
            }) && act == Action::GetPgAccount(invitations@[index as int].account_name)
        } else {
            Self::advances(cursor, post, act)
        }
    }

    /// One step: from `self`, on `reply`, the migration moves to `post` and asks
    /// for `act`.
    pub open spec fn steps_to(self, reply: Reply, post: Self, act: Action) -> bool {
        let bad = Self::fails(self.cursor, Failure::UnexpectedReply, post, act);
        match self.phase {
            InvitationPhase::Begin => match reply {
                Reply::Start => {
                    &&& post == (InvitationMigrator {
                        phase: InvitationPhase::ListingKeys,
                        cursor: self.cursor,
                    })
                    &&& act matches Action::ListRedisKeys(p)
                    &&& p@ == keys_pattern_spec("origin"@)
                },
                _ => bad,
            },
            InvitationPhase::ListingKeys => match reply {
                Reply::Keys(keys) => exists|c: IdCursor|
                    c.ids@ == key_ids_spec(keys.deep_view()) && c.pos == 0
                        && #[trigger] Self::advances(c, post, act),
                _ => bad,
            },
            InvitationPhase::FetchingRedisOrigin => match reply {
                Reply::RedisOrigin(o) => post == (InvitationMigrator {
                    phase: InvitationPhase::FetchingPgOrigin(o),
                    cursor: self.cursor,
                }) && act == Action::GetPgOrigin(o.name),
                _ => bad,
            },
            InvitationPhase::FetchingPgOrigin(redis_origin) => match reply {
                Reply::PgOrigin(None) => Self::fails(
                    self.cursor,
                    Failure::NoOriginInPostgres,
                    post,
                    act,
                ),
                Reply::PgOrigin(Some(o)) => post == (InvitationMigrator {
                    phase: InvitationPhase::ListingInvitations(o),
                    cursor: self.cursor,
                }) && act == Action::ListRedisInvitations(redis_origin.id),
                _ => bad,
            },
            InvitationPhase::ListingInvitations(origin) => match reply {
                Reply::Invitations(invitations) => Self::visits(
                    self.cursor,
                    origin,
                    invitations,
                    0,
                    post,
                    act,
                ),
                _ => bad,
            },
            InvitationPhase::FetchingInvitee { origin, invitations, index } => match reply {
                Reply::PgAccount(None) => Self::fails(
                    self.cursor,
                    Failure::NoInviteeAccount,
                    post,
                    act,
                ),
                Reply::PgAccount(Some(invitee)) => if index < invitations.len() {
                    post == (InvitationMigrator {
                        phase: InvitationPhase::FetchingRedisOwner {
                            origin,
                            invitations,
                            index,
                            invitee,
                        },
                        cursor: self.cursor,
                    }) && act == Action::FindRedisAccount(invitations@[index as int].owner_id)
                } else {
                    Self::advances(self.cursor, post, act)
                },
                _ => bad,
            },
            InvitationPhase::FetchingRedisOwner { origin, invitations, index, invitee } => match reply {
                Reply::RedisAccount(owner) => post == (InvitationMigrator {
                    phase: InvitationPhase::FetchingPgOwner { origin, invitations, index, invitee },
                    cursor: self.cursor,
                }) && act == Action::GetPgAccount(owner.name),
                _ => bad,
            },
            InvitationPhase::FetchingPgOwner { origin, invitations, index, invitee } => match reply {
                Reply::PgAccount(None) => Self::fails(self.cursor, Failure::NoOwnerAccount, post, act),
                Reply::PgAccount(Some(owner)) => post == (InvitationMigrator {
                    phase: InvitationPhase::Inviting { origin, invitations, index },
                    cursor: self.cursor,
                }) && is_invitation_for(act, invitee, origin, owner),
                _ => bad,
            },
            InvitationPhase::Inviting { origin, invitations, index } => match reply {
                Reply::Written => if index < invitations.len() {
                    Self::visits(self.cursor, origin, invitations, (index + 1) as usize, post, act)
                } else {
                    Self::advances(self.cursor, post, act)
                },
                _ => bad,
            },
            InvitationPhase::Finished => post == self && act == Action::Finish,
            InvitationPhase::Failed(f) => post == self && act == Action::Abort(f),
        }
    }

    /// The migration of the invitations of every origin
    /// (`InvitationMigrator::new(..).migrate()`).
    pub fn new() -> (m: Self)
        ensures
            m.phase == InvitationPhase::Begin,
            m.cursor.ids@.len() == 0,
            m.cursor.pos == 0,
    {
        InvitationMigrator { phase: InvitationPhase::Begin, cursor: empty_cursor() }
    }

    fn advance(cursor: IdCursor) -> (res: (Self, Action))
        ensures
            Self::advances(cursor, res.0, res.1),
    {
        let (c, n) = next_id(cursor);
        match n {
            NextId::Exhausted => (
                InvitationMigrator { phase: InvitationPhase::Finished, cursor: c },
                Action::Finish,
            ),
            NextId::Malformed => Self::fail(c, Failure::MalformedKeyId),
            NextId::Id(id) => (
                InvitationMigrator { phase: InvitationPhase::FetchingRedisOrigin, cursor: c },
                Action::FindRedisOrigin(id),
            ),
        }
    }

    fn fail(cursor: IdCursor, f: Failure) -> (res: (Self, Action))
        ensures
            Self::fails(cursor, f, res.0, res.1),
    {
        (InvitationMigrator { phase: InvitationPhase::Failed(f), cursor }, Action::Abort(f))
    }

    fn visit(cursor: IdCursor, origin: Origin, invitations: Vec<OriginInvitation>, index: usize) -> (res:
        (Self, Action))
        ensures
            Self::visits(cursor, origin, invitations, index, res.0, res.1),
    {
        if index < invitations.len() {
            let name = invitations[index].account_name.clone();
            (
                InvitationMigrator {
                    phase: InvitationPhase::FetchingInvitee { origin, invitations, index },
                    cursor,
                },
                Action::GetPgAccount(name),
            )
        } else {
            Self::advance(cursor)
        }
    }

    /// Takes one step on `reply`.
    pub fn step(self, reply: Reply) -> (res: (Self, Action))
        ensures
            self.steps_to(reply, res.0, res.1),
    {
        let InvitationMigrator { phase, cursor } = self;
        match phase {
            InvitationPhase::Begin => match reply {
                Reply::Start => {
                    let p = keys_pattern("origin");
                    proof {
                        reveal_strlit("origin");
                    }
                    (
                        InvitationMigrator { phase: InvitationPhase::ListingKeys, cursor },
                        Action::ListRedisKeys(p),
                    )
                },
                _ => Self::fail(cursor, Failure::UnexpectedReply),
            },
            InvitationPhase::ListingKeys => match reply {
                Reply::Keys(keys) => {
                    let c = cursor_over_keys(&keys);
                    let res = Self::advance(c);
                    assert(Self::advances(c, res.0, res.1));
                    res
                },
                _ => Self::fail(cursor, Failure::UnexpectedReply),
            },
            InvitationPhase::FetchingRedisOrigin => match reply {
                Reply::RedisOrigin(o) => {
                    let name = o.name.clone();
                    (
                        InvitationMigrator { phase: InvitationPhase::FetchingPgOrigin(o), cursor },
                        Action::GetPgOrigin(name),
                    )
                },
                _ => Self::fail(cursor, Failure::UnexpectedReply),
            },
            InvitationPhase::FetchingPgOrigin(redis_origin) => match reply {
                Reply::PgOrigin(None) => Self::fail(cursor, Failure::NoOriginInPostgres),
                Reply::PgOrigin(Some(o)) => (
                    InvitationMigrator { phase: InvitationPhase::ListingInvitations(o), cursor },
                    Action::ListRedisInvitations(redis_origin.id),
                ),
                _ => Self::fail(cursor, Failure::UnexpectedReply),
            },
            InvitationPhase::ListingInvitations(origin) => match reply {
                Reply::Invitations(invitations) => Self::visit(cursor, origin, invitations, 0),
                _ => Self::fail(cursor, Failure::UnexpectedReply),
            },
            InvitationPhase::FetchingInvitee { origin, invitations, index } => match reply {
                Reply::PgAccount(None) => Self::fail(cursor, Failure::NoInviteeAccount),
                Reply::PgAccount(Some(invitee)) => {
                    if index < invitations.len() {
                        let owner_id = invitations[index].owner_id;
                        (
                            InvitationMigrator {
                                phase: InvitationPhase::FetchingRedisOwner {
                                    origin,
                                    invitations,
                                    index,
                                    invitee,
                                },
                                cursor,
                            },
                            Action::FindRedisAccount(owner_id),
                        )
                    } else {
                        Self::advance(cursor)
                    }
                },
                _ => Self::fail(cursor, Failure::UnexpectedReply),
            },
            InvitationPhase::FetchingRedisOwner { origin, invitations, index, invitee } => match reply {
                Reply::RedisAccount(owner) => (
                    InvitationMigrator {
                        phase: InvitationPhase::FetchingPgOwner { origin, invitations, index, invitee },
                        cursor,
                    },
                    Action::GetPgAccount(owner.name),
                ),
                _ => Self::fail(cursor, Failure::UnexpectedReply),
            },
            InvitationPhase::FetchingPgOwner { origin, invitations, index, invitee } => match reply {
                Reply::PgAccount(None) => Self::fail(cursor, Failure::NoOwnerAccount),
                Reply::PgAccount(Some(owner)) => {
                    let act = invitation_request(invitee, &origin, &owner);
                    (
                        InvitationMigrator {
                            phase: InvitationPhase::Inviting { origin, invitations, index },
                            cursor,
                        },
                        act,
                    )
                },
                _ => Self::fail(cursor, Failure::UnexpectedReply),
            },
            InvitationPhase::Inviting { origin, invitations, index } => match reply {
                Reply::Written => {
                    if index < invitations.len() {
                        Self::visit(cursor, origin, invitations, index + 1)
                    } else {
                        Self::advance(cursor)
                    }
                },
                _ => Self::fail(cursor, Failure::UnexpectedReply),
            },
            InvitationPhase::Finished => (
                InvitationMigrator { phase: InvitationPhase::Finished, cursor },
                Action::Finish,
            ),
            InvitationPhase::Failed(f) => Self::fail(cursor, f),
        }
    }

    /// The run has ended, well or not.
    pub open spec fn ended(self) -> bool {
        self.phase is Finished || self.phase is Failed
    }

    /// How far the run is from its end (compared lexicographically).
    pub open spec fn rank(self) -> (nat, nat, nat, nat) {
        let r = remaining(self.cursor);
        match self.phase {
            InvitationPhase::Begin => (2, 0, 0, 0),
            InvitationPhase::ListingKeys => (1, 0, 0, 0),
            InvitationPhase::FetchingRedisOrigin => (0, r, 4, 0),
            InvitationPhase::FetchingPgOrigin(_) => (0, r, 3, 0),
            InvitationPhase::ListingInvitations(_) => (0, r, 2, 0),
            InvitationPhase::FetchingInvitee { invitations, index, .. } => (
                0,
                r,
                1,
                left(invitations.len(), index) * 4 + 4,
            ),
            InvitationPhase::FetchingRedisOwner { invitations, index, .. } => (
                0,
                r,
                1,
                left(invitations.len(), index) * 4 + 3,
            ),
            InvitationPhase::FetchingPgOwner { invitations, index, .. } => (
                0,
                r,
                1,
                left(invitations.len(), index) * 4 + 2,
            ),
            InvitationPhase::Inviting { invitations, index, .. } => (
                0,
                r,
                1,
                left(invitations.len(), index) * 4 + 1,
            ),
            InvitationPhase::Finished => (0, r, 0, 0),
            InvitationPhase::Failed(_) => (0, r, 0, 0),
        }
    }
}

proof fn lemma_advances_rank(c: IdCursor, post: InvitationMigrator, act: Action)
    requires
        InvitationMigrator::advances(c, post, act),
    ensures
        post.rank().0 == 0,
        remaining(c) == 0 ==> post.rank() == (0nat, 0nat, 0nat, 0nat),
        remaining(c) > 0 ==> post.rank().1 < remaining(c),
{
    lemma_next_id_progress(c);
}

/// Law: an invitation is written only once the Postgres accounts of both the
/// invitee and the sender were found, and it joins the invitee to the
/// Postgres origin, sent by the sender's Postgres account.
pub proof fn law_invitation_between_found_accounts(
    m: InvitationMigrator,
    reply: Reply,
    post: InvitationMigrator,
    act: Action,
)
    requires
        m.steps_to(reply, post, act),
        act is CreateInvitation,
    ensures
        m.phase matches InvitationPhase::FetchingPgOwner { origin, invitee, .. }
            && reply matches Reply::PgAccount(Some(owner))
            && is_invitation_for(act, invitee, origin, owner),
{
    if let InvitationPhase::ListingKeys = m.phase {
        if let Reply::Keys(keys) = reply {
            let c = choose|c: IdCursor|
                c.ids@ == key_ids_spec(keys.deep_view()) && c.pos == 0
                    && #[trigger] InvitationMigrator::advances(c, post, act);
        }
    }
}

/// Law: a run that has ended stays where it is and repeats its last word.
pub proof fn law_invitation_ended_run_stays(
    m: InvitationMigrator,
    reply: Reply,
    post: InvitationMigrator,
    act: Action,
)
    requires
        m.steps_to(reply, post, act),
        m.ended(),
    ensures
        post == m,
{
}

/// Law: every step of a run that has not ended brings it closer to its end.
pub proof fn law_invitation_run_progresses(
    m: InvitationMigrator,
    reply: Reply,
    post: InvitationMigrator,
    act: Action,
)
    requires
        m.steps_to(reply, post, act),
        !m.ended(),
    ensures
        lex_lt(post.rank(), m.rank()),
{
    if let InvitationPhase::ListingKeys = m.phase {
        if let Reply::Keys(keys) = reply {
            let c = choose|c: IdCursor|
                c.ids@ == key_ids_spec(keys.deep_view()) && c.pos == 0
                    && #[trigger] InvitationMigrator::advances(c, post, act);
            lemma_advances_rank(c, post, act);
        }
    } else if InvitationMigrator::advances(m.cursor, post, act) {
        lemma_advances_rank(m.cursor, post, act);
    }
}

/// The Redis data and the Postgres lookups that the invitation migration
/// reads: the key list, the origins, invitations (by origin id) and accounts
/// of Redis by id, and the origins and accounts of Postgres by name.
pub struct InvitationStores {
    pub keys: Seq<Seq<char>>,
    pub redis_origins: Map<u64, Origin>,
    pub redis_invitations: Map<u64, Seq<OriginInvitation>>,
    pub redis_accounts: Map<u64, Account>,
    pub pg_origins: Map<Seq<char>, Origin>,
    pub pg_accounts: Map<Seq<char>, Account>,
}

impl InvitationStores {
    /// The Postgres account of this name, if there is one.
    pub open spec fn pg_account(self, name: Seq<char>) -> Option<Account> {
        if self.pg_accounts.contains_key(name) {
            Some(self.pg_accounts[name])
        } else {
            None
        }
    }

    /// The Postgres origin of this name, if there is one.
    pub open spec fn pg_origin(self, name: Seq<char>) -> Option<Origin> {
        if self.pg_origins.contains_key(name) {
            Some(self.pg_origins[name])
        } else {
            None
        }
    }

    /// The stores answer `act` with `reply`; the invitation records Postgres
    /// holds go from `pg` to `pg_after`.
    pub open spec fn answers(
        self,
        act: Action,
        reply: Reply,
        pg: Set<OriginInvitationCreate>,
        pg_after: Set<OriginInvitationCreate>,
    ) -> bool {
        match act {
            Action::ListRedisKeys(_) => reply matches Reply::Keys(k) && k.deep_view() == self.keys
                && pg_after == pg,
            Action::FindRedisOrigin(id) => self.redis_origins.contains_key(id) && reply
                == Reply::RedisOrigin(self.redis_origins[id]) && pg_after == pg,
            Action::FindRedisAccount(id) => self.redis_accounts.contains_key(id) && reply
                == Reply::RedisAccount(self.redis_accounts[id]) && pg_after == pg,
            Action::ListRedisInvitations(id) => {
                &&& self.redis_invitations.contains_key(id)
                &&& reply matches Reply::Invitations(v)
                &&& v@ == self.redis_invitations[id]
                &&& pg_after == pg
            },
            Action::GetPgOrigin(name) => reply == Reply::PgOrigin(self.pg_origin(name@)) && pg_after
                == pg,
            Action::GetPgAccount(name) => reply == Reply::PgAccount(self.pg_account(name@))
                && pg_after == pg,
            Action::CreateInvitation(oic) => reply == Reply::Written && pg_after == pg.insert(oic),
            _ => false,
        }
    }

    /// The record of invitation `inv` in the Postgres origin `origin`: the
    /// Postgres account of the invitee's name, the origin's id and name, and
    /// the id of the Postgres account that bears the name of the Redis sender.
    pub open spec fn invitation_record(self, origin: Origin, inv: OriginInvitation) -> OriginInvitationCreate {
        let invitee = self.pg_accounts[inv.account_name@];
        let owner = self.pg_accounts[self.redis_accounts[inv.owner_id].name@];
        OriginInvitationCreate {
            account_id: invitee.id,
            account_name: invitee.name,
            origin_id: origin.id,
            origin_name: origin.name,
            owner_id: owner.id,
        }
    }

    /// Postgres holds the record of invitation `inv` in origin `origin`.
    pub open spec fn invitation_migrated(
        self,
        origin: Origin,
        inv: OriginInvitation,
        pg: Set<OriginInvitationCreate>,
    ) -> bool {
        &&& self.pg_accounts.contains_key(inv.account_name@)
        &&& self.redis_accounts.contains_key(inv.owner_id)
        &&& self.pg_accounts.contains_key(self.redis_accounts[inv.owner_id].name@)
        &&& pg.contains(self.invitation_record(origin, inv))
    }

    /// The first `k` invitations are held in origin `origin`.
    pub open spec fn invitations_added(
        self,
        origin: Origin,
        invs: Seq<OriginInvitation>,
        k: int,
        pg: Set<OriginInvitationCreate>,
    ) -> bool {
        forall|j: int| 0 <= j < k ==> self.invitation_migrated(origin, #[trigger] invs[j], pg)
    }

    /// Every invitation of Redis origin `id` is held in the Postgres origin of
    /// the same name.
    pub open spec fn origin_migrated(self, id: u64, pg: Set<OriginInvitationCreate>) -> bool {
        &&& self.redis_origins.contains_key(id)
        &&& self.redis_invitations.contains_key(self.redis_origins[id].id)
        &&& self.pg_origins.contains_key(self.redis_origins[id].name@)
        &&& self.invitations_added(
            self.pg_origins[self.redis_origins[id].name@],
            self.redis_invitations[self.redis_origins[id].id],
            self.redis_invitations[self.redis_origins[id].id].len() as int,
            pg,
        )
    }

    /// The first `k` ids of the walk are ids of Redis origins whose
    /// invitations are all held.
    pub open spec fn migrated_before(self, c: IdCursor, k: int, pg: Set<OriginInvitationCreate>) -> bool {
        forall|j: int|
            0 <= j < k ==> (#[trigger] c.ids@[j] matches Some(id) && self.origin_migrated(id, pg))
    }

    /// `origin` and `invitations` are the Postgres origin and the Redis
    /// invitations of the Redis origin `current`.
    pub open spec fn working_on(
        self,
        current: Option<u64>,
        origin: Origin,
        invitations: Vec<OriginInvitation>,
    ) -> bool {
        &&& current matches Some(id)
        &&& self.redis_origins.contains_key(id)
        &&& self.redis_invitations.contains_key(self.redis_origins[id].id)
        &&& self.pg_origins.contains_key(self.redis_origins[id].name@)
        &&& origin == self.pg_origins[self.redis_origins[id].name@]
        &&& invitations@ == self.redis_invitations[self.redis_origins[id].id]
    }

    /// What holds of a faithful run of the whole invitation migration when it
    /// is in state `m`, about to receive `reply`, with Postgres holding the
    /// invitations `pg`.
    pub open spec fn run_invariant(
        self,
        m: InvitationMigrator,
        reply: Reply,
        pg: Set<OriginInvitationCreate>,
    ) -> bool {
        let c = m.cursor;
        let walking = c.ids@ == key_ids_spec(self.keys) && 1 <= c.pos <= c.ids@.len();
        let current = c.ids@[c.pos - 1];
        let before = self.migrated_before(c, c.pos - 1, pg);
        match m.phase {
            InvitationPhase::Begin => reply == Reply::Start,
            InvitationPhase::ListingKeys => reply matches Reply::Keys(k) && k.deep_view() == self.keys,
            InvitationPhase::FetchingRedisOrigin => {
                &&& walking
                &&& before
                &&& current matches Some(id)
                &&& self.redis_origins.contains_key(id)
                &&& reply == Reply::RedisOrigin(self.redis_origins[id])
            },
            InvitationPhase::FetchingPgOrigin(o) => {
                &&& walking
                &&& before
                &&& current matches Some(id)
                &&& self.redis_origins.contains_key(id)
                &&& o == self.redis_origins[id]
                &&& reply == Reply::PgOrigin(self.pg_origin(o.name@))
            },
            InvitationPhase::ListingInvitations(origin) => {
                &&& walking
                &&& before
                &&& current matches Some(id)
                &&& self.redis_origins.contains_key(id)
                &&& self.pg_origins.contains_key(self.redis_origins[id].name@)
                &&& origin == self.pg_origins[self.redis_origins[id].name@]
                &&& self.redis_invitations.contains_key(self.redis_origins[id].id)
                &&& reply matches Reply::Invitations(v)
                &&& v@ == self.redis_invitations[self.redis_origins[id].id]
            },
            InvitationPhase::FetchingInvitee { origin, invitations, index } => {
                &&& walking
                &&& before
                &&& self.working_on(current, origin, invitations)
                &&& index < invitations.len()
                &&& self.invitations_added(origin, invitations@, index as int, pg)
                &&& reply == Reply::PgAccount(self.pg_account(invitations@[index as int].account_name@))
            },
            InvitationPhase::FetchingRedisOwner { origin, invitations, index, invitee } => {
                &&& walking
                &&& before
                &&& self.working_on(current, origin, invitations)
                &&& index < invitations.len()
                &&& self.invitations_added(origin, invitations@, index as int, pg)
                &&& self.pg_account(invitations@[index as int].account_name@) == Some(invitee)
                &&& self.redis_accounts.contains_key(invitations@[index as int].owner_id)
                &&& reply == Reply::RedisAccount(
                    self.redis_accounts[invitations@[index as int].owner_id],
                )
            },
            InvitationPhase::FetchingPgOwner { origin, invitations, index, invitee } => {
                &&& walking
                &&& before
                &&& self.working_on(current, origin, invitations)
                &&& index < invitations.len()
                &&& self.invitations_added(origin, invitations@, index as int, pg)
                &&& self.pg_account(invitations@[index as int].account_name@) == Some(invitee)
                &&& self.redis_accounts.contains_key(invitations@[index as int].owner_id)
                &&& reply == Reply::PgAccount(
                    self.pg_account(
                        self.redis_accounts[invitations@[index as int].owner_id].name@,
                    ),
                )
            },
            InvitationPhase::Inviting { origin, invitations, index } => {
                &&& walking
                &&& before
                &&& self.working_on(current, origin, invitations)
                &&& index < invitations.len()
                &&& self.invitations_added(origin, invitations@, index + 1, pg)
                &&& reply == Reply::Written
            },
            _ => false,
        }
    }
}

proof fn lemma_answers_grow(
    st: InvitationStores,
    act: Action,
    reply: Reply,
    pg: Set<OriginInvitationCreate>,
    pg2: Set<OriginInvitationCreate>,
)
    requires
        st.answers(act, reply, pg, pg2),
    ensures
        pg.subset_of(pg2),
{
}

proof fn lemma_migrated_before_grows(
    st: InvitationStores,
    c: IdCursor,
    k: int,
    pg: Set<OriginInvitationCreate>,
    pg2: Set<OriginInvitationCreate>,
)
    requires
        st.migrated_before(c, k, pg),
        pg.subset_of(pg2),
    ensures
        st.migrated_before(c, k, pg2),
{
    assert forall|j: int| 0 <= j < k implies (#[trigger] c.ids@[j] matches Some(id)
        && st.origin_migrated(id, pg2)) by {
        if let Some(id) = c.ids@[j] {
            assert(st.origin_migrated(id, pg));
            let invs = st.redis_invitations[st.redis_origins[id].id];
            let po = st.pg_origins[st.redis_origins[id].name@];
            assert forall|i: int| 0 <= i < invs.len() implies st.invitation_migrated(
                po,
                #[trigger] invs[i],
                pg2,
            ) by {
                assert(st.invitation_migrated(po, invs[i], pg));
            }
        }
    }
}

proof fn lemma_current_done(
    st: InvitationStores,
    c: IdCursor,
    origin: Origin,
    invitations: Vec<OriginInvitation>,
    pg: Set<OriginInvitationCreate>,
)
    requires
        1 <= c.pos <= c.ids@.len(),
        st.migrated_before(c, c.pos - 1, pg),
        st.working_on(c.ids@[c.pos - 1], origin, invitations),
        st.invitations_added(origin, invitations@, invitations.len() as int, pg),
    ensures
        st.migrated_before(c, c.pos as int, pg),
{
    assert forall|j: int| 0 <= j < c.pos implies (#[trigger] c.ids@[j] matches Some(id)
        && st.origin_migrated(id, pg)) by {
        if j < c.pos - 1 {
        }
    }
}

proof fn lemma_advance_keeps_invariant(
    st: InvitationStores,
    c: IdCursor,
    pg: Set<OriginInvitationCreate>,
    post: InvitationMigrator,
    act: Action,
    reply2: Reply,
    pg2: Set<OriginInvitationCreate>,
)
    requires
        c.ids@ == key_ids_spec(st.keys),
        c.pos <= c.ids@.len(),
        st.migrated_before(c, c.pos as int, pg),
        InvitationMigrator::advances(c, post, act),
        st.answers(act, reply2, pg, pg2),
    ensures
        st.run_invariant(post, reply2, pg2),
{
    let (c2, n) = next_id_spec(c);
    if let NextId::Id(id) = n {
        assert(c2.pos == c.pos + 1);
        assert(st.migrated_before(c2, c2.pos - 1, pg2));
    }
}

proof fn lemma_visit_keeps_invariant(
    st: InvitationStores,
    c: IdCursor,
    origin: Origin,
    invitations: Vec<OriginInvitation>,
    index: usize,
    pg: Set<OriginInvitationCreate>,
    post: InvitationMigrator,
    act: Action,
    reply2: Reply,
    pg2: Set<OriginInvitationCreate>,
)
    requires
        c.ids@ == key_ids_spec(st.keys),
        1 <= c.pos <= c.ids@.len(),
        st.migrated_before(c, c.pos - 1, pg),
        st.working_on(c.ids@[c.pos - 1], origin, invitations),
        index <= invitations.len(),
        st.invitations_added(origin, invitations@, index as int, pg),
        InvitationMigrator::visits(c, origin, invitations, index, post, act),
        st.answers(act, reply2, pg, pg2),
    ensures
        st.run_invariant(post, reply2, pg2),
{
    if index < invitations.len() {
        assert(pg2 == pg);
    } else {
        lemma_current_done(st, c, origin, invitations, pg);
        lemma_advance_keeps_invariant(st, c, pg, post, act, reply2, pg2);
    }
}

proof fn lemma_step_keeps_invariant(
    st: InvitationStores,
    m: InvitationMigrator,
    reply: Reply,
    pg: Set<OriginInvitationCreate>,
    post: InvitationMigrator,
    act: Action,
    reply2: Reply,
    pg2: Set<OriginInvitationCreate>,
)
    requires
        st.run_invariant(m, reply, pg),
        m.steps_to(reply, post, act),
        st.answers(act, reply2, pg, pg2),
    ensures
        st.run_invariant(post, reply2, pg2),
{
    let c = m.cursor;
    match m.phase {
        InvitationPhase::ListingKeys => {
            if let Reply::Keys(k) = reply {
                let c0 = choose|c0: IdCursor|
                    c0.ids@ == key_ids_spec(k.deep_view()) && c0.pos == 0
                        && #[trigger] InvitationMigrator::advances(c0, post, act);
                lemma_advance_keeps_invariant(st, c0, pg, post, act, reply2, pg2);
            }
        },
        InvitationPhase::ListingInvitations(origin) => {
            if let Reply::Invitations(invitations) = reply {
                lemma_visit_keeps_invariant(st, c, origin, invitations, 0, pg, post, act, reply2, pg2);
            }
        },
        InvitationPhase::FetchingPgOwner { origin, invitations, index, invitee } => {
            if let Reply::PgAccount(Some(owner)) = reply {
                let inv = invitations@[index as int];
                assert(invitee == st.pg_accounts[inv.account_name@]);
                assert(owner == st.pg_accounts[st.redis_accounts[inv.owner_id].name@]);
                assert(act == Action::CreateInvitation(st.invitation_record(origin, inv)));
                assert(pg2 == pg.insert(st.invitation_record(origin, inv)));
                lemma_migrated_before_grows(st, c, c.pos - 1, pg, pg2);
                assert(st.invitations_added(origin, invitations@, index + 1, pg2)) by {
                    assert forall|j: int| 0 <= j < index + 1 implies st.invitation_migrated(
                        origin,
                        #[trigger] invitations@[j],
                        pg2,
                    ) by {
                        if j < index {
                            assert(st.invitation_migrated(origin, invitations@[j], pg));
                        }
                    }
                }
            }
        },
        InvitationPhase::Inviting { origin, invitations, index } => {
            if let Reply::Written = reply {
                lemma_visit_keeps_invariant(
                    st,
                    c,
                    origin,
                    invitations,
                    (index + 1) as usize,
                    pg,
                    post,
                    act,
                    reply2,
                    pg2,
                );
            }
        },
        _ => {},
    }
}

proof fn lemma_advance_to_finish(
    st: InvitationStores,
    c: IdCursor,
    pg: Set<OriginInvitationCreate>,
    post: InvitationMigrator,
)
    requires
        c.pos <= c.ids@.len(),
        st.migrated_before(c, c.pos as int, pg),
        InvitationMigrator::advances(c, post, Action::Finish),
    ensures
        post.cursor.ids == c.ids,
        st.migrated_before(IdCursor { ids: post.cursor.ids, pos: 0 }, c.ids@.len() as int, pg),
{
    let d = IdCursor { ids: post.cursor.ids, pos: 0 };
    assert forall|j: int| 0 <= j < c.ids@.len() implies (#[trigger] d.ids@[j] matches Some(id)
        && st.origin_migrated(id, pg)) by {
        assert(d.ids@[j] == c.ids@[j]);
    }
}

proof fn lemma_finish_means_all_migrated(
    st: InvitationStores,
    m: InvitationMigrator,
    reply: Reply,
    pg: Set<OriginInvitationCreate>,
    post: InvitationMigrator,
)
    requires
        st.run_invariant(m, reply, pg),
        m.steps_to(reply, post, Action::Finish),
    ensures
        post.cursor.ids@ == key_ids_spec(st.keys),
        st.migrated_before(
            IdCursor { ids: post.cursor.ids, pos: 0 },
            key_ids_spec(st.keys).len() as int,
            pg,
        ),
{
    let c = m.cursor;
    match m.phase {
        InvitationPhase::ListingKeys => {
            if let Reply::Keys(k) = reply {
                let c0 = choose|c0: IdCursor|
                    c0.ids@ == key_ids_spec(k.deep_view()) && c0.pos == 0
                        && #[trigger] InvitationMigrator::advances(c0, post, Action::Finish);
                lemma_advance_to_finish(st, c0, pg, post);
            }
        },
        InvitationPhase::ListingInvitations(origin) => {
            if let Reply::Invitations(invitations) = reply {
                lemma_current_done(st, c, origin, invitations, pg);
                lemma_advance_to_finish(st, c, pg, post);
            }
        },
        InvitationPhase::Inviting { origin, invitations, index } => {
            lemma_current_done(st, c, origin, invitations, pg);
            lemma_advance_to_finish(st, c, pg, post);
        },
        _ => {},
    }
}

proof fn lemma_run_invariant_at(
    st: InvitationStores,
    i: int,
    states: Seq<InvitationMigrator>,
    replies: Seq<Reply>,
    actions: Seq<Action>,
    pgs: Seq<Set<OriginInvitationCreate>>,
)
    requires
        0 <= i < actions.len(),
        states.len() == actions.len() + 1,
        replies.len() == actions.len(),
        pgs.len() == actions.len(),
        states[0].phase == InvitationPhase::Begin,
        replies[0] == Reply::Start,
        forall|k: int|
            0 <= k < actions.len() ==> #[trigger] states[k].steps_to(
                replies[k],
                states[k + 1],
                actions[k],
            ),
        forall|k: int|
            0 <= k < actions.len() - 1 ==> #[trigger] st.answers(
                actions[k],
                replies[k + 1],
                pgs[k],
                pgs[k + 1],
            ),
    ensures
        st.run_invariant(states[i], replies[i], pgs[i]),
    decreases i,
{
    if i > 0 {
        lemma_run_invariant_at(st, i - 1, states, replies, actions, pgs);
        let k = i - 1;
        assert(states[k].steps_to(replies[k], states[k + 1], actions[k]));
        assert(st.answers(actions[k], replies[k + 1], pgs[k], pgs[k + 1]));
        assert(k + 1 == i);
        lemma_step_keeps_invariant(
            st,
            states[k],
            replies[k],
            pgs[k],
            states[i],
            actions[k],
            replies[i],
            pgs[i],
        );
    }
}

/// Law: a run of the whole invitation migration against stores that answer
/// faithfully, from its start to `Finish`, leaves Postgres holding, for every
/// invitation of every Redis origin whose id the origin keys carry, the record
/// made of the Postgres account of the invitee's name (its id and name), the
/// Postgres origin of the same name (its id and name) and the id of the
/// Postgres account that bears the name of the Redis sender; and Postgres only
/// ever gains invitations along the way.
///
/// `states[k]` takes `replies[k]` and moves to `states[k + 1]`, asking for
/// `actions[k]`; `pgs[k]` holds the invitation records that Postgres knows
/// when `replies[k]` arrives.
pub proof fn law_invitation_run_migrates_every_invitation(
    st: InvitationStores,
    states: Seq<InvitationMigrator>,
    replies: Seq<Reply>,
    actions: Seq<Action>,
    pgs: Seq<Set<OriginInvitationCreate>>,
)
    requires
        actions.len() > 0,
        states.len() == actions.len() + 1,
        replies.len() == actions.len(),
        pgs.len() == actions.len(),
        states[0].phase == InvitationPhase::Begin,
        replies[0] == Reply::Start,
        forall|k: int|
            0 <= k < actions.len() ==> #[trigger] states[k].steps_to(
                replies[k],
                states[k + 1],
                actions[k],
            ),
        forall|k: int|
            0 <= k < actions.len() - 1 ==> #[trigger] st.answers(
                actions[k],
                replies[k + 1],
                pgs[k],
                pgs[k + 1],
            ),
        actions.last() == Action::Finish,
    ensures
        forall|j: int|
            0 <= j < key_ids_spec(st.keys).len() ==> (#[trigger] key_ids_spec(st.keys)[j] matches Some(
                id,
            ) && st.origin_migrated(id, pgs.last())),
        forall|k: int| 0 <= k < pgs.len() - 1 ==> (#[trigger] pgs[k]).subset_of(pgs[k + 1]),
{
    let n = actions.len() as int;
    lemma_run_invariant_at(st, n - 1, states, replies, actions, pgs);
    let k = n - 1;
    assert(states[k].steps_to(replies[k], states[k + 1], actions[k]));
    assert(k + 1 == n);
    lemma_finish_means_all_migrated(st, states[k], replies[k], pgs[k], states[n]);
    let d = IdCursor { ids: states[n].cursor.ids, pos: 0 };
    assert forall|j: int| 0 <= j < key_ids_spec(st.keys).len() implies (#[trigger] key_ids_spec(
        st.keys,
    )[j] matches Some(id) && st.origin_migrated(id, pgs.last())) by {
        assert(d.ids@[j] == key_ids_spec(st.keys)[j]);
    }
    assert forall|k: int| 0 <= k < pgs.len() - 1 implies (#[trigger] pgs[k]).subset_of(pgs[k + 1]) by {
        assert(st.answers(actions[k], replies[k + 1], pgs[k], pgs[k + 1]));
        lemma_answers_grow(st, actions[k], replies[k + 1], pgs[k], pgs[k + 1]);
    }
}

impl InvitationStores {
    /// Every key carries a readable id; every Redis origin of those ids has a
    /// Postgres origin of the same name; and for each of its invitations the
    /// invitee's name and the Redis sender's name are Postgres accounts.
    pub open spec fn complete(self) -> bool {
        forall|j: int|
            0 <= j < key_ids_spec(self.keys).len() ==> (#[trigger] key_ids_spec(self.keys)[j] matches Some(
                id,
            ) && (self.redis_origins.contains_key(id) ==> self.origin_complete(self.redis_origins[id])))
    }

    /// The Redis origin `o` has a Postgres origin of its name, and each of its
    /// invitations names a Postgres invitee and a sender who is a Postgres
    /// account.
    pub open spec fn origin_complete(self, o: Origin) -> bool {
        &&& self.pg_origins.contains_key(o.name@)
        &&& self.redis_invitations.contains_key(o.id) ==> forall|i: int|
            0 <= i < self.redis_invitations[o.id].len() ==> self.invitation_complete(
                #[trigger] self.redis_invitations[o.id][i],
            )
    }

    /// The invitee of `inv` is a Postgres account, and so is its sender,
    /// where Redis knows the sender.
    pub open spec fn invitation_complete(self, inv: OriginInvitation) -> bool {
        &&& self.pg_accounts.contains_key(inv.account_name@)
        &&& self.redis_accounts.contains_key(inv.owner_id) ==> self.pg_accounts.contains_key(
            self.redis_accounts[inv.owner_id].name@,
        )
    }
}

proof fn lemma_advance_no_abort(st: InvitationStores, c: IdCursor, post: InvitationMigrator, act: Action)
    requires
        c.ids@ == key_ids_spec(st.keys),
        c.pos <= c.ids@.len(),
        st.complete(),
        InvitationMigrator::advances(c, post, act),
    ensures
        !(act is Abort),
{
    if c.pos < c.ids@.len() {
        assert(key_ids_spec(st.keys)[c.pos as int] == c.ids@[c.pos as int]);
    }
}

proof fn lemma_step_no_abort(
    st: InvitationStores,
    m: InvitationMigrator,
    reply: Reply,
    pg: Set<OriginInvitationCreate>,
    post: InvitationMigrator,
    act: Action,
)
    requires
        st.run_invariant(m, reply, pg),
        m.steps_to(reply, post, act),
        st.complete(),
    ensures
        !(act is Abort),
{
    let c = m.cursor;
    match m.phase {
        InvitationPhase::Begin => {},
        InvitationPhase::ListingKeys => {
            if let Reply::Keys(k) = reply {
                let c0 = choose|c0: IdCursor|
                    c0.ids@ == key_ids_spec(k.deep_view()) && c0.pos == 0
                        && #[trigger] InvitationMigrator::advances(c0, post, act);
                lemma_advance_no_abort(st, c0, post, act);
            }
        },
        InvitationPhase::FetchingPgOrigin(o) => {
            let j = c.pos - 1;
            assert(key_ids_spec(st.keys)[j] == c.ids@[j]);
        },
        InvitationPhase::FetchingInvitee { origin, invitations, index } => {
            let j = c.pos - 1;
            assert(key_ids_spec(st.keys)[j] == c.ids@[j]);
            assert(st.invitation_complete(invitations@[index as int]));
        },
        InvitationPhase::FetchingPgOwner { origin, invitations, index, invitee } => {
            let j = c.pos - 1;
            assert(key_ids_spec(st.keys)[j] == c.ids@[j]);
            assert(st.invitation_complete(invitations@[index as int]));
        },
        _ => {
            if InvitationMigrator::advances(c, post, act) {
                lemma_advance_no_abort(st, c, post, act);
            }
        },
    }
}

/// Law: a run of the invitation migration against stores that answer
/// faithfully, in which every key carries a readable id, every Redis origin
/// has a Postgres origin of the same name, and every invitee and sender is a
/// Postgres account, never aborts: an origin without invitations is passed
/// over like any other, and (every run ending, by
/// `law_invitation_run_progresses`) the run ends at `Finish`.
pub proof fn law_invitation_complete_run_never_aborts(
    st: InvitationStores,
    states: Seq<InvitationMigrator>,
    replies: Seq<Reply>,
    actions: Seq<Action>,
    pgs: Seq<Set<OriginInvitationCreate>>,
)
    requires
        actions.len() > 0,
        states.len() == actions.len() + 1,
        replies.len() == actions.len(),
        pgs.len() == actions.len(),
        states[0].phase == InvitationPhase::Begin,
        replies[0] == Reply::Start,
        st.complete(),
        forall|k: int|
            0 <= k < actions.len() ==> #[trigger] states[k].steps_to(
                replies[k],
                states[k + 1],
                actions[k],
            ),
        forall|k: int|
            0 <= k < actions.len() - 1 ==> #[trigger] st.answers(
                actions[k],
                replies[k + 1],
                pgs[k],
                pgs[k + 1],
            ),
    ensures
        forall|k: int| 0 <= k < actions.len() ==> !(#[trigger] actions[k] is Abort),
{
    assert forall|k: int| 0 <= k < actions.len() implies !(#[trigger] actions[k] is Abort) by {
        lemma_run_invariant_at(st, k, states, replies, actions, pgs);
        assert(states[k].steps_to(replies[k], states[k + 1], actions[k]));
        lemma_step_no_abort(st, states[k], replies[k], pgs[k], states[k + 1], actions[k]);
    }
}

} // verus!
