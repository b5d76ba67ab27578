//! Public keys of every origin: for each Redis origin, its public keys are
//! handed to an origin-key migration.
use vstd::prelude::*;
use crate::model::Origin;
use crate::redis_extraction::{keys_pattern, keys_pattern_spec, key_ids_spec};
use crate::migrators::common::{
    Action, Failure, IdCursor, NextId, Reply, cursor_over_keys, empty_cursor, lex_lt, next_id,
    next_id_spec, remaining, lemma_next_id_progress,
};
use crate::migrators::origin_key::{
    OriginKeyMigrator, OriginKeyPhase, key_answers, key_run_invariant, keys_held,
    keys_held_when_asked, keys_migrated, keys_of_origin, origins_by_name, records_key_ask,
    law_public_key_ended_run_stays, law_public_key_run_progresses,
    lemma_key_finish_means_migrated, lemma_key_step_keeps_invariant,
    lemma_keys_held_grows, lemma_keys_held_when_asked_grows,
};
use crate::model::OriginKeyIdent;

verus! {

/// Where the migration of all public keys stands.
pub enum PublicKeysPhase {
    /// Waiting for `Reply::Start`, to list the origin keys.
    Begin,
    /// Waiting for the origin keys.
    ListingKeys,
    /// Waiting for the Redis origin of the current id.
    FetchingRedisOrigin,
    /// Waiting for the public keys of the Redis origin.
    ListingOriginKeys(Origin),
    /// The public keys of the current origin are being migrated.
    Migrating(OriginKeyMigrator),
    /// Every id has been handled.
    Finished,
    /// The run stopped.
    Failed(Failure),
}

/// The migration of the public keys of every origin.
pub struct PublicKeysMigration {
    pub phase: PublicKeysPhase,
    pub cursor: IdCursor,
}

impl PublicKeysMigration {
    /// The move to the next id, from `cursor`.
    pub open spec fn advances(cursor: IdCursor, post: Self, act: Action) -> bool {
        let (c, n) = next_id_spec(cursor);
        match n {
            NextId::Exhausted => post == (PublicKeysMigration {
                phase: PublicKeysPhase::Finished,
                cursor: c,
            }) && act == Action::Finish,
            NextId::Malformed => Self::fails(c, Failure::MalformedKeyId, post, act),
            NextId::Id(id) => post == (PublicKeysMigration {
                phase: PublicKeysPhase::FetchingRedisOrigin,
                cursor: c,
            }) && act == Action::FindRedisOrigin(id),
        }
    }

    /// Stopping for `f`.
    pub open spec fn fails(cursor: IdCursor, f: Failure, post: Self, act: Action) -> bool {
        post == (PublicKeysMigration { phase: PublicKeysPhase::Failed(f), cursor }) && act
            == Action::Abort(f)
    }

    /// What the origin-key migration's step (to `sub`, asking `sub_act`)
    /// means for the whole: its end moves on to the next origin, its stop
    /// stops the whole, and any other action is passed on.
    pub open spec fn follows(cursor: IdCursor, sub: OriginKeyMigrator, sub_act: Action, post: Self, act: Action) -> bool {
        match sub_act {
            Action::Finish => Self::advances(cursor, post, act),
            Action::Abort(f) => Self::fails(cursor, f, post, act),
            _ => post == (PublicKeysMigration { phase: PublicKeysPhase::Migrating(sub), cursor })
                && act == sub_act,
        }
    }

    /// One step: from `self`, on `reply`, the migration moves to `post` and asks
    /// for `act`.
    pub open spec fn steps_to(self, reply: Reply, post: Self, act: Action) -> bool {
        let bad = Self::fails(self.cursor, Failure::UnexpectedReply, post, act);
        match self.phase {
            PublicKeysPhase::Begin => match reply {
                Reply::Start => {
                    &&& post == (PublicKeysMigration {
                        phase: PublicKeysPhase::ListingKeys,
                        cursor: self.cursor,
                    })
                    &&& act matches Action::ListRedisKeys(p)
                    &&& p@ == keys_pattern_spec("origin"@)
                },
                _ => bad,
            },
            PublicKeysPhase::ListingKeys => match reply {
                Reply::Keys(keys) => exists|c: IdCursor|
                    c.ids@ == key_ids_spec(keys.deep_view()) && c.pos == 0
                        && #[trigger] Self::advances(c, post, act),
                _ => bad,
            },
            PublicKeysPhase::FetchingRedisOrigin => match reply {
                Reply::RedisOrigin(o) => post == (PublicKeysMigration {
                    phase: PublicKeysPhase::ListingOriginKeys(o),
                    cursor: self.cursor,
                }) && act == Action::ListRedisOriginKeys(o.name),
                _ => bad,
            },
            PublicKeysPhase::ListingOriginKeys(o) => match reply {
                Reply::OriginKeys(keys) => exists|sub: OriginKeyMigrator, sub_act: Action|
                    (OriginKeyMigrator {
                        phase: OriginKeyPhase::Begin,
                        origin_name: o.name,
                        origin_keys: keys,
                    }).steps_to(Reply::Start, sub, sub_act) && #[trigger] Self::follows(
                        self.cursor,
                        sub,
                        sub_act,
                        post,
                        act,
                    ),
                _ => bad,
            },
            PublicKeysPhase::Migrating(m) => exists|sub: OriginKeyMigrator, sub_act: Action|
                m.steps_to(reply, sub, sub_act) && #[trigger] Self::follows(
                    self.cursor,
                    sub,
                    sub_act,
                    post,
                    act,
                ),
            PublicKeysPhase::Finished => post == self && act == Action::Finish,
            PublicKeysPhase::Failed(f) => post == self && act == Action::Abort(f),
        }
    }

    /// The migration of the public keys of every origin
    /// (`migrate_origin_public_keys`).
    pub fn migrate_origin_public_keys() -> (m: Self)
        ensures
            m.phase == PublicKeysPhase::Begin,
            m.cursor.ids@.len() == 0,
            m.cursor.pos == 0,
    {
        PublicKeysMigration { phase: PublicKeysPhase::Begin, cursor: empty_cursor() }
    }

    fn advance(cursor: IdCursor) -> (res: (Self, Action))
        ensures
            Self::advances(cursor, res.0, res.1),
    {
        let (c, n) = next_id(cursor);
        match n {
            NextId::Exhausted => (
                PublicKeysMigration { phase: PublicKeysPhase::Finished, cursor: c },
                Action::Finish,
            ),
            NextId::Malformed => Self::fail(c, Failure::MalformedKeyId),
            NextId::Id(id) => (
                PublicKeysMigration { phase: PublicKeysPhase::FetchingRedisOrigin, cursor: c },
                Action::FindRedisOrigin(id),
            ),
        }
    }

    fn fail(cursor: IdCursor, f: Failure) -> (res: (Self, Action))
        ensures
            Self::fails(cursor, f, res.0, res.1),
    {
        (PublicKeysMigration { phase: PublicKeysPhase::Failed(f), cursor }, Action::Abort(f))
    }

    fn follow(cursor: IdCursor, sub: OriginKeyMigrator, sub_act: Action) -> (res: (Self, Action))
        ensures
            Self::follows(cursor, sub, sub_act, res.0, res.1),
    {
        match sub_act {
            Action::Finish => Self::advance(cursor),
            Action::Abort(f) => Self::fail(cursor, f),
            other => (PublicKeysMigration { phase: PublicKeysPhase::Migrating(sub), cursor }, other),
        }
    }

    /// Takes one step on `reply`.
    pub fn step(self, reply: Reply) -> (res: (Self, Action))
        ensures
            self.steps_to(reply, res.0, res.1),
    {
        let PublicKeysMigration { phase, cursor } = self;
        match phase {
            PublicKeysPhase::Begin => match reply {
                Reply::Start => {
                    let p = keys_pattern("origin");
                    proof {
                        reveal_strlit("origin");
                    }
                    (
                        PublicKeysMigration { phase: PublicKeysPhase::ListingKeys, cursor },
                        Action::ListRedisKeys(p),
                    )
                },
                _ => Self::fail(cursor, Failure::UnexpectedReply),
            },
            PublicKeysPhase::ListingKeys => match reply {
                Reply::Keys(keys) => {
                    let c = cursor_over_keys(&keys);
                    let res = Self::advance(c);
                    assert(Self::advances(c, res.0, res.1));
                    res
                },
                _ => Self::fail(cursor, Failure::UnexpectedReply),
            },
            PublicKeysPhase::FetchingRedisOrigin => match reply {
                Reply::RedisOrigin(o) => {
                    let name = o.name.clone();
                    (
                        PublicKeysMigration { phase: PublicKeysPhase::ListingOriginKeys(o), cursor },
                        Action::ListRedisOriginKeys(name),
                    )
                },
                _ => Self::fail(cursor, Failure::UnexpectedReply),
            },
            PublicKeysPhase::ListingOriginKeys(o) => match reply {
                Reply::OriginKeys(keys) => {
                    let fresh = OriginKeyMigrator::new(o.name, keys);
                    let ghost start = fresh;
                    let (sub, sub_act) = fresh.step(Reply::Start);
                    let res = Self::follow(cursor, sub, sub_act);
                    assert(start.steps_to(Reply::Start, sub, sub_act));
                    assert(Self::follows(cursor, sub, sub_act, res.0, res.1));
                    res
                },
                _ => Self::fail(cursor, Failure::UnexpectedReply),
            },
            PublicKeysPhase::Migrating(m) => {
                let ghost before = m;
                let (sub, sub_act) = m.step(reply);
                let res = Self::follow(cursor, sub, sub_act);
                assert(before.steps_to(reply, sub, sub_act));
                assert(Self::follows(cursor, sub, sub_act, res.0, res.1));
                res
            },
            PublicKeysPhase::Finished => (
                PublicKeysMigration { phase: PublicKeysPhase::Finished, cursor },
                Action::Finish,
            ),
            PublicKeysPhase::Failed(f) => Self::fail(cursor, f),
        }
    }

    /// The run has ended, well or not.
    pub open spec fn ended(self) -> bool {
        self.phase is Finished || self.phase is Failed
    }

    /// How far the run is from its end (compared lexicographically).
    pub open spec fn rank(self) -> (nat, nat, nat, nat) {
        let r = remaining(self.cursor);
        match self.phase {
            PublicKeysPhase::Begin => (2, 0, 0, 0),
            PublicKeysPhase::ListingKeys => (1, 0, 0, 0),
            PublicKeysPhase::FetchingRedisOrigin => (0, r, 3, 0),
            PublicKeysPhase::ListingOriginKeys(_) => (0, r, 2, 0),
            PublicKeysPhase::Migrating(m) => (0, r, 1, m.rank()),
            PublicKeysPhase::Finished => (0, r, 0, 0),
            PublicKeysPhase::Failed(_) => (0, r, 0, 0),
        }
    }
}

proof fn lemma_advances_rank(c: IdCursor, post: PublicKeysMigration, act: Action)
    requires
        PublicKeysMigration::advances(c, post, act),
    ensures
        post.rank().0 == 0,
        remaining(c) == 0 ==> post.rank() == (0nat, 0nat, 0nat, 0nat),
        remaining(c) > 0 ==> post.rank().1 < remaining(c),
{
    lemma_next_id_progress(c);
}

proof fn lemma_follows_rank(
    c: IdCursor,
    sub: OriginKeyMigrator,
    sub_act: Action,
    post: PublicKeysMigration,
    act: Action,
)
    requires
        PublicKeysMigration::follows(c, sub, sub_act, post, act),
    ensures
        post.rank().0 == 0,
        sub_act is Finish ==> (remaining(c) == 0 ==> post.rank() == (0nat, 0nat, 0nat, 0nat)) && (
        remaining(c) > 0 ==> post.rank().1 < remaining(c)),
        !(sub_act is Finish) ==> post.rank().1 == remaining(c) && post.rank().2 <= 1,
        !(sub_act is Finish) && !(sub_act is Abort) ==> post.rank().3 == sub.rank(),
        sub_act is Abort ==> post.rank().2 == 0,
{
    if sub_act is Finish {
        lemma_advances_rank(c, post, act);
    }
}

/// Law: what the whole run asks of the stores while an origin's keys are
/// migrated is exactly what that origin-key migration asks.
pub proof fn law_public_keys_passes_on_origin_key_steps(
    m: PublicKeysMigration,
    reply: Reply,
    post: PublicKeysMigration,
    act: Action,
)
    requires
        m.phase is Migrating,
        m.steps_to(reply, post, act),
        !(act is Finish) && !(act is Abort) && !(act is FindRedisOrigin),
    ensures
        post.phase matches PublicKeysPhase::Migrating(sub) && m.phase->Migrating_0.steps_to(
            reply,
            sub,
            act,
        ),
{
    let sub_m = m.phase->Migrating_0;
    let (sub, sub_act) = choose|sub: OriginKeyMigrator, sub_act: Action|
        sub_m.steps_to(reply, sub, sub_act) && #[trigger] PublicKeysMigration::follows(
            m.cursor,
            sub,
            sub_act,
            post,
            act,
        );
}

/// Law: a run that has ended stays where it is and repeats its last word.
pub proof fn law_public_keys_ended_run_stays(
    m: PublicKeysMigration,
    reply: Reply,
    post: PublicKeysMigration,
    act: Action,
)
    requires
        m.steps_to(reply, post, act),
        m.ended(),
    ensures
        post == m,
{
}

/// Law: every step of a run that has not ended brings it closer to its end.
pub proof fn law_public_keys_run_progresses(
    m: PublicKeysMigration,
    reply: Reply,
    post: PublicKeysMigration,
    act: Action,
)
    requires
        m.steps_to(reply, post, act),
        !m.ended(),
    ensures
        lex_lt(post.rank(), m.rank()),
{
    match m.phase {
        PublicKeysPhase::ListingKeys => {
            if let Reply::Keys(keys) = reply {
                let c = choose|c: IdCursor|
                    c.ids@ == key_ids_spec(keys.deep_view()) && c.pos == 0
                        && #[trigger] PublicKeysMigration::advances(c, post, act);
                lemma_advances_rank(c, post, act);
            }
        },
        PublicKeysPhase::ListingOriginKeys(o) => {
            if let Reply::OriginKeys(keys) = reply {
                let (sub, sub_act) = choose|sub: OriginKeyMigrator, sub_act: Action|
                    (OriginKeyMigrator {
                        phase: OriginKeyPhase::Begin,
                        origin_name: o.name,
                        origin_keys: keys,
                    }).steps_to(Reply::Start, sub, sub_act) && #[trigger] PublicKeysMigration::follows(
                        m.cursor,
                        sub,
                        sub_act,
                        post,
                        act,
                    );
                lemma_follows_rank(m.cursor, sub, sub_act, post, act);
            }
        },
        PublicKeysPhase::Migrating(sm) => {
            let (sub, sub_act) = choose|sub: OriginKeyMigrator, sub_act: Action|
                sm.steps_to(reply, sub, sub_act) && #[trigger] PublicKeysMigration::follows(
                    m.cursor,
                    sub,
                    sub_act,
                    post,
                    act,
                );
            lemma_follows_rank(m.cursor, sub, sub_act, post, act);
            if sm.ended() {
                law_public_key_ended_run_stays(sm, reply, sub, sub_act);
            } else {
                law_public_key_run_progresses(sm, reply, sub, sub_act);
            }
        },
        _ => {
            if PublicKeysMigration::advances(m.cursor, post, act) {
                lemma_advances_rank(m.cursor, post, act);
            }
        },
    }
}

/// The Redis data and the Postgres lookups that the migration of all public
/// keys reads: the key list, the origins of Redis by id, the public keys of
/// Redis by origin name, the origins of Postgres by name, and the bodies of the
/// key files by location.
pub struct PublicKeyStores {
    pub keys: Seq<Seq<char>>,
    pub redis_origins: Map<u64, Origin>,
    pub redis_keys: Map<Seq<char>, Seq<OriginKeyIdent>>,
    pub pg_origins: Map<Seq<char>, Origin>,
    pub bodies: Map<Seq<char>, Seq<u8>>,
}

impl PublicKeyStores {
    /// Each origin's public keys in Redis belong to that origin, and each
    /// Postgres origin is found under its own name.
    pub open spec fn well_formed(self) -> bool {
        &&& origins_by_name(self.pg_origins)
        &&& forall|n: Seq<char>| #[trigger] self.redis_keys.contains_key(n) ==> keys_of_origin(
            self.redis_keys[n],
            n,
        )
    }

    /// The stores answer `act` with `reply`; the keys Postgres holds, by
    /// origin name and revision, with their bodies, go from `pg` to `pg_after`.
    pub open spec fn answers(
        self,
        act: Action,
        reply: Reply,
        pg: Map<(Seq<char>, Seq<char>), Seq<u8>>,
        pg_after: Map<(Seq<char>, Seq<char>), Seq<u8>>,
    ) -> bool {
        match act {
            Action::ListRedisKeys(_) => reply matches Reply::Keys(k) && k.deep_view() == self.keys
                && pg_after == pg,
            Action::FindRedisOrigin(id) => self.redis_origins.contains_key(id) && reply
                == Reply::RedisOrigin(self.redis_origins[id]) && pg_after == pg,
            Action::ListRedisOriginKeys(name) => {
                &&& self.redis_keys.contains_key(name@)
                &&& reply matches Reply::OriginKeys(v)
                &&& v@ == self.redis_keys[name@]
                &&& pg_after == pg
            },
            _ => key_answers(act, reply, self.pg_origins, self.bodies, pg, pg_after),
        }
    }

    /// The public keys of Redis origin `id` are held in Postgres in order, up
    /// to their end or up to one that is in `found`.
    pub open spec fn origin_migrated(
        self,
        id: u64,
        pg: Map<(Seq<char>, Seq<char>), Seq<u8>>,
        found: Set<(Seq<char>, Seq<char>)>,
    ) -> bool {
        &&& self.redis_origins.contains_key(id)
        &&& self.redis_keys.contains_key(self.redis_origins[id].name@)
        &&& keys_migrated(
            self.redis_origins[id].name@,
            self.redis_keys[self.redis_origins[id].name@],
            pg,
            self.bodies,
            found,
        )
    }

    /// The first `k` ids of the walk are ids of migrated Redis origins.
    pub open spec fn migrated_before(
        self,
        c: IdCursor,
        k: int,
        pg: Map<(Seq<char>, Seq<char>), Seq<u8>>,
        found: Set<(Seq<char>, Seq<char>)>,
    ) -> bool {
        forall|j: int|
            0 <= j < k ==> (#[trigger] c.ids@[j] matches Some(id) && self.origin_migrated(
                id,
                pg,
                found,
            ))
    }

    /// What holds of a faithful run of the migration of all public keys when
    /// it is in state `m`, about to receive `reply`, with Postgres holding the
    /// keys `pg`, and `found` the keys the run asked about while Postgres held
    /// them.
    pub open spec fn run_invariant(
        self,
        m: PublicKeysMigration,
        reply: Reply,
        pg: Map<(Seq<char>, Seq<char>), Seq<u8>>,
        found: Set<(Seq<char>, Seq<char>)>,
    ) -> bool {
        let c = m.cursor;
        let walking = c.ids@ == key_ids_spec(self.keys) && 1 <= c.pos <= c.ids@.len();
        let current = c.ids@[c.pos - 1];
        let before = self.migrated_before(c, c.pos - 1, pg, found);
        match m.phase {
            PublicKeysPhase::Begin => reply == Reply::Start,
            PublicKeysPhase::ListingKeys => reply matches Reply::Keys(k) && k.deep_view() == self.keys,
            PublicKeysPhase::FetchingRedisOrigin => {
                &&& walking
                &&& before
                &&& current matches Some(id)
                &&& self.redis_origins.contains_key(id)
                &&& reply == Reply::RedisOrigin(self.redis_origins[id])
            },
            PublicKeysPhase::ListingOriginKeys(o) => {
                &&& walking
                &&& before
                &&& current matches Some(id)
                &&& self.redis_origins.contains_key(id)
                &&& o == self.redis_origins[id]
                &&& self.redis_keys.contains_key(o.name@)
                &&& reply matches Reply::OriginKeys(v)
                &&& v@ == self.redis_keys[o.name@]
            },
            PublicKeysPhase::Migrating(sub) => {
                &&& walking
                &&& before
                &&& current matches Some(id)
                &&& self.redis_origins.contains_key(id)
                &&& self.redis_keys.contains_key(self.redis_origins[id].name@)
                &&& key_run_invariant(
                    sub,
                    reply,
                    self.redis_origins[id].name@,
                    self.redis_keys[self.redis_origins[id].name@],
                    self.pg_origins,
                    self.bodies,
                    pg,
                    found,
                )
            },
            _ => false,
        }
    }
}

/// An origin-key migration asks nothing of Redis.
proof fn lemma_key_actions(m: OriginKeyMigrator, reply: Reply, post: OriginKeyMigrator, act: Action)
    requires
        m.steps_to(reply, post, act),
    ensures
        !(act is ListRedisKeys) && !(act is FindRedisOrigin) && !(act is ListRedisOriginKeys),
{
}

proof fn lemma_migrated_before_grows(
    st: PublicKeyStores,
    c: IdCursor,
    k: int,
    pg: Map<(Seq<char>, Seq<char>), Seq<u8>>,
    pg2: Map<(Seq<char>, Seq<char>), Seq<u8>>,
    found: Set<(Seq<char>, Seq<char>)>,
    found2: Set<(Seq<char>, Seq<char>)>,
)
    requires
        st.migrated_before(c, k, pg, found),
        pg.submap_of(pg2),
        found.subset_of(found2),
    ensures
        st.migrated_before(c, k, pg2, found2),
{
    assert forall|j: int| 0 <= j < k implies (#[trigger] c.ids@[j] matches Some(id)
        && st.origin_migrated(id, pg2, found2)) by {
        if let Some(id) = c.ids@[j] {
            assert(st.origin_migrated(id, pg, found));
            let name = st.redis_origins[id].name@;
            let keys = st.redis_keys[name];
            let w = choose|w: int|
                0 <= w <= keys.len() && #[trigger] keys_held(name, keys, w, pg, st.bodies) && (w
                    == keys.len() || found.contains((name, keys[w].revision@)));
            lemma_keys_held_grows(name, keys, w, pg, pg2, st.bodies);
        }
    }
}

proof fn lemma_current_done(
    st: PublicKeyStores,
    c: IdCursor,
    pg: Map<(Seq<char>, Seq<char>), Seq<u8>>,
    found: Set<(Seq<char>, Seq<char>)>,
)
    requires
        1 <= c.pos <= c.ids@.len(),
        st.migrated_before(c, c.pos - 1, pg, found),
        c.ids@[c.pos - 1] matches Some(id) && st.origin_migrated(id, pg, found),
    ensures
        st.migrated_before(c, c.pos as int, pg, found),
{
    assert forall|j: int| 0 <= j < c.pos implies (#[trigger] c.ids@[j] matches Some(id)
        && st.origin_migrated(id, pg, found)) by {
        if j < c.pos - 1 {
        }
    }
}

proof fn lemma_advance_keeps_invariant(
    st: PublicKeyStores,
    c: IdCursor,
    pg: Map<(Seq<char>, Seq<char>), Seq<u8>>,
    found: Set<(Seq<char>, Seq<char>)>,
    post: PublicKeysMigration,
    act: Action,
    reply2: Reply,
    pg2: Map<(Seq<char>, Seq<char>), Seq<u8>>,
    found2: Set<(Seq<char>, Seq<char>)>,
)
    requires
        c.ids@ == key_ids_spec(st.keys),
        c.pos <= c.ids@.len(),
        st.migrated_before(c, c.pos as int, pg, found),
        PublicKeysMigration::advances(c, post, act),
        st.answers(act, reply2, pg, pg2),
        found.subset_of(found2),
    ensures
        st.run_invariant(post, reply2, pg2, found2),
        pg == pg2,
{
    let (c2, n) = next_id_spec(c);
    if let NextId::Id(id) = n {
        assert(pg2 == pg);
        lemma_migrated_before_grows(st, c, c.pos as int, pg, pg2, found, found2);
        assert(c2.pos == c.pos + 1);
        assert(st.migrated_before(c2, c2.pos - 1, pg2, found2));
    }
}

/// The whole run's step that follows an origin-key step keeps the run
/// invariant.
proof fn lemma_follow_keeps_invariant(
    st: PublicKeyStores,
    c: IdCursor,
    sub_m: OriginKeyMigrator,
    reply: Reply,
    pg: Map<(Seq<char>, Seq<char>), Seq<u8>>,
    found: Set<(Seq<char>, Seq<char>)>,
    sub: OriginKeyMigrator,
    sub_act: Action,
    post: PublicKeysMigration,
    act: Action,
    reply2: Reply,
    pg2: Map<(Seq<char>, Seq<char>), Seq<u8>>,
    found2: Set<(Seq<char>, Seq<char>)>,
)
    requires
        st.well_formed(),
        c.ids@ == key_ids_spec(st.keys),
        1 <= c.pos <= c.ids@.len(),
        st.migrated_before(c, c.pos - 1, pg, found),
        c.ids@[c.pos - 1] matches Some(id) && st.redis_origins.contains_key(id)
            && st.redis_keys.contains_key(st.redis_origins[id].name@) && key_run_invariant(
            sub_m,
            reply,
            st.redis_origins[id].name@,
            st.redis_keys[st.redis_origins[id].name@],
            st.pg_origins,
            st.bodies,
            pg,
            found,
        ),
        sub_m.steps_to(reply, sub, sub_act),
        PublicKeysMigration::follows(c, sub, sub_act, post, act),
        st.answers(act, reply2, pg, pg2),
        found.subset_of(found2),
        records_key_ask(act, pg, found2),
    ensures
        st.run_invariant(post, reply2, pg2, found2),
        pg.submap_of(pg2),
{
    if let Some(id) = c.ids@[c.pos - 1] {
        let name = st.redis_origins[id].name@;
        let keys = st.redis_keys[name];
        assert(keys_of_origin(keys, name));
        match sub_act {
            Action::Finish => {
                lemma_key_finish_means_migrated(sub_m, reply, name, keys, st.pg_origins, st.bodies, pg, found, sub);
                lemma_current_done(st, c, pg, found);
                lemma_advance_keeps_invariant(st, c, pg, found, post, act, reply2, pg2, found2);
            },
            Action::Abort(_) => {},
            _ => {
                lemma_key_actions(sub_m, reply, sub, sub_act);
                assert(key_answers(sub_act, reply2, st.pg_origins, st.bodies, pg, pg2));
                lemma_key_step_keeps_invariant(
                    sub_m,
                    reply,
                    name,
                    keys,
                    st.pg_origins,
                    st.bodies,
                    pg,
                    found,
                    sub,
                    sub_act,
                    reply2,
                    pg2,
                    found2,
                );
                lemma_migrated_before_grows(st, c, c.pos - 1, pg, pg2, found, found2);
            },
        }
    }
}

proof fn lemma_step_keeps_invariant(
    st: PublicKeyStores,
    m: PublicKeysMigration,
    reply: Reply,
    pg: Map<(Seq<char>, Seq<char>), Seq<u8>>,
    found: Set<(Seq<char>, Seq<char>)>,
    post: PublicKeysMigration,
    act: Action,
    reply2: Reply,
    pg2: Map<(Seq<char>, Seq<char>), Seq<u8>>,
    found2: Set<(Seq<char>, Seq<char>)>,
)
    requires
        st.well_formed(),
        st.run_invariant(m, reply, pg, found),
        m.steps_to(reply, post, act),
        st.answers(act, reply2, pg, pg2),
        found.subset_of(found2),
        records_key_ask(act, pg, found2),
    ensures
        st.run_invariant(post, reply2, pg2, found2),
        pg.submap_of(pg2),
{
    let c = m.cursor;
    match m.phase {
        PublicKeysPhase::ListingKeys => {
            if let Reply::Keys(k) = reply {
                let c0 = choose|c0: IdCursor|
                    c0.ids@ == key_ids_spec(k.deep_view()) && c0.pos == 0
                        && #[trigger] PublicKeysMigration::advances(c0, post, act);
                lemma_advance_keeps_invariant(st, c0, pg, found, post, act, reply2, pg2, found2);
            }
        },
        PublicKeysPhase::FetchingRedisOrigin => {
            lemma_migrated_before_grows(st, c, c.pos - 1, pg, pg2, found, found2);
        },
        PublicKeysPhase::ListingOriginKeys(o) => {
            if let Reply::OriginKeys(keys) = reply {
                let fresh = OriginKeyMigrator {
                    phase: OriginKeyPhase::Begin,
                    origin_name: o.name,
                    origin_keys: keys,
                };
                let (sub, sub_act) = choose|sub: OriginKeyMigrator, sub_act: Action|
                    fresh.steps_to(Reply::Start, sub, sub_act) && #[trigger] PublicKeysMigration::follows(
                        c,
                        sub,
                        sub_act,
                        post,
                        act,
                    );
                lemma_follow_keeps_invariant(
                    st,
                    c,
                    fresh,
                    Reply::Start,
                    pg,
                    found,
                    sub,
                    sub_act,
                    post,
                    act,
                    reply2,
                    pg2,
                    found2,
                );
            }
        },
        PublicKeysPhase::Migrating(sm) => {
            let (sub, sub_act) = choose|sub: OriginKeyMigrator, sub_act: Action|
                sm.steps_to(reply, sub, sub_act) && #[trigger] PublicKeysMigration::follows(
                    c,
                    sub,
                    sub_act,
                    post,
                    act,
                );
            lemma_follow_keeps_invariant(
                st,
                c,
                sm,
                reply,
                pg,
                found,
                sub,
                sub_act,
                post,
                act,
                reply2,
                pg2,
                found2,
            );
        },
        _ => {},
    }
}

proof fn lemma_advance_to_finish(
    st: PublicKeyStores,
    c: IdCursor,
    pg: Map<(Seq<char>, Seq<char>), Seq<u8>>,
    found: Set<(Seq<char>, Seq<char>)>,
    post: PublicKeysMigration,
)
    requires
        c.pos <= c.ids@.len(),
        st.migrated_before(c, c.pos as int, pg, found),
        PublicKeysMigration::advances(c, post, Action::Finish),
    ensures
        post.cursor.ids == c.ids,
        st.migrated_before(IdCursor { ids: post.cursor.ids, pos: 0 }, c.ids@.len() as int, pg, found),
{
    let d = IdCursor { ids: post.cursor.ids, pos: 0 };
    assert forall|j: int| 0 <= j < c.ids@.len() implies (#[trigger] d.ids@[j] matches Some(id)
        && st.origin_migrated(id, pg, found)) by {
        assert(d.ids@[j] == c.ids@[j]);
    }
}

proof fn lemma_finish_means_all_migrated(
    st: PublicKeyStores,
    m: PublicKeysMigration,
    reply: Reply,
    pg: Map<(Seq<char>, Seq<char>), Seq<u8>>,
    found: Set<(Seq<char>, Seq<char>)>,
    post: PublicKeysMigration,
)
    requires
        st.run_invariant(m, reply, pg, found),
        m.steps_to(reply, post, Action::Finish),
    ensures
        post.cursor.ids@ == key_ids_spec(st.keys),
        st.migrated_before(
            IdCursor { ids: post.cursor.ids, pos: 0 },
            key_ids_spec(st.keys).len() as int,
            pg,
            found,
        ),
{
    let c = m.cursor;
    match m.phase {
        PublicKeysPhase::ListingKeys => {
            if let Reply::Keys(k) = reply {
                let c0 = choose|c0: IdCursor|
                    c0.ids@ == key_ids_spec(k.deep_view()) && c0.pos == 0
                        && #[trigger] PublicKeysMigration::advances(c0, post, Action::Finish);
                lemma_advance_to_finish(st, c0, pg, found, post);
            }
        },
        PublicKeysPhase::ListingOriginKeys(o) => {
            if let Reply::OriginKeys(keys) = reply {
                let fresh = OriginKeyMigrator {
                    phase: OriginKeyPhase::Begin,
                    origin_name: o.name,
                    origin_keys: keys,
                };
                let (sub, sub_act) = choose|sub: OriginKeyMigrator, sub_act: Action|
                    fresh.steps_to(Reply::Start, sub, sub_act) && #[trigger] PublicKeysMigration::follows(
                        c,
                        sub,
                        sub_act,
                        post,
                        Action::Finish,
                    );
            }
        },
        PublicKeysPhase::Migrating(sm) => {
            let (sub, sub_act) = choose|sub: OriginKeyMigrator, sub_act: Action|
                sm.steps_to(reply, sub, sub_act) && #[trigger] PublicKeysMigration::follows(
                    c,
                    sub,
                    sub_act,
                    post,
                    Action::Finish,
                );
            if let Some(id) = c.ids@[c.pos - 1] {
                let name = st.redis_origins[id].name@;
                let keys = st.redis_keys[name];
                lemma_key_finish_means_migrated(sm, reply, name, keys, st.pg_origins, st.bodies, pg, found, sub);
                lemma_current_done(st, c, pg, found);
                lemma_advance_to_finish(st, c, pg, found, post);
            }
        },
        _ => {},
    }
}

proof fn lemma_run_invariant_at(
    st: PublicKeyStores,
    i: int,
    states: Seq<PublicKeysMigration>,
    replies: Seq<Reply>,
    actions: Seq<Action>,
    pgs: Seq<Map<(Seq<char>, Seq<char>), Seq<u8>>>,
)
    requires
        0 <= i < actions.len(),
        states.len() == actions.len() + 1,
        replies.len() == actions.len(),
        pgs.len() == actions.len(),
        states[0].phase == PublicKeysPhase::Begin,
        replies[0] == Reply::Start,
        st.well_formed(),
        forall|k: int|
            0 <= k < actions.len() ==> #[trigger] states[k].steps_to(
                replies[k],
                states[k + 1],
                actions[k],
            ),
        forall|k: int|
            0 <= k < actions.len() - 1 ==> #[trigger] st.answers(
                actions[k],
                replies[k + 1],
                pgs[k],
                pgs[k + 1],
            ),
    ensures
        st.run_invariant(states[i], replies[i], pgs[i], keys_held_when_asked(actions, pgs, i)),
        forall|k: int| 0 <= k < i ==> (#[trigger] pgs[k]).submap_of(pgs[k + 1]),
    decreases i,
{
    if i > 0 {
        lemma_run_invariant_at(st, i - 1, states, replies, actions, pgs);
        let k = i - 1;
        assert(states[k].steps_to(replies[k], states[k + 1], actions[k]));
        assert(st.answers(actions[k], replies[k + 1], pgs[k], pgs[k + 1]));
        assert(k + 1 == i);
        lemma_keys_held_when_asked_grows(actions, pgs, k);
        lemma_step_keeps_invariant(
            st,
            states[k],
            replies[k],
            pgs[k],
            keys_held_when_asked(actions, pgs, k),
            states[i],
            actions[k],
            replies[i],
            pgs[i],
            keys_held_when_asked(actions, pgs, i),
        );
    }
}

/// Law: a run of the migration of the public keys of every origin against
/// stores that answer faithfully, whose Redis keys each belong to the origin
/// they are listed under, and that find each Postgres origin under its own
/// name, from its start to `Finish`, leaves Postgres holding, for every Redis
/// origin whose id the origin keys carry, the origin's public keys in order,
/// each with the body of the key file at its own location, up to their end or
/// up to a revision that the run asked Postgres about while Postgres already
/// held it. Postgres only gains keys along the way and never changes one it
/// holds.
///
/// `states[k]` takes `replies[k]` and moves to `states[k + 1]`, asking for
/// `actions[k]`; `pgs[k]` maps the keys that Postgres knows, by origin name and
/// revision, to their bodies, when `replies[k]` arrives, and so when
/// `actions[k]` is made.
pub proof fn law_public_keys_run_migrates_every_origin(
    st: PublicKeyStores,
    states: Seq<PublicKeysMigration>,
    replies: Seq<Reply>,
    actions: Seq<Action>,
    pgs: Seq<Map<(Seq<char>, Seq<char>), Seq<u8>>>,
)
    requires
        actions.len() > 0,
        states.len() == actions.len() + 1,
        replies.len() == actions.len(),
        pgs.len() == actions.len(),
        states[0].phase == PublicKeysPhase::Begin,
        replies[0] == Reply::Start,
        st.well_formed(),
        forall|k: int|
            0 <= k < actions.len() ==> #[trigger] states[k].steps_to(
                replies[k],
                states[k + 1],
                actions[k],
            ),
        forall|k: int|
            0 <= k < actions.len() - 1 ==> #[trigger] st.answers(
                actions[k],
                replies[k + 1],
                pgs[k],
                pgs[k + 1],
            ),
        actions.last() == Action::Finish,
    ensures
        forall|j: int|
            0 <= j < key_ids_spec(st.keys).len() ==> (#[trigger] key_ids_spec(st.keys)[j] matches Some(
                id,
            ) && st.origin_migrated(
                id,
                pgs.last(),
                keys_held_when_asked(actions, pgs, actions.len() as int),
            )),
        forall|k: int| 0 <= k < pgs.len() - 1 ==> (#[trigger] pgs[k]).submap_of(pgs[k + 1]),
{
    let n = actions.len() as int;
    lemma_run_invariant_at(st, n - 1, states, replies, actions, pgs);
    let k = n - 1;
    let found = keys_held_when_asked(actions, pgs, k);
    let found_all = keys_held_when_asked(actions, pgs, n);
    assert(states[k].steps_to(replies[k], states[k + 1], actions[k]));
    assert(k + 1 == n);
    lemma_finish_means_all_migrated(st, states[k], replies[k], pgs[k], found, states[n]);
    lemma_keys_held_when_asked_grows(actions, pgs, k);
    let d = IdCursor { ids: states[n].cursor.ids, pos: 0 };
    lemma_migrated_before_grows(
        st,
        d,
        key_ids_spec(st.keys).len() as int,
        pgs[k],
        pgs[k],
        found,
        found_all,
    );
    assert forall|j: int| 0 <= j < key_ids_spec(st.keys).len() implies (#[trigger] key_ids_spec(
        st.keys,
    )[j] matches Some(id) && st.origin_migrated(id, pgs.last(), found_all)) by {
        assert(d.ids@[j] == key_ids_spec(st.keys)[j]);
    }
}

} // verus!
