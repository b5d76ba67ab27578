//! Public origin keys: the keys of one origin are stored in Postgres in the
//! given order, up to the first revision Postgres already has.
use vstd::prelude::*;
use crate::model::{Origin, OriginKeyIdent, OriginPublicKeyCreate};
use crate::migrators::common::{Action, Failure, Reply, left};

verus! {

/// Where an origin-key migration stands.
pub enum OriginKeyPhase {
    /// Waiting for `Reply::Start`, to look up the Postgres origin.
    Begin,
    /// Waiting for the Postgres origin.
    FetchingPgOrigin,
    /// Waiting for Postgres to say whether it holds key `index`.
    CheckingKey { origin: Origin, index: usize },
    /// Waiting for the body of key `index`.
    ReadingBody { origin: Origin, index: usize },
    /// Waiting for key `index` to be written.
    Storing { origin: Origin, index: usize },
    /// Every key has been handled.
    Finished,
    /// The run stopped.
    Failed(Failure),
}

/// The migration of the public keys of one origin.
pub struct OriginKeyMigrator {
    pub phase: OriginKeyPhase,
    pub origin_name: String,
    pub origin_keys: Vec<OriginKeyIdent>,
}

/// The public key request for a key of a Postgres origin with the given body.
pub open spec fn is_public_key_for(
    act: Action,
    key: OriginKeyIdent,
    origin: Origin,
    body: Vec<u8>,
) -> bool {
    &&& act matches Action::CreateOriginPublicKey(okc)
    &&& okc.name == key.origin
    &&& okc.revision == key.revision
    &&& okc.origin_id == origin.id
    &&& okc.owner_id == origin.owner_id
    &&& okc.body == body
}

fn public_key_request(key: &OriginKeyIdent, origin: &Origin, body: Vec<u8>) -> (act: Action)
    ensures
        is_public_key_for(act, *key, *origin, body),
{
    Action::CreateOriginPublicKey(
        OriginPublicKeyCreate {
            origin_id: origin.id,
            owner_id: origin.owner_id,
            name: key.origin.clone(),
            revision: key.revision.clone(),
            body,
        },
    )
}

impl OriginKeyMigrator {
    /// The same migration in phase `phase`.
    pub open spec fn with(self, phase: OriginKeyPhase) -> Self {
        OriginKeyMigrator { phase, origin_name: self.origin_name, origin_keys: self.origin_keys }
    }

    /// The move to key `index`, or to the end when none is left.
    pub open spec fn visits(self, origin: Origin, index: usize, post: Self, act: Action) -> bool {
        if index < self.origin_keys.len() {
            post == self.with(OriginKeyPhase::CheckingKey { origin, index }) && act
                == Action::CheckPgOriginKey(origin.name, self.origin_keys@[index as int].revision)
        } else {
            post == self.with(OriginKeyPhase::Finished) && act == Action::Finish
        }
    }

    /// Stopping for `f`.
    pub open spec fn fails(self, f: Failure, post: Self, act: Action) -> bool {
        post == self.with(OriginKeyPhase::Failed(f)) && act == Action::Abort(f)
    }

    /// One step: from `self`, on `reply`, the migration moves to `post` and asks
    /// for `act`.
    pub open spec fn steps_to(self, reply: Reply, post: Self, act: Action) -> bool {
        let bad = self.fails(Failure::UnexpectedReply, post, act);
        let n = self.origin_keys.len();
        match self.phase {
            OriginKeyPhase::Begin => match reply {
                Reply::Start => post == self.with(OriginKeyPhase::FetchingPgOrigin) && act
                    == Action::GetPgOrigin(self.origin_name),
                _ => bad,
            },
            OriginKeyPhase::FetchingPgOrigin => match reply {
                Reply::PgOrigin(None) => self.fails(Failure::NoOriginInPostgres, post, act),
                Reply::PgOrigin(Some(origin)) => self.visits(origin, 0, post, act),
                _ => bad,
            },
            OriginKeyPhase::CheckingKey { origin, index } => match reply {
                Reply::Exists(false) => if index < n {
                    post == self.with(OriginKeyPhase::ReadingBody { origin, index }) && act
                        == Action::ReadKeyBody(self.origin_keys@[index as int].location)
                } else {
                    post == self.with(OriginKeyPhase::Finished) && act == Action::Finish
                },
                Reply::Exists(true) => post == self.with(OriginKeyPhase::Finished) && act
                    == Action::Finish,
                _ => bad,
            },
            OriginKeyPhase::ReadingBody { origin, index } => match reply {
                Reply::KeyBody(body) => if index < n {
                    post == self.with(OriginKeyPhase::Storing { origin, index })
                        && is_public_key_for(act, self.origin_keys@[index as int], origin, body)
                } else {
                    post == self.with(OriginKeyPhase::Finished) && act == Action::Finish
                },
                _ => bad,
            },
            OriginKeyPhase::Storing { origin, index } => match reply {
                Reply::Written => if index < n {
                    self.visits(origin, (index + 1) as usize, post, act)
                } else {
                    post == self.with(OriginKeyPhase::Finished) && act == Action::Finish
                },
                _ => bad,
            },
            OriginKeyPhase::Finished => post == self && act == Action::Finish,
            OriginKeyPhase::Failed(f) => post == self && act == Action::Abort(f),
        }
    }

    /// The migration of the public keys `origin_keys` of the origin named
    /// `origin_name`.
    pub fn new(origin_name: String, origin_keys: Vec<OriginKeyIdent>) -> (m: Self)
        ensures
            m.phase == OriginKeyPhase::Begin,
            m.origin_name == origin_name,
            m.origin_keys == origin_keys,
    {
        OriginKeyMigrator { phase: OriginKeyPhase::Begin, origin_name, origin_keys }
    }

    fn visit(origin_name: String, origin_keys: Vec<OriginKeyIdent>, origin: Origin, index: usize) -> (res:
        (Self, Action))
        ensures
            (OriginKeyMigrator { phase: OriginKeyPhase::Finished, origin_name, origin_keys }).visits(
                origin,
                index,
                res.0,
                res.1,
            ),
    {
        if index < origin_keys.len() {
            let name = origin.name.clone();
            let revision = origin_keys[index].revision.clone();
            (
                OriginKeyMigrator {
                    phase: OriginKeyPhase::CheckingKey { origin, index },
                    origin_name,
                    origin_keys,
                },
                Action::CheckPgOriginKey(name, revision),
            )
        } else {
            (OriginKeyMigrator { phase: OriginKeyPhase::Finished, origin_name, origin_keys }, Action::Finish)
        }
    }

    /// Takes one step on `reply`.
    pub fn step(self, reply: Reply) -> (res: (Self, Action))
        ensures
            self.steps_to(reply, res.0, res.1),
    {
        let OriginKeyMigrator { phase, origin_name, origin_keys } = self;
        let n = origin_keys.len();
        let unexpected = Action::Abort(Failure::UnexpectedReply);
        match phase {
            OriginKeyPhase::Begin => match reply {
                Reply::Start => {
                    let name = origin_name.clone();
                    (
                        OriginKeyMigrator { phase: OriginKeyPhase::FetchingPgOrigin, origin_name, origin_keys },
                        Action::GetPgOrigin(name),
                    )
                },
                _ => (
                    OriginKeyMigrator {
                        phase: OriginKeyPhase::Failed(Failure::UnexpectedReply),
                        origin_name,
                        origin_keys,
                    },
                    unexpected,
                ),
            },
            OriginKeyPhase::FetchingPgOrigin => match reply {
                Reply::PgOrigin(None) => (
                    OriginKeyMigrator {
                        phase: OriginKeyPhase::Failed(Failure::NoOriginInPostgres),
                        origin_name,
                        origin_keys,
                    },
                    Action::Abort(Failure::NoOriginInPostgres),
                ),
                Reply::PgOrigin(Some(origin)) => Self::visit(origin_name, origin_keys, origin, 0),
                _ => (
                    OriginKeyMigrator {
                        phase: OriginKeyPhase::Failed(Failure::UnexpectedReply),
                        origin_name,
                        origin_keys,
                    },
                    unexpected,
                ),
            },
            OriginKeyPhase::CheckingKey { origin, index } => match reply {
                Reply::Exists(false) => {
                    if index < n {
                        let location = origin_keys[index].location.clone();
                        (
                            OriginKeyMigrator {
                                phase: OriginKeyPhase::ReadingBody { origin, index },
                                origin_name,
                                origin_keys,
                            },
                            Action::ReadKeyBody(location),
                        )
                    } else {
                        (
                            OriginKeyMigrator { phase: OriginKeyPhase::Finished, origin_name, origin_keys },
                            Action::Finish,
                        )
                    }
                },
                Reply::Exists(true) => (
                    OriginKeyMigrator { phase: OriginKeyPhase::Finished, origin_name, origin_keys },
                    Action::Finish,
                ),
                _ => (
                    OriginKeyMigrator {
                        phase: OriginKeyPhase::Failed(Failure::UnexpectedReply),
                        origin_name,
                        origin_keys,
                    },
                    unexpected,
                ),
            },
            OriginKeyPhase::ReadingBody { origin, index } => match reply {
                Reply::KeyBody(body) => {
                    if index < n {
                        let act = public_key_request(&origin_keys[index], &origin, body);
                        (
                            OriginKeyMigrator {
                                phase: OriginKeyPhase::Storing { origin, index },
                                origin_name,
                                origin_keys,
                            },
                            act,
                        )
                    } else {
                        (
                            OriginKeyMigrator { phase: OriginKeyPhase::Finished, origin_name, origin_keys },
                            Action::Finish,
                        )
                    }
                },
                _ => (
                    OriginKeyMigrator {
                        phase: OriginKeyPhase::Failed(Failure::UnexpectedReply),
                        origin_name,
                        origin_keys,
                    },
                    unexpected,
                ),
            },
            OriginKeyPhase::Storing { origin, index } => match reply {
                Reply::Written => {
                    if index < n {
                        Self::visit(origin_name, origin_keys, origin, index + 1)
                    } else {
                        (
                            OriginKeyMigrator { phase: OriginKeyPhase::Finished, origin_name, origin_keys },
                            Action::Finish,
                        )
                    }
                },
                _ => (
                    OriginKeyMigrator {
                        phase: OriginKeyPhase::Failed(Failure::UnexpectedReply),
                        origin_name,
                        origin_keys,
                    },
                    unexpected,
                ),
            },
            OriginKeyPhase::Finished => (
                OriginKeyMigrator { phase: OriginKeyPhase::Finished, origin_name, origin_keys },
                Action::Finish,
            ),
            OriginKeyPhase::Failed(f) => (
                OriginKeyMigrator { phase: OriginKeyPhase::Failed(f), origin_name, origin_keys },
                Action::Abort(f),
            ),
        }
    }

    /// The run has ended, well or not.
    pub open spec fn ended(self) -> bool {
        self.phase is Finished || self.phase is Failed
    }

    /// How far the run is from its end.
    pub open spec fn rank(self) -> nat {
        let n = self.origin_keys.len();
        match self.phase {
            OriginKeyPhase::Begin => n as nat * 3 + 5,
            OriginKeyPhase::FetchingPgOrigin => n as nat * 3 + 4,
            OriginKeyPhase::CheckingKey { index, .. } => left(n, index) * 3 + 3,
            OriginKeyPhase::ReadingBody { index, .. } => left(n, index) * 3 + 2,
            OriginKeyPhase::Storing { index, .. } => left(n, index) * 3 + 1,
            OriginKeyPhase::Finished => 0,
            OriginKeyPhase::Failed(_) => 0,
        }
    }
}

/// Law: a public key is stored only after Postgres said that it does not hold
/// that origin's key of that revision, and it is stored with the body read
/// from the key's location, in the Postgres origin.
pub proof fn law_public_key_stored_only_when_missing(
    m: OriginKeyMigrator,
    reply: Reply,
    post: OriginKeyMigrator,
    act: Action,
)
    requires
        m.steps_to(reply, post, act),
        act is CreateOriginPublicKey,
    ensures
        m.phase matches OriginKeyPhase::ReadingBody { origin, index }
            && reply matches Reply::KeyBody(body) && index < m.origin_keys.len()
            && is_public_key_for(act, m.origin_keys@[index as int], origin, body),
{
}

/// Law: once Postgres holds a revision, the remaining keys of the origin are
/// left alone and the run ends.
pub proof fn law_public_key_known_ends_run(m: OriginKeyMigrator, post: OriginKeyMigrator, act: Action)
    requires
        m.phase is CheckingKey,
        m.steps_to(Reply::Exists(true), post, act),
    ensures
        post.phase == OriginKeyPhase::Finished,
        act == Action::Finish,
{
}

/// Law: a run that has ended stays where it is and repeats its last word.
pub proof fn law_public_key_ended_run_stays(
    m: OriginKeyMigrator,
    reply: Reply,
    post: OriginKeyMigrator,
    act: Action,
)
    requires
        m.steps_to(reply, post, act),
        m.ended(),
    ensures
        post == m,
{
}

/// Law: every step of a run that has not ended brings it closer to its end.
pub proof fn law_public_key_run_progresses(
    m: OriginKeyMigrator,
    reply: Reply,
    post: OriginKeyMigrator,
    act: Action,
)
    requires
        m.steps_to(reply, post, act),
        !m.ended(),
    ensures
        post.rank() < m.rank(),
{
}

/// `act` asks Postgres about the key `link` (an origin name and a revision)
/// while `pg`, what Postgres holds, has it.
pub open spec fn asks_held_key(act: Action, pg: Map<(Seq<char>, Seq<char>), Seq<u8>>, link: (Seq<char>, Seq<char>)) -> bool {
    &&& act matches Action::CheckPgOriginKey(name, revision)
    &&& link == (name@, revision@)
    &&& pg.contains_key(link)
}

/// The keys, as pairs of an origin name and a revision, that the run asked
/// Postgres about in its first `n` actions while Postgres held them; `pgs[t]`
/// is what Postgres holds when action `t` is made.
pub open spec fn keys_held_when_asked(actions: Seq<Action>, pgs: Seq<Map<(Seq<char>, Seq<char>), Seq<u8>>>, n: int) -> Set<(Seq<char>, Seq<char>)> {
    Set::new(
        |link: (Seq<char>, Seq<char>)|
            exists|t: int| 0 <= t < n && #[trigger] asks_held_key(actions[t], pgs[t], link),
    )
}

/// Each Postgres origin in `pg_origins` is found under its own name.
pub open spec fn origins_by_name(pg_origins: Map<Seq<char>, Origin>) -> bool {
    forall|n: Seq<char>| pg_origins.contains_key(n) ==> (#[trigger] pg_origins[n]).name@ == n
}

/// Every key of `keys` belongs to the origin named `name`.
pub open spec fn keys_of_origin(keys: Seq<OriginKeyIdent>, name: Seq<char>) -> bool {
    forall|i: int| 0 <= i < keys.len() ==> (#[trigger] keys[i]).origin@ == name
}

/// A store that answers the origin-key migration faithfully: Postgres holds
/// the origins `pg_origins` by name; the key files at each location have the
/// bodies `bodies`; and Postgres holds the public keys, by origin name and
/// revision, with their bodies, `pg` before the action and `pg_after` after it.
pub open spec fn key_answers(
    act: Action,
    reply: Reply,
    pg_origins: Map<Seq<char>, Origin>,
    bodies: Map<Seq<char>, Seq<u8>>,
    pg: Map<(Seq<char>, Seq<char>), Seq<u8>>,
    pg_after: Map<(Seq<char>, Seq<char>), Seq<u8>>,
) -> bool {
    match act {
        Action::GetPgOrigin(name) => reply == Reply::PgOrigin(
            if pg_origins.contains_key(name@) {
                Some(pg_origins[name@])
            } else {
                None
            },
        ) && pg_after == pg,
        Action::CheckPgOriginKey(name, revision) => reply == Reply::Exists(
            pg.contains_key((name@, revision@)),
        ) && pg_after == pg,
        Action::ReadKeyBody(location) => {
            &&& bodies.contains_key(location@)
            &&& reply matches Reply::KeyBody(b)
            &&& b@ == bodies[location@]
            &&& pg_after == pg
        },
        Action::CreateOriginPublicKey(okc) => reply == Reply::Written && pg_after == pg.insert(
            (okc.name@, okc.revision@),
            okc.body@,
        ),
        _ => false,
    }
}

/// Postgres holds `key` of the origin named `name`, with the body of the
/// file at the key's own location.
pub open spec fn key_stored(name: Seq<char>, key: OriginKeyIdent, pg: Map<(Seq<char>, Seq<char>), Seq<u8>>, bodies: Map<Seq<char>, Seq<u8>>) -> bool {
    &&& pg.contains_key((name, key.revision@))
    &&& bodies.contains_key(key.location@)
    &&& pg[(name, key.revision@)] == bodies[key.location@]
}

/// Postgres holds the first `k` of `keys` for the origin named `name`, each
/// with the body at its own location.
pub open spec fn keys_held(
    name: Seq<char>,
    keys: Seq<OriginKeyIdent>,
    k: int,
    pg: Map<(Seq<char>, Seq<char>), Seq<u8>>,
    bodies: Map<Seq<char>, Seq<u8>>,
) -> bool {
    forall|j: int| 0 <= j < k ==> key_stored(name, #[trigger] keys[j], pg, bodies)
}

/// Postgres holds the keys of the origin named `name` in order, each with the
/// body at its own location, up to their end or up to one that is in `found`.
pub open spec fn keys_migrated(
    name: Seq<char>,
    keys: Seq<OriginKeyIdent>,
    pg: Map<(Seq<char>, Seq<char>), Seq<u8>>,
    bodies: Map<Seq<char>, Seq<u8>>,
    found: Set<(Seq<char>, Seq<char>)>,
) -> bool {
    exists|k: int|
        0 <= k <= keys.len() && #[trigger] keys_held(name, keys, k, pg, bodies) && (k == keys.len()
            || found.contains((name, keys[k].revision@)))
}

/// What holds of a faithful run of the origin-key migration of the origin
/// named `name` with keys `keys`, when it is in state `m`, about to receive
/// `reply`, with Postgres holding the keys `pg`, and `found` the keys the run
/// asked about while Postgres held them.
pub open spec fn key_run_invariant(
    m: OriginKeyMigrator,
    reply: Reply,
    name: Seq<char>,
    keys: Seq<OriginKeyIdent>,
    pg_origins: Map<Seq<char>, Origin>,
    bodies: Map<Seq<char>, Seq<u8>>,
    pg: Map<(Seq<char>, Seq<char>), Seq<u8>>,
    found: Set<(Seq<char>, Seq<char>)>,
) -> bool {
    let own = m.origin_name@ == name && m.origin_keys@ == keys;
    let origin_ok = |origin: Origin| pg_origins.contains_key(name) && origin == pg_origins[name];
    match m.phase {
        OriginKeyPhase::Begin => own && reply == Reply::Start,
        OriginKeyPhase::FetchingPgOrigin => own && reply == Reply::PgOrigin(
            if pg_origins.contains_key(name) {
                Some(pg_origins[name])
            } else {
                None
            },
        ),
        OriginKeyPhase::CheckingKey { origin, index } => {
            &&& own
            &&& origin_ok(origin)
            &&& index < keys.len()
            &&& keys_held(name, keys, index as int, pg, bodies)
            &&& reply == Reply::Exists(pg.contains_key((name, keys[index as int].revision@)))
            &&& pg.contains_key((name, keys[index as int].revision@)) ==> found.contains(
                (name, keys[index as int].revision@),
            )
        },
        OriginKeyPhase::ReadingBody { origin, index } => {
            &&& own
            &&& origin_ok(origin)
            &&& index < keys.len()
            &&& keys_held(name, keys, index as int, pg, bodies)
            &&& !pg.contains_key((name, keys[index as int].revision@))
            &&& bodies.contains_key(keys[index as int].location@)
            &&& reply matches Reply::KeyBody(b)
            &&& b@ == bodies[keys[index as int].location@]
        },
        OriginKeyPhase::Storing { origin, index } => {
            &&& own
            &&& origin_ok(origin)
            &&& index < keys.len()
            &&& keys_held(name, keys, index + 1, pg, bodies)
            &&& reply == Reply::Written
        },
        _ => false,
    }
}

/// Every key that `act` asks about while `pg` holds it is in `found`.
pub open spec fn records_key_ask(act: Action, pg: Map<(Seq<char>, Seq<char>), Seq<u8>>, found: Set<(Seq<char>, Seq<char>)>) -> bool {
    forall|link: (Seq<char>, Seq<char>)| #[trigger] asks_held_key(act, pg, link) ==> found.contains(link)
}

/// Keys held with their bodies stay held as Postgres gains keys.
pub(crate) proof fn lemma_keys_held_grows(
    name: Seq<char>,
    keys: Seq<OriginKeyIdent>,
    k: int,
    pg: Map<(Seq<char>, Seq<char>), Seq<u8>>,
    pg2: Map<(Seq<char>, Seq<char>), Seq<u8>>,
    bodies: Map<Seq<char>, Seq<u8>>,
)
    requires
        keys_held(name, keys, k, pg, bodies),
        pg.submap_of(pg2),
    ensures
        keys_held(name, keys, k, pg2, bodies),
{
    assert forall|j: int| 0 <= j < k implies key_stored(name, #[trigger] keys[j], pg2, bodies) by {
        let x = (name, keys[j].revision@);
        assert(key_stored(name, keys[j], pg, bodies));
        assert(pg.dom().contains(x) ==> pg2.dom().contains(x) && pg[x] == pg2[x]);
    }
}

pub(crate) proof fn lemma_key_step_keeps_invariant(
    m: OriginKeyMigrator,
    reply: Reply,
    name: Seq<char>,
    keys: Seq<OriginKeyIdent>,
    pg_origins: Map<Seq<char>, Origin>,
    bodies: Map<Seq<char>, Seq<u8>>,
    pg: Map<(Seq<char>, Seq<char>), Seq<u8>>,
    found: Set<(Seq<char>, Seq<char>)>,
    post: OriginKeyMigrator,
    act: Action,
    reply2: Reply,
    pg2: Map<(Seq<char>, Seq<char>), Seq<u8>>,
    found2: Set<(Seq<char>, Seq<char>)>,
)
    requires
        origins_by_name(pg_origins),
        keys_of_origin(keys, name),
        key_run_invariant(m, reply, name, keys, pg_origins, bodies, pg, found),
        m.steps_to(reply, post, act),
        key_answers(act, reply2, pg_origins, bodies, pg, pg2),
        found.subset_of(found2),
        records_key_ask(act, pg, found2),
    ensures
        key_run_invariant(post, reply2, name, keys, pg_origins, bodies, pg2, found2),
        pg.submap_of(pg2),
{
    match m.phase {
        OriginKeyPhase::FetchingPgOrigin => {
            if let Reply::PgOrigin(Some(origin)) = reply {
                assert(origin.name@ == name);
                if 0 < keys.len() {
                    let link = (name, keys[0].revision@);
                    if pg.contains_key(link) {
                        assert(asks_held_key(act, pg, link));
                    }
                }
            }
        },
        OriginKeyPhase::ReadingBody { origin, index } => {
            if let Reply::KeyBody(body) = reply {
                let key = keys[index as int];
                assert(key.origin@ == name);
                let x = (name, key.revision@);
                assert(pg2 == pg.insert(x, bodies[key.location@]));
                assert(pg.submap_of(pg2));
                assert(keys_held(name, keys, index + 1, pg2, bodies)) by {
                    assert forall|j: int| 0 <= j < index + 1 implies key_stored(
                        name,
                        #[trigger] keys[j],
                        pg2,
                        bodies,
                    ) by {
                        if j < index {
                            let y = (name, keys[j].revision@);
                            assert(key_stored(name, keys[j], pg, bodies));
                            assert(pg.dom().contains(y) ==> pg2.dom().contains(y) && pg[y] == pg2[y]);
                        }
                    }
                }
            }
        },
        OriginKeyPhase::Storing { origin, index } => {
            if let Reply::Written = reply {
                assert(origin.name@ == name);
                if index + 1 < keys.len() {
                    let link = (name, keys[index + 1].revision@);
                    if pg.contains_key(link) {
                        assert(asks_held_key(act, pg, link));
                    }
                }
            }
        },
        OriginKeyPhase::CheckingKey { origin, index } => {
            if let Reply::Exists(false) = reply {
                if index < keys.len() {
                    assert(key_answers(act, reply2, pg_origins, bodies, pg, pg2));
                }
            }
        },
        _ => {},
    }
}

pub(crate) proof fn lemma_key_finish_means_migrated(
    m: OriginKeyMigrator,
    reply: Reply,
    name: Seq<char>,
    keys: Seq<OriginKeyIdent>,
    pg_origins: Map<Seq<char>, Origin>,
    bodies: Map<Seq<char>, Seq<u8>>,
    pg: Map<(Seq<char>, Seq<char>), Seq<u8>>,
    found: Set<(Seq<char>, Seq<char>)>,
    post: OriginKeyMigrator,
)
    requires
        key_run_invariant(m, reply, name, keys, pg_origins, bodies, pg, found),
        m.steps_to(reply, post, Action::Finish),
    ensures
        keys_migrated(name, keys, pg, bodies, found),
{
    match m.phase {
        OriginKeyPhase::FetchingPgOrigin => {
            assert(keys_held(name, keys, 0, pg, bodies));
        },
        OriginKeyPhase::CheckingKey { origin, index } => {
            assert(keys_held(name, keys, index as int, pg, bodies));
        },
        OriginKeyPhase::Storing { origin, index } => {
            assert(keys_held(name, keys, keys.len() as int, pg, bodies));
        },
        _ => {},
    }
}

pub(crate) proof fn lemma_keys_held_when_asked_grows(actions: Seq<Action>, pgs: Seq<Map<(Seq<char>, Seq<char>), Seq<u8>>>, i: int)
    requires
        0 <= i < actions.len(),
        pgs.len() == actions.len(),
    ensures
        keys_held_when_asked(actions, pgs, i).subset_of(keys_held_when_asked(actions, pgs, i + 1)),
        records_key_ask(actions[i], pgs[i], keys_held_when_asked(actions, pgs, i + 1)),
{
    assert forall|link: (Seq<char>, Seq<char>)| #[trigger] keys_held_when_asked(
        actions,
        pgs,
        i,
    ).contains(link) implies keys_held_when_asked(actions, pgs, i + 1).contains(link) by {
        let t = choose|t: int| 0 <= t < i && #[trigger] asks_held_key(actions[t], pgs[t], link);
        assert(0 <= t < i + 1 && asks_held_key(actions[t], pgs[t], link));
    }
    assert forall|link: (Seq<char>, Seq<char>)| #[trigger] asks_held_key(
        actions[i],
        pgs[i],
        link,
    ) implies keys_held_when_asked(actions, pgs, i + 1).contains(link) by {
        assert(0 <= i < i + 1 && asks_held_key(actions[i], pgs[i], link));
    }
}

proof fn lemma_key_run_invariant_at(
    i: int,
    pg_origins: Map<Seq<char>, Origin>,
    bodies: Map<Seq<char>, Seq<u8>>,
    states: Seq<OriginKeyMigrator>,
    replies: Seq<Reply>,
    actions: Seq<Action>,
    pgs: Seq<Map<(Seq<char>, Seq<char>), Seq<u8>>>,
)
    requires
        0 <= i < actions.len(),
        states.len() == actions.len() + 1,
        replies.len() == actions.len(),
        pgs.len() == actions.len(),
        states[0].phase == OriginKeyPhase::Begin,
        replies[0] == Reply::Start,
        origins_by_name(pg_origins),
        keys_of_origin(states[0].origin_keys@, states[0].origin_name@),
        forall|k: int|
            0 <= k < actions.len() ==> #[trigger] states[k].steps_to(
                replies[k],
                states[k + 1],
                actions[k],
            ),
        forall|k: int|
            0 <= k < actions.len() - 1 ==> #[trigger] key_answers(
                actions[k],
                replies[k + 1],
                pg_origins,
                bodies,
                pgs[k],
                pgs[k + 1],
            ),
    ensures
        key_run_invariant(
            states[i],
            replies[i],
            states[0].origin_name@,
            states[0].origin_keys@,
            pg_origins,
            bodies,
            pgs[i],
            keys_held_when_asked(actions, pgs, i),
        ),
        forall|k: int| 0 <= k < i ==> (#[trigger] pgs[k]).submap_of(pgs[k + 1]),
    decreases i,
{
    if i > 0 {
        lemma_key_run_invariant_at(i - 1, pg_origins, bodies, states, replies, actions, pgs);
        let k = i - 1;
        assert(states[k].steps_to(replies[k], states[k + 1], actions[k]));
        assert(key_answers(actions[k], replies[k + 1], pg_origins, bodies, pgs[k], pgs[k + 1]));
        assert(k + 1 == i);
        lemma_keys_held_when_asked_grows(actions, pgs, k);
        lemma_key_step_keeps_invariant(
            states[k],
            replies[k],
            states[0].origin_name@,
            states[0].origin_keys@,
            pg_origins,
            bodies,
            pgs[k],
            keys_held_when_asked(actions, pgs, k),
            states[i],
            actions[k],
            replies[i],
            pgs[i],
            keys_held_when_asked(actions, pgs, i),
        );
    }
}

/// Law: a run of the origin-key migration of one origin, whose keys all
/// belong to it, against a store that answers faithfully and finds each
/// Postgres origin under its own name, from its start to `Finish`, leaves
/// Postgres holding the origin's keys in the given order, each with the body
/// of the key file at that key's own location, up to their end or up to a
/// revision that the run asked Postgres about while Postgres already held it.
/// Postgres only gains keys along the way and never changes one it holds.
///
/// `states[k]` takes `replies[k]` and moves to `states[k + 1]`, asking for
/// `actions[k]`; `pgs[k]` maps the keys that Postgres knows, by origin name and
/// revision, to their bodies, when `replies[k]` arrives, and so when
/// `actions[k]` is made; `bodies` maps each key file location to its body.
pub proof fn law_public_key_run_stores_keys_in_order(
    pg_origins: Map<Seq<char>, Origin>,
    bodies: Map<Seq<char>, Seq<u8>>,
    states: Seq<OriginKeyMigrator>,
    replies: Seq<Reply>,
    actions: Seq<Action>,
    pgs: Seq<Map<(Seq<char>, Seq<char>), Seq<u8>>>,
)
    requires
        actions.len() > 0,
        states.len() == actions.len() + 1,
        replies.len() == actions.len(),
        pgs.len() == actions.len(),
        states[0].phase == OriginKeyPhase::Begin,
        replies[0] == Reply::Start,
        origins_by_name(pg_origins),
        keys_of_origin(states[0].origin_keys@, states[0].origin_name@),
        forall|k: int|
            0 <= k < actions.len() ==> #[trigger] states[k].steps_to(
                replies[k],
                states[k + 1],
                actions[k],
            ),
        forall|k: int|
            0 <= k < actions.len() - 1 ==> #[trigger] key_answers(
                actions[k],
                replies[k + 1],
                pg_origins,
                bodies,
                pgs[k],
                pgs[k + 1],
            ),
        actions.last() == Action::Finish,
    ensures
        keys_migrated(
            states[0].origin_name@,
            states[0].origin_keys@,
            pgs.last(),
            bodies,
            keys_held_when_asked(actions, pgs, actions.len() as int),
        ),
        forall|k: int| 0 <= k < pgs.len() - 1 ==> (#[trigger] pgs[k]).submap_of(pgs[k + 1]),
{
    let n = actions.len() as int;
    let name = states[0].origin_name@;
    let keys = states[0].origin_keys@;
    lemma_key_run_invariant_at(n - 1, pg_origins, bodies, states, replies, actions, pgs);
    let k = n - 1;
    let found = keys_held_when_asked(actions, pgs, k);
    let found_all = keys_held_when_asked(actions, pgs, n);
    assert(states[k].steps_to(replies[k], states[k + 1], actions[k]));
    assert(k + 1 == n);
    lemma_key_finish_means_migrated(
        states[k],
        replies[k],
        name,
        keys,
        pg_origins,
        bodies,
        pgs[k],
        found,
        states[n],
    );
    lemma_keys_held_when_asked_grows(actions, pgs, k);
    let w = choose|w: int|
        0 <= w <= keys.len() && #[trigger] keys_held(name, keys, w, pgs[k], bodies) && (w
            == keys.len() || found.contains((name, keys[w].revision@)));
    assert(keys_held(name, keys, w, pgs.last(), bodies));
}

} // verus!
