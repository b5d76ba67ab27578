//! Packages: for each Redis origin, its packages are stored in Postgres in the
//! order the Redis index lists them, up to the first one Postgres already has.
use vstd::prelude::*;
use vstd::string::StringExecFns;
use crate::model::{Origin, OriginPackageCreate, Package, PackageIdent};
use crate::redis_extraction::{keys_pattern, keys_pattern_spec, key_ids_spec};
use crate::migrators::common::{
    Action, Failure, IdCursor, NextId, Reply, cursor_over_keys, empty_cursor, left, lex_lt,
    next_id, next_id_spec, remaining, lemma_next_id_progress,
};

verus! {

/// Where a package migration stands.
pub enum PackagePhase {
    /// Waiting for `Reply::Start`, to list the origin keys.
    Begin,
    /// Waiting for the origin keys.
    ListingKeys,
    /// Waiting for the Redis origin of the current id.
    FetchingRedisOrigin,
    /// Waiting for the Postgres origin of the Redis origin's name.
    FetchingPgOrigin(Origin),
    /// Waiting for the package identifiers of the origin; `Origin` is the
    /// Postgres one.
    ListingIdents(Origin),
    /// Waiting for Postgres to say whether it holds `idents[index]`.
    CheckingPackage { origin: Origin, idents: Vec<PackageIdent>, index: usize },
    /// Waiting for the Redis package `idents[index]`.
    FetchingPackage { origin: Origin, idents: Vec<PackageIdent>, index: usize },
    /// Waiting for the package to be written.
    Storing { origin: Origin, idents: Vec<PackageIdent>, index: usize },
    /// Every id has been handled.
    Finished,
    /// The run stopped.
    Failed(Failure),
}

/// The package migration.
pub struct PackageMigrator {
    pub phase: PackagePhase,
    pub cursor: IdCursor,
}

/// The package request for a Redis package in a Postgres origin: the
/// package's own data, target `x86_64-linux`, and the origin's id and owner.
pub open spec fn is_package_for(act: Action, package: Package, origin: Origin) -> bool {
    &&& act matches Action::CreatePackage(opc)
    &&& opc.origin_id == origin.id
    &&& opc.owner_id == origin.owner_id
    &&& opc.ident == package.ident
    &&& opc.checksum == package.checksum
    &&& opc.manifest == package.manifest
    &&& opc.deps == package.deps
    &&& opc.tdeps == package.tdeps
    &&& opc.exposes == package.exposes
    &&& opc.config == package.config
    &&& opc.target@ == "x86_64-linux"@
}

fn package_request(package: Package, origin: &Origin) -> (act: Action)
    ensures
        is_package_for(act, package, *origin),
{
    let target = String::from_str("x86_64-linux");
    proof {
        reveal_strlit("x86_64-linux");
    }
    Action::CreatePackage(
        OriginPackageCreate {
            origin_id: origin.id,
            owner_id: origin.owner_id,
            ident: package.ident,
            checksum: package.checksum,
            manifest: package.manifest,
            deps: package.deps,
            tdeps: package.tdeps,
            exposes: package.exposes,
            config: package.config,
            target,
        },
    )
}

impl PackageMigrator {
    /// The move to the next id, from `cursor`.
    pub open spec fn advances(cursor: IdCursor, post: Self, act: Action) -> bool {
        let (c, n) = next_id_spec(cursor);
        match n {
            NextId::Exhausted => post == (PackageMigrator { phase: PackagePhase::Finished, cursor: c })
                && act == Action::Finish,
            NextId::Malformed => Self::fails(c, Failure::MalformedKeyId, post, act),
            NextId::Id(id) => post == (PackageMigrator {
                phase: PackagePhase::FetchingRedisOrigin,
                cursor: c,
            }) && act == Action::FindRedisOrigin(id),
        }
    }

    /// Stopping for `f`.
    pub open spec fn fails(cursor: IdCursor, f: Failure, post: Self, act: Action) -> bool {
        post == (PackageMigrator { phase: PackagePhase::Failed(f), cursor }) && act == Action::Abort(
            f,
        )
    }

    /// The move to package `index`, or past the origin when none is left.
    pub open spec fn visits(
        cursor: IdCursor,
        origin: Origin,
        idents: Vec<PackageIdent>,
        index: usize,
        post: Self,
        act: Action,
    ) -> bool {
        if index < idents.len() {
            post == (PackageMigrator {
                phase: PackagePhase::CheckingPackage { origin, idents, index },
                cursor,
            }) && act == Action::CheckPgPackage(idents@[index as int])
        } else {
            Self::advances(cursor, post, act)
        }
    }

    /// One step: from `self`, on `reply`, the migration moves to `post` and asks
    /// for `act`.
    pub open spec fn steps_to(self, reply: Reply, post: Self, act: Action) -> bool {
        let bad = Self::fails(self.cursor, Failure::UnexpectedReply, post, act);
        match self.phase {
            PackagePhase::Begin => match reply {
                Reply::Start => {
                    &&& post == (PackageMigrator { phase: PackagePhase::ListingKeys, cursor: self.cursor })
                    &&& act matches Action::ListRedisKeys(p)
                    &&& p@ == keys_pattern_spec("origin"@)
                },
                _ => bad,
            },
            PackagePhase::ListingKeys => match reply {
                Reply::Keys(keys) => exists|c: IdCursor|
                    c.ids@ == key_ids_spec(keys.deep_view()) && c.pos == 0
                        && #[trigger] Self::advances(c, post, act),
                _ => bad,
            },
            PackagePhase::FetchingRedisOrigin => match reply {
                Reply::RedisOrigin(o) => post == (PackageMigrator {
                    phase: PackagePhase::FetchingPgOrigin(o),
                    cursor: self.cursor,
                }) && act == Action::GetPgOrigin(o.name),
                _ => bad,
            },
            PackagePhase::FetchingPgOrigin(redis_origin) => match reply {
                Reply::PgOrigin(None) => Self::fails(self.cursor, Failure::NoOriginInPostgres, post, act),
                Reply::PgOrigin(Some(o)) => post == (PackageMigrator {
                    phase: PackagePhase::ListingIdents(o),
                    cursor: self.cursor,
                }) && act == Action::ListRedisPackageIdents(redis_origin.name),
                _ => bad,
            },
            PackagePhase::ListingIdents(origin) => match reply {
                Reply::PackageIdents(idents) => Self::visits(self.cursor, origin, idents, 0, post, act),
                _ => bad,
            },
            PackagePhase::CheckingPackage { origin, idents, index } => match reply {
                Reply::Exists(true) => Self::advances(self.cursor, post, act),
                Reply::Exists(false) => if index < idents.len() {
                    post == (PackageMigrator {
                        phase: PackagePhase::FetchingPackage { origin, idents, index },
                        cursor: self.cursor,
                    }) && act == Action::FindRedisPackage(idents@[index as int])
                } else {
                    Self::advances(self.cursor, post, act)
                },
                _ => bad,
            },
            PackagePhase::FetchingPackage { origin, idents, index } => match reply {
                Reply::RedisPackage(p) => post == (PackageMigrator {
                    phase: PackagePhase::Storing { origin, idents, index },
                    cursor: self.cursor,
                }) && is_package_for(act, p, origin),
                _ => bad,
            },
            PackagePhase::Storing { origin, idents, index } => match reply {
                Reply::Written => if index < idents.len() {
                    Self::visits(self.cursor, origin, idents, (index + 1) as usize, post, act)
                } else {
                    Self::advances(self.cursor, post, act)
                },
                _ => bad,
            },
            PackagePhase::Finished => post == self && act == Action::Finish,
            PackagePhase::Failed(f) => post == self && act == Action::Abort(f),
        }
    }

    /// The migration of the packages of every origin
    /// (`PackageMigrator::new(..).migrate()`).
    pub fn new() -> (m: Self)
        ensures
            m.phase == PackagePhase::Begin,
            m.cursor.ids@.len() == 0,
            m.cursor.pos == 0,
    {
        PackageMigrator { phase: PackagePhase::Begin, cursor: empty_cursor() }
    }

    fn advance(cursor: IdCursor) -> (res: (Self, Action))
        ensures
            Self::advances(cursor, res.0, res.1),
    {
        let (c, n) = next_id(cursor);
        match n {
            NextId::Exhausted => (PackageMigrator { phase: PackagePhase::Finished, cursor: c }, Action::Finish),
            NextId::Malformed => Self::fail(c, Failure::MalformedKeyId),
            NextId::Id(id) => (
                PackageMigrator { phase: PackagePhase::FetchingRedisOrigin, cursor: c },
                Action::FindRedisOrigin(id),
            ),
        }
    }

    fn fail(cursor: IdCursor, f: Failure) -> (res: (Self, Action))
        ensures
            Self::fails(cursor, f, res.0, res.1),
    {
        (PackageMigrator { phase: PackagePhase::Failed(f), cursor }, Action::Abort(f))
    }

    fn visit(cursor: IdCursor, origin: Origin, idents: Vec<PackageIdent>, index: usize) -> (res: (
        Self,
        Action,
    ))
        ensures
            Self::visits(cursor, origin, idents, index, res.0, res.1),
    {
        if index < idents.len() {
            let ident = idents[index].duplicate();
            (
                PackageMigrator {
                    phase: PackagePhase::CheckingPackage { origin, idents, index },
                    cursor,
                },
                Action::CheckPgPackage(ident),
            )
        } else {
            Self::advance(cursor)
        }
    }

    /// Takes one step on `reply`.
    pub fn step(self, reply: Reply) -> (res: (Self, Action))
        ensures
            self.steps_to(reply, res.0, res.1),
    {
        let PackageMigrator { phase, cursor } = self;
        match phase {
            PackagePhase::Begin => match reply {
                Reply::Start => {
                    let p = keys_pattern("origin");
                    proof {
                        reveal_strlit("origin");
                    }
                    (PackageMigrator { phase: PackagePhase::ListingKeys, cursor }, Action::ListRedisKeys(p))
                },
                _ => Self::fail(cursor, Failure::UnexpectedReply),
            },
            PackagePhase::ListingKeys => match reply {
                Reply::Keys(keys) => {
                    let c = cursor_over_keys(&keys);
                    let res = Self::advance(c);
                    assert(Self::advances(c, res.0, res.1));
                    res
                },
                _ => Self::fail(cursor, Failure::UnexpectedReply),
            },
            PackagePhase::FetchingRedisOrigin => match reply {
                Reply::RedisOrigin(o) => {
                    let name = o.name.clone();
                    (
                        PackageMigrator { phase: PackagePhase::FetchingPgOrigin(o), cursor },
                        Action::GetPgOrigin(name),
                    )
                },
                _ => Self::fail(cursor, Failure::UnexpectedReply),
            },
            PackagePhase::FetchingPgOrigin(redis_origin) => match reply {
                Reply::PgOrigin(None) => Self::fail(cursor, Failure::NoOriginInPostgres),
                Reply::PgOrigin(Some(o)) => (
                    PackageMigrator { phase: PackagePhase::ListingIdents(o), cursor },
                    Action::ListRedisPackageIdents(redis_origin.name),
                ),
                _ => Self::fail(cursor, Failure::UnexpectedReply),
            },
            PackagePhase::ListingIdents(origin) => match reply {
                Reply::PackageIdents(idents) => Self::visit(cursor, origin, idents, 0),
                _ => Self::fail(cursor, Failure::UnexpectedReply),
            },
            PackagePhase::CheckingPackage { origin, idents, index } => match reply {
                Reply::Exists(true) => Self::advance(cursor),
                Reply::Exists(false) => {
                    if index < idents.len() {
                        let ident = idents[index].duplicate();
                        (
                            PackageMigrator {
                                phase: PackagePhase::FetchingPackage { origin, idents, index },
                                cursor,
                            },
                            Action::FindRedisPackage(ident),
                        )
                    } else {
                        Self::advance(cursor)
                    }
                },
                _ => Self::fail(cursor, Failure::UnexpectedReply),
            },
            PackagePhase::FetchingPackage { origin, idents, index } => match reply {
                Reply::RedisPackage(p) => {
                    let act = package_request(p, &origin);
                    (PackageMigrator { phase: PackagePhase::Storing { origin, idents, index }, cursor }, act)
                },
                _ => Self::fail(cursor, Failure::UnexpectedReply),
            },
            PackagePhase::Storing { origin, idents, index } => match reply {
                Reply::Written => {
                    if index < idents.len() {
                        Self::visit(cursor, origin, idents, index + 1)
                    } else {
                        Self::advance(cursor)
                    }
                },
                _ => Self::fail(cursor, Failure::UnexpectedReply),
            },
            PackagePhase::Finished => (PackageMigrator { phase: PackagePhase::Finished, cursor }, Action::Finish),
            PackagePhase::Failed(f) => Self::fail(cursor, f),
        }
    }

    /// The run has ended, well or not.
    pub open spec fn ended(self) -> bool {
        self.phase is Finished || self.phase is Failed
    }

    /// How far the run is from its end (compared lexicographically).
    pub open spec fn rank(self) -> (nat, nat, nat, nat) {
        let r = remaining(self.cursor);
        match self.phase {
            PackagePhase::Begin => (2, 0, 0, 0),
            PackagePhase::ListingKeys => (1, 0, 0, 0),
            PackagePhase::FetchingRedisOrigin => (0, r, 4, 0),
            PackagePhase::FetchingPgOrigin(_) => (0, r, 3, 0),
            PackagePhase::ListingIdents(_) => (0, r, 2, 0),
            PackagePhase::CheckingPackage { idents, index, .. } => (
                0,
                r,
                1,
                left(idents.len(), index) * 3 + 3,
            ),
            PackagePhase::FetchingPackage { idents, index, .. } => (
                0,
                r,
                1,
                left(idents.len(), index) * 3 + 2,
            ),
            PackagePhase::Storing { idents, index, .. } => (
                0,
                r,
                1,
                left(idents.len(), index) * 3 + 1,
            ),
            PackagePhase::Finished => (0, r, 0, 0),
            PackagePhase::Failed(_) => (0, r, 0, 0),
        }
    }
}

proof fn lemma_advances_rank(c: IdCursor, post: PackageMigrator, act: Action)
    requires
        PackageMigrator::advances(c, post, act),
    ensures
        post.rank().0 == 0,
        remaining(c) == 0 ==> post.rank() == (0nat, 0nat, 0nat, 0nat),
        remaining(c) > 0 ==> post.rank().1 < remaining(c),
{
    lemma_next_id_progress(c);
}

/// Law: a package is stored only after Postgres said it does not hold it, and
/// what is stored is the Redis package, in the Postgres origin.
pub proof fn law_package_stored_only_when_missing(
    m: PackageMigrator,
    reply: Reply,
    post: PackageMigrator,
    act: Action,
)
    requires
        m.steps_to(reply, post, act),
        act is CreatePackage,
    ensures
        m.phase matches PackagePhase::FetchingPackage { origin, .. }
            && reply matches Reply::RedisPackage(p) && is_package_for(act, p, origin),
{
    if let PackagePhase::ListingKeys = m.phase {
        if let Reply::Keys(keys) = reply {
            let c = choose|c: IdCursor|
                c.ids@ == key_ids_spec(keys.deep_view()) && c.pos == 0
                    && #[trigger] PackageMigrator::advances(c, post, act);
        }
    }
}

/// Law: once Postgres holds a package of an origin, the origin's remaining
/// packages are left alone and the run moves on to the next origin.
pub proof fn law_package_known_ends_origin(
    m: PackageMigrator,
    post: PackageMigrator,
    act: Action,
)
    requires
        m.phase is CheckingPackage,
        m.steps_to(Reply::Exists(true), post, act),
    ensures
        PackageMigrator::advances(m.cursor, post, act),
{
}

/// Law: a run that has ended stays where it is and repeats its last word.
pub proof fn law_package_ended_run_stays(
    m: PackageMigrator,
    reply: Reply,
    post: PackageMigrator,
    act: Action,
)
    requires
        m.steps_to(reply, post, act),
        m.ended(),
    ensures
        post == m,
{
}

/// Law: every step of a run that has not ended brings it closer to its end.
pub proof fn law_package_run_progresses(
    m: PackageMigrator,
    reply: Reply,
    post: PackageMigrator,
    act: Action,
)
    requires
        m.steps_to(reply, post, act),
        !m.ended(),
    ensures
        lex_lt(post.rank(), m.rank()),
{
    if let PackagePhase::ListingKeys = m.phase {
        if let Reply::Keys(keys) = reply {
            let c = choose|c: IdCursor|
                c.ids@ == key_ids_spec(keys.deep_view()) && c.pos == 0
                    && #[trigger] PackageMigrator::advances(c, post, act);
            lemma_advances_rank(c, post, act);
        }
    } else if PackageMigrator::advances(m.cursor, post, act) {
        lemma_advances_rank(m.cursor, post, act);
    }
}

/// The Redis data and the Postgres lookups that the package migration reads:
/// the key list, the origins of Redis by id, the package identifiers of Redis
/// by origin name, the Redis packages by identifier, and the origins of
/// Postgres by name.
pub struct PackageStores {
    pub keys: Seq<Seq<char>>,
    pub redis_origins: Map<u64, Origin>,
    pub redis_idents: Map<Seq<char>, Seq<PackageIdent>>,
    pub redis_packages: Map<PackageIdent, Package>,
    pub pg_origins: Map<Seq<char>, Origin>,
}

/// The package identifiers that the run asked Postgres about, in its first
/// `n` actions, while Postgres held them; `pgs[t]` is what Postgres holds when
/// action `t` is made.
pub open spec fn held_when_asked(actions: Seq<Action>, pgs: Seq<Map<PackageIdent, OriginPackageCreate>>, n: int) -> Set<PackageIdent> {
    Set::new(
        |p: PackageIdent|
            exists|t: int|
                0 <= t < n && #[trigger] actions[t] == Action::CheckPgPackage(p) && pgs[t].contains_key(
                    p,
                ),
    )
}

impl PackageStores {
    /// Each Redis package is found under its own identifier.
    pub open spec fn packages_by_ident(self) -> bool {
        forall|i: PackageIdent| self.redis_packages.contains_key(i) ==> (
        #[trigger] self.redis_packages[i]).ident == i
    }

    /// The stores answer `act` with `reply`; the packages Postgres holds, by
    /// identifier, go from `pg` to `pg_after`.
    pub open spec fn answers(self, act: Action, reply: Reply, pg: Map<PackageIdent, OriginPackageCreate>, pg_after: Map<PackageIdent, OriginPackageCreate>) -> bool {
        match act {
            Action::ListRedisKeys(_) => reply matches Reply::Keys(k) && k.deep_view() == self.keys
                && pg_after == pg,
            Action::FindRedisOrigin(id) => self.redis_origins.contains_key(id) && reply
                == Reply::RedisOrigin(self.redis_origins[id]) && pg_after == pg,
            Action::GetPgOrigin(name) => reply == Reply::PgOrigin(
                if self.pg_origins.contains_key(name@) {
                    Some(self.pg_origins[name@])
                } else {
                    None
                },
            ) && pg_after == pg,
            Action::ListRedisPackageIdents(name) => {
                &&& self.redis_idents.contains_key(name@)
                &&& reply matches Reply::PackageIdents(v)
                &&& v@ == self.redis_idents[name@]
                &&& pg_after == pg
            },
            Action::CheckPgPackage(ident) => reply == Reply::Exists(pg.contains_key(ident))
                && pg_after == pg,
            Action::FindRedisPackage(ident) => self.redis_packages.contains_key(ident) && reply
                == Reply::RedisPackage(self.redis_packages[ident]) && pg_after == pg,
            Action::CreatePackage(opc) => reply == Reply::Written && pg_after == pg.insert(
                opc.ident,
                opc,
            ),
            _ => false,
        }
    }

    /// Postgres holds package `ident` as the record of its Redis package in
    /// the Postgres origin `origin`.
    pub open spec fn stored_as_record(self, origin: Origin, ident: PackageIdent, pg: Map<PackageIdent, OriginPackageCreate>) -> bool {
        &&& pg.contains_key(ident)
        &&& self.redis_packages.contains_key(ident)
        &&& is_package_for(Action::CreatePackage(pg[ident]), self.redis_packages[ident], origin)
    }

    /// Postgres holds the first `k` packages of `idents`, each as the record
    /// of its Redis package in the Postgres origin `origin`.
    pub open spec fn prefix_held(self, origin: Origin, idents: Seq<PackageIdent>, k: int, pg: Map<PackageIdent, OriginPackageCreate>) -> bool {
        forall|j: int| 0 <= j < k ==> self.stored_as_record(origin, #[trigger] idents[j], pg)
    }

    /// The packages of Redis origin `id` are held in Postgres, as the records
    /// of the Redis packages in the Postgres origin of the same name, up to
    /// the end of its identifiers, or up to an identifier that is in `found`.
    pub open spec fn origin_migrated(self, id: u64, pg: Map<PackageIdent, OriginPackageCreate>, found: Set<PackageIdent>) -> bool {
        let name = self.redis_origins[id].name@;
        let idents = self.redis_idents[name];
        &&& self.redis_origins.contains_key(id)
        &&& self.redis_idents.contains_key(name)
        &&& self.pg_origins.contains_key(name)
        &&& exists|k: int|
            0 <= k <= idents.len() && #[trigger] self.prefix_held(self.pg_origins[name], idents, k, pg)
                && (k == idents.len() || found.contains(idents[k]))
    }

    /// The first `k` ids of the walk are ids of migrated Redis origins.
    pub open spec fn migrated_before(self, c: IdCursor, k: int, pg: Map<PackageIdent, OriginPackageCreate>, found: Set<PackageIdent>) -> bool {
        forall|j: int|
            0 <= j < k ==> (#[trigger] c.ids@[j] matches Some(id) && self.origin_migrated(
                id,
                pg,
                found,
            ))
    }

    /// `origin` and `idents` are the Postgres origin and the Redis package
    /// identifiers of the Redis origin `current`.
    pub open spec fn working_on(self, current: Option<u64>, origin: Origin, idents: Vec<PackageIdent>) -> bool {
        &&& current matches Some(id)
        &&& self.redis_origins.contains_key(id)
        &&& self.redis_idents.contains_key(self.redis_origins[id].name@)
        &&& self.pg_origins.contains_key(self.redis_origins[id].name@)
        &&& origin == self.pg_origins[self.redis_origins[id].name@]
        &&& idents@ == self.redis_idents[self.redis_origins[id].name@]
    }

    /// What holds of a faithful run of the whole package migration when it is
    /// in state `m`, about to receive `reply`, with Postgres holding the
    /// packages `pg`, and `found` the identifiers the run has asked about while
    /// Postgres held them.
    pub open spec fn run_invariant(self, m: PackageMigrator, reply: Reply, pg: Map<PackageIdent, OriginPackageCreate>, found: Set<PackageIdent>) -> bool {
        let c = m.cursor;
        let walking = c.ids@ == key_ids_spec(self.keys) && 1 <= c.pos <= c.ids@.len();
        let current = c.ids@[c.pos - 1];
        let before = self.migrated_before(c, c.pos - 1, pg, found);
        match m.phase {
            PackagePhase::Begin => reply == Reply::Start,
            PackagePhase::ListingKeys => reply matches Reply::Keys(k) && k.deep_view() == self.keys,
            PackagePhase::FetchingRedisOrigin => {
                &&& walking
                &&& before
                &&& current matches Some(id)
                &&& self.redis_origins.contains_key(id)
                &&& reply == Reply::RedisOrigin(self.redis_origins[id])
            },
            PackagePhase::FetchingPgOrigin(o) => {
                &&& walking
                &&& before
                &&& current matches Some(id)
                &&& self.redis_origins.contains_key(id)
                &&& o == self.redis_origins[id]
                &&& reply == Reply::PgOrigin(
                    if self.pg_origins.contains_key(o.name@) {
                        Some(self.pg_origins[o.name@])
                    } else {
                        None
                    },
                )
            },
            PackagePhase::ListingIdents(origin) => {
                &&& walking
                &&& before
                &&& current matches Some(id)
                &&& self.redis_origins.contains_key(id)
                &&& self.pg_origins.contains_key(self.redis_origins[id].name@)
                &&& origin == self.pg_origins[self.redis_origins[id].name@]
                &&& self.redis_idents.contains_key(self.redis_origins[id].name@)
                &&& reply matches Reply::PackageIdents(v)
                &&& v@ == self.redis_idents[self.redis_origins[id].name@]
            },
            PackagePhase::CheckingPackage { origin, idents, index } => {
                &&& walking
                &&& before
                &&& self.working_on(current, origin, idents)
                &&& index < idents.len()
                &&& self.prefix_held(origin, idents@, index as int, pg)
                &&& reply == Reply::Exists(pg.contains_key(idents@[index as int]))
                &&& pg.contains_key(idents@[index as int]) ==> found.contains(idents@[index as int])
            },
            PackagePhase::FetchingPackage { origin, idents, index } => {
                &&& walking
                &&& before
                &&& self.working_on(current, origin, idents)
                &&& index < idents.len()
                &&& self.prefix_held(origin, idents@, index as int, pg)
                &&& !pg.contains_key(idents@[index as int])
                &&& self.redis_packages.contains_key(idents@[index as int])
                &&& reply == Reply::RedisPackage(self.redis_packages[idents@[index as int]])
            },
            PackagePhase::Storing { origin, idents, index } => {
                &&& walking
                &&& before
                &&& self.working_on(current, origin, idents)
                &&& index < idents.len()
                &&& self.prefix_held(origin, idents@, index + 1, pg)
                &&& reply == Reply::Written
            },
            _ => false,
        }
    }
}

/// If `act` asks about a package that `pg` holds, `found` has it.
spec fn records_ask(act: Action, pg: Map<PackageIdent, OriginPackageCreate>, found: Set<PackageIdent>) -> bool {
    match act {
        Action::CheckPgPackage(p) => pg.contains_key(p) ==> found.contains(p),
        _ => true,
    }
}

proof fn lemma_prefix_held_grows(
    st: PackageStores,
    origin: Origin,
    idents: Seq<PackageIdent>,
    k: int,
    pg: Map<PackageIdent, OriginPackageCreate>,
    pg2: Map<PackageIdent, OriginPackageCreate>,
)
    requires
        st.prefix_held(origin, idents, k, pg),
        pg.submap_of(pg2),
    ensures
        st.prefix_held(origin, idents, k, pg2),
{
    assert forall|j: int| 0 <= j < k implies st.stored_as_record(origin, #[trigger] idents[j], pg2) by {
        let x = idents[j];
        assert(st.stored_as_record(origin, x, pg));
        assert(pg.dom().contains(x) ==> pg2.dom().contains(x) && pg[x] == pg2[x]);
    }
}

proof fn lemma_migrated_before_grows(
    st: PackageStores,
    c: IdCursor,
    k: int,
    pg: Map<PackageIdent, OriginPackageCreate>,
    pg2: Map<PackageIdent, OriginPackageCreate>,
    found: Set<PackageIdent>,
    found2: Set<PackageIdent>,
)
    requires
        st.migrated_before(c, k, pg, found),
        pg.submap_of(pg2),
        found.subset_of(found2),
    ensures
        st.migrated_before(c, k, pg2, found2),
{
    assert forall|j: int| 0 <= j < k implies (#[trigger] c.ids@[j] matches Some(id)
        && st.origin_migrated(id, pg2, found2)) by {
        if let Some(id) = c.ids@[j] {
            assert(st.origin_migrated(id, pg, found));
            let name = st.redis_origins[id].name@;
            let idents = st.redis_idents[name];
            let origin = st.pg_origins[name];
            let w = choose|w: int|
                0 <= w <= idents.len() && #[trigger] st.prefix_held(origin, idents, w, pg) && (w
                    == idents.len() || found.contains(idents[w]));
            lemma_prefix_held_grows(st, origin, idents, w, pg, pg2);
        }
    }
}

/// Once the packages of the current origin are held up to its end, or up to
/// an identifier in `found`, the ids up to and including the current one are
/// migrated.
proof fn lemma_current_done(
    st: PackageStores,
    c: IdCursor,
    origin: Origin,
    idents: Vec<PackageIdent>,
    k: int,
    pg: Map<PackageIdent, OriginPackageCreate>,
    found: Set<PackageIdent>,
)
    requires
        1 <= c.pos <= c.ids@.len(),
        st.migrated_before(c, c.pos - 1, pg, found),
        st.working_on(c.ids@[c.pos - 1], origin, idents),
        0 <= k <= idents.len(),
        st.prefix_held(origin, idents@, k, pg),
        k == idents.len() || found.contains(idents@[k]),
    ensures
        st.migrated_before(c, c.pos as int, pg, found),
{
    if let Some(id) = c.ids@[c.pos - 1] {
        let all = st.redis_idents[st.redis_origins[id].name@];
        assert(st.prefix_held(origin, all, k, pg));
        assert(st.origin_migrated(id, pg, found));
    }
    assert forall|j: int| 0 <= j < c.pos implies (#[trigger] c.ids@[j] matches Some(id)
        && st.origin_migrated(id, pg, found)) by {
        if j < c.pos - 1 {
        }
    }
}

proof fn lemma_advance_keeps_invariant(
    st: PackageStores,
    c: IdCursor,
    pg: Map<PackageIdent, OriginPackageCreate>,
    found: Set<PackageIdent>,
    post: PackageMigrator,
    act: Action,
    reply2: Reply,
    pg2: Map<PackageIdent, OriginPackageCreate>,
    found2: Set<PackageIdent>,
)
    requires
        c.ids@ == key_ids_spec(st.keys),
        c.pos <= c.ids@.len(),
        st.migrated_before(c, c.pos as int, pg, found),
        PackageMigrator::advances(c, post, act),
        st.answers(act, reply2, pg, pg2),
        found.subset_of(found2),
    ensures
        st.run_invariant(post, reply2, pg2, found2),
        pg == pg2,
{
    let (c2, n) = next_id_spec(c);
    if let NextId::Id(id) = n {
        lemma_migrated_before_grows(st, c, c.pos as int, pg, pg2, found, found2);
        assert(c2.pos == c.pos + 1);
        assert(st.migrated_before(c2, c2.pos - 1, pg2, found2));
    }
}

proof fn lemma_visit_keeps_invariant(
    st: PackageStores,
    c: IdCursor,
    origin: Origin,
    idents: Vec<PackageIdent>,
    index: usize,
    pg: Map<PackageIdent, OriginPackageCreate>,
    found: Set<PackageIdent>,
    post: PackageMigrator,
    act: Action,
    reply2: Reply,
    pg2: Map<PackageIdent, OriginPackageCreate>,
    found2: Set<PackageIdent>,
)
    requires
        c.ids@ == key_ids_spec(st.keys),
        1 <= c.pos <= c.ids@.len(),
        st.migrated_before(c, c.pos - 1, pg, found),
        st.working_on(c.ids@[c.pos - 1], origin, idents),
        index <= idents.len(),
        st.prefix_held(origin, idents@, index as int, pg),
        PackageMigrator::visits(c, origin, idents, index, post, act),
        st.answers(act, reply2, pg, pg2),
        found.subset_of(found2),
        records_ask(act, pg, found2),
    ensures
        st.run_invariant(post, reply2, pg2, found2),
        pg == pg2,
{
    if index < idents.len() {
        assert(pg2 == pg);
        lemma_migrated_before_grows(st, c, c.pos - 1, pg, pg2, found, found2);
    } else {
        lemma_current_done(st, c, origin, idents, index as int, pg, found);
        lemma_advance_keeps_invariant(st, c, pg, found, post, act, reply2, pg2, found2);
    }
}

proof fn lemma_step_keeps_invariant(
    st: PackageStores,
    m: PackageMigrator,
    reply: Reply,
    pg: Map<PackageIdent, OriginPackageCreate>,
    found: Set<PackageIdent>,
    post: PackageMigrator,
    act: Action,
    reply2: Reply,
    pg2: Map<PackageIdent, OriginPackageCreate>,
    found2: Set<PackageIdent>,
)
    requires
        st.packages_by_ident(),
        st.run_invariant(m, reply, pg, found),
        m.steps_to(reply, post, act),
        st.answers(act, reply2, pg, pg2),
        found.subset_of(found2),
        records_ask(act, pg, found2),
    ensures
        st.run_invariant(post, reply2, pg2, found2),
        pg.submap_of(pg2),
{
    let c = m.cursor;
    match m.phase {
        PackagePhase::ListingKeys => {
            if let Reply::Keys(k) = reply {
                let c0 = choose|c0: IdCursor|
                    c0.ids@ == key_ids_spec(k.deep_view()) && c0.pos == 0
                        && #[trigger] PackageMigrator::advances(c0, post, act);
                lemma_advance_keeps_invariant(st, c0, pg, found, post, act, reply2, pg2, found2);
            }
        },
        PackagePhase::FetchingRedisOrigin => {
            lemma_migrated_before_grows(st, c, c.pos - 1, pg, pg2, found, found2);
        },
        PackagePhase::FetchingPgOrigin(o) => {
            lemma_migrated_before_grows(st, c, c.pos - 1, pg, pg2, found, found2);
        },
        PackagePhase::ListingIdents(origin) => {
            if let Reply::PackageIdents(idents) = reply {
                lemma_visit_keeps_invariant(
                    st,
                    c,
                    origin,
                    idents,
                    0,
                    pg,
                    found,
                    post,
                    act,
                    reply2,
                    pg2,
                    found2,
                );
            }
        },
        PackagePhase::CheckingPackage { origin, idents, index } => {
            if reply == Reply::Exists(true) {
                lemma_current_done(st, c, origin, idents, index as int, pg, found);
                lemma_advance_keeps_invariant(st, c, pg, found, post, act, reply2, pg2, found2);
            } else {
                lemma_migrated_before_grows(st, c, c.pos - 1, pg, pg2, found, found2);
            }
        },
        PackagePhase::FetchingPackage { origin, idents, index } => {
            if let Reply::RedisPackage(p) = reply {
                let ident = idents@[index as int];
                assert(p.ident == ident);
                if let Action::CreatePackage(opc) = act {
                    assert(pg2 == pg.insert(ident, opc));
                    assert(pg.submap_of(pg2));
                    lemma_migrated_before_grows(st, c, c.pos - 1, pg, pg2, found, found2);
                    assert(st.prefix_held(origin, idents@, index + 1, pg2)) by {
                        assert forall|j: int| 0 <= j < index + 1 implies st.stored_as_record(
                            origin,
                            #[trigger] idents@[j],
                            pg2,
                        ) by {
                            if j < index {
                                assert(st.stored_as_record(origin, idents@[j], pg));
                                assert(pg2[idents@[j]] == pg[idents@[j]]);
                            } else {
                                assert(pg2[ident] == opc);
                            }
                        }
                    }
                }
            }
        },
        PackagePhase::Storing { origin, idents, index } => {
            if let Reply::Written = reply {
                lemma_visit_keeps_invariant(
                    st,
                    c,
                    origin,
                    idents,
                    (index + 1) as usize,
                    pg,
                    found,
                    post,
                    act,
                    reply2,
                    pg2,
                    found2,
                );
            }
        },
        _ => {},
    }
}

proof fn lemma_advance_to_finish(
    st: PackageStores,
    c: IdCursor,
    pg: Map<PackageIdent, OriginPackageCreate>,
    found: Set<PackageIdent>,
    post: PackageMigrator,
)
    requires
        c.pos <= c.ids@.len(),
        st.migrated_before(c, c.pos as int, pg, found),
        PackageMigrator::advances(c, post, Action::Finish),
    ensures
        post.cursor.ids == c.ids,
        st.migrated_before(IdCursor { ids: post.cursor.ids, pos: 0 }, c.ids@.len() as int, pg, found),
{
    let d = IdCursor { ids: post.cursor.ids, pos: 0 };
    assert forall|j: int| 0 <= j < c.ids@.len() implies (#[trigger] d.ids@[j] matches Some(id)
        && st.origin_migrated(id, pg, found)) by {
        assert(d.ids@[j] == c.ids@[j]);
    }
}

proof fn lemma_finish_means_all_migrated(
    st: PackageStores,
    m: PackageMigrator,
    reply: Reply,
    pg: Map<PackageIdent, OriginPackageCreate>,
    found: Set<PackageIdent>,
    post: PackageMigrator,
)
    requires
        st.run_invariant(m, reply, pg, found),
        m.steps_to(reply, post, Action::Finish),
    ensures
        post.cursor.ids@ == key_ids_spec(st.keys),
        st.migrated_before(
            IdCursor { ids: post.cursor.ids, pos: 0 },
            key_ids_spec(st.keys).len() as int,
            pg,
            found,
        ),
{
    let c = m.cursor;
    match m.phase {
        PackagePhase::ListingKeys => {
            if let Reply::Keys(k) = reply {
                let c0 = choose|c0: IdCursor|
                    c0.ids@ == key_ids_spec(k.deep_view()) && c0.pos == 0
                        && #[trigger] PackageMigrator::advances(c0, post, Action::Finish);
                lemma_advance_to_finish(st, c0, pg, found, post);
            }
        },
        PackagePhase::ListingIdents(origin) => {
            if let Reply::PackageIdents(idents) = reply {
                lemma_current_done(st, c, origin, idents, 0, pg, found);
                lemma_advance_to_finish(st, c, pg, found, post);
            }
        },
        PackagePhase::CheckingPackage { origin, idents, index } => {
            lemma_current_done(st, c, origin, idents, index as int, pg, found);
            lemma_advance_to_finish(st, c, pg, found, post);
        },
        PackagePhase::Storing { origin, idents, index } => {
            lemma_current_done(st, c, origin, idents, idents.len() as int, pg, found);
            lemma_advance_to_finish(st, c, pg, found, post);
        },
        _ => {},
    }
}

/// What the run has found grows with the run, and takes in each package asked
/// about while Postgres held it.
proof fn lemma_held_when_asked_grows(actions: Seq<Action>, pgs: Seq<Map<PackageIdent, OriginPackageCreate>>, i: int)
    requires
        0 <= i < actions.len(),
        pgs.len() == actions.len(),
    ensures
        held_when_asked(actions, pgs, i).subset_of(held_when_asked(actions, pgs, i + 1)),
        records_ask(actions[i], pgs[i], held_when_asked(actions, pgs, i + 1)),
{
    assert forall|p: PackageIdent| #[trigger] held_when_asked(actions, pgs, i).contains(
        p,
    ) implies held_when_asked(actions, pgs, i + 1).contains(p) by {
        let t = choose|t: int|
            0 <= t < i && #[trigger] actions[t] == Action::CheckPgPackage(p) && pgs[t].contains_key(p);
        assert(0 <= t < i + 1 && actions[t] == Action::CheckPgPackage(p) && pgs[t].contains_key(p));
    }
    if let Action::CheckPgPackage(p) = actions[i] {
        if pgs[i].contains_key(p) {
            assert(0 <= i < i + 1 && actions[i] == Action::CheckPgPackage(p) && pgs[i].contains_key(p));
        }
    }
}

proof fn lemma_run_invariant_at(
    st: PackageStores,
    i: int,
    states: Seq<PackageMigrator>,
    replies: Seq<Reply>,
    actions: Seq<Action>,
    pgs: Seq<Map<PackageIdent, OriginPackageCreate>>,
)
    requires
        0 <= i < actions.len(),
        states.len() == actions.len() + 1,
        replies.len() == actions.len(),
        pgs.len() == actions.len(),
        states[0].phase == PackagePhase::Begin,
        replies[0] == Reply::Start,
        st.packages_by_ident(),
        forall|k: int|
            0 <= k < actions.len() ==> #[trigger] states[k].steps_to(
                replies[k],
                states[k + 1],
                actions[k],
            ),
        forall|k: int|
            0 <= k < actions.len() - 1 ==> #[trigger] st.answers(
                actions[k],
                replies[k + 1],
                pgs[k],
                pgs[k + 1],
            ),
    ensures
        st.run_invariant(states[i], replies[i], pgs[i], held_when_asked(actions, pgs, i)),
        forall|k: int| 0 <= k < i ==> (#[trigger] pgs[k]).submap_of(pgs[k + 1]),
    decreases i,
{
    if i > 0 {
        lemma_run_invariant_at(st, i - 1, states, replies, actions, pgs);
        let k = i - 1;
        assert(states[k].steps_to(replies[k], states[k + 1], actions[k]));
        assert(st.answers(actions[k], replies[k + 1], pgs[k], pgs[k + 1]));
        assert(k + 1 == i);
        lemma_held_when_asked_grows(actions, pgs, k);
        lemma_step_keeps_invariant(
            st,
            states[k],
            replies[k],
            pgs[k],
            held_when_asked(actions, pgs, k),
            states[i],
            actions[k],
            replies[i],
            pgs[i],
            held_when_asked(actions, pgs, i),
        );
    }
}

/// Law: a run of the whole package migration against stores that answer
/// faithfully and find each Redis package under its own identifier, from its
/// start to `Finish`, leaves Postgres holding, for every Redis origin whose id
/// the origin keys carry, the packages of the origin's identifier list in
/// order, each as the record of its Redis package in the Postgres origin of
/// the same name (its ident, checksum, manifest, deps, tdeps, exposes and
/// config, target `x86_64-linux`, the origin's id and owner), up to the list's
/// end or up to an identifier that the run asked Postgres about while
/// Postgres already held it. Postgres only gains packages along the way and
/// never changes one it holds.
///
/// `states[k]` takes `replies[k]` and moves to `states[k + 1]`, asking for
/// `actions[k]`; `pgs[k]` maps each package Postgres holds, by identifier, to
/// its record, when `replies[k]` arrives, and so when `actions[k]` is made.
pub proof fn law_package_run_migrates_every_origin(
    st: PackageStores,
    states: Seq<PackageMigrator>,
    replies: Seq<Reply>,
    actions: Seq<Action>,
    pgs: Seq<Map<PackageIdent, OriginPackageCreate>>,
)
    requires
        actions.len() > 0,
        states.len() == actions.len() + 1,
        replies.len() == actions.len(),
        pgs.len() == actions.len(),
        states[0].phase == PackagePhase::Begin,
        replies[0] == Reply::Start,
        st.packages_by_ident(),
        forall|k: int|
            0 <= k < actions.len() ==> #[trigger] states[k].steps_to(
                replies[k],
                states[k + 1],
                actions[k],
            ),
        forall|k: int|
            0 <= k < actions.len() - 1 ==> #[trigger] st.answers(
                actions[k],
                replies[k + 1],
                pgs[k],
                pgs[k + 1],
            ),
        actions.last() == Action::Finish,
    ensures
        forall|j: int|
            0 <= j < key_ids_spec(st.keys).len() ==> (#[trigger] key_ids_spec(st.keys)[j] matches Some(
                id,
            ) && st.origin_migrated(
                id,
                pgs.last(),
                held_when_asked(actions, pgs, actions.len() as int),
            )),
        forall|k: int| 0 <= k < pgs.len() - 1 ==> (#[trigger] pgs[k]).submap_of(pgs[k + 1]),
{
    let n = actions.len() as int;
    lemma_run_invariant_at(st, n - 1, states, replies, actions, pgs);
    let k = n - 1;
    let found = held_when_asked(actions, pgs, k);
    let found_all = held_when_asked(actions, pgs, n);
    assert(states[k].steps_to(replies[k], states[k + 1], actions[k]));
    assert(k + 1 == n);
    lemma_finish_means_all_migrated(st, states[k], replies[k], pgs[k], found, states[n]);
    lemma_held_when_asked_grows(actions, pgs, k);
    let d = IdCursor { ids: states[n].cursor.ids, pos: 0 };
    lemma_migrated_before_grows(
        st,
        d,
        key_ids_spec(st.keys).len() as int,
        pgs[k],
        pgs[k],
        found,
        found_all,
    );
    assert forall|j: int| 0 <= j < key_ids_spec(st.keys).len() implies (#[trigger] key_ids_spec(
        st.keys,
    )[j] matches Some(id) && st.origin_migrated(id, pgs.last(), found_all)) by {
        assert(d.ids@[j] == key_ids_spec(st.keys)[j]);
    }
}

impl PackageStores {
    /// Postgres holds the first package that Redis lists for origin `id`, if
    /// it lists any.
    pub open spec fn first_held(self, id: u64, pg: Map<PackageIdent, OriginPackageCreate>) -> bool {
        let idents = self.redis_idents[self.redis_origins[id].name@];
        &&& self.redis_origins.contains_key(id)
        &&& self.redis_idents.contains_key(self.redis_origins[id].name@)
        &&& (idents.len() > 0 ==> pg.contains_key(idents[0]))
    }

    /// For every origin whose id the keys carry, Postgres holds its first
    /// package, as a finished run leaves it.
    pub open spec fn all_first_held(self, pg: Map<PackageIdent, OriginPackageCreate>) -> bool {
        forall|j: int|
            0 <= j < key_ids_spec(self.keys).len() ==> (#[trigger] key_ids_spec(self.keys)[j] matches Some(
                id,
            ) ==> self.first_held(id, pg))
    }
}

/// `m` is not about to fetch or store a package, and checks none but the
/// first of an origin.
spec fn quiet(m: PackageMigrator) -> bool {
    &&& !(m.phase is FetchingPackage)
    &&& !(m.phase is Storing)
    &&& (m.phase matches PackagePhase::CheckingPackage { index, .. } ==> index == 0)
}

proof fn lemma_rerun_step(
    st: PackageStores,
    m: PackageMigrator,
    reply: Reply,
    pg: Map<PackageIdent, OriginPackageCreate>,
    found: Set<PackageIdent>,
    post: PackageMigrator,
    act: Action,
)
    requires
        st.run_invariant(m, reply, pg, found),
        quiet(m),
        m.steps_to(reply, post, act),
        st.all_first_held(pg),
    ensures
        quiet(post),
        !(act is CreatePackage),
{
    let c = m.cursor;
    match m.phase {
        PackagePhase::ListingKeys => {
            if let Reply::Keys(k) = reply {
                let c0 = choose|c0: IdCursor|
                    c0.ids@ == key_ids_spec(k.deep_view()) && c0.pos == 0
                        && #[trigger] PackageMigrator::advances(c0, post, act);
            }
        },
        PackagePhase::CheckingPackage { origin, idents, index } => {
            let j = c.pos - 1;
            assert(key_ids_spec(st.keys)[j] == c.ids@[j]);
            assert(pg.contains_key(idents@[0]));
        },
        _ => {},
    }
}

proof fn lemma_rerun_at(
    st: PackageStores,
    i: int,
    states: Seq<PackageMigrator>,
    replies: Seq<Reply>,
    actions: Seq<Action>,
    pgs: Seq<Map<PackageIdent, OriginPackageCreate>>,
)
    requires
        0 <= i < actions.len(),
        states.len() == actions.len() + 1,
        replies.len() == actions.len(),
        pgs.len() == actions.len(),
        states[0].phase == PackagePhase::Begin,
        replies[0] == Reply::Start,
        st.packages_by_ident(),
        forall|k: int|
            0 <= k < actions.len() ==> #[trigger] states[k].steps_to(
                replies[k],
                states[k + 1],
                actions[k],
            ),
        forall|k: int|
            0 <= k < actions.len() - 1 ==> #[trigger] st.answers(
                actions[k],
                replies[k + 1],
                pgs[k],
                pgs[k + 1],
            ),
        st.all_first_held(pgs[0]),
    ensures
        pgs[i] == pgs[0],
        quiet(states[i]),
        forall|k: int| 0 <= k <= i ==> !(#[trigger] actions[k] is CreatePackage),
    decreases i,
{
    if i > 0 {
        let k = i - 1;
        lemma_rerun_at(st, k, states, replies, actions, pgs);
        lemma_run_invariant_at(st, k, states, replies, actions, pgs);
        assert(states[k].steps_to(replies[k], states[k + 1], actions[k]));
        assert(st.answers(actions[k], replies[k + 1], pgs[k], pgs[k + 1]));
        assert(k + 1 == i);
        lemma_rerun_step(
            st,
            states[k],
            replies[k],
            pgs[k],
            held_when_asked(actions, pgs, k),
            states[i],
            actions[k],
        );
    }
    lemma_run_invariant_at(st, i, states, replies, actions, pgs);
    assert(states[i].steps_to(replies[i], states[i + 1], actions[i]));
    lemma_rerun_step(
        st,
        states[i],
        replies[i],
        pgs[i],
        held_when_asked(actions, pgs, i),
        states[i + 1],
        actions[i],
    );
}

/// Law: a run of the package migration against stores that answer
/// faithfully and find each Redis package under its own identifier, in which
/// Postgres already holds the first package of every origin whose id the
/// origin keys carry (as a finished run leaves it), asks for no package to be
/// stored, and what Postgres holds stays as it was.
pub proof fn law_package_rerun_writes_nothing(
    st: PackageStores,
    states: Seq<PackageMigrator>,
    replies: Seq<Reply>,
    actions: Seq<Action>,
    pgs: Seq<Map<PackageIdent, OriginPackageCreate>>,
)
    requires
        actions.len() > 0,
        states.len() == actions.len() + 1,
        replies.len() == actions.len(),
        pgs.len() == actions.len(),
        states[0].phase == PackagePhase::Begin,
        replies[0] == Reply::Start,
        st.packages_by_ident(),
        forall|k: int|
            0 <= k < actions.len() ==> #[trigger] states[k].steps_to(
                replies[k],
                states[k + 1],
                actions[k],
            ),
        forall|k: int|
            0 <= k < actions.len() - 1 ==> #[trigger] st.answers(
                actions[k],
                replies[k + 1],
                pgs[k],
                pgs[k + 1],
            ),
        st.all_first_held(pgs[0]),
    ensures
        forall|k: int| 0 <= k < actions.len() ==> !(#[trigger] actions[k] is CreatePackage),
        forall|k: int| 0 <= k < pgs.len() ==> #[trigger] pgs[k] == pgs[0],
{
    let n = actions.len() as int;
    lemma_rerun_at(st, n - 1, states, replies, actions, pgs);
    assert forall|k: int| 0 <= k < pgs.len() implies #[trigger] pgs[k] == pgs[0] by {
        lemma_rerun_at(st, k, states, replies, actions, pgs);
    }
}

impl PackageStores {
    /// Every key carries a readable id, and every Redis origin of those ids
    /// has a Postgres origin of the same name.
    pub open spec fn complete(self) -> bool {
        forall|j: int|
            0 <= j < key_ids_spec(self.keys).len() ==> (#[trigger] key_ids_spec(self.keys)[j] matches Some(
                id,
            ) && (self.redis_origins.contains_key(id) ==> self.pg_origins.contains_key(
                self.redis_origins[id].name@,
            )))
    }
}

proof fn lemma_advance_no_abort(st: PackageStores, c: IdCursor, post: PackageMigrator, act: Action)
    requires
        c.ids@ == key_ids_spec(st.keys),
        c.pos <= c.ids@.len(),
        st.complete(),
        PackageMigrator::advances(c, post, act),
    ensures
        !(act is Abort),
{
    if c.pos < c.ids@.len() {
        assert(key_ids_spec(st.keys)[c.pos as int] == c.ids@[c.pos as int]);
    }
}

proof fn lemma_step_no_abort(
    st: PackageStores,
    m: PackageMigrator,
    reply: Reply,
    pg: Map<PackageIdent, OriginPackageCreate>,
    found: Set<PackageIdent>,
    post: PackageMigrator,
    act: Action,
)
    requires
        st.run_invariant(m, reply, pg, found),
        m.steps_to(reply, post, act),
        st.complete(),
    ensures
        !(act is Abort),
{
    let c = m.cursor;
    match m.phase {
        PackagePhase::Begin => {},
        PackagePhase::ListingKeys => {
            if let Reply::Keys(k) = reply {
                let c0 = choose|c0: IdCursor|
                    c0.ids@ == key_ids_spec(k.deep_view()) && c0.pos == 0
                        && #[trigger] PackageMigrator::advances(c0, post, act);
                lemma_advance_no_abort(st, c0, post, act);
            }
        },
        PackagePhase::FetchingPgOrigin(o) => {
            let j = c.pos - 1;
            assert(key_ids_spec(st.keys)[j] == c.ids@[j]);
        },
        _ => {
            if PackageMigrator::advances(c, post, act) {
                lemma_advance_no_abort(st, c, post, act);
            }
        },
    }
}

/// Law: a run of the package migration against stores that answer
/// faithfully, in which every key carries a readable id and every Redis origin
/// has a Postgres origin of the same name, never aborts: an origin whose
/// package list is empty is passed over like any other, and (every run
/// ending, by `law_package_run_progresses`) the run ends at `Finish`.
pub proof fn law_package_complete_run_never_aborts(
    st: PackageStores,
    states: Seq<PackageMigrator>,
    replies: Seq<Reply>,
    actions: Seq<Action>,
    pgs: Seq<Map<PackageIdent, OriginPackageCreate>>,
)
    requires
        actions.len() > 0,
        states.len() == actions.len() + 1,
        replies.len() == actions.len(),
        pgs.len() == actions.len(),
        states[0].phase == PackagePhase::Begin,
        replies[0] == Reply::Start,
        st.packages_by_ident(),
        st.complete(),
        forall|k: int|
            0 <= k < actions.len() ==> #[trigger] states[k].steps_to(
                replies[k],
                states[k + 1],
                actions[k],
            ),
        forall|k: int|
            0 <= k < actions.len() - 1 ==> #[trigger] st.answers(
                actions[k],
                replies[k + 1],
                pgs[k],
                pgs[k + 1],
            ),
    ensures
        forall|k: int| 0 <= k < actions.len() ==> !(#[trigger] actions[k] is Abort),
{
    assert forall|k: int| 0 <= k < actions.len() implies !(#[trigger] actions[k] is Abort) by {
        lemma_run_invariant_at(st, k, states, replies, actions, pgs);
        assert(states[k].steps_to(replies[k], states[k + 1], actions[k]));
        lemma_step_no_abort(
            st,
            states[k],
            replies[k],
            pgs[k],
            held_when_asked(actions, pgs, k),
            states[k + 1],
            actions[k],
        );
    }
}

} // verus!
