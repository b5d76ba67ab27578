//! The records that the migration reads from Redis and writes to Postgres,
//! held as plain values.
use vstd::prelude::*;

verus! {

/// The OAuth provider a session was opened with.
#[derive(Clone, Debug, PartialEq, Eq)]
pub enum OAuthProvider {
    GitHub,
}

/// A request to open a session (and with it, find or create an account).
#[derive(Clone, Debug, PartialEq, Eq)]
pub struct SessionCreate {
    pub token: String,
    pub extern_id: u64,
    pub email: String,
    pub name: String,
    pub provider: OAuthProvider,
}

/// A user account, in either store.
#[derive(Clone, Debug, PartialEq, Eq)]
pub struct Account {
    pub id: u64,
    pub email: String,
    pub name: String,
}

/// An origin (a namespace for packages), in either store.
#[derive(Clone, Debug, PartialEq, Eq)]
pub struct Origin {
    pub id: u64,
    pub name: String,
    pub owner_id: u64,
}

/// A request to create an origin in Postgres.
#[derive(Clone, Debug, PartialEq, Eq)]
pub struct OriginCreate {
    pub name: String,
    pub owner_id: u64,
    pub owner_name: String,
}

/// A request to record that an account belongs to an origin.
#[derive(Clone, Debug, PartialEq, Eq)]
pub struct AccountOriginCreate {
    pub account_id: u64,
    pub account_name: String,
    pub origin_id: u64,
    pub origin_name: String,
}

/// A request to add a member to an origin.
#[derive(Clone, Debug, PartialEq, Eq)]
pub struct OriginMemberCreate {
    pub origin_id: u64,
    pub origin_name: String,
    pub account_id: u64,
    pub account_name: String,
}

/// An invitation for an account to join an origin.
#[derive(Clone, Debug, PartialEq, Eq)]
pub struct OriginInvitation {
    pub id: u64,
    pub account_id: u64,
    pub account_name: String,
    pub origin_id: u64,
    pub origin_name: String,
    pub owner_id: u64,
}

/// A request to create an invitation in Postgres.
#[derive(Clone, Debug, PartialEq, Eq)]
pub struct OriginInvitationCreate {
    pub account_id: u64,
    pub account_name: String,
    pub origin_id: u64,
    pub origin_name: String,
    pub owner_id: u64,
}

/// An origin's secret signing key.
#[derive(Clone, Debug, PartialEq, Eq)]
pub struct OriginSecretKey {
    pub id: u64,
    pub origin_id: u64,
    pub name: String,
    pub revision: String,
    pub body: Vec<u8>,
    pub owner_id: u64,
}

/// A request to store an origin's secret key in Postgres.
#[derive(Clone, Debug, PartialEq, Eq)]
pub struct OriginSecretKeyCreate {
    pub origin_id: u64,
    pub owner_id: u64,
    pub name: String,
    pub revision: String,
    pub body: Vec<u8>,
}

/// Where a public origin key of a given revision lives.
#[derive(Clone, Debug, PartialEq, Eq)]
pub struct OriginKeyIdent {
    pub origin: String,
    pub revision: String,
    pub location: String,
}

/// A request to store an origin's public key in Postgres.
#[derive(Clone, Debug, PartialEq, Eq)]
pub struct OriginPublicKeyCreate {
    pub origin_id: u64,
    pub owner_id: u64,
    pub name: String,
    pub revision: String,
    pub body: Vec<u8>,
}

/// A fully qualified package identifier.
#[derive(Clone, Debug, PartialEq, Eq)]
pub struct PackageIdent {
    pub origin: String,
    pub name: String,
    pub version: String,
    pub release: String,
}

/// A package as the Redis depot holds it.
#[derive(Clone, Debug, PartialEq, Eq)]
pub struct Package {
    pub ident: PackageIdent,
    pub checksum: String,
    pub manifest: String,
    pub deps: Vec<PackageIdent>,
    pub tdeps: Vec<PackageIdent>,
    pub exposes: Vec<u32>,
    pub config: String,
}

/// A request to store a package in Postgres.
#[derive(Clone, Debug, PartialEq, Eq)]
pub struct OriginPackageCreate {
    pub origin_id: u64,
    pub owner_id: u64,
    pub ident: PackageIdent,
    pub checksum: String,
    pub manifest: String,
    pub deps: Vec<PackageIdent>,
    pub tdeps: Vec<PackageIdent>,
    pub exposes: Vec<u32>,
    pub config: String,
    pub target: String,
}

/// The settings of a GitHub OAuth client.
#[derive(Clone)]
pub struct GitHubClient {
    pub url: String,
    pub client_id: String,
    pub client_secret: String,
}

impl PackageIdent {
    /// A copy of the identifier.
    pub fn duplicate(&self) -> (res: PackageIdent)
        ensures
            res == *self,
    {
        PackageIdent {
            origin: self.origin.clone(),
            name: self.name.clone(),
            version: self.version.clone(),
            release: self.release.clone(),
        }
    }
}

} // verus!
