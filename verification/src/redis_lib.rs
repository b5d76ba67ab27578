//! The records that are written to the Redis store, the reading of account
//! ids, and where public origin key files live on disk.
use vstd::prelude::*;
use vstd::string::{StrSliceExecFns, StringExecFns, StringSliceAdditionalSpecFns};
use crate::model::{Account, Origin, OriginInvitation, OriginSecretKey, SessionCreate};
use crate::text::{parse_u64, parse_u64_spec, push_char};

verus! {

pub use crate::postgres_lib::create_session;

/// The account that `create_account` writes for a session: the session's
/// email and name, and no id yet (the store assigns it).
pub fn create_account(session: &SessionCreate) -> (account: Account)
    ensures
        account.id == 0,
        account.email == session.email,
        account.name == session.name,
{
    Account { id: 0, email: session.email.clone(), name: session.name.clone() }
}

/// The origin that `create_origin` writes: the given name and owner, and no
/// id yet.
pub fn create_origin(name: &str, owner_id: u64) -> (origin: Origin)
    ensures
        origin.id == 0,
        origin.name@ == name@,
        origin.owner_id == owner_id,
{
    Origin { id: 0, name: String::from_str(name), owner_id }
}

/// The invitation that `create_invitation` writes, with no id yet.
pub fn create_invitation(
    account_id: u64,
    account_name: &str,
    origin_id: u64,
    origin_name: &str,
    owner_id: u64,
) -> (invitation: OriginInvitation)
    ensures
        invitation.id == 0,
        invitation.account_id == account_id,
        invitation.account_name@ == account_name@,
        invitation.origin_id == origin_id,
        invitation.origin_name@ == origin_name@,
        invitation.owner_id == owner_id,
{
    OriginInvitation {
        id: 0,
        account_id,
        account_name: String::from_str(account_name),
        origin_id,
        origin_name: String::from_str(origin_name),
        owner_id,
    }
}

/// The secret key that `create_secret_key` writes: the body is the UTF-8
/// encoding of `body`; no id yet.
pub fn create_secret_key(origin_id: u64, name: &str, revision: &str, body: &str, owner_id: u64) -> (key:
    OriginSecretKey)
    ensures
        key.id == 0,
        key.origin_id == origin_id,
        key.name@ == name@,
        key.revision@ == revision@,
        key.body@ == body.spec_bytes(),
        key.owner_id == owner_id,
{
    OriginSecretKey {
        id: 0,
        origin_id,
        name: String::from_str(name),
        revision: String::from_str(revision),
        body: body.as_bytes_vec(),
        owner_id,
    }
}

/// The account id that an account lookup by `id` searches for: `id` read as
/// a decimal `u64`.
pub fn account_value(id: String) -> (value: u64)
    requires
        parse_u64_spec(id@) is Some,
    ensures
        parse_u64_spec(id@) == Some(value),
{
    match parse_u64(id.as_str()) {
        Some(v) => v,
        None => 0,
    }
}

/// `format!("{:x}", d)` for a digit `d < 16`.
pub open spec fn hex_digit(d: nat) -> char {
    if d < 10 {
        (('0' as int) + d) as char
    } else {
        (('a' as int) + d - 10) as char
    }
}

/// `format!("{:x}", b)`: lower-case hexadecimal without leading zeros.
pub open spec fn lower_hex_spec(b: u8) -> Seq<char> {
    if b < 16 {
        seq![hex_digit(b as nat)]
    } else {
        seq![hex_digit((b / 16) as nat), hex_digit((b % 16) as nat)]
    }
}

fn hex_digit_char(d: u8) -> (c: char)
    requires
        d < 16,
    ensures
        c == hex_digit(d as nat),
{
    if d < 10 {
        (48u8 + d) as char
    } else {
        (87u8 + d) as char
    }
}

/// Writes `b` as `format!("{:x}", b)` does.
pub fn lower_hex(b: u8) -> (s: String)
    ensures
        s@ == lower_hex_spec(b),
{
    let mut s = String::new();
    if b >= 16 {
        push_char(&mut s, hex_digit_char(b / 16));
    }
    push_char(&mut s, hex_digit_char(b % 16));
    assert(s@ =~= lower_hex_spec(b));
    s
}

/// Joining a path component onto a path, as `Path::join` does on Unix: an
/// absolute component replaces the path; otherwise a `/` is put between
/// them unless the path is empty or already ends in `/`.
pub open spec fn join_spec(base: Seq<char>, part: Seq<char>) -> Seq<char> {
    if part.len() > 0 && part[0] == '/' {
        part
    } else if base.len() > 0 && base.last() != '/' {
        base + seq!['/'] + part
    } else {
        base + part
    }
}

/// Joins `part` onto `base` as `Path::join` does on Unix.
pub fn join(base: String, part: &str) -> (res: String)
    ensures
        res@ == join_spec(base@, part@),
{
    let pn = part.unicode_len();
    if pn > 0 && part.get_char(0) == '/' {
        return String::from_str(part);
    }
    let bn = base.unicode_len();
    let mut res = base;
    if bn > 0 && res.as_str().get_char(bn - 1) != '/' {
        push_char(&mut res, '/');
    }
    res.append(part);
    res
}

/// The directory under which the key files live: `KEY_ROOT` when it is set,
/// else `/hab/svc/builder-depot/data`.
pub fn key_root(key_root_var: Option<String>) -> (root: String)
    ensures
        key_root_var matches Some(r) ==> root == r,
        key_root_var is None ==> root@ == "/hab/svc/builder-depot/data"@,
{
    match key_root_var {
        Some(r) => r,
        None => {
            let d = String::from_str("/hab/svc/builder-depot/data");
            proof {
                reveal_strlit("/hab/svc/builder-depot/data");
            }
            d
        },
    }
}

/// The file name of the public key of an origin revision: `{key}-{rev}.pub`.
pub open spec fn key_file_name_spec(key: Seq<char>, rev: Seq<char>) -> Seq<char> {
    key + seq!['-'] + rev + ".pub"@
}

/// What the SHA-256 digest of the UTF-8 bytes of `text` is, as rust-crypto's
/// `Sha256` computes it.
pub uninterp spec fn sha256_of_text(text: Seq<char>) -> Seq<u8>;

/// rust-crypto's `Sha256`, fed with `input_str(text)`, read out with `result`:
/// the 32-byte digest of the UTF-8 bytes of `text`. The contract names the
/// digest and states its length; it claims nothing else of it.
#[verifier::external_body]
fn sha256_digest(text: &str) -> (digest: Vec<u8>)
    ensures
        digest@ == sha256_of_text(text@),
        digest@.len() == 32,
{
    let mut hasher = crypto::sha2::Sha256::new();
    crypto::digest::Digest::input_str(&mut hasher, text);
    let mut out: Vec<u8> = vec![0u8; 32];
    crypto::digest::Digest::result(&mut hasher, &mut out);
    out
}

/// Where the public key of `key` at revision `rev` lives under `root`:
/// `root/keys/{h0}/{h1}/{key}-{rev}.pub`, where `h0` and `h1` are the first
/// two bytes of the SHA-256 digest of the file name, in lower-case hex.
pub open spec fn key_path_spec(root: Seq<char>, key: Seq<char>, rev: Seq<char>) -> Seq<char> {
    let file = key_file_name_spec(key, rev);
    let digest = sha256_of_text(file);
    join_spec(
        join_spec(
            join_spec(join_spec(root, "keys"@), lower_hex_spec(digest[0])),
            lower_hex_spec(digest[1]),
        ),
        file,
    )
}

/// The path of the public key file of `key` at revision `rev`, under `root`.
pub fn key_path(root: String, key: &str, rev: &str) -> (path: String)
    ensures
        path@ == key_path_spec(root@, key@, rev@),
{
    let mut file = String::from_str(key);
    push_char(&mut file, '-');
    file.append(rev);
    file.append(".pub");
    proof {
        reveal_strlit(".pub");
        reveal_strlit("keys");
    }
    assert(file@ =~= key_file_name_spec(key@, rev@));
    let digest = sha256_digest(file.as_str());
    let h0 = lower_hex(digest[0]);
    let h1 = lower_hex(digest[1]);
    let p = join(root, "keys");
    let p = join(p, h0.as_str());
    let p = join(p, h1.as_str());
    join(p, file.as_str())
}

/// Every occurrence of `pat` removed from `s`, scanning left to right as
/// `str::replace(pat, "")` does.
pub open spec fn remove_all(s: Seq<char>, pat: Seq<char>) -> Seq<char>
    decreases s.len(),
{
    if pat.len() == 0 || s.len() < pat.len() {
        s
    } else if s.take(pat.len() as int) == pat {
        remove_all(s.skip(pat.len() as int), pat)
    } else {
        seq![s[0]] + remove_all(s.drop_first(), pat)
    }
}

proof fn lemma_remove_all_step(s: Seq<char>, i: int, pat: Seq<char>)
    requires
        pat.len() > 0,
        0 <= i <= s.len(),
    ensures
        i + pat.len() <= s.len() && s.subrange(i, i + pat.len() as int) == pat ==> remove_all(
            s.skip(i),
            pat,
        ) == remove_all(s.skip(i + pat.len() as int), pat),
        i < s.len() && !(i + pat.len() <= s.len() && s.subrange(i, i + pat.len() as int) == pat)
            ==> remove_all(s.skip(i), pat) == seq![s[i]] + remove_all(s.skip(i + 1), pat),
        i + pat.len() > s.len() ==> remove_all(s.skip(i), pat) == s.skip(i),
{
    let t = s.skip(i);
    if i + pat.len() <= s.len() {
        assert(t.take(pat.len() as int) =~= s.subrange(i, i + pat.len() as int));
        assert(t.skip(pat.len() as int) =~= s.skip(i + pat.len() as int));
    }
    if i < s.len() {
        assert(t.drop_first() =~= s.skip(i + 1));
    }
}

/// The depot data store address of a Redis URL: every `redis://` removed.
pub fn datastore_address(redis_addr: &str) -> (res: String)
    ensures
        res@ == remove_all(redis_addr@, "redis://"@),
{
    let pat = "redis://";
    proof {
        reveal_strlit("redis://");
    }
    let n = redis_addr.unicode_len();
    let m = pat.unicode_len();
    assert(pat@.len() == 8);
    let mut res = String::new();
    let mut i: usize = 0;
    assert(redis_addr@.skip(0) =~= redis_addr@);
    while i < n
        invariant
            i <= n,
            n == redis_addr@.len(),
            m == pat@.len(),
            m == 8,
            pat@ == "redis://"@,
            res@ + remove_all(redis_addr@.skip(i as int), pat@) == remove_all(redis_addr@, pat@),
        decreases n - i,
    {
        proof {
            lemma_remove_all_step(redis_addr@, i as int, pat@);
        }
        let mut matched = m <= n - i;
        let mut j: usize = 0;
        while matched && j < m
            invariant
                j <= m,
                m == pat@.len(),
                n == redis_addr@.len(),
                matched ==> i + m <= n,
                matched ==> forall|k: int| 0 <= k < j ==> redis_addr@[i + k] == pat@[k],
                !matched ==> !(i + m <= n && redis_addr@.subrange(i as int, i + m) == pat@),
            decreases m - j,
        {
            if redis_addr.get_char(i + j) != pat.get_char(j) {
                assert(redis_addr@.subrange(i as int, i + m)[j as int] == redis_addr@[i + j]);
                matched = false;
            }
            j = j + 1;
        }
        if matched {
            assert(redis_addr@.subrange(i as int, i + m) =~= pat@);
            i = i + m;
        } else {
            let c = redis_addr.get_char(i);
            let ghost before = res@;
            push_char(&mut res, c);
            assert(res@ + remove_all(redis_addr@.skip(i + 1), pat@) =~= before + (seq![c]
                + remove_all(redis_addr@.skip(i + 1), pat@)));
            i = i + 1;
        }
    }
    assert(redis_addr@.skip(i as int) =~= Seq::<char>::empty());
    assert(res@ + Seq::<char>::empty() =~= res@);
    res
}

} // verus!
