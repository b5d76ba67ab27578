//! Reading entity ids out of Redis key names such as `account:123`.
use vstd::prelude::*;
use vstd::string::StringExecFns;
use crate::text::{parse_u64, parse_u64_spec, push_char};

verus! {

/// The `KEYS` pattern that lists every key of one entity: `*{entity}:*`.
pub open spec fn keys_pattern_spec(entity: Seq<char>) -> Seq<char> {
    seq!['*'] + entity + seq![':', '*']
}

/// Builds the `KEYS` pattern for an entity, as `redis_keys` does with
/// `format!("*{}:*", entity)`.
pub fn keys_pattern(entity: &str) -> (res: String)
    ensures
        res@ == keys_pattern_spec(entity@),
{
    let mut s = String::new();
    push_char(&mut s, '*');
    s.append(entity);
    push_char(&mut s, ':');
    push_char(&mut s, '*');
    assert(s@ =~= keys_pattern_spec(entity@));
    s
}

/// The pattern that finds ids in keys: a colon followed by digits, the
/// digits captured.
pub open spec fn id_pattern() -> Seq<char> {
    ":(\\d+)"@
}

/// What `regex::Regex::captures_iter` reports for `pattern` over `text`: the
/// text of group 1 of each match, in order.
pub uninterp spec fn group1_captures(pattern: Seq<char>, text: Seq<char>) -> Seq<Seq<char>>;

/// `regex::Regex::new(pattern)` and `captures_iter(text)`: the text of group 1
/// of every match, in the order the iterator reports them. The contract
/// names the result and claims nothing of the matching itself. `Regex::new`
/// would panic on a pattern that does not compile, so only the library's own
/// pattern is admitted.
#[verifier::external_body]
fn regex_group1(pattern: &str, text: &str) -> (caps: Vec<String>)
    requires
        pattern@ == id_pattern(),
    ensures
        caps.deep_view() == group1_captures(pattern@, text@),
{
    let re = regex::Regex::new(pattern).unwrap();
    re.captures_iter(text).map(|cap| cap[1].to_string()).collect()
}

/// What the id pattern finds in a key.
pub open spec fn id_captures_of(key: Seq<char>) -> Seq<Seq<char>> {
    group1_captures(id_pattern(), key)
}

/// Each captured id read as a `u64`; `None` where `str::parse::<u64>` fails.
pub open spec fn parsed_ids(caps: Seq<Seq<char>>) -> Seq<Option<u64>> {
    caps.map_values(|c: Seq<char>| parse_u64_spec(c))
}

/// The ids of all keys, in key order and, within a key, in match order.
pub open spec fn key_ids_spec(keys: Seq<Seq<char>>) -> Seq<Option<u64>>
    decreases keys.len(),
{
    if keys.len() == 0 {
        Seq::empty()
    } else {
        key_ids_spec(keys.drop_last()) + parsed_ids(id_captures_of(keys.last()))
    }
}

/// Reads each captured text as a `u64`, as the migrators do with
/// `cap[1].parse::<u64>()`.
pub fn ids_from_captures(caps: &Vec<String>) -> (res: Vec<Option<u64>>)
    ensures
        res@ == parsed_ids(caps.deep_view()),
{
    let mut res: Vec<Option<u64>> = Vec::new();
    let mut i: usize = 0;
    while i < caps.len()
        invariant
            i <= caps.len(),
            res@ =~= parsed_ids(caps.deep_view().take(i as int)),
        decreases caps.len() - i,
    {
        let v = parse_u64(caps[i].as_str());
        res.push(v);
        i = i + 1;
        assert(caps.deep_view().take(i as int) =~= caps.deep_view().take(i - 1).push(caps[i - 1]@));
    }
    assert(caps.deep_view().take(i as int) =~= caps.deep_view());
    res
}

/// The ids that one key carries.
pub fn key_ids_of(key: &str) -> (res: Vec<Option<u64>>)
    ensures
        res@ == parsed_ids(id_captures_of(key@)),
{
    let pattern = ":(\\d+)";
    let caps = regex_group1(pattern, key);
    ids_from_captures(&caps)
}

/// The ids of a list of keys, as the migrators walk them.
pub fn key_ids(keys: &Vec<String>) -> (res: Vec<Option<u64>>)
    ensures
        res@ == key_ids_spec(keys.deep_view()),
{
    let mut res: Vec<Option<u64>> = Vec::new();
    let mut i: usize = 0;
    while i < keys.len()
        invariant
            i <= keys.len(),
            res@ == key_ids_spec(keys.deep_view().take(i as int)),
        decreases keys.len() - i,
    {
        let mut more = key_ids_of(keys[i].as_str());
        res.append(&mut more);
        i = i + 1;
        assert(keys.deep_view().take(i as int).drop_last() =~= keys.deep_view().take(i - 1));
    }
    assert(keys.deep_view().take(i as int) =~= keys.deep_view());
    res
}

} // verus!
