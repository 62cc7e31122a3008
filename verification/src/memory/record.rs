//! A memory record: one message of a conversation, with the metadata that
//! describes it and the bookkeeping of its accesses.
use vstd::prelude::*;
use crate::errors::MemoryManagerServiceError;
use crate::numbers::{i64_to_decimal, int_decimal};

verus! {

/// One remembered message. Its embedding is kept beside it by the store.
pub struct MemoryRecord {
    pub id: String,
    /// Key and value pairs; the records that this library builds hold each
    /// key at most once (`keys_distinct`).
    pub metadata: Vec<(String, String)>,
    pub created_at: String,
    pub updated_at: String,
    pub last_accessed_at: String,
    pub access_count: u32,
}

/// The views of metadata pairs.
pub open spec fn metadata_view(m: Seq<(String, String)>) -> Seq<(Seq<char>, Seq<char>)> {
    m.map_values(|p: (String, String)| (p.0@, p.1@))
}

/// No key occurs twice among the pairs `m`.
pub open spec fn keys_distinct(m: Seq<(Seq<char>, Seq<char>)>) -> bool {
    forall|i: int, j: int| 0 <= i < j < m.len() ==> m[i].0 != m[j].0
}

/// The metadata of `r` holds each key at most once.
pub open spec fn metadata_keys_distinct(r: MemoryRecord) -> bool {
    keys_distinct(metadata_view(r.metadata@))
}

/// The value stored under `key`, the first pair with that key deciding.
pub open spec fn lookup(m: Seq<(Seq<char>, Seq<char>)>, key: Seq<char>) -> Option<Seq<char>>
    decreases m.len(),
{
    if m.len() == 0 {
        None
    } else if m[0].0 == key {
        Some(m[0].1)
    } else {
        lookup(m.skip(1), key)
    }
}

/// In pairs with distinct keys, each pair's key finds its own value.
pub proof fn lemma_lookup_distinct(m: Seq<(Seq<char>, Seq<char>)>, i: int)
    requires
        keys_distinct(m),
        0 <= i < m.len(),
    ensures
        lookup(m, m[i].0) == Some(m[i].1),
    decreases i,
{
    if i > 0 {
        let t = m.skip(1);
        assert forall|a: int, b: int| 0 <= a < b < t.len() implies t[a].0 != t[b].0 by {
            assert(t[a] == m[a + 1]);
            assert(t[b] == m[b + 1]);
        }
        assert(t[i - 1] == m[i]);
        lemma_lookup_distinct(t, i - 1);
    }
}

/// The value of `key` in the metadata of `r`.
pub open spec fn meta(r: MemoryRecord, key: Seq<char>) -> Option<Seq<char>> {
    lookup(metadata_view(r.metadata@), key)
}

/// The value stored under `key` in `m`, if any.
pub fn metadata_get(m: &Vec<(String, String)>, key: &str) -> (v: Option<String>)
    ensures
        match v {
            Some(s) => lookup(metadata_view(m@), key@) == Some(s@),
            None => lookup(metadata_view(m@), key@) is None,
        },
{
    let mut i: usize = 0;
    let ghost mv = metadata_view(m@);
    assert(mv.skip(0) =~= mv);
    while i < m.len()
        invariant
            i <= m.len(),
            mv == metadata_view(m@),
            lookup(mv, key@) == lookup(mv.skip(i as int), key@),
        decreases m.len() - i,
    {
        assert(mv.skip(i as int)[0] == (m@[i as int].0@, m@[i as int].1@));
        if crate::text::text_eq(m[i].0.as_str(), key) {
            return Some(m[i].1.clone());
        }
        assert(mv.skip(i as int).skip(1) =~= mv.skip(i + 1));
        i = i + 1;
    }
    proof {
        false_after_end(mv, i as int, key@);
    }
    None
}

proof fn false_after_end(mv: Seq<(Seq<char>, Seq<char>)>, i: int, key: Seq<char>)
    requires
        i == mv.len(),
    ensures
        lookup(mv.skip(i), key) is None,
{
    assert(mv.skip(i).len() == 0);
}

/// The entries of the JSON object of strings that `text` holds, as
/// `serde_json::from_str` reads it into a `BTreeMap<String, String>` and
/// that map hands them out; `None` where the text is no such object.
pub uninterp spec fn json_string_object(text: Seq<char>) -> Option<Seq<(Seq<char>, Seq<char>)>>;

/// The JSON text that `serde_json::to_string` writes for the
/// `BTreeMap<&str, &str>` collected from the pairs `m`.
pub uninterp spec fn json_object_text(m: Seq<(Seq<char>, Seq<char>)>) -> Seq<char>;

/// Reads a JSON object of strings (`serde_json::from_str` into a
/// `BTreeMap<String, String>`, whose entries are then collected in its
/// order): the entries, each key once as in any map, or the parse error's
/// text (`to_string`), of which nothing is stated.
#[verifier::external_body]
fn parse_json_object(text: &str) -> (r: Result<Vec<(String, String)>, String>)
    ensures
        r is Ok <==> json_string_object(text@) is Some,
        r matches Ok(m) ==> Some(metadata_view(m@)) == json_string_object(text@) && keys_distinct(
            metadata_view(m@),
        ),
{
    match serde_json::from_str::<std::collections::BTreeMap<String, String>>(text) {
        Ok(m) => Ok(m.into_iter().collect()),
        Err(e) => Err(e.to_string()),
    }
}

/// Writes the pairs `m` as a JSON object (`serde_json::to_string` of the
/// `BTreeMap<&str, &str>` they are collected into). That call fails only
/// for a `Serialize` impl that fails or a map with keys other than strings,
/// neither of which is the case here, so it gives the text. Read back with
/// `serde_json::from_str`, the text gives a map of strings again, and where
/// no key repeats in `m`, each key finds the value it has in `m`.
#[verifier::external_body]
fn write_json_object(m: &Vec<(String, String)>) -> (r: Result<String, String>)
    ensures
        r is Ok,
        r matches Ok(t) ==> t@ == json_object_text(metadata_view(m@)),
        r matches Ok(t) ==> json_string_object(t@) is Some,
        r matches Ok(t) ==> (keys_distinct(metadata_view(m@)) ==> forall|k: Seq<char>|
            lookup(json_string_object(t@).unwrap(), k) == #[trigger] lookup(metadata_view(m@), k)),
{
    let map: std::collections::BTreeMap<&str, &str> = m.iter().map(|p| (p.0.as_str(), p.1.as_str())).collect();
    serde_json::to_string(&map).map_err(|e| e.to_string())
}

/// The JSON text under which the store keeps (and embeds) the metadata `m`.
/// It reads back (`record_from_columns`) as a map of strings, in which,
/// where no key of `m` repeats, every key finds the value it has in `m`.
pub fn metadata_to_json(m: &Vec<(String, String)>) -> (t: String)
    ensures
        t@ == json_object_text(metadata_view(m@)),
        json_string_object(t@) is Some,
        keys_distinct(metadata_view(m@)) ==> forall|k: Seq<char>|
            lookup(json_string_object(t@).unwrap(), k) == #[trigger] lookup(metadata_view(m@), k),
{
    match write_json_object(m) {
        Ok(t) => t,
        Err(_) => String::new(),
    }
}

/// A record read back from the columns of the store: its identifier, its
/// metadata as JSON text, its creation and update times, and its access
/// time and count where the store has those columns (else never accessed,
/// written `""`, and counted `0`). It fails with a parse error exactly when
/// the metadata text is no JSON object of strings.
pub fn record_from_columns(
    id: String,
    metadata_json: &str,
    created_at: String,
    updated_at: String,
    last_accessed_at: Option<String>,
    access_count: Option<u32>,
) -> (r: Result<MemoryRecord, MemoryManagerServiceError>)
    ensures
        r is Ok <==> json_string_object(metadata_json@) is Some,
        r matches Err(e) ==> e is ParseError,
        r matches Ok(rec) ==> {
            &&& rec.id == id
            &&& json_string_object(metadata_json@) == Some(metadata_view(rec.metadata@))
            &&& metadata_keys_distinct(rec)
            &&& rec.created_at == created_at
            &&& rec.updated_at == updated_at
            &&& rec.last_accessed_at@ == match last_accessed_at {
                Some(s) => s@,
                None => Seq::<char>::empty(),
            }
            &&& rec.access_count == match access_count {
                Some(n) => n,
                None => 0u32,
            }
        },
{
    let metadata = match parse_json_object(metadata_json) {
        Ok(m) => m,
        Err(e) => return Err(MemoryManagerServiceError::ParseError(e)),
    };
    let last_accessed_at = match last_accessed_at {
        Some(s) => s,
        None => String::new(),
    };
    let access_count = match access_count {
        Some(n) => n,
        None => 0,
    };
    Ok(MemoryRecord { id, metadata, created_at, updated_at, last_accessed_at, access_count })
}

/// A fresh random identifier (`Uuid::new_v4().to_string()`): 36 characters,
/// hexadecimal digits in groups with hyphens at positions 8, 13, 18 and 23.
#[verifier::external_body]
fn new_record_id() -> (id: String)
    ensures
        id@.len() == 36,
        id@[8] == '-' && id@[13] == '-' && id@[18] == '-' && id@[23] == '-',
{
    uuid::Uuid::new_v4().to_string()
}

/// A new record of a message: a fresh identifier, the given metadata,
/// created and updated at `created_millis` (written in decimal), never
/// accessed.
pub fn new_memory_record(metadata: Vec<(String, String)>, created_millis: i64) -> (r: MemoryRecord)
    ensures
        r.metadata == metadata,
        r.id@.len() == 36,
        r.id@[8] == '-' && r.id@[13] == '-' && r.id@[18] == '-' && r.id@[23] == '-',
        r.created_at@ == int_decimal(created_millis as int),
        r.updated_at@ == int_decimal(created_millis as int),
        r.last_accessed_at@.len() == 0,
        r.access_count == 0,
{
    MemoryRecord {
        id: new_record_id(),
        metadata,
        created_at: i64_to_decimal(created_millis),
        updated_at: i64_to_decimal(created_millis),
        last_accessed_at: String::new(),
        access_count: 0,
    }
}

} // verus!
