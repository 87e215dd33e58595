//! The key-value database behind plugin state and registrations.
//!
//! A `Store` owns the one handle to an open database: the handle is opened
//! inside it, never cloned and never handed out, and the database locks its
//! directory against a second opening. Every write therefore goes through a
//! `&mut Store`, and what the store holds is a function of the store's value.
//! It is modelled as a map from keyspace names to the byte maps they hold.
//! Plugins share one store by sharing access to it.

use crate::model::HostError;
use vstd::prelude::*;
use vstd::utf8::*;

verus! {

#[verifier::external_type_specification]
#[verifier::external_body]
pub struct ExDatabase(fjall::Database);

#[verifier::external_type_specification]
#[verifier::external_body]
pub struct ExFjallError(fjall::Error);

/// The contents of a database: for each keyspace name, its keys and values.
pub uninterp spec fn database_contents(db: fjall::Database) -> Map<Seq<char>, Map<Seq<u8>, Seq<u8>>>;

/// The longest key that the database takes; a key is never empty.
pub const MAX_KEY_LEN: usize = 65535;

/// The longest value that the database takes.
pub const MAX_VALUE_LEN: u64 = 4294967295;

/// The database of the runtime, shared by all plugins.
pub struct Store {
    pub(crate) db: fjall::Database,
}

/// The keys and values of one keyspace; a keyspace not yet created holds nothing.
pub open spec fn space(contents: Map<Seq<char>, Map<Seq<u8>, Seq<u8>>>, name: Seq<char>) -> Map<Seq<u8>, Seq<u8>> {
    if contents.contains_key(name) {
        contents[name]
    } else {
        Map::empty()
    }
}

impl Store {
    /// The keyspace `name` of the store.
    pub closed spec fn keyspace(self, name: Seq<char>) -> Map<Seq<u8>, Seq<u8>> {
        space(database_contents(self.db), name)
    }

    /// Opens the database in the directory `path`, removed again when the
    /// store is dropped if `temporary` is set.
    pub fn open(path: &str, temporary: bool) -> (r: Result<Store, HostError>)
        ensures
            r matches Err(e) ==> is_storage_failure(e),
    {
        match open_database(path, temporary) {
            Ok(db) => Ok(Store { db }),
            Err(e) => Err(HostError::Storage(storage_error_text(e))),
        }
    }
}

/// The keyspaces of a store are those of its database.
pub(crate) broadcast proof fn lemma_keyspace_of_database(store: Store, name: Seq<char>)
    ensures
        #[trigger] store.keyspace(name) == space(database_contents(store.db), name),
{
}

/// A failure of the database, told in the database's own words.
pub open spec fn is_storage_failure(e: HostError) -> bool {
    e matches HostError::Storage(m) && is_fjall_error_text(m@)
}

/// The keyspace `name` of `store`.
pub open spec fn keyspace_of(store: Store, name: Seq<char>) -> Map<Seq<u8>, Seq<u8>> {
    store.keyspace(name)
}

/// Every keyspace but `name` holds in `after` what it held in `before`.
pub open spec fn others_unchanged(before: Store, after: Store, name: Seq<char>) -> bool {
    forall|n: Seq<char>| n != name ==> #[trigger] keyspace_of(after, n) == keyspace_of(before, n)
}

/// Every keyspace holds in `after` what it held in `before`.
pub open spec fn unchanged(before: Store, after: Store) -> bool {
    forall|n: Seq<char>| #[trigger] keyspace_of(after, n) == keyspace_of(before, n)
}

/// A keyspace name that the database accepts: ASCII, 1 to 255 bytes.
pub open spec fn keyspace_name_ok(name: Seq<char>) -> bool {
    is_ascii_chars(name) && 1 <= name.len() <= 255
}

/// `key` starts with `prefix`.
pub open spec fn has_prefix(key: Seq<u8>, prefix: Seq<u8>) -> bool {
    prefix.len() <= key.len() && key.subrange(0, prefix.len() as int) == prefix
}

/// Byte-wise lexicographic order, the order in which a keyspace keeps its keys.
pub open spec fn bytes_lt(a: Seq<u8>, b: Seq<u8>) -> bool
    decreases a.len(),
{
    if b.len() == 0 {
        false
    } else if a.len() == 0 {
        true
    } else if a[0] != b[0] {
        a[0] < b[0]
    } else {
        bytes_lt(a.drop_first(), b.drop_first())
    }
}

/// Of two byte strings, at most one is below the other.
pub proof fn lemma_bytes_lt_asymmetric(a: Seq<u8>, b: Seq<u8>)
    ensures
        !(bytes_lt(a, b) && bytes_lt(b, a)),
    decreases a.len(),
{
    if a.len() > 0 && b.len() > 0 && a[0] == b[0] {
        lemma_bytes_lt_asymmetric(a.drop_first(), b.drop_first());
    }
}

/// A byte string is below every longer string that starts with it.
pub proof fn lemma_prefix_below_extension(p: Seq<u8>, k: Seq<u8>)
    requires
        has_prefix(k, p),
        k != p,
    ensures
        bytes_lt(p, k),
    decreases p.len(),
{
    if p.len() == 0 {
        assert(k.len() > 0) by {
            if k.len() == 0 {
                assert(k =~= p);
            }
        }
    } else {
        assert(k[0] == k.subrange(0, p.len() as int)[0]);
        assert(k.drop_first().subrange(0, p.drop_first().len() as int) =~= k.subrange(0, p.len() as int).drop_first());
        if k.drop_first() == p.drop_first() {
            assert(k =~= p);
        }
        lemma_prefix_below_extension(p.drop_first(), k.drop_first());
    }
}

/// Some key of `keys` starts with `prefix`.
pub open spec fn any_with_prefix(keys: Map<Seq<u8>, Seq<u8>>, prefix: Seq<u8>) -> bool {
    exists|k: Seq<u8>| #[trigger] keys.contains_key(k) && has_prefix(k, prefix)
}

/// `key` is the least key of `keys` that starts with `prefix`.
pub open spec fn is_first_with_prefix(keys: Map<Seq<u8>, Seq<u8>>, prefix: Seq<u8>, key: Seq<u8>) -> bool {
    &&& keys.contains_key(key)
    &&& has_prefix(key, prefix)
    &&& forall|k: Seq<u8>| #[trigger]
        keys.contains_key(k) && has_prefix(k, prefix) && k != key ==> bytes_lt(key, k)
}

/// The value of the least key of `keys` that starts with `prefix`, if any key does.
pub open spec fn first_with_prefix(keys: Map<Seq<u8>, Seq<u8>>, prefix: Seq<u8>) -> Option<Seq<u8>> {
    if exists|k: Seq<u8>| is_first_with_prefix(keys, prefix, k) {
        Some(keys[choose|k: Seq<u8>| is_first_with_prefix(keys, prefix, k)])
    } else {
        None
    }
}

/// There is at most one least key with a prefix.
pub proof fn lemma_first_with_prefix_unique(keys: Map<Seq<u8>, Seq<u8>>, prefix: Seq<u8>, key: Seq<u8>)
    requires
        is_first_with_prefix(keys, prefix, key),
    ensures
        first_with_prefix(keys, prefix) == Some(keys[key]),
{
    let c = choose|k: Seq<u8>| is_first_with_prefix(keys, prefix, k);
    assert(is_first_with_prefix(keys, prefix, c));
    if c != key {
        lemma_bytes_lt_asymmetric(c, key);
    }
}

/// `entries` are the entries of `keys` whose key starts with `prefix`, each
/// once, in ascending key order.
pub open spec fn is_prefix_scan(
    entries: Seq<(Vec<u8>, Vec<u8>)>,
    keys: Map<Seq<u8>, Seq<u8>>,
    prefix: Seq<u8>,
) -> bool {
    &&& forall|i: int|
        0 <= i < entries.len() ==> {
            &&& has_prefix((#[trigger] entries[i]).0@, prefix)
            &&& keys.contains_key(entries[i].0@)
            &&& keys[entries[i].0@] == entries[i].1@
        }
    &&& forall|k: Seq<u8>|
        #[trigger] keys.contains_key(k) && has_prefix(k, prefix) ==> exists|i: int|
            0 <= i < entries.len() && #[trigger] entries[i].0@ == k
    &&& forall|i: int, j: int|
        0 <= i < j < entries.len() ==> bytes_lt((#[trigger] entries[i]).0@, (#[trigger] entries[j]).0@)
}

/// Opens the database in `path` with `fjall::Database::builder`, setting
/// `temporary`, and `open`. Nothing is stated of what it holds.
#[verifier::external_body]
fn open_database(path: &str, temporary: bool) -> (r: Result<fjall::Database, fjall::Error>) {
    fjall::Database::builder(path).temporary(temporary).open()
}

/// Opens, creating it if needed, the keyspace `keyspace` with
/// `fjall::Database::keyspace`. A new keyspace holds nothing, so what the
/// database holds is the same either way; the handle is dropped.
#[verifier::external_body]
pub(crate) fn store_open(store: &Store, keyspace: &str) -> (r: Result<(), fjall::Error>)
    requires
        keyspace_name_ok(keyspace@),
{
    store.db.keyspace(keyspace, fjall::KeyspaceCreateOptions::default).map(|_| ())
}

/// Opens the keyspace `keyspace` with `fjall::Database::keyspace` and reads
/// `key` with `fjall::Keyspace::get`. A value found is the one the keyspace
/// maps the key to; none is found when it maps the key to nothing.
#[verifier::external_body]
pub(crate) fn store_get(store: &Store, keyspace: &str, key: &[u8]) -> (r: Result<Option<Vec<u8>>, fjall::Error>)
    requires
        keyspace_name_ok(keyspace@),
        key@.len() <= MAX_KEY_LEN,
    ensures
        r matches Ok(found) ==> match found {
            Some(v) => space(database_contents(store.db), keyspace@).contains_key(key@) && v@ == space(
                database_contents(store.db),
                keyspace@,
            )[key@],
            None => !space(database_contents(store.db), keyspace@).contains_key(key@),
        },
{
    let ks = store.db.keyspace(keyspace, fjall::KeyspaceCreateOptions::default)?;
    Ok(ks.get(key)?.map(|v| v.to_vec()))
}

/// Opens the keyspace `keyspace` with `fjall::Database::keyspace` and writes
/// `key` to `value` with `fjall::Keyspace::insert`, which overwrites an
/// existing value. On success the keyspace maps the key to the value and
/// nothing else changed; on an error the write did not reach the keyspace.
/// The database panics on an empty key, a key over `MAX_KEY_LEN` bytes or a
/// value over `MAX_VALUE_LEN` bytes, which `requires` leaves out.
#[verifier::external_body]
pub(crate) fn store_insert(store: &mut Store, keyspace: &str, key: &[u8], value: &[u8]) -> (r: Result<(), fjall::Error>)
    requires
        keyspace_name_ok(keyspace@),
        1 <= key@.len() <= MAX_KEY_LEN,
        value@.len() <= MAX_VALUE_LEN,
    ensures
        r is Ok ==> space(database_contents(final(store).db), keyspace@) == space(
            database_contents(old(store).db),
            keyspace@,
        ).insert(key@, value@),
        r is Ok ==> others_unchanged(*old(store), *final(store), keyspace@),
        r is Err ==> unchanged(*old(store), *final(store)),
{
    let ks = store.db.keyspace(keyspace, fjall::KeyspaceCreateOptions::default)?;
    ks.insert(key, value)
}

/// Opens the keyspace `keyspace` with `fjall::Database::keyspace` and removes
/// `key` with `fjall::Keyspace::remove`. On success the keyspace no longer
/// maps the key and nothing else changed; on an error nothing changed.
/// The database panics on an empty key or one over `MAX_KEY_LEN` bytes,
/// which `requires` leaves out.
#[verifier::external_body]
pub(crate) fn store_remove(store: &mut Store, keyspace: &str, key: &[u8]) -> (r: Result<(), fjall::Error>)
    requires
        keyspace_name_ok(keyspace@),
        1 <= key@.len() <= MAX_KEY_LEN,
    ensures
        r is Ok ==> space(database_contents(final(store).db), keyspace@) == space(
            database_contents(old(store).db),
            keyspace@,
        ).remove(key@),
        r is Ok ==> others_unchanged(*old(store), *final(store), keyspace@),
        r is Err ==> unchanged(*old(store), *final(store)),
{
    let ks = store.db.keyspace(keyspace, fjall::KeyspaceCreateOptions::default)?;
    ks.remove(key)
}

/// Opens the keyspace `keyspace` with `fjall::Database::keyspace`, walks
/// `fjall::Keyspace::prefix` to its end and reads each entry with
/// `fjall::Guard::into_inner`: the entries whose key starts with `prefix`,
/// in ascending key order. Every key the keyspace holds is 1 to
/// `MAX_KEY_LEN` bytes long: the database refuses others.
#[verifier::external_body]
pub(crate) fn store_scan_prefix(store: &Store, keyspace: &str, prefix: &[u8]) -> (r: Result<Vec<(Vec<u8>, Vec<u8>)>, fjall::Error>)
    requires
        keyspace_name_ok(keyspace@),
        prefix@.len() <= MAX_KEY_LEN,
    ensures
        r matches Ok(entries) ==> {
            &&& is_prefix_scan(entries@, space(database_contents(store.db), keyspace@), prefix@)
            &&& forall|i: int| 0 <= i < entries.len() ==> 1 <= (#[trigger] entries@[i]).0@.len() <= MAX_KEY_LEN
        },
{
    let ks = store.db.keyspace(keyspace, fjall::KeyspaceCreateOptions::default)?;
    ks.prefix(prefix).map(|guard| guard.into_inner().map(|(k, v)| (k.to_vec(), v.to_vec()))).collect()
}

/// Opens the keyspace `keyspace` with `fjall::Database::keyspace`, takes the
/// first entry of `fjall::Keyspace::prefix` and reads it with
/// `fjall::Guard::value`: the value of the least key that starts with
/// `prefix`, or nothing when no key does.
#[verifier::external_body]
pub(crate) fn store_first_value_with_prefix(store: &Store, keyspace: &str, prefix: &[u8]) -> (r: Result<Option<Vec<u8>>, fjall::Error>)
    requires
        keyspace_name_ok(keyspace@),
        prefix@.len() <= MAX_KEY_LEN,
    ensures
        r matches Ok(Some(v)) ==> first_with_prefix(space(database_contents(store.db), keyspace@), prefix@)
            == Some(v@),
        r matches Ok(None) ==> !any_with_prefix(space(database_contents(store.db), keyspace@), prefix@),
{
    let ks = store.db.keyspace(keyspace, fjall::KeyspaceCreateOptions::default)?;
    ks.prefix(prefix).next().map(|guard| guard.value().map(|v| v.to_vec())).transpose()
}

/// The variants of `fjall::Error`, by name.
pub open spec fn fjall_error_variants() -> Seq<Seq<char>> {
    seq![
        "Storage"@,
        "Io"@,
        "JournalRecovery"@,
        "InvalidVersion"@,
        "Decompress"@,
        "InvalidTrailer"@,
        "InvalidTag"@,
        "Poisoned"@,
        "KeyspaceDeleted"@,
        "Locked"@,
        "Unrecoverable"@,
    ]
}

/// A text in the form that `Display` for `fjall::Error` writes: the prefix
/// `FjallError: ` followed by the error's derived debug form, which begins
/// with the name of one of the error's variants.
pub open spec fn is_fjall_error_text(t: Seq<char>) -> bool {
    &&& t.len() >= 12
    &&& t.subrange(0, 12) == "FjallError: "@
    &&& exists|i: int|
        0 <= i < fjall_error_variants().len() && 12 + (#[trigger] fjall_error_variants()[i]).len() <= t.len()
            && t.subrange(12, 12 + fjall_error_variants()[i].len() as int) == fjall_error_variants()[i]
}

/// The text of a database error, as `Display` for `fjall::Error` writes it
/// (`write!(f, "FjallError: {self:?}")`, with `Debug` derived on the enum):
/// `FjallError: ` and then the error's debug form, which starts with the name
/// of its variant. What follows the variant's name is not stated.
#[verifier::external_body]
pub(crate) fn storage_error_text(e: fjall::Error) -> (t: String)
    ensures
        is_fjall_error_text(t@),
{
    e.to_string()
}

} // verus!
