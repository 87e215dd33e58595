//! The core host functions of a plugin's runtime: its key-value state, the
//! dependency functions that plugins offer one another, and shutdown.

use crate::ids::{hyphenated_text, uuid_text};
use crate::services::discord::{discord_unchanged, is_discord_keyspace, lemma_discord_names_not_core};
use crate::services::job_scheduler::JobSchedulerRegistrationsResult;
use crate::services::{services_keys_fit, services_outcome, ServicesRegistrations, ServicesRegistrationsResult};
use crate::model::{position_of, texts, HostError, PluginPermissionsCore, RuntimePluginMetadata};
use crate::store::{
    any_with_prefix, first_with_prefix, has_prefix, is_fjall_error_text, is_prefix_scan,
    is_storage_failure, keyspace_name_ok, keyspace_of, others_unchanged, storage_error_text,
    store_first_value_with_prefix, store_get, store_insert, store_open, store_remove,
    store_scan_prefix, unchanged, Store, MAX_KEY_LEN, MAX_VALUE_LEN,
};
use vstd::prelude::*;
use vstd::string::*;
use vstd::utf8::*;

verus! {

broadcast use {crate::store::lemma_keyspace_of_database, vstd::utf8::group_utf8_lib};

/// The runtime of one plugin: what it knows of the plugin. The store that
/// all plugins share is handed to each call that reads or writes it.
pub struct InternalRuntime {
    pub metadata: RuntimePluginMetadata,
}

/// The keyspace of plugin state.
pub open spec fn plugin_store() -> Seq<char> {
    "plugin_store"@
}

/// The keyspace of dependency functions, by signature.
pub open spec fn dependency_functions() -> Seq<char> {
    "dependency_functions"@
}

/// The value found, if any, as bytes.
pub open spec fn found_bytes(found: Option<Vec<u8>>) -> Option<Seq<u8>> {
    match found {
        Some(v) => Some(v@),
        None => None,
    }
}

/// The value that `keys` maps `key` to, if any.
pub open spec fn lookup(keys: Map<Seq<u8>, Seq<u8>>, key: Seq<u8>) -> Option<Seq<u8>> {
    if keys.contains_key(key) {
        Some(keys[key])
    } else {
        None
    }
}

/// The text of the key under which a plugin keeps the state `key`: the
/// plugin's hyphenated UUID, `:`, then the key.
pub open spec fn state_key_text(uuid: Seq<u8>, key: Seq<char>) -> Seq<char> {
    hyphenated_text(uuid) + seq![':'] + key
}

/// The database key under which a plugin keeps the state `key`.
pub open spec fn state_key(uuid: Seq<u8>, key: Seq<char>) -> Seq<u8> {
    encode_utf8(state_key_text(uuid, key))
}

/// The state `key` of plugin `uuid`, as the plugin store `store` holds it.
pub open spec fn state_lookup(store: Map<Seq<u8>, Seq<u8>>, uuid: Seq<u8>, key: Seq<char>) -> Option<Seq<u8>> {
    lookup(store, state_key(uuid, key))
}

/// The plugin store after plugin `uuid` writes `value` to its state `key`.
pub open spec fn state_written(
    store: Map<Seq<u8>, Seq<u8>>,
    uuid: Seq<u8>,
    key: Seq<char>,
    value: Seq<u8>,
) -> Map<Seq<u8>, Seq<u8>> {
    store.insert(state_key(uuid, key), value)
}

/// The keys of `keys` that do not start with `prefix`, with their values.
pub open spec fn without_prefix(keys: Map<Seq<u8>, Seq<u8>>, prefix: Seq<u8>) -> Map<Seq<u8>, Seq<u8>> {
    Map::new(|k: Seq<u8>| keys.contains_key(k) && !has_prefix(k, prefix), |k: Seq<u8>| keys[k])
}

/// `keys` less the keys of `entries`.
pub open spec fn without_entries(keys: Map<Seq<u8>, Seq<u8>>, entries: Seq<(Vec<u8>, Vec<u8>)>) -> Map<
    Seq<u8>,
    Seq<u8>,
>
    decreases entries.len(),
{
    if entries.len() == 0 {
        keys
    } else {
        without_entries(keys, entries.drop_last()).remove(entries.last().0@)
    }
}

/// A key of `keys` is left by removing `entries` exactly when no entry has it;
/// what is left keeps its value.
pub proof fn lemma_without_entries(keys: Map<Seq<u8>, Seq<u8>>, entries: Seq<(Vec<u8>, Vec<u8>)>)
    ensures
        forall|k: Seq<u8>| #[trigger]
            without_entries(keys, entries).contains_key(k) <==> (keys.contains_key(k) && !(exists|i: int|
                0 <= i < entries.len() && #[trigger] entries[i].0@ == k)),
        forall|k: Seq<u8>| #[trigger]
            without_entries(keys, entries).contains_key(k) ==> without_entries(keys, entries)[k] == keys[k],
    decreases entries.len(),
{
    if entries.len() > 0 {
        let rest = entries.drop_last();
        let last = entries.last().0@;
        lemma_without_entries(keys, rest);
        let now = without_entries(keys, entries);
        let earlier = without_entries(keys, rest);
        assert(now == earlier.remove(last));
        assert forall|k: Seq<u8>| #[trigger]
            now.contains_key(k) <==> (keys.contains_key(k) && !(exists|i: int|
                0 <= i < entries.len() && #[trigger] entries[i].0@ == k)) by {
            if exists|i: int| 0 <= i < rest.len() && #[trigger] rest[i].0@ == k {
                let i = choose|i: int| 0 <= i < rest.len() && #[trigger] rest[i].0@ == k;
                assert(entries[i] == rest[i]);
            }
            if exists|i: int| 0 <= i < entries.len() && #[trigger] entries[i].0@ == k {
                let i = choose|i: int| 0 <= i < entries.len() && #[trigger] entries[i].0@ == k;
                if i < rest.len() {
                    assert(rest[i] == entries[i]);
                    assert(rest[i].0@ == k);
                } else {
                    assert(k == last);
                }
            }
            if k == last {
                assert(entries[entries.len() - 1].0@ == k);
            }
        }
        assert forall|k: Seq<u8>| #[trigger] now.contains_key(k) implies now[k] == keys[k] by {
            assert(earlier.contains_key(k));
        }
    }
}

/// `after` is `before` less some of the keys that start with `prefix`.
pub open spec fn removed_some_with_prefix(
    before: Map<Seq<u8>, Seq<u8>>,
    after: Map<Seq<u8>, Seq<u8>>,
    prefix: Seq<u8>,
) -> bool {
    &&& forall|k: Seq<u8>| #[trigger]
        after.contains_key(k) ==> before.contains_key(k) && after[k] == before[k]
    &&& forall|k: Seq<u8>| #[trigger]
        before.contains_key(k) && !has_prefix(k, prefix) ==> after.contains_key(k)
}

/// The signature of a dependency function: `namespace:plugin:function@version`.
pub open spec fn signature_text(
    namespace: Seq<char>,
    plugin: Seq<char>,
    function: Seq<char>,
    version: Seq<char>,
) -> Seq<char> {
    namespace + seq![':'] + plugin + seq![':'] + function + seq!['@'] + version
}

/// The version a caller asks for, as it ends the signature; none asks for any.
pub open spec fn version_text(version: Option<String>) -> Seq<char> {
    match version {
        Some(v) => v@,
        None => Seq::empty(),
    }
}

/// The signature under which the plugin `meta` registers its dependency function `function`.
pub open spec fn registered_signature(meta: RuntimePluginMetadata, function: Seq<char>) -> Seq<char> {
    signature_text(meta.namespace_id@, meta.plugin_id@, function, meta.version@)
}

/// The dependency function keyspace after the plugin `meta` registers the
/// functions `functions` in turn: each signature maps to the plugin's UUID.
pub open spec fn with_dependency_functions(
    keys: Map<Seq<u8>, Seq<u8>>,
    meta: RuntimePluginMetadata,
    functions: Seq<Seq<char>>,
) -> Map<Seq<u8>, Seq<u8>>
    decreases functions.len(),
{
    if functions.len() == 0 {
        keys
    } else {
        with_dependency_functions(keys, meta, functions.drop_last()).insert(
            encode_utf8(registered_signature(meta, functions.last())),
            meta.plugin_uuid@,
        )
    }
}

/// `pairs` map each function of `functions` to its signature, each once.
pub open spec fn signature_pairs(
    pairs: Seq<(String, String)>,
    meta: RuntimePluginMetadata,
    functions: Seq<Seq<char>>,
) -> bool {
    &&& forall|i: int|
        0 <= i < pairs.len() ==> functions.contains((#[trigger] pairs[i]).0@) && pairs[i].1@
            == registered_signature(meta, pairs[i].0@)
    &&& forall|f: Seq<char>| #[trigger]
        functions.contains(f) ==> exists|i: int| 0 <= i < pairs.len() && #[trigger] pairs[i].0@ == f
    &&& forall|i: int, j: int|
        0 <= i < j < pairs.len() ==> (#[trigger] pairs[i]).0@ != (#[trigger] pairs[j]).0@
}

/// What registering the dependency functions `functions` of the plugin
/// `meta` did to the dependency function keyspace, `before` and `after`, and
/// answered. Without the permission the plugin is refused and nothing
/// changes. Otherwise every function is registered and answered with its
/// signature, or a database failure stopped the registration after the
/// functions before it.
pub open spec fn dependency_registration(
    before: Map<Seq<u8>, Seq<u8>>,
    after: Map<Seq<u8>, Seq<u8>>,
    meta: RuntimePluginMetadata,
    functions: Seq<String>,
    r: Result<Vec<(String, String)>, HostError>,
) -> bool {
    let allowed = meta.has_core(PluginPermissionsCore::DependencyFunctions);
    &&& !allowed ==> (r matches Err(HostError::Runtime(m)) && m@ == dependency_functions_denied()
        && after == before)
    &&& r matches Ok(pairs) ==> {
        &&& allowed
        &&& signature_pairs(pairs@, meta, texts(functions))
        &&& after == with_dependency_functions(before, meta, texts(functions))
    }
    &&& r matches Err(HostError::Runtime(_)) ==> !allowed
    &&& r matches Err(HostError::Storage(m)) ==> {
        &&& allowed
        &&& is_fjall_error_text(m@)
        &&& exists|n: int|
            0 <= n <= functions.len() && after == with_dependency_functions(
                before,
                meta,
                #[trigger] texts(functions).take(n),
            )
    }
}

/// With the permission, every signature of `functions` fits in a database key.
pub open spec fn dependency_keys_fit(meta: RuntimePluginMetadata, functions: Seq<String>) -> bool {
    meta.has_core(PluginPermissionsCore::DependencyFunctions) ==> forall|i: int|
        0 <= i < functions.len() ==> encode_utf8(registered_signature(meta, (#[trigger] functions[i])@)).len()
            <= MAX_KEY_LEN
}

/// The refusal of a dependency function registration.
pub open spec fn dependency_functions_denied() -> Seq<char> {
    "Plugin is not allowed to register dependency functions"@
}

/// The answer to a call of a dependency function that no plugin registered.
pub open spec fn dependency_function_missing(signature: Seq<char>) -> Seq<char> {
    "The "@ + signature + " dependency function was not found"@
}

/// A call of a dependency function that was found: its signature and the
/// bytes stored for it, the UUID of the plugin that offers it.
pub struct DependencyCall {
    pub signature: String,
    pub plugin_uuid: Vec<u8>,
}

/// How the core is asked to stop.
#[derive(Clone, Copy, Debug, PartialEq, Eq, Structural)]
pub enum Shutdown {
    Normal,
    Restart,
}

/// The core registrations a plugin asks for.
pub struct CoreRegistrations {
    pub dependency_functions: Option<Vec<String>>,
}

/// The answers to a plugin's core registrations.
pub struct CoreRegistrationsResult {
    pub dependency_functions: Option<Result<Vec<(String, String)>, HostError>>,
}

/// What the core registrations `asked` of the plugin `meta` did to the
/// dependency function keyspace, `before` and `after`, and answered.
pub open spec fn core_registration(
    before: Map<Seq<u8>, Seq<u8>>,
    after: Map<Seq<u8>, Seq<u8>>,
    meta: RuntimePluginMetadata,
    asked: CoreRegistrations,
    answered: CoreRegistrationsResult,
) -> bool {
    match asked.dependency_functions {
        None => answered.dependency_functions is None && after == before,
        Some(functions) => (answered.dependency_functions matches Some(res) && dependency_registration(
            before,
            after,
            meta,
            functions@,
            res,
        )),
    }
}

/// The registrations a plugin asks for.
pub struct Registrations {
    pub core: Option<CoreRegistrations>,
    pub services: Option<ServicesRegistrations>,
}

/// The answers to a plugin's registrations.
pub struct RegistrationsResult {
    pub core: Option<CoreRegistrationsResult>,
    pub services: Option<ServicesRegistrationsResult>,
}

/// The deregistrations a plugin asks for.
pub struct Deregistrations {
    pub core: Option<CoreRegistrations>,
    pub services: Option<ServicesRegistrations>,
}

/// The answers to a plugin's deregistrations.
pub struct DeregistrationsResult {
    pub core: Option<CoreRegistrationsResult>,
    pub services: Option<ServicesRegistrationsResult>,
}

/// `dependency_functions` is a name the database accepts.
pub proof fn lemma_dependency_functions_name()
    ensures
        keyspace_name_ok(dependency_functions()),
{
    reveal_strlit("dependency_functions");
}

/// A database failure, as the plugin is told of it.
pub(crate) fn storage_error(e: fjall::Error) -> (h: HostError)
    ensures
        h matches HostError::Storage(m) && is_fjall_error_text(m@),
{
    HostError::Storage(storage_error_text(e))
}

/// `plugin_store` is a name the database accepts.
pub proof fn lemma_plugin_store_name()
    ensures
        keyspace_name_ok(plugin_store()),
{
    reveal_strlit("plugin_store");
}

impl InternalRuntime {
    /// The key under which this plugin keeps its state `key`.
    fn state_key(&self, key: &String) -> (k: String)
        ensures
            k@ == state_key_text(self.metadata.plugin_uuid@, key@),
    {
        let mut k = uuid_text(&self.metadata.plugin_uuid);
        k.append(":");
        k.append(key.as_str());
        proof {
            reveal_strlit(":");
        }
        k
    }

    /// Reads the plugin's state `key`: the value it last wrote there, or none.
    pub fn get_state(&self, store: &Store, key: &String) -> (r: Result<Option<Vec<u8>>, HostError>)
        requires
            state_key(self.metadata.plugin_uuid@, key@).len() <= MAX_KEY_LEN,
        ensures
            r matches Ok(found) ==> found_bytes(found) == state_lookup(
                keyspace_of(*store, plugin_store()),
                self.metadata.plugin_uuid@,
                key@,
            ),
            r matches Err(e) ==> is_storage_failure(e),
    {
        let k = self.state_key(key);
        proof {
            lemma_plugin_store_name();
        }
        match store_get(store, "plugin_store", k.as_str().as_bytes()) {
            Ok(found) => Ok(found),
            Err(e) => Err(storage_error(e)),
        }
    }

    /// Writes `value` to the plugin's state `key`.
    pub fn set_state(&self, store: &mut Store, key: String, value: Vec<u8>) -> (r: Result<(), HostError>)
        requires
            state_key(self.metadata.plugin_uuid@, key@).len() <= MAX_KEY_LEN,
            value@.len() <= MAX_VALUE_LEN,
        ensures
            others_unchanged(*old(store), *final(store), plugin_store()),
            r is Ok ==> keyspace_of(*final(store), plugin_store()) == state_written(
                keyspace_of(*old(store), plugin_store()),
                self.metadata.plugin_uuid@,
                key@,
                value@,
            ),
            r matches Err(e) ==> is_storage_failure(e) && unchanged(*old(store), *final(store)),
    {
        let k = self.state_key(&key);
        proof {
            lemma_plugin_store_name();
        }
        match store_insert(store, "plugin_store", k.as_str().as_bytes(), value.as_slice()) {
            Ok(()) => Ok(()),
            Err(e) => Err(storage_error(e)),
        }
    }

    /// Removes from the plugin store every key that starts with the sixteen
    /// bytes of the plugin's UUID. On an error the keys removed before it stay
    /// removed.
    pub fn clear_state(&self, store: &mut Store) -> (r: Result<(), HostError>)
        ensures
            others_unchanged(*old(store), *final(store), plugin_store()),
            r is Ok ==> keyspace_of(*final(store), plugin_store()) == without_prefix(
                keyspace_of(*old(store), plugin_store()),
                self.metadata.plugin_uuid@,
            ),
            r matches Err(e) ==> is_storage_failure(e) && removed_some_with_prefix(
                keyspace_of(*old(store), plugin_store()),
                keyspace_of(*final(store), plugin_store()),
                self.metadata.plugin_uuid@,
            ),
    {
        proof {
            lemma_plugin_store_name();
        }
        let ghost before = keyspace_of(*store, plugin_store());
        let ghost prefix = self.metadata.plugin_uuid@;
        if let Err(e) = store_open(store, "plugin_store") {
            return Err(storage_error(e));
        }
        let entries = match store_scan_prefix(store, "plugin_store", self.metadata.plugin_uuid.as_slice()) {
            Ok(entries) => entries,
            Err(e) => return Err(storage_error(e)),
        };
        let ghost all = entries@;
        let r = Self::remove_state_entries(store, entries);
        proof {
            let after = keyspace_of(*store, plugin_store());
            match r {
                Ok(()) => {
                    lemma_without_entries(before, all);
                    assert forall|k: Seq<u8>| #[trigger] after.contains_key(k) <==> without_prefix(before, prefix).contains_key(k) by {
                        if before.contains_key(k) && has_prefix(k, prefix) {
                            let i = choose|i: int| 0 <= i < all.len() && #[trigger] all[i].0@ == k;
                            assert(all[i].0@ == k);
                        }
                        if exists|i: int| 0 <= i < all.len() && #[trigger] all[i].0@ == k {
                            let i = choose|i: int| 0 <= i < all.len() && #[trigger] all[i].0@ == k;
                            assert(has_prefix(all[i].0@, prefix));
                        }
                    }
                    assert(after =~= without_prefix(before, prefix));
                },
                Err(_) => {
                    let n = choose|n: int| 0 <= n <= all.len() && after == without_entries(before, #[trigger] all.take(n));
                    lemma_without_entries(before, all.take(n));
                    assert forall|k: Seq<u8>| #[trigger] before.contains_key(k) && !has_prefix(k, prefix) implies after.contains_key(k) by {
                        if exists|i: int| 0 <= i < all.take(n).len() && #[trigger] all.take(n)[i].0@ == k {
                            let i = choose|i: int| 0 <= i < all.take(n).len() && #[trigger] all.take(n)[i].0@ == k;
                            assert(all[i] == all.take(n)[i]);
                            assert(has_prefix(all[i].0@, prefix));
                        }
                    }
                },
            }
        }
        r
    }

    /// Removes the plugin-store keys of `entries`, the outcome of a scan, one
    /// by one. On an error the keys before it stay removed.
    pub fn remove_state_entries(store: &mut Store, entries: Vec<(Vec<u8>, Vec<u8>)>) -> (r: Result<(), HostError>)
        requires
            forall|i: int| 0 <= i < entries.len() ==> 1 <= (#[trigger] entries@[i]).0@.len() <= MAX_KEY_LEN,
        ensures
            others_unchanged(*old(store), *final(store), plugin_store()),
            r is Ok ==> keyspace_of(*final(store), plugin_store()) == without_entries(
                keyspace_of(*old(store), plugin_store()),
                entries@,
            ),
            r matches Err(e) ==> is_storage_failure(e) && exists|n: int|
                0 <= n <= entries.len() && keyspace_of(*final(store), plugin_store()) == without_entries(
                    keyspace_of(*old(store), plugin_store()),
                    #[trigger] entries@.take(n),
                ),
    {
        proof {
            lemma_plugin_store_name();
        }
        let ghost before = keyspace_of(*store, plugin_store());
        let mut i: usize = 0;
        while i < entries.len()
            invariant
                i <= entries.len(),
                keyspace_name_ok(plugin_store()),
                forall|j: int| 0 <= j < entries.len() ==> 1 <= (#[trigger] entries@[j]).0@.len() <= MAX_KEY_LEN,
                before == keyspace_of(*old(store), plugin_store()),
                others_unchanged(*old(store), *store, plugin_store()),
                keyspace_of(*store, plugin_store()) == without_entries(before, entries@.take(i as int)),
            decreases entries.len() - i,
        {
            if let Err(e) = store_remove(store, "plugin_store", entries[i].0.as_slice()) {
                return Err(storage_error(e));
            }
            proof {
                assert(entries@.take(i + 1).drop_last() =~= entries@.take(i as int));
                assert(entries@.take(i + 1).last() == entries@[i as int]);
            }
            i = i + 1;
        }
        proof {
            assert(entries@.take(entries.len() as int) =~= entries@);
        }
        Ok(())
    }

    /// Looks up the dependency function `registry_id:plugin_id:function_id@`,
    /// followed by the version when one is given. Of the signatures that start
    /// so, the least one is taken, and the call goes to the plugin stored
    /// under it.
    pub fn dependency_function(
        &self,
        store: &Store,
        registry_id: String,
        plugin_id: String,
        function_id: String,
        plugin_version: Option<String>,
    ) -> (r: Result<DependencyCall, HostError>)
        requires
            encode_utf8(
                signature_text(registry_id@, plugin_id@, function_id@, version_text(plugin_version)),
            ).len() <= MAX_KEY_LEN,
        ensures
            ({
                let signature = signature_text(
                    registry_id@,
                    plugin_id@,
                    function_id@,
                    version_text(plugin_version),
                );
                let keys = keyspace_of(*store, dependency_functions());
                &&& r matches Ok(call) ==> call.signature@ == signature && first_with_prefix(
                    keys,
                    encode_utf8(signature),
                ) == Some(call.plugin_uuid@)
                &&& r matches Err(HostError::Runtime(m)) ==> m@ == dependency_function_missing(signature)
                    && !any_with_prefix(keys, encode_utf8(signature))
                &&& r matches Err(HostError::Storage(m)) ==> is_fjall_error_text(m@)
                &&& !any_with_prefix(keys, encode_utf8(signature)) ==> r is Err
            }),
    {
        let ghost signature = signature_text(
            registry_id@,
            plugin_id@,
            function_id@,
            version_text(plugin_version),
        );
        let mut sig = registry_id;
        sig.append(":");
        sig.append(plugin_id.as_str());
        sig.append(":");
        sig.append(function_id.as_str());
        sig.append("@");
        if let Some(version) = &plugin_version {
            sig.append(version.as_str());
        }
        proof {
            reveal_strlit(":");
            reveal_strlit("@");
            assert(sig@ =~= signature);
            lemma_dependency_functions_name();
        }
        if let Err(e) = store_open(store, "dependency_functions") {
            return Err(storage_error(e));
        }
        match store_first_value_with_prefix(store, "dependency_functions", sig.as_str().as_bytes()) {
            Ok(found) => {
                proof {
                    if found is None {
                        assert(first_with_prefix(keyspace_of(*store, dependency_functions()), encode_utf8(signature)) is None) by {
                            if exists|k: Seq<u8>| crate::store::is_first_with_prefix(keyspace_of(*store, dependency_functions()), encode_utf8(signature), k) {
                                let k = choose|k: Seq<u8>| crate::store::is_first_with_prefix(keyspace_of(*store, dependency_functions()), encode_utf8(signature), k);
                                assert(keyspace_of(*store, dependency_functions()).contains_key(k));
                            }
                        }
                    }
                }
                Self::dependency_call(sig, found)
            },
            Err(e) => Err(storage_error(e)),
        }
    }

    /// The answer to a call of the dependency function `signature`, given the
    /// value stored under the least matching signature, if any: the call goes
    /// to the plugin stored there, and without one the function was not found.
    pub fn dependency_call(signature: String, found: Option<Vec<u8>>) -> (r: Result<DependencyCall, HostError>)
        ensures
            found matches Some(v) ==> (r matches Ok(call) && call.signature@ == signature@ && call.plugin_uuid@
                == v@),
            found is None ==> (r matches Err(HostError::Runtime(m)) && m@ == dependency_function_missing(
                signature@,
            )),
    {
        match found {
            Some(plugin_uuid) => Ok(DependencyCall { signature, plugin_uuid }),
            None => {
                let mut message = String::from_str("The ");
                message.append(signature.as_str());
                message.append(" dependency function was not found");
                proof {
                    reveal_strlit("The ");
                    reveal_strlit(" dependency function was not found");
                }
                Err(HostError::Runtime(message))
            },
        }
    }

    /// Registers the plugin's dependency functions `functions` under
    /// `namespace:plugin:function@version`, each mapping to the plugin's
    /// UUID, and answers each function with its signature. Without the
    /// permission nothing is registered. A database failure stops the
    /// registration: the functions before it stay registered.
    pub fn register_dependency_functions(&self, store: &mut Store, functions: Vec<String>) -> (r: Result<Vec<(String, String)>, HostError>)
        requires
            dependency_keys_fit(self.metadata, functions@),
        ensures
            others_unchanged(*old(store), *final(store), dependency_functions()),
            dependency_registration(
                keyspace_of(*old(store), dependency_functions()),
                keyspace_of(*final(store), dependency_functions()),
                self.metadata,
                functions@,
                r,
            ),
    {
        if !self.metadata.grants_core(PluginPermissionsCore::DependencyFunctions) {
            return Err(HostError::Runtime(String::from_str("Plugin is not allowed to register dependency functions")));
        }
        proof {
            lemma_dependency_functions_name();
        }
        let ghost before = keyspace_of(*store, dependency_functions());
        let ghost fs = texts(functions@);
        if let Err(e) = store_open(store, "dependency_functions") {
            proof {
                assert(fs.take(0) =~= Seq::<Seq<char>>::empty());
            }
            return Err(storage_error(e));
        }
        let mut pairs: Vec<(String, String)> = Vec::new();
        let mut i: usize = 0;
        while i < functions.len()
            invariant

                self.metadata.has_core(PluginPermissionsCore::DependencyFunctions),
                fs == texts(functions@),
                before == keyspace_of(*old(store), dependency_functions()),
                keyspace_name_ok(dependency_functions()),
                forall|j: int|
                    0 <= j < functions.len() ==> encode_utf8(
                        registered_signature(self.metadata, (#[trigger] functions@[j])@),
                    ).len() <= MAX_KEY_LEN,
                i <= functions.len(),
                others_unchanged(*old(store), *store, dependency_functions()),
                keyspace_of(*store, dependency_functions()) == with_dependency_functions(
                    before,
                    self.metadata,
                    fs.take(i as int),
                ),
                signature_pairs(pairs@, self.metadata, fs.take(i as int)),
            decreases functions.len() - i,
        {
            let function = &functions[i];
            let mut signature = self.metadata.namespace_id.clone();
            signature.append(":");
            signature.append(self.metadata.plugin_id.as_str());
            signature.append(":");
            signature.append(function.as_str());
            signature.append("@");
            signature.append(self.metadata.version.as_str());
            proof {
                reveal_strlit(":");
                reveal_strlit("@");
                assert(signature@ =~= registered_signature(self.metadata, function@));
                assert(fs[i as int] == function@);
            }
            match store_insert(store, "dependency_functions", signature.as_str().as_bytes(), self.metadata.plugin_uuid.as_slice()) {
                Ok(()) => {},
                Err(e) => {
                    return Err(storage_error(e));
                },
            }
            proof {
                assert(fs.take(i + 1).drop_last() =~= fs.take(i as int));
                assert(fs.take(i + 1).last() == function@);
            }
            let ghost old_pairs = pairs@;
            let known = position_of(&pairs, function);
            if known.is_none() {
                pairs.push((function.clone(), signature));
            }
            proof {
                let t = fs.take(i + 1);
                let u = fs.take(i as int);
                assert forall|k: int| 0 <= k < pairs@.len() implies t.contains((#[trigger] pairs@[k]).0@) && pairs@[k].1@
                    == registered_signature(self.metadata, pairs@[k].0@) by {
                    if k < old_pairs.len() {
                        assert(old_pairs[k] == pairs@[k]);
                        let j = choose|j: int| 0 <= j < u.len() && u[j] == old_pairs[k].0@;
                        assert(t[j] == u[j]);
                    } else {
                        assert(t[i as int] == function@);
                    }
                }
                assert forall|f: Seq<char>| #[trigger] t.contains(f) implies exists|k: int|
                    0 <= k < pairs@.len() && #[trigger] pairs@[k].0@ == f by {
                    let j = choose|j: int| 0 <= j < t.len() && t[j] == f;
                    if j < i {
                        assert(u[j] == f);
                        assert(u.contains(f));
                        let k = choose|k: int| 0 <= k < old_pairs.len() && #[trigger] old_pairs[k].0@ == f;
                        assert(pairs@[k] == old_pairs[k]);
                    } else {
                        assert(f == function@);
                        match known {
                            Some(k) => {
                                assert(pairs@[k as int].0@ == f);
                            },
                            None => {
                                assert(pairs@[old_pairs.len() as int].0@ == f);
                            },
                        }
                    }
                }
                assert forall|k: int, l: int| 0 <= k < l < pairs@.len() implies (#[trigger] pairs@[k]).0@ != (
                #[trigger] pairs@[l]).0@ by {
                    if l < old_pairs.len() {
                        assert(old_pairs[k] == pairs@[k] && old_pairs[l] == pairs@[l]);
                    } else {
                        assert(old_pairs[k] == pairs@[k]);
                    }
                }
            }
            i = i + 1;
        }
        proof {
            assert(fs.take(functions.len() as int) =~= fs);
        }
        Ok(pairs)
    }

    /// Decides a plugin's request to stop the core, restarting it when
    /// `restart` is set. Only a plugin with the permission may ask.
    pub fn shutdown(&self, restart: bool) -> (r: Result<Shutdown, HostError>)
        ensures
            self.metadata.has_core(PluginPermissionsCore::Shutdown) ==> r == Ok::<Shutdown, HostError>(
                if restart {
                    Shutdown::Restart
                } else {
                    Shutdown::Normal
                },
            ),
            !self.metadata.has_core(PluginPermissionsCore::Shutdown) ==> (r matches Err(
                HostError::Runtime(m),
            ) && m@ == "Not allowed to call shutdown"@),
    {
        if !self.metadata.grants_core(PluginPermissionsCore::Shutdown) {
            return Err(HostError::Runtime(String::from_str("Not allowed to call shutdown")));
        }
        if restart {
            Ok(Shutdown::Restart)
        } else {
            Ok(Shutdown::Normal)
        }
    }

    /// The answer to a dependency function call, from the reply of the
    /// plugin that offers it; without a reply the runtime is shutting down.
    pub fn dependency_function_reply(reply: Option<Result<Vec<u8>, HostError>>) -> (r: Result<Vec<u8>, HostError>)
        ensures
            reply matches Some(answer) ==> r == answer,
            reply is None ==> (r matches Err(HostError::Runtime(m)) && m@ == "Runtime is shutting down"@),
    {
        match reply {
            Some(answer) => answer,
            None => Err(HostError::Runtime(String::from_str("Runtime is shutting down"))),
        }
    }

    /// Carries out the core registrations of the plugin: those of dependency
    /// functions, when it asks for them.
    pub fn register_core(&self, store: &mut Store, core_registrations: CoreRegistrations) -> (r: CoreRegistrationsResult)
        requires
            core_registrations.dependency_functions matches Some(functions) ==> dependency_keys_fit(
                self.metadata,
                functions@,
            ),
        ensures
            others_unchanged(*old(store), *final(store), dependency_functions()),
            core_registration(
                keyspace_of(*old(store), dependency_functions()),
                keyspace_of(*final(store), dependency_functions()),
                self.metadata,
                core_registrations,
                r,
            ),
    {
        let dependency_functions = match core_registrations.dependency_functions {
            Some(functions) => Some(self.register_dependency_functions(store, functions)),
            None => None,
        };
        CoreRegistrationsResult { dependency_functions }
    }

    /// Carries out a plugin's registrations: its core registrations, then
    /// its service registrations. The job scheduler registrations wait on the
    /// core and are carried out by the caller: `job_scheduler` is their
    /// outcome, and `discord_enabled` says whether the Discord service is on.
    pub fn register(
        &self,
        store: &mut Store,
        registrations: Registrations,
        discord_enabled: bool,
        job_scheduler: Option<Result<JobSchedulerRegistrationsResult, HostError>>,
    ) -> (r: RegistrationsResult)
        requires
            registrations.core matches Some(c) ==> (c.dependency_functions matches Some(functions)
                ==> dependency_keys_fit(self.metadata, functions@)),
            registrations.services matches Some(s) ==> services_keys_fit(self.metadata, discord_enabled, s),
            registrations.services matches Some(s) ==> (job_scheduler is Some <==> s.job_scheduler is Some),
        ensures
            forall|n: Seq<char>|
                n != dependency_functions() && !is_discord_keyspace(n) ==> #[trigger] keyspace_of(
                    *final(store),
                    n,
                ) == keyspace_of(*old(store), n),
            match registrations.core {
                None => r.core is None && keyspace_of(*final(store), dependency_functions())
                    == keyspace_of(*old(store), dependency_functions()),
                Some(c) => (r.core matches Some(cr) && core_registration(
                    keyspace_of(*old(store), dependency_functions()),
                    keyspace_of(*final(store), dependency_functions()),
                    self.metadata,
                    c,
                    cr,
                )),
            },
            match registrations.services {
                None => r.services is None && discord_unchanged(*old(store), *final(store)),
                Some(s) => (r.services matches Some(sr) && services_outcome(
                    *old(store),
                    *final(store),
                    self.metadata,
                    discord_enabled,
                    job_scheduler,
                    s,
                    sr,
                )),
            },
    {
        proof {
            lemma_discord_names_not_core();
        }
        let core = match registrations.core {
            Some(core_registrations) => Some(self.register_core(store, core_registrations)),
            None => None,
        };
        let services = match registrations.services {
            Some(services_registrations) => Some(
                Self::register_services(
                    store,
                    &self.metadata,
                    discord_enabled,
                    job_scheduler,
                    services_registrations,
                ),
            ),
            None => None,
        };
        RegistrationsResult { core, services }
    }

    /// Answers a plugin's deregistrations. Deregistration is not offered
    /// yet: nothing is undone and nothing is answered.
    pub fn deregister(&self, deregistrations: Deregistrations) -> (r: DeregistrationsResult)
        ensures
            r.core is None,
            r.services is None,
    {
        DeregistrationsResult { core: None, services: None }
    }
}

} // verus!
