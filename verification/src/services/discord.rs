//! Discord service registrations: gateway event subscriptions, application
//! commands, message components and modals, and the check of a Discord
//! request.

use crate::host::{dependency_functions, plugin_store, storage_error, InternalRuntime};
use crate::ids::{hyphenated_text, is_v4, lemma_hyphenated_text, new_random_uuid, uuid_text};
use crate::model::{texts, HostError, PluginPermissionsDiscordInteractions, RuntimePluginMetadata};
use crate::store::{
    is_fjall_error_text, is_storage_failure, keyspace_name_ok, keyspace_of, others_unchanged,
    store_insert, store_open, unchanged, Store, MAX_KEY_LEN, MAX_VALUE_LEN,
};
use vstd::prelude::*;
use vstd::string::*;
use vstd::utf8::*;

verus! {

broadcast use crate::store::lemma_keyspace_of_database;

/// The keyspace of gateway event subscriptions.
pub open spec fn discord_events() -> Seq<char> {
    "discord_events"@
}

/// The keyspace of application commands.
pub open spec fn discord_application_commands() -> Seq<char> {
    "discord_application_commands"@
}

/// The keyspace of message components.
pub open spec fn discord_message_components() -> Seq<char> {
    "discord_message_components"@
}

/// The keyspace of modals.
pub open spec fn discord_modals() -> Seq<char> {
    "discord_modals"@
}

/// The Discord keyspaces are names the database accepts.
pub proof fn lemma_discord_names()
    ensures
        keyspace_name_ok(discord_events()),
        keyspace_name_ok(discord_application_commands()),
        keyspace_name_ok(discord_message_components()),
        keyspace_name_ok(discord_modals()),
{
    reveal_strlit("discord_events");
    reveal_strlit("discord_application_commands");
    reveal_strlit("discord_message_components");
    reveal_strlit("discord_modals");
}

/// The keyspaces that Discord registrations write.
pub open spec fn is_discord_keyspace(n: Seq<char>) -> bool {
    n == discord_events() || n == discord_application_commands() || n == discord_message_components()
        || n == discord_modals()
}

/// The Discord keyspaces are four distinct names.
pub proof fn lemma_discord_names_distinct()
    ensures
        discord_events() != discord_application_commands(),
        discord_events() != discord_message_components(),
        discord_events() != discord_modals(),
        discord_application_commands() != discord_message_components(),
        discord_application_commands() != discord_modals(),
        discord_message_components() != discord_modals(),
{
    reveal_strlit("discord_events");
    reveal_strlit("discord_application_commands");
    reveal_strlit("discord_message_components");
    reveal_strlit("discord_modals");
    assert(discord_events().len() != discord_application_commands().len());
    assert(discord_events().len() != discord_message_components().len());
    assert(discord_events()[8] != discord_modals()[8]);
    assert(discord_application_commands().len() != discord_message_components().len());
    assert(discord_application_commands().len() != discord_modals().len());
    assert(discord_message_components().len() != discord_modals().len());
}

/// No Discord keyspace is a keyspace of the core.
pub proof fn lemma_discord_names_not_core()
    ensures
        !is_discord_keyspace(plugin_store()),
        !is_discord_keyspace(dependency_functions()),
{
    reveal_strlit("discord_events");
    reveal_strlit("discord_application_commands");
    reveal_strlit("discord_message_components");
    reveal_strlit("discord_modals");
    reveal_strlit("plugin_store");
    reveal_strlit("dependency_functions");
    assert(plugin_store()[0] != discord_events()[0]);
    assert(plugin_store()[0] != discord_application_commands()[0]);
    assert(plugin_store()[0] != discord_message_components()[0]);
    assert(plugin_store()[0] != discord_modals()[0]);
    assert(dependency_functions()[1] != discord_events()[1]);
    assert(dependency_functions()[1] != discord_application_commands()[1]);
    assert(dependency_functions()[1] != discord_message_components()[1]);
    assert(dependency_functions()[1] != discord_modals()[1]);
}

/// The Discord registrations a plugin asks for.
pub struct DiscordRegistrations {
    /// Gateway events, by wire name.
    pub events: Option<Vec<String>>,
    pub interactions: Option<DiscordRegistrationsInteractions>,
}

/// The interaction registrations a plugin asks for.
pub struct DiscordRegistrationsInteractions {
    /// Application commands, as the text that describes each.
    pub application_commands: Option<Vec<String>>,
    /// How many message components to register.
    pub message_components: Option<u16>,
    /// How many modals to register.
    pub modals: Option<u16>,
}

/// The answers to a plugin's Discord registrations.
pub struct DiscordRegistrationsResult {
    /// For each event asked for, in order, whether it was registered.
    pub events: Option<Result<Vec<(String, Result<(), HostError>)>, HostError>>,
    pub interactions: Option<DiscordRegistrationsInteractionsResult>,
}

/// The answers to a plugin's interaction registrations.
pub struct DiscordRegistrationsInteractionsResult {
    pub application_commands: Option<Result<(), HostError>>,
    /// The hyphenated identifiers of the message components.
    pub message_components: Option<Result<Vec<String>, HostError>>,
    /// The hyphenated identifiers of the modals.
    pub modals: Option<Result<Vec<String>, HostError>>,
}

/// The answer when the Discord service is off.
pub open spec fn discord_disabled() -> Seq<char> {
    "The Discord service is disabled"@
}

/// The answer for an event the plugin may not subscribe to.
pub open spec fn event_denied() -> Seq<char> {
    "Plugin is not allowed to register for this event"@
}

/// The refusal of application commands.
pub open spec fn application_commands_denied() -> Seq<char> {
    "Plugin is not allowed to register application command interactions"@
}

/// The refusal of message components.
pub open spec fn message_components_denied() -> Seq<char> {
    "Plugin is not allowed to register message component interactions"@
}

/// The refusal of modals.
pub open spec fn modals_denied() -> Seq<char> {
    "Plugin is not allowed to register modal interactions"@
}

/// The refusal of a Discord request.
pub open spec fn request_denied() -> Seq<char> {
    "Plugin does not have the permission to make this Discord request"@
}

/// The key of the subscription of plugin `uuid` to `event`: the event's name,
/// `:`, then the plugin's hyphenated UUID.
pub open spec fn event_key(event: Seq<char>, uuid: Seq<u8>) -> Seq<u8> {
    encode_utf8(event + seq![':'] + hyphenated_text(uuid))
}

/// The event keyspace after the answered subscriptions `results` of plugin
/// `uuid`: each event answered with success maps to the plugin's UUID.
pub open spec fn events_stored(
    keys: Map<Seq<u8>, Seq<u8>>,
    uuid: Seq<u8>,
    results: Seq<(String, Result<(), HostError>)>,
) -> Map<Seq<u8>, Seq<u8>>
    decreases results.len(),
{
    if results.len() == 0 {
        keys
    } else {
        let earlier = events_stored(keys, uuid, results.drop_last());
        if results.last().1 is Ok {
            earlier.insert(event_key(results.last().0@, uuid), uuid)
        } else {
            earlier
        }
    }
}

/// Every event the plugin may subscribe to has a key that fits in the database.
pub open spec fn event_keys_fit(meta: RuntimePluginMetadata, events: Seq<String>) -> bool {
    forall|i: int|
        0 <= i < events.len() && meta.has_event((#[trigger] events[i])@) ==> event_key(
            events[i]@,
            meta.plugin_uuid@,
        ).len() <= MAX_KEY_LEN
}

/// What subscribing the plugin `meta` to `events` did to the event keyspace,
/// `before` and `after`, and answered. Only a failure to open the keyspace
/// fails the whole; otherwise each event is answered in order: refused when
/// the plugin may not subscribe to it, else registered, or failed by the
/// database.
pub open spec fn event_registration(
    before: Map<Seq<u8>, Seq<u8>>,
    after: Map<Seq<u8>, Seq<u8>>,
    meta: RuntimePluginMetadata,
    events: Seq<String>,
    r: Result<Vec<(String, Result<(), HostError>)>, HostError>,
) -> bool {
    &&& r matches Err(e) ==> is_storage_failure(e) && after == before
    &&& r matches Ok(results) ==> event_answers(before, after, meta, events, results@)
}

/// Each event of `events` is answered in its own slot of `results`, in
/// order: refused when the plugin `meta` may not subscribe to it, else
/// registered, or failed by the database; the event keyspace, `before` and
/// `after`, gained the subscriptions answered with success.
pub open spec fn event_answers(
    before: Map<Seq<u8>, Seq<u8>>,
    after: Map<Seq<u8>, Seq<u8>>,
    meta: RuntimePluginMetadata,
    events: Seq<String>,
    results: Seq<(String, Result<(), HostError>)>,
) -> bool {
    &&& results.len() == events.len()
    &&& forall|i: int|
        0 <= i < events.len() ==> {
            &&& (#[trigger] results[i]).0@ == events[i]@
            &&& meta.has_event(events[i]@) ==> (results[i].1 is Ok || (results[i].1 matches Err(e)
                && is_storage_failure(e)))
            &&& !meta.has_event(events[i]@) ==> (results[i].1 matches Err(HostError::Runtime(m)) && m@
                == event_denied())
        }
    &&& after == events_stored(before, meta.plugin_uuid@, results)
}

/// With the permission, every application command fits in a database value.
pub open spec fn command_values_fit(meta: RuntimePluginMetadata, commands: Seq<String>) -> bool {
    meta.has_interaction(PluginPermissionsDiscordInteractions::ApplicationCommands) ==> forall|i: int|
        0 <= i < commands.len() ==> encode_utf8((#[trigger] commands[i])@).len() <= MAX_VALUE_LEN
}

/// Every event subscription and application command asked for fits in the
/// database.
pub open spec fn discord_inputs_fit(meta: RuntimePluginMetadata, regs: DiscordRegistrations) -> bool {
    &&& regs.events matches Some(events) ==> event_keys_fit(meta, events@)
    &&& regs.interactions matches Some(i) ==> (i.application_commands matches Some(commands)
        ==> command_values_fit(meta, commands@))
}

/// The key of an application command: the plugin's hyphenated UUID, `:`,
/// then the command's hyphenated identifier.
pub open spec fn command_key(plugin: Seq<u8>, id: Seq<u8>) -> Seq<u8> {
    encode_utf8(hyphenated_text(plugin) + seq![':'] + hyphenated_text(id))
}

/// The application command keyspace after the plugin `plugin` registers the
/// first `ids.len()` of `commands` under the identifiers `ids`.
pub open spec fn commands_stored(
    keys: Map<Seq<u8>, Seq<u8>>,
    plugin: Seq<u8>,
    ids: Seq<Seq<u8>>,
    commands: Seq<Seq<char>>,
) -> Map<Seq<u8>, Seq<u8>>
    decreases ids.len(),
{
    if ids.len() == 0 {
        keys
    } else {
        commands_stored(keys, plugin, ids.drop_last(), commands).insert(
            command_key(plugin, ids.last()),
            encode_utf8(commands[ids.len() - 1]),
        )
    }
}

/// All of `ids` are version-4 UUIDs.
pub open spec fn all_v4(ids: Seq<Seq<u8>>) -> bool {
    forall|i: int| 0 <= i < ids.len() ==> is_v4(#[trigger] ids[i])
}

/// What registering the application commands `commands` of the plugin `meta`
/// did to their keyspace, `before` and `after`, and answered. Each command is
/// stored under a fresh random identifier. Without the permission the plugin
/// is refused and nothing changes; a database failure stops the registration
/// after the commands before it.
pub open spec fn command_registration(
    before: Map<Seq<u8>, Seq<u8>>,
    after: Map<Seq<u8>, Seq<u8>>,
    meta: RuntimePluginMetadata,
    commands: Seq<String>,
    r: Result<(), HostError>,
) -> bool {
    let allowed = meta.has_interaction(PluginPermissionsDiscordInteractions::ApplicationCommands);
    &&& !allowed ==> (r matches Err(HostError::Runtime(m)) && m@ == application_commands_denied()
        && after == before)
    &&& r is Ok ==> allowed && exists|ids: Seq<Seq<u8>>|
        ids.len() == commands.len() && all_v4(ids) && after == #[trigger] commands_stored(
            before,
            meta.plugin_uuid@,
            ids,
            texts(commands),
        )
    &&& r matches Err(HostError::Runtime(_)) ==> !allowed
    &&& r matches Err(HostError::Storage(m)) ==> allowed && is_fjall_error_text(m@) && exists|ids: Seq<Seq<u8>>|
        ids.len() <= commands.len() && all_v4(ids) && after == #[trigger] commands_stored(
            before,
            meta.plugin_uuid@,
            ids,
            texts(commands),
        )
}

/// A keyspace after each of `ids` is stored, mapping to the plugin's UUID.
pub open spec fn ids_stored(keys: Map<Seq<u8>, Seq<u8>>, plugin: Seq<u8>, ids: Seq<Seq<u8>>) -> Map<
    Seq<u8>,
    Seq<u8>,
>
    decreases ids.len(),
{
    if ids.len() == 0 {
        keys
    } else {
        ids_stored(keys, plugin, ids.drop_last()).insert(ids.last(), plugin)
    }
}

/// What registering `count` random identifiers for the plugin `meta` did to
/// their keyspace, `before` and `after`, and answered: `allowed` says whether
/// the plugin may, `denied` what it is told if not. The answer lists the
/// identifiers in their hyphenated form; a database failure stops the
/// registration after the identifiers before it.
pub open spec fn id_registration(
    before: Map<Seq<u8>, Seq<u8>>,
    after: Map<Seq<u8>, Seq<u8>>,
    meta: RuntimePluginMetadata,
    allowed: bool,
    denied: Seq<char>,
    count: nat,
    r: Result<Vec<String>, HostError>,
) -> bool {
    &&& !allowed ==> (r matches Err(HostError::Runtime(m)) && m@ == denied && after == before)
    &&& r matches Ok(names) ==> allowed && exists|ids: Seq<Seq<u8>>|
        {
            &&& ids.len() == count
            &&& names.len() == count
            &&& all_v4(ids)
            &&& forall|i: int| 0 <= i < count ==> (#[trigger] names@[i])@ == hyphenated_text(ids[i])
            &&& after == #[trigger] ids_stored(before, meta.plugin_uuid@, ids)
        }
    &&& r matches Err(HostError::Runtime(_)) ==> !allowed
    &&& r matches Err(HostError::Storage(m)) ==> allowed && is_fjall_error_text(m@) && exists|ids: Seq<Seq<u8>>|
        ids.len() <= count && all_v4(ids) && after == #[trigger] ids_stored(
            before,
            meta.plugin_uuid@,
            ids,
        )
}

/// What the Discord registrations `regs` of the plugin `meta` did to the
/// Discord keyspaces of the database, `before` and `after`, and answered:
/// each registration asked for is carried out and answered as its own kind
/// says, and a keyspace whose registration is not asked for is left alone.
pub open spec fn discord_registration(
    before: Store,
    after: Store,
    meta: RuntimePluginMetadata,
    regs: DiscordRegistrations,
    res: DiscordRegistrationsResult,
) -> bool {
    &&& match regs.events {
        None => res.events is None && keyspace_of(after, discord_events()) == keyspace_of(
            before,
            discord_events(),
        ),
        Some(events) => (res.events matches Some(er) && event_registration(
            keyspace_of(before, discord_events()),
            keyspace_of(after, discord_events()),
            meta,
            events@,
            er,
        )),
    }
    &&& match regs.interactions {
        None => {
            &&& res.interactions is None
            &&& keyspace_of(after, discord_application_commands()) == keyspace_of(
                before,
                discord_application_commands(),
            )
            &&& keyspace_of(after, discord_message_components()) == keyspace_of(
                before,
                discord_message_components(),
            )
            &&& keyspace_of(after, discord_modals()) == keyspace_of(before, discord_modals())
        },
        Some(asked) => (res.interactions matches Some(answered) && interaction_registration(
            before,
            after,
            meta,
            asked,
            answered,
        )),
    }
}

/// Every Discord keyspace holds in `after` what it held in `before`.
pub open spec fn discord_unchanged(before: Store, after: Store) -> bool {
    forall|n: Seq<char>| is_discord_keyspace(n) ==> #[trigger] keyspace_of(after, n) == keyspace_of(before, n)
}

/// What asking for the Discord registrations `regs` of the plugin `meta` did
/// to the database, `before` and `after`, and answered: refused when the
/// service is off, carried out when it is on.
pub open spec fn discord_outcome(
    before: Store,
    after: Store,
    meta: RuntimePluginMetadata,
    discord_enabled: bool,
    regs: DiscordRegistrations,
    r: Result<DiscordRegistrationsResult, HostError>,
) -> bool {
    &&& !discord_enabled ==> (r matches Err(HostError::Runtime(m)) && m@ == discord_disabled())
        && discord_unchanged(before, after)
    &&& discord_enabled ==> (r matches Ok(res) && discord_registration(before, after, meta, regs, res))
}

/// What the interaction registrations `asked` of the plugin `meta` did to
/// their keyspaces, `before` and `after`, and answered.
pub open spec fn interaction_registration(
    before: Store,
    after: Store,
    meta: RuntimePluginMetadata,
    asked: DiscordRegistrationsInteractions,
    answered: DiscordRegistrationsInteractionsResult,
) -> bool {
    &&& match asked.application_commands {
        None => answered.application_commands is None && keyspace_of(
            after,
            discord_application_commands(),
        ) == keyspace_of(before, discord_application_commands()),
        Some(commands) => (answered.application_commands matches Some(cr) && command_registration(
            keyspace_of(before, discord_application_commands()),
            keyspace_of(after, discord_application_commands()),
            meta,
            commands@,
            cr,
        )),
    }
    &&& match asked.message_components {
        None => answered.message_components is None && keyspace_of(
            after,
            discord_message_components(),
        ) == keyspace_of(before, discord_message_components()),
        Some(count) => (answered.message_components matches Some(mr) && id_registration(
            keyspace_of(before, discord_message_components()),
            keyspace_of(after, discord_message_components()),
            meta,
            meta.has_interaction(PluginPermissionsDiscordInteractions::MessageComponents),
            message_components_denied(),
            count as nat,
            mr,
        )),
    }
    &&& match asked.modals {
        None => answered.modals is None && keyspace_of(after, discord_modals()) == keyspace_of(
            before,
            discord_modals(),
        ),
        Some(count) => (answered.modals matches Some(mr) && id_registration(
            keyspace_of(before, discord_modals()),
            keyspace_of(after, discord_modals()),
            meta,
            meta.has_interaction(PluginPermissionsDiscordInteractions::Modals),
            modals_denied(),
            count as nat,
            mr,
        )),
    }
}

/// A command key is 73 bytes long: two hyphenated UUIDs and a `:`.
proof fn lemma_command_key_len(plugin: Seq<u8>, id: Seq<u8>)
    requires
        plugin.len() == 16,
        id.len() == 16,
    ensures
        command_key(plugin, id).len() == 73,
{
    lemma_hyphenated_text(plugin);
    lemma_hyphenated_text(id);
    let a = hyphenated_text(plugin) + seq![':'];
    let t = a + hyphenated_text(id);
    assert(is_ascii_chars(seq![':']));
    is_ascii_chars_concat(a, hyphenated_text(plugin), seq![':']);
    is_ascii_chars_concat(t, a, hyphenated_text(id));
    is_ascii_chars_encode_utf8(t);
}

/// The text of the key of command `id`, given the plugin's hyphenated UUID.
fn command_key_text(plugin_text: &String, id: &[u8; 16]) -> (key: String)
    ensures
        key@ == plugin_text@ + seq![':'] + hyphenated_text(id@),
{
    let mut key = plugin_text.clone();
    key.append(":");
    let id_text = uuid_text(id);
    key.append(id_text.as_str());
    proof {
        reveal_strlit(":");
        assert(key@ =~= plugin_text@ + seq![':'] + hyphenated_text(id@));
    }
    key
}

impl InternalRuntime {
    /// Subscribes the plugin to the gateway events `event_registrations` and
    /// answers each in order, once the event keyspace is open.
    fn register_discord_events(
        store: &mut Store,
        plugin_metadata: &RuntimePluginMetadata,
        event_registrations: Vec<String>,
    ) -> (r: Result<Vec<(String, Result<(), HostError>)>, HostError>)
        requires
            event_keys_fit(*plugin_metadata, event_registrations@),
        ensures
            others_unchanged(*old(store), *final(store), discord_events()),
            event_registration(
                keyspace_of(*old(store), discord_events()),
                keyspace_of(*final(store), discord_events()),
                *plugin_metadata,
                event_registrations@,
                r,
            ),
    {
        proof {
            lemma_discord_names();
        }
        let opened = match store_open(store, "discord_events") {
            Ok(()) => Ok(()),
            Err(e) => Err(storage_error(e)),
        };
        Self::subscribe_discord_events(store, plugin_metadata, event_registrations, opened)
    }

    /// The subscriptions of the plugin to the gateway events
    /// `event_registrations`, given the outcome `opened` of opening the event
    /// keyspace: a failure to open is the answer; once it is open, each event
    /// is answered in its own slot, a failed write included, and the later
    /// events are still subscribed.
    pub fn subscribe_discord_events(
        store: &mut Store,
        plugin_metadata: &RuntimePluginMetadata,
        event_registrations: Vec<String>,
        opened: Result<(), HostError>,
    ) -> (r: Result<Vec<(String, Result<(), HostError>)>, HostError>)
        requires
            event_keys_fit(*plugin_metadata, event_registrations@),
        ensures
            others_unchanged(*old(store), *final(store), discord_events()),
            opened matches Err(e) ==> (r matches Err(f) && f == e) && unchanged(*old(store), *final(store)),
            opened is Ok ==> (r matches Ok(results) && event_answers(
                keyspace_of(*old(store), discord_events()),
                keyspace_of(*final(store), discord_events()),
                *plugin_metadata,
                event_registrations@,
                results@,
            )),
    {
        proof {
            lemma_discord_names();
        }
        let ghost before = keyspace_of(*store, discord_events());
        if let Err(e) = opened {
            return Err(e);
        }
        let mut results: Vec<(String, Result<(), HostError>)> = Vec::new();
        let mut i: usize = 0;
        while i < event_registrations.len()
            invariant
                i <= event_registrations.len(),
                results.len() == i,
                keyspace_name_ok(discord_events()),
                event_keys_fit(*plugin_metadata, event_registrations@),
                before == keyspace_of(*old(store), discord_events()),
                others_unchanged(*old(store), *store, discord_events()),
                keyspace_of(*store, discord_events()) == events_stored(
                    before,
                    plugin_metadata.plugin_uuid@,
                    results@,
                ),
                forall|j: int|
                    0 <= j < i ==> {
                        &&& (#[trigger] results@[j]).0@ == event_registrations@[j]@
                        &&& plugin_metadata.has_event(event_registrations@[j]@) ==> (results@[j].1 is Ok
                            || (results@[j].1 matches Err(e) && is_storage_failure(e)))
                        &&& !plugin_metadata.has_event(event_registrations@[j]@) ==> (
                        results@[j].1 matches Err(HostError::Runtime(m)) && m@ == event_denied())
                    },
            decreases event_registrations.len() - i,
        {
            let event = &event_registrations[i];
            let ghost earlier = results@;
            if !plugin_metadata.grants_event(event) {
                results.push(
                    (
                        event.clone(),
                        Err(
                            HostError::Runtime(
                                String::from_str("Plugin is not allowed to register for this event"),
                            ),
                        ),
                    ),
                );
            } else {
                let mut key = event.clone();
                key.append(":");
                let plugin_text = uuid_text(&plugin_metadata.plugin_uuid);
                key.append(plugin_text.as_str());
                proof {
                    reveal_strlit(":");
                    assert(key@ =~= event@ + seq![':'] + hyphenated_text(plugin_metadata.plugin_uuid@));
                }
                match store_insert(store, "discord_events", key.as_str().as_bytes(), plugin_metadata.plugin_uuid.as_slice()) {
                    Ok(()) => {
                        results.push((event.clone(), Ok(())));
                    },
                    Err(e) => {
                        results.push((event.clone(), Err(storage_error(e))));
                    },
                }
            }
            proof {
                assert(results@.drop_last() =~= earlier);
            }
            i = i + 1;
        }
        Ok(results)
    }

    /// Stores each of the application commands `application_command_registrations`
    /// of the plugin under a fresh random identifier.
    fn register_discord_application_commands(
        store: &mut Store,
        plugin_metadata: &RuntimePluginMetadata,
        application_command_registrations: Vec<String>,
    ) -> (r: Result<(), HostError>)
        requires
            command_values_fit(*plugin_metadata, application_command_registrations@),
        ensures
            others_unchanged(*old(store), *final(store), discord_application_commands()),
            command_registration(
                keyspace_of(*old(store), discord_application_commands()),
                keyspace_of(*final(store), discord_application_commands()),
                *plugin_metadata,
                application_command_registrations@,
                r,
            ),
    {
        if !plugin_metadata.grants_interaction(PluginPermissionsDiscordInteractions::ApplicationCommands) {
            return Err(
                HostError::Runtime(
                    String::from_str("Plugin is not allowed to register application command interactions"),
                ),
            );
        }
        proof {
            lemma_discord_names();
        }
        let ghost before = keyspace_of(*store, discord_application_commands());
        let ghost commands = texts(application_command_registrations@);
        let ghost mut ids: Seq<Seq<u8>> = Seq::empty();
        if let Err(e) = store_open(store, "discord_application_commands") {
            assert(commands_stored(before, plugin_metadata.plugin_uuid@, ids, commands) == before);
            return Err(storage_error(e));
        }
        let plugin_text = uuid_text(&plugin_metadata.plugin_uuid);
        let mut i: usize = 0;
        while i < application_command_registrations.len()
            invariant
                i <= application_command_registrations.len(),
                ids.len() == i,
                all_v4(ids),
                plugin_text@ == hyphenated_text(plugin_metadata.plugin_uuid@),
                commands == texts(application_command_registrations@),
                plugin_metadata.has_interaction(PluginPermissionsDiscordInteractions::ApplicationCommands),
                command_values_fit(*plugin_metadata, application_command_registrations@),
                keyspace_name_ok(discord_application_commands()),
                before == keyspace_of(*old(store), discord_application_commands()),
                others_unchanged(*old(store), *store, discord_application_commands()),
                keyspace_of(*store, discord_application_commands()) == commands_stored(
                    before,
                    plugin_metadata.plugin_uuid@,
                    ids,
                    commands,
                ),
            decreases application_command_registrations.len() - i,
        {
            let registration = &application_command_registrations[i];
            let id = new_random_uuid();
            let key = command_key_text(&plugin_text, &id);
            proof {
                lemma_command_key_len(plugin_metadata.plugin_uuid@, id@);
            }
            assert(encode_utf8(application_command_registrations@[i as int]@).len() <= MAX_VALUE_LEN);
            match store_insert(store, "discord_application_commands", key.as_str().as_bytes(), registration.as_str().as_bytes()) {
                Ok(()) => {},
                Err(e) => {
                    return Err(storage_error(e));
                },
            }
            proof {
                let next = ids.push(id@);
                assert(next.drop_last() =~= ids);
                assert(commands[i as int] == registration@);
                ids = next;
            }
            i = i + 1;
        }
        Ok(())
    }

    /// Stores `count` fresh random identifiers in the keyspace `keyspace`,
    /// each mapping to the plugin's UUID, and answers them in hyphenated form.
    fn register_random_ids(
        store: &mut Store,
        keyspace: &str,
        plugin_uuid: &[u8; 16],
        count: u16,
    ) -> (r: Result<Vec<String>, HostError>)
        requires
            keyspace_name_ok(keyspace@),
        ensures
            others_unchanged(*old(store), *final(store), keyspace@),
            r matches Ok(names) ==> exists|ids: Seq<Seq<u8>>|
                {
                    &&& ids.len() == count
                    &&& names.len() == count
                    &&& all_v4(ids)
                    &&& forall|i: int| 0 <= i < count ==> (#[trigger] names@[i])@ == hyphenated_text(ids[i])
                    &&& keyspace_of(*final(store), keyspace@) == #[trigger] ids_stored(
                        keyspace_of(*old(store), keyspace@),
                        plugin_uuid@,
                        ids,
                    )
                },
            r matches Err(e) ==> is_storage_failure(e) && exists|ids: Seq<Seq<u8>>|
                ids.len() <= count && all_v4(ids) && keyspace_of(*final(store), keyspace@)
                    == #[trigger] ids_stored(keyspace_of(*old(store), keyspace@), plugin_uuid@, ids),
    {
        let ghost before = keyspace_of(*store, keyspace@);
        let ghost mut ids: Seq<Seq<u8>> = Seq::empty();
        if let Err(e) = store_open(store, keyspace) {
            assert(ids_stored(before, plugin_uuid@, ids) == before);
            return Err(storage_error(e));
        }
        let mut names: Vec<String> = Vec::new();
        let mut i: u16 = 0;
        while i < count
            invariant
                i <= count,
                ids.len() == i,
                names.len() == i,
                all_v4(ids),
                forall|j: int| 0 <= j < i ==> (#[trigger] names@[j])@ == hyphenated_text(ids[j]),
                keyspace_name_ok(keyspace@),
                before == keyspace_of(*old(store), keyspace@),
                others_unchanged(*old(store), *store, keyspace@),
                keyspace_of(*store, keyspace@) == ids_stored(before, plugin_uuid@, ids),
            decreases count - i,
        {
            let id = new_random_uuid();
            match store_insert(store, keyspace, id.as_slice(), plugin_uuid.as_slice()) {
                Ok(()) => {},
                Err(e) => {
                    return Err(storage_error(e));
                },
            }
            names.push(uuid_text(&id));
            proof {
                let next = ids.push(id@);
                assert(next.drop_last() =~= ids);
                ids = next;
            }
            i = i + 1;
        }
        Ok(names)
    }

    /// Registers `message_component_registrations` message components for the plugin.
    fn register_discord_message_components(
        store: &mut Store,
        plugin_metadata: &RuntimePluginMetadata,
        message_component_registrations: u16,
    ) -> (r: Result<Vec<String>, HostError>)
        ensures
            others_unchanged(*old(store), *final(store), discord_message_components()),
            id_registration(
                keyspace_of(*old(store), discord_message_components()),
                keyspace_of(*final(store), discord_message_components()),
                *plugin_metadata,
                plugin_metadata.has_interaction(PluginPermissionsDiscordInteractions::MessageComponents),
                message_components_denied(),
                message_component_registrations as nat,
                r,
            ),
    {
        if !plugin_metadata.grants_interaction(PluginPermissionsDiscordInteractions::MessageComponents) {
            return Err(
                HostError::Runtime(
                    String::from_str("Plugin is not allowed to register message component interactions"),
                ),
            );
        }
        proof {
            lemma_discord_names();
        }
        Self::register_random_ids(
            store,
            "discord_message_components",
            &plugin_metadata.plugin_uuid,
            message_component_registrations,
        )
    }

    /// Registers `modal_registrations` modals for the plugin.
    fn register_discord_modals(
        store: &mut Store,
        plugin_metadata: &RuntimePluginMetadata,
        modal_registrations: u16,
    ) -> (r: Result<Vec<String>, HostError>)
        ensures
            others_unchanged(*old(store), *final(store), discord_modals()),
            id_registration(
                keyspace_of(*old(store), discord_modals()),
                keyspace_of(*final(store), discord_modals()),
                *plugin_metadata,
                plugin_metadata.has_interaction(PluginPermissionsDiscordInteractions::Modals),
                modals_denied(),
                modal_registrations as nat,
                r,
            ),
    {
        if !plugin_metadata.grants_interaction(PluginPermissionsDiscordInteractions::Modals) {
            return Err(
                HostError::Runtime(String::from_str("Plugin is not allowed to register modal interactions")),
            );
        }
        proof {
            lemma_discord_names();
        }
        Self::register_random_ids(store, "discord_modals", &plugin_metadata.plugin_uuid, modal_registrations)
    }

    /// Carries out the Discord registrations of a plugin, when the Discord
    /// service is on: its event subscriptions and its interactions.
    pub fn register_discord(
        store: &mut Store,
        plugin_metadata: &RuntimePluginMetadata,
        discord_enabled: bool,
        discord_registrations: DiscordRegistrations,
    ) -> (r: Result<DiscordRegistrationsResult, HostError>)
        requires
            discord_enabled ==> discord_inputs_fit(*plugin_metadata, discord_registrations),
        ensures
            forall|n: Seq<char>| !is_discord_keyspace(n) ==> #[trigger] keyspace_of(*final(store), n)
                == keyspace_of(*old(store), n),
            discord_outcome(
                *old(store),
                *final(store),
                *plugin_metadata,
                discord_enabled,
                discord_registrations,
                r,
            ),
    {
        if !discord_enabled {
            return Err(HostError::Runtime(String::from_str("The Discord service is disabled")));
        }
        proof {
            lemma_discord_names_distinct();
        }
        let events = match discord_registrations.events {
            Some(event_registrations) => Some(
                Self::register_discord_events(store, plugin_metadata, event_registrations),
            ),
            None => None,
        };
        let interactions = match discord_registrations.interactions {
            Some(interaction_registrations) => {
                let application_commands = match interaction_registrations.application_commands {
                    Some(commands) => Some(
                        Self::register_discord_application_commands(store, plugin_metadata, commands),
                    ),
                    None => None,
                };
                let message_components = match interaction_registrations.message_components {
                    Some(count) => Some(
                        Self::register_discord_message_components(store, plugin_metadata, count),
                    ),
                    None => None,
                };
                let modals = match interaction_registrations.modals {
                    Some(count) => Some(Self::register_discord_modals(store, plugin_metadata, count)),
                    None => None,
                };
                Some(DiscordRegistrationsInteractionsResult { application_commands, message_components, modals })
            },
            None => None,
        };
        Ok(DiscordRegistrationsResult { events, interactions })
    }

    /// Decides whether the plugin may make a Discord request of the kind
    /// `request`: the Discord service must be on and the plugin must hold
    /// the permission for that kind.
    pub fn discord_request(&self, discord_enabled: bool, request: &String) -> (r: Result<(), HostError>)
        ensures
            !discord_enabled ==> (r matches Err(HostError::Runtime(m)) && m@ == discord_disabled()),
            discord_enabled && !self.metadata.has_request(request@) ==> (r matches Err(HostError::Runtime(m))
                && m@ == request_denied()),
            discord_enabled && self.metadata.has_request(request@) ==> r is Ok,
    {
        if !discord_enabled {
            return Err(HostError::Runtime(String::from_str("The Discord service is disabled")));
        }
        if !self.metadata.grants_request(request) {
            return Err(
                HostError::Runtime(
                    String::from_str("Plugin does not have the permission to make this Discord request"),
                ),
            );
        }
        Ok(())
    }
}

} // verus!
