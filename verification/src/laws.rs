//! What holds of the host functions across calls and across plugins.

use crate::host::{
    dependency_registration, registered_signature, state_key, state_key_text, state_lookup,
    state_written, with_dependency_functions,
};
use crate::ids::{lemma_hyphenated_text, lemma_hyphenated_text_injective, hyphenated_text};
use crate::model::{texts, HostError, RuntimePluginMetadata};
use crate::services::discord::{
    command_key, commands_stored, event_answers, event_key, event_registration, events_stored, ids_stored,
};
use crate::store::{first_with_prefix, has_prefix, is_first_with_prefix, lemma_first_with_prefix_unique, lemma_prefix_below_extension};
use vstd::prelude::*;
use vstd::utf8::*;

verus! {

broadcast use crate::store::lemma_keyspace_of_database;

/// A plugin reads back from its state key the value it last wrote there.
pub proof fn law_state_read_after_write(
    store: Map<Seq<u8>, Seq<u8>>,
    uuid: Seq<u8>,
    key: Seq<char>,
    value: Seq<u8>,
)
    ensures
        state_lookup(state_written(store, uuid, key, value), uuid, key) == Some(value),
{
}

/// A later write to a state key replaces an earlier one.
pub proof fn law_state_last_write_wins(
    store: Map<Seq<u8>, Seq<u8>>,
    uuid: Seq<u8>,
    key: Seq<char>,
    first: Seq<u8>,
    second: Seq<u8>,
)
    ensures
        state_written(state_written(store, uuid, key, first), uuid, key, second) == state_written(
            store,
            uuid,
            key,
            second,
        ),
{
    assert(state_written(state_written(store, uuid, key, first), uuid, key, second) =~= state_written(
        store,
        uuid,
        key,
        second,
    ));
}

/// Two state keys are the same database key only when they are the same key
/// of the same plugin.
pub proof fn lemma_state_key_injective(uuid: Seq<u8>, key: Seq<char>, other_uuid: Seq<u8>, other_key: Seq<char>)
    requires
        uuid.len() == 16,
        other_uuid.len() == 16,
        state_key(uuid, key) == state_key(other_uuid, other_key),
    ensures
        uuid == other_uuid,
        key == other_key,
{
    let t = state_key_text(uuid, key);
    let u = state_key_text(other_uuid, other_key);
    encode_utf8_decode_utf8(t);
    encode_utf8_decode_utf8(u);
    assert(t == u);
    lemma_hyphenated_text(uuid);
    lemma_hyphenated_text(other_uuid);
    assert(t.subrange(0, 36) =~= hyphenated_text(uuid));
    assert(u.subrange(0, 36) =~= hyphenated_text(other_uuid));
    lemma_hyphenated_text_injective(uuid, other_uuid);
    assert(t.subrange(37, t.len() as int) =~= key);
    assert(u.subrange(37, u.len() as int) =~= other_key);
}

/// A write to one state key of one plugin leaves every other state key, of
/// that plugin and of every other, as it was.
pub proof fn law_state_isolation(
    store: Map<Seq<u8>, Seq<u8>>,
    uuid: Seq<u8>,
    key: Seq<char>,
    value: Seq<u8>,
    other_uuid: Seq<u8>,
    other_key: Seq<char>,
)
    requires
        uuid.len() == 16,
        other_uuid.len() == 16,
        uuid != other_uuid || key != other_key,
    ensures
        state_lookup(state_written(store, uuid, key, value), other_uuid, other_key) == state_lookup(
            store,
            other_uuid,
            other_key,
        ),
{
    if state_key(uuid, key) == state_key(other_uuid, other_key) {
        lemma_state_key_injective(uuid, key, other_uuid, other_key);
    }
}

/// Once a plugin registered `function`, its signature maps to the plugin's UUID.
proof fn lemma_registered_maps_to_plugin(
    keys: Map<Seq<u8>, Seq<u8>>,
    meta: RuntimePluginMetadata,
    functions: Seq<Seq<char>>,
    function: Seq<char>,
)
    requires
        functions.contains(function),
    ensures
        with_dependency_functions(keys, meta, functions).contains_key(
            encode_utf8(registered_signature(meta, function)),
        ),
        with_dependency_functions(keys, meta, functions)[encode_utf8(registered_signature(meta, function))]
            == meta.plugin_uuid@,
    decreases functions.len(),
{
    if functions.last() != function {
        let i = choose|i: int| 0 <= i < functions.len() && functions[i] == function;
        assert(functions.drop_last()[i] == function);
        lemma_registered_maps_to_plugin(keys, meta, functions.drop_last(), function);
    }
}

/// A call of a dependency function, with the namespace, plugin id and version
/// of the plugin that registered it, reaches that plugin, whatever else the
/// keyspace held before.
pub proof fn law_registered_dependency_function_is_found(
    keys: Map<Seq<u8>, Seq<u8>>,
    meta: RuntimePluginMetadata,
    functions: Seq<Seq<char>>,
    function: Seq<char>,
)
    requires
        functions.contains(function),
    ensures
        first_with_prefix(
            with_dependency_functions(keys, meta, functions),
            encode_utf8(registered_signature(meta, function)),
        ) == Some(meta.plugin_uuid@),
{
    let stored = with_dependency_functions(keys, meta, functions);
    let k0 = encode_utf8(registered_signature(meta, function));
    lemma_registered_maps_to_plugin(keys, meta, functions, function);
    assert(k0.subrange(0, k0.len() as int) =~= k0);
    assert forall|k: Seq<u8>| #[trigger] stored.contains_key(k) && has_prefix(k, k0) && k != k0 implies crate::store::bytes_lt(k0, k) by {
        lemma_prefix_below_extension(k0, k);
    }
    assert(is_first_with_prefix(stored, k0, k0));
    lemma_first_with_prefix_unique(stored, k0, k0);
}

/// The signatures of `functions`, each mapping to the plugin's UUID.
pub open spec fn signatures_of(meta: RuntimePluginMetadata, functions: Seq<Seq<char>>) -> Map<Seq<u8>, Seq<u8>> {
    Map::new(
        |k: Seq<u8>| exists|i: int| 0 <= i < functions.len() && k == encode_utf8(registered_signature(meta, #[trigger] functions[i])),
        |k: Seq<u8>| meta.plugin_uuid@,
    )
}

/// Registering dependency functions adds their signatures to what was there.
proof fn lemma_registration_adds_signatures(
    keys: Map<Seq<u8>, Seq<u8>>,
    meta: RuntimePluginMetadata,
    functions: Seq<Seq<char>>,
)
    ensures
        with_dependency_functions(keys, meta, functions) == keys.union_prefer_right(signatures_of(meta, functions)),
    decreases functions.len(),
{
    if functions.len() > 0 {
        let rest = functions.drop_last();
        lemma_registration_adds_signatures(keys, meta, rest);
        let a = with_dependency_functions(keys, meta, functions);
        let b = keys.union_prefer_right(signatures_of(meta, functions));
        assert forall|k: Seq<u8>| #[trigger] signatures_of(meta, functions).contains_key(k) <==> (
        signatures_of(meta, rest).contains_key(k) || k == encode_utf8(registered_signature(meta, functions.last()))) by {
            if signatures_of(meta, functions).contains_key(k) {
                let i = choose|i: int| 0 <= i < functions.len() && k == encode_utf8(registered_signature(meta, #[trigger] functions[i]));
                if i < rest.len() {
                    assert(rest[i] == functions[i]);
                }
            }
            if signatures_of(meta, rest).contains_key(k) {
                let i = choose|i: int| 0 <= i < rest.len() && k == encode_utf8(registered_signature(meta, #[trigger] rest[i]));
                assert(rest[i] == functions[i]);
            }
            if k == encode_utf8(registered_signature(meta, functions.last())) {
                assert(functions[functions.len() - 1] == functions.last());
            }
        }
        assert(a =~= b);
    } else {
        assert(keys.union_prefer_right(signatures_of(meta, functions)) =~= keys);
    }
}

/// Registering the same dependency functions twice leaves the keyspace as
/// registering them once.
pub proof fn law_dependency_registration_idempotent(
    keys: Map<Seq<u8>, Seq<u8>>,
    meta: RuntimePluginMetadata,
    functions: Seq<Seq<char>>,
)
    ensures
        with_dependency_functions(with_dependency_functions(keys, meta, functions), meta, functions)
            == with_dependency_functions(keys, meta, functions),
{
    let once = with_dependency_functions(keys, meta, functions);
    lemma_registration_adds_signatures(keys, meta, functions);
    lemma_registration_adds_signatures(once, meta, functions);
    assert(once.union_prefer_right(signatures_of(meta, functions)) =~= once);
}

/// Subscribing to events stores nothing but the subscriptions of events that
/// the plugin may subscribe to; every other key keeps its value.
pub proof fn law_events_stored_only_when_permitted(
    before: Map<Seq<u8>, Seq<u8>>,
    after: Map<Seq<u8>, Seq<u8>>,
    meta: RuntimePluginMetadata,
    events: Seq<String>,
    r: Result<Vec<(String, Result<(), HostError>)>, HostError>,
)
    requires
        event_registration(before, after, meta, events, r),
    ensures
        forall|k: Seq<u8>| #[trigger]
            after.contains_key(k) ==> (before.contains_key(k) && after[k] == before[k]) || exists|i: int|
                0 <= i < events.len() && meta.has_event((#[trigger] events[i])@) && k == event_key(
                    events[i]@,
                    meta.plugin_uuid@,
                ) && after[k] == meta.plugin_uuid@,
{
    if let Ok(results) = r {
        assert(results@.take(results@.len() as int) =~= results@);
        lemma_events_stored(before, meta, events, results@, results@.len() as int);
    }
}

/// The keys of `events_stored` over the first `n` answers.
proof fn lemma_events_stored(
    before: Map<Seq<u8>, Seq<u8>>,
    meta: RuntimePluginMetadata,
    events: Seq<String>,
    results: Seq<(String, Result<(), HostError>)>,
    n: int,
)
    requires
        0 <= n <= results.len(),
        results.len() == events.len(),
        forall|i: int|
            0 <= i < events.len() ==> {
                &&& (#[trigger] results[i]).0@ == events[i]@
                &&& !meta.has_event(events[i]@) ==> !(results[i].1 is Ok)
            },
    ensures
        ({
            let after = events_stored(before, meta.plugin_uuid@, results.take(n));
            forall|k: Seq<u8>| #[trigger]
                after.contains_key(k) ==> (before.contains_key(k) && after[k] == before[k]) || exists|i: int|
                    0 <= i < events.len() && meta.has_event((#[trigger] events[i])@) && k == event_key(
                        events[i]@,
                        meta.plugin_uuid@,
                    ) && after[k] == meta.plugin_uuid@
        }),
    decreases n,
{
    if n == results.len() {
        assert(results.take(n) =~= results);
    }
    if n > 0 {
        lemma_events_stored(before, meta, events, results, n - 1);
        let t = results.take(n);
        assert(t.drop_last() =~= results.take(n - 1));
        assert(t.last() == results[n - 1]);
        let after = events_stored(before, meta.plugin_uuid@, t);
        let earlier = events_stored(before, meta.plugin_uuid@, results.take(n - 1));
        assert forall|k: Seq<u8>| #[trigger] after.contains_key(k) implies (before.contains_key(k) && after[k]
            == before[k]) || exists|i: int|
            0 <= i < events.len() && meta.has_event((#[trigger] events[i])@) && k == event_key(
                events[i]@,
                meta.plugin_uuid@,
            ) && after[k] == meta.plugin_uuid@ by {
            if results[n - 1].1 is Ok && k == event_key(results[n - 1].0@, meta.plugin_uuid@) {
                assert(events[n - 1]@ == results[n - 1].0@);
            } else {
                assert(earlier.contains_key(k));
            }
        }
    } else {
        assert(results.take(0) =~= Seq::<(String, Result<(), HostError>)>::empty());
    }
}

/// The plugin store after plugin `uuid` writes each of `writes`, a key and a
/// value, in turn.
pub open spec fn state_written_all(
    store: Map<Seq<u8>, Seq<u8>>,
    uuid: Seq<u8>,
    writes: Seq<(Seq<char>, Seq<u8>)>,
) -> Map<Seq<u8>, Seq<u8>>
    decreases writes.len(),
{
    if writes.len() == 0 {
        store
    } else {
        state_written(state_written_all(store, uuid, writes.drop_last()), uuid, writes.last().0, writes.last().1)
    }
}

/// However many writes one plugin makes to its state, another plugin reads
/// every key of its own state as before.
pub proof fn law_other_plugin_writes_leave_reads(
    store: Map<Seq<u8>, Seq<u8>>,
    uuid: Seq<u8>,
    writes: Seq<(Seq<char>, Seq<u8>)>,
    other_uuid: Seq<u8>,
    key: Seq<char>,
)
    requires
        uuid.len() == 16,
        other_uuid.len() == 16,
        uuid != other_uuid,
    ensures
        state_lookup(state_written_all(store, uuid, writes), other_uuid, key) == state_lookup(
            store,
            other_uuid,
            key,
        ),
    decreases writes.len(),
{
    if writes.len() > 0 {
        law_other_plugin_writes_leave_reads(store, uuid, writes.drop_last(), other_uuid, key);
        law_state_isolation(
            state_written_all(store, uuid, writes.drop_last()),
            uuid,
            writes.last().0,
            writes.last().1,
            other_uuid,
            key,
        );
    }
}

/// The subscriptions that answers `results` of plugin `uuid` hold: the key of
/// each event answered with success, mapping to the plugin's UUID.
pub open spec fn subscriptions_of(uuid: Seq<u8>, results: Seq<(String, Result<(), HostError>)>) -> Map<
    Seq<u8>,
    Seq<u8>,
> {
    Map::new(
        |k: Seq<u8>|
            exists|i: int|
                0 <= i < results.len() && (#[trigger] results[i]).1 is Ok && k == event_key(results[i].0@, uuid),
        |k: Seq<u8>| uuid,
    )
}

/// Subscribing adds the subscriptions answered with success to what was there.
proof fn lemma_events_stored_adds_subscriptions(
    keys: Map<Seq<u8>, Seq<u8>>,
    uuid: Seq<u8>,
    results: Seq<(String, Result<(), HostError>)>,
)
    ensures
        events_stored(keys, uuid, results) == keys.union_prefer_right(subscriptions_of(uuid, results)),
    decreases results.len(),
{
    if results.len() > 0 {
        let rest = results.drop_last();
        lemma_events_stored_adds_subscriptions(keys, uuid, rest);
        let last = results.last();
        assert forall|k: Seq<u8>| #[trigger] subscriptions_of(uuid, results).contains_key(k) <==> (
        subscriptions_of(uuid, rest).contains_key(k) || (last.1 is Ok && k == event_key(last.0@, uuid))) by {
            if subscriptions_of(uuid, results).contains_key(k) {
                let i = choose|i: int|
                    0 <= i < results.len() && (#[trigger] results[i]).1 is Ok && k == event_key(results[i].0@, uuid);
                if i < rest.len() {
                    assert(rest[i] == results[i]);
                }
            }
            if subscriptions_of(uuid, rest).contains_key(k) {
                let i = choose|i: int|
                    0 <= i < rest.len() && (#[trigger] rest[i]).1 is Ok && k == event_key(rest[i].0@, uuid);
                assert(rest[i] == results[i]);
            }
            if last.1 is Ok && k == event_key(last.0@, uuid) {
                assert(results[results.len() - 1] == last);
            }
        }
        assert(events_stored(keys, uuid, results) =~= keys.union_prefer_right(subscriptions_of(uuid, results)));
    } else {
        assert(keys.union_prefer_right(subscriptions_of(uuid, results)) =~= keys);
    }
}

/// No answer of `results` is a database failure.
pub open spec fn no_storage_failure(results: Seq<(String, Result<(), HostError>)>) -> bool {
    forall|i: int| 0 <= i < results.len() ==> !((#[trigger] results[i]).1 matches Err(HostError::Storage(_)))
}

/// When the database fails no write, subscribing the plugin to the same
/// events a second time answers as the first time did and leaves the event
/// keyspace as the first time left it.
pub proof fn law_event_registration_repeated(
    before: Map<Seq<u8>, Seq<u8>>,
    middle: Map<Seq<u8>, Seq<u8>>,
    after: Map<Seq<u8>, Seq<u8>>,
    meta: RuntimePluginMetadata,
    events: Seq<String>,
    first: Seq<(String, Result<(), HostError>)>,
    second: Seq<(String, Result<(), HostError>)>,
)
    requires
        event_answers(before, middle, meta, events, first),
        event_answers(middle, after, meta, events, second),
        no_storage_failure(first),
        no_storage_failure(second),
    ensures
        after == middle,
        forall|i: int|
            0 <= i < events.len() ==> (#[trigger] first[i]).0@ == second[i].0@ && (first[i].1 is Ok
                <==> second[i].1 is Ok) && (first[i].1 matches Err(HostError::Runtime(m)) ==> (second[i].1 matches Err(
                HostError::Runtime(n)) && m@ == n@)),
{
    let uuid = meta.plugin_uuid@;
    assert forall|i: int| 0 <= i < events.len() implies (#[trigger] first[i]).1 is Ok <==> second[i].1 is Ok by {
        assert(!(first[i].1 matches Err(HostError::Storage(_))));
        assert(!(second[i].1 matches Err(HostError::Storage(_))));
    }
    lemma_events_stored_adds_subscriptions(before, uuid, first);
    lemma_events_stored_adds_subscriptions(middle, uuid, second);
    assert forall|k: Seq<u8>| #[trigger] subscriptions_of(uuid, second).contains_key(k) <==> subscriptions_of(
        uuid,
        first,
    ).contains_key(k) by {
        if subscriptions_of(uuid, second).contains_key(k) {
            let i = choose|i: int|
                0 <= i < second.len() && (#[trigger] second[i]).1 is Ok && k == event_key(second[i].0@, uuid);
            assert(first[i].1 is Ok && first[i].0@ == second[i].0@);
        }
        if subscriptions_of(uuid, first).contains_key(k) {
            let i = choose|i: int|
                0 <= i < first.len() && (#[trigger] first[i]).1 is Ok && k == event_key(first[i].0@, uuid);
            assert(second[i].1 is Ok && first[i].0@ == second[i].0@);
        }
    }
    assert(subscriptions_of(uuid, second) =~= subscriptions_of(uuid, first));
    assert(middle.union_prefer_right(subscriptions_of(uuid, first)) =~= middle);
}

/// A plugin's registration of its dependency functions answers each with the
/// signature `namespace:plugin_id:function@version` of that plugin, and a
/// call of any of them with that namespace, plugin id and version then finds
/// the plugin: the least signature that starts so maps to the plugin's UUID.
pub proof fn law_registered_dependency_functions_are_called(
    before: Map<Seq<u8>, Seq<u8>>,
    after: Map<Seq<u8>, Seq<u8>>,
    meta: RuntimePluginMetadata,
    functions: Seq<String>,
    pairs: Vec<(String, String)>,
)
    requires
        dependency_registration(before, after, meta, functions, Ok(pairs)),
    ensures
        forall|k: int|
            0 <= k < pairs.len() ==> (#[trigger] pairs@[k]).1@ == meta.namespace_id@ + seq![':']
                + meta.plugin_id@ + seq![':'] + pairs@[k].0@ + seq!['@'] + meta.version@,
        forall|i: int|
            0 <= i < functions.len() ==> first_with_prefix(
                after,
                encode_utf8(
                    meta.namespace_id@ + seq![':'] + meta.plugin_id@ + seq![':'] + (#[trigger] functions[i])@
                        + seq!['@'] + meta.version@,
                ),
            ) == Some(meta.plugin_uuid@),
{
    assert forall|i: int| 0 <= i < functions.len() implies first_with_prefix(
        after,
        encode_utf8(
            meta.namespace_id@ + seq![':'] + meta.plugin_id@ + seq![':'] + (#[trigger] functions[i])@
                + seq!['@'] + meta.version@,
        ),
    ) == Some(meta.plugin_uuid@) by {
        assert(texts(functions)[i] == functions[i]@);
        law_registered_dependency_function_is_found(before, meta, texts(functions), functions[i]@);
    }
}

/// Subscription keys of two plugins never meet: the key of a subscription
/// determines the plugin (and the event).
pub proof fn lemma_event_key_injective(event: Seq<char>, uuid: Seq<u8>, other_event: Seq<char>, other_uuid: Seq<u8>)
    requires
        uuid.len() == 16,
        other_uuid.len() == 16,
        event_key(event, uuid) == event_key(other_event, other_uuid),
    ensures
        uuid == other_uuid,
        event == other_event,
{
    let t = event + seq![':'] + hyphenated_text(uuid);
    let u = other_event + seq![':'] + hyphenated_text(other_uuid);
    encode_utf8_decode_utf8(t);
    encode_utf8_decode_utf8(u);
    assert(t == u);
    lemma_hyphenated_text(uuid);
    lemma_hyphenated_text(other_uuid);
    assert(t.subrange(t.len() - 36, t.len() as int) =~= hyphenated_text(uuid));
    assert(u.subrange(u.len() - 36, u.len() as int) =~= hyphenated_text(other_uuid));
    lemma_hyphenated_text_injective(uuid, other_uuid);
    assert(t.subrange(0, event.len() as int) =~= event);
    assert(u.subrange(0, other_event.len() as int) =~= other_event);
}

/// When one plugin subscribes to an event and then another plugin subscribes
/// to events of its own, the first plugin's subscription is still stored,
/// under the event's name, `:` and the first plugin's hyphenated UUID, and
/// still maps to the first plugin.
pub proof fn law_subscriptions_of_plugins_kept_apart(
    before: Map<Seq<u8>, Seq<u8>>,
    middle: Map<Seq<u8>, Seq<u8>>,
    after: Map<Seq<u8>, Seq<u8>>,
    first: RuntimePluginMetadata,
    first_events: Seq<String>,
    first_results: Seq<(String, Result<(), HostError>)>,
    second: RuntimePluginMetadata,
    second_events: Seq<String>,
    second_results: Seq<(String, Result<(), HostError>)>,
    i: int,
)
    requires
        event_answers(before, middle, first, first_events, first_results),
        event_answers(middle, after, second, second_events, second_results),
        first.plugin_uuid@ != second.plugin_uuid@,
        0 <= i < first_events.len(),
        first_results[i].1 is Ok,
    ensures
        after.contains_key(encode_utf8(first_events[i]@ + seq![':'] + hyphenated_text(first.plugin_uuid@))),
        after[encode_utf8(first_events[i]@ + seq![':'] + hyphenated_text(first.plugin_uuid@))]
            == first.plugin_uuid@,
{
    let ua = first.plugin_uuid@;
    let ub = second.plugin_uuid@;
    let k = event_key(first_results[i].0@, ua);
    assert(first_results[i].0@ == first_events[i]@);
    lemma_events_stored_adds_subscriptions(before, ua, first_results);
    lemma_events_stored_adds_subscriptions(middle, ub, second_results);
    assert(subscriptions_of(ua, first_results).contains_key(k));
    if subscriptions_of(ub, second_results).contains_key(k) {
        let j = choose|j: int|
            0 <= j < second_results.len() && (#[trigger] second_results[j]).1 is Ok && k == event_key(
                second_results[j].0@,
                ub,
            );
        lemma_event_key_injective(first_results[i].0@, ua, second_results[j].0@, ub);
    }
}

/// Distinct identifiers have distinct hyphenated texts, and once stored each
/// maps to the plugin: no identifier drawn for a registration is lost to
/// another drawn for the same registration.
pub proof fn law_distinct_identifiers_all_kept(
    before: Map<Seq<u8>, Seq<u8>>,
    plugin: Seq<u8>,
    ids: Seq<Seq<u8>>,
)
    requires
        forall|i: int| 0 <= i < ids.len() ==> (#[trigger] ids[i]).len() == 16,
        forall|i: int, j: int| 0 <= i < j < ids.len() ==> #[trigger] ids[i] != #[trigger] ids[j],
    ensures
        forall|i: int, j: int|
            0 <= i < j < ids.len() ==> hyphenated_text(#[trigger] ids[i]) != hyphenated_text(#[trigger] ids[j]),
        forall|i: int|
            0 <= i < ids.len() ==> ids_stored(before, plugin, ids).contains_key(#[trigger] ids[i])
                && ids_stored(before, plugin, ids)[ids[i]] == plugin,
    decreases ids.len(),
{
    assert forall|i: int, j: int| 0 <= i < j < ids.len() implies hyphenated_text(#[trigger] ids[i]) != hyphenated_text(
        #[trigger] ids[j],
    ) by {
        if hyphenated_text(ids[i]) == hyphenated_text(ids[j]) {
            lemma_hyphenated_text_injective(ids[i], ids[j]);
        }
    }
    if ids.len() > 0 {
        let rest = ids.drop_last();
        law_distinct_identifiers_all_kept(before, plugin, rest);
        assert forall|i: int| 0 <= i < ids.len() implies ids_stored(before, plugin, ids).contains_key(#[trigger] ids[i])
            && ids_stored(before, plugin, ids)[ids[i]] == plugin by {
            if i < rest.len() {
                assert(rest[i] == ids[i]);
            }
        }
    }
}

/// The key of a command determines its identifier.
proof fn lemma_command_key_injective(plugin: Seq<u8>, id: Seq<u8>, other: Seq<u8>)
    requires
        plugin.len() == 16,
        id.len() == 16,
        other.len() == 16,
        command_key(plugin, id) == command_key(plugin, other),
    ensures
        id == other,
{
    let t = hyphenated_text(plugin) + seq![':'] + hyphenated_text(id);
    let u = hyphenated_text(plugin) + seq![':'] + hyphenated_text(other);
    encode_utf8_decode_utf8(t);
    encode_utf8_decode_utf8(u);
    assert(t == u);
    lemma_hyphenated_text(plugin);
    lemma_hyphenated_text(id);
    lemma_hyphenated_text(other);
    assert(t.subrange(37, 73) =~= hyphenated_text(id));
    assert(u.subrange(37, 73) =~= hyphenated_text(other));
    lemma_hyphenated_text_injective(id, other);
}

/// Commands stored under distinct identifiers are all kept: each is found
/// under the plugin's hyphenated UUID, `:` and its own identifier.
pub proof fn law_distinct_commands_all_kept(
    before: Map<Seq<u8>, Seq<u8>>,
    plugin: Seq<u8>,
    ids: Seq<Seq<u8>>,
    commands: Seq<Seq<char>>,
)
    requires
        plugin.len() == 16,
        ids.len() <= commands.len(),
        forall|i: int| 0 <= i < ids.len() ==> (#[trigger] ids[i]).len() == 16,
        forall|i: int, j: int| 0 <= i < j < ids.len() ==> #[trigger] ids[i] != #[trigger] ids[j],
    ensures
        forall|i: int|
            0 <= i < ids.len() ==> {
                let key = encode_utf8(hyphenated_text(plugin) + seq![':'] + hyphenated_text(#[trigger] ids[i]));
                &&& commands_stored(before, plugin, ids, commands).contains_key(key)
                &&& commands_stored(before, plugin, ids, commands)[key] == encode_utf8(commands[i])
            },
    decreases ids.len(),
{
    if ids.len() > 0 {
        let rest = ids.drop_last();
        law_distinct_commands_all_kept(before, plugin, rest, commands);
        assert forall|i: int| 0 <= i < ids.len() implies {
            let key = encode_utf8(hyphenated_text(plugin) + seq![':'] + hyphenated_text(#[trigger] ids[i]));
            &&& commands_stored(before, plugin, ids, commands).contains_key(key)
            &&& commands_stored(before, plugin, ids, commands)[key] == encode_utf8(commands[i])
        } by {
            if i < rest.len() {
                assert(rest[i] == ids[i]);
                if command_key(plugin, ids[i]) == command_key(plugin, ids.last()) {
                    lemma_command_key_injective(plugin, ids[i], ids.last());
                    assert(ids[i] == ids[ids.len() - 1]);
                }
            }
        }
    }
}

} // verus!
