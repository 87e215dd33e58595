use wpbs::host::{
    CoreRegistrations, Deregistrations, InternalRuntime, Registrations, Shutdown,
};
use wpbs::model::{
    HostError, PluginPermissions, PluginPermissionsCore, PluginPermissionsDiscord,
    PluginPermissionsDiscordInteractions, PluginPermissionsJobScheduler, PluginPermissionsServices,
    RuntimePluginMetadata,
};
use wpbs::services::discord::{DiscordRegistrations, DiscordRegistrationsInteractions};
use wpbs::services::job_scheduler::{JobSchedulerRegistrations, JobSchedulerStep};
use wpbs::services::ServicesRegistrations;
use wpbs::store::Store;

const UUID_A: [u8; 16] = [
    0x67, 0xe5, 0x50, 0x44, 0x10, 0xb1, 0x42, 0x6f, 0x92, 0x47, 0xbb, 0x68, 0x0e, 0x5f, 0xe0, 0xc8,
];
const UUID_B: [u8; 16] = [
    0x01, 0x02, 0x03, 0x04, 0x05, 0x06, 0x47, 0x08, 0x89, 0x0a, 0x0b, 0x0c, 0x0d, 0x0e, 0x0f, 0x10,
];

fn open_database(name: &str) -> Store {
    match Store::open(&format!("/tmp/wpbs-tests/{name}"), true) {
        Ok(store) => store,
        Err(e) => panic!("cannot open the store: {e:?}"),
    }
}

fn all_permissions() -> PluginPermissions {
    PluginPermissions {
        core: vec![PluginPermissionsCore::Shutdown, PluginPermissionsCore::DependencyFunctions],
        services: PluginPermissionsServices {
            discord: PluginPermissionsDiscord {
                events: vec!["MESSAGE_CREATE".to_string(), "READY".to_string()],
                interactions: vec![
                    PluginPermissionsDiscordInteractions::ApplicationCommands,
                    PluginPermissionsDiscordInteractions::MessageComponents,
                    PluginPermissionsDiscordInteractions::Modals,
                ],
                requests: vec!["CreateMessage".to_string()],
            },
            job_scheduler: vec![PluginPermissionsJobScheduler::ScheduledJobs],
        },
    }
}

fn no_permissions() -> PluginPermissions {
    PluginPermissions {
        core: vec![],
        services: PluginPermissionsServices {
            discord: PluginPermissionsDiscord { events: vec![], interactions: vec![], requests: vec![] },
            job_scheduler: vec![],
        },
    }
}

fn metadata(uuid: [u8; 16], permissions: PluginPermissions) -> RuntimePluginMetadata {
    RuntimePluginMetadata {
        plugin_uuid: uuid,
        user_id: "example".to_string(),
        namespace_id: "wpbs".to_string(),
        plugin_id: "example".to_string(),
        version: "1.0.0".to_string(),
        permissions,
    }
}

fn runtime(uuid: [u8; 16], permissions: PluginPermissions) -> InternalRuntime {
    InternalRuntime { metadata: metadata(uuid, permissions) }
}

fn runtime_message(e: HostError) -> String {
    match e {
        HostError::Runtime(m) => m,
        HostError::Storage(m) => panic!("unexpected storage error {m}"),
    }
}

#[test]
fn state_reads_back_what_was_written() {
    let mut store = open_database("read_back");
    let rt = runtime(UUID_A, no_permissions());
    assert_eq!(rt.get_state(&store, &"counter".to_string()).unwrap(), None);
    rt.set_state(&mut store, "counter".to_string(), vec![1, 2, 3]).unwrap();
    assert_eq!(rt.get_state(&store, &"counter".to_string()).unwrap(), Some(vec![1, 2, 3]));
}

#[test]
fn state_last_write_wins() {
    let mut store = open_database("last_write");
    let rt = runtime(UUID_A, no_permissions());
    rt.set_state(&mut store, "k".to_string(), vec![1]).unwrap();
    rt.set_state(&mut store, "k".to_string(), vec![2, 2]).unwrap();
    assert_eq!(rt.get_state(&store, &"k".to_string()).unwrap(), Some(vec![2, 2]));
}

#[test]
fn state_is_kept_apart_per_plugin_and_key() {
    let mut store = open_database("isolation");
    let a = runtime(UUID_A, no_permissions());
    let b = runtime(UUID_B, no_permissions());
    a.set_state(&mut store, "k".to_string(), vec![10]).unwrap();
    b.set_state(&mut store, "k".to_string(), vec![20]).unwrap();
    a.set_state(&mut store, "other".to_string(), vec![30]).unwrap();
    assert_eq!(a.get_state(&store, &"k".to_string()).unwrap(), Some(vec![10]));
    assert_eq!(b.get_state(&store, &"k".to_string()).unwrap(), Some(vec![20]));
    assert_eq!(b.get_state(&store, &"other".to_string()).unwrap(), None);
}

#[test]
fn clear_state_keeps_state_written_under_the_hyphenated_uuid() {
    let mut store = open_database("clear");
    let rt = runtime(UUID_A, no_permissions());
    rt.set_state(&mut store, "kept".to_string(), vec![5]).unwrap();
    rt.clear_state(&mut store).unwrap();
    assert_eq!(rt.get_state(&store, &"kept".to_string()).unwrap(), Some(vec![5]));
}

#[test]
fn removing_scanned_entries_removes_their_keys() {
    let mut store = open_database("remove_entries");
    let rt = runtime(UUID_A, no_permissions());
    rt.set_state(&mut store, "gone".to_string(), vec![1]).unwrap();
    rt.set_state(&mut store, "kept".to_string(), vec![2]).unwrap();
    let key = b"67e55044-10b1-426f-9247-bb680e5fe0c8:gone".to_vec();
    InternalRuntime::remove_state_entries(&mut store, vec![(key, vec![1])]).unwrap();
    assert_eq!(rt.get_state(&store, &"gone".to_string()).unwrap(), None);
    assert_eq!(rt.get_state(&store, &"kept".to_string()).unwrap(), Some(vec![2]));
}

#[test]
fn shutdown_needs_the_permission() {
    let rt = runtime(UUID_A, no_permissions());
    assert_eq!(runtime_message(rt.shutdown(true).unwrap_err()), "Not allowed to call shutdown");
    let rt = runtime(UUID_A, all_permissions());
    assert_eq!(rt.shutdown(true).unwrap(), Shutdown::Restart);
    assert_eq!(rt.shutdown(false).unwrap(), Shutdown::Normal);
}

#[test]
fn dependency_functions_need_the_permission() {
    let mut store = open_database("deps_denied");
    let rt = runtime(UUID_A, no_permissions());
    let e = rt.register_dependency_functions(&mut store, vec!["f".to_string()]).unwrap_err();
    assert_eq!(runtime_message(e), "Plugin is not allowed to register dependency functions");
}

#[test]
fn registered_dependency_function_is_found() {
    let mut store = open_database("deps_found");
    let offering = runtime(UUID_A, all_permissions());
    let pairs = offering
        .register_dependency_functions(
            &mut store,
            vec!["greet".to_string(), "greet".to_string(), "add".to_string()],
        )
        .unwrap();
    let mut pairs: Vec<(String, String)> = pairs;
    pairs.sort();
    assert_eq!(
        pairs,
        vec![
            ("add".to_string(), "wpbs:example:add@1.0.0".to_string()),
            ("greet".to_string(), "wpbs:example:greet@1.0.0".to_string()),
        ]
    );
    let caller = runtime(UUID_B, no_permissions());
    let call = caller
        .dependency_function(
            &store,
            "wpbs".to_string(),
            "example".to_string(),
            "greet".to_string(),
            Some("1.0.0".to_string()),
        )
        .unwrap();
    assert_eq!(call.signature, "wpbs:example:greet@1.0.0");
    assert_eq!(call.plugin_uuid, UUID_A.to_vec());
    let any_version = caller
        .dependency_function(&store, "wpbs".to_string(), "example".to_string(), "add".to_string(), None)
        .unwrap();
    assert_eq!(any_version.signature, "wpbs:example:add@");
    assert_eq!(any_version.plugin_uuid, UUID_A.to_vec());
}

#[test]
fn dependency_function_takes_the_least_matching_signature() {
    let mut store = open_database("deps_least");
    let mut v2 = runtime(UUID_B, all_permissions());
    v2.metadata.version = "2.0.0".to_string();
    v2.register_dependency_functions(&mut store, vec!["f".to_string()]).unwrap();
    let v1 = runtime(UUID_A, all_permissions());
    v1.register_dependency_functions(&mut store, vec!["f".to_string()]).unwrap();
    let caller = runtime(UUID_B, no_permissions());
    let call = caller
        .dependency_function(&store, "wpbs".to_string(), "example".to_string(), "f".to_string(), None)
        .unwrap();
    assert_eq!(call.plugin_uuid, UUID_A.to_vec());
}

#[test]
fn missing_dependency_function_is_reported() {
    let store = open_database("deps_missing");
    let rt = runtime(UUID_A, no_permissions());
    let e = rt
        .dependency_function(&store, "a".to_string(), "b".to_string(), "c".to_string(), None)
        .map(|c| c.signature)
        .unwrap_err();
    assert_eq!(runtime_message(e), "The a:b:c@ dependency function was not found");
}

#[test]
fn dependency_call_from_the_lookup_outcome() {
    let found = InternalRuntime::dependency_call("a:b:c@1".to_string(), Some(UUID_A.to_vec()))
        .map(|c| (c.signature, c.plugin_uuid))
        .unwrap();
    assert_eq!(found, ("a:b:c@1".to_string(), UUID_A.to_vec()));
    let missing = InternalRuntime::dependency_call("a:b:c@1".to_string(), None).map(|c| c.signature);
    assert_eq!(runtime_message(missing.unwrap_err()), "The a:b:c@1 dependency function was not found");
}

#[test]
fn dependency_function_reply_without_answer() {
    let e = InternalRuntime::dependency_function_reply(None).unwrap_err();
    assert_eq!(runtime_message(e), "Runtime is shutting down");
    assert_eq!(InternalRuntime::dependency_function_reply(Some(Ok(vec![9]))).unwrap(), vec![9]);
}

#[test]
fn register_core_only_when_asked() {
    let mut store = open_database("core");
    let rt = runtime(UUID_A, all_permissions());
    let none = rt.register_core(&mut store, CoreRegistrations { dependency_functions: None });
    assert!(none.dependency_functions.is_none());
    let some =
        rt.register_core(&mut store, CoreRegistrations { dependency_functions: Some(vec!["f".to_string()]) });
    assert_eq!(some.dependency_functions.unwrap().unwrap().len(), 1);
}

#[test]
fn deregister_answers_nothing() {
    let rt = runtime(UUID_A, all_permissions());
    let r = rt.deregister(Deregistrations { core: None, services: None });
    assert!(r.core.is_none());
    assert!(r.services.is_none());
}

#[test]
fn discord_disabled_refuses_everything() {
    let mut store = open_database("discord_off");
    let meta = metadata(UUID_A, all_permissions());
    let regs = DiscordRegistrations { events: Some(vec!["READY".to_string()]), interactions: None };
    let e = InternalRuntime::register_discord(&mut store, &meta, false, regs).err().unwrap();
    assert_eq!(runtime_message(e), "The Discord service is disabled");
}

#[test]
fn discord_events_are_answered_in_order() {
    let mut store = open_database("discord_events");
    let meta = metadata(UUID_A, all_permissions());
    let regs = DiscordRegistrations {
        events: Some(vec!["READY".to_string(), "GUILD_CREATE".to_string(), "MESSAGE_CREATE".to_string()]),
        interactions: None,
    };
    let res = InternalRuntime::register_discord(&mut store, &meta, true, regs).ok().unwrap();
    assert!(res.interactions.is_none());
    let events = res.events.unwrap().ok().unwrap();
    assert_eq!(events.len(), 3);
    assert_eq!(events[0].0, "READY");
    assert!(events[0].1.is_ok());
    assert_eq!(events[1].0, "GUILD_CREATE");
    let denied = match &events[1].1 {
        Err(HostError::Runtime(m)) => m.clone(),
        _ => panic!("expected a refusal"),
    };
    assert_eq!(denied, "Plugin is not allowed to register for this event");
    assert!(events[2].1.is_ok());
}

#[test]
fn discord_interactions_register_random_identifiers() {
    let mut store = open_database("discord_interactions");
    let meta = metadata(UUID_A, all_permissions());
    let regs = DiscordRegistrations {
        events: None,
        interactions: Some(DiscordRegistrationsInteractions {
            application_commands: Some(vec!["{\"name\":\"ping\"}".to_string()]),
            message_components: Some(3),
            modals: Some(1),
        }),
    };
    let res = InternalRuntime::register_discord(&mut store, &meta, true, regs).ok().unwrap();
    let interactions = res.interactions.unwrap();
    assert!(interactions.application_commands.unwrap().is_ok());
    let components = interactions.message_components.unwrap().ok().unwrap();
    assert_eq!(components.len(), 3);
    for id in &components {
        assert_eq!(id.len(), 36);
        assert_eq!(&id[14..15], "4");
        let parsed = uuid::Uuid::parse_str(id).unwrap();
        assert_eq!(parsed.to_string(), *id);
    }
    assert_eq!(interactions.modals.unwrap().ok().unwrap().len(), 1);
}

#[test]
fn discord_permitted_modals_beside_refused_commands() {
    let mut store = open_database("discord_mixed");
    let mut permissions = all_permissions();
    permissions.services.discord.interactions = vec![PluginPermissionsDiscordInteractions::Modals];
    let meta = metadata(UUID_A, permissions);
    let regs = DiscordRegistrations {
        events: None,
        interactions: Some(DiscordRegistrationsInteractions {
            application_commands: Some(vec!["c".to_string()]),
            message_components: None,
            modals: Some(2),
        }),
    };
    let res = InternalRuntime::register_discord(&mut store, &meta, true, regs).ok().unwrap();
    let interactions = res.interactions.unwrap();
    assert_eq!(
        runtime_message(interactions.application_commands.unwrap().unwrap_err()),
        "Plugin is not allowed to register application command interactions"
    );
    assert!(interactions.message_components.is_none());
    assert_eq!(interactions.modals.unwrap().ok().unwrap().len(), 2);
}

#[test]
fn discord_interactions_need_permissions() {
    let mut store = open_database("discord_interactions_denied");
    let meta = metadata(UUID_A, no_permissions());
    let regs = DiscordRegistrations {
        events: None,
        interactions: Some(DiscordRegistrationsInteractions {
            application_commands: Some(vec!["c".to_string()]),
            message_components: Some(1),
            modals: Some(1),
        }),
    };
    let res = InternalRuntime::register_discord(&mut store, &meta, true, regs).ok().unwrap();
    let interactions = res.interactions.unwrap();
    assert_eq!(
        runtime_message(interactions.application_commands.unwrap().unwrap_err()),
        "Plugin is not allowed to register application command interactions"
    );
    assert_eq!(
        runtime_message(interactions.message_components.unwrap().err().unwrap()),
        "Plugin is not allowed to register message component interactions"
    );
    assert_eq!(
        runtime_message(interactions.modals.unwrap().err().unwrap()),
        "Plugin is not allowed to register modal interactions"
    );
}

#[test]
fn discord_request_checks_service_and_permission() {
    let rt = runtime(UUID_A, all_permissions());
    assert_eq!(
        runtime_message(rt.discord_request(false, &"CreateMessage".to_string()).unwrap_err()),
        "The Discord service is disabled"
    );
    assert_eq!(
        runtime_message(rt.discord_request(true, &"DeleteMessage".to_string()).unwrap_err()),
        "Plugin does not have the permission to make this Discord request"
    );
    assert!(rt.discord_request(true, &"CreateMessage".to_string()).is_ok());
}

#[test]
fn job_scheduler_decisions() {
    let allowed = metadata(UUID_A, all_permissions());
    let denied = metadata(UUID_A, no_permissions());
    let off = InternalRuntime::register_job_scheduler(
        false,
        &allowed,
        JobSchedulerRegistrations { scheduled_jobs: Some(vec!["* * * * *".to_string()]) },
    );
    assert_eq!(runtime_message(off.err().unwrap()), "The job scheduler service is disabled");
    match InternalRuntime::register_job_scheduler(true, &allowed, JobSchedulerRegistrations { scheduled_jobs: None }) {
        Ok(JobSchedulerStep::Done(res)) => assert!(res.scheduled_jobs.is_none()),
        _ => panic!("expected an answer"),
    }
    match InternalRuntime::register_job_scheduler(
        true,
        &denied,
        JobSchedulerRegistrations { scheduled_jobs: Some(vec!["job".to_string()]) },
    ) {
        Ok(JobSchedulerStep::Done(res)) => {
            let e = res.scheduled_jobs.unwrap().err().unwrap();
            assert_eq!(runtime_message(e), "Plugin is not allowed to register scheduled jobs");
        },
        _ => panic!("expected a refusal"),
    }
    match InternalRuntime::register_job_scheduler(
        true,
        &allowed,
        JobSchedulerRegistrations { scheduled_jobs: Some(vec!["a".to_string(), "b".to_string()]) },
    ) {
        Ok(JobSchedulerStep::AddJobs(jobs)) => assert_eq!(jobs, vec!["a".to_string(), "b".to_string()]),
        _ => panic!("expected jobs to add"),
    }
}

#[test]
fn scheduled_job_answers_keep_the_last_reply() {
    let jobs = vec!["a".to_string(), "b".to_string(), "a".to_string()];
    let replies = vec![
        Ok("first".to_string()),
        Err(HostError::Runtime("bad cron".to_string())),
        Ok("second".to_string()),
    ];
    let res = InternalRuntime::scheduled_jobs_result(&jobs, replies);
    let mut pairs = res.scheduled_jobs.unwrap().ok().unwrap();
    pairs.sort_by(|x, y| x.0.cmp(&y.0));
    assert_eq!(pairs.len(), 2);
    assert_eq!(pairs[0].0, "a");
    assert_eq!(pairs[0].1.as_ref().ok().unwrap(), "second");
    assert_eq!(pairs[1].0, "b");
    assert!(pairs[1].1.is_err());
}

#[test]
fn register_combines_core_and_services() {
    let mut store = open_database("register");
    let rt = runtime(UUID_A, all_permissions());
    let regs = Registrations {
        core: Some(CoreRegistrations { dependency_functions: Some(vec!["f".to_string()]) }),
        services: Some(ServicesRegistrations {
            job_scheduler: None,
            discord: Some(DiscordRegistrations { events: Some(vec!["READY".to_string()]), interactions: None }),
        }),
    };
    let res = rt.register(&mut store, regs, true, None);
    assert_eq!(res.core.unwrap().dependency_functions.unwrap().unwrap().len(), 1);
    let services = res.services.unwrap();
    assert!(services.job_scheduler.is_none());
    assert!(services.discord.unwrap().ok().unwrap().events.is_some());
}

#[test]
fn host_error_text() {
    assert_eq!(HostError::Runtime("a".to_string()).text(), "a");
    assert_eq!(HostError::Storage("b".to_string()).text(), "b");
}

#[test]
fn registering_dependency_functions_twice_answers_the_same() {
    let mut store = open_database("deps_twice");
    let rt = runtime(UUID_A, all_permissions());
    let mut once = rt.register_dependency_functions(&mut store, vec!["f".to_string(), "g".to_string()]).unwrap();
    let mut twice = rt.register_dependency_functions(&mut store, vec!["f".to_string(), "g".to_string()]).unwrap();
    once.sort();
    twice.sort();
    assert_eq!(once, twice);
    let call = rt
        .dependency_function(&store, "wpbs".to_string(), "example".to_string(), "g".to_string(), Some("1.0.0".to_string()))
        .unwrap();
    assert_eq!(call.plugin_uuid, UUID_A.to_vec());
}

#[test]
fn event_subscriptions_follow_the_opening_outcome() {
    let mut store = open_database("events_opened");
    let meta = metadata(UUID_A, all_permissions());
    let failed = InternalRuntime::subscribe_discord_events(
        &mut store,
        &meta,
        vec!["READY".to_string()],
        Err(HostError::Storage("FjallError: Locked".to_string())),
    );
    match failed {
        Err(HostError::Storage(m)) => assert_eq!(m, "FjallError: Locked"),
        _ => panic!("expected the opening failure"),
    }
    let answered = InternalRuntime::subscribe_discord_events(
        &mut store,
        &meta,
        vec!["READY".to_string(), "TYPING_START".to_string()],
        Ok(()),
    )
    .ok()
    .unwrap();
    assert_eq!(answered.len(), 2);
    assert!(answered[0].1.is_ok());
    assert!(answered[1].1.is_err());
}

#[test]
fn repeated_event_registration_answers_the_same() {
    let mut store = open_database("events_twice");
    let meta = metadata(UUID_A, all_permissions());
    let ask = || DiscordRegistrations {
        events: Some(vec!["READY".to_string(), "GUILD_CREATE".to_string()]),
        interactions: None,
    };
    let first = InternalRuntime::register_discord(&mut store, &meta, true, ask()).ok().unwrap().events.unwrap().ok().unwrap();
    let second = InternalRuntime::register_discord(&mut store, &meta, true, ask()).ok().unwrap().events.unwrap().ok().unwrap();
    assert_eq!(first.len(), second.len());
    for (a, b) in first.iter().zip(second.iter()) {
        assert_eq!(a.0, b.0);
        assert_eq!(a.1.is_ok(), b.1.is_ok());
    }
}

#[test]
fn many_writes_of_one_plugin_leave_another_plugins_reads() {
    let mut store = open_database("many_writes");
    let a = runtime(UUID_A, no_permissions());
    let b = runtime(UUID_B, no_permissions());
    b.set_state(&mut store, "k".to_string(), vec![7]).unwrap();
    for i in 0..5u8 {
        a.set_state(&mut store, "k".to_string(), vec![i]).unwrap();
        a.set_state(&mut store, format!("other{i}"), vec![i]).unwrap();
    }
    assert_eq!(b.get_state(&store, &"k".to_string()).unwrap(), Some(vec![7]));
}
