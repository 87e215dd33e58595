//! The services a plugin can register with: Discord and the job scheduler.

pub mod discord;
pub mod job_scheduler;

use crate::host::InternalRuntime;
use crate::model::{HostError, RuntimePluginMetadata};
use crate::store::{keyspace_of, Store};
use discord::{discord_inputs_fit, discord_outcome, discord_unchanged, is_discord_keyspace, DiscordRegistrations, DiscordRegistrationsResult};
use job_scheduler::{JobSchedulerRegistrations, JobSchedulerRegistrationsResult};
use vstd::prelude::*;

verus! {

broadcast use crate::store::lemma_keyspace_of_database;

/// The service registrations a plugin asks for.
pub struct ServicesRegistrations {
    pub job_scheduler: Option<JobSchedulerRegistrations>,
    pub discord: Option<DiscordRegistrations>,
}

/// The answers to a plugin's service registrations.
pub struct ServicesRegistrationsResult {
    pub job_scheduler: Option<Result<JobSchedulerRegistrationsResult, HostError>>,
    pub discord: Option<Result<DiscordRegistrationsResult, HostError>>,
}

/// With the Discord service on, the Discord events and application commands
/// asked for, if any, fit in the database.
pub open spec fn services_keys_fit(meta: RuntimePluginMetadata, discord_enabled: bool, regs: ServicesRegistrations) -> bool {
    discord_enabled ==> (regs.discord matches Some(d) ==> discord_inputs_fit(meta, d))
}

/// What the service registrations `regs` of the plugin `meta` did to the
/// database, `before` and `after`, and answered, given the outcome
/// `job_scheduler` of its job scheduler registrations.
pub open spec fn services_outcome(
    before: Store,
    after: Store,
    meta: RuntimePluginMetadata,
    discord_enabled: bool,
    job_scheduler: Option<Result<JobSchedulerRegistrationsResult, HostError>>,
    regs: ServicesRegistrations,
    r: ServicesRegistrationsResult,
) -> bool {
    &&& r.job_scheduler == job_scheduler
    &&& match regs.discord {
        None => r.discord is None && discord_unchanged(before, after),
        Some(d) => (r.discord matches Some(dr) && discord_outcome(
            before,
            after,
            meta,
            discord_enabled,
            d,
            dr,
        )),
    }
}

impl InternalRuntime {
    /// Carries out the service registrations of a plugin. The job scheduler
    /// registrations wait on the core and are carried out first, by the
    /// caller: `job_scheduler` is their outcome, there exactly when they are
    /// asked for, and answered as it is. The
    /// Discord registrations are carried out here when asked for.
    pub fn register_services(
        store: &mut Store,
        plugin_metadata: &RuntimePluginMetadata,
        discord_enabled: bool,
        job_scheduler: Option<Result<JobSchedulerRegistrationsResult, HostError>>,
        services_registrations: ServicesRegistrations,
    ) -> (r: ServicesRegistrationsResult)
        requires
            services_keys_fit(*plugin_metadata, discord_enabled, services_registrations),
            job_scheduler is Some <==> services_registrations.job_scheduler is Some,
        ensures
            forall|n: Seq<char>| !is_discord_keyspace(n) ==> #[trigger] keyspace_of(*final(store), n)
                == keyspace_of(*old(store), n),
            services_outcome(
                *old(store),
                *final(store),
                *plugin_metadata,
                discord_enabled,
                job_scheduler,
                services_registrations,
                r,
            ),
    {
        let discord = match services_registrations.discord {
            Some(discord_registrations) => Some(
                Self::register_discord(store, plugin_metadata, discord_enabled, discord_registrations),
            ),
            None => None,
        };
        ServicesRegistrationsResult { job_scheduler, discord }
    }
}

} // verus!
