//! Job scheduler registrations. Each scheduled job is handed to the core,
//! whose reply is awaited; the decisions before and the answer after are
//! made here.

use crate::host::InternalRuntime;
use crate::model::{
    position_of, texts, HostError, PluginPermissionsJobScheduler, RuntimePluginMetadata,
};
use vstd::prelude::*;
use vstd::string::*;

verus! {

/// The job scheduler registrations a plugin asks for.
pub struct JobSchedulerRegistrations {
    /// Scheduled jobs, as the text that describes each.
    pub scheduled_jobs: Option<Vec<String>>,
}

/// The answers to a plugin's job scheduler registrations.
pub struct JobSchedulerRegistrationsResult {
    /// Each scheduled job asked for, once, with the identifier the core gave
    /// it or the reason it refused it.
    pub scheduled_jobs: Option<Result<Vec<(String, Result<String, HostError>)>, HostError>>,
}

/// What follows the decision on a plugin's job scheduler registrations:
/// the answer itself, or the scheduled jobs to hand to the core first.
pub enum JobSchedulerStep {
    Done(JobSchedulerRegistrationsResult),
    AddJobs(Vec<String>),
}

/// The answer when the job scheduler service is off.
pub open spec fn job_scheduler_disabled() -> Seq<char> {
    "The job scheduler service is disabled"@
}

/// The refusal of scheduled jobs.
pub open spec fn scheduled_jobs_denied() -> Seq<char> {
    "Plugin is not allowed to register scheduled jobs"@
}

/// The last position of `job` in `jobs`, or -1 when it is not there.
pub open spec fn last_index(jobs: Seq<Seq<char>>, job: Seq<char>) -> int
    decreases jobs.len(),
{
    if jobs.len() == 0 {
        -1
    } else if jobs.last() == job {
        jobs.len() - 1
    } else {
        last_index(jobs.drop_last(), job)
    }
}

/// `pairs` answer each job of `jobs` once, with the reply to its last
/// occurrence: a later reply to the same job replaces an earlier one.
pub open spec fn job_answers(
    pairs: Seq<(String, Result<String, HostError>)>,
    jobs: Seq<String>,
    replies: Seq<Result<String, HostError>>,
) -> bool {
    &&& forall|k: int|
        0 <= k < pairs.len() ==> 0 <= last_index(texts(jobs), (#[trigger] pairs[k]).0@) && pairs[k].1
            == replies[last_index(texts(jobs), pairs[k].0@)]
    &&& forall|j: Seq<char>| #[trigger]
        texts(jobs).contains(j) ==> exists|k: int| 0 <= k < pairs.len() && #[trigger] pairs[k].0@ == j
    &&& forall|k: int, l: int|
        0 <= k < l < pairs.len() ==> (#[trigger] pairs[k]).0@ != (#[trigger] pairs[l]).0@
}

impl InternalRuntime {
    /// Decides a plugin's job scheduler registrations: refused outright when
    /// the service is off; when scheduled jobs are asked for, refused without
    /// the permission, else to be handed to the core.
    pub fn register_job_scheduler(
        job_scheduler_enabled: bool,
        plugin_metadata: &RuntimePluginMetadata,
        job_scheduler_registrations: JobSchedulerRegistrations,
    ) -> (r: Result<JobSchedulerStep, HostError>)
        ensures
            !job_scheduler_enabled ==> (r matches Err(HostError::Runtime(m)) && m@
                == job_scheduler_disabled()),
            job_scheduler_enabled && job_scheduler_registrations.scheduled_jobs is None ==> (r matches Ok(
                JobSchedulerStep::Done(res),
            ) && res.scheduled_jobs is None),
            job_scheduler_enabled && job_scheduler_registrations.scheduled_jobs is Some
                && !plugin_metadata.has_job_scheduler(PluginPermissionsJobScheduler::ScheduledJobs) ==> (
            r matches Ok(JobSchedulerStep::Done(res)) && res.scheduled_jobs matches Some(
                Err(HostError::Runtime(m)),
            ) && m@ == scheduled_jobs_denied()),
            job_scheduler_enabled && plugin_metadata.has_job_scheduler(
                PluginPermissionsJobScheduler::ScheduledJobs,
            ) ==> (job_scheduler_registrations.scheduled_jobs matches Some(jobs) ==> (r matches Ok(
                JobSchedulerStep::AddJobs(added),
            ) && added@ == jobs@)),
    {
        if !job_scheduler_enabled {
            return Err(HostError::Runtime(String::from_str("The job scheduler service is disabled")));
        }
        match job_scheduler_registrations.scheduled_jobs {
            None => Ok(JobSchedulerStep::Done(JobSchedulerRegistrationsResult { scheduled_jobs: None })),
            Some(jobs) => {
                if plugin_metadata.grants_job_scheduler(PluginPermissionsJobScheduler::ScheduledJobs) {
                    Ok(JobSchedulerStep::AddJobs(jobs))
                } else {
                    Ok(
                        JobSchedulerStep::Done(
                            JobSchedulerRegistrationsResult {
                                scheduled_jobs: Some(
                                    Err(
                                        HostError::Runtime(
                                            String::from_str("Plugin is not allowed to register scheduled jobs"),
                                        ),
                                    ),
                                ),
                            },
                        ),
                    )
                }
            },
        }
    }

    /// The answer to scheduled jobs that were handed to the core: each job
    /// with the core's reply to it, `replies[i]` answering `jobs[i]`.
    pub fn scheduled_jobs_result(jobs: &Vec<String>, replies: Vec<Result<String, HostError>>) -> (r:
        JobSchedulerRegistrationsResult)
        requires
            replies.len() == jobs.len(),
        ensures
            r.scheduled_jobs matches Some(Ok(pairs)) && job_answers(pairs@, jobs@, replies@),
    {
        let ghost all = replies@;
        let ghost names = texts(jobs@);
        let mut replies = replies;
        let mut pairs: Vec<(String, Result<String, HostError>)> = Vec::new();
        let mut i: usize = 0;
        while i < jobs.len()
            invariant
                i <= jobs.len(),
                all.len() == jobs.len(),
                replies@ == all.skip(i as int),
                names == texts(jobs@),
                forall|k: int|
                    0 <= k < pairs.len() ==> 0 <= last_index(names.take(i as int), (#[trigger] pairs@[k]).0@)
                        && pairs@[k].1 == all[last_index(names.take(i as int), pairs@[k].0@)],
                forall|q: int|
                    #![trigger names[q]]
                    0 <= q < i ==> exists|k: int| 0 <= k < pairs.len() && #[trigger] pairs@[k].0@ == names[q],
                forall|k: int, l: int|
                    0 <= k < l < pairs.len() ==> (#[trigger] pairs@[k]).0@ != (#[trigger] pairs@[l]).0@,
            decreases jobs.len() - i,
        {
            let ghost old_pairs = pairs@;
            let reply = replies.remove(0);
            let job = &jobs[i];
            proof {
                assert(reply == all[i as int]);
                assert(names[i as int] == job@);
                assert(replies@ =~= all.skip(i + 1));
                let before = names.take(i as int);
                let after = names.take(i + 1);
                assert(after.drop_last() =~= before);
                assert(after.last() == job@);
            }
            match position_of(&pairs, job) {
                Some(p) => {
                    pairs[p] = (job.clone(), reply);
                },
                None => {
                    pairs.push((job.clone(), reply));
                },
            }
            proof {
                let after = names.take(i + 1);
                assert forall|q: int| #![trigger names[q]] 0 <= q < i + 1 implies exists|k: int|
                    0 <= k < pairs.len() && #[trigger] pairs@[k].0@ == names[q] by {
                    if q < i {
                        let w = choose|w: int| 0 <= w < old_pairs.len() && #[trigger] old_pairs[w].0@ == names[q];
                        assert(pairs@[w].0@ == old_pairs[w].0@);
                    } else {
                        if pairs.len() > old_pairs.len() {
                            assert(pairs@[old_pairs.len() as int].0@ == names[q]);
                        } else {
                            let p = choose|p: int| 0 <= p < pairs.len() && pairs@[p].0@ == job@;
                            assert(pairs@[p].0@ == names[q]);
                        }
                    }
                }
            }
            i = i + 1;
        }
        proof {
            assert(names.take(jobs.len() as int) =~= names);
            assert forall|j: Seq<char>| #[trigger] texts(jobs@).contains(j) implies exists|k: int|
                0 <= k < pairs.len() && #[trigger] pairs@[k].0@ == j by {
                let q = choose|q: int| 0 <= q < names.len() && names[q] == j;
                assert(names[q] == j);
            }
        }
        JobSchedulerRegistrationsResult { scheduled_jobs: Some(Ok(pairs)) }
    }
}

} // verus!
