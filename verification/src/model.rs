//! The values that the host functions take and give: errors, plugin
//! metadata and permissions, and the registration requests and results.

use vstd::prelude::*;

verus! {

/// An error handed back to a plugin.
#[derive(Debug)]
pub enum HostError {
    /// A refusal or failure that the runtime words itself.
    Runtime(String),
    /// A failure of the database, in the database's own words.
    Storage(String),
}

impl HostError {
    /// The text that the plugin receives.
    pub fn text(self) -> (t: String)
        ensures
            t == match self {
                HostError::Runtime(m) => m,
                HostError::Storage(m) => m,
            },
    {
        match self {
            HostError::Runtime(m) => m,
            HostError::Storage(m) => m,
        }
    }
}

/// A core permission of a plugin.
#[derive(Clone, Copy, Debug, PartialEq, Eq, Structural)]
pub enum PluginPermissionsCore {
    Shutdown,
    DependencyFunctions,
}

/// A job scheduler permission of a plugin.
#[derive(Clone, Copy, Debug, PartialEq, Eq, Structural)]
pub enum PluginPermissionsJobScheduler {
    ScheduledJobs,
}

/// A Discord interaction permission of a plugin.
#[derive(Clone, Copy, Debug, PartialEq, Eq, Structural)]
pub enum PluginPermissionsDiscordInteractions {
    ApplicationCommands,
    MessageComponents,
    Modals,
}

/// The Discord permissions of a plugin. Gateway events and requests are named
/// by their wire names.
pub struct PluginPermissionsDiscord {
    pub events: Vec<String>,
    pub interactions: Vec<PluginPermissionsDiscordInteractions>,
    pub requests: Vec<String>,
}

/// The service permissions of a plugin.
pub struct PluginPermissionsServices {
    pub discord: PluginPermissionsDiscord,
    pub job_scheduler: Vec<PluginPermissionsJobScheduler>,
}

/// Everything a plugin is allowed to do.
pub struct PluginPermissions {
    pub core: Vec<PluginPermissionsCore>,
    pub services: PluginPermissionsServices,
}

/// What the runtime knows of the plugin it runs.
pub struct RuntimePluginMetadata {
    /// The sixteen bytes of the plugin's UUID.
    pub plugin_uuid: [u8; 16],
    pub user_id: String,
    pub namespace_id: String,
    pub plugin_id: String,
    /// The plugin's version, as it is written out.
    pub version: String,
    pub permissions: PluginPermissions,
}

/// The views of a list of strings.
pub open spec fn texts(v: Seq<String>) -> Seq<Seq<char>> {
    v.map_values(|s: String| s@)
}

impl RuntimePluginMetadata {
    /// The plugin holds the core permission `p`.
    pub open spec fn has_core(&self, p: PluginPermissionsCore) -> bool {
        self.permissions.core@.contains(p)
    }

    /// The plugin holds the job scheduler permission `p`.
    pub open spec fn has_job_scheduler(&self, p: PluginPermissionsJobScheduler) -> bool {
        self.permissions.services.job_scheduler@.contains(p)
    }

    /// The plugin holds the Discord interaction permission `p`.
    pub open spec fn has_interaction(&self, p: PluginPermissionsDiscordInteractions) -> bool {
        self.permissions.services.discord.interactions@.contains(p)
    }

    /// The plugin may subscribe to the Discord gateway event `event`.
    pub open spec fn has_event(&self, event: Seq<char>) -> bool {
        texts(self.permissions.services.discord.events@).contains(event)
    }

    /// The plugin may make Discord requests of the kind `request`.
    pub open spec fn has_request(&self, request: Seq<char>) -> bool {
        texts(self.permissions.services.discord.requests@).contains(request)
    }

    /// Whether the plugin holds the core permission `p`.
    pub fn grants_core(&self, p: PluginPermissionsCore) -> (b: bool)
        ensures
            b == self.has_core(p),
    {
        let perms = &self.permissions.core;
        let mut i: usize = 0;
        while i < perms.len()
            invariant
                perms@ == self.permissions.core@,
                i <= perms.len(),
                forall|j: int| 0 <= j < i ==> perms@[j] != p,
            decreases perms.len() - i,
        {
            if perms[i] == p {
                assert(perms@[i as int] == p);
                return true;
            }
            i = i + 1;
        }
        false
    }

    /// Whether the plugin holds the job scheduler permission `p`.
    pub fn grants_job_scheduler(&self, p: PluginPermissionsJobScheduler) -> (b: bool)
        ensures
            b == self.has_job_scheduler(p),
    {
        let perms = &self.permissions.services.job_scheduler;
        let mut i: usize = 0;
        while i < perms.len()
            invariant
                perms@ == self.permissions.services.job_scheduler@,
                i <= perms.len(),
                forall|j: int| 0 <= j < i ==> perms@[j] != p,
            decreases perms.len() - i,
        {
            if perms[i] == p {
                assert(perms@[i as int] == p);
                return true;
            }
            i = i + 1;
        }
        false
    }

    /// Whether the plugin holds the Discord interaction permission `p`.
    pub fn grants_interaction(&self, p: PluginPermissionsDiscordInteractions) -> (b: bool)
        ensures
            b == self.has_interaction(p),
    {
        let perms = &self.permissions.services.discord.interactions;
        let mut i: usize = 0;
        while i < perms.len()
            invariant
                perms@ == self.permissions.services.discord.interactions@,
                i <= perms.len(),
                forall|j: int| 0 <= j < i ==> perms@[j] != p,
            decreases perms.len() - i,
        {
            if perms[i] == p {
                assert(perms@[i as int] == p);
                return true;
            }
            i = i + 1;
        }
        false
    }

    /// Whether the plugin may subscribe to the Discord gateway event `event`.
    pub fn grants_event(&self, event: &String) -> (b: bool)
        ensures
            b == self.has_event(event@),
    {
        contains_text(&self.permissions.services.discord.events, event)
    }

    /// Whether the plugin may make Discord requests of the kind `request`.
    pub fn grants_request(&self, request: &String) -> (b: bool)
        ensures
            b == self.has_request(request@),
    {
        contains_text(&self.permissions.services.discord.requests, request)
    }
}

/// The position of the pair whose first part reads as `key`, if any.
pub(crate) fn position_of<T>(pairs: &Vec<(String, T)>, key: &String) -> (r: Option<usize>)
    ensures
        r matches Some(i) ==> i < pairs.len() && pairs@[i as int].0@ == key@,
        r is None ==> forall|i: int| 0 <= i < pairs.len() ==> (#[trigger] pairs@[i]).0@ != key@,
{
    let mut i: usize = 0;
    while i < pairs.len()
        invariant
            i <= pairs.len(),
            forall|j: int| 0 <= j < i ==> (#[trigger] pairs@[j]).0@ != key@,
        decreases pairs.len() - i,
    {
        if pairs[i].0 == *key {
            return Some(i);
        }
        i = i + 1;
    }
    None
}

/// Whether one of `names` reads as `name`.
fn contains_text(names: &Vec<String>, name: &String) -> (b: bool)
    ensures
        b == texts(names@).contains(name@),
{
    let mut i: usize = 0;
    while i < names.len()
        invariant
            i <= names.len(),
            forall|j: int| 0 <= j < i ==> names@[j]@ != name@,
        decreases names.len() - i,
    {
        if names[i] == *name {
            assert(texts(names@)[i as int] == name@);
            return true;
        }
        i = i + 1;
    }
    proof {
        if texts(names@).contains(name@) {
            let j = choose|j: int| 0 <= j < texts(names@).len() && texts(names@)[j] == name@;
            assert(names@[j]@ == name@);
        }
    }
    false
}

} // verus!
