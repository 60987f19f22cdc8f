//! The vocabulary shared by the manager and the code that drives it: phases,
//! the events a launch reports and the actions it is answered with.

use vstd::prelude::*;

verus! {

/// Where the supervisor is in its lifecycle.
#[derive(Clone, Copy, Debug, PartialEq, Eq, Structural)]
pub enum Phase {
    /// Nothing has been started yet.
    Idle,
    /// A launch is under way.
    Starting,
    /// The last group has been launched and has settled.
    Running,
    /// A shutdown is draining the process table. The manager is in this phase
    /// only inside a stop; between calls it is never observed.
    Stopping,
    /// Everything that was tracked has been handed over for termination.
    Stopped,
}

/// The aggregate condition of the backend.
#[derive(Clone, Copy, Debug, PartialEq, Eq, Structural)]
pub enum HealthStatus {
    /// The launch is complete and every tracked process is running.
    Running,
    /// The launch is complete and at least one tracked process has exited.
    Degraded,
    /// A launch is under way.
    Starting,
    /// Nothing is running: never started, or stopped.
    Stopped,
}

/// Why a process could not be spawned.
#[derive(Clone, Copy, Debug, PartialEq, Eq, Structural)]
pub enum SpawnError {
    /// The executable cannot be found.
    ExecutableNotFound,
    /// The working directory does not exist.
    InvalidWorkingDir,
    /// The operating system refused to create the process.
    OsRefused,
}

/// Why a start was refused.
#[derive(Clone, Copy, Debug, PartialEq, Eq, Structural)]
pub enum StartError {
    /// A launch is under way or complete: nothing is spawned a second time.
    AlreadyRunning,
}

/// A spawn that failed during the launch, and where.
#[derive(Clone, Copy, Debug, PartialEq, Eq, Structural)]
pub struct SpawnFailure {
    /// Position of the group in the configuration.
    pub group: usize,
    /// Position of the process in its group.
    pub index: usize,
    /// What went wrong.
    pub error: SpawnError,
}

/// What the driver of a launch reports back.
#[derive(Clone, Copy, Debug, PartialEq, Eq, Structural)]
pub enum LaunchEvent {
    /// The process asked for was spawned.
    Spawned { pid: u32, at: u64 },
    /// The process asked for could not be spawned.
    SpawnFailed { error: SpawnError },
    /// The settle delay asked for has elapsed.
    Settled,
}

/// What the driver of a launch has to do next.
#[derive(Clone, Copy, Debug, PartialEq, Eq, Structural)]
pub enum LaunchAction {
    /// Spawn the process at position `index` of the group at position `group`,
    /// then report `Spawned` or `SpawnFailed`.
    Spawn { group: usize, index: usize },
    /// Wait `millis` milliseconds for the group at position `group` to settle,
    /// then report `Settled`.
    Settle { group: usize, millis: u64 },
    /// Announce that the backend is ready. The launch is complete.
    Notify,
    /// Terminate the process just reported: it is not tracked. The launch is over.
    Terminate { pid: u32 },
    /// Do nothing more: the launch is over.
    Halt,
}

impl HealthStatus {
    /// The status in words.
    pub open spec fn message_view(self) -> Seq<char> {
        match self {
            HealthStatus::Running => "Services running"@,
            HealthStatus::Degraded => "Services degraded"@,
            HealthStatus::Starting => "Services starting"@,
            HealthStatus::Stopped => "Services stopped"@,
        }
    }

    /// The status in words.
    pub fn message(&self) -> (message: String)
        ensures
            message@ == self.message_view(),
    {
        match self {
            HealthStatus::Running => "Services running".to_owned(),
            HealthStatus::Degraded => "Services degraded".to_owned(),
            HealthStatus::Starting => "Services starting".to_owned(),
            HealthStatus::Stopped => "Services stopped".to_owned(),
        }
    }

    /// True if the backend is up or on its way up: `Running` or `Starting`.
    pub open spec fn is_well(self) -> bool {
        self == HealthStatus::Running || self == HealthStatus::Starting
    }
}

impl SpawnError {
    /// The reason for which a spawn fails: the working directory is looked
    /// at first, then the executable; where both are there, the operating
    /// system has refused.
    pub open spec fn reason(working_dir_exists: bool, executable_found: bool) -> SpawnError {
        if !working_dir_exists {
            SpawnError::InvalidWorkingDir
        } else if !executable_found {
            SpawnError::ExecutableNotFound
        } else {
            SpawnError::OsRefused
        }
    }

    /// Names the reason for which a spawn has failed, from what the host
    /// found: whether the working directory exists, and whether the
    /// executable was found.
    pub fn classify(working_dir_exists: bool, executable_found: bool) -> (error: SpawnError)
        ensures
            error == SpawnError::reason(working_dir_exists, executable_found),
    {
        if !working_dir_exists {
            SpawnError::InvalidWorkingDir
        } else if !executable_found {
            SpawnError::ExecutableNotFound
        } else {
            SpawnError::OsRefused
        }
    }

    /// The error in words.
    pub open spec fn message_view(self) -> Seq<char> {
        match self {
            SpawnError::ExecutableNotFound => "executable not found"@,
            SpawnError::InvalidWorkingDir => "working directory does not exist"@,
            SpawnError::OsRefused => "the operating system refused to create the process"@,
        }
    }

    /// The error in words.
    pub fn message(&self) -> (message: String)
        ensures
            message@ == self.message_view(),
    {
        match self {
            SpawnError::ExecutableNotFound => "executable not found".to_owned(),
            SpawnError::InvalidWorkingDir => "working directory does not exist".to_owned(),
            SpawnError::OsRefused => "the operating system refused to create the process".to_owned(),
        }
    }
}

impl StartError {
    /// The error in words.
    pub open spec fn message_view(self) -> Seq<char> {
        match self {
            StartError::AlreadyRunning => "Backend services already running"@,
        }
    }

    /// The error in words.
    pub fn message(&self) -> (message: String)
        ensures
            message@ == self.message_view(),
    {
        match self {
            StartError::AlreadyRunning => "Backend services already running".to_owned(),
        }
    }
}

/// An accepted start: the ticket that identifies the launch, and its first action.
#[derive(Clone, Copy, Debug, PartialEq, Eq, Structural)]
pub struct Launch {
    /// Identifies this launch in every later report.
    pub ticket: u64,
    /// The first thing to do.
    pub first: LaunchAction,
}

} // verus!
