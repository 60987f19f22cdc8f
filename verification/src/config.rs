//! What is launched: process specifications and the groups they form.

use vstd::prelude::*;

verus! {

/// What becomes of the output streams of a spawned process. They are never
/// inherited from the supervisor, so the output of several services cannot
/// interleave on one console.
#[derive(Clone, Copy, Debug, PartialEq, Eq, Structural)]
pub enum CaptureMode {
    /// stdout and stderr are captured into pipes.
    Piped,
    /// stdout and stderr are discarded.
    Discard,
}

/// How to launch one process. Fixed once constructed.
#[derive(Clone, Debug, PartialEq, Eq)]
pub struct ProcessSpec {
    program: String,
    args: Vec<String>,
    working_dir: String,
    capture: CaptureMode,
}

/// The mathematical content of a [`ProcessSpec`].
pub struct ProcessSpecView {
    /// Path of the executable, resolved against the working directory.
    pub program: Seq<char>,
    /// The arguments, in order.
    pub args: Seq<Seq<char>>,
    /// The directory the process runs in, relative to the root the caller supplies.
    pub working_dir: Seq<char>,
    /// Treatment of stdout and stderr.
    pub capture: CaptureMode,
}

impl View for ProcessSpec {
    type V = ProcessSpecView;

    closed spec fn view(&self) -> ProcessSpecView {
        ProcessSpecView {
            program: self.program@,
            args: self.args.deep_view(),
            working_dir: self.working_dir@,
            capture: self.capture,
        }
    }
}

impl ProcessSpec {
    /// A specification made of the given parts.
    pub fn new(program: String, args: Vec<String>, working_dir: String, capture: CaptureMode) -> (spec:
        ProcessSpec)
        ensures
            spec@ == (ProcessSpecView {
                program: program@,
                args: args.deep_view(),
                working_dir: working_dir@,
                capture,
            }),
    {
        ProcessSpec { program, args, working_dir, capture }
    }

    /// Path of the executable.
    pub fn program(&self) -> (program: &str)
        ensures
            program@ == self@.program,
    {
        self.program.as_str()
    }

    /// The arguments, in order.
    pub fn args(&self) -> (args: &Vec<String>)
        ensures
            args.deep_view() == self@.args,
    {
        &self.args
    }

    /// The working directory.
    pub fn working_dir(&self) -> (dir: &str)
        ensures
            dir@ == self@.working_dir,
    {
        self.working_dir.as_str()
    }

    /// Treatment of stdout and stderr.
    pub fn capture(&self) -> (capture: CaptureMode)
        ensures
            capture == self@.capture,
    {
        self.capture
    }
}

/// One stage of the startup: processes that are launched together, in the
/// order listed, before the next stage begins. Fixed once constructed.
#[derive(Clone, Debug, PartialEq, Eq)]
pub struct ServiceGroup {
    name: String,
    specs: Vec<ProcessSpec>,
    settle_millis: u64,
}

/// The mathematical content of a [`ServiceGroup`].
pub struct ServiceGroupView {
    /// Name of the stage.
    pub name: Seq<char>,
    /// The processes of the stage, in launch order.
    pub specs: Seq<ProcessSpecView>,
    /// How long to wait, in milliseconds, after the stage has been launched.
    pub settle_millis: u64,
}

impl View for ServiceGroup {
    type V = ServiceGroupView;

    closed spec fn view(&self) -> ServiceGroupView {
        ServiceGroupView {
            name: self.name@,
            specs: self.specs@.map_values(|spec: ProcessSpec| spec@),
            settle_millis: self.settle_millis,
        }
    }
}

impl ServiceGroup {
    /// A group made of the given parts.
    pub fn new(name: String, specs: Vec<ProcessSpec>, settle_millis: u64) -> (group: ServiceGroup)
        ensures
            group@ == (ServiceGroupView {
                name: name@,
                specs: specs@.map_values(|spec: ProcessSpec| spec@),
                settle_millis,
            }),
    {
        ServiceGroup { name, specs, settle_millis }
    }

    /// Name of the stage.
    pub fn name(&self) -> (name: &str)
        ensures
            name@ == self@.name,
    {
        self.name.as_str()
    }

    /// Number of processes in the stage.
    pub fn len(&self) -> (len: usize)
        ensures
            len == self@.specs.len(),
    {
        self.specs.len()
    }

    /// The process at position `index` of the stage, if there is one.
    pub fn spec(&self, index: usize) -> (spec: Option<&ProcessSpec>)
        ensures
            index < self@.specs.len() ==> spec.is_some() && spec.unwrap()@ == self@.specs[index as int],
            index >= self@.specs.len() ==> spec.is_none(),
    {
        if index < self.specs.len() {
            Some(&self.specs[index])
        } else {
            None
        }
    }

    /// How long to wait, in milliseconds, after the stage has been launched.
    pub fn settle_millis(&self) -> (millis: u64)
        ensures
            millis == self@.settle_millis,
    {
        self.settle_millis
    }

    /// A group holds no more processes than a machine can count.
    pub proof fn lemma_len_fits(&self)
        ensures
            self@.specs.len() <= usize::MAX,
    {
        assert(self.specs.len() == self.specs@.len());
    }
}

/// The first stage of the default backend: the embedding service and the
/// Gemini service, both run by the Python interpreter of the virtual
/// environment under `backend/python-backend`. It is given three seconds to
/// settle.
pub open spec fn python_services_view() -> ServiceGroupView {
    ServiceGroupView {
        name: "python-services"@,
        specs: seq![
            ProcessSpecView {
                program: "./venv/bin/python3"@,
                args: seq!["-m"@, "src.services.embedding_service"@],
                working_dir: "backend/python-backend"@,
                capture: CaptureMode::Piped,
            },
            ProcessSpecView {
                program: "./venv/bin/python3"@,
                args: seq!["-m"@, "src.services.gemini_service"@],
                working_dir: "backend/python-backend"@,
                capture: CaptureMode::Piped,
            },
        ],
        settle_millis: 3000,
    }
}

/// The second stage of the default backend: the Perl API server, run from
/// `backend`. It is given two seconds to settle.
pub open spec fn perl_service_view() -> ServiceGroupView {
    ServiceGroupView {
        name: "perl-service"@,
        specs: seq![
            ProcessSpecView {
                program: "perl"@,
                args: seq!["perl-backend/script/api_server.pl"@],
                working_dir: "backend"@,
                capture: CaptureMode::Piped,
            },
        ],
        settle_millis: 2000,
    }
}

/// The default backend: the Python services, then the Perl API server.
pub open spec fn default_groups_view() -> Seq<ServiceGroupView> {
    seq![python_services_view(), perl_service_view()]
}

/// A Python module run as a service of the default backend.
fn python_module(module: &str) -> (spec: ProcessSpec)
    ensures
        spec@ == (ProcessSpecView {
            program: "./venv/bin/python3"@,
            args: seq!["-m"@, module@],
            working_dir: "backend/python-backend"@,
            capture: CaptureMode::Piped,
        }),
{
    let mut args: Vec<String> = Vec::new();
    args.push("-m".to_owned());
    args.push(module.to_owned());
    assert(args.deep_view() =~= seq!["-m"@, module@]);
    ProcessSpec::new(
        "./venv/bin/python3".to_owned(),
        args,
        "backend/python-backend".to_owned(),
        CaptureMode::Piped,
    )
}

/// The first stage of the default backend.
pub fn python_services() -> (group: ServiceGroup)
    ensures
        group@ == python_services_view(),
{
    let mut specs: Vec<ProcessSpec> = Vec::new();
    specs.push(python_module("src.services.embedding_service"));
    specs.push(python_module("src.services.gemini_service"));
    assert(specs@.map_values(|spec: ProcessSpec| spec@) =~= python_services_view().specs);
    ServiceGroup::new("python-services".to_owned(), specs, 3000)
}

/// The second stage of the default backend.
pub fn perl_service() -> (group: ServiceGroup)
    ensures
        group@ == perl_service_view(),
{
    let mut args: Vec<String> = Vec::new();
    args.push("perl-backend/script/api_server.pl".to_owned());
    assert(args.deep_view() =~= seq!["perl-backend/script/api_server.pl"@]);
    let mut specs: Vec<ProcessSpec> = Vec::new();
    specs.push(ProcessSpec::new("perl".to_owned(), args, "backend".to_owned(), CaptureMode::Piped));
    assert(specs@.map_values(|spec: ProcessSpec| spec@) =~= perl_service_view().specs);
    ServiceGroup::new("perl-service".to_owned(), specs, 2000)
}

/// The groups of the default backend, in launch order.
pub fn default_groups() -> (groups: Vec<ServiceGroup>)
    ensures
        groups@.map_values(|group: ServiceGroup| group@) == default_groups_view(),
{
    let mut groups: Vec<ServiceGroup> = Vec::new();
    groups.push(python_services());
    groups.push(perl_service());
    assert(groups@.map_values(|group: ServiceGroup| group@) =~= default_groups_view());
    groups
}

} // verus!
