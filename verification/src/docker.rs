//! Shared Docker-facing data: the per-role lifecycle tracker polled by the
//! shutdown path, the per-test orchestration record, and the command vectors
//! retrieved from the verifier image.

pub mod container;
pub mod docker_config;
pub mod jsonio;
pub mod listener;
pub mod network;
pub mod probe;

use vstd::prelude::*;

verus! {

/// Result of polling a lifecycle tracker: `Ready` means the shutdown path may
/// act on it now, `Pending` means a container id has been promised but has not
/// arrived yet.
#[derive(Clone, Copy, Debug, PartialEq, Eq, Structural)]
pub enum PollStatus {
    Ready,
    Pending,
}

/// Everything the orchestration learns about one running test: the app
/// container, its port pair, and the optional database container alongside.
#[derive(Clone, Debug)]
pub struct DockerOrchestration {
    pub host_container_id: String,
    pub host_port: String,
    pub host_internal_port: String,
    pub database_name: Option<String>,
    pub db_container_id: Option<String>,
    pub db_host_port: Option<String>,
    pub db_internal_port: Option<String>,
}

/// The command vectors the verifier emits in benchmark mode: one primer, one
/// warmup, then the measured benchmark commands in order.
#[derive(Clone, Debug)]
pub struct BenchmarkCommands {
    pub primer_command: Vec<String>,
    pub warmup_command: Vec<String>,
    pub benchmark_commands: Vec<Vec<String>>,
}

/// The outcome of verifying one test type: the structured findings the
/// verifier emitted, under the names of the framework, test and type they
/// belong to.
#[derive(Clone, Debug)]
pub struct Verification {
    pub framework_name: String,
    pub test_name: String,
    pub test_type_name: String,
    pub warnings: Vec<listener::verifier_listener::Warning>,
    pub errors: Vec<listener::verifier_listener::Error>,
}

impl Verification {
    /// The synthetic record for a test type that could not be verified at
    /// all — the orchestration failed before or during the verifier's run:
    /// one error carrying the failure's text, no warnings, no type name.
    pub fn from_failure(
        framework_name: &str,
        test_name: &str,
        message: &str,
        short_message: &str,
    ) -> (r: Verification)
        ensures
            r.framework_name@ == framework_name@,
            r.test_name@ == test_name@,
            r.test_type_name@.len() == 0,
            r.warnings_view() =~= Seq::<(Seq<char>, Seq<char>)>::empty(),
            r.errors_view() =~= seq![(message@, short_message@)],
    {
        Verification {
            framework_name: String::from_str(framework_name),
            test_name: String::from_str(test_name),
            test_type_name: String::new(),
            warnings: Vec::new(),
            errors: vec![
                listener::verifier_listener::Error {
                    message: String::from_str(message),
                    short_message: String::from_str(short_message),
                },
            ],
        }
    }

    /// The warnings as message pairs.
    pub open spec fn warnings_view(self) -> Seq<(Seq<char>, Seq<char>)> {
        self.warnings@.map_values(
            |w: listener::verifier_listener::Warning| (w.message@, w.short_message@),
        )
    }

    /// The errors as message pairs.
    pub open spec fn errors_view(self) -> Seq<(Seq<char>, Seq<char>)> {
        self.errors@.map_values(
            |e: listener::verifier_listener::Error| (e.message@, e.short_message@),
        )
    }
}

/// Per-role handle shared between the orchestration engine and the shutdown
/// path. The two-field invariant: registration sets `{container_id: Some,
/// requires_wait_to_stop: true}` atomically; natural exit unregisters, making
/// any later teardown a no-op.
#[derive(Clone, Debug)]
pub struct DockerContainerIdFuture {
    pub requires_wait_to_stop: bool,
    pub container_id: Option<String>,
    pub image_id: Option<String>,
    pub docker_host: String,
}

/// The tracker as a mathematical value.
pub struct TrackerView {
    pub requires_wait_to_stop: bool,
    pub container_id: Option<Seq<char>>,
    pub image_id: Option<Seq<char>>,
    pub docker_host: Seq<char>,
}

impl TrackerView {
    pub open spec fn is_idle(self) -> bool {
        self.container_id is None && !self.requires_wait_to_stop
    }

    /// The two-field invariant every tracker keeps: the needs-stop flag and
    /// the container id are set and cleared together.
    pub open spec fn wf(self) -> bool {
        self.requires_wait_to_stop <==> self.container_id is Some
    }
}

/// Registration, atomically: the id arrives together with the needs-stop
/// flag.
pub open spec fn spec_register(t: TrackerView, id: Seq<char>) -> TrackerView {
    TrackerView { requires_wait_to_stop: true, container_id: Some(id), ..t }
}

/// Natural exit: both fields cleared together.
pub open spec fn spec_unregister(t: TrackerView) -> TrackerView {
    TrackerView { requires_wait_to_stop: false, container_id: None, ..t }
}

/// The drain step, once the tracker polls ready: a tracker that needs
/// stopping hands its container out to be killed and is reset; any other is
/// left alone and nothing is killed.
pub open spec fn spec_drain(t: TrackerView) -> (TrackerView, Option<Seq<char>>) {
    if t.requires_wait_to_stop {
        (spec_unregister(t), t.container_id)
    } else {
        (t, None)
    }
}

/// Teardown kills a registered container exactly once: draining a tracker
/// hands out precisely what was registered, leaves the tracker idle, and a
/// second drain hands out nothing.
pub proof fn lemma_drain_kills_once(t: TrackerView, id: Seq<char>)
    ensures
        spec_drain(spec_register(t, id)).1 == Some(id),
        spec_drain(spec_register(t, id)).0.is_idle(),
        spec_drain(spec_drain(spec_register(t, id)).0).1 is None,
{
}

/// Unregister makes teardown a no-op: a tracker whose container exited
/// naturally hands nothing out and is left as it is.
pub proof fn lemma_drain_after_unregister(t: TrackerView)
    ensures
        spec_drain(spec_unregister(t)).1 is None,
        spec_drain(spec_unregister(t)).0 == spec_unregister(t),
{
}

/// Upon teardown's return nothing stays registered: a well-formed tracker
/// is idle after its drain, and what the drain handed out to be killed is
/// exactly what was registered.
pub proof fn lemma_drain_leaves_idle(t: TrackerView)
    requires
        t.wf(),
    ensures
        spec_drain(t).0.is_idle(),
        spec_drain(t).0.wf(),
        spec_drain(t).1 == t.container_id,
{
}

/// Upon return from running a test, no container started on its behalf
/// remains registered on any of the three Docker hosts: draining the four
/// role trackers — load generator, verifier, application, database — hands
/// out exactly the containers that were still registered, to be killed on
/// their own hosts, and leaves every tracker idle.
pub proof fn lemma_teardown_clears_all(
    loadgen: TrackerView,
    verifier: TrackerView,
    application: TrackerView,
    database: TrackerView,
)
    requires
        loadgen.wf(),
        verifier.wf(),
        application.wf(),
        database.wf(),
    ensures
        spec_drain(loadgen).0.is_idle() && spec_drain(loadgen).1 == loadgen.container_id,
        spec_drain(verifier).0.is_idle() && spec_drain(verifier).1 == verifier.container_id,
        spec_drain(application).0.is_idle() && spec_drain(application).1
            == application.container_id,
        spec_drain(database).0.is_idle() && spec_drain(database).1 == database.container_id,
{
    lemma_drain_leaves_idle(loadgen);
    lemma_drain_leaves_idle(verifier);
    lemma_drain_leaves_idle(application);
    lemma_drain_leaves_idle(database);
}

impl View for DockerContainerIdFuture {
    type V = TrackerView;

    open spec fn view(&self) -> TrackerView {
        TrackerView {
            requires_wait_to_stop: self.requires_wait_to_stop,
            container_id: self.container_id.deep_view(),
            image_id: self.image_id.deep_view(),
            docker_host: self.docker_host@,
        }
    }
}

impl DockerContainerIdFuture {
    /// The terminal state: nothing to stop, nothing registered.
    pub open spec fn is_idle(self) -> bool {
        self.container_id is None && !self.requires_wait_to_stop
    }

    /// What `poll` reports `Ready` for: either nothing needs stopping, or the
    /// promised container id has arrived.
    pub open spec fn spec_ready(self) -> bool {
        !self.requires_wait_to_stop || self.container_id is Some
    }

    /// The registered container id, as a mathematical value.
    pub open spec fn cid(self) -> Option<Seq<char>> {
        self.container_id.deep_view()
    }

    /// The two-field invariant, on the concrete tracker.
    pub open spec fn wf(self) -> bool {
        self@.wf()
    }

    pub fn new(docker_host: &str) -> (r: Self)
        ensures
            r.is_idle(),
            r.image_id is None,
            r.docker_host@ == docker_host@,
    {
        DockerContainerIdFuture {
            requires_wait_to_stop: false,
            container_id: None,
            image_id: None,
            docker_host: String::from_str(docker_host),
        }
    }

    pub fn image_id(&mut self, image_id: &str)
        ensures
            final(self).image_id.deep_view() == Some(image_id@),
            final(self).container_id == old(self).container_id,
            final(self).requires_wait_to_stop == old(self).requires_wait_to_stop,
            final(self).docker_host == old(self).docker_host,
    {
        self.image_id = Some(String::from_str(image_id));
    }

    /// Registration is atomic: the id and the needs-stop flag change together.
    pub fn register(&mut self, container_id: &str)
        ensures
            final(self)@ == spec_register(old(self)@, container_id@),
            final(self).requires_wait_to_stop,
            final(self).cid() == Some(container_id@),
            final(self).image_id == old(self).image_id,
            final(self).docker_host == old(self).docker_host,
    {
        self.requires_wait_to_stop = true;
        self.container_id = Some(String::from_str(container_id));
    }

    /// Natural exit: clears the id and the needs-stop flag together, so a
    /// later teardown has nothing to do.
    pub fn unregister(&mut self)
        ensures
            final(self)@ == spec_unregister(old(self)@),
            final(self).is_idle(),
            final(self).image_id == old(self).image_id,
            final(self).docker_host == old(self).docker_host,
    {
        self.requires_wait_to_stop = false;
        self.container_id = None;
    }

    /// `Ready` iff teardown may proceed. `Pending` exactly in the race window
    /// between "a container was requested" and "its id has been recorded".
    pub fn poll(&self) -> (r: PollStatus)
        ensures
            r == PollStatus::Ready <==> self.spec_ready(),
    {
        if self.requires_wait_to_stop {
            if self.container_id.is_some() {
                PollStatus::Ready
            } else {
                PollStatus::Pending
            }
        } else {
            PollStatus::Ready
        }
    }
}

} // verus!
