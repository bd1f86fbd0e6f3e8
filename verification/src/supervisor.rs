//! The launch supervisor: from the search for a runtime to the exit code that
//! the launcher hands back to the operating system.
//!
//! The supervisor starts no process and reads nothing. At every step it names
//! the one thing to be done next (an [`Action`]) and takes in what came of it
//! (an [`Event`]). Whoever drives it carries the actions out, in a loop that
//! ends with [`Action::Exit`] or [`Action::Fail`].
//!
//! ```text
//! Discovering -> Validating -> Ready -> Launched -> Terminated
//!                                        |    ^
//!                                        v    |
//!                                      Relaunching
//!
//! Discovering, Validating, Ready, Launched, Relaunching -> ErrorTerminated
//! ```
//!
//! A launch is `Ready` once its runtime is validated, and `Launched` once the
//! application has started. An application that ends its first run with
//! [`REBOOT_EXIT`] is launched once more; whatever it ends its second run
//! with is final.

use crate::locator::advanced;
use crate::locator::Finding;
use crate::locator::FindingView;
use crate::locator::Locator;
use crate::locator::LocatorView;
use crate::locator::Probe;
use crate::platform::class_path;
use crate::platform::class_path_of;
use crate::platform::executable_of;
use crate::platform::java_executable;
use crate::platform::joined;
use crate::platform::LaunchArguments;
use crate::platform::Platform;
use crate::platform::CLASS_PATH_OPTION;
use crate::platform::MAIN_CLASS;
use crate::platform::VERSION_OPTION;
use crate::version::scan_version;
use crate::version::unread_of;
use crate::version::version_of;
use vstd::prelude::*;

verus! {

/// The exit code by which the application asks to be launched once more.
pub const REBOOT_EXIT: i32 = 100;

/// The exit code of the launcher after it has reported a failure.
pub const FAILURE_EXIT: i32 = 1;

/// The title of the dialog that reports a failure.
pub const ERROR_TITLE: &'static str = "Error";

/// What the user is told when no runtime was found.
pub const NOT_FOUND_MESSAGE: &'static str =
    "Unable to locate a valid Java installation.\n\nPlease check your configuration or download a JVM from https://adoptopenjdk.net.";

/// What the user is told when the runtime that was found is too old.
pub const TOO_OLD_MESSAGE: &'static str =
    "Your Java installation is too old or misconfigured.\n\nPlease download a JVM from https://adoptopenjdk.net.";

/// What is said when the runtime could not be started to ask for its version.
pub const PROBE_FAILED_MESSAGE: &'static str = "failed to execute command";

/// What is said when the application could not be started, or was killed.
pub const LAUNCH_FAILED_MESSAGE: &'static str = "command failed to start";

/// How an attempt to run the application ended.
#[derive(Clone, Copy, Debug, PartialEq, Eq, Structural)]
pub enum ExitOutcome {
    /// The application ran and exited with this code.
    Code(i32),
    /// The application could not be started, or it ran and was killed by a
    /// signal.
    Abnormal,
}

/// Why a launch failed.
#[derive(Clone, Copy, Debug, PartialEq, Eq, Structural)]
pub enum LaunchError {
    /// No strategy produced a runtime.
    RuntimeNotFound,
    /// A runtime was found, but its version is below the minimum, or what it
    /// printed holds no version.
    RuntimeTooOld,
    /// The runtime could not be started to ask for its version.
    VersionProbeSpawnFailure,
    /// The application could not be started, or was killed.
    LaunchSpawnFailure,
}

impl LaunchError {
    /// Whether the failure is one to tell the user about in a dialog. The
    /// others are faults of the machine, and end the launcher at once.
    pub open spec fn is_reported_to_user(self) -> bool {
        self == LaunchError::RuntimeNotFound || self == LaunchError::RuntimeTooOld
    }

    /// The words that go with the failure.
    pub open spec fn message_of(self) -> Seq<char> {
        match self {
            LaunchError::RuntimeNotFound => NOT_FOUND_MESSAGE@,
            LaunchError::RuntimeTooOld => TOO_OLD_MESSAGE@,
            LaunchError::VersionProbeSpawnFailure => PROBE_FAILED_MESSAGE@,
            LaunchError::LaunchSpawnFailure => LAUNCH_FAILED_MESSAGE@,
        }
    }

    /// Whether the failure is one to tell the user about in a dialog.
    pub fn reported_to_user(self) -> (b: bool)
        ensures
            b == self.is_reported_to_user(),
    {
        match self {
            LaunchError::RuntimeNotFound => true,
            LaunchError::RuntimeTooOld => true,
            LaunchError::VersionProbeSpawnFailure => false,
            LaunchError::LaunchSpawnFailure => false,
        }
    }

    /// The words that go with the failure.
    pub fn message(self) -> (text: &'static str)
        ensures
            text@ == self.message_of(),
    {
        match self {
            LaunchError::RuntimeNotFound => NOT_FOUND_MESSAGE,
            LaunchError::RuntimeTooOld => TOO_OLD_MESSAGE,
            LaunchError::VersionProbeSpawnFailure => PROBE_FAILED_MESSAGE,
            LaunchError::LaunchSpawnFailure => LAUNCH_FAILED_MESSAGE,
        }
    }
}

/// What a [`Command`] stands for.
pub struct CommandView {
    pub program: Seq<char>,
    pub arguments: Seq<Seq<char>>,
}

/// A program to run, and the arguments to run it with.
#[derive(Debug, PartialEq, Eq)]
pub struct Command {
    pub program: String,
    pub arguments: Vec<String>,
}

impl View for Command {
    type V = CommandView;

    open spec fn view(&self) -> CommandView {
        CommandView { program: self.program@, arguments: self.arguments.deep_view() }
    }
}

/// What a [`Runtime`] stands for.
pub struct RuntimeView {
    pub home: Seq<char>,
    pub executable: Seq<char>,
}

/// The runtime that a launch has settled on: its home directory, and the path
/// of its executable, which is worked out once and kept.
#[derive(Debug, PartialEq, Eq)]
pub struct Runtime {
    pub home: String,
    pub executable: String,
}

impl View for Runtime {
    type V = RuntimeView;

    open spec fn view(&self) -> RuntimeView {
        RuntimeView { home: self.home@, executable: self.executable@ }
    }
}

/// The runtime at `home`.
pub open spec fn runtime_at(platform: Platform, home: Seq<char>) -> RuntimeView {
    RuntimeView { home, executable: executable_of(home, platform) }
}

/// What an [`Event`] stands for.
pub enum EventView {
    Found(FindingView),
    VersionOutput(Option<Seq<char>>),
    Started,
    Exited(ExitOutcome),
}

/// What came of the action that the supervisor named last.
#[derive(Debug, PartialEq, Eq)]
pub enum Event {
    /// The answer to a probe of the search for a runtime.
    Found(Finding),
    /// What the runtime printed when asked for its version; `None` if it could
    /// not be started.
    VersionOutput(Option<String>),
    /// The application has started.
    Started,
    /// How the attempt to run the application ended.
    Exited(ExitOutcome),
}

impl View for Event {
    type V = EventView;

    open spec fn view(&self) -> EventView {
        match self {
            Event::Found(finding) => EventView::Found(finding@),
            Event::VersionOutput(text) => EventView::VersionOutput(text.deep_view()),
            Event::Started => EventView::Started,
            Event::Exited(outcome) => EventView::Exited(*outcome),
        }
    }
}

/// What an [`Action`] stands for.
pub enum ActionView {
    Ask(Probe),
    QueryVersion(CommandView),
    Launch(CommandView),
    AwaitExit,
    Exit(i32),
    Fail { error: LaunchError, unread: Option<Seq<char>> },
    Ignore,
}

/// The one thing to be done next.
#[derive(Debug, PartialEq, Eq)]
pub enum Action {
    /// Find out what the search for a runtime needs to know, and answer with
    /// [`Event::Found`].
    Ask(Probe),
    /// Run the command, capture what it prints, wait for it to end, and answer
    /// with [`Event::VersionOutput`].
    QueryVersion(Command),
    /// Start the command with the launcher's own input and output. Answer with
    /// [`Event::Started`], or with an abnormal [`Event::Exited`] if it does not
    /// start.
    Launch(Command),
    /// Wait for the application to end, and answer with [`Event::Exited`].
    AwaitExit,
    /// End the launcher with this exit code.
    Exit(i32),
    /// Report the failure and end the launcher abnormally. `unread` is the
    /// text that was taken for the runtime's version and did not read as a
    /// number, if that is what happened.
    Fail { error: LaunchError, unread: Option<String> },
    /// Nothing: the event was not the one awaited.
    Ignore,
}

impl View for Action {
    type V = ActionView;

    open spec fn view(&self) -> ActionView {
        match self {
            Action::Ask(probe) => ActionView::Ask(*probe),
            Action::QueryVersion(command) => ActionView::QueryVersion(command@),
            Action::Launch(command) => ActionView::Launch(command@),
            Action::AwaitExit => ActionView::AwaitExit,
            Action::Exit(code) => ActionView::Exit(*code),
            Action::Fail { error, unread } => ActionView::Fail {
                error: *error,
                unread: unread.deep_view(),
            },
            Action::Ignore => ActionView::Ignore,
        }
    }
}

/// What a [`Stage`] stands for.
pub enum StageView {
    Discovering(LocatorView),
    Validating { runtime: RuntimeView },
    Ready { runtime: RuntimeView },
    Launched { runtime: RuntimeView, relaunched: bool },
    Relaunching { runtime: RuntimeView },
    Terminated { code: i32 },
    ErrorTerminated { error: LaunchError },
}

/// How far a launch has come.
#[derive(Debug, PartialEq, Eq)]
pub enum Stage {
    /// A runtime is being searched for.
    Discovering(Locator),
    /// The runtime is being asked for its version.
    Validating { runtime: Runtime },
    /// The runtime is recent enough, and the application is being started on
    /// it.
    Ready { runtime: Runtime },
    /// The application has started and runs: for the second time, if
    /// `relaunched`.
    Launched { runtime: Runtime, relaunched: bool },
    /// The application has asked to be launched once more, and is being
    /// started again.
    Relaunching { runtime: Runtime },
    /// The application has ended, and the launcher ends with its exit code.
    Terminated { code: i32 },
    /// The launch has failed.
    ErrorTerminated { error: LaunchError },
}

impl View for Stage {
    type V = StageView;

    open spec fn view(&self) -> StageView {
        match self {
            Stage::Discovering(locator) => StageView::Discovering(locator@),
            Stage::Validating { runtime } => StageView::Validating { runtime: runtime@ },
            Stage::Ready { runtime } => StageView::Ready { runtime: runtime@ },
            Stage::Launched { runtime, relaunched } => StageView::Launched {
                runtime: runtime@,
                relaunched: *relaunched,
            },
            Stage::Relaunching { runtime } => StageView::Relaunching { runtime: runtime@ },
            Stage::Terminated { code } => StageView::Terminated { code: *code },
            Stage::ErrorTerminated { error } => StageView::ErrorTerminated { error: *error },
        }
    }
}

/// What a [`Supervisor`] stands for.
pub struct SupervisorView {
    pub platform: Platform,
    pub install_dir: Seq<char>,
    pub arguments: Seq<Seq<char>>,
    pub stage: StageView,
}

/// A launch in progress: what was fixed when the launcher started, and how
/// far the launch has come.
#[derive(Debug, PartialEq, Eq)]
pub struct Supervisor {
    pub platform: Platform,
    /// The directory that the launcher is installed into.
    pub install_dir: String,
    pub arguments: LaunchArguments,
    pub stage: Stage,
}

impl View for Supervisor {
    type V = SupervisorView;

    open spec fn view(&self) -> SupervisorView {
        SupervisorView {
            platform: self.platform,
            install_dir: self.install_dir@,
            arguments: self.arguments@,
            stage: self.stage@,
        }
    }
}

/// The command that asks a runtime for its version.
pub open spec fn version_command_of(executable: Seq<char>) -> CommandView {
    CommandView { program: executable, arguments: seq![VERSION_OPTION@] }
}

/// The command that launches the application on a runtime: the class path,
/// the entry point, and the launcher's arguments as one text.
pub open spec fn launch_command_of(
    platform: Platform,
    install_dir: Seq<char>,
    arguments: Seq<Seq<char>>,
    executable: Seq<char>,
) -> CommandView {
    CommandView {
        program: executable,
        arguments: seq![
            CLASS_PATH_OPTION@,
            class_path_of(install_dir, platform),
            MAIN_CLASS@,
            joined(arguments),
        ],
    }
}

impl SupervisorView {
    /// The same launch at another stage.
    pub open spec fn at(self, stage: StageView) -> SupervisorView {
        SupervisorView { stage, ..self }
    }

    /// The command that launches the application on a runtime.
    pub open spec fn launch_command(self, runtime: RuntimeView) -> CommandView {
        launch_command_of(self.platform, self.install_dir, self.arguments, runtime.executable)
    }

    /// The launch has failed.
    pub open spec fn failed(self, error: LaunchError, unread: Option<Seq<char>>) -> (
        SupervisorView,
        ActionView,
    ) {
        (self.at(StageView::ErrorTerminated { error }), ActionView::Fail { error, unread })
    }

    /// What follows once the search for a runtime has moved on: the search
    /// asks on, or it has ended with a runtime, which is asked for its
    /// version, or it has ended without one, which fails the launch.
    pub open spec fn discovered(self, locator: LocatorView) -> (SupervisorView, ActionView) {
        match locator {
            LocatorView::Asking(probe) => (
                self.at(StageView::Discovering(locator)),
                ActionView::Ask(probe),
            ),
            LocatorView::Found(candidate) => {
                let runtime = runtime_at(self.platform, candidate.home);
                (
                    self.at(StageView::Validating { runtime }),
                    ActionView::QueryVersion(version_command_of(runtime.executable)),
                )
            },
            LocatorView::NotFound => self.failed(LaunchError::RuntimeNotFound, None),
        }
    }

    /// What follows once the runtime has answered: if what it printed holds a
    /// version that meets the minimum, the launch is ready and the
    /// application is started. If not, or if the runtime did not start, the
    /// launch fails.
    pub open spec fn validated(self, runtime: RuntimeView, output: Option<Seq<char>>) -> (
        SupervisorView,
        ActionView,
    ) {
        match output {
            None => self.failed(LaunchError::VersionProbeSpawnFailure, None),
            Some(text) => if version_of(text).meets_minimum() {
                (
                    self.at(StageView::Ready { runtime }),
                    ActionView::Launch(self.launch_command(runtime)),
                )
            } else {
                self.failed(LaunchError::RuntimeTooOld, unread_of(text))
            },
        }
    }

    /// What follows once the application has ended a run with an exit code:
    /// the code becomes the launcher's, except that [`REBOOT_EXIT`] at the end
    /// of the first run has the application started once more.
    pub open spec fn exited(self, runtime: RuntimeView, relaunched: bool, code: i32) -> (
        SupervisorView,
        ActionView,
    ) {
        if code == REBOOT_EXIT && !relaunched {
            (
                self.at(StageView::Relaunching { runtime }),
                ActionView::Launch(self.launch_command(runtime)),
            )
        } else {
            (self.at(StageView::Terminated { code }), ActionView::Exit(code))
        }
    }

    /// The state and the action that follow on an event.
    ///
    /// * While a runtime is searched for, a finding moves the search on.
    /// * While the runtime is asked for its version, what it printed decides.
    /// * While the application is being started, its start is awaited. Once
    ///   it has started, its end is.
    /// * While the application runs, its end decides.
    /// * An application that could not be started, or was killed, fails the
    ///   launch at once: it is not started again.
    /// * An event that is not awaited changes nothing.
    pub open spec fn step(self, event: EventView) -> (SupervisorView, ActionView) {
        match (self.stage, event) {
            (StageView::Discovering(locator), EventView::Found(finding)) => self.discovered(
                advanced(locator, self.platform, finding),
            ),
            (StageView::Validating { runtime }, EventView::VersionOutput(output)) => {
                self.validated(runtime, output)
            },
            (StageView::Ready { runtime }, EventView::Started) => (
                self.at(StageView::Launched { runtime, relaunched: false }),
                ActionView::AwaitExit,
            ),
            (StageView::Relaunching { runtime }, EventView::Started) => (
                self.at(StageView::Launched { runtime, relaunched: true }),
                ActionView::AwaitExit,
            ),
            (
                StageView::Launched { runtime, relaunched },
                EventView::Exited(ExitOutcome::Code(code)),
            ) => self.exited(runtime, relaunched, code),
            (StageView::Ready { .. }, EventView::Exited(ExitOutcome::Abnormal)) => self.failed(
                LaunchError::LaunchSpawnFailure,
                None,
            ),
            (StageView::Relaunching { .. }, EventView::Exited(ExitOutcome::Abnormal)) => {
                self.failed(LaunchError::LaunchSpawnFailure, None)
            },
            (StageView::Launched { .. }, EventView::Exited(ExitOutcome::Abnormal)) => self.failed(
                LaunchError::LaunchSpawnFailure,
                None,
            ),
            _ => (self, ActionView::Ignore),
        }
    }

    /// The state after a sequence of events, and the actions named on the way.
    pub open spec fn run(self, events: Seq<EventView>) -> (SupervisorView, Seq<ActionView>)
        decreases events.len(),
    {
        if events.len() == 0 {
            (self, Seq::empty())
        } else {
            let (before, actions) = self.run(events.drop_last());
            let (after, action) = before.step(events.last());
            (after, actions.push(action))
        }
    }
}

/// The number of launches among the actions.
pub open spec fn launches(actions: Seq<ActionView>) -> nat
    decreases actions.len(),
{
    if actions.len() == 0 {
        0
    } else if actions.last() is Launch {
        launches(actions.drop_last()) + 1
    } else {
        launches(actions.drop_last())
    }
}

/// The number of launches that a stage still allows.
pub open spec fn launches_left(stage: StageView) -> nat {
    match stage {
        StageView::Discovering(_) => 2,
        StageView::Validating { .. } => 2,
        StageView::Ready { .. } => 1,
        StageView::Launched { relaunched, .. } => if relaunched {
            0
        } else {
            1
        },
        _ => 0,
    }
}

/// How far a stage is on the way from the search to the end.
pub open spec fn progress(stage: StageView) -> nat {
    match stage {
        StageView::Discovering(_) => 0,
        StageView::Validating { .. } => 1,
        StageView::Ready { .. } => 2,
        StageView::Launched { relaunched, .. } => if relaunched {
            5
        } else {
            3
        },
        StageView::Relaunching { .. } => 4,
        StageView::Terminated { .. } => 6,
        StageView::ErrorTerminated { .. } => 6,
    }
}

/// Whatever happens, the application is launched at most twice: once, and once
/// more if it asks for it. However often it asks, and whatever else comes in,
/// there is no third launch.
pub proof fn lemma_relaunch_bound(state: SupervisorView, events: Seq<EventView>)
    ensures
        launches(state.run(events).1) + launches_left(state.run(events).0.stage) <= launches_left(
            state.stage,
        ),
        launches(state.run(events).1) <= 2,
    decreases events.len(),
{
    if events.len() > 0 {
        lemma_relaunch_bound(state, events.drop_last());
        let (before, actions) = state.run(events.drop_last());
        let (after, action) = before.step(events.last());
        assert(actions.push(action).drop_last() == actions);
    }
}

/// An application that exits with [`REBOOT_EXIT`] every time is launched
/// exactly twice, by the same command: once its runtime is validated, and once
/// more after its first run. The launcher then ends with that code, and
/// nothing that comes in later leads to another launch.
pub proof fn lemma_reboot_every_time(state: SupervisorView, runtime: RuntimeView, output: Seq<char>)
    requires
        state.stage == (StageView::Validating { runtime }),
        version_of(output).meets_minimum(),
    ensures
        ({
            let validated = EventView::VersionOutput(Some(output));
            let again = EventView::Exited(ExitOutcome::Code(REBOOT_EXIT));
            let launch = ActionView::Launch(state.launch_command(runtime));
            let (end, actions) = state.run(
                seq![validated, EventView::Started, again, EventView::Started, again],
            );
            &&& actions == seq![
                launch,
                ActionView::AwaitExit,
                launch,
                ActionView::AwaitExit,
                ActionView::Exit(REBOOT_EXIT),
            ]
            &&& launches(actions) == 2
            &&& end.stage == StageView::Terminated { code: REBOOT_EXIT }
            &&& forall|more: Seq<EventView>| launches(#[trigger] end.run(more).1) == 0
        }),
{
    let validated = EventView::VersionOutput(Some(output));
    let again = EventView::Exited(ExitOutcome::Code(REBOOT_EXIT));
    let launch = ActionView::Launch(state.launch_command(runtime));
    let five = seq![validated, EventView::Started, again, EventView::Started, again];
    let four = seq![validated, EventView::Started, again, EventView::Started];
    let three = seq![validated, EventView::Started, again];
    let two = seq![validated, EventView::Started];
    let one = seq![validated];
    assert(five.drop_last() == four);
    assert(four.drop_last() == three);
    assert(three.drop_last() == two);
    assert(two.drop_last() == one);
    assert(one.drop_last() == Seq::<EventView>::empty());
    reveal_with_fuel(SupervisorView::run, 6);
    let (end, actions) = state.run(five);
    let named = seq![
        launch,
        ActionView::AwaitExit,
        launch,
        ActionView::AwaitExit,
        ActionView::Exit(REBOOT_EXIT),
    ];
    assert(actions == named);
    assert(named.drop_last() == seq![launch, ActionView::AwaitExit, launch, ActionView::AwaitExit]);
    assert(named.drop_last().drop_last() == seq![launch, ActionView::AwaitExit, launch]);
    assert(named.drop_last().drop_last().drop_last() == seq![launch, ActionView::AwaitExit]);
    assert(named.drop_last().drop_last().drop_last().drop_last() == seq![launch]);
    assert(named.drop_last().drop_last().drop_last().drop_last().drop_last() == Seq::<
        ActionView,
    >::empty());
    reveal_with_fuel(launches, 6);
    assert forall|more: Seq<EventView>| launches(#[trigger] end.run(more).1) == 0 by {
        lemma_relaunch_bound(end, more);
    }
}

/// A launch only moves forward, and by the ways that the stages allow: from
/// the search to the validation, from there to being ready, from being ready
/// or relaunching to a run, from the first run to relaunching, and from a run
/// to the end. A failure ends a launch from wherever it is. Nothing but the
/// stage ever changes.
pub proof fn lemma_only_forward(state: SupervisorView, event: EventView)
    ensures
        ({
            let next = state.step(event).0;
            &&& next == state.at(next.stage)
            &&& progress(next.stage) >= progress(state.stage)
            &&& progress(next.stage) == progress(state.stage) ==> state.stage is Discovering
                || next.stage == state.stage
            &&& next.stage is Discovering ==> state.stage is Discovering
            &&& next.stage is Validating ==> state.stage is Discovering || next.stage == state.stage
            &&& next.stage is Ready ==> state.stage is Validating || next.stage == state.stage
            &&& next.stage is Launched ==> state.stage is Ready || state.stage is Relaunching
                || next.stage == state.stage
            &&& next.stage is Relaunching ==> state.stage is Launched || next.stage == state.stage
            &&& next.stage is Terminated ==> state.stage is Launched || next.stage == state.stage
        }),
{
}

/// A launch that has come to its end stays there: no event changes its state,
/// and none leads to an action.
pub proof fn lemma_end_is_final(state: SupervisorView, event: EventView)
    requires
        state.stage is Terminated || state.stage is ErrorTerminated,
    ensures
        state.step(event) == (state, ActionView::Ignore),
{
}

/// The exit code of the application is the exit code of the launcher: of its
/// first run, unless that code is [`REBOOT_EXIT`], and of its second run
/// whatever the code.
pub proof fn lemma_exit_code_is_propagated(
    state: SupervisorView,
    runtime: RuntimeView,
    relaunched: bool,
    code: i32,
)
    requires
        state.stage == (StageView::Launched { runtime, relaunched }),
        relaunched || code != REBOOT_EXIT,
    ensures
        state.step(EventView::Exited(ExitOutcome::Code(code))) == (
            state.at(StageView::Terminated { code }),
            ActionView::Exit(code),
        ),
{
}

/// Settles on the runtime at `home`.
pub fn runtime(platform: Platform, home: String) -> (runtime: Runtime)
    ensures
        runtime@ == runtime_at(platform, home@),
{
    let executable = java_executable(home.as_str(), platform);
    Runtime { home, executable }
}

/// Builds the command that asks a runtime for its version.
pub fn version_command(executable: &str) -> (command: Command)
    ensures
        command@ == version_command_of(executable@),
{
    let mut arguments: Vec<String> = Vec::new();
    arguments.push(String::from_str(VERSION_OPTION));
    proof {
        assert(arguments.deep_view() =~= seq![VERSION_OPTION@]);
    }
    Command { program: String::from_str(executable), arguments }
}

/// Builds the command that launches the application on a runtime.
pub fn launch_command(
    platform: Platform,
    install_dir: &str,
    arguments: &LaunchArguments,
    executable: &str,
) -> (command: Command)
    ensures
        command@ == launch_command_of(platform, install_dir@, arguments@, executable@),
{
    let mut line: Vec<String> = Vec::new();
    line.push(String::from_str(CLASS_PATH_OPTION));
    line.push(class_path(install_dir, platform));
    line.push(String::from_str(MAIN_CLASS));
    line.push(arguments.joined());
    proof {
        assert(line.deep_view() =~= seq![
            CLASS_PATH_OPTION@,
            class_path_of(install_dir@, platform),
            MAIN_CLASS@,
            joined(arguments@),
        ]);
    }
    Command { program: String::from_str(executable), arguments: line }
}

impl Supervisor {
    /// A launch that is about to begin, and its first action: to ask what the
    /// search for a runtime needs to know first.
    pub fn start(platform: Platform, install_dir: String, arguments: LaunchArguments) -> (begun: (
        Supervisor,
        Action,
    ))
        ensures
            begun.0@ == (SupervisorView {
                platform,
                install_dir: install_dir@,
                arguments: arguments@,
                stage: StageView::Discovering(LocatorView::Asking(Probe::OverrideVariable)),
            }),
            begun.1@ == ActionView::Ask(Probe::OverrideVariable),
    {
        (
            Supervisor { platform, install_dir, arguments, stage: Stage::Discovering(Locator::start()) },
            Action::Ask(Probe::OverrideVariable),
        )
    }

    /// Whether the launch has come to its end, in one way or the other.
    pub fn is_over(&self) -> (over: bool)
        ensures
            over == (self@.stage is Terminated || self@.stage is ErrorTerminated),
    {
        match &self.stage {
            Stage::Terminated { .. } => true,
            Stage::ErrorTerminated { .. } => true,
            _ => false,
        }
    }

    /// Takes in an event, and names the action that follows.
    pub fn step(self, event: Event) -> (next: (Supervisor, Action))
        ensures
            (next.0@, next.1@) == self@.step(event@),
    {
        let Supervisor { platform, install_dir, arguments, stage } = self;
        match (stage, event) {
            (Stage::Discovering(locator), Event::Found(finding)) => {
                match locator.advance(platform, finding) {
                    Locator::Asking(probe) => (
                        Supervisor {
                            platform,
                            install_dir,
                            arguments,
                            stage: Stage::Discovering(Locator::Asking(probe)),
                        },
                        Action::Ask(probe),
                    ),
                    Locator::Found(candidate) => {
                        let runtime = runtime(platform, candidate.home);
                        let command = version_command(runtime.executable.as_str());
                        (
                            Supervisor {
                                platform,
                                install_dir,
                                arguments,
                                stage: Stage::Validating { runtime },
                            },
                            Action::QueryVersion(command),
                        )
                    },
                    Locator::NotFound => fail(
                        platform,
                        install_dir,
                        arguments,
                        LaunchError::RuntimeNotFound,
                        None,
                    ),
                }
            },
            (Stage::Validating { runtime }, Event::VersionOutput(output)) => {
                match output {
                    None => fail(
                        platform,
                        install_dir,
                        arguments,
                        LaunchError::VersionProbeSpawnFailure,
                        None,
                    ),
                    Some(text) => {
                        let scan = scan_version(text.as_str());
                        if scan.version.meets_minimum() {
                            let command = launch_command(
                                platform,
                                install_dir.as_str(),
                                &arguments,
                                runtime.executable.as_str(),
                            );
                            (
                                Supervisor {
                                    platform,
                                    install_dir,
                                    arguments,
                                    stage: Stage::Ready { runtime },
                                },
                                Action::Launch(command),
                            )
                        } else {
                            fail(
                                platform,
                                install_dir,
                                arguments,
                                LaunchError::RuntimeTooOld,
                                scan.unread,
                            )
                        }
                    },
                }
            },
            (Stage::Ready { runtime }, Event::Started) => (
                Supervisor {
                    platform,
                    install_dir,
                    arguments,
                    stage: Stage::Launched { runtime, relaunched: false },
                },
                Action::AwaitExit,
            ),
            (Stage::Relaunching { runtime }, Event::Started) => (
                Supervisor {
                    platform,
                    install_dir,
                    arguments,
                    stage: Stage::Launched { runtime, relaunched: true },
                },
                Action::AwaitExit,
            ),
            (Stage::Launched { runtime, relaunched }, Event::Exited(ExitOutcome::Code(code))) => {
                if code == REBOOT_EXIT && !relaunched {
                    let command = launch_command(
                        platform,
                        install_dir.as_str(),
                        &arguments,
                        runtime.executable.as_str(),
                    );
                    (
                        Supervisor {
                            platform,
                            install_dir,
                            arguments,
                            stage: Stage::Relaunching { runtime },
                        },
                        Action::Launch(command),
                    )
                } else {
                    (
                        Supervisor {
                            platform,
                            install_dir,
                            arguments,
                            stage: Stage::Terminated { code },
                        },
                        Action::Exit(code),
                    )
                }
            },
            (Stage::Ready { .. }, Event::Exited(ExitOutcome::Abnormal)) => fail(
                platform,
                install_dir,
                arguments,
                LaunchError::LaunchSpawnFailure,
                None,
            ),
            (Stage::Relaunching { .. }, Event::Exited(ExitOutcome::Abnormal)) => fail(
                platform,
                install_dir,
                arguments,
                LaunchError::LaunchSpawnFailure,
                None,
            ),
            (Stage::Launched { .. }, Event::Exited(ExitOutcome::Abnormal)) => fail(
                platform,
                install_dir,
                arguments,
                LaunchError::LaunchSpawnFailure,
                None,
            ),
            (stage, _) => (Supervisor { platform, install_dir, arguments, stage }, Action::Ignore),
        }
    }
}

/// The launch has failed.
fn fail(
    platform: Platform,
    install_dir: String,
    arguments: LaunchArguments,
    error: LaunchError,
    unread: Option<String>,
) -> (next: (Supervisor, Action))
    ensures
        next.0@ == (SupervisorView {
            platform,
            install_dir: install_dir@,
            arguments: arguments@,
            stage: StageView::ErrorTerminated { error },
        }),
        next.1@ == (ActionView::Fail { error, unread: unread.deep_view() }),
{
    (
        Supervisor { platform, install_dir, arguments, stage: Stage::ErrorTerminated { error } },
        Action::Fail { error, unread },
    )
}

} // verus!
