//! Finding the home directory of a usable runtime.
//!
//! Three strategies are tried in a fixed order, and the first that yields a
//! directory decides:
//!
//! 1. the override variable of the environment, if it is set and not empty;
//! 2. on a platform that keeps one, the registry of installed runtimes;
//! 3. a search of the places where runtimes are usually installed.
//!
//! The locator looks nothing up itself. It says what it needs to know next (a
//! [`Probe`]), is told what was found (a [`Finding`]), and moves on. Nothing
//! is looked up that an earlier strategy has made needless.

use crate::platform::Platform;
use crate::reader::read_decimal;
use crate::reader::reading;
use crate::version::MINIMUM_DECIMALS;
use crate::version::MINIMUM_SCALED;
use vstd::prelude::*;

verus! {

/// The variable of the environment that overrides every search.
pub const OVERRIDE_VARIABLE: &'static str = "JAVA_HOME";

/// The key under which the registry keeps its entries for runtimes.
pub const REGISTRY_KEY: &'static str = "SOFTWARE\\JavaSoft\\JDK";

/// The value of that key which holds the current version.
pub const REGISTRY_VERSION_VALUE: &'static str = "CurrentVersion";

/// The value of a runtime's entry which holds its home directory.
pub const REGISTRY_HOME_VALUE: &'static str = "JavaHome";

/// The strategy that produced a candidate.
#[derive(Clone, Copy, Debug, PartialEq, Eq, Structural)]
pub enum Strategy {
    Override,
    Registry,
    Fallback,
}

/// What a [`RuntimeCandidate`] stands for.
pub struct RuntimeCandidateView {
    pub home: Seq<char>,
    pub strategy: Strategy,
}

/// A directory believed to be the home of a runtime, and the strategy that
/// produced it.
#[derive(Debug, PartialEq, Eq)]
pub struct RuntimeCandidate {
    pub home: String,
    pub strategy: Strategy,
}

impl View for RuntimeCandidate {
    type V = RuntimeCandidateView;

    open spec fn view(&self) -> RuntimeCandidateView {
        RuntimeCandidateView { home: self.home@, strategy: self.strategy }
    }
}

/// What the locator needs to know next.
#[derive(Clone, Copy, Debug, PartialEq, Eq, Structural)]
pub enum Probe {
    /// The value of the override variable.
    OverrideVariable,
    /// The version that the registry records as the current one.
    RegistryVersion,
    /// The home directory recorded for each runtime in the registry, in the
    /// registry's order. What follows the first home that is recorded is of
    /// no account, and may be left out of the answer.
    RegistryHomes,
    /// The result of searching the usual places.
    Fallback,
}

/// What a [`Finding`] stands for.
pub enum FindingView {
    OverrideVariable(Option<Seq<char>>),
    RegistryVersion(Option<Seq<char>>),
    RegistryHomes(Seq<Option<Seq<char>>>),
    Fallback(Option<Seq<char>>),
}

/// The answer to a [`Probe`].
#[derive(Debug, PartialEq, Eq)]
pub enum Finding {
    /// The variable's value; `None` if it is not set.
    OverrideVariable(Option<String>),
    /// The recorded version; `None` if the registry has no entry for runtimes.
    RegistryVersion(Option<String>),
    /// For each recorded runtime its home directory; `None` for one that
    /// records none.
    RegistryHomes(Vec<Option<String>>),
    /// The directory that the search came up with, if any.
    Fallback(Option<String>),
}

impl View for Finding {
    type V = FindingView;

    open spec fn view(&self) -> FindingView {
        match self {
            Finding::OverrideVariable(value) => FindingView::OverrideVariable(value.deep_view()),
            Finding::RegistryVersion(text) => FindingView::RegistryVersion(text.deep_view()),
            Finding::RegistryHomes(homes) => FindingView::RegistryHomes(homes.deep_view()),
            Finding::Fallback(home) => FindingView::Fallback(home.deep_view()),
        }
    }
}

/// What a [`Locator`] stands for.
pub enum LocatorView {
    Asking(Probe),
    Found(RuntimeCandidateView),
    NotFound,
}

/// The state of a search for a runtime.
#[derive(Debug, PartialEq, Eq)]
pub enum Locator {
    /// The search goes on, and needs the answer to this probe.
    Asking(Probe),
    /// The search has ended with a candidate.
    Found(RuntimeCandidate),
    /// The search has ended without one.
    NotFound,
}

impl View for Locator {
    type V = LocatorView;

    open spec fn view(&self) -> LocatorView {
        match self {
            Locator::Asking(probe) => LocatorView::Asking(*probe),
            Locator::Found(candidate) => LocatorView::Found(candidate@),
            Locator::NotFound => LocatorView::NotFound,
        }
    }
}

/// The text without its last character, if it has one.
pub open spec fn without_last(s: Seq<char>) -> Seq<char> {
    if s.len() > 0 {
        s.drop_last()
    } else {
        s
    }
}

/// The first home directory that is recorded.
pub open spec fn first_recorded(homes: Seq<Option<Seq<char>>>) -> Option<Seq<char>>
    decreases homes.len(),
{
    if homes.len() == 0 {
        None
    } else if homes[0] is Some {
        homes[0]
    } else {
        first_recorded(homes.drop_first())
    }
}

/// The strategy that follows the override variable.
pub open spec fn after_override(platform: Platform) -> Probe {
    if platform.has_registry() {
        Probe::RegistryVersion
    } else {
        Probe::Fallback
    }
}

/// Where the search stands once the override variable is known: its value
/// is the runtime's home, unless it is not set or empty.
pub open spec fn from_override(platform: Platform, value: Option<Seq<char>>) -> LocatorView {
    match value {
        Some(home) if home.len() > 0 => LocatorView::Found(
            RuntimeCandidateView { home, strategy: Strategy::Override },
        ),
        _ => LocatorView::Asking(after_override(platform)),
    }
}

/// Where the search stands once the registry's current version is known.
///
/// Without an entry for runtimes the registry has nothing to say. A version
/// that meets the minimum sends the search on to the recorded homes, one below
/// it to the fallback. A version that does not read as a number ends the
/// search with the empty path as its candidate: the registry is taken at its
/// word that a runtime is there, though nothing is known of where.
pub open spec fn from_registry_version(text: Option<Seq<char>>) -> LocatorView {
    match text {
        None => LocatorView::Asking(Probe::Fallback),
        Some(text) => match reading(text) {
            None => LocatorView::Found(
                RuntimeCandidateView { home: Seq::empty(), strategy: Strategy::Registry },
            ),
            Some(version) => if version.at_least(MINIMUM_SCALED as nat, MINIMUM_DECIMALS as nat) {
                LocatorView::Asking(Probe::RegistryHomes)
            } else {
                LocatorView::Asking(Probe::Fallback)
            },
        },
    }
}

/// Where the search stands once the recorded homes are known: the first of
/// them is the runtime's home, less the separator that ends it.
pub open spec fn from_registry_homes(homes: Seq<Option<Seq<char>>>) -> LocatorView {
    match first_recorded(homes) {
        Some(home) => LocatorView::Found(
            RuntimeCandidateView { home: without_last(home), strategy: Strategy::Registry },
        ),
        None => LocatorView::Asking(Probe::Fallback),
    }
}

/// Where the search stands once the fallback has answered.
pub open spec fn from_fallback(home: Option<Seq<char>>) -> LocatorView {
    match home {
        Some(home) => LocatorView::Found(
            RuntimeCandidateView { home, strategy: Strategy::Fallback },
        ),
        None => LocatorView::NotFound,
    }
}

/// The state that follows `state` on `finding`. A finding that does not answer
/// the probe that `state` asks changes nothing.
pub open spec fn advanced(state: LocatorView, platform: Platform, finding: FindingView) -> LocatorView {
    match (state, finding) {
        (LocatorView::Asking(Probe::OverrideVariable), FindingView::OverrideVariable(value)) => {
            from_override(platform, value)
        },
        (LocatorView::Asking(Probe::RegistryVersion), FindingView::RegistryVersion(text)) => {
            from_registry_version(text)
        },
        (LocatorView::Asking(Probe::RegistryHomes), FindingView::RegistryHomes(homes)) => {
            from_registry_homes(homes)
        },
        (LocatorView::Asking(Probe::Fallback), FindingView::Fallback(home)) => from_fallback(home),
        _ => state,
    }
}

/// Everything that the three strategies could find out, whether or not a
/// search comes to ask for it.
pub struct Surroundings {
    pub override_variable: Option<Seq<char>>,
    pub registry_version: Option<Seq<char>>,
    pub registry_homes: Seq<Option<Seq<char>>>,
    pub fallback: Option<Seq<char>>,
}

impl Surroundings {
    /// The answer to a probe.
    pub open spec fn answer(self, probe: Probe) -> FindingView {
        match probe {
            Probe::OverrideVariable => FindingView::OverrideVariable(self.override_variable),
            Probe::RegistryVersion => FindingView::RegistryVersion(self.registry_version),
            Probe::RegistryHomes => FindingView::RegistryHomes(self.registry_homes),
            Probe::Fallback => FindingView::Fallback(self.fallback),
        }
    }

    /// The candidate that the override variable yields.
    pub open spec fn override_candidate(self) -> Option<RuntimeCandidateView> {
        match self.override_variable {
            Some(home) if home.len() > 0 => Some(
                RuntimeCandidateView { home, strategy: Strategy::Override },
            ),
            _ => None,
        }
    }

    /// The candidate that the registry yields.
    pub open spec fn registry_candidate(self) -> Option<RuntimeCandidateView> {
        match self.registry_version {
            None => None,
            Some(text) => match reading(text) {
                None => Some(
                    RuntimeCandidateView { home: Seq::empty(), strategy: Strategy::Registry },
                ),
                Some(version) => match first_recorded(self.registry_homes) {
                    Some(home) if version.at_least(
                        MINIMUM_SCALED as nat,
                        MINIMUM_DECIMALS as nat,
                    ) => Some(
                        RuntimeCandidateView {
                            home: without_last(home),
                            strategy: Strategy::Registry,
                        },
                    ),
                    _ => None,
                },
            },
        }
    }

    /// The candidate that the fallback yields.
    pub open spec fn fallback_candidate(self) -> Option<RuntimeCandidateView> {
        match self.fallback {
            Some(home) => Some(RuntimeCandidateView { home, strategy: Strategy::Fallback }),
            None => None,
        }
    }

    /// The candidate that a search in these surroundings ends with: that of
    /// the first strategy, in the order of priority, which yields one.
    pub open spec fn located(self, platform: Platform) -> Option<RuntimeCandidateView> {
        if self.override_candidate() is Some {
            self.override_candidate()
        } else if platform.has_registry() && self.registry_candidate() is Some {
            self.registry_candidate()
        } else {
            self.fallback_candidate()
        }
    }

    /// The state that a search reaches from `state` in these surroundings in
    /// at most `steps` steps.
    pub open spec fn search(self, state: LocatorView, platform: Platform, steps: nat) -> LocatorView
        decreases steps,
    {
        match state {
            LocatorView::Asking(probe) if steps > 0 => self.search(
                advanced(state, platform, self.answer(probe)),
                platform,
                (steps - 1) as nat,
            ),
            _ => state,
        }
    }
}

/// A search ends within four steps, and with the candidate of the first
/// strategy that yields one.
pub proof fn lemma_search_locates(world: Surroundings, platform: Platform)
    ensures
        world.search(LocatorView::Asking(Probe::OverrideVariable), platform, 4) == match world.located(
            platform,
        ) {
            Some(candidate) => LocatorView::Found(candidate),
            None => LocatorView::NotFound,
        },
{
    reveal_with_fuel(Surroundings::search, 5);
}

/// The order of priority. Where the override variable is set and not empty,
/// its value is chosen, whatever the registry and the fallback would yield.
/// Where it is not, and the platform keeps a registry that yields a candidate,
/// that one is chosen, whatever the fallback would yield. The fallback is
/// chosen only where neither yields.
pub proof fn lemma_priority(world: Surroundings, platform: Platform)
    ensures
        world.override_variable matches Some(home) ==> (home.len() > 0 ==> world.located(platform)
            == Some(RuntimeCandidateView { home, strategy: Strategy::Override })),
        world.override_candidate() is None && platform.has_registry()
            && world.registry_candidate() is Some ==> world.located(platform)
            == world.registry_candidate(),
        world.override_candidate() is None && !(platform.has_registry()
            && world.registry_candidate() is Some) ==> world.located(platform)
            == world.fallback_candidate(),
        world.located(platform) matches Some(candidate) ==> (candidate.strategy
            == Strategy::Registry ==> platform.has_registry()),
{
}

/// The first recorded home stands where none is recorded before it.
pub proof fn lemma_first_recorded(homes: Seq<Option<Seq<char>>>, i: int)
    requires
        0 <= i <= homes.len(),
        forall|j: int| 0 <= j < i ==> (#[trigger] homes[j]) is None,
        i < homes.len() ==> homes[i] is Some,
    ensures
        first_recorded(homes) == if i < homes.len() {
            homes[i]
        } else {
            None
        },
    decreases homes.len(),
{
    if i > 0 {
        let rest = homes.drop_first();
        lemma_first_recorded(rest, i - 1);
    }
}

/// A copy of the text without its last character, if it has one.
pub fn strip_last(text: &str) -> (stripped: String)
    ensures
        stripped@ == without_last(text@),
{
    let n: usize = text.unicode_len();
    if n == 0 {
        String::from_str(text)
    } else {
        String::from_str(text.substring_char(0, n - 1))
    }
}

impl Locator {
    /// A search that has not yet asked anything.
    pub fn start() -> (locator: Locator)
        ensures
            locator@ == LocatorView::Asking(Probe::OverrideVariable),
    {
        Locator::Asking(Probe::OverrideVariable)
    }

    /// What the search needs to know next; nothing, once it has ended.
    pub fn pending(&self) -> (probe: Option<Probe>)
        ensures
            probe == match self@ {
                LocatorView::Asking(probe) => Some(probe),
                _ => None,
            },
    {
        match self {
            Locator::Asking(probe) => Some(*probe),
            _ => None,
        }
    }

    /// Moves the search on by a finding.
    pub fn advance(self, platform: Platform, finding: Finding) -> (next: Locator)
        ensures
            next@ == advanced(self@, platform, finding@),
    {
        match (self, finding) {
            (Locator::Asking(Probe::OverrideVariable), Finding::OverrideVariable(value)) => {
                match value {
                    Some(home) => {
                        if home.as_str().is_empty() {
                            Locator::Asking(first_after_override(platform))
                        } else {
                            Locator::Found(
                                RuntimeCandidate { home, strategy: Strategy::Override },
                            )
                        }
                    },
                    None => Locator::Asking(first_after_override(platform)),
                }
            },
            (Locator::Asking(Probe::RegistryVersion), Finding::RegistryVersion(text)) => {
                match text {
                    None => Locator::Asking(Probe::Fallback),
                    Some(text) => match read_decimal(text.as_str()) {
                        None => Locator::Found(
                            RuntimeCandidate { home: String::new(), strategy: Strategy::Registry },
                        ),
                        Some(version) => {
                            if version.at_least(MINIMUM_SCALED, MINIMUM_DECIMALS) {
                                Locator::Asking(Probe::RegistryHomes)
                            } else {
                                Locator::Asking(Probe::Fallback)
                            }
                        },
                    },
                }
            },
            (Locator::Asking(Probe::RegistryHomes), Finding::RegistryHomes(homes)) => {
                choose_recorded(&homes)
            },
            (Locator::Asking(Probe::Fallback), Finding::Fallback(home)) => {
                match home {
                    Some(home) => Locator::Found(
                        RuntimeCandidate { home, strategy: Strategy::Fallback },
                    ),
                    None => Locator::NotFound,
                }
            },
            (state, _) => state,
        }
    }
}

/// Takes the first recorded home for the runtime's.
fn choose_recorded(homes: &Vec<Option<String>>) -> (next: Locator)
    ensures
        next@ == from_registry_homes(homes.deep_view()),
{
    let mut i: usize = 0;
    while i < homes.len()
        invariant
            i <= homes.len(),
            forall|j: int| 0 <= j < i ==> (#[trigger] homes.deep_view()[j]) is None,
        decreases homes.len() - i,
    {
        match &homes[i] {
            Some(home) => {
                proof {
                    lemma_first_recorded(homes.deep_view(), i as int);
                }
                return Locator::Found(
                    RuntimeCandidate {
                        home: strip_last(home.as_str()),
                        strategy: Strategy::Registry,
                    },
                );
            },
            None => {},
        }
        i = i + 1;
    }
    proof {
        lemma_first_recorded(homes.deep_view(), homes.len() as int);
    }
    Locator::Asking(Probe::Fallback)
}

fn first_after_override(platform: Platform) -> (probe: Probe)
    ensures
        probe == after_override(platform),
{
    if platform.keeps_registry() {
        Probe::RegistryVersion
    } else {
        Probe::Fallback
    }
}

} // verus!
