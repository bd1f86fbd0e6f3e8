use jgnash_launcher::locator::strip_last;
use jgnash_launcher::locator::Finding;
use jgnash_launcher::locator::Locator;
use jgnash_launcher::locator::Probe;
use jgnash_launcher::locator::RuntimeCandidate;
use jgnash_launcher::locator::Strategy;
use jgnash_launcher::locator::OVERRIDE_VARIABLE;
use jgnash_launcher::locator::REGISTRY_HOME_VALUE;
use jgnash_launcher::locator::REGISTRY_KEY;
use jgnash_launcher::locator::REGISTRY_VERSION_VALUE;
use jgnash_launcher::platform::Platform;

/// Everything that could be found out, and a record of what was asked.
struct Surroundings {
    override_variable: Option<&'static str>,
    registry_version: Option<&'static str>,
    registry_homes: Vec<Option<&'static str>>,
    fallback: Option<&'static str>,
    asked: Vec<Probe>,
}

impl Surroundings {
    fn answer(&mut self, probe: Probe) -> Finding {
        self.asked.push(probe);
        match probe {
            Probe::OverrideVariable => Finding::OverrideVariable(self.override_variable.map(String::from)),
            Probe::RegistryVersion => Finding::RegistryVersion(self.registry_version.map(String::from)),
            Probe::RegistryHomes => {
                Finding::RegistryHomes(self.registry_homes.iter().map(|h| h.map(String::from)).collect())
            }
            Probe::Fallback => Finding::Fallback(self.fallback.map(String::from)),
        }
    }
}

fn search(platform: Platform, world: &mut Surroundings) -> Option<RuntimeCandidate> {
    let mut locator = Locator::start();
    loop {
        match locator.pending() {
            Some(probe) => {
                let finding = world.answer(probe);
                locator = locator.advance(platform, finding);
            }
            None => break,
        }
        assert!(world.asked.len() <= 4);
    }
    match locator {
        Locator::Found(candidate) => Some(candidate),
        Locator::NotFound => None,
        Locator::Asking(_) => unreachable!(),
    }
}

fn found(home: &str, strategy: Strategy) -> Option<RuntimeCandidate> {
    Some(RuntimeCandidate { home: String::from(home), strategy })
}

#[test]
fn search_begins_with_the_override_variable() {
    assert_eq!(Locator::start(), Locator::Asking(Probe::OverrideVariable));
    assert_eq!(Locator::start().pending(), Some(Probe::OverrideVariable));
}

#[test]
fn override_is_chosen_over_registry_and_fallback() {
    for platform in [Platform::Unix, Platform::Windows] {
        let mut world = Surroundings {
            override_variable: Some("/opt/override"),
            registry_version: Some("17.0"),
            registry_homes: vec![Some("C:\\registry\\")],
            fallback: Some("/usr/lib/jvm/fallback"),
            asked: vec![],
        };
        assert_eq!(search(platform, &mut world), found("/opt/override", Strategy::Override));
        assert_eq!(world.asked, vec![Probe::OverrideVariable]);
    }
}

#[test]
fn registry_is_tried_before_the_fallback() {
    let mut world = Surroundings {
        override_variable: None,
        registry_version: Some("17.0"),
        registry_homes: vec![Some("C:\\registry\\jdk-17\\")],
        fallback: Some("C:\\fallback"),
        asked: vec![],
    };
    assert_eq!(search(Platform::Windows, &mut world), found("C:\\registry\\jdk-17", Strategy::Registry));
    assert_eq!(world.asked, vec![Probe::OverrideVariable, Probe::RegistryVersion, Probe::RegistryHomes]);
}

#[test]
fn empty_override_counts_as_unset() {
    let mut world = Surroundings {
        override_variable: Some(""),
        registry_version: Some("17.0"),
        registry_homes: vec![Some("C:\\registry\\jdk-17\\")],
        fallback: Some("/usr/lib/jvm/fallback"),
        asked: vec![],
    };
    assert_eq!(search(Platform::Unix, &mut world), found("/usr/lib/jvm/fallback", Strategy::Fallback));
    assert_eq!(world.asked, vec![Probe::OverrideVariable, Probe::Fallback]);
}

#[test]
fn registry_is_not_asked_where_there_is_none() {
    let mut world = Surroundings {
        override_variable: None,
        registry_version: Some("17.0"),
        registry_homes: vec![Some("C:\\registry\\jdk-17\\")],
        fallback: None,
        asked: vec![],
    };
    assert_eq!(search(Platform::Unix, &mut world), None);
    assert_eq!(world.asked, vec![Probe::OverrideVariable, Probe::Fallback]);
}

#[test]
fn registry_without_entry_for_runtimes_passes_to_the_fallback() {
    let mut world = Surroundings {
        override_variable: None,
        registry_version: None,
        registry_homes: vec![Some("C:\\never\\asked\\")],
        fallback: Some("C:\\fallback"),
        asked: vec![],
    };
    assert_eq!(search(Platform::Windows, &mut world), found("C:\\fallback", Strategy::Fallback));
    assert_eq!(world.asked, vec![Probe::OverrideVariable, Probe::RegistryVersion, Probe::Fallback]);
}

#[test]
fn registry_version_below_the_minimum_passes_to_the_fallback() {
    for version in ["1.8", "10.9", "9", "0", "-17", "nan", "1e1"] {
        let mut world = Surroundings {
            override_variable: None,
            registry_version: Some(version),
            registry_homes: vec![Some("C:\\old\\")],
            fallback: Some("C:\\fallback"),
            asked: vec![],
        };
        assert_eq!(search(Platform::Windows, &mut world), found("C:\\fallback", Strategy::Fallback), "{:?}", version);
        assert_eq!(world.asked, vec![Probe::OverrideVariable, Probe::RegistryVersion, Probe::Fallback]);
    }
}

#[test]
fn registry_version_at_the_minimum_is_accepted() {
    for version in ["11", "11.0", "17", "1.1e1", "inf"] {
        let mut world = Surroundings {
            override_variable: None,
            registry_version: Some(version),
            registry_homes: vec![Some("C:\\jdk\\")],
            fallback: None,
            asked: vec![],
        };
        assert_eq!(search(Platform::Windows, &mut world), found("C:\\jdk", Strategy::Registry), "{:?}", version);
    }
}

#[test]
fn malformed_registry_version_yields_the_empty_path() {
    for version in ["11.0.2", "", "eleven", "17 ", "1.8.0_292"] {
        let mut world = Surroundings {
            override_variable: None,
            registry_version: Some(version),
            registry_homes: vec![Some("C:\\jdk\\")],
            fallback: Some("C:\\fallback"),
            asked: vec![],
        };
        assert_eq!(search(Platform::Windows, &mut world), found("", Strategy::Registry), "{:?}", version);
        assert_eq!(world.asked, vec![Probe::OverrideVariable, Probe::RegistryVersion]);
    }
}

#[test]
fn first_recorded_home_is_taken() {
    let mut world = Surroundings {
        override_variable: None,
        registry_version: Some("17.0"),
        registry_homes: vec![None, None, Some("C:\\first\\"), Some("C:\\second\\")],
        fallback: Some("C:\\fallback"),
        asked: vec![],
    };
    assert_eq!(search(Platform::Windows, &mut world), found("C:\\first", Strategy::Registry));
}

#[test]
fn registry_without_recorded_home_passes_to_the_fallback() {
    for homes in [vec![], vec![None], vec![None, None, None]] {
        let mut world = Surroundings {
            override_variable: None,
            registry_version: Some("17.0"),
            registry_homes: homes,
            fallback: Some("C:\\fallback"),
            asked: vec![],
        };
        assert_eq!(search(Platform::Windows, &mut world), found("C:\\fallback", Strategy::Fallback));
        assert_eq!(
            world.asked,
            vec![Probe::OverrideVariable, Probe::RegistryVersion, Probe::RegistryHomes, Probe::Fallback]
        );
    }
}

#[test]
fn recorded_home_loses_its_last_character_whatever_it_is() {
    let mut world = Surroundings {
        override_variable: None,
        registry_version: Some("17.0"),
        registry_homes: vec![Some("C:\\jdk")],
        fallback: None,
        asked: vec![],
    };
    assert_eq!(search(Platform::Windows, &mut world), found("C:\\jd", Strategy::Registry));
    world.registry_homes = vec![Some("")];
    world.asked = vec![];
    assert_eq!(search(Platform::Windows, &mut world), found("", Strategy::Registry));
}

#[test]
fn nothing_found_anywhere() {
    let mut world = Surroundings {
        override_variable: None,
        registry_version: None,
        registry_homes: vec![],
        fallback: None,
        asked: vec![],
    };
    assert_eq!(search(Platform::Windows, &mut world), None);
    assert_eq!(world.asked, vec![Probe::OverrideVariable, Probe::RegistryVersion, Probe::Fallback]);
    world.asked = vec![];
    assert_eq!(search(Platform::Unix, &mut world), None);
    assert_eq!(world.asked, vec![Probe::OverrideVariable, Probe::Fallback]);
}

#[test]
fn finding_that_was_not_asked_for_changes_nothing() {
    let locator = Locator::start().advance(Platform::Windows, Finding::Fallback(Some(String::from("/x"))));
    assert_eq!(locator, Locator::Asking(Probe::OverrideVariable));
    let locator = locator.advance(Platform::Windows, Finding::RegistryVersion(Some(String::from("17"))));
    assert_eq!(locator, Locator::Asking(Probe::OverrideVariable));
    let locator = locator.advance(Platform::Windows, Finding::OverrideVariable(None));
    assert_eq!(locator, Locator::Asking(Probe::RegistryVersion));
    let locator = locator.advance(Platform::Windows, Finding::OverrideVariable(Some(String::from("/x"))));
    assert_eq!(locator, Locator::Asking(Probe::RegistryVersion));
}

#[test]
fn ended_search_stays_as_it_is() {
    let found = Locator::start().advance(Platform::Unix, Finding::OverrideVariable(Some(String::from("/x"))));
    assert_eq!(found.pending(), None);
    let still = found.advance(Platform::Unix, Finding::Fallback(Some(String::from("/y"))));
    assert_eq!(still, Locator::Found(RuntimeCandidate { home: String::from("/x"), strategy: Strategy::Override }));
    let none = Locator::NotFound.advance(Platform::Unix, Finding::Fallback(Some(String::from("/y"))));
    assert_eq!(none, Locator::NotFound);
}

#[test]
fn last_character_is_stripped_as_a_character() {
    assert_eq!(strip_last("C:\\jdk\\"), "C:\\jdk");
    assert_eq!(strip_last("/opt/jdk/"), "/opt/jdk");
    assert_eq!(strip_last("x"), "");
    assert_eq!(strip_last(""), "");
    assert_eq!(strip_last("caf\u{e9}"), "caf");
    assert_eq!(strip_last("a\u{1F600}"), "a");
}

#[test]
fn names_of_what_is_looked_up() {
    assert_eq!(OVERRIDE_VARIABLE, "JAVA_HOME");
    assert_eq!(REGISTRY_KEY, "SOFTWARE\\JavaSoft\\JDK");
    assert_eq!(REGISTRY_VERSION_VALUE, "CurrentVersion");
    assert_eq!(REGISTRY_HOME_VALUE, "JavaHome");
}
