//! The configuration model: the enabled-rule set, per-rule settings and
//! ignore patterns, the built-in default, and the adapter for the
//! foreign linter's schema.

#![allow(non_snake_case)]

pub mod golangci;

use vstd::prelude::*;
use vstd::string::*;

use crate::text::str_eq;
use self::golangci::GolangciConfiguration;

verus! {

/// The native configuration: an optional allow-list of rules, optional
/// per-rule settings, and optional ignore patterns.
#[derive(Debug, Clone)]
pub struct Configuration {
    pub enable: Option<Vec<String>>,
    pub settings: Option<Settings>,
    pub ignore: Option<Vec<String>>,
}

/// Per-rule settings: the ordered import-section list of the
/// import-order rule.
#[derive(Debug, Clone)]
pub struct Settings {
    pub F002: Vec<String>,
}

/// The built-in import-section list: the standard library first, then
/// everything else.
pub open spec fn default_sections() -> Seq<Seq<char>> {
    seq!["standard"@, "default"@]
}

/// What the built-in default configuration looks like: every rule
/// enabled, the two default sections, nothing ignored.
pub open spec fn is_default_configuration(c: &Configuration) -> bool {
    &&& c.enable is None
    &&& c.ignore is None
    &&& c.settings is Some
    &&& c.settings->Some_0.F002.deep_view() == default_sections()
}

/// The section list the foreign configuration carries, if any.
pub open spec fn foreign_sections(gc: &GolangciConfiguration) -> Option<Seq<String>> {
    if gc.linters_settings is Some && gc.linters_settings->Some_0.gci is Some
        && gc.linters_settings->Some_0.gci->Some_0.sections is Some {
        Some(gc.linters_settings->Some_0.gci->Some_0.sections->Some_0@)
    } else {
        None
    }
}

/// The skip-directory list the foreign configuration carries, if any.
pub open spec fn foreign_skip_dirs(gc: &GolangciConfiguration) -> Option<Seq<String>> {
    if gc.run is Some && gc.run->Some_0.skip_dirs is Some {
        Some(gc.run->Some_0.skip_dirs->Some_0@)
    } else {
        None
    }
}

/// What the adapted form of a foreign configuration looks like: its
/// import-section list if it has one, its skip-directory list as the
/// ignore patterns, every rule enabled.
pub open spec fn is_adapted_configuration(gc: &GolangciConfiguration, c: &Configuration) -> bool {
    &&& c.enable is None
    &&& c.settings is Some
    &&& match foreign_sections(gc) {
        Some(s) => c.settings->Some_0.F002@ == s,
        None => c.settings->Some_0.F002.deep_view() == default_sections(),
    }
    &&& match foreign_skip_dirs(gc) {
        Some(d) => c.ignore is Some && c.ignore->Some_0@ == d,
        None => c.ignore is None,
    }
}

/// A rule is enabled when no allow-list is configured, or when the
/// allow-list holds its identifier.
pub open spec fn enabled_spec(c: &Configuration, rule: Seq<char>) -> bool {
    match c.enable {
        None => true,
        Some(list) => exists|i: int| 0 <= i < list@.len() && (#[trigger] list@[i])@ == rule,
    }
}

impl Configuration {
    /// The built-in default configuration.
    pub fn default() -> (r: Self)
        ensures
            is_default_configuration(&r),
    {
        let mut sections: Vec<String> = Vec::new();
        sections.push(String::from_str("standard"));
        sections.push(String::from_str("default"));
        proof {
            assert(sections.deep_view() =~= default_sections());
        }
        Configuration { enable: None, settings: Some(Settings { F002: sections }), ignore: None }
    }

    /// The default configuration, under its constructor name.
    pub fn new() -> (r: Self)
        ensures
            is_default_configuration(&r),
    {
        Configuration::default()
    }

    /// Adapts a foreign configuration into the native schema.
    pub fn from(golangci_configuration: GolangciConfiguration) -> (r: Self)
        ensures
            is_adapted_configuration(&golangci_configuration, &r),
    {
        let mut configuration = Configuration::default();

        let mut settings = match configuration.settings {
            Some(s) => s,
            None => Settings { F002: Vec::new() },
        };
        if let Some(linters_settings) = golangci_configuration.linters_settings {
            if let Some(gci) = linters_settings.gci {
                if let Some(sections) = gci.sections {
                    settings.F002 = sections;
                }
            }
        }
        configuration.settings = Some(settings);

        if let Some(run) = golangci_configuration.run {
            if let Some(skip_dirs) = run.skip_dirs {
                configuration.ignore = Some(skip_dirs);
            }
        }

        configuration
    }

    /// Whether a rule runs under this configuration.
    pub fn is_enabled(&self, rule: String) -> (r: bool)
        ensures
            r == enabled_spec(self, rule@),
    {
        if self.enable.is_none() {
            return true;
        }
        let enable = self.enable.as_ref().unwrap();
        let n = enable.len();
        let mut i: usize = 0;
        while i < n
            invariant
                self.enable is Some,
                enable == &self.enable->Some_0,
                n == enable@.len(),
                i <= n,
                forall|j: int| 0 <= j < i ==> (#[trigger] enable@[j])@ != rule@,
            decreases n - i,
        {
            if str_eq(enable[i].as_str(), rule.as_str()) {
                proof {
                    assert((self.enable->Some_0)@[i as int]@ == rule@);
                }
                return true;
            }
            i = i + 1;
        }
        false
    }
}

/// Resolves the configuration for a module root: a native configuration
/// wins, a foreign one is adapted (with a fallback notice), and the
/// built-in default closes the list. The second component reports
/// whether the foreign fallback was taken.
pub fn resolve(native: Option<Configuration>, foreign: Option<GolangciConfiguration>) -> (r: (
    Configuration,
    bool,
))
    ensures
        match native {
            Some(c) => r.0 == c && r.1 == false,
            None => match foreign {
                Some(gc) => is_adapted_configuration(&gc, &r.0) && r.1 == true,
                None => is_default_configuration(&r.0) && r.1 == false,
            },
        },
{
    match native {
        Some(c) => (c, false),
        None => match foreign {
            Some(gc) => (Configuration::from(gc), true),
            None => (Configuration::default(), false),
        },
    }
}

} // verus!
