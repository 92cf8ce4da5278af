//! The options that the listener recognises, and their defaults.

use crate::filter::EventFilter;
use vstd::prelude::*;
use vstd::string::StringExecFns;

verus! {

/// The port that records go to when none is configured.
pub const DEFAULT_PORT: u16 = 27072;

/// The options of the listener.
#[derive(Debug)]
pub struct Config {
    /// Destination port for forwarded datagrams.
    pub port: u16,
    /// Prefix that an identifier must begin with to be reported; the empty
    /// prefix reports every identifier.
    pub chr: String,
    /// Whether each forwarded record is also echoed to local diagnostics.
    pub print: bool,
}

/// A configuration with its text as characters.
pub struct ConfigView {
    pub port: u16,
    pub chr: Seq<char>,
    pub print: bool,
}

impl View for Config {
    type V = ConfigView;

    open spec fn view(&self) -> ConfigView {
        ConfigView { port: self.port, chr: self.chr@, print: self.print }
    }
}

/// The options when nothing is configured.
pub open spec fn default_view() -> ConfigView {
    ConfigView { port: 27072, chr: "c0000"@, print: false }
}

/// The options to run with: those that were loaded, or the defaults.
pub open spec fn spec_or_defaults(loaded: Option<ConfigView>) -> ConfigView {
    match loaded {
        Some(given) => given,
        None => default_view(),
    }
}

/// The view of a configuration that may be absent.
pub open spec fn config_view(config: Option<Config>) -> Option<ConfigView> {
    match config {
        Some(given) => Some(given@),
        None => None,
    }
}

impl Config {
    /// Whether every option has its default value.
    pub open spec fn is_default(&self) -> bool {
        self@ == default_view()
    }

    /// The configuration in which every option has its default value.
    pub fn defaults() -> (config: Self)
        ensures
            config.is_default(),
    {
        Config { port: DEFAULT_PORT, chr: String::from_str("c0000"), print: false }
    }

    /// The configuration to run with: the one that was loaded, or the
    /// defaults when the document was missing or could not be parsed.
    pub fn or_defaults(loaded: Option<Config>) -> (config: Self)
        ensures
            match loaded {
                Some(given) => config == given,
                None => config.is_default(),
            },
            config@ == spec_or_defaults(config_view(loaded)),
    {
        match loaded {
            Some(given) => given,
            None => Config::defaults(),
        }
    }

    /// A copy of this configuration.
    pub fn duplicate(&self) -> (copy: Self)
        ensures
            copy == *self,
    {
        Config { port: self.port, chr: self.chr.clone(), print: self.print }
    }

    /// The inclusion test that this configuration asks for.
    pub fn filter(&self) -> (filter: EventFilter)
        ensures
            filter.prefix@ == self.chr@,
    {
        EventFilter::new(self.chr.clone())
    }
}

impl Default for Config {
    fn default() -> (config: Self)
        ensures
            config.is_default(),
    {
        Config::defaults()
    }
}

} // verus!
