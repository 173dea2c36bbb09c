//! The audio host the server runs on, as saved with its settings.

use vstd::prelude::*;

use crate::settings::{lowercase, to_lowercase, unsupported_host, unsupported_host_message};
use crate::text::text_equal;

verus! {

/// The audio hosts the processor can run on.
#[derive(Clone, Copy, Debug, PartialEq, Eq, Structural)]
pub enum SupportedHost {
    JACK,
}

impl SupportedHost {
    /// The host used when none is chosen.
    pub fn default_host() -> (host: SupportedHost)
        ensures
            host == SupportedHost::JACK,
    {
        SupportedHost::JACK
    }

    /// How the host is written.
    pub fn name(&self) -> (text: &'static str)
        ensures
            text@ == "JACK"@,
    {
        match self {
            SupportedHost::JACK => "JACK",
        }
    }

    /// The host a name stands for, given the name and the name lowercased: a host is named
    /// without regard to case.
    pub fn from_lowercase_name(lower: &str, name: &str) -> (host: Result<SupportedHost, String>)
        ensures
            lower@ == "jack"@ ==> host == Ok::<SupportedHost, String>(SupportedHost::JACK),
            lower@ != "jack"@ ==> (host matches Err(message) && message@ == unsupported_host_message(name@)),
    {
        if text_equal(lower, "jack") {
            Ok(SupportedHost::JACK)
        } else {
            Err(unsupported_host(name))
        }
    }

    /// The host a name stands for, in any case; an unknown name is refused with a message that
    /// quotes it.
    pub fn from_name(name: &str) -> (host: Result<SupportedHost, String>)
        ensures
            lowercase(name@) == "jack"@ ==> host == Ok::<SupportedHost, String>(SupportedHost::JACK),
            lowercase(name@) != "jack"@ ==> (host matches Err(message) && message@ == unsupported_host_message(name@)),
    {
        let lower = to_lowercase(name);
        Self::from_lowercase_name(lower.as_str(), name)
    }
}

impl Default for SupportedHost {
    fn default() -> (host: SupportedHost)
        ensures
            host == SupportedHost::JACK,
    {
        SupportedHost::JACK
    }
}

impl std::str::FromStr for SupportedHost {
    type Err = String;

    fn from_str(name: &str) -> (host: Result<SupportedHost, String>)
        ensures
            lowercase(name@) == "jack"@ ==> host == Ok::<SupportedHost, String>(SupportedHost::JACK),
            lowercase(name@) != "jack"@ ==> (host matches Err(message) && message@ == unsupported_host_message(name@)),
    {
        SupportedHost::from_name(name)
    }
}

} // verus!
