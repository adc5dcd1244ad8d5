//! Plain configuration data the server is started with. Reading the command
//! line and the configuration file is I/O and stays outside the library;
//! what arrives here are the values themselves.

use vstd::prelude::*;

verus! {

/// The command-line arguments: where the configuration file lives, and how
/// verbose the logging should be.
#[derive(Clone, Debug)]
pub struct Args {
    /// Path to the configuration file.
    pub config: String,
    /// Verbosity level: the count of verbose flags given.
    pub verbose: u8,
}

/// Which language the site's fixed text is served in.
#[derive(Clone, Copy, PartialEq, Eq, Debug, Structural)]
pub enum Locale {
    /// English.
    En,
    /// Chinese.
    Zh,
}

impl Locale {
    /// The two-letter code this locale is configured as.
    pub fn code(&self) -> (s: &'static str)
        ensures
            (*self == Locale::En ==> s@ == "en"@),
            (*self == Locale::Zh ==> s@ == "zh"@),
    {
        match self {
            Locale::En => "en",
            Locale::Zh => "zh",
        }
    }
}

} // verus!
