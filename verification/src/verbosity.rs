//! How much the driver tells of what it does.

use crate::text::same_text;
use vstd::prelude::*;
use vstd::string::*;

verus! {

/// A level of verbosity; a later level tells more.
#[derive(Debug, Clone, Copy, PartialEq, Eq, PartialOrd, Ord, Structural)]
pub enum Verbosity {
    Error,
    Warn,
    Info,
    Debug,
    Trace,
}

impl Verbosity {
    /// The name of the level, in lower case.
    pub open spec fn name(self) -> Seq<char> {
        match self {
            Verbosity::Error => "error"@,
            Verbosity::Warn => "warn"@,
            Verbosity::Info => "info"@,
            Verbosity::Debug => "debug"@,
            Verbosity::Trace => "trace"@,
        }
    }

    /// The level of a name, if it is one.
    pub open spec fn named(name: Seq<char>) -> Option<Verbosity> {
        if name == "error"@ {
            Some(Verbosity::Error)
        } else if name == "warn"@ {
            Some(Verbosity::Warn)
        } else if name == "info"@ {
            Some(Verbosity::Info)
        } else if name == "debug"@ {
            Some(Verbosity::Debug)
        } else if name == "trace"@ {
            Some(Verbosity::Trace)
        } else {
            None
        }
    }

    /// The place of the level in the order from `Error` to `Trace`.
    pub open spec fn rank(self) -> int {
        match self {
            Verbosity::Error => 0,
            Verbosity::Warn => 1,
            Verbosity::Info => 2,
            Verbosity::Debug => 3,
            Verbosity::Trace => 4,
        }
    }

    /// The name of the level.
    pub fn to_text(&self) -> (res: String)
        ensures
            res@ == self.name(),
    {
        match self {
            Verbosity::Error => "error".to_owned(),
            Verbosity::Warn => "warn".to_owned(),
            Verbosity::Info => "info".to_owned(),
            Verbosity::Debug => "debug".to_owned(),
            Verbosity::Trace => "trace".to_owned(),
        }
    }

    /// The level of a name; for any other text an error that quotes the text.
    pub fn from_str(s: &str) -> (res: Result<Verbosity, String>)
        ensures
            match Verbosity::named(s@) {
                Some(level) => res == Ok::<Verbosity, String>(level),
                None => res matches Err(message) && message@ == "Unknown verbosity level: "@ + s@,
            },
    {
        if same_text(s, "error") {
            Ok(Verbosity::Error)
        } else if same_text(s, "warn") {
            Ok(Verbosity::Warn)
        } else if same_text(s, "info") {
            Ok(Verbosity::Info)
        } else if same_text(s, "debug") {
            Ok(Verbosity::Debug)
        } else if same_text(s, "trace") {
            Ok(Verbosity::Trace)
        } else {
            let mut message = String::new();
            message.append("Unknown verbosity level: ");
            message.append(s);
            assert(message@ =~= "Unknown verbosity level: "@ + s@);
            Err(message)
        }
    }

    /// Whether this level tells at least what `other` tells.
    pub fn at_least(&self, other: Verbosity) -> (res: bool)
        ensures
            res == (self.rank() >= other.rank()),
    {
        let mine: u8 = match self {
            Verbosity::Error => 0,
            Verbosity::Warn => 1,
            Verbosity::Info => 2,
            Verbosity::Debug => 3,
            Verbosity::Trace => 4,
        };
        let theirs: u8 = match other {
            Verbosity::Error => 0,
            Verbosity::Warn => 1,
            Verbosity::Info => 2,
            Verbosity::Debug => 3,
            Verbosity::Trace => 4,
        };
        mine >= theirs
    }
}

} // verus!
