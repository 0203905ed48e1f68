//! Which log lines are written, and how they look.
use vstd::prelude::*;

use crate::text::{concat3, decimal, decimal_text, str_eq};

verus! {

/// How grave a log line is.
#[derive(Clone, Copy, PartialEq, Eq, Structural, Debug)]
pub enum Level {
    Error,
    Warn,
    Info,
    Debug,
    Trace,
}

/// Which log lines are written.
#[derive(Clone, Copy, PartialEq, Eq, Structural, Debug)]
pub enum LevelFilter {
    Off,
    UpTo(Level),
}

/// The filter that a text asks for; nothing is written where it names none.
pub open spec fn filter_of(level: Option<Seq<char>>) -> LevelFilter {
    match level {
        None => LevelFilter::Off,
        Some(name) => if name == "error"@ {
            LevelFilter::UpTo(Level::Error)
        } else if name == "warn"@ {
            LevelFilter::UpTo(Level::Warn)
        } else if name == "info"@ {
            LevelFilter::UpTo(Level::Info)
        } else if name == "debug"@ {
            LevelFilter::UpTo(Level::Debug)
        } else if name == "trace"@ {
            LevelFilter::UpTo(Level::Trace)
        } else {
            LevelFilter::Off
        },
    }
}

/// The filter that a text asks for.
pub fn init(level: Option<&str>) -> (r: LevelFilter)
    ensures
        r == filter_of(
            match level {
                Some(name) => Some(name@),
                None => None,
            },
        ),
{
    match level {
        None => LevelFilter::Off,
        Some(name) => if str_eq(name, "error") {
            LevelFilter::UpTo(Level::Error)
        } else if str_eq(name, "warn") {
            LevelFilter::UpTo(Level::Warn)
        } else if str_eq(name, "info") {
            LevelFilter::UpTo(Level::Info)
        } else if str_eq(name, "debug") {
            LevelFilter::UpTo(Level::Debug)
        } else if str_eq(name, "trace") {
            LevelFilter::UpTo(Level::Trace)
        } else {
            LevelFilter::Off
        },
    }
}

impl Level {
    /// The number of the color in which a terminal shows the line.
    pub open spec fn color(self) -> nat {
        match self {
            Level::Error => 31,
            Level::Warn => 33,
            Level::Info => 32,
            Level::Debug => 34,
            Level::Trace => 35,
        }
    }

    /// The name, five characters wide.
    pub open spec fn label(self) -> Seq<char> {
        match self {
            Level::Error => "ERROR"@,
            Level::Warn => " WARN"@,
            Level::Info => " INFO"@,
            Level::Debug => "DEBUG"@,
            Level::Trace => "TRACE"@,
        }
    }

    /// A log line as a terminal shows it: in color, with the name in front.
    pub fn line(self, text: &str) -> (r: String)
        ensures
            r@ == "\x1b["@ + decimal(self.color()) + "m["@ + self.label() + "] "@ + text@
                + "\x1b[0m"@,
    {
        let (color, label): (usize, &str) = match self {
            Level::Error => (31, "ERROR"),
            Level::Warn => (33, " WARN"),
            Level::Info => (32, " INFO"),
            Level::Debug => (34, "DEBUG"),
            Level::Trace => (35, "TRACE"),
        };
        let number = decimal_text(color);
        let front = concat3("\x1b[", number.as_str(), "m[");
        let named = concat3(front.as_str(), label, "] ");
        concat3(named.as_str(), text, "\x1b[0m")
    }
}

} // verus!
