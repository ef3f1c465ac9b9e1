//! Where the log goes.

use vstd::prelude::*;
use crate::config::settings::{Config, Facility, LogLevel, LogTarget, LogTargetView};

verus! {

/// The sink to open for the log.
#[derive(Debug)]
pub enum LogSink {
    Syslog(Facility),
    Stderr,
    File(String),
}

/// A sink as plain values.
pub enum LogSinkView {
    Syslog(Facility),
    Stderr,
    File(Seq<char>),
}

impl View for LogSink {
    type V = LogSinkView;

    open spec fn view(&self) -> LogSinkView {
        match self {
            LogSink::Syslog(f) => LogSinkView::Syslog(*f),
            LogSink::Stderr => LogSinkView::Stderr,
            LogSink::File(p) => LogSinkView::File(p@),
        }
    }
}

/// The sink for a target: the default target is syslog for a daemon and
/// standard error otherwise.
pub open spec fn sink_for(target: LogTargetView, daemon: bool) -> LogSinkView {
    match target {
        LogTargetView::Default(f) => if daemon {
            LogSinkView::Syslog(f)
        } else {
            LogSinkView::Stderr
        },
        LogTargetView::Syslog(f) => LogSinkView::Syslog(f),
        LogTargetView::Stderr => LogSinkView::Stderr,
        LogTargetView::File(p) => LogSinkView::File(p),
    }
}

impl Config {
    /// The sink to switch logging to, and the level to log at.
    pub fn log_sink(&self, daemon: bool) -> (r: (LogSink, LogLevel))
        ensures
            r.0@ == sink_for(self@.log_target, daemon),
            r.1 == self.log_level,
    {
        let sink = match &self.log_target {
            LogTarget::Default(f) => {
                if daemon {
                    LogSink::Syslog(*f)
                } else {
                    LogSink::Stderr
                }
            },
            LogTarget::Syslog(f) => LogSink::Syslog(*f),
            LogTarget::Stderr => LogSink::Stderr,
            LogTarget::File(p) => LogSink::File(p.clone()),
        };
        (sink, self.log_level)
    }
}

} // verus!
