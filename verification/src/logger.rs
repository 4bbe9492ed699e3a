//! Configuration of the logging subscriber.
//!
//! A [`SubscriberBuilder`] accumulates the subscriber's settings — severity
//! threshold, event formatter, log-file path, rotation period, file limit
//! and per-target filters — and hands them to the unverified shell that
//! wires the subscriber up. Splitting the configured path into directory
//! and file name, and translating a [`Period`] into a [`Rotation`], are
//! verified here.

use vstd::prelude::*;

use crate::formatter::LogFormatter;
use crate::rolling::{Builder, Rotation};

verus! {

/// Severity threshold of the subscriber.
#[derive(Debug, Clone, Copy, PartialEq, Eq, Structural)]
pub enum Level {
    /// Finest-grained messages.
    Trace,
    /// Debugging messages.
    Debug,
    /// Routine messages.
    Info,
    /// Unexpected but tolerable situations.
    Warn,
    /// Failures.
    Error,
}

/// How often the log sink starts a new file.
#[allow(non_camel_case_types)]
#[derive(Debug, Clone, Copy, PartialEq, Eq, Structural)]
pub enum Period {
    /// A new file every minute.
    Minute,
    /// A new file every hour.
    Hour,
    /// A new file every day.
    Day,
    /// A new file every month.
    Month,
    /// One file, never rotated.
    NEVER,
}

/// The rotation a period stands for.
pub open spec fn rotation_of(p: Period) -> Rotation {
    match p {
        Period::Minute => Rotation::MINUTELY,
        Period::Hour => Rotation::HOURLY,
        Period::Day => Rotation::DAILY,
        Period::Month => Rotation::MONTHLY,
        Period::NEVER => Rotation::NEVER,
    }
}

impl From<Period> for Rotation {
    /// Translates a rotation period into the sink's rotation.
    fn from(p: Period) -> (r: Self) {
        match p {
            Period::Minute => Rotation::MINUTELY,
            Period::Hour => Rotation::HOURLY,
            Period::Day => Rotation::DAILY,
            Period::Month => Rotation::MONTHLY,
            Period::NEVER => Rotation::NEVER,
        }
    }
}

impl vstd::std_specs::convert::FromSpecImpl<Period> for Rotation {
    open spec fn obeys_from_spec() -> bool {
        true
    }

    open spec fn from_spec(p: Period) -> Self {
        rotation_of(p)
    }
}

/// Splits a path into the directory part (everything before the last
/// separator) and the file name (everything after it); a path without a
/// separator is all file name, with an empty directory.
pub fn split_path(path: &str) -> (r: (String, String))
    requires
        path@.len() > 0,
        path@.last() != '/',
    ensures
        (exists|i: int| 0 <= i < path@.len() && path@[i] == '/') ==> (exists|i: int|
            {
                &&& 0 <= i < path@.len()
                &&& path@[i] == '/'
                &&& (forall|j: int| i < j < path@.len() ==> path@[j] != '/')
                &&& r.0@ == path@.take(i)
                &&& r.1@ == path@.skip(i + 1)
            }),
        (forall|i: int| 0 <= i < path@.len() ==> path@[i] != '/') ==> r.0@.len() == 0 && r.1@
            == path@,
{
    let n: usize = path.unicode_len();
    let mut i: usize = n;
    while i > 0
        invariant
            i <= n,
            n == path@.len(),
            forall|j: int| i <= j < path@.len() ==> path@[j] != '/',
        decreases i,
    {
        if path.get_char(i - 1) == '/' {
            let dir: String = path.substring_char(0, i - 1).to_owned();
            let file: String = path.substring_char(i, n).to_owned();
            proof {
                assert(dir@ =~= path@.take(i - 1));
                assert(file@ =~= path@.skip(i as int));
            }
            return (dir, file);
        }
        i = i - 1;
    }
    (String::new(), path.to_owned())
}

/// Builder of the logging subscriber's configuration.
#[derive(Debug)]
pub struct SubscriberBuilder<E = LogFormatter> {
    /// The event formatter the subscriber will use.
    pub event_formatter: E,
    /// Severity threshold.
    pub level: Level,
    /// Directory of the log file; empty when logging to the console.
    pub directory: String,
    /// Configuration of the rolling-file sink.
    pub appender_builder: Builder,
}

impl SubscriberBuilder {
    /// A console subscriber at the `Info` threshold with the default
    /// formatter.
    pub fn new() -> (r: Self)
        ensures
            r.level == Level::Info,
            r.directory@ == Seq::<char>::empty(),
            r.appender_builder.rotation == Rotation::NEVER,
            r.appender_builder.prefix@ == Seq::<char>::empty(),
            r.appender_builder.max_files is None,
            r.appender_builder.filters is None,
    {
        SubscriberBuilder {
            event_formatter: LogFormatter,
            level: Level::Info,
            directory: String::new(),
            appender_builder: Builder::new(),
        }
    }
}

impl<E> SubscriberBuilder<E> {
    /// Replaces the event formatter.
    pub fn with_event_format(self, formatter: E) -> (r: Self)
        ensures
            (r == SubscriberBuilder { event_formatter: formatter, ..self }),
    {
        SubscriberBuilder { event_formatter: formatter, ..self }
    }

    /// Sets the severity threshold.
    pub fn with_level(self, level: Level) -> (r: Self)
        ensures
            (r == SubscriberBuilder { level, ..self }),
    {
        SubscriberBuilder { level, ..self }
    }

    /// Logs to the file named by `path`: the part before the last
    /// separator becomes the directory, the part after it the file name.
    pub fn with_path(self, path: &str) -> (r: Self)
        requires
            path@.len() > 0,
            path@.last() != '/',
        ensures
            r.event_formatter == self.event_formatter,
            r.level == self.level,
            r.appender_builder.rotation == self.appender_builder.rotation,
            r.appender_builder.max_files == self.appender_builder.max_files,
            r.appender_builder.filters == self.appender_builder.filters,
            (exists|i: int| 0 <= i < path@.len() && path@[i] == '/') ==> (exists|i: int|
                {
                    &&& 0 <= i < path@.len()
                    &&& path@[i] == '/'
                    &&& (forall|j: int| i < j < path@.len() ==> path@[j] != '/')
                    &&& r.directory@ == path@.take(i)
                    &&& r.appender_builder.prefix@ == path@.skip(i + 1)
                }),
            (forall|i: int| 0 <= i < path@.len() ==> path@[i] != '/') ==> r.directory@.len() == 0
                && r.appender_builder.prefix@ == path@,
    {
        let (directory, file_name) = split_path(path);
        SubscriberBuilder {
            directory,
            appender_builder: self.appender_builder.filename(file_name),
            ..self
        }
    }

    /// Sets the rotation period of the log file.
    pub fn with_rotation(self, period: Period) -> (r: Self)
        ensures
            r.event_formatter == self.event_formatter,
            r.level == self.level,
            r.directory == self.directory,
            (r.appender_builder == Builder {
                rotation: rotation_of(period),
                ..self.appender_builder
            }),
    {
        SubscriberBuilder {
            appender_builder: self.appender_builder.rotation(Rotation::from(period)),
            ..self
        }
    }

    /// Keeps at most `max` log files.
    pub fn with_max_log_files(self, max: usize) -> (r: Self)
        ensures
            r.event_formatter == self.event_formatter,
            r.level == self.level,
            r.directory == self.directory,
            (r.appender_builder == Builder {
                max_files: Some(max),
                ..self.appender_builder
            }),
    {
        SubscriberBuilder {
            appender_builder: self.appender_builder.max_log_files(max),
            ..self
        }
    }

    /// Routes events for `target` into `filename` instead of the default
    /// log file.
    pub fn with_filter(self, target: String, filename: String) -> (r: SubscriberBuilder<E>)
        ensures
            r.event_formatter == self.event_formatter,
            r.level == self.level,
            r.directory == self.directory,
            r.appender_builder.rotation == self.appender_builder.rotation,
            r.appender_builder.prefix == self.appender_builder.prefix,
            r.appender_builder.max_files == self.appender_builder.max_files,
            match r.appender_builder.filters {
                Some(f) => f@ == crate::rolling::filter_spec(
                    match self.appender_builder.filters {
                        Some(g) => g@,
                        None => Seq::empty(),
                    },
                    target,
                    filename,
                ),
                None => false,
            },
    {
        SubscriberBuilder {
            appender_builder: self.appender_builder.filter(target, filename),
            ..self
        }
    }
}

} // verus!
