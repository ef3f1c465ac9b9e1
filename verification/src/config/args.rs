//! The command line: the arguments that configure the relying party, and
//! what they change in a configuration.

use vstd::prelude::*;
use crate::config::base::{keyed, Failure};
use crate::config::error::{ConfigError, Fault};
use crate::config::settings::{Config, ConfigView, LogLevel, LogTarget, LogTargetView};
use crate::config::text::{
    facility_of, join_path, parse_facility, parse_u64, parse_usize, path_join, same_text, u64_of,
    usize_of,
};

verus! {

/// `clap::ArgMatches`, the parsed command line, as a type that is carried
/// through and not looked into.
#[verifier::external_type_specification]
#[verifier::external_body]
pub struct ExArgMatches<'a>(clap::ArgMatches<'a>);

/// The first value of an argument, as `clap::ArgMatches::value_of_lossy`
/// gives it.
pub uninterp spec fn arg_value(matches: clap::ArgMatches<'_>, name: Seq<char>) -> Option<Seq<char>>;

/// The values of an argument, as `clap::ArgMatches::values_of_lossy` gives
/// them.
pub uninterp spec fn arg_values(matches: clap::ArgMatches<'_>, name: Seq<char>) -> Option<
    Seq<Seq<char>>,
>;

/// Whether an argument is there, as `clap::ArgMatches::is_present` says.
pub uninterp spec fn arg_present(matches: clap::ArgMatches<'_>, name: Seq<char>) -> bool;

/// How often an argument was given, as `clap::ArgMatches::occurrences_of`
/// counts.
pub uninterp spec fn arg_occurrences(matches: clap::ArgMatches<'_>, name: Seq<char>) -> u64;

/// The first value of an argument, from `clap::ArgMatches::value_of_lossy`:
/// the value given or else the default, if there is either; what is not
/// valid UTF-8 in it is replaced.
#[verifier::external_body]
fn value_of(matches: &clap::ArgMatches<'_>, name: &str) -> (r: Option<String>)
    ensures
        match r {
            Some(s) => arg_value(*matches, name@) == Some(s@),
            None => arg_value(*matches, name@) is None,
        },
{
    match matches.value_of_lossy(name) {
        Some(v) => Some(v.into_owned()),
        None => None,
    }
}

/// The values of an argument, from `clap::ArgMatches::values_of_lossy`.
#[verifier::external_body]
fn values_of(matches: &clap::ArgMatches<'_>, name: &str) -> (r: Option<Vec<String>>)
    ensures
        match r {
            Some(list) => arg_values(*matches, name@) == Some(list@.map_values(|s: String| s@)),
            None => arg_values(*matches, name@) is None,
        },
{
    matches.values_of_lossy(name)
}

/// Whether an argument is there, from `clap::ArgMatches::is_present`.
#[verifier::external_body]
fn is_present(matches: &clap::ArgMatches<'_>, name: &str) -> (r: bool)
    ensures
        r == arg_present(*matches, name@),
{
    matches.is_present(name)
}

/// How often an argument was given, from
/// `clap::ArgMatches::occurrences_of`.
#[verifier::external_body]
fn occurrences_of(matches: &clap::ArgMatches<'_>, name: &str) -> (r: u64)
    ensures
        r == arg_occurrences(*matches, name@),
{
    matches.occurrences_of(name)
}

/// The number that an argument gives, if the argument is there.
pub open spec fn usize_arg(value: Option<Seq<char>>) -> Result<Option<usize>, Fault> {
    match value {
        None => Ok(None),
        Some(t) => match usize_of(t) {
            Some(n) => Ok(Some(n)),
            None => Err(Fault::InvalidArgument),
        },
    }
}

/// The number that an argument gives, if the argument is there.
pub open spec fn u64_arg(value: Option<Seq<char>>) -> Result<Option<u64>, Fault> {
    match value {
        None => Ok(None),
        Some(t) => match u64_of(t) {
            Some(n) => Ok(Some(n)),
            None => Err(Fault::InvalidArgument),
        },
    }
}

/// The value where there is one, `old` otherwise.
pub open spec fn or_old<T>(r: Result<Option<T>, Failure>, old: T) -> Result<T, Failure> {
    match r {
        Ok(Some(v)) => Ok(v),
        Ok(None) => Ok(old),
        Err(e) => Err(e),
    }
}

/// The directory that the arguments name: the one that `own` gives, or
/// else `sub` below the base directory, or else the one of before.
pub open spec fn dir_arg(
    own: Option<Seq<char>>,
    base_dir: Option<Seq<char>>,
    sub: Seq<char>,
    cur_dir: Seq<char>,
    old: Seq<char>,
) -> Seq<char> {
    match own {
        Some(d) => path_join(cur_dir, d),
        None => match base_dir {
            Some(d) => path_join(path_join(cur_dir, d), sub),
            None => old,
        },
    }
}

/// The log level that `verbose` and `quiet` ask for.
pub open spec fn level_arg(verbose: u64, quiet: u64, old: LogLevel) -> LogLevel {
    if verbose == 0 && quiet == 0 {
        old
    } else if quiet == 0 {
        if verbose == 1 {
            LogLevel::Info
        } else {
            LogLevel::Debug
        }
    } else if verbose == 0 {
        if quiet == 1 {
            LogLevel::Error
        } else {
            LogLevel::Off
        }
    } else {
        old
    }
}

/// The log target that the arguments ask for.
pub open spec fn target_arg(
    syslog: bool,
    facility: Option<Seq<char>>,
    logfile: Option<Seq<char>>,
    cur_dir: Seq<char>,
    old: LogTargetView,
) -> Result<LogTargetView, Failure> {
    if syslog {
        match facility {
            None => Err((Fault::InvalidArgument, "syslog-facility"@)),
            Some(t) => match facility_of(t) {
                Some(f) => Ok(LogTargetView::Syslog(f)),
                None => Err((Fault::InvalidFacility, t)),
            },
        }
    } else {
        match logfile {
            Some(f) => if f == "-"@ {
                Ok(LogTargetView::Stderr)
            } else {
                Ok(LogTargetView::File(path_join(cur_dir, f)))
            },
            None => Ok(old),
        }
    }
}

/// The configuration that the arguments make of a base configuration, or
/// the first thing wrong with them.  Relative paths start from `cur_dir`.
///
/// An argument that is there replaces what the base says.  The cache
/// directory is `repository-dir`, or else `repository` below `base-dir`;
/// the directory of the trust anchor locators is `tal-dir`, or else `tals`
/// below `base-dir`.  `strict` can only switch strictness on.  One
/// `verbose` logs information and more log everything; one `quiet` logs
/// errors only and more log nothing.  `syslog` logs to syslog with the
/// facility given; otherwise `logfile` logs to that file, or to standard
/// error where it is `-`.
pub open spec fn with_args(base: ConfigView, m: clap::ArgMatches<'_>, cur_dir: Seq<char>) -> Result<
    ConfigView,
    Failure,
> {
    let rsync_count = or_old(
        keyed(usize_arg(arg_value(m, "rsync-count"@)), "rsync-count"@),
        base.rsync_count,
    );
    let validation_threads = or_old(
        keyed(usize_arg(arg_value(m, "validation-threads"@)), "validation-threads"@),
        base.validation_threads,
    );
    let refresh = or_old(keyed(u64_arg(arg_value(m, "refresh"@)), "refresh"@), base.refresh);
    let retry = or_old(keyed(u64_arg(arg_value(m, "retry"@)), "retry"@), base.retry);
    let expire = or_old(keyed(u64_arg(arg_value(m, "expire"@)), "expire"@), base.expire);
    let history_size = or_old(
        keyed(usize_arg(arg_value(m, "history"@)), "history"@),
        base.history_size,
    );
    let log_target = target_arg(
        arg_present(m, "syslog"@),
        arg_value(m, "syslog-facility"@),
        arg_value(m, "logfile"@),
        cur_dir,
        base.log_target,
    );
    if rsync_count is Err {
        Err(rsync_count->Err_0)
    } else if validation_threads is Err {
        Err(validation_threads->Err_0)
    } else if refresh is Err {
        Err(refresh->Err_0)
    } else if retry is Err {
        Err(retry->Err_0)
    } else if expire is Err {
        Err(expire->Err_0)
    } else if history_size is Err {
        Err(history_size->Err_0)
    } else if log_target is Err {
        Err(log_target->Err_0)
    } else {
        Ok(
            ConfigView {
                cache_dir: dir_arg(
                    arg_value(m, "repository-dir"@),
                    arg_value(m, "base-dir"@),
                    "repository"@,
                    cur_dir,
                    base.cache_dir,
                ),
                tal_dir: dir_arg(
                    arg_value(m, "tal-dir"@),
                    arg_value(m, "base-dir"@),
                    "tals"@,
                    cur_dir,
                    base.tal_dir,
                ),
                exceptions: match arg_values(m, "exceptions"@) {
                    Some(list) => list.map_values(|p: Seq<char>| path_join(cur_dir, p)),
                    None => base.exceptions,
                },
                strict: base.strict || arg_present(m, "strict"@),
                rsync_count: rsync_count->Ok_0,
                validation_threads: validation_threads->Ok_0,
                refresh: refresh->Ok_0,
                retry: retry->Ok_0,
                expire: expire->Ok_0,
                history_size: history_size->Ok_0,
                tcp_listen: match arg_values(m, "listen"@) {
                    Some(list) => list,
                    None => base.tcp_listen,
                },
                log_level: level_arg(
                    arg_occurrences(m, "verbose"@),
                    arg_occurrences(m, "quiet"@),
                    base.log_level,
                ),
                log_target: log_target->Ok_0,
            },
        )
    }
}

/// The number that an argument gives, if the argument is there.
pub fn usize_value_of(matches: &clap::ArgMatches<'_>, key: &str) -> (r: Result<
    Option<usize>,
    ConfigError,
>)
    ensures
        crate::config::error::agrees(r, usize_arg(arg_value(*matches, key@)), key@),
{
    match value_of(matches, key) {
        None => Ok(None),
        Some(text) => match parse_usize(text.as_str()) {
            Some(n) => Ok(Some(n)),
            None => Err(ConfigError::new(Fault::InvalidArgument, key)),
        },
    }
}

/// The number that an argument gives, if the argument is there.
pub fn u64_value_of(matches: &clap::ArgMatches<'_>, key: &str) -> (r: Result<
    Option<u64>,
    ConfigError,
>)
    ensures
        crate::config::error::agrees(r, u64_arg(arg_value(*matches, key@)), key@),
{
    match value_of(matches, key) {
        None => Ok(None),
        Some(text) => match parse_u64(text.as_str()) {
            Some(n) => Ok(Some(n)),
            None => Err(ConfigError::new(Fault::InvalidArgument, key)),
        },
    }
}

/// The paths of `list`, each taken from `dir`.
pub fn join_all(dir: &str, list: &Vec<String>) -> (r: Vec<String>)
    ensures
        r@.map_values(|s: String| s@) == list@.map_values(|s: String| s@).map_values(
            |p: Seq<char>| path_join(dir@, p),
        ),
{
    let mut paths: Vec<String> = Vec::new();
    let mut i: usize = 0;
    while i < list.len()
        invariant
            i <= list.len(),
            paths@.len() == i,
            forall|j: int| 0 <= j < i ==> (#[trigger] paths@[j])@ == path_join(dir@, list@[j]@),
        decreases list.len() - i,
    {
        paths.push(join_path(dir, list[i].as_str()));
        i += 1;
    }
    assert(paths@.map_values(|s: String| s@) =~= list@.map_values(|s: String| s@).map_values(
        |p: Seq<char>| path_join(dir@, p),
    ));
    paths
}

impl Config {
    /// The path that an argument gives, taken from `dir`.
    pub fn path_value_of(matches: &clap::ArgMatches<'_>, key: &str, dir: &str) -> (r: Option<String>)
        ensures
            match arg_value(*matches, key@) {
                Some(p) => r matches Some(s) && s@ == path_join(dir@, p),
                None => r is None,
            },
    {
        match value_of(matches, key) {
            Some(p) => Some(join_path(dir, p.as_str())),
            None => None,
        }
    }

    /// The directory that the arguments name; see `dir_arg`.
    fn dir_value_of(
        matches: &clap::ArgMatches<'_>,
        own: &str,
        sub: &str,
        cur_dir: &str,
        old: String,
    ) -> (r: String)
        ensures
            r@ == dir_arg(
                arg_value(*matches, own@),
                arg_value(*matches, "base-dir"@),
                sub@,
                cur_dir@,
                old@,
            ),
    {
        match value_of(matches, own) {
            Some(d) => join_path(cur_dir, d.as_str()),
            None => match value_of(matches, "base-dir") {
                Some(d) => {
                    let base = join_path(cur_dir, d.as_str());
                    join_path(base.as_str(), sub)
                },
                None => old,
            },
        }
    }

    /// The log target that the arguments ask for; see `target_arg`.
    fn target_value_of(matches: &clap::ArgMatches<'_>, cur_dir: &str, old: LogTarget) -> (r: Result<
        LogTarget,
        ConfigError,
    >)
        ensures
            match target_arg(
                arg_present(*matches, "syslog"@),
                arg_value(*matches, "syslog-facility"@),
                arg_value(*matches, "logfile"@),
                cur_dir@,
                old@,
            ) {
                Ok(v) => r is Ok && r->Ok_0@ == v,
                Err((kind, subject)) => r is Err && r->Err_0.is(kind, subject),
            },
    {
        if is_present(matches, "syslog") {
            match value_of(matches, "syslog-facility") {
                None => Err(ConfigError::new(Fault::InvalidArgument, "syslog-facility")),
                Some(t) => match parse_facility(t.as_str()) {
                    Some(f) => Ok(LogTarget::Syslog(f)),
                    None => Err(ConfigError { kind: Fault::InvalidFacility, subject: t }),
                },
            }
        } else {
            match value_of(matches, "logfile") {
                Some(f) => {
                    if same_text(f.as_str(), "-") {
                        Ok(LogTarget::Stderr)
                    } else {
                        Ok(LogTarget::File(join_path(cur_dir, f.as_str())))
                    }
                },
                None => Ok(old),
            }
        }
    }

    /// The log level that the arguments ask for; see `level_arg`.
    fn level_value_of(matches: &clap::ArgMatches<'_>, old: LogLevel) -> (r: LogLevel)
        ensures
            r == level_arg(
                arg_occurrences(*matches, "verbose"@),
                arg_occurrences(*matches, "quiet"@),
                old,
            ),
    {
        let verbose = occurrences_of(matches, "verbose");
        let quiet = occurrences_of(matches, "quiet");
        if verbose == 0 && quiet == 0 {
            old
        } else if quiet == 0 {
            if verbose == 1 {
                LogLevel::Info
            } else {
                LogLevel::Debug
            }
        } else if verbose == 0 {
            if quiet == 1 {
                LogLevel::Error
            } else {
                LogLevel::Off
            }
        } else {
            old
        }
    }

    /// The configuration that the arguments make of `base`; see
    /// `with_args`.
    pub fn from_arg_matches(matches: &clap::ArgMatches<'_>, cur_dir: &str, base: Config) -> (r:
        Result<Config, ConfigError>)
        ensures
            crate::config::base::config_agrees(r, with_args(base@, *matches, cur_dir@)),
    {
        let Config {
            cache_dir,
            tal_dir,
            exceptions,
            strict,
            rsync_count,
            validation_threads,
            refresh,
            retry,
            expire,
            history_size,
            tcp_listen,
            log_level,
            log_target,
        } = base;
        let cache_dir = Config::dir_value_of(matches, "repository-dir", "repository", cur_dir, cache_dir);
        let tal_dir = Config::dir_value_of(matches, "tal-dir", "tals", cur_dir, tal_dir);
        let exceptions = match values_of(matches, "exceptions") {
            Some(list) => join_all(cur_dir, &list),
            None => exceptions,
        };
        let strict = strict || is_present(matches, "strict");
        let rsync_count = match usize_value_of(matches, "rsync-count") {
            Ok(Some(v)) => v,
            Ok(None) => rsync_count,
            Err(e) => {
                return Err(e);
            },
        };
        let validation_threads = match usize_value_of(matches, "validation-threads") {
            Ok(Some(v)) => v,
            Ok(None) => validation_threads,
            Err(e) => {
                return Err(e);
            },
        };
        let refresh = match u64_value_of(matches, "refresh") {
            Ok(Some(v)) => v,
            Ok(None) => refresh,
            Err(e) => {
                return Err(e);
            },
        };
        let retry = match u64_value_of(matches, "retry") {
            Ok(Some(v)) => v,
            Ok(None) => retry,
            Err(e) => {
                return Err(e);
            },
        };
        let expire = match u64_value_of(matches, "expire") {
            Ok(Some(v)) => v,
            Ok(None) => expire,
            Err(e) => {
                return Err(e);
            },
        };
        let history_size = match usize_value_of(matches, "history") {
            Ok(Some(v)) => v,
            Ok(None) => history_size,
            Err(e) => {
                return Err(e);
            },
        };
        let tcp_listen = match values_of(matches, "listen") {
            Some(list) => list,
            None => tcp_listen,
        };
        let log_level = Config::level_value_of(matches, log_level);
        let log_target = match Config::target_value_of(matches, cur_dir, log_target) {
            Ok(v) => v,
            Err(e) => {
                return Err(e);
            },
        };
        Ok(
            Config {
                cache_dir,
                tal_dir,
                exceptions,
                strict,
                rsync_count,
                validation_threads,
                refresh,
                retry,
                expire,
                history_size,
                tcp_listen,
                log_level,
                log_target,
            },
        )
    }
}

} // verus!
