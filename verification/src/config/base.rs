//! The base configuration: what the configuration file says, or the
//! defaults where there is none.

use vstd::prelude::*;
use vstd::string::StringExecFns;
use crate::config::error::{ConfigError, Fault};
use crate::config::file::{
    bool_setting, file_of, joined_keys, level_setting, mandatory_path_setting,
    path_array_setting, path_setting, text_array_setting, text_setting, u64_setting, usize_setting,
    value_at, without, ConfigFile, ConfigFileView, Item,
};
use crate::config::settings::{
    cpu_count, default_view, Config, ConfigView, Facility, LogLevel, LogTarget, LogTargetView,
    DEFAULT_EXPIRE, DEFAULT_HISTORY_SIZE, DEFAULT_REFRESH, DEFAULT_RETRY, DEFAULT_RSYNC_COUNT,
};
use crate::config::text::{
    facility_of, home_directory, join_path, parse_facility, path_join, same_text,
};

verus! {

/// An error kind and what it is about.
pub type Failure = (Fault, Seq<char>);

/// The result with the key as what an error is about.
pub open spec fn keyed<T>(r: Result<T, Fault>, key: Seq<char>) -> Result<T, Failure> {
    match r {
        Ok(v) => Ok(v),
        Err(kind) => Err((kind, key)),
    }
}

/// The value, or the default where there is none.
pub open spec fn or_default<T>(r: Result<Option<T>, Failure>, default: T) -> Result<T, Failure> {
    match r {
        Ok(Some(v)) => Ok(v),
        Ok(None) => Ok(default),
        Err(e) => Err(e),
    }
}

/// The facility that the setting names: `daemon` where it is not there.
pub open spec fn facility_setting(item: Option<Item>) -> Result<Facility, Failure> {
    match text_setting(item) {
        Err(kind) => Err((kind, "syslog-facility"@)),
        Ok(found) => {
            let name = match found {
                Some(t) => t,
                None => "daemon"@,
            };
            match facility_of(name) {
                Some(f) => Ok(f),
                None => Err((Fault::InvalidFacility, name)),
            }
        },
    }
}

/// The log target that the settings name.  `kind` is what the setting
/// `log` gives, `file` what the setting `log-file` gives.
pub open spec fn target_setting(
    kind: Result<Option<Seq<char>>, Fault>,
    file: Result<Option<Seq<char>>, Fault>,
    facility: Facility,
) -> Result<LogTargetView, Failure> {
    match kind {
        Err(k) => Err((k, "log"@)),
        Ok(None) => Ok(LogTargetView::Default(facility)),
        Ok(Some(t)) => if t == "default"@ {
            Ok(LogTargetView::Default(facility))
        } else if t == "syslog"@ {
            Ok(LogTargetView::Syslog(facility))
        } else if t == "stderr"@ {
            Ok(LogTargetView::Stderr)
        } else if t == "file"@ {
            match file {
                Err(k) => Err((k, "log-file"@)),
                Ok(None) => Err((Fault::LogFileRequired, "log-file"@)),
                Ok(Some(p)) => Ok(LogTargetView::File(p)),
            }
        } else {
            Err((Fault::InvalidLogTarget, t))
        },
    }
}

/// The configuration that a file holds, or the first thing wrong with it.
///
/// The settings are taken in this order, and each is gone once taken: the
/// syslog facility, the log target, the file to log to where the target
/// is a file, the two directories, which must be given, the exceptions,
/// strictness, the counts and intervals, the addresses to listen on, and
/// the log level.  What is then left is not known, and an error.
#[verifier::opaque]
pub open spec fn config_of(file: ConfigFileView, threads: usize) -> Result<ConfigView, Failure> {
    let c0 = file.content;
    let facility = facility_setting(value_at(c0, "syslog-facility"@));
    let c1 = without(c0, "syslog-facility"@);
    let kind = text_setting(value_at(c1, "log"@));
    let c2 = without(c1, "log"@);
    let to_file = kind == Ok::<Option<Seq<char>>, Fault>(Some("file"@));
    let log_file = path_setting(value_at(c2, "log-file"@), file.dir);
    let c3 = if to_file {
        without(c2, "log-file"@)
    } else {
        c2
    };
    let target = match facility {
        Ok(f) => target_setting(kind, log_file, f),
        Err(e) => Err(e),
    };
    let cache_dir = keyed(
        mandatory_path_setting(value_at(c3, "repository-dir"@), file.dir),
        "repository-dir"@,
    );
    let c4 = without(c3, "repository-dir"@);
    let tal_dir = keyed(mandatory_path_setting(value_at(c4, "tal-dir"@), file.dir), "tal-dir"@);
    let c5 = without(c4, "tal-dir"@);
    let exceptions = keyed(path_array_setting(value_at(c5, "exceptions"@), file.dir), "exceptions"@);
    let c6 = without(c5, "exceptions"@);
    let strict = or_default(keyed(bool_setting(value_at(c6, "strict"@)), "strict"@), false);
    let c7 = without(c6, "strict"@);
    let rsync_count = or_default(
        keyed(usize_setting(value_at(c7, "rsync-count"@)), "rsync-count"@),
        DEFAULT_RSYNC_COUNT,
    );
    let c8 = without(c7, "rsync-count"@);
    let validation_threads = or_default(
        keyed(usize_setting(value_at(c8, "validation-threads"@)), "validation-threads"@),
        threads,
    );
    let c9 = without(c8, "validation-threads"@);
    let refresh = or_default(
        keyed(u64_setting(value_at(c9, "refresh"@)), "refresh"@),
        DEFAULT_REFRESH,
    );
    let c10 = without(c9, "refresh"@);
    let retry = or_default(keyed(u64_setting(value_at(c10, "retry"@)), "retry"@), DEFAULT_RETRY);
    let c11 = without(c10, "retry"@);
    let expire = or_default(keyed(u64_setting(value_at(c11, "expire"@)), "expire"@), DEFAULT_EXPIRE);
    let c12 = without(c11, "expire"@);
    let history_size = or_default(
        keyed(usize_setting(value_at(c12, "history-size"@)), "history-size"@),
        DEFAULT_HISTORY_SIZE,
    );
    let c13 = without(c12, "history-size"@);
    let tcp_listen = keyed(
        text_array_setting(value_at(c13, "listen-tcp"@), Fault::NotStringArray),
        "listen-tcp"@,
    );
    let c14 = without(c13, "listen-tcp"@);
    let log_level = or_default(
        keyed(level_setting(value_at(c14, "log-level"@)), "log-level"@),
        LogLevel::Warn,
    );
    let c15 = without(c14, "log-level"@);
    if target is Err {
        Err(target->Err_0)
    } else if cache_dir is Err {
        Err(cache_dir->Err_0)
    } else if tal_dir is Err {
        Err(tal_dir->Err_0)
    } else if exceptions is Err {
        Err(exceptions->Err_0)
    } else if strict is Err {
        Err(strict->Err_0)
    } else if rsync_count is Err {
        Err(rsync_count->Err_0)
    } else if validation_threads is Err {
        Err(validation_threads->Err_0)
    } else if refresh is Err {
        Err(refresh->Err_0)
    } else if retry is Err {
        Err(retry->Err_0)
    } else if expire is Err {
        Err(expire->Err_0)
    } else if history_size is Err {
        Err(history_size->Err_0)
    } else if tcp_listen is Err {
        Err(tcp_listen->Err_0)
    } else if log_level is Err {
        Err(log_level->Err_0)
    } else if c15.len() > 0 {
        Err((Fault::UnknownSettings, joined_keys(c15)))
    } else {
        Ok(
            ConfigView {
                cache_dir: cache_dir->Ok_0,
                tal_dir: tal_dir->Ok_0,
                exceptions: exceptions->Ok_0,
                strict: strict->Ok_0,
                rsync_count: rsync_count->Ok_0,
                validation_threads: validation_threads->Ok_0,
                refresh: refresh->Ok_0,
                retry: retry->Ok_0,
                expire: expire->Ok_0,
                history_size: history_size->Ok_0,
                tcp_listen: tcp_listen->Ok_0,
                log_level: log_level->Ok_0,
                log_target: target->Ok_0,
            },
        )
    }
}

/// Whether `r` is what `expected` asks for.
pub open spec fn config_agrees(r: Result<Config, ConfigError>, expected: Result<ConfigView, Failure>) -> bool {
    match expected {
        Ok(v) => r is Ok && r->Ok_0@ == v,
        Err((kind, subject)) => r is Err && r->Err_0.is(kind, subject),
    }
}

/// The directory below the home directory that holds the defaults.
pub open spec fn default_base(home: Seq<char>) -> Seq<char> {
    path_join(home, ".rpki-cache"@)
}

/// The default configuration for a user with the given home directory.
pub open spec fn default_for(home: Seq<char>, threads: usize) -> ConfigView {
    default_view(
        path_join(default_base(home), "repository"@),
        path_join(default_base(home), "tals"@),
        threads,
    )
}

/// The base configuration.  `path` is the path of the configuration file
/// that was asked for, if one was; `home` is the home directory, if there
/// is one; `text` is what the file holds that was looked for, which is the
/// one asked for or else `.routinator.toml` in the home directory, if it
/// could be read.
///
/// Relative paths of files start from the directory `cur_dir`.  A file
/// that was asked for must be there.  Without one, the file in the
/// home directory is used if it is there, and the defaults otherwise;
/// without a home directory there are no defaults.
pub open spec fn base_of(
    path: Option<Seq<char>>,
    text: Option<Seq<char>>,
    home: Option<Seq<char>>,
    cur_dir: Seq<char>,
    threads: usize,
) -> Result<ConfigView, Failure> {
    match path {
        Some(p) => match text {
            None => Err((Fault::CannotRead, p)),
            Some(t) => parsed_config(t, p, cur_dir, threads),
        },
        None => match home {
            None => Err((Fault::NoHome, Seq::empty())),
            Some(h) => match text {
                None => Ok(default_for(h, threads)),
                Some(t) => parsed_config(t, path_join(h, ".routinator.toml"@), cur_dir, threads),
            },
        },
    }
}

/// The configuration that a text holds as the configuration file at a
/// path, where a relative path starts from `cur_dir`.  Where the text is
/// no TOML, nothing is said of what the error is
/// about: it holds the parser's message.
pub open spec fn parsed_config(
    text: Seq<char>,
    path: Seq<char>,
    cur_dir: Seq<char>,
    threads: usize,
) -> Result<ConfigView, Failure> {
    match file_of(text, path, cur_dir) {
        Err(kind) => Err((kind, path)),
        Ok(file) => config_of(file, threads),
    }
}

/// The text of a string that may be there.
pub open spec fn text_in(s: Option<&str>) -> Option<Seq<char>> {
    match s {
        Some(t) => Some(t@),
        None => None,
    }
}

/// Whether `r` is what `expected` asks for, where nothing is asked of what
/// a parse error is about.
pub open spec fn base_agrees(r: Result<Config, ConfigError>, expected: Result<ConfigView, Failure>) -> bool {
    match expected {
        Ok(v) => r is Ok && r->Ok_0@ == v,
        Err((kind, subject)) => r is Err && r->Err_0.kind == kind && (kind != Fault::ParseFailed
            ==> r->Err_0.subject@ == subject),
    }
}

impl Config {
    /// Reads the log target out of a file.
    fn take_target(file: &mut ConfigFile) -> (r: Result<LogTarget, ConfigError>)
        ensures
            ({
                let c0 = old(file)@.content;
                let facility = facility_setting(value_at(c0, "syslog-facility"@));
                let c1 = without(c0, "syslog-facility"@);
                let kind = text_setting(value_at(c1, "log"@));
                let c2 = without(c1, "log"@);
                let to_file = kind == Ok::<Option<Seq<char>>, Fault>(Some("file"@));
                let log_file = path_setting(value_at(c2, "log-file"@), old(file)@.dir);
                let c3 = if to_file {
                    without(c2, "log-file"@)
                } else {
                    c2
                };
                let target = match facility {
                    Ok(f) => target_setting(kind, log_file, f),
                    Err(e) => Err(e),
                };
                &&& match target {
                    Ok(v) => r is Ok && r->Ok_0@ == v,
                    Err((k, subject)) => r is Err && r->Err_0.is(k, subject),
                }
                &&& r is Ok ==> final(file)@ == (ConfigFileView { content: c3, ..old(file)@ })
            }),
    {
        let facility = match file.take_string("syslog-facility") {
            Err(e) => {
                return Err(e);
            },
            Ok(found) => {
                let name = match found {
                    Some(t) => t,
                    None => String::from_str("daemon"),
                };
                match parse_facility(name.as_str()) {
                    Some(f) => f,
                    None => {
                        return Err(ConfigError { kind: Fault::InvalidFacility, subject: name });
                    },
                }
            },
        };
        proof {
            reveal_strlit("default");
            reveal_strlit("syslog");
            reveal_strlit("stderr");
            reveal_strlit("file");
            assert("default"@.len() != "file"@.len());
            assert("syslog"@.len() != "file"@.len());
            assert("stderr"@.len() != "file"@.len());
        }
        match file.take_string("log") {
            Err(e) => Err(e),
            Ok(None) => Ok(LogTarget::Default(facility)),
            Ok(Some(t)) => {
                if same_text(t.as_str(), "default") {
                    Ok(LogTarget::Default(facility))
                } else if same_text(t.as_str(), "syslog") {
                    Ok(LogTarget::Syslog(facility))
                } else if same_text(t.as_str(), "stderr") {
                    Ok(LogTarget::Stderr)
                } else if same_text(t.as_str(), "file") {
                    match file.take_path("log-file") {
                        Err(e) => Err(e),
                        Ok(None) => Err(ConfigError::new(Fault::LogFileRequired, "log-file")),
                        Ok(Some(p)) => Ok(LogTarget::File(p)),
                    }
                } else {
                    Err(ConfigError { kind: Fault::InvalidLogTarget, subject: t })
                }
            },
        }
    }

    /// The configuration that a file holds.  `threads` is the number of
    /// validation threads where the file gives none.
    pub fn from_file(file: ConfigFile, threads: usize) -> (r: Result<Config, ConfigError>)
        ensures
            config_agrees(r, config_of(file@, threads)),
    {
        reveal(config_of);
        let mut file = file;
        let log_target = match Config::take_target(&mut file) {
            Ok(v) => v,
            Err(e) => {
                return Err(e);
            },
        };
        let cache_dir = match file.take_mandatory_path("repository-dir") {
            Ok(v) => v,
            Err(e) => {
                return Err(e);
            },
        };
        let tal_dir = match file.take_mandatory_path("tal-dir") {
            Ok(v) => v,
            Err(e) => {
                return Err(e);
            },
        };
        let exceptions = match file.take_path_array("exceptions") {
            Ok(v) => v,
            Err(e) => {
                return Err(e);
            },
        };
        let strict = match file.take_bool("strict") {
            Ok(Some(v)) => v,
            Ok(None) => false,
            Err(e) => {
                return Err(e);
            },
        };
        let rsync_count = match file.take_usize("rsync-count") {
            Ok(Some(v)) => v,
            Ok(None) => DEFAULT_RSYNC_COUNT,
            Err(e) => {
                return Err(e);
            },
        };
        let validation_threads = match file.take_usize("validation-threads") {
            Ok(Some(v)) => v,
            Ok(None) => threads,
            Err(e) => {
                return Err(e);
            },
        };
        let refresh = match file.take_u64("refresh") {
            Ok(Some(v)) => v,
            Ok(None) => DEFAULT_REFRESH,
            Err(e) => {
                return Err(e);
            },
        };
        let retry = match file.take_u64("retry") {
            Ok(Some(v)) => v,
            Ok(None) => DEFAULT_RETRY,
            Err(e) => {
                return Err(e);
            },
        };
        let expire = match file.take_u64("expire") {
            Ok(Some(v)) => v,
            Ok(None) => DEFAULT_EXPIRE,
            Err(e) => {
                return Err(e);
            },
        };
        let history_size = match file.take_usize("history-size") {
            Ok(Some(v)) => v,
            Ok(None) => DEFAULT_HISTORY_SIZE,
            Err(e) => {
                return Err(e);
            },
        };
        let tcp_listen = match file.take_string_array("listen-tcp") {
            Ok(v) => v,
            Err(e) => {
                return Err(e);
            },
        };
        let log_level = match file.take_level("log-level") {
            Ok(Some(v)) => v,
            Ok(None) => LogLevel::Warn,
            Err(e) => {
                return Err(e);
            },
        };
        match file.check_exhausted() {
            Ok(_) => {},
            Err(e) => {
                return Err(e);
            },
        }
        Ok(
            Config {
                cache_dir,
                tal_dir,
                exceptions,
                strict,
                rsync_count,
                validation_threads,
                refresh,
                retry,
                expire,
                history_size,
                tcp_listen,
                log_level,
                log_target,
            },
        )
    }

    /// The default configuration for a user with the given home
    /// directory.
    pub fn default_in(home: &str, threads: usize) -> (r: Config)
        ensures
            r@ == default_for(home@, threads),
    {
        let base = join_path(home, ".rpki-cache");
        Config::with_threads(
            join_path(base.as_str(), "repository"),
            join_path(base.as_str(), "tals"),
            threads,
        )
    }

    /// The base configuration from what was found; see `base_of`.
    pub fn base_config(
        path: Option<&str>,
        text: Option<&str>,
        home: Option<&str>,
        cur_dir: &str,
        threads: usize,
    ) -> (r: Result<Config, ConfigError>)
        ensures
            base_agrees(
                r,
                base_of(text_in(path), text_in(text), text_in(home), cur_dir@, threads),
            ),
    {
        proof {
            reveal_strlit("");
            assert(""@ =~= Seq::<char>::empty());
        }
        match path {
            Some(p) => match text {
                None => Err(ConfigError::new(Fault::CannotRead, p)),
                Some(t) => Config::parsed(t, p, cur_dir, threads),
            },
            None => match home {
                None => Err(ConfigError::new(Fault::NoHome, "")),
                Some(h) => match text {
                    None => Ok(Config::default_in(h, threads)),
                    Some(t) => {
                        let p = join_path(h, ".routinator.toml");
                        Config::parsed(t, p.as_str(), cur_dir, threads)
                    },
                },
            },
        }
    }

    /// The configuration that a text holds as the configuration file at a
    /// path, where a relative path starts from `cur_dir`.
    pub fn parsed(text: &str, path: &str, cur_dir: &str, threads: usize) -> (r: Result<
        Config,
        ConfigError,
    >)
        ensures
            base_agrees(r, parsed_config(text@, path@, cur_dir@, threads)),
    {
        match ConfigFile::parse(text, path, cur_dir) {
            Err(e) => Err(e),
            Ok(file) => Config::from_file(file, threads),
        }
    }

    /// The base configuration on this machine: as `base_config`, with the
    /// home directory that the environment names and as many validation
    /// threads as the machine has processors.  `text` is what the file
    /// holds that `config_file_path` names, if it could be read; relative
    /// paths of files start from `cur_dir`.
    pub fn create_base_config(path: Option<&str>, text: Option<&str>, cur_dir: &str) -> (r: Result<
        Config,
        ConfigError,
    >)
        ensures
            exists|home: Option<Seq<char>>, threads: usize|
                base_agrees(
                    r,
                    #[trigger] base_of(text_in(path), text_in(text), home, cur_dir@, threads),
                ),
    {
        let threads = cpu_count();
        let home = home_directory();
        let r = match &home {
            Some(h) => Config::base_config(path, text, Some(h.as_str()), cur_dir, threads),
            None => Config::base_config(path, text, None, cur_dir, threads),
        };
        proof {
            let ghost_home = match home {
                Some(h) => Some(h@),
                None => None,
            };
            assert(base_agrees(
                r,
                base_of(text_in(path), text_in(text), ghost_home, cur_dir@, threads),
            ));
        }
        r
    }

    /// The path of the configuration file to read: the one asked for, or
    /// `.routinator.toml` in the home directory that the environment
    /// names, if it names one.
    pub fn config_file_path(path: Option<&str>) -> (r: Option<String>)
        ensures
            match path {
                Some(p) => r matches Some(s) && s@ == p@,
                None => r matches Some(s) ==> exists|home: Seq<char>|
                    s@ == #[trigger] path_join(home, ".routinator.toml"@),
            },
    {
        match path {
            Some(p) => Some(String::from_str(p)),
            None => match home_directory() {
                Some(h) => {
                    let s = join_path(h.as_str(), ".routinator.toml");
                    assert(s@ == path_join(h@, ".routinator.toml"@));
                    Some(s)
                },
                None => None,
            },
        }
    }

    /// The default configuration on this machine: below the home
    /// directory that the environment names, with as many validation
    /// threads as the machine has processors.
    pub fn default_config() -> (r: Result<Config, ConfigError>)
        ensures
            match r {
                Ok(c) => exists|home: Seq<char>|
                    c@ == #[trigger] default_for(home, c.validation_threads),
                Err(e) => e.is(Fault::NoHome, Seq::empty()),
            },
    {
        match home_directory() {
            Some(h) => {
                let c = Config::default_in(h.as_str(), cpu_count());
                assert(c@ == default_for(h@, c.validation_threads));
                Ok(c)
            },
            None => {
                let e = ConfigError::new(Fault::NoHome, "");
                proof {
                    reveal_strlit("");
                    assert(""@ =~= Seq::<char>::empty());
                }
                Err(e)
            },
        }
    }
}

} // verus!
