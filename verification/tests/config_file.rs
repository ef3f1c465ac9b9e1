use routinator::config::error::{ConfigError, Fault};
use routinator::config::file::ConfigFile;
use routinator::config::logging::LogSink;
use routinator::config::settings::{
    to_u32, Config, Facility, LogLevel, LogTarget, DEFAULT_EXPIRE, DEFAULT_HISTORY_SIZE,
    DEFAULT_MAX_DEPTH, DEFAULT_REFRESH, DEFAULT_RETRY, DEFAULT_RSYNC_COUNT, DEFAULT_STRICT,
};
use routinator::config::text::{parse_facility, same_text};
use routinator::rtr::pdu::Timing;
use routinator::validation::objects::Policy;

const PATH: &str = "/etc/routinator/routinator.toml";
const MINIMAL: &str = "repository-dir = \"/var/cache/repo\"\ntal-dir = \"tals\"\n";

fn parsed(text: &str) -> Result<Config, ConfigError> {
    Config::parsed(text, PATH, "/work", 6)
}

fn fault(text: &str) -> (Fault, String) {
    match parsed(text) {
        Ok(_) => panic!("the configuration was accepted"),
        Err(e) => (e.kind, e.subject),
    }
}

fn with(lines: &str) -> String {
    format!("{}{}", MINIMAL, lines)
}

fn target_is(target: &LogTarget, expected: &LogTarget) -> bool {
    match (target, expected) {
        (LogTarget::Default(a), LogTarget::Default(b)) => a == b,
        (LogTarget::Syslog(a), LogTarget::Syslog(b)) => a == b,
        (LogTarget::Stderr, LogTarget::Stderr) => true,
        (LogTarget::File(a), LogTarget::File(b)) => a == b,
        _ => false,
    }
}

#[test]
fn the_defaults_are_the_documented_ones() {
    assert!(!DEFAULT_STRICT);
    assert_eq!(DEFAULT_RSYNC_COUNT, 4);
    assert_eq!(DEFAULT_REFRESH, 3600);
    assert_eq!(DEFAULT_RETRY, 600);
    assert_eq!(DEFAULT_EXPIRE, 7200);
    assert_eq!(DEFAULT_HISTORY_SIZE, 10);
    let c = Config::with_threads("/c".to_string(), "/t".to_string(), 3);
    assert_eq!(c.cache_dir, "/c");
    assert_eq!(c.tal_dir, "/t");
    assert!(c.exceptions.is_empty());
    assert!(!c.strict);
    assert_eq!(c.rsync_count, 4);
    assert_eq!(c.validation_threads, 3);
    assert_eq!((c.refresh, c.retry, c.expire), (3600, 600, 7200));
    assert_eq!(c.history_size, 10);
    assert_eq!(c.tcp_listen, vec!["127.0.0.1:3323".to_string()]);
    assert_eq!(c.log_level, LogLevel::Warn);
    assert!(target_is(&c.log_target, &LogTarget::Stderr));
}

#[test]
fn the_default_directories_lie_below_the_home_directory() {
    let c = Config::default_in("/home/rpki", 2);
    assert_eq!(c.cache_dir, "/home/rpki/.rpki-cache/repository");
    assert_eq!(c.tal_dir, "/home/rpki/.rpki-cache/tals");
    assert_eq!(c.validation_threads, 2);
    let d = Config::default_with_paths("/a".to_string(), "/b".to_string());
    assert_eq!(d.cache_dir, "/a");
    assert_eq!(d.tal_dir, "/b");
    assert_eq!((d.refresh, d.retry, d.expire), (3600, 600, 7200));
}

#[test]
fn a_minimal_file_gives_the_defaults() {
    let c = parsed(MINIMAL).unwrap();
    assert_eq!(c.cache_dir, "/var/cache/repo");
    assert_eq!(c.tal_dir, "/etc/routinator/tals");
    assert!(c.exceptions.is_empty());
    assert!(!c.strict);
    assert_eq!(c.rsync_count, 4);
    assert_eq!(c.validation_threads, 6);
    assert_eq!((c.refresh, c.retry, c.expire), (3600, 600, 7200));
    assert_eq!(c.history_size, 10);
    assert!(c.tcp_listen.is_empty());
    assert_eq!(c.log_level, LogLevel::Warn);
    assert!(target_is(&c.log_target, &LogTarget::Default(Facility::Daemon)));
}

#[test]
fn a_full_file_sets_everything() {
    let text = with(
        "exceptions = [\"local.json\", \"/abs/other.json\"]\n\
         strict = true\n\
         rsync-count = 8\n\
         validation-threads = 2\n\
         refresh = 10\n\
         retry = 20\n\
         expire = 30\n\
         history-size = 5\n\
         listen-tcp = [\"127.0.0.1:3323\", \"[::1]:3323\"]\n\
         log-level = \"debug\"\n\
         log = \"file\"\n\
         log-file = \"log/routinator.log\"\n\
         syslog-facility = \"local3\"\n",
    );
    let c = parsed(&text).unwrap();
    assert_eq!(
        c.exceptions,
        vec!["/etc/routinator/local.json".to_string(), "/abs/other.json".to_string()]
    );
    assert!(c.strict);
    assert_eq!(c.rsync_count, 8);
    assert_eq!(c.validation_threads, 2);
    assert_eq!((c.refresh, c.retry, c.expire), (10, 20, 30));
    assert_eq!(c.history_size, 5);
    assert_eq!(c.tcp_listen, vec!["127.0.0.1:3323".to_string(), "[::1]:3323".to_string()]);
    assert_eq!(c.log_level, LogLevel::Debug);
    assert!(target_is(&c.log_target, &LogTarget::File("/etc/routinator/log/routinator.log".to_string())));
}

#[test]
fn the_log_target_follows_the_setting() {
    let c = parsed(&with("log = \"default\"\nsyslog-facility = \"mail\"\n")).unwrap();
    assert!(target_is(&c.log_target, &LogTarget::Default(Facility::Mail)));
    let c = parsed(&with("log = \"syslog\"\n")).unwrap();
    assert!(target_is(&c.log_target, &LogTarget::Syslog(Facility::Daemon)));
    let c = parsed(&with("log = \"stderr\"\n")).unwrap();
    assert!(target_is(&c.log_target, &LogTarget::Stderr));
    assert_eq!(fault(&with("log = \"file\"\n")), (Fault::LogFileRequired, "log-file".to_string()));
    assert_eq!(fault(&with("log = \"pipe\"\n")), (Fault::InvalidLogTarget, "pipe".to_string()));
    assert_eq!(fault(&with("log = 1\n")), (Fault::NotString, "log".to_string()));
    assert_eq!(
        fault(&with("syslog-facility = \"nope\"\n")),
        (Fault::InvalidFacility, "nope".to_string())
    );
    assert_eq!(
        fault(&with("log = \"stderr\"\nlog-file = \"x\"\n")),
        (Fault::UnknownSettings, "log-file".to_string())
    );
}

#[test]
fn log_levels_are_read_in_any_case() {
    for (text, level) in [
        ("off", LogLevel::Off),
        ("ERROR", LogLevel::Error),
        ("Warn", LogLevel::Warn),
        ("info", LogLevel::Info),
        ("dEbUg", LogLevel::Debug),
        ("trace", LogLevel::Trace),
    ] {
        let c = parsed(&with(&format!("log-level = \"{}\"\n", text))).unwrap();
        assert_eq!(c.log_level, level);
    }
    assert_eq!(fault(&with("log-level = \"loud\"\n")), (Fault::IllegalValue, "log-level".to_string()));
    assert_eq!(fault(&with("log-level = \"warning\"\n")), (Fault::IllegalValue, "log-level".to_string()));
    assert_eq!(fault(&with("log-level = 3\n")), (Fault::NotString, "log-level".to_string()));
}

#[test]
fn facilities_are_read_by_name() {
    assert_eq!(parse_facility("daemon"), Some(Facility::Daemon));
    assert_eq!(parse_facility("LOG_KERN"), Some(Facility::Kern));
    assert_eq!(parse_facility("Local7"), Some(Facility::Local7));
    assert_eq!(parse_facility("authpriv"), Some(Facility::Authpriv));
    assert_eq!(parse_facility("ftp"), Some(Facility::Ftp));
    assert_eq!(parse_facility("local0"), Some(Facility::Local0));
    assert_eq!(parse_facility(""), None);
    assert_eq!(parse_facility("daemons"), None);
    let all = [
        Facility::Kern,
        Facility::User,
        Facility::Mail,
        Facility::Daemon,
        Facility::Auth,
        Facility::Syslog,
        Facility::Lpr,
        Facility::News,
        Facility::Uucp,
        Facility::Cron,
        Facility::Authpriv,
        Facility::Ftp,
        Facility::Local0,
        Facility::Local1,
        Facility::Local2,
        Facility::Local3,
        Facility::Local4,
        Facility::Local5,
        Facility::Local6,
        Facility::Local7,
    ];
    for f in all {
        assert_eq!(Facility::from_number(f.number()), Some(f));
    }
    assert_eq!(Facility::Daemon.number(), 24);
    assert_eq!(Facility::Local0.number(), 128);
    assert_eq!(Facility::from_number(96), None);
    assert_eq!(Facility::from_number(25), None);
    assert_eq!(Facility::from_number(192), None);
}

#[test]
fn the_directories_must_be_given() {
    assert_eq!(
        fault("tal-dir = \"tals\"\n"),
        (Fault::MissingRequired, "repository-dir".to_string())
    );
    assert_eq!(
        fault("repository-dir = \"repo\"\n"),
        (Fault::MissingRequired, "tal-dir".to_string())
    );
    assert_eq!(
        fault("repository-dir = 1\ntal-dir = \"tals\"\n"),
        (Fault::NotString, "repository-dir".to_string())
    );
}

#[test]
fn settings_of_the_wrong_kind_are_errors() {
    assert_eq!(fault(&with("strict = \"yes\"\n")), (Fault::NotBoolean, "strict".to_string()));
    assert_eq!(fault(&with("rsync-count = \"4\"\n")), (Fault::NotInteger, "rsync-count".to_string()));
    assert_eq!(fault(&with("rsync-count = -1\n")), (Fault::Negative, "rsync-count".to_string()));
    assert_eq!(
        fault(&with("validation-threads = 1.5\n")),
        (Fault::NotInteger, "validation-threads".to_string())
    );
    assert_eq!(fault(&with("refresh = -3600\n")), (Fault::Negative, "refresh".to_string()));
    assert_eq!(fault(&with("retry = true\n")), (Fault::NotInteger, "retry".to_string()));
    assert_eq!(fault(&with("expire = []\n")), (Fault::NotInteger, "expire".to_string()));
    assert_eq!(fault(&with("history-size = -2\n")), (Fault::Negative, "history-size".to_string()));
    assert_eq!(fault(&with("exceptions = \"x\"\n")), (Fault::NotPathArray, "exceptions".to_string()));
    assert_eq!(fault(&with("exceptions = [1, 2]\n")), (Fault::NotPathArray, "exceptions".to_string()));
    assert_eq!(fault(&with("listen-tcp = 3323\n")), (Fault::NotStringArray, "listen-tcp".to_string()));
    assert_eq!(
        fault(&with("listen-tcp = [[\"a\"]]\n")),
        (Fault::NotStringArray, "listen-tcp".to_string())
    );
}

#[test]
fn the_first_error_in_order_is_reported() {
    let text = "strict = 1\nrsync-count = -1\ntal-dir = \"t\"\nrepository-dir = \"r\"\n";
    assert_eq!(fault(text), (Fault::NotBoolean, "strict".to_string()));
    let text = "strict = 1\nsyslog-facility = \"nope\"\n";
    assert_eq!(fault(text), (Fault::InvalidFacility, "nope".to_string()));
}

#[test]
fn large_numbers_are_kept() {
    let c = parsed(&with("refresh = 9223372036854775807\nhistory-size = 0\n")).unwrap();
    assert_eq!(c.refresh, i64::MAX as u64);
    assert_eq!(c.history_size, 0);
}

#[test]
fn unknown_settings_are_named() {
    assert_eq!(
        fault(&with("zebra = 1\nalpha = \"x\"\n")),
        (Fault::UnknownSettings, "alpha,zebra".to_string())
    );
    assert_eq!(fault(&with("history = 3\n")), (Fault::UnknownSettings, "history".to_string()));
}

#[test]
fn a_text_that_is_no_toml_is_a_parse_error() {
    let (kind, _) = fault("repository-dir = \n");
    assert_eq!(kind, Fault::ParseFailed);
    let (kind, _) = fault("= = =");
    assert_eq!(kind, Fault::ParseFailed);
}

#[test]
fn a_path_without_directory_is_an_error() {
    match Config::parsed(MINIMAL, "/", "/work", 1) {
        Ok(_) => panic!("a file cannot be the root"),
        Err(e) => assert_eq!((e.kind, e.subject), (Fault::NoDirectory, "/".to_string())),
    }
}

#[test]
fn settings_are_gone_once_taken() {
    let mut file = ConfigFile::parse("a = true\nb = 7\nc = \"x\"\nd = [\"p\", \"q\"]\n", PATH, "/work").unwrap();
    assert_eq!(file.path(), PATH);
    assert_eq!(file.dir(), "/etc/routinator");
    assert_eq!(file.take_bool("a").unwrap(), Some(true));
    assert_eq!(file.take_bool("a").unwrap(), None);
    assert_eq!(file.take_u64("b").unwrap(), Some(7));
    assert_eq!(file.take_usize("b").unwrap(), None);
    assert_eq!(file.check_exhausted().unwrap_err().subject, "c,d");
    assert_eq!(file.take_path("c").unwrap(), Some("/etc/routinator/x".to_string()));
    assert_eq!(file.take_string("c").unwrap(), None);
    assert_eq!(
        file.take_path_array("d").unwrap(),
        vec!["/etc/routinator/p".to_string(), "/etc/routinator/q".to_string()]
    );
    assert!(file.take_string_array("d").unwrap().is_empty());
    assert!(file.check_exhausted().is_ok());
    assert_eq!(file.take_mandatory_path("c").unwrap_err().kind, Fault::MissingRequired);
    assert_eq!(file.take_level("e").unwrap(), None);
}

#[test]
fn a_taken_setting_of_the_wrong_kind_is_gone_too() {
    let mut file = ConfigFile::parse("a = 1\nb = \"x\"\n", PATH, "/work").unwrap();
    let e = file.take_bool("a").unwrap_err();
    assert_eq!((e.kind, e.subject.as_str()), (Fault::NotBoolean, "a"));
    assert_eq!(file.take_u64("a").unwrap(), None);
    let e = file.take_usize("b").unwrap_err();
    assert_eq!((e.kind, e.subject.as_str()), (Fault::NotInteger, "b"));
    assert!(file.check_exhausted().is_ok());
}

#[test]
fn the_base_configuration_follows_what_was_found() {
    let e = Config::base_config(Some("/x/conf.toml"), None, Some("/home/u"), "/work", 1).unwrap_err();
    assert_eq!((e.kind, e.subject.as_str()), (Fault::CannotRead, "/x/conf.toml"));
    let e = Config::base_config(None, None, None, "/work", 1).unwrap_err();
    assert_eq!((e.kind, e.subject.as_str()), (Fault::NoHome, ""));
    let c = Config::base_config(None, None, Some("/home/u"), "/work", 5).unwrap();
    assert_eq!(c.cache_dir, "/home/u/.rpki-cache/repository");
    assert_eq!(c.tal_dir, "/home/u/.rpki-cache/tals");
    assert_eq!(c.validation_threads, 5);
    let c = Config::base_config(None, Some(MINIMAL), Some("/home/u"), "/work", 5).unwrap();
    assert_eq!(c.tal_dir, "/home/u/tals");
    let c = Config::base_config(Some("/x/conf.toml"), Some(MINIMAL), None, "/work", 5).unwrap();
    assert_eq!(c.tal_dir, "/x/tals");
    assert_eq!(Config::config_file_path(Some("/x/conf.toml")), Some("/x/conf.toml".to_string()));
    let e = Config::create_base_config(Some("/none.toml"), None, "/work").unwrap_err();
    assert_eq!((e.kind, e.subject.as_str()), (Fault::CannotRead, "/none.toml"));
    let c = Config::create_base_config(Some("/x/conf.toml"), Some(MINIMAL), "/work").unwrap();
    assert_eq!(c.cache_dir, "/var/cache/repo");
    assert!(c.validation_threads >= 1);
}

#[test]
fn the_log_sink_follows_target_and_mode() {
    let mut c = Config::with_threads("/c".to_string(), "/t".to_string(), 1);
    c.log_level = LogLevel::Info;
    c.log_target = LogTarget::Default(Facility::Local1);
    assert!(matches!(c.log_sink(true), (LogSink::Syslog(Facility::Local1), LogLevel::Info)));
    assert!(matches!(c.log_sink(false), (LogSink::Stderr, LogLevel::Info)));
    c.log_target = LogTarget::Syslog(Facility::User);
    assert!(matches!(c.log_sink(false), (LogSink::Syslog(Facility::User), _)));
    c.log_target = LogTarget::Stderr;
    assert!(matches!(c.log_sink(true), (LogSink::Stderr, _)));
    c.log_target = LogTarget::File("/var/log/r.log".to_string());
    match c.log_sink(true) {
        (LogSink::File(p), _) => assert_eq!(p, "/var/log/r.log"),
        _ => panic!("the sink is no file"),
    }
}

#[test]
fn the_core_takes_its_values_from_the_configuration() {
    let mut c = Config::with_threads("/c".to_string(), "/t".to_string(), 1);
    assert_eq!(c.timing(), Timing { refresh: 3600, retry: 600, expire: 7200 });
    assert_eq!(c.policy(), Policy { strict: false, allow_expired: false, max_depth: DEFAULT_MAX_DEPTH });
    c.strict = true;
    c.refresh = u64::MAX;
    assert_eq!(c.timing().refresh, u32::MAX);
    assert!(c.policy().strict);
    assert_eq!(to_u32(0x1_0000_0000), u32::MAX);
    assert_eq!(to_u32(77), 77);
    assert!(same_text("abc", "abc"));
    assert!(!same_text("abc", "abd"));
}

#[test]
fn the_defaults_on_this_machine_lie_below_the_home_directory_if_there_is_one() {
    match Config::default_config() {
        Ok(c) => {
            assert!(c.cache_dir.ends_with(".rpki-cache/repository"));
            assert!(c.tal_dir.ends_with(".rpki-cache/tals"));
            assert_eq!(
                c.cache_dir.trim_end_matches("repository"),
                c.tal_dir.trim_end_matches("tals")
            );
            assert!(c.validation_threads >= 1);
            let file = Config::config_file_path(None).unwrap();
            assert!(file.ends_with(".routinator.toml"));
            assert_eq!(
                file.trim_end_matches(".routinator.toml"),
                c.cache_dir.trim_end_matches(".rpki-cache/repository")
            );
        }
        Err(e) => {
            assert_eq!((e.kind, e.subject.as_str()), (Fault::NoHome, ""));
            assert_eq!(Config::config_file_path(None), None);
        }
    }
}

#[test]
fn a_relative_path_starts_from_the_current_directory() {
    let file = ConfigFile::parse(MINIMAL, "conf/r.toml", "/a/b").unwrap();
    assert_eq!(file.path(), "conf/r.toml");
    assert_eq!(file.dir(), "/a/b/conf");
    let file = ConfigFile::parse(MINIMAL, "/etc/r.toml", "/a/b").unwrap();
    assert_eq!(file.dir(), "/etc");
    let file = ConfigFile::parse(MINIMAL, "r.toml", "/a/b").unwrap();
    assert_eq!(file.dir(), "/a/b");
    let c = Config::parsed(MINIMAL, "conf/r.toml", "/a/b", 1).unwrap();
    assert_eq!(c.tal_dir, "/a/b/conf/tals");
    assert_eq!(c.cache_dir, "/var/cache/repo");
    let c = Config::base_config(Some("r.toml"), Some(MINIMAL), None, "/a/b", 1).unwrap();
    assert_eq!(c.tal_dir, "/a/b/tals");
}

#[test]
fn a_configuration_can_be_copied() {
    let c = Config::parsed(MINIMAL, PATH, "/work", 6).unwrap();
    let d = c.clone();
    assert_eq!(c.cache_dir, d.cache_dir);
    assert_eq!(c.tal_dir, d.tal_dir);
    assert_eq!(c.tcp_listen, d.tcp_listen);
    assert!(target_is(&c.log_target, &d.log_target.clone()));
}
