use clap::ArgMatches;
use routinator::config::cli::{arg_table, config_app, ArgSpec};
use routinator::config::error::{ConfigError, Fault};
use routinator::config::args::{join_all, u64_value_of, usize_value_of};
use routinator::config::settings::{Config, Facility, LogLevel, LogTarget};

const CUR: &str = "/work";

fn matches(args: &[&str]) -> ArgMatches<'static> {
    let mut line = vec!["routinator"];
    line.extend_from_slice(args);
    config_app("routinator").get_matches_from_safe(line).unwrap()
}

fn base() -> Config {
    let mut c = Config::with_threads("/base/repo".to_string(), "/base/tals".to_string(), 3);
    c.exceptions = vec!["/base/ex.json".to_string()];
    c.refresh = 99;
    c.retry = 98;
    c.expire = 97;
    c.history_size = 96;
    c.rsync_count = 95;
    c.tcp_listen = vec!["192.0.2.1:323".to_string()];
    c.log_level = LogLevel::Trace;
    c.log_target = LogTarget::Default(Facility::Cron);
    c
}

fn configured(args: &[&str]) -> Config {
    Config::from_arg_matches(&matches(args), CUR, base()).unwrap()
}

fn fault(args: &[&str]) -> (Fault, String) {
    match Config::from_arg_matches(&matches(args), CUR, base()) {
        Ok(_) => panic!("the arguments were accepted"),
        Err(ConfigError { kind, subject }) => (kind, subject),
    }
}

#[test]
fn the_table_holds_the_arguments() {
    let table = arg_table();
    let names: Vec<&str> = table.iter().map(|a| a.name).collect();
    assert_eq!(
        names,
        vec![
            "config",
            "base-dir",
            "repository-dir",
            "tal-dir",
            "exceptions",
            "strict",
            "rsync-count",
            "validation-threads",
            "refresh",
            "retry",
            "expire",
            "history",
            "listen",
            "verbose",
            "quiet",
            "syslog",
            "syslog-facility",
            "logfile"
        ]
    );
    let find = |name: &str| -> ArgSpec { *table.iter().find(|a| a.name == name).unwrap() };
    assert_eq!(find("refresh").default_value, Some("3600"));
    assert_eq!(find("retry").default_value, Some("600"));
    assert_eq!(find("expire").default_value, Some("7200"));
    assert_eq!(find("history").default_value, Some("10"));
    assert_eq!(find("syslog-facility").default_value, Some("daemon"));
    assert_eq!(find("quiet").conflicts_with, Some("verbose"));
    assert_eq!(find("config").short, Some('c'));
    assert_eq!(find("listen").short, Some('l'));
    assert!(find("exceptions").multiple);
    assert!(!find("strict").takes_value);
}

#[test]
fn the_parser_knows_long_and_short_forms() {
    let m = matches(&["-c", "conf.toml", "-b", "base", "-x", "a.json", "-x", "b.json", "-vv"]);
    assert_eq!(m.value_of("config"), Some("conf.toml"));
    assert_eq!(m.value_of("base-dir"), Some("base"));
    assert_eq!(m.values_of("exceptions").unwrap().collect::<Vec<_>>(), vec!["a.json", "b.json"]);
    assert_eq!(m.occurrences_of("verbose"), 2);
    assert!(config_app("routinator").get_matches_from_safe(vec!["routinator", "-v", "-q"]).is_err());
    assert!(config_app("routinator").get_matches_from_safe(vec!["routinator", "--nope"]).is_err());
    let own = Config::config_args(clap::App::new("other")).get_matches_from_safe(vec!["other", "--strict"]);
    assert!(own.unwrap().is_present("strict"));
}

#[test]
fn without_arguments_the_base_stays_but_for_the_defaults_of_the_parser() {
    let c = configured(&[]);
    assert_eq!(c.cache_dir, "/base/repo");
    assert_eq!(c.tal_dir, "/base/tals");
    assert_eq!(c.exceptions, vec!["/base/ex.json".to_string()]);
    assert!(!c.strict);
    assert_eq!(c.rsync_count, 95);
    assert_eq!(c.validation_threads, 3);
    assert_eq!((c.refresh, c.retry, c.expire), (3600, 600, 7200));
    assert_eq!(c.history_size, 10);
    assert_eq!(c.tcp_listen, vec!["192.0.2.1:323".to_string()]);
    assert_eq!(c.log_level, LogLevel::Trace);
    assert!(matches!(c.log_target, LogTarget::Default(Facility::Cron)));
}

#[test]
fn directories_come_from_their_own_argument_or_the_base_directory() {
    let c = configured(&["--base-dir", "data"]);
    assert_eq!(c.cache_dir, "/work/data/repository");
    assert_eq!(c.tal_dir, "/work/data/tals");
    let c = configured(&["--base-dir", "data", "--repository-dir", "/abs/repo"]);
    assert_eq!(c.cache_dir, "/abs/repo");
    assert_eq!(c.tal_dir, "/work/data/tals");
    let c = configured(&["-t", "my-tals"]);
    assert_eq!(c.cache_dir, "/base/repo");
    assert_eq!(c.tal_dir, "/work/my-tals");
    let c = configured(&["-r", "cache", "-t", "/abs/tals", "-b", "ignored"]);
    assert_eq!(c.cache_dir, "/work/cache");
    assert_eq!(c.tal_dir, "/abs/tals");
}

#[test]
fn values_replace_what_the_base_says() {
    let c = configured(&[
        "--strict",
        "--rsync-count",
        "7",
        "--validation-threads",
        "+12",
        "--refresh",
        "1",
        "--retry",
        "2",
        "--expire",
        "3",
        "--history",
        "0",
        "-l",
        "127.0.0.1:3323",
        "--listen",
        "[::1]:3323",
        "-x",
        "a.json",
        "-x",
        "/b.json",
    ]);
    assert!(c.strict);
    assert_eq!(c.rsync_count, 7);
    assert_eq!(c.validation_threads, 12);
    assert_eq!((c.refresh, c.retry, c.expire), (1, 2, 3));
    assert_eq!(c.history_size, 0);
    assert_eq!(c.tcp_listen, vec!["127.0.0.1:3323".to_string(), "[::1]:3323".to_string()]);
    assert_eq!(c.exceptions, vec!["/work/a.json".to_string(), "/b.json".to_string()]);
}

#[test]
fn numbers_that_do_not_read_are_errors() {
    assert_eq!(fault(&["--rsync-count", "many"]), (Fault::InvalidArgument, "rsync-count".to_string()));
    assert_eq!(
        fault(&["--validation-threads", "1.5"]),
        (Fault::InvalidArgument, "validation-threads".to_string())
    );
    assert_eq!(fault(&["--refresh", "1h"]), (Fault::InvalidArgument, "refresh".to_string()));
    assert_eq!(fault(&["--retry", ""]), (Fault::InvalidArgument, "retry".to_string()));
    assert_eq!(
        fault(&["--expire", "18446744073709551616"]),
        (Fault::InvalidArgument, "expire".to_string())
    );
    assert_eq!(fault(&["--history", " 5"]), (Fault::InvalidArgument, "history".to_string()));
    assert_eq!(
        fault(&["--refresh", "x", "--rsync-count", "y"]),
        (Fault::InvalidArgument, "rsync-count".to_string())
    );
    let c = configured(&["--expire", "18446744073709551615", "--refresh", "007"]);
    assert_eq!(c.expire, u64::MAX);
    assert_eq!(c.refresh, 7);
}

#[test]
fn verbose_and_quiet_set_the_log_level() {
    assert_eq!(configured(&["-v"]).log_level, LogLevel::Info);
    assert_eq!(configured(&["-vv"]).log_level, LogLevel::Debug);
    assert_eq!(configured(&["-v", "-v", "-v"]).log_level, LogLevel::Debug);
    assert_eq!(configured(&["-q"]).log_level, LogLevel::Error);
    assert_eq!(configured(&["-qq"]).log_level, LogLevel::Off);
    assert_eq!(configured(&["--quiet", "--quiet", "--quiet"]).log_level, LogLevel::Off);
}

#[test]
fn the_log_target_comes_from_syslog_or_logfile() {
    assert!(matches!(configured(&["--syslog"]).log_target, LogTarget::Syslog(Facility::Daemon)));
    assert!(matches!(
        configured(&["--syslog", "--syslog-facility", "local2"]).log_target,
        LogTarget::Syslog(Facility::Local2)
    ));
    assert!(matches!(
        configured(&["--syslog-facility", "local2"]).log_target,
        LogTarget::Default(Facility::Cron)
    ));
    assert!(matches!(configured(&["--logfile", "-"]).log_target, LogTarget::Stderr));
    match configured(&["--logfile", "r.log"]).log_target {
        LogTarget::File(p) => assert_eq!(p, "/work/r.log"),
        _ => panic!("the target is no file"),
    }
    assert!(matches!(
        configured(&["--syslog", "--logfile", "r.log"]).log_target,
        LogTarget::Syslog(Facility::Daemon)
    ));
    assert_eq!(
        fault(&["--syslog", "--syslog-facility", "nope"]),
        (Fault::InvalidFacility, "nope".to_string())
    );
}

#[test]
fn paths_start_from_the_directory_given() {
    let m = matches(&["-c", "conf.toml"]);
    assert_eq!(Config::path_value_of(&m, "config", "/here"), Some("/here/conf.toml".to_string()));
    assert_eq!(Config::path_value_of(&m, "logfile", "/here"), None);
    let m = matches(&["-c", "/abs/conf.toml"]);
    assert_eq!(Config::path_value_of(&m, "config", "/here"), Some("/abs/conf.toml".to_string()));
    assert_eq!(
        join_all("/d", &vec!["a".to_string(), "/b".to_string(), "c/d".to_string()]),
        vec!["/d/a".to_string(), "/b".to_string(), "/d/c/d".to_string()]
    );
}

#[test]
fn numbers_are_read_from_single_arguments() {
    let m = matches(&["--rsync-count", "12", "--refresh", "+5"]);
    assert_eq!(usize_value_of(&m, "rsync-count").unwrap(), Some(12));
    assert_eq!(usize_value_of(&m, "validation-threads").unwrap(), None);
    assert_eq!(u64_value_of(&m, "refresh").unwrap(), Some(5));
    assert_eq!(u64_value_of(&m, "retry").unwrap(), Some(600));
    let m = matches(&["--rsync-count=-12", "--refresh", "0x10"]);
    assert_eq!(usize_value_of(&m, "rsync-count").unwrap_err().kind, Fault::InvalidArgument);
    assert_eq!(u64_value_of(&m, "refresh").unwrap_err().kind, Fault::InvalidArgument);
}

#[test]
fn the_arguments_go_into_a_parser_that_holds_others() {
    let app = clap::App::new("other")
        .arg(clap::Arg::with_name("input").index(1))
        .arg(clap::Arg::with_name("dry").long("dry-run").short("n"))
        .arg(clap::Arg::with_name("only-short").short("o"));
    let m = Config::config_args(app)
        .get_matches_from_safe(vec!["other", "file.txt", "-n", "--strict", "--refresh", "5"])
        .unwrap();
    assert_eq!(m.value_of("input"), Some("file.txt"));
    assert!(m.is_present("dry"));
    assert!(m.is_present("strict"));
    assert_eq!(m.value_of("refresh"), Some("5"));
}

#[test]
fn an_argument_with_a_value_name_or_a_default_takes_a_value() {
    let m = matches(&["--history", "3", "--retry=9"]);
    assert_eq!(m.value_of("history"), Some("3"));
    assert_eq!(m.value_of("retry"), Some("9"));
    assert_eq!(m.value_of("expire"), Some("7200"));
    assert_eq!(m.occurrences_of("expire"), 0);
    assert_eq!(m.occurrences_of("retry"), 1);
}
