//! The settings themselves.

use vstd::prelude::*;
use vstd::string::StringExecFns;

verus! {

/// Validation is relaxed unless asked otherwise.
pub const DEFAULT_STRICT: bool = false;

/// The number of parallel rsync commands.
pub const DEFAULT_RSYNC_COUNT: usize = 4;

/// The refresh interval, in seconds.
pub const DEFAULT_REFRESH: u64 = 3600;

/// The retry interval, in seconds.
pub const DEFAULT_RETRY: u64 = 600;

/// The expire interval, in seconds.
pub const DEFAULT_EXPIRE: u64 = 7200;

/// The number of differences kept.
pub const DEFAULT_HISTORY_SIZE: usize = 10;

/// The most authorities below a trust anchor on one path.
pub const DEFAULT_MAX_DEPTH: u32 = 32;

/// Which messages are logged.
#[derive(Clone, Copy, Debug, PartialEq, Eq, Structural)]
pub enum LogLevel {
    Off,
    Error,
    Warn,
    Info,
    Debug,
    Trace,
}

/// A syslog facility.
#[derive(Clone, Copy, Debug, PartialEq, Eq, Structural)]
pub enum Facility {
    Kern,
    User,
    Mail,
    Daemon,
    Auth,
    Syslog,
    Lpr,
    News,
    Uucp,
    Cron,
    Authpriv,
    Ftp,
    Local0,
    Local1,
    Local2,
    Local3,
    Local4,
    Local5,
    Local6,
    Local7,
}

/// The number of a facility in a syslog message: its code times eight.
pub open spec fn facility_number(f: Facility) -> u8 {
    match f {
        Facility::Kern => 0,
        Facility::User => 8,
        Facility::Mail => 16,
        Facility::Daemon => 24,
        Facility::Auth => 32,
        Facility::Syslog => 40,
        Facility::Lpr => 48,
        Facility::News => 56,
        Facility::Uucp => 64,
        Facility::Cron => 72,
        Facility::Authpriv => 80,
        Facility::Ftp => 88,
        Facility::Local0 => 128,
        Facility::Local1 => 136,
        Facility::Local2 => 144,
        Facility::Local3 => 152,
        Facility::Local4 => 160,
        Facility::Local5 => 168,
        Facility::Local6 => 176,
        Facility::Local7 => 184,
    }
}

/// The facility with the given number.
pub open spec fn facility_numbered(n: u8) -> Option<Facility> {
    if n == 0 {
        Some(Facility::Kern)
    } else if n == 8 {
        Some(Facility::User)
    } else if n == 16 {
        Some(Facility::Mail)
    } else if n == 24 {
        Some(Facility::Daemon)
    } else if n == 32 {
        Some(Facility::Auth)
    } else if n == 40 {
        Some(Facility::Syslog)
    } else if n == 48 {
        Some(Facility::Lpr)
    } else if n == 56 {
        Some(Facility::News)
    } else if n == 64 {
        Some(Facility::Uucp)
    } else if n == 72 {
        Some(Facility::Cron)
    } else if n == 80 {
        Some(Facility::Authpriv)
    } else if n == 88 {
        Some(Facility::Ftp)
    } else if n == 128 {
        Some(Facility::Local0)
    } else if n == 136 {
        Some(Facility::Local1)
    } else if n == 144 {
        Some(Facility::Local2)
    } else if n == 152 {
        Some(Facility::Local3)
    } else if n == 160 {
        Some(Facility::Local4)
    } else if n == 168 {
        Some(Facility::Local5)
    } else if n == 176 {
        Some(Facility::Local6)
    } else if n == 184 {
        Some(Facility::Local7)
    } else {
        None
    }
}

impl Facility {
    /// The number of the facility.
    pub fn number(self) -> (r: u8)
        ensures
            r == facility_number(self),
            facility_numbered(r) == Some(self),
    {
        match self {
            Facility::Kern => 0,
            Facility::User => 8,
            Facility::Mail => 16,
            Facility::Daemon => 24,
            Facility::Auth => 32,
            Facility::Syslog => 40,
            Facility::Lpr => 48,
            Facility::News => 56,
            Facility::Uucp => 64,
            Facility::Cron => 72,
            Facility::Authpriv => 80,
            Facility::Ftp => 88,
            Facility::Local0 => 128,
            Facility::Local1 => 136,
            Facility::Local2 => 144,
            Facility::Local3 => 152,
            Facility::Local4 => 160,
            Facility::Local5 => 168,
            Facility::Local6 => 176,
            Facility::Local7 => 184,
        }
    }

    /// The facility with the given number, if there is one.
    pub fn from_number(n: u8) -> (r: Option<Facility>)
        ensures
            r == facility_numbered(n),
            r matches Some(f) ==> facility_number(f) == n,
    {
        if n % 8 != 0 {
            return None;
        }
        match n / 8 {
            0 => Some(Facility::Kern),
            1 => Some(Facility::User),
            2 => Some(Facility::Mail),
            3 => Some(Facility::Daemon),
            4 => Some(Facility::Auth),
            5 => Some(Facility::Syslog),
            6 => Some(Facility::Lpr),
            7 => Some(Facility::News),
            8 => Some(Facility::Uucp),
            9 => Some(Facility::Cron),
            10 => Some(Facility::Authpriv),
            11 => Some(Facility::Ftp),
            16 => Some(Facility::Local0),
            17 => Some(Facility::Local1),
            18 => Some(Facility::Local2),
            19 => Some(Facility::Local3),
            20 => Some(Facility::Local4),
            21 => Some(Facility::Local5),
            22 => Some(Facility::Local6),
            23 => Some(Facility::Local7),
            _ => None,
        }
    }
}

/// Where to log to.
#[derive(Clone, Debug)]
pub enum LogTarget {
    /// Syslog with the given facility in daemon mode, standard error
    /// otherwise.
    Default(Facility),
    /// Syslog with the given facility.
    Syslog(Facility),
    /// Standard error.
    Stderr,
    /// The file with the given path.
    File(String),
}

/// A log target as plain values.
pub enum LogTargetView {
    Default(Facility),
    Syslog(Facility),
    Stderr,
    File(Seq<char>),
}

impl View for LogTarget {
    type V = LogTargetView;

    open spec fn view(&self) -> LogTargetView {
        match self {
            LogTarget::Default(f) => LogTargetView::Default(*f),
            LogTarget::Syslog(f) => LogTargetView::Syslog(*f),
            LogTarget::Stderr => LogTargetView::Stderr,
            LogTarget::File(p) => LogTargetView::File(p@),
        }
    }
}

/// The configuration.  Durations are in seconds; listen addresses are
/// held as written, address and port.
#[derive(Clone, Debug)]
pub struct Config {
    /// The directory that holds the repository cache.
    pub cache_dir: String,
    /// The directory that holds the trust anchor locators.
    pub tal_dir: String,
    /// The files with local exceptions.
    pub exceptions: Vec<String>,
    /// Whether validation is strict.
    pub strict: bool,
    /// The number of parallel rsync commands.
    pub rsync_count: usize,
    /// The number of parallel validations.
    pub validation_threads: usize,
    /// The interval between two validation runs.
    pub refresh: u64,
    /// The retry interval announced to clients.
    pub retry: u64,
    /// The expire interval announced to clients.
    pub expire: u64,
    /// How many differences the history keeps.
    pub history_size: usize,
    /// The addresses to listen on for RTR over TCP.
    pub tcp_listen: Vec<String>,
    /// Which messages are logged.
    pub log_level: LogLevel,
    /// Where they are logged to.
    pub log_target: LogTarget,
}

/// A configuration as plain values.
pub struct ConfigView {
    pub cache_dir: Seq<char>,
    pub tal_dir: Seq<char>,
    pub exceptions: Seq<Seq<char>>,
    pub strict: bool,
    pub rsync_count: usize,
    pub validation_threads: usize,
    pub refresh: u64,
    pub retry: u64,
    pub expire: u64,
    pub history_size: usize,
    pub tcp_listen: Seq<Seq<char>>,
    pub log_level: LogLevel,
    pub log_target: LogTargetView,
}

/// The texts of a list of strings.
pub open spec fn texts(list: Seq<String>) -> Seq<Seq<char>> {
    list.map_values(|s: String| s@)
}

impl View for Config {
    type V = ConfigView;

    open spec fn view(&self) -> ConfigView {
        ConfigView {
            cache_dir: self.cache_dir@,
            tal_dir: self.tal_dir@,
            exceptions: texts(self.exceptions@),
            strict: self.strict,
            rsync_count: self.rsync_count,
            validation_threads: self.validation_threads,
            refresh: self.refresh,
            retry: self.retry,
            expire: self.expire,
            history_size: self.history_size,
            tcp_listen: texts(self.tcp_listen@),
            log_level: self.log_level,
            log_target: self.log_target@,
        }
    }
}

/// The configuration that holds where nothing was configured but the two
/// directories and the number of validation threads.
pub open spec fn default_view(cache_dir: Seq<char>, tal_dir: Seq<char>, threads: usize) -> ConfigView {
    ConfigView {
        cache_dir,
        tal_dir,
        exceptions: Seq::empty(),
        strict: DEFAULT_STRICT,
        rsync_count: DEFAULT_RSYNC_COUNT,
        validation_threads: threads,
        refresh: DEFAULT_REFRESH,
        retry: DEFAULT_RETRY,
        expire: DEFAULT_EXPIRE,
        history_size: DEFAULT_HISTORY_SIZE,
        tcp_listen: seq!["127.0.0.1:3323"@],
        log_level: LogLevel::Warn,
        log_target: LogTargetView::Stderr,
    }
}

/// The number of processors of this machine, as `num_cpus::get` counts
/// them.  Nothing is claimed of the number.
#[verifier::external_body]
pub(crate) fn cpu_count() -> usize {
    num_cpus::get()
}

impl Config {
    /// The default configuration for the given directories and number of
    /// validation threads.
    pub fn with_threads(cache_dir: String, tal_dir: String, threads: usize) -> (r: Config)
        ensures
            r@ == default_view(cache_dir@, tal_dir@, threads),
    {
        let mut tcp_listen: Vec<String> = Vec::new();
        tcp_listen.push(String::from_str("127.0.0.1:3323"));
        let r = Config {
            cache_dir,
            tal_dir,
            exceptions: Vec::new(),
            strict: DEFAULT_STRICT,
            rsync_count: DEFAULT_RSYNC_COUNT,
            validation_threads: threads,
            refresh: DEFAULT_REFRESH,
            retry: DEFAULT_RETRY,
            expire: DEFAULT_EXPIRE,
            history_size: DEFAULT_HISTORY_SIZE,
            tcp_listen,
            log_level: LogLevel::Warn,
            log_target: LogTarget::Stderr,
        };
        assert(r@.exceptions =~= Seq::<Seq<char>>::empty());
        assert(r@.tcp_listen =~= seq!["127.0.0.1:3323"@]);
        r
    }

    /// The default configuration for the given directories, with as many
    /// validation threads as the machine has processors.
    pub fn default_with_paths(cache_dir: String, tal_dir: String) -> (r: Config)
        ensures
            r@ == default_view(cache_dir@, tal_dir@, r.validation_threads),
    {
        Config::with_threads(cache_dir, tal_dir, cpu_count())
    }

    /// The validation policy: as strict as configured, with no expired
    /// trust anchor accepted.
    pub fn policy(&self) -> (r: crate::validation::objects::Policy)
        ensures
            r == (crate::validation::objects::Policy {
                strict: self.strict,
                allow_expired: false,
                max_depth: DEFAULT_MAX_DEPTH,
            }),
    {
        crate::validation::objects::Policy {
            strict: self.strict,
            allow_expired: false,
            max_depth: DEFAULT_MAX_DEPTH,
        }
    }

    /// The intervals that the cache announces to its clients.  An interval
    /// of more seconds than the protocol can carry is announced as the
    /// most it can.
    pub fn timing(&self) -> (r: crate::rtr::pdu::Timing)
        ensures
            r.refresh == clamp32(self.refresh),
            r.retry == clamp32(self.retry),
            r.expire == clamp32(self.expire),
    {
        crate::rtr::pdu::Timing {
            refresh: to_u32(self.refresh),
            retry: to_u32(self.retry),
            expire: to_u32(self.expire),
        }
    }
}

/// `x`, or the largest `u32` where `x` is larger.
pub open spec fn clamp32(x: u64) -> u32 {
    if x > u32::MAX {
        u32::MAX
    } else {
        x as u32
    }
}

/// Computes `clamp32`.
pub fn to_u32(x: u64) -> (r: u32)
    ensures
        r == clamp32(x),
{
    if x > 0xffff_ffff {
        0xffff_ffff
    } else {
        x as u32
    }
}

} // verus!
