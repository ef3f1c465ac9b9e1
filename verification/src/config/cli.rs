//! The arguments of the command line, as a table, and the parser that is
//! built from it.

use vstd::prelude::*;
use crate::config::settings::Config;

verus! {

/// `clap::App`, the command line parser, as a type that is carried
/// through and not looked into.
#[verifier::external_type_specification]
#[verifier::external_body]
pub struct ExApp<'a, 'b>(clap::App<'a, 'b>) where 'a: 'b;

/// An argument of the command line: an option or a flag.  Its long form
/// is its name.
#[derive(Clone, Copy, Debug)]
pub struct ArgSpec {
    pub name: &'static str,
    pub short: Option<char>,
    pub value_name: Option<&'static str>,
    pub help: &'static str,
    pub takes_value: bool,
    pub multiple: bool,
    pub default_value: Option<&'static str>,
    pub conflicts_with: Option<&'static str>,
}

/// An option or a flag as a parser holds it.
pub struct ArgView {
    pub name: Seq<char>,
    pub long: Option<Seq<char>>,
    pub short: Option<char>,
    /// The first name of its value.
    pub value_name: Option<Seq<char>>,
    pub help: Option<Seq<char>>,
    /// Whether it takes a value: as asked for, or because it was given a
    /// value name or a default.
    pub takes_value: bool,
    pub multiple: bool,
    pub default_value: Option<Seq<char>>,
    /// The names of the arguments it cannot stand with.
    pub conflicts_with: Seq<Seq<char>>,
}

/// The text of a string that may be there.
pub open spec fn text_of(s: Option<&'static str>) -> Option<Seq<char>> {
    match s {
        Some(t) => Some(t@),
        None => None,
    }
}

impl View for ArgSpec {
    type V = ArgView;

    open spec fn view(&self) -> ArgView {
        ArgView {
            name: self.name@,
            long: Some(self.name@),
            short: self.short,
            value_name: text_of(self.value_name),
            help: Some(self.help@),
            takes_value: self.takes_value || self.value_name is Some
                || self.default_value is Some,
            multiple: self.multiple,
            default_value: text_of(self.default_value),
            conflicts_with: match self.conflicts_with {
                Some(c) => seq![c@],
                None => Seq::empty(),
            },
        }
    }
}

/// What a command line parser holds, as far as adding arguments goes.
pub struct AppModel {
    /// The names of its arguments, positional ones too.
    pub names: Set<Seq<char>>,
    /// The long forms in use.
    pub longs: Set<Seq<char>>,
    /// The short forms in use.
    pub shorts: Set<char>,
    /// Whether a positional argument holds the index one above the number
    /// of positional arguments, so that the indices below it have a gap.
    pub gap: bool,
    /// Its options and flags, in the order they were added.
    pub args: Seq<ArgView>,
}

/// What a `clap::App` holds.
pub uninterp spec fn app_model(app: clap::App<'_, '_>) -> AppModel;

impl AppModel {
    /// A parser without arguments.
    pub open spec fn empty() -> AppModel {
        AppModel {
            names: Set::empty(),
            longs: Set::empty(),
            shorts: Set::empty(),
            gap: false,
            args: Seq::empty(),
        }
    }

    /// Whether the parser has room for an argument: its name is neither a
    /// name nor a long form in use, its short form is not in use, and the
    /// positional indices have no gap.
    pub open spec fn free_for(self, spec: ArgSpec) -> bool {
        &&& !self.names.contains(spec.name@)
        &&& !self.longs.contains(spec.name@)
        &&& spec.short matches Some(c) ==> !self.shorts.contains(c)
        &&& !self.gap
    }

    /// Whether an argument can be added: the parser has room for it, and
    /// neither its name nor its short form starts with a hyphen.
    pub open spec fn admits(self, spec: ArgSpec) -> bool {
        &&& self.free_for(spec)
        &&& spec.name@.len() > 0 ==> spec.name@[0] != '-'
        &&& spec.short != Some('-')
    }

    /// The parser with one more argument.
    pub open spec fn with(self, spec: ArgSpec) -> AppModel {
        AppModel {
            names: self.names.insert(spec.name@),
            longs: self.longs.insert(spec.name@),
            shorts: match spec.short {
                Some(c) => self.shorts.insert(c),
                None => self.shorts,
            },
            gap: self.gap,
            args: self.args.push(spec@),
        }
    }

    /// The parser with more arguments, added in order.
    pub open spec fn with_all(self, specs: Seq<ArgSpec>) -> AppModel
        decreases specs.len(),
    {
        if specs.len() == 0 {
            self
        } else {
            self.with_all(specs.drop_last()).with(specs.last())
        }
    }

    /// Whether the parser has room for every argument of the table.
    pub open spec fn admits_table(self) -> bool {
        forall|i: int| 0 <= i < table().len() ==> self.free_for(#[trigger] table()[i])
    }
}

/// A parser with the given program name and no argument yet, from
/// `clap::App::new`.
#[verifier::external_body]
fn new_app(name: &str) -> (r: clap::App<'static, 'static>)
    ensures
        app_model(r) == AppModel::empty(),
{
    clap::App::new(name)
}

/// Adds an argument with `clap::App::arg`: an option or a flag named
/// `spec.name` on the command line, with the short form, value name, help
/// text, default and conflict that `spec` gives.  An argument with a value
/// name or a default takes a value, whatever was asked for.  In its
/// checked builds clap panics where a name, a long or a short form is
/// used twice, or where the positional indices have a gap, which the
/// precondition rules out; it strips leading hyphens, so none may be
/// there.
#[verifier::external_body]
fn with_arg<'a: 'b, 'b>(app: clap::App<'a, 'b>, spec: &ArgSpec) -> (r: clap::App<'a, 'b>)
    requires
        app_model(app).admits(*spec),
    ensures
        app_model(r) == app_model(app).with(*spec),
{
    let mut arg = clap::Arg::with_name(spec.name).long(spec.name).help(spec.help);
    arg = arg.takes_value(spec.takes_value).multiple(spec.multiple);
    if let Some(c) = spec.short {
        arg = arg.short(c.to_string());
    }
    if let Some(v) = spec.value_name {
        arg = arg.value_name(v);
    }
    if let Some(v) = spec.default_value {
        arg = arg.default_value(v);
    }
    if let Some(v) = spec.conflicts_with {
        arg = arg.conflicts_with(v);
    }
    app.arg(arg)
}

/// The arguments that configure the relying party.
pub open spec fn table() -> Seq<ArgSpec> {
    seq![
        ArgSpec {
            name: "config",
            short: Some('c'),
            value_name: Some("PATH"),
            help: "read base configuration from this file",
            takes_value: true,
            multiple: false,
            default_value: None,
            conflicts_with: None,
        },
        ArgSpec {
            name: "base-dir",
            short: Some('b'),
            value_name: Some("DIR"),
            help: "sets the base directory for cache and TALs",
            takes_value: true,
            multiple: false,
            default_value: None,
            conflicts_with: None,
        },
        ArgSpec {
            name: "repository-dir",
            short: Some('r'),
            value_name: Some("DIR"),
            help: "sets the repository cache directory",
            takes_value: true,
            multiple: false,
            default_value: None,
            conflicts_with: None,
        },
        ArgSpec {
            name: "tal-dir",
            short: Some('t'),
            value_name: Some("DIR"),
            help: "sets the TAL directory",
            takes_value: true,
            multiple: false,
            default_value: None,
            conflicts_with: None,
        },
        ArgSpec {
            name: "exceptions",
            short: Some('x'),
            value_name: Some("FILE"),
            help: "file with local exceptions (see RFC 8416 for format)",
            takes_value: true,
            multiple: true,
            default_value: None,
            conflicts_with: None,
        },
        ArgSpec {
            name: "strict",
            short: None,
            value_name: None,
            help: "parse RPKI data in strict mode",
            takes_value: false,
            multiple: false,
            default_value: None,
            conflicts_with: None,
        },
        ArgSpec {
            name: "rsync-count",
            short: None,
            value_name: Some("COUNT"),
            help: "number of parallel rsync commands",
            takes_value: true,
            multiple: false,
            default_value: None,
            conflicts_with: None,
        },
        ArgSpec {
            name: "validation-threads",
            short: None,
            value_name: Some("COUNT"),
            help: "number of threads for validation",
            takes_value: true,
            multiple: false,
            default_value: None,
            conflicts_with: None,
        },
        ArgSpec {
            name: "refresh",
            short: None,
            value_name: Some("SECONDS"),
            help: "refresh interval in seconds",
            takes_value: true,
            multiple: false,
            default_value: Some("3600"),
            conflicts_with: None,
        },
        ArgSpec {
            name: "retry",
            short: None,
            value_name: Some("SECONDS"),
            help: "RTR retry interval in seconds",
            takes_value: true,
            multiple: false,
            default_value: Some("600"),
            conflicts_with: None,
        },
        ArgSpec {
            name: "expire",
            short: None,
            value_name: Some("SECONDS"),
            help: "RTR expire interval in seconds",
            takes_value: true,
            multiple: false,
            default_value: Some("7200"),
            conflicts_with: None,
        },
        ArgSpec {
            name: "history",
            short: None,
            value_name: Some("COUNT"),
            help: "number of history items to keep in repeat mode",
            takes_value: true,
            multiple: false,
            default_value: Some("10"),
            conflicts_with: None,
        },
        ArgSpec {
            name: "listen",
            short: Some('l'),
            value_name: Some("ADDR:PORT"),
            help: "listen addr:port for RTR.",
            takes_value: true,
            multiple: true,
            default_value: None,
            conflicts_with: None,
        },
        ArgSpec {
            name: "verbose",
            short: Some('v'),
            value_name: None,
            help: "log more information, twice for even more",
            takes_value: false,
            multiple: true,
            default_value: None,
            conflicts_with: None,
        },
        ArgSpec {
            name: "quiet",
            short: Some('q'),
            value_name: None,
            help: "log less information, twice for no information",
            takes_value: false,
            multiple: true,
            default_value: None,
            conflicts_with: Some("verbose"),
        },
        ArgSpec {
            name: "syslog",
            short: None,
            value_name: None,
            help: "log to syslog",
            takes_value: false,
            multiple: false,
            default_value: None,
            conflicts_with: None,
        },
        ArgSpec {
            name: "syslog-facility",
            short: None,
            value_name: None,
            help: "facility to use for syslog logging",
            takes_value: true,
            multiple: false,
            default_value: Some("daemon"),
            conflicts_with: None,
        },
        ArgSpec {
            name: "logfile",
            short: None,
            value_name: Some("PATH"),
            help: "log to this file",
            takes_value: true,
            multiple: false,
            default_value: None,
            conflicts_with: None,
        },
    ]
}

/// The place of a name in the table.
pub open spec fn place_of(s: Seq<char>) -> int {
    if s.len() == 6 && s[0] == 'c' {
        0
    } else if s.len() == 8 {
        1
    } else if s.len() == 14 {
        2
    } else if s.len() == 7 && s[0] == 't' {
        3
    } else if s.len() == 10 {
        4
    } else if s.len() == 6 && s[1] == 't' {
        5
    } else if s.len() == 11 {
        6
    } else if s.len() == 18 {
        7
    } else if s.len() == 7 && s[0] == 'r' {
        8
    } else if s.len() == 5 && s[0] == 'r' {
        9
    } else if s.len() == 6 && s[0] == 'e' {
        10
    } else if s.len() == 7 && s[0] == 'h' {
        11
    } else if s.len() == 6 && s[0] == 'l' {
        12
    } else if s.len() == 7 && s[0] == 'v' {
        13
    } else if s.len() == 5 && s[0] == 'q' {
        14
    } else if s.len() == 6 && s[1] == 'y' {
        15
    } else if s.len() == 15 {
        16
    } else if s.len() == 7 && s[0] == 'l' {
        17
    } else {
        -1
    }
}

/// The place in the table of the argument with a short form.
pub open spec fn place_of_short(c: char) -> int {
    if c == 'c' {
        0
    } else if c == 'b' {
        1
    } else if c == 'r' {
        2
    } else if c == 't' {
        3
    } else if c == 'x' {
        4
    } else if c == 'l' {
        12
    } else if c == 'v' {
        13
    } else if c == 'q' {
        14
    } else {
        -1
    }
}

/// Each argument of the table stands at the place of its name and of its
/// short form, so that no two share either; and no name or short form
/// starts with a hyphen.
pub proof fn lemma_table_places()
    ensures
        table().len() == 18,
        forall|i: int| 0 <= i < table().len() ==> place_of((#[trigger] table()[i]).name@) == i,
        forall|i: int|
            0 <= i < table().len() ==> ((#[trigger] table()[i]).short matches Some(c)
                ==> place_of_short(c) == i && c != '-'),
        forall|i: int|
            0 <= i < table().len() ==> (#[trigger] table()[i]).name@.len() > 0
                && table()[i].name@[0] != '-',
{
    reveal_strlit("config");
    reveal_strlit("base-dir");
    reveal_strlit("repository-dir");
    reveal_strlit("tal-dir");
    reveal_strlit("exceptions");
    reveal_strlit("strict");
    reveal_strlit("rsync-count");
    reveal_strlit("validation-threads");
    reveal_strlit("refresh");
    reveal_strlit("retry");
    reveal_strlit("expire");
    reveal_strlit("history");
    reveal_strlit("listen");
    reveal_strlit("verbose");
    reveal_strlit("quiet");
    reveal_strlit("syslog");
    reveal_strlit("syslog-facility");
    reveal_strlit("logfile");
}

/// The names, long and short forms in use after arguments were added are
/// those of before and those of the arguments; the options and flags are
/// those of before and then the arguments.
pub proof fn lemma_with_all(m: AppModel, specs: Seq<ArgSpec>)
    ensures
        forall|n: Seq<char>| #[trigger]
            m.with_all(specs).names.contains(n) <==> m.names.contains(n) || exists|j: int|
                0 <= j < specs.len() && (#[trigger] specs[j]).name@ == n,
        forall|n: Seq<char>| #[trigger]
            m.with_all(specs).longs.contains(n) <==> m.longs.contains(n) || exists|j: int|
                0 <= j < specs.len() && (#[trigger] specs[j]).name@ == n,
        forall|c: char| #[trigger]
            m.with_all(specs).shorts.contains(c) <==> m.shorts.contains(c) || exists|j: int|
                0 <= j < specs.len() && (#[trigger] specs[j]).short == Some(c),
        m.with_all(specs).gap == m.gap,
        m.with_all(specs).args == m.args + specs.map_values(|a: ArgSpec| a@),
    decreases specs.len(),
{
    if specs.len() == 0 {
        assert(m.args + specs.map_values(|a: ArgSpec| a@) =~= m.args);
    } else {
        let front = specs.drop_last();
        lemma_with_all(m, front);
        let before = m.with_all(front);
        let after = m.with_all(specs);
        assert(after.args =~= m.args + specs.map_values(|a: ArgSpec| a@));
        assert forall|n: Seq<char>| #[trigger]
            after.names.contains(n) <==> m.names.contains(n) || exists|j: int|
                0 <= j < specs.len() && (#[trigger] specs[j]).name@ == n by {
            if after.names.contains(n) {
                if n == specs.last().name@ {
                    assert(specs[specs.len() - 1].name@ == n);
                } else {
                    assert(before.names.contains(n));
                    if !m.names.contains(n) {
                        let j = choose|j: int|
                            0 <= j < front.len() && (#[trigger] front[j]).name@ == n;
                        assert(specs[j].name@ == n);
                    }
                }
            }
            if exists|j: int| 0 <= j < specs.len() && (#[trigger] specs[j]).name@ == n {
                let j = choose|j: int| 0 <= j < specs.len() && (#[trigger] specs[j]).name@ == n;
                if j < front.len() {
                    assert(front[j].name@ == n);
                    assert(before.names.contains(n));
                }
            }
        }
        assert forall|n: Seq<char>| #[trigger]
            after.longs.contains(n) <==> m.longs.contains(n) || exists|j: int|
                0 <= j < specs.len() && (#[trigger] specs[j]).name@ == n by {
            if after.longs.contains(n) {
                if n == specs.last().name@ {
                    assert(specs[specs.len() - 1].name@ == n);
                } else {
                    assert(before.longs.contains(n));
                    if !m.longs.contains(n) {
                        let j = choose|j: int|
                            0 <= j < front.len() && (#[trigger] front[j]).name@ == n;
                        assert(specs[j].name@ == n);
                    }
                }
            }
            if exists|j: int| 0 <= j < specs.len() && (#[trigger] specs[j]).name@ == n {
                let j = choose|j: int| 0 <= j < specs.len() && (#[trigger] specs[j]).name@ == n;
                if j < front.len() {
                    assert(front[j].name@ == n);
                    assert(before.longs.contains(n));
                }
            }
        }
        assert forall|c: char| #[trigger]
            after.shorts.contains(c) <==> m.shorts.contains(c) || exists|j: int|
                0 <= j < specs.len() && (#[trigger] specs[j]).short == Some(c) by {
            if after.shorts.contains(c) {
                if specs.last().short == Some(c) {
                    assert(specs[specs.len() - 1].short == Some(c));
                } else {
                    assert(before.shorts.contains(c));
                    if !m.shorts.contains(c) {
                        let j = choose|j: int|
                            0 <= j < front.len() && (#[trigger] front[j]).short == Some(c);
                        assert(specs[j].short == Some(c));
                    }
                }
            }
            if exists|j: int| 0 <= j < specs.len() && (#[trigger] specs[j]).short == Some(c) {
                let j = choose|j: int|
                    0 <= j < specs.len() && (#[trigger] specs[j]).short == Some(c);
                if j < front.len() {
                    assert(front[j].short == Some(c));
                    assert(before.shorts.contains(c));
                }
            }
        }
    }
}

/// The table.
pub fn arg_table() -> (r: Vec<ArgSpec>)
    ensures
        r@ == table(),
{
    let mut table: Vec<ArgSpec> = Vec::new();
    table.push(
        ArgSpec {
            name: "config",
            short: Some('c'),
            value_name: Some("PATH"),
            help: "read base configuration from this file",
            takes_value: true,
            multiple: false,
            default_value: None,
            conflicts_with: None,
        },
    );
    table.push(
        ArgSpec {
            name: "base-dir",
            short: Some('b'),
            value_name: Some("DIR"),
            help: "sets the base directory for cache and TALs",
            takes_value: true,
            multiple: false,
            default_value: None,
            conflicts_with: None,
        },
    );
    table.push(
        ArgSpec {
            name: "repository-dir",
            short: Some('r'),
            value_name: Some("DIR"),
            help: "sets the repository cache directory",
            takes_value: true,
            multiple: false,
            default_value: None,
            conflicts_with: None,
        },
    );
    table.push(
        ArgSpec {
            name: "tal-dir",
            short: Some('t'),
            value_name: Some("DIR"),
            help: "sets the TAL directory",
            takes_value: true,
            multiple: false,
            default_value: None,
            conflicts_with: None,
        },
    );
    table.push(
        ArgSpec {
            name: "exceptions",
            short: Some('x'),
            value_name: Some("FILE"),
            help: "file with local exceptions (see RFC 8416 for format)",
            takes_value: true,
            multiple: true,
            default_value: None,
            conflicts_with: None,
        },
    );
    table.push(
        ArgSpec {
            name: "strict",
            short: None,
            value_name: None,
            help: "parse RPKI data in strict mode",
            takes_value: false,
            multiple: false,
            default_value: None,
            conflicts_with: None,
        },
    );
    table.push(
        ArgSpec {
            name: "rsync-count",
            short: None,
            value_name: Some("COUNT"),
            help: "number of parallel rsync commands",
            takes_value: true,
            multiple: false,
            default_value: None,
            conflicts_with: None,
        },
    );
    table.push(
        ArgSpec {
            name: "validation-threads",
            short: None,
            value_name: Some("COUNT"),
            help: "number of threads for validation",
            takes_value: true,
            multiple: false,
            default_value: None,
            conflicts_with: None,
        },
    );
    table.push(
        ArgSpec {
            name: "refresh",
            short: None,
            value_name: Some("SECONDS"),
            help: "refresh interval in seconds",
            takes_value: true,
            multiple: false,
            default_value: Some("3600"),
            conflicts_with: None,
        },
    );
    table.push(
        ArgSpec {
            name: "retry",
            short: None,
            value_name: Some("SECONDS"),
            help: "RTR retry interval in seconds",
            takes_value: true,
            multiple: false,
            default_value: Some("600"),
            conflicts_with: None,
        },
    );
    table.push(
        ArgSpec {
            name: "expire",
            short: None,
            value_name: Some("SECONDS"),
            help: "RTR expire interval in seconds",
            takes_value: true,
            multiple: false,
            default_value: Some("7200"),
            conflicts_with: None,
        },
    );
    table.push(
        ArgSpec {
            name: "history",
            short: None,
            value_name: Some("COUNT"),
            help: "number of history items to keep in repeat mode",
            takes_value: true,
            multiple: false,
            default_value: Some("10"),
            conflicts_with: None,
        },
    );
    table.push(
        ArgSpec {
            name: "listen",
            short: Some('l'),
            value_name: Some("ADDR:PORT"),
            help: "listen addr:port for RTR.",
            takes_value: true,
            multiple: true,
            default_value: None,
            conflicts_with: None,
        },
    );
    table.push(
        ArgSpec {
            name: "verbose",
            short: Some('v'),
            value_name: None,
            help: "log more information, twice for even more",
            takes_value: false,
            multiple: true,
            default_value: None,
            conflicts_with: None,
        },
    );
    table.push(
        ArgSpec {
            name: "quiet",
            short: Some('q'),
            value_name: None,
            help: "log less information, twice for no information",
            takes_value: false,
            multiple: true,
            default_value: None,
            conflicts_with: Some("verbose"),
        },
    );
    table.push(
        ArgSpec {
            name: "syslog",
            short: None,
            value_name: None,
            help: "log to syslog",
            takes_value: false,
            multiple: false,
            default_value: None,
            conflicts_with: None,
        },
    );
    table.push(
        ArgSpec {
            name: "syslog-facility",
            short: None,
            value_name: None,
            help: "facility to use for syslog logging",
            takes_value: true,
            multiple: false,
            default_value: Some("daemon"),
            conflicts_with: None,
        },
    );
    table.push(
        ArgSpec {
            name: "logfile",
            short: None,
            value_name: Some("PATH"),
            help: "log to this file",
            takes_value: true,
            multiple: false,
            default_value: None,
            conflicts_with: None,
        },
    );
    assert(table@ =~= self::table());
    table
}

impl Config {
    /// Adds the arguments of the table to a parser.  The parser must not
    /// use a name, a long or a short form of the table, and its positional
    /// indices must have no gap: clap panics on these in its checked
    /// builds.  `config_app` makes a parser from nothing.
    pub fn config_args<'a: 'b, 'b>(app: clap::App<'a, 'b>) -> (r: clap::App<'a, 'b>)
        requires
            app_model(app).admits_table(),
        ensures
            app_model(r) == app_model(app).with_all(table()),
    {
        let specs = arg_table();
        let ghost start = app_model(app);
        let mut app = app;
        let mut i: usize = 0;
        assert(specs@.take(0) =~= Seq::<ArgSpec>::empty());
        while i < specs.len()
            invariant
                i <= specs.len(),
                specs@ == table(),
                start.admits_table(),
                app_model(app) == start.with_all(specs@.take(i as int)),
            decreases specs.len() - i,
        {
            proof {
                let done = specs@.take(i as int);
                lemma_with_all(start, done);
                lemma_table_places();
                let next = specs@[i as int];
                assert(start.free_for(table()[i as int]));
                if start.with_all(done).names.contains(next.name@) {
                    let j = choose|j: int|
                        0 <= j < done.len() && (#[trigger] done[j]).name@ == next.name@;
                    assert(done[j] == table()[j]);
                    assert(place_of(table()[j].name@) == j);
                    assert(place_of(table()[i as int].name@) == i);
                }
                if let Some(c) = next.short {
                    if start.with_all(done).shorts.contains(c) {
                        let j = choose|j: int|
                            0 <= j < done.len() && (#[trigger] done[j]).short == Some(c);
                        assert(done[j] == table()[j]);
                        assert(table()[j].short == Some(c));
                        assert(table()[i as int].short == Some(c));
                    }
                }
                assert(specs@.take(i + 1).drop_last() =~= done);
            }
            app = with_arg(app, &specs[i]);
            i += 1;
        }
        assert(specs@.take(i as int) =~= specs@);
        app
    }
}

/// A parser with the given program name and the arguments of the table.
pub fn config_app(name: &str) -> (r: clap::App<'static, 'static>)
    ensures
        app_model(r) == AppModel::empty().with_all(table()),
{
    let app = new_app(name);
    Config::config_args(app)
}

} // verus!
