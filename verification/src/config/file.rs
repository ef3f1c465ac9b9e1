//! The configuration file: a TOML table of settings.

use vstd::prelude::*;
use vstd::string::StringExecFns;
use crate::config::error::{agrees, ConfigError, Fault};
use crate::config::limits::is_large_i64;
use crate::config::settings::LogLevel;
use crate::config::text::{
    join_path, level_of, parent_of, parse_level, path_join, path_parent, same_text,
};

verus! {

/// `toml::Value`, a value of a TOML document, as a type that is carried
/// through and not looked into.
#[verifier::external_type_specification]
#[verifier::external_body]
pub struct ExValue(toml::Value);

/// What a value of a TOML document holds, as far as the configuration
/// reads it.
pub enum Item {
    Text(Seq<char>),
    Integer(i64),
    Boolean(bool),
    List(Seq<Item>),
    /// A float, a time or a table.
    Other,
}

/// What a TOML value holds.
pub uninterp spec fn item_of(value: toml::Value) -> Item;

/// What a text is as a TOML document.
pub enum Document {
    /// A table: its keys and what they hold, in the order of the keys.
    Table(Seq<(Seq<char>, Item)>),
    /// A value that is no table.
    NotTable,
    /// No TOML document.
    Invalid,
}

/// What `toml::from_str` makes of a text.
pub uninterp spec fn document_of(text: Seq<char>) -> Document;

/// The keys of a list of settings and what they hold.
pub open spec fn settings_of(content: Seq<(String, toml::Value)>) -> Seq<(Seq<char>, Item)> {
    content.map_values(|e: (String, toml::Value)| (e.0@, item_of(e.1)))
}

/// What the items of a list hold.
pub open spec fn items_of(list: Seq<toml::Value>) -> Seq<Item> {
    list.map_values(|v: toml::Value| item_of(v))
}

/// Why a text is no table of settings.
pub enum TomlFailure {
    NotTable,
    /// The text is no TOML; the parser's message says why.
    Syntax(String),
}

/// Whether no key stands twice.
pub open spec fn distinct_keys(content: Seq<(Seq<char>, Item)>) -> bool {
    forall|i: int, j: int|
        0 <= i < content.len() && 0 <= j < content.len() && i != j ==> (#[trigger] content[i]).0
            != (#[trigger] content[j]).0
}

/// Reads a text as TOML with `toml::from_str`, and hands out the entries
/// of the table it holds, in the order of their keys.  A table holds each
/// key once.
#[verifier::external_body]
fn parse_table(text: &str) -> (r: Result<Vec<(String, toml::Value)>, TomlFailure>)
    ensures
        match r {
            Ok(content) => document_of(text@) == Document::Table(settings_of(content@))
                && distinct_keys(settings_of(content@)),
            Err(TomlFailure::NotTable) => document_of(text@) == Document::NotTable,
            Err(TomlFailure::Syntax(_)) => document_of(text@) == Document::Invalid,
        },
{
    match toml::from_str::<toml::Value>(text) {
        Ok(toml::Value::Table(table)) => Ok(table.into_iter().collect()),
        Ok(_) => Err(TomlFailure::NotTable),
        Err(e) => Err(TomlFailure::Syntax(e.to_string())),
    }
}

/// `toml::Value::as_bool` gives the boolean that a value holds, and
/// nothing for any other value.
pub assume_specification[ toml::Value::as_bool ](value: &toml::Value) -> (r: Option<bool>)
    ensures
        r == (match item_of(*value) {
            Item::Boolean(b) => Some(b),
            _ => None,
        }),
;

/// `toml::Value::as_integer` gives the integer that a value holds, and
/// nothing for any other value.
pub assume_specification[ toml::Value::as_integer ](value: &toml::Value) -> (r: Option<i64>)
    ensures
        r == (match item_of(*value) {
            Item::Integer(i) => Some(i),
            _ => None,
        }),
;

/// `toml::Value::as_str` gives the text that a value holds, and nothing
/// for any other value.
pub assume_specification[ toml::Value::as_str ](value: &toml::Value) -> (r: Option<&str>)
    ensures
        match item_of(*value) {
            Item::Text(t) => r is Some && r->0@ == t,
            _ => r is None,
        },
;

/// `toml::Value::as_array` gives the items of the array that a value
/// holds, and nothing for any other value.
pub assume_specification[ toml::Value::as_array ](value: &toml::Value) -> (r: Option<
    &Vec<toml::Value>,
>)
    ensures
        match item_of(*value) {
            Item::List(l) => r is Some && items_of(r->0@) == l,
            _ => r is None,
        },
;

/// The position of the first setting with the given key, or the number
/// of settings where there is none.
pub open spec fn index_of(content: Seq<(Seq<char>, Item)>, key: Seq<char>) -> int
    decreases content.len(),
{
    if content.len() == 0 {
        0
    } else if content[0].0 == key {
        0
    } else {
        1 + index_of(content.drop_first(), key)
    }
}

/// What the first setting with the given key holds.
pub open spec fn value_at(content: Seq<(Seq<char>, Item)>, key: Seq<char>) -> Option<Item> {
    let i = index_of(content, key);
    if 0 <= i < content.len() {
        Some(content[i].1)
    } else {
        None
    }
}

/// The settings without the first one with the given key.
pub open spec fn without(content: Seq<(Seq<char>, Item)>, key: Seq<char>) -> Seq<(Seq<char>, Item)> {
    let i = index_of(content, key);
    if 0 <= i < content.len() {
        content.remove(i)
    } else {
        content
    }
}

/// The position that `index_of` gives is that of the first setting with
/// the key.
pub proof fn lemma_index_of(content: Seq<(Seq<char>, Item)>, key: Seq<char>)
    ensures
        0 <= index_of(content, key) <= content.len(),
        index_of(content, key) < content.len() ==> content[index_of(content, key)].0 == key,
        forall|j: int| 0 <= j < index_of(content, key) ==> (#[trigger] content[j]).0 != key,
    decreases content.len(),
{
    if content.len() > 0 && content[0].0 != key {
        let rest = content.drop_first();
        lemma_index_of(rest, key);
        assert forall|j: int| 0 <= j < index_of(content, key) implies (#[trigger] content[j]).0
            != key by {
            if j > 0 {
                assert(content[j] == rest[j - 1]);
            }
        }
    }
}

/// The first position at which a key stands is the one `index_of` gives.
pub proof fn lemma_index_is(content: Seq<(Seq<char>, Item)>, key: Seq<char>, i: int)
    requires
        0 <= i <= content.len(),
        i < content.len() ==> content[i].0 == key,
        forall|j: int| 0 <= j < i ==> (#[trigger] content[j]).0 != key,
    ensures
        index_of(content, key) == i,
{
    lemma_index_of(content, key);
    let k = index_of(content, key);
    if k < i {
        assert(content[k].0 != key);
    }
}

/// Taking a setting out of settings that hold each key once leaves
/// settings that hold each key once, and none under the key taken.
pub proof fn lemma_without_distinct(content: Seq<(Seq<char>, Item)>, key: Seq<char>)
    requires
        distinct_keys(content),
    ensures
        distinct_keys(without(content, key)),
        value_at(without(content, key), key) is None,
{
    lemma_index_of(content, key);
    let i = index_of(content, key);
    let rest = without(content, key);
    if i < content.len() {
        assert forall|a: int, b: int|
            0 <= a < rest.len() && 0 <= b < rest.len() && a != b implies (#[trigger] rest[a]).0
            != (#[trigger] rest[b]).0 by {
            let x = if a < i {
                a
            } else {
                a + 1
            };
            let y = if b < i {
                b
            } else {
                b + 1
            };
            assert(rest[a] == content[x]);
            assert(rest[b] == content[y]);
        }
        assert forall|j: int| 0 <= j < rest.len() implies (#[trigger] rest[j]).0 != key by {
            let x = if j < i {
                j
            } else {
                j + 1
            };
            assert(rest[j] == content[x]);
            assert(content[x].0 != content[i].0);
        }
        lemma_index_is(rest, key, rest.len() as int);
    } else {
        lemma_index_is(rest, key, rest.len() as int);
    }
}

/// A configuration file as plain values.
pub struct ConfigFileView {
    /// The settings not yet taken.
    pub content: Seq<(Seq<char>, Item)>,
    /// The path of the file.
    pub path: Seq<char>,
    /// The directory of the file, which relative paths in it start from.
    pub dir: Seq<char>,
}

/// The settings of a configuration file.  Taking a setting removes it, so
/// that what is left in the end is what nothing asked for.
pub struct ConfigFile {
    content: Vec<(String, toml::Value)>,
    path: String,
    dir: String,
}

impl View for ConfigFile {
    type V = ConfigFileView;

    closed spec fn view(&self) -> ConfigFileView {
        ConfigFileView { content: settings_of(self.content@), path: self.path@, dir: self.dir@ }
    }
}

impl ConfigFileView {
    /// Each key is held once.
    pub open spec fn wf(self) -> bool {
        distinct_keys(self.content)
    }
}

/// What reading a text as the configuration file at a path gives, where
/// a relative path starts from the directory `cur_dir`.  The directory of
/// the file is the one it was found in.
pub open spec fn file_of(text: Seq<char>, path: Seq<char>, cur_dir: Seq<char>) -> Result<
    ConfigFileView,
    Fault,
> {
    match document_of(text) {
        Document::Invalid => Err(Fault::ParseFailed),
        Document::NotTable => Err(Fault::NotMapping),
        Document::Table(content) => match path_parent(path_join(cur_dir, path)) {
            None => Err(Fault::NoDirectory),
            Some(dir) => Ok(ConfigFileView { content, path, dir }),
        },
    }
}

/// What a setting that must be a boolean gives.
pub open spec fn bool_setting(item: Option<Item>) -> Result<Option<bool>, Fault> {
    match item {
        None => Ok(None),
        Some(Item::Boolean(b)) => Ok(Some(b)),
        Some(_) => Err(Fault::NotBoolean),
    }
}

/// What a setting that must be a number from zero on gives.
pub open spec fn u64_setting(item: Option<Item>) -> Result<Option<u64>, Fault> {
    match item {
        None => Ok(None),
        Some(Item::Integer(i)) => if i < 0 {
            Err(Fault::Negative)
        } else {
            Ok(Some(i as u64))
        },
        Some(_) => Err(Fault::NotInteger),
    }
}

/// What a setting that must be a number from zero on that this machine
/// can hold gives.
pub open spec fn usize_setting(item: Option<Item>) -> Result<Option<usize>, Fault> {
    match item {
        None => Ok(None),
        Some(Item::Integer(i)) => if i < 0 {
            Err(Fault::Negative)
        } else if i > usize::MAX {
            Err(Fault::TooLarge)
        } else {
            Ok(Some(i as usize))
        },
        Some(_) => Err(Fault::NotInteger),
    }
}

/// What a setting that must be a string gives.
pub open spec fn text_setting(item: Option<Item>) -> Result<Option<Seq<char>>, Fault> {
    match item {
        None => Ok(None),
        Some(Item::Text(t)) => Ok(Some(t)),
        Some(_) => Err(Fault::NotString),
    }
}

/// The texts of a list of items that are all texts.
pub open spec fn all_texts(items: Seq<Item>) -> Option<Seq<Seq<char>>> {
    if forall|i: int| 0 <= i < items.len() ==> (#[trigger] items[i]) is Text {
        Some(items.map_values(|x: Item| x->Text_0))
    } else {
        None
    }
}

/// What a setting that must be an array of strings gives; `fault` is the
/// error where it is none.  A setting that is not there gives no string.
pub open spec fn text_array_setting(item: Option<Item>, fault: Fault) -> Result<
    Seq<Seq<char>>,
    Fault,
> {
    match item {
        None => Ok(Seq::empty()),
        Some(Item::List(l)) => match all_texts(l) {
            Some(t) => Ok(t),
            None => Err(fault),
        },
        Some(_) => Err(fault),
    }
}

/// What a setting that must name a log level gives.
pub open spec fn level_setting(item: Option<Item>) -> Result<Option<LogLevel>, Fault> {
    match text_setting(item) {
        Ok(Some(t)) => match level_of(t) {
            Some(level) => Ok(Some(level)),
            None => Err(Fault::IllegalValue),
        },
        Ok(None) => Ok(None),
        Err(kind) => Err(kind),
    }
}

/// What a setting that must be a path gives: the path, taken from the
/// directory of the file.
pub open spec fn path_setting(item: Option<Item>, dir: Seq<char>) -> Result<
    Option<Seq<char>>,
    Fault,
> {
    match text_setting(item) {
        Ok(Some(t)) => Ok(Some(path_join(dir, t))),
        Ok(None) => Ok(None),
        Err(kind) => Err(kind),
    }
}

/// What a setting that must be a path, and must be there, gives.
pub open spec fn mandatory_path_setting(item: Option<Item>, dir: Seq<char>) -> Result<
    Seq<char>,
    Fault,
> {
    match path_setting(item, dir) {
        Ok(Some(p)) => Ok(p),
        Ok(None) => Err(Fault::MissingRequired),
        Err(kind) => Err(kind),
    }
}

/// What a setting that must be an array of paths gives: the paths, each
/// taken from the directory of the file.
pub open spec fn path_array_setting(item: Option<Item>, dir: Seq<char>) -> Result<
    Seq<Seq<char>>,
    Fault,
> {
    match text_array_setting(item, Fault::NotPathArray) {
        Ok(t) => Ok(t.map_values(|p: Seq<char>| path_join(dir, p))),
        Err(kind) => Err(kind),
    }
}

/// The keys, with a comma between each two.
pub open spec fn joined_keys(content: Seq<(Seq<char>, Item)>) -> Seq<char>
    decreases content.len(),
{
    if content.len() == 0 {
        Seq::empty()
    } else if content.len() == 1 {
        content[0].0
    } else {
        joined_keys(content.drop_last()) + ","@ + content.last().0
    }
}

/// Whether the texts of `list` are `texts`.
pub open spec fn holds_texts(list: Seq<String>, texts: Seq<Seq<char>>) -> bool {
    list.map_values(|s: String| s@) == texts
}

impl ConfigFile {
    /// The settings left without the one with the given key; path and
    /// directory as they were.
    pub open spec fn after_taking(before: ConfigFileView, key: Seq<char>) -> ConfigFileView {
        ConfigFileView { content: without(before.content, key), ..before }
    }

    /// Reads `text` as the configuration file at `path`, where a relative
    /// path starts from the directory `cur_dir`.  The file holds each key
    /// once.
    pub fn parse(text: &str, path: &str, cur_dir: &str) -> (r: Result<ConfigFile, ConfigError>)
        ensures
            match file_of(text@, path@, cur_dir@) {
                Ok(v) => r is Ok && r->Ok_0@ == v,
                Err(kind) => r is Err && r->Err_0.kind == kind,
            },
            r matches Err(e) ==> (e.kind != Fault::ParseFailed ==> e.subject@ == path@),
            r matches Ok(file) ==> file@.wf(),
    {
        match parse_table(text) {
            Err(TomlFailure::Syntax(message)) => Err(
                ConfigError { kind: Fault::ParseFailed, subject: message },
            ),
            Err(TomlFailure::NotTable) => Err(ConfigError::new(Fault::NotMapping, path)),
            Ok(content) => {
                let found = join_path(cur_dir, path);
                match parent_of(found.as_str()) {
                    None => Err(ConfigError::new(Fault::NoDirectory, path)),
                    Some(dir) => Ok(ConfigFile { content, path: String::from_str(path), dir }),
                }
            },
        }
    }

    /// The path of the file.
    pub fn path(&self) -> (r: &String)
        ensures
            r@ == self@.path,
    {
        &self.path
    }

    /// The directory of the file.
    pub fn dir(&self) -> (r: &String)
        ensures
            r@ == self@.dir,
    {
        &self.dir
    }

    /// Takes out the first setting with the given key.
    fn take(&mut self, key: &str) -> (r: Option<toml::Value>)
        ensures
            final(self)@ == Self::after_taking(old(self)@, key@),
            old(self)@.wf() ==> final(self)@.wf(),
            match r {
                Some(v) => value_at(old(self)@.content, key@) == Some(item_of(v)),
                None => value_at(old(self)@.content, key@) is None,
            },
    {
        let ghost before = settings_of(self.content@);
        proof {
            if distinct_keys(before) {
                lemma_without_distinct(before, key@);
            }
        }
        let mut i: usize = 0;
        while i < self.content.len()
            invariant
                i <= self.content.len(),
                self.content@ == old(self).content@,
                self.path == old(self).path,
                self.dir == old(self).dir,
                before == settings_of(self.content@),
                forall|j: int| 0 <= j < i ==> (#[trigger] before[j]).0 != key@,
            decreases self.content.len() - i,
        {
            if same_text(self.content[i].0.as_str(), key) {
                proof {
                    lemma_index_is(before, key@, i as int);
                }
                let entry = self.content.remove(i);
                assert(settings_of(self.content@) =~= before.remove(i as int));
                return Some(entry.1);
            }
            i += 1;
        }
        proof {
            lemma_index_is(before, key@, i as int);
        }
        None
    }

    /// Takes a setting that must be a boolean.
    pub fn take_bool(&mut self, key: &str) -> (r: Result<Option<bool>, ConfigError>)
        ensures
            final(self)@ == Self::after_taking(old(self)@, key@),
            old(self)@.wf() ==> final(self)@.wf(),
            agrees(r, bool_setting(value_at(old(self)@.content, key@)), key@),
    {
        match self.take(key) {
            None => Ok(None),
            Some(value) => match value.as_bool() {
                Some(b) => Ok(Some(b)),
                None => Err(ConfigError::new(Fault::NotBoolean, key)),
            },
        }
    }

    /// Takes a setting that must be a number from zero on.
    pub fn take_u64(&mut self, key: &str) -> (r: Result<Option<u64>, ConfigError>)
        ensures
            final(self)@ == Self::after_taking(old(self)@, key@),
            old(self)@.wf() ==> final(self)@.wf(),
            agrees(r, u64_setting(value_at(old(self)@.content, key@)), key@),
    {
        match self.take(key) {
            None => Ok(None),
            Some(value) => match value.as_integer() {
                Some(i) => {
                    if i < 0 {
                        Err(ConfigError::new(Fault::Negative, key))
                    } else {
                        Ok(Some(i as u64))
                    }
                },
                None => Err(ConfigError::new(Fault::NotInteger, key)),
            },
        }
    }

    /// Takes a setting that must be a number from zero on that this
    /// machine can hold.
    pub fn take_usize(&mut self, key: &str) -> (r: Result<Option<usize>, ConfigError>)
        ensures
            final(self)@ == Self::after_taking(old(self)@, key@),
            old(self)@.wf() ==> final(self)@.wf(),
            agrees(r, usize_setting(value_at(old(self)@.content, key@)), key@),
    {
        match self.take(key) {
            None => Ok(None),
            Some(value) => match value.as_integer() {
                Some(i) => {
                    if i < 0 {
                        Err(ConfigError::new(Fault::Negative, key))
                    } else if is_large_i64(i) {
                        Err(ConfigError::new(Fault::TooLarge, key))
                    } else {
                        Ok(Some(i as usize))
                    }
                },
                None => Err(ConfigError::new(Fault::NotInteger, key)),
            },
        }
    }

    /// Takes a setting that must be a string.
    pub fn take_string(&mut self, key: &str) -> (r: Result<Option<String>, ConfigError>)
        ensures
            final(self)@ == Self::after_taking(old(self)@, key@),
            old(self)@.wf() ==> final(self)@.wf(),
            match text_setting(value_at(old(self)@.content, key@)) {
                Ok(Some(t)) => r matches Ok(Some(s)) && s@ == t,
                Ok(None) => r matches Ok(None),
                Err(kind) => r is Err && r->Err_0.is(kind, key@),
            },
    {
        match self.take(key) {
            None => Ok(None),
            Some(value) => match value.as_str() {
                Some(s) => Ok(Some(String::from_str(s))),
                None => Err(ConfigError::new(Fault::NotString, key)),
            },
        }
    }

    /// Takes a setting that must name a log level.
    pub fn take_level(&mut self, key: &str) -> (r: Result<Option<LogLevel>, ConfigError>)
        ensures
            final(self)@ == Self::after_taking(old(self)@, key@),
            old(self)@.wf() ==> final(self)@.wf(),
            agrees(r, level_setting(value_at(old(self)@.content, key@)), key@),
    {
        match self.take_string(key) {
            Err(e) => Err(e),
            Ok(None) => Ok(None),
            Ok(Some(text)) => match parse_level(text.as_str()) {
                Some(level) => Ok(Some(level)),
                None => Err(ConfigError::new(Fault::IllegalValue, key)),
            },
        }
    }

    /// Takes a setting that must be a path.  A relative path starts from
    /// the directory of the file.
    pub fn take_path(&mut self, key: &str) -> (r: Result<Option<String>, ConfigError>)
        ensures
            final(self)@ == Self::after_taking(old(self)@, key@),
            old(self)@.wf() ==> final(self)@.wf(),
            match path_setting(value_at(old(self)@.content, key@), old(self)@.dir) {
                Ok(Some(t)) => r matches Ok(Some(s)) && s@ == t,
                Ok(None) => r matches Ok(None),
                Err(kind) => r is Err && r->Err_0.is(kind, key@),
            },
    {
        match self.take_string(key) {
            Err(e) => Err(e),
            Ok(None) => Ok(None),
            Ok(Some(text)) => Ok(Some(join_path(self.dir.as_str(), text.as_str()))),
        }
    }

    /// Takes a setting that must be a path and must be there.
    pub fn take_mandatory_path(&mut self, key: &str) -> (r: Result<String, ConfigError>)
        ensures
            final(self)@ == Self::after_taking(old(self)@, key@),
            old(self)@.wf() ==> final(self)@.wf(),
            match mandatory_path_setting(value_at(old(self)@.content, key@), old(self)@.dir) {
                Ok(t) => r matches Ok(s) && s@ == t,
                Err(kind) => r is Err && r->Err_0.is(kind, key@),
            },
    {
        match self.take_path(key) {
            Err(e) => Err(e),
            Ok(None) => Err(ConfigError::new(Fault::MissingRequired, key)),
            Ok(Some(path)) => Ok(path),
        }
    }

    /// Takes a setting that must be an array of strings; `fault` is the
    /// error where it is none.
    fn take_texts(&mut self, key: &str, fault: Fault) -> (r: Result<Vec<String>, ConfigError>)
        ensures
            final(self)@ == Self::after_taking(old(self)@, key@),
            old(self)@.wf() ==> final(self)@.wf(),
            match text_array_setting(value_at(old(self)@.content, key@), fault) {
                Ok(t) => r matches Ok(list) && holds_texts(list@, t),
                Err(kind) => r is Err && r->Err_0.is(kind, key@),
            },
    {
        match self.take(key) {
            None => {
                let list: Vec<String> = Vec::new();
                assert(list@.map_values(|s: String| s@) =~= Seq::<Seq<char>>::empty());
                Ok(list)
            },
            Some(value) => match value.as_array() {
                None => Err(ConfigError::new(fault, key)),
                Some(items) => {
                    let mut list: Vec<String> = Vec::new();
                    let ghost all = items_of(items@);
                    let mut i: usize = 0;
                    while i < items.len()
                        invariant
                            i <= items.len(),
                            all == items_of(items@),
                            self@ == Self::after_taking(old(self)@, key@),
                            value_at(old(self)@.content, key@) == Some(Item::List(all)),
                            list@.len() == i,
                            forall|j: int| 0 <= j < i ==> (#[trigger] all[j]) is Text,
                            forall|j: int|
                                0 <= j < i ==> (#[trigger] list@[j])@ == all[j]->Text_0,
                        decreases items.len() - i,
                    {
                        match items[i].as_str() {
                            None => {
                                assert(!(all[i as int] is Text));
                                return Err(ConfigError::new(fault, key));
                            },
                            Some(text) => {
                                list.push(String::from_str(text));
                            },
                        }
                        i += 1;
                    }
                    assert(list@.map_values(|s: String| s@) =~= all.map_values(
                        |x: Item| x->Text_0,
                    ));
                    Ok(list)
                },
            },
        }
    }

    /// Takes a setting that must be an array of strings.  A setting that
    /// is not there gives no string.
    pub fn take_string_array(&mut self, key: &str) -> (r: Result<Vec<String>, ConfigError>)
        ensures
            final(self)@ == Self::after_taking(old(self)@, key@),
            old(self)@.wf() ==> final(self)@.wf(),
            match text_array_setting(value_at(old(self)@.content, key@), Fault::NotStringArray) {
                Ok(t) => r matches Ok(list) && holds_texts(list@, t),
                Err(kind) => r is Err && r->Err_0.is(kind, key@),
            },
    {
        self.take_texts(key, Fault::NotStringArray)
    }

    /// Takes a setting that must be an array of paths.  Relative paths
    /// start from the directory of the file.
    pub fn take_path_array(&mut self, key: &str) -> (r: Result<Vec<String>, ConfigError>)
        ensures
            final(self)@ == Self::after_taking(old(self)@, key@),
            old(self)@.wf() ==> final(self)@.wf(),
            match path_array_setting(value_at(old(self)@.content, key@), old(self)@.dir) {
                Ok(t) => r matches Ok(list) && holds_texts(list@, t),
                Err(kind) => r is Err && r->Err_0.is(kind, key@),
            },
    {
        match self.take_texts(key, Fault::NotPathArray) {
            Err(e) => Err(e),
            Ok(texts) => {
                let mut paths: Vec<String> = Vec::new();
                let mut i: usize = 0;
                while i < texts.len()
                    invariant
                        i <= texts.len(),
                        paths@.len() == i,
                        forall|j: int|
                            0 <= j < i ==> (#[trigger] paths@[j])@ == path_join(
                                self@.dir,
                                texts@[j]@,
                            ),
                    decreases texts.len() - i,
                {
                    paths.push(join_path(self.dir.as_str(), texts[i].as_str()));
                    i += 1;
                }
                assert(paths@.map_values(|s: String| s@) =~= texts@.map_values(
                    |s: String| s@,
                ).map_values(|p: Seq<char>| path_join(self@.dir, p)));
                Ok(paths)
            },
        }
    }

    /// Whether every setting was taken.  If not, the error names the keys
    /// that are left, with commas between them.
    pub fn check_exhausted(&self) -> (r: Result<(), ConfigError>)
        ensures
            match r {
                Ok(_) => self@.content.len() == 0,
                Err(e) => self@.content.len() > 0 && e.is(
                    Fault::UnknownSettings,
                    joined_keys(self@.content),
                ),
            },
    {
        if self.content.len() == 0 {
            return Ok(());
        }
        let ghost content = settings_of(self.content@);
        let mut keys = String::from_str(self.content[0].0.as_str());
        assert(content.take(1).drop_last() =~= Seq::<(Seq<char>, Item)>::empty());
        let mut i: usize = 1;
        while i < self.content.len()
            invariant
                1 <= i <= self.content.len(),
                content == settings_of(self.content@),
                keys@ == joined_keys(content.take(i as int)),
            decreases self.content.len() - i,
        {
            keys.append(",");
            keys.append(self.content[i].0.as_str());
            proof {
                assert(content.take(i + 1).drop_last() =~= content.take(i as int));
                assert(content.take(i + 1).last() == content[i as int]);
            }
            i += 1;
        }
        assert(content.take(i as int) =~= content);
        Err(ConfigError { kind: Fault::UnknownSettings, subject: keys })
    }
}

} // verus!
