use vstd::prelude::*;
use vstd::string::*;
use vstd::utf8::*;

use crate::command::{texts, Command, CommandModel};
use crate::pattern::{regex_compiles, Pattern};

verus! {

/// A configuration value as read from a settings document, with tags removed.
#[derive(Debug)]
pub enum ConfigValue {
    Null,
    Bool(bool),
    /// An integer that fits in `i64`.
    Int(i64),
    /// Any other scalar: a float, or an integer out of `i64`'s range.
    Other,
    Text(String),
    List(Vec<ConfigValue>),
    /// A mapping, its entries in document order.
    Table(Vec<(ConfigValue, ConfigValue)>),
}

/// Why a settings document was rejected.
#[derive(Debug)]
pub enum SettingsError {
    /// A required key is absent.
    MissingSettingKey { key: String },
    /// A key holds a value of the wrong type.
    InvalidValueType { key: String },
    /// The `regex` value is not a valid regular expression.
    Regex(regex::Error),
    /// The `debounce` value is negative.
    TryFromIntError,
}

/// A rejection, as plain values.
pub enum SettingsFailure {
    Missing(Seq<char>),
    Invalid(Seq<char>),
    Regex,
    Negative,
}

pub open spec fn failure_of(e: SettingsError) -> SettingsFailure {
    match e {
        SettingsError::MissingSettingKey { key } => SettingsFailure::Missing(key@),
        SettingsError::InvalidValueType { key } => SettingsFailure::Invalid(key@),
        SettingsError::Regex(_) => SettingsFailure::Regex,
        SettingsError::TryFromIntError => SettingsFailure::Negative,
    }
}

/// The text a value holds, if it is text.
pub open spec fn text_of(v: ConfigValue) -> Option<Seq<char>> {
    match v {
        ConfigValue::Text(s) => Some(s@),
        _ => None,
    }
}

/// The value of the first entry, at `i` or after, whose key is the text `key`.
pub open spec fn table_get_from(entries: Seq<(ConfigValue, ConfigValue)>, key: Seq<char>, i: int) -> Option<ConfigValue>
    decreases entries.len() - i,
{
    if i < 0 || i >= entries.len() {
        None
    } else if text_of(entries[i].0) == Some(key) {
        Some(entries[i].1)
    } else {
        table_get_from(entries, key, i + 1)
    }
}

/// The value under the text key `key` of a mapping.
pub open spec fn table_get(entries: Seq<(ConfigValue, ConfigValue)>, key: Seq<char>) -> Option<ConfigValue> {
    table_get_from(entries, key, 0)
}

/// The value under `key` when `v` is a mapping; nothing otherwise.
pub open spec fn value_get(v: ConfigValue, key: Seq<char>) -> Option<ConfigValue> {
    match v {
        ConfigValue::Table(entries) => table_get(entries@, key),
        _ => None,
    }
}

/// A required text field.
pub open spec fn text_field(v: ConfigValue, key: Seq<char>) -> Result<Seq<char>, SettingsFailure> {
    match value_get(v, key) {
        None => Err(SettingsFailure::Missing(key)),
        Some(x) => match text_of(x) {
            Some(s) => Ok(s),
            None => Err(SettingsFailure::Invalid(key)),
        },
    }
}

/// Whether two strings hold the same characters.
fn text_eq(a: &str, b: &str) -> (r: bool)
    ensures
        r == (a@ == b@),
{
    let ab = a.as_bytes();
    let bb = b.as_bytes();
    if ab.len() != bb.len() {
        return false;
    }
    let mut i: usize = 0;
    while i < ab.len()
        invariant
            ab@ == encode_utf8(a@),
            bb@ == encode_utf8(b@),
            ab@.len() == bb@.len(),
            0 <= i <= ab@.len(),
            forall|k: int| 0 <= k < i ==> ab@[k] == bb@[k],
        decreases ab@.len() - i,
    {
        if ab[i] != bb[i] {
            return false;
        }
        i = i + 1;
    }
    proof {
        assert(ab@ =~= bb@);
        encode_utf8_decode_utf8(a@);
        encode_utf8_decode_utf8(b@);
    }
    true
}

/// The value under the text key `key` of a mapping's entries.
fn table_lookup<'a>(entries: &'a Vec<(ConfigValue, ConfigValue)>, key: &str) -> (r: Option<&'a ConfigValue>)
    ensures
        r matches Some(x) ==> table_get(entries@, key@) == Some(*x),
        r is None ==> table_get(entries@, key@) is None,
{
    let mut i: usize = 0;
    while i < entries.len()
        invariant
            0 <= i <= entries@.len(),
            table_get(entries@, key@) == table_get_from(entries@, key@, i as int),
        decreases entries@.len() - i,
    {
        let entry = &entries[i];
        match &entry.0 {
            ConfigValue::Text(s) => {
                if text_eq(s.as_str(), key) {
                    return Some(&entry.1);
                }
            },
            _ => {},
        }
        i = i + 1;
    }
    None
}

/// The value under `key` when `v` is a mapping.
fn lookup<'a>(v: &'a ConfigValue, key: &str) -> (r: Option<&'a ConfigValue>)
    ensures
        r matches Some(x) ==> value_get(*v, key@) == Some(*x),
        r is None ==> value_get(*v, key@) is None,
{
    match v {
        ConfigValue::Table(entries) => table_lookup(entries, key),
        _ => None,
    }
}

/// Reads the required text field `key` of `v`.
pub fn get_val_or_err(v: &ConfigValue, key: &str) -> (r: Result<String, SettingsError>)
    ensures
        r matches Ok(s) ==> text_field(*v, key@) == Ok::<Seq<char>, SettingsFailure>(s@),
        r matches Err(e) ==> text_field(*v, key@) == Err::<Seq<char>, SettingsFailure>(failure_of(e)),
{
    match lookup(v, key) {
        None => Err(SettingsError::MissingSettingKey { key: key.to_owned() }),
        Some(ConfigValue::Text(s)) => Ok(s.clone()),
        Some(_) => Err(SettingsError::InvalidValueType { key: key.to_owned() }),
    }
}

/// The texts of `items`, when every item is text.
pub open spec fn args_of(items: Seq<ConfigValue>) -> Option<Seq<Seq<char>>>
    decreases items.len(),
{
    if items.len() == 0 {
        Some(seq![])
    } else {
        match (args_of(items.drop_last()), text_of(items.last())) {
            (Some(p), Some(t)) => Some(p.push(t)),
            _ => None,
        }
    }
}

/// One entry of the `commands` mapping: a text name, and a mapping whose `args`
/// is a list of texts.
pub open spec fn command_of(entry: (ConfigValue, ConfigValue)) -> Result<CommandModel, SettingsFailure> {
    match text_of(entry.0) {
        None => Err(SettingsFailure::Missing("command name"@)),
        Some(name) => match entry.1 {
            ConfigValue::Table(fields) => match table_get(fields@, "args"@) {
                None => Err(SettingsFailure::Missing("commands.named_command.args"@)),
                Some(ConfigValue::List(items)) => match args_of(items@) {
                    Some(args) => Ok(CommandModel { name, args }),
                    None => Err(SettingsFailure::Invalid("commands.named_command.args.arg"@)),
                },
                Some(_) => Err(SettingsFailure::Invalid("commands.named_command.args"@)),
            },
            _ => Err(SettingsFailure::Invalid("commands.named_command"@)),
        },
    }
}

/// The commands of a mapping's entries in order, or the first entry's failure.
pub open spec fn commands_of(entries: Seq<(ConfigValue, ConfigValue)>) -> Result<Seq<CommandModel>, SettingsFailure>
    decreases entries.len(),
{
    if entries.len() == 0 {
        Ok(seq![])
    } else {
        match commands_of(entries.drop_last()) {
            Err(e) => Err(e),
            Ok(p) => match command_of(entries.last()) {
                Err(e) => Err(e),
                Ok(c) => Ok(p.push(c)),
            },
        }
    }
}

/// The value of a `commands` key: a mapping from command name to its arguments.
pub open spec fn commands_value_of(v: ConfigValue) -> Result<Seq<CommandModel>, SettingsFailure> {
    match v {
        ConfigValue::Table(entries) => commands_of(entries@),
        _ => Err(SettingsFailure::Invalid("commands"@)),
    }
}

/// The models of commands, in order.
pub open spec fn command_models(v: Seq<Command>) -> Seq<CommandModel> {
    v.map_values(|c: Command| c@)
}

/// The texts of a list of values, when every item is text.
fn parse_args(items: &Vec<ConfigValue>) -> (r: Option<Vec<String>>)
    ensures
        r matches Some(v) ==> args_of(items@) == Some(texts(v@)),
        r is None ==> args_of(items@) is None,
{
    let mut out: Vec<String> = Vec::new();
    let mut i: usize = 0;
    while i < items.len()
        invariant
            0 <= i <= items@.len(),
            args_of(items@.subrange(0, i as int)) == Some(texts(out@)),
        decreases items@.len() - i,
    {
        assert(items@.subrange(0, i + 1).drop_last() =~= items@.subrange(0, i as int));
        match &items[i] {
            ConfigValue::Text(t) => {
                let ghost before = out@;
                out.push(t.clone());
                assert(texts(out@) =~= texts(before).push(t@));
            },
            _ => {
                proof {
                    assert(items@.subrange(0, i + 1).last() == items@[i as int]);
                    assert(items@ =~= items@.subrange(0, i + 1) + items@.subrange(i + 1, items@.len() as int));
                    lemma_args_none_extends(items@.subrange(0, i + 1), items@.subrange(i + 1, items@.len() as int));
                }
                return None;
            },
        }
        i = i + 1;
    }
    assert(items@.subrange(0, i as int) =~= items@);
    Some(out)
}

/// A list with a non-text prefix has no texts, whatever follows.
proof fn lemma_args_none_extends(a: Seq<ConfigValue>, b: Seq<ConfigValue>)
    requires
        args_of(a) is None,
    ensures
        args_of(a + b) is None,
    decreases b.len(),
{
    if b.len() > 0 {
        lemma_args_none_extends(a, b.drop_last());
        assert((a + b).drop_last() =~= a + b.drop_last());
    } else {
        assert(a + b =~= a);
    }
}

/// A command list with a failing prefix fails the same way, whatever follows.
proof fn lemma_commands_err_extends(a: Seq<(ConfigValue, ConfigValue)>, b: Seq<(ConfigValue, ConfigValue)>)
    requires
        commands_of(a) is Err,
    ensures
        commands_of(a + b) == commands_of(a),
    decreases b.len(),
{
    if b.len() > 0 {
        lemma_commands_err_extends(a, b.drop_last());
        assert((a + b).drop_last() =~= a + b.drop_last());
    } else {
        assert(a + b =~= a);
    }
}

/// Reads one entry of the `commands` mapping.
fn parse_command(name: &ConfigValue, v: &ConfigValue) -> (r: Result<Command, SettingsError>)
    ensures
        r matches Ok(c) ==> command_of((*name, *v)) == Ok::<CommandModel, SettingsFailure>(c@),
        r matches Err(e) ==> command_of((*name, *v)) == Err::<CommandModel, SettingsFailure>(failure_of(e)),
{
    let name = match name {
        ConfigValue::Text(s) => s.clone(),
        _ => {
            return Err(SettingsError::MissingSettingKey { key: "command name".to_owned() });
        },
    };
    let fields = match v {
        ConfigValue::Table(fields) => fields,
        _ => {
            return Err(SettingsError::InvalidValueType { key: "commands.named_command".to_owned() });
        },
    };
    match table_lookup(fields, "args") {
        None => Err(SettingsError::MissingSettingKey { key: "commands.named_command.args".to_owned() }),
        Some(ConfigValue::List(items)) => match parse_args(items) {
            Some(args) => Ok(Command { name, args }),
            None => Err(
                SettingsError::InvalidValueType { key: "commands.named_command.args.arg".to_owned() },
            ),
        },
        Some(_) => Err(SettingsError::InvalidValueType { key: "commands.named_command.args".to_owned() }),
    }
}

/// Reads the value of a `commands` key: its commands in document order, or the
/// failure of the first entry that is not a valid command.
pub fn parse_commands_value(commands: &ConfigValue) -> (r: Result<Vec<Command>, SettingsError>)
    ensures
        r matches Ok(v) ==> commands_value_of(*commands) == Ok::<Seq<CommandModel>, SettingsFailure>(
            command_models(v@),
        ),
        r matches Err(e) ==> commands_value_of(*commands) == Err::<Seq<CommandModel>, SettingsFailure>(
            failure_of(e),
        ),
{
    match commands {
        ConfigValue::Table(entries) => parse_command_entries(entries),
        _ => Err(SettingsError::InvalidValueType { key: "commands".to_owned() }),
    }
}

/// Reads the entries of a `commands` mapping in order, stopping at the first
/// that is not a valid command.
fn parse_command_entries(entries: &Vec<(ConfigValue, ConfigValue)>) -> (r: Result<Vec<Command>, SettingsError>)
    ensures
        r matches Ok(v) ==> commands_of(entries@) == Ok::<Seq<CommandModel>, SettingsFailure>(
            command_models(v@),
        ),
        r matches Err(e) ==> commands_of(entries@) == Err::<Seq<CommandModel>, SettingsFailure>(
            failure_of(e),
        ),
{
    let mut out: Vec<Command> = Vec::new();
    let mut i: usize = 0;
    assert(entries@.subrange(0, 0) =~= Seq::<(ConfigValue, ConfigValue)>::empty());
    assert(command_models(out@) =~= Seq::<CommandModel>::empty());
    while i < entries.len()
        invariant
            0 <= i <= entries@.len(),
            commands_of(entries@.subrange(0, i as int)) == Ok::<Seq<CommandModel>, SettingsFailure>(
                command_models(out@),
            ),
        decreases entries@.len() - i,
    {
        assert(entries@.subrange(0, i + 1).drop_last() =~= entries@.subrange(0, i as int));
        assert(entries@.subrange(0, i + 1).last() == entries@[i as int]);
        let entry = &entries[i];
        match parse_command(&entry.0, &entry.1) {
            Ok(c) => {
                let ghost before = out@;
                out.push(c);
                assert(command_models(out@) =~= command_models(before).push(c@));
            },
            Err(e) => {
                proof {
                    assert(commands_of(entries@.subrange(0, i + 1)) == Err::<Seq<CommandModel>, SettingsFailure>(
                        failure_of(e),
                    ));
                    assert(entries@ =~= entries@.subrange(0, i + 1) + entries@.subrange(i + 1, entries@.len() as int));
                    lemma_commands_err_extends(entries@.subrange(0, i + 1), entries@.subrange(i + 1, entries@.len() as int));
                    assert(commands_of(entries@) == Err::<Seq<CommandModel>, SettingsFailure>(failure_of(e)));
                }
                return Err(e);
            },
        }
        i = i + 1;
    }
    assert(entries@.subrange(0, i as int) =~= entries@);
    Ok(out)
}

/// One watchdog's description, as plain values.
pub struct WatchdogModel {
    pub name: Seq<char>,
    pub log_file: Seq<char>,
    pub output_file: Seq<char>,
    pub debounce: u64,
    pub oneshot: bool,
    pub pattern: Seq<char>,
    pub commands: Seq<CommandModel>,
}

/// A watchdog watches a log file for a pattern match and runs its commands when
/// it matches.
pub struct Watchdog {
    /// Watchdog name, used in all diagnostics.
    pub name: String,
    /// Path of the log file to watch.
    pub log_file: String,
    /// Path of the file that command output is appended to.
    pub output_file: String,
    /// Minimum time in milliseconds between two pattern tests.
    pub debounce: u64,
    /// If true, stop after the first successful trigger.
    pub oneshot: bool,
    /// Pattern that lines are tested against.
    pub regex: Pattern,
    /// Commands to run, in order, when the pattern matches.
    pub commands: Vec<Command>,
}

impl View for Watchdog {
    type V = WatchdogModel;

    open spec fn view(&self) -> WatchdogModel {
        WatchdogModel {
            name: self.name@,
            log_file: self.log_file@,
            output_file: self.output_file@,
            debounce: self.debounce,
            oneshot: self.oneshot,
            pattern: self.regex@,
            commands: command_models(self.commands@),
        }
    }
}

/// The `debounce` field: a non-negative integer.
pub open spec fn debounce_field(v: ConfigValue) -> Result<u64, SettingsFailure> {
    match value_get(v, "debounce"@) {
        None => Err(SettingsFailure::Missing("debounce"@)),
        Some(ConfigValue::Int(n)) => if n < 0 {
            Err(SettingsFailure::Negative)
        } else {
            Ok(n as u64)
        },
        Some(_) => Err(SettingsFailure::Invalid("debounce"@)),
    }
}

/// The `oneshot` field: a boolean.
pub open spec fn oneshot_field(v: ConfigValue) -> Result<bool, SettingsFailure> {
    match value_get(v, "oneshot"@) {
        None => Err(SettingsFailure::Missing("oneshot"@)),
        Some(ConfigValue::Bool(b)) => Ok(b),
        Some(_) => Err(SettingsFailure::Invalid("oneshot"@)),
    }
}

/// The watchdog named `name` described by `v`, or the failure of its first invalid
/// field, the fields taken in the order log_file, output_file, debounce, oneshot,
/// regex, commands.
pub open spec fn watchdog_of(name: Seq<char>, v: ConfigValue) -> Result<WatchdogModel, SettingsFailure> {
    match text_field(v, "log_file"@) {
        Err(e) => Err(e),
        Ok(log_file) => match text_field(v, "output_file"@) {
            Err(e) => Err(e),
            Ok(output_file) => match debounce_field(v) {
                Err(e) => Err(e),
                Ok(debounce) => match oneshot_field(v) {
                    Err(e) => Err(e),
                    Ok(oneshot) => match text_field(v, "regex"@) {
                        Err(e) => Err(e),
                        Ok(pattern) => if !regex_compiles(pattern) {
                            Err(SettingsFailure::Regex)
                        } else {
                            match value_get(v, "commands"@) {
                                None => Err(SettingsFailure::Missing("commands"@)),
                                Some(c) => match commands_value_of(c) {
                                    Err(e) => Err(e),
                                    Ok(commands) => Ok(
                                        WatchdogModel {
                                            name,
                                            log_file,
                                            output_file,
                                            debounce,
                                            oneshot,
                                            pattern,
                                            commands,
                                        },
                                    ),
                                },
                            }
                        },
                    },
                },
            },
        },
    }
}

/// The watchdogs of the entries in order, or the failure of the first invalid one.
pub open spec fn watchdogs_of(entries: Seq<(String, ConfigValue)>) -> Result<Seq<WatchdogModel>, SettingsFailure>
    decreases entries.len(),
{
    if entries.len() == 0 {
        Ok(seq![])
    } else {
        match watchdogs_of(entries.drop_last()) {
            Err(e) => Err(e),
            Ok(p) => match watchdog_of(entries.last().0@, entries.last().1) {
                Err(e) => Err(e),
                Ok(w) => Ok(p.push(w)),
            },
        }
    }
}

/// The entries under the first top-level key `key`, at `i` or after.
pub open spec fn section_from(
    config: Seq<(String, Vec<(String, ConfigValue)>)>,
    key: Seq<char>,
    i: int,
) -> Option<Seq<(String, ConfigValue)>>
    decreases config.len() - i,
{
    if i < 0 || i >= config.len() {
        None
    } else if config[i].0@ == key {
        Some(config[i].1@)
    } else {
        section_from(config, key, i + 1)
    }
}

/// The watchdogs that a settings document describes under its `watchdogs` key.
pub open spec fn settings_of(config: Seq<(String, Vec<(String, ConfigValue)>)>) -> Result<Seq<WatchdogModel>, SettingsFailure> {
    match section_from(config, "watchdogs"@, 0) {
        None => Err(SettingsFailure::Missing("watchdogs"@)),
        Some(entries) => watchdogs_of(entries),
    }
}

/// The models of watchdogs, in order.
pub open spec fn watchdog_models(v: Seq<Watchdog>) -> Seq<WatchdogModel> {
    v.map_values(|w: Watchdog| w@)
}

/// Reads the watchdog named `name` from its description `v`.
fn parse_watchdog(name: &String, v: &ConfigValue) -> (r: Result<Watchdog, SettingsError>)
    ensures
        r matches Ok(w) ==> watchdog_of(name@, *v) == Ok::<WatchdogModel, SettingsFailure>(w@),
        r matches Err(e) ==> watchdog_of(name@, *v) == Err::<WatchdogModel, SettingsFailure>(
            failure_of(e),
        ),
{
    let log_file = match get_val_or_err(v, "log_file") {
        Ok(s) => s,
        Err(e) => {
            return Err(e);
        },
    };
    let output_file = match get_val_or_err(v, "output_file") {
        Ok(s) => s,
        Err(e) => {
            return Err(e);
        },
    };
    let debounce: u64 = match lookup(v, "debounce") {
        None => {
            return Err(SettingsError::MissingSettingKey { key: "debounce".to_owned() });
        },
        Some(ConfigValue::Int(n)) => {
            if *n < 0 {
                return Err(SettingsError::TryFromIntError);
            }
            *n as u64
        },
        Some(_) => {
            return Err(SettingsError::InvalidValueType { key: "debounce".to_owned() });
        },
    };
    let oneshot: bool = match lookup(v, "oneshot") {
        None => {
            return Err(SettingsError::MissingSettingKey { key: "oneshot".to_owned() });
        },
        Some(ConfigValue::Bool(b)) => *b,
        Some(_) => {
            return Err(SettingsError::InvalidValueType { key: "oneshot".to_owned() });
        },
    };
    let source = match get_val_or_err(v, "regex") {
        Ok(s) => s,
        Err(e) => {
            return Err(e);
        },
    };
    let regex = match Pattern::new(source.as_str()) {
        Ok(p) => p,
        Err(e) => {
            return Err(SettingsError::Regex(e));
        },
    };
    let commands = match lookup(v, "commands") {
        None => {
            return Err(SettingsError::MissingSettingKey { key: "commands".to_owned() });
        },
        Some(c) => match parse_commands_value(c) {
            Ok(cs) => cs,
            Err(e) => {
                return Err(e);
            },
        },
    };
    Ok(Watchdog { name: name.clone(), log_file, output_file, debounce, oneshot, regex, commands })
}

/// A watchdog list with a failing prefix fails the same way, whatever follows.
proof fn lemma_watchdogs_err_extends(a: Seq<(String, ConfigValue)>, b: Seq<(String, ConfigValue)>)
    requires
        watchdogs_of(a) is Err,
    ensures
        watchdogs_of(a + b) == watchdogs_of(a),
    decreases b.len(),
{
    if b.len() > 0 {
        lemma_watchdogs_err_extends(a, b.drop_last());
        assert((a + b).drop_last() =~= a + b.drop_last());
    } else {
        assert(a + b =~= a);
    }
}

/// Reads the entries of the `watchdogs` section in order, stopping at the first
/// invalid one.
fn parse_watchdog_entries(entries: &Vec<(String, ConfigValue)>) -> (r: Result<Vec<Watchdog>, SettingsError>)
    ensures
        r matches Ok(v) ==> watchdogs_of(entries@) == Ok::<Seq<WatchdogModel>, SettingsFailure>(
            watchdog_models(v@),
        ),
        r matches Err(e) ==> watchdogs_of(entries@) == Err::<Seq<WatchdogModel>, SettingsFailure>(
            failure_of(e),
        ),
{
    let mut out: Vec<Watchdog> = Vec::new();
    let mut i: usize = 0;
    assert(entries@.subrange(0, 0) =~= Seq::<(String, ConfigValue)>::empty());
    assert(watchdog_models(out@) =~= Seq::<WatchdogModel>::empty());
    while i < entries.len()
        invariant
            0 <= i <= entries@.len(),
            watchdogs_of(entries@.subrange(0, i as int)) == Ok::<Seq<WatchdogModel>, SettingsFailure>(
                watchdog_models(out@),
            ),
        decreases entries@.len() - i,
    {
        assert(entries@.subrange(0, i + 1).drop_last() =~= entries@.subrange(0, i as int));
        assert(entries@.subrange(0, i + 1).last() == entries@[i as int]);
        let entry = &entries[i];
        match parse_watchdog(&entry.0, &entry.1) {
            Ok(w) => {
                let ghost before = out@;
                out.push(w);
                assert(watchdog_models(out@) =~= watchdog_models(before).push(w@));
            },
            Err(e) => {
                proof {
                    assert(watchdogs_of(entries@.subrange(0, i + 1)) == Err::<Seq<WatchdogModel>, SettingsFailure>(
                        failure_of(e),
                    ));
                    assert(entries@ =~= entries@.subrange(0, i + 1) + entries@.subrange(i + 1, entries@.len() as int));
                    lemma_watchdogs_err_extends(entries@.subrange(0, i + 1), entries@.subrange(i + 1, entries@.len() as int));
                }
                return Err(e);
            },
        }
        i = i + 1;
    }
    assert(entries@.subrange(0, i as int) =~= entries@);
    Ok(out)
}

/// The validated watchdog descriptions of a settings document.
pub struct Settings {
    watchdogs: Vec<Watchdog>,
}

impl View for Settings {
    type V = Seq<WatchdogModel>;

    closed spec fn view(&self) -> Seq<WatchdogModel> {
        watchdog_models(self.watchdogs@)
    }
}

impl Settings {
    /// Validates a settings document given as its top-level sections, each a list
    /// of (name, value) entries. The watchdogs are those of the `watchdogs`
    /// section, in order; the result is an error exactly when that section is
    /// absent or one of its entries is invalid, and the error is that of the first
    /// invalid entry's first invalid field.
    pub fn from_config(config: &Vec<(String, Vec<(String, ConfigValue)>)>) -> (r: Result<Settings, SettingsError>)
        ensures
            r matches Ok(s) ==> settings_of(config@) == Ok::<Seq<WatchdogModel>, SettingsFailure>(s@),
            r matches Err(e) ==> settings_of(config@) == Err::<Seq<WatchdogModel>, SettingsFailure>(
                failure_of(e),
            ),
    {
        let mut i: usize = 0;
        while i < config.len()
            invariant
                0 <= i <= config@.len(),
                section_from(config@, "watchdogs"@, 0) == section_from(config@, "watchdogs"@, i as int),
            decreases config@.len() - i,
        {
            let section = &config[i];
            if text_eq(section.0.as_str(), "watchdogs") {
                return match parse_watchdog_entries(&section.1) {
                    Ok(watchdogs) => Ok(Settings { watchdogs }),
                    Err(e) => Err(e),
                };
            }
            i = i + 1;
        }
        Err(SettingsError::MissingSettingKey { key: "watchdogs".to_owned() })
    }

    /// The watchdogs, in order.
    pub fn watchdogs(&self) -> (r: &[Watchdog])
        ensures
            watchdog_models(r@) == self@,
    {
        self.watchdogs.as_slice()
    }

    /// Gives up the watchdogs, in order.
    pub fn into_watchdogs(self) -> (r: Vec<Watchdog>)
        ensures
            watchdog_models(r@) == self@,
    {
        self.watchdogs
    }
}

} // verus!
