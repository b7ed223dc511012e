//! Configuration: typed values by key, per environment, with versions, a history of changes
//! and values hidden when sensitive.
//!
//! A floating-point value is kept as the bits of the double (`f64::to_bits`). Times are Unix
//! milliseconds. Reading and writing configuration files, and telling listeners of a change, are
//! the program's part.
use vstd::prelude::*;
use crate::assoc::{find, index_of, lemma_index_of, lemma_same_keys, lemma_upsert, position_of, remove_key, string_keyed, upsert};
use crate::opencode_connector::path_from;
use crate::text::{owned, push_str, string_of};

verus! {

/// A configuration value.
#[derive(Debug)]
pub enum ConfigValue {
    String(String),
    Integer(i64),
    /// The bits of a double (`f64::to_bits`).
    Float(u64),
    Boolean(bool),
    Array(Vec<ConfigValue>),
    Object(Vec<(String, ConfigValue)>),
}

/// The abstract value of a configuration value.
pub enum ValueView {
    Str(Seq<char>),
    Int(i64),
    Float(u64),
    Bool(bool),
    Array(Seq<ValueView>),
    Object(Seq<(Seq<char>, ValueView)>),
}

pub open spec fn value_view(v: ConfigValue) -> ValueView
    decreases v,
{
    match v {
        ConfigValue::String(s) => ValueView::Str(s@),
        ConfigValue::Integer(i) => ValueView::Int(i),
        ConfigValue::Float(b) => ValueView::Float(b),
        ConfigValue::Boolean(b) => ValueView::Bool(b),
        ConfigValue::Array(items) => ValueView::Array(
            Seq::new(
                items@.len(),
                |i: int|
                    if 0 <= i < items@.len() {
                        value_view(items@[i])
                    } else {
                        ValueView::Int(0)
                    },
            ),
        ),
        ConfigValue::Object(es) => ValueView::Object(
            Seq::new(
                es@.len(),
                |i: int|
                    if 0 <= i < es@.len() {
                        (es@[i].0@, value_view(es@[i].1))
                    } else {
                        (seq![], ValueView::Int(0))
                    },
            ),
        ),
    }
}

/// A copy of a value.
pub fn copy_value(v: &ConfigValue) -> (r: ConfigValue)
    ensures
        value_view(r) == value_view(*v),
    decreases v,
{
    match v {
        ConfigValue::String(s) => {
            assert(*v == ConfigValue::String(*s));
            let c = s.clone();
            assert(c@ == s@);
            let r = ConfigValue::String(c);
            assert(value_view(r) == ValueView::Str(c@));
            assert(value_view(*v) == ValueView::Str(s@));
            r
        },
        ConfigValue::Integer(i) => {
            let r = ConfigValue::Integer(*i);
            assert(value_view(r) == ValueView::Int(*i));
            r
        },
        ConfigValue::Float(b) => {
            let r = ConfigValue::Float(*b);
            assert(value_view(r) == ValueView::Float(*b));
            r
        },
        ConfigValue::Boolean(b) => {
            let r = ConfigValue::Boolean(*b);
            assert(value_view(r) == ValueView::Bool(*b));
            r
        },
        ConfigValue::Array(items) => {
            let n = items.len();
            let mut out: Vec<ConfigValue> = Vec::new();
            let mut i: usize = 0;
            while i < n
                invariant
                    i <= n,
                    n == items@.len(),
                    *v == ConfigValue::Array(*items),
                    out@.len() == i,
                    forall|k: int| 0 <= k < i ==> value_view(#[trigger] out@[k]) == value_view(items@[k]),
                decreases n - i,
            {
                proof {
                    assert(*v == ConfigValue::Array(*items));
                    assert(decreases_to!(*v => (*v)->Array_0));
                    assert(decreases_to!(*items => items@));
                    assert(decreases_to!(items@ => items@[i as int]));
                    assert(decreases_to!(*v => items@[i as int]));
                }
                out.push(copy_value(&items[i]));
                i = i + 1;
            }
            let r = ConfigValue::Array(out);
            assert(value_view(r) is Array);
            assert(value_view(*v) is Array);
            assert(value_view(r)->Array_0 =~= value_view(*v)->Array_0);
            r
        },
        ConfigValue::Object(es) => {
            let n = es.len();
            let mut out: Vec<(String, ConfigValue)> = Vec::new();
            let mut i: usize = 0;
            while i < n
                invariant
                    i <= n,
                    n == es@.len(),
                    *v == ConfigValue::Object(*es),
                    out@.len() == i,
                    forall|k: int| 0 <= k < i ==> (#[trigger] out@[k]).0@ == es@[k].0@ && value_view(out@[k].1) == value_view(es@[k].1),
                decreases n - i,
            {
                proof {
                    assert(decreases_to!(*v => (*v)->Object_0));
                    assert(decreases_to!(*es => es@));
                    assert(decreases_to!(es@ => es@[i as int]));
                    assert(decreases_to!(es@[i as int] => es@[i as int].1));
                    assert(decreases_to!(*v => es@[i as int].1));
                }
                out.push((es[i].0.clone(), copy_value(&es[i].1)));
                i = i + 1;
            }
            let r = ConfigValue::Object(out);
            assert(value_view(r) is Object);
            assert(value_view(*v) is Object);
            assert(value_view(r)->Object_0 =~= value_view(*v)->Object_0);
            r
        },
    }
}

/// The environment a configuration is for.
#[derive(Debug, Clone, Copy, PartialEq, Eq, Hash, Structural)]
pub enum Environment {
    Development,
    Staging,
    Production,
}

pub open spec fn environment_name(e: Environment) -> Seq<char> {
    match e {
        Environment::Development => "development"@,
        Environment::Staging => "staging"@,
        Environment::Production => "production"@,
    }
}

impl Environment {
    /// The name of the environment, as it is written.
    pub fn name(&self) -> (r: &'static str)
        ensures
            r@ == environment_name(*self),
    {
        match self {
            Environment::Development => "development",
            Environment::Staging => "staging",
            Environment::Production => "production",
        }
    }
}

impl ConfigValue {
    /// The text of a string value.
    pub fn as_str(&self) -> (r: Option<&str>)
        ensures
            match value_view(*self) {
                ValueView::Str(s) => r matches Some(x) && x@ == s,
                _ => r is None,
            },
    {
        match self {
            ConfigValue::String(s) => Some(s.as_str()),
            _ => None,
        }
    }

    /// The number of an integer value.
    pub fn as_i64(&self) -> (r: Option<i64>)
        ensures
            r == match value_view(*self) {
                ValueView::Int(i) => Some(i),
                _ => None,
            },
    {
        match self {
            ConfigValue::Integer(i) => Some(*i),
            _ => None,
        }
    }

    /// The bits of a floating-point value.
    pub fn as_float_bits(&self) -> (r: Option<u64>)
        ensures
            r == match value_view(*self) {
                ValueView::Float(b) => Some(b),
                _ => None,
            },
    {
        match self {
            ConfigValue::Float(b) => Some(*b),
            _ => None,
        }
    }

    /// The truth of a boolean value.
    pub fn as_bool(&self) -> (r: Option<bool>)
        ensures
            r == match value_view(*self) {
                ValueView::Bool(b) => Some(b),
                _ => None,
            },
    {
        match self {
            ConfigValue::Boolean(b) => Some(*b),
            _ => None,
        }
    }
}

/// A stored configuration value.
#[derive(Debug)]
pub struct ConfigEntry {
    pub key: String,
    pub value: ConfigValue,
    pub sensitive: bool,
    pub hot_reloadable: bool,
    pub environment: Option<Environment>,
    pub updated_at: i64,
    pub version: u64,
}

pub struct EntryView {
    pub value: ValueView,
    pub sensitive: bool,
    pub hot_reloadable: bool,
    pub environment: Option<Environment>,
    pub updated_at: i64,
    pub version: u64,
}

pub open spec fn entry_view(e: ConfigEntry) -> EntryView {
    EntryView {
        value: value_view(e.value),
        sensitive: e.sensitive,
        hot_reloadable: e.hot_reloadable,
        environment: e.environment,
        updated_at: e.updated_at,
        version: e.version,
    }
}

/// A change of a configuration value.
#[derive(Debug)]
pub struct ConfigChange {
    pub key: String,
    pub old_value: Option<ConfigValue>,
    pub new_value: ConfigValue,
    pub changed_at: i64,
    pub changed_by: String,
}

pub struct ChangeView {
    pub key: Seq<char>,
    pub old_value: Option<ValueView>,
    pub new_value: ValueView,
    pub changed_at: i64,
    pub changed_by: Seq<char>,
}

pub open spec fn change_view(c: ConfigChange) -> ChangeView {
    ChangeView {
        key: c.key@,
        old_value: match c.old_value {
            Some(v) => Some(value_view(v)),
            None => None,
        },
        new_value: value_view(c.new_value),
        changed_at: c.changed_at,
        changed_by: c.changed_by@,
    }
}

pub open spec fn changes_view(v: Seq<ConfigChange>) -> Seq<ChangeView> {
    Seq::new(v.len(), |i: int| change_view(v[i]))
}

/// The settings of the manager.
#[derive(Debug)]
pub struct ConfigManagerConfig {
    pub environment: Environment,
    pub config_dir: std::path::PathBuf,
    pub enable_hot_reload: bool,
    pub hot_reload_interval_secs: u64,
    pub encrypt_sensitive: bool,
}

impl Default for ConfigManagerConfig {
    /// Development, `./config`, hot reload every minute, sensitive values hidden.
    fn default() -> (r: Self)
        ensures
            r.environment == Environment::Development && r.enable_hot_reload && r.hot_reload_interval_secs == 60
                && r.encrypt_sensitive,
    {
        ConfigManagerConfig {
            environment: Environment::Development,
            config_dir: path_from("./config"),
            enable_hot_reload: true,
            hot_reload_interval_secs: 60,
            encrypt_sensitive: true,
        }
    }
}

/// Keeps the configuration values and the history of changes.
pub struct ConfigManager {
    config: ConfigManagerConfig,
    store: Vec<(String, ConfigEntry)>,
    change_history: Vec<ConfigChange>,
}

/// The abstract state of the manager.
pub struct ConfigView {
    pub environment: Environment,
    pub encrypt_sensitive: bool,
    pub store: Seq<(Seq<char>, EntryView)>,
    /// Oldest first.
    pub history: Seq<ChangeView>,
}

pub open spec fn store_view(v: Seq<(String, ConfigEntry)>) -> Seq<(Seq<char>, EntryView)> {
    Seq::new(v.len(), |i: int| (v[i].0@, entry_view(v[i].1)))
}

impl View for ConfigManager {
    type V = ConfigView;

    closed spec fn view(&self) -> ConfigView {
        ConfigView {
            environment: self.config.environment,
            encrypt_sensitive: self.config.encrypt_sensitive,
            store: store_view(self.store@),
            history: changes_view(self.change_history@),
        }
    }
}

/// The value stored under `key`.
pub open spec fn value_of(v: ConfigView, key: Seq<char>) -> Option<ValueView> {
    match find(v.store, key) {
        Some(e) => Some(e.value),
        None => None,
    }
}

/// Whether setting `key` is refused: it is stored as not hot-reloadable, and the new value is
/// not hot-reloadable either.
pub open spec fn set_refused(v: ConfigView, key: Seq<char>, hot_reloadable: bool) -> bool {
    match find(v.store, key) {
        Some(e) => !e.hot_reloadable && !hot_reloadable,
        None => false,
    }
}

/// The manager after `key` is set to `value` at `now` by `changed_by`: a new entry (version one
/// more than before, or 1) for the current environment, and the change recorded.
pub open spec fn after_set(v: ConfigView, key: Seq<char>, value: ValueView, sensitive: bool, hot_reloadable: bool, changed_by: Seq<char>, now: i64) -> ConfigView {
    let old = find(v.store, key);
    ConfigView {
        store: upsert(
            v.store,
            key,
            EntryView {
                value,
                sensitive,
                hot_reloadable,
                environment: Some(v.environment),
                updated_at: now,
                version: match old {
                    Some(e) => if e.version == u64::MAX { e.version } else { (e.version + 1) as u64 },
                    None => 1,
                },
            },
        ),
        history: v.history.push(
            ChangeView {
                key,
                old_value: match old {
                    Some(e) => Some(e.value),
                    None => None,
                },
                new_value: value,
                changed_at: now,
                changed_by,
            },
        ),
        ..v
    }
}

/// What a value is shown as: hidden when it is sensitive and sensitive values are hidden.
pub open spec fn shown(v: ConfigView, e: EntryView) -> ValueView {
    if e.sensitive && v.encrypt_sensitive {
        ValueView::Str("***ENCRYPTED***"@)
    } else {
        e.value
    }
}

fn message(prefix: &str, key: &str, suffix: &str) -> (r: String)
    ensures
        r@ == prefix@ + key@ + suffix@,
{
    let mut m: Vec<char> = Vec::new();
    push_str(&mut m, prefix);
    push_str(&mut m, key);
    push_str(&mut m, suffix);
    string_of(&m)
}

impl ConfigManager {
    /// A manager with nothing stored.
    pub fn new(config: ConfigManagerConfig) -> (r: Self)
        ensures
            r@.environment == config.environment && r@.encrypt_sensitive == config.encrypt_sensitive,
            r@.store.len() == 0 && r@.history.len() == 0,
            r.directory() == config.config_dir,
    {
        let r = ConfigManager { config, store: Vec::new(), change_history: Vec::new() };
        assert(r@.store =~= seq![]);
        assert(r@.history =~= seq![]);
        r
    }

    /// The name of the file the configuration of the current environment is read from.
    pub fn config_file_name(&self) -> (r: String)
        ensures
            r@ == environment_name(self@.environment) + ".json"@,
    {
        let mut v: Vec<char> = Vec::new();
        push_str(&mut v, self.config.environment.name());
        push_str(&mut v, ".json");
        string_of(&v)
    }

    /// The directory configuration files are read from, as configured.
    pub closed spec fn directory(&self) -> std::path::PathBuf {
        self.config.config_dir
    }

    /// The directory configuration files are read from (see `directory`).
    pub fn config_dir(&self) -> (r: &std::path::PathBuf)
        ensures
            *r == self.directory(),
    {
        &self.config.config_dir
    }

    /// A copy of the value stored under `key`.
    pub fn get(&self, key: &str) -> (r: Option<ConfigValue>)
        ensures
            match value_of(self@, key@) {
                Some(x) => r matches Some(c) && value_view(c) == x,
                None => r is None,
            },
    {
        let pos = position_of(&self.store, key);
        proof {
            lemma_same_keys(string_keyed(self.store@), self@.store, key@);
        }
        match pos {
            Some(i) => Some(copy_value(&self.store[i].1.value)),
            None => None,
        }
    }

    /// The text stored under `key`, if it is a string.
    pub fn get_string(&self, key: &str) -> (r: Option<String>)
        ensures
            match value_of(self@, key@) {
                Some(ValueView::Str(s)) => r matches Some(x) && x@ == s,
                _ => r is None,
            },
    {
        match self.get(key) {
            Some(v) => match v.as_str() {
                Some(s) => Some(owned(s)),
                None => None,
            },
            None => None,
        }
    }

    /// The number stored under `key`, if it is an integer.
    pub fn get_i64(&self, key: &str) -> (r: Option<i64>)
        ensures
            r == match value_of(self@, key@) {
                Some(ValueView::Int(i)) => Some(i),
                _ => None,
            },
    {
        match self.get(key) {
            Some(v) => v.as_i64(),
            None => None,
        }
    }

    /// The bits of the double stored under `key`, if it is a floating-point value.
    pub fn get_float_bits(&self, key: &str) -> (r: Option<u64>)
        ensures
            r == match value_of(self@, key@) {
                Some(ValueView::Float(b)) => Some(b),
                _ => None,
            },
    {
        match self.get(key) {
            Some(v) => v.as_float_bits(),
            None => None,
        }
    }

    /// The truth stored under `key`, if it is a boolean.
    pub fn get_bool(&self, key: &str) -> (r: Option<bool>)
        ensures
            r == match value_of(self@, key@) {
                Some(ValueView::Bool(b)) => Some(b),
                _ => None,
            },
    {
        match self.get(key) {
            Some(v) => v.as_bool(),
            None => None,
        }
    }

    /// The value stored under `key`, or `default`.
    pub fn get_or(&self, key: &str, default: ConfigValue) -> (r: ConfigValue)
        ensures
            value_view(r) == match value_of(self@, key@) {
                Some(x) => x,
                None => value_view(default),
            },
    {
        match self.get(key) {
            Some(v) => v,
            None => default,
        }
    }

    /// Sets `key` to `value` at `now` (see `after_set`), unless it is refused (see
    /// `set_refused`).
    pub fn set_at(&mut self, key: String, value: ConfigValue, sensitive: bool, hot_reloadable: bool, changed_by: String, now: i64) -> (r: Result<(), String>)
        ensures
            set_refused(old(self)@, key@, hot_reloadable) ==> (r matches Err(e) && e@ == "Config '"@ + key@ + "' is not hot-reloadable"@)
                && final(self)@ == old(self)@,
            !set_refused(old(self)@, key@, hot_reloadable) ==> r is Ok && final(self)@ == after_set(
                old(self)@,
                key@,
                value_view(value),
                sensitive,
                hot_reloadable,
                changed_by@,
                now,
            ),
    {
        let ghost sv = store_view(self.store@);
        let pos = position_of(&self.store, key.as_str());
        proof {
            lemma_same_keys(string_keyed(self.store@), sv, key@);
            lemma_index_of(sv, key@);
        }
        if let Some(i) = pos {
            if !self.store[i].1.hot_reloadable && !hot_reloadable {
                return Err(message("Config '", key.as_str(), "' is not hot-reloadable"));
            }
        }
        let ghost nv = value_view(value);
        let new_value = copy_value(&value);
        let (old_value, version) = match pos {
            Some(i) => {
                let (_, old_entry) = self.store.remove(i);
                let version = if old_entry.version == u64::MAX { old_entry.version } else { old_entry.version + 1 };
                (Some(old_entry.value), version)
            },
            None => (None, 1),
        };
        let entry = ConfigEntry {
            key: key.clone(),
            value,
            sensitive,
            hot_reloadable,
            environment: Some(self.config.environment),
            updated_at: now,
            version,
        };
        let ghost ev = entry_view(entry);
        match pos {
            Some(i) => {
                self.store.insert(i, (key.clone(), entry));
                assert(store_view(self.store@) =~= sv.update(i as int, (key@, ev)));
            },
            None => {
                self.store.push((key.clone(), entry));
                assert(store_view(self.store@) =~= sv.push((key@, ev)));
            },
        }
        let change = ConfigChange { key, old_value, new_value, changed_at: now, changed_by };
        let ghost cv = change_view(change);
        self.change_history.push(change);
        assert(changes_view(self.change_history@) =~= changes_view(old(self).change_history@).push(cv));
        Ok(())
    }

    /// Sets `key` to `value` now (see `set_at`).
    pub fn set(&mut self, key: String, value: ConfigValue, sensitive: bool, hot_reloadable: bool, changed_by: String) -> (r: Result<(), String>)
        ensures
            set_refused(old(self)@, key@, hot_reloadable) ==> (r matches Err(e) && e@ == "Config '"@ + key@ + "' is not hot-reloadable"@)
                && final(self)@ == old(self)@,
            !set_refused(old(self)@, key@, hot_reloadable) ==> r is Ok && exists|t: i64| final(self)@ == #[trigger] after_set(
                old(self)@,
                key@,
                value_view(value),
                sensitive,
                hot_reloadable,
                changed_by@,
                t,
            ),
    {
        let now = crate::clock::now_millis();
        self.set_at(key, value, sensitive, hot_reloadable, changed_by, now)
    }

    /// Sets each of `configs` in order now (see `set_batch_at`).
    pub fn set_batch(&mut self, configs: Vec<(String, ConfigValue)>, changed_by: String) -> (r: Result<(), String>)
        ensures
            r is Ok,
            exists|t: i64| final(self)@ == #[trigger] after_batch(old(self)@, pairs_of(configs@), changed_by@, t, configs@.len() as int),
    {
        let now = crate::clock::now_millis();
        self.set_batch_at(configs, changed_by, now)
    }

    /// Removes `key`.
    pub fn remove(&mut self, key: &str) -> (r: Result<(), String>)
        ensures
            r is Ok,
            final(self)@ == (ConfigView { store: remove_key(old(self)@.store, key@), ..old(self)@ }),
    {
        let ghost sv = store_view(self.store@);
        let pos = position_of(&self.store, key);
        proof {
            lemma_same_keys(string_keyed(self.store@), sv, key@);
        }
        if let Some(i) = pos {
            self.store.remove(i);
            assert(store_view(self.store@) =~= sv.remove(i as int));
        }
        Ok(())
    }

    /// The values stored, in the order keys were first set, sensitive ones hidden (see `shown`).
    pub fn get_all(&self) -> (r: Vec<(String, ConfigValue)>)
        ensures
            r@.len() == self@.store.len(),
            forall|k: int|
                0 <= k < r@.len() ==> (#[trigger] r@[k]).0@ == self@.store[k].0 && value_view(r@[k].1) == shown(self@, self@.store[k].1),
    {
        let n = self.store.len();
        let mut out: Vec<(String, ConfigValue)> = Vec::new();
        let mut i: usize = 0;
        while i < n
            invariant
                i <= n,
                n == self.store@.len(),
                out@.len() == i,
                forall|k: int|
                    0 <= k < i ==> (#[trigger] out@[k]).0@ == self@.store[k].0 && value_view(out@[k].1) == shown(self@, self@.store[k].1),
            decreases n - i,
        {
            let e = &self.store[i].1;
            let value = if e.sensitive && self.config.encrypt_sensitive {
                ConfigValue::String(owned("***ENCRYPTED***"))
            } else {
                copy_value(&e.value)
            };
            out.push((self.store[i].0.clone(), value));
            i = i + 1;
        }
        out
    }

    /// Checks the configuration: no rule is in force, so nothing is found.
    pub fn validate(&self) -> (r: Result<Vec<String>, String>)
        ensures
            r matches Ok(v) && v@.len() == 0,
    {
        Ok(Vec::new())
    }

    /// The newest changes, newest first: `limit` of them, or 100 without a limit.
    pub fn get_change_history(&self, limit: Option<usize>) -> (r: Vec<ConfigChange>)
        ensures
            ({
                let h = self@.history;
                let n = match limit {
                    Some(l) => l as int,
                    None => 100int,
                };
                let count = if h.len() < n { h.len() as int } else { n };
                &&& r@.len() == count
                &&& forall|k: int| 0 <= k < count ==> change_view(#[trigger] r@[k]) == h[h.len() - 1 - k]
            }),
    {
        let ghost hv = self@.history;
        let limit = match limit {
            Some(l) => l,
            None => 100,
        };
        let n = self.change_history.len();
        let count = if n < limit { n } else { limit };
        let mut out: Vec<ConfigChange> = Vec::new();
        let mut k: usize = 0;
        while k < count
            invariant
                k <= count,
                count <= n,
                n == self.change_history@.len(),
                hv == changes_view(self.change_history@),
                out@.len() == k,
                forall|j: int| 0 <= j < k ==> change_view(#[trigger] out@[j]) == hv[n - 1 - j],
            decreases count - k,
        {
            let c = &self.change_history[n - 1 - k];
            out.push(ConfigChange {
                key: c.key.clone(),
                old_value: match &c.old_value {
                    Some(v) => Some(copy_value(v)),
                    None => None,
                },
                new_value: copy_value(&c.new_value),
                changed_at: c.changed_at,
                changed_by: c.changed_by.clone(),
            });
            k = k + 1;
        }
        out
    }
}

/// The manager after the first `k` of `cs` are set, in order, as neither sensitive nor fixed.
pub open spec fn after_batch(v: ConfigView, cs: Seq<(Seq<char>, ValueView)>, by: Seq<char>, now: i64, k: int) -> ConfigView
    decreases k,
{
    if k <= 0 {
        v
    } else {
        after_set(after_batch(v, cs, by, now, k - 1), cs[k - 1].0, cs[k - 1].1, false, true, by, now)
    }
}

pub open spec fn pairs_of(v: Seq<(String, ConfigValue)>) -> Seq<(Seq<char>, ValueView)> {
    Seq::new(v.len(), |i: int| (v[i].0@, value_view(v[i].1)))
}

impl ConfigManager {
    /// Sets each of `configs` in order at `now`, as neither sensitive nor fixed.
    pub fn set_batch_at(&mut self, configs: Vec<(String, ConfigValue)>, changed_by: String, now: i64) -> (r: Result<(), String>)
        ensures
            r is Ok,
            final(self)@ == after_batch(old(self)@, pairs_of(configs@), changed_by@, now, configs@.len() as int),
    {
        let ghost cs = pairs_of(configs@);
        let n = configs.len();
        let mut i: usize = 0;
        while i < n
            invariant
                i <= n,
                n == configs@.len(),
                cs == pairs_of(configs@),
                self@ == after_batch(old(self)@, cs, changed_by@, now, i as int),
            decreases n - i,
        {
            let key = configs[i].0.clone();
            let value = copy_value(&configs[i].1);
            let r = self.set_at(key, value, false, true, changed_by.clone(), now);
            i = i + 1;
        }
        Ok(())
    }
}

/// A value that was set is what is read back, until it is set again.
pub proof fn law_set_then_get(v: ConfigView, key: Seq<char>, value: ValueView, sensitive: bool, hot: bool, by: Seq<char>, now: i64, other: Seq<char>)
    requires
        other != key,
    ensures
        value_of(after_set(v, key, value, sensitive, hot, by, now), key) == Some(value),
        value_of(after_set(v, key, value, sensitive, hot, by, now), other) == value_of(v, other),
{
    let old = find(v.store, key);
    let e = EntryView {
        value,
        sensitive,
        hot_reloadable: hot,
        environment: Some(v.environment),
        updated_at: now,
        version: match old {
            Some(e) => if e.version == u64::MAX { e.version } else { (e.version + 1) as u64 },
            None => 1,
        },
    };
    lemma_upsert(v.store, key, e);
}

/// Each setting of a key raises its version by one (up to `u64::MAX`), from 1.
pub proof fn law_version_counts(v: ConfigView, key: Seq<char>, value: ValueView, sensitive: bool, hot: bool, by: Seq<char>, now: i64)
    ensures
        find(after_set(v, key, value, sensitive, hot, by, now).store, key) matches Some(e) && e.version == match find(v.store, key) {
            Some(o) => if o.version == u64::MAX { o.version } else { (o.version + 1) as u64 },
            None => 1u64,
        },
{
    let old = find(v.store, key);
    let e = EntryView {
        value,
        sensitive,
        hot_reloadable: hot,
        environment: Some(v.environment),
        updated_at: now,
        version: match old {
            Some(e) => if e.version == u64::MAX { e.version } else { (e.version + 1) as u64 },
            None => 1,
        },
    };
    lemma_upsert(v.store, key, e);
}

} // verus!
