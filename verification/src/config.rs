//! The program's settings: their defaults, and how a settings file written
//! in TOML changes them.

use vstd::prelude::*;
use vstd::string::StringExecFns;

verus! {

/// The settings of the program.
#[derive(Debug)]
pub struct Config {
    pub config_path: String,
    pub db_path: String,
    pub cache_path: String,
    pub color: bool,
    pub delete_make_deps: Option<bool>,
}

pub struct ConfigView {
    pub config_path: Seq<char>,
    pub db_path: Seq<char>,
    pub cache_path: Seq<char>,
    pub color: bool,
    pub delete_make_deps: Option<bool>,
}

impl View for Config {
    type V = ConfigView;

    open spec fn view(&self) -> ConfigView {
        ConfigView {
            config_path: self.config_path@,
            db_path: self.db_path@,
            cache_path: self.cache_path@,
            color: self.color,
            delete_make_deps: self.delete_make_deps,
        }
    }
}

/// The value of one key of a settings file, as far as the settings use it.
#[derive(Debug)]
pub enum Setting {
    Text(String),
    Flag(bool),
    /// A value of any other kind.
    Other,
}

pub enum SettingView {
    Text(Seq<char>),
    Flag(bool),
    Other,
}

impl View for Setting {
    type V = SettingView;

    open spec fn view(&self) -> SettingView {
        match self {
            Setting::Text(s) => SettingView::Text(s@),
            Setting::Flag(b) => SettingView::Flag(*b),
            Setting::Other => SettingView::Other,
        }
    }
}

/// Why a settings file is refused.
#[derive(Debug)]
pub enum ConfigError {
    /// The file is not valid TOML.
    Syntax,
    /// The file sets a key that is no setting.
    UnknownKey(String),
    /// The file gives a setting a value of the wrong kind.
    WrongType(String),
}

pub enum ConfigErrorView {
    Syntax,
    UnknownKey(Seq<char>),
    WrongType(Seq<char>),
}

impl View for ConfigError {
    type V = ConfigErrorView;

    open spec fn view(&self) -> ConfigErrorView {
        match self {
            ConfigError::Syntax => ConfigErrorView::Syntax,
            ConfigError::UnknownKey(k) => ConfigErrorView::UnknownKey(k@),
            ConfigError::WrongType(k) => ConfigErrorView::WrongType(k@),
        }
    }
}

/// The keys and values of a list of settings.
pub open spec fn settings_of(v: Seq<(String, Setting)>) -> Seq<(Seq<char>, SettingView)> {
    Seq::new(v.len(), |i: int| (v[i].0@, v[i].1@))
}

/// The top-level keys of the TOML document `text` with their values, in the
/// order in which the TOML parser hands them out; `None` when `text` is not
/// valid TOML.
pub uninterp spec fn toml_settings(text: Seq<char>) -> Option<Seq<(Seq<char>, SettingView)>>;

/// The view of a document that may have been refused.
pub open spec fn parsed_settings(r: Option<Vec<(String, Setting)>>) -> Option<
    Seq<(Seq<char>, SettingView)>,
> {
    match r {
        Some(v) => Some(settings_of(v@)),
        None => None,
    }
}

/// Parses `text` with `toml::Table`'s `FromStr` and hands out the top-level
/// keys with their values: a string as `Text`, a boolean as `Flag`, anything
/// else as `Other`. Nothing is claimed of the document beyond its being
/// determined by `text`; a text that the parser refuses gives `None`.
#[verifier::external_body]
fn read_toml(text: &str) -> (r: Option<Vec<(String, Setting)>>)
    ensures
        parsed_settings(r) == toml_settings(text@),
{
    let table = text.parse::<toml::Table>().ok()?;
    Some(table.into_iter().map(|(key, value)| (key, match value {
        toml::Value::String(s) => Setting::Text(s),
        toml::Value::Boolean(b) => Setting::Flag(b),
        toml::Value::Integer(_) => Setting::Other,
        toml::Value::Float(_) => Setting::Other,
        toml::Value::Datetime(_) => Setting::Other,
        toml::Value::Array(_) => Setting::Other,
        toml::Value::Table(_) => Setting::Other,
    })).collect())
}

/// The settings `c` with the key `key` set to `value`: `db_path` and
/// `cache_path` take a string, `color` and `delete_make_deps` a boolean.
/// Any other key, and a value of the wrong kind, is an error.
pub open spec fn with_setting(c: ConfigView, key: Seq<char>, value: SettingView) -> Result<
    ConfigView,
    ConfigErrorView,
> {
    if key == "db_path"@ {
        match value {
            SettingView::Text(t) => Ok(ConfigView { db_path: t, ..c }),
            _ => Err(ConfigErrorView::WrongType(key)),
        }
    } else if key == "cache_path"@ {
        match value {
            SettingView::Text(t) => Ok(ConfigView { cache_path: t, ..c }),
            _ => Err(ConfigErrorView::WrongType(key)),
        }
    } else if key == "color"@ {
        match value {
            SettingView::Flag(b) => Ok(ConfigView { color: b, ..c }),
            _ => Err(ConfigErrorView::WrongType(key)),
        }
    } else if key == "delete_make_deps"@ {
        match value {
            SettingView::Flag(b) => Ok(ConfigView { delete_make_deps: Some(b), ..c }),
            _ => Err(ConfigErrorView::WrongType(key)),
        }
    } else {
        Err(ConfigErrorView::UnknownKey(key))
    }
}

/// The settings `c` with the entries of `s` from index `from` on applied in
/// order; the first entry that cannot be applied gives the error.
pub open spec fn with_settings(c: ConfigView, s: Seq<(Seq<char>, SettingView)>, from: int) -> Result<
    ConfigView,
    ConfigErrorView,
>
    decreases s.len() - from,
{
    if from < 0 || from >= s.len() {
        Ok(c)
    } else {
        match with_setting(c, s[from].0, s[from].1) {
            Ok(next) => with_settings(next, s, from + 1),
            Err(e) => Err(e),
        }
    }
}

/// The settings `c` with the path of the settings file replaced where one
/// is given.
pub open spec fn with_path(c: ConfigView, cfg_path: Option<String>) -> ConfigView {
    match cfg_path {
        Some(p) => ConfigView { config_path: p@, ..c },
        None => c,
    }
}

/// Whether `r` and the settings `after` are what `want` asks for, starting
/// from the settings `before`: on success the new settings, on failure the
/// error and the settings as they were.
pub open spec fn outcome_is(
    r: Result<(), ConfigError>,
    before: ConfigView,
    after: ConfigView,
    want: Result<ConfigView, ConfigErrorView>,
) -> bool {
    match want {
        Ok(c) => r is Ok && after == c,
        Err(e) => r matches Err(got) && got@ == e && after == before,
    }
}

impl Config {
    /// The settings that hold where no file says otherwise.
    pub fn default() -> (r: Config)
        ensures
            r.config_path@ == "/etc/rah.toml"@,
            r.db_path@ == "/var/lib/rah/db/"@,
            r.cache_path@ == "/var/cache/rah/"@,
            r.color,
            r.delete_make_deps is None,
    {
        Config {
            config_path: String::from_str("/etc/rah.toml"),
            db_path: String::from_str("/var/lib/rah/db/"),
            cache_path: String::from_str("/var/cache/rah/"),
            color: true,
            delete_make_deps: None,
        }
    }

    /// A copy of the settings.
    pub fn duplicate(&self) -> (r: Config)
        ensures
            r@ == self@,
    {
        Config {
            config_path: self.config_path.clone(),
            db_path: self.db_path.clone(),
            cache_path: self.cache_path.clone(),
            color: self.color,
            delete_make_deps: self.delete_make_deps,
        }
    }

    /// Sets one key.
    fn set(&mut self, key: &String, value: &Setting) -> (r: Result<(), ConfigError>)
        ensures
            outcome_is(r, old(self)@, final(self)@, with_setting(old(self)@, key@, value@)),
    {
        let db_path: String = String::from_str("db_path");
        let cache_path: String = String::from_str("cache_path");
        let color: String = String::from_str("color");
        let delete_make_deps: String = String::from_str("delete_make_deps");
        if *key == db_path {
            match value {
                Setting::Text(t) => {
                    self.db_path = t.clone();
                    Ok(())
                },
                _ => Err(ConfigError::WrongType(key.clone())),
            }
        } else if *key == cache_path {
            match value {
                Setting::Text(t) => {
                    self.cache_path = t.clone();
                    Ok(())
                },
                _ => Err(ConfigError::WrongType(key.clone())),
            }
        } else if *key == color {
            match value {
                Setting::Flag(b) => {
                    self.color = *b;
                    Ok(())
                },
                _ => Err(ConfigError::WrongType(key.clone())),
            }
        } else if *key == delete_make_deps {
            match value {
                Setting::Flag(b) => {
                    self.delete_make_deps = Some(*b);
                    Ok(())
                },
                _ => Err(ConfigError::WrongType(key.clone())),
            }
        } else {
            Err(ConfigError::UnknownKey(key.clone()))
        }
    }

    /// Applies the keys and values of a settings file, in order. Where one of
    /// them cannot be applied, that is the error, and the settings stay as
    /// they were.
    pub fn apply(&mut self, settings: &Vec<(String, Setting)>) -> (r: Result<(), ConfigError>)
        ensures
            outcome_is(
                r,
                old(self)@,
                final(self)@,
                with_settings(old(self)@, settings_of(settings@), 0),
            ),
    {
        let mut next: Config = self.duplicate();
        let ghost s = settings_of(settings@);
        let mut i: usize = 0;
        while i < settings.len()
            invariant
                0 <= i <= settings@.len(),
                s == settings_of(settings@),
                *self == *old(self),
                with_settings(old(self)@, s, 0) == with_settings(next@, s, i as int),
            decreases settings@.len() - i,
        {
            proof {
                assert(s[i as int] == (settings@[i as int].0@, settings@[i as int].1@));
            }
            match next.set(&settings[i].0, &settings[i].1) {
                Ok(()) => {},
                Err(e) => {
                    return Err(e);
                },
            }
            i = i + 1;
        }
        *self = next;
        Ok(())
    }

    /// Reads the settings file whose content is `text`. A path given in
    /// `cfg_path` becomes the path of the settings file. A text that is not
    /// valid TOML, a key that is no setting and a value of the wrong kind
    /// are errors, and leave the settings as they were.
    pub fn parse(&mut self, cfg_path: Option<String>, text: &str) -> (r: Result<(), ConfigError>)
        ensures
            outcome_is(
                r,
                old(self)@,
                final(self)@,
                match toml_settings(text@) {
                    Some(s) => with_settings(with_path(old(self)@, cfg_path), s, 0),
                    None => Err(ConfigErrorView::Syntax),
                },
            ),
    {
        match read_toml(text) {
            None => Err(ConfigError::Syntax),
            Some(settings) => {
                let mut next: Config = self.duplicate();
                match cfg_path {
                    Some(p) => {
                        next.config_path = p;
                    },
                    None => {},
                }
                match next.apply(&settings) {
                    Ok(()) => {
                        *self = next;
                        Ok(())
                    },
                    Err(e) => Err(e),
                }
            },
        }
    }
}

} // verus!
