//! Process configuration: raw settings looked up by name, validated into a
//! `Config` or a `ConfigError`.
use vstd::prelude::*;
use vstd::string::*;
use crate::text::{lower_of, trim_of, unsigned_value, to_lower, trim, parse_u16, parse_u64, same_text, join_text};

verus! {

/// Relies on `dirs::cache_dir`: the user's cache directory, when the
/// environment names one; as a `String` when it is valid UTF-8.
#[verifier::external_body]
fn user_cache_dir() -> (r: Option<String>) {
    match dirs::cache_dir() {
        Some(p) => p.into_os_string().into_string().ok(),
        None => None,
    }
}

/// `base` joined with the relative component `part`, `/` between them.
pub open spec fn path_join(base: Seq<char>, part: Seq<char>) -> Seq<char> {
    if base.len() == 0 {
        part
    } else if base.last() == '/' {
        base + part
    } else {
        base + seq!['/'] + part
    }
}

/// Joins a relative component onto a base path.
pub fn join_path(base: &str, part: &str) -> (r: String)
    ensures
        r@ == path_join(base@, part@),
{
    let n = base.unicode_len();
    if n == 0 {
        String::from_str(part)
    } else if base.get_char(n - 1) == '/' {
        join_text(base, part)
    } else {
        let mut s = String::from_str(base);
        crate::text::push_char(&mut s, '/');
        let r = s.concat(part);
        assert(r@ =~= base@ + seq!['/'] + part@);
        r
    }
}

/// The cache file's place below a cache directory.
pub open spec fn cache_file_in(dir: Seq<char>) -> Seq<char> {
    path_join(path_join(dir, "gitlab-tree"@), "cache.json"@)
}

/// The cache directory to use: the user's, or `.` when there is none.
pub open spec fn cache_base(dir: Option<Seq<char>>) -> Seq<char> {
    match dir {
        Some(d) => d,
        None => "."@,
    }
}

/// The cache file below the user's cache directory `dir`, or below `.`
/// when there is none.
pub fn cache_path_for(dir: Option<String>) -> (r: String)
    ensures
        r@ == cache_file_in(cache_base(opt_view(dir))),
{
    let base = match dir {
        Some(d) => d,
        None => String::from_str("."),
    };
    let app_dir = join_path(base.as_str(), "gitlab-tree");
    join_path(app_dir.as_str(), "cache.json")
}

/// The default cache file: `gitlab-tree/cache.json` below the user's cache
/// directory, or below `.` when there is none.
pub fn default_cache_path() -> (r: String)
    ensures
        exists|dir: Option<Seq<char>>| r@ == cache_file_in(cache_base(dir)),
{
    let dir = user_cache_dir();
    let ghost d = opt_view(dir);
    let r = cache_path_for(dir);
    assert(r@ == cache_file_in(cache_base(d)));
    r
}

/// Optional filters handed to the catalog API.
#[derive(Clone, Debug)]
pub struct ApiFilters {
    pub all_available: Option<bool>,
    pub owned: Option<bool>,
    pub top_level_only: Option<bool>,
    pub include_subgroups: Option<bool>,
    pub visibility: Option<String>,
    pub per_page: u16,
}

impl Default for ApiFilters {
    fn default() -> (r: ApiFilters)
        ensures
            r.all_available is None,
            r.owned is None,
            r.top_level_only is None,
            r.include_subgroups is None,
            r.visibility is None,
            r.per_page == 0,
    {
        ApiFilters {
            all_available: None,
            owned: None,
            top_level_only: None,
            include_subgroups: None,
            visibility: None,
            per_page: 0,
        }
    }
}

/// Validated configuration.
#[derive(Clone, Debug)]
pub struct Config {
    pub gitlab_url: String,
    pub gitlab_token: String,
    pub filters: ApiFilters,
    pub cache_path: String,
    pub cache_ttl_secs: u64,
}

/// The raw value of each setting, as looked up by its name.
#[derive(Clone, Debug)]
pub struct EnvValues {
    pub gitlab_url: Option<String>,
    pub gitlab_token: Option<String>,
    pub all_available: Option<String>,
    pub owned: Option<String>,
    pub top_level_only: Option<String>,
    pub include_subgroups: Option<String>,
    pub visibility: Option<String>,
    pub per_page: Option<String>,
    pub cache_ttl_seconds: Option<String>,
    pub cache_path: Option<String>,
}

/// Which rule a setting broke.
#[derive(Clone, Copy, Debug, PartialEq, Eq, Structural)]
pub enum ConfigErrorKind {
    MissingVariable,
    InvalidBool,
    InvalidInteger,
}

/// A setting that could not be accepted: the rule, the setting's name and
/// its raw value (empty for a missing one).
#[derive(Clone, Debug)]
pub struct ConfigError {
    pub kind: ConfigErrorKind,
    pub key: String,
    pub value: String,
}

/// What a `ConfigError` says.
pub struct ErrorView {
    pub kind: ConfigErrorKind,
    pub key: Seq<char>,
    pub value: Seq<char>,
}

/// What a `Config` holds.
pub struct FiltersView {
    pub all_available: Option<bool>,
    pub owned: Option<bool>,
    pub top_level_only: Option<bool>,
    pub include_subgroups: Option<bool>,
    pub visibility: Option<Seq<char>>,
    pub per_page: u16,
}

/// What a `Config` holds.
pub struct ConfigView {
    pub gitlab_url: Seq<char>,
    pub gitlab_token: Seq<char>,
    pub filters: FiltersView,
    pub cache_path: Seq<char>,
    pub cache_ttl_secs: u64,
}

pub open spec fn opt_view(v: Option<String>) -> Option<Seq<char>> {
    match v {
        Some(s) => Some(s@),
        None => None,
    }
}

impl ConfigError {
    pub open spec fn view(self) -> ErrorView {
        ErrorView { kind: self.kind, key: self.key@, value: self.value@ }
    }

    /// The error as one line of text.
    pub fn message(&self) -> (r: String)
        ensures
            r@ == match self.kind {
                ConfigErrorKind::MissingVariable => "missing required environment variable: "@ + self.key@,
                ConfigErrorKind::InvalidBool => "invalid boolean for "@ + self.key@ + ": "@ + self.value@,
                ConfigErrorKind::InvalidInteger => "invalid integer for "@ + self.key@ + ": "@ + self.value@,
            },
    {
        match self.kind {
            ConfigErrorKind::MissingVariable => join_text(
                "missing required environment variable: ",
                self.key.as_str(),
            ),
            ConfigErrorKind::InvalidBool => {
                let a = join_text("invalid boolean for ", self.key.as_str());
                let b = join_text(a.as_str(), ": ");
                join_text(b.as_str(), self.value.as_str())
            },
            ConfigErrorKind::InvalidInteger => {
                let a = join_text("invalid integer for ", self.key.as_str());
                let b = join_text(a.as_str(), ": ");
                join_text(b.as_str(), self.value.as_str())
            },
        }
    }
}

impl Config {
    pub open spec fn view(self) -> ConfigView {
        ConfigView {
            gitlab_url: self.gitlab_url@,
            gitlab_token: self.gitlab_token@,
            filters: FiltersView {
                all_available: self.filters.all_available,
                owned: self.filters.owned,
                top_level_only: self.filters.top_level_only,
                include_subgroups: self.filters.include_subgroups,
                visibility: opt_view(self.filters.visibility),
                per_page: self.filters.per_page,
            },
            cache_path: self.cache_path@,
            cache_ttl_secs: self.cache_ttl_secs,
        }
    }
}

pub open spec fn outcome_view(r: Result<Config, ConfigError>) -> Result<ConfigView, ErrorView> {
    match r {
        Ok(c) => Ok(c.view()),
        Err(e) => Err(e.view()),
    }
}

/// A raw value counts as set when it holds more than white space.
pub open spec fn present(v: Option<Seq<char>>) -> Option<Seq<char>> {
    match v {
        Some(s) => if trim_of(s).len() > 0 {
            Some(s)
        } else {
            None
        },
        None => None,
    }
}

/// The truth value a word stands for, ignoring case.
pub open spec fn bool_word(s: Seq<char>) -> Option<bool> {
    let l = lower_of(s);
    if l == "1"@ || l == "true"@ || l == "yes"@ || l == "on"@ {
        Some(true)
    } else if l == "0"@ || l == "false"@ || l == "no"@ || l == "off"@ {
        Some(false)
    } else {
        None
    }
}

/// The value of an optional boolean setting, or the error it raises.
pub open spec fn bool_setting(key: Seq<char>, v: Option<Seq<char>>) -> Result<Option<bool>, ErrorView> {
    match present(v) {
        None => Ok(None),
        Some(s) => match bool_word(s) {
            Some(b) => Ok(Some(b)),
            None => Err(ErrorView { kind: ConfigErrorKind::InvalidBool, key, value: s }),
        },
    }
}

/// The value of an optional integer setting whose largest value is `max`,
/// or the error it raises.
pub open spec fn int_setting(key: Seq<char>, v: Option<Seq<char>>, max: nat) -> Result<Option<nat>, ErrorView> {
    match present(v) {
        None => Ok(None),
        Some(s) => match unsigned_value(s) {
            Some(n) => if n <= max {
                Ok(Some(n))
            } else {
                Err(ErrorView { kind: ConfigErrorKind::InvalidInteger, key, value: s })
            },
            None => Err(ErrorView { kind: ConfigErrorKind::InvalidInteger, key, value: s }),
        },
    }
}

/// The outcome of validating the API filter settings: the first failing
/// one, in the order page size, then the four switches; else the filters
/// with a page size of 100 by default.
pub open spec fn filters_outcome(v: EnvValues) -> Result<FiltersView, ErrorView> {
    let per_page = int_setting("GITLAB_PER_PAGE"@, opt_view(v.per_page), u16::MAX as nat);
    let all_available = bool_setting("GITLAB_ALL_AVAILABLE"@, opt_view(v.all_available));
    let owned = bool_setting("GITLAB_OWNED"@, opt_view(v.owned));
    let top_level_only = bool_setting("GITLAB_TOP_LEVEL_ONLY"@, opt_view(v.top_level_only));
    let include_subgroups = bool_setting("GITLAB_INCLUDE_SUBGROUPS"@, opt_view(v.include_subgroups));
    if per_page is Err {
        Err(per_page->Err_0)
    } else if all_available is Err {
        Err(all_available->Err_0)
    } else if owned is Err {
        Err(owned->Err_0)
    } else if top_level_only is Err {
        Err(top_level_only->Err_0)
    } else if include_subgroups is Err {
        Err(include_subgroups->Err_0)
    } else {
        Ok(FiltersView {
            all_available: all_available->Ok_0,
            owned: owned->Ok_0,
            top_level_only: top_level_only->Ok_0,
            include_subgroups: include_subgroups->Ok_0,
            visibility: present(opt_view(v.visibility)),
            per_page: match per_page->Ok_0 {
                Some(n) => n as u16,
                None => 100,
            },
        })
    }
}

pub open spec fn filters_view(f: ApiFilters) -> FiltersView {
    FiltersView {
        all_available: f.all_available,
        owned: f.owned,
        top_level_only: f.top_level_only,
        include_subgroups: f.include_subgroups,
        visibility: opt_view(f.visibility),
        per_page: f.per_page,
    }
}

/// The outcome of validating raw settings: the first failing setting, in the
/// order token, API filters, cache lifetime; else the configuration with its
/// defaults filled in.
pub open spec fn config_outcome(v: EnvValues, default_path: Seq<char>) -> Result<ConfigView, ErrorView> {
    let token = present(opt_view(v.gitlab_token));
    let per_page = int_setting("GITLAB_PER_PAGE"@, opt_view(v.per_page), u16::MAX as nat);
    let all_available = bool_setting("GITLAB_ALL_AVAILABLE"@, opt_view(v.all_available));
    let owned = bool_setting("GITLAB_OWNED"@, opt_view(v.owned));
    let top_level_only = bool_setting("GITLAB_TOP_LEVEL_ONLY"@, opt_view(v.top_level_only));
    let include_subgroups = bool_setting("GITLAB_INCLUDE_SUBGROUPS"@, opt_view(v.include_subgroups));
    let ttl = int_setting("GITLAB_CACHE_TTL_SECONDS"@, opt_view(v.cache_ttl_seconds), u64::MAX as nat);
    if token is None {
        Err(ErrorView { kind: ConfigErrorKind::MissingVariable, key: "GITLAB_TOKEN"@, value: Seq::empty() })
    } else if filters_outcome(v) is Err {
        Err(filters_outcome(v)->Err_0)
    } else if ttl is Err {
        Err(ttl->Err_0)
    } else {
        Ok(ConfigView {
            gitlab_url: match present(opt_view(v.gitlab_url)) {
                Some(u) => u,
                None => "https://gitlab.com"@,
            },
            gitlab_token: token->Some_0,
            filters: filters_outcome(v)->Ok_0,
            cache_path: match present(opt_view(v.cache_path)) {
                Some(p) => p,
                None => default_path,
            },
            cache_ttl_secs: match ttl->Ok_0 {
                Some(n) => n as u64,
                None => 300,
            },
        })
    }
}

/// The raw value when it holds more than white space.
pub fn read_env_optional(value: &Option<String>) -> (r: Option<String>)
    ensures
        opt_view(r) == present(opt_view(*value)),
{
    match value {
        Some(s) => {
            let t = trim(s.as_str());
            if t.unicode_len() > 0 {
                Some(s.clone())
            } else {
                None
            }
        },
        None => None,
    }
}

/// A setting that must be present.
pub fn read_env_required(key: &str, value: &Option<String>) -> (r: Result<String, ConfigError>)
    ensures
        match present(opt_view(*value)) {
            Some(s) => r is Ok && r->Ok_0@ == s,
            None => r is Err && r->Err_0.view() == (ErrorView {
                kind: ConfigErrorKind::MissingVariable,
                key: key@,
                value: Seq::empty(),
            }),
        },
{
    match read_env_optional(value) {
        Some(v) => Ok(v),
        None => Err(ConfigError { kind: ConfigErrorKind::MissingVariable, key: String::from_str(key), value: String::new() }),
    }
}

/// An optional boolean setting: `1`, `true`, `yes`, `on` or `0`, `false`,
/// `no`, `off`, in any case.
pub fn read_env_bool_optional(key: &str, value: &Option<String>) -> (r: Result<Option<bool>, ConfigError>)
    ensures
        match r {
            Ok(b) => bool_setting(key@, opt_view(*value)) == Ok::<Option<bool>, ErrorView>(b),
            Err(e) => bool_setting(key@, opt_view(*value)) == Err::<Option<bool>, ErrorView>(e.view()),
        },
{
    let v = match read_env_optional(value) {
        Some(v) => v,
        None => return Ok(None),
    };
    let normalized = to_lower(v.as_str());
    let n = normalized.as_str();
    if same_text(n, "1") || same_text(n, "true") || same_text(n, "yes") || same_text(n, "on") {
        Ok(Some(true))
    } else if same_text(n, "0") || same_text(n, "false") || same_text(n, "no") || same_text(n, "off") {
        Ok(Some(false))
    } else {
        Err(ConfigError { kind: ConfigErrorKind::InvalidBool, key: String::from_str(key), value: v })
    }
}

/// An optional `u16` setting.
pub fn read_env_u16_optional(key: &str, value: &Option<String>) -> (r: Result<Option<u16>, ConfigError>)
    ensures
        match r {
            Ok(Some(n)) => int_setting(key@, opt_view(*value), u16::MAX as nat) == Ok::<Option<nat>, ErrorView>(Some(n as nat)),
            Ok(None) => int_setting(key@, opt_view(*value), u16::MAX as nat) == Ok::<Option<nat>, ErrorView>(None),
            Err(e) => int_setting(key@, opt_view(*value), u16::MAX as nat) == Err::<Option<nat>, ErrorView>(e.view()),
        },
{
    let v = match read_env_optional(value) {
        Some(v) => v,
        None => return Ok(None),
    };
    match parse_u16(v.as_str()) {
        Some(n) => Ok(Some(n)),
        None => Err(ConfigError { kind: ConfigErrorKind::InvalidInteger, key: String::from_str(key), value: v }),
    }
}

/// An optional `u64` setting.
pub fn read_env_u64_optional(key: &str, value: &Option<String>) -> (r: Result<Option<u64>, ConfigError>)
    ensures
        match r {
            Ok(Some(n)) => int_setting(key@, opt_view(*value), u64::MAX as nat) == Ok::<Option<nat>, ErrorView>(Some(n as nat)),
            Ok(None) => int_setting(key@, opt_view(*value), u64::MAX as nat) == Ok::<Option<nat>, ErrorView>(None),
            Err(e) => int_setting(key@, opt_view(*value), u64::MAX as nat) == Err::<Option<nat>, ErrorView>(e.view()),
        },
{
    let v = match read_env_optional(value) {
        Some(v) => v,
        None => return Ok(None),
    };
    match parse_u64(v.as_str()) {
        Some(n) => Ok(Some(n)),
        None => Err(ConfigError { kind: ConfigErrorKind::InvalidInteger, key: String::from_str(key), value: v }),
    }
}

impl ApiFilters {
    /// Validates the API filter settings among raw settings.
    pub fn from_values(v: &EnvValues) -> (r: Result<ApiFilters, ConfigError>)
        ensures
            match r {
                Ok(f) => filters_outcome(*v) == Ok::<FiltersView, ErrorView>(filters_view(f)),
                Err(e) => filters_outcome(*v) == Err::<FiltersView, ErrorView>(e.view()),
            },
    {
        let per_page = match read_env_u16_optional("GITLAB_PER_PAGE", &v.per_page) {
            Ok(p) => match p {
                Some(n) => n,
                None => 100,
            },
            Err(e) => return Err(e),
        };
        let all_available = match read_env_bool_optional("GITLAB_ALL_AVAILABLE", &v.all_available) {
            Ok(b) => b,
            Err(e) => return Err(e),
        };
        let owned = match read_env_bool_optional("GITLAB_OWNED", &v.owned) {
            Ok(b) => b,
            Err(e) => return Err(e),
        };
        let top_level_only = match read_env_bool_optional("GITLAB_TOP_LEVEL_ONLY", &v.top_level_only) {
            Ok(b) => b,
            Err(e) => return Err(e),
        };
        let include_subgroups = match read_env_bool_optional(
            "GITLAB_INCLUDE_SUBGROUPS",
            &v.include_subgroups,
        ) {
            Ok(b) => b,
            Err(e) => return Err(e),
        };
        let visibility = read_env_optional(&v.visibility);
        Ok(ApiFilters { all_available, owned, top_level_only, include_subgroups, visibility, per_page })
    }

    /// Looks the API filter settings up through `reader` and validates them.
    pub fn from_env_reader<F: Fn(&str) -> Option<String>>(reader: &F) -> (r: Result<ApiFilters, ConfigError>)
        requires
            forall|k: &str| reader.requires((k,)),
        ensures
            exists|v: EnvValues|
                {
                    &&& reader.ensures(("GITLAB_ALL_AVAILABLE",), v.all_available)
                    &&& reader.ensures(("GITLAB_OWNED",), v.owned)
                    &&& reader.ensures(("GITLAB_TOP_LEVEL_ONLY",), v.top_level_only)
                    &&& reader.ensures(("GITLAB_INCLUDE_SUBGROUPS",), v.include_subgroups)
                    &&& reader.ensures(("GITLAB_VISIBILITY",), v.visibility)
                    &&& reader.ensures(("GITLAB_PER_PAGE",), v.per_page)
                    &&& match r {
                        Ok(f) => filters_outcome(v) == Ok::<FiltersView, ErrorView>(filters_view(f)),
                        Err(e) => filters_outcome(v) == Err::<FiltersView, ErrorView>(e.view()),
                    }
                },
    {
        let v = EnvValues {
            gitlab_url: None,
            gitlab_token: None,
            all_available: reader("GITLAB_ALL_AVAILABLE"),
            owned: reader("GITLAB_OWNED"),
            top_level_only: reader("GITLAB_TOP_LEVEL_ONLY"),
            include_subgroups: reader("GITLAB_INCLUDE_SUBGROUPS"),
            visibility: reader("GITLAB_VISIBILITY"),
            per_page: reader("GITLAB_PER_PAGE"),
            cache_ttl_seconds: None,
            cache_path: None,
        };
        ApiFilters::from_values(&v)
    }
}

impl Config {
    /// Validates raw settings; `default_path` is the cache file used when no
    /// cache path is set.
    pub fn from_values(v: &EnvValues, default_path: String) -> (r: Result<Config, ConfigError>)
        ensures
            outcome_view(r) == config_outcome(*v, default_path@),
    {
        let gitlab_url = match read_env_optional(&v.gitlab_url) {
            Some(u) => u,
            None => String::from_str("https://gitlab.com"),
        };
        let gitlab_token = match read_env_required("GITLAB_TOKEN", &v.gitlab_token) {
            Ok(t) => t,
            Err(e) => return Err(e),
        };
        let filters = match ApiFilters::from_values(v) {
            Ok(f) => f,
            Err(e) => return Err(e),
        };
        let cache_ttl_secs = match read_env_u64_optional("GITLAB_CACHE_TTL_SECONDS", &v.cache_ttl_seconds) {
            Ok(t) => match t {
                Some(n) => n,
                None => 300,
            },
            Err(e) => return Err(e),
        };
        let cache_path = match read_env_optional(&v.cache_path) {
            Some(p) => p,
            None => default_path,
        };
        Ok(Config {
            gitlab_url,
            gitlab_token,
            filters,
            cache_path,
            cache_ttl_secs,
        })
    }

    /// Looks each setting up through `reader` and validates the values.
    pub fn from_env_reader<F: Fn(&str) -> Option<String>>(reader: F) -> (r: Result<Config, ConfigError>)
        requires
            forall|k: &str| reader.requires((k,)),
        ensures
            exists|v: EnvValues, d: Seq<char>|
                {
                    &&& reader.ensures(("GITLAB_URL",), v.gitlab_url)
                    &&& reader.ensures(("GITLAB_TOKEN",), v.gitlab_token)
                    &&& reader.ensures(("GITLAB_ALL_AVAILABLE",), v.all_available)
                    &&& reader.ensures(("GITLAB_OWNED",), v.owned)
                    &&& reader.ensures(("GITLAB_TOP_LEVEL_ONLY",), v.top_level_only)
                    &&& reader.ensures(("GITLAB_INCLUDE_SUBGROUPS",), v.include_subgroups)
                    &&& reader.ensures(("GITLAB_VISIBILITY",), v.visibility)
                    &&& reader.ensures(("GITLAB_PER_PAGE",), v.per_page)
                    &&& reader.ensures(("GITLAB_CACHE_TTL_SECONDS",), v.cache_ttl_seconds)
                    &&& reader.ensures(("GITLAB_CACHE_PATH",), v.cache_path)
                    &&& exists|dir: Option<Seq<char>>| d == cache_file_in(cache_base(dir))
                    &&& outcome_view(r) == config_outcome(v, d)
                },
    {
        let v = EnvValues {
            gitlab_url: reader("GITLAB_URL"),
            gitlab_token: reader("GITLAB_TOKEN"),
            all_available: reader("GITLAB_ALL_AVAILABLE"),
            owned: reader("GITLAB_OWNED"),
            top_level_only: reader("GITLAB_TOP_LEVEL_ONLY"),
            include_subgroups: reader("GITLAB_INCLUDE_SUBGROUPS"),
            visibility: reader("GITLAB_VISIBILITY"),
            per_page: reader("GITLAB_PER_PAGE"),
            cache_ttl_seconds: reader("GITLAB_CACHE_TTL_SECONDS"),
            cache_path: reader("GITLAB_CACHE_PATH"),
        };
        let d = default_cache_path();
        let ghost dv = d@;
        let r = Config::from_values(&v, d);
        assert(outcome_view(r) == config_outcome(v, dv));
        r
    }
}

} // verus!
