//! Configuration values and the resolution of SSHWarden's storage locations.
//!
//! Where a location depends on environment variables, the executable path or a
//! probe file, the library takes those readings as a [`StorageEnv`] value and
//! decides from it; reading them is the caller's job.
use vstd::prelude::*;

use crate::paths::{path_is_absolute, path_join, spec_path_is_absolute, spec_path_join};
use crate::text::{
    ascii_lower, chars_eq_ignore_ascii_case, chars_equal, chars_of, concat, eq_ignore_ascii_case,
    is_ascii_alnum, is_alnum, opt_view, clone_opt, split_char, split_exec, starts_with,
    starts_with_exec, string_of, trim, trim_chars, trim_str,
};
use crate::primitives::{char_to_lowercase, spec_char_to_lowercase};

verus! {

/// Bitwarden server endpoints.
#[derive(Debug, Clone)]
pub struct ServerConfig {
    pub base_url: String,
    pub api_url: Option<String>,
    pub identity_url: Option<String>,
    pub notifications_url: Option<String>,
}

/// Account settings.
#[derive(Debug, Clone)]
pub struct AuthConfig {
    pub method: String,
    pub email: String,
}

/// When to ask the user to authorize a signing request.
#[derive(Debug, Clone, Copy, PartialEq, Eq, Structural)]
pub enum PromptBehavior {
    Always,
    Never,
    RememberUntilLock,
}

/// Agent timings (seconds) and notification reconnect policy.
#[derive(Debug, Clone)]
pub struct AgentConfig {
    pub prompt_behavior: PromptBehavior,
    pub sync_interval: u64,
    pub lock_timeout: u64,
    pub notification_keepalive_interval: u64,
    pub notification_idle_timeout: u64,
    pub notification_reconnect_attempts_before_fallback: usize,
    pub notification_reconnect_max_backoff: u64,
}

/// The preferred unlock method.
#[derive(Debug, Clone, Copy, PartialEq, Eq, Structural)]
pub enum UnlockMethod {
    WindowsHello,
    Pin,
    Password,
}

/// The unlock method used when the preferred one is unavailable.
#[derive(Debug, Clone, Copy, PartialEq, Eq, Structural)]
pub enum FallbackMethod {
    Pin,
    Password,
}

/// Unlock settings.
#[derive(Debug, Clone)]
pub struct UnlockConfig {
    pub method: UnlockMethod,
    pub fallback: FallbackMethod,
    pub auto_unlock_on_request: bool,
}

/// The SSH agent endpoint.
#[derive(Debug, Clone)]
pub struct SocketConfig {
    /// Optional custom SSH agent endpoint path.
    pub path: Option<String>,
}

/// How paths are written into generated OpenSSH config.
#[derive(Debug, Clone, Copy, PartialEq, Eq, Structural)]
pub enum SshConfigPathStyle {
    /// Always absolute paths.
    Absolute,
    /// `~/...` for paths under the user's home directory.
    HomeRelative,
}

/// Settings of the generated OpenSSH include snippet.
#[derive(Debug, Clone)]
pub struct SshConfigConfig {
    pub managed_path: Option<String>,
    pub path_style: SshConfigPathStyle,
}

/// Where user data is kept.
#[derive(Debug, Clone)]
pub struct StorageConfig {
    pub portable: bool,
    pub portable_dir: Option<String>,
    pub multi_device: bool,
    pub device_id: String,
}

/// The whole configuration file.
#[derive(Debug, Clone)]
pub struct Config {
    pub server: ServerConfig,
    pub auth: AuthConfig,
    pub agent: AgentConfig,
    pub unlock: UnlockConfig,
    pub socket: SocketConfig,
    pub ssh_config: SshConfigConfig,
    pub storage: StorageConfig,
}

pub fn default_base_url() -> (s: String)
    ensures
        s@ == "https://vault.bitwarden.com"@,
{
    String::from_str("https://vault.bitwarden.com")
}

pub fn default_auth_method() -> (s: String)
    ensures
        s@ == "password"@,
{
    String::from_str("password")
}

pub fn default_sync_interval() -> (n: u64)
    ensures
        n == 300,
{
    300
}

pub fn default_lock_timeout() -> (n: u64)
    ensures
        n == 3600,
{
    3600
}

pub fn default_notification_keepalive_interval() -> (n: u64)
    ensures
        n == 30,
{
    30
}

pub fn default_notification_idle_timeout() -> (n: u64)
    ensures
        n == 90,
{
    90
}

pub fn default_notification_reconnect_attempts_before_fallback() -> (n: usize)
    ensures
        n == 3,
{
    3
}

pub fn default_notification_reconnect_max_backoff() -> (n: u64)
    ensures
        n == 60,
{
    60
}

pub fn default_true() -> (b: bool)
    ensures
        b,
{
    true
}

pub fn default_device_id() -> (s: String)
    ensures
        s@ == "auto"@,
{
    String::from_str("auto")
}

impl Default for ServerConfig {
    fn default() -> (c: ServerConfig)
        ensures
            c.base_url@ == "https://vault.bitwarden.com"@,
            c.api_url is None,
            c.identity_url is None,
            c.notifications_url is None,
    {
        ServerConfig {
            base_url: default_base_url(),
            api_url: None,
            identity_url: None,
            notifications_url: None,
        }
    }
}

impl Default for AuthConfig {
    fn default() -> (c: AuthConfig)
        ensures
            c.method@ == "password"@,
            c.email@ == Seq::<char>::empty(),
    {
        AuthConfig { method: default_auth_method(), email: String::new() }
    }
}

impl Default for PromptBehavior {
    fn default() -> (p: PromptBehavior)
        ensures
            p == PromptBehavior::Always,
    {
        PromptBehavior::Always
    }
}

impl Default for AgentConfig {
    fn default() -> (c: AgentConfig)
        ensures
            c.prompt_behavior == PromptBehavior::Always,
            c.sync_interval == 300,
            c.lock_timeout == 3600,
            c.notification_keepalive_interval == 30,
            c.notification_idle_timeout == 90,
            c.notification_reconnect_attempts_before_fallback == 3,
            c.notification_reconnect_max_backoff == 60,
    {
        AgentConfig {
            prompt_behavior: PromptBehavior::Always,
            sync_interval: default_sync_interval(),
            lock_timeout: default_lock_timeout(),
            notification_keepalive_interval: default_notification_keepalive_interval(),
            notification_idle_timeout: default_notification_idle_timeout(),
            notification_reconnect_attempts_before_fallback:
                default_notification_reconnect_attempts_before_fallback(),
            notification_reconnect_max_backoff: default_notification_reconnect_max_backoff(),
        }
    }
}

impl Default for UnlockMethod {
    /// The master password; [`UnlockMethod::for_platform`] gives the method a platform
    /// starts with (Windows Hello on Windows).
    fn default() -> (m: UnlockMethod)
        ensures
            m == UnlockMethod::Password,
    {
        UnlockMethod::Password
    }
}

/// The unlock method a platform starts with: Windows Hello on Windows, else the master
/// password.
pub open spec fn platform_unlock_method(platform: Platform) -> UnlockMethod {
    if platform == Platform::Windows {
        UnlockMethod::WindowsHello
    } else {
        UnlockMethod::Password
    }
}

impl UnlockMethod {
    /// The unlock method a platform starts with.
    pub fn for_platform(platform: Platform) -> (m: UnlockMethod)
        ensures
            m == platform_unlock_method(platform),
    {
        if platform == Platform::Windows {
            UnlockMethod::WindowsHello
        } else {
            UnlockMethod::Password
        }
    }
}

impl Default for FallbackMethod {
    fn default() -> (m: FallbackMethod)
        ensures
            m == FallbackMethod::Pin,
    {
        FallbackMethod::Pin
    }
}

impl Default for UnlockConfig {
    fn default() -> (c: UnlockConfig)
        ensures
            c.method == UnlockMethod::Password,
            c.fallback == FallbackMethod::Pin,
            c.auto_unlock_on_request,
    {
        UnlockConfig {
            method: UnlockMethod::Password,
            fallback: FallbackMethod::Pin,
            auto_unlock_on_request: default_true(),
        }
    }
}

impl Default for SocketConfig {
    fn default() -> (c: SocketConfig)
        ensures
            c.path is None,
    {
        SocketConfig { path: None }
    }
}

impl Default for SshConfigPathStyle {
    fn default() -> (s: SshConfigPathStyle)
        ensures
            s == SshConfigPathStyle::Absolute,
    {
        SshConfigPathStyle::Absolute
    }
}

impl Default for SshConfigConfig {
    fn default() -> (c: SshConfigConfig)
        ensures
            c.managed_path is None,
            c.path_style == SshConfigPathStyle::Absolute,
    {
        SshConfigConfig { managed_path: None, path_style: SshConfigPathStyle::Absolute }
    }
}

impl Default for StorageConfig {
    fn default() -> (c: StorageConfig)
        ensures
            !c.portable,
            c.portable_dir is None,
            !c.multi_device,
            c.device_id@ == Seq::<char>::empty(),
    {
        StorageConfig {
            portable: false,
            portable_dir: None,
            multi_device: false,
            device_id: String::new(),
        }
    }
}

impl Default for Config {
    fn default() -> (c: Config)
        ensures
            c.server.base_url@ == "https://vault.bitwarden.com"@,
            c.server.api_url is None,
            c.server.identity_url is None,
            c.server.notifications_url is None,
            c.auth.method@ == "password"@,
            c.auth.email@ == Seq::<char>::empty(),
            c.agent.sync_interval == 300,
            c.agent.lock_timeout == 3600,
            c.unlock.method == UnlockMethod::Password,
            c.socket.path is None,
            c.ssh_config.managed_path is None,
            c.ssh_config.path_style == SshConfigPathStyle::Absolute,
            !c.storage.portable,
            !c.storage.multi_device,
    {
        Config {
            server: ServerConfig::default(),
            auth: AuthConfig::default(),
            agent: AgentConfig::default(),
            unlock: UnlockConfig::default(),
            socket: SocketConfig::default(),
            ssh_config: SshConfigConfig::default(),
            storage: StorageConfig::default(),
        }
    }
}

impl Config {
    /// The default configuration on a platform: [`Config::default`] with the platform's
    /// unlock method.
    pub fn default_for(platform: Platform) -> (c: Config)
        ensures
            c.server.base_url@ == "https://vault.bitwarden.com"@,
            c.server.api_url is None,
            c.server.identity_url is None,
            c.server.notifications_url is None,
            c.auth.method@ == "password"@,
            c.auth.email@ == Seq::<char>::empty(),
            c.agent.sync_interval == 300,
            c.agent.lock_timeout == 3600,
            c.unlock.method == platform_unlock_method(platform),
            c.unlock.fallback == FallbackMethod::Pin,
            c.unlock.auto_unlock_on_request,
            c.socket.path is None,
            c.ssh_config.managed_path is None,
            c.ssh_config.path_style == SshConfigPathStyle::Absolute,
            !c.storage.portable,
            !c.storage.multi_device,
    {
        let mut c = Config {
            server: ServerConfig::default(),
            auth: AuthConfig::default(),
            agent: AgentConfig::default(),
            unlock: UnlockConfig::default(),
            socket: SocketConfig::default(),
            ssh_config: SshConfigConfig::default(),
            storage: StorageConfig::default(),
        };
        c.unlock.method = UnlockMethod::for_platform(platform);
        c
    }
}

/// `str::trim_start_matches` with a non-empty text pattern: every leading copy goes.
pub open spec fn trim_start_matches(s: Seq<char>, p: Seq<char>) -> Seq<char>
    decreases s.len(),
{
    if p.len() > 0 && starts_with(s, p) {
        trim_start_matches(s.skip(p.len() as int), p)
    } else {
        s
    }
}

/// `str::trim_end_matches('/')`.
pub open spec fn trim_end_slashes(s: Seq<char>) -> Seq<char>
    decreases s.len(),
{
    if s.len() > 0 && s.last() == '/' {
        trim_end_slashes(s.drop_last())
    } else {
        s
    }
}

/// The notifications endpoint for a server base URL: the hosted Bitwarden clouds have
/// their own host, other servers serve it under `/notifications`.
pub open spec fn notifications_url_for(base_url: Seq<char>) -> Seq<char> {
    let base = trim_end_slashes(base_url);
    let host = split_char(
        trim_start_matches(trim_start_matches(base, "https://"@), "http://"@),
        '/',
    )[0];
    if host == "vault.bitwarden.com"@ {
        "https://notifications.bitwarden.com"@
    } else if host == "vault.bitwarden.eu"@ {
        "https://notifications.bitwarden.eu"@
    } else {
        base + "/notifications"@
    }
}

fn trim_start_matches_exec(s: &[char], p: &str) -> (r: Vec<char>)
    requires
        p@.len() > 0,
    ensures
        r@ == trim_start_matches(s@, p@),
{
    let pc = chars_of(p);
    let mut i: usize = 0;
    assert(s@.skip(0) =~= s@);
    while i < s.len() && starts_with_exec(vstd::slice::slice_subrange(s, i, s.len()), pc.as_slice())
        invariant
            pc@ == p@,
            pc@.len() > 0,
            i <= s@.len(),
            trim_start_matches(s@, p@) == trim_start_matches(s@.skip(i as int), p@),
        decreases s.len() - i,
    {
        assert(s@.subrange(i as int, s@.len() as int) =~= s@.skip(i as int));
        assert(s@.skip(i as int).skip(pc@.len() as int) =~= s@.skip(i + pc@.len()));
        i = i + pc.len();
    }
    if i < s.len() {
        assert(s@.subrange(i as int, s@.len() as int) =~= s@.skip(i as int));
    } else {
        assert(s@.skip(i as int) =~= Seq::<char>::empty());
        assert(!starts_with(s@.skip(i as int), p@));
    }
    vstd::slice::slice_to_vec(vstd::slice::slice_subrange(s, i, s.len()))
}

pub(crate) fn trim_end_slashes_exec(s: &[char]) -> (r: Vec<char>)
    ensures
        r@ == trim_end_slashes(s@),
{
    let mut j: usize = s.len();
    assert(s@.take(j as int) =~= s@);
    while j > 0 && s[j - 1] == '/'
        invariant
            j <= s@.len(),
            trim_end_slashes(s@) == trim_end_slashes(s@.take(j as int)),
        decreases j,
    {
        assert(s@.take(j as int).drop_last() =~= s@.take(j - 1));
        j -= 1;
    }
    vstd::slice::slice_to_vec(vstd::slice::slice_subrange(s, 0, j))
}

fn equals_lit(a: &[char], lit: &str) -> (b: bool)
    ensures
        b == (a@ == lit@),
{
    let l = chars_of(lit);
    chars_equal(a, l.as_slice())
}

/// The notifications endpoint for a server base URL.
pub fn default_notifications_url(base_url: &str) -> (r: String)
    ensures
        r@ == notifications_url_for(base_url@),
{
    let base = trim_end_slashes_exec(chars_of(base_url).as_slice());
    proof {
        reveal_strlit("https://");
        reveal_strlit("http://");
    }
    let a = trim_start_matches_exec(base.as_slice(), "https://");
    let b = trim_start_matches_exec(a.as_slice(), "http://");
    let parts = split_exec(b.as_slice(), '/');
    let host = &parts[0];
    if equals_lit(host.as_slice(), "vault.bitwarden.com") {
        String::from_str("https://notifications.bitwarden.com")
    } else if equals_lit(host.as_slice(), "vault.bitwarden.eu") {
        String::from_str("https://notifications.bitwarden.eu")
    } else {
        let base_s = string_of(base.as_slice());
        concat(base_s.as_str(), "/notifications")
    }
}

impl ServerConfig {
    /// The API endpoint: the configured one, else `{base_url}/api`.
    pub fn api_url(&self) -> (r: String)
        ensures
            r@ == match self.api_url {
                Some(u) => u@,
                None => self.base_url@ + "/api"@,
            },
    {
        match &self.api_url {
            Some(u) => u.clone(),
            None => concat(self.base_url.as_str(), "/api"),
        }
    }

    /// The identity endpoint: the configured one, else `{base_url}/identity`.
    pub fn identity_url(&self) -> (r: String)
        ensures
            r@ == match self.identity_url {
                Some(u) => u@,
                None => self.base_url@ + "/identity"@,
            },
    {
        match &self.identity_url {
            Some(u) => u.clone(),
            None => concat(self.base_url.as_str(), "/identity"),
        }
    }

    /// The notifications endpoint: the configured one, else the default for the base URL.
    pub fn notifications_url(&self) -> (r: String)
        ensures
            r@ == match self.notifications_url {
                Some(u) => u@,
                None => notifications_url_for(self.base_url@),
            },
    {
        match &self.notifications_url {
            Some(u) => u.clone(),
            None => default_notifications_url(self.base_url.as_str()),
        }
    }
}

/// The operating system whose conventions decide the default locations.
#[derive(Debug, Clone, Copy, PartialEq, Eq, Structural)]
pub enum Platform {
    Windows,
    Linux,
    MacOs,
    Other,
}

/// What the storage resolution reads from the process environment. Path variables
/// hold `None` when unset or empty: an empty variable counts as unset.
#[derive(Debug, Clone)]
pub struct StorageEnv {
    pub platform: Platform,
    /// `SSHWARDEN_HOME`.
    pub sshwarden_home: Option<String>,
    /// The raw value of `SSHWARDEN_PORTABLE`.
    pub sshwarden_portable: Option<String>,
    /// `SSHWARDEN_RUNTIME_DIR`.
    pub sshwarden_runtime_dir: Option<String>,
    /// The raw value of `SSHWARDEN_DEVICE_ID`.
    pub sshwarden_device_id: Option<String>,
    /// The directory of the running executable, when it can be determined.
    pub exe_dir: Option<String>,
    /// The `[storage]` table of `<exe>/config.toml`, when that file exists and parses.
    pub portable_probe: Option<StorageConfig>,
    /// `HOME`, else `USERPROFILE`.
    pub home: Option<String>,
    /// `HOME` alone.
    pub unix_home: Option<String>,
    /// `APPDATA`.
    pub appdata: Option<String>,
    /// `XDG_CONFIG_HOME`.
    pub xdg_config_home: Option<String>,
    /// `XDG_RUNTIME_DIR`.
    pub xdg_runtime_dir: Option<String>,
    /// `USERNAME`, else `USER`.
    pub username: Option<String>,
    /// `COMPUTERNAME`, else `HOSTNAME`, else the output of `hostname`.
    pub hostname: Option<String>,
}

/// Why a location could not be resolved.
#[derive(Debug, Clone, Copy, PartialEq, Eq, Structural)]
pub enum ConfigError {
    /// A configured path is empty or only whitespace.
    EmptyPath,
    /// A configured path uses `~user` or another `~` form than `~` and `~/...`.
    UnsupportedTilde,
    /// Neither `HOME` nor `USERPROFILE` is set.
    NoHome,
    /// `ssh_config.managed_path` is present but empty.
    EmptyManagedPath,
    /// The executable's directory cannot be determined.
    NoExecutableDir,
    /// `APPDATA` is not set (Windows).
    NoAppData,
}

impl ConfigError {
    /// The error's text, as the command line reports it.
    pub fn message(&self) -> (s: &'static str)
        ensures
            s@ == match *self {
                ConfigError::EmptyPath => "configured path is empty"@,
                ConfigError::UnsupportedTilde => "only '~' and '~/...' are supported in configured paths"@,
                ConfigError::NoHome => "HOME or USERPROFILE environment variable not set"@,
                ConfigError::EmptyManagedPath => "ssh_config.managed_path is present but empty"@,
                ConfigError::NoExecutableDir => "Could not determine executable path"@,
                ConfigError::NoAppData => "APPDATA environment variable not set"@,
            },
    {
        match self {
            ConfigError::EmptyPath => "configured path is empty",
            ConfigError::UnsupportedTilde => "only '~' and '~/...' are supported in configured paths",
            ConfigError::NoHome => "HOME or USERPROFILE environment variable not set",
            ConfigError::EmptyManagedPath => "ssh_config.managed_path is present but empty",
            ConfigError::NoExecutableDir => "Could not determine executable path",
            ConfigError::NoAppData => "APPDATA environment variable not set",
        }
    }
}

pub open spec fn string_result(r: Result<String, ConfigError>) -> Result<Seq<char>, ConfigError> {
    match r {
        Ok(s) => Ok(s@),
        Err(e) => Err(e),
    }
}

/// `"~"`.
pub open spec fn tilde() -> Seq<char> {
    seq!['~']
}

/// Expanding `~` and `~/...` (or `~\...`) against a home directory.
pub open spec fn expand_home(path: Seq<char>, home: Seq<char>) -> Result<Seq<char>, ConfigError> {
    let t = trim(path);
    if t.len() == 0 {
        Err(ConfigError::EmptyPath)
    } else if t == tilde() {
        Ok(home)
    } else if starts_with(t, seq!['~', '/']) || starts_with(t, seq!['~', '\\']) {
        Ok(spec_path_join(home, t.skip(2)))
    } else if t[0] == '~' {
        Err(ConfigError::UnsupportedTilde)
    } else {
        Ok(t)
    }
}

/// Expand `~`, `~/...` and `~\...` against `home`; other paths are returned trimmed.
pub fn expand_home_path_with_home(path: &str, home: &str) -> (r: Result<String, ConfigError>)
    ensures
        string_result(r) == expand_home(path@, home@),
{
    let t = trim_str(path);
    if t.len() == 0 {
        return Err(ConfigError::EmptyPath);
    }
    if t.len() == 1 && t[0] == '~' {
        assert(t@ =~= tilde());
        return Ok(String::from_str(home));
    }
    assert(t@ != tilde());
    if t.len() >= 2 && t[0] == '~' && (t[1] == '/' || t[1] == '\\') {
        assert(t@.take(2) =~= seq!['~', t@[1]]);
        let rest = string_of(vstd::slice::slice_subrange(t.as_slice(), 2, t.len()));
        assert(rest@ =~= t@.skip(2));
        return Ok(path_join(home, rest.as_str()));
    }
    assert(!starts_with(t@, seq!['~', '/'])) by {
        if t@.len() >= 2 {
            assert(t@.take(2)[1] == t@[1]);
            assert(t@.take(2)[0] == t@[0]);
        }
    }
    assert(!starts_with(t@, seq!['~', '\\'])) by {
        if t@.len() >= 2 {
            assert(t@.take(2)[1] == t@[1]);
            assert(t@.take(2)[0] == t@[0]);
        }
    }
    if t[0] == '~' {
        return Err(ConfigError::UnsupportedTilde);
    }
    Ok(string_of(t.as_slice()))
}

/// `HOME`, else `USERPROFILE`.
pub fn home_dir_any(env: &StorageEnv) -> (r: Result<String, ConfigError>)
    ensures
        string_result(r) == match env.home {
            Some(h) => Ok::<Seq<char>, ConfigError>(h@),
            None => Err(ConfigError::NoHome),
        },
{
    match &env.home {
        Some(h) => Ok(h.clone()),
        None => Err(ConfigError::NoHome),
    }
}

/// Expand `~` against the user's home directory.
pub fn expand_home_path(path: &str, env: &StorageEnv) -> (r: Result<String, ConfigError>)
    ensures
        string_result(r) == match env.home {
            Some(h) => expand_home(path@, h@),
            None => Err(ConfigError::NoHome),
        },
{
    let home = home_dir_any(env)?;
    expand_home_path_with_home(path, home.as_str())
}

/// `SSHWARDEN_PORTABLE` values that switch portable mode on.
pub open spec fn is_true_flag(v: Seq<char>) -> bool {
    v == "1"@ || v == "true"@ || v == "TRUE"@ || v == "yes"@ || v == "YES"@
}

/// Whether an environment flag is set to a true value.
pub fn env_bool(value: &Option<String>) -> (b: bool)
    ensures
        b == match value {
            Some(v) => is_true_flag(v@),
            None => false,
        },
{
    match value {
        None => false,
        Some(v) => {
            let c = chars_of(v.as_str());
            equals_lit(c.as_slice(), "1") || equals_lit(c.as_slice(), "true") || equals_lit(
                c.as_slice(),
                "TRUE",
            ) || equals_lit(c.as_slice(), "yes") || equals_lit(c.as_slice(), "YES")
        },
    }
}

/// The executable's directory.
pub fn executable_dir(env: &StorageEnv) -> (r: Result<String, ConfigError>)
    ensures
        string_result(r) == match env.exe_dir {
            Some(d) => Ok::<Seq<char>, ConfigError>(d@),
            None => Err(ConfigError::NoExecutableDir),
        },
{
    match &env.exe_dir {
        Some(d) => Ok(d.clone()),
        None => Err(ConfigError::NoExecutableDir),
    }
}

/// The portable data directory named by `<exe>/config.toml`, if it opts in.
pub open spec fn portable_probe_dir(env: StorageEnv) -> Option<Seq<char>> {
    match env.exe_dir {
        None => None,
        Some(exe) => match env.portable_probe {
            None => None,
            Some(st) => if !st.portable {
                None
            } else {
                match st.portable_dir {
                    Some(d) => if trim(d@).len() > 0 {
                        Some(trim(d@))
                    } else {
                        Some(exe@)
                    },
                    None => Some(exe@),
                }
            },
        },
    }
}

/// The directory `<exe>/config.toml` selects with `[storage] portable = true`: its
/// non-empty `portable_dir`, else the executable's directory.
pub fn probe_portable_from_exe(env: &StorageEnv) -> (r: Option<String>)
    ensures
        opt_view(r) == portable_probe_dir(*env),
{
    let exe = match &env.exe_dir {
        None => return None,
        Some(e) => e,
    };
    let st = match &env.portable_probe {
        None => return None,
        Some(st) => st,
    };
    if !st.portable {
        return None;
    }
    match &st.portable_dir {
        Some(d) => {
            let t = trim_str(d.as_str());
            if t.len() > 0 {
                Some(string_of(t.as_slice()))
            } else {
                Some(exe.clone())
            }
        },
        None => Some(exe.clone()),
    }
}

/// The platform-standard configuration directory.
pub open spec fn platform_config_dir_spec(env: StorageEnv) -> Result<Seq<char>, ConfigError> {
    match env.platform {
        Platform::Windows => match env.appdata {
            Some(a) => Ok(spec_path_join(a@, "SSHWarden"@)),
            None => Err(ConfigError::NoAppData),
        },
        Platform::Linux => match env.xdg_config_home {
            Some(x) => Ok(spec_path_join(x@, "sshwarden"@)),
            None => match env.unix_home {
                Some(h) => Ok(spec_path_join(spec_path_join(h@, ".config"@), "sshwarden"@)),
                None => Err(ConfigError::NoHome),
            },
        },
        Platform::MacOs => match env.unix_home {
            Some(h) => Ok(
                spec_path_join(
                    spec_path_join(spec_path_join(h@, "Library"@), "Application Support"@),
                    "SSHWarden"@,
                ),
            ),
            None => Err(ConfigError::NoHome),
        },
        Platform::Other => match env.unix_home {
            Some(h) => Ok(spec_path_join(h@, ".sshwarden"@)),
            None => Err(ConfigError::NoHome),
        },
    }
}

/// The platform-standard configuration directory: `%APPDATA%\SSHWarden` on Windows,
/// `$XDG_CONFIG_HOME/sshwarden` or `~/.config/sshwarden` on Linux,
/// `~/Library/Application Support/SSHWarden` on macOS, `~/.sshwarden` elsewhere.
pub fn platform_config_dir(env: &StorageEnv) -> (r: Result<String, ConfigError>)
    ensures
        string_result(r) == platform_config_dir_spec(*env),
{
    match env.platform {
        Platform::Windows => match &env.appdata {
            Some(a) => Ok(path_join(a.as_str(), "SSHWarden")),
            None => Err(ConfigError::NoAppData),
        },
        Platform::Linux => match &env.xdg_config_home {
            Some(x) => Ok(path_join(x.as_str(), "sshwarden")),
            None => match &env.unix_home {
                Some(h) => {
                    let c = path_join(h.as_str(), ".config");
                    Ok(path_join(c.as_str(), "sshwarden"))
                },
                None => Err(ConfigError::NoHome),
            },
        },
        Platform::MacOs => match &env.unix_home {
            Some(h) => {
                let l = path_join(h.as_str(), "Library");
                let a = path_join(l.as_str(), "Application Support");
                Ok(path_join(a.as_str(), "SSHWarden"))
            },
            None => Err(ConfigError::NoHome),
        },
        Platform::Other => match &env.unix_home {
            Some(h) => Ok(path_join(h.as_str(), ".sshwarden")),
            None => Err(ConfigError::NoHome),
        },
    }
}

/// The shared data directory, by priority: `SSHWARDEN_HOME`; the executable's directory
/// when `SSHWARDEN_PORTABLE` is true; the directory `<exe>/config.toml` opts into; the
/// platform-standard directory.
pub open spec fn shared_dir_spec(env: StorageEnv) -> Result<Seq<char>, ConfigError> {
    match env.sshwarden_home {
        Some(h) => Ok(h@),
        None => if (match env.sshwarden_portable {
            Some(v) => is_true_flag(v@),
            None => false,
        }) {
            match env.exe_dir {
                Some(d) => Ok(d@),
                None => Err(ConfigError::NoExecutableDir),
            }
        } else {
            match portable_probe_dir(env) {
                Some(d) => Ok(d),
                None => platform_config_dir_spec(env),
            }
        },
    }
}

/// Law: `SSHWARDEN_HOME`, when set, is the shared data directory, whatever else the
/// environment holds (`SSHWARDEN_PORTABLE`, a portable `config.toml` beside the
/// executable, the platform directories); two readings of the environment that agree on it
/// give the same directory.
pub proof fn law_sshwarden_home_first(env: StorageEnv, other: StorageEnv)
    requires
        env.sshwarden_home is Some,
        other.sshwarden_home == env.sshwarden_home,
    ensures
        shared_dir_spec(env) == Ok::<Seq<char>, ConfigError>(env.sshwarden_home->0@),
        shared_dir_spec(other) == shared_dir_spec(env),
{
}

/// Resolve the shared data directory (see [`shared_dir_spec`]).
pub fn resolve_shared_data_dir(env: &StorageEnv) -> (r: Result<String, ConfigError>)
    ensures
        string_result(r) == shared_dir_spec(*env),
{
    if let Some(h) = &env.sshwarden_home {
        return Ok(h.clone());
    }
    if env_bool(&env.sshwarden_portable) {
        return executable_dir(env);
    }
    if let Some(d) = probe_portable_from_exe(env) {
        return Ok(d);
    }
    platform_config_dir(env)
}

/// The shared base directory for persistent configuration and data.
pub fn shared_data_dir(env: &StorageEnv) -> (r: Result<String, ConfigError>)
    ensures
        string_result(r) == shared_dir_spec(*env),
{
    resolve_shared_data_dir(env)
}

/// The shared data directory, under its historical name.
pub fn config_dir(env: &StorageEnv) -> (r: Result<String, ConfigError>)
    ensures
        string_result(r) == shared_dir_spec(*env),
{
    shared_data_dir(env)
}

/// `{dir}/{name}` for a resolved directory.
pub open spec fn join_in(dir: Result<Seq<char>, ConfigError>, name: Seq<char>) -> Result<
    Seq<char>,
    ConfigError,
> {
    match dir {
        Ok(d) => Ok(spec_path_join(d, name)),
        Err(e) => Err(e),
    }
}

/// `{dir}/{name}` for a resolved directory.
pub fn join_result(dir: Result<String, ConfigError>, name: &str) -> (r: Result<String, ConfigError>)
    ensures
        string_result(r) == join_in(string_result(dir), name@),
{
    match dir {
        Ok(d) => Ok(path_join(d.as_str(), name)),
        Err(e) => Err(e),
    }
}

/// The configuration file: `config.toml` in the shared data directory.
pub fn config_path(env: &StorageEnv) -> (r: Result<String, ConfigError>)
    ensures
        string_result(r) == join_in(shared_dir_spec(*env), "config.toml"@),
{
    join_result(shared_data_dir(env), "config.toml")
}

/// Lowercase every character (`char::to_lowercase`), keep ASCII letters, digits, `_` and
/// `.`, and turn each run of other characters into one `-`.
pub open spec fn sanitize_raw(cs: Seq<char>) -> Seq<char>
    decreases cs.len(),
{
    if cs.len() == 0 {
        Seq::empty()
    } else {
        let prev = sanitize_raw(cs.drop_last());
        let c = cs.last();
        if is_ascii_alnum(c) || c == '_' || c == '.' {
            prev.push(c)
        } else if prev.len() > 0 && prev.last() == '-' {
            prev
        } else {
            prev.push('-')
        }
    }
}

/// The lowercase characters of `s` (`chars().flat_map(char::to_lowercase)`).
pub open spec fn lowercase_chars(s: Seq<char>) -> Seq<char>
    decreases s.len(),
{
    if s.len() == 0 {
        Seq::empty()
    } else {
        lowercase_chars(s.drop_last()) + spec_char_to_lowercase(s.last())
    }
}

/// `str::trim_matches('-')`.
pub open spec fn trim_dashes(s: Seq<char>) -> Seq<char>
    decreases s.len(),
{
    if s.len() > 0 && s[0] == '-' {
        trim_dashes(s.drop_first())
    } else if s.len() > 0 && s.last() == '-' {
        trim_dashes(s.drop_last())
    } else {
        s
    }
}

/// A device id safe for a directory name: lowercase, `[a-z0-9_.-]`, no leading or
/// trailing `-`, `device` when nothing is left.
pub open spec fn sanitized_device_id(value: Seq<char>) -> Seq<char> {
    let s = trim_dashes(sanitize_raw(lowercase_chars(trim(value))));
    if s.len() == 0 {
        "device"@
    } else {
        s
    }
}

/// No character is an ASCII capital letter.
pub open spec fn no_ascii_upper(s: Seq<char>) -> bool {
    forall|i: int| 0 <= i < s.len() ==> !('A' <= #[trigger] s[i] <= 'Z')
}

/// A character a device id may hold: `[a-z0-9_.-]`.
pub open spec fn is_device_id_char(c: char) -> bool {
    ('a' <= c <= 'z') || ('0' <= c <= '9') || c == '_' || c == '.' || c == '-'
}

/// A device id safe as a directory name: not empty, only `[a-z0-9_.-]`, no `-` at either
/// end and no two `-` in a row.
pub open spec fn is_safe_device_id(s: Seq<char>) -> bool {
    &&& s.len() > 0
    &&& forall|i: int| 0 <= i < s.len() ==> is_device_id_char(#[trigger] s[i])
    &&& s[0] != '-'
    &&& s.last() != '-'
    &&& forall|i: int| 0 <= i < s.len() - 1 ==> !(#[trigger] s[i] == '-' && s[i + 1] == '-')
}

proof fn lemma_sanitize_raw_chars(cs: Seq<char>)
    requires
        no_ascii_upper(cs),
    ensures
        forall|i: int| 0 <= i < sanitize_raw(cs).len() ==> is_device_id_char(#[trigger] sanitize_raw(cs)[i]),
        forall|i: int|
            0 <= i < sanitize_raw(cs).len() - 1 ==> !(#[trigger] sanitize_raw(cs)[i] == '-' && sanitize_raw(cs)[i + 1]
                == '-'),
    decreases cs.len(),
{
    if cs.len() > 0 {
        let init = cs.drop_last();
        assert forall|i: int| 0 <= i < init.len() implies !('A' <= #[trigger] init[i] <= 'Z') by {
            assert(init[i] == cs[i]);
        }
        lemma_sanitize_raw_chars(init);
        let prev = sanitize_raw(init);
        let s = sanitize_raw(cs);
        let c = cs.last();
        assert(c == cs[cs.len() - 1]);
        assert forall|i: int| 0 <= i < s.len() implies is_device_id_char(#[trigger] s[i]) by {
            if i < prev.len() {
                assert(s[i] == prev[i]);
            }
        }
        assert forall|i: int| 0 <= i < s.len() - 1 implies !(#[trigger] s[i] == '-' && s[i + 1] == '-') by {
            if i + 1 < prev.len() {
                assert(s[i] == prev[i] && s[i + 1] == prev[i + 1]);
            } else if s.len() > prev.len() {
                assert(s[i] == prev[i]);
            }
        }
    }
}

/// `trim_dashes` keeps a contiguous piece of its argument.
proof fn lemma_trim_dashes_piece(s: Seq<char>) -> (ab: (int, int))
    ensures
        0 <= ab.0 <= ab.1 <= s.len(),
        trim_dashes(s) == s.subrange(ab.0, ab.1),
        trim_dashes(s).len() > 0 ==> trim_dashes(s)[0] != '-' && trim_dashes(s).last() != '-',
    decreases s.len(),
{
    if s.len() > 0 && s[0] == '-' {
        let (a, b) = lemma_trim_dashes_piece(s.drop_first());
        assert(s.drop_first().subrange(a, b) =~= s.subrange(a + 1, b + 1));
        (a + 1, b + 1)
    } else if s.len() > 0 && s.last() == '-' {
        let (a, b) = lemma_trim_dashes_piece(s.drop_last());
        assert(s.drop_last().subrange(a, b) =~= s.subrange(a, b));
        (a, b)
    } else {
        assert(s.subrange(0, s.len() as int) =~= s);
        (0, s.len() as int)
    }
}

proof fn lemma_sanitized_is_safe(l: Seq<char>)
    requires
        no_ascii_upper(l),
    ensures
        is_safe_device_id(
            if trim_dashes(sanitize_raw(l)).len() == 0 {
                "device"@
            } else {
                trim_dashes(sanitize_raw(l))
            },
        ),
{
    reveal_strlit("device");
    let raw = sanitize_raw(l);
    lemma_sanitize_raw_chars(l);
    let (a, b) = lemma_trim_dashes_piece(raw);
    let t = trim_dashes(raw);
    assert forall|i: int| 0 <= i < t.len() implies is_device_id_char(#[trigger] t[i]) by {
        assert(t[i] == raw[a + i]);
    }
    assert forall|i: int| 0 <= i < t.len() - 1 implies !(#[trigger] t[i] == '-' && t[i + 1] == '-') by {
        assert(t[i] == raw[a + i] && t[i + 1] == raw[a + i + 1]);
    }
    let d = "device"@;
    assert(d =~= seq!['d', 'e', 'v', 'i', 'c', 'e']);
}

pub(crate) fn lowercase_all(s: &[char]) -> (r: Vec<char>)
    ensures
        r@ == lowercase_chars(s@),
        no_ascii_upper(r@),
{
    let mut out: Vec<char> = Vec::new();
    let mut i: usize = 0;
    assert(s@.take(0) =~= Seq::<char>::empty());
    while i < s.len()
        invariant
            i <= s@.len(),
            out@ == lowercase_chars(s@.take(i as int)),
            no_ascii_upper(out@),
        decreases s.len() - i,
    {
        let l = char_to_lowercase(s[i]);
        assert(s@.take(i + 1).drop_last() =~= s@.take(i as int));
        assert(s@.take(i + 1).last() == s@[i as int]);
        let ghost before = out@;
        crate::text::push_all(&mut out, l.as_slice());
        assert(out@ =~= before + l@);
        assert forall|k: int| 0 <= k < out@.len() implies !('A' <= #[trigger] out@[k] <= 'Z') by {
            if k >= before.len() {
                assert(out@[k] == l@[k - before.len()]);
            }
        }
        i += 1;
    }
    assert(s@.take(s@.len() as int) =~= s@);
    out
}

/// Replace each run of characters other than ASCII letters, digits and `keep` by one `-`.
fn collapse_runs(s: &[char]) -> (r: Vec<char>)
    ensures
        r@ == sanitize_raw(s@),
{
    let mut out: Vec<char> = Vec::new();
    let mut last_dash = false;
    let mut i: usize = 0;
    assert(s@.take(0) =~= Seq::<char>::empty());
    while i < s.len()
        invariant
            i <= s@.len(),
            out@ == sanitize_raw(s@.take(i as int)),
            last_dash == (out@.len() > 0 && out@.last() == '-'),
        decreases s.len() - i,
    {
        let c = s[i];
        assert(s@.take(i + 1).drop_last() =~= s@.take(i as int));
        assert(s@.take(i + 1).last() == c);
        if is_alnum(c) || c == '_' || c == '.' {
            out.push(c);
            last_dash = false;
        } else if !last_dash {
            out.push('-');
            last_dash = true;
        }
        i += 1;
    }
    assert(s@.take(s@.len() as int) =~= s@);
    out
}

pub(crate) fn trim_dashes_exec(s: &[char]) -> (r: Vec<char>)
    ensures
        r@ == trim_dashes(s@),
    decreases s.len(),
{
    if s.len() > 0 && s[0] == '-' {
        let t = vstd::slice::slice_subrange(s, 1, s.len());
        assert(t@ =~= s@.drop_first());
        trim_dashes_exec(t)
    } else if s.len() > 0 && s[s.len() - 1] == '-' {
        let t = vstd::slice::slice_subrange(s, 0, s.len() - 1);
        assert(t@ =~= s@.drop_last());
        trim_dashes_exec(t)
    } else {
        vstd::slice::slice_to_vec(s)
    }
}

/// Make a device id safe for use as a directory name.
pub fn sanitize_device_id(value: &str) -> (r: String)
    ensures
        r@ == sanitized_device_id(value@),
        is_safe_device_id(r@),
{
    let t = trim_str(value);
    let l = lowercase_all(t.as_slice());
    proof {
        lemma_sanitized_is_safe(l@);
    }
    let c = collapse_runs(l.as_slice());
    let d = trim_dashes_exec(c.as_slice());
    if d.len() == 0 {
        String::from_str("device")
    } else {
        string_of(d.as_slice())
    }
}

/// The device id derived from host and user names: `{host}-{user}`, sanitized.
pub open spec fn auto_device_id_spec(env: StorageEnv) -> Seq<char> {
    let host = match env.hostname {
        Some(h) => if trim(h@).len() > 0 {
            h@
        } else {
            "device"@
        },
        None => "device"@,
    };
    let user = match env.username {
        Some(u) => u@,
        None => "user"@,
    };
    sanitized_device_id(host + "-"@ + user)
}

/// A stable device id from the host and user names.
pub fn auto_device_id(env: &StorageEnv) -> (r: String)
    ensures
        r@ == auto_device_id_spec(*env),
        is_safe_device_id(r@),
{
    let host = match &env.hostname {
        Some(h) => if trim_str(h.as_str()).len() > 0 {
            h.clone()
        } else {
            String::from_str("device")
        },
        None => String::from_str("device"),
    };
    let user = match &env.username {
        Some(u) => u.clone(),
        None => String::from_str("user"),
    };
    let hu = concat(host.as_str(), "-");
    let full = concat(hu.as_str(), user.as_str());
    sanitize_device_id(full.as_str())
}

/// The device id: `SSHWARDEN_DEVICE_ID` when set and not blank, else the configured
/// `device_id` unless blank or `auto`, else the derived one; always sanitized.
pub open spec fn device_id_spec(env: StorageEnv, config: Config) -> Seq<char> {
    match env.sshwarden_device_id {
        Some(v) if trim(v@).len() > 0 => sanitized_device_id(trim(v@)),
        _ => {
            let c = trim(config.storage.device_id@);
            if c.len() > 0 && !eq_ignore_ascii_case(c, "auto"@) {
                sanitized_device_id(c)
            } else {
                auto_device_id_spec(env)
            }
        },
    }
}

/// The current device's id.
pub fn current_device_id(env: &StorageEnv, config: &Config) -> (r: String)
    ensures
        r@ == device_id_spec(*env, *config),
        is_safe_device_id(r@),
{
    if let Some(v) = &env.sshwarden_device_id {
        let t = trim_str(v.as_str());
        if t.len() > 0 {
            let ts = string_of(t.as_slice());
            return sanitize_device_id(ts.as_str());
        }
    }
    let c = trim_str(config.storage.device_id.as_str());
    let auto = chars_of("auto");
    if c.len() > 0 && !chars_eq_ignore_ascii_case(c.as_slice(), auto.as_slice()) {
        let cs = string_of(c.as_slice());
        return sanitize_device_id(cs.as_str());
    }
    auto_device_id(env)
}

/// Whether multi-device storage is on.
pub fn multi_device_enabled(config: &Config) -> (b: bool)
    ensures
        b == config.storage.multi_device,
{
    config.storage.multi_device
}

/// The current device's private data directory: `{shared}/devices/{device-id}` in
/// multi-device mode, else the shared directory.
pub open spec fn device_dir_spec(env: StorageEnv, config: Config) -> Result<Seq<char>, ConfigError> {
    match shared_dir_spec(env) {
        Err(e) => Err(e),
        Ok(shared) => if config.storage.multi_device {
            Ok(spec_path_join(spec_path_join(shared, "devices"@), device_id_spec(env, config)))
        } else {
            Ok(shared)
        },
    }
}

/// The current device's private data directory.
pub fn device_data_dir(env: &StorageEnv, config: &Config) -> (r: Result<String, ConfigError>)
    ensures
        string_result(r) == device_dir_spec(*env, *config),
{
    let shared = shared_data_dir(env)?;
    if config.storage.multi_device {
        let devices = path_join(shared.as_str(), "devices");
        let id = current_device_id(env, config);
        Ok(path_join(devices.as_str(), id.as_str()))
    } else {
        Ok(shared)
    }
}

/// The runtime directory: `SSHWARDEN_RUNTIME_DIR`, else `$XDG_RUNTIME_DIR/sshwarden` on
/// Linux, else `run` in the device directory.
pub open spec fn runtime_dir_spec(env: StorageEnv, config: Config) -> Result<Seq<char>, ConfigError> {
    match env.sshwarden_runtime_dir {
        Some(d) => Ok(d@),
        None => if env.platform == Platform::Linux && env.xdg_runtime_dir is Some {
            Ok(spec_path_join(env.xdg_runtime_dir->0@, "sshwarden"@))
        } else {
            join_in(device_dir_spec(env, config), "run"@)
        },
    }
}

/// The runtime directory for sockets.
pub fn runtime_dir(env: &StorageEnv, config: &Config) -> (r: Result<String, ConfigError>)
    ensures
        string_result(r) == runtime_dir_spec(*env, *config),
{
    if let Some(d) = &env.sshwarden_runtime_dir {
        return Ok(d.clone());
    }
    if env.platform == Platform::Linux {
        if let Some(x) = &env.xdg_runtime_dir {
            return Ok(path_join(x.as_str(), "sshwarden"));
        }
    }
    join_result(device_data_dir(env, config), "run")
}

/// The default SSH agent endpoint: the OpenSSH named pipe on Windows, else
/// `agent.sock` in the runtime directory.
pub fn default_agent_socket_path(env: &StorageEnv, config: &Config) -> (r: Result<
    String,
    ConfigError,
>)
    ensures
        string_result(r) == if env.platform == Platform::Windows {
            Ok::<Seq<char>, ConfigError>("\\\\.\\pipe\\openssh-ssh-agent"@)
        } else {
            join_in(runtime_dir_spec(*env, *config), "agent.sock"@)
        },
{
    if env.platform == Platform::Windows {
        Ok(String::from_str("\\\\.\\pipe\\openssh-ssh-agent"))
    } else {
        join_result(runtime_dir(env, config), "agent.sock")
    }
}

/// The default control endpoint: the control named pipe on Windows, else
/// `control.sock` in the runtime directory.
pub fn default_control_socket_path(env: &StorageEnv, config: &Config) -> (r: Result<
    String,
    ConfigError,
>)
    ensures
        string_result(r) == if env.platform == Platform::Windows {
            Ok::<Seq<char>, ConfigError>("\\\\.\\pipe\\sshwarden-control"@)
        } else {
            join_in(runtime_dir_spec(*env, *config), "control.sock"@)
        },
{
    if env.platform == Platform::Windows {
        Ok(String::from_str("\\\\.\\pipe\\sshwarden-control"))
    } else {
        join_result(runtime_dir(env, config), "control.sock")
    }
}

/// A configured path with `~` expanded; a relative path is taken under the shared data
/// directory.
pub open spec fn expand_config_spec(path: Seq<char>, env: StorageEnv) -> Result<Seq<char>, ConfigError> {
    match env.home {
        None => Err(ConfigError::NoHome),
        Some(h) => match expand_home(path, h@) {
            Err(e) => Err(e),
            Ok(x) => if spec_path_is_absolute(x) {
                Ok(x)
            } else {
                join_in(shared_dir_spec(env), x)
            },
        },
    }
}

/// Expand a configured path (see [`expand_config_spec`]).
pub fn expand_config_path(path: &str, env: &StorageEnv) -> (r: Result<String, ConfigError>)
    ensures
        string_result(r) == expand_config_spec(path@, *env),
{
    let expanded = expand_home_path(path, env)?;
    if path_is_absolute(expanded.as_str()) {
        Ok(expanded)
    } else {
        match shared_data_dir(env) {
            Ok(d) => Ok(path_join(d.as_str(), expanded.as_str())),
            Err(e) => Err(e),
        }
    }
}

/// The default managed snippet: `sshwarden_config` beside the executable.
pub fn default_managed_ssh_config_path(env: &StorageEnv) -> (r: Result<String, ConfigError>)
    ensures
        string_result(r) == join_in(
            match env.exe_dir {
                Some(d) => Ok::<Seq<char>, ConfigError>(d@),
                None => Err(ConfigError::NoExecutableDir),
            },
            "sshwarden_config"@,
        ),
{
    join_result(executable_dir(env), "sshwarden_config")
}

/// The managed snippet path: the configured one (expanded, never blank), else
/// `sshwarden_config` in the shared directory in multi-device mode, else beside the
/// executable.
pub open spec fn managed_path_spec(config: Config, env: StorageEnv) -> Result<Seq<char>, ConfigError> {
    match config.ssh_config.managed_path {
        Some(p) => if trim(p@).len() == 0 {
            Err(ConfigError::EmptyManagedPath)
        } else {
            expand_config_spec(trim(p@), env)
        },
        None => if config.storage.multi_device {
            join_in(shared_dir_spec(env), "sshwarden_config"@)
        } else {
            join_in(
                match env.exe_dir {
                    Some(d) => Ok::<Seq<char>, ConfigError>(d@),
                    None => Err(ConfigError::NoExecutableDir),
                },
                "sshwarden_config"@,
            )
        },
    }
}

/// Where the managed OpenSSH include snippet is written.
pub fn managed_ssh_config_path(config: &Config, env: &StorageEnv) -> (r: Result<
    String,
    ConfigError,
>)
    ensures
        string_result(r) == managed_path_spec(*config, *env),
{
    match &config.ssh_config.managed_path {
        Some(p) => {
            let t = trim_str(p.as_str());
            if t.len() == 0 {
                return Err(ConfigError::EmptyManagedPath);
            }
            let ts = string_of(t.as_slice());
            expand_config_path(ts.as_str(), env)
        },
        None => if config.storage.multi_device {
            join_result(shared_data_dir(env), "sshwarden_config")
        } else {
            default_managed_ssh_config_path(env)
        },
    }
}

/// `~/.ssh/{name}`.
pub open spec fn in_home_ssh(env: StorageEnv, name: Seq<char>) -> Result<Seq<char>, ConfigError> {
    match env.home {
        Some(h) => Ok(spec_path_join(spec_path_join(h@, ".ssh"@), name)),
        None => Err(ConfigError::NoHome),
    }
}

/// The managed snippet's historical location, `~/.ssh/sshwarden_config`.
pub fn legacy_home_managed_ssh_config_path(env: &StorageEnv) -> (r: Result<String, ConfigError>)
    ensures
        string_result(r) == in_home_ssh(*env, "sshwarden_config"@),
{
    let home = home_dir_any(env)?;
    let ssh = path_join(home.as_str(), ".ssh");
    Ok(path_join(ssh.as_str(), "sshwarden_config"))
}

/// The user's OpenSSH config, `~/.ssh/config`.
pub fn user_ssh_config_path(env: &StorageEnv) -> (r: Result<String, ConfigError>)
    ensures
        string_result(r) == in_home_ssh(*env, "config"@),
{
    let home = home_dir_any(env)?;
    let ssh = path_join(home.as_str(), ".ssh");
    Ok(path_join(ssh.as_str(), "config"))
}

} // verus!
