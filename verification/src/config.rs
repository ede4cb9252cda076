//! The application configuration: login credentials of the web UI, read
//! from `config.toml` or created with a generated password.
use vstd::prelude::*;
use crate::text::{append, chars_of, string_of, trim, trim_exec};

verus! {

/// Credentials of the web UI.
#[derive(Debug, Clone)]
pub struct AuthSettings {
    pub username: String,
    pub password: String,
}

/// The contents of `config.toml`.
#[derive(Debug, Clone)]
pub struct AppConfig {
    pub auth: AuthSettings,
}

/// A configuration with where it was found and whether it was just created.
#[derive(Debug, Clone)]
pub struct LoadedConfig {
    pub config: AppConfig,
    pub path: String,
    pub created: bool,
}

/// What validation makes of a configuration: the user name trimmed, or the
/// message of the first field that is empty.
pub open spec fn validate_spec(username: Seq<char>, password: Seq<char>) -> Result<(Seq<char>, Seq<char>), Seq<char>> {
    if trim(username).len() == 0 {
        Err("auth.username must not be empty"@)
    } else if password.len() == 0 {
        Err("auth.password must not be empty"@)
    } else {
        Ok((trim(username), password))
    }
}

/// `r` is what validating `(username, password)` gives.
pub open spec fn validated_as(r: Result<AppConfig, String>, username: Seq<char>, password: Seq<char>) -> bool {
    match validate_spec(username, password) {
        Ok((u, p)) => r matches Ok(c) && c.auth.username@ == u && c.auth.password@ == p,
        Err(m) => r matches Err(e) && e@ == m,
    }
}

impl AppConfig {
    /// The configuration created when none exists: user `admin` with the
    /// given password.
    pub fn default_with_password(password: String) -> (c: AppConfig)
        ensures
            c.auth.username@ == "admin"@,
            c.auth.password == password,
    {
        AppConfig { auth: AuthSettings { username: "admin".to_string(), password } }
    }

    /// Trim the user name and refuse an empty user name or password.
    pub fn validate(self) -> (r: Result<AppConfig, String>)
        ensures
            validated_as(r, self.auth.username@, self.auth.password@),
    {
        let ghost old_name = self.auth.username@;
        let mut config = self;
        let name = chars_of(config.auth.username.as_str());
        let trimmed = trim_exec(&name);
        config.auth.username = string_of(&trimmed);
        if trimmed.len() == 0 {
            return Err("auth.username must not be empty".to_string());
        }
        if chars_of(config.auth.password.as_str()).len() == 0 {
            return Err("auth.password must not be empty".to_string());
        }
        Ok(config)
    }
}

/// What was found where `config.toml` should be.
pub enum ConfigSource {
    /// There is no file.
    Missing,
    /// The file could not be read; the reason.
    ReadFailed(String),
    /// The file could not be parsed; the reason.
    ParseFailed(String),
    /// The file was read and parsed.
    Parsed(AppConfig),
}

/// The configuration that loading gives, for each source: a parsed file is
/// validated; a missing file gives the default configuration with the
/// generated password, marked as created (the caller then writes it).
pub open spec fn loaded_as(
    r: Result<LoadedConfig, String>,
    source: ConfigSource,
    path: Seq<char>,
    generated_password: Seq<char>,
) -> bool {
    match source {
        ConfigSource::Missing => match validate_spec("admin"@, generated_password) {
            Ok((u, p)) => r matches Ok(l) && l.created && l.path@ == path && l.config.auth.username@ == u
                && l.config.auth.password@ == p,
            Err(m) => r matches Err(e) && e@ == m,
        },
        ConfigSource::ReadFailed(d) => r matches Err(e) && e@ == "Failed to read config.toml: "@ + d@,
        ConfigSource::ParseFailed(d) => r matches Err(e) && e@ == "Failed to parse config.toml: "@ + d@,
        ConfigSource::Parsed(c) => match validate_spec(c.auth.username@, c.auth.password@) {
            Ok((u, p)) => r matches Ok(l) && !l.created && l.path@ == path && l.config.auth.username@ == u
                && l.config.auth.password@ == p,
            Err(m) => r matches Err(e) && e@ == m,
        },
    }
}

fn message_with(prefix: &str, detail: &str) -> (r: String)
    ensures
        r@ == prefix@ + detail@,
{
    let mut m = prefix.to_string();
    append(&mut m, detail);
    m
}

/// Load the configuration from what was found at `path`, or create the
/// default one with `generated_password` when there was no file.
pub fn load_or_create_config(source: ConfigSource, path: String, generated_password: String) -> (r: Result<
    LoadedConfig,
    String,
>)
    ensures
        loaded_as(r, source, path@, generated_password@),
{
    let ghost src = source;
    match source {
        ConfigSource::Missing => {
            let config = AppConfig::default_with_password(generated_password);
            proof {
                reveal_strlit("admin");
                assert(trim("admin"@) =~= "admin"@) by {
                    crate::text::lemma_trim_no_ws("admin"@);
                }
            }
            match config.validate() {
                Ok(c) => Ok(LoadedConfig { config: c, path, created: true }),
                Err(e) => Err(e),
            }
        },
        ConfigSource::ReadFailed(d) => Err(message_with("Failed to read config.toml: ", d.as_str())),
        ConfigSource::ParseFailed(d) => Err(message_with("Failed to parse config.toml: ", d.as_str())),
        ConfigSource::Parsed(c) => match c.validate() {
            Ok(c) => Ok(LoadedConfig { config: c, path, created: false }),
            Err(e) => Err(e),
        },
    }
}

/// Creating then reloading the configuration: with no file, loading
/// creates user `admin` with the generated password (when it is not
/// empty); and a configuration that loading gave, once written and read
/// back, loads again without being created anew, with the same user and
/// password, whatever password is generated then.
pub proof fn lemma_config_reload(
    r1: Result<LoadedConfig, String>,
    source: ConfigSource,
    path: Seq<char>,
    password: Seq<char>,
    saved: AppConfig,
    r2: Result<LoadedConfig, String>,
    path2: Seq<char>,
    password2: Seq<char>,
)
    requires
        loaded_as(r1, source, path, password),
        r1 matches Ok(l) ==> saved.auth.username@ == l.config.auth.username@ && saved.auth.password@
            == l.config.auth.password@,
        loaded_as(r2, ConfigSource::Parsed(saved), path2, password2),
    ensures
        source is Missing && password.len() > 0 ==> (r1 matches Ok(l) && l.created && l.config.auth.username@
            == "admin"@ && l.config.auth.password@ == password),
        r1 is Ok ==> (r2 matches Ok(l2) && !l2.created && l2.config.auth.username@ == saved.auth.username@
            && l2.config.auth.password@ == saved.auth.password@),
{
    reveal_strlit("admin");
    assert(trim("admin"@) =~= "admin"@) by {
        crate::text::lemma_trim_no_ws("admin"@);
    }
    match source {
        ConfigSource::Missing => {
            crate::text::lemma_trim_idempotent("admin"@);
        },
        ConfigSource::Parsed(c) => {
            crate::text::lemma_trim_idempotent(c.auth.username@);
        },
        _ => {},
    }
}

/// Why writing `config.toml` failed.
pub enum ConfigSaveFailure {
    CreateDir(String),
    Serialize(String),
    Write(String),
}

pub open spec fn config_save_message_spec(f: ConfigSaveFailure) -> Seq<char> {
    match f {
        ConfigSaveFailure::CreateDir(d) => "Failed to create config directory: "@ + d@,
        ConfigSaveFailure::Serialize(d) => "Failed to serialize config.toml: "@ + d@,
        ConfigSaveFailure::Write(d) => "Failed to write config.toml: "@ + d@,
    }
}

/// The message of a failure to write `config.toml`.
pub fn config_save_failure_message(f: &ConfigSaveFailure) -> (r: String)
    ensures
        r@ == config_save_message_spec(*f),
{
    match f {
        ConfigSaveFailure::CreateDir(d) => message_with("Failed to create config directory: ", d.as_str()),
        ConfigSaveFailure::Serialize(d) => message_with("Failed to serialize config.toml: ", d.as_str()),
        ConfigSaveFailure::Write(d) => message_with("Failed to write config.toml: ", d.as_str()),
    }
}

} // verus!
