use vstd::prelude::*;
use vstd::string::StringExecFns;

verus! {

/// Settings of the backend, read from the environment.
#[derive(Clone)]
pub struct Config {
    pub etoro_base_url: String,
    pub etoro_api_key: String,
    pub etoro_user_key: String,
    pub bind_addr: String,
    pub cors_origin: Option<String>,
}

/// Why the settings could not be read.
#[derive(Debug)]
pub enum ConfigError {
    /// A required environment variable is absent (or not valid Unicode).
    MissingVar(&'static str),
}

/// The address the server listens on when `BIND_ADDR` is absent.
pub open spec fn default_bind_addr() -> Seq<char> {
    "127.0.0.1:8000"@
}

/// The text a redacted secret is shown as.
pub open spec fn redacted_secret() -> Seq<char> {
    "[REDACTED]"@
}

/// The outcome of reading the settings from the values of `ETORO_BASE_URL`,
/// `ETORO_API_KEY`, `ETORO_USER_KEY`, `BIND_ADDR` and `CORS_ORIGIN`: the
/// first absent required variable is reported, `BIND_ADDR` defaults to
/// `127.0.0.1:8000`, and `CORS_ORIGIN` is optional.
pub open spec fn config_outcome(
    r: Result<Config, ConfigError>,
    etoro_base_url: Option<String>,
    etoro_api_key: Option<String>,
    etoro_user_key: Option<String>,
    bind_addr: Option<String>,
    cors_origin: Option<String>,
) -> bool {
    if etoro_base_url is None {
        r matches Err(ConfigError::MissingVar(name)) && name@ == "ETORO_BASE_URL"@
    } else if etoro_api_key is None {
        r matches Err(ConfigError::MissingVar(name)) && name@ == "ETORO_API_KEY"@
    } else if etoro_user_key is None {
        r matches Err(ConfigError::MissingVar(name)) && name@ == "ETORO_USER_KEY"@
    } else {
        r matches Ok(c) && {
            &&& c.etoro_base_url == etoro_base_url->0
            &&& c.etoro_api_key == etoro_api_key->0
            &&& c.etoro_user_key == etoro_user_key->0
            &&& c.bind_addr@ == (match bind_addr {
                Some(b) => b@,
                None => default_bind_addr(),
            })
            &&& c.cors_origin == cors_origin
        }
    }
}

impl ConfigError {
    /// The error's message: `Missing environment variable: <name>`.
    pub fn message(&self) -> (m: String)
        ensures
            match self {
                ConfigError::MissingVar(name) => m@ == "Missing environment variable: "@ + name@,
            },
    {
        match self {
            ConfigError::MissingVar(name) => {
                let mut m = String::from_str("Missing environment variable: ");
                m.append(name);
                m
            },
        }
    }
}

impl Config {
    /// Builds the settings from the values of the environment variables
    /// (`None` for an absent one).
    pub fn from_env_values(
        etoro_base_url: Option<String>,
        etoro_api_key: Option<String>,
        etoro_user_key: Option<String>,
        bind_addr: Option<String>,
        cors_origin: Option<String>,
    ) -> (r: Result<Config, ConfigError>)
        ensures
            config_outcome(r, etoro_base_url, etoro_api_key, etoro_user_key, bind_addr, cors_origin),
    {
        let etoro_base_url = match etoro_base_url {
            Some(v) => v,
            None => return Err(ConfigError::MissingVar("ETORO_BASE_URL")),
        };
        let etoro_api_key = match etoro_api_key {
            Some(v) => v,
            None => return Err(ConfigError::MissingVar("ETORO_API_KEY")),
        };
        let etoro_user_key = match etoro_user_key {
            Some(v) => v,
            None => return Err(ConfigError::MissingVar("ETORO_USER_KEY")),
        };
        let bind_addr = match bind_addr {
            Some(v) => v,
            None => String::from_str("127.0.0.1:8000"),
        };
        Ok(Config { etoro_base_url, etoro_api_key, etoro_user_key, bind_addr, cors_origin })
    }

    /// The settings as they are shown in logs: both keys replaced by
    /// `[REDACTED]`, the other fields as they are.
    pub fn redacted(&self) -> (c: Config)
        ensures
            c.etoro_base_url@ == self.etoro_base_url@,
            c.etoro_api_key@ == redacted_secret(),
            c.etoro_user_key@ == redacted_secret(),
            c.bind_addr@ == self.bind_addr@,
            c.cors_origin is Some <==> self.cors_origin is Some,
            c.cors_origin matches Some(o) ==> o@ == self.cors_origin->0@,
    {
        let cors_origin = match &self.cors_origin {
            Some(o) => Some(o.clone()),
            None => None,
        };
        Config {
            etoro_base_url: self.etoro_base_url.clone(),
            etoro_api_key: String::from_str("[REDACTED]"),
            etoro_user_key: String::from_str("[REDACTED]"),
            bind_addr: self.bind_addr.clone(),
            cors_origin,
        }
    }
}

} // verus!
