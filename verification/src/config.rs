//! The server's settings, read from the values of its environment
//! variables.
use vstd::prelude::*;
use crate::numbers::{
    digits_of, digits_spec, lemma_parse_decimal_digits, parse_unsigned, parse_unsigned_spec,
};
use crate::text::{chars_of, extend_chars, string_from_chars};

verus! {

/// The settings of the server.
#[derive(Debug, Clone, PartialEq)]
pub struct Config {
    pub port: u16,
    pub kagi_base_url: String,
    pub kagi_session_token: Option<String>,
    pub kagi_auth_header: Option<String>,
    pub log_level: String,
}

/// A setting that cannot be used.
#[derive(Debug, Clone, Copy, PartialEq, Eq)]
pub enum ConfigError {
    /// `PORT` is not a number from 0 to 65535.
    InvalidPort,
}

/// The text of `v`, or `default` when it is missing.
pub open spec fn or_default(v: Option<String>, default: Seq<char>) -> Seq<char> {
    match v {
        Some(s) => s@,
        None => default,
    }
}

fn string_or(v: Option<String>, default: &str) -> (s: String)
    ensures
        s@ == or_default(v, default@),
{
    match v {
        Some(s) => s,
        None => default.to_owned(),
    }
}

impl Config {
    /// The settings made of the values of `PORT`, `KAGI_BASE_URL`,
    /// `KAGI_SESSION_TOKEN`, `KAGI_AUTH_HEADER` and `RUST_LOG` (each `None`
    /// when unset): the port defaults to 3000, the base URL to
    /// `https://kagi.com`, the name of the header that carries the token to
    /// `Authorization` and the log level to `info`; a port that does not
    /// parse as a `u16` is refused.
    pub fn from_vars(
        port: Option<String>,
        base_url: Option<String>,
        session_token: Option<String>,
        auth_header: Option<String>,
        log_level: Option<String>,
    ) -> (r: std::result::Result<Config, ConfigError>)
        ensures
            parse_unsigned_spec(or_default(port, "3000"@), u16::MAX as nat) is None <==> r
                == Err::<Config, ConfigError>(ConfigError::InvalidPort),
            r matches Ok(c) ==> {
                &&& parse_unsigned_spec(or_default(port, "3000"@), u16::MAX as nat) == Some(
                    c.port as nat,
                )
                &&& c.kagi_base_url@ == or_default(base_url, "https://kagi.com"@)
                &&& c.kagi_session_token == session_token
                &&& c.kagi_auth_header.deep_view() == Some(or_default(auth_header, "Authorization"@))
                &&& c.log_level@ == or_default(log_level, "info"@)
            },
    {
        let port_text = string_or(port, "3000");
        let chars = chars_of(port_text.as_str());
        let port = match parse_unsigned(&chars, 65535) {
            Some(p) => p as u16,
            None => {
                return Err(ConfigError::InvalidPort);
            },
        };
        Ok(Config {
            port,
            kagi_base_url: string_or(base_url, "https://kagi.com"),
            kagi_session_token: session_token,
            kagi_auth_header: Some(string_or(auth_header, "Authorization")),
            log_level: string_or(log_level, "info"),
        })
    }

    /// The address the server listens on: every interface, at the port.
    pub fn bind_address(&self) -> (a: String)
        ensures
            a@ == "0.0.0.0:"@ + digits_spec(self.port as nat, 10),
    {
        let mut v = chars_of("0.0.0.0:");
        let d = digits_of(self.port as u64, 10);
        extend_chars(&mut v, &d);
        string_from_chars(&v)
    }
}

/// The port the server listens on, as `bind_address` writes it, reads back
/// as that port: the address names the configured port.
pub proof fn lemma_bind_address_names_port(port: u16)
    ensures
        parse_unsigned_spec(digits_spec(port as nat, 10), u16::MAX as nat) == Some(port as nat),
{
    lemma_parse_decimal_digits(port as nat, u16::MAX as nat);
}

} // verus!
