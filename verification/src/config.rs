//! Application configuration, built from raw parameter values the boundary
//! layer reads from the process environment. Parsing and defaulting are the
//! logic here; reading the environment is not.

use vstd::prelude::*;

use crate::errors::AppError;

verus! {

/// Is `c` a decimal digit?
pub open spec fn is_dec_digit(c: char) -> bool {
    '0' <= c && c <= '9'
}

/// The numeric value of a decimal digit.
pub open spec fn digit_val(c: char) -> int {
    (c as u32) - ('0' as u32)
}

/// Every character of `s` is a decimal digit.
pub open spec fn all_dec_digits(s: Seq<char>) -> bool {
    forall|i: int| 0 <= i < s.len() ==> is_dec_digit(#[trigger] s[i])
}

/// The numeric value of a digit string, most significant digit first.
pub open spec fn dec_value(s: Seq<char>) -> int
    decreases s.len(),
{
    if s.len() == 0 {
        0
    } else {
        dec_value(s.drop_last()) * 10 + digit_val(s.last())
    }
}

/// The digit part of a number literal: everything after one optional
/// leading plus sign.
pub open spec fn u16_digits(s: Seq<char>) -> Seq<char> {
    if s.len() > 0 && s[0] == '+' {
        s.subrange(1, s.len() as int)
    } else {
        s
    }
}

/// What `str::parse::<u16>` accepts: an optional leading plus sign, then at
/// least one decimal digit, with a value that fits a `u16`.
pub open spec fn parse_u16_spec(s: Seq<char>) -> Option<u16> {
    let d = u16_digits(s);
    if d.len() > 0 && all_dec_digits(d) && dec_value(d) <= u16::MAX {
        Some(dec_value(d) as u16)
    } else {
        None
    }
}

/// A digit string's value is never negative.
proof fn lemma_dec_value_nonneg(s: Seq<char>)
    requires
        all_dec_digits(s),
    ensures
        dec_value(s) >= 0,
    decreases s.len(),
{
    if s.len() > 0 {
        assert(forall|i: int| 0 <= i < s.len() - 1 ==> #[trigger] s.drop_last()[i] == s[i]);
        lemma_dec_value_nonneg(s.drop_last());
    }
}

/// Reading more digits never shrinks the value.
proof fn lemma_dec_value_prefix(s: Seq<char>, m: int)
    requires
        all_dec_digits(s),
        0 <= m <= s.len(),
    ensures
        dec_value(s.take(m)) <= dec_value(s),
    decreases s.len() - m,
{
    if m < s.len() {
        assert(s.take(m + 1).drop_last() =~= s.take(m));
        assert(s.take(m + 1).last() == s[m]);
        assert(forall|i: int| 0 <= i < m ==> #[trigger] s.take(m)[i] == s[i]);
        lemma_dec_value_nonneg(s.take(m));
        lemma_dec_value_prefix(s, m + 1);
    } else {
        assert(s.take(m) =~= s);
    }
}

/// Parses a decimal `u16` the way `str::parse::<u16>` does: one optional
/// leading `+`, then at least one digit, and a value of at most `u16::MAX`.
pub fn parse_u16(s: &str) -> (r: Option<u16>)
    ensures
        r == parse_u16_spec(s@),
{
    let n = s.unicode_len();
    let start: usize = if n > 0 && s.get_char(0) == '+' {
        1
    } else {
        0
    };
    let ghost d = u16_digits(s@);
    proof {
        assert(d =~= s@.subrange(start as int, n as int));
    }
    if n == start {
        return None;
    }
    let mut i: usize = start;
    let mut acc: u32 = 0;
    while i < n
        invariant
            start <= i <= n,
            n == s@.len(),
            n > start,
            d == s@.subrange(start as int, n as int),
            d == u16_digits(s@),
            all_dec_digits(d.take(i - start)),
            acc == dec_value(d.take(i - start)),
            acc <= 65535,
        decreases n - i,
    {
        let c = s.get_char(i);
        proof {
            assert(d[i - start] == s@[i as int]);
        }
        if !('0' <= c && c <= '9') {
            assert(!all_dec_digits(d));
            return None;
        }
        let digit: u32 = (c as u32) - ('0' as u32);
        let next: u32 = acc * 10 + digit;
        proof {
            assert(d.take(i + 1 - start).drop_last() =~= d.take(i - start));
            assert(d.take(i + 1 - start).last() == d[i - start]);
        }
        if next > 65535 {
            proof {
                if all_dec_digits(d) {
                    lemma_dec_value_prefix(d, i + 1 - start);
                }
            }
            return None;
        }
        acc = next;
        i += 1;
    }
    proof {
        assert(d.take(n - start) =~= d);
    }
    Some(acc as u16)
}

/// Server address parameters.
#[derive(Debug)]
pub struct ServerConfig {
    /// Host the server binds to.
    pub host: String,
    /// Port the server binds to.
    pub port: u16,
}

impl Clone for ServerConfig {
    fn clone(&self) -> (r: Self)
        ensures
            r.host@ == self.host@,
            r.port == self.port,
    {
        ServerConfig { host: self.host.clone(), port: self.port }
    }
}

impl Default for ServerConfig {
    /// The loopback address on port 8080.
    fn default() -> (r: Self)
        ensures
            r.host@ == "127.0.0.1"@,
            r.port == 8080,
    {
        ServerConfig { host: "127.0.0.1".to_owned(), port: 8080 }
    }
}

impl ServerConfig {
    /// Builds the server parameters from the raw `SERVER_HOST` and
    /// `SERVER_PORT` values; both must be present and the port must parse.
    pub fn load(host: Option<String>, port: Option<String>) -> (r: Result<ServerConfig, AppError>)
        ensures
            host is None ==> (r matches Err(e) && e matches AppError::Configuration(n, _) && n@
                == "SERVER_HOST"@),
            host is Some && port is None ==> (r matches Err(e) && e matches AppError::Configuration(
                n,
                _,
            ) && n@ == "SERVER_PORT"@),
            host is Some && port is Some && parse_u16_spec((port->0)@) is None ==> (
            r matches Err(e) && e matches AppError::Configuration(n, _) && n@ == "SERVER_PORT"@),
            host is Some && port is Some && parse_u16_spec((port->0)@) is Some ==> (r matches Ok(c)
                && c.host@ == (host->0)@ && c.port == parse_u16_spec((port->0)@)->0),
    {
        let host = match host {
            Some(h) => h,
            None => {
                proof {
                    reveal_strlit("SERVER_HOST");
                }
                return Err(
                    AppError::cfg_err("SERVER_HOST".to_owned(), "parameter is not set".to_owned()),
                );
            },
        };
        let port = match port {
            Some(p) => p,
            None => {
                proof {
                    reveal_strlit("SERVER_PORT");
                }
                return Err(
                    AppError::cfg_err("SERVER_PORT".to_owned(), "parameter is not set".to_owned()),
                );
            },
        };
        let port = match parse_u16(port.as_str()) {
            Some(v) => v,
            None => {
                proof {
                    reveal_strlit("SERVER_PORT");
                }
                return Err(
                    AppError::cfg_err(
                        "SERVER_PORT".to_owned(),
                        "parameter is not a port number".to_owned(),
                    ),
                );
            },
        };

        Ok(ServerConfig { host, port })
    }
}

/// Security parameters of the HTTP boundary.
#[derive(Debug)]
pub struct SecurityConfig {
    /// Origin allowed for cross-origin requests, or `*` for all.
    pub cors_origin: String,
    /// How long a preflight response may be cached, in seconds.
    pub cors_max_age: usize,
}

impl Clone for SecurityConfig {
    fn clone(&self) -> (r: Self)
        ensures
            r.cors_origin@ == self.cors_origin@,
            r.cors_max_age == self.cors_max_age,
    {
        SecurityConfig { cors_origin: self.cors_origin.clone(), cors_max_age: self.cors_max_age }
    }
}

impl Default for SecurityConfig {
    /// Every origin allowed, ten-minute preflight cache.
    fn default() -> (r: Self)
        ensures
            r.cors_origin@ == "*"@,
            r.cors_max_age == 600,
    {
        SecurityConfig { cors_origin: "*".to_owned(), cors_max_age: 600 }
    }
}

impl SecurityConfig {
    /// Builds the security parameters from the raw `CORS_ORIGIN` value; the
    /// preflight cache age keeps its default.
    pub fn load(cors_origin: Option<String>) -> (r: Result<SecurityConfig, AppError>)
        ensures
            cors_origin is None ==> (r matches Err(e) && e matches AppError::Configuration(n, _)
                && n@ == "CORS_ORIGIN"@),
            cors_origin is Some ==> (r matches Ok(c) && c.cors_origin@ == (cors_origin->0)@
                && c.cors_max_age == 600),
    {
        let cors_origin = match cors_origin {
            Some(o) => o,
            None => {
                proof {
                    reveal_strlit("CORS_ORIGIN");
                }
                return Err(
                    AppError::cfg_err("CORS_ORIGIN".to_owned(), "parameter is not set".to_owned()),
                );
            },
        };

        Ok(SecurityConfig { cors_origin, cors_max_age: 600 })
    }
}

/// Database access parameters.
#[derive(Debug)]
pub struct DBConfig {
    /// Connection string of the database.
    pub database_url: String,
    /// Largest number of pooled connections.
    pub max_conn: u32,
}

impl Clone for DBConfig {
    fn clone(&self) -> (r: Self)
        ensures
            r.database_url@ == self.database_url@,
            r.max_conn == self.max_conn,
    {
        DBConfig { database_url: self.database_url.clone(), max_conn: self.max_conn }
    }
}

impl Default for DBConfig {
    /// No connection string, no pooled connections.
    fn default() -> (r: Self)
        ensures
            r.database_url@.len() == 0,
            r.max_conn == 0,
    {
        DBConfig { database_url: String::new(), max_conn: 0 }
    }
}

impl DBConfig {
    /// Builds the database parameters from the raw `DATABASE_URL` value,
    /// with a pool of ten connections.
    pub fn load(database_url: Option<String>) -> (r: Result<DBConfig, AppError>)
        ensures
            database_url is None ==> (r matches Err(e) && e matches AppError::Configuration(n, _)
                && n@ == "DATABASE_URL"@),
            database_url is Some ==> (r matches Ok(c) && c.database_url@ == (database_url->0)@
                && c.max_conn == 10),
    {
        let database_url = match database_url {
            Some(u) => u,
            None => {
                proof {
                    reveal_strlit("DATABASE_URL");
                }
                return Err(
                    AppError::cfg_err("DATABASE_URL".to_owned(), "parameter is not set".to_owned()),
                );
            },
        };

        Ok(DBConfig { database_url, max_conn: 10 })
    }
}

/// Every parameter of the application.
#[derive(Debug)]
pub struct AppConfig {
    /// Server address parameters.
    pub server: ServerConfig,
    /// Security parameters.
    pub security: SecurityConfig,
    /// Database parameters.
    pub db: DBConfig,
}

impl Clone for AppConfig {
    fn clone(&self) -> (r: Self)
        ensures
            r.server.host@ == self.server.host@,
            r.server.port == self.server.port,
            r.security.cors_origin@ == self.security.cors_origin@,
            r.security.cors_max_age == self.security.cors_max_age,
            r.db.database_url@ == self.db.database_url@,
            r.db.max_conn == self.db.max_conn,
    {
        AppConfig {
            server: self.server.clone(),
            security: self.security.clone(),
            db: self.db.clone(),
        }
    }
}

impl Default for AppConfig {
    /// Every section at its default.
    fn default() -> (r: Self)
        ensures
            r.server.host@ == "127.0.0.1"@,
            r.server.port == 8080,
            r.security.cors_origin@ == "*"@,
            r.security.cors_max_age == 600,
            r.db.database_url@.len() == 0,
            r.db.max_conn == 0,
    {
        AppConfig {
            server: ServerConfig::default(),
            security: SecurityConfig::default(),
            db: DBConfig::default(),
        }
    }
}

impl AppConfig {
    /// Assembles the configuration from the raw `SERVER_HOST`, `SERVER_PORT`
    /// and `CORS_ORIGIN` values; the database section keeps its default.
    pub fn init(
        server_host: Option<String>,
        server_port: Option<String>,
        cors_origin: Option<String>,
    ) -> (r: Result<AppConfig, AppError>)
        ensures
            server_host is None ==> (r matches Err(e) && e matches AppError::Configuration(n, _)
                && n@ == "SERVER_HOST"@),
            server_host is Some && server_port is None ==> (r matches Err(e)
                && e matches AppError::Configuration(n, _) && n@ == "SERVER_PORT"@),
            server_host is Some && server_port is Some && parse_u16_spec((server_port->0)@)
                is None ==> (r matches Err(e) && e matches AppError::Configuration(n, _) && n@
                == "SERVER_PORT"@),
            server_host is Some && server_port is Some && parse_u16_spec((server_port->0)@)
                is Some && cors_origin is None ==> (r matches Err(e)
                && e matches AppError::Configuration(n, _) && n@ == "CORS_ORIGIN"@),
            server_host is Some && server_port is Some && parse_u16_spec((server_port->0)@)
                is Some && cors_origin is Some ==> (r matches Ok(c) && c.server.host@ == (
            server_host->0)@ && c.server.port == parse_u16_spec((server_port->0)@)->0
                && c.security.cors_origin@ == (cors_origin->0)@ && c.security.cors_max_age == 600
                && c.db.database_url@.len() == 0 && c.db.max_conn == 0),
    {
        let server = match ServerConfig::load(server_host, server_port) {
            Ok(s) => s,
            Err(e) => {
                return Err(e);
            },
        };
        let security = match SecurityConfig::load(cors_origin) {
            Ok(s) => s,
            Err(e) => {
                return Err(e);
            },
        };
        let db = DBConfig::default();

        Ok(AppConfig { server, security, db })
    }
}

} // verus!
