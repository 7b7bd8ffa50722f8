//! Settings of the service: the database URL, taken apart into its scheme and
//! its location, and the port of the server.

use vstd::prelude::*;
use crate::text::{owned, same_text};

verus! {

/// What separates the scheme of a URL from its location.
pub open spec fn separator() -> Seq<char> {
    seq![':', '/', '/']
}

/// The separator stands in `s` at the position `i`.
pub open spec fn separator_at(s: Seq<char>, i: int) -> bool {
    0 <= i && i + 3 <= s.len() && s[i] == ':' && s[i + 1] == '/' && s[i + 2] == '/'
}

/// The position of the first separator in `s` from `from` on, or the length of
/// `s` if there is none.
pub open spec fn first_separator(s: Seq<char>, from: int) -> int
    decreases s.len() - from,
{
    if from < 0 || from >= s.len() {
        s.len() as int
    } else if separator_at(s, from) {
        from
    } else {
        first_separator(s, from + 1)
    }
}

/// `s` holds a separator.
pub open spec fn has_separator(s: Seq<char>) -> bool {
    first_separator(s, 0) < s.len()
}

/// What stands before the first separator of `s`.
pub open spec fn scheme_of(s: Seq<char>) -> Seq<char> {
    s.subrange(0, first_separator(s, 0))
}

/// What stands between the first separator of `s` and the next one, or the end.
pub open spec fn location_of(s: Seq<char>) -> Seq<char> {
    let begin = first_separator(s, 0) + 3;
    s.subrange(begin, first_separator(s, begin))
}

/// The first separator from `from` on lies between `from` and the end.
pub proof fn lemma_first_separator(s: Seq<char>, from: int)
    requires
        0 <= from <= s.len(),
    ensures
        from <= first_separator(s, from) <= s.len(),
        first_separator(s, from) < s.len() ==> separator_at(s, first_separator(s, from)),
    decreases s.len() - from,
{
    if from < s.len() && !separator_at(s, from) {
        lemma_first_separator(s, from + 1);
    }
}

/// A database URL, with its two parts.
#[derive(Debug, PartialEq, Eq)]
pub struct DatabaseUrl {
    pub raw: String,
    pub scheme: String,
    pub location: String,
}

impl Clone for DatabaseUrl {
    fn clone(&self) -> (r: DatabaseUrl)
        ensures
            r == *self,
    {
        DatabaseUrl {
            raw: self.raw.clone(),
            scheme: self.scheme.clone(),
            location: self.location.clone(),
        }
    }
}

/// The database engines that a URL can name.
#[derive(Debug, Clone, Copy, PartialEq, Eq, Structural)]
pub enum Schema {
    Sqlite,
    Postgres,
    Mysql,
}

/// The engine that the scheme `scheme` names, if it names one.
pub open spec fn schema_of(scheme: Seq<char>) -> Option<Schema> {
    if scheme == "sqlite"@ {
        Some(Schema::Sqlite)
    } else if scheme == "postgres"@ {
        Some(Schema::Postgres)
    } else if scheme == "mysql"@ {
        Some(Schema::Mysql)
    } else {
        None
    }
}

/// The settings of the service.
#[derive(Debug, PartialEq, Eq)]
pub struct Settings {
    database: DatabaseConfig,
    server: Option<ServerConfig>,
}

#[derive(Debug, PartialEq, Eq)]
struct DatabaseConfig {
    url: String,
}

#[derive(Debug, PartialEq, Eq)]
struct ServerConfig {
    port: Option<u16>,
}

/// The position of the first separator in `s` from `from` on, or the length of `s`.
fn find_separator(s: &str, from: usize) -> (at: usize)
    requires
        from <= s@.len(),
    ensures
        at == first_separator(s@, from as int),
        from <= at <= s@.len(),
{
    let n = s.unicode_len();
    let mut i: usize = from;
    while i < n
        invariant
            from <= i <= n,
            n == s@.len(),
            first_separator(s@, from as int) == first_separator(s@, i as int),
        decreases n - i,
    {
        if n - i >= 3 {
            let a = s.get_char(i);
            let b = s.get_char(i + 1);
            let c = s.get_char(i + 2);
            if a == ':' && b == '/' && c == '/' {
                return i;
            }
        }
        i += 1;
    }
    n
}

/// The two parts of the URL `url`, which holds a separator.
fn split_url(url: &str) -> (parts: (String, String))
    requires
        has_separator(url@),
    ensures
        parts.0@ == scheme_of(url@),
        parts.1@ == location_of(url@),
{
    let n = url.unicode_len();
    let first = find_separator(url, 0);
    proof {
        lemma_first_separator(url@, 0);
    }
    assert(first + 3 <= n);
    let begin = first + 3;
    let end = find_separator(url, begin);
    (owned(url.substring_char(0, first)), owned(url.substring_char(begin, end)))
}

impl Settings {
    /// Settings with the database URL `url` and, where one is given, the port
    /// of the server.
    pub fn new(url: &str, port: Option<u16>) -> (s: Settings)
        ensures
            s.url() == url@,
            s.port() == port,
    {
        Settings {
            database: DatabaseConfig { url: owned(url) },
            server: match port {
                Some(port) => Some(ServerConfig { port: Some(port) }),
                None => None,
            },
        }
    }

    /// The database URL, as it was configured.
    pub closed spec fn url(&self) -> Seq<char> {
        self.database.url@
    }

    /// The port of the server, if one was configured.
    pub closed spec fn port(&self) -> Option<u16> {
        match self.server {
            Some(server) => server.port,
            None => None,
        }
    }

    /// Decides whether the configured database URL can be taken apart.
    pub fn has_database_url(&self) -> (ok: bool)
        ensures
            ok == has_separator(self.url()),
    {
        let url = self.database.url.as_str();
        find_separator(url, 0) < url.unicode_len()
    }

    /// The database URL with its scheme and its location: what stands before
    /// the first separator, and what follows it up to the next one.
    pub fn get_database_url(&self) -> (url: DatabaseUrl)
        requires
            has_separator(self.url()),
        ensures
            url.raw@ == self.url(),
            url.scheme@ == scheme_of(self.url()),
            url.location@ == location_of(self.url()),
    {
        let raw = self.database.url.clone();
        let (scheme, location) = split_url(raw.as_str());
        DatabaseUrl { scheme, location, raw }
    }

    /// The port of the server, if one was configured.
    pub fn get_server_port(&self) -> (port: Option<u16>)
        ensures
            port == self.port(),
    {
        match &self.server {
            Some(server) => server.port,
            None => None,
        }
    }
}

impl DatabaseUrl {
    /// Decides whether the scheme names an engine that the service supports.
    pub fn has_known_scheme(&self) -> (ok: bool)
        ensures
            ok == schema_of(self.scheme@) is Some,
    {
        let scheme = self.scheme.as_str();
        same_text(scheme, "sqlite") || same_text(scheme, "postgres") || same_text(scheme, "mysql")
    }

    /// The engine that the scheme names.
    pub fn get_scheme(&self) -> (schema: Schema)
        requires
            schema_of(self.scheme@) is Some,
        ensures
            Some(schema) == schema_of(self.scheme@),
    {
        let scheme = self.scheme.as_str();
        if same_text(scheme, "sqlite") {
            Schema::Sqlite
        } else if same_text(scheme, "postgres") {
            Schema::Postgres
        } else {
            Schema::Mysql
        }
    }

    /// The location: the part of the URL after the scheme.
    pub fn get_location(&self) -> (r: &str)
        ensures
            r@ == self.location@,
    {
        self.location.as_str()
    }

    /// The URL as it was given.
    pub fn get_as_str(&self) -> (r: &str)
        ensures
            r@ == self.raw@,
    {
        self.raw.as_str()
    }

    /// Replaces the URL, and with it the scheme and the location.
    pub fn change_url(&mut self, url: &str)
        requires
            has_separator(url@),
        ensures
            final(self).raw@ == url@,
            final(self).scheme@ == scheme_of(url@),
            final(self).location@ == location_of(url@),
    {
        let (scheme, location) = split_url(url);
        self.raw = owned(url);
        self.scheme = scheme;
        self.location = location;
    }
}

/// The text of a settings file for a service that keeps its data in an SQLite
/// file named after the directory `dir_name`.
pub open spec fn default_config(dir_name: Seq<char>) -> Seq<char> {
    "\n[database]\nurl = \"sqlite://./"@ + dir_name + ".db\"\n"@
}

/// Writes the default settings file for the directory name `dir_name`.
pub fn generate_default_config(dir_name: &str) -> (text: String)
    ensures
        text@ == default_config(dir_name@),
{
    let mut text = owned("\n[database]\nurl = \"sqlite://./");
    text.append(dir_name);
    text.append(".db\"\n");
    text
}

} // verus!
