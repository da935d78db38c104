//! The content server's interface: book descriptors as the server lists
//! them, the connection settings, and the requests that the two endpoints
//! take.

use crate::trusted::{
    basic_auth, builder_has_room, built_from, duration_from_secs, get, get_request, query, secs_duration,
    user_agent, with_basic_auth, with_connect_timeout, with_query, with_timeout, with_user_agent,
};
use std::time::Duration;
use vstd::prelude::*;
use vstd::string::StringExecFns;

verus! {

/// One entry of the remote catalog.
#[derive(Debug)]
pub struct Book {
    /// Identifier under which the server hands out the content.
    pub path: String,
    /// Name of the local file; the key by which presence is decided.
    pub name: String,
    /// Size in bytes as the server reports it. Informational only.
    pub size: i64,
}

/// A catalog snapshot, in the order in which the server listed it.
pub type Books = Vec<Book>;

impl Clone for Book {
    fn clone(&self) -> (copy: Self)
        ensures
            copy == *self,
    {
        Book { path: self.path.clone(), name: self.name.clone(), size: self.size }
    }
}

/// Why a request to the content server brought nothing.
#[derive(Debug)]
pub enum FetchError {
    /// The request could not be built, sent or answered, or its body could
    /// not be read or decoded.
    Transport(reqwest::Error),
    /// The server answered with this status, which is no success.
    Status(u16),
}

/// Whether an HTTP status is a success: one of the codes 200 to 299. Every
/// other status of a response counts as a failed request.
pub fn is_success(status: u16) -> (ok: bool)
    ensures
        ok == (200 <= status <= 299),
{
    200 <= status && status <= 299
}

/// Timeout of the connect phase where the settings give none, in seconds.
pub const DEFAULT_CONNECT_TIMEOUT_SECS: u64 = 10;

/// Timeout of a whole request where the settings give none, in seconds.
/// Generous, since a book may be large and the link slow.
pub const DEFAULT_FETCH_TIMEOUT_SECS: u64 = 960;

/// The folder of the server that is synchronised.
pub const INBOX_PATH: &'static str = "/Books/Inbox/";

/// The `User-Agent` under which requests are sent.
pub const USER_AGENT: &'static str = "ky-sync";

/// Connection settings of one content server.
pub struct Config {
    /// Timeout of the connect phase; `None` for the default.
    pub connect_timeout: Option<Duration>,
    /// Timeout of a whole request, body included; `None` for the default.
    pub fetch_timeout: Option<Duration>,
    /// User name for HTTP basic authentication.
    pub username: String,
    /// Password for HTTP basic authentication.
    pub password: String,
    /// Base address of the server, such as `http://192.168.1.62:8080`.
    pub addr: String,
}

impl Clone for Config {
    fn clone(&self) -> (copy: Self)
        ensures
            copy == *self,
    {
        Config {
            connect_timeout: self.connect_timeout,
            fetch_timeout: self.fetch_timeout,
            username: self.username.clone(),
            password: self.password.clone(),
            addr: self.addr.clone(),
        }
    }
}

impl Config {
    /// The connect timeout in force: the configured one, else the default.
    pub open spec fn connect_timeout_in_force(&self) -> Duration {
        match self.connect_timeout {
            Some(configured) => configured,
            None => secs_duration(DEFAULT_CONNECT_TIMEOUT_SECS),
        }
    }

    /// The request timeout in force: the configured one, else the default.
    pub open spec fn fetch_timeout_in_force(&self) -> Duration {
        match self.fetch_timeout {
            Some(configured) => configured,
            None => secs_duration(DEFAULT_FETCH_TIMEOUT_SECS),
        }
    }

    /// What these settings make of a builder: the connect timeout in force
    /// as its connect timeout, the request timeout in force as its total
    /// timeout, and the user agent of this program, set in that order.
    pub open spec fn configured(&self, fresh: reqwest::ClientBuilder) -> reqwest::ClientBuilder {
        with_user_agent(
            with_timeout(with_connect_timeout(fresh, self.connect_timeout_in_force()), self.fetch_timeout_in_force()),
            USER_AGENT@,
        )
    }

    /// The connect timeout in force: the configured one, else the default.
    pub fn effective_connect_timeout(&self) -> (timeout: Duration)
        ensures
            timeout == self.connect_timeout_in_force(),
    {
        match self.connect_timeout {
            Some(configured) => configured,
            None => duration_from_secs(DEFAULT_CONNECT_TIMEOUT_SECS),
        }
    }

    /// The request timeout in force: the configured one, else the default.
    pub fn effective_fetch_timeout(&self) -> (timeout: Duration)
        ensures
            timeout == self.fetch_timeout_in_force(),
    {
        match self.fetch_timeout {
            Some(configured) => configured,
            None => duration_from_secs(DEFAULT_FETCH_TIMEOUT_SECS),
        }
    }

    /// Applies these settings to a builder of HTTP clients: each timeout in
    /// force goes to its own place, and the user agent is that of this
    /// program. What the builder held besides is kept. The builder has room
    /// for one more default header, as a new builder has.
    pub fn configure(&self, fresh: reqwest::ClientBuilder) -> (ready: reqwest::ClientBuilder)
        requires
            builder_has_room(fresh),
        ensures
            ready == self.configured(fresh),
    {
        let timed = fresh.connect_timeout(self.effective_connect_timeout()).timeout(self.effective_fetch_timeout());
        user_agent(timed, USER_AGENT)
    }

    /// Builds the HTTP client for these settings: a fresh builder, configured
    /// by `configure`, is built, and `CatalogClient::assemble` joins the
    /// outcome with a copy of these settings. Whether a client can be built
    /// is for the HTTP crate to say; a client that was built keeps these
    /// settings, and its HTTP client was built from a builder that these
    /// settings configured.
    pub fn build_client(&self) -> (built: Result<CatalogClient, reqwest::Error>)
        ensures
            built matches Ok(client) ==> {
                &&& client.config() == *self
                &&& exists|fresh: reqwest::ClientBuilder|
                    builder_has_room(fresh) && built_from(client.http()) == #[trigger] self.configured(fresh)
            },
    {
        let fresh = reqwest::Client::builder();
        let ghost start = fresh;
        let http = self.configure(fresh).build();
        let built = CatalogClient::assemble(self.clone(), http);
        assert(built matches Ok(client) ==> built_from(client.http()) == self.configured(start));
        built
    }

}

/// A configured connection to one content server.
pub struct CatalogClient {
    config: Config,
    client: reqwest::Client,
}

impl CatalogClient {
    /// The settings that the client was built from.
    pub closed spec fn config(&self) -> Config {
        self.config
    }

    /// The HTTP client through which requests are sent.
    pub closed spec fn http(&self) -> reqwest::Client {
        self.client
    }

    /// Joins settings with the outcome of building their HTTP client: a
    /// client of both where there is one, else the error unchanged.
    pub fn assemble(config: Config, http: Result<reqwest::Client, reqwest::Error>) -> (built: Result<
        CatalogClient,
        reqwest::Error,
    >)
        ensures
            match http {
                Ok(client) => built matches Ok(made) && made.config() == config && made.http() == client,
                Err(error) => built == Err::<CatalogClient, reqwest::Error>(error),
            },
    {
        match http {
            Ok(client) => Ok(CatalogClient { config, client }),
            Err(error) => Err(error),
        }
    }

    /// The settings that the client was built from.
    pub fn settings(&self) -> (config: &Config)
        ensures
            *config == self.config(),
    {
        &self.config
    }

    /// The request that lists the inbox: `GET {addr}/list?path=/Books/Inbox/`
    /// with HTTP basic authentication. It is built, not sent.
    pub fn inbox_request(&self) -> (request: reqwest::RequestBuilder)
        ensures
            request == with_query(
                with_basic_auth(
                    get_request(self.http(), self.config().addr@ + "/list"@),
                    self.config().username@,
                    Some(self.config().password@),
                ),
                "path"@,
                INBOX_PATH@,
            ),
    {
        let url = self.config.addr.clone().concat("/list");
        let request = get(&self.client, url.as_str());
        let request = basic_auth(request, self.config.username.as_str(), Some(self.config.password.as_str()));
        query(request, "path", INBOX_PATH)
    }

    /// The request that downloads one book:
    /// `GET {addr}/download?path={book_path}` with HTTP basic authentication.
    /// It is built, not sent.
    pub fn book_request(&self, book_path: &str) -> (request: reqwest::RequestBuilder)
        ensures
            request == with_query(
                with_basic_auth(
                    get_request(self.http(), self.config().addr@ + "/download"@),
                    self.config().username@,
                    Some(self.config().password@),
                ),
                "path"@,
                book_path@,
            ),
    {
        let url = self.config.addr.clone().concat("/download");
        let request = get(&self.client, url.as_str());
        let request = basic_auth(request, self.config.username.as_str(), Some(self.config.password.as_str()));
        query(request, "path", book_path)
    }
}

} // verus!
