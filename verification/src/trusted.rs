//! The boundary to code that is not verified: the HTTP client crate, the
//! byte buffer that it hands out, and a few items of `std`.
//!
//! Nothing in this file is proved. The types are opaque to the verifier, and
//! each contract restates what the named function is documented to do.

use std::time::Duration;
use vstd::prelude::*;

verus! {

/// `reqwest::Client`, carried as an opaque value.
#[verifier::external_type_specification]
#[verifier::external_body]
pub struct ExHttpClient(reqwest::Client);

/// `reqwest::ClientBuilder`, carried as an opaque value.
#[verifier::external_type_specification]
#[verifier::external_body]
pub struct ExHttpClientBuilder(reqwest::ClientBuilder);

/// `reqwest::RequestBuilder`, carried as an opaque value.
#[verifier::external_type_specification]
#[verifier::external_body]
pub struct ExHttpRequestBuilder(reqwest::RequestBuilder);

/// `reqwest::Error`, carried as an opaque value.
#[verifier::external_type_specification]
#[verifier::external_body]
pub struct ExHttpError(reqwest::Error);

/// `bytes::Bytes`, the content of a response, carried as an opaque value.
#[verifier::external_type_specification]
#[verifier::external_body]
pub struct ExContent(bytes::Bytes);

/// `std::io::Error`, carried as an opaque value.
#[verifier::external_type_specification]
#[verifier::external_body]
pub struct ExIoError(std::io::Error);

/// The duration that `Duration::from_secs` makes of a number of whole seconds.
pub uninterp spec fn secs_duration(secs: u64) -> Duration;

/// The request that `reqwest::Client::get` makes for a client and a URL.
pub uninterp spec fn get_request(client: reqwest::Client, url: Seq<char>) -> reqwest::RequestBuilder;

/// The request that `reqwest::RequestBuilder::basic_auth` makes of a request,
/// a user name and an optional password.
pub uninterp spec fn with_basic_auth(
    request: reqwest::RequestBuilder,
    username: Seq<char>,
    password: Option<Seq<char>>,
) -> reqwest::RequestBuilder;

/// The request that `reqwest::RequestBuilder::query` makes of a request and
/// one key-value pair.
pub uninterp spec fn with_query(
    request: reqwest::RequestBuilder,
    key: Seq<char>,
    value: Seq<char>,
) -> reqwest::RequestBuilder;

/// The builder that `reqwest::ClientBuilder::connect_timeout` makes of a
/// builder and a timeout of the connect phase.
pub uninterp spec fn with_connect_timeout(builder: reqwest::ClientBuilder, timeout: Duration) -> reqwest::ClientBuilder;

/// The builder that `reqwest::ClientBuilder::timeout` makes of a builder and
/// a total timeout of a request.
pub uninterp spec fn with_timeout(builder: reqwest::ClientBuilder, timeout: Duration) -> reqwest::ClientBuilder;

/// The builder that `reqwest::ClientBuilder::user_agent` makes of a builder
/// and the text of a `User-Agent` header.
pub uninterp spec fn with_user_agent(builder: reqwest::ClientBuilder, agent: Seq<char>) -> reqwest::ClientBuilder;

/// Whether the default headers of a builder can take one more header: the
/// header map refuses to grow past its largest capacity, and an insertion
/// into a map that cannot grow panics.
pub uninterp spec fn builder_has_room(builder: reqwest::ClientBuilder) -> bool;

/// Whether the headers of a request can take one more header, in the same
/// sense. A request that holds an error in place of headers takes none and
/// has room.
pub uninterp spec fn request_has_room(request: reqwest::RequestBuilder) -> bool;

/// The builder that `reqwest::ClientBuilder::build` built a client from.
pub uninterp spec fn built_from(client: reqwest::Client) -> reqwest::ClientBuilder;

/// `Duration::from_secs`: a duration of `secs` whole seconds. The result is a
/// function of `secs` alone, which is all that the contract says.
#[verifier::external_body]
pub(crate) fn duration_from_secs(secs: u64) -> (duration: Duration)
    ensures
        duration == secs_duration(secs),
{
    Duration::from_secs(secs)
}

/// `reqwest::Client::builder`: a builder with the crate's default settings.
/// Its default headers hold the one `Accept` header, so there is room for
/// more; nothing else is claimed of the builder.
pub assume_specification[ reqwest::Client::builder ]() -> (builder: reqwest::ClientBuilder)
    ensures
        builder_has_room(builder),
;

/// `reqwest::ClientBuilder::connect_timeout`: records the timeout of the
/// connect phase, in place of one recorded before. The builder that comes
/// back is a function of the builder and the timeout alone, and its headers
/// are those it had.
pub assume_specification[ reqwest::ClientBuilder::connect_timeout ](
    builder: reqwest::ClientBuilder,
    timeout: Duration,
) -> (configured: reqwest::ClientBuilder)
    ensures
        configured == with_connect_timeout(builder, timeout),
        builder_has_room(configured) == builder_has_room(builder),
;

/// `reqwest::ClientBuilder::timeout`: records the total timeout of a request,
/// in place of one recorded before. The builder that comes back is a
/// function of the builder and the timeout alone, and its headers are those
/// it had.
pub assume_specification[ reqwest::ClientBuilder::timeout ](
    builder: reqwest::ClientBuilder,
    timeout: Duration,
) -> (configured: reqwest::ClientBuilder)
    ensures
        configured == with_timeout(builder, timeout),
        builder_has_room(configured) == builder_has_room(builder),
;

/// `reqwest::ClientBuilder::user_agent`: records the `User-Agent` header. A
/// value that is no valid header is kept as an error for `build` to return.
/// The builder that comes back is a function of the builder and the text
/// alone. The header goes into the default headers, which panics where they
/// have no room: such a builder is left out.
#[verifier::external_body]
pub(crate) fn user_agent(builder: reqwest::ClientBuilder, agent: &str) -> (configured:
    reqwest::ClientBuilder)
    requires
        builder_has_room(builder),
    ensures
        configured == with_user_agent(builder, agent@),
{
    builder.user_agent(agent)
}

/// `reqwest::ClientBuilder::build`: the client, or the error that a setting
/// or the machine's configuration caused. Whether there is a client depends
/// on the machine; a client that there is was built from this builder.
pub assume_specification[ reqwest::ClientBuilder::build ](builder: reqwest::ClientBuilder) -> (built:
    reqwest::Result<reqwest::Client>)
    ensures
        built matches Ok(client) ==> built_from(client) == builder,
;

/// `reqwest::Client::get`: a GET request to `url`, not yet sent. A URL that
/// does not parse is kept as an error inside the request. The request holds
/// at most one header, for credentials that the URL named, so it has room.
#[verifier::external_body]
pub(crate) fn get(client: &reqwest::Client, url: &str) -> (request: reqwest::RequestBuilder)
    ensures
        request == get_request(*client, url@),
        request_has_room(request),
{
    client.get(url)
}

/// `reqwest::RequestBuilder::basic_auth`: the request with an `Authorization`
/// header for HTTP basic authentication. The header is appended to the
/// request's headers, which panics where they have no room: such a request
/// is left out.
#[verifier::external_body]
pub(crate) fn basic_auth(request: reqwest::RequestBuilder, username: &str, password: Option<&str>) -> (authorized:
    reqwest::RequestBuilder)
    requires
        request_has_room(request),
    ensures
        authorized == with_basic_auth(
            request,
            username@,
            match password {
                Some(word) => Some(word@),
                None => None,
            },
        ),
{
    request.basic_auth(username, password)
}

/// `reqwest::RequestBuilder::query`: the request with one more key-value pair
/// appended to the query string of its URL.
#[verifier::external_body]
pub(crate) fn query(request: reqwest::RequestBuilder, key: &str, value: &str) -> (extended:
    reqwest::RequestBuilder)
    ensures
        extended == with_query(request, key@, value@),
{
    request.query(&[(key, value)])
}

} // verus!
