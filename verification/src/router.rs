//! The routing table: which response a request line gets.

use vstd::prelude::*;
use vstd::string::*;

verus! {

/// What a request line asks for.
#[derive(Clone, Copy, Debug, PartialEq, Eq, Structural)]
pub enum Route {
    /// `GET / HTTP/1.1`
    Index,
    /// `GET /sleep HTTP/1.1`
    Sleep,
    /// `GET /html HTTP/1.1`: the body is a text asset that the caller reads.
    Html,
    /// `GET /favicon.ico HTTP/1.1`
    Favicon,
    /// `GET /jokes HTTP/1.1`: the body is fetched from a remote service.
    Jokes,
    /// `GET /exit HTTP/1.1`: the response that stops the accept loop.
    Exit,
    /// `POST /test HTTP/1.1`: the request body is never read.
    PostTest,
    /// Every other line.
    Unsupported,
}

/// The route of a request line: the whole line must equal an entry of the
/// table, letter for letter.
pub open spec fn route_of(line: Seq<char>) -> Route {
    if line == "GET / HTTP/1.1"@ {
        Route::Index
    } else if line == "GET /sleep HTTP/1.1"@ {
        Route::Sleep
    } else if line == "GET /html HTTP/1.1"@ {
        Route::Html
    } else if line == "GET /favicon.ico HTTP/1.1"@ {
        Route::Favicon
    } else if line == "GET /jokes HTTP/1.1"@ {
        Route::Jokes
    } else if line == "GET /exit HTTP/1.1"@ {
        Route::Exit
    } else if line == "POST /test HTTP/1.1"@ {
        Route::PostTest
    } else {
        Route::Unsupported
    }
}

/// The status and body of a route whose response is fixed; `None` for the
/// two routes whose body comes from outside.
pub open spec fn canned(route: Route) -> Option<(u16, Seq<char>)> {
    match route {
        Route::Index => Some((200u16, "It works!"@)),
        Route::Sleep => Some((200u16, "I'm getting sleepy"@)),
        Route::Html => None,
        Route::Favicon => Some((200u16, "Supposed to be an icon here"@)),
        Route::Jokes => None,
        Route::Exit => Some((200u16, "Shutting down..."@)),
        Route::PostTest => Some((200u16, "Post test succeeded"@)),
        Route::Unsupported => Some((400u16, "woops... Route not supported"@)),
    }
}

/// The response to the joke route, given how the fetch ended: the fetched
/// text under 200, or the description of the failure under 400.
pub open spec fn joke_outcome(outcome: Result<Seq<char>, Seq<char>>) -> (u16, Seq<char>) {
    match outcome {
        Ok(text) => (200u16, text),
        Err(description) => (400u16, description),
    }
}

/// Routing depends on the request line alone: equal lines get equal routes
/// and, where the response is fixed, equal responses.
pub proof fn lemma_routing_is_a_function(first: Seq<char>, second: Seq<char>)
    requires
        first =~= second,
    ensures
        route_of(first) == route_of(second),
        canned(route_of(first)) == canned(route_of(second)),
{
}

fn same_text(a: &str, b: &str) -> (same: bool)
    ensures
        same == (a@ == b@),
{
    let left = a.to_owned();
    let right = b.to_owned();
    left == right
}

/// Finds the route of a request line.
pub fn classify(line: &str) -> (route: Route)
    ensures
        route == route_of(line@),
{
    if same_text(line, "GET / HTTP/1.1") {
        Route::Index
    } else if same_text(line, "GET /sleep HTTP/1.1") {
        Route::Sleep
    } else if same_text(line, "GET /html HTTP/1.1") {
        Route::Html
    } else if same_text(line, "GET /favicon.ico HTTP/1.1") {
        Route::Favicon
    } else if same_text(line, "GET /jokes HTTP/1.1") {
        Route::Jokes
    } else if same_text(line, "GET /exit HTTP/1.1") {
        Route::Exit
    } else if same_text(line, "POST /test HTTP/1.1") {
        Route::PostTest
    } else {
        Route::Unsupported
    }
}

/// The response of a route that needs nothing from outside.
pub fn fixed_response(route: Route) -> (response: Option<(u16, String)>)
    ensures
        response.is_some() == canned(route).is_some(),
        response.is_some() ==> response.unwrap().0 == canned(route).unwrap().0,
        response.is_some() ==> response.unwrap().1@ == canned(route).unwrap().1,
{
    match route {
        Route::Index => Some((200, String::from_str("It works!"))),
        Route::Sleep => Some((200, String::from_str("I'm getting sleepy"))),
        Route::Html => None,
        Route::Favicon => Some((200, String::from_str("Supposed to be an icon here"))),
        Route::Jokes => None,
        Route::Exit => Some((200, String::from_str("Shutting down..."))),
        Route::PostTest => Some((200, String::from_str("Post test succeeded"))),
        Route::Unsupported => Some((400, String::from_str("woops... Route not supported"))),
    }
}

/// The response of the asset route, once the caller has read the asset.
pub fn html_response(html: String) -> (response: (u16, String))
    ensures
        response.0 == 200,
        response.1@ == html@,
{
    (200, html)
}

/// The response of the joke route, given the fetched text or the
/// description of what went wrong.
pub fn joke_response(outcome: Result<String, String>) -> (response: (u16, String))
    ensures
        response.0 == joke_outcome(
            match outcome {
                Ok(text) => Ok(text@),
                Err(description) => Err(description@),
            },
        ).0,
        response.1@ == joke_outcome(
            match outcome {
                Ok(text) => Ok(text@),
                Err(description) => Err(description@),
            },
        ).1,
{
    match outcome {
        Ok(text) => (200, text),
        Err(description) => (400, description),
    }
}

/// `reqwest::Error`, the error of the HTTP client, carried through as an
/// opaque value: nothing is known of what it holds.
#[verifier::external_type_specification]
#[verifier::external_body]
pub struct ExFetchError(reqwest::Error);

/// Renders a `reqwest::Error` through its `Debug` impl (`format!` with
/// `{:?}`). The text depends on what the error holds inside, which is
/// hidden here, so nothing is claimed of it.
#[verifier::external_body]
fn describe_failure(error: &reqwest::Error) -> (description: String) {
    format!("{error:?}")
}

/// The response of the joke route, straight from what the HTTP client
/// returned: the fetched text under 200; on failure a 400 whose body is the
/// client's own description of the error.
pub fn query_jokes(fetched: Result<String, reqwest::Error>) -> (response: (u16, String))
    ensures
        fetched is Ok ==> response.0 == 200 && response.1@ == fetched->Ok_0@,
        fetched is Err ==> response.0 == 400,
{
    match fetched {
        Ok(text) => joke_response(Ok(text)),
        Err(error) => {
            let description = describe_failure(&error);
            joke_response(Err(description))
        },
    }
}

} // verus!
