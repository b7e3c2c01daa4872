//! The flag that stops the accept loop, and what sets it.

use vstd::prelude::*;
use vstd::string::*;
use vstd::utf8::{encode_utf8, is_ascii_chars, is_ascii_chars_encode_utf8};
use crate::router::{canned, Route};

verus! {

/// Whether `needle` stands in `text` at offset `at`.
pub open spec fn occurs_at(needle: Seq<u8>, text: Seq<u8>, at: int) -> bool {
    0 <= at && at + needle.len() <= text.len() && text.subrange(at, at + needle.len()) == needle
}

/// Whether `needle` stands somewhere in `text`.
pub open spec fn occurs_in(needle: Seq<u8>, text: Seq<u8>) -> bool {
    exists|at: int| occurs_at(needle, text, at)
}

/// A response body asks for shutdown when its bytes hold the marker `Shut`.
pub open spec fn is_shutdown_body(body: Seq<char>) -> bool {
    occurs_in(encode_utf8("Shut"@), encode_utf8(body))
}

fn matches_at(text: &[u8], needle: &[u8], at: usize) -> (matched: bool)
    requires
        at + needle@.len() <= text@.len() <= usize::MAX,
    ensures
        matched == occurs_at(needle@, text@, at as int),
{
    let mut k: usize = 0;
    while k < needle.len()
        invariant
            k <= needle@.len(),
            at + needle@.len() <= text@.len() <= usize::MAX,
            forall|j: int| 0 <= j < k ==> text@[at + j] == needle@[j],
        decreases needle@.len() - k,
    {
        if text[at + k] != needle[k] {
            assert(text@.subrange(at as int, at + needle@.len())[k as int] == text@[at + k]);
            return false;
        }
        k += 1;
    }
    assert(text@.subrange(at as int, at + needle@.len()) =~= needle@);
    true
}

/// Searches `text` for `needle`.
pub fn contains_bytes(text: &[u8], needle: &[u8]) -> (found: bool)
    ensures
        found == occurs_in(needle@, text@),
{
    if needle.len() > text.len() {
        return false;
    }
    let last: usize = text.len() - needle.len();
    let mut at: usize = 0;
    while at < last
        invariant
            at <= last,
            last == text@.len() - needle@.len(),
            text@.len() <= usize::MAX,
            forall|j: int| 0 <= j < at ==> !occurs_at(needle@, text@, j),
        decreases last - at,
    {
        if matches_at(text, needle, at) {
            return true;
        }
        at += 1;
    }
    matches_at(text, needle, last)
}

/// Tells whether a response body asks the server to stop.
pub fn is_shutdown_response(body: &str) -> (stop: bool)
    ensures
        stop == is_shutdown_body(body@),
{
    contains_bytes(body.as_bytes(), "Shut".as_bytes())
}

/// The two states of the accept loop. `Stopping` is terminal.
#[derive(Clone, Copy, Debug, PartialEq, Eq, Structural)]
pub enum AcceptState {
    Running,
    Stopping,
}

/// The shared flag. Once set it stays set: no operation clears it.
#[derive(Debug)]
pub struct ShutdownFlag {
    stopping: bool,
}

impl View for ShutdownFlag {
    type V = bool;

    closed spec fn view(&self) -> bool {
        self.stopping
    }
}

impl ShutdownFlag {
    /// A flag that is not set.
    pub fn new() -> (flag: Self)
        ensures
            !flag@,
    {
        ShutdownFlag { stopping: false }
    }

    /// Reads the flag.
    pub fn is_stopping(&self) -> (stopping: bool)
        ensures
            stopping == self@,
    {
        self.stopping
    }

    /// Sets the flag.
    pub fn request_stop(&mut self)
        ensures
            final(self)@,
    {
        self.stopping = true;
    }

    /// Looks at the body of a response that was sent, and sets the flag if
    /// the body asks for shutdown. A flag that was set stays set.
    pub fn observe_response(&mut self, body: &str)
        ensures
            final(self)@ == (old(self)@ || is_shutdown_body(body@)),
    {
        if is_shutdown_response(body) {
            self.stopping = true;
        }
    }

    /// What the accept loop does next, read after each submission.
    pub fn accept_state(&self) -> (state: AcceptState)
        ensures
            state == (if self@ {
                AcceptState::Stopping
            } else {
                AcceptState::Running
            }),
    {
        if self.stopping {
            AcceptState::Stopping
        } else {
            AcceptState::Running
        }
    }
}

/// A body of plain ASCII in which no `S` is followed by `h` does not ask
/// for shutdown.
pub proof fn lemma_no_marker_without_its_head(body: Seq<char>)
    requires
        is_ascii_chars(body),
        forall|i: int| 0 <= i < body.len() - 1 && #[trigger] body[i] == 'S' ==> body[i + 1] != 'h',
    ensures
        !is_shutdown_body(body),
{
    reveal_strlit("Shut");
    let needle = "Shut"@;
    assert(is_ascii_chars(needle));
    is_ascii_chars_encode_utf8(needle);
    is_ascii_chars_encode_utf8(body);
    let n = encode_utf8(needle);
    let b = encode_utf8(body);
    assert forall|at: int| !occurs_at(n, b, at) by {
        if occurs_at(n, b, at) {
            assert(b.subrange(at, at + 4)[0] == n[0]);
            assert(b.subrange(at, at + 4)[1] == n[1]);
            assert(body[at] as u8 == b[at]);
            assert(body[at + 1] as u8 == b[at + 1]);
            assert(needle[0] as u8 == n[0]);
            assert(needle[1] as u8 == n[1]);
            assert(body[at] == 'S');
            assert(body[at + 1] == 'h');
        }
    }
}

/// Among the fixed responses, the one of the exit route asks for shutdown
/// and no other does.
pub proof fn lemma_only_exit_stops(route: Route)
    requires
        canned(route) is Some,
    ensures
        is_shutdown_body(canned(route).unwrap().1) <==> route == Route::Exit,
{
    let body = canned(route).unwrap().1;
    reveal_strlit("It works!");
    reveal_strlit("I'm getting sleepy");
    reveal_strlit("Supposed to be an icon here");
    reveal_strlit("Shutting down...");
    reveal_strlit("Post test succeeded");
    reveal_strlit("woops... Route not supported");
    assert(is_ascii_chars(body));
    if route == Route::Exit {
        reveal_strlit("Shut");
        let needle = "Shut"@;
        assert(is_ascii_chars(needle));
        is_ascii_chars_encode_utf8(needle);
        is_ascii_chars_encode_utf8(body);
        assert(encode_utf8(body).subrange(0, 4) =~= encode_utf8(needle));
        assert(occurs_at(encode_utf8(needle), encode_utf8(body), 0));
    } else {
        lemma_no_marker_without_its_head(body);
    }
}

} // verus!
