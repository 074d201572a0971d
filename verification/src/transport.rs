//! The rules of the socket: where to dial, how often, and what came of sending
//! and receiving.

use crate::number;
use crate::text;
use vstd::prelude::*;

verus! {

/// How often the engine is dialled before giving up.
pub const MAX_ATTEMPTS: u32 = 60;

/// The seconds between two attempts.
pub const RETRY_SECONDS: u64 = 5;

/// What to do after an attempt to dial.
pub enum DialStep {
    /// The socket is open.
    Connected,
    /// Tell `notice`, wait `seconds` and dial again as attempt `attempt + 1`.
    Retry { attempt: u32, notice: String, seconds: u64 },
    /// Fail with this message.
    GiveUp(String),
}

/// What to do after an attempt, with texts for strings.
#[verifier::ext_equal]
pub enum DialModel {
    Connected,
    Retry { attempt: u32, notice: Seq<char>, seconds: u64 },
    GiveUp(Seq<char>),
}

impl View for DialStep {
    type V = DialModel;

    open spec fn view(&self) -> DialModel {
        match *self {
            DialStep::Connected => DialModel::Connected,
            DialStep::Retry { attempt, notice, seconds } => DialModel::Retry {
                attempt,
                notice: notice@,
                seconds,
            },
            DialStep::GiveUp(message) => DialModel::GiveUp(message@),
        }
    }
}

/// What came of waiting for a frame, where a binary frame has been decoded.
pub enum Incoming<C> {
    /// A binary frame, or why it could not be decoded.
    Binary(Result<C, String>),
    /// A close frame.
    Close,
    /// A frame of another kind.
    OtherFrame,
    /// The socket failed.
    SocketError(String),
    /// The stream is over.
    Ended,
    /// Nothing came in time.
    TimedOut,
}

/// What came of sending a frame.
pub enum Outgoing {
    /// It was sent.
    Sent,
    /// It could not be encoded.
    EncodeError(String),
    /// It could not be sent.
    SendError(String),
}

/// What to do after an attempt that was preceded by `failures` failed ones.
pub open spec fn dial_step(failures: u32, result: Result<(), Seq<char>>) -> DialModel {
    match result {
        Ok(_) => DialModel::Connected,
        Err(e) => if failures + 1 >= MAX_ATTEMPTS {
            DialModel::GiveUp("Failed to connect after 60 attempts: "@ + e)
        } else {
            DialModel::Retry {
                attempt: (failures + 1) as u32,
                notice: "[cockatiel] Connection failed (attempt "@ + number::natural_text(
                    (failures + 1) as nat,
                ) + "/60): "@ + e + ". Retrying in 5s..."@,
                seconds: RETRY_SECONDS,
            }
        },
    }
}

/// The file that holds the engine's certificate, if the environment names one.
pub open spec fn certificate_path(variable: Option<Seq<char>>) -> Option<Seq<char>> {
    match variable {
        Some(path) => if text::trimmed(path).len() > 0 {
            Some(path)
        } else {
            None
        },
        None => None,
    }
}

/// `s` without `prefix`, if it begins with it.
pub open spec fn without_prefix(s: Seq<char>, prefix: Seq<char>) -> Option<Seq<char>> {
    if text::begins_with(s, prefix) {
        Some(s.skip(prefix.len() as int))
    } else {
        None
    }
}

/// The host and port of a socket address.
pub open spec fn host_port(url: Seq<char>) -> Seq<char> {
    match without_prefix(url, "ws://"@) {
        Some(rest) => rest,
        None => match without_prefix(url, "wss://"@) {
            Some(rest) => rest,
            None => url,
        },
    }
}

/// The address to dial: `wss` where the engine's certificate is pinned, `ws`
/// otherwise.
pub open spec fn dial_address(url: Seq<char>, pinned: bool) -> Seq<char> {
    (if pinned {
        "wss"@
    } else {
        "ws"@
    }) + "://"@ + host_port(url)
}

/// What sending amounts to.
pub open spec fn send_result(outgoing: Outgoing) -> Result<(), Seq<char>> {
    match outgoing {
        Outgoing::Sent => Ok(()),
        Outgoing::EncodeError(e) => Err("Encode error: "@ + e@),
        Outgoing::SendError(e) => Err("Send error: "@ + e@),
    }
}

/// What receiving amounts to.
pub open spec fn receive_result<C>(incoming: Incoming<C>) -> Result<C, Seq<char>> {
    match incoming {
        Incoming::Binary(Ok(c)) => Ok(c),
        Incoming::Binary(Err(e)) => Err("Decode error: "@ + e@),
        Incoming::Close => Err("Connection closed by server"@),
        Incoming::OtherFrame => Err("Received non-binary message"@),
        Incoming::SocketError(e) => Err("WebSocket error: "@ + e@),
        Incoming::Ended => Err("Stream ended"@),
        Incoming::TimedOut => Err("Timeout"@),
    }
}

/// A result, with a text for its error.
pub open spec fn result_model<C>(r: Result<C, String>) -> Result<C, Seq<char>> {
    match r {
        Ok(c) => Ok(c),
        Err(e) => Err(e@),
    }
}

/// What to do after an attempt to dial that was preceded by `failures` failed
/// ones.
pub fn connect_ws(failures: u32, result: Result<(), String>) -> (r: DialStep)
    ensures
        r@ == dial_step(failures, result_model(result)),
{
    match result {
        Ok(_) => DialStep::Connected,
        Err(e) => if failures >= MAX_ATTEMPTS - 1 {
            DialStep::GiveUp(text::concat2("Failed to connect after 60 attempts: ", e.as_str()))
        } else {
            let attempt: u32 = failures + 1;
            let mut notice = text::concat2(
                "[cockatiel] Connection failed (attempt ",
                number::natural(attempt as u64).as_str(),
            );
            notice.append("/60): ");
            notice.append(e.as_str());
            notice.append(". Retrying in 5s...");
            DialStep::Retry { attempt, notice, seconds: RETRY_SECONDS }
        },
    }
}

/// The file that holds the engine's certificate, if the environment names one.
pub fn pinned_certificate(variable: Option<String>) -> (r: Option<String>)
    ensures
        text::option_text(r) == certificate_path(text::option_text(variable)),
{
    match variable {
        Some(path) => if text::trim(path.as_str()).is_empty() {
            None
        } else {
            Some(path)
        },
        None => None,
    }
}

fn strip_prefix<'a>(s: &'a str, prefix: &str) -> (r: Option<&'a str>)
    ensures
        match r {
            Some(rest) => without_prefix(s@, prefix@) == Some(rest@),
            None => without_prefix(s@, prefix@) is None,
        },
{
    if text::starts_with(s, prefix) {
        let rest = s.substring_char(prefix.unicode_len(), s.unicode_len());
        assert(rest@ =~= s@.skip(prefix@.len() as int));
        Some(rest)
    } else {
        None
    }
}

/// The address to dial.
pub fn endpoint(url: &str, pinned: bool) -> (r: String)
    ensures
        r@ == dial_address(url@, pinned),
{
    let rest = match strip_prefix(url, "ws://") {
        Some(rest) => rest,
        None => match strip_prefix(url, "wss://") {
            Some(rest) => rest,
            None => url,
        },
    };
    let scheme = if pinned {
        "wss"
    } else {
        "ws"
    };
    let mut r = text::concat2(scheme, "://");
    r.append(rest);
    r
}

/// Where to dial and which certificates to trust: `roots` is what pinning the
/// engine's certificate gave, if one is to be pinned. Where pinning failed,
/// nothing is dialled.
pub fn dial_plan(url: &str, roots: Option<Result<rustls::RootCertStore, String>>) -> (r: Result<
    (String, Option<rustls::RootCertStore>),
    String,
>)
    ensures
        match roots {
            None => r is Ok && r->Ok_0.0@ == dial_address(url@, false) && r->Ok_0.1 is None,
            Some(Ok(store)) => r is Ok && r->Ok_0.0@ == dial_address(url@, true) && r->Ok_0.1
                == Some(store),
            Some(Err(e)) => r == Err::<(String, Option<rustls::RootCertStore>), String>(e),
        },
{
    match roots {
        None => Ok((endpoint(url, false), None)),
        Some(Ok(store)) => Ok((endpoint(url, true), Some(store))),
        Some(Err(e)) => Err(e),
    }
}

/// What sending a frame amounts to.
pub fn send_raw(outgoing: Outgoing) -> (r: Result<(), String>)
    ensures
        result_model(r) == send_result(outgoing),
{
    match outgoing {
        Outgoing::Sent => Ok(()),
        Outgoing::EncodeError(e) => Err(text::concat2("Encode error: ", e.as_str())),
        Outgoing::SendError(e) => Err(text::concat2("Send error: ", e.as_str())),
    }
}

/// What waiting for a frame amounts to.
pub fn receive_raw<C>(incoming: Incoming<C>) -> (r: Result<C, String>)
    ensures
        result_model(r) == receive_result(incoming),
{
    match incoming {
        Incoming::Binary(Ok(c)) => Ok(c),
        Incoming::Binary(Err(e)) => Err(text::concat2("Decode error: ", e.as_str())),
        Incoming::Close => Err("Connection closed by server".to_owned()),
        Incoming::OtherFrame => Err("Received non-binary message".to_owned()),
        Incoming::SocketError(e) => Err(text::concat2("WebSocket error: ", e.as_str())),
        Incoming::Ended => Err("Stream ended".to_owned()),
        Incoming::TimedOut => Err("Timeout".to_owned()),
    }
}

/// A failed attempt is told with its number and its reason, and the next one
/// follows five seconds later; the sixtieth is the last.
pub proof fn failed_attempts_are_told(failures: u32, reason: Seq<char>)
    ensures
        failures < 59 ==> dial_step(failures, Err(reason)) == (DialModel::Retry {
            attempt: (failures + 1) as u32,
            notice: "[cockatiel] Connection failed (attempt "@ + number::natural_text(
                (failures + 1) as nat,
            ) + "/60): "@ + reason + ". Retrying in 5s..."@,
            seconds: 5,
        }),
        failures >= 59 ==> dial_step(failures, Err(reason)) == DialModel::GiveUp(
            "Failed to connect after 60 attempts: "@ + reason,
        ),
        dial_step(failures, Ok(())) == DialModel::Connected,
{
}

/// A certificate is pinned exactly if the environment names a file, and blanks
/// are no name. The name is taken as it is.
pub proof fn a_named_certificate_is_pinned(path: Seq<char>)
    ensures
        certificate_path(None) is None,
        (forall|i: int| 0 <= i < path.len() ==> text::white_space(#[trigger] path[i]))
            ==> certificate_path(Some(path)) is None,
        (exists|i: int| 0 <= i < path.len() && !text::white_space(#[trigger] path[i]))
            ==> certificate_path(Some(path)) == Some(path),
{
    let none = Seq::<char>::empty();
    if crate::text_laws::all_white(path) {
        crate::text_laws::trimming_takes_the_white_space_alone(path, none, none);
        assert(path + none + none =~= path);
    } else {
        lemma_trimmed_something(path);
    }
}

proof fn lemma_trimmed_something(s: Seq<char>)
    requires
        exists|i: int| 0 <= i < s.len() && !text::white_space(#[trigger] s[i]),
    ensures
        text::trimmed(s).len() > 0,
    decreases s.len(),
{
    let i = choose|i: int| 0 <= i < s.len() && !text::white_space(#[trigger] s[i]);
    if text::white_space(s[0]) {
        let rest = s.drop_first();
        assert(rest[i - 1] == s[i]);
        lemma_trimmed_something(rest);
    } else {
        lemma_strip_back_something(s);
    }
}

proof fn lemma_strip_back_something(s: Seq<char>)
    requires
        s.len() > 0,
        !text::white_space(s[0]),
    ensures
        text::strip_back(s, text::Margin::WhiteSpace).len() > 0,
    decreases s.len(),
{
    if text::white_space(s.last()) {
        lemma_strip_back_something(s.drop_last());
    }
}

/// The address that is dialled has the scheme that pinning asks for in place of
/// the one that it had, if it had one, and is otherwise the same.
pub proof fn pinning_chooses_the_scheme(rest: Seq<char>)
    ensures
        dial_address("ws://"@ + rest, false) == "ws"@ + "://"@ + rest,
        dial_address("ws://"@ + rest, true) == "wss"@ + "://"@ + rest,
        dial_address("wss://"@ + rest, false) == "ws"@ + "://"@ + rest,
        dial_address("wss://"@ + rest, true) == "wss"@ + "://"@ + rest,
        (forall|t: Seq<char>| rest != #[trigger] ("ws://"@ + t) && rest != "wss://"@ + t) ==> {
            &&& dial_address(rest, false) == "ws"@ + "://"@ + rest
            &&& dial_address(rest, true) == "wss"@ + "://"@ + rest
        },
{
    reveal_strlit("ws://");
    reveal_strlit("wss://");
    let a = "ws://"@ + rest;
    let b = "wss://"@ + rest;
    assert(a.subrange(0, 5) =~= "ws://"@);
    assert(a.skip(5) =~= rest);
    assert(b.subrange(0, 6) =~= "wss://"@);
    assert(b.skip(6) =~= rest);
    assert(!text::begins_with(b, "ws://"@)) by {
        if text::begins_with(b, "ws://"@) {
            assert(b.subrange(0, 5)[2] == ':');
        }
    }
    if text::begins_with(rest, "ws://"@) {
        assert(rest =~= "ws://"@ + rest.skip(5));
    }
    if text::begins_with(rest, "wss://"@) {
        let t = rest.skip(6);
        assert(rest =~= "wss://"@ + t);
        assert("ws://"@ + t == "ws://"@ + t);
    }
}

/// What cannot be sent is told with its reason.
pub proof fn failures_to_send_are_told(outgoing: Outgoing)
    ensures
        send_result(outgoing) is Ok <==> outgoing is Sent,
        outgoing matches Outgoing::EncodeError(e) ==> send_result(outgoing) == Err::<(), Seq<char>>(
            "Encode error: "@ + e@,
        ),
        outgoing matches Outgoing::SendError(e) ==> send_result(outgoing) == Err::<(), Seq<char>>(
            "Send error: "@ + e@,
        ),
{
}

/// A binary frame that could be decoded is received as what it was decoded as;
/// anything else is told with its reason.
pub proof fn only_decoded_frames_are_received<C>(incoming: Incoming<C>, c: C, e: String)
    ensures
        receive_result(Incoming::Binary(Ok(c))) == Ok::<C, Seq<char>>(c),
        receive_result(Incoming::<C>::Binary(Err(e))) == Err::<C, Seq<char>>(
            "Decode error: "@ + e@,
        ),
        receive_result(Incoming::<C>::Close) == Err::<C, Seq<char>>(
            "Connection closed by server"@,
        ),
        receive_result(Incoming::<C>::OtherFrame) == Err::<C, Seq<char>>(
            "Received non-binary message"@,
        ),
        receive_result(Incoming::<C>::SocketError(e)) == Err::<C, Seq<char>>(
            "WebSocket error: "@ + e@,
        ),
        receive_result(Incoming::<C>::Ended) == Err::<C, Seq<char>>("Stream ended"@),
        receive_result(Incoming::<C>::TimedOut) == Err::<C, Seq<char>>("Timeout"@),
        receive_result(incoming) is Ok <==> incoming matches Incoming::Binary(Ok(_)),
{
}

/// What dialling comes to after the given results, one per attempt, where
/// `failures` attempts failed before.
pub open spec fn dialled(failures: u32, results: Seq<Result<(), Seq<char>>>) -> DialModel
    decreases results.len(),
    when results.len() > 0
{
    match dial_step(failures, results[0]) {
        DialModel::Retry { attempt, .. } if results.len() > 1 => dialled(attempt, results.skip(1)),
        step => step,
    }
}

/// The engine is dialled until it answers, and given up after sixty attempts:
/// failing that often, and no less often, ends in the last error.
pub proof fn dialling_gives_up_after_sixty(failures: u32, results: Seq<Result<(), Seq<char>>>)
    requires
        0 < results.len(),
        failures + results.len() <= 60,
        forall|i: int| 0 <= i < results.len() ==> (#[trigger] results[i]) is Err,
    ensures
        failures + results.len() < 60 ==> dialled(failures, results) is Retry,
        failures + results.len() == 60 ==> dialled(failures, results)
            == DialModel::GiveUp("Failed to connect after 60 attempts: "@ + results.last()->Err_0),
    decreases results.len(),
{
    assert(results[0] is Err);
    if results.len() > 1 {
        let rest = results.skip(1);
        assert forall|i: int| 0 <= i < rest.len() implies (#[trigger] rest[i]) is Err by {
            assert(rest[i] == results[i + 1]);
        }
        assert(rest.last() == results.last());
        dialling_gives_up_after_sixty((failures + 1) as u32, rest);
    }
}

/// An attempt that succeeds before the engine is given up ends the dialling.
pub proof fn dialling_stops_at_success(failures: u32, results: Seq<Result<(), Seq<char>>>)
    requires
        0 < results.len(),
        failures + results.len() <= 60,
        forall|i: int| 0 <= i < results.len() - 1 ==> (#[trigger] results[i]) is Err,
        results.last() is Ok,
    ensures
        dialled(failures, results) == DialModel::Connected,
    decreases results.len(),
{
    if results.len() > 1 {
        assert(results[0] is Err);
        let rest = results.skip(1);
        assert forall|i: int| 0 <= i < rest.len() - 1 implies (#[trigger] rest[i]) is Err by {
            assert(rest[i] == results[i + 1]);
        }
        assert(rest.last() == results.last());
        dialling_stops_at_success((failures + 1) as u32, rest);
    }
}

} // verus!
