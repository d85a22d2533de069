//! One command round trip: framing the request, reading the response, and telling a
//! success from an error that the service reported.
use vstd::prelude::*;

use crate::error::{GencmdCmdError, GencmdErrorResponse, ResponseFormatError};
use crate::global::{nul_index, GlobalInstance, Host, TransportCall};
use crate::response::{
    begins_with, digit_char, i32_field, lemma_int_field_round_trip, lemma_str_field_round_trip,
    parse_field_simple, render_field, render_int, starts_with, str_field,
};
use crate::transport::{Transport, GENCMDSERVICE_MSGFIFO_SIZE, GENCMD_MAX_LENGTH};
use vstd::string::StringSliceAdditionalSpecFns;
use vstd::utf8::{decode_utf8, valid_utf8};

verus! {

/// Relies on `std::str::from_utf8`: the bytes decode exactly when they are valid UTF-8, and then
/// to the characters that they encode.
#[verifier::external_body]
fn str_from_utf8<'a>(bytes: &'a [u8]) -> (r: Result<&'a str, std::str::Utf8Error>)
    ensures
        match r {
            Ok(s) => valid_utf8(bytes@) && s@ == decode_utf8(bytes@),
            Err(_) => !valid_utf8(bytes@),
        },
{
    std::str::from_utf8(bytes)
}

/// The code of error response `s`, where both its `error` and its `error_msg` field read.
pub open spec fn error_code(s: Seq<char>) -> Option<int> {
    match i32_field(s, "error"@) {
        None => None,
        Some((code, rest)) => match str_field(rest, "error_msg"@) {
            None => None,
            Some(_) => Some(code),
        },
    }
}

/// The known error that the service reports under `code`.
pub open spec fn known_error(code: int) -> Option<GencmdErrorResponse> {
    if code == 1 {
        Some(GencmdErrorResponse::CommandNotRegistered)
    } else if code == 2 {
        Some(GencmdErrorResponse::InvalidArguments)
    } else {
        None
    }
}

/// Whether `r` is what reading the error response `s` gives.
pub open spec fn error_parsed(s: Seq<char>, r: Result<GencmdErrorResponse, GencmdCmdError>) -> bool {
    match error_code(s) {
        Some(c) => match known_error(c) {
            Some(e) => r == Ok::<GencmdErrorResponse, GencmdCmdError>(e),
            None => r == Err::<GencmdErrorResponse, GencmdCmdError>(
                GencmdCmdError::InvalidResponseFormat(ResponseFormatError::InvalidCode(c as i32)),
            ),
        },
        None => r matches Err(GencmdCmdError::InvalidResponseFormat(_)),
    }
}

/// Whether `s` is an error response: one that begins with the field `error=`.
pub open spec fn is_error_response(s: Seq<char>) -> bool {
    begins_with(s, "error="@)
}

/// Whether `e` is the error that the error response `s` reports.
pub open spec fn reported_error(s: Seq<char>, e: GencmdCmdError) -> bool {
    match error_code(s) {
        Some(c) => match known_error(c) {
            Some(k) => e == GencmdCmdError::ErrorResponse(k),
            None => e == GencmdCmdError::InvalidResponseFormat(
                ResponseFormatError::InvalidCode(c as i32),
            ),
        },
        None => e is InvalidResponseFormat,
    }
}

/// Whether `r` is what classifying the response text `s` gives: the text itself for a success,
/// else the error that it reports.
pub open spec fn classified<'a>(s: Seq<char>, r: Result<&'a str, GencmdCmdError>) -> bool {
    if is_error_response(s) {
        r is Err && reported_error(s, r->Err_0)
    } else {
        r is Ok && r->Ok_0@ == s
    }
}

/// How a round trip for a request frame ended, as far as the library can tell.
pub enum Exchange {
    /// The request was not sent: the command is too long.
    TooLong,
    /// The send failed.
    SendFailed,
    /// The read of the response failed.
    ReadFailed,
    /// The response is not valid UTF-8.
    NotUtf8,
    /// The response, decoded.
    Text(Seq<char>),
}

/// How the round trip for `command` ended, given the calls that it made on the transport and
/// the response buffer after it; none where the calls are not those of a round trip.
pub open spec fn exchange_outcome(command: Seq<u8>, made: Seq<TransportCall>, buffer: Seq<u8>) -> Option<
    Exchange,
> {
    let frame = command.push(0u8);
    if command.len() >= GENCMD_MAX_LENGTH {
        if made.len() == 0 {
            Some(Exchange::TooLong)
        } else {
            None
        }
    } else if made.len() == 1 && made[0] is GencmdSend && made[0]->GencmdSend_0 == frame
        && made[0]->GencmdSend_1 != 0 {
        Some(Exchange::SendFailed)
    } else if made.len() == 2 && made[0] == TransportCall::GencmdSend(frame, 0)
        && made[1] is GencmdReadResponse {
        if made[1]->GencmdReadResponse_0 != 0 {
            Some(Exchange::ReadFailed)
        } else {
            let bytes = buffer.take(nul_index(buffer) as int);
            if valid_utf8(bytes) {
                Some(Exchange::Text(decode_utf8(bytes)))
            } else {
                Some(Exchange::NotUtf8)
            }
        }
    } else {
        None
    }
}

/// Whether the round trip that ended as `ex` gave a success response.
pub open spec fn exchange_succeeded(ex: Exchange) -> bool {
    ex is Text && !is_error_response(ex->Text_0)
}

/// Whether `e` is the error with which the round trip that ended as `ex` fails.
pub open spec fn exchange_error(ex: Exchange, e: GencmdCmdError) -> bool {
    match ex {
        Exchange::TooLong => e is CommandTooLong,
        Exchange::SendFailed => e is Send,
        Exchange::ReadFailed => e is Read,
        Exchange::NotUtf8 => e is Utf8,
        Exchange::Text(s) => is_error_response(s) && reported_error(s, e),
    }
}

/// A command of the service with a known response format.
pub trait Command<'a> {
    /// What the response holds.
    type Response;

    /// The command as sent.
    fn command_str() -> (r: &'static str)
        ensures
            r@ == Self::command_text(),
    ;

    /// The text of the command.
    spec fn command_text() -> Seq<char>;

    /// Whether `r` is what parsing the success response `s` gives.
    spec fn parsed(s: Seq<char>, r: Result<Self::Response, GencmdCmdError>) -> bool;

    /// Reads the fields of a success response.
    fn parse_response(response: &'a str) -> (r: Result<Self::Response, GencmdCmdError>)
        ensures
            Self::parsed(response@, r),
    ;
}

/// Whether `r` is the result of sending `command`, given the calls that its round trip made on
/// the transport and the response buffer after it.
pub open spec fn raw_result<'a>(
    command: Seq<u8>,
    made: Seq<TransportCall>,
    buffer: Seq<u8>,
    r: Result<&'a str, GencmdCmdError>,
) -> bool {
    let ex = exchange_outcome(command, made, buffer);
    &&& ex is Some
    &&& if exchange_succeeded(ex->Some_0) {
        r is Ok && r->Ok_0@ == ex->Some_0->Text_0
    } else {
        r is Err && exchange_error(ex->Some_0, r->Err_0)
    }
}

/// Whether `r` is the result of command `C`, given the calls that its round trip made on the
/// transport and the response buffer after it.
pub open spec fn command_result<'a, C: Command<'a>>(
    made: Seq<TransportCall>,
    buffer: Seq<u8>,
    r: Result<C::Response, GencmdCmdError>,
) -> bool {
    let ex = exchange_outcome(vstd::utf8::encode_utf8(C::command_text()), made, buffer);
    &&& ex is Some
    &&& if exchange_succeeded(ex->Some_0) {
        C::parsed(ex->Some_0->Text_0, r)
    } else {
        r is Err && exchange_error(ex->Some_0, r->Err_0)
    }
}

/// The buffer and framing of command round trips, for one caller at a time.
#[derive(Clone)]
pub struct Gencmd {
    buffer: Vec<u8>,
}

impl Gencmd {
    /// The response buffer.
    pub closed spec fn buffer(&self) -> Seq<u8> {
        self.buffer@
    }

    /// Whether the buffer has the size of a response.
    pub open spec fn wf(&self) -> bool {
        self.buffer().len() == GENCMDSERVICE_MSGFIFO_SIZE
    }

    /// A channel with an empty response buffer.
    pub fn new() -> (r: Self)
        ensures
            r.wf(),
    {
        Gencmd { buffer: vec![0u8; GENCMDSERVICE_MSGFIFO_SIZE] }
    }

    /// Sends `command` and reads its response, which is returned as text where it is a success.
    ///
    /// A command of `GENCMD_MAX_LENGTH` bytes or more fails with `CommandTooLong` and calls
    /// nothing. A response that is not valid UTF-8 fails with `Utf8`; one that begins with
    /// `error=` is read as the error that it reports.
    pub fn send_cmd_raw<'a, T: Transport>(
        &'a mut self,
        instance: &mut GlobalInstance,
        host: &mut Host<T>,
        command: &str,
    ) -> (r: Result<&'a str, GencmdCmdError>)
        requires
            old(self).wf(),
            !old(instance).is_deinitialized_spec(),
            !old(instance).awaiting_response(),
        ensures
            final(self).wf(),
            final(instance).handle() == old(instance).handle(),
            !final(instance).awaiting_response(),
            final(host).is_claimed() == old(host).is_claimed(),
            old(host).calls().len() <= final(host).calls().len(),
            final(host).calls().take(old(host).calls().len() as int) == old(host).calls(),
            command.spec_bytes().len() >= GENCMD_MAX_LENGTH ==> *final(host) == *old(host),
            raw_result(
                command.spec_bytes(),
                final(host).calls().skip(old(host).calls().len() as int),
                final(self).buffer(),
                r,
            ),
    {
        let ghost calls0 = host.calls();
        if command.as_bytes().len() >= GENCMD_MAX_LENGTH {
            assert(host.calls().skip(calls0.len() as int) =~= Seq::<TransportCall>::empty());
            assert(host.calls().take(calls0.len() as int) =~= calls0);
            return Err(GencmdCmdError::CommandTooLong);
        }
        let sent = instance.send_command(host, command);
        let ghost calls1 = host.calls();
        assert(calls1.take(calls0.len() as int) =~= calls0);
        if let Err(e) = sent {
            assert(calls1.skip(calls0.len() as int) =~= seq![calls1.last()]);
            return Err(e);
        }
        let received = instance.retrieve_response(host, &mut self.buffer);
        let ghost calls2 = host.calls();
        assert(calls2.take(calls0.len() as int) =~= calls0);
        assert(calls2.skip(calls0.len() as int) =~= seq![calls1.last(), calls2.last()]);
        let len = match received {
            Ok(len) => len,
            Err(e) => return Err(e),
        };
        let bytes = vstd::slice::slice_subrange(self.buffer.as_slice(), 0, len);
        assert(bytes@ =~= self.buffer@.take(len as int));
        let response = match str_from_utf8(bytes) {
            Ok(response) => response,
            Err(e) => return Err(GencmdCmdError::Utf8(e)),
        };
        classify_response(response)
    }

    /// Sends command `C` and parses its response.
    pub fn send_cmd<'a, C: Command<'a>, T: Transport>(
        &'a mut self,
        instance: &mut GlobalInstance,
        host: &mut Host<T>,
    ) -> (r: Result<C::Response, GencmdCmdError>)
        requires
            old(self).wf(),
            !old(instance).is_deinitialized_spec(),
            !old(instance).awaiting_response(),
        ensures
            final(self).wf(),
            final(instance).handle() == old(instance).handle(),
            !final(instance).awaiting_response(),
            final(host).is_claimed() == old(host).is_claimed(),
            old(host).calls().len() <= final(host).calls().len(),
            final(host).calls().take(old(host).calls().len() as int) == old(host).calls(),
            command_result::<C>(
                final(host).calls().skip(old(host).calls().len() as int),
                final(self).buffer(),
                r,
            ),
    {
        let command = C::command_str();
        match self.send_cmd_raw(instance, host, command) {
            Ok(response) => C::parse_response(response),
            Err(e) => Err(e),
        }
    }

    /// Reads an error response: its `error` code and its `error_msg` text, which both must be
    /// there. Code 1 and code 2 are the known errors; any other code is an invalid format.
    pub fn parse_error(response: &str) -> (r: Result<GencmdErrorResponse, GencmdCmdError>)
        ensures
            error_parsed(response@, r),
    {
        let (rest, code) = match parse_field_simple::<i32>(response, "error") {
            Ok(field) => field,
            Err(e) => {
                return Err(GencmdCmdError::from_invalid_format(ResponseFormatError::Int(e)));
            },
        };
        proof {
            if let Some(st) = crate::response::value_start(response@, "error"@, Seq::empty()) {
                crate::response::lemma_int_span_bounds(response@.skip(st), 0, 10);
            }
        }
        match parse_field_simple::<&str>(rest, "error_msg") {
            Ok(_) => {},
            Err(e) => {
                return Err(GencmdCmdError::from_invalid_format(ResponseFormatError::Str(e)));
            },
        }
        match code {
            1 => Ok(GencmdErrorResponse::CommandNotRegistered),
            2 => Ok(GencmdErrorResponse::InvalidArguments),
            _ => Err(GencmdCmdError::from_invalid_format(ResponseFormatError::InvalidCode(code))),
        }
    }
}

/// Tells a success response from an error response: returns the text of a success, or the error
/// that an error response reports.
pub fn classify_response<'a>(response: &'a str) -> (r: Result<&'a str, GencmdCmdError>)
    ensures
        classified(response@, r),
{
    if starts_with(response, "error=") {
        match Gencmd::parse_error(response) {
            Ok(e) => Err(GencmdCmdError::ErrorResponse(e)),
            Err(e) => Err(e),
        }
    } else {
        Ok(response)
    }
}

/// In every round trip, a request that was sent is followed by exactly one read of its response
/// and nothing else, and no second request goes out: the calls are none (too long), one failed
/// send, or one successful send and one read.
pub proof fn lemma_round_trip_pairs_send_and_read(
    command: Seq<u8>,
    made: Seq<TransportCall>,
    buffer: Seq<u8>,
)
    requires
        exchange_outcome(command, made, buffer) is Some,
    ensures
        made.len() <= 2,
        forall|i: int| 0 <= i < made.len() && #[trigger] made[i] is GencmdSend ==> i == 0,
        made.len() == 2 ==> made[0] == TransportCall::GencmdSend(command.push(0u8), 0)
            && made[1] is GencmdReadResponse,
        made.len() == 1 ==> made[0] is GencmdSend && made[0]->GencmdSend_1 != 0,
{
}

/// A response that begins with `error=1` followed by a quoted `error_msg` reports the error
/// `CommandNotRegistered`: it is an error response, and that is the one error that it reports,
/// so a round trip that reads it never succeeds.
pub proof fn lemma_code_one_is_command_not_registered(
    s: Seq<char>,
    msg: Seq<char>,
    rest: Seq<char>,
    e: GencmdCmdError,
)
    requires
        forall|j: int| 0 <= j < msg.len() ==> #[trigger] msg[j] != '"',
        s == "error=1 error_msg=\""@ + msg + seq!['"'] + rest,
    ensures
        is_error_response(s),
        !exchange_succeeded(Exchange::Text(s)),
        reported_error(s, e) <==> e == GencmdCmdError::ErrorResponse(
            GencmdErrorResponse::CommandNotRegistered,
        ),
{
    reveal_strlit("error=1 error_msg=\"");
    reveal_strlit("error");
    reveal_strlit("error_msg");
    reveal_strlit("error=");
    let quoted = seq!['"'] + msg + seq!['"'] + rest;
    let rest1 = seq![' '] + render_field("error_msg"@, Seq::empty(), quoted);
    assert(digit_char(1) == '1');
    assert(render_int(1) =~= seq!['1']);
    assert(s =~= Seq::<char>::empty() + render_field("error"@, Seq::empty(), render_int(1) + rest1));
    lemma_int_field_round_trip::<i32>(Seq::empty(), "error"@, Seq::empty(), 1, rest1);
    lemma_str_field_round_trip(seq![' '], "error_msg"@, msg, rest);
    assert(s.take(6) =~= "error="@);
}

} // verus!
