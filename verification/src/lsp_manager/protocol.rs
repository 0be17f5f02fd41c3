//! LSP base-protocol framing and message routing decisions.
use vstd::prelude::*;

use crate::lsp_manager::types::{server_label, LspFailure, LspFailureKind, ServerKind};
use crate::text::{
    ascii_lower, ascii_lower_exec, chars_of, decimal, eq_str, find_char, find_char_exec, push_decimal,
    push_str, slice_chars, string_from_chars, trim, trim_chars,
};

verus! {

/// The header that frames a message body of `len` bytes.
pub fn content_length_header(len: usize) -> (r: String)
    ensures
        r@ == "Content-Length: "@ + decimal(len as nat) + "\r\n\r\n"@,
{
    let mut out: Vec<char> = Vec::new();
    push_str(&mut out, "Content-Length: ");
    push_decimal(&mut out, len as u64);
    push_str(&mut out, "\r\n\r\n");
    string_from_chars(&out)
}

// ---------------------------------------------------------------------------
// Unsigned decimal parsing (`str::parse::<usize>`)
// ---------------------------------------------------------------------------

/// Why a string is not a `usize`, as `ParseIntError` tells it.
#[derive(Clone, Copy, Debug, PartialEq, Eq, Structural)]
pub enum ParseIntErrorKind {
    Empty,
    InvalidDigit,
    PosOverflow,
}

impl ParseIntErrorKind {
    /// The text of the error, as `ParseIntError` displays it.
    pub fn message(self) -> (r: &'static str)
        ensures
            self == ParseIntErrorKind::Empty ==> r@ == "cannot parse integer from empty string"@,
            self == ParseIntErrorKind::InvalidDigit ==> r@ == "invalid digit found in string"@,
            self == ParseIntErrorKind::PosOverflow ==> r@ == "number too large to fit in target type"@,
    {
        match self {
            ParseIntErrorKind::Empty => "cannot parse integer from empty string",
            ParseIntErrorKind::InvalidDigit => "invalid digit found in string",
            ParseIntErrorKind::PosOverflow => "number too large to fit in target type",
        }
    }
}

pub open spec fn is_digit(c: char) -> bool {
    '0' <= c && c <= '9'
}

/// The value of a string of decimal digits.
pub open spec fn digits_value(s: Seq<char>) -> nat
    decreases s.len(),
{
    if s.len() == 0 {
        0
    } else {
        digits_value(s.drop_last()) * 10 + ((s.last() as int - '0' as int) as nat)
    }
}

/// The digits of `s` after an optional leading `+`.
pub open spec fn unsigned_digits(s: Seq<char>) -> Seq<char> {
    if s.len() > 0 && s[0] == '+' {
        s.drop_first()
    } else {
        s
    }
}

/// `str::parse::<usize>`: an optional `+` and at least one decimal digit,
/// whose value fits.
pub open spec fn parse_usize_spec(s: Seq<char>) -> Result<usize, ParseIntErrorKind> {
    let d = unsigned_digits(s);
    if s.len() == 0 || (s.len() == 1 && s[0] == '+') {
        if s.len() == 0 {
            Err(ParseIntErrorKind::Empty)
        } else {
            Err(ParseIntErrorKind::InvalidDigit)
        }
    } else if exists|i: int| 0 <= i < d.len() && !is_digit(#[trigger] d[i]) {
        Err(ParseIntErrorKind::InvalidDigit)
    } else if digits_value(d) > usize::MAX {
        Err(ParseIntErrorKind::PosOverflow)
    } else {
        Ok(digits_value(d) as usize)
    }
}

proof fn lemma_digits_value_prefix(s: Seq<char>, i: int)
    requires
        0 <= i <= s.len(),
        forall|k: int| 0 <= k < s.len() ==> is_digit(#[trigger] s[k]),
    ensures
        digits_value(s.take(i)) <= digits_value(s),
    decreases s.len() - i,
{
    if i < s.len() {
        lemma_digits_value_prefix(s, i + 1);
        assert(s.take(i + 1).drop_last() =~= s.take(i));
    } else {
        assert(s.take(i) =~= s);
    }
}

/// `str::parse::<usize>`.
pub fn parse_usize(s: &str) -> (r: Result<usize, ParseIntErrorKind>)
    ensures
        r == parse_usize_spec(s@),
{
    let v = chars_of(s);
    if v.len() == 0 {
        return Err(ParseIntErrorKind::Empty);
    }
    let start: usize = if v[0] == '+' {
        1
    } else {
        0
    };
    if start == 1 && v.len() == 1 {
        return Err(ParseIntErrorKind::InvalidDigit);
    }
    let ghost d = unsigned_digits(s@);
    assert(d =~= v@.skip(start as int));
    // Every character must be a digit, checked before the value.
    let mut i: usize = start;
    while i < v.len()
        invariant
            start <= i <= v.len(),
            v@ == s@,
            v@.len() > 0,
            start == (if v@[0] == '+' { 1usize } else { 0usize }),
            !(start == 1 && v@.len() == 1),
            d == unsigned_digits(s@),
            d == v@.skip(start as int),
            forall|k: int| start <= k < i ==> is_digit(#[trigger] v@[k]),
        decreases v.len() - i,
    {
        if !('0' <= v[i] && v[i] <= '9') {
            assert(d[i - start] == v@[i as int]);
            assert(!is_digit(d[i - start]));
            assert(exists|k: int| 0 <= k < d.len() && !is_digit(#[trigger] d[k]));
            assert(!(s@.len() == 0 || (s@.len() == 1 && s@[0] == '+')));
            assert(d == unsigned_digits(s@));
            assert(parse_usize_spec(s@) == Err::<usize, ParseIntErrorKind>(ParseIntErrorKind::InvalidDigit));
            return Err(ParseIntErrorKind::InvalidDigit);
        }
        i += 1;
    }
    assert forall|k: int| 0 <= k < d.len() implies is_digit(#[trigger] d[k]) by {
        assert(d[k] == v@[k + start]);
    }
    let mut value: usize = 0;
    let mut j: usize = start;
    while j < v.len()
        invariant
            start <= j <= v.len(),
            v@ == s@,
            v@.len() > 0,
            start == (if v@[0] == '+' { 1usize } else { 0usize }),
            !(start == 1 && v@.len() == 1),
            d == unsigned_digits(s@),
            d == v@.skip(start as int),
            forall|k: int| 0 <= k < d.len() ==> is_digit(#[trigger] d[k]),
            value == digits_value(d.take(j - start)),
        decreases v.len() - j,
    {
        let ghost t = d.take(j + 1 - start);
        assert(t.drop_last() =~= d.take(j - start));
        assert(t.last() == v@[j as int]);
        let digit = (v[j] as u32 - '0' as u32) as usize;
        if value > (usize::MAX - digit) / 10 {
            proof {
                lemma_digits_value_prefix(d, j + 1 - start);
                assert(digits_value(t) == digits_value(t.drop_last()) * 10 + ((t.last() as int - '0' as int) as nat));
                assert(digits_value(t) == value * 10 + digit);
                assert(value * 10 + digit > usize::MAX) by (nonlinear_arith)
                    requires
                        value > (usize::MAX - digit) / 10,
                        digit <= 9,
                ;
            }
            return Err(ParseIntErrorKind::PosOverflow);
        }
        assert(value * 10 + digit <= usize::MAX) by (nonlinear_arith)
            requires
                value <= (usize::MAX - digit) / 10,
                digit <= 9,
        ;
        value = value * 10 + digit;
        j += 1;
    }
    assert(d.take(d.len() as int) =~= d);
    Ok(value)
}

// ---------------------------------------------------------------------------
// Header reading
// ---------------------------------------------------------------------------

/// `line` without its trailing `\r` and `\n` characters.
pub open spec fn trim_line_end(line: Seq<char>) -> Seq<char>
    decreases line.len(),
{
    if line.len() > 0 && (line.last() == '\r' || line.last() == '\n') {
        trim_line_end(line.drop_last())
    } else {
        line
    }
}

/// What a header line says.
#[derive(Debug, PartialEq, Eq)]
pub enum HeaderLine {
    /// The blank line that ends the header.
    End,
    /// A `Content-Length` field (name compared case-insensitively) and its
    /// parsed, trimmed value.
    ContentLength(Result<usize, ParseIntErrorKind>),
    /// Any other line.
    Other,
}

pub open spec fn header_line_spec(line: Seq<char>) -> HeaderLine {
    let t = trim_line_end(line);
    let colon = find_char(t, ':', 0);
    if t.len() == 0 {
        HeaderLine::End
    } else if colon < t.len() && ascii_lower(t.take(colon)) == "content-length"@ {
        HeaderLine::ContentLength(parse_usize_spec(trim(t.skip(colon + 1))))
    } else {
        HeaderLine::Other
    }
}

/// Classifies one header line, as read with its line ending.
pub fn header_line(line: &str) -> (r: HeaderLine)
    ensures
        r == header_line_spec(line@),
{
    let v = chars_of(line);
    let mut n: usize = v.len();
    assert(v@.take(n as int) =~= v@);
    while n > 0 && (v[n - 1] == '\r' || v[n - 1] == '\n')
        invariant
            n <= v.len(),
            v@ == line@,
            trim_line_end(line@) == trim_line_end(v@.take(n as int)),
        decreases n,
    {
        assert(v@.take(n as int).drop_last() =~= v@.take(n - 1));
        n -= 1;
    }
    let t = slice_chars(&v, 0, n);
    assert(t@ =~= v@.take(n as int));
    assert(trim_line_end(t@) == t@);
    if t.len() == 0 {
        return HeaderLine::End;
    }
    let colon = find_char_exec(&t, ':', 0);
    proof {
        crate::text::lemma_find_char_bounds(t@, ':', 0);
    }
    if colon < t.len() {
        let name = slice_chars(&t, 0, colon);
        assert(name@ =~= t@.take(colon as int));
        let lower = ascii_lower_exec(&name);
        if eq_str(&lower, "content-length") {
            let value = slice_chars(&t, colon + 1, t.len());
            assert(value@ =~= t@.skip(colon + 1));
            let trimmed = trim_chars(&value);
            let s = string_from_chars(&trimmed);
            return HeaderLine::ContentLength(parse_usize(s.as_str()));
        }
    }
    HeaderLine::Other
}

/// What to do after a header line.
#[derive(Clone, Debug)]
pub enum HeaderStep {
    /// Read another line.
    Continue,
    /// The header is complete: read a body of this many bytes.
    Body(usize),
    /// The stream ended before a message began.
    EndOfStream,
    Fail(LspFailure),
}

/// The state of reading one message header.
pub struct HeaderReader {
    pub content_length: Option<usize>,
}

impl HeaderReader {
    pub fn new() -> (r: Self)
        ensures
            r.content_length is None,
    {
        HeaderReader { content_length: None }
    }

    /// Takes the next header line (`None` at the end of the stream). The
    /// last `Content-Length` wins; the blank line ends the header, which
    /// must have had one; an unparsable length fails.
    pub fn feed(&mut self, line: Option<&str>) -> (r: HeaderStep)
        ensures
            match line {
                None => r is EndOfStream && final(self).content_length == old(self).content_length,
                Some(l) => match header_line_spec(l@) {
                    HeaderLine::End => match old(self).content_length {
                        Some(n) => r matches HeaderStep::Body(m) && m == n,
                        None => r matches HeaderStep::Fail(f) && f.kind == LspFailureKind::ProtocolError
                            && f.message@ == "LSP message omitted Content-Length"@ && f.retryable,
                    },
                    HeaderLine::ContentLength(Ok(n)) => r is Continue && final(self).content_length
                        == Some(n),
                    HeaderLine::ContentLength(Err(e)) => r matches HeaderStep::Fail(f) && f.kind
                        == LspFailureKind::ProtocolError && f.retryable && f.message@
                        == "invalid LSP Content-Length: "@ + parse_error_text(e),
                    HeaderLine::Other => r is Continue && final(self).content_length == old(
                        self,
                    ).content_length,
                },
            },
    {
        let l = match line {
            None => {
                return HeaderStep::EndOfStream;
            },
            Some(l) => l,
        };
        match header_line(l) {
            HeaderLine::End => match self.content_length {
                Some(n) => HeaderStep::Body(n),
                None => HeaderStep::Fail(
                    LspFailure::new(
                        LspFailureKind::ProtocolError,
                        "LSP message omitted Content-Length".to_owned(),
                        true,
                    ),
                ),
            },
            HeaderLine::ContentLength(Ok(n)) => {
                self.content_length = Some(n);
                HeaderStep::Continue
            },
            HeaderLine::ContentLength(Err(e)) => {
                let mut out: Vec<char> = Vec::new();
                push_str(&mut out, "invalid LSP Content-Length: ");
                push_str(&mut out, e.message());
                HeaderStep::Fail(LspFailure::new(LspFailureKind::ProtocolError, string_from_chars(&out), true))
            },
            HeaderLine::Other => HeaderStep::Continue,
        }
    }
}

pub open spec fn parse_error_text(e: ParseIntErrorKind) -> Seq<char> {
    match e {
        ParseIntErrorKind::Empty => "cannot parse integer from empty string"@,
        ParseIntErrorKind::InvalidDigit => "invalid digit found in string"@,
        ParseIntErrorKind::PosOverflow => "number too large to fit in target type"@,
    }
}

// ---------------------------------------------------------------------------
// Routing
// ---------------------------------------------------------------------------

/// Where an incoming JSON-RPC message goes.
#[derive(Clone, Copy, Debug, PartialEq, Eq, Structural)]
pub enum Route {
    /// A response to one of our requests.
    Response,
    /// A request from the server, to answer.
    ServerRequest,
    /// A notification from the server.
    Notification,
    /// Neither method nor id: dropped.
    Ignore,
}

/// Routes a message by whether it has a `method` and an `id`.
pub fn route(has_method: bool, has_id: bool) -> (r: Route)
    ensures
        has_id && !has_method ==> r == Route::Response,
        has_id && has_method ==> r == Route::ServerRequest,
        !has_id && has_method ==> r == Route::Notification,
        !has_id && !has_method ==> r == Route::Ignore,
{
    if has_id && !has_method {
        Route::Response
    } else if has_method && has_id {
        Route::ServerRequest
    } else if has_method {
        Route::Notification
    } else {
        Route::Ignore
    }
}

/// How to answer a request from the server.
#[derive(Clone, Debug, PartialEq, Eq)]
pub enum ServerReply {
    /// `result: null`.
    Null,
    /// `result`: one `null` per requested configuration item.
    NullPerItem,
    /// `result`: the workspace folder.
    WorkspaceFolders,
    /// An error with this code and message.
    Unsupported { code: i64, message: String },
}

/// Which answer a server request for `method` gets: 0 for `null`, 1 for
/// one `null` per item, 2 for the workspace folders, 3 for unsupported.
pub open spec fn reply_kind(method: Seq<char>) -> int {
    if method == "window/workDoneProgress/create"@ || method == "client/registerCapability"@
        || method == "client/unregisterCapability"@ || method == "workspace/diagnostic/refresh"@ {
        0
    } else if method == "workspace/configuration"@ {
        1
    } else if method == "workspace/workspaceFolders"@ {
        2
    } else {
        3
    }
}

/// The answer to a server request for `method`.
pub fn server_reply(method: &str) -> (r: ServerReply)
    ensures
        reply_kind(method@) == 0 ==> r == ServerReply::Null,
        reply_kind(method@) == 1 ==> r == ServerReply::NullPerItem,
        reply_kind(method@) == 2 ==> r == ServerReply::WorkspaceFolders,
        reply_kind(method@) == 3 ==> (r matches ServerReply::Unsupported { code, message } && code
            == -32601 && message@ == "unsupported LSP server request: "@ + method@),
{
    let m = chars_of(method);
    if eq_str(&m, "window/workDoneProgress/create") || eq_str(&m, "client/registerCapability")
        || eq_str(&m, "client/unregisterCapability") || eq_str(&m, "workspace/diagnostic/refresh") {
        ServerReply::Null
    } else if eq_str(&m, "workspace/configuration") {
        ServerReply::NullPerItem
    } else if eq_str(&m, "workspace/workspaceFolders") {
        ServerReply::WorkspaceFolders
    } else {
        let mut out: Vec<char> = Vec::new();
        push_str(&mut out, "unsupported LSP server request: ");
        push_str(&mut out, method);
        ServerReply::Unsupported { code: -32601, message: string_from_chars(&out) }
    }
}

/// The failure of a body cut short by the server closing its output.
pub fn truncated_body_failure(kind: ServerKind, content_length: usize, error: &str) -> (r: LspFailure)
    ensures
        r.kind == LspFailureKind::ProtocolError,
        r.retryable,
        r.server matches Some(s) && s@ == server_label(kind),
        r.message@ == server_label(kind) + " closed stdout while reading a "@ + decimal(
            content_length as nat,
        ) + "-byte LSP message: "@ + error@,
{
    let mut out: Vec<char> = Vec::new();
    push_str(&mut out, kind.label());
    push_str(&mut out, " closed stdout while reading a ");
    push_decimal(&mut out, content_length as u64);
    push_str(&mut out, "-byte LSP message: ");
    push_str(&mut out, error);
    LspFailure::new(LspFailureKind::ProtocolError, string_from_chars(&out), true).for_server(kind)
}

/// `i` in decimal, with a minus sign when negative.
pub open spec fn signed_text(i: int) -> Seq<char> {
    if i < 0 {
        seq!['-'] + decimal((-i) as nat)
    } else {
        decimal(i as nat)
    }
}

fn push_signed_i64(out: &mut Vec<char>, i: i64)
    ensures
        final(out)@ == old(out)@ + signed_text(i as int),
{
    if i < 0 {
        out.push('-');
        let m: u64 = ((-(i + 1)) as u64) + 1;
        push_decimal(out, m);
        assert(out@ =~= old(out)@ + signed_text(i as int));
    } else {
        push_decimal(out, i as u64);
    }
}

/// The failure of a request the server answered with an error.
pub fn response_error_failure(kind: ServerKind, id: u64, code: i64, message: &str) -> (r: LspFailure)
    ensures
        r.kind == LspFailureKind::ProtocolError,
        r.retryable,
        r.server matches Some(s) && s@ == server_label(kind),
        r.message@ == server_label(kind) + " response id "@ + decimal(id as nat) + " failed with code "@
            + signed_text(code as int) + ": "@ + message@,
{
    let mut out: Vec<char> = Vec::new();
    push_str(&mut out, kind.label());
    push_str(&mut out, " response id ");
    push_decimal(&mut out, id);
    push_str(&mut out, " failed with code ");
    push_signed_i64(&mut out, code);
    push_str(&mut out, ": ");
    push_str(&mut out, message);
    LspFailure::new(LspFailureKind::ProtocolError, string_from_chars(&out), true).for_server(kind)
}

/// The failure of a request whose response channel closed.
pub fn response_channel_closed_failure(kind: ServerKind, id: u64, error: &str) -> (r: LspFailure)
    ensures
        r.kind == LspFailureKind::ProtocolError,
        r.retryable,
        r.server matches Some(s) && s@ == server_label(kind),
        r.message@ == server_label(kind) + " response channel for request "@ + decimal(id as nat)
            + " closed: "@ + error@,
{
    let mut out: Vec<char> = Vec::new();
    push_str(&mut out, kind.label());
    push_str(&mut out, " response channel for request ");
    push_decimal(&mut out, id);
    push_str(&mut out, " closed: ");
    push_str(&mut out, error);
    LspFailure::new(LspFailureKind::ProtocolError, string_from_chars(&out), true).for_server(kind)
}

/// The failure of a request whose response did not come in time;
/// `waited` is how long was waited, as written for the user.
pub fn response_timeout_failure(kind: ServerKind, timeout_kind: LspFailureKind, id: u64, waited: &str) -> (r:
    LspFailure)
    ensures
        r.kind == timeout_kind,
        r.retryable,
        r.server matches Some(s) && s@ == server_label(kind),
        r.message@ == server_label(kind) + " timed out waiting "@ + waited@ + " for LSP response id "@ + decimal(
            id as nat,
        ),
{
    let mut out: Vec<char> = Vec::new();
    push_str(&mut out, kind.label());
    push_str(&mut out, " timed out waiting ");
    push_str(&mut out, waited);
    push_str(&mut out, " for LSP response id ");
    push_decimal(&mut out, id);
    LspFailure::new(timeout_kind, string_from_chars(&out), true).for_server(kind)
}

/// The failure of a request when the observer of the server's exit closed.
pub fn exit_observer_closed_failure(kind: ServerKind) -> (r: LspFailure)
    ensures
        r.kind == LspFailureKind::ProtocolError,
        r.retryable,
        r.server matches Some(s) && s@ == server_label(kind),
        r.message@ == server_label(kind) + " exit observer closed"@,
{
    let mut out: Vec<char> = Vec::new();
    push_str(&mut out, kind.label());
    push_str(&mut out, " exit observer closed");
    LspFailure::new(LspFailureKind::ProtocolError, string_from_chars(&out), true).for_server(kind)
}

} // verus!
