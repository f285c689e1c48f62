//! JSON-RPC framing: a header block with the body's length, then the body.

use vstd::prelude::*;
use vstd::slice::slice_subrange;
use vstd::string::*;
use vstd::utf8::*;

use crate::codec;
use crate::codec::{json_to_bytes, parse_json};
use crate::json::{Json, JsonView};
use crate::text;
use crate::text::{
    chars_of, count_until, decimal_string, equal_ignoring_ascii_case, number_of, trimmed,
    NumberError,
};

verus! {

/// The longest header block that a reader accepts, its blank line counted.
pub const MAX_HEADER_BYTES: usize = 8192;

/// The longest body that a reader or a writer accepts.
pub const MAX_MESSAGE_BYTES: usize = 16777216;

/// Why a message could not be framed, or a frame not be read. Where another error is the cause,
/// it is there, as its text or as what it is.
#[derive(Debug, PartialEq, Eq)]
pub enum ProtocolError {
    HeaderTooLarge,
    NonUtf8Header(String),
    MalformedHeaderLine,
    DuplicateContentLength,
    InvalidContentLength(NumberError),
    MissingContentLength,
    MessageTooLarge,
    InvalidJson(String),
    UnexpectedEof,
}

/// What a [`ProtocolError`] says.
pub enum ProtocolErrorView {
    HeaderTooLarge,
    NonUtf8Header(Seq<char>),
    MalformedHeaderLine,
    DuplicateContentLength,
    InvalidContentLength(NumberError),
    MissingContentLength,
    MessageTooLarge,
    InvalidJson(Seq<char>),
    UnexpectedEof,
}

impl View for ProtocolError {
    type V = ProtocolErrorView;

    open spec fn view(&self) -> ProtocolErrorView {
        match self {
            ProtocolError::HeaderTooLarge => ProtocolErrorView::HeaderTooLarge,
            ProtocolError::NonUtf8Header(cause) => ProtocolErrorView::NonUtf8Header(cause@),
            ProtocolError::MalformedHeaderLine => ProtocolErrorView::MalformedHeaderLine,
            ProtocolError::DuplicateContentLength => ProtocolErrorView::DuplicateContentLength,
            ProtocolError::InvalidContentLength(cause) => ProtocolErrorView::InvalidContentLength(
                *cause,
            ),
            ProtocolError::MissingContentLength => ProtocolErrorView::MissingContentLength,
            ProtocolError::MessageTooLarge => ProtocolErrorView::MessageTooLarge,
            ProtocolError::InvalidJson(cause) => ProtocolErrorView::InvalidJson(cause@),
            ProtocolError::UnexpectedEof => ProtocolErrorView::UnexpectedEof,
        }
    }
}

/// The text of an error.
pub open spec fn protocol_error_text(error: ProtocolErrorView) -> Seq<char> {
    match error {
        ProtocolErrorView::HeaderTooLarge => "LSP header exceeds 8192 bytes"@,
        ProtocolErrorView::NonUtf8Header(_) => "non-UTF-8 LSP header"@,
        ProtocolErrorView::MalformedHeaderLine => "malformed LSP header line"@,
        ProtocolErrorView::DuplicateContentLength => "duplicate Content-Length header"@,
        ProtocolErrorView::InvalidContentLength(_) => "invalid Content-Length"@,
        ProtocolErrorView::MissingContentLength => "missing Content-Length header"@,
        ProtocolErrorView::MessageTooLarge => "LSP message exceeds 16777216 bytes"@,
        ProtocolErrorView::InvalidJson(_) => "parsing LSP message"@,
        ProtocolErrorView::UnexpectedEof => "unexpected EOF in LSP frame"@,
    }
}

/// The text of the error that caused an error, if another did.
pub open spec fn protocol_error_cause(error: ProtocolErrorView) -> Option<Seq<char>> {
    match error {
        ProtocolErrorView::NonUtf8Header(cause) => Some(cause),
        ProtocolErrorView::InvalidContentLength(cause) => Some(text::number_error_text(cause)),
        ProtocolErrorView::InvalidJson(cause) => Some(cause),
        _ => None,
    }
}

impl ProtocolError {
    /// The text of the error.
    pub fn message(&self) -> (r: &'static str)
        ensures
            r@ == protocol_error_text(self@),
    {
        match self {
            ProtocolError::HeaderTooLarge => "LSP header exceeds 8192 bytes",
            ProtocolError::NonUtf8Header(_) => "non-UTF-8 LSP header",
            ProtocolError::MalformedHeaderLine => "malformed LSP header line",
            ProtocolError::DuplicateContentLength => "duplicate Content-Length header",
            ProtocolError::InvalidContentLength(_) => "invalid Content-Length",
            ProtocolError::MissingContentLength => "missing Content-Length header",
            ProtocolError::MessageTooLarge => "LSP message exceeds 16777216 bytes",
            ProtocolError::InvalidJson(_) => "parsing LSP message",
            ProtocolError::UnexpectedEof => "unexpected EOF in LSP frame",
        }
    }

    /// The text of the error that caused this one, if another did.
    pub fn cause(&self) -> (r: Option<&str>)
        ensures
            match r {
                Some(cause) => protocol_error_cause(self@) == Some(cause@),
                None => protocol_error_cause(self@) is None,
            },
    {
        match self {
            ProtocolError::NonUtf8Header(cause) => Some(cause.as_str()),
            ProtocolError::InvalidContentLength(cause) => Some(cause.message()),
            ProtocolError::InvalidJson(cause) => Some(cause.as_str()),
            _ => None,
        }
    }
}

/// `std::str::Utf8Error`, which says where bytes are not UTF-8.
#[verifier::external_type_specification]
#[verifier::external_body]
pub struct ExUtf8Error(std::str::Utf8Error);

/// The text that the `Display` of `std::str::Utf8Error` gives.
pub uninterp spec fn utf8_error_display(error: std::str::Utf8Error) -> Seq<char>;

/// The text of the error that `std::str::from_utf8` gives for bytes that are not UTF-8.
pub uninterp spec fn utf8_error_text(bytes: Seq<u8>) -> Seq<char>;

/// What one line of a header block says.
#[derive(Debug, Clone, Copy, PartialEq, Eq)]
pub enum HeaderLine {
    Blank,
    /// No colon parts a name from a value.
    Malformed,
    /// A `Content-Length` field, with its value where that is a number.
    Length(Result<usize, NumberError>),
    Other,
}

/// How far the bytes at hand go toward the next frame.
#[derive(Debug, PartialEq, Eq)]
pub enum FrameStatus {
    Incomplete,
    Invalid(ProtocolError),
    /// The body stands from `start` up to `end`, where the frame ends.
    Complete { start: usize, end: usize },
}

/// What a [`FrameStatus`] says.
pub enum FrameStatusView {
    Incomplete,
    Invalid(ProtocolErrorView),
    Complete { start: usize, end: usize },
}

impl View for FrameStatus {
    type V = FrameStatusView;

    open spec fn view(&self) -> FrameStatusView {
        match self {
            FrameStatus::Incomplete => FrameStatusView::Incomplete,
            FrameStatus::Invalid(error) => FrameStatusView::Invalid(error@),
            FrameStatus::Complete { start, end } => FrameStatusView::Complete {
                start: *start,
                end: *end,
            },
        }
    }
}

/// Whether the four bytes at `i` are the blank line that ends a header block.
pub open spec fn blank_line_at(bytes: Seq<u8>, i: int) -> bool {
    &&& 0 <= i
    &&& i + 4 <= bytes.len()
    &&& bytes[i] == 13
    &&& bytes[i + 1] == 10
    &&& bytes[i + 2] == 13
    &&& bytes[i + 3] == 10
}

/// Whether the first blank line ends just before `end`.
pub open spec fn is_header_end(bytes: Seq<u8>, end: int) -> bool {
    &&& blank_line_at(bytes, end - 4)
    &&& forall|i: int| 0 <= i < end - 4 ==> !blank_line_at(bytes, i)
}

/// Where the header block ends, if its blank line is there.
pub open spec fn header_end(bytes: Seq<u8>) -> Option<int> {
    if exists|end: int| is_header_end(bytes, end) {
        Some(choose|end: int| is_header_end(bytes, end))
    } else {
        None
    }
}

/// A line without the carriage return that belongs to its line ending.
pub open spec fn strip_carriage_return(line: Seq<char>) -> Seq<char> {
    if line.len() > 0 && line.last() == '\r' {
        line.drop_last()
    } else {
        line
    }
}

/// The lines of a text: a line ends at a line feed, or at a carriage return and a line feed.
pub open spec fn lines(text: Seq<char>) -> Seq<Seq<char>>
    decreases text.len(),
{
    let n = text::until(text, '\n');
    if text.len() == 0 {
        Seq::empty()
    } else if n >= text.len() {
        seq![text]
    } else {
        seq![strip_carriage_return(text.take(n as int))] + lines(text.skip(n as int + 1))
    }
}

/// What one line of a header block says.
pub open spec fn header_line(line: Seq<char>) -> HeaderLine {
    let colon = text::until(line, ':') as int;
    if line.len() == 0 {
        HeaderLine::Blank
    } else if colon >= line.len() {
        HeaderLine::Malformed
    } else if text::same_ignoring_ascii_case(line.take(colon), "Content-Length"@) {
        HeaderLine::Length(
            text::parse_number(text::trim(line.skip(colon + 1))),
        )
    } else {
        HeaderLine::Other
    }
}

/// The length that header lines give, where `found` is what the lines before them gave: the
/// first line that is wrong decides the error.
pub open spec fn scan_lines(
    header_lines: Seq<Seq<char>>,
    found: Option<usize>,
) -> Result<usize, ProtocolErrorView>
    decreases header_lines.len(),
{
    if header_lines.len() == 0 {
        match found {
            Some(length) => Ok(length),
            None => Err(ProtocolErrorView::MissingContentLength),
        }
    } else {
        match (header_line(header_lines[0]), found) {
            (HeaderLine::Blank, _) => scan_lines(header_lines.skip(1), found),
            (HeaderLine::Other, _) => scan_lines(header_lines.skip(1), found),
            (HeaderLine::Malformed, _) => Err(ProtocolErrorView::MalformedHeaderLine),
            (HeaderLine::Length(_), Some(_)) => Err(ProtocolErrorView::DuplicateContentLength),
            (HeaderLine::Length(Err(cause)), None) => Err(
                ProtocolErrorView::InvalidContentLength(cause),
            ),
            (HeaderLine::Length(Ok(length)), None) => scan_lines(
                header_lines.skip(1),
                Some(length),
            ),
        }
    }
}

/// The body length that a header block gives.
pub open spec fn content_length(header: Seq<u8>) -> Result<usize, ProtocolErrorView> {
    if valid_utf8(header) {
        scan_lines(lines(decode_utf8(header)), None)
    } else {
        Err(ProtocolErrorView::NonUtf8Header(utf8_error_text(header)))
    }
}

/// How far `bytes` go toward the next frame.
pub open spec fn frame_status(bytes: Seq<u8>) -> FrameStatusView {
    match header_end(bytes) {
        None => if bytes.len() > MAX_HEADER_BYTES {
            FrameStatusView::Invalid(ProtocolErrorView::HeaderTooLarge)
        } else {
            FrameStatusView::Incomplete
        },
        Some(start) => if start > MAX_HEADER_BYTES {
            FrameStatusView::Invalid(ProtocolErrorView::HeaderTooLarge)
        } else {
            match content_length(bytes.take(start)) {
                Err(error) => FrameStatusView::Invalid(error),
                Ok(length) => if length > MAX_MESSAGE_BYTES {
                    FrameStatusView::Invalid(ProtocolErrorView::MessageTooLarge)
                } else if bytes.len() < start + length {
                    FrameStatusView::Incomplete
                } else {
                    FrameStatusView::Complete { start: start as usize, end: (start + length) as usize }
                },
            }
        },
    }
}

/// The header block of a body of `length` bytes.
pub open spec fn header_text(length: nat) -> Seq<char> {
    "Content-Length: "@ + text::decimal(length) + "\r\n\r\n"@
}

/// A body with its header block.
pub open spec fn frame(body: Seq<u8>) -> Seq<u8> {
    encode_utf8(header_text(body.len())) + body
}

/// There is one first blank line at most.
pub proof fn lemma_header_end_is(bytes: Seq<u8>, end: int)
    requires
        is_header_end(bytes, end),
    ensures
        header_end(bytes) == Some(end),
{
    let other = choose|e: int| is_header_end(bytes, e);
    assert(is_header_end(bytes, other));
    if other < end {
        assert(!blank_line_at(bytes, other - 4));
    } else if end < other {
        assert(!blank_line_at(bytes, end - 4));
    }
}

/// The end of the header block in `buffer`: just behind the first blank line.
pub fn find_header_end(buffer: &[u8]) -> (r: Option<usize>)
    ensures
        match r {
            Some(end) => header_end(buffer@) == Some(end as int) && is_header_end(
                buffer@,
                end as int,
            ) && 4 <= end <= buffer@.len(),
            None => header_end(buffer@) is None,
        },
{
    let mut i: usize = 0;
    while i < buffer.len() && buffer.len() - i >= 4
        invariant
            i <= buffer@.len(),
            forall|j: int| 0 <= j < i ==> !blank_line_at(buffer@, j),
        decreases buffer@.len() - i,
    {
        if buffer[i] == 13 && buffer[i + 1] == 10 && buffer[i + 2] == 13 && buffer[i + 3] == 10 {
            proof {
                assert(is_header_end(buffer@, i + 4));
                lemma_header_end_is(buffer@, i + 4);
            }
            return Some(i + 4);
        }
        i = i + 1;
    }
    None
}

/// `std::str::from_utf8`: the text that `bytes` encode, if they are valid UTF-8, or an error
/// that the bytes decide.
#[verifier::external_body]
fn utf8_text(bytes: &[u8]) -> (r: Result<&str, std::str::Utf8Error>)
    ensures
        r is Ok <==> valid_utf8(bytes@),
        r matches Ok(text) ==> encode_utf8(text@) == bytes@,
        r matches Err(error) ==> utf8_error_display(error) == utf8_error_text(bytes@),
{
    std::str::from_utf8(bytes)
}

/// The `Display` of `std::str::Utf8Error`.
#[verifier::external_body]
fn utf8_error_to_string(error: &std::str::Utf8Error) -> (r: String)
    ensures
        r@ == utf8_error_display(*error),
{
    error.to_string()
}

/// Reads one line of a header block.
pub fn read_header_line(line: &[char]) -> (r: HeaderLine)
    ensures
        r == header_line(line@),
{
    if line.len() == 0 {
        return HeaderLine::Blank;
    }
    let colon: usize = count_until(line, ':');
    if colon >= line.len() {
        return HeaderLine::Malformed;
    }
    let name = slice_subrange(line, 0, colon);
    let value = slice_subrange(line, colon + 1, line.len());
    assert(name@ == line@.take(colon as int));
    assert(value@ == line@.skip(colon + 1));
    if equal_ignoring_ascii_case(name, chars_of("Content-Length").as_slice()) {
        HeaderLine::Length(number_of(trimmed(value)))
    } else {
        HeaderLine::Other
    }
}

/// Reads the body length out of a header block.
pub fn parse_content_length(header: &[u8]) -> (r: Result<usize, ProtocolError>)
    ensures
        match r {
            Ok(length) => content_length(header@) == Ok::<usize, ProtocolErrorView>(length),
            Err(error) => content_length(header@) == Err::<usize, ProtocolErrorView>(error@),
        },
{
    let text = match utf8_text(header) {
        Ok(text) => text,
        Err(error) => {
            return Err(ProtocolError::NonUtf8Header(utf8_error_to_string(&error)));
        },
    };
    proof {
        encode_utf8_decode_utf8(text@);
    }
    let characters = chars_of(text);
    let chars = characters.as_slice();
    let mut found: Option<usize> = None;
    let mut start: usize = 0;
    assert(chars@.skip(0) == chars@);
    while start < chars.len()
        invariant
            start <= chars@.len(),
            scan_lines(lines(chars@.skip(start as int)), found) == content_length(header@),
        decreases chars@.len() - start,
    {
        let rest = slice_subrange(chars, start, chars.len());
        assert(rest@ == chars@.skip(start as int));
        let n: usize = count_until(rest, '\n');
        let ghost tail = if n < rest@.len() {
            lines(rest@.skip(n + 1))
        } else {
            Seq::<Seq<char>>::empty()
        };
        let line = if n == rest.len() {
            rest
        } else if n > 0 && rest[n - 1] == '\r' {
            slice_subrange(rest, 0, n - 1)
        } else {
            slice_subrange(rest, 0, n)
        };
        proof {
            if n < rest@.len() {
                assert(strip_carriage_return(rest@.take(n as int)) == line@);
            }
            assert(lines(rest@) == seq![line@] + tail);
            assert(lines(rest@).skip(1) == tail);
        }
        match read_header_line(line) {
            HeaderLine::Blank => {},
            HeaderLine::Other => {},
            HeaderLine::Malformed => {
                return Err(ProtocolError::MalformedHeaderLine);
            },
            HeaderLine::Length(value) => {
                if found.is_some() {
                    return Err(ProtocolError::DuplicateContentLength);
                }
                match value {
                    Ok(length) => {
                        found = Some(length);
                    },
                    Err(cause) => {
                        return Err(ProtocolError::InvalidContentLength(cause));
                    },
                }
            },
        }
        if n == rest.len() {
            start = chars.len();
            assert(chars@.skip(start as int) == Seq::<char>::empty());
        } else {
            assert(rest@.skip(n + 1) == chars@.skip(start + n + 1));
            start = start + n + 1;
        }
    }
    assert(chars@.skip(start as int) == Seq::<char>::empty());
    match found {
        Some(length) => Ok(length),
        None => Err(ProtocolError::MissingContentLength),
    }
}

/// How far `buffer` goes toward the next frame.
pub fn inspect_frame(buffer: &[u8]) -> (r: FrameStatus)
    ensures
        r@ == frame_status(buffer@),
        r matches FrameStatus::Complete { start, end } ==> start <= end <= buffer@.len(),
{
    match find_header_end(buffer) {
        Some(start) => {
            if start > MAX_HEADER_BYTES {
                return FrameStatus::Invalid(ProtocolError::HeaderTooLarge);
            }
            let header = slice_subrange(buffer, 0, start);
            assert(header@ == buffer@.take(start as int));
            match parse_content_length(header) {
                Err(error) => FrameStatus::Invalid(error),
                Ok(length) => {
                    if length > MAX_MESSAGE_BYTES {
                        FrameStatus::Invalid(ProtocolError::MessageTooLarge)
                    } else if buffer.len() < start + length {
                        FrameStatus::Incomplete
                    } else {
                        FrameStatus::Complete { start, end: start + length }
                    }
                },
            }
        },
        None => {
            if buffer.len() > MAX_HEADER_BYTES {
                FrameStatus::Invalid(ProtocolError::HeaderTooLarge)
            } else {
                FrameStatus::Incomplete
            }
        },
    }
}

/// Puts the header block before a body, unless the body is too long.
pub fn frame_body(body: &[u8]) -> (r: Result<Vec<u8>, ProtocolError>)
    ensures
        body@.len() > MAX_MESSAGE_BYTES ==> r == Err::<Vec<u8>, ProtocolError>(
            ProtocolError::MessageTooLarge,
        ),
        body@.len() <= MAX_MESSAGE_BYTES ==> r is Ok && r->Ok_0@ == frame(body@),
{
    if body.len() > MAX_MESSAGE_BYTES {
        return Err(ProtocolError::MessageTooLarge);
    }
    let mut header = String::new();
    header.append("Content-Length: ");
    header.append(decimal_string(body.len() as u64).as_str());
    header.append("\r\n\r\n");
    assert(header@ == header_text(body@.len()));
    let mut out: Vec<u8> = Vec::new();
    out.extend_from_slice(header.as_str().as_bytes());
    out.extend_from_slice(body);
    assert(out@ == frame(body@));
    Ok(out)
}

/// Encodes one JSON-RPC message with its header block. A reader gives the message back, and
/// leaves what follows it, for every message that its JSON text gives back.
pub fn encode_message(value: &Json) -> (r: Result<Vec<u8>, ProtocolError>)
    ensures
        codec::json_bytes(value@).len() > MAX_MESSAGE_BYTES ==> r == Err::<Vec<u8>, ProtocolError>(
            ProtocolError::MessageTooLarge,
        ),
        codec::json_bytes(value@).len() <= MAX_MESSAGE_BYTES ==> r is Ok && r->Ok_0@ == frame(
            codec::json_bytes(value@),
        ),
        codec::reads_back(value@, codec::MAX_DEPTH as nat) ==> codec::reads_as(
            codec::json_bytes(value@),
            value@,
        ),
        codec::reads_back(value@, codec::MAX_DEPTH as nat) && r is Ok ==> forall|rest: Seq<u8>|
            #![trigger r->Ok_0@ + rest]
            next_step(r->Ok_0@ + rest) == Ok::<Option<JsonView>, ProtocolErrorView>(Some(value@))
                && buffer_after(r->Ok_0@ + rest) == rest,
{
    let body = json_to_bytes(value);
    let r = frame_body(body.as_slice());
    proof {
        if codec::reads_back(value@, codec::MAX_DEPTH as nat) && r is Ok {
            assert forall|rest: Seq<u8>| #![trigger r->Ok_0@ + rest]
                next_step(r->Ok_0@ + rest) == Ok::<Option<JsonView>, ProtocolErrorView>(Some(value@))
                    && buffer_after(r->Ok_0@ + rest) == rest by {
                law_frame_reads_back(body@, rest);
            }
        }
    }
    r
}

/// The next message of a byte stream of which `bytes` are at hand: nothing where more are
/// needed.
pub open spec fn next_step(bytes: Seq<u8>) -> Result<Option<JsonView>, ProtocolErrorView> {
    match frame_status(bytes) {
        FrameStatusView::Incomplete => Ok(None),
        FrameStatusView::Invalid(error) => Err(error),
        FrameStatusView::Complete { start, end } => match codec::parsed_json(
            bytes.subrange(start as int, end as int),
        ) {
            Ok(message) => Ok(Some(message)),
            Err(cause) => Err(ProtocolErrorView::InvalidJson(cause)),
        },
    }
}

/// The bytes that are left once the next message, if it is there, was taken.
pub open spec fn buffer_after(bytes: Seq<u8>) -> Seq<u8> {
    match (frame_status(bytes), next_step(bytes)) {
        (FrameStatusView::Complete { start, end }, Ok(Some(_))) => bytes.skip(end as int),
        _ => bytes,
    }
}

/// What a reader does next.
#[derive(Debug)]
pub enum ReadStep {
    /// A message is there.
    Message(Json),
    /// More bytes are needed.
    Read,
    /// The input ended between two messages.
    Closed,
}

/// Decodes framed messages from `reader`, a source of bytes, as the bytes come in.
///
/// Bytes stay in the buffer until the message that they belong to is taken, so that a read
/// which is given up cannot lose the place in the stream.
pub struct MessageReader<R> {
    reader: R,
    buffer: Vec<u8>,
}

impl<R> MessageReader<R> {
    /// The bytes that came in and belong to no message that was taken.
    pub closed spec fn buffered(self) -> Seq<u8> {
        self.buffer@
    }

    /// The source of bytes.
    pub closed spec fn source(self) -> R {
        self.reader
    }

    pub fn new(reader: R) -> (r: Self)
        ensures
            r.source() == reader,
            r.buffered() == Seq::<u8>::empty(),
    {
        MessageReader { reader, buffer: Vec::new() }
    }

    /// The source of bytes, to read from.
    pub fn reader_mut(&mut self) -> (r: &mut R)
        ensures
            *r == old(self).source(),
            final(self).source() == *final(r),
            final(self).buffered() == old(self).buffered(),
    {
        &mut self.reader
    }

    /// Takes a frame that ends at `end` off the buffer, if its body was `parsed`.
    pub fn take_frame(&mut self, end: usize, parsed: Result<Json, String>) -> (r: Result<
        ReadStep,
        ProtocolError,
    >)
        requires
            end <= old(self).buffered().len(),
        ensures
            final(self).source() == old(self).source(),
            match parsed {
                Ok(message) => {
                    &&& r == Ok::<ReadStep, ProtocolError>(ReadStep::Message(message))
                    &&& final(self).buffered() == old(self).buffered().skip(end as int)
                },
                Err(cause) => {
                    &&& r == Err::<ReadStep, ProtocolError>(ProtocolError::InvalidJson(cause))
                    &&& final(self).buffered() == old(self).buffered()
                },
            },
    {
        match parsed {
            Ok(message) => {
                let rest = self.buffer.split_off(end);
                self.buffer = rest;
                assert(self.buffer@ =~= old(self).buffer@.skip(end as int));
                Ok(ReadStep::Message(message))
            },
            Err(cause) => Err(ProtocolError::InvalidJson(cause)),
        }
    }

    /// Takes the next message, if the buffer holds all of it.
    pub fn advance(&mut self) -> (r: Result<ReadStep, ProtocolError>)
        ensures
            final(self).source() == old(self).source(),
            final(self).buffered() == buffer_after(old(self).buffered()),
            match r {
                Ok(ReadStep::Message(message)) => next_step(old(self).buffered()) == Ok::<
                    Option<JsonView>,
                    ProtocolErrorView,
                >(Some(message@)),
                Ok(ReadStep::Read) => next_step(old(self).buffered()) == Ok::<
                    Option<JsonView>,
                    ProtocolErrorView,
                >(None),
                Ok(ReadStep::Closed) => false,
                Err(error) => next_step(old(self).buffered()) == Err::<
                    Option<JsonView>,
                    ProtocolErrorView,
                >(error@),
            },
    {
        match inspect_frame(self.buffer.as_slice()) {
            FrameStatus::Incomplete => Ok(ReadStep::Read),
            FrameStatus::Invalid(error) => Err(error),
            FrameStatus::Complete { start, end } => {
                let parsed = parse_json(slice_subrange(self.buffer.as_slice(), start, end));
                self.take_frame(end, parsed)
            },
        }
    }

    /// Takes in what a read gave; no bytes mean that the input has ended.
    pub fn receive(&mut self, chunk: &[u8]) -> (r: Result<ReadStep, ProtocolError>)
        ensures
            final(self).source() == old(self).source(),
            chunk@.len() == 0 ==> {
                &&& final(self).buffered() == old(self).buffered()
                &&& r == if old(self).buffered().len() == 0 {
                    Ok::<ReadStep, ProtocolError>(ReadStep::Closed)
                } else {
                    Err::<ReadStep, ProtocolError>(ProtocolError::UnexpectedEof)
                }
            },
            chunk@.len() > 0 ==> {
                &&& final(self).buffered() == buffer_after(old(self).buffered() + chunk@)
                &&& match r {
                    Ok(ReadStep::Message(message)) => next_step(old(self).buffered() + chunk@)
                        == Ok::<Option<JsonView>, ProtocolErrorView>(Some(message@)),
                    Ok(ReadStep::Read) => next_step(old(self).buffered() + chunk@) == Ok::<
                        Option<JsonView>,
                        ProtocolErrorView,
                    >(None),
                    Ok(ReadStep::Closed) => false,
                    Err(error) => next_step(old(self).buffered() + chunk@) == Err::<
                        Option<JsonView>,
                        ProtocolErrorView,
                    >(error@),
                }
            },
    {
        if chunk.len() == 0 {
            if self.buffer.len() == 0 {
                return Ok(ReadStep::Closed);
            }
            return Err(ProtocolError::UnexpectedEof);
        }
        self.buffer.extend_from_slice(chunk);
        assert(self.buffer@ =~= old(self).buffer@ + chunk@);
        self.advance()
    }
}

/// Every message that can be taken from `bytes`, in order.
pub open spec fn messages(bytes: Seq<u8>) -> Seq<JsonView>
    decreases bytes.len(),
{
    match next_step(bytes) {
        Ok(Some(message)) => if buffer_after(bytes).len() < bytes.len() {
            seq![message] + messages(buffer_after(bytes))
        } else {
            seq![message]
        },
        _ => Seq::empty(),
    }
}

/// The bytes that are left once every message was taken.
pub open spec fn leftover(bytes: Seq<u8>) -> Seq<u8>
    decreases bytes.len(),
{
    match next_step(bytes) {
        Ok(Some(_)) => if buffer_after(bytes).len() < bytes.len() {
            leftover(buffer_after(bytes))
        } else {
            bytes
        },
        _ => bytes,
    }
}

/// Taking a message shortens the buffer.
proof fn lemma_messages_take_bytes(bytes: Seq<u8>)
    requires
        next_step(bytes) matches Ok(Some(_)),
    ensures
        buffer_after(bytes).len() < bytes.len(),
{
    let end = header_end(bytes)->Some_0;
    assert(is_header_end(bytes, end));
}

/// Bytes that follow change nothing once a frame is complete or known to be invalid. What a
/// reader makes of a stream therefore does not depend on how the stream was cut into reads.
pub proof fn law_later_bytes_change_nothing(bytes: Seq<u8>, more: Seq<u8>)
    requires
        frame_status(bytes) !is Incomplete,
    ensures
        frame_status(bytes + more) == frame_status(bytes),
{
    let all = bytes + more;
    match header_end(bytes) {
        Some(end) => {
            assert(is_header_end(bytes, end));
            assert forall|i: int| 0 <= i < end - 4 implies !blank_line_at(all, i) by {
                assert(!blank_line_at(bytes, i));
            }
            assert(is_header_end(all, end));
            lemma_header_end_is(all, end);
            assert(all.take(end) == bytes.take(end));
        },
        None => {
            if let Some(end) = header_end(all) {
                assert(is_header_end(all, end));
                if end <= bytes.len() {
                    assert(blank_line_at(bytes, end - 4));
                    assert forall|i: int| 0 <= i < end - 4 implies !blank_line_at(bytes, i) by {
                        assert(!blank_line_at(all, i));
                    }
                    assert(is_header_end(bytes, end));
                }
            }
        },
    }
}

/// What the pieces of a written header block say when they are read.
proof fn lemma_header_text(length: nat)
    requires
        length <= MAX_MESSAGE_BYTES,
    ensures
        is_ascii_chars(header_text(length)),
        4 < header_text(length).len() <= MAX_HEADER_BYTES,
        header_text(length).len() == 20 + text::decimal(length).len(),
        forall|i: int|
            0 <= i < header_text(length).len() - 4 ==> {
                &&& #[trigger] header_text(length)[i] != '\r'
                &&& header_text(length)[i] != '\n'
            },
        scan_lines(lines(header_text(length)), None) == Ok::<usize, ProtocolErrorView>(length as usize),
{
    let name = "Content-Length: "@;
    let digits = text::decimal(length);
    let header = header_text(length);
    let line = name + digits;
    reveal_strlit("Content-Length: ");
    reveal_strlit("Content-Length");
    reveal_strlit("\r\n\r\n");
    text::lemma_decimal_reads_back(length);
    text::lemma_decimal_is_short(length);
    assert(text::all_digits(digits));
    let ends = line.len() as int;
    assert forall|i: int| 0 <= i < ends implies header[i] != '\r' && header[i] != '\n' && header[i]
        <= '\u{7f}' by {
        if i >= name.len() {
            assert(header[i] == digits[i - name.len()]);
            assert(text::is_digit(digits[i - name.len()]));
        }
    }
    text::lemma_until_is(header, '\n', (ends + 1) as nat);
    let rest = header.skip(ends + 2);
    assert(rest =~= seq!['\r', '\n']);
    text::lemma_until_is(rest, '\n', 1);
    assert(strip_carriage_return(header.take(ends + 1)) =~= line);
    assert(strip_carriage_return(rest.take(1)) =~= Seq::<char>::empty());
    assert(rest.skip(2) =~= Seq::<char>::empty());
    assert(lines(rest.skip(2)) =~= Seq::empty());
    assert(lines(rest) =~= seq![Seq::<char>::empty()]);
    assert(lines(header) =~= seq![line, Seq::<char>::empty()]);

    text::lemma_until_is(line, ':', 14);
    assert(line.take(14) =~= "Content-Length"@);
    let value = line.skip(15);
    assert(value =~= seq![' '] + digits);
    assert(value.skip(1) =~= digits);
    assert(text::is_digit(digits[0]));
    assert(text::is_digit(digits.last()));
    assert(text::trim(value) == digits) by {
        reveal_with_fuel(text::trim_start, 2);
    }
    text::lemma_leading_digits(digits);
    assert(text::leading_digits(digits) == digits.len());
    assert(digits.take(digits.len() as int) =~= digits);
    assert(header_line(line) == HeaderLine::Length(Ok(length as usize)));
    reveal_with_fuel(scan_lines, 3);
    assert(lines(header).skip(1) =~= seq![Seq::<char>::empty()]);
    assert(lines(header).skip(1).skip(1) =~= Seq::empty());
}

/// A frame that was written is read back as its body, and the bytes that follow it are left
/// for the next frame.
pub proof fn law_frame_reads_back(body: Seq<u8>, rest: Seq<u8>)
    requires
        body.len() <= MAX_MESSAGE_BYTES,
    ensures
        frame_status(frame(body) + rest) == (FrameStatusView::Complete {
            start: (frame(body).len() - body.len()) as usize,
            end: frame(body).len() as usize,
        }),
        (frame(body) + rest).subrange(frame(body).len() - body.len(), frame(body).len() as int)
            == body,
        (frame(body) + rest).skip(frame(body).len() as int) == rest,
        body.len() < frame(body).len() <= MAX_HEADER_BYTES + MAX_MESSAGE_BYTES,
{
    let header = header_text(body.len());
    let block = encode_utf8(header);
    let all = frame(body) + rest;
    lemma_header_text(body.len());
    is_ascii_chars_encode_utf8(header);
    encode_utf8_valid_utf8(header);
    encode_utf8_decode_utf8(header);
    reveal_strlit("\r\n\r\n");
    reveal_strlit("Content-Length: ");
    let end = block.len() as int;
    assert(blank_line_at(all, end - 4)) by {
        assert(header[end - 4] == '\r' && header[end - 3] == '\n' && header[end - 2] == '\r'
            && header[end - 1] == '\n');
        assert(block[end - 4] == 13 && block[end - 3] == 10 && block[end - 2] == 13 && block[end
            - 1] == 10);
    }
    assert forall|i: int| 0 <= i < end - 4 implies !blank_line_at(all, i) by {
        assert(header[i] != '\r');
        assert(all[i] == block[i]);
        assert(block[i] == header[i] as u8);
    }
    lemma_header_end_is(all, end);
    assert(all.take(end) =~= block);
    assert(all.subrange(end, end + body.len()) =~= body);
    assert(all.skip(end + body.len()) =~= rest);
}

/// A reader that waits for more bytes keeps those that it has, and what it decided it would
/// have decided with later bytes at hand too.
pub proof fn law_reads_may_be_given_up(bytes: Seq<u8>, more: Seq<u8>)
    ensures
        next_step(bytes) == Ok::<Option<JsonView>, ProtocolErrorView>(None) ==> buffer_after(bytes)
            == bytes,
        next_step(bytes) != Ok::<Option<JsonView>, ProtocolErrorView>(None) ==> next_step(bytes + more)
            == next_step(bytes),
        next_step(bytes) matches Ok(Some(_)) ==> buffer_after(bytes + more) == buffer_after(bytes)
            + more,
{
    if frame_status(bytes) !is Incomplete {
        law_later_bytes_change_nothing(bytes, more);
        if let FrameStatusView::Complete { start, end } = frame_status(bytes) {
            let head = header_end(bytes)->Some_0;
            assert(is_header_end(bytes, head));
            assert((bytes + more).subrange(start as int, end as int) =~= bytes.subrange(
                start as int,
                end as int,
            ));
            assert((bytes + more).skip(end as int) =~= bytes.skip(end as int) + more);
        }
    }
}

/// The messages of a stream do not depend on where the stream is cut into reads: the messages
/// of the first part, and then those of what it left with the second part, are the messages
/// of the whole.
pub proof fn law_stream_may_be_cut_anywhere(bytes: Seq<u8>, more: Seq<u8>)
    ensures
        messages(bytes + more) == messages(bytes) + messages(leftover(bytes) + more),
        leftover(bytes + more) == leftover(leftover(bytes) + more),
    decreases bytes.len(),
{
    law_reads_may_be_given_up(bytes, more);
    match next_step(bytes) {
        Ok(Some(message)) => {
            lemma_messages_take_bytes(bytes);
            lemma_messages_take_bytes(bytes + more);
            law_stream_may_be_cut_anywhere(buffer_after(bytes), more);
            assert(messages(bytes + more) =~= messages(bytes) + messages(leftover(bytes) + more));
        },
        _ => {
            assert(messages(bytes) + messages(leftover(bytes) + more) =~= messages(bytes + more));
        },
    }
}

/// The bytes of documents that are written one after the other.
pub open spec fn stream(values: Seq<JsonView>) -> Seq<u8>
    decreases values.len(),
{
    if values.len() == 0 {
        Seq::empty()
    } else {
        frame(codec::json_bytes(values[0])) + stream(values.skip(1))
    }
}

/// Documents that are written one after the other are read in that order, and nothing else
/// is.
pub proof fn law_stream_reads_back(values: Seq<JsonView>)
    requires
        forall|i: int|
            0 <= i < values.len() ==> codec::json_bytes(#[trigger] values[i]).len()
                <= MAX_MESSAGE_BYTES && codec::reads_as(codec::json_bytes(values[i]), values[i]),
    ensures
        messages(stream(values)) == values,
        leftover(stream(values)) == Seq::<u8>::empty(),
    decreases values.len(),
{
    if values.len() == 0 {
        let none = Seq::<u8>::empty();
        if let Some(end) = header_end(none) {
            assert(is_header_end(none, end));
        }
        assert(messages(none) =~= values);
    } else {
        let rest = values.skip(1);
        assert forall|i: int| 0 <= i < rest.len() implies codec::json_bytes(
            #[trigger] rest[i],
        ).len() <= MAX_MESSAGE_BYTES && codec::reads_as(codec::json_bytes(rest[i]), rest[i]) by {
            assert(rest[i] == values[i + 1]);
        }
        law_stream_reads_back(rest);
        law_frame_reads_back(codec::json_bytes(values[0]), stream(rest));
        lemma_messages_take_bytes(stream(values));
        assert(messages(stream(values)) =~= values);
    }
}

} // verus!
