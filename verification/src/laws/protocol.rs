//! Header blocks, frames and the messages in them.

use vstd::prelude::*;
use vstd::utf8::*;

use crate::codec;
use crate::json::JsonView;
use crate::laws;
use crate::protocol;
use crate::protocol::{
    FrameStatus, FrameStatusView, HeaderLine, ProtocolError, ProtocolErrorView,
};
use crate::text;
use crate::text::NumberError;

verus! {

/// Lines, each with its line ending.
pub open spec fn block(header_lines: Seq<Seq<char>>) -> Seq<char>
    decreases header_lines.len(),
{
    if header_lines.len() == 0 {
        Seq::empty()
    } else {
        header_lines[0] + seq!['\r', '\n'] + block(header_lines.skip(1))
    }
}

/// Whether none of the lines holds a line feed.
pub open spec fn are_lines(header_lines: Seq<Seq<char>>) -> bool {
    forall|i: int| 0 <= i < header_lines.len() ==> !(#[trigger] header_lines[i]).contains('\n')
}

/// A field: a name and a value with a colon between them.
pub open spec fn field_line(name: Seq<char>, value: Seq<char>) -> Seq<char> {
    name + seq![':'] + value
}

/// Whether a line is blank, or a field with another name than that of the body's length.
pub open spec fn says_nothing(line: Seq<char>) -> bool {
    line.len() == 0 || exists|name: Seq<char>, value: Seq<char>|
        line == #[trigger] field_line(name, value) && !name.contains(':')
            && !text::same_ignoring_ascii_case(name, "Content-Length"@)
}

/// Whether none of the lines says anything of the body's length.
pub open spec fn say_nothing(header_lines: Seq<Seq<char>>) -> bool {
    forall|i: int| 0 <= i < header_lines.len() ==> says_nothing(#[trigger] header_lines[i])
}

/// Whether a name is that of the body's length.
pub open spec fn names_length(name: Seq<char>) -> bool {
    !name.contains(':') && text::same_ignoring_ascii_case(name, "Content-Length"@)
}

/// The body length that header lines give.
pub open spec fn length_of(header_lines: Seq<Seq<char>>) -> Result<usize, ProtocolErrorView> {
    protocol::content_length(encode_utf8(block(header_lines)))
}

/// A text comes apart at its line feeds; a carriage return before one belongs to the line
/// ending.
pub proof fn law_lines(line: Seq<char>, rest: Seq<char>)
    requires
        !line.contains('\n'),
    ensures
        protocol::lines(line + seq!['\r', '\n'] + rest) == seq![line] + protocol::lines(rest),
        line.len() == 0 || line.last() != '\r' ==> protocol::lines(line + seq!['\n'] + rest)
            == seq![line] + protocol::lines(rest),
        line.len() > 0 ==> protocol::lines(line) == seq![line],
        protocol::lines(Seq::empty()) == Seq::<Seq<char>>::empty(),
{
    assert forall|i: int| 0 <= i < line.len() implies line[i] != '\n' by {
        assert(line.contains(line[i]));
    }
    let n = line.len() as int;
    let a = line + seq!['\r', '\n'] + rest;
    text::lemma_until_is(a, '\n', (n + 1) as nat);
    assert(a.take(n + 1) =~= line.push('\r'));
    assert(line.push('\r').drop_last() =~= line);
    assert(a.skip(n + 2) =~= rest);
    let b = line + seq!['\n'] + rest;
    text::lemma_until_is(b, '\n', n as nat);
    assert(b.take(n) =~= line);
    assert(b.skip(n + 1) =~= rest);
    text::lemma_until(line, '\n');
    assert(text::until(line, '\n') == n);
}

proof fn lemma_lines_of_block(header_lines: Seq<Seq<char>>)
    requires
        are_lines(header_lines),
    ensures
        protocol::lines(block(header_lines)) == header_lines,
    decreases header_lines.len(),
{
    if header_lines.len() == 0 {
        assert(protocol::lines(block(header_lines)) =~= header_lines);
    } else {
        let rest = header_lines.skip(1);
        assert forall|i: int| 0 <= i < rest.len() implies !(#[trigger] rest[i]).contains('\n') by {
            assert(rest[i] == header_lines[i + 1]);
        }
        lemma_lines_of_block(rest);
        law_lines(header_lines[0], block(rest));
        assert(seq![header_lines[0]] + rest =~= header_lines);
    }
}

proof fn lemma_length_of(header_lines: Seq<Seq<char>>)
    requires
        are_lines(header_lines),
    ensures
        length_of(header_lines) == protocol::scan_lines(header_lines, None),
{
    encode_utf8_valid_utf8(block(header_lines));
    encode_utf8_decode_utf8(block(header_lines));
    lemma_lines_of_block(header_lines);
}

proof fn lemma_field(name: Seq<char>, value: Seq<char>)
    requires
        !name.contains(':'),
    ensures
        protocol::header_line(field_line(name, value)) == if text::same_ignoring_ascii_case(
            name,
            "Content-Length"@,
        ) {
            HeaderLine::Length(text::parse_number(text::trim(value)))
        } else {
            HeaderLine::Other
        },
{
    let line = field_line(name, value);
    assert forall|i: int| 0 <= i < name.len() implies line[i] != ':' by {
        assert(name.contains(name[i]));
    }
    text::lemma_until_is(line, ':', name.len());
    assert(line.take(name.len() as int) =~= name);
    assert(line.skip(name.len() as int + 1) =~= value);
}

proof fn lemma_no_field(line: Seq<char>)
    requires
        line.len() > 0,
        !line.contains(':'),
    ensures
        protocol::header_line(line) == HeaderLine::Malformed,
{
    text::lemma_until(line, ':');
    if text::until(line, ':') < line.len() {
        assert(line.contains(line[text::until(line, ':') as int]));
    }
}

proof fn lemma_says_nothing(line: Seq<char>)
    requires
        says_nothing(line),
    ensures
        protocol::header_line(line) is Blank || protocol::header_line(line) is Other,
{
    if line.len() > 0 {
        let (name, value) = choose|name: Seq<char>, value: Seq<char>|
            line == #[trigger] field_line(name, value) && !name.contains(':')
                && !text::same_ignoring_ascii_case(name, "Content-Length"@);
        lemma_field(name, value);
    }
}

proof fn lemma_passed_over(header_lines: Seq<Seq<char>>, rest: Seq<Seq<char>>, found: Option<usize>)
    requires
        say_nothing(header_lines),
    ensures
        protocol::scan_lines(header_lines + rest, found) == protocol::scan_lines(rest, found),
    decreases header_lines.len(),
{
    let all = header_lines + rest;
    if header_lines.len() == 0 {
        assert(all =~= rest);
    } else {
        let tail = header_lines.skip(1);
        assert forall|i: int| 0 <= i < tail.len() implies says_nothing(#[trigger] tail[i]) by {
            assert(tail[i] == header_lines[i + 1]);
        }
        lemma_passed_over(tail, rest, found);
        lemma_says_nothing(header_lines[0]);
        assert(all[0] == header_lines[0]);
        assert(all.skip(1) =~= tail + rest);
    }
}

proof fn lemma_inserted(
    before: Seq<Seq<char>>,
    line: Seq<char>,
    after: Seq<Seq<char>>,
    found: Option<usize>,
)
    requires
        says_nothing(line),
    ensures
        protocol::scan_lines(before + seq![line] + after, found) == protocol::scan_lines(
            before + after,
            found,
        ),
    decreases before.len(),
{
    let all = before + seq![line] + after;
    let short = before + after;
    if before.len() == 0 {
        lemma_says_nothing(line);
        assert(all[0] == line);
        assert(all.skip(1) =~= after);
        assert(short =~= after);
    } else {
        let tail = before.skip(1);
        assert(all[0] == before[0] && short[0] == before[0]);
        assert(all.skip(1) =~= tail + seq![line] + after);
        assert(short.skip(1) =~= tail + after);
        lemma_inserted(tail, line, after, found);
        if let HeaderLine::Length(Ok(length)) = protocol::header_line(before[0]) {
            lemma_inserted(tail, line, after, Some(length));
        }
    }
}

/// A blank line, or a field with another name, changes nothing of what a header block says,
/// wherever it is put.
pub proof fn law_other_lines_change_nothing(
    before: Seq<Seq<char>>,
    line: Seq<char>,
    after: Seq<Seq<char>>,
)
    requires
        are_lines(before),
        are_lines(after),
        !line.contains('\n'),
        says_nothing(line),
    ensures
        length_of(before + seq![line] + after) == length_of(before + after),
{
    lemma_length_of(before + seq![line] + after);
    lemma_length_of(before + after);
    lemma_inserted(before, line, after, None);
}

/// A header block with one field for the body's length gives the number that the field gives,
/// whatever other fields stand before and after it.
pub proof fn law_length_is_given(
    before: Seq<Seq<char>>,
    name: Seq<char>,
    value: Seq<char>,
    after: Seq<Seq<char>>,
    n: usize,
)
    requires
        are_lines(before),
        are_lines(after),
        say_nothing(before),
        say_nothing(after),
        names_length(name),
        !field_line(name, value).contains('\n'),
        text::parse_number(text::trim(value)) == Ok::<usize, NumberError>(n),
    ensures
        length_of(before + seq![field_line(name, value)] + after) == Ok::<usize, ProtocolErrorView>(
            n,
        ),
{
    let line = field_line(name, value);
    let all = before + seq![line] + after;
    lemma_field(name, value);
    lemma_length_of(all);
    let tail = seq![line] + after;
    assert(all =~= before + tail);
    lemma_passed_over(before, tail, None);
    assert(tail.skip(1) =~= after);
    lemma_passed_over(after, Seq::empty(), Some(n));
    assert(after + Seq::<Seq<char>>::empty() =~= after);
}

/// The length in a header block is the number that the digits denote, whatever the case of the
/// field's name, the white space round the digits, and the other fields.
pub proof fn law_length_is_read(
    before: Seq<Seq<char>>,
    name: Seq<char>,
    left: Seq<char>,
    digits: Seq<char>,
    right: Seq<char>,
    after: Seq<Seq<char>>,
)
    requires
        are_lines(before),
        are_lines(after),
        say_nothing(before),
        say_nothing(after),
        names_length(name),
        !field_line(name, left + digits + right).contains('\n'),
        forall|i: int| 0 <= i < left.len() ==> text::white_space(#[trigger] left[i]),
        forall|i: int| 0 <= i < right.len() ==> text::white_space(#[trigger] right[i]),
        digits.len() > 0,
        forall|i: int| 0 <= i < digits.len() ==> 48 <= (#[trigger] digits[i]) as int <= 57,
        text::digits_value(digits) <= usize::MAX,
    ensures
        length_of(before + seq![field_line(name, left + digits + right)] + after) == Ok::<
            usize,
            ProtocolErrorView,
        >(text::digits_value(digits) as usize),
{
    assert(48 <= digits[0] as int <= 57 && 48 <= digits[digits.len() - 1] as int <= 57);
    laws::text::law_trimming(left, digits, right);
    laws::text::law_numbers_are_read(digits);
    law_length_is_given(
        before,
        name,
        left + digits + right,
        after,
        text::digits_value(digits) as usize,
    );
}

/// A header block says what its lines say, whatever their line endings.
pub proof fn law_only_lines_count(one: Seq<char>, other: Seq<char>)
    requires
        protocol::lines(one) == protocol::lines(other),
    ensures
        protocol::content_length(encode_utf8(one)) == protocol::content_length(encode_utf8(other)),
{
    encode_utf8_valid_utf8(one);
    encode_utf8_valid_utf8(other);
    encode_utf8_decode_utf8(one);
    encode_utf8_decode_utf8(other);
}

/// A header block without a field for the body's length is refused, and so is one whose first
/// line that is not passed over holds no colon or gives no number.
pub proof fn law_bad_header_blocks(
    before: Seq<Seq<char>>,
    no_field: Seq<char>,
    name: Seq<char>,
    value: Seq<char>,
    after: Seq<Seq<char>>,
)
    requires
        are_lines(before),
        are_lines(after),
        say_nothing(before),
        no_field.len() > 0,
        !no_field.contains(':'),
        !no_field.contains('\n'),
        names_length(name),
        !field_line(name, value).contains('\n'),
    ensures
        length_of(before) == Err::<usize, ProtocolErrorView>(
            ProtocolErrorView::MissingContentLength,
        ),
        length_of(before + seq![no_field] + after) == Err::<usize, ProtocolErrorView>(
            ProtocolErrorView::MalformedHeaderLine,
        ),
        text::parse_number(text::trim(value)) matches Err(cause) ==> length_of(
            before + seq![field_line(name, value)] + after,
        ) == Err::<usize, ProtocolErrorView>(ProtocolErrorView::InvalidContentLength(cause)),
{
    lemma_length_of(before);
    lemma_passed_over(before, Seq::empty(), None);
    assert(before + Seq::<Seq<char>>::empty() =~= before);

    let malformed = seq![no_field] + after;
    lemma_no_field(no_field);
    lemma_length_of(before + seq![no_field] + after);
    assert(before + seq![no_field] + after =~= before + malformed);
    lemma_passed_over(before, malformed, None);
    assert(malformed[0] == no_field);

    let line = field_line(name, value);
    let given = seq![line] + after;
    lemma_field(name, value);
    lemma_length_of(before + seq![line] + after);
    assert(before + seq![line] + after =~= before + given);
    lemma_passed_over(before, given, None);
    assert(given[0] == line);
}

/// Behind a field for the body's length that gives a number, a second such field is refused,
/// and so is a line without a colon.
pub proof fn law_bad_later_lines(
    before: Seq<Seq<char>>,
    name: Seq<char>,
    value: Seq<char>,
    between: Seq<Seq<char>>,
    other_name: Seq<char>,
    other_value: Seq<char>,
    no_field: Seq<char>,
    after: Seq<Seq<char>>,
)
    requires
        are_lines(before),
        are_lines(between),
        are_lines(after),
        say_nothing(before),
        say_nothing(between),
        names_length(name),
        names_length(other_name),
        !field_line(name, value).contains('\n'),
        !field_line(other_name, other_value).contains('\n'),
        text::parse_number(text::trim(value)) is Ok,
        no_field.len() > 0,
        !no_field.contains(':'),
        !no_field.contains('\n'),
    ensures
        length_of(
            before + seq![field_line(name, value)] + between + seq![
                field_line(other_name, other_value),
            ] + after,
        ) == Err::<usize, ProtocolErrorView>(ProtocolErrorView::DuplicateContentLength),
        length_of(before + seq![field_line(name, value)] + between + seq![no_field] + after)
            == Err::<usize, ProtocolErrorView>(ProtocolErrorView::MalformedHeaderLine),
{
    let line = field_line(name, value);
    let n = text::parse_number(text::trim(value))->Ok_0;
    lemma_field(name, value);
    lemma_field(other_name, other_value);
    lemma_no_field(no_field);
    lemma_second(before, line, n, between, field_line(other_name, other_value), after);
    lemma_second(before, line, n, between, no_field, after);
}

proof fn lemma_second(
    before: Seq<Seq<char>>,
    line: Seq<char>,
    n: usize,
    between: Seq<Seq<char>>,
    wrong: Seq<char>,
    after: Seq<Seq<char>>,
)
    requires
        are_lines(before),
        are_lines(between),
        are_lines(after),
        say_nothing(before),
        say_nothing(between),
        !line.contains('\n'),
        !wrong.contains('\n'),
        protocol::header_line(line) == HeaderLine::Length(Ok(n)),
    ensures
        length_of(before + seq![line] + between + seq![wrong] + after) == protocol::scan_lines(
            seq![wrong] + after,
            Some(n),
        ),
        (seq![wrong] + after)[0] == wrong,
{
    let all = before + seq![line] + between + seq![wrong] + after;
    let last = seq![wrong] + after;
    let rest = seq![line] + (between + last);
    assert(all =~= before + rest);
    assert forall|i: int| 0 <= i < all.len() implies !(#[trigger] all[i]).contains('\n') by {
        if i < before.len() {
            assert(all[i] == before[i]);
        } else if i == before.len() {
            assert(all[i] == line);
        } else if i < before.len() + 1 + between.len() {
            assert(all[i] == between[i - before.len() - 1]);
        } else if i == before.len() + 1 + between.len() {
            assert(all[i] == wrong);
        } else {
            assert(all[i] == after[i - before.len() - between.len() - 2]);
        }
    }
    lemma_length_of(all);
    lemma_passed_over(before, rest, None);
    assert(rest.skip(1) =~= between + last);
    lemma_passed_over(between, last, Some(n));
}

/// A header block that is not UTF-8 is refused with the reason.
pub proof fn law_header_is_text(header: Seq<u8>)
    requires
        !valid_utf8(header),
    ensures
        protocol::content_length(header) == Err::<usize, ProtocolErrorView>(
            ProtocolErrorView::NonUtf8Header(protocol::utf8_error_text(header)),
        ),
{
}

/// The header block ends behind the first two line endings in a row.
pub proof fn law_header_end(bytes: Seq<u8>, end: int)
    ensures
        protocol::header_end(bytes) == Some(end) <==> {
            &&& 4 <= end <= bytes.len()
            &&& bytes.subrange(end - 4, end) == seq![13u8, 10, 13, 10]
            &&& forall|i: int|
                0 <= i < end - 4 ==> #[trigger] bytes.subrange(i, i + 4) != seq![13u8, 10, 13, 10]
        },
        protocol::header_end(bytes) is None ==> forall|i: int|
            0 <= i <= bytes.len() - 4 ==> #[trigger] bytes.subrange(i, i + 4) != seq![
                13u8,
                10,
                13,
                10,
            ],
{
    assert forall|i: int| 0 <= i <= bytes.len() - 4 implies (protocol::blank_line_at(bytes, i)
        <==> #[trigger] bytes.subrange(i, i + 4) == seq![13u8, 10, 13, 10]) by {
        let four = bytes.subrange(i, i + 4);
        assert(four[0] == bytes[i] && four[1] == bytes[i + 1] && four[2] == bytes[i + 2] && four[3]
            == bytes[i + 3]);
        if protocol::blank_line_at(bytes, i) {
            assert(four =~= seq![13u8, 10, 13, 10]);
        }
    }
    if protocol::header_end(bytes) == Some(end) {
        assert(protocol::is_header_end(bytes, end));
        assert forall|i: int| 0 <= i < end - 4 implies #[trigger] bytes.subrange(i, i + 4) != seq![
            13u8,
            10,
            13,
            10,
        ] by {
            assert(!protocol::blank_line_at(bytes, i));
        }
    }
    if 4 <= end <= bytes.len() && bytes.subrange(end - 4, end) == seq![13u8, 10, 13, 10] && (
    forall|i: int|
        0 <= i < end - 4 ==> #[trigger] bytes.subrange(i, i + 4) != seq![13u8, 10, 13, 10]) {
        assert(bytes.subrange(end - 4, end - 4 + 4) == seq![13u8, 10, 13, 10]);
        assert forall|i: int| 0 <= i < end - 4 implies !protocol::blank_line_at(bytes, i) by {
            assert(bytes.subrange(i, i + 4) != seq![13u8, 10, 13, 10]);
        }
        protocol::lemma_header_end_is(bytes, end);
    }
    if protocol::header_end(bytes) is None {
        assert forall|i: int| 0 <= i <= bytes.len() - 4 implies #[trigger] bytes.subrange(
            i,
            i + 4,
        ) != seq![13u8, 10, 13, 10] by {
            if bytes.subrange(i, i + 4) == seq![13u8, 10, 13, 10] {
                lemma_first_blank_line(bytes, i);
            }
        }
    }
}

/// Where there is a blank line there is a first one.
proof fn lemma_first_blank_line(bytes: Seq<u8>, i: int)
    requires
        protocol::blank_line_at(bytes, i),
    ensures
        protocol::header_end(bytes) is Some,
    decreases i,
{
    if exists|j: int| 0 <= j < i && protocol::blank_line_at(bytes, j) {
        let j = choose|j: int| 0 <= j < i && protocol::blank_line_at(bytes, j);
        lemma_first_blank_line(bytes, j);
    } else {
        assert(protocol::is_header_end(bytes, i + 4));
    }
}

/// A header block may be of 8192 bytes, and a body of 16777216. What is longer is refused as
/// soon as that is known, and what is not all there is waited for.
pub proof fn law_frames(bytes: Seq<u8>)
    ensures
        match protocol::header_end(bytes) {
            None => {
                &&& bytes.len() <= 8192 ==> protocol::frame_status(bytes)
                    == FrameStatusView::Incomplete
                &&& bytes.len() > 8192 ==> protocol::frame_status(bytes)
                    == FrameStatusView::Invalid(ProtocolErrorView::HeaderTooLarge)
            },
            Some(start) => {
                &&& start > 8192 ==> protocol::frame_status(bytes) == FrameStatusView::Invalid(
                    ProtocolErrorView::HeaderTooLarge,
                )
                &&& start <= 8192 ==> match protocol::content_length(bytes.take(start)) {
                    Err(error) => protocol::frame_status(bytes) == FrameStatusView::Invalid(error),
                    Ok(length) => {
                        &&& length > 16777216 ==> protocol::frame_status(bytes)
                            == FrameStatusView::Invalid(ProtocolErrorView::MessageTooLarge)
                        &&& length <= 16777216 && bytes.len() < start + length
                            ==> protocol::frame_status(bytes) == FrameStatusView::Incomplete
                        &&& length <= 16777216 && bytes.len() >= start + length
                            ==> protocol::frame_status(bytes) == (FrameStatusView::Complete {
                            start: start as usize,
                            end: (start + length) as usize,
                        })
                    },
                }
            },
        },
{
}

/// The body behind a header block is read as soon as it is all there, and no sooner. What
/// follows is left; a body that is no document is refused with the reason, and left.
pub proof fn law_body_is_read(header: Seq<u8>, body: Seq<u8>, rest: Seq<u8>, there: int)
    requires
        protocol::header_end(header) == Some(header.len() as int),
        header.len() <= 8192,
        body.len() <= 16777216,
        protocol::content_length(header) == Ok::<usize, ProtocolErrorView>(body.len() as usize),
    ensures
        match codec::parsed_json(body) {
            Ok(document) => {
                &&& protocol::next_step(header + body + rest) == Ok::<
                    Option<JsonView>,
                    ProtocolErrorView,
                >(Some(document))
                &&& protocol::buffer_after(header + body + rest) == rest
            },
            Err(cause) => {
                &&& protocol::next_step(header + body + rest) == Err::<
                    Option<JsonView>,
                    ProtocolErrorView,
                >(ProtocolErrorView::InvalidJson(cause))
                &&& protocol::buffer_after(header + body + rest) == header + body + rest
            },
        },
        0 <= there < body.len() ==> {
            &&& protocol::next_step(header + body.take(there)) == Ok::<
                Option<JsonView>,
                ProtocolErrorView,
            >(None)
            &&& protocol::buffer_after(header + body.take(there)) == header + body.take(there)
        },
{
    let all = header + body + rest;
    let n = header.len() as int;
    lemma_header_end_stays(header, body + rest);
    assert(all =~= header + (body + rest));
    assert(all.take(n) =~= header);
    assert(all.subrange(n, n + body.len()) =~= body);
    assert(all.skip(n + body.len()) =~= rest);
    if 0 <= there < body.len() {
        let part = header + body.take(there);
        lemma_header_end_stays(header, body.take(there));
        assert(part.take(n) =~= header);
    }
}

proof fn lemma_header_end_stays(header: Seq<u8>, more: Seq<u8>)
    requires
        protocol::header_end(header) == Some(header.len() as int),
    ensures
        protocol::header_end(header + more) == Some(header.len() as int),
{
    let all = header + more;
    let end = header.len() as int;
    assert(protocol::is_header_end(header, end));
    assert forall|i: int| 0 <= i < end - 4 implies !protocol::blank_line_at(all, i) by {
        assert(!protocol::blank_line_at(header, i));
    }
    protocol::lemma_header_end_is(all, end);
}

/// Without a message nothing is taken.
pub proof fn law_nothing_is_lost(bytes: Seq<u8>)
    requires
        !(protocol::next_step(bytes) matches Ok(Some(_))),
    ensures
        protocol::buffer_after(bytes) == bytes,
{
}

/// A frame that is not all there is waited for, and one that is wrong is refused for what is
/// wrong with it.
pub proof fn law_no_message_without_a_frame(bytes: Seq<u8>)
    ensures
        protocol::frame_status(bytes) is Incomplete ==> protocol::next_step(bytes) == Ok::<
            Option<JsonView>,
            ProtocolErrorView,
        >(None),
        protocol::frame_status(bytes) matches FrameStatusView::Invalid(error)
            ==> protocol::next_step(bytes) == Err::<Option<JsonView>, ProtocolErrorView>(error),
{
}

/// A frame is the body's length as a field, a blank line, and the body.
pub proof fn law_frame(body: Seq<u8>)
    ensures
        protocol::frame(body) == encode_utf8(
            seq!['C', 'o', 'n', 't', 'e', 'n', 't', '-', 'L', 'e', 'n', 'g', 't', 'h', ':', ' ']
                + text::decimal(body.len()) + seq!['\r', '\n', '\r', '\n'],
        ) + body,
{
    reveal_strlit("Content-Length: ");
    reveal_strlit("\r\n\r\n");
    assert("Content-Length: "@ =~= seq![
        'C',
        'o',
        'n',
        't',
        'e',
        'n',
        't',
        '-',
        'L',
        'e',
        'n',
        'g',
        't',
        'h',
        ':',
        ' ',
    ]);
    assert("\r\n\r\n"@ =~= seq!['\r', '\n', '\r', '\n']);
}

/// An error says what it is, and keeps the text of the error that caused it.
pub proof fn law_errors_keep_their_cause(cause: String, number: NumberError, error: ProtocolError)
    ensures
        ProtocolError::NonUtf8Header(cause)@ == ProtocolErrorView::NonUtf8Header(cause@),
        ProtocolError::InvalidJson(cause)@ == ProtocolErrorView::InvalidJson(cause@),
        ProtocolError::InvalidContentLength(number)@ == ProtocolErrorView::InvalidContentLength(
            number,
        ),
        protocol::protocol_error_cause(ProtocolErrorView::NonUtf8Header(cause@)) == Some(cause@),
        protocol::protocol_error_cause(ProtocolErrorView::InvalidJson(cause@)) == Some(cause@),
        protocol::protocol_error_cause(ProtocolErrorView::InvalidContentLength(number)) == Some(
            text::number_error_text(number),
        ),
        !(error is NonUtf8Header || error is InvalidJson || error is InvalidContentLength)
            ==> protocol::protocol_error_cause(error@) is None,
        error is HeaderTooLarge <==> error@ is HeaderTooLarge,
        error is MalformedHeaderLine <==> error@ is MalformedHeaderLine,
        error is DuplicateContentLength <==> error@ is DuplicateContentLength,
        error is MissingContentLength <==> error@ is MissingContentLength,
        error is MessageTooLarge <==> error@ is MessageTooLarge,
        error is UnexpectedEof <==> error@ is UnexpectedEof,
{
}

/// A status says what it is.
pub proof fn law_statuses(error: ProtocolError, start: usize, end: usize)
    ensures
        FrameStatus::Incomplete@ == FrameStatusView::Incomplete,
        FrameStatus::Invalid(error)@ == FrameStatusView::Invalid(error@),
        (FrameStatus::Complete { start, end })@ == (FrameStatusView::Complete { start, end }),
{
}

} // verus!
