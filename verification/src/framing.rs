//! The wire format of the worker's three streams: text, one message per line,
//! each line ended by a single line feed. Nothing is escaped and no length is
//! sent, so a message that holds a line feed is read back as two.

use vstd::prelude::*;
use vstd::string::*;
use vstd::utf8::*;

verus! {

/// The byte that ends a line.
pub const LINE_FEED: u8 = 10;

/// A line as it travels: its bytes, then the line feed.
pub open spec fn framed(line: Seq<u8>) -> Seq<u8> {
    line.push(LINE_FEED)
}

/// The stream that results from writing `lines` one after another.
pub open spec fn joined(lines: Seq<Seq<u8>>) -> Seq<u8>
    decreases lines.len(),
{
    if lines.len() == 0 {
        Seq::empty()
    } else {
        joined(lines.drop_last()) + framed(lines.last())
    }
}

/// The lines of `bytes` that are complete, in the order they were written: each
/// is the run of bytes between two line feeds (or from the start to the first).
pub open spec fn complete_lines(bytes: Seq<u8>) -> Seq<Seq<u8>>
    decreases bytes.len(),
{
    if bytes.len() == 0 {
        Seq::empty()
    } else if bytes.last() == LINE_FEED {
        complete_lines(bytes.drop_last()).push(unfinished(bytes.drop_last()))
    } else {
        complete_lines(bytes.drop_last())
    }
}

/// What follows the last line feed of `bytes`: the start of a line whose end has
/// not arrived yet.
pub open spec fn unfinished(bytes: Seq<u8>) -> Seq<u8>
    decreases bytes.len(),
{
    if bytes.len() == 0 || bytes.last() == LINE_FEED {
        Seq::empty()
    } else {
        unfinished(bytes.drop_last()).push(bytes.last())
    }
}

/// Whether `bytes` can travel as one line, that is, holds no line feed.
pub open spec fn single_line(bytes: Seq<u8>) -> bool {
    forall|i: int| 0 <= i < bytes.len() ==> bytes[i] != LINE_FEED
}

/// Frames one message for the worker's input: the message's bytes, then one
/// line feed.
pub fn frame_message(message: &str) -> (bytes: Vec<u8>)
    ensures
        bytes@ == framed(message.spec_bytes()),
{
    let mut bytes = message.as_bytes_vec();
    bytes.push(LINE_FEED);
    bytes
}

/// Bytes without a line feed, put behind any stream, complete no line: they
/// lengthen the unfinished one.
pub proof fn lemma_append_within_line(stream: Seq<u8>, more: Seq<u8>)
    requires
        single_line(more),
    ensures
        complete_lines(stream + more) == complete_lines(stream),
        unfinished(stream + more) == unfinished(stream) + more,
    decreases more.len(),
{
    if more.len() == 0 {
        assert(stream + more =~= stream);
        assert(unfinished(stream) + more =~= unfinished(stream));
    } else {
        let shorter = more.drop_last();
        assert(single_line(shorter));
        lemma_append_within_line(stream, shorter);
        assert((stream + more).drop_last() =~= stream + shorter);
        assert((stream + more).last() == more.last());
        assert(unfinished(stream) + more =~= (unfinished(stream) + shorter).push(more.last()));
    }
}

/// Writing one more line behind a stream completes exactly one line: what was
/// unfinished, followed by the line written.
pub proof fn lemma_append_line(stream: Seq<u8>, line: Seq<u8>)
    requires
        single_line(line),
    ensures
        complete_lines(stream + framed(line)) == complete_lines(stream).push(
            unfinished(stream) + line,
        ),
        unfinished(stream + framed(line)) == Seq::<u8>::empty(),
{
    lemma_append_within_line(stream, line);
    assert((stream + framed(line)).drop_last() =~= stream + line);
    assert((stream + framed(line)).last() == LINE_FEED);
}

/// Reading a stream in two parts finds the same lines as reading it whole, if
/// the second read starts with what the first left unfinished.
pub proof fn lemma_lines_resume(first: Seq<u8>, second: Seq<u8>)
    ensures
        complete_lines(first + second) == complete_lines(first) + complete_lines(
            unfinished(first) + second,
        ),
        unfinished(first + second) == unfinished(unfinished(first) + second),
    decreases second.len(),
{
    if second.len() == 0 {
        assert(first + second =~= first);
        lemma_unfinished_is_single_line(first);
        lemma_append_within_line(Seq::empty(), unfinished(first));
        assert(Seq::<u8>::empty() + unfinished(first) =~= unfinished(first));
        assert(unfinished(first) + second =~= unfinished(first));
        assert(complete_lines(first) + Seq::<Seq<u8>>::empty() =~= complete_lines(first));
    } else {
        let shorter = second.drop_last();
        lemma_lines_resume(first, shorter);
        assert((first + second).drop_last() =~= first + shorter);
        assert((unfinished(first) + second).drop_last() =~= unfinished(first) + shorter);
        assert((first + second).last() == second.last());
        assert((unfinished(first) + second).last() == second.last());
        if second.last() == LINE_FEED {
            let head = complete_lines(first);
            let rest = complete_lines(unfinished(first) + shorter);
            let line = unfinished(unfinished(first) + shorter);
            assert((head + rest).push(line) =~= head + rest.push(line));
        }
    }
}

/// What is left unfinished holds no line feed.
pub proof fn lemma_unfinished_is_single_line(bytes: Seq<u8>)
    ensures
        single_line(unfinished(bytes)),
    decreases bytes.len(),
{
    if bytes.len() != 0 && bytes.last() != LINE_FEED {
        lemma_unfinished_is_single_line(bytes.drop_last());
    }
}

/// No complete line holds a line feed.
pub proof fn theorem_complete_lines_are_single(bytes: Seq<u8>)
    ensures
        forall|k: int|
            0 <= k < complete_lines(bytes).len() ==> single_line(
                #[trigger] complete_lines(bytes)[k],
            ),
    decreases bytes.len(),
{
    if bytes.len() != 0 {
        let init = bytes.drop_last();
        theorem_complete_lines_are_single(init);
        lemma_unfinished_is_single_line(init);
        assert forall|k: int| 0 <= k < complete_lines(bytes).len() implies single_line(
            #[trigger] complete_lines(bytes)[k],
        ) by {
            if k < complete_lines(init).len() {
                assert(complete_lines(bytes)[k] == complete_lines(init)[k]);
            }
        }
    }
}

/// Splitting loses nothing: the complete lines, written out again, followed by
/// the unfinished rest are the stream itself.
pub proof fn theorem_lines_rejoin(bytes: Seq<u8>)
    ensures
        joined(complete_lines(bytes)) + unfinished(bytes) == bytes,
    decreases bytes.len(),
{
    if bytes.len() == 0 {
        assert(joined(complete_lines(bytes)) + unfinished(bytes) =~= bytes);
    } else {
        let init = bytes.drop_last();
        theorem_lines_rejoin(init);
        if bytes.last() == LINE_FEED {
            let lines = complete_lines(bytes);
            assert(lines.drop_last() =~= complete_lines(init));
            assert(lines.last() == unfinished(init));
            assert(joined(lines) + unfinished(bytes) =~= (joined(complete_lines(init))
                + unfinished(init)).push(LINE_FEED));
            assert(init.push(LINE_FEED) =~= bytes);
        } else {
            assert(joined(complete_lines(bytes)) + unfinished(bytes) =~= (joined(
                complete_lines(init),
            ) + unfinished(init)).push(bytes.last()));
            assert(init.push(bytes.last()) =~= bytes);
        }
    }
}

/// Lines that hold no line feed, written one after another and followed by the
/// start of another, are read back as they were written: each line once, in
/// order, and the start as the unfinished rest.
pub proof fn lemma_lines_of_joined(lines: Seq<Seq<u8>>, rest: Seq<u8>)
    requires
        forall|k: int| 0 <= k < lines.len() ==> single_line(#[trigger] lines[k]),
        single_line(rest),
    ensures
        complete_lines(joined(lines) + rest) == lines,
        unfinished(joined(lines) + rest) == rest,
    decreases lines.len(),
{
    lemma_append_within_line(joined(lines), rest);
    if lines.len() == 0 {
        assert(Seq::<u8>::empty() + rest =~= rest);
        assert(complete_lines(joined(lines)) =~= lines);
    } else {
        let init = lines.drop_last();
        lemma_lines_of_joined(init, Seq::empty());
        assert(joined(init) + Seq::<u8>::empty() =~= joined(init));
        lemma_append_line(joined(init), lines.last());
        assert(Seq::<u8>::empty() + lines.last() =~= lines.last());
        assert(init.push(lines.last()) =~= lines);
        assert(Seq::<u8>::empty() + rest =~= rest);
    }
}

/// Of the bytes that encode a scalar value, only the single byte of the line
/// feed itself is a line feed.
proof fn lemma_scalar_bytes(scalar: u32)
    by (bit_vector)
    ensures
        scalar <= 0x7F && (scalar & 0x7F) as u8 == 10u8 ==> scalar == 10u32,
        0xC0u8 | ((scalar >> 6) & 0x1F) as u8 != 10u8,
        0xE0u8 | ((scalar >> 12) & 0x0F) as u8 != 10u8,
        0xF0u8 | ((scalar >> 18) & 0x7) as u8 != 10u8,
        0x80u8 | (scalar & 0x3F) as u8 != 10u8,
        0x80u8 | ((scalar >> 6) & 0x3F) as u8 != 10u8,
        0x80u8 | ((scalar >> 12) & 0x3F) as u8 != 10u8,
{
}

/// Text without a line-feed character is encoded without a line-feed byte:
/// it travels as one line.
pub proof fn lemma_text_is_single_line(text: Seq<char>)
    requires
        !text.contains('\n'),
    ensures
        single_line(encode_utf8(text)),
    decreases text.len(),
{
    if text.len() != 0 {
        let rest = text.drop_first();
        assert forall|i: int| 0 <= i < rest.len() implies rest[i] != '\n' by {
            assert(rest[i] == text[i + 1]);
        }
        lemma_text_is_single_line(rest);
        let scalar = text[0] as u32;
        lemma_scalar_bytes(scalar);
        assert(text[0] != '\n');
        assert(scalar != 10u32) by {
            char_u32_cast(text[0], scalar);
            char_u32_cast('\n', 10u32);
        }
        let head = encode_scalar(scalar);
        assert forall|i: int| 0 <= i < head.len() implies head[i] != LINE_FEED by {}
        assert forall|i: int| 0 <= i < encode_utf8(text).len() implies encode_utf8(text)[i]
            != LINE_FEED by {
            if i >= head.len() {
                assert(encode_utf8(text)[i] == encode_utf8(rest)[i - head.len()]);
            } else {
                assert(encode_utf8(text)[i] == head[i]);
            }
        }
    }
}

} // verus!
