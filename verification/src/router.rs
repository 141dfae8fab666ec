//! Turning the bytes of one output stream of the worker into events.
//!
//! A router is fed the bytes in whatever pieces they arrive. Each line that a
//! piece completes becomes one event; a line that is not valid UTF-8 is dropped
//! and the lines after it are delivered as if it had not been there.

use crate::event::{event_views, Origin, OutputEvent, OutputEventView};
use crate::framing::{
    complete_lines, joined, lemma_append_within_line, lemma_lines_of_joined, lemma_lines_resume,
    lemma_text_is_single_line, lemma_unfinished_is_single_line, single_line, unfinished,
    LINE_FEED,
};
use vstd::prelude::*;
use vstd::utf8::*;

verus! {

/// The event that a decodable line of `origin` becomes.
pub open spec fn line_event(origin: Origin, line: Seq<u8>) -> OutputEventView {
    OutputEventView { origin, line: decode_utf8(line) }
}

/// The events of `lines`: one for each line that is valid UTF-8, in the order of
/// the lines; the others leave no trace.
pub open spec fn decoded(origin: Origin, lines: Seq<Seq<u8>>) -> Seq<OutputEventView>
    decreases lines.len(),
{
    if lines.len() == 0 {
        Seq::empty()
    } else if valid_utf8(lines.last()) {
        decoded(origin, lines.drop_last()).push(line_event(origin, lines.last()))
    } else {
        decoded(origin, lines.drop_last())
    }
}

/// What the end of the stream makes of the unfinished `rest`: a last event, if
/// the rest is not empty and decodes.
pub open spec fn closing(origin: Origin, rest: Seq<u8>) -> Option<OutputEventView> {
    if rest.len() > 0 && valid_utf8(rest) {
        Some(line_event(origin, rest))
    } else {
        None
    }
}

/// Every event of a stream that held `bytes` from start to end.
pub open spec fn delivered(origin: Origin, bytes: Seq<u8>) -> Seq<OutputEventView> {
    let lines = decoded(origin, complete_lines(bytes));
    match closing(origin, unfinished(bytes)) {
        Some(last) => lines.push(last),
        None => lines,
    }
}

/// `String::from_utf8` of the standard library: it hands the bytes back as text
/// exactly when they are valid UTF-8, and the text is then what they decode to.
#[verifier::external_body]
fn decode_text(bytes: Vec<u8>) -> (text: Option<String>)
    ensures
        text is Some <==> valid_utf8(bytes@),
        text is Some ==> text->0@ == decode_utf8(bytes@),
{
    match String::from_utf8(bytes) {
        Ok(text) => Some(text),
        Err(_) => None,
    }
}

/// The reader of one output stream: the stream's origin and the bytes of the
/// line that has not ended yet.
pub struct StreamRouter {
    origin: Origin,
    pending: Vec<u8>,
}

/// The mathematical value of a [`StreamRouter`].
pub ghost struct StreamRouterView {
    pub origin: Origin,
    pub pending: Seq<u8>,
}

impl View for StreamRouter {
    type V = StreamRouterView;

    closed spec fn view(&self) -> StreamRouterView {
        StreamRouterView { origin: self.origin, pending: self.pending@ }
    }
}

impl StreamRouter {
    /// The bytes held back never hold a line feed: a line feed ends the line.
    #[verifier::type_invariant]
    spec fn holds_one_line(self) -> bool {
        single_line(self.pending@)
    }

    /// A router at the start of a stream of `origin`.
    pub fn new(origin: Origin) -> (router: StreamRouter)
        ensures
            router@.origin == origin,
            router@.pending == Seq::<u8>::empty(),
    {
        StreamRouter { origin, pending: Vec::new() }
    }

    /// The stream that this router reads.
    pub fn origin(&self) -> (origin: Origin)
        ensures
            origin == self@.origin,
    {
        self.origin
    }

    /// How many bytes of an unfinished line are held back.
    pub fn pending_len(&self) -> (n: usize)
        ensures
            n == self@.pending.len(),
    {
        self.pending.len()
    }

    /// Takes the next piece of the stream and returns the events of the lines
    /// that it completes, in order. What follows the piece's last line feed is
    /// held back until a later piece completes it.
    pub fn feed(&mut self, chunk: &[u8]) -> (events: Vec<OutputEvent>)
        ensures
            final(self)@.origin == old(self)@.origin,
            final(self)@.pending == unfinished(old(self)@.pending + chunk@),
            event_views(events@) == decoded(
                old(self)@.origin,
                complete_lines(old(self)@.pending + chunk@),
            ),
    {
        let ghost before = self.pending@;
        let ghost origin = self.origin;
        let mut events: Vec<OutputEvent> = Vec::new();
        let mut pending: Vec<u8> = Vec::new();
        proof {
            use_type_invariant(&*self);
        }
        core::mem::swap(&mut self.pending, &mut pending);
        let mut i: usize = 0;
        proof {
            lemma_append_within_line(Seq::empty(), before);
            assert(Seq::<u8>::empty() + before =~= before);
            assert(before + chunk@.subrange(0, 0) =~= before);
            assert(event_views(events@) =~= Seq::<OutputEventView>::empty());
        }
        while i < chunk.len()
            invariant
                i <= chunk.len(),
                self.origin == origin,
                pending@ == unfinished(before + chunk@.subrange(0, i as int)),
                event_views(events@) == decoded(
                    origin,
                    complete_lines(before + chunk@.subrange(0, i as int)),
                ),
            decreases chunk.len() - i,
        {
            let byte = chunk[i];
            let ghost seen = before + chunk@.subrange(0, i as int);
            let ghost next = before + chunk@.subrange(0, i + 1);
            proof {
                assert(next.drop_last() =~= seen);
                assert(next.last() == byte);
            }
            if byte == LINE_FEED {
                let mut line: Vec<u8> = Vec::new();
                core::mem::swap(&mut pending, &mut line);
                let ghost lines = complete_lines(seen);
                proof {
                    assert(complete_lines(next) == lines.push(line@));
                    assert(lines.push(line@).drop_last() =~= lines);
                }
                match decode_text(line) {
                    Some(text) => {
                        let event = OutputEvent { origin: self.origin, line: text };
                        let ghost earlier = events@;
                        events.push(event);
                        proof {
                            assert(event_views(events@) =~= event_views(earlier).push(event@));
                        }
                    },
                    None => {},
                }
            } else {
                pending.push(byte);
            }
            i += 1;
        }
        proof {
            assert(chunk@.subrange(0, i as int) =~= chunk@);
            lemma_unfinished_is_single_line(before + chunk@);
        }
        self.pending = pending;
        events
    }

    /// Ends the stream. A last line that no line feed ended is still delivered,
    /// if it is not empty and decodes.
    pub fn finish(self) -> (last: Option<OutputEvent>)
        ensures
            match last {
                Some(event) => closing(self@.origin, self@.pending) == Some(event@),
                None => closing(self@.origin, self@.pending) is None,
            },
    {
        let StreamRouter { origin, pending } = self;
        if pending.len() == 0 {
            None
        } else {
            match decode_text(pending) {
                Some(text) => Some(OutputEvent { origin, line: text }),
                None => None,
            }
        }
    }
}

/// Reads a whole stream at once: the events of all its lines, and of what
/// follows its last line feed.
pub fn route_all(origin: Origin, bytes: &[u8]) -> (events: Vec<OutputEvent>)
    ensures
        event_views(events@) == delivered(origin, bytes@),
{
    let mut router = StreamRouter::new(origin);
    let mut events = router.feed(bytes);
    proof {
        assert(Seq::<u8>::empty() + bytes@ =~= bytes@);
    }
    match router.finish() {
        Some(event) => {
            let ghost earlier = events@;
            events.push(event);
            proof {
                assert(event_views(events@) =~= event_views(earlier).push(event@));
            }
        },
        None => {},
    }
    events
}

/// The events of two runs of lines, one after the other, are the events of the
/// first run followed by those of the second.
pub proof fn lemma_decoded_concat(origin: Origin, first: Seq<Seq<u8>>, second: Seq<Seq<u8>>)
    ensures
        decoded(origin, first + second) == decoded(origin, first) + decoded(origin, second),
    decreases second.len(),
{
    if second.len() == 0 {
        assert(first + second =~= first);
        assert(decoded(origin, first) + decoded(origin, second) =~= decoded(origin, first));
    } else {
        lemma_decoded_concat(origin, first, second.drop_last());
        assert((first + second).drop_last() =~= first + second.drop_last());
        assert((first + second).last() == second.last());
        if valid_utf8(second.last()) {
            let event = line_event(origin, second.last());
            assert((decoded(origin, first) + decoded(origin, second.drop_last())).push(event)
                =~= decoded(origin, first) + decoded(origin, second.drop_last()).push(event));
        }
    }
}

/// A stream may be fed in any two pieces: the events of the first piece followed
/// by those of the second are the events of the whole, and the same bytes are
/// held back at the end.
pub proof fn theorem_feed_in_pieces(origin: Origin, held: Seq<u8>, first: Seq<u8>, second: Seq<u8>)
    ensures
        decoded(origin, complete_lines(held + first)) + decoded(
            origin,
            complete_lines(unfinished(held + first) + second),
        ) == decoded(origin, complete_lines(held + (first + second))),
        unfinished(unfinished(held + first) + second) == unfinished(held + (first + second)),
{
    lemma_lines_resume(held + first, second);
    assert((held + first) + second =~= held + (first + second));
    lemma_decoded_concat(
        origin,
        complete_lines(held + first),
        complete_lines(unfinished(held + first) + second),
    );
}

/// The stream that a worker produces by writing `texts` as lines, in order.
pub open spec fn written_lines(texts: Seq<Seq<char>>) -> Seq<u8> {
    joined(texts.map_values(|text: Seq<char>| encode_utf8(text)))
}

/// One event of `origin` for each of `texts`, in order.
pub open spec fn text_events(origin: Origin, texts: Seq<Seq<char>>) -> Seq<OutputEventView> {
    texts.map_values(|text: Seq<char>| OutputEventView { origin, line: text })
}

/// Lines that all decode become one event each.
pub proof fn lemma_decoded_when_all_valid(origin: Origin, lines: Seq<Seq<u8>>)
    requires
        forall|k: int| 0 <= k < lines.len() ==> valid_utf8(#[trigger] lines[k]),
    ensures
        decoded(origin, lines) == lines.map_values(|line: Seq<u8>| line_event(origin, line)),
    decreases lines.len(),
{
    let events = lines.map_values(|line: Seq<u8>| line_event(origin, line));
    if lines.len() == 0 {
        assert(decoded(origin, lines) =~= events);
    } else {
        lemma_decoded_when_all_valid(origin, lines.drop_last());
        assert(valid_utf8(lines[lines.len() - 1]));
        assert(decoded(origin, lines) =~= events);
    }
}

/// Every line that the worker writes before its stream ends is delivered as
/// exactly one event, with the text that was written, in the order written.
pub proof fn theorem_every_line_is_delivered(origin: Origin, texts: Seq<Seq<char>>)
    requires
        forall|k: int| 0 <= k < texts.len() ==> !(#[trigger] texts[k]).contains('\n'),
    ensures
        delivered(origin, written_lines(texts)) == text_events(origin, texts),
{
    let lines = texts.map_values(|text: Seq<char>| encode_utf8(text));
    assert forall|k: int| 0 <= k < lines.len() implies single_line(#[trigger] lines[k])
        && valid_utf8(lines[k]) && decode_utf8(lines[k]) == texts[k] by {
        lemma_text_is_single_line(texts[k]);
        encode_utf8_valid_utf8(texts[k]);
        encode_utf8_decode_utf8(texts[k]);
    }
    lemma_lines_of_joined(lines, Seq::empty());
    assert(joined(lines) + Seq::<u8>::empty() =~= joined(lines));
    lemma_decoded_when_all_valid(origin, lines);
    assert(decoded(origin, lines) =~= text_events(origin, texts));
}

/// A line that does not decode is dropped and nothing else is: the stream
/// delivers what it would deliver without that line.
pub proof fn theorem_undecodable_line_is_skipped(
    origin: Origin,
    before: Seq<Seq<u8>>,
    bad: Seq<u8>,
    after: Seq<Seq<u8>>,
)
    requires
        forall|k: int| 0 <= k < before.len() ==> single_line(#[trigger] before[k]),
        forall|k: int| 0 <= k < after.len() ==> single_line(#[trigger] after[k]),
        single_line(bad),
        !valid_utf8(bad),
    ensures
        delivered(origin, joined(before.push(bad) + after)) == delivered(
            origin,
            joined(before + after),
        ),
{
    let with = before.push(bad) + after;
    let without = before + after;
    lemma_lines_of_joined(with, Seq::empty());
    lemma_lines_of_joined(without, Seq::empty());
    assert(joined(with) + Seq::<u8>::empty() =~= joined(with));
    assert(joined(without) + Seq::<u8>::empty() =~= joined(without));
    lemma_decoded_concat(origin, before.push(bad), after);
    lemma_decoded_concat(origin, before, after);
    assert(before.push(bad).drop_last() =~= before);
}

} // verus!
