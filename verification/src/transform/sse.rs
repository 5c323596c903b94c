//! Server-sent event framing: cutting the backend's byte stream into
//! frames, reading the data of a frame, and writing the gateway's events.
//!
//! Frames are separated by a blank line (`\n\n`). Text arrives in pieces;
//! what follows the last separator waits in a buffer for the next piece.
use vstd::prelude::*;
use vstd::string::*;

use crate::anthropic::{AnthropicSSEEvent, EventModel};
use crate::text::{
    chars_of, concat, has_prefix, starts_with, string_from_chars, text_eq, trim, trim_ws, views_of,
};

verus! {

broadcast use vstd::string::group_string_axioms;

// ---------------------------------------------------------------------------
// Frames
// ---------------------------------------------------------------------------

/// The frame separator: a blank line.
pub open spec fn separator() -> Seq<char> {
    seq!['\n', '\n']
}

/// Whether a separator starts at position `i` of `s`.
pub open spec fn separator_at(s: Seq<char>, i: int) -> bool {
    0 <= i && i + 1 < s.len() && s[i] == '\n' && s[i + 1] == '\n'
}

/// Whether `s` holds no separator.
pub open spec fn no_separator(s: Seq<char>) -> bool {
    forall|i: int| !#[trigger] separator_at(s, i)
}

/// Whether `f` can be a frame: followed by a separator, the first
/// separator is the one that follows it (so it holds none, and does not end
/// with a line feed).
pub open spec fn is_frame(f: Seq<char>) -> bool {
    no_separator(f) && (f.len() > 0 ==> f.last() != '\n')
}

/// The frames, each followed by a separator, one after another.
pub open spec fn framed(frames: Seq<Seq<char>>) -> Seq<char>
    decreases frames.len(),
{
    if frames.len() == 0 {
        Seq::empty()
    } else {
        framed(frames.drop_last()) + frames.last() + separator()
    }
}

/// Whether `frames` and `rest` are how `text` cuts into frames: the
/// framed frames followed by the rest make up the text, each frame ends at
/// the first separator after its start, and the rest holds no separator.
pub open spec fn frames_of(text: Seq<char>, frames: Seq<Seq<char>>, rest: Seq<char>) -> bool {
    &&& framed(frames) + rest == text
    &&& forall|i: int| 0 <= i < frames.len() ==> is_frame(#[trigger] frames[i])
    &&& no_separator(rest)
}

/// Appends `text` to `buffer` and takes out every complete frame, in order;
/// what follows the last separator stays in the buffer.
pub fn take_frames(buffer: &mut String, text: &str) -> (frames: Vec<String>)
    ensures
        frames_of(old(buffer)@ + text@, views_of(frames@), final(buffer)@),
{
    let all = concat(buffer.as_str(), text);
    let cs = chars_of(all.as_str());
    let mut frames: Vec<String> = Vec::new();
    let mut start: usize = 0;
    let mut i: usize = 0;
    while cs.len() - i > 1
        invariant
            cs@ == old(buffer)@ + text@,
            start <= i <= cs@.len(),
            framed(views_of(frames@)) == cs@.take(start as int),
            forall|k: int|
                0 <= k < frames@.len() ==> is_frame(#[trigger] views_of(frames@)[k]),
            forall|j: int| start <= j < i ==> !#[trigger] separator_at(cs@, j),
        decreases cs.len() - i,
    {
        if cs[i] == '\n' && cs[i + 1] == '\n' {
            let frame = string_from_chars(&cs, start, i);
            let ghost before = views_of(frames@);
            frames.push(frame);
            let ghost after = views_of(frames@);
            assert(after =~= before.push(frame@));
            assert(after.drop_last() =~= before);
            assert(framed(after) =~= cs@.take(i + 2)) by {
                assert(cs@.take(i + 2) =~= cs@.take(start as int) + cs@.subrange(
                    start as int,
                    i as int,
                ) + separator());
            }
            assert(is_frame(frame@)) by {
                assert forall|j: int| !#[trigger] separator_at(frame@, j) by {
                    if separator_at(frame@, j) {
                        assert(separator_at(cs@, start + j));
                    }
                }
                if frame@.len() > 0 {
                    assert(!separator_at(cs@, i - 1));
                }
            }
            assert forall|k: int| 0 <= k < after.len() implies is_frame(#[trigger] after[k]) by {
                if k < before.len() {
                    assert(after[k] == before[k]);
                }
            }
            i = i + 2;
            start = i;
        } else {
            i = i + 1;
        }
    }
    let rest = string_from_chars(&cs, start, cs.len());
    assert(cs@ =~= cs@.take(start as int) + rest@);
    assert forall|j: int| !#[trigger] separator_at(rest@, j) by {
        if separator_at(rest@, j) {
            assert(separator_at(cs@, start + j));
        }
    }
    *buffer = rest;
    frames
}

/// Framing a list of frames one after another.
proof fn lemma_framed_concat(a: Seq<Seq<char>>, b: Seq<Seq<char>>)
    ensures
        framed(a + b) == framed(a) + framed(b),
    decreases b.len(),
{
    if b.len() == 0 {
        assert(a + b =~= a);
        assert(framed(a) + framed(b) =~= framed(a));
    } else {
        lemma_framed_concat(a, b.drop_last());
        assert((a + b).drop_last() =~= a + b.drop_last());
        assert((a + b).last() == b.last());
        assert(framed(a + b) =~= framed(a) + framed(b));
    }
}

/// The first frame comes first.
proof fn lemma_framed_front(frames: Seq<Seq<char>>)
    requires
        frames.len() > 0,
    ensures
        framed(frames) == frames[0] + separator() + framed(frames.drop_first()),
{
    lemma_framed_concat(seq![frames[0]], frames.drop_first());
    assert(seq![frames[0]] + frames.drop_first() =~= frames);
    assert(seq![frames[0]].drop_last() =~= Seq::<Seq<char>>::empty());
    assert(framed(seq![frames[0]].drop_last()) =~= Seq::<char>::empty());
    assert(framed(seq![frames[0]]) =~= frames[0] + separator());
}

/// A frame followed by a separator and more text: the first separator of
/// the whole stands right after the frame.
proof fn lemma_first_separator(a: Seq<char>, x: Seq<char>, j: int)
    requires
        is_frame(a),
        separator_at(a + separator() + x, j),
    ensures
        j >= a.len(),
{
    let t = a + separator() + x;
    if j < a.len() {
        if j + 1 < a.len() {
            assert(separator_at(a, j));
        } else {
            assert(a.last() == t[j]);
        }
    }
}

/// There is one way to cut a text into frames and a rest.
pub proof fn law_framing_unique(
    text: Seq<char>,
    frames1: Seq<Seq<char>>,
    rest1: Seq<char>,
    frames2: Seq<Seq<char>>,
    rest2: Seq<char>,
)
    requires
        frames_of(text, frames1, rest1),
        frames_of(text, frames2, rest2),
    ensures
        frames1 == frames2,
        rest1 == rest2,
    decreases frames1.len() + frames2.len(),
{
    if frames1.len() == 0 && frames2.len() == 0 {
        assert(framed(frames1) + rest1 =~= rest1);
        assert(framed(frames2) + rest2 =~= rest2);
    } else if frames1.len() == 0 {
        lemma_framed_front(frames2);
        let a = frames2[0];
        assert(framed(frames1) + rest1 =~= rest1);
        assert(text =~= a + separator() + (framed(frames2.drop_first()) + rest2));
        assert(separator_at(text, a.len() as int));
        assert(!separator_at(rest1, a.len() as int));
    } else if frames2.len() == 0 {
        lemma_framed_front(frames1);
        let a = frames1[0];
        assert(framed(frames2) + rest2 =~= rest2);
        assert(text =~= a + separator() + (framed(frames1.drop_first()) + rest1));
        assert(separator_at(text, a.len() as int));
        assert(!separator_at(rest2, a.len() as int));
    } else {
        lemma_framed_front(frames1);
        lemma_framed_front(frames2);
        let a = frames1[0];
        let b = frames2[0];
        let x = framed(frames1.drop_first()) + rest1;
        let y = framed(frames2.drop_first()) + rest2;
        assert(text =~= a + separator() + x);
        assert(text =~= b + separator() + y);
        assert(is_frame(a));
        assert(is_frame(b));
        assert(separator_at(text, a.len() as int));
        assert(separator_at(text, b.len() as int));
        lemma_first_separator(a, x, b.len() as int);
        lemma_first_separator(b, y, a.len() as int);
        assert(a =~= text.take(a.len() as int));
        assert(b =~= text.take(b.len() as int));
        assert(x =~= text.skip(a.len() as int + 2));
        assert(y =~= text.skip(b.len() as int + 2));
        let f1 = frames1.drop_first();
        let f2 = frames2.drop_first();
        assert forall|i: int| 0 <= i < f1.len() implies is_frame(#[trigger] f1[i]) by {
            assert(f1[i] == frames1[i + 1]);
        }
        assert forall|i: int| 0 <= i < f2.len() implies is_frame(#[trigger] f2[i]) by {
            assert(f2[i] == frames2[i + 1]);
        }
        law_framing_unique(x, f1, rest1, f2, rest2);
        assert(frames1 =~= seq![a] + f1);
        assert(frames2 =~= seq![b] + f2);
    }
}

/// Text may arrive in pieces: taking frames from a first piece and then
/// from what was left plus a second piece gives the frames, and leaves
/// the rest, that taking them from both pieces at once gives.
pub proof fn law_framing_in_pieces(
    buffer: Seq<char>,
    piece1: Seq<char>,
    piece2: Seq<char>,
    frames1: Seq<Seq<char>>,
    rest1: Seq<char>,
    frames2: Seq<Seq<char>>,
    rest2: Seq<char>,
    frames: Seq<Seq<char>>,
    rest: Seq<char>,
)
    requires
        frames_of(buffer + piece1, frames1, rest1),
        frames_of(rest1 + piece2, frames2, rest2),
        frames_of(buffer + (piece1 + piece2), frames, rest),
    ensures
        frames == frames1 + frames2,
        rest == rest2,
{
    lemma_framed_concat(frames1, frames2);
    let all = frames1 + frames2;
    assert(buffer + (piece1 + piece2) =~= framed(frames1) + rest1 + piece2);
    assert(framed(frames2) + rest2 == rest1 + piece2);
    assert(framed(frames1) + rest1 == buffer + piece1);
    assert(framed(all) + rest2 =~= framed(frames1) + (framed(frames2) + rest2));
    assert(framed(all) + rest2 =~= buffer + (piece1 + piece2));
    assert forall|i: int| 0 <= i < all.len() implies is_frame(#[trigger] all[i]) by {
        if i < frames1.len() {
            assert(all[i] == frames1[i]);
        } else {
            assert(all[i] == frames2[i - frames1.len()]);
        }
    }
    law_framing_unique(buffer + (piece1 + piece2), frames, rest, all, rest2);
}

/// The data a frame carries: its text after `data: ` (or `data:`),
/// trimmed; none for a frame without data and for the end marker `[DONE]`.
pub open spec fn frame_payload(frame: Seq<char>) -> Option<Seq<char>> {
    let body = if has_prefix(frame, "data: "@) {
        Some(frame.skip(6))
    } else if has_prefix(frame, "data:"@) {
        Some(frame.skip(5))
    } else {
        None
    };
    match body {
        Some(b) => if trim_ws(b) == "[DONE]"@ {
            None
        } else {
            Some(trim_ws(b))
        },
        None => None,
    }
}

/// The data of a frame (see `frame_payload`).
pub fn frame_data(frame: &str) -> (r: Option<String>)
    ensures
        match r {
            Some(d) => frame_payload(frame@) == Some(d@),
            None => frame_payload(frame@) is None,
        },
{
    proof {
        reveal_strlit("data: ");
        reveal_strlit("data:");
    }
    let cs = chars_of(frame);
    let body = if starts_with(frame, "data: ") {
        string_from_chars(&cs, 6, cs.len())
    } else if starts_with(frame, "data:") {
        string_from_chars(&cs, 5, cs.len())
    } else {
        return None;
    };
    let data = trim(body.as_str());
    if text_eq(data.as_str(), "[DONE]") {
        None
    } else {
        Some(data)
    }
}

// ---------------------------------------------------------------------------
// Writing events
// ---------------------------------------------------------------------------

/// The SSE event type of an Anthropic event.
pub open spec fn event_type(e: EventModel) -> Seq<char> {
    match e {
        EventModel::MessageStart(_) => "message_start"@,
        EventModel::ContentBlockStart { .. } => "content_block_start"@,
        EventModel::ContentBlockDelta { .. } => "content_block_delta"@,
        EventModel::ContentBlockStop { .. } => "content_block_stop"@,
        EventModel::MessageDelta { .. } => "message_delta"@,
        EventModel::MessageStop => "message_stop"@,
        EventModel::Ping => "ping"@,
    }
}

/// The SSE event type of `event`.
pub fn event_type_name(event: &AnthropicSSEEvent) -> (r: &'static str)
    ensures
        r@ == event_type(event@),
{
    match event {
        AnthropicSSEEvent::MessageStart { .. } => "message_start",
        AnthropicSSEEvent::ContentBlockStart { .. } => "content_block_start",
        AnthropicSSEEvent::ContentBlockDelta { .. } => "content_block_delta",
        AnthropicSSEEvent::ContentBlockStop { .. } => "content_block_stop",
        AnthropicSSEEvent::MessageDelta { .. } => "message_delta",
        AnthropicSSEEvent::MessageStop => "message_stop",
        AnthropicSSEEvent::Ping => "ping",
    }
}

/// The SSE wire form of an event whose JSON text is `data`.
pub open spec fn sse_text(event: EventModel, data: Seq<char>) -> Seq<char> {
    "event: "@ + event_type(event) + "\ndata: "@ + data + "\n\n"@
}

/// Writes `event`, whose JSON serialization is `data`, in SSE wire form:
/// `event: <type>`, `data: <json>`, then a blank line.
pub fn format_sse(event: &AnthropicSSEEvent, data: &str) -> (r: String)
    ensures
        r@ == sse_text(event@, data@),
{
    let head = concat("event: ", event_type_name(event));
    let with_data = concat(head.as_str(), "\ndata: ");
    let body = concat(with_data.as_str(), data);
    concat(body.as_str(), "\n\n")
}

} // verus!
