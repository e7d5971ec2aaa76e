//! Framed answers of the Kagi web endpoints.
//!
//! The subscriber summarizer and the Assistant answer with a body made of
//! frames separated by a NUL character and a newline; each frame is a tag, a
//! colon and a payload. This module cuts a body into its frames and decides,
//! for each kind of stream, what a frame means and how a complete stream ends.
use vstd::prelude::*;

use crate::error::{fails_with, ErrorKind, KagiError};
use crate::http::{html_to_text, strip_html_to_text};
use crate::text::{
    blank, chars_of, has_char, is_blank, join_with, string_of_range, string_views, trim_ws, trimmed,
};

verus! {

/// The pieces of `s` between occurrences of the separator `"\0\n"`, found
/// from the left (`str::split("\0\n")`).
pub open spec fn split_frames(s: Seq<char>) -> Seq<Seq<char>>
    decreases s.len(),
{
    if s.len() == 0 {
        seq![Seq::<char>::empty()]
    } else if s.len() >= 2 && s[0] == '\0' && s[1] == '\n' {
        seq![Seq::<char>::empty()] + split_frames(s.skip(2))
    } else {
        let rest = split_frames(s.skip(1));
        rest.update(0, seq![s[0]] + rest[0])
    }
}

/// `parts` with `p` put in front of its first piece.
pub open spec fn prefix_first(p: Seq<char>, parts: Seq<Seq<char>>) -> Seq<Seq<char>> {
    parts.update(0, p + parts[0])
}

/// Splitting always yields at least one piece.
pub proof fn lemma_split_frames_nonempty(s: Seq<char>)
    ensures
        split_frames(s).len() >= 1,
    decreases s.len(),
{
    if s.len() == 0 {
    } else if s.len() >= 2 && s[0] == '\0' && s[1] == '\n' {
        lemma_split_frames_nonempty(s.skip(2));
    } else {
        lemma_split_frames_nonempty(s.skip(1));
    }
}

/// The pieces of `body` between frame separators, in order.
fn frame_pieces(body: &str) -> (r: Vec<String>)
    ensures
        string_views(r@) == split_frames(body@),
{
    let v = chars_of(body);
    let mut pieces: Vec<String> = Vec::new();
    let mut start: usize = 0;
    let mut i: usize = 0;
    proof {
        assert(v@.skip(0) =~= v@);
        lemma_split_frames_nonempty(v@);
        assert(prefix_first(v@.subrange(0, 0), split_frames(v@)) =~= split_frames(v@));
        assert(string_views(pieces@) =~= Seq::<Seq<char>>::empty());
        assert(split_frames(v@) =~= string_views(pieces@) + prefix_first(
            v@.subrange(0, 0),
            split_frames(v@.skip(0)),
        ));
    }
    while i < v.len()
        invariant
            v@ == body@,
            start <= i <= v.len(),
            split_frames(v@) == string_views(pieces@) + prefix_first(
                v@.subrange(start as int, i as int),
                split_frames(v@.skip(i as int)),
            ),
        decreases v.len() - i,
    {
        let ghost cur = v@.subrange(start as int, i as int);
        let ghost tail = v@.skip(i as int);
        proof {
            lemma_split_frames_nonempty(tail);
        }
        if i + 1 < v.len() && v[i] == '\0' && v[i + 1] == '\n' {
            let piece = string_of_range(&v, start, i);
            let ghost old_pieces = pieces@;
            pieces.push(piece);
            proof {
                assert(tail.skip(2) =~= v@.skip(i + 2));
                let rest = split_frames(tail.skip(2));
                lemma_split_frames_nonempty(tail.skip(2));
                assert(split_frames(tail) == seq![Seq::<char>::empty()] + rest);
                assert(prefix_first(cur, split_frames(tail)) =~= seq![cur] + rest);
                assert(prefix_first(Seq::<char>::empty(), rest) =~= rest);
                assert(string_views(pieces@) =~= string_views(old_pieces).push(cur));
                assert(v@.subrange(i + 2, i + 2) =~= Seq::<char>::empty());
                assert(string_views(old_pieces) + (seq![cur] + rest) =~= string_views(
                    old_pieces,
                ).push(cur) + rest);
            }
            i = i + 2;
            start = i;
        } else {
            proof {
                assert(tail.skip(1) =~= v@.skip(i + 1));
                let rest = split_frames(tail.skip(1));
                lemma_split_frames_nonempty(tail.skip(1));
                assert(tail[0] == v@[i as int]);
                assert(split_frames(tail) == rest.update(0, seq![tail[0]] + rest[0]));
                assert(v@.subrange(start as int, i + 1) =~= cur.push(v@[i as int]));
                assert(cur + (seq![tail[0]] + rest[0]) =~= cur.push(v@[i as int]) + rest[0]);
                assert(prefix_first(cur, split_frames(tail)) =~= prefix_first(
                    cur.push(v@[i as int]),
                    rest,
                ));
            }
            i = i + 1;
        }
    }
    let last = string_of_range(&v, start, v.len());
    let ghost old_pieces = pieces@;
    pieces.push(last);
    proof {
        let cur = v@.subrange(start as int, v.len() as int);
        assert(v@.skip(v.len() as int) =~= Seq::<char>::empty());
        assert(split_frames(Seq::<char>::empty()) == seq![Seq::<char>::empty()]);
        assert(prefix_first(cur, seq![Seq::<char>::empty()]) =~= seq![cur]);
        assert(string_views(pieces@) =~= string_views(old_pieces).push(cur));
        assert(string_views(old_pieces) + seq![cur] =~= string_views(old_pieces).push(cur));
    }
    pieces
}

/// The index of the first `c` in `s`, or the length of `s` when there is none.
pub open spec fn char_index(s: Seq<char>, c: char) -> int
    decreases s.len(),
{
    if s.len() == 0 {
        0
    } else if s[0] == c {
        0
    } else {
        1 + char_index(s.drop_first(), c)
    }
}

/// `char_index` is the first position holding `c`.
pub proof fn lemma_char_index(s: Seq<char>, c: char, i: int)
    requires
        0 <= i <= s.len(),
        forall|k: int| 0 <= k < i ==> s[k] != c,
        i == s.len() || s[i] == c,
    ensures
        char_index(s, c) == i,
    decreases s.len(),
{
    if s.len() > 0 && s[0] != c {
        assert forall|k: int| 0 <= k < i - 1 implies s.drop_first()[k] != c by {
            assert(s.drop_first()[k] == s[k + 1]);
        }
        lemma_char_index(s.drop_first(), c, i - 1);
    }
}

/// One frame of a stream: its tag and its payload.
#[derive(Debug, Clone)]
pub struct StreamFrame {
    pub tag: String,
    pub payload: String,
}

/// The frame that a piece holds: the text before its first colon and the text
/// after it; none for a blank piece or one without a colon.
pub open spec fn piece_frame(p: Seq<char>) -> Option<(Seq<char>, Seq<char>)> {
    let k = char_index(p, ':');
    if is_blank(p) || k >= p.len() {
        None
    } else {
        Some((p.take(k), p.skip(k + 1)))
    }
}

/// The frames of a sequence of pieces, in order.
pub open spec fn frames_of(pieces: Seq<Seq<char>>) -> Seq<(Seq<char>, Seq<char>)>
    decreases pieces.len(),
{
    if pieces.len() == 0 {
        seq![]
    } else {
        let init = frames_of(pieces.drop_last());
        match piece_frame(pieces.last()) {
            Some(f) => init.push(f),
            None => init,
        }
    }
}

/// The frames of a stream body: its non-blank pieces that hold a colon, each
/// cut at its first colon.
pub open spec fn stream_frames(body: Seq<char>) -> Seq<(Seq<char>, Seq<char>)> {
    frames_of(split_frames(body))
}

/// The tag and payload of each frame.
pub open spec fn frame_views(v: Seq<StreamFrame>) -> Seq<(Seq<char>, Seq<char>)> {
    v.map_values(|f: StreamFrame| (f.tag@, f.payload@))
}

/// The frame that a piece holds, if any.
fn frame_of_piece(piece: &str) -> (r: Option<StreamFrame>)
    ensures
        match piece_frame(piece@) {
            Some(f) => r matches Some(x) && x.tag@ == f.0 && x.payload@ == f.1,
            None => r is None,
        },
{
    if blank(piece) {
        return None;
    }
    let v = chars_of(piece);
    let mut i: usize = 0;
    while i < v.len() && v[i] != ':'
        invariant
            v@ == piece@,
            i <= v.len(),
            forall|k: int| 0 <= k < i ==> v@[k] != ':',
        decreases v.len() - i,
    {
        i = i + 1;
    }
    proof {
        lemma_char_index(v@, ':', i as int);
    }
    if i == v.len() {
        return None;
    }
    let tag = string_of_range(&v, 0, i);
    let payload = string_of_range(&v, i + 1, v.len());
    proof {
        assert(v@.subrange(0, i as int) =~= v@.take(i as int));
        assert(v@.subrange(i + 1, v.len() as int) =~= v@.skip(i + 1));
    }
    Some(StreamFrame { tag, payload })
}

/// The frames of a stream body: `body.split("\0\n")`, without blank pieces,
/// each piece cut at its first colon (a piece without one is skipped).
pub fn split_stream_frames(body: &str) -> (r: Vec<StreamFrame>)
    ensures
        frame_views(r@) == stream_frames(body@),
{
    let pieces = frame_pieces(body);
    let ghost views = string_views(pieces@);
    let mut frames: Vec<StreamFrame> = Vec::new();
    let mut j: usize = 0;
    proof {
        assert(views.take(0) =~= Seq::<Seq<char>>::empty());
        assert(frame_views(frames@) =~= Seq::<(Seq<char>, Seq<char>)>::empty());
    }
    while j < pieces.len()
        invariant
            views == string_views(pieces@),
            views == split_frames(body@),
            j <= pieces.len(),
            frame_views(frames@) == frames_of(views.take(j as int)),
        decreases pieces.len() - j,
    {
        let f = frame_of_piece(pieces[j].as_str());
        proof {
            assert(views.take(j + 1).drop_last() =~= views.take(j as int));
            assert(views.take(j + 1).last() == pieces@[j as int]@);
        }
        match f {
            Some(x) => {
                let ghost old_frames = frames@;
                let ghost fx = (x.tag@, x.payload@);
                frames.push(x);
                proof {
                    assert(frame_views(frames@) =~= frame_views(old_frames).push(fx));
                }
            },
            None => {},
        }
        j = j + 1;
    }
    proof {
        assert(views.take(pieces.len() as int) =~= views);
    }
    frames
}

/// The kinds of framed answers.
#[derive(Debug, Clone, Copy, PartialEq, Eq, Structural)]
pub enum StreamKind {
    /// The subscriber summarizer's answer.
    SubscriberSummary,
    /// The Assistant's answer to a prompt.
    AssistantPrompt,
    /// The Assistant's answer when a thread is opened.
    AssistantThreadOpen,
    /// The Assistant's list of threads.
    AssistantThreadList,
    /// The Assistant's answer to a thread deletion.
    AssistantThreadDelete,
}

/// What a frame means in a stream of a given kind.
#[derive(Debug, Clone, Copy, PartialEq, Eq, Structural)]
pub enum FrameRole {
    /// Version and trace of the answer (`hi`).
    Hello,
    /// The user's thread tags (`tags.json`).
    Tags,
    /// The thread (`thread.json`).
    Thread,
    /// A message (`new_message.json`); the last one counts.
    Message,
    /// All messages of a thread (`messages.json`).
    Messages,
    /// A page of the thread list (`thread_list.html`).
    ThreadList,
    /// The acknowledgement of a deletion (`ok`).
    Acknowledged,
    /// A rate-limit notice (`limit_notice.html`), which ends the stream.
    RateLimited,
    /// The session was refused (`unauthorized`), which ends the stream.
    Unauthorized,
    /// A frame this kind of stream does not use.
    Ignored,
}

/// The role of a frame with tag `tag` in a stream of kind `kind`.
pub open spec fn frame_role(kind: StreamKind, tag: Seq<char>) -> FrameRole {
    let assistant = kind != StreamKind::SubscriberSummary;
    if tag == "hi"@ && kind != StreamKind::AssistantThreadDelete {
        FrameRole::Hello
    } else if tag == "tags.json"@ && (kind == StreamKind::AssistantThreadOpen || kind
        == StreamKind::AssistantThreadList) {
        FrameRole::Tags
    } else if tag == "thread.json"@ && (kind == StreamKind::AssistantPrompt || kind
        == StreamKind::AssistantThreadOpen) {
        FrameRole::Thread
    } else if tag == "new_message.json"@ && (kind == StreamKind::SubscriberSummary || kind
        == StreamKind::AssistantPrompt) {
        FrameRole::Message
    } else if tag == "messages.json"@ && kind == StreamKind::AssistantThreadOpen {
        FrameRole::Messages
    } else if tag == "thread_list.html"@ && kind == StreamKind::AssistantThreadList {
        FrameRole::ThreadList
    } else if tag == "ok"@ && kind == StreamKind::AssistantThreadDelete {
        FrameRole::Acknowledged
    } else if tag == "limit_notice.html"@ && assistant {
        FrameRole::RateLimited
    } else if tag == "unauthorized"@ && assistant {
        FrameRole::Unauthorized
    } else {
        FrameRole::Ignored
    }
}

/// The message of a rate-limit notice: the text of its HTML, or a default
/// when it has none.
pub open spec fn rate_limit_message(payload: Seq<char>) -> Seq<char> {
    let detail = html_to_text(payload);
    if detail.len() == 0 {
        "Kagi Assistant rate limited this request"@
    } else {
        detail
    }
}

/// The role of a frame, or the error it ends the stream with: a rate-limit
/// notice is a configuration error carrying the notice's text, a refused
/// session an authentication error.
pub fn classify_frame(kind: StreamKind, frame: &StreamFrame) -> (r: Result<FrameRole, KagiError>)
    ensures
        frame_role(kind, frame.tag@) == FrameRole::RateLimited ==> fails_with(
            r,
            ErrorKind::Config,
            rate_limit_message(frame.payload@),
        ),
        frame_role(kind, frame.tag@) == FrameRole::Unauthorized ==> fails_with(
            r,
            ErrorKind::Auth,
            "invalid or expired Kagi session token"@,
        ),
        frame_role(kind, frame.tag@) != FrameRole::RateLimited && frame_role(kind, frame.tag@)
            != FrameRole::Unauthorized ==> r == Ok::<FrameRole, KagiError>(
            frame_role(kind, frame.tag@),
        ),
{
    let tag = frame.tag.as_str();
    let assistant = kind != StreamKind::SubscriberSummary;
    let role = if crate::text::str_equal(tag, "hi") && kind != StreamKind::AssistantThreadDelete {
        FrameRole::Hello
    } else if crate::text::str_equal(tag, "tags.json") && (kind == StreamKind::AssistantThreadOpen
        || kind == StreamKind::AssistantThreadList) {
        FrameRole::Tags
    } else if crate::text::str_equal(tag, "thread.json") && (kind == StreamKind::AssistantPrompt
        || kind == StreamKind::AssistantThreadOpen) {
        FrameRole::Thread
    } else if crate::text::str_equal(tag, "new_message.json") && (kind
        == StreamKind::SubscriberSummary || kind == StreamKind::AssistantPrompt) {
        FrameRole::Message
    } else if crate::text::str_equal(tag, "messages.json") && kind
        == StreamKind::AssistantThreadOpen {
        FrameRole::Messages
    } else if crate::text::str_equal(tag, "thread_list.html") && kind
        == StreamKind::AssistantThreadList {
        FrameRole::ThreadList
    } else if crate::text::str_equal(tag, "ok") && kind == StreamKind::AssistantThreadDelete {
        FrameRole::Acknowledged
    } else if crate::text::str_equal(tag, "limit_notice.html") && assistant {
        FrameRole::RateLimited
    } else if crate::text::str_equal(tag, "unauthorized") && assistant {
        FrameRole::Unauthorized
    } else {
        FrameRole::Ignored
    };
    match role {
        FrameRole::RateLimited => {
            let detail = strip_html_to_text(frame.payload.as_str());
            if detail.as_str().is_empty() {
                Err(KagiError::Config("Kagi Assistant rate limited this request".to_owned()))
            } else {
                Err(KagiError::Config(detail))
            }
        },
        FrameRole::Unauthorized => Err(
            KagiError::Auth("invalid or expired Kagi session token".to_owned()),
        ),
        _ => Ok(role),
    }
}

/// What the end of a subscriber summarizer stream reads of its last message.
#[derive(Debug, Clone)]
pub struct SummaryMessageStatus {
    pub state: String,
    pub reply: String,
}

/// How a subscriber summarizer stream ends, given its last message.
pub open spec fn subscriber_summary_end(last: Option<(Seq<char>, Seq<char>)>) -> Result<
    (),
    (ErrorKind, Seq<char>),
> {
    match last {
        None => Err(
            (
                ErrorKind::Parse,
                "subscriber summarizer response did not include a new_message.json frame"@,
            ),
        ),
        Some((state, reply)) => if state == "error"@ {
            if is_blank(reply) {
                Err((ErrorKind::Network, "Kagi subscriber summarizer returned an error state"@))
            } else {
                Err(
                    (
                        ErrorKind::Network,
                        "Kagi subscriber summarizer failed: "@ + trim_ws(reply),
                    ),
                )
            }
        } else {
            Ok(())
        },
    }
}

/// The end of a stream as specified: success, or an error of a class and message.
pub open spec fn ends_as(r: Result<(), KagiError>, e: Result<(), (ErrorKind, Seq<char>)>) -> bool {
    match e {
        Ok(_) => r is Ok,
        Err((k, m)) => fails_with(r, k, m),
    }
}

/// Checks the end of a subscriber summarizer stream: it must have carried a
/// message, and that message must not be in the error state.
pub fn finish_subscriber_summary(last: &Option<SummaryMessageStatus>) -> (r: Result<(), KagiError>)
    ensures
        ends_as(
            r,
            subscriber_summary_end(
                match last {
                    Some(m) => Some((m.state@, m.reply@)),
                    None => None,
                },
            ),
        ),
{
    match last {
        None => Err(
            KagiError::Parse(
                "subscriber summarizer response did not include a new_message.json frame".to_owned(),
            ),
        ),
        Some(m) => {
            if crate::text::str_equal(m.state.as_str(), "error") {
                if blank(m.reply.as_str()) {
                    Err(
                        KagiError::Network(
                            "Kagi subscriber summarizer returned an error state".to_owned(),
                        ),
                    )
                } else {
                    let detail = trimmed(m.reply.as_str());
                    Err(
                        KagiError::Network(
                            crate::text::concat(
                                "Kagi subscriber summarizer failed: ",
                                detail.as_str(),
                            ),
                        ),
                    )
                }
            } else {
                Ok(())
            }
        },
    }
}

/// What the end of an Assistant prompt stream reads of its last message.
#[derive(Debug, Clone)]
pub struct AssistantMessageStatus {
    pub state: String,
    pub markdown: Option<String>,
    pub reply_html: Option<String>,
}

/// How an Assistant prompt stream ends, given whether it carried a thread and
/// its last message (state, markdown, reply HTML).
pub open spec fn assistant_prompt_end(
    has_thread: bool,
    last: Option<(Seq<char>, Option<Seq<char>>, Option<Seq<char>>)>,
) -> Result<(), (ErrorKind, Seq<char>)> {
    if !has_thread {
        Err((ErrorKind::Parse, "assistant response did not include a thread.json frame"@))
    } else {
        match last {
            None => Err(
                (ErrorKind::Parse, "assistant response did not include a new_message.json frame"@),
            ),
            Some((state, markdown, reply_html)) => if state == "error"@ {
                Err(
                    (
                        ErrorKind::Network,
                        match markdown {
                            Some(m) => m,
                            None => match reply_html {
                                Some(h) => h,
                                None => "Kagi Assistant returned an error state"@,
                            },
                        },
                    ),
                )
            } else {
                Ok(())
            },
        }
    }
}

/// Checks the end of an Assistant prompt stream: it must have carried a
/// thread and a message, and the message must not be in the error state (the
/// error then carries the message's markdown, else its HTML reply).
pub fn finish_assistant_prompt(has_thread: bool, last: &Option<AssistantMessageStatus>) -> (r:
    Result<(), KagiError>)
    ensures
        ends_as(
            r,
            assistant_prompt_end(
                has_thread,
                match last {
                    Some(m) => Some(
                        (
                            m.state@,
                            crate::text::opt_view(m.markdown),
                            crate::text::opt_view(m.reply_html),
                        ),
                    ),
                    None => None,
                },
            ),
        ),
{
    if !has_thread {
        return Err(
            KagiError::Parse("assistant response did not include a thread.json frame".to_owned()),
        );
    }
    match last {
        None => Err(
            KagiError::Parse(
                "assistant response did not include a new_message.json frame".to_owned(),
            ),
        ),
        Some(m) => {
            if crate::text::str_equal(m.state.as_str(), "error") {
                let detail = match &m.markdown {
                    Some(md) => md.clone(),
                    None => match &m.reply_html {
                        Some(h) => h.clone(),
                        None => "Kagi Assistant returned an error state".to_owned(),
                    },
                };
                Err(KagiError::Network(detail))
            } else {
                Ok(())
            }
        },
    }
}

/// Checks the end of a thread-open stream: it must have carried the thread
/// and its messages.
pub fn finish_assistant_thread_open(has_thread: bool, has_messages: bool) -> (r: Result<
    (),
    KagiError,
>)
    ensures
        !has_thread ==> fails_with(
            r,
            ErrorKind::Parse,
            "assistant thread open response did not include a thread.json frame"@,
        ),
        has_thread && !has_messages ==> fails_with(
            r,
            ErrorKind::Parse,
            "assistant thread open response did not include a messages.json frame"@,
        ),
        has_thread && has_messages ==> r is Ok,
{
    if !has_thread {
        return Err(
            KagiError::Parse(
                "assistant thread open response did not include a thread.json frame".to_owned(),
            ),
        );
    }
    if !has_messages {
        return Err(
            KagiError::Parse(
                "assistant thread open response did not include a messages.json frame".to_owned(),
            ),
        );
    }
    Ok(())
}

/// Checks the end of a thread-list stream: it must have carried a page of
/// the list.
pub fn finish_assistant_thread_list(has_page: bool) -> (r: Result<(), KagiError>)
    ensures
        !has_page ==> fails_with(
            r,
            ErrorKind::Parse,
            "assistant thread list response did not include a thread_list.html frame"@,
        ),
        has_page ==> r is Ok,
{
    if has_page {
        Ok(())
    } else {
        Err(
            KagiError::Parse(
                "assistant thread list response did not include a thread_list.html frame".to_owned(),
            ),
        )
    }
}

/// The end of a thread-delete stream: once an acknowledgement without a
/// payload has come, the thread is reported deleted; a stream without one is
/// an error.
pub fn finish_assistant_thread_delete(acknowledged: bool, thread_id: &str) -> (r: Result<
    Vec<String>,
    KagiError,
>)
    ensures
        acknowledged ==> (r matches Ok(ids) && string_views(ids@) == seq![thread_id@]),
        !acknowledged ==> fails_with(
            r,
            ErrorKind::Parse,
            "assistant thread delete response did not include an ok frame"@,
        ),
{
    if acknowledged {
        let mut ids: Vec<String> = Vec::new();
        ids.push(thread_id.to_owned());
        proof {
            assert(string_views(ids@) =~= seq![thread_id@]);
        }
        Ok(ids)
    } else {
        Err(
            KagiError::Parse(
                "assistant thread delete response did not include an ok frame".to_owned(),
            ),
        )
    }
}

/// Joining after a first piece puts the separator after that piece.
proof fn lemma_join_prepend(a: Seq<char>, rest: Seq<Seq<char>>, sep: Seq<char>)
    requires
        rest.len() >= 1,
    ensures
        join_with(seq![a] + rest, sep) == a + sep + join_with(rest, sep),
    decreases rest.len(),
{
    let whole = seq![a] + rest;
    if rest.len() == 1 {
        assert(whole.drop_last() =~= seq![a]);
        assert(whole.last() == rest[0]);
        assert(join_with(seq![a], sep) == a);
        assert(join_with(rest, sep) == rest[0]);
        assert(join_with(whole, sep) == join_with(whole.drop_last(), sep) + sep + whole.last());
    } else {
        assert(whole.drop_last() =~= seq![a] + rest.drop_last());
        assert(whole.last() == rest.last());
        lemma_join_prepend(a, rest.drop_last(), sep);
        assert(a + sep + join_with(rest.drop_last(), sep) + sep + rest.last() =~= a + sep + (
        join_with(rest.drop_last(), sep) + sep + rest.last()));
    }
}

/// Joining after putting text in front of the first piece puts that text in
/// front of the whole.
proof fn lemma_join_prefix_first(p: Seq<char>, parts: Seq<Seq<char>>, sep: Seq<char>)
    requires
        parts.len() >= 1,
    ensures
        join_with(prefix_first(p, parts), sep) == p + join_with(parts, sep),
    decreases parts.len(),
{
    let q = prefix_first(p, parts);
    if parts.len() > 1 {
        assert(q.drop_last() =~= prefix_first(p, parts.drop_last()));
        assert(q.last() == parts.last());
        lemma_join_prefix_first(p, parts.drop_last(), sep);
        assert(p + join_with(parts.drop_last(), sep) + sep + parts.last() =~= p + (join_with(
            parts.drop_last(),
            sep,
        ) + sep + parts.last()));
    }
}

/// Splitting a body at its separators and joining the pieces with the
/// separator gives the body back: no character is lost or added.
pub proof fn law_split_frames_roundtrip(body: Seq<char>)
    ensures
        join_with(split_frames(body), "\0\n"@) == body,
    decreases body.len(),
{
    reveal_strlit("\0\n");
    let sep = "\0\n"@;
    assert(sep =~= seq!['\0', '\n']);
    if body.len() == 0 {
    } else if body.len() >= 2 && body[0] == '\0' && body[1] == '\n' {
        let rest = split_frames(body.skip(2));
        law_split_frames_roundtrip(body.skip(2));
        lemma_split_frames_nonempty(body.skip(2));
        lemma_join_prepend(Seq::<char>::empty(), rest, sep);
        assert(Seq::<char>::empty() + sep + body.skip(2) =~= body);
    } else {
        let rest = split_frames(body.skip(1));
        law_split_frames_roundtrip(body.skip(1));
        lemma_split_frames_nonempty(body.skip(1));
        lemma_join_prefix_first(seq![body[0]], rest, sep);
        assert(seq![body[0]] + body.skip(1) =~= body);
    }
}

/// `char_index` stops at the first `c`.
proof fn lemma_char_index_first(s: Seq<char>, c: char)
    ensures
        0 <= char_index(s, c) <= s.len(),
        forall|k: int| 0 <= k < char_index(s, c) ==> s[k] != c,
        char_index(s, c) < s.len() ==> s[char_index(s, c)] == c,
    decreases s.len(),
{
    if s.len() > 0 && s[0] != c {
        lemma_char_index_first(s.drop_first(), c);
        assert forall|k: int| 0 <= k < char_index(s, c) implies s[k] != c by {
            if k > 0 {
                assert(s[k] == s.drop_first()[k - 1]);
            }
        }
    }
}

/// Every frame of a sequence of pieces has a tag without a colon, and its
/// tag, a colon and its payload give back one of the pieces.
pub proof fn law_frames_cut_at_first_colon(pieces: Seq<Seq<char>>)
    ensures
        forall|i: int|
            0 <= i < frames_of(pieces).len() ==> {
                &&& !has_char(#[trigger] frames_of(pieces)[i].0, ':')
                &&& exists|j: int|
                    0 <= j < pieces.len() && pieces[j] == frames_of(pieces)[i].0 + seq![':']
                        + frames_of(pieces)[i].1
            },
    decreases pieces.len(),
{
    if pieces.len() > 0 {
        let init = pieces.drop_last();
        let p = pieces.last();
        law_frames_cut_at_first_colon(init);
        let fs = frames_of(pieces);
        assert forall|i: int| 0 <= i < fs.len() implies {
            &&& !has_char(#[trigger] fs[i].0, ':')
            &&& exists|j: int| 0 <= j < pieces.len() && pieces[j] == fs[i].0 + seq![':'] + fs[i].1
        } by {
            if i < frames_of(init).len() {
                assert(fs[i] == frames_of(init)[i]);
                let j = choose|j: int|
                    0 <= j < init.len() && init[j] == frames_of(init)[i].0 + seq![':']
                        + frames_of(init)[i].1;
                assert(pieces[j] == init[j]);
            } else {
                let k = char_index(p, ':');
                lemma_char_index_first(p, ':');
                assert(fs[i] == (p.take(k), p.skip(k + 1)));
                assert(p.take(k) + seq![':'] + p.skip(k + 1) =~= p);
                assert(pieces[pieces.len() - 1] == p);
            }
        }
    }
}

/// Whether a frame of this role ends the stream with an error.
pub open spec fn ends_stream(role: FrameRole) -> bool {
    role == FrameRole::RateLimited || role == FrameRole::Unauthorized
}

/// The role of frame `j` of `frames`.
pub open spec fn role_at(kind: StreamKind, frames: Seq<StreamFrame>, j: int) -> FrameRole {
    frame_role(kind, frames[j].tag@)
}

/// `end` is the index of the first frame that ends the stream, or the
/// number of frames when none does.
pub open spec fn is_stream_end(kind: StreamKind, frames: Seq<StreamFrame>, end: int) -> bool {
    &&& 0 <= end <= frames.len()
    &&& forall|j: int| 0 <= j < end ==> !ends_stream(#[trigger] role_at(kind, frames, j))
    &&& end < frames.len() ==> ends_stream(role_at(kind, frames, end))
}

/// `found` is the last frame before `end` with role `role`, if any.
pub open spec fn is_last_of_role(
    kind: StreamKind,
    frames: Seq<StreamFrame>,
    role: FrameRole,
    end: int,
    found: Option<usize>,
) -> bool {
    match found {
        Some(i) => {
            &&& i < end
            &&& role_at(kind, frames, i as int) == role
            &&& forall|j: int| i < j < end ==> #[trigger] role_at(kind, frames, j) != role
        },
        None => forall|j: int| 0 <= j < end ==> #[trigger] role_at(kind, frames, j) != role,
    }
}

/// Which frames of a stream count: the stream is read up to `end`, where a
/// frame that ends it (with `failure`) stands, if any; of each role that
/// carries data, the last frame before `end` counts.
#[derive(Debug, Clone)]
pub struct StreamSelection {
    pub end: usize,
    pub failure: Option<KagiError>,
    pub hello: Option<usize>,
    pub tags: Option<usize>,
    pub thread: Option<usize>,
    pub message: Option<usize>,
    pub messages: Option<usize>,
    pub thread_list: Option<usize>,
}

/// The first frame that ends the stream, with its error.
fn stream_end(kind: StreamKind, frames: &Vec<StreamFrame>) -> (r: (usize, Option<KagiError>))
    ensures
        is_stream_end(kind, frames@, r.0 as int),
        r.0 == frames.len() ==> r.1 is None,
        r.0 < frames.len() ==> (r.1 matches Some(e) && fails_with(
            Err::<FrameRole, KagiError>(e),
            if role_at(kind, frames@, r.0 as int) == FrameRole::RateLimited {
                ErrorKind::Config
            } else {
                ErrorKind::Auth
            },
            if role_at(kind, frames@, r.0 as int) == FrameRole::RateLimited {
                rate_limit_message(frames@[r.0 as int].payload@)
            } else {
                "invalid or expired Kagi session token"@
            },
        )),
{
    let mut i: usize = 0;
    while i < frames.len()
        invariant
            i <= frames.len(),
            forall|j: int| 0 <= j < i ==> !ends_stream(#[trigger] role_at(kind, frames@, j)),
        decreases frames.len() - i,
    {
        match classify_frame(kind, &frames[i]) {
            Err(e) => {
                return (i, Some(e));
            },
            Ok(_) => {},
        }
        i = i + 1;
    }
    (i, None)
}

/// The last frame before `end` with role `role`.
fn last_of_role(kind: StreamKind, frames: &Vec<StreamFrame>, role: FrameRole, end: usize) -> (r:
    Option<usize>)
    requires
        is_stream_end(kind, frames@, end as int),
        !ends_stream(role),
    ensures
        is_last_of_role(kind, frames@, role, end as int, r),
{
    let mut j: usize = end;
    while j > 0
        invariant
            j <= end,
            is_stream_end(kind, frames@, end as int),
            forall|k: int| j <= k < end ==> #[trigger] role_at(kind, frames@, k) != role,
        decreases j,
    {
        assert(!ends_stream(role_at(kind, frames@, j - 1)));
        if let Ok(found) = classify_frame(kind, &frames[j - 1]) {
            if found == role {
                return Some(j - 1);
            }
        }
        j = j - 1;
    }
    None
}

/// Selects the frames of a stream that count (see [`StreamSelection`]).
pub fn select_stream_frames(kind: StreamKind, frames: &Vec<StreamFrame>) -> (r: StreamSelection)
    ensures
        is_stream_end(kind, frames@, r.end as int),
        r.end == frames.len() ==> r.failure is None,
        r.end < frames.len() ==> (r.failure matches Some(e) && fails_with(
            Err::<FrameRole, KagiError>(e),
            if role_at(kind, frames@, r.end as int) == FrameRole::RateLimited {
                ErrorKind::Config
            } else {
                ErrorKind::Auth
            },
            if role_at(kind, frames@, r.end as int) == FrameRole::RateLimited {
                rate_limit_message(frames@[r.end as int].payload@)
            } else {
                "invalid or expired Kagi session token"@
            },
        )),
        is_last_of_role(kind, frames@, FrameRole::Hello, r.end as int, r.hello),
        is_last_of_role(kind, frames@, FrameRole::Tags, r.end as int, r.tags),
        is_last_of_role(kind, frames@, FrameRole::Thread, r.end as int, r.thread),
        is_last_of_role(kind, frames@, FrameRole::Message, r.end as int, r.message),
        is_last_of_role(kind, frames@, FrameRole::Messages, r.end as int, r.messages),
        is_last_of_role(kind, frames@, FrameRole::ThreadList, r.end as int, r.thread_list),
{
    let (end, failure) = stream_end(kind, frames);
    StreamSelection {
        end,
        failure,
        hello: last_of_role(kind, frames, FrameRole::Hello, end),
        tags: last_of_role(kind, frames, FrameRole::Tags, end),
        thread: last_of_role(kind, frames, FrameRole::Thread, end),
        message: last_of_role(kind, frames, FrameRole::Message, end),
        messages: last_of_role(kind, frames, FrameRole::Messages, end),
        thread_list: last_of_role(kind, frames, FrameRole::ThreadList, end),
    }
}

/// Each kind of stream recognizes the frame that its own finish check asks
/// for: the thread list reads `thread_list.html`, an opened thread reads
/// `thread.json` and `messages.json`, a prompt reads `thread.json` and
/// `new_message.json`, a summary reads `new_message.json`, a deletion reads
/// `ok`. Every kind but the deletion takes `hi` as its hello; the Assistant's
/// kinds end on a rate-limit notice or a refused session, while the
/// summarizer ignores both. A frame that belongs to another kind is ignored.
pub proof fn law_stream_kinds_recognize_their_frames()
    ensures
        frame_role(StreamKind::AssistantThreadList, "thread_list.html"@) == FrameRole::ThreadList,
        frame_role(StreamKind::AssistantThreadList, "tags.json"@) == FrameRole::Tags,
        frame_role(StreamKind::AssistantThreadOpen, "thread.json"@) == FrameRole::Thread,
        frame_role(StreamKind::AssistantThreadOpen, "messages.json"@) == FrameRole::Messages,
        frame_role(StreamKind::AssistantThreadOpen, "tags.json"@) == FrameRole::Tags,
        frame_role(StreamKind::AssistantPrompt, "thread.json"@) == FrameRole::Thread,
        frame_role(StreamKind::AssistantPrompt, "new_message.json"@) == FrameRole::Message,
        frame_role(StreamKind::SubscriberSummary, "new_message.json"@) == FrameRole::Message,
        frame_role(StreamKind::AssistantThreadDelete, "ok"@) == FrameRole::Acknowledged,
        forall|k: StreamKind|
            k != StreamKind::AssistantThreadDelete ==> #[trigger] frame_role(k, "hi"@)
                == FrameRole::Hello,
        frame_role(StreamKind::AssistantThreadDelete, "hi"@) == FrameRole::Ignored,
        forall|k: StreamKind|
            k != StreamKind::SubscriberSummary ==> #[trigger] frame_role(k, "limit_notice.html"@)
                == FrameRole::RateLimited,
        forall|k: StreamKind|
            k != StreamKind::SubscriberSummary ==> #[trigger] frame_role(k, "unauthorized"@)
                == FrameRole::Unauthorized,
        frame_role(StreamKind::SubscriberSummary, "limit_notice.html"@) == FrameRole::Ignored,
        frame_role(StreamKind::SubscriberSummary, "unauthorized"@) == FrameRole::Ignored,
        frame_role(StreamKind::SubscriberSummary, "thread_list.html"@) == FrameRole::Ignored,
        frame_role(StreamKind::AssistantPrompt, "thread_list.html"@) == FrameRole::Ignored,
        frame_role(StreamKind::AssistantThreadOpen, "thread_list.html"@) == FrameRole::Ignored,
        frame_role(StreamKind::AssistantThreadList, "thread.json"@) == FrameRole::Ignored,
        frame_role(StreamKind::AssistantThreadDelete, "new_message.json"@) == FrameRole::Ignored,
{
    reveal_strlit("hi");
    reveal_strlit("tags.json");
    reveal_strlit("thread.json");
    reveal_strlit("new_message.json");
    reveal_strlit("messages.json");
    reveal_strlit("thread_list.html");
    reveal_strlit("ok");
    reveal_strlit("limit_notice.html");
    reveal_strlit("unauthorized");
    assert("hi"@.len() != "tags.json"@.len());
    assert("hi"@.len() != "thread.json"@.len());
    assert("hi"@.len() != "new_message.json"@.len());
    assert("hi"@.len() != "messages.json"@.len());
    assert("hi"@.len() != "thread_list.html"@.len());
    assert("hi"@[0] != "ok"@[0]);
    assert("hi"@.len() != "limit_notice.html"@.len());
    assert("hi"@.len() != "unauthorized"@.len());
    assert("tags.json"@.len() != "thread.json"@.len());
    assert("tags.json"@.len() != "new_message.json"@.len());
    assert("tags.json"@.len() != "messages.json"@.len());
    assert("tags.json"@.len() != "thread_list.html"@.len());
    assert("tags.json"@.len() != "ok"@.len());
    assert("tags.json"@.len() != "limit_notice.html"@.len());
    assert("tags.json"@.len() != "unauthorized"@.len());
    assert("thread.json"@.len() != "new_message.json"@.len());
    assert("thread.json"@.len() != "messages.json"@.len());
    assert("thread.json"@.len() != "thread_list.html"@.len());
    assert("thread.json"@.len() != "ok"@.len());
    assert("thread.json"@.len() != "limit_notice.html"@.len());
    assert("thread.json"@.len() != "unauthorized"@.len());
    assert("new_message.json"@.len() != "messages.json"@.len());
    assert("new_message.json"@[0] != "thread_list.html"@[0]);
    assert("new_message.json"@.len() != "ok"@.len());
    assert("new_message.json"@.len() != "limit_notice.html"@.len());
    assert("new_message.json"@.len() != "unauthorized"@.len());
    assert("messages.json"@.len() != "thread_list.html"@.len());
    assert("messages.json"@.len() != "ok"@.len());
    assert("messages.json"@.len() != "limit_notice.html"@.len());
    assert("messages.json"@.len() != "unauthorized"@.len());
    assert("thread_list.html"@.len() != "ok"@.len());
    assert("thread_list.html"@.len() != "limit_notice.html"@.len());
    assert("thread_list.html"@.len() != "unauthorized"@.len());
    assert("ok"@.len() != "limit_notice.html"@.len());
    assert("ok"@.len() != "unauthorized"@.len());
    assert("limit_notice.html"@.len() != "unauthorized"@.len());
}

} // verus!
