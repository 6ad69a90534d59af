//! Parsing of server-sent-event streams from the chat providers: line
//! framing, the `data: ` payload frame, the end-of-stream marker, and the
//! extraction of text deltas from provider event payloads.

use vstd::prelude::*;

use crate::text;

verus! {

/// The position of the first occurrence of `c` in `s`, from position `i` on.
pub open spec fn find_char_from(s: Seq<char>, c: char, i: int) -> Option<int>
    decreases s.len() - i,
{
    if i < 0 || i >= s.len() {
        None
    } else if s[i] == c {
        Some(i)
    } else {
        find_char_from(s, c, i + 1)
    }
}

/// Split the first line off a stream buffer: the text before the first
/// newline, and everything after it. Returns nothing when the buffer holds no
/// complete line yet.
pub fn split_first_line(buffer: &str) -> (r: Option<(String, String)>)
    ensures
        match r {
            Some(p) => {
                &&& find_char_from(buffer@, '\n', 0) is Some
                &&& p.0@ == buffer@.subrange(0, find_char_from(buffer@, '\n', 0)->0)
                &&& p.1@ == buffer@.skip(find_char_from(buffer@, '\n', 0)->0 + 1)
            },
            None => find_char_from(buffer@, '\n', 0) is None,
        },
{
    let n = buffer.unicode_len();
    let mut i: usize = 0;
    while i < n
        invariant
            n == buffer@.len(),
            i <= n,
            find_char_from(buffer@, '\n', 0) == find_char_from(buffer@, '\n', i as int),
        decreases n - i,
    {
        let c = buffer.get_char(i);
        if c == '\n' {
            let head = buffer.substring_char(0, i).to_owned();
            let tail = buffer.substring_char(i + 1, n).to_owned();
            proof {
                assert(buffer@.skip(i + 1) =~= buffer@.subrange(i + 1, n as int));
            }
            return Some((head, tail));
        }
        i = i + 1;
    }
    None
}

/// What `str::trim` removes on each side: Unicode whitespace, a property of
/// the character alone.
pub uninterp spec fn is_space(c: char) -> bool;

/// `s` with leading whitespace removed.
pub open spec fn trim_start_spec(s: Seq<char>) -> Seq<char>
    decreases s.len(),
{
    if s.len() > 0 && is_space(s[0]) {
        trim_start_spec(s.drop_first())
    } else {
        s
    }
}

/// `s` with trailing whitespace removed.
pub open spec fn trim_end_spec(s: Seq<char>) -> Seq<char>
    decreases s.len(),
{
    if s.len() > 0 && is_space(s.last()) {
        trim_end_spec(s.drop_last())
    } else {
        s
    }
}

/// `s` with leading and trailing whitespace removed.
pub open spec fn trim_spec(s: Seq<char>) -> Seq<char> {
    trim_end_spec(trim_start_spec(s))
}

/// Relies on `str::trim`: the slice with leading and trailing Unicode
/// whitespace removed.
#[verifier::external_body]
fn trim_str(s: &str) -> (r: &str)
    ensures
        r@ == trim_spec(s@),
        s@.len() > 0 && !is_space(s@[0]) && !is_space(s@[s@.len() - 1]) ==> r@ == s@,
{
    s.trim()
}

/// The payload of an SSE data line: what follows the `data: ` marker of the
/// trimmed line, or nothing for any other line.
pub open spec fn sse_payload(line: Seq<char>) -> Option<Seq<char>> {
    let t = trim_spec(line);
    if t.len() >= "data: "@.len() && t.subrange(0, "data: "@.len() as int) == "data: "@ {
        Some(t.skip("data: "@.len() as int))
    } else {
        None
    }
}

/// Extract the payload of an SSE data line: trim the line, then strip its
/// `data: ` marker. Any other line carries no payload.
pub fn sse_data_payload(line: &str) -> (r: Option<String>)
    ensures
        match r {
            Some(p) => sse_payload(line@) == Some(p@),
            None => sse_payload(line@) is None,
        },
{
    let t = trim_str(line);
    let n = t.unicode_len();
    proof {
        reveal_strlit("data: ");
    }
    let marker = "data: ";
    if n < 6 {
        return None;
    }
    let mut i: usize = 0;
    while i < 6
        invariant
            t@ == trim_spec(line@),
            n == t@.len(),
            n >= 6,
            i <= 6,
            marker@ == "data: "@,
            marker@.len() == 6,
            forall|j: int| 0 <= j < i ==> t@[j] == marker@[j],
        decreases 6 - i,
    {
        if t.get_char(i) != marker.get_char(i) {
            proof {
                assert(t@.subrange(0, 6) != "data: "@) by {
                    assert(t@.subrange(0, 6)[i as int] == t@[i as int]);
                }
            }
            return None;
        }
        i = i + 1;
    }
    proof {
        assert(t@.subrange(0, 6) =~= "data: "@);
    }
    let payload = t.substring_char(6, n).to_owned();
    proof {
        assert(payload@ =~= trim_spec(line@).skip(6));
    }
    Some(payload)
}

/// Whether an SSE payload is the end-of-stream marker.
pub open spec fn payload_is_done(data: Seq<char>) -> bool {
    data == "[DONE]"@
}

/// Whether an SSE payload is the `[DONE]` end-of-stream marker.
pub fn sse_payload_done(data: &str) -> (r: bool)
    ensures
        r == payload_is_done(data@),
{
    text::str_eq(data, "[DONE]")
}

/// What the Anthropic event extraction reads from a JSON payload: the event's
/// `type` string, and its `delta.text` string when one is present. A function
/// of the payload text alone; nothing for a payload that is not a JSON object
/// with a string `type`.
pub uninterp spec fn anthropic_event_of(s: Seq<char>) -> Option<(Seq<char>, Option<Seq<char>>)>;

/// Relies on `serde_json::from_str` and `Value::get`/`Value::as_str`: parses
/// the payload and reads its `type` and `delta.text` strings.
#[verifier::external_body]
fn anthropic_event_fields(data: &str) -> (r: Option<(String, Option<String>)>)
    ensures
        r.deep_view() == anthropic_event_of(data@),
{
    let v: serde_json::Value = match serde_json::from_str(data) {
        Ok(v) => v,
        Err(_) => return None,
    };
    let event_type = match v.get("type").and_then(|t| t.as_str()) {
        Some(t) => t.to_string(),
        None => return None,
    };
    let delta_text = v.get("delta").and_then(|d| d.get("text")).and_then(|t| t.as_str()).map(
        |t| t.to_string(),
    );
    Some((event_type, delta_text))
}

/// The text delta an Anthropic event payload carries: the `delta.text` of a
/// `content_block_delta` event, and nothing for any other payload.
pub open spec fn anthropic_text_of(data: Seq<char>) -> Option<Seq<char>> {
    match anthropic_event_of(data) {
        Some(ev) => if ev.0 == "content_block_delta"@ {
            ev.1
        } else {
            None
        },
        None => None,
    }
}

/// Extract the text delta of an Anthropic SSE event payload: the `delta.text`
/// of a `content_block_delta` event; every other event is ignored.
pub fn anthropic_event_text(data: &str) -> (r: Option<String>)
    ensures
        match r {
            Some(t) => anthropic_text_of(data@) == Some(t@),
            None => anthropic_text_of(data@) is None,
        },
{
    match anthropic_event_fields(data) {
        Some(ev) => {
            let (event_type, delta_text) = ev;
            if text::str_eq(event_type.as_str(), "content_block_delta") {
                delta_text
            } else {
                None
            }
        },
        None => None,
    }
}

/// What the OpenAI delta extraction reads from a JSON payload: the
/// `choices[0].delta.content` string when one is present. A function of the
/// payload text alone.
pub uninterp spec fn openai_delta_of(s: Seq<char>) -> Option<Seq<char>>;

/// Relies on `serde_json::from_str` and `Value::get`/`Value::as_str`: parses
/// the payload and reads its `choices[0].delta.content` string.
#[verifier::external_body]
fn openai_delta_field(data: &str) -> (r: Option<String>)
    ensures
        r.deep_view() == openai_delta_of(data@),
{
    let v: serde_json::Value = match serde_json::from_str(data) {
        Ok(v) => v,
        Err(_) => return None,
    };
    v.get("choices").and_then(|c| c.get(0)).and_then(|c| c.get("delta")).and_then(
        |d| d.get("content"),
    ).and_then(|t| t.as_str()).map(|t| t.to_string())
}

/// Extract the text delta of an OpenAI SSE event payload: the
/// `choices[0].delta.content` string; every other payload is ignored.
pub fn openai_event_text(data: &str) -> (r: Option<String>)
    ensures
        match r {
            Some(t) => openai_delta_of(data@) == Some(t@),
            None => openai_delta_of(data@) is None,
        },
{
    openai_delta_field(data)
}

} // verus!
