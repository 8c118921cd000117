//! The tagged message payload a client may send: a recent-history block and
//! the current user turn, each between a pair of markers.
use vstd::prelude::*;
use crate::text::{chars_of, find_chars, find_seq, string_of, sub_chars, trim_string, trimmed};

verus! {

pub const HISTORY_START_TAG: &'static str = "<ANIMA_HISTORY>";
pub const HISTORY_END_TAG: &'static str = "</ANIMA_HISTORY>";
pub const USER_START_TAG: &'static str = "<ANIMA_USER>";
pub const USER_END_TAG: &'static str = "</ANIMA_USER>";

/// The text between the first `start_tag` and the first `end_tag` after it.
pub open spec fn tag_content(s: Seq<char>, start_tag: Seq<char>, end_tag: Seq<char>) -> Option<Seq<char>> {
    match find_seq(s, start_tag) {
        None => None,
        Some(i) => {
            let b = i + start_tag.len();
            match find_seq(s.skip(b), end_tag) {
                None => None,
                Some(j) => Some(s.subrange(b, b + j)),
            }
        },
    }
}

/// The text between the first `start_tag` and the first `end_tag` after it.
pub fn extract_tag_content(input: &str, start_tag: &str, end_tag: &str) -> (r: Option<String>)
    ensures
        match r {
            Some(x) => tag_content(input@, start_tag@, end_tag@) == Some(x@),
            None => tag_content(input@, start_tag@, end_tag@) is None,
        },
{
    let s = chars_of(input);
    let st = chars_of(start_tag);
    let en = chars_of(end_tag);
    let i = match find_chars(&s, &st) {
        Some(i) => i,
        None => {
            return None;
        },
    };
    let n = s.len();
    assert(i + st@.len() <= n);
    let b = i + st.len();
    let rest = sub_chars(&s, b, n);
    assert(rest@ =~= s@.skip(b as int));
    let j = match find_chars(&rest, &en) {
        Some(j) => j,
        None => {
            return None;
        },
    };
    let inner = sub_chars(&s, b, b + j);
    Some(string_of(&inner))
}

/// The history block's opening sentence, before the history itself.
pub open spec fn history_heading() -> Seq<char> {
    "Historial reciente (m\u{e1}ximo 4 mensajes):\n"@
}

/// The heading between the history and the current turn.
pub open spec fn current_heading() -> Seq<char> {
    "\n\nMensaje actual del usuario:\n"@
}

/// What a payload means: the user message to store, and the prompt text for
/// the model. Without a current-turn block the whole payload is the turn.
pub open spec fn parsed_payload(p: Seq<char>) -> (Seq<char>, Seq<char>) {
    let history = match tag_content(p, HISTORY_START_TAG@, HISTORY_END_TAG@) {
        Some(h) => trimmed(h),
        None => Seq::empty(),
    };
    let user = match tag_content(p, USER_START_TAG@, USER_END_TAG@) {
        Some(u) => trimmed(u),
        None => trimmed(p),
    };
    if user.len() == 0 {
        (trimmed(p), trimmed(p))
    } else if history.len() == 0 {
        (user, user)
    } else {
        (user, history_heading() + history + current_heading() + user)
    }
}

/// Splits a client payload into the user message and the model prompt.
pub fn parse_client_message_payload(payload: &str) -> (r: (String, String))
    ensures
        (r.0@, r.1@) == parsed_payload(payload@),
{
    let history = match extract_tag_content(payload, HISTORY_START_TAG, HISTORY_END_TAG) {
        Some(h) => trim_string(h.as_str()),
        None => String::new(),
    };
    let user = match extract_tag_content(payload, USER_START_TAG, USER_END_TAG) {
        Some(u) => trim_string(u.as_str()),
        None => trim_string(payload),
    };
    if user.unicode_len() == 0 {
        return (trim_string(payload), trim_string(payload));
    }
    if history.unicode_len() == 0 {
        return (user.clone(), user);
    }
    let mut prompt = String::from_str("Historial reciente (m\u{e1}ximo 4 mensajes):\n");
    prompt.append(history.as_str());
    prompt.append("\n\nMensaje actual del usuario:\n");
    prompt.append(user.as_str());
    (user, prompt)
}

} // verus!
