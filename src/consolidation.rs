//! The sleep cycle: raw conversation is handed to the model with a strict
//! extraction instruction, and its answer is read defensively into new
//! semantic and episodic memories. A cycle that cannot read the answer
//! changes nothing.
use vstd::prelude::*;
use crate::models::ChatMessage;
use crate::text::{
    chars_of, ends_with, ends_with_chars, find_chars, find_seq, starts_with, starts_with_chars,
    same_text, string_of, sub_chars, trim_chars, trim_string, trimmed, upper_of, uppercase,
};

verus! {

/// The instruction that asks the model for the extracted memories.
pub const SUBCONSCIOUS_SYSTEM_PROMPT: &'static str = "Analyze the conversation and extract information strictly in JSON format with two keys:\n\n\"semantic\": Array of strings containing timeless facts, personality traits, rules, fears, and core identity.\n\n\"episodic\": Array of strings containing daily events, meals, mood, specific tasks done today, or chronological events.\n\nOutput only valid JSON, with exactly those two keys and string arrays. Do not include markdown, comments, or extra text.";

/// The strings of the array stored under `key` in the JSON document `text`;
/// `None` when `text` is not JSON or holds no array of strings there.
pub uninterp spec fn json_string_list(text: Seq<char>, key: Seq<char>) -> Option<Seq<Seq<char>>>;

/// Relies on serde_json's `from_str` into a `Value`, `Value::get`, and the
/// `Array` and `String` variants: the strings of the array under `key`.
#[verifier::external_body]
fn string_list_field(text: &str, key: &str) -> (r: Option<Vec<String>>)
    ensures
        match r {
            Some(v) => json_string_list(text@, key@) == Some(v@.map_values(|s: String| s@)),
            None => json_string_list(text@, key@) is None,
        },
{
    let value: serde_json::Value = serde_json::from_str(text).ok()?;
    match value.get(key) {
        Some(serde_json::Value::Array(items)) => items.iter().map(|item| item.as_str().map(|s| s.to_string())).collect(),
        _ => None,
    }
}

/// Where a bracket scan that started before position `i` closes: the
/// position just past the bracket that brings the depth back to zero.
/// Quoted text, with its backslash escapes, is skipped.
pub open spec fn scan_close(s: Seq<char>, i: int, depth: nat, in_string: bool, escape: bool, open: char, close: char) -> Option<int>
    decreases s.len() - i,
{
    if i < 0 || i >= s.len() {
        None
    } else {
        let c = s[i];
        if in_string {
            if escape {
                scan_close(s, i + 1, depth, true, false, open, close)
            } else if c == '\\' {
                scan_close(s, i + 1, depth, true, true, open, close)
            } else if c == '"' {
                scan_close(s, i + 1, depth, false, false, open, close)
            } else {
                scan_close(s, i + 1, depth, true, false, open, close)
            }
        } else if c == '"' {
            scan_close(s, i + 1, depth, true, false, open, close)
        } else if c == open {
            scan_close(s, i + 1, depth + 1, false, false, open, close)
        } else if c == close {
            if depth == 0 {
                None
            } else if depth == 1 {
                Some(i + 1)
            } else {
                scan_close(s, i + 1, (depth - 1) as nat, false, false, open, close)
            }
        } else {
            scan_close(s, i + 1, depth, false, false, open, close)
        }
    }
}

/// The first balanced `open`..`close` span of `s`, trimmed: it starts at the
/// first `open`.
pub open spec fn balanced_span(s: Seq<char>, open: char, close: char) -> Option<Seq<char>> {
    match find_seq(s, seq![open]) {
        None => None,
        Some(start) => match scan_close(s, start, 0, false, false, open, close) {
            None => None,
            Some(end) => Some(trimmed(s.subrange(start, end))),
        },
    }
}

/// The inside of `t` when it is wrapped in a code fence opened by `fence`.
pub open spec fn unfenced(t: Seq<char>, fence: Seq<char>) -> Option<Seq<char>> {
    if starts_with(t, fence) {
        let inner = trimmed(t.skip(fence.len() as int));
        if ends_with(inner, "```"@) {
            Some(trimmed(inner.take(inner.len() - "```"@.len())))
        } else {
            None
        }
    } else {
        None
    }
}

/// The array comes before the object in `t`: its opening bracket is found
/// and no opening brace precedes it.
pub open spec fn array_first(t: Seq<char>) -> bool {
    match (find_seq(t, seq!['[']), find_seq(t, seq!['{'])) {
        (Some(a), Some(o)) => a < o,
        (Some(_), None) => true,
        _ => false,
    }
}

/// The model's answer with the wrapping taken off: a markdown code fence,
/// else the prose around the first balanced JSON array or object (whichever
/// opens first, the other kind when it does not balance); otherwise the
/// answer trimmed.
pub open spec fn cleaned(response: Seq<char>) -> Seq<char> {
    let t = trimmed(response);
    let (first, second) = if array_first(t) { (('[', ']'), ('{', '}')) } else { (('{', '}'), ('[', ']')) };
    match unfenced(t, "```json"@) {
        Some(x) => x,
        None => match unfenced(t, "```"@) {
            Some(x) => x,
            None => match balanced_span(t, first.0, first.1) {
                Some(x) => x,
                None => match balanced_span(t, second.0, second.1) {
                    Some(x) => x,
                    None => t,
                },
            },
        },
    }
}

/// The first balanced `open`..`close` span of `t`, trimmed.
fn extract_first_balanced(t: &Vec<char>, open: char, close: char) -> (r: Option<Vec<char>>)
    ensures
        match r {
            Some(x) => balanced_span(t@, open, close) == Some(x@),
            None => balanced_span(t@, open, close) is None,
        },
{
    let opener = vec![open];
    assert(opener@ =~= seq![open]);
    let start = match find_chars(t, &opener) {
        Some(s) => s,
        None => {
            return None;
        },
    };
    let n = t.len();
    let mut i: usize = start;
    let mut depth: usize = 0;
    let mut in_string = false;
    let mut escape = false;
    while i < n
        invariant
            n == t@.len(),
            start <= i <= n,
            depth <= i,
            escape ==> in_string,
            find_seq(t@, seq![open]) == Some(start as int),
            scan_close(t@, start as int, 0, false, false, open, close)
                == scan_close(t@, i as int, depth as nat, in_string, escape, open, close),
        decreases n - i,
    {
        let c = t[i];
        if in_string {
            if escape {
                escape = false;
            } else if c == '\\' {
                escape = true;
            } else if c == '"' {
                in_string = false;
            }
        } else if c == '"' {
            in_string = true;
        } else if c == open {
            depth = depth + 1;
        } else if c == close {
            if depth == 0 {
                return None;
            }
            if depth == 1 {
                let span = sub_chars(t, start, i + 1);
                return Some(trim_chars(&span));
            }
            depth = depth - 1;
        }
        i = i + 1;
    }
    None
}

/// The first balanced JSON array in `text`, trimmed.
pub fn extract_first_json_array(text: &str) -> (r: Option<String>)
    ensures
        match r {
            Some(x) => balanced_span(text@, '[', ']') == Some(x@),
            None => balanced_span(text@, '[', ']') is None,
        },
{
    let t = chars_of(text);
    match extract_first_balanced(&t, '[', ']') {
        Some(x) => Some(string_of(&x)),
        None => None,
    }
}

/// The first balanced JSON object in `text`, trimmed.
pub fn extract_first_json_object(text: &str) -> (r: Option<String>)
    ensures
        match r {
            Some(x) => balanced_span(text@, '{', '}') == Some(x@),
            None => balanced_span(text@, '{', '}') is None,
        },
{
    let t = chars_of(text);
    match extract_first_balanced(&t, '{', '}') {
        Some(x) => Some(string_of(&x)),
        None => None,
    }
}

/// The inside of `t` when it is wrapped in a code fence opened by `fence`.
fn strip_fence(t: &Vec<char>, fence: &str) -> (r: Option<Vec<char>>)
    ensures
        match r {
            Some(x) => unfenced(t@, fence@) == Some(x@),
            None => unfenced(t@, fence@) is None,
        },
{
    let f = chars_of(fence);
    if !starts_with_chars(t, &f) {
        return None;
    }
    let rest = sub_chars(t, f.len(), t.len());
    assert(rest@ =~= t@.skip(f@.len() as int));
    let inner = trim_chars(&rest);
    let close = chars_of("```");
    if !ends_with_chars(&inner, &close) {
        return None;
    }
    let body = sub_chars(&inner, 0, inner.len() - close.len());
    assert(body@ =~= inner@.take(inner@.len() - close@.len()));
    Some(trim_chars(&body))
}

/// The model's answer with fences or surrounding prose taken off.
pub fn clean_json_response(response: &str) -> (r: String)
    ensures
        r@ == cleaned(response@),
{
    let t = trim_chars(&chars_of(response));
    if let Some(x) = strip_fence(&t, "```json") {
        return string_of(&x);
    }
    if let Some(x) = strip_fence(&t, "```") {
        return string_of(&x);
    }
    let bracket = vec!['['];
    let brace = vec!['{'];
    assert(bracket@ =~= seq!['[']);
    assert(brace@ =~= seq!['{']);
    let array_opens_first = match (find_chars(&t, &bracket), find_chars(&t, &brace)) {
        (Some(a), Some(o)) => a < o,
        (Some(_), None) => true,
        _ => false,
    };
    let (first_open, first_close, second_open, second_close) = if array_opens_first {
        ('[', ']', '{', '}')
    } else {
        ('{', '}', '[', ']')
    };
    if let Some(x) = extract_first_balanced(&t, first_open, first_close) {
        return string_of(&x);
    }
    if let Some(x) = extract_first_balanced(&t, second_open, second_close) {
        return string_of(&x);
    }
    string_of(&t)
}

/// The items worth keeping: each trimmed, the empty ones dropped.
pub open spec fn tidy(items: Seq<Seq<char>>) -> Seq<Seq<char>>
    decreases items.len(),
{
    if items.len() == 0 {
        items
    } else if trimmed(items.last()).len() > 0 {
        tidy(items.drop_last()).push(trimmed(items.last()))
    } else {
        tidy(items.drop_last())
    }
}

/// The texts of a list of strings.
pub open spec fn texts(v: Seq<String>) -> Seq<Seq<char>> {
    v.map_values(|s: String| s@)
}

/// Trims each item and drops the empty ones.
fn tidy_items(items: &Vec<String>) -> (r: Vec<String>)
    ensures
        texts(r@) == tidy(texts(items@)),
{
    let mut out: Vec<String> = Vec::new();
    let mut i: usize = 0;
    while i < items.len()
        invariant
            i <= items@.len(),
            texts(out@) == tidy(texts(items@.take(i as int))),
        decreases items@.len() - i,
    {
        let t = trim_string(items[i].as_str());
        proof {
            let s = texts(items@.take(i + 1));
            assert(s.drop_last() =~= texts(items@.take(i as int)));
            assert(s.last() == items@[i as int]@);
        }
        if t.unicode_len() > 0 {
            out.push(t);
            assert(texts(out@) =~= tidy(texts(items@.take(i as int))).push(t@));
        }
        i = i + 1;
    }
    assert(items@.take(i as int) =~= items@);
    out
}

/// What a readable model answer holds: the new semantic and episodic
/// memories.
pub struct ConsolidationItems {
    pub semantic: Vec<String>,
    pub episodic: Vec<String>,
}

/// Why a cycle was abandoned.
#[derive(Clone, Copy, Debug, PartialEq, Eq, Structural)]
pub enum ConsolidationError {
    /// The answer is not JSON with a string array under each key, even once
    /// fences and prose are taken off.
    Unparsable,
}

/// What the model's answer yields: the tidied lists under `semantic` and
/// `episodic`, or `None` when the cleaned answer does not hold both.
pub open spec fn extracted(response: Seq<char>) -> Option<(Seq<Seq<char>>, Seq<Seq<char>>)> {
    let c = cleaned(response);
    match (json_string_list(c, "semantic"@), json_string_list(c, "episodic"@)) {
        (Some(s), Some(e)) => Some((tidy(s), tidy(e))),
        _ => None,
    }
}

/// Reads the model's answer into the memories to add.
pub fn interpret_consolidation(response: &str) -> (r: Result<ConsolidationItems, ConsolidationError>)
    ensures
        match r {
            Ok(items) => extracted(response@) == Some((texts(items.semantic@), texts(items.episodic@))),
            Err(e) => extracted(response@) is None && e == ConsolidationError::Unparsable,
        },
{
    let cleaned_text = clean_json_response(response);
    let semantic = string_list_field(cleaned_text.as_str(), "semantic");
    let episodic = string_list_field(cleaned_text.as_str(), "episodic");
    match (semantic, episodic) {
        (Some(s), Some(e)) => {
            let items = ConsolidationItems { semantic: tidy_items(&s), episodic: tidy_items(&e) };
            assert(texts(s@) =~= s@.map_values(|x: String| x@));
            assert(texts(e@) =~= e@.map_values(|x: String| x@));
            Ok(items)
        },
        _ => Err(ConsolidationError::Unparsable),
    }
}

/// One message-and-memory pair to store for an extracted item.
pub struct MemoryWrite {
    pub role: String,
    pub content: String,
    pub memory_type: String,
}

/// A planned write as plain values: role, content, memory type.
pub open spec fn write_view(w: MemoryWrite) -> (Seq<char>, Seq<char>, Seq<char>) {
    (w.role@, w.content@, w.memory_type@)
}

/// The writes for extracted semantic and episodic items, semantic first.
pub open spec fn planned_writes(semantic: Seq<Seq<char>>, episodic: Seq<Seq<char>>) -> Seq<(Seq<char>, Seq<char>, Seq<char>)> {
    semantic.map_values(|c: Seq<char>| ("semantic_memory"@, c, "semantic"@))
        + episodic.map_values(|c: Seq<char>| ("episodic_memory"@, c, "episodic"@))
}

/// What a cycle over `history` does once the model answered `response`:
/// the writes to make, or why it changes nothing. Without history there is
/// nothing to consolidate.
pub open spec fn cycle_outcome(history: Seq<ChatMessage>, response: Seq<char>) -> Result<Seq<(Seq<char>, Seq<char>, Seq<char>)>, ConsolidationError> {
    if history.len() == 0 {
        Ok(Seq::empty())
    } else {
        match extracted(response) {
            Some((s, e)) => Ok(planned_writes(s, e)),
            None => Err(ConsolidationError::Unparsable),
        }
    }
}

/// Appends a write for each item, with the given role and memory type.
fn push_writes(out: &mut Vec<MemoryWrite>, items: &Vec<String>, role: &str, memory_type: &str)
    ensures
        final(out)@.map_values(|w: MemoryWrite| write_view(w))
            == old(out)@.map_values(|w: MemoryWrite| write_view(w))
            + texts(items@).map_values(|c: Seq<char>| (role@, c, memory_type@)),
{
    let ghost start = out@.map_values(|w: MemoryWrite| write_view(w));
    let mut i: usize = 0;
    while i < items.len()
        invariant
            i <= items@.len(),
            out@.map_values(|w: MemoryWrite| write_view(w))
                == start + texts(items@.take(i as int)).map_values(|c: Seq<char>| (role@, c, memory_type@)),
        decreases items@.len() - i,
    {
        let w = MemoryWrite {
            role: String::from_str(role),
            content: items[i].clone(),
            memory_type: String::from_str(memory_type),
        };
        let ghost before = out@;
        out.push(w);
        proof {
            let f = |w: MemoryWrite| write_view(w);
            let g = |c: Seq<char>| (role@, c, memory_type@);
            assert(out@.map_values(f) =~= before.map_values(f).push(write_view(w)));
            assert(texts(items@.take(i + 1)) =~= texts(items@.take(i as int)).push(items@[i as int]@));
            assert(texts(items@.take(i as int)).push(items@[i as int]@).map_values(g)
                =~= texts(items@.take(i as int)).map_values(g).push(g(items@[i as int]@)));
            assert(out@.map_values(f) =~= start + texts(items@.take(i + 1)).map_values(g));
        }
        i = i + 1;
    }
    assert(items@.take(i as int) =~= items@);
}

/// The writes that store the extracted items.
pub fn consolidation_writes(items: &ConsolidationItems) -> (r: Vec<MemoryWrite>)
    ensures
        r@.map_values(|w: MemoryWrite| write_view(w)) == planned_writes(texts(items.semantic@), texts(items.episodic@)),
{
    let mut out: Vec<MemoryWrite> = Vec::new();
    push_writes(&mut out, &items.semantic, "semantic_memory", "semantic");
    push_writes(&mut out, &items.episodic, "episodic_memory", "episodic");
    assert(Seq::<MemoryWrite>::empty().map_values(|w: MemoryWrite| write_view(w)) =~= Seq::empty());
    assert(out@.map_values(|w: MemoryWrite| write_view(w)) =~= planned_writes(texts(items.semantic@), texts(items.episodic@)));
    out
}

/// What one cycle over `history` does with the model's answer: the writes
/// to make, or the reason it changes nothing.
pub fn sleep_cycle_writes(history: &Vec<ChatMessage>, response: &str) -> (r: Result<Vec<MemoryWrite>, ConsolidationError>)
    ensures
        match r {
            Ok(w) => cycle_outcome(history@, response@) == Ok::<_, ConsolidationError>(w@.map_values(|x: MemoryWrite| write_view(x))),
            Err(e) => cycle_outcome(history@, response@) == Err::<Seq<(Seq<char>, Seq<char>, Seq<char>)>, _>(e),
        },
{
    if history.len() == 0 {
        let w: Vec<MemoryWrite> = Vec::new();
        assert(w@.map_values(|x: MemoryWrite| write_view(x)) =~= Seq::empty());
        return Ok(w);
    }
    match interpret_consolidation(response) {
        Ok(items) => Ok(consolidation_writes(&items)),
        Err(e) => Err(e),
    }
}

/// The message came from an earlier consolidation rather than from the
/// conversation itself.
pub open spec fn is_consolidated_role(role: Seq<char>) -> bool {
    role == "semantic_memory"@ || role == "episodic_memory"@
}

/// The ids of the raw conversation messages of `h`, in order: those whose
/// memory records a successful cycle consolidates and then purges.
pub open spec fn raw_ids(h: Seq<ChatMessage>) -> Seq<i64>
    decreases h.len(),
{
    if h.len() == 0 {
        Seq::empty()
    } else if is_consolidated_role(h.last().role@) {
        raw_ids(h.drop_last())
    } else {
        raw_ids(h.drop_last()).push(h.last().id)
    }
}

/// What a cycle over `history` does once the model answered `response`: the
/// writes to make and the raw memory records to purge after them, or why it
/// changes nothing.
pub open spec fn cycle_plan(history: Seq<ChatMessage>, response: Seq<char>) -> Result<(Seq<(Seq<char>, Seq<char>, Seq<char>)>, Seq<i64>), ConsolidationError> {
    match cycle_outcome(history, response) {
        Ok(w) => Ok((w, raw_ids(history))),
        Err(e) => Err(e),
    }
}

/// The ids of the raw conversation messages of `history`.
pub fn consolidated_raw_ids(history: &Vec<ChatMessage>) -> (r: Vec<i64>)
    ensures
        r@ == raw_ids(history@),
{
    let mut out: Vec<i64> = Vec::new();
    let mut i: usize = 0;
    while i < history.len()
        invariant
            i <= history@.len(),
            out@ == raw_ids(history@.take(i as int)),
        decreases history@.len() - i,
    {
        let m = &history[i];
        proof {
            let t = history@.take(i + 1);
            assert(t.drop_last() =~= history@.take(i as int));
            assert(t.last() == history@[i as int]);
        }
        if !(same_text(m.role.as_str(), "semantic_memory") || same_text(m.role.as_str(), "episodic_memory")) {
            out.push(m.id);
        }
        i = i + 1;
    }
    assert(history@.take(i as int) =~= history@);
    out
}

/// What one consolidation cycle does: the memories to add, then the raw
/// memory records to purge.
pub struct SleepCyclePlan {
    pub writes: Vec<MemoryWrite>,
    pub purge: Vec<i64>,
}

/// Plans one cycle over `history` with the model's answer: the writes and
/// the purge, or the reason it changes nothing.
pub fn plan_sleep_cycle(history: &Vec<ChatMessage>, response: &str) -> (r: Result<SleepCyclePlan, ConsolidationError>)
    ensures
        match r {
            Ok(p) => cycle_plan(history@, response@)
                == Ok::<_, ConsolidationError>((p.writes@.map_values(|x: MemoryWrite| write_view(x)), p.purge@)),
            Err(e) => cycle_plan(history@, response@) == Err::<(Seq<(Seq<char>, Seq<char>, Seq<char>)>, Seq<i64>), _>(e),
        },
{
    match sleep_cycle_writes(history, response) {
        Ok(writes) => {
            let purge = consolidated_raw_ids(history);
            Ok(SleepCyclePlan { writes, purge })
        },
        Err(e) => Err(e),
    }
}

/// A cycle with no raw history succeeds and makes no change, whatever the
/// model would have said.
pub proof fn lemma_empty_cycle_changes_nothing(response: Seq<char>)
    ensures
        cycle_plan(Seq::empty(), response)
            == Ok::<_, ConsolidationError>((Seq::<(Seq<char>, Seq<char>, Seq<char>)>::empty(), Seq::<i64>::empty())),
{
}

/// A cycle whose answer, once fences and prose are taken off, is not JSON
/// holding string arrays under `semantic` and `episodic` reports the failure
/// and makes no change.
pub proof fn lemma_unreadable_cycle_changes_nothing(history: Seq<ChatMessage>, response: Seq<char>)
    requires
        history.len() > 0,
        json_string_list(cleaned(response), "semantic"@) is None
            || json_string_list(cleaned(response), "episodic"@) is None,
    ensures
        cycle_plan(history, response)
            == Err::<(Seq<(Seq<char>, Seq<char>, Seq<char>)>, Seq<i64>), _>(ConsolidationError::Unparsable),
{
}

/// The line of the history block for one message.
pub open spec fn history_line(m: ChatMessage) -> Seq<char> {
    "["@ + m.timestamp@ + "] "@ + upper_of(m.role@) + ": "@ + m.content@
}

/// The history block: one line per message, in order.
pub open spec fn history_block(h: Seq<ChatMessage>) -> Seq<char>
    decreases h.len(),
{
    if h.len() == 0 {
        Seq::empty()
    } else if h.len() == 1 {
        history_line(h[0])
    } else {
        history_block(h.drop_last()) + "\n"@ + history_line(h.last())
    }
}

/// The user turn of the extraction prompt, or `None` when there is no
/// history to consolidate.
pub fn consolidation_request(history: &Vec<ChatMessage>) -> (r: Option<String>)
    ensures
        match r {
            Some(u) => history@.len() > 0 && u@ == "CONVERSATION HISTORY:\n"@ + history_block(history@),
            None => history@.len() == 0,
        },
{
    if history.len() == 0 {
        return None;
    }
    let mut block = String::new();
    let mut i: usize = 0;
    while i < history.len()
        invariant
            i <= history@.len(),
            block@ == history_block(history@.take(i as int)),
        decreases history@.len() - i,
    {
        let m = &history[i];
        proof {
            let t = history@.take(i + 1);
            assert(t.drop_last() =~= history@.take(i as int));
            assert(t.last() == history@[i as int]);
        }
        if i > 0 {
            block.append("\n");
        }
        block.append("[");
        block.append(m.timestamp.as_str());
        block.append("] ");
        let role = uppercase(m.role.as_str());
        block.append(role.as_str());
        block.append(": ");
        block.append(m.content.as_str());
        proof {
            let t = history@.take(i + 1);
            if i == 0 {
                assert(history_block(history@.take(0)) == Seq::<char>::empty());
                assert(t[0] == history@[0]);
            }
        }
        i = i + 1;
        assert(block@ =~= history_block(history@.take(i as int)));
    }
    assert(history@.take(i as int) =~= history@);
    let mut u = String::from_str("CONVERSATION HISTORY:\n");
    u.append(block.as_str());
    Some(u)
}

} // verus!
