//! The streaming generation engine, as a state machine. The caller drives
//! the model runtime and hands each sampled fragment's bytes to
//! [`StreamEngine::push_piece`]; the engine reassembles characters split
//! across fragments, detects stop markers and instruction leaks, and says
//! which text is safe to show and when to halt.
use vstd::prelude::*;
use vstd::utf8::{decode_utf8, valid_utf8};
use crate::text::{
    chars_of, matches_at, occurs_at, replace_all, replace_chars, string_of, string_of_range,
    trim_chars, trimmed,
};

verus! {

/// The pattern that recognises bracketed fragments resembling leaked system
/// instructions, case-insensitive and spanning lines.
pub const LEAK_PATTERN: &'static str = r"(?is)\[[^\]]*(?:System\s+note:|Remember\s+your\s+CRITICAL\s+INSTRUCTION|CRITICAL\s+INSTRUCTION)\s*[^\]]*\]";

/// The most generation steps a single call may take, whatever is asked.
pub const MAX_GENERATION_TOKENS: u32 = 512;

/// How many trailing characters of the generated text are held back, as they
/// may still begin a stop marker: the longest marker's length less one.
pub const HOLD_BACK: usize = 9;

/// The text before the leftmost match of `pattern` in `text`; `None` when
/// nothing matches.
pub uninterp spec fn text_before_match(pattern: Seq<char>, text: Seq<char>) -> Option<Seq<char>>;

/// `text` with every match of `pattern` removed.
pub uninterp spec fn without_matches(pattern: Seq<char>, text: Seq<char>) -> Seq<char>;

/// What `String::from_utf8_lossy` makes of a byte run.
pub uninterp spec fn lossy_text(bytes: Seq<u8>) -> Seq<char>;

/// Relies on regex's `Regex::new` and `Regex::find`: the part of `text`
/// before the leftmost match of `pattern`, a prefix of `text`.
#[verifier::external_body]
fn prefix_before_match(pattern: &str, text: &str) -> (r: Option<String>)
    ensures
        match r {
            Some(p) => text_before_match(pattern@, text@) == Some(p@),
            None => text_before_match(pattern@, text@) is None,
        },
        r matches Some(p) ==> p@.len() <= text@.len() && p@ == text@.take(p@.len() as int),
{
    match regex::Regex::new(pattern) {
        Ok(re) => re.find(text).map(|m| text[..m.start()].to_string()),
        Err(_) => None,
    }
}

/// Relies on regex's `Regex::new` and `Regex::replace_all` with an empty
/// replacement: `text` with every match of `pattern` removed.
#[verifier::external_body]
fn remove_matches(pattern: &str, text: &str) -> (r: String)
    ensures
        r@ == without_matches(pattern@, text@),
{
    match regex::Regex::new(pattern) {
        Ok(re) => re.replace_all(text, "").into_owned(),
        Err(_) => text.to_string(),
    }
}

/// Relies on `std::str::from_utf8`: decodes exactly the valid UTF-8 runs.
#[verifier::external_body]
fn decode_utf8_bytes(bytes: &[u8]) -> (r: Option<String>)
    ensures
        r is Some <==> valid_utf8(bytes@),
        r matches Some(s) ==> s@ == decode_utf8(bytes@),
{
    std::str::from_utf8(bytes).ok().map(|s| s.to_string())
}

/// Relies on `String::from_utf8_lossy`: valid runs decode as they are.
#[verifier::external_body]
fn decode_utf8_lossy(bytes: &[u8]) -> (r: String)
    ensures
        r@ == lossy_text(bytes@),
        valid_utf8(bytes@) ==> r@ == decode_utf8(bytes@),
{
    String::from_utf8_lossy(bytes).into_owned()
}

/// The markers whose appearance means the model has started another
/// conversational turn.
pub open spec fn stop_markers() -> Seq<Seq<char>> {
    seq![
        seq!['\n', 'A', 'l', 'e', 'x', ':'],
        seq!['\n', 'U', 's', 'e', 'r', ':'],
        seq!['<', '|', 'i', 'm', '_', 'e', 'n', 'd', '|', '>'],
        seq!['<', '|', 'e', 'o', 't', '_', 'i', 'd', '|', '>'],
    ]
}

/// Some stop marker starts at position `i` of `text`.
pub open spec fn stop_at(text: Seq<char>, i: int) -> bool {
    exists|k: int| 0 <= k < 4 && occurs_at(text, #[trigger] stop_markers()[k], i)
}

/// `i` is the earliest position at which a stop marker starts.
pub open spec fn first_stop(text: Seq<char>, i: int) -> bool {
    stop_at(text, i) && forall|j: int| 0 <= j < i ==> !stop_at(text, j)
}

/// The earliest position at which a stop marker starts, if any.
pub open spec fn stop_index(text: Seq<char>) -> Option<int> {
    if exists|i: int| first_stop(text, i) {
        Some(choose|i: int| first_stop(text, i))
    } else {
        None
    }
}

proof fn lemma_first_stop_unique(text: Seq<char>, i: int)
    requires
        first_stop(text, i),
    ensures
        stop_index(text) == Some(i),
{
    let c = choose|c: int| first_stop(text, c);
    assert(first_stop(text, c));
    if c < i {
        assert(!stop_at(text, c));
    } else if c > i {
        assert(!stop_at(text, i));
    }
}

proof fn lemma_some_stop_has_first(text: Seq<char>, i: int)
    requires
        stop_at(text, i),
    ensures
        exists|j: int| first_stop(text, j),
    decreases i,
{
    if exists|j: int| 0 <= j < i && stop_at(text, j) {
        let j = choose|j: int| 0 <= j < i && stop_at(text, j);
        lemma_some_stop_has_first(text, j);
    } else {
        assert(first_stop(text, i));
    }
}

/// The end of the text that may be handed out while streaming: all but the
/// last `HOLD_BACK` characters.
pub open spec fn safe_end(len: nat) -> nat {
    if len >= HOLD_BACK { (len - HOLD_BACK) as nat } else { 0 }
}

/// A `]` follows position `i` of `g`.
pub open spec fn closed_after(g: Seq<char>, i: int) -> bool {
    exists|j: int| i < j < g.len() && g[j] == ']'
}

/// Position `i` of `g` opens a bracket that no `]` closes yet: it may begin
/// a leak that is still being written.
pub open spec fn open_bracket_at(g: Seq<char>, i: int) -> bool {
    0 <= i < g.len() && g[i] == '[' && !closed_after(g, i)
}

/// The first position from `i` on that opens a still-open bracket, or the
/// end of `g`.
pub open spec fn first_open_bracket(g: Seq<char>, i: nat) -> nat
    decreases g.len() - i,
{
    if i >= g.len() {
        g.len()
    } else if open_bracket_at(g, i as int) {
        i
    } else {
        first_open_bracket(g, i + 1)
    }
}

/// How far streaming may hand out `g` when `emitted` characters are out: not
/// into the held-back tail, and not into a bracket that is still open.
pub open spec fn emit_limit(g: Seq<char>, emitted: nat) -> nat {
    let a = safe_end(g.len());
    let b = first_open_bracket(g, emitted);
    if a <= b { a } else { b }
}

proof fn lemma_first_open_bracket(g: Seq<char>, i: nat)
    requires
        i <= g.len(),
    ensures
        i <= first_open_bracket(g, i) <= g.len(),
        forall|k: int| i <= k < first_open_bracket(g, i) ==> !open_bracket_at(g, k),
    decreases g.len() - i,
{
    if i < g.len() && !open_bracket_at(g, i as int) {
        lemma_first_open_bracket(g, i + 1);
    }
}

/// A streaming state that has handed out nothing that could belong to a stop
/// marker or to a leak still being written: no marker is in the text, the
/// tail is still held back, and every `[` handed out is already closed.
pub open spec fn holds_back(v: StreamView) -> bool {
    &&& !v.halted
    &&& forall|i: int| !stop_at(v.generated, i)
    &&& v.emitted <= safe_end(v.generated.len())
    &&& forall|i: int| 0 <= i < v.emitted && v.generated[i] == '[' ==> closed_after(v.generated, i)
}

/// A new engine has handed out nothing.
pub proof fn lemma_fresh_engine_holds_back()
    ensures
        holds_back(StreamView { generated: Seq::empty(), pending: Seq::empty(), emitted: 0, halted: false }),
{
}

/// Stop markers and unfinished brackets are never shown: while the engine
/// streams, every state keeps the tail held back, no marker in the text, and
/// every `[` it handed out closed; a marker completed by a new fragment
/// starts at or after everything already handed out, so the caller sees none
/// of it.
pub proof fn lemma_stop_markers_never_shown(v: StreamView, piece: Seq<u8>)
    requires
        holds_back(v),
    ensures
        !piece_transition(v, piece).0.halted ==> holds_back(piece_transition(v, piece).0),
        valid_utf8(v.pending + piece) && text_before_match(LEAK_PATTERN@, v.generated + decode_utf8(v.pending + piece)) is None
            ==> (stop_index(v.generated + decode_utf8(v.pending + piece)) matches Some(s) ==> s >= v.emitted),
{
    let buf = v.pending + piece;
    if valid_utf8(buf) {
        let g = v.generated + decode_utf8(buf);
        if text_before_match(LEAK_PATTERN@, g) is None {
            match stop_index(g) {
                Some(s) => {
                    assert(first_stop(g, s));
                    if s < v.emitted {
                        let k = choose|k: int| 0 <= k < 4 && occurs_at(g, #[trigger] stop_markers()[k], s);
                        let m = stop_markers()[k];
                        assert(m.len() <= 10) by {
                            assert(stop_markers()[0].len() == 6);
                            assert(stop_markers()[1].len() == 6);
                            assert(stop_markers()[2].len() == 10);
                            assert(stop_markers()[3].len() == 10);
                        }
                        assert(s + m.len() <= v.generated.len());
                        assert(g.subrange(s, s + m.len()) =~= v.generated.subrange(s, s + m.len()));
                        assert(occurs_at(v.generated, stop_markers()[k], s));
                        assert(stop_at(v.generated, s));
                    }
                },
                None => {
                    assert forall|i: int| !stop_at(g, i) by {
                        if stop_at(g, i) {
                            lemma_some_stop_has_first(g, i);
                        }
                    }
                    lemma_first_open_bracket(g, v.emitted);
                    let w = piece_transition(v, piece).0;
                    assert(w.generated == g);
                    assert forall|i: int| 0 <= i < w.emitted && g[i] == '[' implies closed_after(g, i) by {
                        if i < v.emitted {
                            assert(v.generated[i] == g[i]);
                            assert(closed_after(v.generated, i));
                            let j = choose|j: int| i < j < v.generated.len() && v.generated[j] == ']';
                            assert(g[j] == ']');
                        } else {
                            assert(!open_bracket_at(g, i));
                        }
                    }
                },
            }
        }
    }
}

/// `s` with the escaped sequences `\r\n`, `\n` and `\t` written out as the
/// characters they stand for, in that order.
pub open spec fn unescaped(s: Seq<char>) -> Seq<char> {
    let a = replace_all(s, seq!['\\', 'r', '\\', 'n'], seq!['\n']);
    let b = replace_all(a, seq!['\\', 'n'], seq!['\n']);
    replace_all(b, seq!['\\', 't'], seq!['\t'])
}

/// Text fit to show: leak matches removed, escapes written out.
pub open spec fn sanitized(s: Seq<char>) -> Seq<char> {
    unescaped(without_matches(LEAK_PATTERN@, s))
}

/// The chunk handed out for the raw text `s`, if it is not empty once
/// sanitized.
pub open spec fn chunk_of(s: Seq<char>) -> Option<Seq<char>> {
    if sanitized(s).len() > 0 {
        Some(sanitized(s))
    } else {
        None
    }
}

/// The view of an optional string.
pub open spec fn opt_view(o: Option<String>) -> Option<Seq<char>> {
    match o {
        Some(s) => Some(s@),
        None => None,
    }
}

/// The engine's state as plain values.
pub struct StreamView {
    pub generated: Seq<char>,
    pub pending: Seq<u8>,
    pub emitted: nat,
    pub halted: bool,
}

/// Hands out `generated[emitted..end]` when `end` is past what was handed out:
/// the new count of emitted characters, and the chunk.
pub open spec fn emit_upto(g: Seq<char>, emitted: nat, end: nat) -> (nat, Option<Seq<char>>) {
    if end > emitted {
        (end, chunk_of(g.subrange(emitted as int, end as int)))
    } else {
        (emitted, None)
    }
}

/// The engine's answer to one fragment of bytes: the next state and the
/// chunk to show, if any.
pub open spec fn piece_transition(v: StreamView, piece: Seq<u8>) -> (StreamView, Option<Seq<char>>) {
    let buf = v.pending + piece;
    if !valid_utf8(buf) {
        (StreamView { pending: buf, ..v }, None)
    } else {
        let g = v.generated + decode_utf8(buf);
        match text_before_match(LEAK_PATTERN@, g) {
            Some(pre) => {
                let (e, c) = emit_upto(g, v.emitted, pre.len());
                (StreamView { generated: pre, pending: Seq::empty(), emitted: e, halted: true }, c)
            },
            None => match stop_index(g) {
                Some(s) => {
                    let (e, c) = emit_upto(g, v.emitted, s as nat);
                    (StreamView { generated: g.take(s), pending: Seq::empty(), emitted: e, halted: true }, c)
                },
                None => {
                    let (e, c) = emit_upto(g, v.emitted, emit_limit(g, v.emitted));
                    (StreamView { generated: g, pending: Seq::empty(), emitted: e, halted: false }, c)
                },
            },
        }
    }
}

/// `g` cut at its first stop marker, then before its first leak.
pub open spec fn final_text(g: Seq<char>) -> Seq<char> {
    let a = match stop_index(g) {
        Some(s) => g.take(s),
        None => g,
    };
    match text_before_match(LEAK_PATTERN@, a) {
        Some(p) => p,
        None => a,
    }
}

/// What ending the generation gives: the last chunk to show, if any, and the
/// finished response. Bytes still pending are recovered lossily.
pub open spec fn finish_transition(v: StreamView) -> (Option<Seq<char>>, Seq<char>) {
    let g = if v.pending.len() > 0 { v.generated + lossy_text(v.pending) } else { v.generated };
    let t = final_text(g);
    let chunk = if t.len() > v.emitted { chunk_of(t.subrange(v.emitted as int, t.len() as int)) } else { None };
    (chunk, trimmed(sanitized(t)))
}

/// What one fragment did: the chunk that is now safe to show, and whether
/// generation must stop.
pub struct StreamStep {
    pub chunk: Option<String>,
    pub halt: bool,
}

/// The state of one generation call.
pub struct StreamEngine {
    pub generated: Vec<char>,
    pub pending: Vec<u8>,
    pub emitted: usize,
    pub halted: bool,
}

impl StreamEngine {
    pub open spec fn view(&self) -> StreamView {
        StreamView {
            generated: self.generated@,
            pending: self.pending@,
            emitted: self.emitted as nat,
            halted: self.halted,
        }
    }

    /// Until it halts, the engine has handed out no more than it generated.
    pub open spec fn wf(&self) -> bool {
        !self.halted ==> self.emitted <= self.generated@.len()
    }

    /// An engine before the first fragment.
    pub fn new() -> (r: StreamEngine)
        ensures
            r.wf(),
            r.view() == (StreamView { generated: Seq::empty(), pending: Seq::empty(), emitted: 0, halted: false }),
    {
        StreamEngine { generated: Vec::new(), pending: Vec::new(), emitted: 0, halted: false }
    }

    /// The sanitized chunk for `generated[emitted..end]`, when there is one.
    fn emit_to(&mut self, end: usize) -> (r: Option<String>)
        requires
            end <= old(self).generated@.len(),
        ensures
            final(self).generated == old(self).generated,
            final(self).pending == old(self).pending,
            final(self).halted == old(self).halted,
            (final(self).emitted as nat, opt_view(r)) == emit_upto(old(self).generated@, old(self).emitted as nat, end as nat),
    {
        if end > self.emitted {
            let raw = string_of_range(&self.generated, self.emitted, end);
            let clean = sanitize_model_output(raw.as_str());
            self.emitted = end;
            if clean.unicode_len() > 0 {
                Some(clean)
            } else {
                None
            }
        } else {
            None
        }
    }

    /// Takes the bytes of one sampled fragment.
    pub fn push_piece(&mut self, piece: &[u8]) -> (r: StreamStep)
        requires
            old(self).wf(),
            !old(self).halted,
        ensures
            final(self).wf(),
            r.halt == final(self).halted,
            (final(self).view(), opt_view(r.chunk)) == piece_transition(old(self).view(), piece@),
    {
        let ghost v = self.view();
        self.pending.extend_from_slice(piece);
        assert(self.pending@ == v.pending + piece@);
        let decoded = decode_utf8_bytes(self.pending.as_slice());
        match decoded {
            None => {
                return StreamStep { chunk: None, halt: false };
            },
            Some(d) => {
                let dv = chars_of(d.as_str());
                let mut i: usize = 0;
                let ghost g0 = self.generated@;
                while i < dv.len()
                    invariant
                        i <= dv@.len(),
                        self.generated@ == g0 + dv@.take(i as int),
                        self.emitted == v.emitted,
                        self.halted == v.halted,
                    decreases dv@.len() - i,
                {
                    self.generated.push(dv[i]);
                    i = i + 1;
                    assert(self.generated@ =~= g0 + dv@.take(i as int));
                }
                assert(dv@.take(dv@.len() as int) =~= dv@);
                self.pending.clear();
            },
        }
        let whole = string_of(&self.generated);
        match prefix_before_match(LEAK_PATTERN, whole.as_str()) {
            Some(pre) => {
                let cut = pre.unicode_len();
                let chunk = self.emit_to(cut);
                self.generated.truncate(cut);
                assert(self.generated@ =~= pre@);
                self.halted = true;
                return StreamStep { chunk, halt: true };
            },
            None => {},
        }
        match find_stop_in(&self.generated) {
            Some(s) => {
                let chunk = self.emit_to(s);
                self.generated.truncate(s);
                self.halted = true;
                StreamStep { chunk, halt: true }
            },
            None => {
                let n = self.generated.len();
                let safe = if n >= HOLD_BACK { n - HOLD_BACK } else { 0 };
                let open = first_open_bracket_from(&self.generated, self.emitted);
                let limit = if safe <= open { safe } else { open };
                let chunk = self.emit_to(limit);
                StreamStep { chunk, halt: false }
            },
        }
    }

    /// Ends the generation: flushes pending bytes, cuts the text at its
    /// first stop marker and leak, and gives the last chunk and the response.
    pub fn finish(&mut self) -> (r: (Option<String>, String))
        ensures
            (opt_view(r.0), r.1@) == finish_transition(old(self).view()),
    {
        let ghost v = self.view();
        if self.pending.len() > 0 {
            let rest = decode_utf8_lossy(self.pending.as_slice());
            let rv = chars_of(rest.as_str());
            let mut i: usize = 0;
            let ghost g0 = self.generated@;
            while i < rv.len()
                invariant
                    i <= rv@.len(),
                    self.generated@ == g0 + rv@.take(i as int),
                    self.emitted == v.emitted,
                    self.pending@ == v.pending,
                decreases rv@.len() - i,
            {
                self.generated.push(rv[i]);
                i = i + 1;
                assert(self.generated@ =~= g0 + rv@.take(i as int));
            }
            assert(rv@.take(rv@.len() as int) =~= rv@);
            self.pending.clear();
        }
        match find_stop_in(&self.generated) {
            Some(s) => {
                self.generated.truncate(s);
            },
            None => {},
        }
        let whole = string_of(&self.generated);
        match prefix_before_match(LEAK_PATTERN, whole.as_str()) {
            Some(pre) => {
                let cut = pre.unicode_len();
                self.generated.truncate(cut);
                assert(self.generated@ =~= pre@);
            },
            None => {},
        }
        let n = self.generated.len();
        let chunk = if n > self.emitted {
            let raw = string_of_range(&self.generated, self.emitted, n);
            let clean = sanitize_model_output(raw.as_str());
            if clean.unicode_len() > 0 {
                Some(clean)
            } else {
                None
            }
        } else {
            None
        };
        let text = string_of(&self.generated);
        (chunk, finalize_model_output(text.as_str()))
    }
}

/// The first position from `from` on that opens a bracket no `]` closes yet,
/// or the end of `g`.
fn first_open_bracket_from(g: &Vec<char>, from: usize) -> (r: usize)
    requires
        from <= g@.len(),
    ensures
        r == first_open_bracket(g@, from as nat),
{
    let n = g.len();
    let mut j: usize = n;
    while j > 0 && g[j - 1] != ']'
        invariant
            n == g@.len(),
            j <= n,
            forall|k: int| j <= k < n ==> g@[k] != ']',
        decreases j,
    {
        j = j - 1;
    }
    let mut i: usize = from;
    while i < n && !(g[i] == '[' && i + 1 >= j)
        invariant
            n == g@.len(),
            from <= i <= n,
            j <= n,
            forall|k: int| j <= k < n ==> g@[k] != ']',
            j > 0 ==> g@[j - 1] == ']',
            first_open_bracket(g@, from as nat) == first_open_bracket(g@, i as nat),
        decreases n - i,
    {
        proof {
            if g@[i as int] == '[' {
                assert(g@[j - 1] == ']');
                assert(closed_after(g@, i as int));
            }
            assert(!open_bracket_at(g@, i as int));
        }
        i = i + 1;
    }
    proof {
        if i < n {
            assert forall|k: int| i < k < n implies g@[k] != ']' by {}
            assert(!closed_after(g@, i as int));
            assert(open_bracket_at(g@, i as int));
        }
    }
    i
}

/// The marker of the given rank among the stop markers.
fn stop_marker(k: usize) -> (r: Vec<char>)
    requires
        k < 4,
    ensures
        r@ == stop_markers()[k as int],
{
    if k == 0 {
        let r = vec!['\n', 'A', 'l', 'e', 'x', ':'];
        assert(r@ =~= stop_markers()[0]);
        r
    } else if k == 1 {
        let r = vec!['\n', 'U', 's', 'e', 'r', ':'];
        assert(r@ =~= stop_markers()[1]);
        r
    } else if k == 2 {
        let r = vec!['<', '|', 'i', 'm', '_', 'e', 'n', 'd', '|', '>'];
        assert(r@ =~= stop_markers()[2]);
        r
    } else {
        let r = vec!['<', '|', 'e', 'o', 't', '_', 'i', 'd', '|', '>'];
        assert(r@ =~= stop_markers()[3]);
        r
    }
}

/// Whether some stop marker starts at position `i` of `text`.
fn stop_starts_at(text: &Vec<char>, i: usize) -> (r: bool)
    requires
        i <= text@.len(),
    ensures
        r == stop_at(text@, i as int),
{
    let mut k: usize = 0;
    while k < 4
        invariant
            k <= 4,
            i <= text@.len(),
            forall|t: int| 0 <= t < k ==> !occurs_at(text@, #[trigger] stop_markers()[t], i as int),
        decreases 4 - k,
    {
        let m = stop_marker(k);
        if matches_at(text, &m, i) {
            return true;
        }
        k = k + 1;
    }
    false
}

/// The earliest position of `text` at which a stop marker starts.
pub fn find_stop_in(text: &Vec<char>) -> (r: Option<usize>)
    ensures
        match r {
            Some(i) => stop_index(text@) == Some(i as int) && i <= text@.len(),
            None => stop_index(text@) is None,
        },
{
    let n = text.len();
    let mut i: usize = 0;
    loop
        invariant
            n == text@.len(),
            i <= n,
            forall|j: int| 0 <= j < i ==> !stop_at(text@, j),
        ensures
            forall|j: int| 0 <= j <= n ==> !stop_at(text@, j),
        decreases n - i,
    {
        if stop_starts_at(text, i) {
            proof {
                lemma_first_stop_unique(text@, i as int);
            }
            return Some(i);
        }
        if i == n {
            break;
        }
        i = i + 1;
    }
    assert forall|i: int| !first_stop(text@, i) by {
        if 0 <= i <= n {
        } else if i > n {
            assert forall|k: int| 0 <= k < 4 implies !occurs_at(text@, #[trigger] stop_markers()[k], i) by {
            }
        }
    }
    None
}

/// The earliest position (in characters) of `text` at which a stop marker
/// starts.
pub fn find_stop_index(text: &str) -> (r: Option<usize>)
    ensures
        match r {
            Some(i) => stop_index(text@) == Some(i as int),
            None => stop_index(text@) is None,
        },
{
    let v = chars_of(text);
    find_stop_in(&v)
}

/// `text` with the escaped sequences `\r\n`, `\n` and `\t` written out.
pub fn normalize_escaped_newlines(text: &str) -> (r: String)
    ensures
        r@ == unescaped(text@),
{
    let v = chars_of(text);
    let crlf = vec!['\\', 'r', '\\', 'n'];
    let lf = vec!['\\', 'n'];
    let tab = vec!['\\', 't'];
    let nl = vec!['\n'];
    let ht = vec!['\t'];
    assert(crlf@ =~= seq!['\\', 'r', '\\', 'n']);
    assert(lf@ =~= seq!['\\', 'n']);
    assert(tab@ =~= seq!['\\', 't']);
    assert(nl@ =~= seq!['\n']);
    assert(ht@ =~= seq!['\t']);
    let a = replace_chars(&v, &crlf, &nl);
    let b = replace_chars(&a, &lf, &nl);
    let c = replace_chars(&b, &tab, &ht);
    string_of(&c)
}

/// Text fit to show: every leak match removed, escapes written out.
pub fn sanitize_model_output(text: &str) -> (r: String)
    ensures
        r@ == sanitized(text@),
{
    let removed = remove_matches(LEAK_PATTERN, text);
    normalize_escaped_newlines(removed.as_str())
}

/// The finished response: sanitized and trimmed.
pub fn finalize_model_output(text: &str) -> (r: String)
    ensures
        r@ == trimmed(sanitized(text@)),
{
    let s = sanitize_model_output(text);
    let v = chars_of(s.as_str());
    let t = trim_chars(&v);
    string_of(&t)
}

/// The number of generation steps allowed for a requested ceiling.
pub fn token_ceiling(requested: u32) -> (r: u32)
    ensures
        r == if requested < MAX_GENERATION_TOKENS { requested } else { MAX_GENERATION_TOKENS },
{
    if requested < MAX_GENERATION_TOKENS {
        requested
    } else {
        MAX_GENERATION_TOKENS
    }
}

} // verus!
