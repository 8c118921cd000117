//! Similarity retrieval: choosing which stored memories ground a new
//! exchange, and how they are written into the prompt.
//!
//! A similarity score is a 32-bit float held by its bit pattern. The scores
//! themselves are computed by the caller; here they are compared through an
//! order-preserving integer key.
use vstd::prelude::*;
use crate::text::same_text;

verus! {

/// The bit pattern of the least similarity a memory needs to be recalled
/// (0.35).
pub const MIN_SIMILARITY_BITS: u32 = 0x3eb3_3333;

/// How many memories ground one exchange.
pub const CONTEXT_MATCHES: usize = 3;

/// A stored memory scored against a query.
pub struct MemoryMatch {
    pub message_id: i64,
    pub role: String,
    pub content: String,
    /// The bit pattern of the similarity score.
    pub similarity_bits: u32,
    pub timestamp: String,
    pub memory_type: String,
    pub memory_unix_timestamp: i64,
}

impl MemoryMatch {
    /// A copy of this match.
    pub fn duplicate(&self) -> (r: MemoryMatch)
        ensures
            r == *self,
    {
        MemoryMatch {
            message_id: self.message_id,
            role: self.role.clone(),
            content: self.content.clone(),
            similarity_bits: self.similarity_bits,
            timestamp: self.timestamp.clone(),
            memory_type: self.memory_type.clone(),
            memory_unix_timestamp: self.memory_unix_timestamp,
        }
    }
}

/// An integer key ordered as the float scores are: for non-NaN scores,
/// `a < b` as floats exactly when `score_key(a) < score_key(b)`, save that
/// `-0.0` ranks just below `+0.0`.
pub open spec fn score_key(bits: u32) -> u32 {
    if bits & 0x8000_0000u32 != 0 {
        !bits
    } else {
        bits | 0x8000_0000u32
    }
}

/// The score is a finite float (neither infinite nor NaN).
pub open spec fn is_finite_score(bits: u32) -> bool {
    (bits >> 23u32) & 0xffu32 != 0xffu32
}

/// The score is finite and at least the recall threshold.
pub open spec fn meets_threshold(bits: u32) -> bool {
    is_finite_score(bits) && score_key(bits) >= score_key(MIN_SIMILARITY_BITS)
}

/// The memory may be recalled: it is not the excluded one and it scores
/// high enough.
pub open spec fn eligible(m: MemoryMatch, exclude: Option<i64>) -> bool {
    exclude != Some(m.message_id) && meets_threshold(m.similarity_bits)
}

/// `x` placed into `s` after every element that scores at least as high.
pub open spec fn insert_ranked(s: Seq<MemoryMatch>, x: MemoryMatch) -> Seq<MemoryMatch>
    decreases s.len(),
{
    if s.len() == 0 || score_key(s.last().similarity_bits) >= score_key(x.similarity_bits) {
        s.push(x)
    } else {
        insert_ranked(s.drop_last(), x).push(s.last())
    }
}

/// `s` sorted by descending score, ties kept in scan order.
pub open spec fn ranked(s: Seq<MemoryMatch>) -> Seq<MemoryMatch>
    decreases s.len(),
{
    if s.len() == 0 {
        s
    } else {
        insert_ranked(ranked(s.drop_last()), s.last())
    }
}

/// The recalled memories: the eligible candidates, best first with ties in
/// scan order, at most `k` of them.
pub open spec fn top_matches(candidates: Seq<MemoryMatch>, k: nat, exclude: Option<i64>) -> Seq<MemoryMatch> {
    let r = ranked(candidates.filter(|m: MemoryMatch| eligible(m, exclude)));
    if r.len() <= k {
        r
    } else {
        r.take(k as int)
    }
}

/// Scores never increase along `s`.
pub open spec fn non_increasing(s: Seq<MemoryMatch>) -> bool {
    forall|i: int, j: int|
        0 <= i < j < s.len() ==> score_key(s[i].similarity_bits) >= score_key(s[j].similarity_bits)
}

proof fn lemma_insert_ranked(s: Seq<MemoryMatch>, x: MemoryMatch)
    ensures
        insert_ranked(s, x).len() == s.len() + 1,
        forall|i: int| 0 <= i < insert_ranked(s, x).len() ==>
            (#[trigger] insert_ranked(s, x)[i] == x || s.contains(insert_ranked(s, x)[i])),
        non_increasing(s) ==> non_increasing(insert_ranked(s, x)),
    decreases s.len(),
{
    let r = insert_ranked(s, x);
    if s.len() == 0 || score_key(s.last().similarity_bits) >= score_key(x.similarity_bits) {
        assert forall|i: int| 0 <= i < r.len() implies (#[trigger] r[i] == x || s.contains(r[i])) by {
            if i < s.len() {
                assert(r[i] == s[i]);
            }
        }
    } else {
        let d = s.drop_last();
        lemma_insert_ranked(d, x);
        let q = insert_ranked(d, x);
        assert forall|i: int| 0 <= i < r.len() implies (#[trigger] r[i] == x || s.contains(r[i])) by {
            if i < q.len() {
                assert(r[i] == q[i]);
                if q[i] != x {
                    let j = choose|j: int| 0 <= j < d.len() && d[j] == q[i];
                    assert(s[j] == q[i]);
                }
            } else {
                assert(r[i] == s[s.len() - 1]);
            }
        }
        if non_increasing(s) {
            assert(non_increasing(d));
            assert forall|i: int, j: int| 0 <= i < j < r.len() implies
                score_key(r[i].similarity_bits) >= score_key(r[j].similarity_bits) by {
                if j == r.len() - 1 {
                    assert(r[j] == s.last());
                    if q[i] == x {
                    } else {
                        let t = choose|t: int| 0 <= t < d.len() && d[t] == q[i];
                        assert(s[t] == d[t]);
                    }
                } else {
                    assert(r[i] == q[i]);
                    assert(r[j] == q[j]);
                }
            }
        }
    }
}

proof fn lemma_ranked(s: Seq<MemoryMatch>)
    ensures
        ranked(s).len() == s.len(),
        non_increasing(ranked(s)),
        forall|i: int| 0 <= i < ranked(s).len() ==> s.contains(#[trigger] ranked(s)[i]),
    decreases s.len(),
{
    if s.len() > 0 {
        let d = s.drop_last();
        lemma_ranked(d);
        lemma_insert_ranked(ranked(d), s.last());
        let r = ranked(s);
        assert forall|i: int| 0 <= i < r.len() implies s.contains(#[trigger] r[i]) by {
            if r[i] == s.last() {
                assert(s[s.len() - 1] == r[i]);
            } else {
                assert(ranked(d).contains(r[i]));
                let j = choose|j: int| 0 <= j < ranked(d).len() && ranked(d)[j] == r[i];
                assert(d.contains(ranked(d)[j]));
                let t = choose|t: int| 0 <= t < d.len() && d[t] == r[i];
                assert(s[t] == r[i]);
            }
        }
    }
}

/// What retrieval returns never holds the excluded message, never more than
/// `k` memories, never one below the threshold, and goes from the best score
/// down.
pub proof fn lemma_top_matches_bounded(candidates: Seq<MemoryMatch>, k: nat, exclude: Option<i64>)
    ensures
        top_matches(candidates, k, exclude).len() <= k,
        forall|i: int| 0 <= i < top_matches(candidates, k, exclude).len() ==>
            exclude != Some(#[trigger] top_matches(candidates, k, exclude)[i].message_id)
            && meets_threshold(top_matches(candidates, k, exclude)[i].similarity_bits),
        non_increasing(top_matches(candidates, k, exclude)),
{
    let pred = |m: MemoryMatch| eligible(m, exclude);
    let f = candidates.filter(pred);
    lemma_ranked(f);
    let r = ranked(f);
    let t = top_matches(candidates, k, exclude);
    assert forall|i: int| 0 <= i < t.len() implies exclude != Some(#[trigger] t[i].message_id)
        && meets_threshold(t[i].similarity_bits) by {
        assert(t[i] == r[i]);
        assert(f.contains(r[i]));
        let j = choose|j: int| 0 <= j < f.len() && f[j] == r[i];
        candidates.lemma_filter_pred(pred, j);
    }
    assert forall|i: int, j: int| 0 <= i < j < t.len() implies
        score_key(t[i].similarity_bits) >= score_key(t[j].similarity_bits) by {
        assert(t[i] == r[i]);
        assert(t[j] == r[j]);
    }
}

/// The order key of a score's bit pattern.
pub fn rank_key(bits: u32) -> (r: u32)
    ensures
        r == score_key(bits),
{
    if bits & 0x8000_0000u32 != 0 {
        !bits
    } else {
        bits | 0x8000_0000u32
    }
}

/// Whether a score is finite and at least the recall threshold.
pub fn passes_threshold(bits: u32) -> (r: bool)
    ensures
        r == meets_threshold(bits),
{
    (bits >> 23u32) & 0xffu32 != 0xffu32 && rank_key(bits) >= rank_key(MIN_SIMILARITY_BITS)
}

/// Places `x` into the ranked `out` after every element scoring at least as
/// high.
fn insert_into_ranked(out: &mut Vec<MemoryMatch>, x: MemoryMatch)
    ensures
        final(out)@ == insert_ranked(old(out)@, x),
{
    let kx = rank_key(x.similarity_bits);
    let mut j: usize = out.len();
    let ghost s = out@;
    assert(s.take(j as int) =~= s);
    assert(s.take(j as int) + s.skip(j as int) =~= s.take(j as int));
    while j > 0 && rank_key(out[j - 1].similarity_bits) < kx
        invariant
            out@ == s,
            kx == score_key(x.similarity_bits),
            j <= s.len(),
            insert_ranked(s, x) == insert_ranked(s.take(j as int), x) + s.skip(j as int),
        decreases j,
    {
        proof {
            let t = s.take(j as int);
            assert(t.last() == s[j - 1]);
            assert(t.drop_last() =~= s.take(j - 1));
            assert(insert_ranked(t, x) == insert_ranked(s.take(j - 1), x).push(s[j - 1]));
            assert(insert_ranked(s.take(j - 1), x).push(s[j - 1]) + s.skip(j as int)
                =~= insert_ranked(s.take(j - 1), x) + s.skip(j - 1));
        }
        j = j - 1;
    }
    proof {
        let t = s.take(j as int);
        assert(insert_ranked(t, x) == t.push(x));
        assert(s.take(0) + s.skip(0) =~= s);
    }
    out.insert(j, x);
    assert(out@ =~= s.take(j as int).push(x) + s.skip(j as int));
}

/// The memories recalled from `candidates` (in scan order): those not
/// excluded and scoring at least the threshold, best first with ties kept in
/// scan order, at most `k`.
pub fn find_top_k_similar(candidates: &Vec<MemoryMatch>, k: usize, exclude: Option<i64>) -> (r: Vec<MemoryMatch>)
    ensures
        r@ == top_matches(candidates@, k as nat, exclude),
{
    let ghost pred = |m: MemoryMatch| eligible(m, exclude);
    let mut out: Vec<MemoryMatch> = Vec::new();
    let mut i: usize = 0;
    while i < candidates.len()
        invariant
            i <= candidates@.len(),
            pred == (|m: MemoryMatch| eligible(m, exclude)),
            out@ == ranked(candidates@.take(i as int).filter(pred)),
        decreases candidates@.len() - i,
    {
        let c = &candidates[i];
        let keep = match exclude {
            Some(e) => e != c.message_id,
            None => true,
        } && passes_threshold(c.similarity_bits);
        proof {
            let t = candidates@.take(i + 1);
            assert(t.drop_last() =~= candidates@.take(i as int));
            assert(t.last() == candidates@[i as int]);
            reveal(Seq::filter);
            assert(keep == pred(candidates@[i as int]));
        }
        if keep {
            insert_into_ranked(&mut out, c.duplicate());
            proof {
                let f = candidates@.take(i as int).filter(pred);
                let t = candidates@.take(i + 1);
                reveal(Seq::filter);
                assert(t.filter(pred) == f.push(candidates@[i as int]));
                assert(f.push(candidates@[i as int]).drop_last() =~= f);
            }
        } else {
            proof {
                let t = candidates@.take(i + 1);
                reveal(Seq::filter);
                assert(t.filter(pred) == candidates@.take(i as int).filter(pred));
            }
        }
        i = i + 1;
    }
    assert(candidates@.take(i as int) =~= candidates@);
    if out.len() > k {
        out.truncate(k);
    }
    out
}

/// The prompt line for a recalled memory: semantic memories as a bare bullet,
/// episodic ones with the date they were recorded.
pub open spec fn memory_line(memory_type: Seq<char>, content: Seq<char>, date_label: Seq<char>) -> Seq<char> {
    if memory_type == "semantic"@ {
        "- "@ + content
    } else {
        "- ["@ + date_label + "]: "@ + content
    }
}

/// The prompt line for a recalled memory, given the label of the local date
/// it was recorded on.
pub fn format_memory_line(m: &MemoryMatch, date_label: &str) -> (r: String)
    ensures
        r@ == memory_line(m.memory_type@, m.content@, date_label@),
{
    if same_text(m.memory_type.as_str(), "semantic") {
        let mut line = String::from_str("- ");
        line.append(m.content.as_str());
        line
    } else {
        let mut line = String::from_str("- [");
        line.append(date_label);
        line.append("]: ");
        line.append(m.content.as_str());
        line
    }
}

/// Relies on chrono's `Local.timestamp_opt(..).single()` and
/// `DateTime::format`: the local date of a unix time written as
/// year-month-day, when that time is a single valid local time. It depends on
/// the machine's time zone, so nothing is promised of it. Only the pattern
/// `%Y-%m-%d` is admitted, one that chrono formats without failing.
#[verifier::external_body]
fn local_date_text(unix_timestamp: i64, pattern: &str) -> (r: Option<String>)
    requires
        pattern@ == "%Y-%m-%d"@,
{
    chrono::TimeZone::timestamp_opt(&chrono::Local, unix_timestamp, 0)
        .single()
        .map(|value| value.format(pattern).to_string())
}

/// `line` is the prompt line for `m` under some date label.
pub open spec fn is_memory_line(line: Seq<char>, m: MemoryMatch) -> bool {
    exists|label: Seq<char>| line == #[trigger] memory_line(m.memory_type@, m.content@, label)
}

/// The prompt lines for the recalled memories, in order. Episodic lines carry
/// the local date of the memory, or `unknown-date`.
pub fn format_relevant_context(matches: &Vec<MemoryMatch>) -> (r: Vec<String>)
    ensures
        r@.len() == matches@.len(),
        forall|i: int| 0 <= i < r@.len() ==> is_memory_line(#[trigger] r@[i]@, matches@[i]),
{
    let mut lines: Vec<String> = Vec::new();
    let ghost mut labels: Seq<Seq<char>> = Seq::empty();
    let mut i: usize = 0;
    while i < matches.len()
        invariant
            i <= matches@.len(),
            lines@.len() == i,
            labels.len() == i,
            forall|j: int| 0 <= j < i ==>
                #[trigger] lines@[j]@ == memory_line(matches@[j].memory_type@, matches@[j].content@, labels[j]),
        decreases matches@.len() - i,
    {
        let m = &matches[i];
        let label = match local_date_text(m.memory_unix_timestamp, "%Y-%m-%d") {
            Some(text) => text,
            None => String::from_str("unknown-date"),
        };
        let line = format_memory_line(m, label.as_str());
        lines.push(line);
        proof {
            labels = labels.push(label@);
        }
        i = i + 1;
    }
    assert forall|i: int| 0 <= i < lines@.len() implies is_memory_line(#[trigger] lines@[i]@, matches@[i]) by {
        assert(lines@[i]@ == memory_line(matches@[i].memory_type@, matches@[i].content@, labels[i]));
    }
    lines
}

} // verus!
