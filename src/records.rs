//! The categorized memory schema's records: raw episodes, consolidated
//! insights, user identity traits, the assistant's self model, and
//! consolidation cycles. Times are unix seconds; embedding elements and float
//! scores are held by their bit patterns.
use vstd::prelude::*;
use crate::models::{ChatRole, IdentityCategory, SleepCycleStatus};

verus! {

#[verifier::external_type_specification]
#[verifier::external_body]
pub struct ExJsonValue(serde_json::Value);

/// The bit pattern of the confidence a new insight starts with (0.5).
pub const INITIAL_CONFIDENCE_BITS: u32 = 0x3f00_0000;

/// Relies on uuid's `Uuid::new_v4` and its `Display`, which writes the
/// 36-character hyphenated form.
#[verifier::external_body]
fn new_record_id() -> (r: String)
    ensures
        r@.len() == 36,
{
    uuid::Uuid::new_v4().to_string()
}

/// Relies on chrono's `Utc::now` and `DateTime::timestamp`: the current unix
/// time in seconds.
#[verifier::external_body]
fn unix_now() -> (r: i64) {
    chrono::Utc::now().timestamp()
}

/// A raw conversation turn or diary entry.
pub struct EpisodicMemory {
    pub id: String,
    pub timestamp: i64,
    pub role: ChatRole,
    pub content: String,
    pub embedding: Vec<u32>,
    pub processed: bool,
    pub metadata: Option<serde_json::Value>,
}

impl EpisodicMemory {
    /// A new, unprocessed episode with a fresh id and the current time.
    pub fn new(role: ChatRole, content: String, embedding: Vec<u32>) -> (r: EpisodicMemory)
        ensures
            r.id@.len() == 36,
            r.role == role,
            r.content == content,
            r.embedding == embedding,
            !r.processed,
            r.metadata is None,
    {
        EpisodicMemory {
            id: new_record_id(),
            timestamp: unix_now(),
            role,
            content,
            embedding,
            processed: false,
            metadata: None,
        }
    }
}

/// Consolidated knowledge drawn from episodes.
pub struct SemanticMemory {
    pub id: String,
    pub topic: String,
    pub insight: String,
    pub importance_score: u8,
    pub embedding: Vec<u32>,
    pub source_episodes: Vec<String>,
    pub confidence_bits: u32,
    pub last_updated: i64,
}

impl SemanticMemory {
    /// A new insight, with no embedding or sources yet and middling
    /// confidence.
    pub fn new(topic: String, insight: String, importance_score: u8) -> (r: SemanticMemory)
        ensures
            r.id@.len() == 36,
            r.topic == topic,
            r.insight == insight,
            r.importance_score == importance_score,
            r.embedding@.len() == 0,
            r.source_episodes@.len() == 0,
            r.confidence_bits == INITIAL_CONFIDENCE_BITS,
    {
        SemanticMemory {
            id: new_record_id(),
            topic,
            insight,
            importance_score,
            embedding: Vec::new(),
            source_episodes: Vec::new(),
            confidence_bits: INITIAL_CONFIDENCE_BITS,
            last_updated: unix_now(),
        }
    }
}

/// A long-term trait of the user.
pub struct UserIdentity {
    pub id: String,
    pub trait_name: String,
    pub value: String,
    pub confidence_score: u8,
    pub category: IdentityCategory,
    pub evidence_count: u32,
    pub last_reinforced: i64,
}

impl UserIdentity {
    /// A trait seen once, held with middling confidence.
    pub fn new(trait_name: String, value: String, category: IdentityCategory) -> (r: UserIdentity)
        ensures
            r.id@.len() == 36,
            r.trait_name == trait_name,
            r.value == value,
            r.category == category,
            r.confidence_score == 50,
            r.evidence_count == 1,
    {
        UserIdentity {
            id: new_record_id(),
            trait_name,
            value,
            confidence_score: 50,
            category,
            evidence_count: 1,
            last_reinforced: unix_now(),
        }
    }
}

/// One parameter of the assistant's evolving personality.
pub struct AiSelfModel {
    pub id: String,
    pub parameter: String,
    pub current_state: String,
    pub delta_from_previous: Option<String>,
    pub reinforcement_count: u32,
    pub last_updated: i64,
}

impl AiSelfModel {
    /// A parameter set for the first time.
    pub fn new(parameter: String, current_state: String) -> (r: AiSelfModel)
        ensures
            r.id@.len() == 36,
            r.parameter == parameter,
            r.current_state == current_state,
            r.delta_from_previous is None,
            r.reinforcement_count == 1,
    {
        AiSelfModel {
            id: new_record_id(),
            parameter,
            current_state,
            delta_from_previous: None,
            reinforcement_count: 1,
            last_updated: unix_now(),
        }
    }
}

/// The record of one consolidation cycle.
pub struct SleepCycle {
    pub id: String,
    pub started_at: i64,
    pub completed_at: Option<i64>,
    pub episodes_processed: u32,
    pub insights_generated: u32,
    pub traits_updated: u32,
    pub status: SleepCycleStatus,
    pub error_message: Option<String>,
}

impl SleepCycle {
    /// A pending cycle starting now.
    pub fn new() -> (r: SleepCycle)
        ensures
            r.id@.len() == 36,
            r.completed_at is None,
            r.episodes_processed == 0,
            r.insights_generated == 0,
            r.traits_updated == 0,
            r.status == SleepCycleStatus::Pending,
            r.error_message is None,
    {
        SleepCycle {
            id: new_record_id(),
            started_at: unix_now(),
            completed_at: None,
            episodes_processed: 0,
            insights_generated: 0,
            traits_updated: 0,
            status: SleepCycleStatus::Pending,
            error_message: None,
        }
    }
}

} // verus!
