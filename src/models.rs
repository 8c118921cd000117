//! The records the engine stores and hands to its callers.
use vstd::prelude::*;
use crate::text::{chars_of, same_text, trim_string, trimmed};

verus! {

/// A stored conversation message.
pub struct ChatMessage {
    pub id: i64,
    pub role: String,
    pub content: String,
    pub timestamp: String,
}

/// A stored memory, as listed to the user.
pub struct MemoryItem {
    pub id: i64,
    pub content: String,
    pub created_at: String,
}

/// One fact of the long-term user profile.
pub struct ProfileTrait {
    pub category: String,
    pub content: String,
}

/// A stored episodic memory, as handed across the client boundary.
pub struct EpisodicMemoryDto {
    pub id: String,
    pub timestamp: String,
    pub role: String,
    pub content: String,
    pub processed: bool,
}

/// Metadata about the user.
pub struct UserProfile {
    pub user_id: String,
    pub created_at: String,
    pub last_activity: String,
    pub total_conversations: u32,
    pub total_sleep_cycles: u32,
}

/// The context gathered for one conversation.
pub struct ChatContext {
    pub recent_episodes: Vec<String>,
    pub relevant_insights: Vec<String>,
    pub user_traits: Vec<String>,
    pub ai_parameters: Vec<String>,
}

/// The assistant's personality, as parameter and state pairs.
pub struct AiPersonality {
    pub parameters: Vec<(String, String)>,
}

/// A message sent to the chat service.
pub struct ChatRequest {
    pub content: String,
}

/// How much retrieved context an answer used.
pub struct ContextInfo {
    pub similar_episodes: usize,
    pub relevant_insights: usize,
}

/// The chat service's answer.
pub struct ChatResponse {
    pub message_id: String,
    pub content: String,
    pub timestamp: String,
    pub context_used: ContextInfo,
}

/// The outcome of one consolidation cycle.
pub struct SleepCycleResult {
    pub cycle_id: String,
    pub episodes_processed: u32,
    pub insights_generated: u32,
    pub traits_updated: u32,
    pub status: String,
}

/// Who wrote a message.
#[derive(Clone, Copy, Debug, PartialEq, Eq, Structural)]
pub enum ChatRole {
    User,
    Ai,
}

/// The kind of a user identity trait.
#[derive(Clone, Copy, Debug, PartialEq, Eq, Structural)]
pub enum IdentityCategory {
    Profession,
    Personality,
    Fear,
    Hobby,
    Goal,
    Relationship,
    Health,
    Education,
    Other,
}

/// Where a consolidation cycle stands.
#[derive(Clone, Copy, Debug, PartialEq, Eq, Structural)]
pub enum SleepCycleStatus {
    Pending,
    Processing,
    Completed,
    Failed,
}

/// The stored name of a role.
pub open spec fn role_name(r: ChatRole) -> Seq<char> {
    match r {
        ChatRole::User => "user"@,
        ChatRole::Ai => "ai"@,
    }
}

/// The stored name of a category.
pub open spec fn category_name(c: IdentityCategory) -> Seq<char> {
    match c {
        IdentityCategory::Profession => "profession"@,
        IdentityCategory::Personality => "personality"@,
        IdentityCategory::Fear => "fear"@,
        IdentityCategory::Hobby => "hobby"@,
        IdentityCategory::Goal => "goal"@,
        IdentityCategory::Relationship => "relationship"@,
        IdentityCategory::Health => "health"@,
        IdentityCategory::Education => "education"@,
        IdentityCategory::Other => "other"@,
    }
}

/// The stored name of a status.
pub open spec fn status_name(s: SleepCycleStatus) -> Seq<char> {
    match s {
        SleepCycleStatus::Pending => "pending"@,
        SleepCycleStatus::Processing => "processing"@,
        SleepCycleStatus::Completed => "completed"@,
        SleepCycleStatus::Failed => "failed"@,
    }
}

impl ChatRole {
    /// The role's stored name.
    pub fn to_string(&self) -> (r: String)
        ensures
            r@ == role_name(*self),
    {
        match self {
            ChatRole::User => String::from_str("user"),
            ChatRole::Ai => String::from_str("ai"),
        }
    }
}

impl IdentityCategory {
    /// The category's stored name.
    pub fn to_string(&self) -> (r: String)
        ensures
            r@ == category_name(*self),
    {
        match self {
            IdentityCategory::Profession => String::from_str("profession"),
            IdentityCategory::Personality => String::from_str("personality"),
            IdentityCategory::Fear => String::from_str("fear"),
            IdentityCategory::Hobby => String::from_str("hobby"),
            IdentityCategory::Goal => String::from_str("goal"),
            IdentityCategory::Relationship => String::from_str("relationship"),
            IdentityCategory::Health => String::from_str("health"),
            IdentityCategory::Education => String::from_str("education"),
            IdentityCategory::Other => String::from_str("other"),
        }
    }
}

impl SleepCycleStatus {
    /// The status's stored name.
    pub fn to_string(&self) -> (r: String)
        ensures
            r@ == status_name(*self),
    {
        match self {
            SleepCycleStatus::Pending => String::from_str("pending"),
            SleepCycleStatus::Processing => String::from_str("processing"),
            SleepCycleStatus::Completed => String::from_str("completed"),
            SleepCycleStatus::Failed => String::from_str("failed"),
        }
    }
}

/// The category stored under `name`, if it is one.
pub open spec fn category_named(name: Seq<char>) -> Option<IdentityCategory> {
    if name == "profession"@ {
        Some(IdentityCategory::Profession)
    } else if name == "personality"@ {
        Some(IdentityCategory::Personality)
    } else if name == "fear"@ {
        Some(IdentityCategory::Fear)
    } else if name == "hobby"@ {
        Some(IdentityCategory::Hobby)
    } else if name == "goal"@ {
        Some(IdentityCategory::Goal)
    } else if name == "relationship"@ {
        Some(IdentityCategory::Relationship)
    } else if name == "health"@ {
        Some(IdentityCategory::Health)
    } else if name == "education"@ {
        Some(IdentityCategory::Education)
    } else if name == "other"@ {
        Some(IdentityCategory::Other)
    } else {
        None
    }
}

/// Reads a stored category name; an unknown one is rejected.
pub fn parse_identity_category(category_str: &str) -> (r: Result<IdentityCategory, String>)
    ensures
        match r {
            Ok(c) => category_named(category_str@) == Some(c),
            Err(e) => category_named(category_str@) is None && e@ == "Unknown category: "@ + category_str@,
        },
{
    if same_text(category_str, "profession") {
        Ok(IdentityCategory::Profession)
    } else if same_text(category_str, "personality") {
        Ok(IdentityCategory::Personality)
    } else if same_text(category_str, "fear") {
        Ok(IdentityCategory::Fear)
    } else if same_text(category_str, "hobby") {
        Ok(IdentityCategory::Hobby)
    } else if same_text(category_str, "goal") {
        Ok(IdentityCategory::Goal)
    } else if same_text(category_str, "relationship") {
        Ok(IdentityCategory::Relationship)
    } else if same_text(category_str, "health") {
        Ok(IdentityCategory::Health)
    } else if same_text(category_str, "education") {
        Ok(IdentityCategory::Education)
    } else if same_text(category_str, "other") {
        Ok(IdentityCategory::Other)
    } else {
        let mut m = String::from_str("Unknown category: ");
        m.append(category_str);
        Err(m)
    }
}

/// The code of a character's ASCII lower-case form.
pub open spec fn ascii_lower(c: char) -> u32 {
    if 'A' <= c <= 'Z' { ((c as u32) + 32) as u32 } else { c as u32 }
}

/// `a` and `b` are equal but for ASCII case, as `str::eq_ignore_ascii_case`
/// has it.
pub open spec fn eq_ascii_case(a: Seq<char>, b: Seq<char>) -> bool {
    a.len() == b.len() && forall|i: int| 0 <= i < a.len() ==> ascii_lower(#[trigger] a[i]) == ascii_lower(b[i])
}

fn lower_ascii_char(c: char) -> (r: u32)
    ensures
        r == ascii_lower(c),
{
    if 'A' <= c && c <= 'Z' {
        (c as u32) + 32
    } else {
        c as u32
    }
}

/// Whether `a` and `b` are equal but for ASCII case.
pub fn equal_ignoring_ascii_case(a: &str, b: &str) -> (r: bool)
    ensures
        r == eq_ascii_case(a@, b@),
{
    let x = chars_of(a);
    let y = chars_of(b);
    if x.len() != y.len() {
        return false;
    }
    let mut i: usize = 0;
    while i < x.len()
        invariant
            x@ == a@,
            y@ == b@,
            x@.len() == y@.len(),
            i <= x@.len(),
            forall|j: int| 0 <= j < i ==> ascii_lower(#[trigger] x@[j]) == ascii_lower(y@[j]),
        decreases x@.len() - i,
    {
        if lower_ascii_char(x[i]) != lower_ascii_char(y[i]) {
            return false;
        }
        i = i + 1;
    }
    true
}

/// The memory type a stored record gets: `semantic` when so named, ignoring
/// ASCII case and surrounding whitespace; otherwise `episodic`.
pub fn normalize_memory_type(memory_type: &str) -> (r: &'static str)
    ensures
        r@ == if eq_ascii_case(trimmed(memory_type@), "semantic"@) { "semantic"@ } else { "episodic"@ },
{
    let t = trim_string(memory_type);
    if equal_ignoring_ascii_case(t.as_str(), "semantic") {
        "semantic"
    } else {
        "episodic"
    }
}

} // verus!
