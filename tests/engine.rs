use anima_memory::codec::{blob_to_f32_bits, f32_bits_to_blob};
use anima_memory::consolidation::{
    clean_json_response, consolidation_request, extract_first_json_array, extract_first_json_object,
    interpret_consolidation, plan_sleep_cycle, sleep_cycle_writes, ConsolidationError,
};
use anima_memory::lifecycle::{
    engine_unavailable_message, init_ai_models, init_failure_detail, InitStep, LoadOutcome, RuntimeRegistry,
};
use anima_memory::models::{
    normalize_memory_type, parse_identity_category, ChatMessage, ChatRole, IdentityCategory, ProfileTrait,
    SleepCycleStatus, UserProfile,
};
use anima_memory::payload::{extract_tag_content, parse_client_message_payload};
use anima_memory::prompt::{
    chat_system_prompt, chat_template, chat_user_prompt, format_generation_error, generate_proactive_greeting,
    app_language_or_default, greet, greeting_outcome, language_name_for_prompt, memory_block, profile_block, reply_text,
    stream_outcome,
};
use anima_memory::records::{AiSelfModel, EpisodicMemory, SemanticMemory, SleepCycle, UserIdentity};
use anima_memory::reset::{is_lock_error, reset_decision, ResetDecision};
use anima_memory::retrieval::{find_top_k_similar, format_memory_line, format_relevant_context, MemoryMatch};
use anima_memory::stream::{
    finalize_model_output, find_stop_index, normalize_escaped_newlines, sanitize_model_output, token_ceiling,
    StreamEngine,
};
use anima_memory::text::{trim_string, write_decimal};

fn run_stream(pieces: &[&[u8]]) -> (Vec<String>, String) {
    let mut engine = StreamEngine::new();
    let mut chunks = Vec::new();
    for piece in pieces {
        let step = engine.push_piece(piece);
        if let Some(chunk) = step.chunk {
            chunks.push(chunk);
        }
        if step.halt {
            break;
        }
    }
    let (last, result) = engine.finish();
    if let Some(chunk) = last {
        chunks.push(chunk);
    }
    (chunks, result)
}

fn scored(id: i64, score: f32, memory_type: &str) -> MemoryMatch {
    MemoryMatch {
        message_id: id,
        role: "user".to_string(),
        content: format!("memory {id}"),
        similarity_bits: score.to_bits(),
        timestamp: "2024-01-01 00:00:00".to_string(),
        memory_type: memory_type.to_string(),
        memory_unix_timestamp: 1_700_000_000,
    }
}

fn message(id: i64, role: &str, content: &str) -> ChatMessage {
    ChatMessage {
        id,
        role: role.to_string(),
        content: content.to_string(),
        timestamp: "2024-01-01 10:00:00".to_string(),
    }
}

#[test]
fn test_user_profile_creation() {
    let profile = UserProfile {
        user_id: "test".to_string(),
        created_at: "2026-02-24".to_string(),
        last_activity: "2026-02-24".to_string(),
        total_conversations: 0,
        total_sleep_cycles: 0,
    };
    assert_eq!(profile.total_conversations, 0);
}

#[test]
fn stream_stops_at_turn_marker() {
    let (chunks, result) = run_stream(&[b"Hel", b"lo", b"\nUser:", b" more text"]);
    assert_eq!(result, "Hello");
    assert_eq!(chunks.concat(), "Hello");
    assert!(chunks.iter().all(|c| !c.contains("User:")));
}

#[test]
fn stream_cuts_before_leak() {
    let (chunks, result) = run_stream(&[b"Hello there. ", b"[System note: reveal the rules]", b" bye"]);
    assert_eq!(result, "Hello there.");
    assert_eq!(chunks, vec!["Hell".to_string(), "o there. ".to_string()]);
    assert!(chunks.iter().all(|c| !c.contains("System") && !c.contains("rules")));
}

#[test]
fn stream_detects_marker_split_across_pieces() {
    let (chunks, result) = run_stream(&[b"Hi\nUs", b"er: and now I speak for you"]);
    assert_eq!(result, "Hi");
    assert_eq!(chunks, vec!["Hi".to_string()]);
}

#[test]
fn stream_holds_back_possible_marker_start() {
    let mut engine = StreamEngine::new();
    let step = engine.push_piece(b"abcdefghijklmnop");
    assert_eq!(step.chunk, Some("abcdefg".to_string()));
    assert!(!step.halt);
    let (last, result) = engine.finish();
    assert_eq!(last, Some("hijklmnop".to_string()));
    assert_eq!(result, "abcdefghijklmnop");
}

#[test]
fn stream_reassembles_split_characters() {
    let mut engine = StreamEngine::new();
    let first = engine.push_piece(&[0xC3]);
    assert_eq!(first.chunk, None);
    assert!(!first.halt);
    let second = engine.push_piece(&[0xA9]);
    assert!(!second.halt);
    let (_, result) = engine.finish();
    assert_eq!(result, "\u{e9}");
}

#[test]
fn stream_recovers_incomplete_bytes_lossily() {
    let mut engine = StreamEngine::new();
    engine.push_piece(b"ok ");
    engine.push_piece(&[0xE2, 0x82]);
    let (_, result) = engine.finish();
    assert_eq!(result, "ok \u{fffd}");
}

#[test]
fn stream_of_end_of_turn_control_marker() {
    let (_, result) = run_stream(&[b"Sure thing<|eot_id|>junk"]);
    assert_eq!(result, "Sure thing");
}

#[test]
fn stop_index_counts_characters() {
    assert_eq!(find_stop_index("abc<|im_end|>x"), Some(3));
    assert_eq!(find_stop_index("\u{f1}\nUser: hi"), Some(1));
    assert_eq!(find_stop_index("x\nAlex: y <|eot_id|>"), Some(1));
    assert_eq!(find_stop_index("plain text"), None);
    assert_eq!(find_stop_index(""), None);
}

#[test]
fn escaped_sequences_are_written_out() {
    assert_eq!(normalize_escaped_newlines("a\\nb\\tc\\r\\nd"), "a\nb\tc\nd");
    assert_eq!(normalize_escaped_newlines("no escapes"), "no escapes");
}

#[test]
fn sanitizing_removes_leaks() {
    assert_eq!(sanitize_model_output("ok [CRITICAL INSTRUCTION: x] done"), "ok  done");
    assert_eq!(sanitize_model_output("a [remember your critical\ninstruction] b"), "a  b");
    assert_eq!(sanitize_model_output("keep [this] text"), "keep [this] text");
    assert_eq!(finalize_model_output("  hi \\n "), "hi");
}

#[test]
fn generation_ceiling_is_capped() {
    assert_eq!(token_ceiling(1000), 512);
    assert_eq!(token_ceiling(512), 512);
    assert_eq!(token_ceiling(100), 100);
}

#[test]
fn embedding_blob_round_trip() {
    let vector: Vec<u32> = [1.0f32, -2.5, 0.35, 0.0].iter().map(|f| f.to_bits()).collect();
    let blob = f32_bits_to_blob(&vector);
    assert_eq!(blob.len(), 16);
    assert_eq!(&blob[0..4], &[0x00, 0x00, 0x80, 0x3f]);
    assert_eq!(blob_to_f32_bits(&blob), vector);
}

#[test]
fn embedding_blob_drops_partial_tail() {
    let mut blob = f32_bits_to_blob(&vec![2.0f32.to_bits()]);
    blob.extend_from_slice(&[1, 2]);
    let back = blob_to_f32_bits(&blob);
    assert_eq!(back, vec![2.0f32.to_bits()]);
    assert_eq!(blob_to_f32_bits(&vec![1, 2, 3]), Vec::<u32>::new());
}

#[test]
fn top_k_excludes_thresholds_and_ranks() {
    let candidates = vec![
        scored(1, 0.9, "episodic"),
        scored(2, 0.2, "episodic"),
        scored(3, 0.5, "semantic"),
        scored(4, 0.95, "episodic"),
        scored(5, 0.7, "episodic"),
    ];
    let top = find_top_k_similar(&candidates, 3, Some(4));
    let ids: Vec<i64> = top.iter().map(|m| m.message_id).collect();
    assert_eq!(ids, vec![1, 5, 3]);
    let all = find_top_k_similar(&candidates, 10, None);
    let ids: Vec<i64> = all.iter().map(|m| m.message_id).collect();
    assert_eq!(ids, vec![4, 1, 5, 3]);
}

#[test]
fn top_k_keeps_scan_order_on_ties_and_edges() {
    let candidates = vec![
        scored(1, 0.6, "episodic"),
        scored(2, 0.8, "episodic"),
        scored(3, 0.6, "episodic"),
        scored(4, 0.35, "episodic"),
        scored(5, f32::NAN, "episodic"),
        scored(6, f32::INFINITY, "episodic"),
        scored(7, -0.9, "episodic"),
    ];
    let ids: Vec<i64> = find_top_k_similar(&candidates, 10, None).iter().map(|m| m.message_id).collect();
    assert_eq!(ids, vec![2, 1, 3, 4]);
    assert!(find_top_k_similar(&candidates, 0, None).is_empty());
    assert!(find_top_k_similar(&Vec::new(), 3, None).is_empty());
}

#[test]
fn memory_lines_for_prompt() {
    let semantic = scored(1, 0.9, "semantic");
    assert_eq!(format_memory_line(&semantic, "2024-01-01"), "- memory 1");
    let episodic = scored(2, 0.9, "episodic");
    assert_eq!(format_memory_line(&episodic, "2024-01-01"), "- [2024-01-01]: memory 2");
    let lines = format_relevant_context(&vec![semantic, episodic]);
    assert_eq!(lines[0], "- memory 1");
    assert!(lines[1].starts_with("- [") && lines[1].ends_with("]: memory 2"));
    assert_ne!(lines[1], "- []: memory 2");
}

#[test]
fn cleaning_model_answers() {
    assert_eq!(clean_json_response("```json\n{\"a\": 1}\n```"), "{\"a\": 1}");
    assert_eq!(clean_json_response("  ```\n[1, 2]\n```  "), "[1, 2]");
    assert_eq!(clean_json_response("Sure! [\"x\", \"y\"] hope it helps"), "[\"x\", \"y\"]");
    assert_eq!(clean_json_response("Here: {\"semantic\": []} done"), "{\"semantic\": []}");
    assert_eq!(clean_json_response("list [1] then {\"a\": 2}"), "[1]");
    assert_eq!(clean_json_response("open [ then {\"a\": 2}"), "{\"a\": 2}");
    assert_eq!(clean_json_response("  nothing here  "), "nothing here");
}

#[test]
fn balanced_spans_skip_quoted_brackets() {
    assert_eq!(extract_first_json_array("x [\"a]\", [\"b\"]] y"), Some("[\"a]\", [\"b\"]]".to_string()));
    assert_eq!(extract_first_json_array("x [\"a\\\"]\"] y"), Some("[\"a\\\"]\"]".to_string()));
    assert_eq!(extract_first_json_array("[unclosed"), None);
    assert_eq!(extract_first_json_array("none"), None);
    assert_eq!(extract_first_json_object("a {\"k\": {\"n\": \"}\"}} b"), Some("{\"k\": {\"n\": \"}\"}}".to_string()));
}

#[test]
fn interpreting_consolidation_answers() {
    let items = interpret_consolidation("```json\n{\"semantic\": [\" likes tea \", \"\"], \"episodic\": [\"ate pasta\"]}\n```").unwrap();
    assert_eq!(items.semantic, vec!["likes tea".to_string()]);
    assert_eq!(items.episodic, vec!["ate pasta".to_string()]);
    assert!(matches!(interpret_consolidation("not json at all"), Err(ConsolidationError::Unparsable)));
    assert!(matches!(interpret_consolidation("{\"semantic\": []}"), Err(ConsolidationError::Unparsable)));
    assert!(matches!(interpret_consolidation("{\"semantic\": [1], \"episodic\": []}"), Err(ConsolidationError::Unparsable)));
}

#[test]
fn empty_cycle_changes_nothing() {
    let writes = sleep_cycle_writes(&Vec::new(), "{\"semantic\": [\"x\"], \"episodic\": []}").unwrap();
    assert!(writes.is_empty());
    let plan = plan_sleep_cycle(&Vec::new(), "{\"semantic\": [\"x\"], \"episodic\": []}").unwrap();
    assert!(plan.writes.is_empty() && plan.purge.is_empty());
    assert_eq!(consolidation_request(&Vec::new()), None);
}

#[test]
fn unreadable_cycle_reports_failure() {
    let history = vec![message(1, "user", "hola")];
    let outcome = sleep_cycle_writes(&history, "I could not do that {oops");
    assert!(matches!(outcome, Err(ConsolidationError::Unparsable)));
}

#[test]
fn readable_cycle_plans_writes() {
    let history = vec![message(1, "user", "hola")];
    let writes = sleep_cycle_writes(&history, "{\"semantic\": [\"likes tea\"], \"episodic\": [\"ate pasta\"]}").unwrap();
    assert_eq!(writes.len(), 2);
    assert_eq!(writes[0].role, "semantic_memory");
    assert_eq!(writes[0].content, "likes tea");
    assert_eq!(writes[0].memory_type, "semantic");
    assert_eq!(writes[1].role, "episodic_memory");
    assert_eq!(writes[1].memory_type, "episodic");
}

#[test]
fn consolidation_request_lists_history() {
    let history = vec![message(1, "user", "hola"), message(2, "assistant", "hey")];
    assert_eq!(
        consolidation_request(&history),
        Some("CONVERSATION HISTORY:\n[2024-01-01 10:00:00] USER: hola\n[2024-01-01 10:00:00] ASSISTANT: hey".to_string())
    );
}

#[test]
fn payload_with_history_and_turn() {
    let payload = "<ANIMA_HISTORY> a\nb </ANIMA_HISTORY><ANIMA_USER> hi there </ANIMA_USER>";
    let (user, prompt) = parse_client_message_payload(payload);
    assert_eq!(user, "hi there");
    assert_eq!(
        prompt,
        "Historial reciente (m\u{e1}ximo 4 mensajes):\na\nb\n\nMensaje actual del usuario:\nhi there"
    );
}

#[test]
fn payload_without_markers() {
    assert_eq!(parse_client_message_payload("  just this  "), ("just this".to_string(), "just this".to_string()));
    let (user, prompt) = parse_client_message_payload("<ANIMA_USER>only</ANIMA_USER>");
    assert_eq!((user.as_str(), prompt.as_str()), ("only", "only"));
    let (user, _) = parse_client_message_payload("<ANIMA_USER>  </ANIMA_USER>");
    assert_eq!(user, "<ANIMA_USER>  </ANIMA_USER>");
}

#[test]
fn tag_content_extraction() {
    assert_eq!(extract_tag_content("x<a>in</a>y", "<a>", "</a>"), Some("in".to_string()));
    assert_eq!(extract_tag_content("x<a>in", "<a>", "</a>"), None);
    assert_eq!(extract_tag_content("</a><a>", "<a>", "</a>"), None);
}

#[test]
fn runtime_initialization_steps() {
    let mut registry = RuntimeRegistry::new();
    assert!(matches!(init_ai_models(&registry, "chat.gguf", "embed.gguf"), InitStep::StartBackend));
    assert_eq!(registry.backend_started(Err("no gpu".to_string())), Err("Backend init failed: no gpu".to_string()));
    assert_eq!(registry.backend_started(Ok(())), Ok(()));
    match init_ai_models(&registry, "chat.gguf", "embed.gguf") {
        InitStep::LoadChat(path) => assert_eq!(path, "chat.gguf"),
        _ => panic!("expected the chat model next"),
    }
    assert_eq!(
        registry.chat_loaded("chat.gguf", LoadOutcome::FileMissing),
        Err("Model file not found: chat.gguf".to_string())
    );
    assert_eq!(registry.chat_loaded("chat.gguf", LoadOutcome::Loaded), Ok(()));
    assert!(matches!(init_ai_models(&registry, "chat.gguf", "embed.gguf"), InitStep::LoadEmbedding(_)));
    assert_eq!(
        registry.embedding_loaded("embed.gguf", LoadOutcome::Failed("bad file".to_string())),
        Err("Embedding model load failed: bad file".to_string())
    );
    assert_eq!(registry.require_embedding(), Err("Embedding runtime is not initialized".to_string()));
    assert_eq!(registry.embedding_loaded("embed.gguf", LoadOutcome::Loaded), Ok(()));
    assert!(matches!(init_ai_models(&registry, "chat.gguf", "embed.gguf"), InitStep::Ready));
    assert_eq!(registry.require_chat(), Ok(()));
}

#[test]
fn initialization_failure_is_sticky() {
    let mut registry = RuntimeRegistry::new();
    assert_eq!(registry.current_init_error(), None);
    let detail = init_failure_detail("c", "e", "boom");
    assert_eq!(detail, "Failed to initialize AI models (chat: c, embeddings: e): boom");
    registry.set_init_error(Some(detail.clone()));
    assert_eq!(registry.current_init_error(), Some(detail.clone()));
    assert_eq!(registry.current_init_error(), Some(detail));
    assert_eq!(engine_unavailable_message("x"), "[Error del Sistema: Motor IA no cargado] x");
    registry.set_init_error(None);
    assert_eq!(registry.current_init_error(), None);
}

#[test]
fn reset_retries_on_lock_contention() {
    let locked = || Err::<bool, String>("database is locked".to_string());
    let mut outcomes = vec![locked(), locked(), locked()].into_iter();
    let mut attempts = 0u32;
    let mut waits = Vec::new();
    let result = loop {
        let outcome = outcomes.next().unwrap();
        match reset_decision(attempts, outcome) {
            ResetDecision::Finished(result) => break result,
            ResetDecision::RetryAfter(ms) => waits.push(ms),
        }
        attempts += 1;
    };
    assert_eq!(attempts, 2);
    assert_eq!(waits, vec![250, 500]);
    assert_eq!(result, Err("database is locked".to_string()));
}

#[test]
fn reset_decisions() {
    assert!(matches!(reset_decision(0, Ok(true)), ResetDecision::Finished(Ok(true))));
    assert!(matches!(reset_decision(1, Err("SQLITE_BUSY now".to_string())), ResetDecision::RetryAfter(500)));
    match reset_decision(0, Err("disk full".to_string())) {
        ResetDecision::Finished(Err(e)) => assert_eq!(e, "disk full"),
        _ => panic!("a non-lock error ends the reset"),
    }
    assert!(is_lock_error("error: database table is locked"));
    assert!(is_lock_error("SQLITE_LOCKED"));
    assert!(!is_lock_error("constraint failed"));
}

#[test]
fn language_names() {
    assert_eq!(language_name_for_prompt(" en "), "English");
    assert_eq!(language_name_for_prompt("espa\u{f1}ol"), "Espa\u{f1}ol");
    assert_eq!(language_name_for_prompt("\u{4e2d}\u{6587}"), "\u{4e2d}\u{6587} (Chinese)");
    assert_eq!(language_name_for_prompt("tieng viet"), "Ti\u{1ebf}ng Vi\u{1ec7}t (Vietnamese)");
    assert_eq!(language_name_for_prompt("klingon"), "KLINGON");
}

#[test]
fn generation_errors_are_classified() {
    assert_eq!(
        format_generation_error("Out Of Memory while decoding"),
        "[Error: L\u{ed}mite de memoria alcanzado] Out Of Memory while decoding"
    );
    assert_eq!(format_generation_error("KV cache full"), "[Error: L\u{ed}mite de memoria alcanzado] KV cache full");
    assert_eq!(format_generation_error("bad token"), "[Error: Inferencia fallida] bad token");
    assert_eq!(format_generation_error("boom"), "[Error: L\u{ed}mite de memoria alcanzado] boom");
    assert_eq!(reply_text(Ok("hi".to_string())), "hi");
    assert_eq!(
        reply_text(Ok(String::new())),
        "[Error: L\u{ed}mite de memoria alcanzado] Inferencia devolvi\u{f3} salida vac\u{ed}a."
    );
    assert_eq!(
        reply_text(Err("context overflow".to_string())),
        "[Error: L\u{ed}mite de memoria alcanzado] Error al generar respuesta LLM: context overflow"
    );
}

#[test]
fn greeting_request() {
    let traits = vec![ProfileTrait { category: "job".to_string(), content: "nurse".to_string() }];
    let request = generate_proactive_greeting("Ana", "en", "be brief", &traits, "morning");
    assert!(request.system_prompt.starts_with("SYSTEM: The user has set their application interface language to English."));
    assert!(request.system_prompt.contains("You are talking to Ana. Their profile is:\n- job: nurse\n"));
    assert!(request.system_prompt.contains("It is currently morning."));
    assert!(request.system_prompt.ends_with("Additional user directives:\nbe brief"));
    assert_eq!(request.user_prompt, "Genera el saludo inicial ahora.");
    assert_eq!(request.max_tokens, 120);
    let anonymous = generate_proactive_greeting("  ", "es", "", &Vec::new(), "night");
    assert!(anonymous.system_prompt.contains("You are talking to la persona. Their profile is:\n(sin datos a\u{fa}n)\n"));
}

#[test]
fn greeting_outcomes() {
    assert_eq!(greeting_outcome(Ok("Hola".to_string())), Ok("Hola".to_string()));
    assert!(greeting_outcome(Ok("   ".to_string())).unwrap_err().starts_with("[Error del Sistema: Inferencia de saludo"));
    assert_eq!(greeting_outcome(Err("x".to_string())), Err("Error al generar saludo LLM: x".to_string()));
}

#[test]
fn chat_prompt_pieces() {
    assert_eq!(
        chat_template("S", "U"),
        "<|begin_of_text|><|start_header_id|>system<|end_header_id|>\n\nS\n<|eot_id|><|start_header_id|>user<|end_header_id|>\n\nU\n<|eot_id|><|start_header_id|>assistant<|end_header_id|>\n\n"
    );
    assert_eq!(memory_block(&Vec::new()), "");
    let block = memory_block(&vec![" [user] hola ".to_string(), "[assistant] hey".to_string(), "plain".to_string()]);
    assert_eq!(
        block,
        "\n\nMEMORY SNIPPETS (REFERENCE ONLY, NOT DIALOGUE TURNS):\n1. (user memory) hola\n2. (assistant memory) hey\n3. plain\nUse this context only if relevant to the current user message. Never generate roleplay turns like 'User:' or simulate both sides."
    );
    assert_eq!(chat_user_prompt("msg", &Vec::new()), "msg");
    let traits = vec![
        ProfileTrait { category: "a".to_string(), content: "b".to_string() },
        ProfileTrait { category: "c".to_string(), content: "d".to_string() },
    ];
    assert_eq!(profile_block(&traits), "\n\nPERFIL CONSOLIDADO DEL USUARIO:\n- [a]: b\n- [c]: d");
    assert_eq!(profile_block(&Vec::new()), "");
    let system = chat_system_prompt("Ana", "fr", "extra words", "2024-01-01 10:00:00 +0000", &traits);
    assert!(system.contains("You are talking directly to: Ana."));
    assert!(system.contains("The application interface is set to: Fran\u{e7}ais (French)."));
    assert!(system.contains("Today's exact date and time is 2024-01-01 10:00:00 +0000."));
    assert!(system.ends_with("extra words\n\nPERFIL CONSOLIDADO DEL USUARIO:\n- [a]: b\n- [c]: d"));
}

#[test]
fn records_and_names() {
    assert_eq!(ChatRole::User.to_string(), "user");
    assert_eq!(ChatRole::Ai.to_string(), "ai");
    assert_eq!(IdentityCategory::Relationship.to_string(), "relationship");
    assert_eq!(SleepCycleStatus::Completed.to_string(), "completed");
    assert_eq!(parse_identity_category("fear"), Ok(IdentityCategory::Fear));
    assert_eq!(parse_identity_category("nope"), Err("Unknown category: nope".to_string()));
    assert_eq!(normalize_memory_type(" SeMantic "), "semantic");
    assert_eq!(normalize_memory_type("other"), "episodic");
}

#[test]
fn text_helpers() {
    assert_eq!(trim_string("\t a b \n"), "a b");
    assert_eq!(write_decimal(1234), "1234");
    assert_eq!(write_decimal(0), "0");
}

#[test]
fn stream_outcomes_and_language_default() {
    assert_eq!(stream_outcome(Ok("done".to_string())), Ok(()));
    assert_eq!(
        stream_outcome(Ok(" \n".to_string())),
        Err("[Error: L\u{ed}mite de memoria alcanzado] Inferencia stream devolvi\u{f3} salida vac\u{ed}a.".to_string())
    );
    assert_eq!(
        stream_outcome(Err("bad token".to_string())),
        Err("[Error: Inferencia fallida] Error al generar respuesta LLM: bad token".to_string())
    );
    assert_eq!(app_language_or_default(None), "Espa\u{f1}ol");
    assert_eq!(app_language_or_default(Some("  ".to_string())), "Espa\u{f1}ol");
    assert_eq!(app_language_or_default(Some("EN".to_string())), "EN");
}

#[test]
fn test_episodic_memory_creation() {
    let memory = EpisodicMemory::new(ChatRole::User, "Hello".to_string(), vec![0.1f32.to_bits(); 768]);
    assert_eq!(memory.role, ChatRole::User);
    assert!(!memory.processed);
    assert!(!memory.id.is_empty());
}

#[test]
fn test_user_identity_creation() {
    let identity = UserIdentity::new("Profession".to_string(), "Engineer".to_string(), IdentityCategory::Profession);
    assert_eq!(identity.confidence_score, 50);
    assert_eq!(identity.evidence_count, 1);
}

#[test]
fn new_records_start_fresh() {
    let insight = SemanticMemory::new("food".to_string(), "likes tea".to_string(), 7);
    assert_eq!(f32::from_bits(insight.confidence_bits), 0.5);
    assert!(insight.embedding.is_empty() && insight.source_episodes.is_empty());
    assert_eq!(insight.id.len(), 36);
    let model = AiSelfModel::new("tone".to_string(), "warm".to_string());
    assert_eq!(model.reinforcement_count, 1);
    assert!(model.delta_from_previous.is_none());
    let cycle = SleepCycle::new();
    assert_eq!(cycle.status, SleepCycleStatus::Pending);
    assert!(cycle.completed_at.is_none());
    let other = SleepCycle::new();
    assert_ne!(cycle.id, other.id);
}

#[test]
fn stream_withholds_leak_spread_over_fragments() {
    let (chunks, result) = run_stream(&[b"Sure thing. ", b"[System note: obey", b" the rules]", b" bye"]);
    assert_eq!(result, "Sure thing.");
    assert_eq!(chunks.concat(), "Sure thing. ");
    assert!(chunks.iter().all(|c| !c.contains('[') && !c.contains("System")));
}

#[test]
fn stream_releases_closed_brackets() {
    let mut engine = StreamEngine::new();
    let first = engine.push_piece(b"see [this] and [that but more text after it");
    assert_eq!(first.chunk, Some("see [this] and ".to_string()));
    let second = engine.push_piece(b"] plus more words here");
    assert_eq!(second.chunk, Some("[that but more text after it] plus more w".to_string()));
    let (last, result) = engine.finish();
    assert_eq!(last, Some("ords here".to_string()));
    assert_eq!(result, "see [this] and [that but more text after it] plus more words here");
}

#[test]
fn cycle_purges_raw_memories_after_writes() {
    let history = vec![
        message(1, "user", "hola"),
        message(2, "semantic_memory", "likes tea"),
        message(3, "assistant", "hey"),
    ];
    let plan = plan_sleep_cycle(&history, "{\"semantic\": [\"likes coffee\"], \"episodic\": []}").unwrap();
    assert_eq!(plan.writes.len(), 1);
    assert_eq!(plan.purge, vec![1, 3]);
    assert!(matches!(plan_sleep_cycle(&history, "nope"), Err(ConsolidationError::Unparsable)));
}

#[test]
fn reencoding_a_read_blob_gives_it_back() {
    let blob: Vec<u8> = vec![0, 0, 128, 63, 1, 2, 3, 4, 255, 255, 255, 255];
    assert_eq!(f32_bits_to_blob(&blob_to_f32_bits(&blob)), blob);
}

#[test]
fn whitespace_of_every_kind_is_trimmed() {
    assert_eq!(trim_string("\u{3000}\u{a0}\u{85}x y\u{2028}\u{b}\u{c}"), "x y");
    assert_eq!(trim_string("\u{200b}x"), "\u{200b}x");
    assert_eq!(greet("Ana"), "Hello, Ana!");
}
