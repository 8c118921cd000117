//! The model runtime's lifecycle: one backend and one model for each role
//! (chat, embedding), each brought up once; an initialization failure is
//! kept and shown to every caller until the process restarts.
//!
//! Loading is done by the caller, who asks [`init_ai_models`] for the next
//! step and reports each outcome back to the registry.
use vstd::prelude::*;

verus! {

/// What is up in this process, and the initialization failure, if any.
pub struct RuntimeRegistry {
    pub backend_ready: bool,
    pub chat_ready: bool,
    pub embedding_ready: bool,
    pub init_error: Option<String>,
}

/// The next step of bringing the runtime up.
pub enum InitStep {
    StartBackend,
    LoadChat(String),
    LoadEmbedding(String),
    Ready,
}

/// How loading a model went.
pub enum LoadOutcome {
    Loaded,
    FileMissing,
    Failed(String),
}

/// The view of an optional string.
pub open spec fn opt_text(o: Option<String>) -> Option<Seq<char>> {
    match o {
        Some(s) => Some(s@),
        None => None,
    }
}

/// The view of a result whose error is a string.
pub open spec fn unit_result(r: Result<(), String>) -> Result<(), Seq<char>> {
    match r {
        Ok(()) => Ok(()),
        Err(e) => Err(e@),
    }
}

impl RuntimeRegistry {
    /// A registry with nothing up and no failure recorded.
    pub fn new() -> (r: RuntimeRegistry)
        ensures
            !r.backend_ready && !r.chat_ready && !r.embedding_ready && r.init_error is None,
    {
        RuntimeRegistry { backend_ready: false, chat_ready: false, embedding_ready: false, init_error: None }
    }

    /// The recorded initialization failure.
    pub fn current_init_error(&self) -> (r: Option<String>)
        ensures
            opt_text(r) == opt_text(self.init_error),
    {
        match &self.init_error {
            Some(e) => Some(e.clone()),
            None => None,
        }
    }

    /// Records (or clears) the initialization failure.
    pub fn set_init_error(&mut self, value: Option<String>)
        ensures
            final(self).init_error == value,
            final(self).backend_ready == old(self).backend_ready,
            final(self).chat_ready == old(self).chat_ready,
            final(self).embedding_ready == old(self).embedding_ready,
    {
        self.init_error = value;
    }

    /// Takes the outcome of starting the backend.
    pub fn backend_started(&mut self, outcome: Result<(), String>) -> (r: Result<(), String>)
        ensures
            final(self).backend_ready == (old(self).backend_ready || outcome is Ok),
            final(self).chat_ready == old(self).chat_ready,
            final(self).embedding_ready == old(self).embedding_ready,
            final(self).init_error == old(self).init_error,
            unit_result(r) == match outcome {
                Ok(()) => Ok::<(), Seq<char>>(()),
                Err(e) => Err("Backend init failed: "@ + e@),
            },
    {
        match outcome {
            Ok(()) => {
                self.backend_ready = true;
                Ok(())
            },
            Err(e) => {
                let mut m = String::from_str("Backend init failed: ");
                m.append(e.as_str());
                Err(m)
            },
        }
    }

    /// Takes the outcome of loading the chat model from `path`.
    pub fn chat_loaded(&mut self, path: &str, outcome: LoadOutcome) -> (r: Result<(), String>)
        ensures
            final(self).chat_ready == (old(self).chat_ready || outcome is Loaded),
            final(self).backend_ready == old(self).backend_ready,
            final(self).embedding_ready == old(self).embedding_ready,
            final(self).init_error == old(self).init_error,
            unit_result(r) == match outcome {
                LoadOutcome::Loaded => Ok::<(), Seq<char>>(()),
                LoadOutcome::FileMissing => Err("Model file not found: "@ + path@),
                LoadOutcome::Failed(e) => Err("Model load failed: "@ + e@),
            },
    {
        match outcome {
            LoadOutcome::Loaded => {
                self.chat_ready = true;
                Ok(())
            },
            LoadOutcome::FileMissing => {
                let mut m = String::from_str("Model file not found: ");
                m.append(path);
                Err(m)
            },
            LoadOutcome::Failed(e) => {
                let mut m = String::from_str("Model load failed: ");
                m.append(e.as_str());
                Err(m)
            },
        }
    }

    /// Takes the outcome of loading the embedding model from `path`.
    pub fn embedding_loaded(&mut self, path: &str, outcome: LoadOutcome) -> (r: Result<(), String>)
        ensures
            final(self).embedding_ready == (old(self).embedding_ready || outcome is Loaded),
            final(self).backend_ready == old(self).backend_ready,
            final(self).chat_ready == old(self).chat_ready,
            final(self).init_error == old(self).init_error,
            unit_result(r) == match outcome {
                LoadOutcome::Loaded => Ok::<(), Seq<char>>(()),
                LoadOutcome::FileMissing => Err("Embedding model file not found: "@ + path@),
                LoadOutcome::Failed(e) => Err("Embedding model load failed: "@ + e@),
            },
    {
        match outcome {
            LoadOutcome::Loaded => {
                self.embedding_ready = true;
                Ok(())
            },
            LoadOutcome::FileMissing => {
                let mut m = String::from_str("Embedding model file not found: ");
                m.append(path);
                Err(m)
            },
            LoadOutcome::Failed(e) => {
                let mut m = String::from_str("Embedding model load failed: ");
                m.append(e.as_str());
                Err(m)
            },
        }
    }

    /// Whether the chat model may serve a generation.
    pub fn require_chat(&self) -> (r: Result<(), String>)
        ensures
            unit_result(r) == if self.chat_ready {
                Ok::<(), Seq<char>>(())
            } else {
                Err("AI runtime is not initialized"@)
            },
    {
        if self.chat_ready {
            Ok(())
        } else {
            Err(String::from_str("AI runtime is not initialized"))
        }
    }

    /// Whether the embedding model may serve an embedding.
    pub fn require_embedding(&self) -> (r: Result<(), String>)
        ensures
            unit_result(r) == if self.embedding_ready {
                Ok::<(), Seq<char>>(())
            } else {
                Err("Embedding runtime is not initialized"@)
            },
    {
        if self.embedding_ready {
            Ok(())
        } else {
            Err(String::from_str("Embedding runtime is not initialized"))
        }
    }
}

/// The next step of initialization: the backend first, then each model that
/// is not loaded yet. A part already up is never brought up again.
pub fn init_ai_models(registry: &RuntimeRegistry, chat_model_path: &str, embedding_model_path: &str) -> (r: InitStep)
    ensures
        !registry.backend_ready ==> r is StartBackend,
        registry.backend_ready && !registry.chat_ready ==> (r matches InitStep::LoadChat(p) && p@ == chat_model_path@),
        registry.backend_ready && registry.chat_ready && !registry.embedding_ready
            ==> (r matches InitStep::LoadEmbedding(p) && p@ == embedding_model_path@),
        registry.backend_ready && registry.chat_ready && registry.embedding_ready ==> r is Ready,
{
    if !registry.backend_ready {
        InitStep::StartBackend
    } else if !registry.chat_ready {
        InitStep::LoadChat(String::from_str(chat_model_path))
    } else if !registry.embedding_ready {
        InitStep::LoadEmbedding(String::from_str(embedding_model_path))
    } else {
        InitStep::Ready
    }
}

/// The failure recorded when the models could not be brought up.
pub fn init_failure_detail(chat_path: &str, embedding_path: &str, error: &str) -> (r: String)
    ensures
        r@ == "Failed to initialize AI models (chat: "@ + chat_path@ + ", embeddings: "@ + embedding_path@ + "): "@ + error@,
{
    let mut m = String::from_str("Failed to initialize AI models (chat: ");
    m.append(chat_path);
    m.append(", embeddings: ");
    m.append(embedding_path);
    m.append("): ");
    m.append(error);
    m
}

/// The answer given while the recorded failure stands.
pub fn engine_unavailable_message(error: &str) -> (r: String)
    ensures
        r@ == "[Error del Sistema: Motor IA no cargado] "@ + error@,
{
    let mut m = String::from_str("[Error del Sistema: Motor IA no cargado] ");
    m.append(error);
    m
}

} // verus!
