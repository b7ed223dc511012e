//! The kinds of model providers.
use vstd::prelude::*;

verus! {

/// A provider of models that an agent can be backed by.
#[derive(Debug, Clone, Copy, PartialEq, Eq, Structural)]
pub enum ProviderType {
    OpenAI,
    Gemini,
    Claude,
    DeepSeek,
    SiliconFlow,
    OpenRouter,
}

} // verus!
