//! Provider-specific connector support: the wire message shapes each LLM
//! provider expects, the conversation conversion into them, and per-provider
//! cost estimation over integer nano-dollar rates.

pub mod anthropic;
pub mod gemini;
pub mod openai;
