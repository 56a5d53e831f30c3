//! Run configuration of the translation pipeline.

use vstd::prelude::*;
use crate::lang::Language;
use crate::codec::Codec;

verus! {

/// Which backend translates a window, and its window size.
pub enum TranslateEngine {
    /// A chat model reached through a configured provider, addressed as
    /// `provider_id/model`.
    LLM { model: String, system_prompt: Option<String>, window: Option<usize>, codec: Codec },
    /// The on-device translation capability, reached per item through a
    /// foreign bridge.
    Apple { window: Option<usize> },
}

/// The translation stage's configuration.
pub struct Translate {
    pub engine: TranslateEngine,
    pub target_lang: Language,
}

/// One removal condition of the filter stage. The threshold is a confidence
/// in hundredths: 70 stands for 0.7, the default.
pub struct FilterConfig {
    pub prompt: String,
    pub threshold: Option<u32>,
    pub llm: Option<String>,
}

/// The edit stage's configuration: a model reference, free-text editorial
/// instructions, and the filter conditions.
pub struct Edit {
    pub default_model: String,
    pub instructions: Option<Vec<String>>,
    pub filters: Option<Vec<FilterConfig>>,
}

/// The translation part of a run configuration.
pub struct TranslationConfig {
    pub translate: Translate,
    pub edit: Option<Edit>,
}

/// The window size an engine asks for; the default is
/// [`crate::DEFAULT_WINDOW_SIZE`].
pub open spec fn spec_engine_window(e: TranslateEngine) -> int {
    let w = match e {
        TranslateEngine::LLM { window, .. } => window,
        TranslateEngine::Apple { window } => window,
    };
    match w {
        Some(n) => n as int,
        None => crate::DEFAULT_WINDOW_SIZE as int,
    }
}

impl TranslateEngine {
    /// The window size this engine uses.
    pub fn window_size(&self) -> (r: usize)
        ensures
            r == spec_engine_window(*self),
    {
        let w = match self {
            TranslateEngine::LLM { window, .. } => *window,
            TranslateEngine::Apple { window } => *window,
        };
        match w {
            Some(n) => n,
            None => crate::DEFAULT_WINDOW_SIZE,
        }
    }
}

} // verus!
