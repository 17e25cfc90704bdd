//! A typing-practice trainer: the typing state machine, its metrics, the
//! sentence providers and the session that drives them.

pub mod args;
pub mod clock;
pub mod config;
pub mod file_source;
pub mod json;
pub mod laws;
pub mod markup;
pub mod metrics;
pub mod pool;
pub mod random;
pub mod sentence_typer;
pub mod source;
pub mod text;
pub mod text_source;
pub mod typing;
pub mod wiki_source;

pub use args::Args;
pub use config::{Application, Config, Configurable, Wikipedia};
pub use file_source::{FileProbe, FileSource};
pub use markup::{markup, styled_chars, Markup, StyledChar, Tint};
pub use metrics::{
    accuracy, accuracy_hundredths, apply_keystroke, feedback, words_per_minute,
    words_per_minute_hundredths, Feedback, SessionCounters,
};
pub use pool::{Provider, ProviderPool};
pub use sentence_typer::{SentenceTyper, SessionPhase};
pub use source::{relay, SourceError, Sourceable};
pub use text_source::TextSource;
pub use typing::{CharState, KeyEvent, Keystroke, TypingState};
pub use wiki_source::{HttpOutcome, WikipediaSource};
