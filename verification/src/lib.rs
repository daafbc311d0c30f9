//! Sentence analysis for Japanese dialogue practice: token surfaces are
//! aligned onto code-point intervals of the sentence, and playback position
//! events are mapped onto the token that is being spoken.

pub mod alignment;
pub mod catalog;
pub mod cover;
pub mod dialogue;
pub mod error;
pub mod lindera_calls;
pub mod speech;
pub mod text;
pub mod tokenizer;
pub mod tracker;

pub use alignment::{
    build_char_offset_ranges, fallback_tokens, try_build_char_offset_ranges, AlignedInterval,
};
pub use catalog::{find_dialogue, page_of_topic, page_window, topic_summaries};
pub use dialogue::{topic_name_ja, Dialogue, DialoguePage, TopicSummary, Utterance};
pub use error::AnalysisError;
pub use speech::escape_for_script;
pub use tokenizer::{
    analysis_of, analyze_sentence, create_tokenizer, pos_css_class, pos_english, tokenizer_over,
    AnalyzedSentence, AnalyzedToken, PartOfSpeech, TokenFields,
};
pub use tracker::{
    char_index_to_token, next_highlight, PlaybackEvent, PlaybackTracker, UtterancePlan,
};
