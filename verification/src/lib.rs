//! A reader and a player for a small line-oriented language of dialogue
//! scripts.

pub mod cli;
pub mod parser;
pub mod player;
pub mod strings;
pub mod table;
pub mod text;

pub use crate::cli::Cli;
pub use crate::cli::Commands;
pub use crate::parser::config::META_SECTION_NAME;
pub use crate::parser::functions::is_new_step;
pub use crate::parser::functions::parse;
pub use crate::parser::functions::parse_test_helper;
pub use crate::parser::functions::ParseContext;
pub use crate::parser::functions::ParseResult;
pub use crate::parser::types::Dialogue;
pub use crate::parser::types::DialogueActor;
pub use crate::parser::types::DialogueFunction;
pub use crate::parser::types::DialogueLine;
pub use crate::parser::types::DialogueSection;
pub use crate::parser::types::DialogueStep;
pub use crate::parser::types::DialogueValue;
pub use crate::parser::value::parse_value;
pub use crate::player::engine::play;
pub use crate::player::engine::DialogueState;
pub use crate::player::engine::Output;
pub use crate::player::engine::Playback;
pub use crate::player::engine::Session;
pub use crate::player::model::StartError;
pub use crate::table::Table;
