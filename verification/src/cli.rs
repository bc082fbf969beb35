//! The command line of the tool, as plain values: what was asked, and what
//! is to be done for it.

use crate::strings::to_chars;
use crate::text::is_word;
use base64::Engine;
use vstd::prelude::*;

verus! {

/// The command line.
#[derive(Debug, Clone, PartialEq, Eq)]
pub struct Cli {
    /// The path of the script.
    pub file: String,
    /// What to do with it; to play it where nothing is asked.
    pub command: Option<Commands>,
}

/// What can be asked for.
#[derive(Debug, Clone, PartialEq, Eq)]
pub enum Commands {
    /// Show the parsed document as it is held.
    Debug,
    /// Play the document.
    Play,
    /// Write the document in an interchange format.
    Convert {
        /// The name of the format.
        format: String,
        /// Where to write; to the standard output where no path is given.
        path: Option<String>,
    },
}

/// The interchange formats.
#[derive(Debug, Clone, Copy, PartialEq, Eq)]
pub enum Format {
    Json,
    Yaml,
    Ron,
    Toml,
    Pickle,
}

/// The format of the name `name`. Names are in lower case and match
/// exactly.
pub open spec fn format_named(name: Seq<char>) -> Option<Format> {
    if name == "json"@ {
        Some(Format::Json)
    } else if name == "yaml"@ {
        Some(Format::Yaml)
    } else if name == "ron"@ {
        Some(Format::Ron)
    } else if name == "toml"@ {
        Some(Format::Toml)
    } else if name == "pickle"@ {
        Some(Format::Pickle)
    } else {
        None
    }
}

/// What is to be done for a command line.
#[derive(Debug, Clone, PartialEq, Eq)]
pub enum Task {
    Debug,
    Play,
    Convert { format: Format, path: Option<String> },
    /// A conversion was asked for in a format that is none of the known.
    Unsupported { name: String },
}

/// The task that `command` stands for.
pub open spec fn task_of(command: Option<Commands>) -> Task {
    match command {
        None => Task::Play,
        Some(Commands::Play) => Task::Play,
        Some(Commands::Debug) => Task::Debug,
        Some(Commands::Convert { format, path }) => match format_named(format@) {
            Some(known) => Task::Convert { format: known, path },
            None => Task::Unsupported { name: format },
        },
    }
}

/// What an output of the tool was encoded as.
#[derive(Debug, Clone, PartialEq, Eq)]
pub enum Encoded {
    /// Text, shown as it is.
    Text(String),
    /// Bytes, shown in base64.
    Bytes(Vec<u8>),
}

/// The standard base64 encoding of `bytes`, with padding.
pub uninterp spec fn base64_standard(bytes: Seq<u8>) -> Seq<char>;

/// Whether the base64 encoding of `length` bytes has a length that the
/// machine can hold.
pub open spec fn encodable(length: nat) -> bool {
    (length / 3) * 4 + 4 <= usize::MAX
}

/// `Engine::encode` of `base64::prelude::BASE64_STANDARD`: the bytes in the
/// standard alphabet with padding, as a string. It fails only where the
/// length of the encoding overflows, which `requires` leaves out.
#[verifier::external_body]
fn encode_standard(bytes: &Vec<u8>) -> (text: String)
    requires
        encodable(bytes@.len()),
    ensures
        text@ == base64_standard(bytes@),
{
    base64::prelude::BASE64_STANDARD.encode(bytes)
}

/// The format of the name `name`.
pub fn parse_format(name: &str) -> (r: Option<Format>)
    ensures
        r == format_named(name@),
{
    let chars = to_chars(name);
    let word = chars.as_slice();
    if is_word(word, "json") {
        Some(Format::Json)
    } else if is_word(word, "yaml") {
        Some(Format::Yaml)
    } else if is_word(word, "ron") {
        Some(Format::Ron)
    } else if is_word(word, "toml") {
        Some(Format::Toml)
    } else if is_word(word, "pickle") {
        Some(Format::Pickle)
    } else {
        None
    }
}

impl Cli {
    /// What is to be done: the command that was given, or to play where
    /// none was; a conversion names its format, or is refused where the
    /// format is not known.
    pub fn task(self) -> (task: Task)
        ensures
            task == task_of(self.command),
    {
        match self.command {
            None => Task::Play,
            Some(Commands::Play) => Task::Play,
            Some(Commands::Debug) => Task::Debug,
            Some(Commands::Convert { format, path }) => match parse_format(format.as_str()) {
                Some(known) => Task::Convert { format: known, path },
                None => Task::Unsupported { name: format },
            },
        }
    }
}

/// The text in which `encoded` is shown: text as it is, bytes in base64.
/// `None` where the bytes are too many for their encoding to be held.
pub fn printable(encoded: Encoded) -> (r: Option<String>)
    ensures
        match encoded {
            Encoded::Text(text) => r == Some(text),
            Encoded::Bytes(bytes) => match r {
                Some(text) => encodable(bytes@.len()) && text@ == base64_standard(bytes@),
                None => !encodable(bytes@.len()),
            },
        },
{
    match encoded {
        Encoded::Text(text) => Some(text),
        Encoded::Bytes(bytes) => {
            if bytes.len() / 3 <= (usize::MAX - 4) / 4 {
                Some(encode_standard(&bytes))
            } else {
                None
            }
        },
    }
}

} // verus!
