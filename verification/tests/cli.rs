use dialogue_syntax::cli::parse_format;
use dialogue_syntax::cli::printable;
use dialogue_syntax::cli::Encoded;
use dialogue_syntax::cli::Format;
use dialogue_syntax::cli::Task;
use dialogue_syntax::Cli;
use dialogue_syntax::Commands;

fn cli(command: Option<Commands>) -> Cli {
    Cli { file: "script.txt".to_string(), command }
}

#[test]
fn play_is_the_default() {
    assert_eq!(cli(None).task(), Task::Play);
    assert_eq!(cli(Some(Commands::Play)).task(), Task::Play);
    assert_eq!(cli(Some(Commands::Debug)).task(), Task::Debug);
}

#[test]
fn conversions_name_their_format() {
    let to_file = Commands::Convert { format: "json".to_string(), path: Some("out.json".to_string()) };
    assert_eq!(
        cli(Some(to_file)).task(),
        Task::Convert { format: Format::Json, path: Some("out.json".to_string()) }
    );
    let to_screen = Commands::Convert { format: "pickle".to_string(), path: None };
    assert_eq!(cli(Some(to_screen)).task(), Task::Convert { format: Format::Pickle, path: None });
    let unknown = Commands::Convert { format: "xml".to_string(), path: None };
    assert_eq!(cli(Some(unknown)).task(), Task::Unsupported { name: "xml".to_string() });
}

#[test]
fn formats_match_exactly() {
    assert_eq!(parse_format("json"), Some(Format::Json));
    assert_eq!(parse_format("yaml"), Some(Format::Yaml));
    assert_eq!(parse_format("ron"), Some(Format::Ron));
    assert_eq!(parse_format("toml"), Some(Format::Toml));
    assert_eq!(parse_format("pickle"), Some(Format::Pickle));
    assert_eq!(parse_format("JSON"), None);
    assert_eq!(parse_format("json "), None);
    assert_eq!(parse_format("yml"), None);
    assert_eq!(parse_format(""), None);
}

#[test]
fn text_is_shown_as_it_is_and_bytes_in_base64() {
    assert_eq!(printable(Encoded::Text("{}".to_string())), Some("{}".to_string()));
    assert_eq!(printable(Encoded::Bytes(b"hello".to_vec())), Some("aGVsbG8=".to_string()));
    assert_eq!(printable(Encoded::Bytes(vec![0xFF, 0xEC, 0x20, 0x55, 0])), Some("/+wgVQA=".to_string()));
    assert_eq!(printable(Encoded::Bytes(vec![])), Some(String::new()));
}
