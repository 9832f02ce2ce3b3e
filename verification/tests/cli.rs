use hash_cracker::cli::{parse_args, usage};
use hash_cracker::config::Config;
use hash_cracker::outcome::{CrackError, CrackResult};

fn args(values: &[&str]) -> Vec<String> {
    values.iter().map(|value| value.to_string()).collect()
}

#[test]
fn two_arguments_are_a_wordlist_and_a_target() {
    let invocation = parse_args(&args(&["cracker", "words.txt", "5f4dcc3b5aa765d61d8327deb882cf99"])).unwrap();
    assert_eq!(invocation.wordlist_path, "words.txt");
    assert_eq!(invocation.target_hex, "5f4dcc3b5aa765d61d8327deb882cf99");
}

#[test]
fn target_argument_is_trimmed() {
    let invocation = parse_args(&args(&["cracker", " words.txt", "  abc\n"])).unwrap();
    assert_eq!(invocation.wordlist_path, " words.txt");
    assert_eq!(invocation.target_hex, "abc");
}

#[test]
fn any_other_number_of_arguments_asks_for_nothing() {
    assert!(parse_args(&args(&[])).is_none());
    assert!(parse_args(&args(&["cracker"])).is_none());
    assert!(parse_args(&args(&["cracker", "words.txt"])).is_none());
    assert!(parse_args(&args(&["cracker", "words.txt", "abc", "more"])).is_none());
}

#[test]
fn usage_names_the_program() {
    assert_eq!(usage("cracker"), "Usage: cracker <wordlist_path> <target_hash_hex>");
    assert_eq!(usage(""), "Usage:  <wordlist_path> <target_hash_hex>");
}

#[test]
fn message_of_a_found_candidate_holds_the_candidate() {
    let found = CrackResult::Found("pass word".to_string());
    assert_eq!(found.message(), "[+] Password found: pass word");
    assert_eq!(CrackResult::Found(String::new()).message(), "[+] Password found: ");
}

#[test]
fn message_of_nothing_found() {
    assert_eq!(CrackResult::NotFound.message(), "[-] Hash not found.");
}

#[test]
fn messages_of_errors() {
    assert_eq!(CrackError::InvalidDigestFormat.message(), "[!] Hash not valid!");
    assert_eq!(
        CrackError::WordlistUnavailable("permission denied".to_string()).message(),
        "[!] Wordlist not readable: permission denied"
    );
}

#[test]
fn config_holds_what_it_was_given() {
    let config = Config::new("token-from-outside".to_string(), "%".to_string());
    assert_eq!(config.token(), "token-from-outside");
    assert_eq!(config.prefix(), "%");
    let empty = Config::new(String::new(), String::new());
    assert_eq!(empty.token(), "");
    assert_eq!(empty.prefix(), "");
}
