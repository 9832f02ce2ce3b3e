use hash_cracker::algorithm::Algorithm;
use hash_cracker::outcome::{CrackError, CrackResult};
use hash_cracker::scan::crack;

fn wordlist(lines: &[&str]) -> Vec<String> {
    lines.iter().map(|line| line.to_string()).collect()
}

#[test]
fn md5_password_is_found_in_wordlist() {
    let lines = wordlist(&["hello", "world", "password"]);
    let result = crack(Algorithm::Md5, "5f4dcc3b5aa765d61d8327deb882cf99", &lines);
    assert_eq!(result, Ok(CrackResult::Found("password".to_string())));
}

#[test]
fn md5_of_absent_word_is_not_found() {
    let lines = wordlist(&["hello", "world", "password"]);
    let result = crack(Algorithm::Md5, "4e2dcf9208454aebce7ed56e93c67d78", &lines);
    assert_eq!(result, Ok(CrackResult::NotFound));
}

#[test]
fn too_short_target_is_invalid() {
    let lines = wordlist(&["hello", "world", "password"]);
    assert_eq!(crack(Algorithm::Md5, "abc", &lines), Err(CrackError::InvalidDigestFormat));
    assert_eq!(crack(Algorithm::Sha1, "abc", &lines), Err(CrackError::InvalidDigestFormat));
}

#[test]
fn sha1_password_is_found_in_wordlist() {
    let lines = wordlist(&["hello", "world", "password"]);
    let result = crack(Algorithm::Sha1, "5baa61e4c9b93f3f0682250b6cf8331b7ee68fd8", &lines);
    assert_eq!(result, Ok(CrackResult::Found("password".to_string())));
}

#[test]
fn sha1_of_absent_word_is_not_found() {
    let lines = wordlist(&["hello", "world", "password"]);
    let result = crack(Algorithm::Sha1, "3e65819230df66ec6f55427a242a2ff11c7d7884", &lines);
    assert_eq!(result, Ok(CrackResult::NotFound));
}

#[test]
fn word_is_found_by_its_own_digest() {
    for algorithm in [Algorithm::Sha1, Algorithm::Md5] {
        for word in ["", "a", "password", "two words", "caf\u{e9}", "\u{4e16}\u{754c}"] {
            let target = algorithm.hex_digest(word.as_bytes());
            let lines = wordlist(&[word]);
            assert_eq!(crack(algorithm, &target, &lines), Ok(CrackResult::Found(word.to_string())));
        }
    }
}

#[test]
fn word_with_whitespace_around_it_is_not_found_by_its_own_digest() {
    let target = Algorithm::Md5.hex_digest(" a".as_bytes());
    let lines = wordlist(&[" a"]);
    assert_eq!(crack(Algorithm::Md5, &target, &lines), Ok(CrackResult::NotFound));
}

#[test]
fn wrong_length_is_invalid_whatever_the_wordlist() {
    let md5_of_password = "5f4dcc3b5aa765d61d8327deb882cf99";
    let sha1_of_password = "5baa61e4c9b93f3f0682250b6cf8331b7ee68fd8";
    let lines = wordlist(&["password"]);
    let none = wordlist(&[]);
    assert_eq!(crack(Algorithm::Sha1, md5_of_password, &lines), Err(CrackError::InvalidDigestFormat));
    assert_eq!(crack(Algorithm::Md5, sha1_of_password, &lines), Err(CrackError::InvalidDigestFormat));
    assert_eq!(crack(Algorithm::Md5, "", &lines), Err(CrackError::InvalidDigestFormat));
    assert_eq!(crack(Algorithm::Md5, "", &none), Err(CrackError::InvalidDigestFormat));
    let one_more = format!("{}0", md5_of_password);
    assert_eq!(crack(Algorithm::Md5, &one_more, &lines), Err(CrackError::InvalidDigestFormat));
    let one_less = &md5_of_password[..31];
    assert_eq!(crack(Algorithm::Md5, one_less, &lines), Err(CrackError::InvalidDigestFormat));
}

#[test]
fn target_with_a_character_that_is_no_hex_digit_is_invalid() {
    let lines = wordlist(&["password"]);
    let with_g = "5f4dcc3b5aa765d61d8327deb882cf9g";
    assert_eq!(with_g.len(), 32);
    assert_eq!(crack(Algorithm::Md5, with_g, &lines), Err(CrackError::InvalidDigestFormat));
    let with_space = "5f4dcc3b5aa765d61d8327deb882cf9 ";
    assert_eq!(crack(Algorithm::Md5, with_space, &lines), Err(CrackError::InvalidDigestFormat));
}

#[test]
fn target_with_characters_outside_ascii_is_invalid() {
    let lines = wordlist(&["password"]);
    // 32 characters, 33 bytes
    let chars_fit = "5f4dcc3b5aa765d61d8327deb882cf9\u{e9}";
    assert_eq!(chars_fit.chars().count(), 32);
    assert_eq!(crack(Algorithm::Md5, chars_fit, &lines), Err(CrackError::InvalidDigestFormat));
    // 31 characters, 32 bytes
    let bytes_fit = "5f4dcc3b5aa765d61d8327deb882cf\u{e9}";
    assert_eq!(bytes_fit.len(), 32);
    assert_eq!(crack(Algorithm::Md5, bytes_fit, &lines), Err(CrackError::InvalidDigestFormat));
}

#[test]
fn target_is_read_in_either_case() {
    let lines = wordlist(&["hello", "world", "password"]);
    let upper = "5F4DCC3B5AA765D61D8327DEB882CF99";
    let mixed = "5f4DCc3b5Aa765D61d8327dEB882cF99";
    assert_eq!(crack(Algorithm::Md5, upper, &lines), Ok(CrackResult::Found("password".to_string())));
    assert_eq!(crack(Algorithm::Md5, mixed, &lines), Ok(CrackResult::Found("password".to_string())));
}

#[test]
fn target_is_not_trimmed_by_the_search() {
    let lines = wordlist(&["password"]);
    let padded = " 5f4dcc3b5aa765d61d8327deb882cf99 ";
    assert_eq!(crack(Algorithm::Md5, padded, &lines), Err(CrackError::InvalidDigestFormat));
}

#[test]
fn search_is_repeatable() {
    let lines = wordlist(&["hello", "world", "password"]);
    for target in ["5f4dcc3b5aa765d61d8327deb882cf99", "4e2dcf9208454aebce7ed56e93c67d78", "abc"] {
        let first = crack(Algorithm::Md5, target, &lines);
        let second = crack(Algorithm::Md5, target, &lines);
        assert_eq!(first, second);
    }
}

#[test]
fn first_of_two_equal_lines_is_found() {
    let lines = wordlist(&["a", "b", "a"]);
    let result = crack(Algorithm::Md5, "0cc175b9c0f1b6a831c399e269772661", &lines);
    assert_eq!(result, Ok(CrackResult::Found("a".to_string())));
}

#[test]
fn line_is_matched_by_its_trimmed_content() {
    let lines = wordlist(&["  secret  \n"]);
    let md5 = crack(Algorithm::Md5, "5ebe2294ecd0e0f08eab7690d2a6ee69", &lines);
    assert_eq!(md5, Ok(CrackResult::Found("secret".to_string())));
    let sha1 = crack(Algorithm::Sha1, "e5e9fa1ba31ecd1ae84f75caaa474f3a663f05f4", &lines);
    assert_eq!(sha1, Ok(CrackResult::Found("secret".to_string())));
    let bare = wordlist(&["  secret  "]);
    let again = crack(Algorithm::Md5, "5ebe2294ecd0e0f08eab7690d2a6ee69", &bare);
    assert_eq!(again, Ok(CrackResult::Found("secret".to_string())));
}

#[test]
fn whitespace_inside_a_line_is_kept() {
    let lines = wordlist(&["\ttwo  words \r\n"]);
    let target = Algorithm::Sha1.hex_digest("two  words".as_bytes());
    assert_eq!(crack(Algorithm::Sha1, &target, &lines), Ok(CrackResult::Found("two  words".to_string())));
}

#[test]
fn empty_line_is_a_candidate() {
    let lines = wordlist(&["x", "   ", "y"]);
    let md5_of_nothing = "d41d8cd98f00b204e9800998ecf8427e";
    assert_eq!(crack(Algorithm::Md5, md5_of_nothing, &lines), Ok(CrackResult::Found(String::new())));
    let sha1_of_nothing = "da39a3ee5e6b4b0d3255bfef95601890afd80709";
    let blank = wordlist(&[""]);
    assert_eq!(crack(Algorithm::Sha1, sha1_of_nothing, &blank), Ok(CrackResult::Found(String::new())));
}

#[test]
fn empty_wordlist_finds_nothing() {
    let lines = wordlist(&[]);
    let result = crack(Algorithm::Md5, "5f4dcc3b5aa765d61d8327deb882cf99", &lines);
    assert_eq!(result, Ok(CrackResult::NotFound));
}

#[test]
fn algorithms_are_not_mixed_up() {
    let lines = wordlist(&["password"]);
    // the first 32 digits of the SHA-1 digest are no MD5 digest of the word
    let result = crack(Algorithm::Md5, "5baa61e4c9b93f3f0682250b6cf8331b", &lines);
    assert_eq!(result, Ok(CrackResult::NotFound));
}
