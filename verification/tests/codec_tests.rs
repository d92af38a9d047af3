use chat_core::codec::{decode_line, encode_prompt};

#[test]
fn decode_without_token_is_unchanged() {
    assert_eq!(decode_line("plain text"), "plain text");
    assert_eq!(decode_line(""), "");
}

#[test]
fn decode_replaces_each_escape_token() {
    assert_eq!(decode_line("Hello\\nWorld"), "Hello\nWorld");
    assert_eq!(decode_line("a\\nb\\nc"), "a\nb\nc");
    assert_eq!(decode_line("\\nleading"), "\nleading");
    assert_eq!(decode_line("trailing\\n"), "trailing\n");
    assert_eq!(decode_line("\\n"), "\n");
}

#[test]
fn decode_leaves_other_backslashes_alone() {
    assert_eq!(decode_line("a\\x"), "a\\x");
    assert_eq!(decode_line("end\\"), "end\\");
    // The scan is greedy left to right: of two backslashes before an `n`,
    // only the second one forms a token.
    assert_eq!(decode_line("\\\\n"), "\\\n");
}

#[test]
fn encode_replaces_each_line_break() {
    assert_eq!(encode_prompt("Hello\nWorld"), "Hello\\nWorld");
    assert_eq!(encode_prompt("a\nb\nc"), "a\\nb\\nc");
    assert_eq!(encode_prompt("single line"), "single line");
    assert_eq!(encode_prompt(""), "");
}

#[test]
fn round_trip_restores_the_prompt() {
    for text in ["hello", "two\nlines", "\n", "ends with backslash \\", "a\nb\nc\nd"] {
        assert_eq!(decode_line(&encode_prompt(text)), text);
    }
}

#[test]
fn decoded_text_has_one_more_segment_than_tokens() {
    let line = "first\\nsecond\\nthird";
    let token_count = 2;
    let decoded = decode_line(line);
    assert_eq!(decoded.split('\n').count(), token_count + 1);

    let line = "no token here";
    let decoded = decode_line(line);
    assert_eq!(decoded.split('\n').count(), 1);
}
