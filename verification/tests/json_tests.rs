use zombie_policy_core::json::{escape_json, write_json_array_str};
use zombie_policy_core::names::{PLAYER_ACTION_NAMES, ZOMBIE_ACTION_NAMES};

#[test]
fn backslashes_and_quotes_are_escaped() {
    assert_eq!(escape_json("plain"), "plain");
    assert_eq!(escape_json("a\"b"), "a\\\"b");
    assert_eq!(escape_json("c:\\dir"), "c:\\\\dir");
    assert_eq!(escape_json("\\\""), "\\\\\\\"");
    assert_eq!(escape_json(""), "");
    assert_eq!(escape_json("é\"ü"), "é\\\"ü");
}

#[test]
fn action_name_array_is_written_as_json() {
    let mut output = String::from("{\n");
    write_json_array_str(&mut output, "action_names", &ZOMBIE_ACTION_NAMES, 2, false);
    assert_eq!(
        output,
        "{\n  \"action_names\": [\"ATTACK\", \"FLANK_LEFT\", \"FLANK_RIGHT\", \"DASH_IN\", \"DASH_OUT\"]\n"
    );
    let mut with_comma = String::new();
    write_json_array_str(&mut with_comma, "names", &PLAYER_ACTION_NAMES[..2], 0, true);
    assert_eq!(with_comma, "\"names\": [\"ATTACK\", \"APPROACH\"],\n");
    let mut empty = String::new();
    write_json_array_str(&mut empty, "none", &[], 1, false);
    assert_eq!(empty, " \"none\": []\n");
    let mut quoted = String::new();
    write_json_array_str(&mut quoted, "q", &["a\"b"], 0, false);
    assert_eq!(quoted, "\"q\": [\"a\\\"b\"]\n");
}

fn unescape(text: &str) -> String {
    let mut out = String::new();
    let mut chars = text.chars();
    while let Some(c) = chars.next() {
        if c == '\\' {
            if let Some(next) = chars.next() {
                out.push(next);
                continue;
            }
        }
        out.push(c);
    }
    out
}

#[test]
fn escaping_reads_back() {
    for text in ["", "a\\b", "\"q\"", "\\\\\"", "trail\\", "plain ü"] {
        assert_eq!(unescape(&escape_json(text)), text);
    }
}
