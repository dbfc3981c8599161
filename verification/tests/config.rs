use sentinel::config::{
    default_whitelist, fallback_config, load_config, parse_config, AppConfig, DEFAULT_CONFIG,
};

const DEFAULT_NAMES: [&str; 6] = [
    "explorer.exe",
    "tracker.exe",
    "guardian.exe",
    "cmd.exe",
    "powershell.exe",
    "conhost.exe",
];

fn check(config: &AppConfig, names: &[&str], limit: u64, start: Option<u32>, end: Option<u32>) {
    assert_eq!(config.whitelist, names);
    assert_eq!(config.limit_seconds, limit);
    assert_eq!(config.start_hour, start);
    assert_eq!(config.end_hour, end);
}

/// The number behind a key, read with the standard library's string functions.
fn number_with_std(content: &str, key: &str) -> Option<String> {
    let after = &content[content.find(key)? + key.len()..];
    let after_colon = &after[after.find(':')? + 1..];
    Some(
        after_colon
            .chars()
            .take_while(|c| c.is_ascii_digit() || c.is_whitespace())
            .filter(|c| !c.is_whitespace())
            .collect(),
    )
}

/// The names behind the whitelist's key, read with the standard library's string functions.
fn names_with_std(content: &str) -> Option<Vec<String>> {
    let at = content.find("\"whitelist\"")?;
    let open = at + content[at..].find('[')?;
    let close = open + content[open..].find(']')?;
    let names: Vec<String> = content[open + 1..close]
        .split(',')
        .map(|s| s.trim().trim_matches('"').to_string())
        .filter(|s| !s.is_empty())
        .collect();
    if names.is_empty() { None } else { Some(names) }
}

fn check_against_std(content: &str) {
    let config = parse_config(content);
    let names =
        names_with_std(content).unwrap_or(DEFAULT_NAMES.iter().map(|s| s.to_string()).collect());
    assert_eq!(config.whitelist, names);
    let limit = number_with_std(content, "\"limit_seconds\"").and_then(|s| s.parse::<u64>().ok());
    assert_eq!(config.limit_seconds, limit.unwrap_or(1800));
    let start = number_with_std(content, "\"start_hour\"").and_then(|s| s.parse::<u32>().ok());
    assert_eq!(config.start_hour, start);
    let end = number_with_std(content, "\"end_hour\"").and_then(|s| s.parse::<u32>().ok());
    assert_eq!(config.end_hour, end);
}

#[test]
fn empty_text_gives_the_defaults() {
    check(&parse_config(""), &DEFAULT_NAMES, 1800, None, None);
    check(&parse_config("{}"), &DEFAULT_NAMES, 1800, None, None);
}

#[test]
fn default_text_is_read() {
    check(&parse_config(DEFAULT_CONFIG), &DEFAULT_NAMES, 10, Some(22), Some(6));
}

#[test]
fn names_are_cleaned_and_empty_entries_dropped() {
    let config = parse_config("{\"whitelist\": [ \"a.exe\" ,\n b.exe,, \"\" ,\u{3000}\"c d.exe\"\t]}");
    check(&config, &["a.exe", "b.exe", "c d.exe"], 1800, None, None);
}

#[test]
fn white_space_inside_the_quotes_stays() {
    check(&parse_config("\"whitelist\"[\" a \"]"), &[" a "], 1800, None, None);
    check(&parse_config("\"whitelist\"[\" \"\" ]"), &[" "], 1800, None, None);
}

#[test]
fn empty_list_keeps_the_default_names() {
    check(&parse_config("\"whitelist\": [ , \"\" ]"), &DEFAULT_NAMES, 1800, None, None);
    check(&parse_config("\"whitelist\": [ \"a.exe\" "), &DEFAULT_NAMES, 1800, None, None);
    check(&parse_config("\"whitelist\": \"a.exe\"]"), &DEFAULT_NAMES, 1800, None, None);
}

#[test]
fn a_bracket_before_the_key_does_not_count() {
    check(&parse_config("[x] \"whitelist\" [y]"), &["y"], 1800, None, None);
}

#[test]
fn numbers_skip_white_space() {
    check(&parse_config("\"limit_seconds\" : 1 2\n3 ,"), &DEFAULT_NAMES, 123, None, None);
    check(&parse_config("\"limit_seconds\"4:5x6"), &DEFAULT_NAMES, 5, None, None);
}

#[test]
fn numbers_that_cannot_be_read_keep_the_default() {
    check(&parse_config("\"limit_seconds\": -5"), &DEFAULT_NAMES, 1800, None, None);
    check(&parse_config("\"limit_seconds\": \"5\""), &DEFAULT_NAMES, 1800, None, None);
    check(&parse_config("\"limit_seconds\": "), &DEFAULT_NAMES, 1800, None, None);
    check(&parse_config("\"limit_seconds\" 7"), &DEFAULT_NAMES, 1800, None, None);
    check(&parse_config("\"start_hour\": +3"), &DEFAULT_NAMES, 1800, None, None);
}

#[test]
fn numbers_are_bounded_by_their_width() {
    let max = "\"limit_seconds\": 18446744073709551615";
    check(&parse_config(max), &DEFAULT_NAMES, u64::MAX, None, None);
    let over = "\"limit_seconds\": 18446744073709551616";
    check(&parse_config(over), &DEFAULT_NAMES, 1800, None, None);
    let far_over = "\"limit_seconds\": 999999999999999999999999999999999999999999999";
    check(&parse_config(far_over), &DEFAULT_NAMES, 1800, None, None);
    let zeros = "\"limit_seconds\": 000000000000000000000000000000000000000000007";
    check(&parse_config(zeros), &DEFAULT_NAMES, 7, None, None);
    let hours = "\"start_hour\": 4294967295, \"end_hour\": 4294967296";
    check(&parse_config(hours), &DEFAULT_NAMES, 1800, Some(u32::MAX), None);
}

#[test]
fn reading_agrees_with_the_standard_library() {
    let parts = [
        "\"whitelist\"", "\"limit_seconds\"", "\"start_hour\"", "\"end_hour\"", ":", "[", "]", ",",
        " ", "12", "\"x.exe\"", "\u{e9}", "\u{a0}", "\"\"",
    ];
    for a in parts {
        for b in parts {
            for c in parts {
                for d in parts {
                    check_against_std(&format!("{a}{b}{c}{d}"));
                    check_against_std(&format!("\"whitelist\":[{a}{b}{c}{d}]"));
                    check_against_std(&format!("\"end_hour\"{a}:{b}{c}{d}"));
                }
            }
        }
    }
}

#[test]
fn whitelist_is_never_empty_and_its_names_are_proper() {
    for list in ["", ",", "\"", "\"\",\"\"", "a,\"b\",\"\"c\"\"", " \" ,x"] {
        let config = parse_config(&format!("\"whitelist\": [{list}]"));
        assert!(!config.whitelist.is_empty());
        for name in &config.whitelist {
            assert!(!name.is_empty() && !name.contains(','));
            assert!(!name.starts_with('"') && !name.ends_with('"'));
        }
    }
}

#[test]
fn fallback_has_no_hours() {
    check(&fallback_config(), &DEFAULT_NAMES, 10, None, None);
    assert_eq!(default_whitelist(), DEFAULT_NAMES);
}

#[test]
fn no_file_gives_the_fallback() {
    let loaded = load_config(None);
    check(&loaded.config, &DEFAULT_NAMES, 10, None, None);
    assert_eq!(loaded.rewrite, None);
}

#[test]
fn blank_file_is_filled_and_then_kept() {
    for blank in ["", " \n\t", "\u{3000}"] {
        let loaded = load_config(Some(blank));
        check(&loaded.config, &DEFAULT_NAMES, 10, Some(22), Some(6));
        let written = loaded.rewrite.unwrap();
        assert_eq!(written, DEFAULT_CONFIG);
        let again = load_config(Some(&written));
        check(&again.config, &DEFAULT_NAMES, 10, Some(22), Some(6));
        assert_eq!(again.rewrite, None);
    }
}

#[test]
fn filled_file_is_read_as_it_is() {
    let loaded = load_config(Some("\"limit_seconds\": 60"));
    check(&loaded.config, &DEFAULT_NAMES, 60, None, None);
    assert_eq!(loaded.rewrite, None);
}

#[test]
fn what_a_file_says_is_what_is_read() {
    let names = ["a.exe", "b c.exe", "\u{e9}.exe"];
    let entries: Vec<String> = names.iter().map(|n| format!(" \n\"{n}\"\t")).collect();
    let content = format!(
        "{{ \"end_hour\" : 0 7, \"whitelist\" = [{}], \"start_hour\":19}}",
        entries.join(",")
    );
    check(&parse_config(&content), &names, 1800, Some(19), Some(7));
}

#[test]
fn the_first_of_two_keys_counts() {
    let content = "\"limit_seconds\": 5, \"limit_seconds\": 6";
    check(&parse_config(content), &DEFAULT_NAMES, 5, None, None);
}
