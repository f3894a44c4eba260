use a2a_kit::error_code::error_reason;
use a2a_kit::json::{get_member, merge_members, parse_json, set_member, to_pretty, Json};
use a2a_kit::order::{dedup, sort};
use a2a_kit::protocol::{A2AError, TaskState};
use a2a_kit::span::Span;
use a2a_kit::table::Table;
use a2a_kit::text;

fn words(list: &[&str]) -> Vec<String> {
    list.iter().map(|word| word.to_string()).collect()
}

#[test]
fn text_is_cut_and_trimmed_as_std_does() {
    for sample in ["", " a b ", "\u{a0}x\u{2003}", "a\r\nb\n\nc", "a,b,,c,", "\n", "é=ü=ö"] {
        assert_eq!(text::trim(sample), sample.trim());
        assert_eq!(text::lines(sample), sample.lines().collect::<Vec<_>>());
        assert_eq!(
            text::split(sample, ','),
            sample.split(',').collect::<Vec<_>>()
        );
        assert_eq!(
            text::split_once(sample, "="),
            sample
                .split_once('=')
                .map(|(a, b)| (a.to_string(), b.to_string()))
        );
        assert_eq!(text::contains(sample, "b"), sample.contains('b'));
        assert_eq!(text::to_lower(sample), sample.to_ascii_lowercase());
        assert_eq!(
            text::trim_end_matches(sample, ','),
            sample.trim_end_matches(',')
        );
    }
}

#[test]
fn numbers_are_read_and_spelled_as_std_does() {
    for sample in ["", "0", "007", "+7", "-7", "4294967295", "4294967296", "1x"] {
        assert_eq!(text::parse_u32(sample), sample.parse::<u32>().ok());
        assert_eq!(text::parse_usize(sample), sample.parse::<usize>().ok());
    }
    for number in [0u64, 9, 10, 1234567890, u64::MAX] {
        assert_eq!(text::to_decimal(number), number.to_string());
    }
    for number in [0i64, -1, i64::MIN, i64::MAX] {
        assert_eq!(text::to_signed_decimal(number), number.to_string());
    }
}

#[test]
fn text_is_ordered_as_std_orders_it() {
    let samples = ["", "a", "ab", "b", "A", "é", "z"];
    for a in samples {
        for b in samples {
            assert_eq!(text::at_most(a, b), a <= b);
        }
    }
    assert_eq!(
        dedup(sort(words(&["b", "a", "b", "c", "a"]))),
        words(&["a", "b", "c"])
    );
    assert_eq!(text::join(&words(&["a", "b"]), ", "), "a, b");
}

#[test]
fn tables_hold_the_last_value_of_each_key() {
    let mut table: Table<String> = Table::new();
    table.insert("b".to_string(), "1".to_string());
    table.insert("a".to_string(), "2".to_string());
    table.insert("b".to_string(), "3".to_string());
    assert_eq!(table.len(), 2);
    assert_eq!(table.entry(0).0, "a");
    assert_eq!(table.get("b").map(String::as_str), Some("3"));
    table.remove("a");
    assert!(!table.contains_key("a"));
    assert_eq!(table.len(), 1);
}

#[test]
fn documents_are_read_and_written() {
    let document = parse_json("{\"b\": [1, 2.5, true, null], \"a\": \"x\"}").unwrap();
    assert_eq!(
        to_pretty(&document),
        "{\n  \"a\": \"x\",\n  \"b\": [\n    1,\n    2.5,\n    true,\n    null\n  ]\n}"
    );
    assert!(parse_json("{\"a\":}").is_err());
    assert_eq!(to_pretty(&Json::Number("no number".to_string())), "null");
}

#[test]
fn newer_members_win() {
    let number = |n: &str| Json::Number(n.to_string());
    let mut base = vec![("a".to_string(), number("1")), ("b".to_string(), number("2"))];
    merge_members(
        &mut base,
        &vec![("b".to_string(), number("3")), ("c".to_string(), number("4"))],
    );
    assert_eq!(get_member(&base, "a"), Some(&number("1")));
    assert_eq!(get_member(&base, "b"), Some(&number("3")));
    assert_eq!(get_member(&base, "c"), Some(&number("4")));
    set_member(&mut base, "a".to_string(), Json::Null);
    assert_eq!(get_member(&base, "a"), Some(&Json::Null));
    assert_eq!(base.len(), 3);
}

#[test]
fn lengths_of_time_are_spelled_and_subtracted() {
    assert_eq!(Span::from_secs(30).to_text(), "30s");
    assert_eq!(Span::from_millis(500).to_text(), "500ms");
    assert_eq!(Span::from_millis(1500).to_text(), "1.5s");
    assert_eq!(
        Span::from_millis(1500).saturating_sub(Span::from_millis(600)),
        Span::from_millis(900)
    );
    assert_eq!(
        Span::from_secs(1).saturating_sub(Span::from_secs(2)),
        Span::from_secs(0)
    );
    assert_eq!(
        Span::from_secs(1).min(Span::from_millis(999)),
        Span::from_millis(999)
    );
    assert!(Span::from_secs(1).at_least(Span::from_millis(1000)));
}

#[test]
fn errors_are_known_by_name() {
    assert_eq!(error_reason(-32001), "TASK_NOT_FOUND");
    assert_eq!(error_reason(-32700), "PARSE_ERROR");
    assert_eq!(error_reason(-32007), "EXTENDED_AGENT_CARD_NOT_CONFIGURED");
    assert_eq!(error_reason(12345), "INTERNAL_ERROR");
    assert!(A2AError::task_not_found("t-9").message.contains("t-9"));
}

#[test]
fn terminal_states_are_the_four_that_end_a_task() {
    for state in [
        TaskState::Completed,
        TaskState::Failed,
        TaskState::Canceled,
        TaskState::Rejected,
    ] {
        assert!(state.is_terminal());
    }
    for state in [
        TaskState::Unspecified,
        TaskState::Submitted,
        TaskState::Working,
        TaskState::InputRequired,
        TaskState::AuthRequired,
    ] {
        assert!(!state.is_terminal());
    }
}
