use khronos::clock::{format_datetime, parse_datetime, Timestamp, MAX_SECS, MIN_SECS};
use khronos::cron_times::{check_cron_match, count_fields, find_earliest_occurrence, find_next_occurrence};
use khronos::db::order::sort_order;
use khronos::definitions::{get_scheduled_definition, get_workflow_definition, normalize_name};
use khronos::ids::{fresh_ids, text_to_uuid, uuid_to_text};
use khronos::json::{find_value, sort_by_key, Json};
use khronos::text::{concat2, decimal_text, join, strip_text_prefix, take_chars, text_at_most};

fn at(secs: i64, nanos: u32) -> Timestamp {
    Timestamp::new(secs, nanos).unwrap()
}

// ---- text -----------------------------------------------------------------------------------

#[test]
fn text_is_ordered_byte_by_byte() {
    for (a, b) in [("", ""), ("", "a"), ("a", "ab"), ("ab", "b"), ("a", "\u{e9}"), ("z", "\u{1F600}"), ("\u{ffff}", "\u{10000}")] {
        assert_eq!(text_at_most(a, b), a <= b);
        assert_eq!(text_at_most(b, a), b <= a);
    }
}

#[test]
fn text_is_built_and_taken_apart() {
    assert_eq!(concat2("ab", "\u{e9}"), "ab\u{e9}");
    assert_eq!(join(&vec!["a".to_string(), "b".to_string(), "".to_string()], ","), "a,b,");
    assert_eq!(join(&Vec::new(), ","), "");
    assert_eq!(take_chars("0123456789", 8), "01234567");
    assert_eq!(take_chars("\u{e9}\u{e8}", 1), "\u{e9}");
    assert_eq!(take_chars("abc", 8), "abc");
    assert_eq!(strip_text_prefix("lycus-cron-42", "lycus-cron-").unwrap(), "42");
    assert!(strip_text_prefix("lycus", "lycus-cron-").is_none());
    assert!(strip_text_prefix("x-lycus-cron-", "lycus-cron-").is_none());
}

#[test]
fn numbers_are_written_in_decimal() {
    for n in [0, 1, 9, 10, 11, 99, 100, 65535, u64::MAX] {
        assert_eq!(decimal_text(n), n.to_string());
    }
}

// ---- time -----------------------------------------------------------------------------------

#[test]
fn times_lie_on_the_calendar() {
    assert!(Timestamp::new(0, 999_999_999).is_some());
    assert!(Timestamp::new(0, 1_000_000_000).is_none());
    assert!(Timestamp::new(59, 1_000_000_000).is_some());
    assert!(Timestamp::new(59, 2_000_000_000).is_none());
    for secs in [MIN_SECS - 1, MIN_SECS, MAX_SECS, MAX_SECS + 1] {
        assert_eq!(
            Timestamp::new(secs, 0).is_some(),
            chrono::DateTime::from_timestamp(secs, 0).is_some()
        );
    }
}

#[test]
fn times_are_written_to_the_second() {
    assert_eq!(format_datetime(&at(0, 5)), "1970-01-01 00:00:00");
    assert_eq!(format_datetime(&at(1_700_000_000, 999_999_999)), "2023-11-14 22:13:20");
    assert_eq!(format_datetime(&at(-1, 0)), "1969-12-31 23:59:59");
}

#[test]
fn times_read_back_to_the_second() {
    for secs in [-62_167_219_200, -1, 0, 1, 1_700_000_000, 253_402_300_799] {
        let t = at(secs, 123_456_789);
        assert_eq!(parse_datetime(&format_datetime(&t)).unwrap(), at(secs, 0));
    }
}

#[test]
fn every_time_reads_back_without_its_fraction() {
    for secs in [MIN_SECS, -62_167_219_201, -62_167_219_200, 0, 253_402_300_799, 253_402_300_800, MAX_SECS] {
        assert_eq!(parse_datetime(&format_datetime(&at(secs, 999_999_999))).unwrap(), at(secs, 0));
    }
    let leap = at(1_483_228_799, 1_500_000_000);
    assert_eq!(format_datetime(&leap), "2016-12-31 23:59:60");
    assert_eq!(parse_datetime("2016-12-31 23:59:60").unwrap(), at(1_483_228_799, 1_000_000_000));
}

#[test]
fn texts_are_compared_by_their_characters() {
    let texts = ["", "a", "b", "ab", "\u{e9}", "e", "\u{1f600}"];
    for (i, a) in texts.iter().enumerate() {
        for (j, b) in texts.iter().enumerate() {
            let whole = strip_text_prefix(a, b).as_deref() == Some("");
            assert_eq!(whole, i == j);
        }
    }
}

#[test]
fn times_are_read_in_several_forms() {
    let t = at(1_700_000_000, 0);
    assert_eq!(parse_datetime("2023-11-14 22:13:20").unwrap(), t);
    assert_eq!(parse_datetime("2023-11-14 22:13:20.5").unwrap(), at(1_700_000_000, 500_000_000));
    assert_eq!(parse_datetime("2023-11-14T22:13:20").unwrap(), t);
    assert_eq!(parse_datetime("2023-11-14T22:13:20.25").unwrap(), at(1_700_000_000, 250_000_000));
    assert_eq!(parse_datetime("2023-11-14T22:13:20Z").unwrap(), t);
    assert_eq!(parse_datetime("2023-11-14T22:13:20.25Z").unwrap(), at(1_700_000_000, 250_000_000));
    assert_eq!(parse_datetime("tomorrow").unwrap_err(), "Failed to parse datetime: tomorrow");
    assert_eq!(parse_datetime("").unwrap_err(), "Failed to parse datetime: ");
}

#[test]
fn texts_of_times_are_ordered_as_the_times() {
    let times = [at(-62_167_219_200, 0), at(-1, 0), at(0, 0), at(86_400, 0), at(253_402_300_799, 0)];
    for a in times {
        for b in times {
            assert_eq!(
                text_at_most(&format_datetime(&a), &format_datetime(&b)),
                a.seconds() <= b.seconds()
            );
        }
    }
}

#[test]
fn seconds_are_added_and_counted() {
    assert_eq!(at(100, 7).plus(60).unwrap(), at(160, 7));
    assert_eq!(at(100, 7).plus(-200).unwrap(), at(-100, 7));
    assert!(at(MAX_SECS, 0).plus(1).is_none());
    assert!(at(0, 0).plus(i64::MAX).is_none());
    assert!(at(0, 0).plus(i64::MIN).is_none());
    assert_eq!(at(59, 1_500_000_000).plus(1).unwrap(), at(60, 500_000_000));

    assert_eq!(at(160, 0).seconds_since(&at(100, 0)), 60);
    assert_eq!(at(160, 0).seconds_since(&at(100, 1)), 59);
    assert_eq!(at(100, 1).seconds_since(&at(160, 0)), -59);
    assert_eq!(at(100, 0).time_since(&at(101, 250_000_000)), (-1, -250_000_000));
    assert_eq!(at(101, 250_000_000).time_since(&at(100, 0)), (1, 250_000_000));
    assert!(at(100, 1).is_after(&at(100, 0)));
    assert!(!at(100, 1).is_after(&at(101, 0)));
    assert!(!at(100, 1).is_after(&at(100, 1)));
}

#[test]
fn the_clock_runs() {
    let before = chrono::Utc::now().timestamp();
    let now = Timestamp::now();
    let after = chrono::Utc::now().timestamp();
    assert!(before <= now.seconds() && now.seconds() <= after);
    assert!(now.nanoseconds() < 1_000_000_000);
}

// ---- identifiers ----------------------------------------------------------------------------

#[test]
fn uuids_read_back() {
    let id = uuid::Uuid::new_v4();
    assert_eq!(uuid_to_text(id.as_u128()), id.to_string());
    assert_eq!(text_to_uuid(&id.to_string()).unwrap(), id.as_u128());
    assert_eq!(text_to_uuid("00000000-0000-0000-0000-000000000000").unwrap(), 0);
    let message = uuid::Uuid::parse_str("nonsense").unwrap_err().to_string();
    assert_eq!(text_to_uuid("nonsense").unwrap_err(), message);
}

#[test]
fn fresh_ids_differ() {
    let ids = fresh_ids(3);
    assert_eq!(ids.len(), 3);
    assert_ne!(ids[0], ids[1]);
    assert_ne!(ids[1], ids[2]);
}

// ---- JSON -----------------------------------------------------------------------------------

#[test]
fn json_is_kept_compact() {
    assert_eq!(Json::parse(" { \"b\" : 1 , \"a\" : [ true , null ] } ").unwrap().to_text(), "{\"a\":[true,null],\"b\":1}");
    let message = serde_json::from_str::<serde_json::Value>("{").unwrap_err().to_string();
    assert_eq!(Json::parse("{").unwrap_err(), message);
    assert_eq!(Json::parse_bytes(&b"[1, 2]".to_vec()).unwrap().to_text(), "[1,2]");
    assert!(Json::parse_bytes(&b"plain text".to_vec()).is_none());
    assert_eq!(Json::null().to_text(), "null");
    assert_eq!(Json::empty_object().to_text(), "{}");
    assert_eq!(Json::parse("[1]").unwrap().copy().to_text(), "[1]");
}

#[test]
fn json_holds_strings_lists_and_objects() {
    let s = Json::string("a \"quoted\" \u{e9}\n");
    assert_eq!(s.to_text(), "\"a \\\"quoted\\\" \u{e9}\\n\"");
    assert_eq!(s.as_string().unwrap(), "a \"quoted\" \u{e9}\n");
    assert!(Json::null().as_string().is_none());
    assert_eq!(Json::strings(&vec!["a".to_string(), "b".to_string()]).to_text(), "[\"a\",\"b\"]");
    let entries = vec![
        ("b".to_string(), "1".to_string()),
        ("a".to_string(), "2".to_string()),
        ("b".to_string(), "3".to_string()),
    ];
    assert_eq!(Json::object(&entries).to_text(), "{\"a\":\"2\",\"b\":\"3\"}");
}

#[test]
fn entries_are_put_in_order() {
    let entry = |k: &str, v: &str| (k.to_string(), v.to_string());
    let entries = vec![entry("b", "1"), entry("a", "2"), entry("\u{e9}", "3"), entry("b", "4"), entry("aa", "5")];
    let sorted = vec![entry("a", "2"), entry("aa", "5"), entry("b", "4"), entry("\u{e9}", "3")];
    assert_eq!(sort_by_key(&entries), sorted);
    assert_eq!(sort_by_key(&sorted), sorted);
    let object = Json::object(&entries);
    assert_eq!(object.to_text(), "{\"a\":\"2\",\"aa\":\"5\",\"b\":\"4\",\"\u{e9}\":\"3\"}");
    assert_eq!(object.string_entries(), sorted);
    assert_eq!(find_value(&entries, "b").as_deref(), Some("4"));
    assert_eq!(find_value(&entries, "c"), None);
    assert!(Json::empty_object().string_entries().is_empty());
}

#[test]
fn json_members_that_are_strings() {
    let value = Json::parse("{\"z\": \"last\", \"n\": 1, \"a\": \"first\", \"o\": {\"x\": \"y\"}}").unwrap();
    assert_eq!(
        value.string_entries(),
        vec![("a".to_string(), "first".to_string()), ("z".to_string(), "last".to_string())]
    );
    assert!(Json::parse("[\"a\"]").unwrap().string_entries().is_empty());
}

// ---- patterns and orders --------------------------------------------------------------------

#[test]
fn equal_columns_keep_their_order() {
    let keys = vec![
        Some("b".to_string()),
        None,
        Some("a".to_string()),
        Some("b".to_string()),
        None,
    ];
    assert_eq!(sort_order(&keys, false), vec![1, 4, 2, 0, 3]);
    assert_eq!(sort_order(&keys, true), vec![0, 3, 2, 1, 4]);
}

// ---- cron -----------------------------------------------------------------------------------

#[test]
fn cron_fields_are_counted() {
    assert_eq!(count_fields("0 */6 * * *"), 5);
    assert_eq!(count_fields("  0\t0 * * * *  "), 6);
    assert_eq!(count_fields(""), 0);
}

#[test]
fn every_six_hours() {
    let midnight = at(1_700_006_400, 0);
    let next = find_next_occurrence("0 */6 * * *", &midnight).unwrap().unwrap();
    assert_eq!(next, at(1_700_006_400 + 6 * 3600, 0));
    let same = find_next_occurrence("0 0 */6 * * *", &midnight).unwrap().unwrap();
    assert_eq!(same, next);
}

#[test]
fn the_next_occurrence_comes_later() {
    let t = at(1_700_000_000, 999_000_000);
    assert_eq!(find_next_occurrence("* * * * * *", &t).unwrap().unwrap(), at(1_700_000_001, 0));
    assert_eq!(find_next_occurrence("0 0 0 1 1 * 1999", &t).unwrap(), None);
    assert!(find_next_occurrence("not cron", &t).is_none());
    assert!(find_next_occurrence("1 2 3 4", &t).is_none());
    assert!(find_next_occurrence("* * * * * *", &at(MAX_SECS, 0)).is_none());
}

#[test]
fn the_earliest_occurrence_counts() {
    let t = at(1_700_000_000, 0);
    let list = |items: &[&str]| items.iter().map(|s| s.to_string()).collect::<Vec<String>>();
    let some = list(&["nonsense", "0 0 0 1 1 * 1999", "30 * * * * *", "15 * * * * *", "45 * * * * *"]);
    assert_eq!(find_earliest_occurrence(&some, &t).unwrap(), at(1_700_000_010, 0));
    let rare_first = list(&["0 0 0 1 1 *", "0 * * * * *"]);
    assert_eq!(find_earliest_occurrence(&rare_first, &t).unwrap(), at(1_700_000_040, 0));
    assert!(find_earliest_occurrence(&list(&["nonsense"]), &t).is_none());
    assert!(find_earliest_occurrence(&Vec::new(), &t).is_none());
}

#[test]
fn cron_expressions_match_the_current_time() {
    let hourly = vec!["0 0 * * * *".to_string()];
    let hour = 1_699_999_200;
    assert!(check_cron_match(&hourly, &at(hour, 300_000_000)));
    assert!(check_cron_match(&hourly, &at(hour, 0)));
    assert!(check_cron_match(&hourly, &at(hour - 1, 0)));
    assert!(check_cron_match(&hourly, &at(hour - 2, 1)));
    assert!(!check_cron_match(&hourly, &at(hour - 2, 0)));
    assert!(!check_cron_match(&hourly, &at(hour + 1, 0)));
    assert!(check_cron_match(&vec!["bad".to_string(), "* * * * * *".to_string()], &at(hour + 1, 0)));
    assert!(!check_cron_match(&Vec::new(), &at(hour, 0)));
}

// ---- definitions ----------------------------------------------------------------------------

#[test]
fn names_are_put_in_snake_case() {
    assert_eq!(normalize_name("CronJobWorkflow"), "cron_job_workflow");
    assert_eq!(normalize_name("cronJobWorkflow"), "cron_job_workflow");
    assert_eq!(normalize_name("cron_job_workflow"), "cron_job_workflow");
    assert_eq!(normalize_name("\u{c9}t\u{c9}"), "\u{e9}t_\u{e9}");
    assert_eq!(normalize_name(""), "");
}

#[test]
fn the_cron_pipeline_has_five_steps() {
    let steps = get_workflow_definition("CronJobWorkflow");
    let names: Vec<&str> = steps.iter().map(|s| s.activity_name.as_str()).collect();
    assert_eq!(
        names,
        vec![
            "execute_cron_job",
            "save_cron_output",
            "deliver_cron_result",
            "mark_job_run_activity",
            "trigger_on_success_jobs"
        ]
    );
    let attempts: Vec<u32> = steps.iter().map(|s| s.retry_policy.maximum_attempts).collect();
    assert_eq!(attempts, vec![3, 2, 3, 1, 2]);
    let intervals: Vec<f64> =
        steps.iter().map(|s| f64::from_bits(s.retry_policy.initial_interval_secs.bits)).collect();
    assert_eq!(intervals, vec![2.0, 1.0, 2.0, 1.0, 1.0]);
    let timeouts: Vec<u64> = steps.iter().map(|s| s.timeout_secs).collect();
    assert_eq!(timeouts, vec![300, 60, 120, 30, 60]);
    let heartbeats: Vec<Option<u64>> = steps.iter().map(|s| s.heartbeat_timeout_secs).collect();
    assert_eq!(heartbeats, vec![Some(60), None, Some(30), None, None]);
}

#[test]
fn other_names_stand_for_one_step_or_the_pipeline() {
    let steps = get_workflow_definition("MyActivity");
    assert_eq!(steps.len(), 1);
    assert_eq!(steps[0].activity_name, "MyActivity");
    assert_eq!(steps[0].timeout_secs, 300);
    assert_eq!(get_scheduled_definition("MyActivity").len(), 5);
    assert_eq!(get_scheduled_definition("MyActivity")[0].timeout_secs, 600);
    assert_eq!(get_scheduled_definition("cron_job_workflow")[0].timeout_secs, 300);
}
