//! Text, dates, the name table and error messages, held against `std` where it has the like.

use rollout::calendar::{days_to_ymd, format_unix_secs};
use rollout::error::RolloutError;
use rollout::table::NameTable;
use rollout::text::{
    after_last, decimal, decimal_i32, decimal_padded, first_word, join, lines, replace,
    strip_prefix, strip_suffix, trim, trim_end, trim_start, white,
};

const SAMPLES: [&str; 14] = [
    "", " ", "a", " a b ", "\t\r\na\u{b}\u{c}", "\u{a0}x\u{2003}", "a\nb", "a\r\nb\r\n", "\n\n",
    "a\r", "\u{1680}é\u{3000}", "x\u{200b}", "a\n\r\nb\n", "\u{85}\u{2028}z\u{2029}",
];

#[test]
fn white_space_is_that_of_std() {
    for n in 0..0x11_0000u32 {
        if let Some(c) = char::from_u32(n) {
            assert_eq!(white(c), c.is_whitespace(), "{n:x}");
        }
    }
}

#[test]
fn trimming_is_that_of_std() {
    for s in SAMPLES {
        assert_eq!(trim(s), s.trim(), "{s:?}");
        assert_eq!(trim_start(s), s.trim_start(), "{s:?}");
        assert_eq!(trim_end(s), s.trim_end(), "{s:?}");
    }
}

#[test]
fn lines_are_those_of_std() {
    for s in SAMPLES {
        assert_eq!(lines(s), s.lines().collect::<Vec<_>>(), "{s:?}");
    }
}

#[test]
fn first_words_are_those_of_std() {
    for s in SAMPLES {
        let trimmed = s.trim();
        assert_eq!(
            first_word(trimmed),
            trimmed.split_whitespace().next().unwrap_or(""),
            "{s:?}"
        );
    }
}

#[test]
fn replacing_is_that_of_std() {
    for (s, pat, with) in [
        ("aaa", "aa", "b"),
        ("%h%%h", "%h", "x"),
        ("", "a", "b"),
        ("abcabc", "bc", ""),
        ("aaaa", "a", "aa"),
        ("éaé", "é", "ü"),
    ] {
        assert_eq!(replace(s, pat, with), s.replace(pat, with), "{s:?}");
    }
}

#[test]
fn affixes_are_those_of_std() {
    for s in ["", "a", "ab", "ba", "aba", "éa"] {
        for p in ["", "a", "ab", "é", "aba"] {
            assert_eq!(strip_prefix(s, p), s.strip_prefix(p), "{s:?} {p:?}");
            assert_eq!(strip_suffix(s, p), s.strip_suffix(p), "{s:?} {p:?}");
        }
    }
    for s in ["", ")", "a)b)c", "abc", "é)"] {
        assert_eq!(after_last(s, ')'), s.rsplit_once(')').map(|(_, r)| r), "{s:?}");
    }
}

#[test]
fn numbers_are_written_in_decimal() {
    for n in [0, 7, 10, 99, 100, 12345, u128::MAX] {
        assert_eq!(decimal(n), n.to_string());
    }
    for n in [0, -1, i32::MIN, i32::MAX, 42] {
        assert_eq!(decimal_i32(n), n.to_string());
    }
    assert_eq!(decimal_padded(7, 2), "07");
    assert_eq!(decimal_padded(2026, 2), "2026");
    assert_eq!(decimal_padded(0, 4), "0000");
}

#[test]
fn texts_are_joined() {
    let list = |v: &[&str]| v.iter().map(|s| (*s).to_owned()).collect::<Vec<String>>();
    for v in [list(&[]), list(&["a"]), list(&["a", "", "b"])] {
        assert_eq!(join(&v, ", "), v.join(", "));
    }
}

#[test]
fn dates_of_known_days() {
    assert_eq!(days_to_ymd(0), (1970, 1, 1));
    assert_eq!(days_to_ymd(58), (1970, 2, 28));
    assert_eq!(days_to_ymd(59), (1970, 3, 1));
    assert_eq!(days_to_ymd(11_016), (2000, 2, 29));
    assert_eq!(days_to_ymd(47_540), (2100, 2, 28));
    assert_eq!(days_to_ymd(47_541), (2100, 3, 1));
    assert_eq!(format_unix_secs(951_782_400), "2000-02-29T00:00:00Z");
    assert_eq!(format_unix_secs(4_102_444_799), "2099-12-31T23:59:59Z");
    assert_eq!(format_unix_secs(253_402_300_800), "10000-01-01T00:00:00Z");
}

#[test]
fn each_day_follows_the_one_before() {
    let leap = |y: u32| y % 4 == 0 && (y % 100 != 0 || y % 400 == 0);
    let length = |y: u32, m: u32| match m {
        2 => if leap(y) { 29 } else { 28 },
        4 | 6 | 9 | 11 => 30,
        _ => 31,
    };
    let mut date = days_to_ymd(0);
    for day in 1..160_000 {
        let (y, m, d) = date;
        date = if d < length(y, m) {
            (y, m, d + 1)
        } else if m < 12 {
            (y, m + 1, 1)
        } else {
            (y + 1, 1, 1)
        };
        assert_eq!(days_to_ymd(day), date, "day {day}");
    }
}

#[test]
fn table_keeps_one_value_per_name() {
    let table = NameTable::new()
        .insert("a".to_owned(), 1)
        .insert("b".to_owned(), 2)
        .insert("a".to_owned(), 3);
    assert_eq!(table.get("a"), Some(&3));
    assert_eq!(table.get("b"), Some(&2));
    assert_eq!(table.get("c"), None);
    assert!(table.contains_key("b") && !table.contains_key(""));
    let mut names = table.names();
    names.sort();
    assert_eq!(names, vec!["a", "b"]);
}

#[test]
fn errors_are_told() {
    let s = |t: &str| t.to_owned();
    for (error, text) in [
        (
            RolloutError::UnknownDaemons { names: vec![s("a"), s("b")] },
            "unknown daemons (not in fleet.toml): a, b",
        ),
        (RolloutError::BinstaleScanFailed(s("x")), "binstale scan failed: x"),
        (RolloutError::FleetConfig(s("x")), "fleet.toml error: x"),
        (
            RolloutError::HealthcheckTimeout {
                name: s("d"),
                old_pid: 1,
                new_pid: Some(2),
                reason: s("r"),
            },
            "daemon `d` failed healthcheck (old_pid=1, new_pid=Some(2)): r",
        ),
        (
            RolloutError::BuildFailed { name: s("d"), reason: s("r") },
            "build/install step for `d` failed: r",
        ),
        (
            RolloutError::LaunchFailed { name: s("d"), reason: s("r") },
            "launch of `d` failed: r",
        ),
        (
            RolloutError::WindowGuardBlocked { name: s("d") },
            "window guard: daemon `d` has recent wm.dialog.turn.* activity; \
             use --window to change the quiet period or wait",
        ),
        (
            RolloutError::VoiceActivityDeferred { names: s("a, b"), count: 2 },
            "voice-active deferral: 2 daemon(s) were not restarted (a, b); \
             retry once the voice turn is complete",
        ),
        (RolloutError::Io(s("x")), "I/O error: x"),
        (RolloutError::Signal(s("x")), "signal error: x"),
        (RolloutError::Json(s("x")), "JSON parse error: x"),
        (RolloutError::ProveRefused { reason: s("x") }, "prove Refuse: x"),
    ] {
        assert_eq!(error.to_string(), text);
    }
    let text = RolloutError::CycleVerifyFailed { count: 3 }.to_string();
    assert!(text.contains('3'), "{text}");
}
