use reminder_engine::recurrence::{Recurrence, RecurrenceError};
use reminder_engine::time::Timestamp;

const DAY: i64 = 86_400;
const WEEK: i64 = 604_800;

#[test]
fn parses_the_keywords_in_any_case() {
    assert_eq!(Recurrence::parse("daily"), Ok(Recurrence::Daily));
    assert_eq!(Recurrence::parse("DAILY"), Ok(Recurrence::Daily));
    assert_eq!(Recurrence::parse("Daily"), Ok(Recurrence::Daily));
    assert_eq!(Recurrence::parse("weekly"), Ok(Recurrence::Weekly));
    assert_eq!(Recurrence::parse("WeEkLy"), Ok(Recurrence::Weekly));
}

#[test]
fn keywords_read_as_their_lower_case_form_reads() {
    for text in [
        "daily", "DAILY", "dAiLy", "weekly", "WEEKLY", "wee\u{212a}ly", "da\u{130}ly", "dail\u{3a5}",
        "weekl\u{fd}", "daıly", "ＤＡＩＬＹ", "daily\u{307}",
    ] {
        let lowered = text.to_lowercase();
        let expected = match lowered.as_str() {
            "daily" => Ok(Recurrence::Daily),
            "weekly" => Ok(Recurrence::Weekly),
            _ => Err(RecurrenceError::Malformed),
        };
        assert_eq!(Recurrence::parse(text), expected, "{:?}", text);
    }
}

#[test]
fn parses_a_bare_number_of_minutes() {
    assert_eq!(Recurrence::parse("60"), Ok(Recurrence::EveryMinutes(60)));
    assert_eq!(Recurrence::parse("1"), Ok(Recurrence::EveryMinutes(1)));
    assert_eq!(Recurrence::parse("+5"), Ok(Recurrence::EveryMinutes(5)));
    assert_eq!(Recurrence::parse("00090"), Ok(Recurrence::EveryMinutes(90)));
}

#[test]
fn parses_a_number_with_the_minutes_suffix() {
    assert_eq!(Recurrence::parse("60minutes"), Ok(Recurrence::EveryMinutes(60)));
    assert_eq!(Recurrence::parse("60 minutes"), Ok(Recurrence::EveryMinutes(60)));
    assert_eq!(Recurrence::parse("  15   minutes"), Ok(Recurrence::EveryMinutes(15)));
    assert_eq!(Recurrence::parse("30 MINUTES"), Ok(Recurrence::EveryMinutes(30)));
    assert_eq!(Recurrence::parse("45 Minutes"), Ok(Recurrence::EveryMinutes(45)));
    assert_eq!(Recurrence::parse("\t7\u{a0}minutes"), Ok(Recurrence::EveryMinutes(7)));
    assert_eq!(Recurrence::parse("\u{2003}8\u{3000}minutes"), Ok(Recurrence::EveryMinutes(8)));
}

#[test]
fn sixty_minutes_without_a_space_equals_sixty() {
    let with_suffix = Recurrence::parse("60minutes").unwrap();
    let bare = Recurrence::parse("60").unwrap();
    assert_eq!(with_suffix, bare);
    let due = Timestamp::new(1_000, 0);
    let now = Timestamp::new(1_000, 0);
    assert_eq!(with_suffix.next_after(&due, &now), Some(Timestamp::new(4_600, 0)));
    assert_eq!(bare.next_after(&due, &now), Some(Timestamp::new(4_600, 0)));
}

#[test]
fn rejects_numbers_that_are_not_positive() {
    assert_eq!(Recurrence::parse("0"), Err(RecurrenceError::NotPositive));
    assert_eq!(Recurrence::parse("-5"), Err(RecurrenceError::NotPositive));
    assert_eq!(Recurrence::parse("-0"), Err(RecurrenceError::NotPositive));
    assert_eq!(Recurrence::parse("0 minutes"), Err(RecurrenceError::NotPositive));
    assert_eq!(Recurrence::parse("-5 minutes"), Err(RecurrenceError::NotPositive));
    assert_eq!(Recurrence::parse("-9223372036854775808"), Err(RecurrenceError::NotPositive));
}

#[test]
fn rejects_text_of_another_shape() {
    for text in [
        "", " ", "abc", "hourly", "dailyy", "minutes", " minutes", "5 minute", "5 mins", "5.5",
        "1e3", " 5", "5 ", "5 minutes ", "- 5", "--5", "+", "-", "5minutesminutes", "5 5 minutes",
        "daily ", " weekly", "1_000", "٥",
    ] {
        assert_eq!(Recurrence::parse(text), Err(RecurrenceError::Malformed), "{:?}", text);
    }
}

#[test]
fn accepts_exactly_the_numbers_of_sixty_four_bits() {
    assert_eq!(
        Recurrence::parse("9223372036854775807"),
        Ok(Recurrence::EveryMinutes(i64::MAX))
    );
    assert_eq!(Recurrence::parse("9223372036854775808"), Err(RecurrenceError::Malformed));
    assert_eq!(Recurrence::parse("-9223372036854775809"), Err(RecurrenceError::Malformed));
    assert_eq!(
        Recurrence::parse("99999999999999999999999999999999999999999999 minutes"),
        Err(RecurrenceError::Malformed)
    );
    assert_eq!(
        Recurrence::parse("000000000000000000000000000000000000000000012"),
        Ok(Recurrence::EveryMinutes(12))
    );
}

#[test]
fn from_minutes_wants_a_positive_number() {
    assert_eq!(Recurrence::from_minutes(1), Ok(Recurrence::EveryMinutes(1)));
    assert_eq!(Recurrence::from_minutes(0), Err(RecurrenceError::NotPositive));
    assert_eq!(Recurrence::from_minutes(-1), Err(RecurrenceError::NotPositive));
}

#[test]
fn next_occurrence_of_a_reminder_that_is_just_due() {
    let due = Timestamp::new(10_000, 0);
    assert_eq!(Recurrence::Daily.next_after(&due, &due), Some(Timestamp::new(10_000 + DAY, 0)));
    assert_eq!(Recurrence::Weekly.next_after(&due, &due), Some(Timestamp::new(10_000 + WEEK, 0)));
    assert_eq!(
        Recurrence::EveryMinutes(5).next_after(&due, &due),
        Some(Timestamp::new(10_300, 0))
    );
}

#[test]
fn next_occurrence_skips_what_was_missed() {
    let due = Timestamp::new(1_000_000, 0);
    let now = Timestamp::new(1_000_000 + 36 * 3_600, 0);
    assert_eq!(
        Recurrence::Daily.next_after(&due, &now),
        Some(Timestamp::new(1_000_000 + 2 * DAY, 0))
    );
    let much_later = Timestamp::new(1_000_000 + 10 * WEEK + 5, 0);
    assert_eq!(
        Recurrence::Weekly.next_after(&due, &much_later),
        Some(Timestamp::new(1_000_000 + 11 * WEEK, 0))
    );
    assert_eq!(
        Recurrence::EveryMinutes(7).next_after(&due, &Timestamp::new(1_000_000 + 1_000, 0)),
        Some(Timestamp::new(1_000_000 + 3 * 420, 0))
    );
}

#[test]
fn next_occurrence_is_strictly_after_now() {
    let due = Timestamp::new(500, 0);
    // Exactly one period later: that occurrence is not after `now`, so the next one is taken.
    let now = Timestamp::new(500 + DAY, 0);
    assert_eq!(Recurrence::Daily.next_after(&due, &now), Some(Timestamp::new(500 + 2 * DAY, 0)));
    let just_before = Timestamp::new(500 + DAY - 1, 999_999_999);
    assert_eq!(
        Recurrence::Daily.next_after(&due, &just_before),
        Some(Timestamp::new(500 + DAY, 0))
    );
}

#[test]
fn next_occurrence_of_a_reminder_in_the_future_is_one_period_on() {
    let due = Timestamp::new(50_000, 7);
    let now = Timestamp::new(100, 0);
    assert_eq!(
        Recurrence::EveryMinutes(10).next_after(&due, &now),
        Some(Timestamp::new(50_600, 7))
    );
    let long_before = Timestamp::new(i64::MIN, 0);
    assert_eq!(
        Recurrence::Daily.next_after(&due, &long_before),
        Some(Timestamp::new(50_000 + DAY, 7))
    );
}

#[test]
fn nanoseconds_break_the_tie_within_a_second() {
    let due = Timestamp::new(100, 500);
    let rule = Recurrence::EveryMinutes(1);
    assert_eq!(rule.next_after(&due, &Timestamp::new(160, 499)), Some(Timestamp::new(160, 500)));
    assert_eq!(rule.next_after(&due, &Timestamp::new(160, 500)), Some(Timestamp::new(220, 500)));
    assert_eq!(rule.next_after(&due, &Timestamp::new(160, 501)), Some(Timestamp::new(220, 500)));
    assert_eq!(rule.next_after(&due, &Timestamp::new(159, 999)), Some(Timestamp::new(160, 500)));
}

#[test]
fn next_occurrence_keeps_the_nanoseconds_of_the_due_time() {
    let due = Timestamp::new(0, 123_456_789);
    let now = Timestamp::new(3 * DAY, 0);
    assert_eq!(
        Recurrence::Daily.next_after(&due, &now),
        Some(Timestamp::new(3 * DAY, 123_456_789))
    );
}

#[test]
fn a_period_that_is_not_positive_has_no_next_occurrence() {
    let due = Timestamp::new(0, 0);
    let now = Timestamp::new(10, 0);
    assert_eq!(Recurrence::EveryMinutes(0).next_after(&due, &now), None);
    assert_eq!(Recurrence::EveryMinutes(-3).next_after(&due, &now), None);
    assert_eq!(Recurrence::EveryMinutes(i64::MIN).next_after(&due, &now), None);
}

#[test]
fn an_occurrence_beyond_the_last_second_is_none() {
    let due = Timestamp::new(i64::MAX - 10, 0);
    assert_eq!(Recurrence::Daily.next_after(&due, &due), None);
    assert_eq!(Recurrence::EveryMinutes(i64::MAX).next_after(&Timestamp::new(0, 0), &Timestamp::new(0, 0)), None);
    let last = Timestamp::new(i64::MAX - 60, 0);
    assert_eq!(
        Recurrence::EveryMinutes(1).next_after(&last, &Timestamp::new(0, 0)),
        Some(Timestamp::new(i64::MAX, 0))
    );
}

#[test]
fn the_widest_gap_is_bridged_without_overflow() {
    let due = Timestamp::new(i64::MIN, 0);
    let now = Timestamp::new(i64::MAX - DAY, 0);
    let next = Recurrence::Daily.next_after(&due, &now).unwrap();
    assert!(next.after(&now));
    assert!(next.secs - now.secs <= DAY);
    assert_eq!((next.secs as i128 - due.secs as i128) % DAY as i128, 0);
}

/// Reads a specifier by lower-casing, stripping one suffix and trimming
/// with the standard library.
fn read_with_the_standard_library(text: &str) -> Result<Recurrence, RecurrenceError> {
    let lowered = text.to_lowercase();
    let minutes = |number: &str| match number.parse::<i64>() {
        Ok(minutes) if minutes > 0 => Ok(Recurrence::EveryMinutes(minutes)),
        Ok(_) => Err(RecurrenceError::NotPositive),
        Err(_) => Err(RecurrenceError::Malformed),
    };
    if lowered == "daily" {
        Ok(Recurrence::Daily)
    } else if lowered == "weekly" {
        Ok(Recurrence::Weekly)
    } else if lowered.parse::<i64>().is_ok() {
        minutes(&lowered)
    } else if let Some(number) = lowered.strip_suffix("minutes") {
        minutes(number.trim())
    } else {
        Err(RecurrenceError::Malformed)
    }
}

#[test]
fn short_texts_read_as_the_standard_library_reads_them() {
    let alphabet = [' ', '\t', '\u{a0}', '0', '1', '9', '-', '+', 'm', 's', 'S', 'd', 'y', 'k', '\u{212a}', ','];
    let mut texts = vec![String::new()];
    let mut frontier = vec![String::new()];
    for _ in 0..4 {
        let mut next = Vec::new();
        for text in &frontier {
            for c in alphabet {
                let mut longer = text.clone();
                longer.push(c);
                next.push(longer);
            }
        }
        texts.extend(next.iter().cloned());
        frontier = next;
    }
    assert_eq!(texts.len(), 1 + 16 + 256 + 4_096 + 65_536);
    for text in &texts {
        assert_eq!(Recurrence::parse(text), read_with_the_standard_library(text), "{:?}", text);
        let suffixed = format!("{}Minutes", text);
        assert_eq!(
            Recurrence::parse(&suffixed),
            read_with_the_standard_library(&suffixed),
            "{:?}",
            suffixed
        );
    }
}

#[test]
fn built_texts_read_as_the_standard_library_reads_them() {
    let spaces = ["", " ", "\t ", "\u{2003}"];
    let signs = ["", "+", "-", "+-"];
    let digits = ["", "0", "7", "60", "0060", "9223372036854775807", "9223372036854775808", "1x"];
    let suffixes = ["", "minutes", "MINUTES", "Minutes", "minute", "minutes ", "mins", "daily", "weekly"];
    for before in spaces {
        for sign in signs {
            for number in digits {
                for between in spaces {
                    for suffix in suffixes {
                        let text = format!("{}{}{}{}{}", before, sign, number, between, suffix);
                        assert_eq!(
                            Recurrence::parse(&text),
                            read_with_the_standard_library(&text),
                            "{:?}",
                            text
                        );
                    }
                }
            }
        }
    }
}
