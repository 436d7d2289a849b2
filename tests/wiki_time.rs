use geo_db::json::{parse_json, Json};
use geo_db::wiki_time::{is_active_at, parse_wikidata_time, read_zone_minutes, TimeParseError, WikiTime};

fn t(year: i32, month: u16, day: u16, hour: u16, minute: u16, second: u16) -> WikiTime {
    WikiTime { year, month, day, hour, minute, second }
}

fn qualifiers(text: &str) -> Json {
    match parse_json(text) {
        Ok(j) => j,
        Err(e) => panic!("bad test JSON: {:?}", e),
    }
}

fn time_snak(time: &str) -> String {
    format!(
        "[{{\"snaktype\":\"value\",\"datavalue\":{{\"value\":{{\"time\":\"{}\",\"timezone\":0}}}}}}]",
        time
    )
}

const NOW: WikiTime = WikiTime { year: 2026, month: 9, day: 18, hour: 12, minute: 0, second: 0 };

#[test]
fn parses_plain_timestamp() {
    assert_eq!(parse_wikidata_time("+2020-01-01T00:00:00Z", 0), Ok(t(2020, 0, 0, 0, 0, 0)));
    assert_eq!(parse_wikidata_time("+2015-07-14T13:45:30Z", 0), Ok(t(2015, 6, 13, 13, 45, 30)));
}

#[test]
fn unknown_month_and_day_stay_at_zero() {
    assert_eq!(parse_wikidata_time("+1850-00-00T00:00:00Z", 0), Ok(t(1850, 0, 0, 0, 0, 0)));
}

#[test]
fn negative_and_long_years() {
    assert_eq!(parse_wikidata_time("-0500-03-02T00:00:00Z", 0), Ok(t(-500, 2, 1, 0, 0, 0)));
    assert_eq!(parse_wikidata_time("+123456-01-01T00:00:00Z", 0), Ok(t(123456, 0, 0, 0, 0, 0)));
}

#[test]
fn zone_offset_carries_into_larger_fields() {
    assert_eq!(parse_wikidata_time("+2020-01-01T23:30:00Z", 60), Ok(t(2020, 0, 1, 0, 30, 0)));
    assert_eq!(parse_wikidata_time("+2020-01-01T00:00:00Z", -1), Ok(t(2019, 11, 30, 23, 59, 0)));
}

#[test]
fn add_seconds_carries_and_borrows() {
    assert_eq!(t(2020, 11, 30, 23, 59, 59).add_seconds(1), Some(t(2021, 0, 0, 0, 0, 0)));
    assert_eq!(t(2020, 0, 0, 0, 0, 0).add_seconds(-1), Some(t(2019, 11, 30, 23, 59, 59)));
    assert_eq!(t(i32::MAX, 11, 30, 23, 59, 59).add_seconds(1), None);
}

#[test]
fn time_errors() {
    assert_eq!(parse_wikidata_time("+2020-01-01", 0), Err(TimeParseError::NoTime));
    assert_eq!(parse_wikidata_time("+2020T00:00:00Z", 0), Err(TimeParseError::NoDateDash));
    assert_eq!(parse_wikidata_time("T00:00:00Z", 0), Err(TimeParseError::NoDateDash));
    assert_eq!(parse_wikidata_time("+2020-1T00:00:00Z", 0), Err(TimeParseError::DateTooShort));
    assert_eq!(parse_wikidata_time("+20x0-01-01T00:00:00Z", 0), Err(TimeParseError::ParseInt));
    assert_eq!(parse_wikidata_time("+2020-01-01T00Z", 0), Err(TimeParseError::InvalidTime));
    assert_eq!(parse_wikidata_time("+2020-01-01T00:00Z", 0), Err(TimeParseError::InvalidTime));
}

#[test]
fn ordering_is_field_by_field() {
    assert!(t(1999, 11, 30, 0, 0, 0).is_before(&t(2000, 0, 0, 0, 0, 0)));
    assert!(!t(2000, 0, 0, 0, 0, 0).is_before(&t(2000, 0, 0, 0, 0, 0)));
    assert!(t(2000, 0, 0, 0, 0, 1).is_before(&t(2000, 0, 0, 0, 1, 0)));
}

#[test]
fn future_start_is_inactive() {
    let q = qualifiers(&format!("{{\"P580\":{}}}", time_snak("+2100-01-01T00:00:00Z")));
    assert!(!is_active_at(Some(&q), &NOW));
}

#[test]
fn past_start_is_active() {
    let q = qualifiers(&format!("{{\"P580\":{}}}", time_snak("+1900-01-01T00:00:00Z")));
    assert!(is_active_at(Some(&q), &NOW));
}

#[test]
fn past_end_is_inactive() {
    let q = qualifiers(&format!("{{\"P582\":{}}}", time_snak("+1900-01-01T00:00:00Z")));
    assert!(!is_active_at(Some(&q), &NOW));
}

#[test]
fn malformed_time_is_active() {
    let q = qualifiers(&format!("{{\"P582\":{}}}", time_snak("yesterday")));
    assert!(is_active_at(Some(&q), &NOW));
    assert!(is_active_at(None, &NOW));
}

#[test]
fn future_end_is_active() {
    let q = qualifiers(&format!("{{\"P582\":{}}}", time_snak("+2100-01-01T00:00:00Z")));
    assert!(is_active_at(Some(&q), &NOW));
}

#[test]
fn clock_reads_a_normal_time() {
    let now = WikiTime::now().expect("the test machine's clock is after 1970");
    assert!(now.year >= 2024 && now.month < 12 && now.day < 31);
    assert!(now.hour < 24 && now.minute < 60 && now.second < 60);
}

#[test]
fn text_form_is_zero_padded() {
    assert_eq!(t(2020, 0, 5, 3, 4, 9).to_text(), "2020-00-05 03:04:09");
    assert_eq!(t(987, 11, 30, 23, 59, 59).to_text(), "0987-11-30 23:59:59");
    assert_eq!(t(-5, 1, 2, 0, 0, 0).to_text(), "-005-01-02 00:00:00");
    assert_eq!(t(123456, 1, 2, 0, 0, 0).to_text(), "123456-01-02 00:00:00");
}

#[test]
fn fractional_zone_offsets_are_cut_to_minutes() {
    assert_eq!(read_zone_minutes("60"), Some(60));
    assert_eq!(read_zone_minutes("60.0"), Some(60));
    assert_eq!(read_zone_minutes("-90.75"), Some(-90));
    assert_eq!(read_zone_minutes("-0.5"), Some(0));
    assert_eq!(read_zone_minutes("6e1"), None);
    assert_eq!(read_zone_minutes("60."), None);
}

#[test]
fn fractional_zone_in_a_qualifier() {
    let q = qualifiers(
        "{\"P582\":[{\"snaktype\":\"value\",\"datavalue\":{\"value\":{\"time\":\"+1900-01-01T00:00:00Z\",\"timezone\":60.0}}}]}",
    );
    assert!(!is_active_at(Some(&q), &NOW));
}
