use geo_db::classes::{Classes, HUMAN_SETTLEMENT, LANGUAGE, TERRITORIAL_ENTITY};
use geo_db::database::DataEntry;
use geo_db::wiki_data_line::{handle_line, parse_quantity, read_population, HandleLineError};
use geo_db::json::parse_json;
use geo_db::wiki_time::WikiTime;
use std::collections::HashSet;

const NOW: WikiTime = WikiTime { year: 2026, month: 9, day: 18, hour: 12, minute: 0, second: 0 };

fn set(items: &[u64]) -> HashSet<u64> {
    items.iter().copied().collect()
}

fn classes() -> Classes {
    Classes {
        territorial_entities: set(&[TERRITORIAL_ENTITY]),
        human_settlements: set(&[HUMAN_SETTLEMENT]),
        excluded: set(&[2974842]),
        excluded_settlements: set(&[159313]),
        second_level_admin_div: set(&[13220204]),
        languages: set(&[LANGUAGE]),
    }
}

fn id_claim(target: &str) -> String {
    format!(
        "{{\"mainsnak\":{{\"snaktype\":\"value\",\"datavalue\":{{\"value\":{{\"id\":\"{}\"}}}}}}}}",
        target
    )
}

fn string_claim(value: &str) -> String {
    format!(
        "{{\"mainsnak\":{{\"snaktype\":\"value\",\"datavalue\":{{\"value\":\"{}\"}}}}}}",
        value
    )
}

fn text_claim(lang: &str, text: &str) -> String {
    format!(
        "{{\"mainsnak\":{{\"snaktype\":\"value\",\"datavalue\":{{\"value\":{{\"language\":\"{}\",\"text\":\"{}\"}}}}}}}}",
        lang, text
    )
}

fn time_snak(time: &str) -> String {
    format!(
        "[{{\"snaktype\":\"value\",\"datavalue\":{{\"value\":{{\"time\":\"{}\",\"timezone\":0}}}}}}]",
        time
    )
}

fn population_claim(amount: &str, time: &str, extra: &str) -> String {
    format!(
        "{{\"mainsnak\":{{\"snaktype\":\"value\",\"datavalue\":{{\"value\":{{\"amount\":\"{}\",\"unit\":\"1\"}}}}}},\"qualifiers\":{{\"P585\":{}{}}}}}",
        amount,
        time_snak(time),
        extra
    )
}

fn entity(id: &str, claims: &[(&str, Vec<String>)], labels: &str) -> String {
    let claims: Vec<String> = claims
        .iter()
        .map(|(p, cs)| format!("\"{}\":[{}]", p, cs.join(",")))
        .collect();
    format!("{{\"id\":\"{}\",\"labels\":{{{}}},\"claims\":{{{}}}}}", id, labels, claims.join(","))
}

fn run(line: &str) -> Vec<DataEntry> {
    let mut sink = Vec::new();
    match handle_line(line, &classes(), &NOW, &mut sink) {
        Ok(()) => sink,
        Err(HandleLineError::Json(e)) => panic!("JSON error: {}", e),
        Err(HandleLineError::MissingId) => panic!("no id"),
    }
}

fn sorted(mut v: Vec<DataEntry>) -> Vec<String> {
    let mut out: Vec<String> = v.drain(..).map(|e| format!("{:?}", e)).collect();
    out.sort();
    out
}

fn settlement() -> Vec<String> {
    vec![id_claim("Q486972")]
}

#[test]
fn end_to_end_settlement() {
    let coords = "{\"mainsnak\":{\"snaktype\":\"value\",\"datavalue\":{\"value\":{\"latitude\":1.5,\"longitude\":-2.5}}}}".to_string();
    let line = entity(
        "Q1",
        &[
            ("P31", settlement()),
            ("P17", vec![id_claim("Q2")]),
            ("P1082", vec![population_claim("1,234,567", "+2020-01-01T00:00:00Z", "")]),
            ("P625", vec![coords]),
            ("P1705", vec![text_claim("en", "A\u{1d3a}")]),
        ],
        "\"en\":{\"language\":\"en\",\"value\":\"A\"},\"de\":{\"language\":\"de\",\"value\":\"B\"}",
    );
    let out = run(&format!("{},", line));
    let expected = vec![
        DataEntry::City {
            id: "Q1".into(),
            population: Some(1234567),
            lat: Some("1.5".into()),
            lon: Some("-2.5".into()),
        },
        DataEntry::CityCountry { id: "Q1".into(), country: "Q2".into(), priority: 0 },
        DataEntry::ObjectLabel { id: "Q1".into(), lang: "en".into(), label: "A".into(), native_order: None },
        DataEntry::ObjectLabel { id: "Q1".into(), lang: "de".into(), label: "B".into(), native_order: None },
        DataEntry::ObjectLabel {
            id: "Q1".into(),
            lang: "en".into(),
            label: "A\u{1d3a}".into(),
            native_order: Some(0),
        },
    ];
    assert_eq!(sorted(out), sorted(expected));
}

#[test]
fn missing_country() {
    let line = entity("Q7", &[("P31", settlement())], "");
    let out = run(&line);
    assert_eq!(out, vec![DataEntry::MissingP17 { id: "Q7".into() }]);
}

#[test]
fn country_and_languages() {
    let line = entity(
        "Q30",
        &[("P297", vec![string_claim("US")]), ("P37", vec![id_claim("Q1"), id_claim("Q2")])],
        "",
    );
    let out = run(&line);
    assert_eq!(
        out,
        vec![
            DataEntry::Country { id: "Q30".into(), iso: "us".into() },
            DataEntry::ObjectLanguage { id: "Q30".into(), lang_id: "Q1".into(), index: 0 },
            DataEntry::ObjectLanguage { id: "Q30".into(), lang_id: "Q2".into(), index: 1 },
        ]
    );
}

#[test]
fn population_takes_latest_unrestricted_claim() {
    let restricted = ",\"P518\":[{\"snaktype\":\"value\"}]";
    let line = entity(
        "Q5",
        &[
            ("P31", settlement()),
            ("P17", vec![id_claim("Q2")]),
            (
                "P1082",
                vec![
                    population_claim("100", "+2010-01-01T00:00:00Z", ""),
                    population_claim("200", "+2020-01-01T00:00:00Z", ""),
                    population_claim("150", "+2015-01-01T00:00:00Z", restricted),
                ],
            ),
        ],
        "",
    );
    let out = run(&line);
    let pops: Vec<Option<u64>> = out
        .iter()
        .filter_map(|e| match e {
            DataEntry::City { population, .. } => Some(*population),
            _ => None,
        })
        .collect();
    assert_eq!(pops, vec![Some(200)]);
}

#[test]
fn population_tie_keeps_earlier_claim() {
    let line = entity(
        "Q5",
        &[(
            "P1082",
            vec![
                population_claim("100", "+2010-01-01T00:00:00Z", ""),
                population_claim("300", "+2010-01-01T00:00:00Z", ""),
            ],
        )],
        "",
    );
    let e = parse_json(&line).ok().unwrap();
    assert_eq!(read_population(&e), Some(100));
}

#[test]
fn native_label_wins_over_official_name() {
    let line = entity(
        "Q9",
        &[
            ("P31", settlement()),
            ("P17", vec![id_claim("Q2")]),
            ("P1705", vec![text_claim("fr", "Ville")]),
            ("P1448", vec![text_claim("fr", "Nom"), text_claim("de", "Name")]),
        ],
        "",
    );
    let out = run(&line);
    let natives: Vec<&DataEntry> = out
        .iter()
        .filter(|e| matches!(e, DataEntry::ObjectLabel { native_order: Some(_), .. }))
        .collect();
    assert_eq!(
        natives,
        vec![&DataEntry::ObjectLabel {
            id: "Q9".into(),
            lang: "fr".into(),
            label: "Ville".into(),
            native_order: Some(0),
        }]
    );
}

#[test]
fn official_names_without_native_label() {
    let line = entity(
        "Q9",
        &[
            ("P31", settlement()),
            ("P17", vec![id_claim("Q2")]),
            ("P1448", vec![text_claim("fr", "Nom"), text_claim("de", "Name")]),
        ],
        "",
    );
    let out = run(&line);
    let orders: Vec<Option<u64>> = out
        .iter()
        .filter_map(|e| match e {
            DataEntry::ObjectLabel { native_order: Some(k), .. } => Some(Some(*k)),
            _ => None,
        })
        .collect();
    assert_eq!(orders, vec![Some(0), Some(1)]);
}

#[test]
fn dissolved_entity_is_skipped() {
    let line = entity(
        "Q3",
        &[
            ("P31", settlement()),
            ("P17", vec![id_claim("Q2")]),
            ("P297", vec![string_claim("XX")]),
            ("P576", vec![string_claim("gone")]),
        ],
        "\"en\":{\"language\":\"en\",\"value\":\"Old\"}",
    );
    assert!(run(&line).is_empty());
}

#[test]
fn replaced_entity_is_skipped() {
    let line = entity("Q3", &[("P31", settlement()), ("P1366", vec![id_claim("Q4")])], "");
    assert!(run(&line).is_empty());
}

#[test]
fn territorial_entity_records() {
    let ended = format!(
        "{{\"mainsnak\":{{\"snaktype\":\"value\",\"datavalue\":{{\"value\":{{\"id\":\"Q99\"}}}}}},\"qualifiers\":{{\"P582\":{}}}}}",
        time_snak("+1900-01-01T00:00:00Z")
    );
    let line = entity(
        "Q10",
        &[
            ("P31", vec![id_claim("Q56061"), id_claim("Q13220204")]),
            ("P131", vec![id_claim("Q11"), ended]),
            ("P2936", vec![id_claim("Q150")]),
        ],
        "\"eo\":{\"language\":\"eo\",\"value\":\"Regiono\"}",
    );
    let out = run(&line);
    assert_eq!(
        out,
        vec![
            DataEntry::TerritorialEntity { id: "Q10".into(), is_2nd: true, iso: None },
            DataEntry::TerritorialEntityParent { id: "Q10".into(), parent: "Q11".into() },
            DataEntry::ObjectLanguage { id: "Q10".into(), lang_id: "Q150".into(), index: 0 },
            DataEntry::ObjectLabel {
                id: "Q10".into(),
                lang: "eo".into(),
                label: "Regiono".into(),
                native_order: None,
            },
        ]
    );
}

#[test]
fn excluded_class_suppresses_settlement() {
    let line = entity(
        "Q12",
        &[("P31", vec![id_claim("Q486972"), id_claim("Q2974842")]), ("P17", vec![id_claim("Q2")])],
        "",
    );
    assert!(run(&line).is_empty());
}

#[test]
fn language_record() {
    let line = entity("Q143", &[("P31", vec![id_claim("Q34770")]), ("P424", vec![string_claim("eo")])], "");
    assert_eq!(run(&line), vec![DataEntry::Language { id: "Q143".into(), code: "eo".into() }]);
}

#[test]
fn bracket_and_blank_lines_give_nothing() {
    assert!(run("[").is_empty());
    assert!(run("]").is_empty());
    assert!(run("").is_empty());
}

#[test]
fn bad_lines_are_errors() {
    let mut sink = Vec::new();
    assert!(matches!(
        handle_line("{not json", &classes(), &NOW, &mut sink),
        Err(HandleLineError::Json(_))
    ));
    assert!(matches!(
        handle_line("{\"claims\":{}}", &classes(), &NOW, &mut sink),
        Err(HandleLineError::MissingId)
    ));
    assert!(sink.is_empty());
}

#[test]
fn same_line_gives_same_records() {
    let line = entity(
        "Q1",
        &[("P31", settlement()), ("P17", vec![id_claim("Q2"), id_claim("Q3")])],
        "\"en\":{\"language\":\"en\",\"value\":\"A\"}",
    );
    assert_eq!(sorted(run(&line)), sorted(run(&line)));
}

#[test]
fn quantities() {
    assert_eq!(parse_quantity("+1,234,567"), Some(1234567));
    assert_eq!(parse_quantity("12 345"), Some(12345));
    assert_eq!(parse_quantity("42"), Some(42));
    assert_eq!(parse_quantity("-5"), None);
    assert_eq!(parse_quantity("abc"), None);
    assert_eq!(parse_quantity("99999999999999999999"), None);
}
