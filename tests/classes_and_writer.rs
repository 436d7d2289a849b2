use geo_db::classes::{class_set, entity_number, excluded_seeds, in_class};
use geo_db::database::{insert_policy, DataEntry, InsertPolicy, WriteBuffer};

#[test]
fn entity_numbers() {
    assert_eq!(entity_number("Q515"), Some(515));
    assert_eq!(entity_number("Q0515"), None);
    assert_eq!(entity_number("P31"), None);
    assert_eq!(entity_number("Q"), None);
    assert_eq!(entity_number("Q99999999999999999999"), None);
}

#[test]
fn class_sets_from_query_results() {
    let results = vec![
        vec![
            "http://www.wikidata.org/entity/Q515".to_string(),
            "http://www.wikidata.org/entity/Q1549591".to_string(),
            "not a url".to_string(),
        ],
        vec!["http://www.wikidata.org/entity/Q3957".to_string()],
    ];
    let set = class_set(&vec![486972], &results);
    let mut got: Vec<u64> = set.iter().copied().collect();
    got.sort();
    assert_eq!(got, vec![515, 3957, 486972, 1549591]);
    assert!(in_class(&set, "Q515"));
    assert!(!in_class(&set, "Q516"));
    let again = class_set(&vec![486972], &results);
    assert_eq!(set, again);
}

#[test]
fn exclusion_seeds() {
    assert_eq!(excluded_seeds(), vec![2974842, 123705, 19953632, 131596]);
    let set = class_set(&excluded_seeds(), &vec![]);
    assert_eq!(set.len(), 4);
}

fn record(i: usize) -> DataEntry {
    DataEntry::MissingP17 { id: format!("Q{}", i) }
}

fn transactions(k: usize) -> Vec<Vec<DataEntry>> {
    let mut buf = WriteBuffer::new();
    let mut out = Vec::new();
    for i in 0..k {
        if let Some(batch) = buf.push(record(i)) {
            out.push(batch);
        }
    }
    if let Some(rest) = buf.finish() {
        out.push(rest);
    }
    out
}

#[test]
fn writer_batches_in_arrival_order() {
    for k in [0usize, 1, 126, 127, 128, 254, 300] {
        let txs = transactions(k);
        assert_eq!(txs.len(), (k + 126) / 127);
        let flat: Vec<DataEntry> = txs.iter().flatten().cloned().collect();
        let expected: Vec<DataEntry> = (0..k).map(record).collect();
        assert_eq!(flat, expected);
        assert!(txs.iter().all(|t| !t.is_empty() && t.len() <= 127));
    }
}

#[test]
fn insert_policies() {
    let parent = DataEntry::TerritorialEntityParent { id: "Q1".into(), parent: "Q2".into() };
    let lang = DataEntry::ObjectLanguage { id: "Q1".into(), lang_id: "Q2".into(), index: 0 };
    let country = DataEntry::CityCountry { id: "Q1".into(), country: "Q2".into(), priority: 0 };
    assert_eq!(insert_policy(&parent), InsertPolicy::IgnoreConflicts);
    assert_eq!(insert_policy(&lang), InsertPolicy::IgnoreConflicts);
    assert_eq!(insert_policy(&country), InsertPolicy::IgnoreConflicts);
    assert_eq!(insert_policy(&record(1)), InsertPolicy::Plain);
    assert_eq!(insert_policy(&DataEntry::Country { id: "Q1".into(), iso: "us".into() }), InsertPolicy::Plain);
}
