//! The entity projector: from one line of the dump, a JSON entity, to the
//! records that describe it.

use vstd::prelude::*;
use vstd::string::{StringSliceAdditionalSpecFns, StrSliceExecFns};
use crate::classes::{Classes, names_class_in, in_class};
use crate::database::{DataEntry, EntryView, entry_views};
use crate::json::{
    Json, json_of, parse_json, deref_json, field, element, items, members, text, number, is_object,
    get, at, items_of, members_of, text_of, number_of, is_object_json,
};
use crate::text::{parse_u64_spec, parse_u64_range, str_eq};
use crate::wiki_time::{
    WikiTime, active_at, time_lt, snak_time, has_value, is_active_at, snak_has_value,
    read_snak_time,
};

verus! {

pub enum HandleLineError {
    /// The line is no JSON document.
    Json(serde_json::Error),
    /// The entity has no string `id`.
    MissingId,
}

/// The text that the string `o` holds.
pub open spec fn str_view(o: Option<&String>) -> Option<Seq<char>> {
    match o {
        Some(s) => Some(s@),
        None => None,
    }
}

/// The claims of the entity `e` for the property `p`, where they form an
/// array.
pub open spec fn claims_of(e: Json, p: Seq<char>) -> Option<Seq<Json>> {
    items(field(field(Some(e), "claims"@), p))
}

/// The claims of `e` for `p`; none where they form no array.
pub open spec fn claim_list(e: Json, p: Seq<char>) -> Seq<Json> {
    match claims_of(e, p) {
        Some(c) => c,
        None => Seq::empty(),
    }
}

/// The value of the main snak of the claim `c`.
pub open spec fn datavalue(c: Json) -> Option<Json> {
    field(field(field(Some(c), "mainsnak"@), "datavalue"@), "value"@)
}

/// The entity that the claim `c` refers to.
pub open spec fn value_id(c: Json) -> Option<Seq<char>> {
    text(field(datavalue(c), "id"@))
}

/// Whether the claim `c` is active at `now`, by its qualifiers.
pub open spec fn claim_active(c: Json, now: WikiTime) -> bool {
    active_at(field(Some(c), "qualifiers"@), now)
}

/// Whether the main snak of `c` holds a value.
pub open spec fn main_has_value(c: Json) -> bool {
    has_value(field(Some(c), "mainsnak"@))
}

/// ASCII letters in lower case, other characters unchanged.
pub open spec fn ascii_lower(s: Seq<char>) -> Seq<char> {
    s.map_values(|c: char| if 'A' <= c && c <= 'Z' { ((c as u32) + 32) as char } else { c })
}

/// Whether a character of a population amount is kept when it is read:
/// whitespace, thousands separators, the decimal point and the plus sign go.
pub open spec fn kept_in_amount(c: char) -> bool {
    !(is_white_space(c) || c == ',' || c == '.' || c == '+')
}

/// The characters with the Unicode property White_Space.
pub open spec fn is_white_space(c: char) -> bool {
    ||| '\u{9}' <= c && c <= '\u{d}'
    ||| c == ' '
    ||| c == '\u{85}'
    ||| c == '\u{a0}'
    ||| c == '\u{1680}'
    ||| '\u{2000}' <= c && c <= '\u{200a}'
    ||| c == '\u{2028}'
    ||| c == '\u{2029}'
    ||| c == '\u{202f}'
    ||| c == '\u{205f}'
    ||| c == '\u{3000}'
}

/// The number that a population amount writes.
pub open spec fn quantity(s: Seq<char>) -> Option<u64> {
    parse_u64_spec(s.filter(|c: char| kept_in_amount(c)))
}

/// Whether `e` is an instance (P31) of a class in `set`.
pub open spec fn instance_of(e: Json, set: Set<u64>) -> bool {
    let cs = claim_list(e, "P31"@);
    exists|i: int|
        0 <= i < cs.len() && (#[trigger] value_id(cs[i]) matches Some(s) && names_class_in(set, s))
}

/// Whether `e` was replaced (P1366) or dissolved (P576).
pub open spec fn discarded(e: Json) -> bool {
    ||| claims_of(e, "P1366"@) matches Some(a) && a.len() > 0
    ||| claims_of(e, "P576"@) matches Some(a) && a.len() > 0
}

/// Language records for the first `n` claims of `cs`: one for each active
/// claim that refers to a language (and, where `need_value`, whose main snak
/// holds a value), numbered from zero.
pub open spec fn language_entries(
    id: Seq<char>,
    cs: Seq<Json>,
    now: WikiTime,
    need_value: bool,
    n: int,
) -> Seq<EntryView>
    decreases n,
{
    if n <= 0 || n > cs.len() {
        Seq::empty()
    } else {
        let prev = language_entries(id, cs, now, need_value, n - 1);
        let c = cs[n - 1];
        if (!need_value || main_has_value(c)) && claim_active(c, now) && value_id(c) is Some {
            prev.push(
                EntryView::ObjectLanguage { id, lang_id: value_id(c)->0, index: prev.len() as u32 },
            )
        } else {
            prev
        }
    }
}

/// Parent records for the first `n` claims of `cs`: one for each active claim
/// that refers to an entity.
pub open spec fn parent_entries(id: Seq<char>, cs: Seq<Json>, now: WikiTime, n: int) -> Seq<EntryView>
    decreases n,
{
    if n <= 0 || n > cs.len() {
        Seq::empty()
    } else {
        let prev = parent_entries(id, cs, now, n - 1);
        let c = cs[n - 1];
        if claim_active(c, now) && value_id(c) is Some {
            prev.push(EntryView::TerritorialEntityParent { id, parent: value_id(c)->0 })
        } else {
            prev
        }
    }
}

/// Country records of a city for the first `n` claims of `cs`: one for each
/// active claim that refers to an entity, by priority from zero.
pub open spec fn city_country_entries(id: Seq<char>, cs: Seq<Json>, now: WikiTime, n: int) -> Seq<EntryView>
    decreases n,
{
    if n <= 0 || n > cs.len() {
        Seq::empty()
    } else {
        let prev = city_country_entries(id, cs, now, n - 1);
        let c = cs[n - 1];
        if claim_active(c, now) && value_id(c) is Some {
            prev.push(
                EntryView::CityCountry { id, country: value_id(c)->0, priority: prev.len() as u32 },
            )
        } else {
            prev
        }
    }
}

/// Label records for the first `n` members of the label map `ms`.
pub open spec fn label_entries(id: Seq<char>, ms: Seq<(String, Json)>, n: int) -> Seq<EntryView>
    decreases n,
{
    if n <= 0 || n > ms.len() {
        Seq::empty()
    } else {
        let prev = label_entries(id, ms, n - 1);
        let v = Some(ms[n - 1].1);
        match (text(field(v, "language"@)), text(field(v, "value"@))) {
            (Some(lang), Some(label)) => prev.push(
                EntryView::ObjectLabel { id, lang, label, native_order: None },
            ),
            _ => prev,
        }
    }
}

/// Native-name records for the first `n` claims of `cs`: one for each claim
/// (active, where `need_active`) with a language and a text, numbered from
/// zero.
pub open spec fn native_entries(
    id: Seq<char>,
    cs: Seq<Json>,
    now: WikiTime,
    need_active: bool,
    n: int,
) -> Seq<EntryView>
    decreases n,
{
    if n <= 0 || n > cs.len() {
        Seq::empty()
    } else {
        let prev = native_entries(id, cs, now, need_active, n - 1);
        let c = cs[n - 1];
        let v = datavalue(c);
        if (!need_active || claim_active(c, now)) && text(field(v, "language"@)) is Some && text(
            field(v, "text"@),
        ) is Some {
            prev.push(
                EntryView::ObjectLabel {
                    id,
                    lang: text(field(v, "language"@))->0,
                    label: text(field(v, "text"@))->0,
                    native_order: Some(prev.len() as u64),
                },
            )
        } else {
            prev
        }
    }
}

/// The population claim `c` after the claims before it left `st`: the best
/// population so far and its time. A claim counts only with a point in time
/// (P585) that reads as a time, no restriction to a part, to women or to
/// men, a time later than the best so far, the unit "1", and an amount that
/// reads as a number.
pub open spec fn population_step(st: (Option<u64>, Option<WikiTime>), c: Json) -> (
    Option<u64>,
    Option<WikiTime>,
) {
    let q = field(Some(c), "qualifiers"@);
    let p585 = element(field(q, "P585"@), 0);
    let restricted = is_object(element(field(q, "P518"@), 0)) || is_object(
        element(field(q, "P1539"@), 0),
    ) || is_object(element(field(q, "P1540"@), 0));
    if is_object(p585) && !has_value(p585) {
        st
    } else {
        let t = if is_object(p585) && !restricted { snak_time(p585) } else { None };
        match t {
            None => st,
            Some(nt) => if st.1 is None || time_lt(st.1->0, nt) {
                let v = datavalue(c);
                match (text(field(v, "amount"@)), text(field(v, "unit"@))) {
                    (Some(a), Some(u)) => if u != "1"@ {
                        st
                    } else {
                        match quantity(a) {
                            Some(p) => (Some(p), Some(nt)),
                            None => st,
                        }
                    },
                    _ => st,
                }
            } else {
                st
            },
        }
    }
}

/// The best population after the first `n` claims of `cs`.
pub open spec fn population_fold(cs: Seq<Json>, n: int) -> (Option<u64>, Option<WikiTime>)
    decreases n,
{
    if n <= 0 || n > cs.len() {
        (None, None)
    } else {
        population_step(population_fold(cs, n - 1), cs[n - 1])
    }
}

/// The population of `e`.
pub open spec fn population(e: Json) -> Option<u64> {
    let cs = claim_list(e, "P1082"@);
    population_fold(cs, cs.len() as int).0
}

/// The latitude and longitude of `e`, from the main snak of its first
/// coordinate claim (P625), where that holds a value with both.
pub open spec fn coordinates(e: Json) -> Option<(Seq<char>, Seq<char>)> {
    let snak = field(element(field(field(Some(e), "claims"@), "P625"@), 0), "mainsnak"@);
    let v = field(field(snak, "datavalue"@), "value"@);
    if has_value(snak) {
        match (number(field(v, "latitude"@)), number(field(v, "longitude"@))) {
            (Some(a), Some(b)) => Some((a, b)),
            _ => None,
        }
    } else {
        None
    }
}

/// The parent records of `e`, from its active P131 claims.
pub open spec fn parents(e: Json, id: Seq<char>, now: WikiTime) -> Seq<EntryView> {
    let cs = claim_list(e, "P131"@);
    parent_entries(id, cs, now, cs.len() as int)
}

/// The label records of `e`.
pub open spec fn labels(e: Json, id: Seq<char>) -> Seq<EntryView> {
    match members(field(Some(e), "labels"@)) {
        Some(ms) => label_entries(id, ms, ms.len() as int),
        None => Seq::empty(),
    }
}

/// The native-name records of `e`: from its native labels (P1705) where
/// they give any, else from its active official names (P1448).
pub open spec fn natives(e: Json, id: Seq<char>, now: WikiTime) -> Seq<EntryView> {
    let a = claim_list(e, "P1705"@);
    let b = claim_list(e, "P1448"@);
    let from_native = native_entries(id, a, now, false, a.len() as int);
    if from_native.len() > 0 {
        from_native
    } else {
        native_entries(id, b, now, true, b.len() as int)
    }
}

/// The first claim of `cs` from index `i` on that is active at `now`.
pub open spec fn first_active(cs: Seq<Json>, now: WikiTime, i: int) -> Option<Json>
    decreases cs.len() - i,
{
    if i < 0 || i >= cs.len() {
        None
    } else if claim_active(cs[i], now) {
        Some(cs[i])
    } else {
        first_active(cs, now, i + 1)
    }
}

/// The records of a country code (P297): the country with its code in lower
/// case, from the first active claim, and its official languages.
#[verifier::opaque]
pub open spec fn country_part(e: Json, id: Seq<char>, now: WikiTime) -> Seq<EntryView> {
    match claims_of(e, "P297"@) {
        None => Seq::empty(),
        Some(cs) => {
            let iso = match first_active(cs, now, 0) {
                Some(c) => text(datavalue(c)),
                None => None,
            };
            let langs = claim_list(e, "P37"@);
            (match iso {
                Some(x) => seq![EntryView::Country { id, iso: ascii_lower(x) }],
                None => Seq::empty(),
            }) + language_entries(id, langs, now, false, langs.len() as int)
        },
    }
}

/// The records of a territorial entity.
#[verifier::opaque]
pub open spec fn territorial_part(e: Json, id: Seq<char>, is_2nd: bool, now: WikiTime) -> Seq<EntryView> {
    let p37 = claim_list(e, "P37"@);
    let langs = if p37.len() > 0 { p37 } else { claim_list(e, "P2936"@) };
    seq![EntryView::TerritorialEntity { id, is_2nd, iso: None }] + parents(e, id, now)
        + language_entries(id, langs, now, true, langs.len() as int) + labels(e, id)
}

/// The records of a human settlement. Without a country claim (P17) only the
/// note that it is missing; else its parents, its countries, the city where
/// it has one, its labels and its native names.
#[verifier::opaque]
pub open spec fn settlement_part(e: Json, id: Seq<char>, now: WikiTime) -> Seq<EntryView> {
    match claims_of(e, "P17"@) {
        None => seq![EntryView::MissingP17 { id }],
        Some(cs) => {
            let countries = city_country_entries(id, cs, now, cs.len() as int);
            let city = if countries.len() > 0 {
                seq![
                    EntryView::City {
                        id,
                        population: population(e),
                        lat: match coordinates(e) {
                            Some(p) => Some(p.0),
                            None => None,
                        },
                        lon: match coordinates(e) {
                            Some(p) => Some(p.1),
                            None => None,
                        },
                    },
                ]
            } else {
                Seq::empty()
            };
            parents(e, id, now) + countries + city + labels(e, id) + natives(e, id, now)
        },
    }
}

/// The record of a language: its Wikimedia code (P424), where it has one.
#[verifier::opaque]
pub open spec fn language_part(e: Json, id: Seq<char>) -> Seq<EntryView> {
    match text(datavalue_opt(element(field(field(Some(e), "claims"@), "P424"@), 0))) {
        Some(code) => seq![EntryView::Language { id, code }],
        None => Seq::empty(),
    }
}

pub open spec fn datavalue_opt(c: Option<Json>) -> Option<Json> {
    field(field(field(c, "mainsnak"@), "datavalue"@), "value"@)
}

/// The records of the entity `e` with id `id`, given the classification
/// table `cls` and the time `now`.
#[verifier::opaque]
pub open spec fn project(e: Json, id: Seq<char>, cls: Classes, now: WikiTime) -> Seq<EntryView> {
    if discarded(e) {
        Seq::empty()
    } else {
        let excluded = instance_of(e, cls.excluded@);
        country_part(e, id, now) + (if instance_of(e, cls.territorial_entities@) && !excluded {
            territorial_part(e, id, instance_of(e, cls.second_level_admin_div@), now)
        } else {
            Seq::empty()
        }) + (if instance_of(e, cls.human_settlements@) && !excluded {
            settlement_part(e, id, now)
        } else {
            Seq::empty()
        }) + (if instance_of(e, cls.languages@) {
            language_part(e, id)
        } else {
            Seq::empty()
        })
    }
}

/// The JSON text of a dump line: the line without a trailing comma.
pub open spec fn line_body(line: Seq<char>) -> Seq<char> {
    if line.len() > 0 && line.last() == ',' {
        line.drop_last()
    } else {
        line
    }
}


/// Appends `e` to `sink`.
fn emit(sink: &mut Vec<DataEntry>, e: DataEntry)
    ensures
        entry_views(final(sink)@) == entry_views(old(sink)@).push(e@),
{
    let ghost before_push = sink@;
    sink.push(e);
    assert(entry_views(sink@) =~= entry_views(before_push).push(e@));
}

/// The claims of `e` for `p`.
fn claims_in<'a>(e: &'a Json, p: &str) -> (r: Option<&'a Vec<Json>>)
    ensures
        match r {
            Some(v) => claims_of(*e, p@) == Some(v@),
            None => claims_of(*e, p@) is None,
        },
{
    items_of(get(get(Some(e), "claims"), p))
}

/// The value of the main snak of `c`.
fn datavalue_in<'a>(c: Option<&'a Json>) -> (r: Option<&'a Json>)
    ensures
        deref_json(r) == datavalue_opt(deref_json(c)),
{
    get(get(get(c, "mainsnak"), "datavalue"), "value")
}

/// The entity that the claim `c` refers to.
fn value_id_in<'a>(c: &'a Json) -> (r: Option<&'a String>)
    ensures
        str_view(r) == value_id(*c),
{
    text_of(get(datavalue_in(Some(c)), "id"))
}

fn claim_is_active(c: &Json, now: &WikiTime) -> (r: bool)
    ensures
        r == claim_active(*c, *now),
{
    is_active_at(get(Some(c), "qualifiers"), now)
}

/// Relies on str::to_ascii_lowercase: ASCII letters go to lower case, all
/// other characters stay.
#[verifier::external_body]
fn ascii_lowercase(s: &str) -> (r: String)
    ensures
        r@ == ascii_lower(s@),
{
    s.to_ascii_lowercase()
}

/// Whether `c` has the Unicode property White_Space.
pub fn is_white_space_char(c: char) -> (r: bool)
    ensures
        r == is_white_space(c),
{
    ('\u{9}' <= c && c <= '\u{d}') || c == ' ' || c == '\u{85}' || c == '\u{a0}' || c == '\u{1680}'
        || ('\u{2000}' <= c && c <= '\u{200a}') || c == '\u{2028}' || c == '\u{2029}' || c
        == '\u{202f}' || c == '\u{205f}' || c == '\u{3000}'
}

/// Reads a population amount: a decimal number in which whitespace,
/// thousands separators, a decimal point and a plus sign are passed over.
pub fn parse_quantity(n: &str) -> (r: Option<u64>)
    ensures
        r == quantity(n@),
{
    let v = crate::text::chars_of(n);
    let mut kept: Vec<char> = Vec::new();
    let mut i: usize = 0;
    proof {
        reveal(Seq::filter);
    }
    assert(v@.subrange(0, 0).filter(|c: char| kept_in_amount(c)) =~= Seq::<char>::empty());
    while i < v.len()
        invariant
            i <= v@.len(),
            v@ == n@,
            kept@ == v@.subrange(0, i as int).filter(|c: char| kept_in_amount(c)),
        decreases v@.len() - i,
    {
        let c = v[i];
        proof {
            reveal(Seq::filter);
            assert(v@.subrange(0, i + 1).drop_last() =~= v@.subrange(0, i as int));
        }
        if !(is_white_space_char(c) || c == ',' || c == '.' || c == '+') {
            kept.push(c);
        }
        i = i + 1;
    }
    assert(v@.subrange(0, i as int) =~= n@);
    assert(kept@.subrange(0, kept@.len() as int) =~= kept@);
    parse_u64_range(&kept, 0, kept.len())
}

/// Appends the language records for the claims `cs`.
fn emit_languages(
    id: &String,
    cs: &Vec<Json>,
    now: &WikiTime,
    need_value: bool,
    sink: &mut Vec<DataEntry>,
)
    ensures
        entry_views(final(sink)@) == entry_views(old(sink)@) + language_entries(
            id@,
            cs@,
            *now,
            need_value,
            cs@.len() as int,
        ),
{
    let ghost start = entry_views(sink@);
    let mut k: usize = 0;
    let mut i: usize = 0;
    while i < cs.len()
        invariant
            i <= cs@.len(),
            k <= i,
            k == language_entries(id@, cs@, *now, need_value, i as int).len(),
            entry_views(sink@) == start + language_entries(id@, cs@, *now, need_value, i as int),
        decreases cs@.len() - i,
    {
        let c = &cs[i];
        if (!need_value || snak_has_value(get(Some(c), "mainsnak"))) && claim_is_active(c, now) {
            if let Some(lang) = value_id_in(c) {
                emit(sink, DataEntry::ObjectLanguage { id: id.clone(), lang_id: lang.clone(), index: k as u32 });
                k = k + 1;
            }
        }
        i = i + 1;
    }
}

/// Appends the parent records of `e`.
fn emit_parents(e: &Json, id: &String, now: &WikiTime, sink: &mut Vec<DataEntry>)
    ensures
        entry_views(final(sink)@) == entry_views(old(sink)@) + parents(*e, id@, *now),
{
    let ghost start = entry_views(sink@);
    if let Some(cs) = claims_in(e, "P131") {
        let mut i: usize = 0;
        while i < cs.len()
            invariant
                i <= cs@.len(),
                entry_views(sink@) == start + parent_entries(id@, cs@, *now, i as int),
            decreases cs@.len() - i,
        {
            let c = &cs[i];
            if claim_is_active(c, now) {
                if let Some(parent) = value_id_in(c) {
                    emit(sink, DataEntry::TerritorialEntityParent { id: id.clone(), parent: parent.clone() });
                }
            }
            i = i + 1;
        }
    } else {
        assert(entry_views(sink@) =~= start + Seq::<EntryView>::empty());
    }
}

/// Appends the country records of a city for the claims `cs`; returns how
/// many there were.
fn emit_city_countries(id: &String, cs: &Vec<Json>, now: &WikiTime, sink: &mut Vec<DataEntry>) -> (r: usize)
    ensures
        entry_views(final(sink)@) == entry_views(old(sink)@) + city_country_entries(
            id@,
            cs@,
            *now,
            cs@.len() as int,
        ),
        r == city_country_entries(id@, cs@, *now, cs@.len() as int).len(),
{
    let ghost start = entry_views(sink@);
    let mut k: usize = 0;
    let mut i: usize = 0;
    while i < cs.len()
        invariant
            i <= cs@.len(),
            k <= i,
            k == city_country_entries(id@, cs@, *now, i as int).len(),
            entry_views(sink@) == start + city_country_entries(id@, cs@, *now, i as int),
        decreases cs@.len() - i,
    {
        let c = &cs[i];
        if claim_is_active(c, now) {
            if let Some(country) = value_id_in(c) {
                emit(sink, DataEntry::CityCountry { id: id.clone(), country: country.clone(), priority: k as u32 });
                k = k + 1;
            }
        }
        i = i + 1;
    }
    k
}

/// Appends the label records of `e`.
fn emit_labels(e: &Json, id: &String, sink: &mut Vec<DataEntry>)
    ensures
        entry_views(final(sink)@) == entry_views(old(sink)@) + labels(*e, id@),
{
    let ghost start = entry_views(sink@);
    if let Some(ms) = members_of(get(Some(e), "labels")) {
        let mut i: usize = 0;
        while i < ms.len()
            invariant
                i <= ms@.len(),
                entry_views(sink@) == start + label_entries(id@, ms@, i as int),
            decreases ms@.len() - i,
        {
            let v = Some(&ms[i].1);
            match (text_of(get(v, "language")), text_of(get(v, "value"))) {
                (Some(lang), Some(label)) => {
                    emit(sink, DataEntry::ObjectLabel {
                        id: id.clone(),
                        lang: lang.clone(),
                        label: label.clone(),
                        native_order: None,
                    });
                },
                _ => {},
            }
            i = i + 1;
        }
    } else {
        assert(entry_views(sink@) =~= start + Seq::<EntryView>::empty());
    }
}

/// Appends the native-name records for the claims `cs`; returns how many
/// there were.
fn emit_native_names(
    id: &String,
    cs: &Vec<Json>,
    now: &WikiTime,
    need_active: bool,
    sink: &mut Vec<DataEntry>,
) -> (r: usize)
    ensures
        entry_views(final(sink)@) == entry_views(old(sink)@) + native_entries(
            id@,
            cs@,
            *now,
            need_active,
            cs@.len() as int,
        ),
        r == native_entries(id@, cs@, *now, need_active, cs@.len() as int).len(),
{
    let ghost start = entry_views(sink@);
    let mut k: usize = 0;
    let mut i: usize = 0;
    while i < cs.len()
        invariant
            i <= cs@.len(),
            k <= i,
            k == native_entries(id@, cs@, *now, need_active, i as int).len(),
            entry_views(sink@) == start + native_entries(id@, cs@, *now, need_active, i as int),
        decreases cs@.len() - i,
    {
        let c = &cs[i];
        if !need_active || claim_is_active(c, now) {
            let v = datavalue_in(Some(c));
            match (text_of(get(v, "language")), text_of(get(v, "text"))) {
                (Some(lang), Some(label)) => {
                    emit(sink, DataEntry::ObjectLabel {
                        id: id.clone(),
                        lang: lang.clone(),
                        label: label.clone(),
                        native_order: Some(k as u64),
                    });
                    k = k + 1;
                },
                _ => {},
            }
        }
        i = i + 1;
    }
    k
}

/// Appends the native-name records of `e`.
fn emit_natives(e: &Json, id: &String, now: &WikiTime, sink: &mut Vec<DataEntry>)
    ensures
        entry_views(final(sink)@) == entry_views(old(sink)@) + natives(*e, id@, *now),
{
    let ghost start = entry_views(sink@);
    let n = match claims_in(e, "P1705") {
        Some(cs) => emit_native_names(id, cs, now, false, sink),
        None => 0,
    };
    if n == 0 {
        if let Some(cs) = claims_in(e, "P1448") {
            emit_native_names(id, cs, now, true, sink);
        }
    }
    assert(entry_views(sink@) =~= start + natives(*e, id@, *now));
}


/// The best population so far and its time, after the population claim `c`.
fn population_step_in(c: &Json, pop: Option<u64>, time: Option<WikiTime>) -> (r: (Option<u64>, Option<WikiTime>))
    ensures
        r == population_step((pop, time), *c),
{
    let q = get(Some(c), "qualifiers");
    let p585 = at(get(q, "P585"), 0);
    let dated = is_object_json(p585);
    if dated && !snak_has_value(p585) {
        return (pop, time);
    }
    let restricted = is_object_json(at(get(q, "P518"), 0)) || is_object_json(at(get(q, "P1539"), 0))
        || is_object_json(at(get(q, "P1540"), 0));
    let t = if dated && !restricted {
        read_snak_time(p585)
    } else {
        None
    };
    let nt = match t {
        Some(x) => x,
        None => return (pop, time),
    };
    let later = match time {
        None => true,
        Some(old) => old.is_before(&nt),
    };
    if !later {
        return (pop, time);
    }
    let v = datavalue_in(Some(c));
    match (text_of(get(v, "amount")), text_of(get(v, "unit"))) {
        (Some(a), Some(u)) => {
            if !str_eq(u.as_str(), "1") {
                return (pop, time);
            }
            match parse_quantity(a.as_str()) {
                Some(p) => (Some(p), Some(nt)),
                None => (pop, time),
            }
        },
        _ => (pop, time),
    }
}

/// The population of `e`: among its population claims (P1082), the amount
/// of the one with the latest point in time, the earlier on a tie.
pub fn read_population(e: &Json) -> (r: Option<u64>)
    ensures
        r == population(*e),
{
    match claims_in(e, "P1082") {
        None => None,
        Some(cs) => {
            let mut pop: Option<u64> = None;
            let mut time: Option<WikiTime> = None;
            let mut i: usize = 0;
            while i < cs.len()
                invariant
                    i <= cs@.len(),
                    (pop, time) == population_fold(cs@, i as int),
                decreases cs@.len() - i,
            {
                let (p, t) = population_step_in(&cs[i], pop, time);
                pop = p;
                time = t;
                i = i + 1;
            }
            pop
        },
    }
}

/// The latitude and longitude of `e`.
fn read_coordinates(e: &Json) -> (r: Option<(String, String)>)
    ensures
        match r {
            Some(p) => coordinates(*e) == Some((p.0@, p.1@)),
            None => coordinates(*e) is None,
        },
{
    let snak = get(at(get(get(Some(e), "claims"), "P625"), 0), "mainsnak");
    if !snak_has_value(snak) {
        return None;
    }
    let v = get(get(snak, "datavalue"), "value");
    match (number_of(get(v, "latitude")), number_of(get(v, "longitude"))) {
        (Some(a), Some(b)) => Some((a.clone(), b.clone())),
        _ => None,
    }
}

/// The index of the first claim of `cs` that is active at `now`.
fn find_first_active(cs: &Vec<Json>, now: &WikiTime) -> (r: Option<usize>)
    ensures
        match r {
            Some(k) => k < cs@.len() && first_active(cs@, *now, 0) == Some(cs@[k as int]),
            None => first_active(cs@, *now, 0) is None,
        },
{
    let mut i: usize = 0;
    while i < cs.len()
        invariant
            i <= cs@.len(),
            first_active(cs@, *now, 0) == first_active(cs@, *now, i as int),
        decreases cs@.len() - i,
    {
        if claim_is_active(&cs[i], now) {
            return Some(i);
        }
        i = i + 1;
    }
    None
}

/// Appends the records of the country code of `e`.
fn emit_country(e: &Json, id: &String, now: &WikiTime, sink: &mut Vec<DataEntry>)
    ensures
        entry_views(final(sink)@) == entry_views(old(sink)@) + country_part(*e, id@, *now),
{
    let ghost start = entry_views(sink@);
    reveal(country_part);
    match claims_in(e, "P297") {
        None => {
            assert(entry_views(sink@) =~= start + Seq::<EntryView>::empty());
        },
        Some(cs) => {
            let iso = match find_first_active(cs, now) {
                Some(k) => text_of(datavalue_in(Some(&cs[k]))),
                None => None,
            };
            if let Some(x) = iso {
                emit(sink, DataEntry::Country { id: id.clone(), iso: ascii_lowercase(x.as_str()) });
            }
            let ghost mid = entry_views(sink@);
            match claims_in(e, "P37") {
                Some(langs) => emit_languages(id, langs, now, false, sink),
                None => {
                    assert(entry_views(sink@) =~= mid + Seq::<EntryView>::empty());
                },
            }
            assert(entry_views(sink@) =~= start + country_part(*e, id@, *now));
        },
    }
}

/// Appends the records of `e` as a territorial entity.
fn emit_territorial(e: &Json, id: &String, is_2nd: bool, now: &WikiTime, sink: &mut Vec<DataEntry>)
    ensures
        entry_views(final(sink)@) == entry_views(old(sink)@) + territorial_part(*e, id@, is_2nd, *now),
{
    let ghost start = entry_views(sink@);
    reveal(territorial_part);
    emit(sink, DataEntry::TerritorialEntity { id: id.clone(), is_2nd, iso: None });
    emit_parents(e, id, now, sink);
    let ghost mid = entry_views(sink@);
    let p37 = claims_in(e, "P37");
    let langs = match p37 {
        Some(v) => if v.len() > 0 {
            p37
        } else {
            claims_in(e, "P2936")
        },
        None => claims_in(e, "P2936"),
    };
    match langs {
        Some(ls) => emit_languages(id, ls, now, true, sink),
        None => {
            assert(entry_views(sink@) =~= mid + Seq::<EntryView>::empty());
        },
    }
    emit_labels(e, id, sink);
    assert(entry_views(sink@) =~= start + territorial_part(*e, id@, is_2nd, *now));
}

/// Appends the records of `e` as a human settlement.
fn emit_settlement(e: &Json, id: &String, now: &WikiTime, sink: &mut Vec<DataEntry>)
    ensures
        entry_views(final(sink)@) == entry_views(old(sink)@) + settlement_part(*e, id@, *now),
{
    let ghost start = entry_views(sink@);
    reveal(settlement_part);
    match claims_in(e, "P17") {
        None => {
            emit(sink, DataEntry::MissingP17 { id: id.clone() });
            assert(entry_views(sink@) =~= start + settlement_part(*e, id@, *now));
        },
        Some(cs) => {
            emit_parents(e, id, now, sink);
            let n = emit_city_countries(id, cs, now, sink);
            let ghost mid = entry_views(sink@);
            if n > 0 {
                let population = read_population(e);
                let (lat, lon) = match read_coordinates(e) {
                    Some(p) => (Some(p.0), Some(p.1)),
                    None => (None, None),
                };
                emit(sink, DataEntry::City { id: id.clone(), population, lat, lon });
            } else {
                assert(entry_views(sink@) =~= mid + Seq::<EntryView>::empty());
            }
            emit_labels(e, id, sink);
            emit_natives(e, id, now, sink);
            assert(entry_views(sink@) =~= start + settlement_part(*e, id@, *now));
        },
    }
}

/// Appends the record of `e` as a language.
fn emit_language(e: &Json, id: &String, sink: &mut Vec<DataEntry>)
    ensures
        entry_views(final(sink)@) == entry_views(old(sink)@) + language_part(*e, id@),
{
    let ghost start = entry_views(sink@);
    reveal(language_part);
    let first = at(get(get(Some(e), "claims"), "P424"), 0);
    match text_of(datavalue_in(first)) {
        Some(code) => {
            emit(sink, DataEntry::Language { id: id.clone(), code: code.clone() });
            assert(entry_views(sink@) =~= start + language_part(*e, id@));
        },
        None => {
            assert(entry_views(sink@) =~= start + language_part(*e, id@));
        },
    }
}

/// Whether `e` is an instance of a class in `set`.
fn is_instance_of(e: &Json, set: &std::collections::HashSet<u64>) -> (r: bool)
    ensures
        r == instance_of(*e, set@),
{
    match claims_in(e, "P31") {
        None => false,
        Some(cs) => {
            let mut i: usize = 0;
            while i < cs.len()
                invariant
                    i <= cs@.len(),
                    claim_list(*e, "P31"@) == cs@,
                    forall|j: int|
                        0 <= j < i ==> !(#[trigger] value_id(cs@[j]) matches Some(s) && names_class_in(
                            set@,
                            s,
                        )),
                decreases cs@.len() - i,
            {
                if let Some(class) = value_id_in(&cs[i]) {
                    if in_class(set, class.as_str()) {
                        return true;
                    }
                }
                i = i + 1;
            }
            false
        },
    }
}

/// Whether the claims of `e` for `p` form a non-empty array.
fn has_claims(e: &Json, p: &str) -> (r: bool)
    ensures
        r == (claims_of(*e, p@) matches Some(a) && a.len() > 0),
{
    match claims_in(e, p) {
        Some(a) => a.len() > 0,
        None => false,
    }
}

/// Appends the records of the entity `e`, whose id is `id`, given the
/// classification table `classes` and the time `now`. An entity that was
/// replaced or dissolved gives no records.
pub fn handle_entity(e: &Json, id: &String, classes: &Classes, now: &WikiTime, sink: &mut Vec<DataEntry>)
    ensures
        entry_views(final(sink)@) == entry_views(old(sink)@) + project(*e, id@, *classes, *now),
        discarded(*e) ==> final(sink)@ == old(sink)@,
{
    let ghost start = entry_views(sink@);
    reveal(project);
    if has_claims(e, "P1366") || has_claims(e, "P576") {
        assert(entry_views(sink@) =~= start + project(*e, id@, *classes, *now));
        return;
    }
    emit_country(e, id, now, sink);
    let is_territorial = is_instance_of(e, &classes.territorial_entities);
    let is_settlement = is_instance_of(e, &classes.human_settlements);
    let is_excluded = is_instance_of(e, &classes.excluded);
    let is_language = is_instance_of(e, &classes.languages);
    let ghost s1 = entry_views(sink@);
    if is_territorial && !is_excluded {
        let is_2nd = is_instance_of(e, &classes.second_level_admin_div);
        emit_territorial(e, id, is_2nd, now, sink);
    } else {
        assert(entry_views(sink@) =~= s1 + Seq::<EntryView>::empty());
    }
    let ghost s2 = entry_views(sink@);
    if is_settlement && !is_excluded {
        emit_settlement(e, id, now, sink);
    } else {
        assert(entry_views(sink@) =~= s2 + Seq::<EntryView>::empty());
    }
    let ghost s3 = entry_views(sink@);
    if is_language {
        emit_language(e, id, sink);
    } else {
        assert(entry_views(sink@) =~= s3 + Seq::<EntryView>::empty());
    }
    assert(entry_views(sink@) =~= start + project(*e, id@, *classes, *now));
}

/// Appends the records of one line of the dump. Blank lines and the lines
/// of the enclosing array's brackets (a byte or less) give none; a trailing
/// comma is not part of the entity.
pub fn handle_line(
    line: &str,
    classes: &Classes,
    now: &WikiTime,
    sink: &mut Vec<DataEntry>,
) -> (r: Result<(), HandleLineError>)
    ensures
        line.spec_bytes().len() <= 1 ==> r is Ok && final(sink)@ == old(sink)@,
        line.spec_bytes().len() > 1 ==> match json_of(line_body(line@)) {
            None => r matches Err(HandleLineError::Json(_)) && final(sink)@ == old(sink)@,
            Some(e) => match text(field(Some(e), "id"@)) {
                None => r matches Err(HandleLineError::MissingId) && final(sink)@ == old(sink)@,
                Some(id) => r is Ok && entry_views(final(sink)@) == entry_views(old(sink)@)
                    + project(e, id, *classes, *now),
            },
        },
{
    if line.as_bytes().len() <= 1 {
        return Ok(());
    }
    let n = line.unicode_len();
    let body = if n > 0 && line.get_char(n - 1) == ',' {
        line.substring_char(0, n - 1)
    } else {
        line
    };
    assert(body@ == line_body(line@));
    let obj = match parse_json(body) {
        Ok(j) => j,
        Err(err) => return Err(HandleLineError::Json(err)),
    };
    let id = match text_of(get(Some(&obj), "id")) {
        Some(s) => s,
        None => return Err(HandleLineError::MissingId),
    };
    handle_entity(&obj, id, classes, now, sink);
    Ok(())
}


/// Native-label precedence: where the native labels (P1705) are one claim
/// with a language and a text, the native-name records are exactly that
/// one, numbered 0, whatever the official names (P1448) hold.
pub proof fn native_label_precedence(e: Json, id: Seq<char>, now: WikiTime, lang: Seq<char>, label: Seq<char>)
    requires
        claim_list(e, "P1705"@).len() == 1,
        text(field(datavalue(claim_list(e, "P1705"@)[0]), "language"@)) == Some(lang),
        text(field(datavalue(claim_list(e, "P1705"@)[0]), "text"@)) == Some(label),
    ensures
        natives(e, id, now) == seq![
            EntryView::ObjectLabel { id, lang, label, native_order: Some(0) },
        ],
{
    let a = claim_list(e, "P1705"@);
    assert(native_entries(id, a, now, false, 0) == Seq::<EntryView>::empty());
    assert(native_entries(id, a, now, false, 1) =~= seq![
        EntryView::ObjectLabel { id, lang, label, native_order: Some(0) },
    ]);
}

/// A human settlement with no country claim (P17), and no other role, gives
/// exactly one record: the note that its country is missing. No city,
/// country, parent or label record comes out.
pub proof fn missing_country_gives_one_record(e: Json, id: Seq<char>, cls: Classes, now: WikiTime)
    requires
        !discarded(e),
        instance_of(e, cls.human_settlements@),
        !instance_of(e, cls.excluded@),
        !instance_of(e, cls.territorial_entities@),
        !instance_of(e, cls.languages@),
        claims_of(e, "P297"@) is None,
        claims_of(e, "P17"@) is None,
    ensures
        project(e, id, cls, now) == seq![EntryView::MissingP17 { id }],
{
    reveal(project);
    reveal(country_part);
    reveal(settlement_part);
    assert(project(e, id, cls, now) =~= seq![EntryView::MissingP17 { id }]);
}

/// An entity that was replaced (P1366) or dissolved (P576) gives no records
/// at all, whatever its classes and other claims.
pub proof fn discarded_entity_gives_nothing(e: Json, id: Seq<char>, cls: Classes, now: WikiTime)
    requires
        discarded(e),
    ensures
        project(e, id, cls, now) == Seq::<EntryView>::empty(),
{
    reveal(project);
}

/// For a fixed classification table, time and line, the records that
/// `handle_line` appends are fixed: two runs give the same multiset.
pub proof fn projection_deterministic(
    line: Seq<char>,
    cls: Classes,
    now: WikiTime,
    out1: Seq<EntryView>,
    out2: Seq<EntryView>,
)
    requires
        json_of(line_body(line)) matches Some(e) && text(field(Some(e), "id"@)) matches Some(id)
            && out1 == project(e, id, cls, now) && out2 == project(e, id, cls, now),
    ensures
        out1.to_multiset() == out2.to_multiset(),
{
}

} // verus!
