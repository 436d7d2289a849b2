//! The records that the projector emits, and the writer's batching of them
//! into transactions.

use vstd::prelude::*;

verus! {

/// One output record. Every record carries the id of the entity it came
/// from (for `Language`, the language entity's id). Coordinates keep the
/// number text of the entity's JSON.
#[derive(Debug, Clone, PartialEq)]
pub enum DataEntry {
    TerritorialEntity { id: String, is_2nd: bool, iso: Option<String> },
    TerritorialEntityParent { id: String, parent: String },
    ObjectLanguage { id: String, lang_id: String, index: u32 },
    Language { id: String, code: String },
    City { id: String, population: Option<u64>, lat: Option<String>, lon: Option<String> },
    CityCountry { id: String, country: String, priority: u32 },
    ObjectLabel { id: String, lang: String, label: String, native_order: Option<u64> },
    Country { id: String, iso: String },
    MissingP17 { id: String },
}

/// A record with its texts as character sequences.
pub enum EntryView {
    TerritorialEntity { id: Seq<char>, is_2nd: bool, iso: Option<Seq<char>> },
    TerritorialEntityParent { id: Seq<char>, parent: Seq<char> },
    ObjectLanguage { id: Seq<char>, lang_id: Seq<char>, index: u32 },
    Language { id: Seq<char>, code: Seq<char> },
    City {
        id: Seq<char>,
        population: Option<u64>,
        lat: Option<Seq<char>>,
        lon: Option<Seq<char>>,
    },
    CityCountry { id: Seq<char>, country: Seq<char>, priority: u32 },
    ObjectLabel { id: Seq<char>, lang: Seq<char>, label: Seq<char>, native_order: Option<u64> },
    Country { id: Seq<char>, iso: Seq<char> },
    MissingP17 { id: Seq<char> },
}

pub open spec fn opt_view(s: Option<String>) -> Option<Seq<char>> {
    match s {
        Some(x) => Some(x@),
        None => None,
    }
}

impl View for DataEntry {
    type V = EntryView;

    open spec fn view(&self) -> EntryView {
        match self {
            DataEntry::TerritorialEntity { id, is_2nd, iso } => EntryView::TerritorialEntity {
                id: id@,
                is_2nd: *is_2nd,
                iso: opt_view(*iso),
            },
            DataEntry::TerritorialEntityParent { id, parent } => EntryView::TerritorialEntityParent {
                id: id@,
                parent: parent@,
            },
            DataEntry::ObjectLanguage { id, lang_id, index } => EntryView::ObjectLanguage {
                id: id@,
                lang_id: lang_id@,
                index: *index,
            },
            DataEntry::Language { id, code } => EntryView::Language { id: id@, code: code@ },
            DataEntry::City { id, population, lat, lon } => EntryView::City {
                id: id@,
                population: *population,
                lat: opt_view(*lat),
                lon: opt_view(*lon),
            },
            DataEntry::CityCountry { id, country, priority } => EntryView::CityCountry {
                id: id@,
                country: country@,
                priority: *priority,
            },
            DataEntry::ObjectLabel { id, lang, label, native_order } => EntryView::ObjectLabel {
                id: id@,
                lang: lang@,
                label: label@,
                native_order: *native_order,
            },
            DataEntry::Country { id, iso } => EntryView::Country { id: id@, iso: iso@ },
            DataEntry::MissingP17 { id } => EntryView::MissingP17 { id: id@ },
        }
    }
}

/// The views of the records `s`.
pub open spec fn entry_views(s: Seq<DataEntry>) -> Seq<EntryView> {
    s.map_values(|e: DataEntry| e@)
}

/// How the store takes a record in.
#[derive(Debug, Clone, Copy, PartialEq, Eq, Structural)]
pub enum InsertPolicy {
    /// A record whose natural key is already stored is ignored.
    IgnoreConflicts,
    /// A plain insert; the store's uniqueness constraints decide.
    Plain,
}

/// Parent links, object languages and city countries are inserted or
/// ignored on their natural key; all other records are plain inserts.
pub open spec fn insert_policy_of(e: EntryView) -> InsertPolicy {
    match e {
        EntryView::TerritorialEntityParent { .. } | EntryView::ObjectLanguage { .. }
        | EntryView::CityCountry { .. } => InsertPolicy::IgnoreConflicts,
        _ => InsertPolicy::Plain,
    }
}

pub fn insert_policy(e: &DataEntry) -> (r: InsertPolicy)
    ensures
        r == insert_policy_of(e@),
{
    match e {
        DataEntry::TerritorialEntityParent { .. } | DataEntry::ObjectLanguage { .. }
        | DataEntry::CityCountry { .. } => InsertPolicy::IgnoreConflicts,
        _ => InsertPolicy::Plain,
    }
}

/// A full buffer holds this many records and is written as one transaction.
pub const BATCH_SIZE: usize = 127;

/// The buffer after `item` arrives at `buf`, and the batch to write, if the
/// buffer filled up.
pub open spec fn push_spec(buf: Seq<DataEntry>, item: DataEntry) -> (Seq<DataEntry>, Option<Seq<DataEntry>>) {
    let b = buf.push(item);
    if b.len() >= BATCH_SIZE {
        (Seq::empty(), Some(b))
    } else {
        (b, None)
    }
}

/// The buffer and the batches written after the records `s` arrive, one by
/// one, at an empty buffer.
pub open spec fn feed(s: Seq<DataEntry>) -> (Seq<DataEntry>, Seq<Seq<DataEntry>>)
    decreases s.len(),
{
    if s.len() == 0 {
        (Seq::empty(), Seq::empty())
    } else {
        let (buf, batches) = feed(s.drop_last());
        let (b, out) = push_spec(buf, s.last());
        match out {
            Some(full) => (b, batches.push(full)),
            None => (b, batches),
        }
    }
}

/// The transactions that the writer issues for the records `s`: the full
/// batches, then what is left in the buffer when the feed closes.
pub open spec fn transactions(s: Seq<DataEntry>) -> Seq<Seq<DataEntry>> {
    let (buf, batches) = feed(s);
    if buf.len() > 0 {
        batches.push(buf)
    } else {
        batches
    }
}

/// The writer's buffer of records not yet written. It keeps, as ghost
/// state, every record it was fed and every batch it handed out.
pub struct WriteBuffer {
    items: Vec<DataEntry>,
    fed: Ghost<Seq<DataEntry>>,
    written: Ghost<Seq<Seq<DataEntry>>>,
}

impl View for WriteBuffer {
    type V = Seq<DataEntry>;

    closed spec fn view(&self) -> Seq<DataEntry> {
        self.items@
    }
}

impl WriteBuffer {
    /// The records fed in so far, in order of arrival.
    pub closed spec fn fed(&self) -> Seq<DataEntry> {
        self.fed@
    }

    /// The batches handed out so far, in order.
    pub closed spec fn written(&self) -> Seq<Seq<DataEntry>> {
        self.written@
    }

    pub closed spec fn wf(&self) -> bool {
        &&& self.items@.len() < BATCH_SIZE
        &&& feed(self.fed@) == (self.items@, self.written@)
    }

    pub fn new() -> (r: WriteBuffer)
        ensures
            r@ == Seq::<DataEntry>::empty(),
            r.fed() == Seq::<DataEntry>::empty(),
            r.written() == Seq::<Seq<DataEntry>>::empty(),
            r.wf(),
    {
        let r = WriteBuffer { items: Vec::new(), fed: Ghost(Seq::empty()), written: Ghost(Seq::empty()) };
        assert(r.items@ =~= Seq::<DataEntry>::empty());
        r
    }

    /// Takes `item` in; hands back the batch to write once the buffer is full.
    pub fn push(&mut self, item: DataEntry) -> (r: Option<Vec<DataEntry>>)
        requires
            old(self).wf(),
        ensures
            final(self).wf(),
            (final(self)@, match r {
                Some(v) => Some(v@),
                None => None,
            }) == push_spec(old(self)@, item),
            final(self).fed() == old(self).fed().push(item),
            final(self).written() == match r {
                Some(v) => old(self).written().push(v@),
                None => old(self).written(),
            },
    {
        let ghost fed0 = self.fed@;
        assert(fed0.push(item).drop_last() =~= fed0);
        self.fed = Ghost(fed0.push(item));
        self.items.push(item);
        if self.items.len() >= BATCH_SIZE {
            let mut full: Vec<DataEntry> = Vec::new();
            std::mem::swap(&mut full, &mut self.items);
            self.written = Ghost(self.written@.push(full@));
            assert(self.items@ =~= Seq::<DataEntry>::empty());
            Some(full)
        } else {
            None
        }
    }

    /// What is left to write when the feed closes. With it, the batches
    /// handed out are exactly the transactions of the records fed.
    pub fn finish(self) -> (r: Option<Vec<DataEntry>>)
        requires
            self.wf(),
        ensures
            match r {
                Some(v) => self@.len() > 0 && v@ == self@ && self.written().push(v@) == transactions(
                    self.fed(),
                ),
                None => self@.len() == 0 && self.written() == transactions(self.fed()),
            },
    {
        if self.items.len() > 0 {
            Some(self.items)
        } else {
            None
        }
    }
}

proof fn lemma_feed(s: Seq<DataEntry>)
    ensures
        feed(s).0.len() == (s.len() as int) % 127,
        feed(s).1.len() == (s.len() as int) / 127,
        feed(s).1.flatten() + feed(s).0 == s,
        forall|i: int| 0 <= i < feed(s).1.len() ==> (#[trigger] feed(s).1[i]).len() == BATCH_SIZE,
    decreases s.len(),
{
    broadcast use Seq::lemma_flatten_push;

    if s.len() > 0 {
        let p = s.drop_last();
        lemma_feed(p);
        let (buf, batches) = feed(p);
        assert(s =~= p.push(s.last()));
        assert(batches.flatten() + buf.push(s.last()) =~= s);
        let n = p.len() as int;
        vstd::arithmetic::div_mod::lemma_fundamental_div_mod(n as int, 127);
        vstd::arithmetic::div_mod::lemma_fundamental_div_mod(n + 1, 127);
        if buf.len() + 1 >= 127 {
            assert((n + 1) % 127 == 0 && (n + 1) / 127 == n / 127 + 1) by {
                vstd::arithmetic::div_mod::lemma_fundamental_div_mod_converse(
                    n + 1,
                    127,
                    n / 127 + 1,
                    0,
                );
            }
            assert(batches.push(buf.push(s.last())).flatten() =~= batches.flatten() + buf.push(s.last()));
            assert(batches.push(buf.push(s.last())).flatten() + Seq::<DataEntry>::empty() =~= s);
        } else {
            assert((n + 1) % 127 == n % 127 + 1 && (n + 1) / 127 == n / 127) by {
                vstd::arithmetic::div_mod::lemma_fundamental_div_mod_converse(
                    n + 1,
                    127,
                    n / 127,
                    n % 127 + 1,
                );
            }
        }
    }
}

/// The writer issues one transaction per 127 records, rounded up; the
/// transactions, taken in order, hold the records in their order of
/// arrival, and none holds more than 127.
pub proof fn writer_batching(s: Seq<DataEntry>)
    ensures
        transactions(s).len() == (s.len() + 126) / 127,
        transactions(s).flatten() == s,
        forall|i: int| 0 <= i < transactions(s).len() ==> 0 < (#[trigger] transactions(s)[i]).len() <= 127,
{
    broadcast use Seq::lemma_flatten_push;

    lemma_feed(s);
    let (buf, batches) = feed(s);
    let k = s.len() as int;
    vstd::arithmetic::div_mod::lemma_fundamental_div_mod(k, 127);
    if buf.len() > 0 {
        vstd::arithmetic::div_mod::lemma_fundamental_div_mod_converse(
            k + 126,
            127,
            k / 127 + 1,
            k % 127 - 1,
        );
        assert(batches.push(buf).flatten() =~= batches.flatten() + buf);
    } else {
        vstd::arithmetic::div_mod::lemma_fundamental_div_mod_converse(k + 126, 127, k / 127, 126);
        assert(batches.flatten() + buf =~= batches.flatten());
    }
}


proof fn lemma_feed_exact(s: Seq<DataEntry>)
    ensures
        feed(s).0 == s.subrange(((s.len() as int) / 127) * 127, s.len() as int),
        forall|j: int|
            0 <= j < feed(s).1.len() ==> #[trigger] feed(s).1[j] == s.subrange(127 * j, 127 * j + 127),
    decreases s.len(),
{
    lemma_feed(s);
    if s.len() > 0 {
        let p = s.drop_last();
        let n = p.len() as int;
        lemma_feed_exact(p);
        lemma_feed(p);
        let (buf, batches) = feed(p);
        let q = n / 127;
        vstd::arithmetic::div_mod::lemma_fundamental_div_mod(n, 127);
        assert(0 <= q * 127 <= n) by (nonlinear_arith)
            requires
                q == n / 127,
                n >= 0,
                n == 127 * q + n % 127,
                0 <= n % 127 < 127,
        ;
        assert(buf.push(s.last()) =~= s.subrange(q * 127, n + 1));
        assert forall|j: int| 0 <= j < batches.len() implies #[trigger] batches[j] == s.subrange(
            127 * j,
            127 * j + 127,
        ) by {
            assert(127 * j + 127 <= q * 127) by (nonlinear_arith)
                requires
                    j < q,
            ;
            assert(batches[j] == p.subrange(127 * j, 127 * j + 127));
            assert(p.subrange(127 * j, 127 * j + 127) =~= s.subrange(127 * j, 127 * j + 127));
        }
        if buf.len() + 1 >= 127 {
            vstd::arithmetic::div_mod::lemma_fundamental_div_mod_converse(n + 1, 127, q + 1, 0);
            assert(Seq::<DataEntry>::empty() =~= s.subrange((q + 1) * 127, n + 1));
            assert(feed(s).1 == batches.push(buf.push(s.last())));
            assert forall|j: int| 0 <= j < feed(s).1.len() implies #[trigger] feed(s).1[j] == s.subrange(
                127 * j,
                127 * j + 127,
            ) by {
                if j < batches.len() {
                    assert(feed(s).1[j] == batches[j]);
                } else {
                    assert(j == q);
                }
            }
        } else {
            vstd::arithmetic::div_mod::lemma_fundamental_div_mod_converse(n + 1, 127, q, n % 127 + 1);
        }
    }
}

/// Transaction `j` of the writer holds exactly the records `127 * j` up to
/// `127 * (j + 1)` (or the last record) in their order of arrival.
pub proof fn writer_transaction_bounds(s: Seq<DataEntry>, j: int)
    requires
        0 <= j < transactions(s).len(),
    ensures
        transactions(s)[j] == s.subrange(
            127 * j,
            if 127 * j + 127 <= s.len() { 127 * j + 127 } else { s.len() as int },
        ),
{
    lemma_feed_exact(s);
    lemma_feed(s);
    let (buf, batches) = feed(s);
    let k = s.len() as int;
    vstd::arithmetic::div_mod::lemma_fundamental_div_mod(k, 127);
    if j < batches.len() {
        assert(127 * j + 127 <= k) by (nonlinear_arith)
            requires
                j < k / 127,
                k == 127 * (k / 127) + k % 127,
                0 <= k % 127,
        ;
        assert(transactions(s)[j] == batches[j]);
    } else {
        assert(buf.len() > 0 && j == k / 127);
        assert(transactions(s)[j] == buf);
        assert(127 * j + 127 > k) by (nonlinear_arith)
            requires
                j == k / 127,
                k == 127 * (k / 127) + k % 127,
                k % 127 < 127,
        ;
        assert(127 * j == (k / 127) * 127) by (nonlinear_arith)
            requires
                j == k / 127,
        ;
    }
}

} // verus!
