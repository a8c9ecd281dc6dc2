//! Totals per product over many receipts.
//!
//! Records come one at a time. A record goes to the entry whose key scores
//! highest against its name, if that score is above the threshold; among keys
//! with the same highest score the one that was entered first wins. Otherwise
//! it goes to the entry with exactly its name, and where there is none it opens
//! an entry of its own. Keys are never renamed, so the first spelling of a
//! product stays its key, and the outcome depends on the order of the records.
//!
//! Entries are kept in the order in which they were opened; that order is the
//! one in which keys are compared.

use crate::product::{products_view, Product, ProductView};
use crate::similarity::{effective, effective_score, score, similarity, THRESHOLD};
use crate::text::same_text;
use vstd::prelude::*;

verus! {

/// A product's key and the sum of the prices of the records assigned to it, in
/// hundredths.
#[derive(Debug, PartialEq, Eq)]
pub struct AggregateEntry {
    pub canonical_name: String,
    pub total: u128,
}

/// What an entry holds.
pub struct EntryView {
    pub name: Seq<char>,
    pub total: nat,
}

impl View for AggregateEntry {
    type V = EntryView;

    open spec fn view(&self) -> EntryView {
        EntryView { name: self.canonical_name@, total: self.total as nat }
    }
}

/// What a list of entries holds.
pub open spec fn entries_view(entries: Seq<AggregateEntry>) -> Seq<EntryView> {
    entries.map_values(|e: AggregateEntry| e@)
}

/// What the key of entry `k` counts for against `name`.
pub open spec fn key_score(entries: Seq<EntryView>, name: Seq<char>, k: int) -> int {
    effective(similarity(entries[k].name, name))
}

/// Among the first `n` entries, the one that `name` matches best: the first of
/// those with the highest score above the threshold.
pub open spec fn best_among(entries: Seq<EntryView>, name: Seq<char>, n: int) -> Option<int>
    decreases n,
{
    if n <= 0 {
        None
    } else {
        match best_among(entries, name, n - 1) {
            Some(b) => if key_score(entries, name, n - 1) > key_score(entries, name, b) {
                Some(n - 1)
            } else {
                Some(b)
            },
            None => if key_score(entries, name, n - 1) > THRESHOLD {
                Some(n - 1)
            } else {
                None
            },
        }
    }
}

/// The entry that `name` matches best, if it matches any.
pub open spec fn best_match(entries: Seq<EntryView>, name: Seq<char>) -> Option<int> {
    best_among(entries, name, entries.len() as int)
}

/// The first entry from place `from` on whose key is `name`.
pub open spec fn key_index(entries: Seq<EntryView>, name: Seq<char>, from: int) -> Option<int>
    decreases entries.len() - from,
{
    if from < 0 || from >= entries.len() {
        None
    } else if entries[from].name == name {
        Some(from)
    } else {
        key_index(entries, name, from + 1)
    }
}

/// The entry that a record named `name` is assigned to, if there is one: the
/// best match, and failing that the entry with this very key.
pub open spec fn target(entries: Seq<EntryView>, name: Seq<char>) -> Option<int> {
    match best_match(entries, name) {
        Some(k) => Some(k),
        None => key_index(entries, name, 0),
    }
}

/// The entries after a record of `cents` hundredths named `name` has been
/// absorbed: its price is added to the entry it is assigned to, or it opens a
/// new entry at the end.
pub open spec fn absorb_result(entries: Seq<EntryView>, name: Seq<char>, cents: nat) -> Seq<
    EntryView,
> {
    match target(entries, name) {
        Some(k) => entries.update(
            k,
            EntryView { name: entries[k].name, total: entries[k].total + cents },
        ),
        None => entries.push(EntryView { name, total: cents }),
    }
}

/// The entries after the records have been absorbed in their order, starting
/// from none.
pub open spec fn aggregated(records: Seq<ProductView>) -> Seq<EntryView>
    decreases records.len(),
{
    if records.len() == 0 {
        Seq::empty()
    } else {
        absorb_result(
            aggregated(records.drop_last()),
            records.last().name,
            records.last().price.cents as nat,
        )
    }
}

/// The sum of the entries' totals.
pub open spec fn sum_of_totals(entries: Seq<EntryView>) -> nat
    decreases entries.len(),
{
    if entries.len() == 0 {
        0
    } else {
        sum_of_totals(entries.drop_last()) + entries.last().total
    }
}

/// The sum of the records' prices.
pub open spec fn sum_of_prices(records: Seq<ProductView>) -> nat
    decreases records.len(),
{
    if records.len() == 0 {
        0
    } else {
        sum_of_prices(records.drop_last()) + records.last().price.cents as nat
    }
}

/// No two entries have the same key.
pub open spec fn distinct_keys(entries: Seq<EntryView>) -> bool {
    forall|i: int, j: int|
        0 <= i < entries.len() && 0 <= j < entries.len() && i != j ==> (#[trigger] entries[i]).name
            != (#[trigger] entries[j]).name
}

/// The best match among the first `n` entries is one of them, scores above the
/// threshold, is not outscored by any of them and outscores all before it;
/// there is none only where none of them scores above the threshold.
pub proof fn lemma_best_among(entries: Seq<EntryView>, name: Seq<char>, n: int)
    requires
        0 <= n <= entries.len(),
    ensures
        match best_among(entries, name, n) {
            Some(b) => {
                &&& 0 <= b < n
                &&& key_score(entries, name, b) > THRESHOLD
                &&& forall|j: int|
                    0 <= j < n ==> #[trigger] key_score(entries, name, j) <= key_score(
                        entries,
                        name,
                        b,
                    )
                &&& forall|j: int|
                    0 <= j < b ==> #[trigger] key_score(entries, name, j) < key_score(
                        entries,
                        name,
                        b,
                    )
            },
            None => forall|j: int| 0 <= j < n ==> #[trigger] key_score(entries, name, j) <= THRESHOLD,
        },
    decreases n,
{
    if n > 0 {
        lemma_best_among(entries, name, n - 1);
    }
}

/// The highest score wins, and among equals the first: the best match is the
/// one entry that scores above the threshold, is outscored by none and
/// outscores all before it.
pub proof fn lemma_best_match_is_highest_and_first(
    entries: Seq<EntryView>,
    name: Seq<char>,
    k: int,
)
    requires
        0 <= k < entries.len(),
        key_score(entries, name, k) > THRESHOLD,
        forall|j: int|
            0 <= j < entries.len() ==> #[trigger] key_score(entries, name, j) <= key_score(
                entries,
                name,
                k,
            ),
        forall|j: int| 0 <= j < k ==> #[trigger] key_score(entries, name, j) < key_score(
            entries,
            name,
            k,
        ),
    ensures
        best_match(entries, name) == Some(k),
{
    lemma_best_among(entries, name, entries.len() as int);
    assert(best_match(entries, name) is Some);
}

/// Where a key is found, it is the key asked for and stands at or after the
/// place the search began; where none is found, no entry from there on has it.
pub proof fn lemma_key_index(entries: Seq<EntryView>, name: Seq<char>, from: int)
    requires
        0 <= from,
    ensures
        match key_index(entries, name, from) {
            Some(k) => from <= k < entries.len() && entries[k].name == name,
            None => forall|j: int| from <= j < entries.len() ==> (#[trigger] entries[j]).name != name,
        },
    decreases entries.len() - from,
{
    if from < entries.len() && entries[from].name != name {
        lemma_key_index(entries, name, from + 1);
    }
}

/// Where a record is assigned to an entry, the entry exists.
pub proof fn lemma_target_in_range(entries: Seq<EntryView>, name: Seq<char>)
    ensures
        target(entries, name) matches Some(k) ==> 0 <= k < entries.len(),
        target(entries, name) is None ==> forall|j: int|
            0 <= j < entries.len() ==> (#[trigger] entries[j]).name != name,
{
    lemma_best_among(entries, name, entries.len() as int);
    lemma_key_index(entries, name, 0);
}

/// Changing one entry's total changes the sum by the same amount.
pub proof fn lemma_sum_after_update(entries: Seq<EntryView>, k: int, e: EntryView)
    requires
        0 <= k < entries.len(),
    ensures
        sum_of_totals(entries.update(k, e)) + entries[k].total == sum_of_totals(entries) + e.total,
        entries[k].total <= sum_of_totals(entries),
    decreases entries.len(),
{
    let changed = entries.update(k, e);
    if k == entries.len() - 1 {
        assert(changed.drop_last() =~= entries.drop_last());
    } else {
        lemma_sum_after_update(entries.drop_last(), k, e);
        assert(changed.drop_last() =~= entries.drop_last().update(k, e));
    }
}

/// Nothing is counted twice and nothing is dropped: absorbing a record adds
/// exactly its price to the sum of all totals, and keeps the keys distinct.
pub proof fn lemma_absorb_adds_price(entries: Seq<EntryView>, name: Seq<char>, cents: nat)
    requires
        distinct_keys(entries),
    ensures
        sum_of_totals(absorb_result(entries, name, cents)) == sum_of_totals(entries) + cents,
        distinct_keys(absorb_result(entries, name, cents)),
        entries.len() <= absorb_result(entries, name, cents).len() <= entries.len() + 1,
{
    lemma_target_in_range(entries, name);
    let after = absorb_result(entries, name, cents);
    match target(entries, name) {
        Some(k) => {
            lemma_sum_after_update(
                entries,
                k,
                EntryView { name: entries[k].name, total: entries[k].total + cents },
            );
        },
        None => {
            assert(after.drop_last() =~= entries);
        },
    }
}

/// Every total is the sum of what was assigned to it: over any run of records,
/// the totals add up to the prices, and no key occurs twice.
pub proof fn lemma_aggregate_conserves(records: Seq<ProductView>)
    ensures
        sum_of_totals(aggregated(records)) == sum_of_prices(records),
        distinct_keys(aggregated(records)),
        aggregated(records).len() <= records.len(),
    decreases records.len(),
{
    if records.len() > 0 {
        lemma_aggregate_conserves(records.drop_last());
        lemma_absorb_adds_price(
            aggregated(records.drop_last()),
            records.last().name,
            records.last().price.cents as nat,
        );
    }
}

/// The place of the entry that record `i` of `records` is assigned to when the
/// records are absorbed in their order.
pub open spec fn assignment(records: Seq<ProductView>, i: int) -> int {
    let entries = aggregated(records.take(i));
    match target(entries, records[i].name) {
        Some(k) => k,
        None => entries.len() as int,
    }
}

/// The sum of the prices of those among the first `n` records that are assigned
/// to entry `k`.
pub open spec fn assigned_sum(records: Seq<ProductView>, k: int, n: int) -> nat
    decreases n,
{
    if n <= 0 {
        0
    } else if assignment(records, n - 1) == k {
        assigned_sum(records, k, n - 1) + records[n - 1].price.cents as nat
    } else {
        assigned_sum(records, k, n - 1)
    }
}

/// Every record is assigned to one entry that exists once it is absorbed, and
/// every total is the sum of the prices of the records assigned to its entry.
pub proof fn lemma_totals_are_assigned_sums(records: Seq<ProductView>, n: int)
    requires
        0 <= n <= records.len(),
    ensures
        forall|i: int| 0 <= i < n ==> 0 <= #[trigger] assignment(records, i) < aggregated(
            records.take(n),
        ).len(),
        forall|k: int|
            0 <= k < aggregated(records.take(n)).len() ==> (#[trigger] aggregated(
                records.take(n),
            )[k]).total == assigned_sum(records, k, n),
        forall|k: int|
            aggregated(records.take(n)).len() <= k ==> #[trigger] assigned_sum(records, k, n) == 0,
    decreases n,
{
    let now = aggregated(records.take(n));
    if n > 0 {
        lemma_totals_are_assigned_sums(records, n - 1);
        let before = aggregated(records.take(n - 1));
        let last = records[n - 1];
        assert(records.take(n).drop_last() =~= records.take(n - 1));
        lemma_target_in_range(before, last.name);
        assert forall|k: int| 0 <= k < now.len() implies (#[trigger] now[k]).total == assigned_sum(
            records,
            k,
            n,
        ) by {
            if k >= before.len() {
                assert(assigned_sum(records, k, n - 1) == 0);
            }
        }
        assert forall|k: int| now.len() <= k implies #[trigger] assigned_sum(records, k, n)
            == 0 by {
            assert(assigned_sum(records, k, n - 1) == 0);
        }
    }
}

/// The prices of `n` records add up to no more than `n` times the largest
/// price a record can hold.
pub proof fn lemma_sum_of_prices_bound(records: Seq<ProductView>)
    ensures
        sum_of_prices(records) <= records.len() * u64::MAX,
    decreases records.len(),
{
    if records.len() > 0 {
        lemma_sum_of_prices_bound(records.drop_last());
    }
}

/// The running totals of a batch.
pub struct Aggregator {
    entries: Vec<AggregateEntry>,
    grand_total: u128,
}

impl View for Aggregator {
    type V = Seq<EntryView>;

    closed spec fn view(&self) -> Seq<EntryView> {
        entries_view(self.entries@)
    }
}

impl Aggregator {
    /// The keys are distinct and the running sum is the sum of the totals.
    pub closed spec fn wf(&self) -> bool {
        distinct_keys(self@) && self.grand_total == sum_of_totals(self@)
    }

    /// An aggregator that has absorbed nothing.
    pub fn new() -> (r: Aggregator)
        ensures
            r.wf(),
            r@ == Seq::<EntryView>::empty(),
    {
        Aggregator { entries: Vec::new(), grand_total: 0 }
    }

    /// The number of distinct products so far.
    pub fn len(&self) -> (r: usize)
        ensures
            r == self@.len(),
    {
        self.entries.len()
    }

    /// The sum of all totals so far, in hundredths.
    pub fn grand_total(&self) -> (r: u128)
        requires
            self.wf(),
        ensures
            r == sum_of_totals(self@),
    {
        self.grand_total
    }

    /// The entry that `name` matches best, if it matches any.
    pub fn find_best(&self, name: &str) -> (r: Option<usize>)
        ensures
            match r {
                Some(k) => best_match(self@, name@) == Some(k as int),
                None => best_match(self@, name@) is None,
            },
    {
        let mut best: Option<usize> = None;
        let mut best_score: i64 = THRESHOLD;
        let mut i: usize = 0;
        while i < self.entries.len()
            invariant
                i <= self.entries.len(),
                self@ == entries_view(self.entries@),
                match best {
                    Some(k) => best_among(self@, name@, i as int) == Some(k as int) && k < i
                        && best_score == key_score(self@, name@, k as int),
                    None => best_among(self@, name@, i as int) is None && best_score == THRESHOLD,
                },
            decreases self.entries.len() - i,
        {
            let found = score(self.entries[i].canonical_name.as_str(), name);
            let s: i64 = effective_score(found);
            if s > best_score {
                best_score = s;
                best = Some(i);
            }
            i += 1;
        }
        best
    }

    /// The entry whose key is `name`, if there is one.
    pub fn find_key(&self, name: &str) -> (r: Option<usize>)
        ensures
            match r {
                Some(k) => key_index(self@, name@, 0) == Some(k as int),
                None => key_index(self@, name@, 0) is None,
            },
    {
        let mut i: usize = 0;
        while i < self.entries.len()
            invariant
                i <= self.entries.len(),
                self@ == entries_view(self.entries@),
                key_index(self@, name@, 0) == key_index(self@, name@, i as int),
            decreases self.entries.len() - i,
        {
            if same_text(self.entries[i].canonical_name.as_str(), name) {
                return Some(i);
            }
            i += 1;
        }
        None
    }

    /// Takes one record in. Its price is added to the entry whose key its name
    /// matches best or, where it matches none, to the entry with its own name;
    /// where there is neither, it opens an entry under its own name.
    ///
    /// The sum of all totals has to stay within 128 bits.
    pub fn absorb(&mut self, record: Product)
        requires
            old(self).wf(),
            sum_of_totals(old(self)@) + record.price.cents <= u128::MAX,
        ensures
            final(self).wf(),
            final(self)@ == absorb_result(old(self)@, record@.name, record@.price.cents as nat),
    {
        let price: u128 = record.price.cents as u128;
        let ghost before = self@;
        let ghost name = record.name@;
        let hit: Option<usize> = match self.find_best(record.name.as_str()) {
            Some(k) => Some(k),
            None => self.find_key(record.name.as_str()),
        };
        proof {
            lemma_target_in_range(before, name);
            lemma_absorb_adds_price(before, name, price as nat);
        }
        match hit {
            Some(k) => {
                proof {
                    lemma_sum_after_update(before, k as int, before[k as int]);
                }
                let changed = AggregateEntry {
                    canonical_name: self.entries[k].canonical_name.clone(),
                    total: self.entries[k].total + price,
                };
                proof {
                    assert(entries_view(self.entries@.update(k as int, changed)) =~= before.update(
                        k as int,
                        changed@,
                    ));
                }
                self.entries.set(k, changed);
            },
            None => {
                let opened = AggregateEntry { canonical_name: record.name, total: price };
                proof {
                    assert(entries_view(self.entries@.push(opened)) =~= before.push(opened@));
                }
                self.entries.push(opened);
            },
        }
        self.grand_total = self.grand_total + price;
    }

    /// A copy of the entries, in the order in which they were opened.
    pub fn snapshot(&self) -> (r: Vec<AggregateEntry>)
        ensures
            entries_view(r@) == self@,
    {
        copy_entries(&self.entries)
    }

    /// The entries ordered by total, largest first.
    pub fn sorted(&self) -> (r: Vec<AggregateEntry>)
        ensures
            entries_view(r@) == sorted_by_total(self@),
    {
        sort_by_total(&self.entries)
    }
}

/// A copy of the entries.
pub fn copy_entries(entries: &Vec<AggregateEntry>) -> (r: Vec<AggregateEntry>)
    ensures
        entries_view(r@) == entries_view(entries@),
{
    let mut out: Vec<AggregateEntry> = Vec::new();
    let mut i: usize = 0;
    while i < entries.len()
        invariant
            i <= entries.len(),
            out.len() == i,
            forall|j: int| 0 <= j < i ==> (#[trigger] out@[j])@ == entries@[j]@,
        decreases entries.len() - i,
    {
        out.push(
            AggregateEntry {
                canonical_name: entries[i].canonical_name.clone(),
                total: entries[i].total,
            },
        );
        i += 1;
    }
    out
}

/// `sorted` with `e` put in behind the last entry whose total is at least
/// `e`'s, or in front where there is none.
pub open spec fn insert_by_total(sorted: Seq<EntryView>, e: EntryView) -> Seq<EntryView>
    decreases sorted.len(),
{
    if sorted.len() == 0 {
        seq![e]
    } else if sorted.last().total >= e.total {
        sorted.push(e)
    } else {
        insert_by_total(sorted.drop_last(), e).push(sorted.last())
    }
}

/// The entries ordered by total, largest first; entries with equal totals keep
/// the order they had.
pub open spec fn sorted_by_total(entries: Seq<EntryView>) -> Seq<EntryView>
    decreases entries.len(),
{
    if entries.len() == 0 {
        Seq::empty()
    } else {
        insert_by_total(sorted_by_total(entries.drop_last()), entries.last())
    }
}

/// No entry is followed by one with a larger total.
pub open spec fn descending(entries: Seq<EntryView>) -> bool {
    forall|i: int, j: int|
        0 <= i < j < entries.len() ==> (#[trigger] entries[i]).total >= (#[trigger] entries[j]).total
}

/// Where `e` goes: behind the first `at` entries, if everything after them has
/// a smaller total and the one just before does not.
pub proof fn lemma_insert_at(sorted: Seq<EntryView>, e: EntryView, at: int)
    requires
        0 <= at <= sorted.len(),
        forall|j: int| at <= j < sorted.len() ==> (#[trigger] sorted[j]).total < e.total,
        at > 0 ==> sorted[at - 1].total >= e.total,
    ensures
        insert_by_total(sorted, e) == sorted.take(at) + seq![e] + sorted.skip(at),
    decreases sorted.len(),
{
    if at < sorted.len() {
        lemma_insert_at(sorted.drop_last(), e, at);
    }
}

/// Putting an entry in keeps the order and adds exactly that entry.
pub proof fn lemma_insert_keeps_order(sorted: Seq<EntryView>, e: EntryView)
    requires
        descending(sorted),
    ensures
        descending(insert_by_total(sorted, e)),
        insert_by_total(sorted, e).to_multiset() == sorted.to_multiset().insert(e),
        insert_by_total(sorted, e).len() == sorted.len() + 1,
    decreases sorted.len(),
{
    broadcast use vstd::seq_lib::group_to_multiset_ensures;

    if sorted.len() > 0 && sorted.last().total < e.total {
        let front = sorted.drop_last();
        let last = sorted.last();
        lemma_insert_keeps_order(front, e);
        let mid = insert_by_total(front, e);
        assert(sorted =~= front.push(last));
        assert(forall|i: int| 0 <= i < mid.len() ==> mid.to_multiset().count(#[trigger] mid[i]) > 0);
    }
}

/// What ordering does: the result is in descending order of total and holds
/// exactly the entries that were given.
pub proof fn lemma_sorted_by_total(entries: Seq<EntryView>)
    ensures
        descending(sorted_by_total(entries)),
        sorted_by_total(entries).to_multiset() == entries.to_multiset(),
        sorted_by_total(entries).len() == entries.len(),
    decreases entries.len(),
{
    broadcast use vstd::seq_lib::group_to_multiset_ensures;

    if entries.len() > 0 {
        lemma_sorted_by_total(entries.drop_last());
        lemma_insert_keeps_order(sorted_by_total(entries.drop_last()), entries.last());
        assert(entries =~= entries.drop_last().push(entries.last()));
    }
}

/// The entries ordered by total, largest first. Entries with equal totals keep
/// the order they came in; the entries given are left as they are.
pub fn sort_by_total(entries: &Vec<AggregateEntry>) -> (r: Vec<AggregateEntry>)
    ensures
        entries_view(r@) == sorted_by_total(entries_view(entries@)),
        descending(entries_view(r@)),
        entries_view(r@).to_multiset() == entries_view(entries@).to_multiset(),
        r.len() == entries.len(),
{
    let ghost all = entries_view(entries@);
    let mut out: Vec<AggregateEntry> = Vec::new();
    let mut i: usize = 0;
    while i < entries.len()
        invariant
            i <= entries.len(),
            all == entries_view(entries@),
            out.len() == i,
            entries_view(out@) == sorted_by_total(all.take(i as int)),
        decreases entries.len() - i,
    {
        let e = AggregateEntry {
            canonical_name: entries[i].canonical_name.clone(),
            total: entries[i].total,
        };
        let ghost shown = entries_view(out@);
        let mut at: usize = out.len();
        while at > 0 && out[at - 1].total < e.total
            invariant
                at <= out.len(),
                shown == entries_view(out@),
                forall|j: int| at <= j < out.len() ==> (#[trigger] shown[j]).total < e@.total,
            decreases at,
        {
            at -= 1;
        }
        proof {
            lemma_insert_at(shown, e@, at as int);
            assert(all.take(i + 1).drop_last() =~= all.take(i as int));
        }
        out.insert(at, e);
        i += 1;
    }
    proof {
        assert(all.take(entries.len() as int) =~= all);
        lemma_sorted_by_total(all);
    }
    out
}

/// Folds the records of a batch, in their order, into totals per product, and
/// orders the totals, largest first.
pub fn aggregate_products(products: Vec<Product>) -> (r: Vec<AggregateEntry>)
    ensures
        entries_view(r@) == sorted_by_total(aggregated(products_view(products@))),
        descending(entries_view(r@)),
        sum_of_totals(entries_view(r@)) == sum_of_prices(products_view(products@)),
{
    let ghost records = products_view(products@);
    let mut state = Aggregator::new();
    let mut i: usize = 0;
    while i < products.len()
        invariant
            i <= products.len(),
            records == products_view(products@),
            state.wf(),
            state@ == aggregated(records.take(i as int)),
        decreases products.len() - i,
    {
        let record = Product { name: products[i].name.clone(), price: products[i].price };
        proof {
            let seen = records.take(i as int);
            lemma_aggregate_conserves(seen);
            lemma_sum_of_prices_bound(seen);
            assert(records.take(i + 1).drop_last() =~= seen);
        }
        state.absorb(record);
        i += 1;
    }
    let sorted = state.sorted();
    proof {
        assert(records.take(products.len() as int) =~= records);
        lemma_aggregate_conserves(records);
        lemma_sorted_by_total(aggregated(records));
        lemma_sum_of_sorted(aggregated(records));
    }
    sorted
}

/// Ordering leaves the sum of the totals as it was.
pub proof fn lemma_sum_of_sorted(entries: Seq<EntryView>)
    ensures
        sum_of_totals(sorted_by_total(entries)) == sum_of_totals(entries),
    decreases entries.len(),
{
    if entries.len() > 0 {
        lemma_sum_of_sorted(entries.drop_last());
        lemma_sum_after_insert(sorted_by_total(entries.drop_last()), entries.last());
    }
}

/// Putting an entry in adds its total to the sum.
pub proof fn lemma_sum_after_insert(sorted: Seq<EntryView>, e: EntryView)
    ensures
        sum_of_totals(insert_by_total(sorted, e)) == sum_of_totals(sorted) + e.total,
    decreases sorted.len(),
{
    let after = insert_by_total(sorted, e);
    if sorted.len() == 0 {
        assert(sum_of_totals(after.drop_last()) == 0);
    } else if sorted.last().total >= e.total {
        assert(after.drop_last() =~= sorted);
    } else {
        lemma_sum_after_insert(sorted.drop_last(), e);
        let mid = insert_by_total(sorted.drop_last(), e);
        assert(after.drop_last() =~= mid);
    }
}

} // verus!
