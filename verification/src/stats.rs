//! The usage-statistics store: one record per command name, kept in the order
//! in which the names were first seen.
use crate::calendar::{calendar_text, format_timestamp};
use crate::text::text_of;
use vstd::prelude::*;
use vstd::string::StringExecFns;

verus! {

/// How often one command was invoked, and when it was invoked last.
#[derive(Clone, Debug, PartialEq, Eq)]
pub struct UsageRecord {
    pub name: String,
    pub count: u32,
    /// Seconds since the Unix epoch.
    pub last_used: u64,
}

/// The mathematical content of a [`UsageRecord`].
pub struct RecordView {
    pub name: Seq<char>,
    pub count: nat,
    pub last_used: nat,
}

impl View for UsageRecord {
    type V = RecordView;

    open spec fn view(&self) -> RecordView {
        RecordView {
            name: self.name@,
            count: self.count as nat,
            last_used: self.last_used as nat,
        }
    }
}

/// The views of a sequence of records.
pub open spec fn views(records: Seq<UsageRecord>) -> Seq<RecordView> {
    records.map_values(|r: UsageRecord| r@)
}

/// The command names of the given records, in their order.
pub open spec fn names(s: Seq<RecordView>) -> Seq<Seq<char>> {
    s.map_values(|r: RecordView| r.name)
}

/// What holds of the records of every store: no name occurs twice, and every
/// record that is present was counted at least once.
pub open spec fn well_formed(s: Seq<RecordView>) -> bool {
    &&& forall|i: int, j: int| 0 <= i < j < s.len() ==> s[i].name != s[j].name
    &&& forall|i: int| 0 <= i < s.len() ==> s[i].count >= 1
}

/// How often `name` was counted: the count of its record, 0 where it has none.
pub open spec fn count_of(s: Seq<RecordView>, name: Seq<char>) -> nat {
    match names(s).index_of_first(name) {
        Some(i) => s[i].count,
        None => 0,
    }
}

/// The records after one more invocation of `name` at the instant `now`: its
/// record counts one more and is stamped `now`; a name not seen before gets a
/// new record, with count 1, behind the others.
pub open spec fn recorded(s: Seq<RecordView>, name: Seq<char>, now: nat) -> Seq<RecordView> {
    match names(s).index_of_first(name) {
        Some(i) => s.update(i, RecordView { name, count: s[i].count + 1, last_used: now }),
        None => s.push(RecordView { name, count: 1, last_used: now }),
    }
}

/// Recording an invocation keeps the records well formed.
pub proof fn lemma_recorded_well_formed(s: Seq<RecordView>, name: Seq<char>, now: nat)
    requires
        well_formed(s),
    ensures
        well_formed(recorded(s, name, now)),
{
    names(s).index_of_first_ensures(name);
    let t = recorded(s, name, now);
    match names(s).index_of_first(name) {
        Some(i) => {
            assert forall|a: int| 0 <= a < t.len() implies t[a].name == s[a].name by {}
        },
        None => {
            assert forall|k: int| 0 <= k < s.len() implies s[k].name != name by {
                assert(names(s)[k] == s[k].name);
            }
        },
    }
}

/// One invocation: the command's name and the instant.
pub struct Invocation {
    pub name: Seq<char>,
    pub at: nat,
}

/// The records after the given invocations, one after the other.
pub open spec fn recorded_all(s: Seq<RecordView>, calls: Seq<Invocation>) -> Seq<RecordView>
    decreases calls.len(),
{
    if calls.len() == 0 {
        s
    } else {
        recorded(recorded_all(s, calls.drop_last()), calls.last().name, calls.last().at)
    }
}

/// How many of the invocations are of `name`.
pub open spec fn invocations_of(calls: Seq<Invocation>, name: Seq<char>) -> nat
    decreases calls.len(),
{
    if calls.len() == 0 {
        0
    } else if calls.last().name == name {
        invocations_of(calls.drop_last(), name) + 1
    } else {
        invocations_of(calls.drop_last(), name)
    }
}

proof fn lemma_first_index(q: Seq<Seq<char>>, x: Seq<char>, i: int)
    requires
        0 <= i <= q.len(),
        forall|j: int| 0 <= j < i ==> q[j] != x,
        i < q.len() ==> q[i] == x,
        i == q.len() ==> forall|j: int| 0 <= j < q.len() ==> q[j] != x,
    ensures
        q.index_of_first(x) == if i < q.len() {
            Some(i)
        } else {
            None
        },
{
    q.index_of_first_ensures(x);
}

/// One invocation of `name` raises the count of `name` by one and leaves the
/// count of every other name as it was.
pub proof fn lemma_recorded_counts(
    s: Seq<RecordView>,
    name: Seq<char>,
    now: nat,
    other: Seq<char>,
)
    ensures
        count_of(recorded(s, name, now), other) == if other == name {
            count_of(s, other) + 1
        } else {
            count_of(s, other)
        },
{
    let t = recorded(s, name, now);
    names(s).index_of_first_ensures(name);
    names(s).index_of_first_ensures(other);
    match names(s).index_of_first(name) {
        Some(i) => {
            assert(names(t) == names(s));
        },
        None => {
            assert(names(t) == names(s).push(name));
            match names(s).index_of_first(other) {
                Some(k) => {
                    lemma_first_index(names(t), other, k);
                },
                None => {
                    if other == name {
                        lemma_first_index(names(t), other, s.len() as int);
                    } else {
                        lemma_first_index(names(t), other, t.len() as int);
                    }
                },
            }
        },
    }
}

/// After any sequence of invocations, each name's count has grown by the
/// number of invocations of that name, and the records are well formed. In
/// particular `n` invocations of a name that had no record leave it with the
/// count `n`.
pub proof fn lemma_counts_after_invocations(
    s: Seq<RecordView>,
    calls: Seq<Invocation>,
    name: Seq<char>,
)
    requires
        well_formed(s),
    ensures
        well_formed(recorded_all(s, calls)),
        count_of(recorded_all(s, calls), name) == count_of(s, name) + invocations_of(calls, name),
    decreases calls.len(),
{
    if calls.len() > 0 {
        let earlier = recorded_all(s, calls.drop_last());
        lemma_counts_after_invocations(s, calls.drop_last(), name);
        lemma_recorded_well_formed(earlier, calls.last().name, calls.last().at);
        lemma_recorded_counts(earlier, calls.last().name, calls.last().at, name);
    }
}

/// The mapping read from persisted records: the records themselves where they
/// are present and well formed, the empty mapping otherwise.
pub open spec fn loaded(persisted: Option<Seq<RecordView>>) -> Seq<RecordView> {
    match persisted {
        Some(records) => if well_formed(records) {
            records
        } else {
            Seq::empty()
        },
        None => Seq::empty(),
    }
}

/// Well-formed records load back as they are: what a store hands out to be
/// persisted is what loading it gives again.
pub proof fn lemma_persisted_records_load_back(s: Seq<RecordView>)
    requires
        well_formed(s),
    ensures
        loaded(Some(s)) == s,
        loaded(None) == Seq::<RecordView>::empty(),
{
}

/// A mapping from command name to usage record.
pub struct StatsStore {
    records: Vec<UsageRecord>,
}

impl View for StatsStore {
    type V = Seq<RecordView>;

    closed spec fn view(&self) -> Seq<RecordView> {
        views(self.records@)
    }
}

impl StatsStore {
    #[verifier::type_invariant]
    spec fn valid(&self) -> bool {
        well_formed(self@)
    }

    /// The empty mapping.
    pub fn new() -> (store: StatsStore)
        ensures
            store@ == Seq::<RecordView>::empty(),
    {
        StatsStore { records: Vec::new() }
    }

    /// The number of records.
    pub fn len(&self) -> (n: usize)
        ensures
            n == self@.len(),
            well_formed(self@),
    {
        proof {
            use_type_invariant(self);
        }
        self.records.len()
    }

    /// Whether the store holds no record.
    pub fn is_empty(&self) -> (empty: bool)
        ensures
            empty == (self@.len() == 0),
            well_formed(self@),
    {
        proof {
            use_type_invariant(self);
        }
        self.records.len() == 0
    }

    /// How often `name` was counted.
    pub fn count(&self, name: &str) -> (n: u32)
        ensures
            n == count_of(self@, name@),
            well_formed(self@),
    {
        proof {
            use_type_invariant(self);
        }
        let key = String::from_str(name);
        match self.position(&key) {
            Some(i) => self.records[i].count,
            None => 0,
        }
    }

    /// Where the record of `name` stands, if it has one.
    pub fn position(&self, name: &String) -> (at: Option<usize>)
        ensures
            at matches Some(i) ==> i < self@.len() && names(self@).index_of_first(name@) == Some(
                i as int,
            ),
            at is None ==> names(self@).index_of_first(name@) is None,
    {
        let mut i: usize = 0;
        while i < self.records.len()
            invariant
                i <= self.records.len(),
                forall|j: int| 0 <= j < i ==> names(self@)[j] != name@,
            decreases self.records.len() - i,
        {
            assert(names(self@)[i as int] == self.records[i as int].name@);
            if self.records[i].name == *name {
                proof {
                    names(self@).index_of_first_ensures(name@);
                }
                return Some(i);
            }
            i += 1;
        }
        proof {
            names(self@).index_of_first_ensures(name@);
        }
        None
    }
}

/// What a request to reset the statistics led to.
#[derive(Clone, Copy, Debug, PartialEq, Eq, Structural)]
pub enum ResetOutcome {
    /// The store was emptied.
    Cleared,
    /// Nothing was changed: the request was not confirmed.
    ConfirmationRequired,
}

/// A copy of a record.
pub fn copy_record(record: &UsageRecord) -> (copy: UsageRecord)
    ensures
        copy == *record,
{
    UsageRecord { name: record.name.clone(), count: record.count, last_used: record.last_used }
}

/// Whether the records may stand in a store as they are.
pub fn records_well_formed(records: &Vec<UsageRecord>) -> (ok: bool)
    ensures
        ok == well_formed(views(records@)),
{
    let mut j: usize = 0;
    while j < records.len()
        invariant
            j <= records.len(),
            well_formed(views(records@).take(j as int)),
        decreases records.len() - j,
    {
        if records[j].count == 0 {
            assert(views(records@)[j as int].count == 0);
            return false;
        }
        let mut i: usize = 0;
        while i < j
            invariant
                i <= j < records.len(),
                forall|k: int|
                    0 <= k < i ==> views(records@)[k].name != views(records@)[j as int].name,
            decreases j - i,
        {
            if records[i].name == records[j].name {
                assert(views(records@)[i as int].name == views(records@)[j as int].name);
                return false;
            }
            i += 1;
        }
        j += 1;
    }
    assert(views(records@).take(records.len() as int) == views(records@));
    true
}

/// Makes the store from what was read of the persisted statistics: `None`
/// where nothing could be read or understood. Records that are not well formed
/// are as good as none: the store is then empty.
pub fn load_stats(persisted: Option<Vec<UsageRecord>>) -> (store: StatsStore)
    ensures
        store@ == loaded(
            match persisted {
                Some(records) => Some(views(records@)),
                None => None,
            },
        ),
        well_formed(store@),
{
    match persisted {
        Some(records) => {
            if records_well_formed(&records) {
                StatsStore { records }
            } else {
                StatsStore::new()
            }
        },
        None => StatsStore::new(),
    }
}

/// The records to persist: all of the store's, in its order.
pub fn save_stats(store: &StatsStore) -> (records: Vec<UsageRecord>)
    ensures
        views(records@) == store@,
        well_formed(views(records@)),
{
    proof {
        use_type_invariant(store);
    }
    let mut records: Vec<UsageRecord> = Vec::new();
    let mut i: usize = 0;
    while i < store.records.len()
        invariant
            i <= store.records.len(),
            records@ == store.records@.take(i as int),
        decreases store.records.len() - i,
    {
        records.push(copy_record(&store.records[i]));
        i += 1;
    }
    assert(store.records@.take(store.records.len() as int) == store.records@);
    records
}

/// Counts one more invocation of `command`, at the instant `now`.
pub fn track_command(store: &mut StatsStore, command: &str, now: u64)
    requires
        count_of(old(store)@, command@) < u32::MAX,
    ensures
        final(store)@ == recorded(old(store)@, command@, now as nat),
        well_formed(final(store)@),
{
    proof {
        use_type_invariant(&*store);
        names(store@).index_of_first_ensures(command@);
    }
    let name = String::from_str(command);
    let found = store.position(&name);
    let ghost before = store@;
    let mut records: Vec<UsageRecord> = Vec::new();
    core::mem::swap(&mut store.records, &mut records);
    match found {
        Some(i) => {
            let count = records[i].count;
            let record = UsageRecord { name, count: count + 1, last_used: now };
            assert(views(records@.update(i as int, record)) == before.update(i as int, record@));
            records.set(i, record);
        },
        None => {
            let record = UsageRecord { name, count: 1, last_used: now };
            assert(views(records@.push(record)) == before.push(record@));
            records.push(record);
        },
    }
    proof {
        lemma_recorded_well_formed(before, command@, now as nat);
    }
    store.records = records;
}

/// Empties the store if the request is confirmed, and leaves it as it is
/// otherwise.
pub fn reset_stats(store: &mut StatsStore, confirmed: bool) -> (outcome: ResetOutcome)
    ensures
        confirmed ==> final(store)@ == Seq::<RecordView>::empty() && outcome
            == ResetOutcome::Cleared,
        !confirmed ==> *final(store) == *old(store) && outcome
            == ResetOutcome::ConfirmationRequired,
        well_formed(final(store)@),
{
    proof {
        use_type_invariant(&*store);
    }
    if confirmed {
        store.records = Vec::new();
        ResetOutcome::Cleared
    } else {
        ResetOutcome::ConfirmationRequired
    }
}

/// Whether the record at `a` stands before the record at `b` in the ranking:
/// it was counted more often, or as often and stands first in the store.
pub open spec fn outranks(s: Seq<RecordView>, a: int, b: int) -> bool {
    s[a].count > s[b].count || (s[a].count == s[b].count && a < b)
}

/// Whether `order` lists the positions of all records of `s` from the most
/// used to the least used, records of equal count in the store's order.
pub open spec fn is_ranking(s: Seq<RecordView>, order: Seq<usize>) -> bool {
    &&& order.len() == s.len()
    &&& forall|i: int| 0 <= i < order.len() ==> order[i] < s.len()
    &&& forall|k: usize| k < s.len() ==> order.contains(k)
    &&& forall|i: int, j: int|
        0 <= i < j < order.len() ==> outranks(s, order[i] as int, order[j] as int)
}

proof fn lemma_rankings_agree(s: Seq<RecordView>, a: Seq<usize>, b: Seq<usize>, n: int)
    requires
        is_ranking(s, a),
        is_ranking(s, b),
        0 <= n <= s.len(),
    ensures
        forall|i: int| 0 <= i < n ==> a[i] == b[i],
    decreases n,
{
    if n > 0 {
        lemma_rankings_agree(s, a, b, n - 1);
        let i = n - 1;
        assert(a.contains(b[i]));
        assert(b.contains(a[i]));
        let in_a = choose|j: int| 0 <= j < a.len() && a[j] == b[i];
        let in_b = choose|j: int| 0 <= j < b.len() && b[j] == a[i];
        if in_a < i {
            assert(outranks(s, b[in_a] as int, b[i] as int));
        }
        if in_b < i {
            assert(outranks(s, a[in_b] as int, a[i] as int));
        }
        if in_a > i && in_b > i {
            assert(outranks(s, a[i] as int, a[in_a] as int));
            assert(outranks(s, b[i] as int, b[in_b] as int));
        }
    }
}

/// The records of a store have exactly one ranking.
pub proof fn lemma_ranking_unique(s: Seq<RecordView>, a: Seq<usize>, b: Seq<usize>)
    requires
        is_ranking(s, a),
        is_ranking(s, b),
    ensures
        a == b,
{
    lemma_rankings_agree(s, a, b, s.len() as int);
}

/// In a ranking no record stands before one that was counted more often.
pub proof fn lemma_ranking_descends(s: Seq<RecordView>, order: Seq<usize>, i: int, j: int)
    requires
        is_ranking(s, order),
        0 <= i <= j < order.len(),
    ensures
        s[order[i] as int].count >= s[order[j] as int].count,
{
    if i < j {
        assert(outranks(s, order[i] as int, order[j] as int));
    }
}

/// One line of the usage table.
#[derive(Clone, Debug, PartialEq, Eq)]
pub struct StatsRow {
    /// The place in the ranking, from 1.
    pub rank: usize,
    pub name: String,
    pub count: u32,
    /// When the command was last used, as text.
    pub last_used: String,
}

/// The mathematical content of a [`StatsRow`].
pub struct RowView {
    pub rank: nat,
    pub name: Seq<char>,
    pub count: nat,
    pub last_used: Seq<char>,
}

impl View for StatsRow {
    type V = RowView;

    open spec fn view(&self) -> RowView {
        RowView {
            rank: self.rank as nat,
            name: self.name@,
            count: self.count as nat,
            last_used: self.last_used@,
        }
    }
}

/// The row for a record at the given rank, where `formatted` is the calendar
/// text of its last use: an instant without calendar text is shown as `N/A`.
pub open spec fn row_for(rank: nat, record: RecordView, formatted: Option<Seq<char>>) -> RowView {
    RowView {
        rank,
        name: record.name,
        count: record.count,
        last_used: match formatted {
            Some(text) => text,
            None => "N/A"@,
        },
    }
}

/// The rows of the usage table for the records of `s` in the given order.
pub open spec fn ranked_rows(s: Seq<RecordView>, order: Seq<usize>) -> Seq<RowView> {
    Seq::new(
        order.len(),
        |i: int|
            row_for(
                (i + 1) as nat,
                s[order[i] as int],
                calendar_text(s[order[i] as int].last_used),
            ),
    )
}

/// The views of a sequence of rows.
pub open spec fn row_views(rows: Seq<StatsRow>) -> Seq<RowView> {
    rows.map_values(|r: StatsRow| r@)
}

/// What there is to show of the statistics.
#[derive(Clone, Debug, PartialEq, Eq)]
pub enum StatsReport {
    /// No command was recorded yet.
    NoData,
    /// The usage table, most used command first.
    Ranking(Vec<StatsRow>),
}

/// The positions of the store's records, from the most used to the least used.
pub fn rank_by_count(store: &StatsStore) -> (order: Vec<usize>)
    ensures
        is_ranking(store@, order@),
        well_formed(store@),
{
    proof {
        use_type_invariant(store);
    }
    let n = store.records.len();
    let mut order: Vec<usize> = Vec::new();
    let mut k: usize = 0;
    while k < n
        invariant
            n == store.records.len(),
            k <= n,
            order.len() == k,
            forall|i: int| 0 <= i < order.len() ==> order[i] < k,
            forall|m: usize| m < k ==> order@.contains(m),
            forall|i: int, j: int|
                0 <= i < j < order.len() ==> outranks(store@, order[i] as int, order[j] as int),
        decreases n - k,
    {
        let count = store.records[k].count;
        let mut at: usize = 0;
        while at < order.len() && store.records[order[at]].count >= count
            invariant
                n == store.records.len(),
                k < n,
                at <= order.len(),
                forall|i: int| 0 <= i < order.len() ==> order[i] < k,
                forall|i: int| 0 <= i < at ==> store@[order[i] as int].count >= count,
            decreases order.len() - at,
        {
            at += 1;
        }
        let ghost before = order@;
        order.insert(at, k);
        proof {
            assert forall|m: usize| m < k + 1 implies order@.contains(m) by {
                if m < k {
                    assert(before.contains(m));
                    let i = choose|i: int| 0 <= i < before.len() && before[i] == m;
                    if i < at {
                        assert(order[i] == m);
                    } else {
                        assert(order[i + 1] == m);
                    }
                } else {
                    assert(order[at as int] == m);
                }
            }
            assert forall|i: int, j: int| 0 <= i < j < order.len() implies outranks(
                store@,
                order[i] as int,
                order[j] as int,
            ) by {
                if i == at && j > at + 1 {
                    assert(outranks(store@, before[at as int] as int, before[j - 1] as int));
                } else if i != at && j != at {
                    let a = if i < at {
                        i
                    } else {
                        i - 1
                    };
                    let b = if j < at {
                        j
                    } else {
                        j - 1
                    };
                    assert(outranks(store@, before[a] as int, before[b] as int));
                }
            }
        }
        k += 1;
    }
    order
}

/// The table row of a record, given the calendar text of its last use.
pub fn render_row(rank: usize, record: &UsageRecord, formatted: Option<String>) -> (row: StatsRow)
    ensures
        row@ == row_for(rank as nat, record@, text_of(formatted)),
{
    let last_used = match formatted {
        Some(text) => text,
        None => String::from_str("N/A"),
    };
    StatsRow { rank, name: record.name.clone(), count: record.count, last_used }
}

/// The usage table: one row for each record, most used first, or the notice
/// that there is nothing to show.
pub fn show_stats(store: &StatsStore) -> (report: StatsReport)
    ensures
        well_formed(store@),
        store@.len() == 0 ==> report is NoData,
        store@.len() > 0 ==> (report matches StatsReport::Ranking(rows) && exists|
            order: Seq<usize>,
        |
            is_ranking(store@, order) && row_views(rows@) == ranked_rows(store@, order)),
{
    proof {
        use_type_invariant(store);
    }
    if store.records.len() == 0 {
        return StatsReport::NoData;
    }
    let order = rank_by_count(store);
    let mut rows: Vec<StatsRow> = Vec::new();
    let mut i: usize = 0;
    while i < order.len()
        invariant
            is_ranking(store@, order@),
            i <= order.len(),
            row_views(rows@) == ranked_rows(store@, order@).take(i as int),
        decreases order.len() - i,
    {
        let record = &store.records[order[i]];
        let ghost before = rows@;
        rows.push(render_row(i + 1, record, format_timestamp(record.last_used)));
        assert(row_views(rows@) == row_views(before).push(rows@[i as int]@));
        i += 1;
    }
    StatsReport::Ranking(rows)
}

} // verus!
