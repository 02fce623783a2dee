//! The storage engine: an in-memory record set that always equals the
//! replay of its append-only log.
//!
//! A [`Series`] holds the live records and, as specification state, the
//! sequence of log entries written so far.  Its well-formedness invariant
//! is the central fact of the store: folding the log from empty — inserts
//! for writes, removals for tombstones — yields exactly the in-memory map.
//! Every mutation returns the log line the caller must append to the file;
//! [`Series::open`] rebuilds the state from those lines.

use vstd::prelude::*;
use vstd::pervasive::VecAdditionalExecFns;

use crate::criteria::Criteria;
use crate::types::{parse_line_model, DeletableRecord, Error, Record, Recordable, UniqueId};

verus! {

broadcast use vstd::seq_lib::group_to_multiset_ensures;

/// One log entry: the record's identifier, and its payload for a write or
/// `None` for a tombstone.
pub type LogEntry<T> = (u128, Option<T>);

/// Folds a log from empty, in order: a write inserts the id's entry, a
/// tombstone removes it.
pub open spec fn replay<T>(log: Seq<LogEntry<T>>) -> Map<u128, T>
    decreases log.len(),
{
    if log.len() == 0 {
        Map::empty()
    } else {
        let m = replay(log.drop_last());
        match log.last().1 {
            Some(v) => m.insert(log.last().0, v),
            None => m.remove(log.last().0),
        }
    }
}

/// The map a sequence of live records denotes.
pub open spec fn entries_map<T: Recordable>(es: Seq<Record<T>>) -> Map<u128, T>
    decreases es.len(),
{
    if es.len() == 0 {
        Map::empty()
    } else {
        entries_map(es.drop_last()).insert(es.last().id.0, es.last().data)
    }
}

/// No two records carry the same identifier.
pub open spec fn distinct_ids<T: Recordable>(es: Seq<Record<T>>) -> bool {
    forall|i: int, j: int|
        #![trigger es[i].id.0, es[j].id.0]
        0 <= i < j < es.len() ==> es[i].id.0 != es[j].id.0
}

/// What a whole file denotes: the log entries of its lines in order, or
/// `None` as soon as one line is rejected.
pub open spec fn parse_lines_model<T: Recordable>(lines: Seq<Seq<char>>) -> Option<
    Seq<LogEntry<T>>,
>
    decreases lines.len(),
{
    if lines.len() == 0 {
        Some(Seq::empty())
    } else {
        match parse_lines_model::<T>(lines.drop_last()) {
            Some(entries) => match parse_line_model::<T>(lines.last()) {
                Some(e) => Some(entries.push(e)),
                None => None,
            },
            None => None,
        }
    }
}

/// The records of `recs` whose payload satisfies the criteria.
pub open spec fn matching_records<C: Criteria, T: Recordable>(
    c: C,
    recs: Seq<Record<T>>,
) -> Seq<Record<T>> {
    recs.filter(
        |rec: Record<T>| c.matches(rec.data.timestamp_spec(), rec.data.tags_spec()),
    )
}

/// Adjacent elements stand in the order the comparer answered for: for each
/// neighbouring pair, the comparer either affirmed the pair or denied the
/// swapped pair.
pub open spec fn sorted_by_cmp<T: Recordable, F: Fn(&Record<T>, &Record<T>) -> bool>(
    s: Seq<Record<T>>,
    leq: F,
) -> bool {
    forall|i: int, j: int|
        #![trigger s[i], s[j]]
        0 <= i < s.len() && j == i + 1 && j < s.len() ==> (call_ensures(leq, (&s[i], &s[j]), true)
            || call_ensures(leq, (&s[j], &s[i]), false))
}

/// An open time series database.
///
/// Any given database stores only one data type, `T`, fixed when the
/// database is opened.  Mutating operations hand back the log line to
/// append; queries work on the in-memory set alone.
pub struct Series<T: Recordable> {
    entries: Vec<Record<T>>,
    log: Ghost<Seq<LogEntry<T>>>,
}

impl<T: Recordable> Series<T> {
    /// The live records, in insertion order.
    pub closed spec fn recs(self) -> Seq<Record<T>> {
        self.entries@
    }

    /// The log entries written or replayed so far.
    pub closed spec fn log_view(self) -> Seq<LogEntry<T>> {
        self.log@
    }

    /// The current map from identifier to payload.
    pub open spec fn as_map(self) -> Map<u128, T> {
        entries_map(self.recs())
    }

    /// Well-formedness: identifiers are unique, and the in-memory state is
    /// exactly the replay of the log.
    pub open spec fn wf(self) -> bool {
        &&& distinct_ids(self.recs())
        &&& entries_map(self.recs()) == replay(self.log_view())
    }

    /// Replays a file's lines into an open series.  Succeeds exactly when
    /// every line parses as a record envelope; the replayed state is then
    /// the fold of the parsed entries.  A rejected line aborts the open:
    /// corruption must be visible, never dropped.
    pub fn open(lines: Vec<String>) -> (r: Result<Series<T>, Error>)
        ensures
            match r {
                Ok(s) => s.wf() && parse_lines_model::<T>(lines.deep_view()) == Some(s.log_view()),
                Err(e) => parse_lines_model::<T>(lines.deep_view()) is None && e
                    == Error::JSONParseError,
            },
            r is Ok <==> parse_lines_model::<T>(lines.deep_view()) is Some,
    {
        let mut entries: Vec<Record<T>> = Vec::new();
        let ghost mut log: Seq<LogEntry<T>> = Seq::empty();
        let mut i: usize = 0;
        while i < lines.len()
            invariant
                i <= lines@.len(),
                parse_lines_model::<T>(lines.deep_view().subrange(0, i as int)) == Some(log),
                distinct_ids(entries@),
                entries_map(entries@) == replay(log),
            decreases lines@.len() - i,
        {
            let ghost prefix = lines.deep_view().subrange(0, i as int);
            let ghost prefix2 = lines.deep_view().subrange(0, i + 1);
            proof {
                assert(lines.deep_view()[i as int] == lines@[i as int]@);
                assert(prefix2.drop_last() =~= prefix);
                assert(prefix2.last() == lines@[i as int]@);
            }
            match DeletableRecord::<T>::from_str(lines[i].as_str()) {
                Ok(d) => {
                    let ghost e: LogEntry<T> = (d.id.0, d.data);
                    let id = d.id;
                    match d.data {
                        Some(v) => {
                            upsert_record(&mut entries, Record { id, data: v });
                        },
                        None => {
                            remove_record(&mut entries, &id);
                        },
                    }
                    proof {
                        lemma_replay_push(log, e);
                        log = log.push(e);
                    }
                },
                Err(_) => {
                    proof {
                        lemma_parse_lines_bad::<T>(lines.deep_view(), i as int);
                    }
                    return Err(Error::JSONParseError);
                },
            }
            i = i + 1;
        }
        proof {
            assert(lines.deep_view().subrange(0, lines@.len() as int) =~= lines.deep_view());
        }
        Ok(Series { entries, log: Ghost(log) })
    }

    /// Puts a new record into the database: a fresh identifier is assigned
    /// and returned, together with the log line to append.
    pub fn put(&mut self, entry: T) -> (r: (UniqueId, String))
        requires
            old(self).wf(),
        ensures
            final(self).wf(),
            final(self).log_view() == old(self).log_view().push((r.0.0, Some(entry))),
            final(self).as_map() == old(self).as_map().insert(r.0.0, entry),
            parse_line_model::<T>(r.1@) == Some((r.0.0, Some(entry))),
            forall|i: int| 0 <= i < r.1@.len() ==> r.1@[i] != '\n',
    {
        let record = Record::new(entry);
        let id = record.id;
        let line = self.update(record);
        (id, line)
    }

    /// Inserts or overwrites the record under its identifier — the first
    /// `put` of a record comes through here too — and returns the log line
    /// to append.
    pub fn update(&mut self, record: Record<T>) -> (line: String)
        requires
            old(self).wf(),
        ensures
            final(self).wf(),
            final(self).log_view() == old(self).log_view().push((record.id.0, Some(record.data))),
            final(self).as_map() == old(self).as_map().insert(record.id.0, record.data),
            parse_line_model::<T>(line@) == Some((record.id.0, Some(record.data))),
            forall|i: int| 0 <= i < line@.len() ==> line@[i] != '\n',
    {
        let ghost e: LogEntry<T> = (record.id.0, Some(record.data));
        let envelope = DeletableRecord { id: record.id, data: Some(record.data.duplicate()) };
        let line = envelope.to_line();
        upsert_record(&mut self.entries, record);
        proof {
            lemma_replay_push(self.log@, e);
            self.log@ = self.log@.push(e);
        }
        line
    }

    /// Deletes a record: removes it from the view (a no-op when absent) and
    /// returns the tombstone line to append.  The log keeps the record's
    /// history; deletion is an appended negative fact, not truncation.
    pub fn delete(&mut self, id: &UniqueId) -> (line: String)
        requires
            old(self).wf(),
        ensures
            final(self).wf(),
            final(self).log_view() == old(self).log_view().push((id.0, None::<T>)),
            final(self).as_map() == old(self).as_map().remove(id.0),
            parse_line_model::<T>(line@) == Some((id.0, None::<T>)),
            forall|i: int| 0 <= i < line@.len() ==> line@[i] != '\n',
    {
        let ghost e: LogEntry<T> = (id.0, None);
        let envelope: DeletableRecord<T> = DeletableRecord { id: *id, data: None };
        let line = envelope.to_line();
        remove_record(&mut self.entries, id);
        proof {
            lemma_replay_push(self.log@, e);
            self.log@ = self.log@.push(e);
        }
        line
    }

    /// Looks a record up by identifier, against the in-memory map alone.
    pub fn get(&self, id: &UniqueId) -> (r: Option<Record<T>>)
        requires
            self.wf(),
        ensures
            match r {
                Some(rec) => self.as_map().contains_key(id.0) && rec.id == *id && rec.data
                    == self.as_map()[id.0],
                None => !self.as_map().contains_key(id.0),
            },
    {
        proof {
            lemma_entries_map_props(self.entries@);
        }
        match find_index(&self.entries, id) {
            Some(k) => Some(self.entries[k].duplicate()),
            None => None,
        }
    }

    /// A snapshot copy of every live record.
    pub fn all_records(&self) -> (r: Vec<Record<T>>)
        ensures
            r@ == self.recs(),
    {
        let mut out: Vec<Record<T>> = Vec::new();
        let mut i: usize = 0;
        while i < self.entries.len()
            invariant
                i <= self.entries@.len(),
                out@.len() == i,
                forall|j: int| 0 <= j < i ==> out@[j] == self.entries@[j],
            decreases self.entries@.len() - i,
        {
            out.push(self.entries[i].duplicate());
            i = i + 1;
        }
        proof {
            assert(out@ =~= self.recs());
        }
        out
    }

    /// A borrowed, non-owning view of the live records, valid until the
    /// next mutation.
    pub fn records(&self) -> (r: &Vec<Record<T>>)
        ensures
            r@ == self.recs(),
    {
        &self.entries
    }

    /// The records whose payload matches the criteria, in the order they
    /// stand in the store.
    pub fn search<C: Criteria>(&self, criteria: C) -> (r: Vec<Record<T>>)
        ensures
            r@ == matching_records(criteria, self.recs()),
    {
        let mut out: Vec<Record<T>> = Vec::new();
        let mut i: usize = 0;
        proof {
            reveal(Seq::filter);
            assert(self.recs().subrange(0, 0) =~= Seq::<Record<T>>::empty());
        }
        while i < self.entries.len()
            invariant
                i <= self.entries@.len(),
                out@ == matching_records(criteria, self.recs().subrange(0, i as int)),
            decreases self.entries@.len() - i,
        {
            proof {
                lemma_matching_push(
                    criteria,
                    self.recs().subrange(0, i as int),
                    self.recs()[i as int],
                );
                assert(self.recs().subrange(0, i + 1) =~= self.recs().subrange(0, i as int).push(
                    self.recs()[i as int],
                ));
            }
            if criteria.apply(&self.entries[i].data) {
                out.push(self.entries[i].duplicate());
            }
            i = i + 1;
        }
        proof {
            assert(self.recs().subrange(0, self.recs().len() as int) =~= self.recs());
        }
        out
    }

    /// The matching records, sorted with the caller's comparer: `leq(a, b)`
    /// answers whether `a` may stand before `b`.  The result is a
    /// permutation of the search result whose neighbouring pairs the
    /// comparer vouched for.
    pub fn search_sorted<C: Criteria, F: Fn(&Record<T>, &Record<T>) -> bool>(
        &self,
        criteria: C,
        leq: F,
    ) -> (r: Vec<Record<T>>)
        requires
            forall|a: &Record<T>, b: &Record<T>| #[trigger] call_requires(leq, (a, b)),
        ensures
            r@.to_multiset() == matching_records(criteria, self.recs()).to_multiset(),
            sorted_by_cmp(r@, leq),
    {
        let mut rest = self.search(criteria);
        let ghost whole = rest@;
        let mut out: Vec<Record<T>> = Vec::new();
        while rest.len() > 0
            invariant
                forall|a: &Record<T>, b: &Record<T>| #[trigger] call_requires(leq, (a, b)),
                out@.to_multiset().add(rest@.to_multiset()) == whole.to_multiset(),
                sorted_by_cmp(out@, leq),
            decreases rest@.len(),
        {
            let rec = rest.remove(0);
            insert_sorted(&mut out, rec, &leq);
        }
        proof {
            assert(out@.to_multiset() =~= whole.to_multiset());
        }
        out
    }
}

/// Position before which `rec` belongs: every earlier element was affirmed
/// before `rec`, and the element at the position, when there is one, was
/// denied before `rec`.
fn find_insert_pos<T: Recordable, F: Fn(&Record<T>, &Record<T>) -> bool>(
    out: &Vec<Record<T>>,
    rec: &Record<T>,
    leq: &F,
) -> (k: usize)
    requires
        forall|a: &Record<T>, b: &Record<T>| #[trigger] call_requires(*leq, (a, b)),
    ensures
        k <= out@.len(),
        forall|j: int| 0 <= j < k ==> call_ensures(*leq, (&out@[j], rec), true),
        k < out@.len() ==> call_ensures(*leq, (&out@[k as int], rec), false),
{
    let mut k: usize = 0;
    while k < out.len()
        invariant
            forall|a: &Record<T>, b: &Record<T>| #[trigger] call_requires(*leq, (a, b)),
            k <= out@.len(),
            forall|j: int| 0 <= j < k ==> call_ensures(*leq, (&out@[j], rec), true),
        decreases out@.len() - k,
    {
        if !(*leq)(&out[k], rec) {
            return k;
        }
        k = k + 1;
    }
    k
}

/// Inserts a record into a sorted vector, keeping it sorted.
fn insert_sorted<T: Recordable, F: Fn(&Record<T>, &Record<T>) -> bool>(
    out: &mut Vec<Record<T>>,
    rec: Record<T>,
    leq: &F,
)
    requires
        forall|a: &Record<T>, b: &Record<T>| #[trigger] call_requires(*leq, (a, b)),
        sorted_by_cmp(old(out)@, *leq),
    ensures
        final(out)@.to_multiset() == old(out)@.to_multiset().insert(rec),
        sorted_by_cmp(final(out)@, *leq),
{
    let k = find_insert_pos(out, &rec, leq);
    let ghost pre = out@;
    let ghost kk = k as int;
    out.insert(k, rec);
    proof {
        lemma_insert_multiset(pre, kk, rec);
        assert forall|i: int, j: int|
            #![trigger out@[i], out@[j]]
            0 <= i < out@.len() && j == i + 1 && j < out@.len() implies (call_ensures(
            *leq,
            (&out@[i], &out@[j]),
            true,
        ) || call_ensures(*leq, (&out@[j], &out@[i]), false)) by {
            let s = out@;
            if j < kk {
                assert(s[i] == pre[i] && s[j] == pre[j]);
            } else if i == kk - 1 && j == kk {
                assert(s[i] == pre[i] && s[j] == rec);
            } else if i == kk && j == kk + 1 {
                assert(s[i] == rec && s[j] == pre[kk]);
            } else {
                assert(s[i] == pre[i - 1] && s[j] == pre[j - 1]);
            }
        }
    }
}

/// Index of the record carrying `id`, when one does.
fn find_index<T: Recordable>(entries: &Vec<Record<T>>, id: &UniqueId) -> (r: Option<usize>)
    ensures
        match r {
            Some(k) => k < entries@.len() && entries@[k as int].id.0 == id.0,
            None => forall|k: int| 0 <= k < entries@.len() ==> entries@[k].id.0 != id.0,
        },
{
    let mut i: usize = 0;
    while i < entries.len()
        invariant
            i <= entries@.len(),
            forall|k: int| 0 <= k < i ==> entries@[k].id.0 != id.0,
        decreases entries@.len() - i,
    {
        if entries[i].id.0 == id.0 {
            return Some(i);
        }
        i = i + 1;
    }
    None
}

/// Inserts the record, overwriting the entry of its identifier when one
/// exists.
fn upsert_record<T: Recordable>(entries: &mut Vec<Record<T>>, rec: Record<T>)
    requires
        distinct_ids(old(entries)@),
    ensures
        distinct_ids(final(entries)@),
        entries_map(final(entries)@) == entries_map(old(entries)@).insert(rec.id.0, rec.data),
{
    let ghost pre = entries@;
    match find_index(entries, &rec.id) {
        Some(k) => {
            let ghost kk = k as int;
            entries.set(k, rec);
            proof {
                assert forall|i: int, j: int|
                    #![trigger entries@[i].id.0, entries@[j].id.0]
                    0 <= i < j < entries@.len() implies entries@[i].id.0 != entries@[j].id.0 by {
                    assert(pre[i].id.0 != pre[j].id.0);
                }
                lemma_entries_map_update(pre, kk, rec);
            }
        },
        None => {
            entries.push(rec);
            proof {
                assert(entries@.drop_last() =~= pre);
                assert forall|i: int, j: int|
                    #![trigger entries@[i].id.0, entries@[j].id.0]
                    0 <= i < j < entries@.len() implies entries@[i].id.0 != entries@[j].id.0 by {
                    if j < pre.len() {
                        assert(pre[i].id.0 != pre[j].id.0);
                    }
                }
            }
        },
    }
}

/// Removes the entry of `id`; a no-op when it is absent.
fn remove_record<T: Recordable>(entries: &mut Vec<Record<T>>, id: &UniqueId)
    requires
        distinct_ids(old(entries)@),
    ensures
        distinct_ids(final(entries)@),
        entries_map(final(entries)@) == entries_map(old(entries)@).remove(id.0),
{
    let ghost pre = entries@;
    match find_index(entries, id) {
        Some(k) => {
            let ghost kk = k as int;
            entries.remove(k);
            proof {
                assert forall|i: int, j: int|
                    #![trigger entries@[i].id.0, entries@[j].id.0]
                    0 <= i < j < entries@.len() implies entries@[i].id.0 != entries@[j].id.0 by {
                    let i0 = if i < kk {
                        i
                    } else {
                        i + 1
                    };
                    let j0 = if j < kk {
                        j
                    } else {
                        j + 1
                    };
                    assert(entries@[i] == pre[i0] && entries@[j] == pre[j0]);
                    assert(pre[i0].id.0 != pre[j0].id.0);
                }
                lemma_entries_map_remove(pre, kk);
            }
        },
        None => {
            proof {
                lemma_entries_map_props(pre);
                assert(!entries_map(pre).contains_key(id.0));
                assert(entries_map(pre) =~= entries_map(pre).remove(id.0));
            }
        },
    }
}

/// Replay of a log extended by one entry: an insert for a write, a removal
/// for a tombstone.
pub proof fn lemma_replay_push<T>(log: Seq<LogEntry<T>>, e: LogEntry<T>)
    ensures
        replay(log.push(e)) == (match e.1 {
            Some(v) => replay(log).insert(e.0, v),
            None => replay(log).remove(e.0),
        }),
{
    assert(log.push(e).drop_last() =~= log);
    assert(log.push(e).last() == e);
}

/// Law: appending one line to a file extends what the file denotes — the
/// longer file is accepted exactly when the shorter one was and the new
/// line parses, and then denotes the earlier entries with the new one at
/// the end.  Together with the lines the mutating operations hand back,
/// whose contracts say what they parse to, and with
/// [`lemma_replay_idempotent`], this is replay idempotence: reopening from
/// the written lines rebuilds the map the store held.
pub proof fn lemma_parse_lines_push<T: Recordable>(lines: Seq<Seq<char>>, line: Seq<char>)
    ensures
        parse_lines_model::<T>(lines.push(line)) == (match (
            parse_lines_model::<T>(lines),
            parse_line_model::<T>(line),
        ) {
            (Some(entries), Some(e)) => Some(entries.push(e)),
            _ => None::<Seq<LogEntry<T>>>,
        }),
{
    assert(lines.push(line).drop_last() =~= lines);
    assert(lines.push(line).last() == line);
}

/// A file with one rejected line is rejected as a whole.
proof fn lemma_parse_lines_bad<T: Recordable>(lines: Seq<Seq<char>>, i: int)
    requires
        0 <= i < lines.len(),
        parse_line_model::<T>(lines[i]) is None,
    ensures
        parse_lines_model::<T>(lines) is None,
    decreases lines.len(),
{
    if i < lines.len() - 1 {
        assert(lines.drop_last()[i] == lines[i]);
        lemma_parse_lines_bad::<T>(lines.drop_last(), i);
    }
}

/// In a duplicate-free record sequence, every record is in the map under
/// its identifier, and every key of the map belongs to some record.
pub proof fn lemma_entries_map_props<T: Recordable>(es: Seq<Record<T>>)
    requires
        distinct_ids(es),
    ensures
        forall|k: int|
            0 <= k < es.len() ==> entries_map(es).contains_key(#[trigger] es[k].id.0)
                && entries_map(es)[es[k].id.0] == es[k].data,
        forall|x: u128|
            #[trigger] entries_map(es).contains_key(x) ==> exists|k: int|
                0 <= k < es.len() && #[trigger] es[k].id.0 == x,
    decreases es.len(),
{
    if es.len() > 0 {
        let es0 = es.drop_last();
        assert forall|i: int, j: int|
            #![trigger es0[i].id.0, es0[j].id.0]
            0 <= i < j < es0.len() implies es0[i].id.0 != es0[j].id.0 by {
            assert(es[i].id.0 != es[j].id.0);
        }
        lemma_entries_map_props(es0);
        assert forall|k: int| 0 <= k < es.len() implies entries_map(es).contains_key(
            #[trigger] es[k].id.0,
        ) && entries_map(es)[es[k].id.0] == es[k].data by {
            if k < es.len() - 1 {
                assert(es0[k] == es[k]);
                assert(es[k].id.0 != es.last().id.0);
            }
        }
        assert forall|x: u128| #[trigger]
            entries_map(es).contains_key(x) implies exists|k: int|
            0 <= k < es.len() && #[trigger] es[k].id.0 == x by {
            if x == es.last().id.0 {
                assert(es[es.len() - 1].id.0 == x);
            } else {
                assert(entries_map(es0).contains_key(x));
                let k = choose|k: int| 0 <= k < es0.len() && #[trigger] es0[k].id.0 == x;
                assert(es[k].id.0 == x);
            }
        }
    }
}

/// Overwriting the record at `k` with one of the same identifier is an
/// insert on the map.
proof fn lemma_entries_map_update<T: Recordable>(es: Seq<Record<T>>, k: int, r: Record<T>)
    requires
        distinct_ids(es),
        0 <= k < es.len(),
        r.id.0 == es[k].id.0,
    ensures
        entries_map(es.update(k, r)) == entries_map(es).insert(r.id.0, r.data),
    decreases es.len(),
{
    let es2 = es.update(k, r);
    if k == es.len() - 1 {
        assert(es2.drop_last() =~= es.drop_last());
        assert(es2.last() == r);
        assert(entries_map(es.drop_last()).insert(r.id.0, r.data) =~= entries_map(
            es.drop_last(),
        ).insert(es.last().id.0, es.last().data).insert(r.id.0, r.data));
    } else {
        let es0 = es.drop_last();
        assert forall|i: int, j: int|
            #![trigger es0[i].id.0, es0[j].id.0]
            0 <= i < j < es0.len() implies es0[i].id.0 != es0[j].id.0 by {
            assert(es[i].id.0 != es[j].id.0);
        }
        lemma_entries_map_update(es0, k, r);
        assert(es2.drop_last() =~= es0.update(k, r));
        assert(es2.last() == es.last());
        assert(es[k].id.0 != es.last().id.0);
        assert(entries_map(es0).insert(r.id.0, r.data).insert(es.last().id.0, es.last().data)
            =~= entries_map(es0).insert(es.last().id.0, es.last().data).insert(r.id.0, r.data));
    }
}

/// Taking the record at `k` out is a removal on the map.
proof fn lemma_entries_map_remove<T: Recordable>(es: Seq<Record<T>>, k: int)
    requires
        distinct_ids(es),
        0 <= k < es.len(),
    ensures
        entries_map(es.remove(k)) == entries_map(es).remove(es[k].id.0),
    decreases es.len(),
{
    let x = es[k].id.0;
    let es0 = es.drop_last();
    assert forall|i: int, j: int|
        #![trigger es0[i].id.0, es0[j].id.0]
        0 <= i < j < es0.len() implies es0[i].id.0 != es0[j].id.0 by {
        assert(es[i].id.0 != es[j].id.0);
    }
    if k == es.len() - 1 {
        assert(es.remove(k) =~= es0);
        lemma_entries_map_props(es0);
        assert forall|i: int| 0 <= i < es0.len() implies es0[i].id.0 != x by {
            assert(es[i].id.0 != es[es.len() - 1].id.0);
        }
        assert(!entries_map(es0).contains_key(x));
        assert(entries_map(es0) =~= entries_map(es0).insert(es.last().id.0, es.last().data).remove(
            x,
        ));
    } else {
        lemma_entries_map_remove(es0, k);
        assert(es.remove(k).drop_last() =~= es0.remove(k));
        assert(es.remove(k).last() == es.last());
        assert(es[k].id.0 != es.last().id.0);
        assert(entries_map(es0).remove(x).insert(es.last().id.0, es.last().data) =~= entries_map(
            es0,
        ).insert(es.last().id.0, es.last().data).remove(x));
    }
}

/// Filtering one more record keeps it exactly when it matches.
proof fn lemma_matching_push<C: Criteria, T: Recordable>(c: C, s: Seq<Record<T>>, x: Record<T>)
    ensures
        matching_records(c, s.push(x)) == (if c.matches(
            x.data.timestamp_spec(),
            x.data.tags_spec(),
        ) {
            matching_records(c, s).push(x)
        } else {
            matching_records(c, s)
        }),
{
    reveal(Seq::filter);
    assert(s.push(x).drop_last() =~= s);
    assert(s.push(x).last() == x);
}

/// Inserting an element anywhere in a sequence inserts it in the multiset.
proof fn lemma_insert_multiset<A>(s: Seq<A>, k: int, x: A)
    requires
        0 <= k <= s.len(),
    ensures
        s.insert(k, x).to_multiset() == s.to_multiset().insert(x),
{
    let s2 = s.insert(k, x);
    assert(s2.remove(k) =~= s);
    assert(s2[k] == x);
    assert(s2.to_multiset().remove(x) =~= s.to_multiset());
    assert(s2.contains(x));
    assert(s2.to_multiset().count(x) > 0);
    assert forall|y: A| s2.to_multiset().count(y) == s.to_multiset().insert(x).count(y) by {
        if y == x {
            assert(s2.to_multiset().count(x) == s.to_multiset().count(x) + 1);
        } else {
            assert(s2.to_multiset().remove(x).count(y) == s2.to_multiset().count(y));
        }
    }
    assert(s2.to_multiset() =~= s.to_multiset().insert(x));
}

/// Law: the in-memory state of a well-formed series is exactly the replay
/// of its log, so reopening a store from the lines it wrote rebuilds the
/// same map.
pub proof fn lemma_replay_idempotent<T: Recordable>(s: Series<T>)
    requires
        s.wf(),
    ensures
        replay(s.log_view()) == s.as_map(),
{
}

/// Law: a tombstone is final — once a delete of `id` is appended, replay
/// lacks `id`, whatever earlier entries said of it.
pub proof fn lemma_tombstone_finality<T: Recordable>(log: Seq<LogEntry<T>>, id: u128)
    ensures
        replay(log.push((id, None::<T>))) == replay(log).remove(id),
        !replay(log.push((id, None::<T>))).contains_key(id),
{
    lemma_replay_push(log, (id, None::<T>));
}

/// Law: the last write wins — after writing `a` then `b` under one
/// identifier, replay holds exactly `b` for it, never `a`.
pub proof fn lemma_last_write_wins<T: Recordable>(log: Seq<LogEntry<T>>, id: u128, a: T, b: T)
    ensures
        replay(log.push((id, Some(a))).push((id, Some(b)))) == replay(log).insert(id, b),
        replay(log.push((id, Some(a))).push((id, Some(b))))[id] == b,
{
    lemma_replay_push(log, (id, Some(a)));
    lemma_replay_push(log.push((id, Some(a))), (id, Some(b)));
    assert(replay(log).insert(id, a).insert(id, b) =~= replay(log).insert(id, b));
}

/// Law: a search answers exactly — every record it returns satisfies the
/// criteria and stands in the store, and every stored record that
/// satisfies the criteria is returned.  With the clauses of
/// [`crate::criteria::time_range`] and [`crate::criteria::exact_time`]
/// this pins down time-range searches: a record is returned precisely when
/// its timestamp meets the boundary conditions, with the chosen
/// inclusivity.
pub proof fn lemma_search_exact<C: Criteria, T: Recordable>(c: C, recs: Seq<Record<T>>)
    ensures
        forall|i: int|
            0 <= i < matching_records(c, recs).len() ==> c.matches(
                (#[trigger] matching_records(c, recs)[i]).data.timestamp_spec(),
                matching_records(c, recs)[i].data.tags_spec(),
            ) && recs.contains(matching_records(c, recs)[i]),
        forall|i: int|
            0 <= i < recs.len() && c.matches(
                (#[trigger] recs[i]).data.timestamp_spec(),
                recs[i].data.tags_spec(),
            ) ==> matching_records(c, recs).contains(recs[i]),
    decreases recs.len(),
{
    if recs.len() > 0 {
        let prefix = recs.drop_last();
        let last = recs.last();
        lemma_search_exact(c, prefix);
        lemma_matching_push(c, prefix, last);
        assert(prefix.push(last) =~= recs);
        let m = matching_records(c, recs);
        let mp = matching_records(c, prefix);
        assert forall|i: int| 0 <= i < m.len() implies c.matches(
            (#[trigger] m[i]).data.timestamp_spec(),
            m[i].data.tags_spec(),
        ) && recs.contains(m[i]) by {
            if i < mp.len() {
                assert(m[i] == mp[i]);
                let k = choose|k: int| 0 <= k < prefix.len() && prefix[k] == mp[i];
                assert(recs[k] == m[i]);
            } else {
                assert(m[i] == last);
                assert(recs[recs.len() - 1] == last);
            }
        }
        assert forall|i: int|
            0 <= i < recs.len() && c.matches(
                (#[trigger] recs[i]).data.timestamp_spec(),
                recs[i].data.tags_spec(),
            ) implies m.contains(recs[i]) by {
            if i < recs.len() - 1 {
                assert(prefix[i] == recs[i]);
                assert(mp.contains(recs[i]));
                let k = choose|k: int| 0 <= k < mp.len() && mp[k] == recs[i];
                assert(m[k] == recs[i]);
            } else {
                assert(m[m.len() - 1] == last);
            }
        }
    }
}

/// Law: every live record stands in the map under its identifier, and
/// every key of the map belongs to exactly the record that carries it —
/// what `all_records` returns and what `get` answers agree.
pub proof fn lemma_records_map<T: Recordable>(s: Series<T>)
    requires
        s.wf(),
    ensures
        forall|k: int|
            0 <= k < s.recs().len() ==> s.as_map().contains_key(#[trigger] s.recs()[k].id.0)
                && s.as_map()[s.recs()[k].id.0] == s.recs()[k].data,
        forall|x: u128|
            #[trigger] s.as_map().contains_key(x) ==> exists|k: int|
                0 <= k < s.recs().len() && #[trigger] s.recs()[k].id.0 == x,
{
    lemma_entries_map_props(s.recs());
}

} // verus!
