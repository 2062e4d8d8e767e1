//! The table: one row of two text fields for each record identifier.
use vstd::prelude::*;

verus! {

/// The payload of a record: two text fields.
pub type Row = (String, String);

/// What a row holds.
pub type RowView = (Seq<char>, Seq<char>);

/// A record as a mathematical value: its identifier and its row.
pub type Record = (Seq<char>, RowView);

/// The views of a sequence of stored records.
pub open spec fn record_views(v: Seq<(String, Row)>) -> Seq<Record> {
    v.map_values(|e: (String, Row)| e@)
}

/// No identifier occurs twice in `r`.
pub open spec fn unique_keys(r: Seq<Record>) -> bool {
    forall|i: int, j: int|
        #![trigger r[i], r[j]]
        0 <= i < r.len() && 0 <= j < r.len() && i != j ==> r[i].0 != r[j].0
}

/// The map from identifier to row that the records `r` describe.
pub open spec fn records_map(r: Seq<Record>) -> Map<Seq<char>, RowView> {
    Map::new(
        |k: Seq<char>| exists|i: int| 0 <= i < r.len() && r[i].0 == k,
        |k: Seq<char>| r[choose|i: int| 0 <= i < r.len() && r[i].0 == k].1,
    )
}

/// In records with unique identifiers, each record is what the map holds for its identifier.
pub proof fn lemma_records_map_at(r: Seq<Record>, i: int)
    requires
        unique_keys(r),
        0 <= i < r.len(),
    ensures
        records_map(r).contains_key(r[i].0),
        records_map(r)[r[i].0] == r[i].1,
{
    let k = r[i].0;
    assert(exists|j: int| 0 <= j < r.len() && r[j].0 == k);
    let j = choose|j: int| 0 <= j < r.len() && r[j].0 == k;
    assert(r[i] == r[i] && r[j] == r[j]);
}

proof fn lemma_records_map_update(r: Seq<Record>, i: int, row: RowView)
    requires
        unique_keys(r),
        0 <= i < r.len(),
    ensures
        unique_keys(r.update(i, (r[i].0, row))),
        records_map(r.update(i, (r[i].0, row))) == records_map(r).insert(r[i].0, row),
{
    let k = r[i].0;
    let s = r.update(i, (k, row));
    assert forall|a: int, b: int|
        0 <= a < s.len() && 0 <= b < s.len() && a != b implies #[trigger] s[a].0 != #[trigger] s[b].0 by {
        assert(r[a] == r[a] && r[b] == r[b]);
    }
    assert forall|x: Seq<char>| records_map(s).contains_key(x) == records_map(r).insert(k, row).contains_key(x) by {
        if records_map(r).contains_key(x) {
            let j = choose|j: int| 0 <= j < r.len() && r[j].0 == x;
            assert(s[j].0 == x);
        }
        if records_map(s).contains_key(x) {
            let j = choose|j: int| 0 <= j < s.len() && s[j].0 == x;
            assert(r[j].0 == x);
        }
    }
    assert forall|x: Seq<char>| #[trigger] records_map(s).contains_key(x) implies records_map(s)[x] == records_map(r).insert(k, row)[x] by {
        let j = choose|j: int| 0 <= j < s.len() && s[j].0 == x;
        lemma_records_map_at(s, j);
        if j != i {
            lemma_records_map_at(r, j);
        }
    }
    assert(records_map(s) =~= records_map(r).insert(k, row));
}

proof fn lemma_records_map_push(r: Seq<Record>, k: Seq<char>, row: RowView)
    requires
        unique_keys(r),
        !records_map(r).contains_key(k),
    ensures
        unique_keys(r.push((k, row))),
        records_map(r.push((k, row))) == records_map(r).insert(k, row),
{
    let s = r.push((k, row));
    assert forall|a: int, b: int|
        0 <= a < s.len() && 0 <= b < s.len() && a != b implies #[trigger] s[a].0 != #[trigger] s[b].0 by {
        assert(r[a] == r[a] && r[b] == r[b]);
        if a == r.len() {
            assert(records_map(r).contains_key(r[b].0));
        }
        if b == r.len() {
            assert(records_map(r).contains_key(r[a].0));
        }
    }
    assert forall|x: Seq<char>| records_map(s).contains_key(x) == records_map(r).insert(k, row).contains_key(x) by {
        if records_map(r).contains_key(x) {
            let j = choose|j: int| 0 <= j < r.len() && r[j].0 == x;
            assert(s[j].0 == x);
        }
        if records_map(s).contains_key(x) {
            let j = choose|j: int| 0 <= j < s.len() && s[j].0 == x;
            if j < r.len() {
                assert(r[j].0 == x);
            }
        }
        if x == k {
            assert(s[r.len() as int].0 == x);
        }
    }
    assert forall|x: Seq<char>| #[trigger] records_map(s).contains_key(x) implies records_map(s)[x] == records_map(r).insert(k, row)[x] by {
        let j = choose|j: int| 0 <= j < s.len() && s[j].0 == x;
        lemma_records_map_at(s, j);
        if j < r.len() {
            lemma_records_map_at(r, j);
        }
    }
    assert(records_map(s) =~= records_map(r).insert(k, row));
}

/// The single in-memory table of a session.
pub struct Table {
    rows: Vec<(String, Row)>,
}

impl View for Table {
    type V = Map<Seq<char>, RowView>;

    open spec fn view(&self) -> Map<Seq<char>, RowView> {
        records_map(self.records())
    }
}

impl Table {
    /// The stored records, in the order in which they are kept.
    pub closed spec fn records(&self) -> Seq<Record> {
        record_views(self.rows@)
    }

    /// Each identifier is stored once.
    pub open spec fn wf(&self) -> bool {
        unique_keys(self.records())
    }

    /// An empty table.
    pub fn new() -> (r: Table)
        ensures
            r.wf(),
            r.records() == Seq::<Record>::empty(),
            r@ == Map::<Seq<char>, RowView>::empty(),
    {
        let r = Table { rows: Vec::new() };
        assert(r.records() =~= Seq::<Record>::empty());
        assert(r@ =~= Map::<Seq<char>, RowView>::empty());
        r
    }

    /// Stores `row` under `id`, replacing the row stored there before.
    pub fn insert(&mut self, id: String, row: Row)
        requires
            old(self).wf(),
        ensures
            final(self).wf(),
            final(self)@ == old(self)@.insert(id@, row@),
    {
        let ghost r0 = self.records();
        let n = self.rows.len();
        let mut i: usize = 0;
        while i < n
            invariant
                i <= n,
                n == self.rows@.len(),
                self.records() == r0,
                old(self).records() == r0,
                unique_keys(r0),
                forall|j: int| 0 <= j < i ==> (#[trigger] r0[j]).0 != id@,
            decreases n - i,
        {
            if self.rows[i].0 == id {
                assert(r0[i as int].0 == id@);
                proof {
                    lemma_records_map_update(r0, i as int, row@);
                }
                self.rows[i] = (id, row);
                assert(self.records() =~= r0.update(i as int, (r0[i as int].0, row@)));
                return;
            }
            i = i + 1;
        }
        proof {
            if records_map(r0).contains_key(id@) {
                let j = choose|j: int| 0 <= j < r0.len() && r0[j].0 == id@;
                assert(r0[j].0 != id@);
            }
            lemma_records_map_push(r0, id@, row@);
        }
        self.rows.push((id, row));
        assert(self.records() =~= r0.push((id@, row@)));
    }

    /// A copy of every stored record, in the order in which they are kept.
    pub fn select_all(&self) -> (r: Vec<(String, Row)>)
        ensures
            record_views(r@) == self.records(),
    {
        let mut out: Vec<(String, Row)> = Vec::new();
        let n = self.rows.len();
        let mut i: usize = 0;
        while i < n
            invariant
                i <= n,
                n == self.rows@.len(),
                record_views(out@) == self.records().take(i as int),
            decreases n - i,
        {
            let e = &self.rows[i];
            let copy = (e.0.clone(), (e.1.0.clone(), e.1.1.clone()));
            assert(copy@ == self.records()[i as int]);
            let ghost before = out@;
            out.push(copy);
            assert(record_views(out@) =~= record_views(before).push(copy@));
            assert(record_views(out@) =~= self.records().take(i + 1));
            i = i + 1;
        }
        assert(self.records().take(n as int) =~= self.records());
        out
    }
}

} // verus!
