//! The result cache: an append-only store that maps a backend and a query to
//! the rows fetched for them so far, and to the time of the last fetch.

use crate::model::{copy_rows, Engines, ResultRow, RowView};
use crate::text::same_text;
use vstd::prelude::*;

verus! {

/// What the cache holds for one backend and query.
pub struct RecordView {
    pub fetched_at: i64,
    pub rows: Seq<RowView>,
}

/// The key of a record: the backend and the query text.
pub type Key = (Engines, Seq<char>);

/// One record: the rows fetched so far for one backend and one query, in the
/// order in which they came, and when the last of them were fetched.
struct QueryRecord {
    backend_id: usize,
    query: String,
    fetched_at: i64,
    rows: Vec<ResultRow>,
}

/// The cache. A backend gets its identifier when it is first asked for, a
/// query record when rows are first appended for it; identifiers never change.
pub struct ResultCache {
    backends: Vec<Engines>,
    records: Vec<QueryRecord>,
}

impl View for ResultCache {
    type V = Map<Key, RecordView>;

    /// The records by key.
    closed spec fn view(&self) -> Map<Key, RecordView> {
        Map::new(
            |key: Key| exists|i: int| self.holds(i, key),
            |key: Key| self.record_at(choose|i: int| self.holds(i, key)),
        )
    }
}

impl ResultCache {
    /// The invariant of the cache: no backend has two identifiers, every record
    /// belongs to a backend that has one, and no two records share a key.
    pub closed spec fn wf(self) -> bool {
        &&& forall|i: int, j: int|
            0 <= i < j < self.backends@.len() ==> self.backends@[i] != self.backends@[j]
        &&& forall|i: int|
            0 <= i < self.records@.len() ==> (#[trigger] self.records@[i]).backend_id
                < self.backends@.len()
        &&& forall|i: int, j: int|
            0 <= i < j < self.records@.len() ==> !(self.records@[i].backend_id
                == self.records@[j].backend_id && self.records@[i].query@
                == self.records@[j].query@)
    }

    /// Record `i` exists and is the one for `key`.
    spec fn holds(self, i: int, key: Key) -> bool {
        &&& 0 <= i < self.records@.len()
        &&& self.records@[i].backend_id < self.backends@.len()
        &&& self.backends@[self.records@[i].backend_id as int] == key.0
        &&& self.records@[i].query@ == key.1
    }

    spec fn record_at(self, i: int) -> RecordView {
        RecordView {
            fetched_at: self.records@[i].fetched_at,
            rows: self.records@[i].rows.deep_view(),
        }
    }

    /// The identifier of each backend that has one.
    pub closed spec fn backend_ids(self) -> Map<Engines, usize> {
        Map::new(
            |engine: Engines|
                exists|i: int| 0 <= i < self.backends@.len() && self.backends@[i] == engine,
            |engine: Engines|
                (choose|i: int| 0 <= i < self.backends@.len() && self.backends@[i] == engine)
                    as usize,
        )
    }

    /// The backend that has the identifier `backend_id`, if one has it.
    pub closed spec fn backend_of(self, backend_id: usize) -> Option<Engines> {
        if backend_id < self.backends@.len() {
            Some(self.backends@[backend_id as int])
        } else {
            None
        }
    }

    /// The identifier of each record, by the identifier of its backend and its
    /// query.
    pub closed spec fn query_ids(self) -> Map<(usize, Seq<char>), usize> {
        Map::new(
            |key: (usize, Seq<char>)| exists|i: int| self.listed(i, key),
            |key: (usize, Seq<char>)| (choose|i: int| self.listed(i, key)) as usize,
        )
    }

    spec fn listed(self, i: int, key: (usize, Seq<char>)) -> bool {
        &&& 0 <= i < self.records@.len()
        &&& self.records@[i].backend_id == key.0
        &&& self.records@[i].query@ == key.1
    }

    /// The rows of the record with identifier `query_id`; none where there is no
    /// such record.
    pub closed spec fn stored(self, query_id: usize) -> Seq<RowView> {
        if query_id < self.records@.len() {
            self.records@[query_id as int].rows.deep_view()
        } else {
            Seq::empty()
        }
    }

    /// The rows cached for `engine` and `query`; none where nothing was ever
    /// appended for them.
    pub open spec fn rows(self, engine: Engines, query: Seq<char>) -> Seq<RowView> {
        if self@.contains_key((engine, query)) {
            self@[(engine, query)].rows
        } else {
            Seq::empty()
        }
    }

    /// Nothing that `before` held is lost or reordered: for every backend and
    /// query, the rows of `before` are the first rows of `self`. So no row count
    /// ever shrinks.
    pub open spec fn extends(self, before: ResultCache) -> bool {
        forall|engine: Engines, query: Seq<char>|
            (#[trigger] before.rows(engine, query)).is_prefix_of(self.rows(engine, query))
    }

    /// No row count shrinks from `before` to `self`.
    pub proof fn lemma_counts_grow(self, before: ResultCache, engine: Engines, query: Seq<char>)
        requires
            self.extends(before),
        ensures
            before.rows(engine, query).len() <= self.rows(engine, query).len(),
    {
        assert(before.rows(engine, query).is_prefix_of(self.rows(engine, query)));
    }

    /// Growth carries over a chain of calls.
    pub proof fn lemma_extends_chain(self, middle: ResultCache, before: ResultCache)
        requires
            middle.extends(before),
            self.extends(middle),
        ensures
            self.extends(before),
    {
        assert forall|engine: Engines, query: Seq<char>|
            (#[trigger] before.rows(engine, query)).is_prefix_of(self.rows(engine, query)) by {
            assert(before.rows(engine, query).is_prefix_of(middle.rows(engine, query)));
            assert(middle.rows(engine, query).is_prefix_of(self.rows(engine, query)));
        }
    }

    /// An empty cache.
    pub fn new() -> (cache: ResultCache)
        ensures
            cache.wf(),
            cache@ == Map::<Key, RecordView>::empty(),
            cache.backend_ids() == Map::<Engines, usize>::empty(),
            cache.query_ids() == Map::<(usize, Seq<char>), usize>::empty(),
    {
        let cache = ResultCache { backends: Vec::new(), records: Vec::new() };
        assert(cache@ =~= Map::<Key, RecordView>::empty());
        assert(cache.backend_ids() =~= Map::<Engines, usize>::empty());
        assert(cache.query_ids() =~= Map::<(usize, Seq<char>), usize>::empty());
        cache
    }

    /// The record at a position is the one its key maps to.
    proof fn lemma_holds(self, i: int, key: Key)
        requires
            self.wf(),
            self.holds(i, key),
        ensures
            self@.contains_key(key),
            self@[key] == self.record_at(i),
    {
        let j = choose|j: int| self.holds(j, key);
        assert(self.holds(j, key));
        assert(i == j);
    }

    /// A key that is mapped has a record at some position.
    proof fn lemma_held(self, key: Key) -> (i: int)
        requires
            self@.contains_key(key),
        ensures
            self.holds(i, key),
            self@[key] == self.record_at(i),
    {
        choose|i: int| self.holds(i, key)
    }

    /// The identifier of a record is its position.
    proof fn lemma_listed(self, i: int, key: (usize, Seq<char>))
        requires
            self.wf(),
            self.listed(i, key),
        ensures
            self.query_ids().contains_key(key),
            self.query_ids()[key] == i,
    {
        let j = choose|j: int| self.listed(j, key);
        assert(self.listed(j, key));
        assert(i == j);
        assert(self.records.len() == self.records@.len());
    }

    /// The identifier of a backend is its position.
    proof fn lemma_backend(self, i: int, engine: Engines)
        requires
            self.wf(),
            0 <= i < self.backends@.len(),
            self.backends@[i] == engine,
        ensures
            self.backend_ids().contains_key(engine),
            self.backend_ids()[engine] == i,
    {
        let j = choose|j: int| 0 <= j < self.backends@.len() && self.backends@[j] == engine;
        assert(i == j);
        assert(self.backends.len() == self.backends@.len());
    }

    /// An identifier belongs to a backend exactly where the backend has that
    /// identifier.
    pub proof fn lemma_backend_of(self, engine: Engines, backend_id: usize)
        requires
            self.wf(),
        ensures
            self.backend_of(backend_id) == Some(engine) <==> self.backend_ids().contains_key(
                engine,
            ) && self.backend_ids()[engine] == backend_id,
    {
        if self.backend_of(backend_id) == Some(engine) {
            self.lemma_backend(backend_id as int, engine);
        }
        if self.backend_ids().contains_key(engine) {
            self.lemma_backend_at(engine);
        }
    }

    /// A backend's identifier is a position that holds it.
    proof fn lemma_backend_at(self, engine: Engines)
        requires
            self.wf(),
            self.backend_ids().contains_key(engine),
        ensures
            self.backend_ids()[engine] < self.backends@.len(),
            self.backends@[self.backend_ids()[engine] as int] == engine,
    {
        let j = choose|j: int| 0 <= j < self.backends@.len() && self.backends@[j] == engine;
        self.lemma_backend(j, engine);
    }

    /// The position of `engine` among the backends that have an identifier.
    fn find_backend(&self, engine: Engines) -> (found: Option<usize>)
        requires
            self.wf(),
        ensures
            match found {
                Some(i) => i < self.backends@.len() && self.backends@[i as int] == engine
                    && self.backend_ids().contains_key(engine) && self.backend_ids()[engine] == i,
                None => !self.backend_ids().contains_key(engine),
            },
    {
        let mut i: usize = 0;
        while i < self.backends.len()
            invariant
                self.wf(),
                i <= self.backends@.len(),
                forall|k: int| 0 <= k < i ==> self.backends@[k] != engine,
            decreases self.backends@.len() - i,
        {
            if self.backends[i] == engine {
                proof {
                    self.lemma_backend(i as int, engine);
                }
                return Some(i);
            }
            i += 1;
        }
        None
    }

    /// The identifier of `engine`, created if it has none yet. Asking again
    /// returns the same identifier and changes nothing.
    pub fn get_backend_id(&mut self, engine: Engines) -> (id: usize)
        requires
            old(self).wf(),
        ensures
            final(self).wf(),
            old(self).backend_ids().contains_key(engine) ==> id == old(self).backend_ids()[engine],
            final(self).backend_ids() == old(self).backend_ids().insert(engine, id),
            final(self).backend_of(id) == Some(engine),
            forall|other: usize|
                other != id ==> final(self).backend_of(other) == old(self).backend_of(other),
            final(self)@ == old(self)@,
            final(self).query_ids() == old(self).query_ids(),
            forall|query_id: usize|
                final(self).stored(query_id) == old(self).stored(query_id),
            forall|query_id: usize|
                final(self).last_fetch(query_id) == old(self).last_fetch(query_id),
    {
        match self.find_backend(engine) {
            Some(i) => {
                assert(self.backend_ids() =~= self.backend_ids().insert(engine, i));
                i
            },
            None => {
                let id = self.backends.len();
                let ghost before = *self;
                self.backends.push(engine);
                proof {
                    assert(self.backends@[id as int] == engine);
                    assert(self.wf());
                    assert forall|key: Key| #[trigger]
                        self@.contains_key(key) == before@.contains_key(key) && (self@.contains_key(
                            key,
                        ) ==> self@[key] == before@[key]) by {
                        if self@.contains_key(key) {
                            let i = self.lemma_held(key);
                            assert(before.holds(i, key));
                            before.lemma_holds(i, key);
                        }
                        if before@.contains_key(key) {
                            let i = before.lemma_held(key);
                            assert(self.holds(i, key));
                            self.lemma_holds(i, key);
                        }
                    }
                    assert(self@ =~= before@);
                    self.lemma_backend(id as int, engine);
                    assert forall|e: Engines| #[trigger]
                        self.backend_ids().contains_key(e) == before.backend_ids().insert(
                            engine,
                            id,
                        ).contains_key(e) && (self.backend_ids().contains_key(e)
                            ==> self.backend_ids()[e] == before.backend_ids().insert(
                            engine,
                            id,
                        )[e]) by {
                        if before.backend_ids().contains_key(e) {
                            let i = choose|i: int|
                                0 <= i < before.backends@.len() && before.backends@[i] == e;
                            before.lemma_backend(i, e);
                            self.lemma_backend(i, e);
                        }
                        if self.backend_ids().contains_key(e) && e != engine {
                            let i = choose|i: int|
                                0 <= i < self.backends@.len() && self.backends@[i] == e;
                            self.lemma_backend(i, e);
                            before.lemma_backend(i, e);
                        }
                    }
                    assert(self.backend_ids() =~= before.backend_ids().insert(engine, id));
                    assert forall|key: (usize, Seq<char>)| #[trigger]
                        self.query_ids().contains_key(key) == before.query_ids().contains_key(key)
                            && (self.query_ids().contains_key(key) ==> self.query_ids()[key]
                            == before.query_ids()[key]) by {
                        if self.query_ids().contains_key(key) {
                            let i = choose|i: int| self.listed(i, key);
                            assert(before.listed(i, key));
                            self.lemma_listed(i, key);
                            before.lemma_listed(i, key);
                        }
                        if before.query_ids().contains_key(key) {
                            let i = choose|i: int| before.listed(i, key);
                            assert(self.listed(i, key));
                            self.lemma_listed(i, key);
                            before.lemma_listed(i, key);
                        }
                    }
                    assert(self.query_ids() =~= before.query_ids());
                }
                id
            },
        }
    }

    /// The position of the record of backend `backend_id` and `query`.
    fn find_record(&self, backend_id: usize, query: &str) -> (found: Option<usize>)
        requires
            self.wf(),
        ensures
            match found {
                Some(i) => self.listed(i as int, (backend_id, query@)),
                None => forall|i: int| !self.listed(i, (backend_id, query@)),
            },
    {
        let mut i: usize = 0;
        while i < self.records.len()
            invariant
                i <= self.records@.len(),
                forall|k: int| 0 <= k < i ==> !self.listed(k, (backend_id, query@)),
            decreases self.records@.len() - i,
        {
            if self.records[i].backend_id == backend_id && same_text(
                self.records[i].query.as_str(),
                query,
            ) {
                return Some(i);
            }
            i += 1;
        }
        None
    }

    /// The identifier of the record that backend `backend_id` has for `query`,
    /// if rows were ever appended for them.
    pub fn get_query_record(&self, query: &str, backend_id: usize) -> (found: Option<usize>)
        requires
            self.wf(),
        ensures
            found is Some <==> self.query_ids().contains_key((backend_id, query@)),
            found matches Some(id) ==> id == self.query_ids()[(backend_id, query@)],
    {
        let found = self.find_record(backend_id, query);
        proof {
            match found {
                Some(i) => {
                    self.lemma_listed(i as int, (backend_id, query@));
                },
                None => {},
            }
        }
        found
    }

    /// The rows of the record `query_id` in the order in which they were
    /// appended; none where there is no such record.
    pub fn get_rows(&self, query_id: usize) -> (rows: Vec<ResultRow>)
        requires
            self.wf(),
        ensures
            rows.deep_view() == self.stored(query_id),
    {
        if query_id < self.records.len() {
            let stored = &self.records[query_id].rows;
            let rows = copy_rows(stored, 0, stored.len());
            assert(stored.deep_view().subrange(0, stored.len() as int) =~= stored.deep_view());
            rows
        } else {
            let rows: Vec<ResultRow> = Vec::new();
            assert(rows.deep_view() =~= Seq::<RowView>::empty());
            rows
        }
    }

    /// When rows were last appended to the record `query_id`; `None` where there
    /// is no such record.
    pub closed spec fn last_fetch(self, query_id: usize) -> Option<i64> {
        if query_id < self.records@.len() {
            Some(self.records@[query_id as int].fetched_at)
        } else {
            None
        }
    }

    /// When rows were last appended to the record `query_id`.
    pub fn get_fetched_at(&self, query_id: usize) -> (at: Option<i64>)
        requires
            self.wf(),
        ensures
            at == self.last_fetch(query_id),
    {
        if query_id < self.records.len() {
            Some(self.records[query_id].fetched_at)
        } else {
            None
        }
    }

    /// The identifiers and the keyed view speak of the same records: where
    /// `engine` has the identifier `backend_id`, the record that `backend_id` has
    /// for `query` is the one that the cache maps `engine` and `query` to.
    pub proof fn lemma_ids_agree(self, engine: Engines, backend_id: usize, query: Seq<char>)
        requires
            self.wf(),
            self.backend_ids().contains_key(engine),
            self.backend_ids()[engine] == backend_id,
        ensures
            self@.contains_key((engine, query)) <==> self.query_ids().contains_key(
                (backend_id, query),
            ),
            self@.contains_key((engine, query)) ==> self.stored(
                self.query_ids()[(backend_id, query)],
            ) == self@[(engine, query)].rows,
            self@.contains_key((engine, query)) ==> self.last_fetch(
                self.query_ids()[(backend_id, query)],
            ) == Some(self@[(engine, query)].fetched_at),
    {
        let b = choose|b: int| 0 <= b < self.backends@.len() && self.backends@[b] == engine;
        self.lemma_backend(b, engine);
        if self@.contains_key((engine, query)) {
            let i = self.lemma_held((engine, query));
            assert(self.records@[i].backend_id == backend_id);
            self.lemma_listed(i, (backend_id, query));
        }
        if self.query_ids().contains_key((backend_id, query)) {
            let i = choose|i: int| self.listed(i, (backend_id, query));
            self.lemma_listed(i, (backend_id, query));
            assert(self.holds(i, (engine, query)));
            self.lemma_holds(i, (engine, query));
        }
    }

    /// What a change to the one record at position `i` does to the maps, where
    /// every other record and all backends are as in `before`.
    proof fn lemma_after_change(
        self,
        before: ResultCache,
        i: int,
        key: Key,
        id_key: (usize, Seq<char>),
    )
        requires
            self.wf(),
            before.wf(),
            self.backends@ == before.backends@,
            self.holds(i, key),
            self.listed(i, id_key),
            self.records@.len() == before.records@.len() || (self.records@.len()
                == before.records@.len() + 1 && i == before.records@.len()),
            forall|j: int|
                0 <= j < before.records@.len() && j != i ==> self.records@[j] == before.records@[j],
            i < before.records@.len() ==> before.holds(i, key) && before.listed(i, id_key),
        ensures
            self@ == before@.insert(key, self.record_at(i)),
            self.backend_ids() == before.backend_ids(),
            self.query_ids() == before.query_ids().insert(id_key, i as usize),
            forall|other: usize|
                other != i ==> self.stored(other) == before.stored(other) && self.last_fetch(other)
                    == before.last_fetch(other),
    {
        assert(self.backend_ids() =~= before.backend_ids());
        self.lemma_holds(i, key);
        self.lemma_listed(i, id_key);
        assert forall|k: Key| #[trigger]
            self@.contains_key(k) == before@.insert(key, self.record_at(i)).contains_key(k) && (
            self@.contains_key(k) ==> self@[k] == before@.insert(key, self.record_at(i))[k]) by {
            if k != key {
                if self@.contains_key(k) {
                    let j = self.lemma_held(k);
                    assert(j != i);
                    assert(before.holds(j, k));
                    before.lemma_holds(j, k);
                }
                if before@.contains_key(k) {
                    let j = before.lemma_held(k);
                    assert(j != i);
                    assert(self.holds(j, k));
                    self.lemma_holds(j, k);
                }
            }
        }
        assert(self@ =~= before@.insert(key, self.record_at(i)));
        assert forall|k: (usize, Seq<char>)| #[trigger]
            self.query_ids().contains_key(k) == before.query_ids().insert(
                id_key,
                i as usize,
            ).contains_key(k) && (self.query_ids().contains_key(k) ==> self.query_ids()[k]
                == before.query_ids().insert(id_key, i as usize)[k]) by {
            if k != id_key {
                if self.query_ids().contains_key(k) {
                    let j = choose|j: int| self.listed(j, k);
                    assert(j != i);
                    assert(before.listed(j, k));
                    self.lemma_listed(j, k);
                    before.lemma_listed(j, k);
                }
                if before.query_ids().contains_key(k) {
                    let j = choose|j: int| before.listed(j, k);
                    assert(j != i);
                    assert(self.listed(j, k));
                    self.lemma_listed(j, k);
                    before.lemma_listed(j, k);
                }
            }
        }
        assert(self.query_ids() =~= before.query_ids().insert(id_key, i as usize));
    }

    /// Appends `new_rows` after the rows that the backend `backend_id` has for
    /// `query` and sets the time of the last fetch. The query gets a record where
    /// it had none. Returns the record's identifier; with an identifier that no
    /// backend has, nothing is stored and `None` is returned.
    pub fn append_rows(
        &mut self,
        backend_id: usize,
        query: &str,
        new_rows: Vec<ResultRow>,
        fetched_at: i64,
    ) -> (id: Option<usize>)
        requires
            old(self).wf(),
        ensures
            final(self).wf(),
            final(self).extends(*old(self)),
            final(self).backend_ids() == old(self).backend_ids(),
            forall|other: usize| final(self).backend_of(other) == old(self).backend_of(other),
            match old(self).backend_of(backend_id) {
                None => {
                    &&& id is None
                    &&& final(self)@ == old(self)@
                    &&& final(self).query_ids() == old(self).query_ids()
                    &&& forall|other: usize| final(self).stored(other) == old(self).stored(other)
                    &&& forall|other: usize|
                        final(self).last_fetch(other) == old(self).last_fetch(other)
                },
                Some(engine) => {
                    &&& id matches Some(record)
                    &&& final(self)@ == old(self)@.insert(
                        (engine, query@),
                        RecordView {
                            fetched_at,
                            rows: old(self).rows(engine, query@) + new_rows.deep_view(),
                        },
                    )
                    &&& final(self).query_ids() == old(self).query_ids().insert(
                        (backend_id, query@),
                        record,
                    )
                    &&& final(self).stored(record) == old(self).rows(engine, query@)
                        + new_rows.deep_view()
                    &&& final(self).last_fetch(record) == Some(fetched_at)
                    &&& forall|other: usize|
                        other != record ==> final(self).stored(other) == old(self).stored(other)
                    &&& forall|other: usize|
                        other != record ==> final(self).last_fetch(other) == old(
                            self,
                        ).last_fetch(other)
                },
            },
    {
        if backend_id >= self.backends.len() {
            return None;
        }
        let mut new_rows = new_rows;
        let ghost mid = *self;
        let ghost engine = self.backends@[backend_id as int];
        let ghost key: Key = (engine, query@);
        let ghost added = new_rows.deep_view();
        proof {
            mid.lemma_backend(backend_id as int, engine);
        }
        match self.find_record(backend_id, query) {
            Some(i) => {
                self.records[i].fetched_at = fetched_at;
                self.records[i].rows.append(&mut new_rows);
                proof {
                    assert(self.records@[i as int].rows.deep_view() =~= mid.records@[i
                        as int].rows.deep_view() + added);
                    assert(mid.holds(i as int, key));
                    mid.lemma_holds(i as int, key);
                    assert(self.wf());
                    self.lemma_after_change(mid, i as int, key, (backend_id, query@));
                }
                Some(i)
            },
            None => {
                let id = self.records.len();
                let record = QueryRecord {
                    backend_id,
                    query: query.to_owned(),
                    fetched_at,
                    rows: new_rows,
                };
                self.records.push(record);
                proof {
                    assert(self.records@[id as int].rows.deep_view() =~= Seq::<RowView>::empty()
                        + added);
                    assert(!mid@.contains_key(key)) by {
                        if mid@.contains_key(key) {
                            let j = mid.lemma_held(key);
                            mid.lemma_backend(mid.records@[j].backend_id as int, engine);
                            assert(mid.listed(j, (backend_id, query@)));
                        }
                    }
                    assert forall|a: int, b: int| 0 <= a < b < self.records@.len() implies !(
                    self.records@[a].backend_id == self.records@[b].backend_id
                        && self.records@[a].query@ == self.records@[b].query@) by {
                        if b == id {
                            assert(!mid.listed(a, (backend_id, query@)));
                        }
                    }
                    assert(self.wf());
                    self.lemma_after_change(mid, id as int, key, (backend_id, query@));
                }
                Some(id)
            },
        }
    }
}

} // verus!
