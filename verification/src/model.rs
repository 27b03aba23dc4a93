//! The plain data that every other module passes around.

use vstd::prelude::*;

verus! {

/// The closed set of search backends.
#[derive(Debug, Clone, Copy, PartialEq, Eq, Structural, Hash)]
pub enum Engines {
    Google,
    DuckDuckGo,
    Bing,
    Brave,
}

/// One scraped result. Its identity is its position in the record that owns it.
#[derive(Debug)]
pub struct ResultRow {
    pub url: String,
    pub title: String,
    pub description: String,
}

/// What a `ResultRow` is to a contract: its three texts.
pub struct RowView {
    pub url: Seq<char>,
    pub title: Seq<char>,
    pub description: Seq<char>,
}

impl View for ResultRow {
    type V = RowView;

    open spec fn view(&self) -> RowView {
        RowView { url: self.url@, title: self.title@, description: self.description@ }
    }
}

impl DeepView for ResultRow {
    type V = RowView;

    open spec fn deep_view(&self) -> RowView {
        self@
    }
}

impl Clone for ResultRow {
    fn clone(&self) -> (copy: Self)
        ensures
            copy@ == self@,
    {
        ResultRow {
            url: self.url.clone(),
            title: self.title.clone(),
            description: self.description.clone(),
        }
    }
}

/// A copy of `rows[from..to]`.
pub fn copy_rows(rows: &Vec<ResultRow>, from: usize, to: usize) -> (copy: Vec<ResultRow>)
    requires
        from <= to <= rows.len(),
    ensures
        copy.deep_view() == rows.deep_view().subrange(from as int, to as int),
{
    let mut copy: Vec<ResultRow> = Vec::new();
    let mut i: usize = from;
    while i < to
        invariant
            from <= i <= to <= rows.len(),
            copy.deep_view() == rows.deep_view().subrange(from as int, i as int),
        decreases to - i,
    {
        let ghost before = copy.deep_view();
        copy.push(rows[i].clone());
        assert(copy.deep_view() =~= before.push(rows[i as int]@));
        assert(rows.deep_view().subrange(from as int, i + 1) =~= rows.deep_view().subrange(
            from as int,
            i as int,
        ).push(rows[i as int]@));
        i += 1;
    }
    assert(rows.deep_view().subrange(from as int, from as int) =~= Seq::<RowView>::empty()) by {}
    copy
}

/// A row as it is handed to the caller: the row, the backend it came from, and
/// whether it was served from the cache or fetched during the call.
#[derive(Debug)]
pub struct WebSiteResult {
    pub url: String,
    pub title: String,
    pub description: String,
    pub engine: Engines,
    pub cached: bool,
}

/// What a `WebSiteResult` is to a contract.
pub struct ResultView {
    pub row: RowView,
    pub engine: Engines,
    pub cached: bool,
}

impl View for WebSiteResult {
    type V = ResultView;

    open spec fn view(&self) -> ResultView {
        ResultView {
            row: RowView { url: self.url@, title: self.title@, description: self.description@ },
            engine: self.engine,
            cached: self.cached,
        }
    }
}

impl DeepView for WebSiteResult {
    type V = ResultView;

    open spec fn deep_view(&self) -> ResultView {
        self@
    }
}

impl Clone for WebSiteResult {
    fn clone(&self) -> (copy: Self)
        ensures
            copy@ == self@,
    {
        WebSiteResult {
            url: self.url.clone(),
            title: self.title.clone(),
            description: self.description.clone(),
            engine: self.engine,
            cached: self.cached,
        }
    }
}

/// `rows`, each tagged with `engine` and `cached`.
pub open spec fn tagged(rows: Seq<RowView>, engine: Engines, cached: bool) -> Seq<ResultView> {
    rows.map_values(|row: RowView| ResultView { row, engine, cached })
}

/// The rows of `results` without their tags.
pub open spec fn untagged(results: Seq<ResultView>) -> Seq<RowView> {
    results.map_values(|result: ResultView| result.row)
}

impl WebSiteResult {
    /// `row` as served by `engine`, from the cache or not.
    pub fn from_row(row: &ResultRow, engine: Engines, cached: bool) -> (result: WebSiteResult)
        ensures
            result@ == (ResultView { row: row@, engine, cached }),
    {
        WebSiteResult {
            url: row.url.clone(),
            title: row.title.clone(),
            description: row.description.clone(),
            engine,
            cached,
        }
    }
}

} // verus!
