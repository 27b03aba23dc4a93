//! The DuckDuckGo engine: the session token, the pages of results, and what a
//! page of HTML yields.

use crate::aggregator::served;
use crate::breaker::Breaker;
use crate::clock::now;
use crate::dom::{collect_text, Node, SkipRule};
use crate::engine::EngineError;
use crate::html::{
    attribute, compile_selector, element_attr, element_text, element_tree, first_in_document,
    first_selected, parse_document, select_in_element, selected_below, selector_compiles,
    subtree, text_below, Css, Page,
};
use crate::model::{copy_rows, Engines, ResultRow, RowView};
use crate::pattern::{capture, captured};
use crate::redirect::{destination, is_sponsored, resolve, sponsored, unsponsored};
use crate::text::{contains, decimal, is_substring, same_text, to_decimal};
use vstd::prelude::*;
use vstd::string::*;

verus! {

/// What only this engine can fail with.
#[derive(Debug, Clone, Copy, PartialEq, Eq, Structural)]
pub enum Error {
    /// The session token could not be found.
    VqdUnknown,
}

/// The skip rule of a result block: the title heading and the element that
/// displays the address do not belong to the snippet.
#[derive(Debug, Clone, Copy, PartialEq, Eq, Structural)]
pub struct TitleAndUrl;

impl SkipRule for TitleAndUrl {
    open spec fn skips(&self, tag: Seq<char>, class: Seq<char>) -> bool {
        tag == "h2"@ || is_substring("result__url"@, class)
    }

    fn should_skip(&self, tag: &str, class: &str) -> (skip: bool) {
        same_text(tag, "h2") || contains(class, "result__url")
    }
}

/// What one result block of a page holds, before any rule is applied.
pub struct RawBlock {
    /// The text of the heading link, if the block has one.
    pub title: Option<String>,
    /// The `href` of the block's primary link, if it has one with an `href`.
    pub href: Option<String>,
    /// The block itself.
    pub body: Node,
}

/// A result block as a contract sees it.
pub struct BlockView {
    pub title: Option<Seq<char>>,
    pub href: Option<Seq<char>>,
    pub body: Node,
}

impl DeepView for RawBlock {
    type V = BlockView;

    open spec fn deep_view(&self) -> BlockView {
        BlockView {
            title: self.title.deep_view(),
            href: self.href.deep_view(),
            body: self.body,
        }
    }
}

/// An optional text: empty where there is none.
pub open spec fn text_or_empty(text: Option<Seq<char>>) -> Seq<char> {
    match text {
        Some(t) => t,
        None => Seq::empty(),
    }
}

/// The row that a block stands for: where its link leads, its title, and as
/// the description the text of the block without title and address.
pub open spec fn block_row(block: BlockView) -> RowView {
    RowView {
        url: match block.href {
            Some(href) => destination(href),
            None => Seq::empty(),
        },
        title: text_or_empty(block.title),
        description: block.body.text(TitleAndUrl),
    }
}

/// The rows of the first `upto` blocks, paid placements left out.
pub open spec fn accepted(blocks: Seq<BlockView>, upto: nat) -> Seq<RowView>
    decreases upto,
{
    if 0 < upto <= blocks.len() {
        let row = block_row(blocks[upto - 1]);
        if sponsored(row.url) {
            accepted(blocks, (upto - 1) as nat)
        } else {
            accepted(blocks, (upto - 1) as nat).push(row)
        }
    } else {
        Seq::empty()
    }
}

/// No accepted row is a paid placement, and there are no more rows than
/// blocks.
pub proof fn lemma_accepted_rows(blocks: Seq<BlockView>, upto: nat)
    requires
        upto <= blocks.len(),
    ensures
        accepted(blocks, upto).len() <= upto,
        unsponsored(accepted(blocks, upto), 0),
    decreases upto,
{
    if upto > 0 {
        lemma_accepted_rows(blocks, (upto - 1) as nat);
    }
}

/// The description of a result block: the text below it, title and address
/// left out, fragments joined by single spaces.
pub fn extract_snippet(result: &Node) -> (snippet: String)
    ensures
        snippet@ == result.text(TitleAndUrl),
{
    collect_text(result, &TitleAndUrl)
}

/// Appends to `results` the rows of `blocks` in their order, paid placements
/// left out, and returns how many rows were appended.
pub fn accept_blocks(results: &mut Vec<ResultRow>, blocks: &Vec<RawBlock>) -> (count: usize)
    ensures
        final(results).deep_view() == old(results).deep_view() + accepted(
            blocks.deep_view(),
            blocks.len() as nat,
        ),
        count == accepted(blocks.deep_view(), blocks.len() as nat).len(),
        unsponsored(final(results).deep_view(), old(results).len() as int),
{
    let mut count: usize = 0;
    let mut i: usize = 0;
    let ghost before = results.deep_view();
    let ghost views = blocks.deep_view();
    proof {
        assert(results.deep_view() =~= before + accepted(views, 0));
    }
    while i < blocks.len()
        invariant
            i <= blocks.len(),
            views == blocks.deep_view(),
            views.len() == blocks.len(),
            results.deep_view() == before + accepted(views, i as nat),
            count == accepted(views, i as nat).len(),
        decreases blocks.len() - i,
    {
        proof {
            lemma_accepted_rows(views, i as nat);
        }
        let block = &blocks[i];
        assert(views[i as int] == block.deep_view());
        let url = match &block.href {
            Some(href) => resolve(href.as_str()),
            None => String::new(),
        };
        if !is_sponsored(url.as_str()) {
            let title = match &block.title {
                Some(title) => title.clone(),
                None => String::new(),
            };
            let description = extract_snippet(&block.body);
            let ghost rows = results.deep_view();
            let row = ResultRow { url, title, description };
            assert(row@ == block_row(views[i as int]));
            results.push(row);
            assert(results.deep_view() =~= rows.push(block_row(views[i as int])));
            assert(results.deep_view() =~= before + accepted(views, (i + 1) as nat));
            count += 1;
        }
        i += 1;
    }
    proof {
        lemma_accepted_rows(views, views.len());
    }
    count
}

/// The selector of the container that holds the results of a page.
pub open spec fn links_css() -> Seq<char> {
    "#links"@
}

/// The selector of one result block.
pub open spec fn result_css() -> Seq<char> {
    "div.result"@
}

/// The selector of the heading link of a block.
pub open spec fn title_css() -> Seq<char> {
    "h2 a"@
}

/// The selector of the link that shows the address of a block.
pub open spec fn url_css() -> Seq<char> {
    "a.result__url"@
}

/// Whether the HTML library accepts the four selectors of a results page.
pub open spec fn selectors_compile() -> bool {
    &&& selector_compiles(links_css())
    &&& selector_compiles(result_css())
    &&& selector_compiles(title_css())
    &&& selector_compiles(url_css())
}

/// The first of the elements that were found, if any was.
pub open spec fn first_of(found: Seq<usize>) -> Option<usize> {
    if found.len() > 0 {
        Some(found[0])
    } else {
        None
    }
}

/// What the element `node` of `document` holds as a result block, where `title`
/// selects heading links and `url` address links: the text of its first heading
/// link, the `href` of its first address link, and the element itself with all
/// that is below it.
pub open spec fn block_at(document: Seq<char>, node: usize, title: Seq<char>, url: Seq<char>) -> BlockView {
    BlockView {
        title: match first_of(selected_below(document, node, title)) {
            Some(link) => text_below(document, link),
            None => None,
        },
        href: match first_of(selected_below(document, node, url)) {
            Some(link) => attribute(document, link, "href"@),
            None => None,
        },
        body: match subtree(document, node) {
            Some(tree) => tree,
            None => Node::Other,
        },
    }
}

/// The result blocks of `document`, where `links` selects the container of the
/// results, `result` the blocks, `title` heading links and `url` address links:
/// the blocks below the first container, in document order; none where the
/// document has no container.
pub open spec fn blocks_of(
    document: Seq<char>,
    links: Seq<char>,
    result: Seq<char>,
    title: Seq<char>,
    url: Seq<char>,
) -> Seq<BlockView> {
    match first_selected(document, links) {
        Some(container) => selected_below(document, container, result).map_values(
            |node: usize| block_at(document, node, title, url),
        ),
        None => Seq::empty(),
    }
}

/// The result blocks of a results page.
pub open spec fn page_blocks(document: Seq<char>) -> Seq<BlockView> {
    blocks_of(document, links_css(), result_css(), title_css(), url_css())
}

/// The rows of a results page: those of its result blocks, paid placements left
/// out.
pub open spec fn page_rows(document: Seq<char>) -> Seq<RowView> {
    accepted(page_blocks(document), page_blocks(document).len())
}

/// The four selectors of a results page.
struct Selectors {
    links: Css<'static>,
    result: Css<'static>,
    title: Css<'static>,
    url: Css<'static>,
}

/// Compiles the selectors of a results page: the container of the results, a
/// result block, the heading link of a block and its address link. `None` where
/// the HTML library refuses one of them.
fn selectors() -> (found: Option<Selectors>)
    ensures
        found is Some <==> selectors_compile(),
        found matches Some(compiled) ==> {
            &&& compiled.links@ == links_css()
            &&& compiled.result@ == result_css()
            &&& compiled.title@ == title_css()
            &&& compiled.url@ == url_css()
        },
{
    let links = compile_selector("#links")?;
    let result = compile_selector("div.result")?;
    let title = compile_selector("h2 a")?;
    let url = compile_selector("a.result__url")?;
    Some(Selectors { links, result, title, url })
}

/// Reads the result block that is the element `result` of `page`: the text of
/// its first heading link, the `href` of its first address link, and the element
/// with all that is below it.
fn read_block(page: &Page, result: usize, selectors: &Selectors) -> (block: RawBlock)
    ensures
        block.deep_view() == block_at(page@, result, selectors.title@, selectors.url@),
{
    let titles = select_in_element(page, result, &selectors.title);
    let title = if titles.len() > 0 {
        element_text(page, titles[0])
    } else {
        None
    };
    let urls = select_in_element(page, result, &selectors.url);
    let href = if urls.len() > 0 {
        element_attr(page, urls[0], "href")
    } else {
        None
    };
    let body = match element_tree(page, result) {
        Some(tree) => tree,
        None => Node::Other,
    };
    RawBlock { title, href, body }
}

/// Reads the result blocks of a page: those below the first results container,
/// in document order. A page without the container has none.
fn read_blocks(document: &str, selectors: &Selectors) -> (blocks: Vec<RawBlock>)
    ensures
        blocks.deep_view() == blocks_of(
            document@,
            selectors.links@,
            selectors.result@,
            selectors.title@,
            selectors.url@,
        ),
{
    let page = parse_document(document);
    let mut blocks: Vec<RawBlock> = Vec::new();
    match first_in_document(&page, &selectors.links) {
        Some(container) => {
            let found = select_in_element(&page, container, &selectors.result);
            let ghost all = found@.map_values(
                |node: usize| block_at(document@, node, selectors.title@, selectors.url@),
            );
            let mut i: usize = 0;
            while i < found.len()
                invariant
                    i <= found.len(),
                    page@ == document@,
                    all == found@.map_values(
                        |node: usize| block_at(document@, node, selectors.title@, selectors.url@),
                    ),
                    blocks.deep_view() == all.subrange(0, i as int),
                decreases found.len() - i,
            {
                let ghost before = blocks.deep_view();
                let block = read_block(&page, found[i], selectors);
                blocks.push(block);
                assert(blocks.deep_view() =~= before.push(all[i as int]));
                assert(all.subrange(0, i + 1) =~= all.subrange(0, i as int).push(all[i as int]));
                i += 1;
            }
            assert(all.subrange(0, found.len() as int) =~= all);
        },
        None => {
            assert(blocks.deep_view() =~= Seq::<BlockView>::empty());
        },
    }
    blocks
}

/// Parses one page of results and appends its rows to `results`.
///
/// The rows are those of the result blocks below the first results container,
/// in document order: for each block the destination of its address link, the
/// text of its heading link, and as the description the text of the block
/// without title and address. Blocks of paid placements are left out. Returns
/// how many rows were appended. The only failure is a selector that the HTML
/// library refuses; `results` is then as it was.
pub fn parse(results: &mut Vec<ResultRow>, document: &str) -> (outcome: Result<
    usize,
    EngineError<Error>,
>)
    ensures
        outcome is Ok <==> selectors_compile(),
        match outcome {
            Ok(count) => {
                &&& final(results).deep_view() == old(results).deep_view() + page_rows(document@)
                &&& count == page_rows(document@).len()
            },
            Err(error) => error is ParseError && *final(results) == *old(results),
        },
        old(results).deep_view().is_prefix_of(final(results).deep_view()),
        unsponsored(final(results).deep_view(), old(results).len() as int),
{
    match selectors() {
        None => Err(EngineError::ParseError(String::from_str("selector refused"))),
        Some(selectors) => {
            let blocks = read_blocks(document, &selectors);
            let count = accept_blocks(results, &blocks);
            proof {
                assert(blocks.deep_view().len() == blocks.len());
            }
            Ok(count)
        },
    }
}

/// How many result pages one search asks for at most.
pub const MAX_PAGES: usize = 32;

/// After how many seconds a request counts as timed out.
pub const TIMEOUT: u64 = 2;

/// The status code of a reply that is accepted for the token.
pub const STATUS_OK: u16 = 200;

/// The regular expression that finds the session token: the key, an equals
/// sign, and in double quotes a run of digits and hyphens, which is the token.
pub open spec fn token_pattern() -> Seq<char> {
    "vqd\\s*=\\s*\"([0-9-]+)\""@
}

/// The session token that `script_html` shows, if it shows one.
pub fn extract_vqd(script_html: &str) -> (token: Option<String>)
    ensures
        token.deep_view() == captured(token_pattern(), script_html@, 1),
{
    capture("vqd\\s*=\\s*\"([0-9-]+)\"", script_html, 1)
}

/// The DuckDuckGo engine: its session token, once it has one, and its health.
///
/// The token is asked for by the first search and then kept for as long as the
/// engine lives; it is never renewed. A page without rows ends a search as
/// exhausted, whether the backend has no more rows or no longer honours the
/// token.
pub struct DuckDuckGo {
    pub vqd: Option<String>,
    pub breaker: Breaker,
}

/// A request for the caller to send.
pub enum Request {
    /// Get `url`; the body of the reply shows the session token.
    Token { url: String },
    /// Post the fields of `form` to `url`; the body of the reply is a page of
    /// results.
    Page { url: String, form: Vec<(String, String)> },
}

/// A request as a contract sees it.
pub enum RequestView {
    Token { url: Seq<char> },
    Page { url: Seq<char>, form: Seq<(Seq<char>, Seq<char>)> },
}

impl DeepView for Request {
    type V = RequestView;

    open spec fn deep_view(&self) -> RequestView {
        match *self {
            Request::Token { url } => RequestView::Token { url: url@ },
            Request::Page { url, form } => RequestView::Page {
                url: url@,
                form: form.deep_view(),
            },
        }
    }
}

/// How a request ended.
pub enum Reply {
    /// The backend answered, with this status code and body.
    Completed { status: u16, body: String },
    /// The transport failed: by running out of time, or otherwise.
    Failed { timed_out: bool, message: String },
}

/// One search in progress.
pub struct Search {
    pub query: String,
    pub start: usize,
    pub need: usize,
    /// The rows accepted so far, from offset 0 on.
    pub results: Vec<ResultRow>,
    /// How many pages have been digested.
    pub pages: usize,
    /// A page has yielded no row: the backend has no more.
    pub exhausted: bool,
    /// A request has failed: the search is over.
    pub aborted: bool,
}

impl Search {
    /// The rows up to the end of the window are there.
    pub open spec fn satisfied(self) -> bool {
        self.results.len() >= self.start + self.need
    }

    /// No further page is asked for: the window is filled, the backend has no
    /// more rows, or the cap on pages is reached.
    pub open spec fn done_paging(self) -> bool {
        self.satisfied() || self.exhausted || self.pages >= MAX_PAGES
    }

    /// Whether the rows up to the end of the window are there.
    pub fn is_satisfied(&self) -> (yes: bool)
        ensures
            yes == self.satisfied(),
    {
        self.results.len() >= self.start && self.results.len() - self.start >= self.need
    }

    /// The rows of the window: those of `[start, start + need)` that the search
    /// has reached.
    pub fn finish(self) -> (rows: Vec<ResultRow>)
        ensures
            rows.deep_view() == served(
                self.results.deep_view(),
                self.start as int,
                self.need as int,
            ),
            unsponsored(self.results.deep_view(), 0) ==> unsponsored(rows.deep_view(), 0),
    {
        let len = self.results.len();
        let from = if self.start < len {
            self.start
        } else {
            len
        };
        let to = if self.need <= len - from {
            from + self.need
        } else {
            len
        };
        copy_rows(&self.results, from, to)
    }
}

/// The address that shows the token for `query`.
pub open spec fn token_url(query: Seq<char>) -> Seq<char> {
    "https://duckduckgo.com/q?="@ + query
}

/// The address that results are posted to.
pub open spec fn page_url() -> Seq<char> {
    "https://html.duckduckgo.com/html/"@
}

/// The fields of a results request: the query, the region, the offset of the
/// page in decimal digits, and the token.
pub open spec fn page_form(query: Seq<char>, offset: usize, token: Seq<char>) -> Seq<
    (Seq<char>, Seq<char>),
> {
    seq![("q"@, query), ("kl"@, "us-en"@), ("s"@, decimal(offset as nat)), ("vqd"@, token)]
}

impl DuckDuckGo {
    /// A healthy engine without a token.
    pub fn new() -> (engine: DuckDuckGo)
        ensures
            engine.vqd is None,
            engine.breaker.ready(),
    {
        DuckDuckGo { vqd: None, breaker: Breaker::new() }
    }

    /// Which backend this is.
    pub fn name(&self) -> (name: Engines)
        ensures
            name == Engines::DuckDuckGo,
    {
        Engines::DuckDuckGo
    }

    /// Holds the timers against `now` and reports whether a search may start.
    pub fn is_available_at(&mut self, now: i64) -> (available: bool)
        ensures
            final(self).breaker == old(self).breaker.reconciled(now),
            final(self).vqd == old(self).vqd,
            available == old(self).breaker.available_at(now),
            available == final(self).breaker.ready(),
    {
        self.breaker.is_available_at(now)
    }

    /// Holds the timers against the clock and reports whether a search may
    /// start.
    pub fn is_available(&mut self) -> (available: bool)
        ensures
            available == final(self).breaker.ready(),
            final(self).vqd == old(self).vqd,
            exists|now: i64| #[trigger]
                old(self).breaker.reconciled(now) == final(self).breaker,
    {
        let at = now();
        self.is_available_at(at)
    }

    /// Starts a search for `need` rows of `query` from offset `start` on. A
    /// search is for an engine that has just reported itself available: healthy
    /// and with no cooldown running.
    pub fn begin(&self, query: &str, start: usize, need: usize) -> (search: Search)
        requires
            self.breaker.ready(),
        ensures
            search.query@ == query@,
            search.start == start,
            search.need == need,
            search.results@.len() == 0,
            unsponsored(search.results.deep_view(), 0),
            search.pages == 0,
            !search.exhausted,
            !search.aborted,
    {
        Search {
            query: String::from_str(query),
            start,
            need,
            results: Vec::new(),
            pages: 0,
            exhausted: false,
            aborted: false,
        }
    }

    /// The request that `search` waits for: none once it is over; the token
    /// where the engine has none; else the next page, at the offset of the rows
    /// accepted so far, unless no further page is asked for.
    pub open spec fn next_request(self, search: Search) -> Option<RequestView> {
        if search.aborted {
            None
        } else {
            match self.vqd {
                None => Some(RequestView::Token { url: token_url(search.query@) }),
                Some(token) => if search.done_paging() {
                    None
                } else {
                    Some(
                        RequestView::Page {
                            url: page_url(),
                            form: page_form(search.query@, search.results.len(), token@),
                        },
                    )
                },
            }
        }
    }

    /// How many requests `search` can still make: none once it is over, else
    /// one for each page up to the cap, and one more where the token is
    /// missing.
    pub open spec fn budget(self, search: Search) -> nat {
        if search.aborted {
            0
        } else {
            let pages: nat = if search.pages >= MAX_PAGES {
                0
            } else {
                (MAX_PAGES - search.pages) as nat
            };
            if self.vqd is None {
                pages + 1
            } else {
                pages
            }
        }
    }

    /// A search never has more than `MAX_PAGES + 1` requests before it: every
    /// reply that lets it go on takes one of them away, so no search runs on
    /// without end.
    pub proof fn lemma_budget_is_capped(self, search: Search)
        ensures
            self.budget(search) <= MAX_PAGES + 1,
            self.next_request(search) is Some ==> self.budget(search) > 0,
    {
    }

    /// The next request to send for `search`; `None` when the search is over
    /// and `Search::finish` gives its rows.
    pub fn poll(&self, search: &Search) -> (request: Option<Request>)
        ensures
            request.deep_view() == self.next_request(*search),
            request is Some ==> self.budget(*search) > 0,
    {
        if search.aborted {
            return None;
        }
        match &self.vqd {
            None => {
                let mut url = String::from_str("https://duckduckgo.com/q?=");
                url.append(search.query.as_str());
                Some(Request::Token { url })
            },
            Some(token) => {
                if search.is_satisfied() || search.exhausted || search.pages >= MAX_PAGES {
                    None
                } else {
                    let mut form: Vec<(String, String)> = Vec::new();
                    form.push((String::from_str("q"), search.query.clone()));
                    form.push((String::from_str("kl"), String::from_str("us-en")));
                    form.push((String::from_str("s"), to_decimal(search.results.len())));
                    form.push((String::from_str("vqd"), token.clone()));
                    let url = String::from_str("https://html.duckduckgo.com/html/");
                    assert(form.deep_view() =~= page_form(
                        search.query@,
                        search.results.len(),
                        token@,
                    ));
                    Some(Request::Page { url, form })
                }
            },
        }
    }
}

/// The breaker after a reply at `now`: opened by a timeout, else with the
/// cooldown armed anew.
pub open spec fn settled(breaker: Breaker, reply: Reply, now: i64) -> Breaker {
    match reply {
        Reply::Failed { timed_out: true, message } => breaker.after_timeout(now),
        _ => breaker.after_completion(now),
    }
}

/// What a failed transport means for the caller: a timeout, or the failure
/// with its message.
pub open spec fn transport_error(timed_out: bool, message: String) -> EngineError<Error> {
    if timed_out {
        EngineError::Timeout
    } else {
        EngineError::ReqwestError(message)
    }
}

/// The token that a reply shows: the one in its body, if its status is 200.
pub open spec fn shown_token(status: u16, body: Seq<char>) -> Option<Seq<char>> {
    if status == STATUS_OK {
        captured(token_pattern(), body, 1)
    } else {
        None
    }
}

/// `after` is `before` with nothing changed but, where `aborted` holds, the
/// mark that it is over.
pub open spec fn same_search(before: Search, after: Search, aborted: bool) -> bool {
    &&& after.query == before.query
    &&& after.start == before.start
    &&& after.need == before.need
    &&& after.results == before.results
    &&& after.pages == before.pages
    &&& after.exhausted == before.exhausted
    &&& after.aborted == (before.aborted || aborted)
}

/// What the reply to a token request does.
///
/// A reply with status 200 whose body shows a token gives the engine that
/// token, and the search goes on. Any other completed reply ends the search with
/// `VqdUnknown`. A failed transport ends it with `Timeout` or with the failure.
pub open spec fn token_step(
    engine: DuckDuckGo,
    search: Search,
    reply: Reply,
    now: i64,
    engine_after: DuckDuckGo,
    search_after: Search,
    outcome: Result<(), EngineError<Error>>,
) -> bool {
    &&& engine_after.breaker == settled(engine.breaker, reply, now)
    &&& same_search(search, search_after, outcome is Err)
    &&& match reply {
        Reply::Completed { status, body } => match shown_token(status, body@) {
            Some(token) => outcome is Ok && engine_after.vqd.deep_view() == Some(token),
            None => outcome == Err::<(), EngineError<Error>>(
                EngineError::EngineSpecificError(Error::VqdUnknown),
            ) && engine_after.vqd == engine.vqd,
        },
        Reply::Failed { timed_out, message } => outcome == Err::<(), EngineError<Error>>(
            transport_error(timed_out, message),
        ) && engine_after.vqd == engine.vqd,
    }
}

/// What the reply to a page request does.
///
/// The rows of a completed reply are appended to the results, one more page
/// counts as digested, and a page without rows marks the backend as exhausted. A
/// failed transport ends the search with `Timeout` or with the failure, a page
/// that cannot be taken apart with `ParseError`.
pub open spec fn page_step(
    engine: DuckDuckGo,
    search: Search,
    reply: Reply,
    now: i64,
    engine_after: DuckDuckGo,
    search_after: Search,
    outcome: Result<(), EngineError<Error>>,
) -> bool {
    &&& engine_after.breaker == settled(engine.breaker, reply, now)
    &&& engine_after.vqd == engine.vqd
    &&& match reply {
        Reply::Completed { status, body } => match outcome {
            Ok(_) => {
                &&& selectors_compile()
                &&& search_after.query == search.query
                &&& search_after.start == search.start
                &&& search_after.need == search.need
                &&& search_after.aborted == search.aborted
                &&& search_after.results.deep_view() == search.results.deep_view() + page_rows(
                    body@,
                )
                &&& search_after.pages == if search.pages < MAX_PAGES {
                    search.pages + 1
                } else {
                    search.pages as int
                }
                &&& search_after.exhausted == (search.exhausted || search_after.results.len()
                    == search.results.len())
            },
            Err(error) => !selectors_compile() && error is ParseError && same_search(
                search,
                search_after,
                true,
            ),
        },
        Reply::Failed { timed_out, message } => outcome == Err::<(), EngineError<Error>>(
            transport_error(timed_out, message),
        ) && same_search(search, search_after, true),
    }
}

/// What a reply does: that to a token request where the engine has no token,
/// else that to a page request.
pub open spec fn reply_step(
    engine: DuckDuckGo,
    search: Search,
    reply: Reply,
    now: i64,
    engine_after: DuckDuckGo,
    search_after: Search,
    outcome: Result<(), EngineError<Error>>,
) -> bool {
    if engine.vqd is None {
        token_step(engine, search, reply, now, engine_after, search_after, outcome)
    } else {
        page_step(engine, search, reply, now, engine_after, search_after, outcome)
    }
}

impl DuckDuckGo {
    /// Records how a request ended in the breaker and, for a failed transport,
    /// says what the search ends with.
    fn settle(&mut self, timed_out: bool, message: String, now: i64) -> (error: EngineError<Error>)
        ensures
            final(self).vqd == old(self).vqd,
            final(self).breaker == settled(
                old(self).breaker,
                Reply::Failed { timed_out, message },
                now,
            ),
            error == transport_error(timed_out, message),
    {
        if timed_out {
            self.breaker.record_timeout(now);
            EngineError::Timeout
        } else {
            self.breaker.record_completion(now);
            EngineError::ReqwestError(message)
        }
    }

    /// Digests the reply to a token request that ended at `now`.
    pub fn on_token_reply(&mut self, search: &mut Search, reply: Reply, now: i64) -> (outcome: Result<
        (),
        EngineError<Error>,
    >)
        ensures
            token_step(*old(self), *old(search), reply, now, *final(self), *final(search), outcome),
            outcome is Err ==> final(self).budget(*final(search)) == 0,
            outcome is Ok && old(self).next_request(*old(search)) is Some && old(self).vqd is None
                ==> final(self).budget(*final(search)) < old(self).budget(*old(search)),
    {
        match reply {
            Reply::Completed { status, body } => {
                self.breaker.record_completion(now);
                let token = if status == STATUS_OK {
                    extract_vqd(body.as_str())
                } else {
                    None
                };
                match token {
                    Some(token) => {
                        self.vqd = Some(token);
                        Ok(())
                    },
                    None => {
                        search.aborted = true;
                        Err(EngineError::EngineSpecificError(Error::VqdUnknown))
                    },
                }
            },
            Reply::Failed { timed_out, message } => {
                search.aborted = true;
                Err(self.settle(timed_out, message, now))
            },
        }
    }

    /// Digests the reply to a page request that ended at `now`.
    pub fn on_page_reply(&mut self, search: &mut Search, reply: Reply, now: i64) -> (outcome: Result<
        (),
        EngineError<Error>,
    >)
        ensures
            page_step(*old(self), *old(search), reply, now, *final(self), *final(search), outcome),
            old(search).results.deep_view().is_prefix_of(final(search).results.deep_view()),
            unsponsored(final(search).results.deep_view(), old(search).results.len() as int),
            unsponsored(old(search).results.deep_view(), 0) ==> unsponsored(
                final(search).results.deep_view(),
                0,
            ),
            outcome is Err ==> final(self).budget(*final(search)) == 0,
            outcome is Ok && old(self).next_request(*old(search)) is Some && old(self).vqd is Some
                ==> final(self).budget(*final(search)) < old(self).budget(*old(search)),
    {
        match reply {
            Reply::Completed { status, body } => {
                self.breaker.record_completion(now);
                match parse(&mut search.results, body.as_str()) {
                    Ok(count) => {
                        if search.pages < MAX_PAGES {
                            search.pages = search.pages + 1;
                        }
                        if count == 0 {
                            search.exhausted = true;
                        }
                        Ok(())
                    },
                    Err(error) => {
                        search.aborted = true;
                        Err(error)
                    },
                }
            },
            Reply::Failed { timed_out, message } => {
                search.aborted = true;
                Err(self.settle(timed_out, message, now))
            },
        }
    }

    /// Digests the reply, which ended at `now`, to the request that `poll` last
    /// returned for `search`: a token request where the engine has no token, else
    /// a page request. An error ends the search and is what the search fails
    /// with.
    pub fn on_reply_at(&mut self, search: &mut Search, reply: Reply, now: i64) -> (outcome: Result<
        (),
        EngineError<Error>,
    >)
        ensures
            reply_step(*old(self), *old(search), reply, now, *final(self), *final(search), outcome),
            old(search).results.deep_view().is_prefix_of(final(search).results.deep_view()),
            unsponsored(final(search).results.deep_view(), old(search).results.len() as int),
            unsponsored(old(search).results.deep_view(), 0) ==> unsponsored(
                final(search).results.deep_view(),
                0,
            ),
            outcome is Err ==> final(self).budget(*final(search)) == 0,
            outcome is Ok && old(self).next_request(*old(search)) is Some ==> final(self).budget(
                *final(search),
            ) < old(self).budget(*old(search)),
    {
        if self.vqd.is_none() {
            self.on_token_reply(search, reply, now)
        } else {
            self.on_page_reply(search, reply, now)
        }
    }

    /// `on_reply_at` with the time taken from the clock.
    pub fn on_reply(&mut self, search: &mut Search, reply: Reply) -> (outcome: Result<
        (),
        EngineError<Error>,
    >)
        ensures
            exists|now: i64| #[trigger]
                reply_step(
                    *old(self),
                    *old(search),
                    reply,
                    now,
                    *final(self),
                    *final(search),
                    outcome,
                ),
            old(search).results.deep_view().is_prefix_of(final(search).results.deep_view()),
            unsponsored(final(search).results.deep_view(), old(search).results.len() as int),
            unsponsored(old(search).results.deep_view(), 0) ==> unsponsored(
                final(search).results.deep_view(),
                0,
            ),
            outcome is Err ==> final(self).budget(*final(search)) == 0,
            outcome is Ok && old(self).next_request(*old(search)) is Some ==> final(self).budget(
                *final(search),
            ) < old(self).budget(*old(search)),
    {
        let at = now();
        self.on_reply_at(search, reply, at)
    }
}

} // verus!
