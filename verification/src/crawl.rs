//! The crawl: a breadth-first walk over the pages of one site.
//!
//! [`Crawler`] keeps the books of one crawl: the frontier, the set of
//! addresses seen, and the pages converted so far. It decides what is fetched
//! next and what becomes of a fetched page; fetching itself is the caller's
//! part. A caller asks [`Crawler::next_step`] for the next address, fetches it
//! and hands the page to [`Crawler::page_fetched`], until the step is
//! [`CrawlStep::Done`].

use crate::config::{ConvertConfig, CrawlRequest, HtmlConversionResult};
use crate::dom::{parse, parsed_document};
use crate::markdown::{convert_document, converted};
use crate::text::{has_prefix, push_str, str_eq, to_string};
use vstd::hash_set::StringHashSet;
use vstd::prelude::*;
use vstd::string::StrSliceExecFns;

verus! {

/// The scheme and the domain of an address. The domain is missing where the
/// host is an IP address or there is no host.
#[derive(Debug)]
pub struct UrlParts {
    pub scheme: String,
    pub domain: Option<String>,
}

impl DeepView for UrlParts {
    type V = (Seq<char>, Option<Seq<char>>);

    open spec fn deep_view(&self) -> (Seq<char>, Option<Seq<char>>) {
        (self.scheme@, self.domain.deep_view())
    }
}

/// The scheme and the domain of the address `url` as the `url` crate reads
/// it, or `None` where it does not parse as an absolute address.
pub uninterp spec fn url_parts(url: Seq<char>) -> Option<(Seq<char>, Option<Seq<char>>)>;

/// The address that `link` stands for on the page at `base`, as the `url`
/// crate resolves it, or `None` where `base` does not parse or `link` cannot
/// be resolved against it.
pub uninterp spec fn joined_url(base: Seq<char>, link: Seq<char>) -> Option<Seq<char>>;

/// Calls `Url::parse` and, on the address that came out, `Url::scheme` and
/// `Url::domain`. The contract names the outcome: it is [`url_parts`] of the
/// text, the same for equal texts.
#[verifier::external_body]
pub(crate) fn split_url(url: &str) -> (parts: Option<UrlParts>)
    ensures
        parts.deep_view() == url_parts(url@),
{
    url::Url::parse(url).ok().map(
        |u| UrlParts { scheme: u.scheme().to_string(), domain: u.domain().map(|d| d.to_string()) },
    )
}

/// Calls `Url::parse` on `base` and `Url::join` with `link` on the address
/// that came out, and gives the result as text. The contract names the
/// outcome: it is [`joined_url`] of the two texts.
#[verifier::external_body]
pub(crate) fn join_url(base: &str, link: &str) -> (joined: Option<String>)
    ensures
        joined.deep_view() == joined_url(base@, link@),
{
    url::Url::parse(base).ok().and_then(|b| b.join(link).ok()).map(|u| u.to_string())
}

/// Whether `link` is absolute: whether it starts with `http://` or `https://`.
pub open spec fn is_absolute(link: Seq<char>) -> bool {
    has_prefix(link, "http://"@) || has_prefix(link, "https://"@)
}

/// Matches `link` against the regular expression `^https?://` with
/// `Regex::is_match`: the match holds where the text starts with `http`, then
/// may have an `s`, and goes on with `://`.
#[verifier::external_body]
pub(crate) fn is_absolute_link(link: &str) -> (absolute: bool)
    ensures
        absolute == is_absolute(link@),
{
    regex::Regex::new("^https?://").unwrap().is_match(link)
}

/// The longest address, in characters, that a crawl follows.
pub const MAX_URL_LENGTH: usize = 512;

/// Whether a crawl keeps the address `candidate`, whose scheme and domain are
/// `parts`: it is at most 512 characters long, it parses, its scheme and
/// domain are those of the seed where the seed has a domain, and its scheme
/// is `http` or `https`.
pub open spec fn keeps(
    candidate: Seq<char>,
    parts: Option<(Seq<char>, Option<Seq<char>>)>,
    seed_scheme: Seq<char>,
    seed_domain: Option<Seq<char>>,
) -> bool {
    match parts {
        Some(p) => {
            let (scheme, domain) = p;
            &&& candidate.len() <= MAX_URL_LENGTH
            &&& seed_domain is Some ==> domain == seed_domain && scheme == seed_scheme
            &&& scheme == "http"@ || scheme == "https"@
        },
        None => false,
    }
}

/// Whether two optional texts are the same.
fn same_text(a: &Option<String>, b: &Option<String>) -> (r: bool)
    ensures
        r == (a.deep_view() == b.deep_view()),
{
    match a {
        Some(x) => match b {
            Some(y) => str_eq(x.as_str(), y.as_str()),
            None => false,
        },
        None => b.is_none(),
    }
}

/// Whether a crawl keeps the address `candidate`, whose scheme and domain are
/// `parts`.
pub fn should_keep(
    candidate: &str,
    parts: &Option<UrlParts>,
    seed_scheme: &str,
    seed_domain: &Option<String>,
) -> (keep: bool)
    ensures
        keep == keeps(candidate@, parts.deep_view(), seed_scheme@, seed_domain.deep_view()),
{
    if candidate.unicode_len() > MAX_URL_LENGTH {
        return false;
    }
    match parts {
        Some(p) => {
            if seed_domain.is_some() {
                if !same_text(&p.domain, seed_domain) || !str_eq(p.scheme.as_str(), seed_scheme) {
                    return false;
                }
            }
            str_eq(p.scheme.as_str(), "http") || str_eq(p.scheme.as_str(), "https")
        },
        None => false,
    }
}

/// The address that a link on the page at `page_url` stands for: the link
/// itself where it is absolute, what it resolves to against the page where
/// relative links are followed, and nothing otherwise.
pub open spec fn candidate(page_url: Seq<char>, link: Seq<char>, follow_relative: bool) -> Option<
    Seq<char>,
> {
    if is_absolute(link) {
        Some(link)
    } else if follow_relative {
        joined_url(page_url, link)
    } else {
        None
    }
}

/// An address that waits to be fetched, with its distance from the seed.
#[derive(Debug)]
pub struct FrontierEntry {
    pub url: String,
    pub depth: u32,
}

impl DeepView for FrontierEntry {
    type V = (Seq<char>, u32);

    open spec fn deep_view(&self) -> (Seq<char>, u32) {
        (self.url@, self.depth)
    }
}

/// What the caller of a crawl does next.
#[derive(Debug)]
pub enum CrawlStep {
    /// Fetch the page at `url`, which is `depth` links away from the seed,
    /// and hand it in.
    Fetch { url: String, depth: u32 },
    /// The crawl is over.
    Done,
}

/// Why a crawl cannot start.
#[derive(Debug, Clone, Copy, PartialEq, Eq, Structural)]
pub enum CrawlError {
    /// The seed does not parse as an absolute address.
    InvalidSeed,
}

impl CrawlError {
    /// The status with which the error is answered: the request was wrong.
    pub fn status_code(&self) -> (code: u16)
        ensures
            code == 400,
    {
        400
    }

    /// What the error says of the crawl that was to start at `url`.
    pub fn message(&self, url: &str) -> (text: String)
        ensures
            text@ == "Invalid starting URL: "@ + url@,
    {
        let mut buf: Vec<char> = Vec::new();
        push_str(&mut buf, "Invalid starting URL: ");
        push_str(&mut buf, url);
        to_string(&buf)
    }
}

/// The books of a crawl.
pub struct Crawler {
    pub config: ConvertConfig,
    pub limit: u32,
    pub max_depth: u32,
    pub follow_relative: bool,
    pub seed_scheme: String,
    pub seed_domain: Option<String>,
    /// Every address that was ever queued, in the order of discovery; the
    /// seed comes first.
    pub frontier: Vec<FrontierEntry>,
    /// How many entries of the frontier were handed out to be fetched.
    pub next: usize,
    /// The addresses seen: those of the frontier.
    pub visited: StringHashSet,
    /// The Markdown of the pages converted so far, in the order of arrival.
    pub results: Vec<String>,
}

/// The books of a crawl, as a mathematical value.
#[verifier::ext_equal]
pub struct Crawl {
    pub config: ConvertConfig,
    pub limit: u32,
    pub max_depth: u32,
    pub follow_relative: bool,
    pub seed_scheme: Seq<char>,
    pub seed_domain: Option<Seq<char>>,
    pub frontier: Seq<(Seq<char>, u32)>,
    pub next: nat,
    pub visited: Set<Seq<char>>,
    pub results: Seq<Seq<char>>,
}

impl View for Crawler {
    type V = Crawl;

    open spec fn view(&self) -> Crawl {
        Crawl {
            config: self.config,
            limit: self.limit,
            max_depth: self.max_depth,
            follow_relative: self.follow_relative,
            seed_scheme: self.seed_scheme@,
            seed_domain: self.seed_domain.deep_view(),
            frontier: self.frontier.deep_view(),
            next: self.next as nat,
            visited: self.visited@,
            results: self.results.deep_view(),
        }
    }
}

impl Crawl {
    /// The books at the start of the crawl that `url`, `limit` and the other
    /// settings ask for, where the scheme and domain of the seed are `parts`:
    /// the seed is seen and waits at distance 0.
    pub open spec fn started(
        url: Seq<char>,
        limit: u32,
        max_depth: u32,
        config: ConvertConfig,
        follow_relative: bool,
        parts: (Seq<char>, Option<Seq<char>>),
    ) -> Crawl {
        Crawl {
            config,
            limit,
            max_depth,
            follow_relative,
            seed_scheme: parts.0,
            seed_domain: parts.1,
            frontier: seq![(url, 0u32)],
            next: 0,
            visited: set![url],
            results: Seq::empty(),
        }
    }

    /// Whether the crawl is over: the limit of results is reached, or no
    /// address waits.
    pub open spec fn is_done(self) -> bool {
        self.results.len() >= self.limit || self.next >= self.frontier.len()
    }

    /// The books once the next address was handed out.
    pub open spec fn advanced(self) -> Crawl {
        if self.is_done() {
            self
        } else {
            Crawl { next: self.next + 1, ..self }
        }
    }

    /// Whether the crawl follows the address `c`.
    pub open spec fn retains(self, c: Seq<char>) -> bool {
        keeps(c, url_parts(c), self.seed_scheme, self.seed_domain)
    }

    /// The books once the link `link`, found on the page at `page_url` at
    /// distance `depth`, was looked at: its address joins the addresses seen
    /// and waits at distance `depth + 1` where the crawl follows it and it
    /// was not seen before.
    pub open spec fn offered(self, page_url: Seq<char>, depth: u32, link: Seq<char>) -> Crawl {
        match candidate(page_url, link, self.follow_relative) {
            Some(c) => if self.retains(c) && !self.visited.contains(c) {
                Crawl {
                    visited: self.visited.insert(c),
                    frontier: self.frontier.push((c, (depth + 1) as u32)),
                    ..self
                }
            } else {
                self
            },
            None => self,
        }
    }

    /// The books once the links `links[i..]` were looked at, in order.
    pub open spec fn offered_all(
        self,
        page_url: Seq<char>,
        depth: u32,
        links: Seq<Seq<char>>,
        i: int,
    ) -> Crawl
        decreases links.len() - i,
    {
        if !(0 <= i < links.len()) {
            self
        } else {
            self.offered(page_url, depth, links[i]).offered_all(page_url, depth, links, i + 1)
        }
    }

    /// The books once the page at `page_url`, found at distance `depth`, was
    /// converted to `markdown` with the links `links`: the Markdown joins the
    /// results unless the limit is reached, and the links are looked at where
    /// the page is less than the greatest distance away from the seed.
    pub open spec fn with_page(
        self,
        page_url: Seq<char>,
        depth: u32,
        markdown: Seq<char>,
        links: Seq<Seq<char>>,
    ) -> Crawl {
        let recorded = if self.results.len() < self.limit {
            Crawl { results: self.results.push(markdown), ..self }
        } else {
            self
        };
        if depth < self.max_depth {
            recorded.offered_all(page_url, depth, links, 0)
        } else {
            recorded
        }
    }

    /// The books once the HTML text `html` of the page at `page_url` came
    /// in: those with the converted page, or the same where the text could
    /// not be read.
    pub open spec fn with_html(self, page_url: Seq<char>, depth: u32, html: Seq<char>) -> Crawl {
        match parsed_document(html) {
            Some(doc) => self.with_page(
                page_url,
                depth,
                converted(doc, self.config).markdown(),
                converted(doc, self.config).links,
            ),
            None => self,
        }
    }

    /// The invariant of the books. Never more results than the limit. The
    /// addresses seen are those of the frontier, and no address is in the
    /// frontier twice, so none is ever handed out twice. Every address but
    /// the seed is one that the crawl follows: its domain is that of the
    /// seed, where the seed has one. No address is farther from the seed than
    /// the greatest distance.
    pub open spec fn wf(self) -> bool {
        &&& self.results.len() <= self.limit
        &&& self.next <= self.frontier.len()
        &&& self.frontier.len() >= 1
        &&& self.frontier[0].1 == 0
        &&& forall|u: Seq<char>|
            self.visited.contains(u) <==> exists|i: int|
                0 <= i < self.frontier.len() && (#[trigger] self.frontier[i]).0 == u
        &&& forall|i: int, j: int|
            0 <= i < j < self.frontier.len() ==> (#[trigger] self.frontier[i]).0 != (
            #[trigger] self.frontier[j]).0
        &&& forall|i: int|
            1 <= i < self.frontier.len() ==> self.retains((#[trigger] self.frontier[i]).0)
        &&& forall|i: int|
            0 <= i < self.frontier.len() ==> (#[trigger] self.frontier[i]).1 <= self.max_depth
    }

    /// Looking at a link keeps the invariant, and takes nothing away.
    pub proof fn lemma_offered_wf(self, page_url: Seq<char>, depth: u32, link: Seq<char>)
        requires
            self.wf(),
            depth < self.max_depth,
        ensures
            self.offered(page_url, depth, link).wf(),
            self.offered(page_url, depth, link).results == self.results,
            self.offered(page_url, depth, link).next == self.next,
            self.frontier.is_prefix_of(self.offered(page_url, depth, link).frontier),
    {
        let after = self.offered(page_url, depth, link);
        match candidate(page_url, link, self.follow_relative) {
            Some(c) => {
                if self.retains(c) && !self.visited.contains(c) {
                    let n = self.frontier.len() as int;
                    assert(after.frontier[n] == (c, (depth + 1) as u32));
                    assert forall|u: Seq<char>|
                        after.visited.contains(u) <==> exists|i: int|
                            0 <= i < after.frontier.len() && (#[trigger] after.frontier[i]).0
                                == u by {
                        if after.visited.contains(u) {
                            if u == c {
                                assert(after.frontier[n].0 == u);
                            } else {
                                let i = choose|i: int|
                                    0 <= i < self.frontier.len() && (#[trigger] self.frontier[i]).0
                                        == u;
                                assert(after.frontier[i].0 == u);
                            }
                        }
                        if exists|i: int|
                            0 <= i < after.frontier.len() && (#[trigger] after.frontier[i]).0 == u {
                            let i = choose|i: int|
                                0 <= i < after.frontier.len() && (#[trigger] after.frontier[i]).0
                                    == u;
                            if i < n {
                                assert(self.frontier[i].0 == u);
                            }
                        }
                    }
                    assert forall|i: int, j: int| 0 <= i < j < after.frontier.len() implies (
                    #[trigger] after.frontier[i]).0 != (#[trigger] after.frontier[j]).0 by {
                        if j == n {
                            assert(self.frontier[i].0 == after.frontier[i].0);
                        } else {
                            assert(self.frontier[i].0 != self.frontier[j].0);
                        }
                    }
                    assert forall|i: int| 1 <= i < after.frontier.len() implies after.retains(
                        (#[trigger] after.frontier[i]).0,
                    ) by {
                        if i < n {
                            assert(self.retains(self.frontier[i].0));
                        }
                    }
                    assert forall|i: int| 0 <= i < after.frontier.len() implies (
                    #[trigger] after.frontier[i]).1 <= after.max_depth by {
                        if i < n {
                            assert(self.frontier[i].1 <= self.max_depth);
                        }
                    }
                    assert(after.frontier[0] == self.frontier[0]);
                }
            },
            None => {},
        }
    }

    /// Looking at links keeps the invariant, and takes nothing away.
    pub proof fn lemma_offered_all_wf(
        self,
        page_url: Seq<char>,
        depth: u32,
        links: Seq<Seq<char>>,
        i: int,
    )
        requires
            self.wf(),
            depth < self.max_depth,
        ensures
            self.offered_all(page_url, depth, links, i).wf(),
            self.offered_all(page_url, depth, links, i).results == self.results,
            self.offered_all(page_url, depth, links, i).next == self.next,
            self.frontier.is_prefix_of(self.offered_all(page_url, depth, links, i).frontier),
        decreases links.len() - i,
    {
        if 0 <= i < links.len() {
            self.lemma_offered_wf(page_url, depth, links[i]);
            self.offered(page_url, depth, links[i]).lemma_offered_all_wf(
                page_url,
                depth,
                links,
                i + 1,
            );
        }
    }

    /// Taking in a page keeps the invariant: the results stay within the
    /// limit, no address comes to wait twice, and what waits is on the site
    /// of the seed.
    pub proof fn lemma_with_page_wf(
        self,
        page_url: Seq<char>,
        depth: u32,
        markdown: Seq<char>,
        links: Seq<Seq<char>>,
    )
        requires
            self.wf(),
        ensures
            self.with_page(page_url, depth, markdown, links).wf(),
            self.with_page(page_url, depth, markdown, links).results.len() <= self.limit,
            self.with_page(page_url, depth, markdown, links).next == self.next,
            self.frontier.is_prefix_of(self.with_page(page_url, depth, markdown, links).frontier),
    {
        let recorded = if self.results.len() < self.limit {
            Crawl { results: self.results.push(markdown), ..self }
        } else {
            self
        };
        assert(recorded.wf());
        if depth < self.max_depth {
            recorded.lemma_offered_all_wf(page_url, depth, links, 0);
        }
    }
}

/// A crawl that may give no result asks for no page: from its very start it
/// is over, with no result.
pub proof fn theorem_no_budget_no_fetch(
    url: Seq<char>,
    max_depth: u32,
    config: ConvertConfig,
    follow_relative: bool,
    parts: (Seq<char>, Option<Seq<char>>),
)
    ensures
        Crawl::started(url, 0, max_depth, config, follow_relative, parts).is_done(),
        Crawl::started(url, 0, max_depth, config, follow_relative, parts).results.len() == 0,
        Crawl::started(url, 0, max_depth, config, follow_relative, parts).advanced().next == 0,
{
}

/// What holds of the books of every crawl, at every time: there are never
/// more results than the limit; every address that was found and kept has the
/// domain of the seed, where the seed has one; and no address is handed out
/// twice, since each is handed out from its place in the frontier and no two
/// places hold the same address.
pub proof fn theorem_crawl_bounds(crawl: Crawl)
    requires
        crawl.wf(),
    ensures
        crawl.results.len() <= crawl.limit,
        forall|i: int|
            1 <= i < crawl.frontier.len() && crawl.seed_domain is Some ==> (match url_parts(
                (#[trigger] crawl.frontier[i]).0,
            ) {
                Some(parts) => parts.1 == crawl.seed_domain,
                None => false,
            }),
        forall|i: int, j: int|
            0 <= i < crawl.frontier.len() && 0 <= j < crawl.frontier.len() && i != j ==> (
            #[trigger] crawl.frontier[i]).0 != (#[trigger] crawl.frontier[j]).0,
{
    assert forall|i: int|
        1 <= i < crawl.frontier.len() && crawl.seed_domain is Some implies (match url_parts(
        (#[trigger] crawl.frontier[i]).0,
    ) {
        Some(parts) => parts.1 == crawl.seed_domain,
        None => false,
    }) by {
        assert(crawl.retains(crawl.frontier[i].0));
    }
    assert forall|i: int, j: int|
        0 <= i < crawl.frontier.len() && 0 <= j < crawl.frontier.len() && i != j implies (
    #[trigger] crawl.frontier[i]).0 != (#[trigger] crawl.frontier[j]).0 by {
        if i < j {
            assert(crawl.frontier[i].0 != crawl.frontier[j].0);
        } else {
            assert(crawl.frontier[j].0 != crawl.frontier[i].0);
        }
    }
}

impl Crawler {
    /// Whether the books are in order.
    pub open spec fn wf(&self) -> bool {
        self@.wf()
    }

    /// Opens the books of the crawl that `request` asks for. The crawl cannot
    /// start where the seed does not parse as an absolute address.
    pub fn start(request: CrawlRequest) -> (started: Result<Crawler, CrawlError>)
        ensures
            started is Ok <==> url_parts(request.url@) is Some,
            started matches Ok(c) ==> c.wf() && c@ == Crawl::started(
                request.url@,
                request.limit,
                request.max_depth,
                request.config,
                request.follow_relative,
                url_parts(request.url@)->0,
            ),
            started matches Err(e) ==> e == CrawlError::InvalidSeed,
    {
        match split_url(request.url.as_str()) {
            Some(parts) => {
                let mut visited = StringHashSet::new();
                visited.insert(request.url.clone());
                let mut frontier: Vec<FrontierEntry> = Vec::new();
                frontier.push(FrontierEntry { url: request.url, depth: 0 });
                let crawler = Crawler {
                    config: request.config,
                    limit: request.limit,
                    max_depth: request.max_depth,
                    follow_relative: request.follow_relative,
                    seed_scheme: parts.scheme,
                    seed_domain: parts.domain,
                    frontier,
                    next: 0,
                    visited,
                    results: Vec::new(),
                };
                proof {
                    let url = request.url@;
                    assert(crawler.frontier.deep_view() =~= seq![(url, 0u32)]);
                    assert(crawler.results.deep_view() =~= Seq::<Seq<char>>::empty());
                    assert(crawler.visited@ =~= set![url]);
                    assert(crawler@.frontier[0].0 == url);
                }
                Ok(crawler)
            },
            None => Err(CrawlError::InvalidSeed),
        }
    }

    /// Says what to do next: to fetch the address that waits longest, which
    /// is then handed out, or nothing more, where the limit of results is
    /// reached or no address waits.
    pub fn next_step(&mut self) -> (step: CrawlStep)
        ensures
            old(self).wf() ==> final(self).wf(),
            final(self)@ == old(self)@.advanced(),
            old(self)@.is_done() <==> step is Done,
            step matches CrawlStep::Fetch { url, depth } ==> (url@, depth) == old(
                self,
            )@.frontier[old(self)@.next as int],
    {
        if self.results.len() >= self.limit as usize || self.next >= self.frontier.len() {
            proof {
                assert(self.results.deep_view().len() == self.results.len());
                assert(self.frontier.deep_view().len() == self.frontier.len());
            }
            return CrawlStep::Done;
        }
        let entry = &self.frontier[self.next];
        let step = CrawlStep::Fetch { url: entry.url.clone(), depth: entry.depth };
        self.next = self.next + 1;
        step
    }

    /// Looks at one link found on the page at `page_url` at distance `depth`.
    fn offer(&mut self, page_url: &str, depth: u32, link: &str)
        requires
            depth < old(self).max_depth,
        ensures
            final(self)@ == old(self)@.offered(page_url@, depth, link@),
    {
        let found = if is_absolute_link(link) {
            Some(link.to_owned())
        } else if self.follow_relative {
            join_url(page_url, link)
        } else {
            None
        };
        match found {
            Some(c) => {
                let parts = split_url(c.as_str());
                if should_keep(c.as_str(), &parts, self.seed_scheme.as_str(), &self.seed_domain) {
                    let ghost seen = self.visited@;
                    let ghost waiting = self.frontier.deep_view();
                    if self.visited.insert(c.clone()) {
                        self.frontier.push(FrontierEntry { url: c, depth: depth + 1 });
                        assert(self.frontier.deep_view() =~= waiting.push((c@, (depth + 1) as u32)));
                    } else {
                        assert(self.visited@ =~= seen);
                    }
                }
            },
            None => {},
        }
    }

    /// Takes in a converted page: the page at `url`, found at distance
    /// `depth`.
    pub fn record_page(&mut self, url: &str, depth: u32, page: HtmlConversionResult)
        ensures
            final(self)@ == old(self)@.with_page(
                url@,
                depth,
                page.markdown@,
                page.links.deep_view(),
            ),
            old(self).wf() ==> final(self).wf(),
    {
        proof {
            if self.wf() {
                self@.lemma_with_page_wf(url@, depth, page.markdown@, page.links.deep_view());
            }
        }
        assert(self.results.deep_view().len() == self.results.len());
        if self.results.len() < self.limit as usize {
            let ghost before = self.results.deep_view();
            self.results.push(page.markdown);
            assert(self.results.deep_view() =~= before.push(page.markdown@));
        }
        if depth < self.max_depth {
            let ghost recorded = self@;
            let ghost links = page.links.deep_view();
            let mut i: usize = 0;
            while i < page.links.len()
                invariant
                    i <= page.links.len(),
                    links == page.links.deep_view(),
                    depth < self.max_depth,
                    self@.offered_all(url@, depth, links, i as int) == recorded.offered_all(
                        url@,
                        depth,
                        links,
                        0,
                    ),
                decreases page.links.len() - i,
            {
                self.offer(url, depth, page.links[i].as_str());
                i += 1;
            }
        }
    }

    /// Takes in the HTML text of the page at `url`, found at distance
    /// `depth`: the page is converted and recorded. A text that cannot be
    /// read changes nothing.
    pub fn page_fetched(&mut self, url: &str, depth: u32, html: &str)
        ensures
            final(self)@ == old(self)@.with_html(url@, depth, html@),
            old(self).wf() ==> final(self).wf(),
    {
        match parse(html) {
            Some(doc) => {
                let page = convert_document(&doc, self.config);
                self.record_page(url, depth, page);
            },
            None => {},
        }
    }

    /// The Markdown of the pages of the crawl, in the order of arrival.
    pub fn finish(self) -> (results: Vec<String>)
        ensures
            results.deep_view() == self@.results,
            self.wf() ==> results.len() <= self.limit,
    {
        assert(self.results.deep_view().len() == self.results.len());
        self.results
    }
}

} // verus!
