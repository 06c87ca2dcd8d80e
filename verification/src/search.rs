//! Search interface: query building and paginated access to search results.

use crate::encode::{dec_string, percent_encode, push_char, spec_dec_digits, spec_pct};
use crate::labels::{Label, Method, Request};
use crate::query::{spec_keys_unique, spec_query_string, spec_set, QueryParams, SpecPair};
use crate::spec_direction_token;
use crate::stream::{ItemStream, StreamModel};
use crate::users::User;
use crate::SortDirection;
use vstd::prelude::*;
use vstd::string::StringExecFns;

verus! {

/// Sort keys for issue search results.
#[derive(Debug, PartialEq)]
pub enum IssuesSort {
    /// Sort by time created.
    Created,
    /// Sort by last updated.
    Updated,
    /// Sort by number of comments.
    Comments,
}

/// The canonical query-string token for an issue sort key.
pub open spec fn spec_issues_sort_token(s: IssuesSort) -> Seq<char> {
    match s {
        IssuesSort::Created => "created"@,
        IssuesSort::Updated => "updated"@,
        IssuesSort::Comments => "comments"@,
    }
}

impl IssuesSort {
    /// The canonical query-string token for this sort key.
    pub fn token(&self) -> (r: &'static str)
        ensures
            r@ == spec_issues_sort_token(*self),
    {
        match self {
            IssuesSort::Created => "created",
            IssuesSort::Updated => "updated",
            IssuesSort::Comments => "comments",
        }
    }
}

/// Access to search operations.
#[derive(Clone, Copy)]
pub struct Search {}

/// The items of one decoded search page.
pub fn items<D>(result: SearchResult<D>) -> (r: Vec<D>)
    ensures
        r@ == result.items@,
{
    result.items
}

impl Search {
    pub fn new() -> Search {
        Search {  }
    }

    /// A search interface for issues.
    pub fn issues(&self) -> SearchIssues {
        SearchIssues::new(*self)
    }

    /// A search interface for repositories.
    pub fn repos(&self) -> SearchRepos {
        SearchRepos::new(*self)
    }

    /// A stream whose first page will be fetched from `url`.
    fn iter<D>(&self, url: &str) -> (r: ItemStream<D>)
        ensures
            r@ == (StreamModel::NeedsFetch::<D> { url: url@ }),
    {
        ItemStream::new(url.to_owned())
    }

    /// A request for one page of results at `url`.
    fn search(&self, url: &str) -> (r: Request)
        ensures
            r.method is Get,
            r.path@ == url@,
            r.body is None,
    {
        Request { method: Method::Get, path: url.to_owned(), body: None }
    }
}

/// One decoded page of search results.  The counts describe this page's
/// fetch alone; nothing accumulates them across pages.
pub struct SearchResult<D> {
    pub total_count: u64,
    pub incomplete_results: bool,
    pub items: Vec<D>,
}

/// The URL of an issue search: the fixed path, the serialized options if any
/// are set, and the percent-encoded free-text query last, under the key `q`.
pub open spec fn spec_issues_uri(q: Seq<char>, opts: Seq<SpecPair>) -> Seq<char> {
    "/search/issues?"@ + (if opts.len() == 0 {
        Seq::<char>::empty()
    } else {
        spec_query_string(opts) + seq!['&']
    }) + "q="@ + spec_pct(q)
}

/// Access to issue search operations.
pub struct SearchIssues {
    search: Search,
}

impl SearchIssues {
    pub fn new(search: Search) -> SearchIssues {
        SearchIssues { search }
    }

    fn search_uri(&self, q: &str, options: &SearchIssuesOptions) -> (r: String)
        ensures
            r@ == spec_issues_uri(q@, options@),
    {
        let mut uri = String::from_str("/search/issues?");
        match options.serialize() {
            Some(s) => {
                uri.append(s.as_str());
                push_char(&mut uri, '&');
            },
            None => {},
        }
        uri.append("q=");
        let encoded = percent_encode(q);
        uri.append(encoded.as_str());
        proof {
            assert(uri@ =~= spec_issues_uri(q@, options@));
        }
        uri
    }

    /// A stream over every item of the result set, page by page.
    pub fn iter(&self, q: &str, options: &SearchIssuesOptions) -> (r: ItemStream<IssuesItem>)
        ensures
            r@ == (StreamModel::NeedsFetch::<IssuesItem> { url: spec_issues_uri(q@, options@) }),
    {
        let uri = self.search_uri(q, options);
        self.search.iter::<IssuesItem>(uri.as_str())
    }

    /// A request for a single page of search results.
    pub fn list(&self, q: &str, options: &SearchIssuesOptions) -> (r: Request)
        ensures
            r.method is Get,
            r.path@ == spec_issues_uri(q@, options@),
            r.body is None,
    {
        let uri = self.search_uri(q, options);
        self.search.search(uri.as_str())
    }
}

/// Access to repository search operations.
pub struct SearchRepos {
    search: Search,
}

impl SearchRepos {
    pub fn new(search: Search) -> SearchRepos {
        SearchRepos { search }
    }
}

/// The optional parameters of an issue search, ready to serialize.
pub struct SearchIssuesOptions {
    params: QueryParams,
}

impl View for SearchIssuesOptions {
    type V = Seq<SpecPair>;

    closed spec fn view(&self) -> Seq<SpecPair> {
        self.params@
    }
}

impl SearchIssuesOptions {
    /// A builder that accumulates options.
    pub fn builder() -> (r: SearchIssuesOptionsBuilder)
        ensures
            r@ == Seq::<SpecPair>::empty(),
            spec_keys_unique(r@),
    {
        SearchIssuesOptionsBuilder::new()
    }

    /// Serialize the options, or nothing when none are set.
    pub fn serialize(&self) -> (r: Option<String>)
        ensures
            self@.len() == 0 ==> r is None,
            self@.len() > 0 ==> (r matches Some(s) && s@ == spec_query_string(self@)),
    {
        self.params.serialize()
    }
}

/// Accumulates issue search options; every setter keys its value under a
/// fixed name, and the last assignment to a name wins.
pub struct SearchIssuesOptionsBuilder(SearchIssuesOptions);

impl View for SearchIssuesOptionsBuilder {
    type V = Seq<SpecPair>;

    closed spec fn view(&self) -> Seq<SpecPair> {
        self.0@
    }
}

impl SearchIssuesOptionsBuilder {
    pub fn new() -> (r: SearchIssuesOptionsBuilder)
        ensures
            r@ == Seq::<SpecPair>::empty(),
            spec_keys_unique(r@),
    {
        SearchIssuesOptionsBuilder(SearchIssuesOptions { params: QueryParams::new() })
    }

    /// Ask for this many results per page.
    pub fn per_page(self, n: usize) -> (r: Self)
        requires
            spec_keys_unique(self@),
        ensures
            r@ == spec_set(self@, "per_page"@, spec_dec_digits(n as nat)),
            spec_keys_unique(r@),
    {
        let mut inner = self;
        inner.0.params.set("per_page", dec_string(n));
        inner
    }

    /// Sort results by this key.
    pub fn sort(self, sort: IssuesSort) -> (r: Self)
        requires
            spec_keys_unique(self@),
        ensures
            r@ == spec_set(self@, "sort"@, spec_issues_sort_token(sort)),
            spec_keys_unique(r@),
    {
        let mut inner = self;
        let token = sort.token();
        inner.0.params.set("sort", token.to_owned());
        inner
    }

    /// Sort results in this direction.
    pub fn order(self, direction: SortDirection) -> (r: Self)
        requires
            spec_keys_unique(self@),
        ensures
            r@ == spec_set(self@, "order"@, spec_direction_token(direction)),
            spec_keys_unique(r@),
    {
        let mut inner = self;
        let token = direction.token();
        inner.0.params.set("order", token.to_owned());
        inner
    }

    /// The accumulated options.
    pub fn build(&self) -> (r: SearchIssuesOptions)
        ensures
            r@ == self@,
    {
        SearchIssuesOptions { params: self.0.params.duplicate() }
    }
}

/// One issue among search results.
pub struct IssuesItem {
    pub url: String,
    pub repository_url: String,
    pub labels_url: String,
    pub comments_url: String,
    pub events_url: String,
    pub html_url: String,
    pub id: u64,
    pub number: u64,
    pub title: String,
    pub user: User,
    pub labels: Vec<Label>,
    pub state: String,
    pub locked: bool,
    pub assignee: Option<User>,
    pub assignees: Vec<User>,
    pub comments: u64,
    pub created_at: String,
    pub updated_at: String,
    pub closed_at: Option<String>,
    pub pull_request: Option<PullRequestInfo>,
    pub body: Option<String>,
}

/// Where a pull request attached to an issue lives.
pub struct PullRequestInfo {
    pub url: String,
    pub html_url: String,
    pub diff_url: String,
    pub patch_url: String,
}

/// Whether a string parses as an absolute URL.
pub uninterp spec fn url_parse_ok(s: Seq<char>) -> bool;

/// The path component of the URL a string parses as.
pub uninterp spec fn url_path_of(s: Seq<char>) -> Seq<char>;

/// Relies on `url::Url::parse` and `url::Url::path`: whether a string parses
/// as an absolute URL, and the path of the URL it parses as, are functions
/// of the string alone.
#[verifier::external_body]
fn parsed_path(s: &str) -> (r: Option<String>)
    ensures
        r is Some <==> url_parse_ok(s@),
        r matches Some(p) ==> p@ == url_path_of(s@),
{
    match url::Url::parse(s) {
        Ok(u) => Some(u.path().to_string()),
        Err(_) => None,
    }
}

/// Where the segment of `s` that starts at `i` ends: the position of the
/// next `/` at or after `i`, or the end of `s` when none follows.
pub open spec fn seg_end(s: Seq<char>, i: int) -> int
    decreases s.len() - i,
{
    if i < 0 || i >= s.len() {
        s.len() as int
    } else if s[i] == '/' {
        i
    } else {
        seg_end(s, i + 1)
    }
}

pub proof fn lemma_seg_end(s: Seq<char>, i: int)
    requires
        0 <= i <= s.len(),
    ensures
        i <= seg_end(s, i) <= s.len(),
        seg_end(s, i) < s.len() ==> s[seg_end(s, i)] == '/',
    decreases s.len() - i,
{
    if i < s.len() && s[i] != '/' {
        lemma_seg_end(s, i + 1);
    }
}

/// The position of the first `/` in `s` at or after `from`, or the length
/// of `s` when none follows.
fn find_slash(s: &str, from: usize) -> (r: usize)
    requires
        from <= s@.len(),
    ensures
        r == seg_end(s@, from as int),
{
    let n = s.unicode_len();
    let mut i = from;
    while i < n
        invariant
            n == s@.len(),
            from <= i <= n,
            seg_end(s@, from as int) == seg_end(s@, i as int),
        decreases n - i,
    {
        if s.get_char(i) == '/' {
            return i;
        }
        i = i + 1;
    }
    i
}

impl IssuesItem {
    /// The repository owner name and repository name this issue belongs to,
    /// read from the path of `repository_url`.  The path has the form
    /// `/repos/{owner}/{repo}`, so the result is its second and third
    /// slash-separated segments after the leading slash: `(owner, repo)`.
    pub fn repo_tuple(&self) -> (r: (String, String))
        requires
            url_parse_ok(self.repository_url@),
            ({
                let p = url_path_of(self.repository_url@);
                let e0 = seg_end(p, 0);
                let e1 = seg_end(p, e0 + 1);
                let e2 = seg_end(p, e1 + 1);
                e0 < p.len() && e1 < p.len() && e2 < p.len()
            }),
        ensures
            ({
                let p = url_path_of(self.repository_url@);
                let e0 = seg_end(p, 0);
                let e1 = seg_end(p, e0 + 1);
                let e2 = seg_end(p, e1 + 1);
                r.0@ == p.subrange(e1 + 1, e2) && r.1@ == p.subrange(
                    e2 + 1,
                    seg_end(p, e2 + 1),
                )
            }),
    {
        let path = match parsed_path(self.repository_url.as_str()) {
            Some(p) => p,
            None => vstd::pervasive::unreached(),
        };
        let _n: usize = path.as_str().unicode_len();
        proof {
            lemma_seg_end(path@, 0);
        }
        let e0 = find_slash(path.as_str(), 0);
        proof {
            lemma_seg_end(path@, e0 + 1);
        }
        let e1 = find_slash(path.as_str(), e0 + 1);
        proof {
            lemma_seg_end(path@, e1 + 1);
        }
        let e2 = find_slash(path.as_str(), e1 + 1);
        let owner = path.as_str().substring_char(e1 + 1, e2);
        proof {
            lemma_seg_end(path@, e2 + 1);
        }
        let e3 = find_slash(path.as_str(), e2 + 1);
        let repo = path.as_str().substring_char(e2 + 1, e3);
        (String::from_str(owner), String::from_str(repo))
    }

    /// As [`IssuesItem::repo_tuple`], or nothing when `repository_url` does
    /// not parse as a URL or its path is too short to name a repository.
    pub fn try_repo_tuple(&self) -> (r: Option<(String, String)>)
        ensures
            ({
                let u = self.repository_url@;
                let p = url_path_of(u);
                let e0 = seg_end(p, 0);
                let e1 = seg_end(p, e0 + 1);
                let e2 = seg_end(p, e1 + 1);
                if url_parse_ok(u) && e0 < p.len() && e1 < p.len() && e2 < p.len() {
                    r matches Some(t) && t.0@ == p.subrange(e1 + 1, e2) && t.1@ == p.subrange(
                        e2 + 1,
                        seg_end(p, e2 + 1),
                    )
                } else {
                    r is None
                }
            }),
    {
        match parsed_path(self.repository_url.as_str()) {
            None => None,
            Some(p) => {
                let n = p.as_str().unicode_len();
                proof {
                    lemma_seg_end(p@, 0);
                }
                let e0 = find_slash(p.as_str(), 0);
                if e0 >= n {
                    return None;
                }
                proof {
                    lemma_seg_end(p@, e0 + 1);
                }
                let e1 = find_slash(p.as_str(), e0 + 1);
                if e1 >= n {
                    return None;
                }
                proof {
                    lemma_seg_end(p@, e1 + 1);
                }
                let e2 = find_slash(p.as_str(), e1 + 1);
                if e2 >= n {
                    return None;
                }
                Some(self.repo_tuple())
            },
        }
    }
}

} // verus!
