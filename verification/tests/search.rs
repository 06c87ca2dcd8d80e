use hubcaps::labels::Method;
use hubcaps::search::{IssuesItem, IssuesSort, Search, SearchIssuesOptions, SearchResult};
use hubcaps::stream::Pulled;
use hubcaps::users::User;
use hubcaps::SortDirection;

fn issues_options() -> SearchIssuesOptions {
    SearchIssuesOptions::builder()
        .sort(IssuesSort::Comments)
        .order(SortDirection::Desc)
        .per_page(50)
        .build()
}

#[test]
fn list_builds_the_search_url() {
    let issues = Search::new().issues();
    let request = issues.list("repo:foo/bar is:open", &issues_options());
    assert_eq!(request.method, Method::Get);
    assert_eq!(
        request.path,
        "/search/issues?sort=comments&order=desc&per_page=50&q=repo%3Afoo%2Fbar%20is%3Aopen"
    );
    assert!(request.body.is_none());
    assert!(request.path.contains("q=repo%3Afoo%2Fbar%20is%3Aopen"));
    assert!(request.path.contains("sort=comments"));
    assert!(request.path.contains("order=desc"));
    assert!(request.path.contains("per_page=50"));
}

#[test]
fn list_without_options_appends_only_the_query() {
    let issues = Search::new().issues();
    let request = issues.list("bug", &SearchIssuesOptions::builder().build());
    assert_eq!(request.path, "/search/issues?q=bug");
}

#[test]
fn iter_requests_the_search_url_first() {
    let issues = Search::new().issues();
    let mut stream = issues.iter("repo:foo/bar is:open", &issues_options());
    match stream.pull() {
        Pulled::Fetch(url) => assert_eq!(
            url,
            "/search/issues?sort=comments&order=desc&per_page=50&q=repo%3Afoo%2Fbar%20is%3Aopen"
        ),
        _ => panic!("a fresh stream must ask for its first page"),
    }
}

fn issue_with_repository_url(url: &str) -> IssuesItem {
    IssuesItem {
        url: String::new(),
        repository_url: url.to_string(),
        labels_url: String::new(),
        comments_url: String::new(),
        events_url: String::new(),
        html_url: String::new(),
        id: 1,
        number: 1,
        title: "title".to_string(),
        user: User {
            login: "octocat".to_string(),
            id: 1,
            avatar_url: String::new(),
            url: String::new(),
            html_url: String::new(),
            site_admin: false,
        },
        labels: vec![],
        state: "open".to_string(),
        locked: false,
        assignee: None,
        assignees: vec![],
        comments: 0,
        created_at: String::new(),
        updated_at: String::new(),
        closed_at: None,
        pull_request: None,
        body: None,
    }
}

#[test]
fn repo_tuple_returns_owner_and_repo() {
    let item = issue_with_repository_url("https://api.github.com/repos/softprops/hubcaps");
    let (owner, repo) = item.try_repo_tuple().expect("the URL parses");
    assert_eq!(owner, "softprops");
    assert_eq!(repo, "hubcaps");
}

#[test]
fn repo_tuple_is_none_for_an_unparsable_url() {
    let item = issue_with_repository_url("not a url");
    assert!(item.try_repo_tuple().is_none());
}

#[test]
fn repo_tuple_is_none_when_the_path_names_no_repository() {
    let item = issue_with_repository_url("https://api.github.com/repos");
    assert!(item.try_repo_tuple().is_none());
    let item = issue_with_repository_url("https://api.github.com");
    assert!(item.try_repo_tuple().is_none());
}

#[test]
fn search_result_items_come_out_unchanged() {
    let result: SearchResult<u32> = SearchResult {
        total_count: 3,
        incomplete_results: false,
        items: vec![7, 8, 9],
    };
    assert_eq!(hubcaps::search::items(result), vec![7, 8, 9]);
}
