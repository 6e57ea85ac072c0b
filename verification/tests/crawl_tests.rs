use pinboard_backup::crawl::{
    classify_fetch_status, crawl_fixture, parse_index_page, CrawlState, FetchError, IndexPage,
};
use pinboard_backup::service::{first_index_path, index_url};

fn page(ids: &[&[u8]], next: Option<&[u8]>) -> IndexPage {
    IndexPage {
        cache_ids: ids.iter().map(|s| s.to_vec()).collect(),
        next_path: next.map(|s| s.to_vec()),
    }
}

#[test]
fn extracts_cached_links_and_next_page() {
    let html = r#"
        <html><body>
        <a class="cached" href="/cached/abc">cached</a>
        <a class="other" href="/not-this">other</a>
        <a class="bookmark cached" href="/cached/def">also cached</a>
        <a id="top_earlier" href="/u:alice/before:100/">earlier</a>
        </body></html>
    "#;
    let p = parse_index_page(html);
    assert_eq!(p.cache_ids.len(), 2);
    assert!(p.cache_ids.contains(&b"/cached/abc".to_vec()));
    assert!(p.cache_ids.contains(&b"/cached/def".to_vec()));
    assert_eq!(p.next_path, Some(b"/u:alice/before:100/".to_vec()));
}

#[test]
fn malformed_page_yields_empty_extraction() {
    let p = parse_index_page("<p>nothing of note");
    assert_eq!(p.cache_ids.len(), 0);
    assert_eq!(p.next_path, None);
}

#[test]
fn anchor_without_marker_class_is_ignored() {
    let p = parse_index_page(r#"<a href="/cached/abc">no class</a>"#);
    assert_eq!(p.cache_ids.len(), 0);
}

#[test]
fn crawl_example_scenario() {
    // Page one shows {a, b} and links page two; page two shows {b, c} and
    // links nothing. The crawl fetches both pages and accumulates {a, b, c}.
    let pages = vec![
        page(&[b"/cached/a", b"/cached/b"], Some(b"/page2")),
        page(&[b"/cached/b", b"/cached/c"], None),
    ];
    let run = crawl_fixture(&pages);
    assert_eq!(run.fetches, 2);
    assert_eq!(run.state.count(), 3);
    assert!(run.state.contains_id(&b"/cached/a".to_vec()));
    assert!(run.state.contains_id(&b"/cached/b".to_vec()));
    assert!(run.state.contains_id(&b"/cached/c".to_vec()));
}

#[test]
fn duplicate_across_pages_is_stored_once() {
    let pages = vec![
        page(&[b"/cached/x"], Some(b"/page2")),
        page(&[b"/cached/x"], None),
    ];
    let run = crawl_fixture(&pages);
    assert_eq!(run.state.count(), 1);
    let ids = run.state.into_ids();
    assert_eq!(ids, vec![b"/cached/x".to_vec()]);
}

#[test]
fn crawl_stops_after_page_without_next_link() {
    // Three pages, the third without an earlier-page link: exactly three
    // fetches, even though more pages sit behind it in the fixture.
    let pages = vec![
        page(&[b"/cached/a"], Some(b"/p2")),
        page(&[b"/cached/b"], Some(b"/p3")),
        page(&[b"/cached/c"], None),
        page(&[b"/cached/d"], Some(b"/p5")),
    ];
    let run = crawl_fixture(&pages);
    assert_eq!(run.fetches, 3);
    assert_eq!(run.state.count(), 3);
    assert!(!run.state.contains_id(&b"/cached/d".to_vec()));
}

#[test]
fn page_with_no_links_but_a_next_page_continues() {
    let pages = vec![
        page(&[], Some(b"/p2")),
        page(&[b"/cached/only"], None),
    ];
    let run = crawl_fixture(&pages);
    assert_eq!(run.fetches, 2);
    assert_eq!(run.state.count(), 1);
}

#[test]
fn empty_fixture_fetches_nothing() {
    let pages: Vec<IndexPage> = Vec::new();
    let run = crawl_fixture(&pages);
    assert_eq!(run.fetches, 0);
    assert_eq!(run.state.count(), 0);
}

#[test]
fn crawl_step_accumulates_and_hands_out_next_path() {
    let mut state = CrawlState::new();
    let next = state.crawl_step(
        r#"<a class="cached" href="/cached/abc">x</a><a id="top_earlier" href="/more">m</a>"#,
    );
    assert_eq!(next, Some(b"/more".to_vec()));
    let next = state.crawl_step(r#"<a class="cached" href="/cached/abc">x</a>"#);
    assert_eq!(next, None);
    assert_eq!(state.count(), 1);
}

#[test]
fn success_statuses_are_accepted() {
    assert_eq!(classify_fetch_status(200), Ok(()));
    assert_eq!(classify_fetch_status(204), Ok(()));
    assert_eq!(classify_fetch_status(299), Ok(()));
}

#[test]
fn non_success_statuses_are_fetch_errors() {
    assert_eq!(classify_fetch_status(199), Err(FetchError::Status(199)));
    assert_eq!(classify_fetch_status(301), Err(FetchError::Status(301)));
    assert_eq!(classify_fetch_status(404), Err(FetchError::Status(404)));
    assert_eq!(classify_fetch_status(500), Err(FetchError::Status(500)));
}

#[test]
fn transport_failure_is_its_own_error_kind() {
    // A fetch that never completed is told apart from one the service
    // answered with a bad status.
    assert_ne!(FetchError::Transport, FetchError::Status(500));
    assert_eq!(FetchError::Transport, FetchError::Transport);
}

#[test]
fn first_index_path_is_parameterized_by_username() {
    assert_eq!(
        first_index_path(&b"alice".to_vec()),
        b"/u:alice/?per_page=160".to_vec()
    );
}

#[test]
fn index_url_prepends_the_origin() {
    assert_eq!(
        index_url(&b"/u:alice/?per_page=160".to_vec()),
        b"https://pinboard.in/u:alice/?per_page=160".to_vec()
    );
}
