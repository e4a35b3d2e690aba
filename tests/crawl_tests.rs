use email_scraper::crawl::{
    email_matches_domain, handle_page, next_step, report_for, Report, WorkerStep,
};
use email_scraper::links::{extract_links, get_domain, is_skipped_href, seed_url};
use email_scraper::state::CrawlState;

#[test]
fn seed_gets_scheme() {
    assert_eq!(seed_url("example.com"), "http://example.com");
    assert_eq!(seed_url("https://example.com"), "https://example.com");
    assert_eq!(seed_url("http://example.com/x"), "http://example.com/x");
}

#[test]
fn domain_of_seed() {
    assert_eq!(get_domain("http://example.com/path?q=1"), "example.com");
    assert_eq!(get_domain("not a url"), "");
}

#[test]
fn skipped_hrefs() {
    assert!(is_skipped_href("#top"));
    assert!(is_skipped_href("mailto:a@b.com"));
    assert!(is_skipped_href("tel:123"));
    assert!(is_skipped_href("javascript:void(0)"));
    assert!(is_skipped_href("data:text/plain,hi"));
    assert!(!is_skipped_href("/about"));
}

#[test]
fn links_are_resolved_and_filtered() {
    let html = "<a href=\"/about\">a</a><a href=\"#top\">t</a>\
                <a href=\"https://other.org/x\">o</a><a href=\"ftp://files.org/\">f</a>\
                <a href=\"mailto:a@b.com\">m</a><a>no href</a><a href=\"contact.html\">c</a>";
    assert_eq!(
        extract_links(html, "http://example.com/dir/page.html"),
        vec![
            "http://example.com/about".to_string(),
            "https://other.org/x".to_string(),
            "http://example.com/dir/contact.html".to_string(),
        ]
    );
}

#[test]
fn record_email_reports_new_once() {
    let mut st = CrawlState::new("http://example.com", 2);
    assert!(st.record_email_if_new("a@example.com".to_string()));
    assert!(!st.record_email_if_new("a@example.com".to_string()));
    assert!(st.record_email_if_new("b@example.com".to_string()));
    assert!(!st.record_email_if_new("b@example.com".to_string()));
    assert_eq!(st.found_emails().len(), 2);
}

#[test]
fn enqueue_twice_enqueues_once() {
    let mut st = CrawlState::new("http://example.com", 2);
    assert!(st.enqueue_if_unseen("http://example.com/a".to_string(), 1));
    assert!(!st.enqueue_if_unseen("http://example.com/a".to_string(), 2));
    assert!(!st.enqueue_if_unseen("http://example.com".to_string(), 1));
    assert_eq!(st.try_dequeue(), Some(("http://example.com".to_string(), 0)));
    assert_eq!(st.try_dequeue(), Some(("http://example.com/a".to_string(), 1)));
    assert_eq!(st.try_dequeue(), None);
}

#[test]
fn depth_zero_crawl_visits_one_page() {
    let seed = seed_url("example.com");
    let mut st = CrawlState::new(&seed, 0);
    let (url, depth) = match next_step(&mut st, false) {
        WorkerStep::Fetch { url, depth } => (url, depth),
        other => panic!("expected a fetch, got {:?}", other),
    };
    assert_eq!(url, "http://example.com");
    assert_eq!(depth, 0);
    let body = "<a href=\"/a\">a</a><a href=\"http://x.org/\">x</a> y@example.com";
    let fresh = handle_page(&mut st, &url, depth, body);
    assert_eq!(fresh, vec!["y@example.com".to_string()]);
    assert!(matches!(next_step(&mut st, false), WorkerStep::Stop));
}

#[test]
fn depth_one_crawl_enqueues_links() {
    let mut st = CrawlState::new("http://example.com", 1);
    assert!(matches!(next_step(&mut st, false), WorkerStep::Fetch { .. }));
    let body = "<a href=\"/a\">a</a><a href=\"/a\">again</a><a href=\"http://x.org/\">x</a>";
    assert!(handle_page(&mut st, "http://example.com", 0, body).is_empty());
    assert_eq!(st.try_dequeue(), Some(("http://example.com/a".to_string(), 1)));
    assert_eq!(st.try_dequeue(), Some(("http://x.org/".to_string(), 1)));
    assert_eq!(st.try_dequeue(), None);
}

#[test]
fn page_handling_reports_only_new_addresses() {
    let mut st = CrawlState::new("http://example.com", 0);
    let body = "snzvyl@rknzcyr.pbz family@example.com z@other.org";
    assert_eq!(
        handle_page(&mut st, "http://example.com", 0, body),
        vec!["family@example.com".to_string(), "z@other.org".to_string()]
    );
    assert!(handle_page(&mut st, "http://example.com/b", 0, body).is_empty());
}

#[test]
fn entries_beyond_limit_are_skipped() {
    let mut st = CrawlState::new("http://example.com", 0);
    assert!(st.enqueue_if_unseen("http://example.com/deep".to_string(), 1));
    assert!(matches!(next_step(&mut st, false), WorkerStep::Fetch { .. }));
    assert!(matches!(next_step(&mut st, false), WorkerStep::Skip));
    assert!(matches!(next_step(&mut st, false), WorkerStep::Stop));
}

#[test]
fn timeout_stops_worker() {
    let mut st = CrawlState::new("http://example.com", 2);
    assert!(matches!(next_step(&mut st, true), WorkerStep::Stop));
    assert!(matches!(next_step(&mut st, false), WorkerStep::Fetch { .. }));
}

#[test]
fn strict_mode_hides_other_domains() {
    assert_eq!(report_for("x@other.org", "example.com", true), Report::Hidden);
    assert_eq!(report_for("y@example.com", "example.com", true), Report::Highlighted);
    assert_eq!(report_for("x@other.org", "example.com", false), Report::Plain);
    assert_eq!(report_for("y@example.com", "example.com", false), Report::Highlighted);
}

#[test]
fn domain_match_ignores_case() {
    assert!(email_matches_domain("Y@EXAMPLE.COM", "example.com"));
    assert!(email_matches_domain("y@mail.example.com", "Example.com"));
    assert!(!email_matches_domain("y@example.org", "example.com"));
}

#[test]
fn page_order_does_not_change_found_set() {
    let pages = [
        ("http://example.com", "a@example.com b@other.org"),
        ("http://example.com/x", "b@other.org snzvyl@rknzcyr.pbz"),
        ("http://example.com/y", "a@example.com c@site.net"),
    ];
    let mut forward = CrawlState::new("http://example.com", 0);
    for (url, body) in pages.iter() {
        handle_page(&mut forward, url, 0, body);
    }
    let mut backward = CrawlState::new("http://example.com", 0);
    for (url, body) in pages.iter().rev() {
        handle_page(&mut backward, url, 0, body);
    }
    let mut f = forward.found_emails();
    let mut b = backward.found_emails();
    f.sort();
    b.sort();
    assert_eq!(f, b);
    assert_eq!(f.len(), 4);
}

#[test]
fn links_dropped_when_base_does_not_parse() {
    let html = "<a href=\"/about\">a</a><a href=\"http://x.org/\">x</a>";
    assert_eq!(extract_links(html, "not a url"), vec!["http://x.org/".to_string()]);
}
