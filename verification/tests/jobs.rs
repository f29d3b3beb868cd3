use jslinks::UrlCheck;
use jslinks::check_url;
use jslinks::scrape_text;

#[test]
fn unparsable_url_is_invalid() {
    assert!(matches!(check_url("not a url"), UrlCheck::Invalid));
}

#[test]
fn url_without_host_is_rejected_before_any_fetch() {
    assert!(matches!(check_url("data:text/plain,stuff"), UrlCheck::NoHost));
    assert!(matches!(check_url("unix:/run/foo.socket"), UrlCheck::NoHost));
}

#[test]
fn empty_line_is_invalid() {
    assert!(matches!(check_url(""), UrlCheck::Invalid));
}

#[test]
fn file_url_has_no_usable_host() {
    assert!(matches!(check_url("file:///tmp/foo"), UrlCheck::NoHost));
}

#[test]
fn empty_page_yields_no_results() {
    match check_url("https://example.com/p") {
        UrlCheck::Fetch(u) => assert!(scrape_text("", &u).is_empty()),
        _ => panic!("expected a fetch target"),
    }
}

#[test]
fn reachable_url_yields_its_scheme_and_host() {
    match check_url("https://example.com/p") {
        UrlCheck::Fetch(u) => {
            assert_eq!(u.scheme, "https");
            assert_eq!(u.host, "example.com");
        },
        _ => panic!("expected a fetch target"),
    }
}

#[test]
fn end_to_end_page_yields_both_references() {
    let u = match check_url("https://example.com/p") {
        UrlCheck::Fetch(u) => u,
        _ => panic!("expected a fetch target"),
    };
    let body = "<script src=\"/app.js\"></script><div data-script-src=\"b.js\"></div>";
    let results = scrape_text(body, &u);
    assert_eq!(
        results,
        vec!["https://example.com/app.js".to_string(), "https://example.com/b.js".to_string()]
    );
}

#[test]
fn inline_absolute_url_is_not_prefixed_again() {
    let u = match check_url("https://example.com/p") {
        UrlCheck::Fetch(u) => u,
        _ => panic!("expected a fetch target"),
    };
    let results = scrape_text("<script>load(\"https://cdn/x.js\")</script>", &u);
    assert_eq!(results, vec!["https://cdn/x.js".to_string()]);
}

#[test]
fn inline_relative_match_is_still_normalized() {
    let u = match check_url("https://example.com/p") {
        UrlCheck::Fetch(u) => u,
        _ => panic!("expected a fetch target"),
    };
    let results = scrape_text("<script>var x = \"/foo/bar.js\";</script>", &u);
    assert_eq!(results, vec!["https://example.com/foo/bar.js".to_string()]);
}

#[test]
fn failed_job_does_not_stop_later_jobs() {
    let jobs = ["not a url", "https://example.com/p"];
    let body = "<script src=\"a.js\"></script>";
    let mut results: Vec<String> = Vec::new();
    for job in jobs {
        match check_url(job) {
            UrlCheck::Fetch(u) => {
                for r in scrape_text(body, &u) {
                    results.push(r);
                }
            },
            _ => {},
        }
    }
    assert_eq!(results, vec!["https://example.com/a.js".to_string()]);
}

#[test]
fn every_well_formed_job_contributes_its_references() {
    let body = "<script src=\"a.js\"></script><div data-script-src=\"b.js\"></div>";
    let jobs = ["https://one.example/", "https://two.example/", "https://three.example/"];
    let mut count = 0;
    for job in jobs {
        match check_url(job) {
            UrlCheck::Fetch(u) => count += scrape_text(body, &u).len(),
            _ => panic!("expected a fetch target"),
        }
    }
    assert_eq!(count, jobs.len() * 2);
}
