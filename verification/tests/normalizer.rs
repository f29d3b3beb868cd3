use jslinks::ParsedUrl;
use jslinks::normalize;
use jslinks::normalize_if_needed;

fn page() -> ParsedUrl {
    ParsedUrl { scheme: String::from("https"), host: String::from("example.com") }
}

#[test]
fn protocol_relative_gets_scheme() {
    assert_eq!(normalize("//x/y", &page()), "https://x/y");
}

#[test]
fn absolute_path_gets_scheme_and_host() {
    assert_eq!(normalize("/a/b", &page()), "https://example.com/a/b");
}

#[test]
fn bare_relative_path_is_joined_with_one_slash() {
    assert_eq!(normalize("a/b", &page()), "https://example.com/a/b");
}

#[test]
fn other_scheme_is_kept() {
    let p = ParsedUrl { scheme: String::from("http"), host: String::from("h") };
    assert_eq!(normalize("//cdn/app.js", &p), "http://cdn/app.js");
    assert_eq!(normalize("app.js", &p), "http://h/app.js");
}

#[test]
fn already_absolute_is_unchanged() {
    assert_eq!(normalize_if_needed(String::from("https://other/x"), &page()), "https://other/x");
    assert_eq!(normalize_if_needed(String::from("http://other/x"), &page()), "http://other/x");
}

#[test]
fn normalize_if_needed_is_a_fixed_point_on_absolute_urls() {
    let once = normalize_if_needed(String::from("b.js"), &page());
    assert_eq!(once, "https://example.com/b.js");
    let twice = normalize_if_needed(once.clone(), &page());
    assert_eq!(twice, once);
}

#[test]
fn relative_reference_is_normalized_by_the_wrapper() {
    assert_eq!(normalize_if_needed(String::from("/app.js"), &page()), "https://example.com/app.js");
}
