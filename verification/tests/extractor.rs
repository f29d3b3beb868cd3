use jslinks::extract;

#[test]
fn script_src_attribute_is_one_reference() {
    let refs = extract("<script src=\"a.js\"></script>");
    assert_eq!(refs.len(), 1);
    assert_eq!(refs[0].text, "a.js");
    assert!(refs[0].from_attr);
}

#[test]
fn inline_script_text_is_matched() {
    let refs = extract("<script>var x = \"/foo/bar.js\";</script>");
    assert_eq!(refs.len(), 1);
    assert_eq!(refs[0].text, "/foo/bar.js");
    assert!(!refs[0].from_attr);
}

#[test]
fn div_data_attribute_is_one_reference() {
    let refs = extract("<div data-script-src=\"c.js\"></div>");
    assert_eq!(refs.len(), 1);
    assert_eq!(refs[0].text, "c.js");
    assert!(refs[0].from_attr);
}

#[test]
fn src_comes_before_inline_matches_and_divs_come_last() {
    let page = "<div data-script-src=\"z.js\"></div>\
                <script src=\"a.js\">load(\"b.js\")</script>";
    let texts: Vec<String> = extract(page).into_iter().map(|r| r.text).collect();
    assert_eq!(texts, vec!["a.js".to_string(), "b.js".to_string(), "z.js".to_string()]);
}

#[test]
fn tag_names_and_attribute_names_ignore_case() {
    let refs = extract("<SCRIPT SRC='X.js'></SCRIPT><DIV DATA-SCRIPT-SRC=\"y.js\"></DIV>");
    let texts: Vec<String> = refs.into_iter().map(|r| r.text).collect();
    assert_eq!(texts, vec!["X.js".to_string(), "y.js".to_string()]);
}

#[test]
fn unquoted_and_single_quoted_values_are_read() {
    let refs = extract("<script src=a.js></script><script src='b.js'></script>");
    let texts: Vec<String> = refs.into_iter().map(|r| r.text).collect();
    assert_eq!(texts, vec!["a.js".to_string(), "b.js".to_string()]);
}

#[test]
fn self_closing_div_still_yields_its_attribute() {
    let refs = extract("<div data-script-src=\"c.js\"/>");
    assert_eq!(refs.len(), 1);
    assert_eq!(refs[0].text, "c.js");
}

#[test]
fn unterminated_tag_does_not_panic_and_yields_nothing() {
    assert_eq!(extract("<script src=\"x.js\"").len(), 0);
    assert_eq!(extract("text only, no tags").len(), 0);
    assert_eq!(extract("< script>").len(), 0);
}

#[test]
fn unclosed_script_captures_text_to_the_end() {
    let refs = extract("<script>one.js two.js");
    let texts: Vec<String> = refs.into_iter().map(|r| r.text).collect();
    assert_eq!(texts, vec!["one.js".to_string(), "two.js".to_string()]);
}

#[test]
fn shortest_match_wins_and_matches_do_not_overlap() {
    let refs = extract("<script>jsjs</script>");
    let texts: Vec<String> = refs.into_iter().map(|r| r.text).collect();
    assert_eq!(texts, vec!["js".to_string(), "js".to_string()]);
}

#[test]
fn non_reference_characters_break_a_match() {
    let refs = extract("<script>a b.js</script>");
    let texts: Vec<String> = refs.into_iter().map(|r| r.text).collect();
    assert_eq!(texts, vec!["b.js".to_string()]);
}

#[test]
fn non_ascii_characters_break_a_match() {
    let refs = extract("<script>\u{e9}.js</script>");
    let texts: Vec<String> = refs.into_iter().map(|r| r.text).collect();
    assert_eq!(texts, vec![".js".to_string()]);
}

#[test]
fn other_elements_yield_nothing() {
    assert_eq!(extract("<span data-script-src=\"c.js\"></span><div src=\"a.js\"></div>").len(), 0);
}
