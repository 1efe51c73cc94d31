use postwoman::history::{autocomplete_matches, record_history, HISTORY_LIMIT};

fn strings(v: &[&str]) -> Vec<String> {
    v.iter().map(|s| s.to_string()).collect()
}

#[test]
fn sent_url_goes_to_the_front_once() {
    let mut h = strings(&["https://b", "https://a", "https://c"]);
    assert!(record_history(&mut h, "  https://a \n"));
    assert_eq!(h, strings(&["https://a", "https://b", "https://c"]));
    assert!(record_history(&mut h, "https://d"));
    assert_eq!(h, strings(&["https://d", "https://a", "https://b", "https://c"]));
}

#[test]
fn blank_url_is_not_recorded() {
    let mut h = strings(&["https://a"]);
    assert!(!record_history(&mut h, "   "));
    assert!(!record_history(&mut h, ""));
    assert_eq!(h, strings(&["https://a"]));
}

#[test]
fn history_is_cut_at_its_limit() {
    let mut h: Vec<String> = Vec::new();
    for i in 0..60 {
        record_history(&mut h, &format!("https://host/{i}"));
    }
    assert_eq!(h.len(), HISTORY_LIMIT);
    assert_eq!(h[0], "https://host/59");
    assert_eq!(h[49], "https://host/10");
    record_history(&mut h, "https://host/30");
    assert_eq!(h.len(), HISTORY_LIMIT);
    assert_eq!(h[0], "https://host/30");
    assert_eq!(h.iter().filter(|u| *u == "https://host/30").count(), 1);
}

#[test]
fn resending_the_same_url_changes_nothing_more() {
    let mut once = strings(&["https://b", "https://a"]);
    record_history(&mut once, "https://a");
    let mut twice = once.clone();
    record_history(&mut twice, "https://a");
    assert_eq!(once, twice);
}

#[test]
fn suggestions_filter_case_insensitively() {
    let h = strings(&["https://Api.example.com/users", "https://httpbin.org/get", "https://api.example.com/items"]);
    assert_eq!(
        autocomplete_matches(&h, " API "),
        strings(&["https://Api.example.com/users", "https://api.example.com/items"])
    );
    assert_eq!(autocomplete_matches(&h, "nothing"), Vec::<String>::new());
}

#[test]
fn suggestions_leave_out_the_current_input() {
    let h = strings(&["https://httpbin.org/get", "https://httpbin.org/post"]);
    assert_eq!(autocomplete_matches(&h, "https://httpbin.org/get"), Vec::<String>::new());
    assert_eq!(autocomplete_matches(&h, ""), h);
    assert_eq!(autocomplete_matches(&Vec::new(), ""), Vec::<String>::new());
}

#[test]
fn suggestions_are_at_most_ten() {
    let h: Vec<String> = (0..30).map(|i| format!("https://host/{i}")).collect();
    let m = autocomplete_matches(&h, "host");
    assert_eq!(m, h[..10].to_vec());
    let m = autocomplete_matches(&h, "/2");
    assert_eq!(m, strings(&["https://host/2", "https://host/20", "https://host/21", "https://host/22", "https://host/23", "https://host/24", "https://host/25", "https://host/26", "https://host/27", "https://host/28"]));
}

#[test]
fn suggestions_match_across_unicode_case() {
    let h = strings(&["https://ÄÖ.example/ÜBER", "https://other"]);
    assert_eq!(autocomplete_matches(&h, "über"), strings(&["https://ÄÖ.example/ÜBER"]));
    assert_eq!(autocomplete_matches(&h, "äö"), strings(&["https://ÄÖ.example/ÜBER"]));
}

#[test]
fn resending_a_picked_suggestion_changes_nothing() {
    let mut h = strings(&["https://b"]);
    record_history(&mut h, "\t https://a  ");
    let after_first = h.clone();
    let picked = autocomplete_matches(&h, "a")[0].clone();
    assert_eq!(picked, "https://a");
    record_history(&mut h, &picked);
    assert_eq!(h, after_first);
}
