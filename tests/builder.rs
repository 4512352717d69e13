use format_url::{
    encode_component, format_path, format_query, format_url, replace_all, strip_double_slash,
    EncodingMode,
    FormatUrlV2,
};

#[test]
fn bare_base_is_returned_verbatim() {
    assert_eq!(
        FormatUrlV2::new("https://api.example.com").format_url(),
        "https://api.example.com"
    );
}

#[test]
fn builder_appends_path() {
    assert_eq!(
        FormatUrlV2::new("https://api.example.com")
            .with_path_template("/user")
            .format_url(),
        "https://api.example.com/user"
    );
}

#[test]
fn builder_fixes_slash_seam() {
    assert_eq!(
        FormatUrlV2::new("https://api.example.com/")
            .with_path_template("/user")
            .format_url(),
        "https://api.example.com/user"
    );
}

#[test]
fn builder_encodes_substitution() {
    assert_eq!(
        FormatUrlV2::new("https://api.example.com/")
            .with_path_template("/user/:id")
            .with_substitutes(vec![("id", "alex tes")])
            .format_url(),
        "https://api.example.com/user/alex%20tes"
    );
}

#[test]
fn builder_encodes_query() {
    assert_eq!(
        FormatUrlV2::new("https://api.example.com/user")
            .with_query_params(vec![("id", "alex+tes")])
            .format_url(),
        "https://api.example.com/user?id=alex%2Btes"
    );
}

#[test]
fn builder_raw_query_is_verbatim() {
    assert_eq!(
        FormatUrlV2::new("https://api.example.com/user")
            .with_query_params(vec![("id", "alex+tes")])
            .with_encoding_mode(EncodingMode::Raw)
            .format_url(),
        "https://api.example.com/user?id=alex+tes"
    );
}

#[test]
fn raw_mode_leaves_path_encoded() {
    assert_eq!(
        FormatUrlV2::new("https://x.org")
            .with_path_template("/a/:v")
            .with_substitutes(vec![("v", "b c")])
            .with_query_params(vec![("k", "d e")])
            .with_encoding_mode(EncodingMode::Raw)
            .format_url(),
        "https://x.org/a/b%20c?k=d e"
    );
}

#[test]
fn full_pipeline() {
    assert_eq!(
        FormatUrlV2::new("https://api.example.com/")
            .with_path_template("/user/:name")
            .with_substitutes(vec![("name", "alex")])
            .with_query_params(vec![("active", "true")])
            .format_url(),
        "https://api.example.com/user/alex?active=true"
    );
}

#[test]
fn substitutes_without_template_are_ignored() {
    assert_eq!(
        FormatUrlV2::new("https://x.org/")
            .with_substitutes(vec![("id", "7")])
            .format_url(),
        "https://x.org/"
    );
}

#[test]
fn empty_query_list_emits_no_question_mark() {
    let url = FormatUrlV2::new("https://x.org")
        .with_path_template("/a")
        .with_query_params(vec![])
        .format_url();
    assert_eq!(url, "https://x.org/a");
    assert!(!url.contains('?'));
}

#[test]
fn query_pairs_keep_order_and_duplicates() {
    assert_eq!(
        FormatUrlV2::new("https://x.org")
            .with_query_params(vec![("b", "2"), ("a", "1"), ("b", "3")])
            .format_url(),
        "https://x.org?b=2&a=1&b=3"
    );
}

#[test]
fn encoded_query_keys_and_separators() {
    assert_eq!(
        format_query(&vec![("a b", "x&y=z"), ("c", "")], EncodingMode::Encode),
        "?a%20b=x%26y%3Dz&c="
    );
}

#[test]
fn encoded_query_body_charset() {
    let q = format_query(
        &vec![("k é/?", "v~-_.*+ "), ("#", "%")],
        EncodingMode::Encode,
    );
    assert!(q.starts_with('?'));
    assert!(q[1..]
        .bytes()
        .all(|b| b.is_ascii_alphanumeric() || b == b'%' || b == b'=' || b == b'&'));
}

#[test]
fn empty_query_list_formats_to_nothing() {
    assert_eq!(format_query(&vec![], EncodingMode::Encode), "");
    assert_eq!(format_query(&vec![], EncodingMode::Raw), "");
}

#[test]
fn reencoding_escapes_percent() {
    assert_eq!(encode_component("%20"), "%2520");
    let once = encode_component("a b/c");
    assert_eq!(once, "a%20b%2Fc");
    assert_eq!(encode_component(&once), "a%2520b%252Fc");
}

#[test]
fn encoding_is_bytewise_uppercase_hex() {
    assert_eq!(encode_component("é"), "%C3%A9");
    assert_eq!(encode_component("-_.~"), "%2D%5F%2E%7E");
    assert_eq!(encode_component("AZaz09"), "AZaz09");
    assert_eq!(encode_component(""), "");
}

#[test]
fn unmatched_keys_leave_template() {
    assert_eq!(
        format_path("/user/:id", &vec![("name", "x"), ("other", "y")]),
        "/user/:id"
    );
}

#[test]
fn unmatched_placeholder_is_emitted_verbatim() {
    assert_eq!(
        format_url("https://x.org", "/a/:id/:rest", None, Some(vec![("id", "1")])),
        "https://x.org/a/1/:rest"
    );
}

#[test]
fn partial_prefix_key_collision() {
    assert_eq!(format_path("/:identity", &vec![("id", "7")]), "/7entity");
}

#[test]
fn every_occurrence_is_replaced() {
    assert_eq!(format_path("/:a/:a/:a", &vec![("a", "b c")]), "/b%20c/b%20c/b%20c");
}

#[test]
fn substitutions_apply_in_order() {
    assert_eq!(format_path("/:a", &vec![("a", "b"), ("a", "c")]), "/b");
    assert_eq!(format_path("/:a:b", &vec![("b", "x"), ("ax", "y")]), "/y");
}

#[test]
fn replace_all_is_left_to_right_and_non_overlapping() {
    assert_eq!(replace_all("aaaa", "aa", "b"), "bb");
    assert_eq!(replace_all("aaa", "aa", "b"), "ba");
    assert_eq!(replace_all("xyz", "q", "r"), "xyz");
    assert_eq!(replace_all("", "q", "r"), "");
    assert_eq!(replace_all("é:ké", ":k", "ü"), "éüé");
}

#[test]
fn strip_double_slash_cases() {
    assert_eq!(strip_double_slash("https://x.org/", "/a"), "a");
    assert_eq!(strip_double_slash("https://x.org", "/a"), "/a");
    assert_eq!(strip_double_slash("https://x.org/", "a"), "a");
    assert_eq!(strip_double_slash("https://x.org/", ""), "");
    assert_eq!(strip_double_slash("", "/a"), "/a");
    assert_eq!(strip_double_slash("https://x.org/", "//a"), "/a");
}

#[test]
fn output_begins_with_base() {
    let base = "https://x.org/?q";
    let url = format_url(base, "/p/:k", Some(vec![("a", "b")]), Some(vec![("k", "v")]));
    assert!(url.starts_with(base));
    assert_eq!(url, "https://x.org/?q/p/v?a=b");
}

#[test]
fn single_slash_at_seam() {
    let base = "https://x.org/";
    let url = format_url(base, "/:k/x", None, Some(vec![("k", "/v")]));
    assert_eq!(url, "https://x.org/%2Fv/x");
    assert_ne!(url.as_bytes()[base.len()], b'/');
}
