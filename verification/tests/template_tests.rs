use yaks::candidate_dest;
use yaks::normalize_template;
use yaks::parse_url;
use yaks::render_template;
use yaks::text_dest;
use yaks::to_path_safe;

#[test]
fn substitution_of_every_placeholder() {
    let r = render_template(
        "{user_id}|{post_id}|{index}|{username}|{nickname}|{title}|{filename}",
        "u", "p", "i", "un", "nn", "t", "f",
    );
    assert_eq!(r, "u|p|i|un|nn|t|f");
}

#[test]
fn unknown_placeholders_stay_verbatim() {
    let r = render_template("{what}/{user_id}", "42", "", "", "", "", "", "");
    assert_eq!(r, "{what}/42");
}

#[test]
fn substituted_values_are_not_rescanned() {
    // one pass over the template only: a value that itself contains
    // placeholder text is copied verbatim, never substituted again
    let r = render_template("{title}x", "u", "p", "i", "un", "nn", "{filename}", "f");
    assert_eq!(r, "{filename}x");
    let overlapping = render_template("{user{user_id}}", "42", "", "", "", "", "", "");
    assert_eq!(overlapping, "{user42}");
}

#[test]
fn destination_from_template() {
    // Template substitution: the extension of the original file is
    // appended when the template does not end with the filename
    // placeholder.
    let r = candidate_dest("{user_id}/{post_id}_{index}", "42", "un", "nn", 7, 0, "t", "a.png");
    assert_eq!(r, "42/7_0.png");
}

#[test]
fn destination_keeps_filename_placeholder_tail() {
    let r = candidate_dest("x/{filename}", "42", "un", "nn", 7, 0, "t", "b.jpg");
    assert_eq!(r, "x/b.jpg");
}

#[test]
fn destination_without_extension() {
    let r = candidate_dest("{post_id}_{index}", "42", "un", "nn", 7, 2, "t", "noext");
    assert_eq!(r, "7_2");
}

#[test]
fn path_safety() {
    assert_eq!(to_path_safe("a/b"), "a\u{FF0F}b");
    assert_eq!(to_path_safe("plain"), "plain");
    assert_eq!(to_path_safe(""), "");
}

#[test]
fn template_normalization() {
    assert_eq!(normalize_template("\\a\\b"), "a/b");
    assert_eq!(normalize_template("///x/y"), "x/y");
    assert_eq!(normalize_template("x/y"), "x/y");
}

#[test]
fn text_destination_with_post_directory() {
    let r = text_dest("{nickname}/{post_id}/{filename}", "42", "un", "nick", 7, "t");
    assert_eq!(r, "nick/7/post.md");
}

#[test]
fn text_destination_flat() {
    let r = text_dest("{post_id}_{title}", "42", "un", "nn", 7, "t");
    assert_eq!(r, "7_t.md");
}

#[test]
fn text_destination_fallback() {
    let r = text_dest("abc", "42", "un", "nn", 7, "t");
    assert_eq!(r, "abc7_t.md");
}

#[test]
fn url_two_segments() {
    let (p, u) = parse_url("fanbox/123456").unwrap();
    assert_eq!(p, "fanbox");
    assert_eq!(u, "123456");
}

#[test]
fn url_full_address() {
    let (p, u) = parse_url("https://kemono.cr/fanbox/user/123456").unwrap();
    assert_eq!(p, "fanbox");
    assert_eq!(u, "123456");
}

#[test]
fn url_query_is_dropped() {
    let (p, u) = parse_url("https://kemono.cr/fanbox/user/123456?o=50").unwrap();
    assert_eq!(p, "fanbox");
    assert_eq!(u, "123456");
}

#[test]
fn url_without_user_segment() {
    assert!(parse_url("https://kemono.cr/about/page/1").is_none());
}

#[test]
fn url_user_at_edge() {
    assert!(parse_url("a/b/user").is_none());
}
