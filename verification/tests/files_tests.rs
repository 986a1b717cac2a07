use yaks::finalize_files;
use yaks::plan_candidates;
use yaks::plan_text;
use yaks::Candidate;
use yaks::Post;
use yaks::Preview;
use yaks::Profile;

fn profile() -> Profile {
    Profile {
        platform: String::from("fanbox"),
        user_id: String::from("42"),
        nickname: String::from("nick"),
        username: String::from("uname"),
        post_count: 2,
    }
}

fn thumb(name: &str, path: &str) -> Preview {
    Preview {
        kind: String::from("thumbnail"),
        filename: String::from(name),
        path: String::from(path),
        server: String::from("https://s1"),
    }
}

#[test]
fn detail_decoding() {
    let body = b"{\"previews\":[{\"type\":\"thumbnail\",\"name\":\"a.png\",\"path\":\"/p/a.png\",\"server\":\"https://s1\"}],\"post\":{\"content\":\"hello\"}}";
    let d = yaks::decode_detail(body).unwrap();
    assert_eq!(d.previews.len(), 1);
    assert_eq!(d.previews[0].kind, "thumbnail");
    assert_eq!(d.previews[0].filename, "a.png");
    assert_eq!(d.previews[0].path, "/p/a.png");
    assert_eq!(d.previews[0].server, "https://s1");
    assert_eq!(d.text, "hello");
}

#[test]
fn detail_defaults() {
    let body = b"{\"previews\":[{\"type\":\"thumbnail\"}],\"post\":{}}";
    let d = yaks::decode_detail(body).unwrap();
    assert_eq!(d.previews[0].filename, "");
    assert_eq!(d.text, "");
}

#[test]
fn detail_requires_previews() {
    assert!(yaks::decode_detail(b"{\"post\":{\"content\":\"x\"}}").is_none());
}

#[test]
fn cover_skipped_and_index_kept() {
    // End to end over two posts, each with two thumbnail previews and
    // covers excluded: one file survives per post, carrying index 1.
    let previews = vec![thumb("cover.png", "/p/cover.png"), thumb("pic.jpg", "/p/pic.jpg")];
    let mut total = 0;
    for post_id in [1u64, 2u64] {
        let post = Post { id: post_id, title: String::from("t") };
        let cands = plan_candidates(&previews, false, "{post_id}_{index}", &profile(), &post);
        assert_eq!(cands.len(), 1);
        assert_eq!(cands[0].dest, format!("{post_id}_1.jpg"));
        assert_eq!(cands[0].url, "https://s1/data/p/pic.jpg");
        total += cands.len();
    }
    assert_eq!(total, 2);
}

#[test]
fn cover_included_keeps_both() {
    let previews = vec![thumb("cover.png", "/p/cover.png"), thumb("pic.jpg", "/p/pic.jpg")];
    let post = Post { id: 7, title: String::from("t") };
    let cands = plan_candidates(&previews, true, "{post_id}_{index}", &profile(), &post);
    assert_eq!(cands.len(), 2);
    assert_eq!(cands[0].dest, "7_0.png");
    assert_eq!(cands[1].dest, "7_1.jpg");
}

#[test]
fn non_thumbnails_are_ignored() {
    let mut previews = vec![thumb("a.png", "/a.png")];
    previews.push(Preview {
        kind: String::from("attachment"),
        filename: String::from("b.zip"),
        path: String::from("/b.zip"),
        server: String::from("https://s1"),
    });
    let post = Post { id: 7, title: String::from("t") };
    let cands = plan_candidates(&previews, true, "{post_id}_{index}", &profile(), &post);
    assert_eq!(cands.len(), 1);
    assert_eq!(cands[0].dest, "7_0.png");
}

#[test]
fn foreign_slashes_cannot_escape() {
    let previews = vec![thumb("x.png", "/x.png")];
    let post = Post { id: 7, title: String::from("a/b") };
    let cands = plan_candidates(&previews, true, "{title}_{index}", &profile(), &post);
    assert_eq!(cands[0].dest, "a\u{FF0F}b_0.png");
}

#[test]
fn finalize_skips_existing_and_numbers_the_rest() {
    let cands = vec![
        Candidate { url: String::from("u0"), dest: String::from("d/zero.png") },
        Candidate { url: String::from("u1"), dest: String::from("d/one.png") },
        Candidate { url: String::from("u2"), dest: String::from("d/two.png") },
    ];
    let exists = vec![false, true, false];
    let files = finalize_files(&cands, &exists, 10);
    assert_eq!(files.len(), 2);
    assert_eq!(files[0].id(), 10);
    assert_eq!(files[0].file.url, "u0");
    assert_eq!(files[0].file.dest, "d/zero.png.parts");
    assert_eq!(files[0].file.filename, "zero.png");
    assert_eq!(files[1].id(), 11);
    assert_eq!(files[1].file.dest, "d/two.png.parts");
}

#[test]
fn second_run_downloads_nothing() {
    // Idempotence: when every computed destination already exists on
    // disk, the collector enqueues no file.
    let cands = vec![
        Candidate { url: String::from("u0"), dest: String::from("a.png") },
        Candidate { url: String::from("u1"), dest: String::from("b.png") },
    ];
    let first = finalize_files(&cands, &vec![false, false], 0);
    assert_eq!(first.len(), 2);
    let second = finalize_files(&cands, &vec![true, true], 2);
    assert_eq!(second.len(), 0);
}

#[test]
fn text_plan_honours_switch_and_content() {
    let post = Post { id: 7, title: String::from("t") };
    assert!(plan_text("hello", false, "{post_id}_{title}", &profile(), &post).is_none());
    assert!(plan_text("", true, "{post_id}_{title}", &profile(), &post).is_none());
    let tp = plan_text("hello", true, "{post_id}_{title}", &profile(), &post).unwrap();
    assert_eq!(tp.dest, "7_t.md");
    assert_eq!(tp.content, "hello");
}

#[test]
fn text_plan_converts_markup() {
    let post = Post { id: 7, title: String::from("t") };
    let tp = plan_text("<b>x</b>", true, "{post_id}", &profile(), &post).unwrap();
    assert_eq!(tp.dest, "7.md");
    assert_eq!(tp.content, "**x**");
}

#[test]
fn no_previews_no_candidates() {
    let post = Post { id: 7, title: String::from("t") };
    let cands = plan_candidates(&Vec::new(), true, "{post_id}_{index}", &profile(), &post);
    assert!(cands.is_empty());
}

#[test]
fn lone_thumbnail_is_the_cover() {
    let previews = vec![thumb("only.png", "/only.png")];
    let post = Post { id: 7, title: String::from("t") };
    let cands = plan_candidates(&previews, false, "{post_id}_{index}", &profile(), &post);
    assert!(cands.is_empty());
}

#[test]
fn finalize_of_nothing() {
    let files = finalize_files(&Vec::new(), &Vec::new(), 0);
    assert!(files.is_empty());
}
