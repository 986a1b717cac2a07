//! Destination-path templating: substitution of the recognized placeholders
//! into a caller-given template, the extension rule for templates that do
//! not end in the filename placeholder, and the sibling path used for a
//! post's extracted text.
use vstd::prelude::*;
use vstd::string::*;

use crate::strutil::dec_str;
use crate::strutil::ends_with;
use crate::strutil::ends_with_spec;
use crate::strutil::extension_of;
use crate::strutil::extension_spec;
use crate::strutil::find_sub;
use crate::strutil::find_sub_spec;
use crate::strutil::match_at;
use crate::strutil::replace;
use crate::strutil::replace_spec;
use crate::strutil::trim_leading;
use crate::strutil::trim_leading_spec;
use crate::strutil::u64_to_string;

verus! {

/// A template normalized for joining under the output root: backslashes
/// become slashes and a leading run of slashes is dropped.
pub open spec fn normalized_spec(t: Seq<char>) -> Seq<char> {
    trim_leading_spec(replace_spec(t, seq!['\\'], seq!['/']), '/')
}

/// Normalizes a template: turns `\` into `/` and drops leading slashes.
pub fn normalize_template(t: &str) -> (r: String)
    ensures
        r@ == normalized_spec(t@),
{
    proof {
        reveal_strlit("\\");
        reveal_strlit("/");
        assert("\\"@ =~= seq!['\\']);
        assert("/"@ =~= seq!['/']);
    }
    let slashed = replace(t, "\\", "/");
    trim_leading(slashed.as_str(), '/')
}

/// The template text with every recognized placeholder substituted, in
/// one left-to-right pass over the template. At each position the one
/// placeholder standing there, if any, is replaced by its value and the
/// scan continues after it, so substituted values are never scanned again
/// and unknown placeholders stay verbatim. No recognized placeholder is a
/// prefix of another, so at most one can stand at a position and the
/// result does not depend on any ordering of the placeholder set.
pub open spec fn render_spec(
    t: Seq<char>,
    user_id: Seq<char>,
    post_id: Seq<char>,
    index: Seq<char>,
    username: Seq<char>,
    nickname: Seq<char>,
    title: Seq<char>,
    filename: Seq<char>,
) -> Seq<char>
    decreases t.len(),
{
    if t.len() == 0 {
        Seq::empty()
    } else if t.len() >= 9 && t.subrange(0, 9) == "{user_id}"@ {
        user_id + render_spec(t.skip(9), user_id, post_id, index, username, nickname, title, filename)
    } else if t.len() >= 9 && t.subrange(0, 9) == "{post_id}"@ {
        post_id + render_spec(t.skip(9), user_id, post_id, index, username, nickname, title, filename)
    } else if t.len() >= 7 && t.subrange(0, 7) == "{index}"@ {
        index + render_spec(t.skip(7), user_id, post_id, index, username, nickname, title, filename)
    } else if t.len() >= 10 && t.subrange(0, 10) == "{username}"@ {
        username + render_spec(t.skip(10), user_id, post_id, index, username, nickname, title, filename)
    } else if t.len() >= 10 && t.subrange(0, 10) == "{nickname}"@ {
        nickname + render_spec(t.skip(10), user_id, post_id, index, username, nickname, title, filename)
    } else if t.len() >= 7 && t.subrange(0, 7) == "{title}"@ {
        title + render_spec(t.skip(7), user_id, post_id, index, username, nickname, title, filename)
    } else if t.len() >= 10 && t.subrange(0, 10) == "{filename}"@ {
        filename + render_spec(t.skip(10), user_id, post_id, index, username, nickname, title, filename)
    } else {
        seq![t[0]] + render_spec(t.skip(1), user_id, post_id, index, username, nickname, title, filename)
    }
}

/// Substitutes every recognized placeholder of `t` by the given values,
/// in one left-to-right pass.
pub fn render_template(
    t: &str,
    user_id: &str,
    post_id: &str,
    index: &str,
    username: &str,
    nickname: &str,
    title: &str,
    filename: &str,
) -> (r: String)
    ensures
        r@ == render_spec(t@, user_id@, post_id@, index@, username@, nickname@, title@, filename@),
{
    proof {
        reveal_strlit("{user_id}");
        reveal_strlit("{post_id}");
        reveal_strlit("{index}");
        reveal_strlit("{username}");
        reveal_strlit("{nickname}");
        reveal_strlit("{title}");
        reveal_strlit("{filename}");
    }
    let ghost uv = user_id@;
    let ghost pv = post_id@;
    let ghost iv = index@;
    let ghost unv = username@;
    let ghost nnv = nickname@;
    let ghost tv = title@;
    let ghost fv = filename@;
    let n = t.unicode_len();
    let mut out = String::new();
    let mut i: usize = 0;
    proof {
        assert(t@.skip(0) =~= t@);
        assert(out@ + render_spec(t@, uv, pv, iv, unv, nnv, tv, fv) =~= render_spec(
            t@,
            uv,
            pv,
            iv,
            unv,
            nnv,
            tv,
            fv,
        ));
    }
    while i < n
        invariant
            0 <= i <= n,
            n == t@.len(),
            uv == user_id@ && pv == post_id@ && iv == index@ && unv == username@ && nnv
                == nickname@ && tv == title@ && fv == filename@,
            "{user_id}"@.len() == 9 && "{post_id}"@.len() == 9 && "{index}"@.len() == 7
                && "{username}"@.len() == 10 && "{nickname}"@.len() == 10 && "{title}"@.len() == 7
                && "{filename}"@.len() == 10,
            render_spec(t@, uv, pv, iv, unv, nnv, tv, fv) == out@ + render_spec(
                t@.skip(i as int),
                uv,
                pv,
                iv,
                unv,
                nnv,
                tv,
                fv,
            ),
        decreases n - i,
    {
        let ghost rest = t@.skip(i as int);
        proof {
            if rest.len() >= 9 {
                assert(rest.subrange(0, 9) =~= t@.subrange(i as int, i as int + 9));
            }
            if rest.len() >= 7 {
                assert(rest.subrange(0, 7) =~= t@.subrange(i as int, i as int + 7));
            }
            if rest.len() >= 10 {
                assert(rest.subrange(0, 10) =~= t@.subrange(i as int, i as int + 10));
            }
            if rest.len() >= 9 {
                assert(rest.skip(9) =~= t@.skip(i as int + 9));
            }
            if rest.len() >= 7 {
                assert(rest.skip(7) =~= t@.skip(i as int + 7));
            }
            if rest.len() >= 10 {
                assert(rest.skip(10) =~= t@.skip(i as int + 10));
            }
            assert(rest.skip(1) =~= t@.skip(i as int + 1));
        }
        if n >= 9 && i <= n - 9 && match_at(t, "{user_id}", i) {
            proof {
                lemma_out_shift(out@, uv, render_spec(t@.skip(i as int + 9), uv, pv, iv, unv, nnv, tv, fv));
            }
            out.append(user_id);
            i = i + 9;
        } else if n >= 9 && i <= n - 9 && match_at(t, "{post_id}", i) {
            proof {
                lemma_out_shift(out@, pv, render_spec(t@.skip(i as int + 9), uv, pv, iv, unv, nnv, tv, fv));
            }
            out.append(post_id);
            i = i + 9;
        } else if n >= 7 && i <= n - 7 && match_at(t, "{index}", i) {
            proof {
                lemma_out_shift(out@, iv, render_spec(t@.skip(i as int + 7), uv, pv, iv, unv, nnv, tv, fv));
            }
            out.append(index);
            i = i + 7;
        } else if n >= 10 && i <= n - 10 && match_at(t, "{username}", i) {
            proof {
                lemma_out_shift(out@, unv, render_spec(t@.skip(i as int + 10), uv, pv, iv, unv, nnv, tv, fv));
            }
            out.append(username);
            i = i + 10;
        } else if n >= 10 && i <= n - 10 && match_at(t, "{nickname}", i) {
            proof {
                lemma_out_shift(out@, nnv, render_spec(t@.skip(i as int + 10), uv, pv, iv, unv, nnv, tv, fv));
            }
            out.append(nickname);
            i = i + 10;
        } else if n >= 7 && i <= n - 7 && match_at(t, "{title}", i) {
            proof {
                lemma_out_shift(out@, tv, render_spec(t@.skip(i as int + 7), uv, pv, iv, unv, nnv, tv, fv));
            }
            out.append(title);
            i = i + 7;
        } else if n >= 10 && i <= n - 10 && match_at(t, "{filename}", i) {
            proof {
                lemma_out_shift(out@, fv, render_spec(t@.skip(i as int + 10), uv, pv, iv, unv, nnv, tv, fv));
            }
            out.append(filename);
            i = i + 10;
        } else {
            let piece = t.substring_char(i, i + 1);
            proof {
                assert(t@.subrange(i as int, i as int + 1) =~= seq![t@[i as int]]);
                lemma_out_shift(
                    out@,
                    seq![t@[i as int]],
                    render_spec(t@.skip(i as int + 1), uv, pv, iv, unv, nnv, tv, fv),
                );
            }
            out.append(piece);
            i = i + 1;
        }
    }
    proof {
        assert(t@.skip(n as int) =~= Seq::<char>::empty());
        assert(out@ + Seq::<char>::empty() =~= out@);
    }
    out
}

proof fn lemma_out_shift(out: Seq<char>, piece: Seq<char>, rest: Seq<char>)
    ensures
        out + (piece + rest) == (out + piece) + rest,
{
    assert(out + (piece + rest) =~= (out + piece) + rest);
}

/// The template actually used for a file: when `t` does not end with the
/// filename placeholder, the original file extension, if any, is appended
/// after a dot, so that substituted paths keep their media type.
pub open spec fn dest_template_spec(t: Seq<char>, filename: Seq<char>) -> Seq<char> {
    if ends_with_spec(t, "{filename}"@) {
        t
    } else {
        match extension_spec(filename) {
            None => t,
            Some(e) => t + seq!['.'] + e,
        }
    }
}

/// The destination path, relative to the output root, of one attachment:
/// the extension-completed template with every placeholder substituted.
pub open spec fn candidate_dest_spec(
    t: Seq<char>,
    user_id: Seq<char>,
    username: Seq<char>,
    nickname: Seq<char>,
    post_id: int,
    index: int,
    title: Seq<char>,
    filename: Seq<char>,
) -> Seq<char> {
    render_spec(
        dest_template_spec(t, filename),
        user_id,
        dec_str(post_id),
        dec_str(index),
        username,
        nickname,
        title,
        filename,
    )
}

/// Computes the destination path, relative to the output root, of one
/// attachment of a post.
pub fn candidate_dest(
    t: &str,
    user_id: &str,
    username: &str,
    nickname: &str,
    post_id: u64,
    index: u64,
    title: &str,
    filename: &str,
) -> (r: String)
    ensures
        r@ == candidate_dest_spec(
            t@,
            user_id@,
            username@,
            nickname@,
            post_id as int,
            index as int,
            title@,
            filename@,
        ),
{
    proof {
        reveal_strlit("{filename}");
        reveal_strlit(".");
        assert("."@ =~= seq!['.']);
    }
    let mut base = String::new();
    base.append(t);
    if !ends_with(t, "{filename}") {
        match extension_of(filename) {
            None => {},
            Some(e) => {
                base.append(".");
                base.append(e.as_str());
            },
        }
    }
    proof {
        assert(base@ =~= dest_template_spec(t@, filename@));
    }
    let post_id_s = u64_to_string(post_id);
    let index_s = u64_to_string(index);
    render_template(
        base.as_str(),
        user_id,
        post_id_s.as_str(),
        index_s.as_str(),
        username,
        nickname,
        title,
        filename,
    )
}

/// The template for a post's extracted-text file. The post-identifying
/// prefix ends where the first `{post_id}` or `{title}` placeholder ends,
/// whichever lies later; a following slash means posts get their own
/// directories, so `post.md` is placed inside; otherwise `.md` is appended
/// to the prefix. A template with neither placeholder falls back to a
/// synthetic `{post_id}_{title}.md` name appended to the whole template.
pub open spec fn text_template_spec(t: Seq<char>) -> Seq<char> {
    match text_prefix_end(t) {
        None => t + "{post_id}_{title}.md"@,
        Some(e) => if e < t.len() && t[e] == '/' {
            t.take(e) + "/post.md"@
        } else {
            t.take(e) + ".md"@
        },
    }
}

/// Where the post-identifying prefix of a template ends: one past the later
/// of the first `{post_id}` and the first `{title}` occurrence.
pub open spec fn text_prefix_end(t: Seq<char>) -> Option<int> {
    let pe = find_sub_spec(t, "{post_id}"@);
    let te = find_sub_spec(t, "{title}"@);
    match (pe, te) {
        (None, None) => None,
        (Some(p), None) => Some(p + "{post_id}"@.len()),
        (None, Some(q)) => Some(q + "{title}"@.len()),
        (Some(p), Some(q)) => {
            let p2 = p + "{post_id}"@.len();
            let q2 = q + "{title}"@.len();
            if p2 >= q2 {
                Some(p2)
            } else {
                Some(q2)
            }
        },
    }
}

/// Derives the extracted-text template from a file template.
pub fn text_template(t: &str) -> (r: String)
    ensures
        r@ == text_template_spec(t@),
{
    proof {
        reveal_strlit("{post_id}");
        reveal_strlit("{title}");
        reveal_strlit("{post_id}_{title}.md");
        reveal_strlit("/post.md");
        reveal_strlit(".md");
    }
    let n = t.unicode_len();
    let pe = find_sub(t, "{post_id}");
    let te = find_sub(t, "{title}");
    let end: Option<usize> = match (pe, te) {
        (None, None) => None,
        (Some(p), None) => Some(p + 9),
        (None, Some(q)) => Some(q + 7),
        (Some(p), Some(q)) => {
            let p2 = p + 9;
            let q2 = q + 7;
            if p2 >= q2 {
                Some(p2)
            } else {
                Some(q2)
            }
        },
    };
    match end {
        None => {
            let mut out = String::new();
            out.append(t);
            out.append("{post_id}_{title}.md");
            out
        },
        Some(e) => {
            let prefix = t.substring_char(0, e);
            proof {
                assert(prefix@ =~= t@.take(e as int));
            }
            let mut out = String::new();
            out.append(prefix);
            if e < n && t.get_char(e) == '/' {
                out.append("/post.md");
            } else {
                out.append(".md");
            }
            out
        },
    }
}

/// The destination path, relative to the output root, of a post's extracted
/// text: the text template with the post-level placeholders substituted.
pub open spec fn text_dest_spec(
    t: Seq<char>,
    user_id: Seq<char>,
    username: Seq<char>,
    nickname: Seq<char>,
    post_id: int,
    title: Seq<char>,
) -> Seq<char> {
    render_spec(
        text_template_spec(t),
        user_id,
        dec_str(post_id),
        "{index}"@,
        username,
        nickname,
        title,
        "{filename}"@,
    )
}

/// Computes the destination path, relative to the output root, of a post's
/// extracted text. Only the post-level placeholders carry values: binding
/// `{index}` and `{filename}` to their own text leaves them verbatim in
/// the single rendering pass.
pub fn text_dest(
    t: &str,
    user_id: &str,
    username: &str,
    nickname: &str,
    post_id: u64,
    title: &str,
) -> (r: String)
    ensures
        r@ == text_dest_spec(t@, user_id@, username@, nickname@, post_id as int, title@),
{
    let base = text_template(t);
    let post_id_s = u64_to_string(post_id);
    render_template(
        base.as_str(),
        user_id,
        post_id_s.as_str(),
        "{index}",
        username,
        nickname,
        title,
        "{filename}",
    )
}

} // verus!
