//! Turning a browsed post into download units: reading the post detail
//! payload, selecting the downloadable previews, computing each one's
//! destination from the template, deduplicating against what is already on
//! disk, and planning the post's extracted-text file.
use vstd::prelude::*;
use vstd::string::*;

use crate::decode::detail_decode_spec;
use crate::decode::detail_payload;
use crate::decode::gunzip;
use crate::post::Post;
use crate::post::Profile;
use crate::strutil::ends_with_spec;
use crate::strutil::last_component;
use crate::strutil::last_component_spec;
use crate::strutil::path_safe_spec;
use crate::strutil::str_eq;
use crate::strutil::to_path_safe;
use crate::template::candidate_dest;
use crate::template::candidate_dest_spec;
use crate::template::text_dest;
use crate::template::text_dest_spec;

verus! {

/// The id type of a file: a per-run integer handed out at planning time,
/// used only to correlate progress events with their file within one run.
pub type FileID = u64;

/// One downloadable attachment of a post, as the detail payload lists it.
#[derive(Debug)]
pub struct Preview {
    /// The payload's kind tag; only `thumbnail` previews are downloadable.
    pub kind: String,
    /// The raw filename the server reports.
    pub filename: String,
    /// The serving path under the host's data root.
    pub path: String,
    /// The serving host.
    pub server: String,
}

impl Clone for Preview {
    fn clone(&self) -> (r: Self)
        ensures
            r == *self,
    {
        Preview {
            kind: self.kind.clone(),
            filename: self.filename.clone(),
            path: self.path.clone(),
            server: self.server.clone(),
        }
    }
}

/// The mathematical value of a `Preview`: its strings as character
/// sequences.
pub struct PreviewV {
    pub kind: Seq<char>,
    pub filename: Seq<char>,
    pub path: Seq<char>,
    pub server: Seq<char>,
}

impl View for Preview {
    type V = PreviewV;

    open spec fn view(&self) -> PreviewV {
        PreviewV {
            kind: self.kind@,
            filename: self.filename@,
            path: self.path@,
            server: self.server@,
        }
    }
}

/// What one post's detail payload holds: its previews, in server order, and
/// its extractable text.
#[derive(Debug)]
pub struct PostDetail {
    pub previews: Vec<Preview>,
    pub text: String,
}

/// The mathematical value of a `PostDetail`: its previews' values in
/// order, and its text as a character sequence.
pub struct DetailV {
    pub previews: Seq<PreviewV>,
    pub text: Seq<char>,
}

impl View for PostDetail {
    type V = DetailV;

    open spec fn view(&self) -> DetailV {
        DetailV { previews: self.previews@.map_values(|p: Preview| p@), text: self.text@ }
    }
}

/// A planned download before the on-disk check: where the bytes come from
/// and where they would land, relative to the output root.
#[derive(Debug)]
pub struct Candidate {
    pub url: String,
    pub dest: String,
}

impl Clone for Candidate {
    fn clone(&self) -> (r: Self)
        ensures
            r == *self,
    {
        Candidate { url: self.url.clone(), dest: self.dest.clone() }
    }
}

/// The descriptor of one file to download: its source URL, the final
/// filename, and the temporary destination, relative to the output root,
/// that carries the in-flight suffix until the finishing rename.
#[derive(Debug)]
pub struct FileRef {
    pub filename: String,
    pub url: String,
    pub dest: String,
}

impl Clone for FileRef {
    fn clone(&self) -> (r: Self)
        ensures
            r == *self,
    {
        FileRef {
            filename: self.filename.clone(),
            url: self.url.clone(),
            dest: self.dest.clone(),
        }
    }
}

/// A download unit: a descriptor with its per-run id.
#[derive(Debug)]
pub struct File {
    pub id: FileID,
    pub file: FileRef,
}

impl Clone for File {
    fn clone(&self) -> (r: Self)
        ensures
            r == *self,
    {
        File { id: self.id, file: self.file.clone() }
    }
}

impl File {
    /// The per-run id of this file.
    pub fn id(&self) -> (r: FileID)
        ensures
            r == self.id,
    {
        self.id
    }
}

/// The mathematical value of a `Candidate`: its strings as character
/// sequences.
pub struct CandidateV {
    pub url: Seq<char>,
    pub dest: Seq<char>,
}

impl View for Candidate {
    type V = CandidateV;

    open spec fn view(&self) -> CandidateV {
        CandidateV { url: self.url@, dest: self.dest@ }
    }
}

/// The mathematical value of a `File`: its id and its strings as character
/// sequences.
pub struct FileV {
    pub id: FileID,
    pub filename: Seq<char>,
    pub url: Seq<char>,
    pub dest: Seq<char>,
}

impl View for File {
    type V = FileV;

    open spec fn view(&self) -> FileV {
        FileV {
            id: self.id,
            filename: self.file.filename@,
            url: self.file.url@,
            dest: self.file.dest@,
        }
    }
}

/// A well-formed file: its temporary destination is its final destination
/// with the in-flight suffix appended, and its filename is the final
/// destination's last path component.
pub open spec fn file_wf(f: FileV) -> bool {
    &&& ends_with_spec(f.dest, ".parts"@)
    &&& f.filename == last_component_spec(f.dest.take(f.dest.len() - ".parts"@.len()))
}

/// Decodes a post detail response body: the defensive strategy over the
/// trusted payload read. Succeeds exactly when `detail_decode_spec`
/// denotes a detail, and returns its previews, in server order, and its
/// text.
pub fn decode_detail(body: &[u8]) -> (r: Option<PostDetail>)
    ensures
        r is Some <==> detail_decode_spec(body@) is Some,
        r is Some ==> Some(r->0@) == detail_decode_spec(body@),
{
    match detail_payload(body) {
        Some(d) => Some(d),
        None => match gunzip(body) {
            None => None,
            Some(inflated) => detail_payload(inflated.as_slice()),
        },
    }
}

/// A preview is downloadable when its kind tag is `thumbnail`.
pub open spec fn is_thumbnail(p: Preview) -> bool {
    p.kind@ == "thumbnail"@
}

/// The downloadable previews of a post, in server order.
pub open spec fn thumbnails_spec(previews: Seq<Preview>) -> Seq<Preview> {
    previews.filter(|p: Preview| is_thumbnail(p))
}

/// The source URL of a preview: its serving host, the data root, and its
/// path.
pub open spec fn file_url_spec(server: Seq<char>, path: Seq<char>) -> Seq<char> {
    server + "/data"@ + path
}

/// The destination, relative to the output root, of the downloadable
/// preview at position `idx` of a post's thumbnail list: the template
/// substitution over the path-safe profile and post values.
pub open spec fn preview_dest_spec(
    t: Seq<char>,
    profile: Profile,
    post: Post,
    p: Preview,
    idx: int,
) -> Seq<char> {
    candidate_dest_spec(
        t,
        profile.user_id@,
        path_safe_spec(profile.username@),
        path_safe_spec(profile.nickname@),
        post.id as int,
        idx,
        path_safe_spec(post.title@),
        path_safe_spec(p.filename@),
    )
}

/// Keeps exactly the previews whose kind tag is `thumbnail`, in order.
fn filter_thumbnails(previews: &Vec<Preview>) -> (r: Vec<Preview>)
    ensures
        r@ == thumbnails_spec(previews@),
{
    proof {
        reveal(Seq::filter);
    }
    let mut r: Vec<Preview> = Vec::new();
    let mut i: usize = 0;
    proof {
        assert(previews@.take(0).filter(|p: Preview| is_thumbnail(p)) =~= Seq::<Preview>::empty());
    }
    while i < previews.len()
        invariant
            0 <= i <= previews@.len(),
            r@ == previews@.take(i as int).filter(|p: Preview| is_thumbnail(p)),
        decreases previews@.len() - i,
    {
        proof {
            reveal(Seq::filter);
            assert(previews@.take(i as int + 1).drop_last() =~= previews@.take(i as int));
            assert(previews@.take(i as int + 1).last() == previews@[i as int]);
        }
        let p = &previews[i];
        if str_eq(p.kind.as_str(), "thumbnail") {
            r.push(p.clone());
        }
        i = i + 1;
    }
    proof {
        assert(previews@.take(previews@.len() as int) =~= previews@);
    }
    r
}

/// Plans the downloads of one post: selects its downloadable previews,
/// skips the leading cover when covers are excluded, and computes each
/// one's source URL and destination. The `{index}` placeholder takes the
/// preview's position within the post's thumbnail list.
pub fn plan_candidates(
    previews: &Vec<Preview>,
    include_cover: bool,
    template: &str,
    profile: &Profile,
    post: &Post,
) -> (r: Vec<Candidate>)
    ensures
        ({
            let thumbs = thumbnails_spec(previews@);
            let start: int = if include_cover {
                0
            } else {
                1
            };
            &&& r@.len() == (if thumbs.len() >= start {
                thumbs.len() - start
            } else {
                0
            })
            &&& forall|k: int|
                0 <= k < r@.len() ==> (#[trigger] r@[k]).url@ == file_url_spec(
                    thumbs[k + start].server@,
                    thumbs[k + start].path@,
                ) && r@[k].dest@ == preview_dest_spec(
                    template@,
                    *profile,
                    *post,
                    thumbs[k + start],
                    k + start,
                )
        }),
{
    let thumbs = filter_thumbnails(previews);
    let start: usize = if include_cover {
        0
    } else {
        1
    };
    let mut r: Vec<Candidate> = Vec::new();
    if thumbs.len() < start {
        return r;
    }
    let safe_username = to_path_safe(profile.username.as_str());
    let safe_nickname = to_path_safe(profile.nickname.as_str());
    let safe_title = to_path_safe(post.title.as_str());
    let mut i: usize = start;
    while i < thumbs.len()
        invariant
            start <= i <= thumbs@.len(),
            start == (if include_cover {
                0int
            } else {
                1int
            }),
            thumbs@ == thumbnails_spec(previews@),
            safe_username@ == path_safe_spec(profile.username@),
            safe_nickname@ == path_safe_spec(profile.nickname@),
            safe_title@ == path_safe_spec(post.title@),
            r@.len() == i - start,
            forall|k: int|
                0 <= k < r@.len() ==> (#[trigger] r@[k]).url@ == file_url_spec(
                    thumbs@[k + start].server@,
                    thumbs@[k + start].path@,
                ) && r@[k].dest@ == preview_dest_spec(
                    template@,
                    *profile,
                    *post,
                    thumbs@[k + start],
                    k + start,
                ),
        decreases thumbs@.len() - i,
    {
        let p = &thumbs[i];
        let safe_filename = to_path_safe(p.filename.as_str());
        let mut url = String::new();
        url.append(p.server.as_str());
        url.append("/data");
        url.append(p.path.as_str());
        let dest = candidate_dest(
            template,
            profile.user_id.as_str(),
            safe_username.as_str(),
            safe_nickname.as_str(),
            post.id,
            i as u64,
            safe_title.as_str(),
            safe_filename.as_str(),
        );
        r.push(Candidate { url, dest });
        i = i + 1;
    }
    r
}

/// What one kept candidate becomes: the next id, the candidate's URL, the
/// final filename, and the destination with the in-flight suffix.
pub open spec fn file_of(c: CandidateV, id: int) -> FileV {
    FileV {
        id: id as u64,
        filename: last_component_spec(c.dest),
        url: c.url,
        dest: c.dest + ".parts"@,
    }
}

/// The files made from candidates after the on-disk check: a candidate
/// whose destination already exists is dropped; the others become files,
/// in order, with consecutive ids from `first_id` on.
pub open spec fn finalize_spec(cands: Seq<CandidateV>, exists: Seq<bool>, first_id: int) -> Seq<
    FileV,
>
    decreases cands.len(),
{
    if cands.len() == 0 {
        Seq::empty()
    } else if exists[0] {
        finalize_spec(cands.skip(1), exists.skip(1), first_id)
    } else {
        seq![file_of(cands[0], first_id)] + finalize_spec(cands.skip(1), exists.skip(1), first_id + 1)
    }
}

/// Turns the candidates of one post into files, skipping every candidate
/// whose destination already exists on disk, and numbering the kept ones
/// consecutively from `first_id`.
pub fn finalize_files(cands: &Vec<Candidate>, exists: &Vec<bool>, first_id: FileID) -> (r: Vec<
    File,
>)
    requires
        exists@.len() == cands@.len(),
        first_id + cands@.len() <= u64::MAX,
    ensures
        r@.map_values(|f: File| f@) == finalize_spec(
            cands@.map_values(|c: Candidate| c@),
            exists@,
            first_id as int,
        ),
        forall|k: int| 0 <= k < r@.len() ==> file_wf(#[trigger] r@[k]@),
{
    let ghost scands = cands@.map_values(|c: Candidate| c@);
    let mut r: Vec<File> = Vec::new();
    let mut i: usize = 0;
    let mut id: u64 = first_id;
    proof {
        assert(scands.skip(0) =~= scands);
        assert(exists@.skip(0) =~= exists@);
        assert(r@.map_values(|f: File| f@) + finalize_spec(scands, exists@, first_id as int)
            =~= finalize_spec(scands, exists@, first_id as int));
    }
    while i < cands.len()
        invariant
            0 <= i <= cands@.len(),
            exists@.len() == cands@.len(),
            scands == cands@.map_values(|c: Candidate| c@),
            scands.len() == cands@.len(),
            first_id <= id,
            id - first_id <= i,
            id + (cands@.len() - i) <= u64::MAX,
            finalize_spec(scands, exists@, first_id as int) == r@.map_values(|f: File| f@)
                + finalize_spec(scands.skip(i as int), exists@.skip(i as int), id as int),
            forall|k: int| 0 <= k < r@.len() ==> file_wf(#[trigger] r@[k]@),
        decreases cands@.len() - i,
    {
        proof {
            assert(scands.skip(i as int)[0] == scands[i as int]);
            assert(scands[i as int] == cands@[i as int]@);
            assert(exists@.skip(i as int)[0] == exists@[i as int]);
            assert(scands.skip(i as int).skip(1) =~= scands.skip(i as int + 1));
            assert(exists@.skip(i as int).skip(1) =~= exists@.skip(i as int + 1));
        }
        if exists[i] {
            i = i + 1;
        } else {
            let c = &cands[i];
            let filename = last_component(c.dest.as_str());
            let mut dest = c.dest.clone();
            proof {
                reveal_strlit(".parts");
            }
            dest.append(".parts");
            let f = File { id, file: FileRef { filename, url: c.url.clone(), dest } };
            proof {
                assert(f@ == file_of(scands[i as int], id as int));
                assert(file_wf(f@)) by {
                    assert(f@.dest.subrange(
                        f@.dest.len() - ".parts"@.len(),
                        f@.dest.len() as int,
                    ) =~= ".parts"@);
                    assert(f@.dest.take(f@.dest.len() - ".parts"@.len()) =~= cands@[i as int].dest@);
                }
                assert(r@.push(f).map_values(|f: File| f@) =~= r@.map_values(|f: File| f@).push(
                    f@,
                ));
                assert(r@.map_values(|f: File| f@) + (seq![file_of(scands[i as int], id as int)]
                    + finalize_spec(
                    scands.skip(i as int + 1),
                    exists@.skip(i as int + 1),
                    id as int + 1,
                )) =~= r@.push(f).map_values(|f: File| f@) + finalize_spec(
                    scands.skip(i as int + 1),
                    exists@.skip(i as int + 1),
                    id as int + 1,
                ));
            }
            r.push(f);
            id = id + 1;
            i = i + 1;
        }
    }
    proof {
        assert(scands.skip(cands@.len() as int) =~= Seq::<CandidateV>::empty());
        assert(exists@.skip(exists@.len() as int) =~= Seq::<bool>::empty());
        assert(r@.map_values(|f: File| f@) + Seq::<FileV>::empty() =~= r@.map_values(
            |f: File| f@,
        ));
    }
    r
}

/// A re-run that finds every destination already on disk downloads
/// nothing: when every candidate exists, no file is made.
pub proof fn lemma_collect_idempotent(cands: Seq<CandidateV>, exists: Seq<bool>, first_id: int)
    requires
        exists.len() == cands.len(),
        forall|k: int| 0 <= k < exists.len() ==> exists[k],
    ensures
        finalize_spec(cands, exists, first_id).len() == 0,
    decreases cands.len(),
{
    if cands.len() > 0 {
        assert(exists[0]);
        lemma_collect_idempotent(cands.skip(1), exists.skip(1), first_id);
    }
}


/// The Markdown rendering of a post's HTML text, when the converter
/// succeeds. The conversion is a function of the text alone.
pub uninterp spec fn markdown_of(s: Seq<char>) -> Option<Seq<char>>;

/// Relies on `htmd::convert`: turns HTML into Markdown with the default
/// options, deterministically in its input.
#[verifier::external_body]
fn to_markdown(s: &str) -> (r: Option<String>)
    ensures
        r is Some <==> markdown_of(s@) is Some,
        r is Some ==> Some(r->0@) == markdown_of(s@),
{
    htmd::convert(s).ok()
}

/// The saved form of a post's text: its Markdown rendering, or the raw
/// text where the converter fails.
pub open spec fn text_body_spec(text: Seq<char>) -> Seq<char> {
    match markdown_of(text) {
        Some(m) => m,
        None => text,
    }
}

/// The planned extracted-text file of a post: where it lands, relative to
/// the output root, and what it holds.
#[derive(Debug)]
pub struct TextPlan {
    pub dest: String,
    pub content: String,
}

/// Plans a post's extracted-text file: nothing when text saving is off or
/// the post carries no text; otherwise the sibling destination derived
/// from the template's post-identifying prefix, holding the post text in
/// its display form.
pub fn plan_text(
    text: &str,
    save_text: bool,
    template: &str,
    profile: &Profile,
    post: &Post,
) -> (r: Option<TextPlan>)
    ensures
        r is Some <==> (save_text && text@.len() > 0),
        r is Some ==> r->0.dest@ == text_dest_spec(
            template@,
            profile.user_id@,
            path_safe_spec(profile.username@),
            path_safe_spec(profile.nickname@),
            post.id as int,
            path_safe_spec(post.title@),
        ) && r->0.content@ == text_body_spec(text@),
{
    if !save_text || text.unicode_len() == 0 {
        return None;
    }
    let content = match to_markdown(text) {
        Some(m) => m,
        None => String::from_str(text),
    };
    let safe_username = to_path_safe(profile.username.as_str());
    let safe_nickname = to_path_safe(profile.nickname.as_str());
    let safe_title = to_path_safe(post.title.as_str());
    let dest = text_dest(
        template,
        profile.user_id.as_str(),
        safe_username.as_str(),
        safe_nickname.as_str(),
        post.id,
        safe_title.as_str(),
    );
    Some(TextPlan { dest, content })
}

} // verus!
