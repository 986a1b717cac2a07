//! The profile and post-listing side of the pipeline: the creator profile,
//! the post entity, URL parsing, the decoding of profile and listing
//! payloads, and the paginated scrape with range filtering and bounded
//! rate-limit retry.
use vstd::prelude::*;
use vstd::seq_lib::*;
use vstd::string::*;

use crate::decode::gunzip;
use crate::decode::page_decode_spec;
use crate::decode::page_payload;
use crate::decode::profile_decode_spec;
use crate::decode::profile_payload;
use crate::range::Range;
use crate::strutil::find_spec;
use crate::strutil::split_char;
use crate::strutil::split_spec;
use crate::strutil::str_eq;
use crate::strutil::u64_to_string;
use crate::Error;
use crate::PAGE_SIZE;
use crate::SCRAPE_RETRY_TIMES;
use crate::STATUS_RATE_LIMITED;

verus! {

/// The id type of a post.
pub type PostID = u64;

/// A creator profile, fetched once per run and read by all later stages for
/// path templating.
#[derive(Debug)]
pub struct Profile {
    pub platform: String,
    pub user_id: String,
    pub nickname: String,
    pub username: String,
    pub post_count: u64,
}

impl Clone for Profile {
    fn clone(&self) -> (r: Self)
        ensures
            r == *self,
    {
        Profile {
            platform: self.platform.clone(),
            user_id: self.user_id.clone(),
            nickname: self.nickname.clone(),
            username: self.username.clone(),
            post_count: self.post_count,
        }
    }
}

/// One post of the creator, identified by its numeric id.
#[derive(Debug)]
pub struct Post {
    pub id: PostID,
    pub title: String,
}

impl Clone for Post {
    fn clone(&self) -> (r: Self)
        ensures
            r == *self,
    {
        Post { id: self.id, title: self.title.clone() }
    }
}

/// The mathematical value of a `Post`: its id and its title as a
/// character sequence.
pub struct PostV {
    pub id: PostID,
    pub title: Seq<char>,
}

impl View for Post {
    type V = PostV;

    open spec fn view(&self) -> PostV {
        PostV { id: self.id, title: self.title@ }
    }
}

/// The base of a creator URL: everything before the first query separator.
pub open spec fn url_base_spec(url: Seq<char>) -> Seq<char> {
    match find_spec(url, '?') {
        None => url,
        Some(j) => url.take(j),
    }
}

/// The position of the first `user` segment among the slash-separated
/// parts of a URL.
pub open spec fn user_index_spec(parts: Seq<Seq<char>>) -> Option<int>
    decreases parts.len(),
{
    if parts.len() == 0 {
        None
    } else if parts[0] == "user"@ {
        Some(0)
    } else {
        match user_index_spec(parts.skip(1)) {
            None => None,
            Some(j) => Some(j + 1),
        }
    }
}

proof fn lemma_user_index_char(parts: Seq<Seq<char>>)
    ensures
        match user_index_spec(parts) {
            None => forall|k: int| 0 <= k < parts.len() ==> parts[k] != "user"@,
            Some(j) => 0 <= j < parts.len() && parts[j] == "user"@ && forall|k: int|
                0 <= k < j ==> parts[k] != "user"@,
        },
    decreases parts.len(),
{
    if parts.len() > 0 && parts[0] != "user"@ {
        lemma_user_index_char(parts.skip(1));
        assert(forall|k: int| 1 <= k < parts.len() ==> parts[k] == parts.skip(1)[k - 1]);
    }
}

/// The platform and user id denoted by a creator URL. The query part is
/// dropped; a two-segment URL is read as `platform/user_id`; a longer one
/// must hold a `user` segment with the platform before it and the user id
/// after it.
pub open spec fn parsed_url_spec(url: Seq<char>) -> Option<(Seq<char>, Seq<char>)> {
    let parts = split_spec(url_base_spec(url), '/');
    if parts.len() == 2 {
        Some((parts[0], parts[1]))
    } else {
        match user_index_spec(parts) {
            None => None,
            Some(j) => if j == 0 || j + 1 >= parts.len() {
                None
            } else {
                Some((parts[j - 1], parts[j + 1]))
            },
        }
    }
}

/// Reads the platform and user id out of a creator URL.
pub fn parse_url(url: &str) -> (r: Option<(String, String)>)
    ensures
        match r {
            Some(pu) => parsed_url_spec(url@) == Some((pu.0@, pu.1@)),
            None => parsed_url_spec(url@) is None,
        },
{
    let n = url.unicode_len();
    let base = match crate::strutil::find_char(url, '?') {
        None => url.substring_char(0, n),
        Some(j) => url.substring_char(0, j),
    };
    proof {
        assert(base@ =~= url_base_spec(url@));
    }
    let parts = split_char(base, '/');
    let ghost sparts = split_spec(url_base_spec(url@), '/');
    proof {
        assert(parts@.map_values(|t: String| t@) =~= sparts);
        assert forall|k: int| 0 <= k < parts@.len() implies sparts[k] == parts@[k]@ by {
            assert(parts@.map_values(|t: String| t@)[k] == parts@[k]@);
        }
    }
    if parts.len() == 2 {
        return Some((parts[0].clone(), parts[1].clone()));
    }
    let mut i: usize = 0;
    while i < parts.len()
        invariant
            0 <= i <= parts@.len(),
            parts@.len() != 2,
            sparts == split_spec(url_base_spec(url@), '/'),
            sparts.len() == parts@.len(),
            forall|k: int| 0 <= k < parts@.len() ==> sparts[k] == #[trigger] parts@[k]@,
            forall|k: int| 0 <= k < i ==> sparts[k] != "user"@,
        decreases parts@.len() - i,
    {
        if str_eq(parts[i].as_str(), "user") {
            proof {
                lemma_user_index_char(sparts);
                match user_index_spec(sparts) {
                    None => {
                        assert(false);
                    },
                    Some(j) => {
                        assert(!(j < i) && !(i < j));
                    },
                }
            }
            if i == 0 || i + 1 >= parts.len() {
                return None;
            }
            return Some((parts[i - 1].clone(), parts[i + 1].clone()));
        }
        i = i + 1;
    }
    proof {
        lemma_user_index_char(sparts);
        if user_index_spec(sparts) is Some {
            let j = user_index_spec(sparts)->0;
            assert(sparts[j] == "user"@);
        }
    }
    None
}

/// Decodes a profile response body: the defensive strategy over the
/// trusted payload read. Succeeds exactly when `profile_decode_spec`
/// denotes a profile, whose members land in `nickname`, `username` and
/// `post_count`; the platform and user id are the ones the profile was
/// requested for.
pub fn decode_profile(body: &[u8], platform: &str, user_id: &str) -> (r: Option<Profile>)
    ensures
        r is Some <==> profile_decode_spec(body@) is Some,
        r is Some ==> r->0.platform@ == platform@ && r->0.user_id@ == user_id@ && Some(
            (r->0.nickname@, r->0.username@, r->0.post_count),
        ) == profile_decode_spec(body@),
{
    let fields = match profile_payload(body) {
        Some(f) => f,
        None => {
            let inflated = match gunzip(body) {
                None => {
                    return None;
                },
                Some(b) => b,
            };
            match profile_payload(inflated.as_slice()) {
                None => {
                    return None;
                },
                Some(f) => f,
            }
        },
    };
    Some(
        Profile {
            platform: String::from_str(platform),
            user_id: String::from_str(user_id),
            nickname: fields.0,
            username: fields.1,
            post_count: fields.2,
        },
    )
}

/// Decodes a listing response body: the defensive strategy over the
/// trusted payload read. Succeeds exactly when `page_decode_spec`
/// denotes a page, and returns that page in server order.
pub fn decode_page(body: &[u8]) -> (r: Option<Vec<Post>>)
    ensures
        r is Some <==> page_decode_spec(body@) is Some,
        r is Some ==> Some(r->0@.map_values(|p: Post| p@)) == page_decode_spec(body@),
{
    match page_payload(body) {
        Some(p) => Some(p),
        None => match gunzip(body) {
            None => None,
            Some(inflated) => page_payload(inflated.as_slice()),
        },
    }
}

/// Whether a post's id lies in `r`.
pub open spec fn in_range(p: Post, r: Range) -> bool {
    r.start <= p.id <= r.end
}

/// The posts of a page whose ids lie in `r`, in page order.
pub open spec fn filter_in_range_spec(page: Seq<Post>, r: Range) -> Seq<Post> {
    page.filter(|p: Post| in_range(p, r))
}

/// Keeps exactly the posts of a page whose ids lie in `r`, in page order.
pub fn filter_in_range(page: &Vec<Post>, r: &Range) -> (kept: Vec<Post>)
    ensures
        kept@ == filter_in_range_spec(page@, *r),
{
    proof {
        reveal(Seq::filter);
    }
    let mut kept: Vec<Post> = Vec::new();
    let mut i: usize = 0;
    proof {
        assert(page@.take(0).filter(|p: Post| in_range(p, *r)) =~= Seq::<Post>::empty());
    }
    while i < page.len()
        invariant
            0 <= i <= page@.len(),
            kept@ == page@.take(i as int).filter(|p: Post| in_range(p, *r)),
        decreases page@.len() - i,
    {
        proof {
            reveal(Seq::filter);
            assert(page@.take(i as int + 1).drop_last() =~= page@.take(i as int));
            assert(page@.take(i as int + 1).last() == page@[i as int]);
        }
        let p = &page[i];
        if r.contains(p.id) {
            kept.push(p.clone());
        }
        i = i + 1;
    }
    proof {
        assert(page@.take(page@.len() as int) =~= page@);
    }
    kept
}

/// A post is kept by the range filter exactly when it stands in the page
/// and its id lies in the range; the filter invents nothing and loses
/// nothing in range.
pub proof fn lemma_scrape_membership(page: Seq<Post>, r: Range)
    ensures
        forall|p: Post|
            #[trigger] filter_in_range_spec(page, r).contains(p) <==> (page.contains(p)
                && in_range(p, r)),
    decreases page.len(),
{
    reveal(Seq::filter);
    if page.len() > 0 {
        lemma_scrape_membership(page.drop_last(), r);
        let out = filter_in_range_spec(page, r);
        let sub = filter_in_range_spec(page.drop_last(), r);
        assert(out == if in_range(page.last(), r) {
            sub.push(page.last())
        } else {
            sub
        });
        assert forall|p: Post| #[trigger] out.contains(p) implies (page.contains(p) && in_range(
            p,
            r,
        )) by {
            let k = choose|k: int| 0 <= k < out.len() && out[k] == p;
            if in_range(page.last(), r) && k == out.len() - 1 {
                assert(page[page.len() - 1] == p);
            } else {
                assert(sub[k] == p);
                assert(sub.contains(p));
                let m = choose|m: int| 0 <= m < page.drop_last().len() && page.drop_last()[m] == p;
                assert(page[m] == p);
            }
        }
        assert forall|p: Post| (page.contains(p) && in_range(p, r)) implies #[trigger] out.contains(
            p,
        ) by {
            let m = choose|m: int| 0 <= m < page.len() && page[m] == p;
            if m == page.len() - 1 {
                assert(out[out.len() - 1] == p);
            } else {
                assert(page.drop_last()[m] == p);
                assert(page.drop_last().contains(p));
                assert(sub.contains(p));
                let k = choose|k: int| 0 <= k < sub.len() && sub[k] == p;
                assert(out[k] == p);
            }
        }
    }
}


/// What the scraper does with one listing response.
#[derive(Debug)]
pub enum ScrapeStep {
    /// The server asked for a pause and a retry of the same page is owed
    /// after the cooldown.
    Retry,
    /// The page was decoded and its in-range posts were kept.
    Page,
    /// The run is over: rate limiting beyond the retry bound, another
    /// non-success status, or an undecodable body.
    Fatal(Error),
}

/// The in-range posts of a run of pages, page by page in page order:
/// what a whole scrape returns.
pub open spec fn scraped_posts_spec(pages: Seq<Seq<Post>>, r: Range) -> Seq<Post>
    decreases pages.len(),
{
    if pages.len() == 0 {
        Seq::empty()
    } else {
        scraped_posts_spec(pages.drop_last(), r) + filter_in_range_spec(pages.last(), r)
    }
}

/// A post comes out of a scrape exactly when some page carried it and its
/// id lies in the range: no page loses an in-range post, none smuggles an
/// out-of-range one in.
pub proof fn lemma_scrape_output(pages: Seq<Seq<Post>>, r: Range)
    ensures
        forall|p: Post|
            #[trigger] scraped_posts_spec(pages, r).contains(p) <==> ((exists|i: int|
                0 <= i < pages.len() && (#[trigger] pages[i]).contains(p)) && in_range(p, r)),
    decreases pages.len(),
{
    if pages.len() > 0 {
        lemma_scrape_output(pages.drop_last(), r);
        lemma_scrape_membership(pages.last(), r);
        let whole = scraped_posts_spec(pages, r);
        let front = scraped_posts_spec(pages.drop_last(), r);
        let back = filter_in_range_spec(pages.last(), r);
        assert(whole == front + back);
        assert forall|p: Post| #[trigger] whole.contains(p) implies ((exists|i: int|
            0 <= i < pages.len() && (#[trigger] pages[i]).contains(p)) && in_range(p, r)) by {
            let k = choose|k: int| 0 <= k < whole.len() && whole[k] == p;
            if k < front.len() {
                assert(front[k] == p);
                assert(front.contains(p));
                let i = choose|i: int|
                    0 <= i < pages.drop_last().len() && (#[trigger] pages.drop_last()[i]).contains(
                        p,
                    );
                assert(pages[i].contains(p));
            } else {
                assert(back[k - front.len()] == p);
                assert(back.contains(p));
                assert(pages[pages.len() - 1].contains(p));
            }
        }
        assert forall|p: Post| ((exists|i: int|
            0 <= i < pages.len() && (#[trigger] pages[i]).contains(p)) && in_range(
            p,
            r,
        )) implies #[trigger] whole.contains(p) by {
            let i = choose|i: int| 0 <= i < pages.len() && (#[trigger] pages[i]).contains(p);
            if i < pages.len() - 1 {
                assert(pages.drop_last()[i].contains(p));
                assert(front.contains(p));
                let k = choose|k: int| 0 <= k < front.len() && front[k] == p;
                assert(whole[k] == p);
            } else {
                assert(pages.last().contains(p));
                assert(back.contains(p));
                let k = choose|k: int| 0 <= k < back.len() && back[k] == p;
                assert(whole[front.len() + k] == p);
            }
        }
    }
}

/// The paginated scrape of a creator's post listing, one decision step per
/// server response. The surrounding process fetches the page each
/// `next_offset` asks for, hands the response in, and obeys the returned
/// step; the session keeps every in-range post, retries rate-limited pages
/// up to the bound, and stops once the offset passes the server-reported
/// post count.
pub struct ScrapeSession {
    /// The id interval the caller asked for.
    pub range: Range,
    /// The server-reported number of posts, fixed at session start.
    pub post_count: u64,
    /// The listing offset of the page asked for next.
    pub offset: u64,
    /// How often the current page has been retried after rate limiting.
    pub retry: u8,
    /// Every in-range post seen so far, in server order.
    pub posts: Vec<Post>,
    /// The decoded pages taken so far, for specification only.
    pub pages: Ghost<Seq<Seq<Post>>>,
    /// A fatal error has ended the session.
    pub failed: bool,
    /// The offset has passed the post count: nothing left to ask for.
    pub finished: bool,
}

proof fn lemma_filter_in_range_pred(page: Seq<Post>, r: Range)
    ensures
        forall|i: int|
            0 <= i < filter_in_range_spec(page, r).len() ==> in_range(
                #[trigger] filter_in_range_spec(page, r)[i],
                r,
            ),
    decreases page.len(),
{
    reveal(Seq::filter);
    if page.len() > 0 {
        lemma_filter_in_range_pred(page.drop_last(), r);
        let out = filter_in_range_spec(page, r);
        let sub = filter_in_range_spec(page.drop_last(), r);
        assert(out == if in_range(page.last(), r) {
            sub.push(page.last())
        } else {
            sub
        });
    }
}

impl ScrapeSession {
    /// Every post kept so far lies in the requested range.
    pub open spec fn wf(&self) -> bool {
        forall|i: int|
            0 <= i < self.posts@.len() ==> in_range(#[trigger] self.posts@[i], self.range)
    }

    /// The kept posts are exactly the in-range posts of the pages taken
    /// so far, in page order.
    pub open spec fn posts_match_pages(&self) -> bool {
        self.posts@ == scraped_posts_spec(self.pages@, self.range)
    }

    /// The session still has a page to ask for.
    pub open spec fn active(&self) -> bool {
        !self.failed && !self.finished
    }

    /// Starts a scrape over `post_count` server-reported posts, keeping the
    /// posts whose ids lie in `range`.
    pub fn new(post_count: u64, range: Range) -> (s: Self)
        ensures
            s.range == range,
            s.post_count == post_count,
            s.offset == 0,
            s.retry == 0,
            s.posts@ == Seq::<Post>::empty(),
            s.pages@ == Seq::<Seq<Post>>::empty(),
            s.active(),
            s.wf(),
            s.posts_match_pages(),
    {
        ScrapeSession {
            range,
            post_count,
            offset: 0,
            retry: 0,
            posts: Vec::new(),
            pages: Ghost(Seq::empty()),
            failed: false,
            finished: false,
        }
    }

    /// The offset of the page to fetch next, or nothing once the session
    /// has failed or run out of pages.
    pub fn next_offset(&self) -> (r: Option<u64>)
        ensures
            r is Some <==> self.active(),
            r is Some ==> r->0 == self.offset,
    {
        if self.failed || self.finished {
            None
        } else {
            Some(self.offset)
        }
    }

    /// Takes one listing response and decides how to go on.
    ///
    /// A rate-limit status within the retry bound asks for a retry of the
    /// same page and changes nothing else; one beyond the bound, any other
    /// non-success status, and an undecodable body are fatal. A decoded
    /// page appends exactly its in-range posts, in page order, resets the
    /// retry count, and moves the offset one page forward until it passes
    /// the post count.
    pub fn on_response(&mut self, status: u16, body: &[u8]) -> (step: ScrapeStep)
        requires
            old(self).active(),
            old(self).wf(),
            old(self).posts_match_pages(),
        ensures
            final(self).range == old(self).range,
            final(self).post_count == old(self).post_count,
            final(self).wf(),
            final(self).posts_match_pages(),
            (step is Retry) <==> (status == STATUS_RATE_LIMITED && old(self).retry
                < SCRAPE_RETRY_TIMES),
            step is Retry ==> final(self).retry == old(self).retry + 1 && final(self).posts
                == old(self).posts && final(self).pages == old(self).pages && final(self).offset
                == old(self).offset && final(self).active(),
            (status == STATUS_RATE_LIMITED && old(self).retry >= SCRAPE_RETRY_TIMES) ==> step
                is Fatal,
            (!(200 <= status < 300) && status != STATUS_RATE_LIMITED) ==> step is Fatal,
            (step is Page) <==> (200 <= status < 300 && page_decode_spec(body@) is Some),
            step is Fatal ==> final(self).failed && step->0 is Scrape
                && final(self).posts == old(self).posts && final(self).pages == old(self).pages,
            step is Page ==> final(self).retry == 0 && !final(self).failed
                && (exists|page: Seq<Post>|
                    Some(page.map_values(|p: Post| p@)) == page_decode_spec(body@)
                    && final(self).pages@ == old(self).pages@.push(page)
                    && final(self).posts@ == old(self).posts@ + filter_in_range_spec(page, old(self).range))
                && final(self).finished == (old(self).offset + PAGE_SIZE > old(self).post_count)
                && (!final(self).finished ==> final(self).offset == old(self).offset + PAGE_SIZE),
    {
        if status == STATUS_RATE_LIMITED {
            if self.retry < SCRAPE_RETRY_TIMES {
                self.retry = self.retry + 1;
                return ScrapeStep::Retry;
            }
            self.failed = true;
            return ScrapeStep::Fatal(
                Error::Scrape(String::from_str("rate limited beyond the retry bound")),
            );
        }
        if status < 200 || status >= 300 {
            self.failed = true;
            let mut msg = String::from_str("unexpected listing status ");
            let digits = u64_to_string(status as u64);
            msg.append(digits.as_str());
            return ScrapeStep::Fatal(Error::Scrape(msg));
        }
        let page = match decode_page(body) {
            None => {
                self.failed = true;
                return ScrapeStep::Fatal(
                    Error::Scrape(String::from_str("undecodable listing response")),
                );
            },
            Some(p) => p,
        };
        let mut kept = filter_in_range(&page, &self.range);
        proof {
            lemma_filter_in_range_pred(page@, self.range);
        }
        self.posts.append(&mut kept);
        proof {
            assert(self.pages@.push(page@).drop_last() =~= self.pages@);
            assert(self.pages@.push(page@).last() == page@);
        }
        self.pages = Ghost(self.pages@.push(page@));
        self.retry = 0;
        match self.offset.checked_add(PAGE_SIZE) {
            None => {
                self.finished = true;
            },
            Some(o2) => {
                self.offset = o2;
                if o2 > self.post_count {
                    self.finished = true;
                }
            },
        }
        proof {
            assert(self.posts@ == old(self).posts@ + filter_in_range_spec(
                page@,
                old(self).range,
            ));
        }
        ScrapeStep::Page
    }

    /// Hands the kept posts out, consuming the session.
    pub fn into_posts(self) -> (r: Vec<Post>)
        ensures
            r == self.posts,
    {
        self.posts
    }
}

} // verus!
