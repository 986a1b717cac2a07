//! The engine: owner of the run's lifecycle. It sequences the stages —
//! profile, scrape, browse, download — through an explicit phase, allots
//! the per-run file ids, keeps the table of in-flight downloads, and turns
//! every internal observation into the one externally visible event or
//! error. The surrounding process performs the network and filesystem work
//! between these steps and relays what the engine hands back onto the
//! event stream.
use vstd::prelude::*;

use crate::file::file_wf;
use crate::file::finalize_files;
use crate::file::finalize_spec;
use crate::file::Candidate;
use crate::file::File;
use crate::file::FileID;
use crate::post::PostID;
use crate::worker::Prog;
use crate::Error;
use crate::Event;

verus! {

/// Where in its life a run stands.
#[derive(Debug, Clone, Copy, PartialEq, Eq, Structural)]
pub enum Phase {
    /// Nothing has happened; the profile fetch is next.
    Created,
    /// The profile is in hand; the scrape is next.
    Profiled,
    /// Posts are known; the browser pool is at work.
    Browsing,
    /// Every post is browsed; only downloads are left.
    Downloading,
    /// The terminal event went out.
    Done,
    /// A fatal error ended the run.
    Failed,
}

/// The engine's state: the phase, the id source, and the in-flight job
/// table used to correlate finish and failure events with their files.
#[derive(Debug)]
pub struct Engine {
    pub phase: Phase,
    pub next_id: FileID,
    pub jobs: Vec<File>,
}

proof fn lemma_finalize_ids(cands: Seq<crate::file::CandidateV>, exists: Seq<bool>, first_id: int)
    requires
        exists.len() == cands.len(),
        0 <= first_id,
        first_id + cands.len() <= u64::MAX,
    ensures
        finalize_spec(cands, exists, first_id).len() <= cands.len(),
        forall|k: int|
            0 <= k < finalize_spec(cands, exists, first_id).len() ==> (#[trigger] finalize_spec(
                cands,
                exists,
                first_id,
            )[k]).id == first_id + k,
    decreases cands.len(),
{
    if cands.len() > 0 {
        lemma_finalize_ids(cands.skip(1), exists.skip(1), first_id);
        lemma_finalize_ids(cands.skip(1), exists.skip(1), first_id + 1);
    }
}

impl Engine {
    /// No two in-flight jobs share an id, and every id was allotted.
    pub open spec fn jobs_wf(&self) -> bool {
        &&& forall|i: int, j: int|
            0 <= i < j < self.jobs@.len() ==> (#[trigger] self.jobs@[i])@.id != (
            #[trigger] self.jobs@[j])@.id
        &&& forall|i: int| 0 <= i < self.jobs@.len() ==> (#[trigger] self.jobs@[i])@.id
            < self.next_id
    }

    /// An id has an in-flight job.
    pub open spec fn has_job(&self, id: FileID) -> bool {
        exists|k: int| 0 <= k < self.jobs@.len() && (#[trigger] self.jobs@[k])@.id == id
    }

    /// Starts an engine with nothing in flight.
    pub fn new() -> (e: Self)
        ensures
            e.phase == Phase::Created,
            e.next_id == 0,
            e.jobs@.len() == 0,
            e.jobs_wf(),
    {
        Engine { phase: Phase::Created, next_id: 0, jobs: Vec::new() }
    }

    /// Takes the fetched profile: the first visible event of a run.
    pub fn on_profile(&mut self, profile: crate::Profile) -> (e: Event)
        requires
            old(self).phase == Phase::Created,
        ensures
            final(self).phase == Phase::Profiled,
            final(self).next_id == old(self).next_id,
            final(self).jobs == old(self).jobs,
            e == Event::Profile(profile),
    {
        self.phase = Phase::Profiled;
        Event::Profile(profile)
    }

    /// Takes a failed profile fetch: fatal, the run ends.
    pub fn on_profile_error(&mut self, cause: String) -> (e: Error)
        requires
            old(self).phase == Phase::Created,
        ensures
            final(self).phase == Phase::Failed,
            final(self).jobs == old(self).jobs,
            e == Error::Profile(cause),
    {
        self.phase = Phase::Failed;
        Error::Profile(cause)
    }

    /// Takes the finished scrape: the post count goes out, the listing is
    /// declared exhausted, and browsing begins.
    pub fn on_scraped(&mut self, count: usize) -> (es: (Event, Event))
        requires
            old(self).phase == Phase::Profiled,
        ensures
            final(self).phase == Phase::Browsing,
            final(self).next_id == old(self).next_id,
            final(self).jobs == old(self).jobs,
            es.0 == Event::Posts(count),
            es.1 == Event::PostsExhausted,
    {
        self.phase = Phase::Browsing;
        (Event::Posts(count), Event::PostsExhausted)
    }

    /// Takes a failed scrape: fatal, the run ends.
    pub fn on_scrape_error(&mut self, cause: String) -> (e: Error)
        requires
            old(self).phase == Phase::Profiled,
        ensures
            final(self).phase == Phase::Failed,
            final(self).jobs == old(self).jobs,
            e == Error::Scrape(cause),
    {
        self.phase = Phase::Failed;
        Error::Scrape(cause)
    }

    /// Takes one browsed post's candidates and their on-disk check: makes
    /// the files, allots their ids, registers them as in flight, and
    /// reports the batch. The files handed back feed the download queue.
    pub fn admit_batch(&mut self, cands: &Vec<Candidate>, exists: &Vec<bool>) -> (r: (
        Vec<File>,
        Event,
    ))
        requires
            old(self).phase == Phase::Browsing,
            old(self).jobs_wf(),
            exists@.len() == cands@.len(),
            old(self).next_id + cands@.len() <= u64::MAX,
        ensures
            final(self).phase == Phase::Browsing,
            final(self).jobs_wf(),
            final(self).next_id == old(self).next_id + r.0@.len(),
            r.0@.map_values(|f: File| f@) == finalize_spec(
                cands@.map_values(|c: Candidate| c@),
                exists@,
                old(self).next_id as int,
            ),
            forall|k: int| 0 <= k < r.0@.len() ==> file_wf(#[trigger] r.0@[k]@),
            final(self).jobs@ == old(self).jobs@ + r.0@,
            (r.1 matches Event::Files(fs) && fs@ == r.0@),
            forall|id: FileID| old(self).has_job(id) ==> final(self).has_job(id),
    {
        let ghost old_jobs = self.jobs@;
        let ghost id0 = self.next_id;
        let files = finalize_files(cands, exists, self.next_id);
        proof {
            lemma_finalize_ids(cands@.map_values(|c: Candidate| c@), exists@, id0 as int);
            assert forall|k: int| 0 <= k < files@.len() implies (#[trigger] files@[k])@.id == id0
                + k by {
                assert(files@.map_values(|f: File| f@)[k] == files@[k]@);
            }
        }
        let copy = clone_files(&files);
        let mut registered = clone_files(&files);
        self.next_id = self.next_id + files.len() as u64;
        self.jobs.append(&mut registered);
        proof {
            assert(self.jobs@ == old_jobs + files@);
            assert forall|i: int, j: int| 0 <= i < j < self.jobs@.len() implies (
            #[trigger] self.jobs@[i])@.id != (#[trigger] self.jobs@[j])@.id by {
                if j < old_jobs.len() {
                    assert(old(self).jobs@[i]@.id != old(self).jobs@[j]@.id);
                } else if i >= old_jobs.len() {
                    assert(self.jobs@[i]@.id == id0 + (i - old_jobs.len()));
                    assert(self.jobs@[j]@.id == id0 + (j - old_jobs.len()));
                } else {
                    assert(self.jobs@[i]@.id < id0);
                    assert(self.jobs@[j]@.id == id0 + (j - old_jobs.len()));
                }
            }
            assert forall|i: int| 0 <= i < self.jobs@.len() implies (#[trigger] self.jobs@[i])@.id
                < self.next_id by {
                if i < old_jobs.len() {
                    assert(self.jobs@[i]@.id < id0);
                } else {
                    assert(self.jobs@[i]@.id == id0 + (i - old_jobs.len()));
                }
            }
            assert forall|id: FileID| old(self).has_job(id) implies self.has_job(id) by {
                let k = choose|k: int|
                    0 <= k < old(self).jobs@.len() && (#[trigger] old(self).jobs@[k])@.id == id;
                assert(self.jobs@[k]@.id == id);
            }
        }
        (files, Event::Files(copy))
    }

    /// Takes one post's browse failure: scoped to that post, it is
    /// reported and nothing else changes — the pool goes on with the next
    /// post.
    pub fn on_browse_error(&self, post_id: PostID, cause: String) -> (e: Error)
        requires
            self.phase == Phase::Browsing,
        ensures
            e == Error::Browse(post_id, cause),
    {
        Error::Browse(post_id, cause)
    }

    /// Takes the browser pool's exhaustion: every post is browsed, only
    /// downloads are left.
    pub fn on_files_exhausted(&mut self) -> (e: Event)
        requires
            old(self).phase == Phase::Browsing,
        ensures
            final(self).phase == Phase::Downloading,
            final(self).next_id == old(self).next_id,
            final(self).jobs == old(self).jobs,
            e == Event::FilesExhausted,
    {
        self.phase = Phase::Downloading;
        Event::FilesExhausted
    }

    /// Removes the in-flight job with the given id, if any. No other job
    /// is touched.
    fn remove_job(&mut self, id: FileID)
        requires
            old(self).jobs_wf(),
        ensures
            final(self).jobs_wf(),
            final(self).next_id == old(self).next_id,
            final(self).phase == old(self).phase,
            !final(self).has_job(id),
            forall|o: FileID|
                o != id ==> (final(self).has_job(o) <==> old(self).has_job(o)),
            old(self).has_job(id) ==> final(self).jobs@.len() == old(self).jobs@.len() - 1,
            !old(self).has_job(id) ==> final(self).jobs == old(self).jobs,
    {
        let mut i: usize = 0;
        while i < self.jobs.len()
            invariant
                0 <= i <= self.jobs@.len(),
                *self == *old(self),
                old(self).jobs_wf(),
                forall|k: int| 0 <= k < i ==> (#[trigger] self.jobs@[k])@.id != id,
            decreases self.jobs@.len() - i,
        {
            if self.jobs[i].id() == id {
                let ghost oj = self.jobs@;
                self.jobs.remove(i);
                proof {
                    assert(self.jobs@ == oj.remove(i as int));
                    assert forall|k: int| 0 <= k < self.jobs@.len() implies (
                    #[trigger] self.jobs@[k])@.id != id by {
                        if k < i {
                            assert(self.jobs@[k] == oj[k]);
                        } else {
                            assert(self.jobs@[k] == oj[k + 1]);
                        }
                    }
                    assert forall|o: FileID| o != id && old(self).has_job(o) implies self.has_job(
                        o,
                    ) by {
                        let k = choose|k: int| 0 <= k < oj.len() && (#[trigger] oj[k])@.id == o;
                        if k < i {
                            assert(self.jobs@[k]@.id == o);
                        } else {
                            assert(self.jobs@[k - 1]@.id == o);
                        }
                    }
                    assert forall|o: FileID| o != id && self.has_job(o) implies old(
                        self,
                    ).has_job(o) by {
                        let k = choose|k: int|
                            0 <= k < self.jobs@.len() && (#[trigger] self.jobs@[k])@.id == o;
                        if k < i {
                            assert(oj[k]@.id == o);
                        } else {
                            assert(oj[k + 1]@.id == o);
                        }
                    }
                    assert forall|a: int, b: int| 0 <= a < b < self.jobs@.len() implies (
                    #[trigger] self.jobs@[a])@.id != (#[trigger] self.jobs@[b])@.id by {
                        let a2: int = if a < i {
                            a
                        } else {
                            a + 1
                        };
                        let b2: int = if b < i {
                            b
                        } else {
                            b + 1
                        };
                        assert(self.jobs@[a] == oj[a2]);
                        assert(self.jobs@[b] == oj[b2]);
                    }
                    assert forall|k: int| 0 <= k < self.jobs@.len() implies (
                    #[trigger] self.jobs@[k])@.id < self.next_id by {
                        if k < i {
                            assert(self.jobs@[k] == oj[k]);
                        } else {
                            assert(self.jobs@[k] == oj[k + 1]);
                        }
                    }
                    assert(old(self).has_job(id)) by {
                        assert(oj[i as int]@.id == id);
                    }
                }
                return ;
            }
            i = i + 1;
        }
        proof {
            if old(self).has_job(id) {
                let k = choose|k: int|
                    0 <= k < old(self).jobs@.len() && (#[trigger] old(self).jobs@[k])@.id == id;
                assert(self.jobs@[k]@.id != id);
                assert(false);
            }
        }
    }

    /// Takes one progress observation of the download pool and names the
    /// event it becomes. Downloads overlap browsing, so progress is taken
    /// in either stage. A finish settles the file's bookkeeping: its job
    /// leaves the table; every other job stays untouched.
    pub fn on_prog(&mut self, id: FileID, prog: Prog) -> (e: Event)
        requires
            old(self).phase == Phase::Browsing || old(self).phase == Phase::Downloading,
            old(self).jobs_wf(),
            old(self).has_job(id),
        ensures
            final(self).phase == old(self).phase,
            final(self).jobs_wf(),
            final(self).next_id == old(self).next_id,
            e == (match prog {
                Prog::Enqueue => Event::Enqueue(id),
                Prog::Init(t) => Event::Init(id, t),
                Prog::Chunk(c) => Event::Chunk(id, c),
                Prog::Fin => Event::Fin(id),
            }),
            prog is Fin ==> !final(self).has_job(id) && final(self).jobs@.len() == old(
                self,
            ).jobs@.len() - 1 && (forall|o: FileID|
                o != id ==> (final(self).has_job(o) <==> old(self).has_job(o))),
            !(prog is Fin) ==> final(self).jobs == old(self).jobs,
    {
        match prog {
            Prog::Enqueue => Event::Enqueue(id),
            Prog::Init(t) => Event::Init(id, t),
            Prog::Chunk(c) => Event::Chunk(id, c),
            Prog::Fin => {
                self.remove_job(id);
                Event::Fin(id)
            },
        }
    }

    /// Takes one file's download failure: scoped to that file, whose job
    /// leaves the table and whose temporary file stays on disk; every
    /// other in-flight file is untouched.
    pub fn on_download_error(&mut self, id: FileID, cause: String) -> (e: Error)
        requires
            old(self).phase == Phase::Browsing || old(self).phase == Phase::Downloading,
            old(self).jobs_wf(),
            old(self).has_job(id),
        ensures
            final(self).phase == old(self).phase,
            final(self).jobs_wf(),
            final(self).next_id == old(self).next_id,
            e == Error::Download(id, cause),
            !final(self).has_job(id),
            final(self).jobs@.len() == old(self).jobs@.len() - 1,
            forall|o: FileID| o != id ==> (final(self).has_job(o) <==> old(self).has_job(o)),
    {
        self.remove_job(id);
        Error::Download(id, cause)
    }

    /// Takes the download pool's exhaustion with every job settled: the
    /// terminal event goes out and the run is over.
    pub fn on_clear(&mut self) -> (e: Event)
        requires
            old(self).phase == Phase::Downloading,
            old(self).jobs@.len() == 0,
        ensures
            final(self).phase == Phase::Done,
            final(self).jobs == old(self).jobs,
            e == Event::Clear,
    {
        self.phase = Phase::Done;
        Event::Clear
    }

    /// Whether an id has an in-flight job.
    pub fn is_in_flight(&self, id: FileID) -> (r: bool)
        ensures
            r == self.has_job(id),
    {
        let mut i: usize = 0;
        while i < self.jobs.len()
            invariant
                0 <= i <= self.jobs@.len(),
                forall|k: int| 0 <= k < i ==> (#[trigger] self.jobs@[k])@.id != id,
            decreases self.jobs@.len() - i,
        {
            if self.jobs[i].id() == id {
                return true;
            }
            i = i + 1;
        }
        false
    }

    /// How many downloads are in flight.
    pub fn in_flight(&self) -> (n: usize)
        ensures
            n == self.jobs@.len(),
    {
        self.jobs.len()
    }
}

impl Default for Engine {
    /// An engine with nothing in flight, same as `new`.
    fn default() -> (e: Self)
        ensures
            e.phase == Phase::Created,
            e.next_id == 0,
            e.jobs@.len() == 0,
    {
        Engine::new()
    }
}

/// Clones a file list element by element.
fn clone_files(files: &Vec<File>) -> (r: Vec<File>)
    ensures
        r@ == files@,
{
    let mut r: Vec<File> = Vec::new();
    let mut i: usize = 0;
    while i < files.len()
        invariant
            0 <= i <= files@.len(),
            r@ == files@.take(i as int),
        decreases files@.len() - i,
    {
        r.push(files[i].clone());
        proof {
            assert(files@.take(i as int + 1) =~= files@.take(i as int).push(files@[i as int]));
        }
        i = i + 1;
    }
    proof {
        assert(files@.take(files@.len() as int) =~= files@);
    }
    r
}

} // verus!
