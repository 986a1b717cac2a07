//! The per-file download state machine. The surrounding process opens the
//! connection, reads the body in chunks, writes them to the temporary
//! file, and performs the finishing rename; this module decides what each
//! observation means, keeps the byte count, and names the rename target.
use vstd::prelude::*;
use vstd::string::*;

use crate::file::file_wf;
use crate::file::File;
use crate::Error;

verus! {

/// The progress of one download, as the workers report it.
#[derive(Debug, Clone, Copy, PartialEq, Eq, Structural)]
pub enum Prog {
    /// The file was taken off the queue by a worker.
    Enqueue,
    /// The connection is up; the payload is the total size in bytes.
    Init(u64),
    /// A chunk arrived; the payload is the cumulative bytes received.
    Chunk(u64),
    /// The file is fully on disk under its final name.
    Fin,
}

/// One file's download in flight: the file, the bytes received so far, and
/// where in its life the transfer stands.
#[derive(Debug)]
pub struct Download {
    /// The file being fetched.
    pub file: File,
    /// Cumulative bytes received.
    pub received: u64,
    /// The size the server announced.
    pub total: u64,
    /// The connection has been established.
    pub established: bool,
    /// The finishing rename is done.
    pub done: bool,
    /// The transfer failed; the temporary file stays on disk.
    pub failed: bool,
}

impl Download {
    /// The tracked file stays well-formed throughout.
    pub open spec fn wf(&self) -> bool {
        file_wf(self.file@)
    }

    /// Starts tracking one file's download.
    pub fn new(file: File) -> (d: Self)
        requires
            file_wf(file@),
        ensures
            d.file == file,
            d.received == 0,
            !d.established,
            !d.done,
            !d.failed,
            d.wf(),
    {
        Download { file, received: 0, total: 0, established: false, done: false, failed: false }
    }

    /// Takes the server's answer to the opening request. A missing content
    /// length fails this one file; an announced length establishes the
    /// transfer and is reported.
    pub fn on_connect(&mut self, content_length: Option<u64>) -> (r: Result<Prog, Error>)
        requires
            old(self).wf(),
            !old(self).established,
            !old(self).done,
            !old(self).failed,
        ensures
            final(self).wf(),
            final(self).file == old(self).file,
            final(self).received == old(self).received,
            r is Ok <==> content_length is Some,
            r is Ok ==> r->Ok_0 == Prog::Init(content_length->0) && final(self).established
                && final(self).total == content_length->0 && !final(self).failed
                && !final(self).done,
            r is Err ==> (r->Err_0 matches Error::Download(id, m) && id == old(self).file@.id
                && m@ == "content-length is missing"@) && final(self).failed
                && !final(self).established && !final(self).done,
    {
        match content_length {
            None => {
                self.failed = true;
                Err(
                    Error::Download(
                        self.file.id,
                        String::from_str("content-length is missing"),
                    ),
                )
            },
            Some(total) => {
                self.established = true;
                self.total = total;
                Ok(Prog::Init(total))
            },
        }
    }

    /// Counts one received chunk and reports the cumulative bytes.
    pub fn on_chunk(&mut self, len: u64) -> (r: Prog)
        requires
            old(self).wf(),
            old(self).established,
            !old(self).done,
            !old(self).failed,
            old(self).received + len <= u64::MAX,
        ensures
            final(self).wf(),
            final(self).file == old(self).file,
            final(self).received == old(self).received + len,
            final(self).established && !final(self).done && !final(self).failed,
            final(self).total == old(self).total,
            r == Prog::Chunk((old(self).received + len) as u64),
    {
        self.received = self.received + len;
        Prog::Chunk(self.received)
    }

    /// Takes the end of the body: names the rename target, the temporary
    /// destination with its in-flight suffix stripped, and reports the
    /// finish. The rename itself is the caller's filesystem work.
    pub fn on_finished(&mut self) -> (r: (String, Prog))
        requires
            old(self).wf(),
            old(self).established,
            !old(self).done,
            !old(self).failed,
        ensures
            final(self).wf(),
            final(self).file == old(self).file,
            final(self).done,
            !final(self).failed,
            r.1 == Prog::Fin,
            r.0@ == old(self).file@.dest.take(
                old(self).file@.dest.len() - ".parts"@.len(),
            ),
            r.0@ + ".parts"@ == old(self).file@.dest,
    {
        proof {
            reveal_strlit(".parts");
        }
        let n = self.file.file.dest.as_str().unicode_len();
        let target = String::from_str(self.file.file.dest.as_str().substring_char(0, n - 6));
        proof {
            assert(target@ =~= self.file@.dest.take(self.file@.dest.len() - ".parts"@.len()));
            assert(target@ + ".parts"@ =~= self.file@.dest);
        }
        self.done = true;
        (target, Prog::Fin)
    }
}

} // verus!
