//! The state of one download: the destination file name and the byte counter
//! that drives the progress display. The caller streams the media in chunks,
//! writes each chunk to disk itself, and records it here; after every chunk
//! the counter equals the bytes handed over so far.

use vstd::prelude::*;
use crate::feed::Episode;
use crate::sanitize::{sanitize_filename, spec_sanitize};
use crate::extension::{get_extension_from_url, spec_extension};

verus! {

/// The sum of a sequence of chunk sizes.
pub open spec fn sum_of(chunks: Seq<usize>) -> int
    decreases chunks.len(),
{
    if chunks.len() == 0 {
        0int
    } else {
        chunks[0] + sum_of(chunks.drop_first())
    }
}

pub proof fn lemma_sum_nonneg(chunks: Seq<usize>)
    ensures
        sum_of(chunks) >= 0,
    decreases chunks.len(),
{
    if chunks.len() > 0 {
        lemma_sum_nonneg(chunks.drop_first());
    }
}

/// The name of the file an episode is saved under: the sanitized title, a
/// dot, and the media URL's extension.
pub fn target_file_name(episode: &Episode) -> (r: String)
    ensures
        r@ == spec_sanitize(episode.title@) + "."@ + spec_extension(episode.url@),
{
    let mut name = sanitize_filename(episode.title.as_str());
    name.append(".");
    let ext = get_extension_from_url(episode.url.as_str());
    name.append(ext.as_str());
    name
}

/// A monotonically growing byte counter against a known total size.
pub struct DownloadProgress {
    /// Bytes handed over so far.
    pub downloaded: u64,
    /// The total size the server announced.
    pub total: u64,
}

impl DownloadProgress {
    /// Starts at zero bytes of the announced total.
    pub fn new(total: u64) -> (p: Self)
        ensures
            p.downloaded == 0,
            p.total == total,
    {
        DownloadProgress { downloaded: 0, total }
    }

    /// Counts one chunk of `n` bytes.
    pub fn record_chunk(&mut self, n: usize)
        requires
            old(self).downloaded + n <= u64::MAX,
        ensures
            final(self).downloaded == old(self).downloaded + n,
            final(self).total == old(self).total,
    {
        self.downloaded = self.downloaded + n as u64;
    }

    /// Law: counting a whole stream of chunks, the counter grows by exactly
    /// their sum; a stream of total length `T` drives the counter to `T`.
    pub fn record_all(&mut self, chunks: &Vec<usize>)
        requires
            old(self).downloaded + sum_of(chunks@) <= u64::MAX,
        ensures
            final(self).downloaded == old(self).downloaded + sum_of(chunks@),
            final(self).total == old(self).total,
    {
        let n = chunks.len();
        let mut i: usize = 0;
        proof {
            assert(chunks@.skip(0) =~= chunks@);
        }
        while i < n
            invariant
                n == chunks@.len(),
                i <= n,
                self.total == old(self).total,
                self.downloaded + sum_of(chunks@.skip(i as int)) == old(self).downloaded
                    + sum_of(chunks@),
                self.downloaded + sum_of(chunks@.skip(i as int)) <= u64::MAX,
            decreases n - i,
        {
            proof {
                assert(chunks@.skip(i as int)[0] == chunks@[i as int]);
                assert(chunks@.skip(i as int).drop_first() =~= chunks@.skip(i as int + 1));
                lemma_sum_nonneg(chunks@.skip(i as int + 1));
            }
            self.record_chunk(chunks[i]);
            i = i + 1;
        }
        proof {
            assert(sum_of(chunks@.skip(n as int)) == 0);
        }
    }
}

} // verus!
