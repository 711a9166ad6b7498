//! What the walk over a source tree decides: which entries it keeps, how
//! paths are batched, and how large its channel is.

use crate::config::Config;
use crate::text::texts;
use vstd::prelude::*;
use vstd::string::StringExecFns;

verus! {

/// The number of bytes in a megabyte.
pub const MEGABYTE: u64 = 1_048_576;

/// The number of workers: the configured number, but no more than there are
/// processors; the number of processors where none is configured.
pub fn worker_count(configured: Option<usize>, cpus: usize) -> (r: usize)
    ensures
        r == match configured {
            Some(n) => if n < cpus {
                n
            } else {
                cpus
            },
            None => cpus,
        },
{
    match configured {
        Some(n) => if n < cpus {
            n
        } else {
            cpus
        },
        None => cpus,
    }
}

/// The capacity of the channel between the walk and the workers: so many
/// batches for each worker, or the largest capacity there is where that is
/// less.
pub fn channel_capacity(workers: usize, multiplier: usize) -> (r: usize)
    ensures
        r == if workers * multiplier <= usize::MAX {
            workers * multiplier
        } else {
            usize::MAX as int
        },
{
    match workers.checked_mul(multiplier) {
        Some(c) => c,
        None => usize::MAX,
    }
}

/// The largest size of a file that is scanned, in bytes; zero where there
/// is no limit.
pub fn max_bytes(max_file_size_mb: Option<u64>) -> (r: u64)
    ensures
        r == match max_file_size_mb {
            Some(mb) => if mb * MEGABYTE <= u64::MAX {
                mb * MEGABYTE
            } else {
                u64::MAX as int
            },
            None => 0,
        },
{
    match max_file_size_mb {
        Some(mb) => match mb.checked_mul(MEGABYTE) {
            Some(b) => b,
            None => u64::MAX,
        },
        None => 0,
    }
}

/// Whether the walk enters or reports an entry: directories and files,
/// and what has no known type.
pub fn keeps_entry(kind: Option<(bool, bool)>) -> (r: bool)
    ensures
        r == match kind {
            Some((is_dir, is_file)) => is_dir || is_file,
            None => true,
        },
{
    match kind {
        Some((is_dir, is_file)) => is_dir || is_file,
        None => true,
    }
}

/// Whether an entry is handed on to be scanned: a file that is no larger
/// than the limit, where there is one and the size is known.
pub fn accepts_file(is_file: bool, len: Option<u64>, limit: u64) -> (r: bool)
    ensures
        r == (is_file && (limit == 0 || match len {
            Some(l) => l <= limit,
            None => true,
        })),
{
    is_file && (limit == 0 || match len {
        Some(l) => l <= limit,
        None => true,
    })
}

/// The pattern that excludes the files of an extension.
pub open spec fn extension_glob(ext: Seq<char>) -> Seq<char> {
    "!*."@ + ext
}

/// The pattern that excludes a directory with all that is in it.
pub open spec fn directory_glob(dir: Seq<char>) -> Seq<char> {
    "!**/"@ + dir + "/**"@
}

/// The patterns that exclude the configured extensions and directories:
/// first those of the extensions, then those of the directories, each in
/// the order of the configuration.
pub open spec fn exclusion_globs(extensions: Seq<Seq<char>>, directories: Seq<Seq<char>>) -> Seq<
    Seq<char>,
> {
    Seq::new(extensions.len(), |i: int| extension_glob(extensions[i])) + Seq::new(
        directories.len(),
        |i: int| directory_glob(directories[i]),
    )
}

/// The patterns that exclude what the configuration excludes.
pub fn build_overrides(cfg: &Config) -> (globs: Vec<String>)
    ensures
        texts(globs@) == exclusion_globs(
            texts(cfg.scanner.excluded_extensions@),
            texts(cfg.scanner.excluded_directories@),
        ),
{
    let exts = &cfg.scanner.excluded_extensions;
    let dirs = &cfg.scanner.excluded_directories;
    let mut globs: Vec<String> = Vec::new();
    let mut i: usize = 0;
    while i < exts.len()
        invariant
            i <= exts.len(),
            globs@.len() == i,
            forall|j: int| 0 <= j < i ==> globs@[j]@ == extension_glob(exts@[j]@),
        decreases exts.len() - i,
    {
        globs.push(String::from_str("!*.").concat(exts[i].as_str()));
        i += 1;
    }
    let mut k: usize = 0;
    while k < dirs.len()
        invariant
            k <= dirs.len(),
            globs@.len() == exts@.len() + k,
            forall|j: int| 0 <= j < exts@.len() ==> globs@[j]@ == extension_glob(exts@[j]@),
            forall|j: int|
                0 <= j < k ==> globs@[exts@.len() + j]@ == directory_glob(dirs@[j]@),
        decreases dirs.len() - k,
    {
        globs.push(String::from_str("!**/").concat(dirs[k].as_str()).concat("/**"));
        k += 1;
    }
    globs
}

/// Collects paths into batches of a fixed size.
#[derive(Debug)]
pub struct BatchSender {
    batch: Vec<String>,
    batch_size: usize,
}

impl BatchSender {
    /// The paths that wait to be sent.
    pub closed spec fn pending(&self) -> Seq<Seq<char>> {
        texts(self.batch@)
    }

    /// The size at which a batch is sent.
    pub closed spec fn size(&self) -> usize {
        self.batch_size
    }

    /// A sender with nothing pending.
    pub fn new(batch_size: usize) -> (s: BatchSender)
        ensures
            s.pending().len() == 0,
            s.size() == batch_size,
    {
        let s = BatchSender { batch: Vec::new(), batch_size };
        s
    }

    /// Takes a path. Where this fills the batch, the batch is handed out to
    /// be sent and nothing stays pending.
    pub fn push(&mut self, path: String) -> (full: Option<Vec<String>>)
        ensures
            final(self).size() == old(self).size(),
            match full {
                Some(b) => {
                    &&& old(self).pending().len() + 1 >= old(self).size()
                    &&& texts(b@) == old(self).pending().push(path@)
                    &&& final(self).pending().len() == 0
                },
                None => {
                    &&& old(self).pending().len() + 1 < old(self).size()
                    &&& final(self).pending() == old(self).pending().push(path@)
                },
            },
    {
        self.batch.push(path);
        if self.batch.len() >= self.batch_size {
            self.flush()
        } else {
            None
        }
    }

    /// Hands out what is pending, if anything is.
    pub fn flush(&mut self) -> (rest: Option<Vec<String>>)
        ensures
            final(self).size() == old(self).size(),
            final(self).pending().len() == 0,
            match rest {
                Some(b) => old(self).pending().len() > 0 && texts(b@) == old(self).pending(),
                None => old(self).pending().len() == 0,
            },
    {
        if self.batch.len() > 0 {
            let mut out: Vec<String> = Vec::new();
            out.append(&mut self.batch);
            Some(out)
        } else {
            None
        }
    }
}

} // verus!
