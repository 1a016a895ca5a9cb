//! The running totals of a scan.

use crate::model::SAMPLING_INTERVAL;
use vstd::prelude::*;
use vstd::string::StringExecFns;

verus! {

/// The totals that a scan shows while it runs.
#[derive(Debug)]
pub struct Stat {
    /// Regular files seen.
    pub count: u64,
    /// Distinct contents found among the files that were hashed.
    pub unique_count: u64,
    /// Bytes of the regular files seen.
    pub size: u64,
    /// Bytes of the distinct contents.
    pub unique_size: u64,
    /// The path of a file seen lately; set on every fiftieth file.
    pub curr_path: String,
}

impl Stat {
    /// The totals before anything was seen: all zero, the marker at `/`.
    pub fn new() -> (stat: Stat)
        ensures
            stat.count == 0,
            stat.unique_count == 0,
            stat.size == 0,
            stat.unique_size == 0,
            stat.curr_path@ == seq!['/'],
    {
        proof {
            reveal_strlit("/");
            assert("/"@ =~= seq!['/']);
        }
        Stat {
            count: 0,
            unique_count: 0,
            size: 0,
            unique_size: 0,
            curr_path: String::from_str("/"),
        }
    }

    /// Counts one regular file of `size` bytes at `path`, and moves the
    /// marker to it where the count has reached a multiple of the interval.
    pub fn record_file(&mut self, path: &str, size: u64)
        requires
            old(self).count < u64::MAX,
            old(self).size + size <= u64::MAX,
        ensures
            final(self).count == old(self).count + 1,
            final(self).size == old(self).size + size,
            final(self).unique_count == old(self).unique_count,
            final(self).unique_size == old(self).unique_size,
            final(self).curr_path@ == if (old(self).count + 1) % (SAMPLING_INTERVAL as int) == 0 {
                path@
            } else {
                old(self).curr_path@
            },
    {
        self.count = self.count + 1;
        self.size = self.size + size;
        if self.count % SAMPLING_INTERVAL == 0 {
            self.curr_path = String::from_str(path);
        }
    }

    /// Counts one content of `size` bytes that was not known before.
    pub fn record_unique(&mut self, size: u64)
        requires
            old(self).unique_count < u64::MAX,
            old(self).unique_size + size <= u64::MAX,
        ensures
            final(self).unique_count == old(self).unique_count + 1,
            final(self).unique_size == old(self).unique_size + size,
            final(self).count == old(self).count,
            final(self).size == old(self).size,
            final(self).curr_path@ == old(self).curr_path@,
    {
        self.unique_count = self.unique_count + 1;
        self.unique_size = self.unique_size + size;
    }

    /// A copy of the totals as they stand.
    pub fn snapshot(&self) -> (copy: Stat)
        ensures
            copy.count == self.count,
            copy.unique_count == self.unique_count,
            copy.size == self.size,
            copy.unique_size == self.unique_size,
            copy.curr_path@ == self.curr_path@,
    {
        Stat {
            count: self.count,
            unique_count: self.unique_count,
            size: self.size,
            unique_size: self.unique_size,
            curr_path: self.curr_path.clone(),
        }
    }
}

} // verus!
