//! File handle usage from `/proc/sys/fs/file-nr`.

use vstd::prelude::*;

use super::error::{missing_field, ErrorModel};
use super::types::CollectorResult;
use crate::text::{dec_u64, parse_u64, split_whitespace, views, words};

verus! {

/// System-wide file handle usage.
#[derive(Debug, Clone)]
pub struct FileFdStats {
    /// Allocated file handles.
    pub allocated: u64,
    /// The system-wide limit.
    pub maximum: u64,
}

/// Reads the file handle usage of `/proc/sys/fs/file-nr`.
#[derive(Debug, Clone, Copy)]
pub struct FilefdCollector;

impl FilefdCollector {
    /// A new collector.
    pub fn new() -> (r: Self)
        ensures
            r == FilefdCollector,
    {
        FilefdCollector
    }
}

impl Default for FilefdCollector {
    fn default() -> (r: Self)
        ensures
            r == FilefdCollector,
    {
        FilefdCollector::new()
    }
}

/// The `k`-th word of `w` as a `u64`, if there is one.
pub open spec fn word_u64(w: Seq<Seq<char>>, k: int) -> Option<u64> {
    if k < w.len() {
        dec_u64(w[k])
    } else {
        None
    }
}

/// The usage figures: the first word is the allocated count and the third
/// the limit; each must be a `u64`.
pub open spec fn filefd_of(content: Seq<char>) -> Result<(u64, u64), ErrorModel> {
    let w = words(content);
    match word_u64(w, 0) {
        None => Err(ErrorModel::MissingField { field: "allocated"@, location: "/proc/sys/fs/file-nr"@ }),
        Some(a) => match word_u64(w, 2) {
            None => Err(ErrorModel::MissingField { field: "maximum"@, location: "/proc/sys/fs/file-nr"@ }),
            Some(m) => Ok((a, m)),
        },
    }
}

/// The `k`-th word as a `u64`.
fn word_u64_of(w: &Vec<String>, k: usize) -> (r: Option<u64>)
    ensures
        r == word_u64(views(w@), k as int),
{
    if k < w.len() {
        assert(views(w@)[k as int] == w@[k as int]@);
        parse_u64(w[k].as_str())
    } else {
        None
    }
}

/// Parses the content of `/proc/sys/fs/file-nr`.
pub fn parse_file_nr(content: &str) -> (r: CollectorResult<FileFdStats>)
    ensures
        match r {
            Ok(s) => filefd_of(content@) == Ok::<_, ErrorModel>((s.allocated, s.maximum)),
            Err(e) => filefd_of(content@) == Err::<(u64, u64), _>(e@),
        },
{
    let parts = split_whitespace(content);
    let allocated = match word_u64_of(&parts, 0) {
        Some(v) => v,
        None => return Err(missing_field("allocated", "/proc/sys/fs/file-nr")),
    };
    let maximum = match word_u64_of(&parts, 2) {
        Some(v) => v,
        None => return Err(missing_field("maximum", "/proc/sys/fs/file-nr")),
    };
    Ok(FileFdStats { allocated, maximum })
}

} // verus!
