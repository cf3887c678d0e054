//! Mounted filesystem usage: the mounts of `/proc/mounts` and the figures
//! that `statvfs` reports for them.

use vstd::prelude::*;
use vstd::std_specs::iter::IteratorSpec;

use super::parsing::{gather, lemma_gather_all, lemma_take_all, lemma_take_one_more};
use crate::text::{
    has_prefix, lines, split_lines, split_whitespace, starts_with, str_eq, trim, trim_str, views,
    words,
};

verus! {

/// Space and inode usage of one mounted filesystem.
#[derive(Debug, Clone)]
pub struct FilesystemStats {
    /// Mounted device.
    pub device: String,
    /// Mount point.
    pub mount_point: String,
    /// Filesystem type.
    pub fs_type: String,
    /// Total size in bytes.
    pub total_bytes: u64,
    /// Used bytes.
    pub used_bytes: u64,
    /// Bytes available to unprivileged users.
    pub available_bytes: u64,
    /// Total inodes.
    pub total_inodes: u64,
    /// Used inodes.
    pub used_inodes: u64,
    /// Inodes available to unprivileged users.
    pub available_inodes: u64,
}

impl View for FilesystemStats {
    /// Device, mount point, type, and the six figures in declaration order.
    type V = (Seq<char>, Seq<char>, Seq<char>, Seq<u64>);

    open spec fn view(&self) -> Self::V {
        (
            self.device@,
            self.mount_point@,
            self.fs_type@,
            seq![
                self.total_bytes,
                self.used_bytes,
                self.available_bytes,
                self.total_inodes,
                self.used_inodes,
                self.available_inodes,
            ],
        )
    }
}

/// A growable list of `FilesystemStats` values.
#[derive(Debug, Clone)]
pub struct FilesystemBuffer {
    stats: Vec<FilesystemStats>,
}

impl View for FilesystemBuffer {
    type V = Seq<<FilesystemStats as View>::V>;

    closed spec fn view(&self) -> Self::V {
        self.stats@.map_values(|e: FilesystemStats| e@)
    }
}

impl FilesystemBuffer {
    /// The filesystems, in insertion order.
    pub closed spec fn items(&self) -> Seq<FilesystemStats> {
        self.stats@
    }

    /// The view is the entries' views, in order.
    pub proof fn lemma_view_items(&self)
        ensures
            self@ == self.items().map_values(|e: FilesystemStats| e@),
    {
    }

    /// An empty buffer.
    pub fn new() -> (r: Self)
        ensures
            r.items() == Seq::<FilesystemStats>::empty(),
            r@ == Seq::<<FilesystemStats as View>::V>::empty(),
    {
        let r = FilesystemBuffer { stats: Vec::new() };
        assert(r@ =~= Seq::<<FilesystemStats as View>::V>::empty());
        r
    }

    /// An empty buffer with room for `capacity` filesystems.
    pub fn with_capacity(capacity: usize) -> (r: Self)
        ensures
            r.items() == Seq::<FilesystemStats>::empty(),
            r@ == Seq::<<FilesystemStats as View>::V>::empty(),
    {
        let r = FilesystemBuffer { stats: Vec::with_capacity(capacity) };
        assert(r@ =~= Seq::<<FilesystemStats as View>::V>::empty());
        r
    }

    /// Appends an entry.
    pub fn push(&mut self, entry: FilesystemStats)
        ensures
            final(self).items() == old(self).items().push(entry),
            final(self)@ == old(self)@.push(entry@),
    {
        self.stats.push(entry);
        assert(self@ =~= old(self)@.push(entry@));
    }

    /// Iterates over the filesystems in order.
    pub fn iter(&self) -> (r: std::slice::Iter<'_, FilesystemStats>)
        ensures
            r.remaining() == self.items().as_ref(),
    {
        self.stats.as_slice().iter()
    }

    /// The number of filesystems.
    pub fn len(&self) -> (r: usize)
        ensures
            r == self.items().len(),
            r == self@.len(),
    {
        self.stats.len()
    }

    /// Whether there are no filesystems.
    pub fn is_empty(&self) -> (r: bool)
        ensures
            r == (self.items().len() == 0),
            r == (self@.len() == 0),
    {
        self.stats.is_empty()
    }
}

/// Reads the usage of the mounted filesystems.
#[derive(Debug, Clone, Copy)]
pub struct FilesystemCollector;

impl FilesystemCollector {
    /// A new collector.
    pub fn new() -> (r: Self)
        ensures
            r == FilesystemCollector,
    {
        FilesystemCollector
    }
}

impl Default for FilesystemCollector {
    fn default() -> (r: Self)
        ensures
            r == FilesystemCollector,
    {
        FilesystemCollector::new()
    }
}

/// A mount to measure: device, mount point and filesystem type.
#[derive(Debug, Clone)]
pub struct MountEntry {
    /// Mounted device.
    pub device: String,
    /// Mount point.
    pub mount_point: String,
    /// Filesystem type.
    pub fs_type: String,
}

impl View for MountEntry {
    /// The three columns in order.
    type V = Seq<Seq<char>>;

    open spec fn view(&self) -> Self::V {
        seq![self.device@, self.mount_point@, self.fs_type@]
    }
}

/// The filesystem types that hold no disk data and are not reported.
pub open spec fn virtual_fs_types() -> Seq<Seq<char>> {
    seq![
        "proc"@,
        "sysfs"@,
        "devtmpfs"@,
        "tmpfs"@,
        "cgroup"@,
        "cgroup2"@,
        "devpts"@,
        "securityfs"@,
        "pstore"@,
        "overlay"@,
        "squashfs"@,
        "fuse"@,
    ]
}

/// Whether filesystems of type `t` are left out: the virtual types and
/// every `fuse.` subtype.
pub open spec fn is_skipped_fs(t: Seq<char>) -> bool {
    virtual_fs_types().contains(t) || has_prefix(t, "fuse."@)
}

/// What one line of `/proc/mounts` contributes: nothing for a blank or `#`
/// line, a line of fewer than six words, a skipped filesystem type, or a
/// mount point that holds a NUL character (no C path can name it);
/// otherwise its first three words.
pub open spec fn mount_line(line: Seq<char>) -> Seq<Seq<Seq<char>>> {
    let t = trim(line);
    let w = words(t);
    if t.len() == 0 || t[0] == '#' || w.len() < 6 || is_skipped_fs(w[2]) || w[1].contains('\0') {
        Seq::empty()
    } else {
        seq![w.subrange(0, 3)]
    }
}

/// The per-line rule of `/proc/mounts`.
pub open spec fn mount_step() -> spec_fn(Seq<char>) -> Seq<Seq<Seq<char>>> {
    |line: Seq<char>| mount_line(line)
}

/// The mounts to measure, in file order.
pub open spec fn mounts_of(content: Seq<char>) -> Seq<Seq<Seq<char>>> {
    gather(lines(content), mount_step())
}

/// Whether filesystems of type `t` are left out.
fn skipped_fs_type(t: &str) -> (r: bool)
    ensures
        r == is_skipped_fs(t@),
{
    let names: [&str; 12] = [
        "proc",
        "sysfs",
        "devtmpfs",
        "tmpfs",
        "cgroup",
        "cgroup2",
        "devpts",
        "securityfs",
        "pstore",
        "overlay",
        "squashfs",
        "fuse",
    ];
    assert(names@.map_values(|s: &str| s@) =~= virtual_fs_types());
    let mut i: usize = 0;
    while i < 12
        invariant
            names@.map_values(|s: &str| s@) == virtual_fs_types(),
            i <= 12,
            forall|j: int| 0 <= j < i ==> virtual_fs_types()[j] != t@,
        decreases 12 - i,
    {
        if str_eq(names[i], t) {
            assert(virtual_fs_types()[i as int] == t@);
            return true;
        }
        i = i + 1;
    }
    starts_with(t, "fuse.")
}

/// Whether `s` holds a NUL character.
fn has_nul(s: &str) -> (r: bool)
    ensures
        r == s@.contains('\0'),
{
    let cs = crate::text::chars_of(s);
    let mut i: usize = 0;
    while i < cs.len()
        invariant
            cs@ == s@,
            i <= cs@.len(),
            forall|j: int| 0 <= j < i ==> s@[j] != '\0',
        decreases cs@.len() - i,
    {
        if cs[i] == '\0' {
            return true;
        }
        i = i + 1;
    }
    false
}

/// Parses one line of `/proc/mounts`.
fn parse_mount_line(line: &str) -> (r: Option<MountEntry>)
    ensures
        match r {
            Some(e) => mount_line(line@) == seq![e@],
            None => mount_line(line@) == Seq::<Seq<Seq<char>>>::empty(),
        },
{
    proof {
        reveal_strlit("#");
    }
    assert("#"@ =~= seq!['#']);
    let t = trim_str(line);
    if t.as_str().is_empty() {
        return None;
    }
    if starts_with(t.as_str(), "#") {
        assert(t@.subrange(0, 1)[0] == t@[0]);
        return None;
    }
    assert(t@[0] != '#') by {
        if t@[0] == '#' {
            assert(t@.subrange(0, 1) =~= "#"@);
        }
    }
    let parts = split_whitespace(t.as_str());
    if parts.len() < 6 {
        return None;
    }
    assert(views(parts@)[1] == parts@[1]@);
    assert(views(parts@)[2] == parts@[2]@);
    if skipped_fs_type(parts[2].as_str()) || has_nul(parts[1].as_str()) {
        return None;
    }
    let e = MountEntry { device: parts[0].clone(), mount_point: parts[1].clone(), fs_type: parts[2].clone() };
    assert(e@ =~= views(parts@).subrange(0, 3));
    Some(e)
}

/// Parses `/proc/mounts` into the mounts to measure.
pub fn parse_mounts(content: &str) -> (r: Vec<MountEntry>)
    ensures
        r@.map_values(|e: MountEntry| e@) == mounts_of(content@),
{
    let ls = split_lines(content);
    let ghost all = views(ls@);
    let mut out: Vec<MountEntry> = Vec::new();
    let mut i: usize = 0;
    proof {
        lemma_take_all(all);
        assert(out@.map_values(|e: MountEntry| e@) =~= Seq::<Seq<Seq<char>>>::empty());
    }
    while i < ls.len()
        invariant
            all == views(ls@),
            all == lines(content@),
            i <= ls@.len(),
            gather(all.take(i as int), mount_step()) == out@.map_values(|e: MountEntry| e@),
        decreases ls@.len() - i,
    {
        proof {
            lemma_take_one_more(all, i as int);
        }
        assert(all[i as int] == ls@[i as int]@);
        let ghost before = out@.map_values(|e: MountEntry| e@);
        match parse_mount_line(ls[i].as_str()) {
            Some(entry) => {
                let ghost ev = entry@;
                out.push(entry);
                assert(out@.map_values(|e: MountEntry| e@) =~= before + seq![ev]);
            },
            None => {
                assert(before + Seq::empty() =~= before);
            },
        }
        i = i + 1;
    }
    out
}

/// The usage figures of a filesystem from what `statvfs` reports: fragment
/// size, blocks, blocks available, inodes, inodes available. Byte counts
/// are block counts times the fragment size, modulo 2^64; used figures are
/// total minus available, floored at zero.
pub open spec fn usage_figures(frsize: u64, blocks: u64, bavail: u64, files: u64, favail: u64) -> Seq<u64> {
    let total = ((blocks as int * frsize as int) % 0x1_0000_0000_0000_0000) as u64;
    let avail = ((bavail as int * frsize as int) % 0x1_0000_0000_0000_0000) as u64;
    seq![
        total,
        if total >= avail { (total - avail) as u64 } else { 0 },
        avail,
        files,
        if files >= favail { (files - favail) as u64 } else { 0 },
        favail,
    ]
}

/// The entry of `mount` from the figures that `statvfs` reports for it.
pub fn filesystem_stats(mount: MountEntry, frsize: u64, blocks: u64, bavail: u64, files: u64, favail: u64) -> (r:
    FilesystemStats)
    ensures
        r@ == (mount@[0], mount@[1], mount@[2], usage_figures(frsize, blocks, bavail, files, favail)),
{
    let total_bytes = blocks.wrapping_mul(frsize);
    let available_bytes = bavail.wrapping_mul(frsize);
    let r = FilesystemStats {
        device: mount.device,
        mount_point: mount.mount_point,
        fs_type: mount.fs_type,
        total_bytes,
        used_bytes: total_bytes.saturating_sub(available_bytes),
        available_bytes,
        total_inodes: files,
        used_inodes: files.saturating_sub(favail),
        available_inodes: favail,
    };
    assert(r@.3 =~= usage_figures(frsize, blocks, bavail, files, favail));
    r
}

/// A mount line whose filesystem type (third word) is `proc`, `sysfs`,
/// `devtmpfs`, `tmpfs`, `cgroup`, `cgroup2`, `devpts`, `securityfs`,
/// `pstore`, `overlay`, `squashfs`, `fuse` or a `fuse.` subtype yields no
/// mount.
pub proof fn law_virtual_fs_skipped(line: Seq<char>)
    requires
        words(trim(line)).len() >= 3,
        ({
            let t = words(trim(line))[2];
            t == "proc"@ || t == "sysfs"@ || t == "devtmpfs"@ || t == "tmpfs"@ || t == "cgroup"@ || t
                == "cgroup2"@ || t == "devpts"@ || t == "securityfs"@ || t == "pstore"@ || t == "overlay"@
                || t == "squashfs"@ || t == "fuse"@ || has_prefix(t, "fuse."@)
        }),
    ensures
        mount_line(line) == Seq::<Seq<Seq<char>>>::empty(),
{
    let t = words(trim(line))[2];
    let v = virtual_fs_types();
    if t == "proc"@ {
        assert(v[0] == t);
    } else if t == "sysfs"@ {
        assert(v[1] == t);
    } else if t == "devtmpfs"@ {
        assert(v[2] == t);
    } else if t == "tmpfs"@ {
        assert(v[3] == t);
    } else if t == "cgroup"@ {
        assert(v[4] == t);
    } else if t == "cgroup2"@ {
        assert(v[5] == t);
    } else if t == "devpts"@ {
        assert(v[6] == t);
    } else if t == "securityfs"@ {
        assert(v[7] == t);
    } else if t == "pstore"@ {
        assert(v[8] == t);
    } else if t == "overlay"@ {
        assert(v[9] == t);
    } else if t == "squashfs"@ {
        assert(v[10] == t);
    } else if t == "fuse"@ {
        assert(v[11] == t);
    }
}

/// A mount line of at least six words, not a comment, whose mount point
/// holds no NUL and whose type is none of the virtual filesystems above
/// nor a `fuse.` subtype, yields its device, mount point and type.
pub proof fn law_real_fs_kept(line: Seq<char>)
    requires
        words(trim(line)).len() >= 6,
        trim(line)[0] != '#',
        !words(trim(line))[1].contains('\0'),
        ({
            let t = words(trim(line))[2];
            t != "proc"@ && t != "sysfs"@ && t != "devtmpfs"@ && t != "tmpfs"@ && t != "cgroup"@ && t
                != "cgroup2"@ && t != "devpts"@ && t != "securityfs"@ && t != "pstore"@ && t != "overlay"@
                && t != "squashfs"@ && t != "fuse"@ && !has_prefix(t, "fuse."@)
        }),
    ensures
        mount_line(line) == seq![words(trim(line)).subrange(0, 3)],
{
    let t = words(trim(line))[2];
    let v = virtual_fs_types();
    if trim(line).len() == 0 {
        assert(trim(line) =~= Seq::<char>::empty());
        assert(words(trim(line)).len() == 0);
    }
    assert forall|i: int| 0 <= i < v.len() implies v[i] != t by {}
}

/// No mount read from `/proc/mounts` is of a virtual type (`proc`, `sysfs`,
/// `devtmpfs`, `tmpfs`, `cgroup`, `cgroup2`, `devpts`, `securityfs`,
/// `pstore`, `overlay`, `squashfs`, `fuse`) or a `fuse.` subtype.
pub proof fn law_mounts_real_only(content: Seq<char>)
    ensures
        forall|i: int|
            0 <= i < mounts_of(content).len() ==> {
                let t = (#[trigger] mounts_of(content)[i])[2];
                t != "proc"@ && t != "sysfs"@ && t != "devtmpfs"@ && t != "tmpfs"@ && t != "cgroup"@ && t
                    != "cgroup2"@ && t != "devpts"@ && t != "securityfs"@ && t != "pstore"@ && t
                    != "overlay"@ && t != "squashfs"@ && t != "fuse"@ && !has_prefix(t, "fuse."@)
            },
{
    let p = |e: Seq<Seq<char>>|
        e[2] != "proc"@ && e[2] != "sysfs"@ && e[2] != "devtmpfs"@ && e[2] != "tmpfs"@ && e[2] != "cgroup"@
            && e[2] != "cgroup2"@ && e[2] != "devpts"@ && e[2] != "securityfs"@ && e[2] != "pstore"@ && e[2]
            != "overlay"@ && e[2] != "squashfs"@ && e[2] != "fuse"@ && !has_prefix(e[2], "fuse."@);
    let v = virtual_fs_types();
    assert forall|l: Seq<char>, i: int| 0 <= i < mount_step()(l).len() implies p(#[trigger] mount_step()(l)[i]) by {
        let w = words(trim(l));
        assert(mount_step()(l)[i] == w.subrange(0, 3));
        assert(w.subrange(0, 3)[2] == w[2]);
        assert(!v.contains(w[2]));
        assert(w[2] != v[0] && w[2] != v[1] && w[2] != v[2] && w[2] != v[3] && w[2] != v[4] && w[2] != v[5]);
        assert(w[2] != v[6] && w[2] != v[7] && w[2] != v[8] && w[2] != v[9] && w[2] != v[10] && w[2] != v[11]);
    }
    lemma_gather_all(lines(content), mount_step(), p);
}

} // verus!
