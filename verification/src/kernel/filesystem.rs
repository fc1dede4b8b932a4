//! The guest's view of the filesystem: mount points that map guest path prefixes (`/app0/`,
//! `/savedata0/`, ...) onto host directories, and the table of open file descriptors.
//!
//! Host paths are held as the bytes of the host's path. The host files themselves are opened,
//! read and written by the caller, which reports each outcome here; this table decides what
//! the guest is answered and keeps each descriptor's position.
use vstd::prelude::*;
use crate::kernel::OrbisError;
use vstd::string::StringSliceAdditionalSpecFns;

verus! {

/// A guest path prefix mounted on a host directory.
struct Mount {
    prefix: Vec<u8>,
    host: Vec<u8>,
}

/// An open file descriptor.
struct OpenFile {
    fd: i32,
    host_path: Vec<u8>,
    has_file: bool,
    position: u64,
}

/// The first descriptor handed out (0, 1 and 2 are the standard streams).
pub const FIRST_FD: i32 = 3;

/// The byte `/`.
pub const SLASH: u8 = 0x2F;

/// `p` is a prefix of `s`.
pub open spec fn is_prefix(p: Seq<u8>, s: Seq<u8>) -> bool {
    p.len() <= s.len() && s.subrange(0, p.len() as int) == p
}

/// `s` without its leading slashes.
pub open spec fn trim_leading_slashes(s: Seq<u8>) -> Seq<u8>
    decreases s.len(),
{
    if s.len() > 0 && s[0] == SLASH {
        trim_leading_slashes(s.drop_first())
    } else {
        s
    }
}

/// A relative path appended to a base path, with a separator between them unless the base is
/// empty or already ends in one.
pub open spec fn path_join(base: Seq<u8>, rel: Seq<u8>) -> Seq<u8> {
    if base.len() > 0 && base.last() != SLASH {
        base + seq![SLASH] + rel
    } else {
        base + rel
    }
}

/// The device directory prefix `/dev/`.
pub open spec fn dev_prefix() -> Seq<u8> {
    seq![SLASH, 0x64u8, 0x65u8, 0x76u8, SLASH]
}

/// The index of the first mount at or after `i` whose prefix starts `path`, or -1.
pub open spec fn first_match_from(m: Seq<(Seq<u8>, Seq<u8>)>, path: Seq<u8>, i: int) -> int
    decreases m.len() - i,
{
    if i < 0 || i >= m.len() {
        -1
    } else if is_prefix(m[i].0, path) {
        i
    } else {
        first_match_from(m, path, i + 1)
    }
}

/// The index of the first mount at or after `i` whose prefix is `key`, or -1.
pub open spec fn key_index_from(m: Seq<(Seq<u8>, Seq<u8>)>, key: Seq<u8>, i: int) -> int
    decreases m.len() - i,
{
    if i < 0 || i >= m.len() {
        -1
    } else if m[i].0 == key {
        i
    } else {
        key_index_from(m, key, i + 1)
    }
}

/// The host path a guest path resolves to: the first mount whose prefix starts the path, with
/// the rest of the path (its leading slashes dropped) joined onto the mount's host directory.
pub open spec fn resolve_spec(m: Seq<(Seq<u8>, Seq<u8>)>, path: Seq<u8>) -> Option<Seq<u8>> {
    let k = first_match_from(m, path, 0);
    if k < 0 {
        None
    } else {
        Some(path_join(m[k].1, trim_leading_slashes(path.skip(m[k].0.len() as int))))
    }
}

/// The mounts after mounting `key` on `host`: an existing mount of `key` is redirected, else
/// the mount is added.
pub open spec fn mount_spec(m: Seq<(Seq<u8>, Seq<u8>)>, key: Seq<u8>, host: Seq<u8>) -> Seq<
    (Seq<u8>, Seq<u8>),
> {
    let j = key_index_from(m, key, 0);
    if j < 0 {
        m.push((key, host))
    } else {
        m.update(j, (key, host))
    }
}

/// The index of the open file with descriptor `fd` at or after `i`, or -1.
pub open spec fn fd_index_from(f: Seq<(i32, Seq<u8>, bool, u64)>, fd: i32, i: int) -> int
    decreases f.len() - i,
{
    if i < 0 || i >= f.len() {
        -1
    } else if f[i].0 == fd {
        i
    } else {
        fd_index_from(f, fd, i + 1)
    }
}

/// The index of the open file with descriptor `fd`, or -1.
pub open spec fn fd_index(f: Seq<(i32, Seq<u8>, bool, u64)>, fd: i32) -> int {
    fd_index_from(f, fd, 0)
}

proof fn lemma_first_match_range(m: Seq<(Seq<u8>, Seq<u8>)>, path: Seq<u8>, i: int)
    ensures
        first_match_from(m, path, i) == -1 || (i <= first_match_from(m, path, i) < m.len()
            && is_prefix(m[first_match_from(m, path, i)].0, path)),
    decreases m.len() - i,
{
    if 0 <= i < m.len() && !is_prefix(m[i].0, path) {
        lemma_first_match_range(m, path, i + 1);
    }
}

proof fn lemma_key_index_range(m: Seq<(Seq<u8>, Seq<u8>)>, key: Seq<u8>, i: int)
    ensures
        key_index_from(m, key, i) == -1 || (i <= key_index_from(m, key, i) < m.len()
            && m[key_index_from(m, key, i)].0 == key),
        key_index_from(m, key, i) == -1 && 0 <= i ==> forall|j: int|
            i <= j < m.len() ==> m[j].0 != key,
    decreases m.len() - i,
{
    if 0 <= i < m.len() && m[i].0 != key {
        lemma_key_index_range(m, key, i + 1);
    }
}

proof fn lemma_fd_index_range(f: Seq<(i32, Seq<u8>, bool, u64)>, fd: i32, i: int)
    ensures
        fd_index_from(f, fd, i) == -1 || (i <= fd_index_from(f, fd, i) < f.len()
            && f[fd_index_from(f, fd, i)].0 == fd),
        fd_index_from(f, fd, i) == -1 && 0 <= i ==> forall|j: int|
            i <= j < f.len() ==> f[j].0 != fd,
    decreases f.len() - i,
{
    if 0 <= i < f.len() && f[i].0 != fd {
        lemma_fd_index_range(f, fd, i + 1);
    }
}

/// `p` starts `s`.
fn starts_with_bytes(s: &[u8], p: &[u8]) -> (r: bool)
    ensures
        r == is_prefix(p@, s@),
{
    if p.len() > s.len() {
        return false;
    }
    let mut i: usize = 0;
    while i < p.len()
        invariant
            p@.len() <= s@.len(),
            i <= p@.len(),
            forall|j: int| 0 <= j < i ==> s@[j] == p@[j],
        decreases p.len() - i,
    {
        if s[i] != p[i] {
            assert(s@.subrange(0, p@.len() as int)[i as int] != p@[i as int]);
            return false;
        }
        i = i + 1;
    }
    assert(s@.subrange(0, p@.len() as int) =~= p@);
    true
}

/// The bytes of `s` from `start` on, without their leading slashes.
fn trimmed_tail(s: &[u8], start: usize) -> (r: Vec<u8>)
    requires
        start <= s@.len(),
    ensures
        r@ == trim_leading_slashes(s@.skip(start as int)),
{
    let mut i = start;
    while i < s.len() && s[i] == SLASH
        invariant
            start <= i <= s@.len(),
            trim_leading_slashes(s@.skip(i as int)) == trim_leading_slashes(s@.skip(start as int)),
        decreases s.len() - i,
    {
        proof {
            assert(s@.skip(i as int).drop_first() =~= s@.skip(i + 1));
        }
        i = i + 1;
    }
    crate::loader::elf::copy_range(s, i, s.len())
}

/// The guest filesystem: mounts and open descriptors.
pub struct FileSystem {
    /// Mount points, in mount order; each prefix occurs once.
    mounts: Vec<Mount>,
    /// The next descriptor to hand out.
    next_fd: i32,
    /// Open descriptors, in the order they were opened.
    open_files: Vec<OpenFile>,
}

impl FileSystem {
    /// The mounts, in mount order: guest path prefix and host directory, as bytes.
    pub closed spec fn mounts(&self) -> Seq<(Seq<u8>, Seq<u8>)> {
        self.mounts@.map_values(|m: Mount| (m.prefix@, m.host@))
    }

    /// The open descriptors, oldest first: descriptor, host path, whether a host file backs
    /// it (a device has none), and position.
    pub closed spec fn files(&self) -> Seq<(i32, Seq<u8>, bool, u64)> {
        self.open_files@.map_values(|f: OpenFile| (f.fd, f.host_path@, f.has_file, f.position))
    }

    /// The descriptor the next open hands out.
    pub closed spec fn next_fd(&self) -> i32 {
        self.next_fd
    }

    /// Descriptors are handed out from 3 upwards and increase in opening order; each mount
    /// prefix occurs once.
    pub closed spec fn wf(&self) -> bool {
        &&& FIRST_FD <= self.next_fd
        &&& forall|i: int, j: int|
            0 <= i < j < self.open_files@.len() ==> self.open_files@[i].fd
                < self.open_files@[j].fd
        &&& forall|i: int|
            0 <= i < self.open_files@.len() ==> FIRST_FD <= #[trigger] self.open_files@[i].fd
                < self.next_fd
        &&& forall|i: int, j: int|
            0 <= i < j < self.mounts@.len() ==> self.mounts@[i].prefix@
                != self.mounts@[j].prefix@
    }

    pub fn new() -> (r: Self)
        ensures
            r.wf(),
            r.mounts() == Seq::<(Seq<u8>, Seq<u8>)>::empty(),
            r.files() == Seq::<(i32, Seq<u8>, bool, u64)>::empty(),
            r.next_fd() == FIRST_FD,
    {
        let r = FileSystem { mounts: Vec::new(), next_fd: FIRST_FD, open_files: Vec::new() };
        proof {
            assert(r.mounts() =~= Seq::<(Seq<u8>, Seq<u8>)>::empty());
            assert(r.files() =~= Seq::<(i32, Seq<u8>, bool, u64)>::empty());
        }
        r
    }

    /// Mounts a guest path prefix on a host directory; mounting a prefix again redirects it.
    pub fn mount(&mut self, ps4_path: &str, host_path: &[u8])
        requires
            old(self).wf(),
        ensures
            final(self).wf(),
            final(self).mounts() == mount_spec(
                old(self).mounts(),
                ps4_path.spec_bytes(),
                host_path@,
            ),
            final(self).files() == old(self).files(),
            final(self).next_fd() == old(self).next_fd(),
    {
        let key = ps4_path.as_bytes();
        let ghost m = old(self).mounts();
        let mut i: usize = 0;
        while i < self.mounts.len()
            invariant
                i <= self.mounts@.len(),
                old(self).wf(),
                self.mounts@ == old(self).mounts@,
                self.next_fd == old(self).next_fd,
                self.open_files@ == old(self).open_files@,
                m == old(self).mounts(),
                key@ == ps4_path.spec_bytes(),
                key_index_from(m, key@, 0) == key_index_from(m, key@, i as int),
            decreases self.mounts.len() - i,
        {
            assert(m[i as int].0 == self.mounts@[i as int].prefix@);
            if starts_with_bytes(self.mounts[i].prefix.as_slice(), key) && self.mounts[i].prefix.len()
                == key.len() {
                proof {
                    assert(self.mounts@[i as int].prefix@ =~= key@);
                }
                let host = vstd::slice::slice_to_vec(host_path);
                let entry = Mount { prefix: vstd::slice::slice_to_vec(key), host };
                self.mounts.set(i, entry);
                proof {
                    assert(self.mounts() =~= m.update(i as int, (key@, host_path@)));
                    assert forall|a: int, b: int|
                        0 <= a < b < self.mounts@.len() implies self.mounts@[a].prefix@
                        != self.mounts@[b].prefix@ by {
                        assert(old(self).mounts@[a].prefix@ != old(self).mounts@[b].prefix@);
                    }
                }
                return ;
            }
            proof {
                if self.mounts@[i as int].prefix@ == key@ {
                    let pp = self.mounts@[i as int].prefix@;
                    assert(pp.subrange(0, pp.len() as int) =~= pp);
                    assert(is_prefix(key@, self.mounts@[i as int].prefix@));
                }
            }
            i = i + 1;
        }
        proof {
            lemma_key_index_range(m, key@, i as int);
        }
        let host = vstd::slice::slice_to_vec(host_path);
        self.mounts.push(Mount { prefix: vstd::slice::slice_to_vec(key), host });
        proof {
            assert(self.mounts() =~= m.push((key@, host_path@)));
            lemma_key_index_range(m, key@, 0);
            assert forall|a: int, b: int|
                0 <= a < b < self.mounts@.len() implies self.mounts@[a].prefix@
                != self.mounts@[b].prefix@ by {
                if b == m.len() {
                    assert(m[a].0 == self.mounts@[a].prefix@);
                } else {
                    assert(old(self).mounts@[a].prefix@ != old(self).mounts@[b].prefix@);
                }
            }
        }
    }

    /// Resolves a guest path to a host path through the first mount whose prefix starts it;
    /// `None` when no mount does.
    pub fn resolve_path(&self, ps4_path: &str) -> (r: Option<Vec<u8>>)
        ensures
            match r {
                Some(v) => resolve_spec(self.mounts(), ps4_path.spec_bytes()) == Some(v@),
                None => resolve_spec(self.mounts(), ps4_path.spec_bytes()) is None,
            },
    {
        let path = ps4_path.as_bytes();
        let ghost m = self.mounts();
        let mut i: usize = 0;
        while i < self.mounts.len()
            invariant
                i <= self.mounts@.len(),
                m == self.mounts(),
                path@ == ps4_path.spec_bytes(),
                first_match_from(m, path@, 0) == first_match_from(m, path@, i as int),
            decreases self.mounts.len() - i,
        {
            assert(m[i as int].0 == self.mounts@[i as int].prefix@);
            assert(m[i as int].1 == self.mounts@[i as int].host@);
            if starts_with_bytes(path, self.mounts[i].prefix.as_slice()) {
                let rel = trimmed_tail(path, self.mounts[i].prefix.len());
                let base = &self.mounts[i].host;
                let mut out: Vec<u8> = Vec::new();
                let mut j: usize = 0;
                while j < base.len()
                    invariant
                        j <= base@.len(),
                        out@ == base@.subrange(0, j as int),
                    decreases base.len() - j,
                {
                    out.push(base[j]);
                    proof {
                        assert(out@ =~= base@.subrange(0, j + 1));
                    }
                    j = j + 1;
                }
                if base.len() > 0 && base[base.len() - 1] != SLASH {
                    out.push(SLASH);
                }
                let mut k: usize = 0;
                let ghost head = out@;
                while k < rel.len()
                    invariant
                        k <= rel@.len(),
                        out@ == head + rel@.subrange(0, k as int),
                    decreases rel.len() - k,
                {
                    out.push(rel[k]);
                    proof {
                        assert(out@ =~= head + rel@.subrange(0, k + 1));
                    }
                    k = k + 1;
                }
                proof {
                    assert(base@.subrange(0, base@.len() as int) =~= base@);
                    assert(rel@.subrange(0, rel@.len() as int) =~= rel@);
                    if base@.len() > 0 && base@.last() != SLASH {
                        assert(out@ =~= base@ + seq![SLASH] + rel@);
                    } else {
                        assert(out@ =~= base@ + rel@);
                    }
                }
                return Some(out);
            }
            i = i + 1;
        }
        None
    }

    /// `sceKernelOpen`: opens a guest path. A mounted path gets a descriptor when the caller
    /// could open its host file (`host_file_opened`), else `ENOENT`; an unmounted path under
    /// `/dev/` gets a descriptor with no host file behind it; any other path gives `ENOENT`.
    /// Descriptors are handed out in increasing order, from 3 on.
    pub fn open(&mut self, path: &str, flags: i32, mode: u32, host_file_opened: bool) -> (r: i32)
        requires
            old(self).wf(),
            old(self).next_fd() < i32::MAX,
        ensures
            final(self).wf(),
            final(self).mounts() == old(self).mounts(),
            match resolve_spec(old(self).mounts(), path.spec_bytes()) {
                Some(host) => if host_file_opened {
                    &&& r == old(self).next_fd()
                    &&& final(self).next_fd() == old(self).next_fd() + 1
                    &&& final(self).files() == old(self).files().push((r, host, true, 0u64))
                } else {
                    &&& r == OrbisError::ENOENT
                    &&& final(self).next_fd() == old(self).next_fd()
                    &&& final(self).files() == old(self).files()
                },
                None => if is_prefix(dev_prefix(), path.spec_bytes()) {
                    &&& r == old(self).next_fd()
                    &&& final(self).next_fd() == old(self).next_fd() + 1
                    &&& final(self).files() == old(self).files().push(
                        (r, path.spec_bytes(), false, 0u64),
                    )
                } else {
                    &&& r == OrbisError::ENOENT
                    &&& final(self).next_fd() == old(self).next_fd()
                    &&& final(self).files() == old(self).files()
                },
            },
    {
        let bytes = path.as_bytes();
        let (host_path, has_file) = match self.resolve_path(path) {
            Some(p) => {
                if !host_file_opened {
                    return OrbisError::ENOENT;
                }
                (p, true)
            },
            None => {
                let dev: [u8; 5] = [SLASH, 0x64u8, 0x65u8, 0x76u8, SLASH];
                proof {
                    assert(dev@ =~= dev_prefix());
                }
                if !starts_with_bytes(bytes, &dev) {
                    return OrbisError::ENOENT;
                }
                (vstd::slice::slice_to_vec(bytes), false)
            },
        };
        let fd = self.next_fd;
        self.next_fd = self.next_fd + 1;
        let ghost hp = host_path@;
        self.open_files.push(OpenFile { fd, host_path, has_file, position: 0 });
        proof {
            assert(self.files() =~= old(self).files().push((fd, hp, has_file, 0u64)));
        }
        fd
    }

    /// The position of `fd` among the open files, if it is open.
    fn find_fd(&self, fd: i32) -> (r: Option<usize>)
        ensures
            match r {
                Some(k) => fd_index(self.files(), fd) == k as int && k < self.files().len(),
                None => fd_index(self.files(), fd) == -1,
            },
    {
        let ghost f = self.files();
        let mut i: usize = 0;
        while i < self.open_files.len()
            invariant
                i <= self.open_files@.len(),
                f == self.files(),
                fd_index_from(f, fd, 0) == fd_index_from(f, fd, i as int),
            decreases self.open_files.len() - i,
        {
            assert(f[i as int].0 == self.open_files@[i as int].fd);
            if self.open_files[i].fd == fd {
                return Some(i);
            }
            i = i + 1;
        }
        None
    }

    /// `sceKernelClose`: closes a descriptor; `EBADF` when it is not open.
    pub fn close(&mut self, fd: i32) -> (r: i32)
        requires
            old(self).wf(),
        ensures
            final(self).wf(),
            final(self).mounts() == old(self).mounts(),
            final(self).next_fd() == old(self).next_fd(),
            fd_index(old(self).files(), fd) >= 0 ==> r == 0 && final(self).files() == old(
                self,
            ).files().remove(fd_index(old(self).files(), fd)),
            fd_index(old(self).files(), fd) < 0 ==> r == OrbisError::EBADF && final(self).files()
                == old(self).files(),
    {
        match self.find_fd(fd) {
            Some(k) => {
                self.open_files.remove(k);
                proof {
                    assert(self.files() =~= old(self).files().remove(k as int));
                    assert forall|i: int, j: int|
                        0 <= i < j < self.open_files@.len() implies self.open_files@[i].fd
                        < self.open_files@[j].fd by {
                        let oi = if i < k {
                            i
                        } else {
                            i + 1
                        };
                        let oj = if j < k {
                            j
                        } else {
                            j + 1
                        };
                        assert(old(self).open_files@[oi].fd < old(self).open_files@[oj].fd);
                    }
                    assert forall|i: int|
                        0 <= i < self.open_files@.len() implies FIRST_FD
                        <= #[trigger] self.open_files@[i].fd < self.next_fd by {
                        let oi = if i < k {
                            i
                        } else {
                            i + 1
                        };
                        assert(FIRST_FD <= old(self).open_files@[oi].fd < self.next_fd);
                    }
                }
                0
            },
            None => OrbisError::EBADF,
        }
    }

    /// `sceKernelRead`: what the guest is answered for a read of `fd`. `transferred` is the
    /// outcome of the caller's read of the host file: the number of bytes read, or `None` on
    /// an error. `EBADF` for a descriptor that is not open; 0 for a device; else the bytes
    /// read, which advance the position, or -1 on an error.
    pub fn read(&mut self, fd: i32, transferred: Option<u64>) -> (r: i64)
        requires
            old(self).wf(),
            transferred matches Some(n) ==> n <= i64::MAX && (fd_index(old(self).files(), fd)
                >= 0 ==> old(self).files()[fd_index(old(self).files(), fd)].3 + n <= u64::MAX),
        ensures
            final(self).wf(),
            final(self).mounts() == old(self).mounts(),
            final(self).next_fd() == old(self).next_fd(),
            ({
                let k = fd_index(old(self).files(), fd);
                let f = old(self).files();
                if k < 0 {
                    r == OrbisError::EBADF as i64 && final(self).files() == f
                } else if !f[k].2 {
                    r == 0 && final(self).files() == f
                } else {
                    match transferred {
                        Some(n) => r == n as i64 && final(self).files() == f.update(
                            k,
                            (f[k].0, f[k].1, f[k].2, (f[k].3 + n) as u64),
                        ),
                        None => r == -1 && final(self).files() == f,
                    }
                }
            }),
    {
        match self.find_fd(fd) {
            None => OrbisError::EBADF as i64,
            Some(k) => {
                if !self.open_files[k].has_file {
                    return 0;
                }
                match transferred {
                    Some(n) => {
                        self.advance(k, n);
                        n as i64
                    },
                    None => -1,
                }
            },
        }
    }

    /// Moves the position of the `k`-th open file forward by `n`.
    fn advance(&mut self, k: usize, n: u64)
        requires
            old(self).wf(),
            k < old(self).files().len(),
            old(self).files()[k as int].3 + n <= u64::MAX,
        ensures
            final(self).wf(),
            final(self).mounts() == old(self).mounts(),
            final(self).next_fd() == old(self).next_fd(),
            final(self).files() == old(self).files().update(
                k as int,
                (
                    old(self).files()[k as int].0,
                    old(self).files()[k as int].1,
                    old(self).files()[k as int].2,
                    (old(self).files()[k as int].3 + n) as u64,
                ),
            ),
    {
        let ghost f = old(self).files();
        assert(f[k as int].3 == self.open_files@[k as int].position);
        let mut entry = self.open_files.remove(k);
        entry.position = entry.position + n;
        self.open_files.insert(k, entry);
        proof {
            assert(self.open_files@ =~= old(self).open_files@.update(k as int, entry));
            assert(self.files() =~= f.update(
                k as int,
                (f[k as int].0, f[k as int].1, f[k as int].2, (f[k as int].3 + n) as u64),
            ));
            assert forall|i: int, j: int|
                0 <= i < j < self.open_files@.len() implies self.open_files@[i].fd
                < self.open_files@[j].fd by {
                assert(old(self).open_files@[i].fd < old(self).open_files@[j].fd);
            }
            assert forall|i: int|
                0 <= i < self.open_files@.len() implies FIRST_FD
                <= #[trigger] self.open_files@[i].fd < self.next_fd by {
                assert(FIRST_FD <= old(self).open_files@[i].fd < self.next_fd);
            }
        }
    }

    /// `sceKernelWrite`: what the guest is answered for a write of `len` bytes to `fd`.
    /// `transferred` is the outcome of the caller's write: the bytes written to the host file,
    /// or `None` on an error. The standard output and error streams (1 and 2), which the caller
    /// prints, take all `len` bytes; `EBADF` for any other descriptor that is not open; a device
    /// takes all `len` bytes; a host file takes what was written, which advances the position,
    /// or gives -1 on an error.
    pub fn write(&mut self, fd: i32, len: usize, transferred: Option<u64>) -> (r: i64)
        requires
            old(self).wf(),
            len <= i64::MAX,
            transferred matches Some(n) ==> n <= i64::MAX && (fd_index(old(self).files(), fd)
                >= 0 ==> old(self).files()[fd_index(old(self).files(), fd)].3 + n <= u64::MAX),
        ensures
            final(self).wf(),
            final(self).mounts() == old(self).mounts(),
            final(self).next_fd() == old(self).next_fd(),
            ({
                let k = fd_index(old(self).files(), fd);
                let f = old(self).files();
                if fd == 1 || fd == 2 {
                    r == len as i64 && final(self).files() == f
                } else if k < 0 {
                    r == OrbisError::EBADF as i64 && final(self).files() == f
                } else if !f[k].2 {
                    r == len as i64 && final(self).files() == f
                } else {
                    match transferred {
                        Some(n) => r == n as i64 && final(self).files() == f.update(
                            k,
                            (f[k].0, f[k].1, f[k].2, (f[k].3 + n) as u64),
                        ),
                        None => r == -1 && final(self).files() == f,
                    }
                }
            }),
    {
        if fd == 1 || fd == 2 {
            return len as i64;
        }
        match self.find_fd(fd) {
            None => OrbisError::EBADF as i64,
            Some(k) => {
                if !self.open_files[k].has_file {
                    return len as i64;
                }
                match transferred {
                    Some(n) => {
                        self.advance(k, n);
                        n as i64
                    },
                    None => -1,
                }
            },
        }
    }

    /// Number of open file descriptors.
    pub fn open_count(&self) -> (r: usize)
        ensures
            r == self.files().len(),
    {
        self.open_files.len()
    }
}

proof fn lemma_fd_index_at(f: Seq<(i32, Seq<u8>, bool, u64)>, fd: i32, p: int, i: int)
    requires
        0 <= i <= p < f.len(),
        f[p].0 == fd,
        forall|j: int| i <= j < p ==> f[j].0 != fd,
    ensures
        fd_index_from(f, fd, i) == p,
    decreases p - i,
{
    if i < p {
        lemma_fd_index_at(f, fd, p, i + 1);
    }
}

proof fn lemma_fd_index_absent(f: Seq<(i32, Seq<u8>, bool, u64)>, fd: i32, i: int)
    requires
        0 <= i,
        forall|j: int| i <= j < f.len() ==> f[j].0 != fd,
    ensures
        fd_index_from(f, fd, i) == -1,
    decreases f.len() - i,
{
    if i < f.len() {
        lemma_fd_index_absent(f, fd, i + 1);
    }
}

proof fn lemma_first_match_is(m: Seq<(Seq<u8>, Seq<u8>)>, path: Seq<u8>, i: int, k: int)
    requires
        0 <= i <= k < m.len(),
        is_prefix(m[k].0, path),
        forall|j: int| i <= j < k ==> !is_prefix((#[trigger] m[j]).0, path),
    ensures
        first_match_from(m, path, i) == k,
    decreases k - i,
{
    if i < k {
        lemma_first_match_is(m, path, i + 1, k);
    }
}

proof fn lemma_key_index_first(m: Seq<(Seq<u8>, Seq<u8>)>, key: Seq<u8>, i: int)
    requires
        0 <= i,
        key_index_from(m, key, i) >= 0,
    ensures
        forall|j: int| i <= j < key_index_from(m, key, i) ==> (#[trigger] m[j]).0 != key,
    decreases m.len() - i,
{
    if i < m.len() && m[i].0 != key {
        lemma_key_index_first(m, key, i + 1);
    }
}

/// A path under a prefix just mounted resolves into the mount's host directory, whenever no
/// other mounted prefix also starts the path.
pub proof fn law_mount_then_resolve(
    m: Seq<(Seq<u8>, Seq<u8>)>,
    key: Seq<u8>,
    host: Seq<u8>,
    path: Seq<u8>,
)
    requires
        is_prefix(key, path),
        forall|i: int| 0 <= i < m.len() && (#[trigger] m[i]).0 != key ==> !is_prefix(m[i].0, path),
    ensures
        resolve_spec(mount_spec(m, key, host), path) == Some(
            path_join(host, trim_leading_slashes(path.skip(key.len() as int))),
        ),
{
    lemma_key_index_range(m, key, 0);
    let j = key_index_from(m, key, 0);
    let after = mount_spec(m, key, host);
    if j < 0 {
        assert forall|i: int| 0 <= i < m.len() implies !is_prefix((#[trigger] after[i]).0, path) by {
            assert(after[i] == m[i]);
        }
        lemma_first_match_is(after, path, 0, m.len() as int);
    } else {
        lemma_key_index_first(m, key, 0);
        assert forall|i: int| 0 <= i < j implies !is_prefix((#[trigger] after[i]).0, path) by {
            assert(after[i] == m[i]);
        }
        lemma_first_match_is(after, path, 0, j);
    }
}

/// A descriptor just opened is found again, and closing it gives back the table as it was
/// before the open.
pub proof fn law_open_then_close(fs: FileSystem, host: Seq<u8>, has_file: bool)
    requires
        fs.wf(),
    ensures
        ({
            let opened = fs.files().push((fs.next_fd(), host, has_file, 0u64));
            &&& fd_index(fs.files(), fs.next_fd()) == -1
            &&& fd_index(opened, fs.next_fd()) == fs.files().len()
            &&& opened.remove(fs.files().len() as int) == fs.files()
        }),
{
    let f = fs.files();
    let opened = f.push((fs.next_fd(), host, has_file, 0u64));
    assert forall|j: int| 0 <= j < f.len() implies f[j].0 != fs.next_fd() by {
        assert(f[j].0 == fs.open_files@[j].fd);
    }
    lemma_fd_index_absent(f, fs.next_fd(), 0);
    lemma_fd_index_at(opened, fs.next_fd(), f.len() as int, 0);
    assert(opened.remove(f.len() as int) =~= f);
}

/// Closing a descriptor makes it unknown: a second close of it gives `EBADF`, and reads and
/// writes of it give `EBADF`.
pub proof fn law_closed_descriptor_is_gone(fs: FileSystem, fd: i32)
    requires
        fs.wf(),
        fd_index(fs.files(), fd) >= 0,
    ensures
        fd_index(fs.files().remove(fd_index(fs.files(), fd)), fd) == -1,
{
    let f = fs.files();
    let k = fd_index(f, fd);
    lemma_fd_index_range(f, fd, 0);
    let g = f.remove(k);
    assert forall|j: int| 0 <= j < g.len() implies g[j].0 != fd by {
        let oj = if j < k {
            j
        } else {
            j + 1
        };
        assert(g[j] == f[oj]);
        assert(f[oj].0 == fs.open_files@[oj].fd);
        assert(f[k].0 == fs.open_files@[k].fd);
        if oj < k {
            assert(fs.open_files@[oj].fd < fs.open_files@[k].fd);
        } else {
            assert(fs.open_files@[k].fd < fs.open_files@[oj].fd);
        }
    }
    lemma_fd_index_absent(g, fd, 0);
}

impl Default for FileSystem {
    fn default() -> (r: Self)
        ensures
            r.wf(),
            r.mounts() == Seq::<(Seq<u8>, Seq<u8>)>::empty(),
            r.files() == Seq::<(i32, Seq<u8>, bool, u64)>::empty(),
            r.next_fd() == FIRST_FD,
    {
        Self::new()
    }
}

} // verus!
