//! Guest threads: attributes, the table of created threads and `scePthreadCreate`.
//!
//! The guest uses a 1:1 threading model; each guest thread is tracked here under an id that is
//! handed out once and never reused.
use vstd::prelude::*;
use crate::kernel::OrbisError;

verus! {

/// Opaque guest thread handle.
pub type OrbisThread = u64;

/// The default stack size of a guest thread: 2 MiB.
pub const DEFAULT_STACK_SIZE: usize = 0x20_0000;

/// The default priority of a guest thread (the range is 0..=767).
pub const DEFAULT_PRIORITY: i32 = 700;

/// The default affinity: all eight cores.
pub const DEFAULT_AFFINITY_MASK: u64 = 0xFF;

/// Thread attributes.
#[derive(Debug, Clone)]
pub struct ThreadAttr {
    /// Stack size in bytes.
    pub stack_size: usize,
    /// Thread priority.
    pub priority: i32,
    /// CPU affinity mask.
    pub affinity_mask: u64,
    /// Thread name.
    pub name: String,
}

impl Default for ThreadAttr {
    fn default() -> (r: Self)
        ensures
            r.stack_size == DEFAULT_STACK_SIZE,
            r.priority == DEFAULT_PRIORITY,
            r.affinity_mask == DEFAULT_AFFINITY_MASK,
            r.name@ == "OrbisThread"@,
    {
        ThreadAttr {
            stack_size: DEFAULT_STACK_SIZE,
            priority: DEFAULT_PRIORITY,
            affinity_mask: DEFAULT_AFFINITY_MASK,
            name: String::from_str("OrbisThread"),
        }
    }
}

/// A tracked thread.
struct ThreadInfo {
    id: u64,
    name: String,
}

/// The table of guest threads.
pub struct ThreadManager {
    /// The id the next thread gets.
    next_id: u64,
    /// The threads created so far, oldest first.
    threads: Vec<ThreadInfo>,
}

impl ThreadManager {
    /// The id the next created thread gets.
    pub closed spec fn next_id(&self) -> u64 {
        self.next_id
    }

    /// The ids of the threads created so far, oldest first.
    pub closed spec fn ids(&self) -> Seq<u64> {
        self.threads@.map_values(|t: ThreadInfo| t.id)
    }

    /// The names of the threads created so far, oldest first.
    pub closed spec fn names(&self) -> Seq<Seq<char>> {
        self.threads@.map_values(|t: ThreadInfo| t.name@)
    }

    /// Ids start at 1, increase strictly in creation order, and all lie below `next_id`.
    pub closed spec fn wf(&self) -> bool {
        &&& self.next_id >= 1
        &&& forall|i: int, j: int|
            0 <= i < j < self.threads@.len() ==> self.threads@[i].id < self.threads@[j].id
        &&& forall|i: int|
            0 <= i < self.threads@.len() ==> 1 <= #[trigger] self.threads@[i].id < self.next_id
    }

    pub fn new() -> (r: Self)
        ensures
            r.wf(),
            r.next_id() == 1,
            r.ids() == Seq::<u64>::empty(),
            r.names() == Seq::<Seq<char>>::empty(),
    {
        let r = ThreadManager { next_id: 1, threads: Vec::new() };
        proof {
            assert(r.ids() =~= Seq::<u64>::empty());
            assert(r.names() =~= Seq::<Seq<char>>::empty());
        }
        r
    }

    /// Creates a guest thread: records it under the next id, with the attribute's name, and
    /// returns that id. Creation itself never fails; the thread's code is not started here.
    pub fn create_thread(&mut self, attr: &ThreadAttr, entry: u64, arg: u64) -> (r: Result<
        OrbisThread,
        i32,
    >)
        requires
            old(self).wf(),
            old(self).next_id() < u64::MAX,
        ensures
            final(self).wf(),
            r == Ok::<OrbisThread, i32>(old(self).next_id()),
            !old(self).ids().contains(old(self).next_id()),
            final(self).next_id() == old(self).next_id() + 1,
            final(self).ids() == old(self).ids().push(old(self).next_id()),
            final(self).names() == old(self).names().push(attr.name@),
    {
        let thread_id = self.next_id;
        self.next_id = self.next_id + 1;
        let name = attr.name.clone();
        self.threads.push(ThreadInfo { id: thread_id, name });
        proof {
            assert(self.ids() =~= old(self).ids().push(thread_id));
            assert(self.names() =~= old(self).names().push(attr.name@));
            if old(self).ids().contains(thread_id) {
                let k = choose|k: int|
                    0 <= k < old(self).ids().len() && old(self).ids()[k] == thread_id;
                assert(old(self).threads@[k].id < old(self).next_id);
            }
        }
        Ok(thread_id)
    }

    /// The number of threads created so far.
    pub fn thread_count(&self) -> (r: usize)
        ensures
            r == self.ids().len(),
    {
        self.threads.len()
    }
}

impl Default for ThreadManager {
    fn default() -> (r: Self)
        ensures
            r.wf(),
            r.next_id() == 1,
            r.ids() == Seq::<u64>::empty(),
    {
        Self::new()
    }
}

/// `scePthreadCreate`: creates a thread and writes its handle out; returns `OK`.
pub fn sce_pthread_create(
    manager: &mut ThreadManager,
    attr: &ThreadAttr,
    entry: u64,
    arg: u64,
    thread_out: &mut OrbisThread,
) -> (r: i32)
    requires
        old(manager).wf(),
        old(manager).next_id() < u64::MAX,
    ensures
        final(manager).wf(),
        r == OrbisError::OK,
        *final(thread_out) == old(manager).next_id(),
        final(manager).next_id() == old(manager).next_id() + 1,
        final(manager).ids() == old(manager).ids().push(old(manager).next_id()),
        final(manager).names() == old(manager).names().push(attr.name@),
{
    match manager.create_thread(attr, entry, arg) {
        Ok(id) => {
            *thread_out = id;
            OrbisError::OK
        },
        Err(e) => e,
    }
}

/// Distinct threads: every thread created while the table is well formed gets an id that no
/// earlier thread has, and the ids of the table stay pairwise distinct.
pub proof fn law_thread_ids_unique(m: ThreadManager)
    requires
        m.wf(),
    ensures
        forall|i: int, j: int|
            0 <= i < m.ids().len() && 0 <= j < m.ids().len() && i != j ==> m.ids()[i]
                != m.ids()[j],
        !m.ids().contains(m.next_id()),
{
    assert forall|i: int, j: int|
        0 <= i < m.ids().len() && 0 <= j < m.ids().len() && i != j implies m.ids()[i]
        != m.ids()[j] by {
        if i < j {
            assert(m.threads@[i].id < m.threads@[j].id);
        } else {
            assert(m.threads@[j].id < m.threads@[i].id);
        }
    }
    if m.ids().contains(m.next_id()) {
        let k = choose|k: int| 0 <= k < m.ids().len() && m.ids()[k] == m.next_id();
        assert(m.threads@[k].id < m.next_id);
    }
}

/// `scePthreadSelf`: the calling thread's handle, which is its host thread id, so that each
/// running thread has a handle of its own.
pub fn sce_pthread_self(host_tid: u32) -> (r: OrbisThread)
    ensures
        r == host_tid as u64,
{
    host_tid as u64
}

} // verus!
