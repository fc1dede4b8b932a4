//! Trapping the guest's system calls and stub calls: the `syscall` instructions of loaded code
//! are turned into `ud2`, each trap is dispatched, and guest faults are recovered from by
//! unwinding to a caller in guest code. The signal handlers themselves live with the caller;
//! this module decides what they do.
use vstd::prelude::*;

verus! {

/// The number of threads whose host TLS base is remembered.
pub const THREAD_FS_SLOTS: usize = 64;

/// The host TLS (FS) base of each guest thread, by thread id; a slot with id 0 is free.
pub struct ThreadFsMap {
    slots: [(u32, u64); 64],
}

impl ThreadFsMap {
    /// The slots: thread id and FS base.
    pub closed spec fn slots(&self) -> Seq<(u32, u64)> {
        self.slots@
    }

    /// An empty map.
    pub fn new() -> (r: Self)
        ensures
            r.slots().len() == THREAD_FS_SLOTS,
            forall|i: int| 0 <= i < THREAD_FS_SLOTS ==> r.slots()[i] == (0u32, 0u64),
    {
        ThreadFsMap { slots: [(0, 0); 64] }
    }

    /// Records the FS base of thread `tid`: in the first slot that is free or already holds
    /// `tid`; nothing when every slot holds another thread.
    pub fn register_thread_fs(&mut self, tid: u32, fs_base: u64)
        requires
            old(self).slots().len() == THREAD_FS_SLOTS,
        ensures
            final(self).slots().len() == THREAD_FS_SLOTS,
            match first_slot_for(old(self).slots(), tid) {
                Some(i) => final(self).slots() == old(self).slots().update(i, (tid, fs_base)),
                None => final(self).slots() == old(self).slots(),
            },
    {
        let mut i: usize = 0;
        while i < THREAD_FS_SLOTS
            invariant
                i <= THREAD_FS_SLOTS,
                self.slots@ == old(self).slots@,
                self.slots@.len() == THREAD_FS_SLOTS,
                forall|j: int| 0 <= j < i ==> !slot_takes(#[trigger] self.slots@[j], tid),
            decreases THREAD_FS_SLOTS - i,
        {
            if self.slots[i].0 == 0 || self.slots[i].0 == tid {
                proof {
                    lemma_first_slot(self.slots@, tid, i as int);
                }
                self.slots[i] = (tid, fs_base);
                return ;
            }
            i = i + 1;
        }
        proof {
            lemma_no_slot(self.slots@, tid);
        }
    }

    /// The FS base recorded for thread `tid`, or 0.
    pub fn get_thread_fs(&self, tid: u32) -> (r: u64)
        requires
            self.slots().len() == THREAD_FS_SLOTS,
        ensures
            r == thread_fs_of(self.slots(), tid),
    {
        let mut i: usize = 0;
        while i < THREAD_FS_SLOTS
            invariant
                i <= THREAD_FS_SLOTS,
                self.slots@.len() == THREAD_FS_SLOTS,
                thread_fs_from(self.slots@, tid, i as int) == thread_fs_of(self.slots@, tid),
            decreases THREAD_FS_SLOTS - i,
        {
            if self.slots[i].0 == tid {
                return self.slots[i].1;
            }
            i = i + 1;
        }
        0
    }
}

/// A slot can take thread `tid`: it is free or already holds it.
pub open spec fn slot_takes(slot: (u32, u64), tid: u32) -> bool {
    slot.0 == 0 || slot.0 == tid
}

/// The first slot that can take `tid`.
pub open spec fn first_slot_for(slots: Seq<(u32, u64)>, tid: u32) -> Option<int> {
    if exists|i: int| 0 <= i < slots.len() && slot_takes(slots[i], tid) {
        Some(
            choose|i: int|
                0 <= i < slots.len() && slot_takes(slots[i], tid) && forall|j: int|
                    0 <= j < i ==> !slot_takes(#[trigger] slots[j], tid),
        )
    } else {
        None
    }
}

proof fn lemma_first_slot(slots: Seq<(u32, u64)>, tid: u32, i: int)
    requires
        0 <= i < slots.len(),
        slot_takes(slots[i], tid),
        forall|j: int| 0 <= j < i ==> !slot_takes(#[trigger] slots[j], tid),
    ensures
        first_slot_for(slots, tid) == Some(i),
{
    let k = choose|k: int|
        0 <= k < slots.len() && slot_takes(slots[k], tid) && forall|j: int|
            0 <= j < k ==> !slot_takes(#[trigger] slots[j], tid);
    assert(slot_takes(slots[k], tid));
    if k < i {
        assert(!slot_takes(slots[k], tid));
    }
    if i < k {
        assert(!slot_takes(slots[i], tid));
    }
}

proof fn lemma_no_slot(slots: Seq<(u32, u64)>, tid: u32)
    requires
        forall|j: int| 0 <= j < slots.len() ==> !slot_takes(#[trigger] slots[j], tid),
    ensures
        first_slot_for(slots, tid) is None,
{
}

/// The FS base of the first slot from `i` on that holds `tid`, or 0.
pub open spec fn thread_fs_from(slots: Seq<(u32, u64)>, tid: u32, i: int) -> u64
    decreases slots.len() - i,
{
    if i < 0 || i >= slots.len() {
        0
    } else if slots[i].0 == tid {
        slots[i].1
    } else {
        thread_fs_from(slots, tid, i + 1)
    }
}

/// The FS base recorded for thread `tid`, or 0.
pub open spec fn thread_fs_of(slots: Seq<(u32, u64)>, tid: u32) -> u64 {
    thread_fs_from(slots, tid, 0)
}

proof fn lemma_fs_from_written(slots: Seq<(u32, u64)>, tid: u32, fs_base: u64, i: int, j: int)
    requires
        0 <= j <= i < slots.len(),
        forall|k: int| 0 <= k < i ==> !slot_takes(#[trigger] slots[k], tid),
    ensures
        thread_fs_from(slots.update(i, (tid, fs_base)), tid, j) == fs_base,
    decreases i - j,
{
    if j < i {
        assert(!slot_takes(slots[j], tid));
        lemma_fs_from_written(slots, tid, fs_base, i, j + 1);
    }
}

proof fn lemma_fs_from_other(
    slots: Seq<(u32, u64)>,
    tid: u32,
    fs_base: u64,
    i: int,
    other: u32,
    j: int,
)
    requires
        0 <= i < slots.len(),
        0 <= j,
        slot_takes(slots[i], tid),
        other != tid,
        other != 0,
    ensures
        thread_fs_from(slots.update(i, (tid, fs_base)), other, j) == thread_fs_from(slots, other, j),
    decreases slots.len() - j,
{
    if j < slots.len() {
        lemma_fs_from_other(slots, tid, fs_base, i, other, j + 1);
    }
}

proof fn lemma_first_taker(slots: Seq<(u32, u64)>, tid: u32, w: int, j: int) -> (i: int)
    requires
        0 <= j <= w < slots.len(),
        slot_takes(slots[w], tid),
        forall|k: int| 0 <= k < j ==> !slot_takes(#[trigger] slots[k], tid),
    ensures
        0 <= i <= w,
        slot_takes(slots[i], tid),
        forall|k: int| 0 <= k < i ==> !slot_takes(#[trigger] slots[k], tid),
    decreases w - j,
{
    if slot_takes(slots[j], tid) {
        j
    } else {
        lemma_first_taker(slots, tid, w, j + 1)
    }
}

/// What a thread records is what it reads back, and recording it leaves every other thread's
/// FS base as it was; both whenever a slot can take the thread.
pub proof fn law_thread_fs_read_back(slots: Seq<(u32, u64)>, tid: u32, fs_base: u64, other: u32)
    requires
        first_slot_for(slots, tid) is Some,
    ensures
        ({
            let after = slots.update(first_slot_for(slots, tid)->0, (tid, fs_base));
            &&& thread_fs_of(after, tid) == fs_base
            &&& other != tid && other != 0 ==> thread_fs_of(after, other) == thread_fs_of(
                slots,
                other,
            )
        }),
{
    let w = choose|w: int| 0 <= w < slots.len() && slot_takes(slots[w], tid);
    let i = lemma_first_taker(slots, tid, w, 0);
    lemma_first_slot(slots, tid, i);
    lemma_fs_from_written(slots, tid, fs_base, i, 0);
    if other != tid && other != 0 {
        lemma_fs_from_other(slots, tid, fs_base, i, other, 0);
    }
}

/// The guest's `exit` system call.
pub const SYS_EXIT: u64 = 1;

/// What a trapped system call comes to.
#[derive(Debug, Clone, Copy, PartialEq, Eq, Structural)]
pub enum SyscallOutcome {
    /// The guest exits: the process ends.
    Exit,
    /// The call returns this value.
    Return(u64),
}

/// Dispatches a trapped system call: `exit` ends the process; every other call succeeds
/// with 0.
pub fn hle_syscall_dispatcher(
    sys_id: u64,
    arg1: u64,
    arg2: u64,
    arg3: u64,
    arg4: u64,
    arg5: u64,
    arg6: u64,
) -> (r: SyscallOutcome)
    ensures
        sys_id == SYS_EXIT ==> r == SyscallOutcome::Exit,
        sys_id != SYS_EXIT ==> r == SyscallOutcome::Return(0),
{
    if sys_id == SYS_EXIT {
        SyscallOutcome::Exit
    } else {
        SyscallOutcome::Return(0)
    }
}

/// What an illegal-instruction trap was.
#[derive(Debug, Clone, Copy, PartialEq, Eq, Structural)]
pub enum SigillTrap {
    /// A `ud2` in a stub slot: a call of an export.
    StubCall,
    /// A `ud2` elsewhere: a patched `syscall`.
    Syscall,
    /// Any other illegal instruction: a real fault.
    Foreign,
}

/// Classifies a trap from the two bytes at the faulting instruction and whether the
/// instruction lies in a stub slot: only a `ud2` (0F 0B) is one of ours.
pub fn classify_sigill(b0: u8, b1: u8, on_stub: bool) -> (r: SigillTrap)
    ensures
        !(b0 == 0x0F && b1 == 0x0B) ==> r == SigillTrap::Foreign,
        b0 == 0x0F && b1 == 0x0B && on_stub ==> r == SigillTrap::StubCall,
        b0 == 0x0F && b1 == 0x0B && !on_stub ==> r == SigillTrap::Syscall,
{
    if b0 == 0x0F && b1 == 0x0B {
        if on_stub {
            SigillTrap::StubCall
        } else {
            SigillTrap::Syscall
        }
    } else {
        SigillTrap::Foreign
    }
}

/// The registers a trapped thread resumes with.
#[derive(Debug, Clone, Copy, PartialEq, Eq, Structural)]
pub struct ResumeRegs {
    pub rip: u64,
    pub rsp: u64,
    pub rax: u64,
    /// The low 64 bits of `xmm0` (its upper half cleared) when they are written.
    pub xmm0: Option<u64>,
}

/// How a trap resumes (see `sigill_resume`).
pub open spec fn resume_spec(
    rip: u64,
    rsp: u64,
    ret_addr: u64,
    on_stub: bool,
    is_float: bool,
    result: u64,
) -> ResumeRegs {
    if on_stub {
        ResumeRegs {
            rip: ret_addr,
            rsp: crate::linker::relocation::wrap_add(rsp, 8),
            rax: if is_float { 0 } else { result },
            xmm0: if is_float { Some(result) } else { None },
        }
    } else {
        ResumeRegs {
            rip: crate::linker::relocation::wrap_add(rip, 2),
            rsp: rsp,
            rax: result,
            xmm0: None,
        }
    }
}

/// How a thread resumes after a `ud2` trap that was handled with `result`. In a stub the
/// stub's `ret` is simulated: execution goes on at the return address `ret_addr` (the word at
/// `rsp`), the stack pointer moves past it, and the result is returned in `rax`, or in `xmm0`
/// (with `rax` 0) for a floating-point function. After a patched `syscall` execution goes on
/// past the 2-byte `ud2` with the result in `rax`.
pub fn sigill_resume(
    rip: u64,
    rsp: u64,
    ret_addr: u64,
    on_stub: bool,
    is_float: bool,
    result: u64,
) -> (r: ResumeRegs)
    ensures
        r == resume_spec(rip, rsp, ret_addr, on_stub, is_float, result),
        on_stub ==> r.rip == ret_addr && r.rsp == crate::linker::relocation::wrap_add(rsp, 8)
            && (is_float ==> r.rax == 0 && r.xmm0 == Some(result)) && (!is_float ==> r.rax
            == result && r.xmm0 is None),
        !on_stub ==> r.rip == crate::linker::relocation::wrap_add(rip, 2) && r.rsp == rsp
            && r.rax == result && r.xmm0 is None,
{
    if on_stub {
        let rsp2 = crate::linker::relocation::wrapping_add(rsp, 8);
        if is_float {
            ResumeRegs { rip: ret_addr, rsp: rsp2, rax: 0, xmm0: Some(result) }
        } else {
            ResumeRegs { rip: ret_addr, rsp: rsp2, rax: result, xmm0: None }
        }
    } else {
        ResumeRegs {
            rip: crate::linker::relocation::wrapping_add(rip, 2),
            rsp: rsp,
            rax: result,
            xmm0: None,
        }
    }
}

/// The most guest faults recovered from.
pub const MAX_SIGSEGV_RECOVERIES: u64 = 512;

/// Start of the guest code range a recovery may return into.
pub const GUEST_CODE_BASE: u64 = 0x10_0000_0000;

/// End of the guest code range a recovery may return into (16 MiB on).
pub const GUEST_CODE_END: u64 = 0x10_0100_0000;

/// The most stack frames walked.
pub const MAX_UNWIND_DEPTH: usize = 16;

/// An address inside the guest code range.
pub open spec fn in_guest_code(a: u64) -> bool {
    GUEST_CODE_BASE <= a < GUEST_CODE_END
}

/// Whether `a` lies in the guest code range.
pub fn is_guest_code(a: u64) -> (r: bool)
    ensures
        r == in_guest_code(a),
{
    GUEST_CODE_BASE <= a && a < GUEST_CODE_END
}

/// A frame pointer the unwinder may read through.
pub open spec fn frame_usable(rbp: u64) -> bool {
    rbp != 0 && rbp >= 0x1000
}

/// Whether the unwinder reads the frame at `rbp`.
pub fn frame_walkable(rbp: u64) -> (r: bool)
    ensures
        r == frame_usable(rbp),
{
    rbp != 0 && rbp >= 0x1000
}

/// Where the guest resumes after a recovered fault.
#[derive(Debug, Clone, Copy, PartialEq, Eq, Structural)]
pub struct Recovery {
    pub rip: u64,
    pub rbp: u64,
    pub rsp: u64,
}

/// The frame walk from frame `d` with frame pointer `frame_rbp`: the return address found and
/// the frame pointer to restore (0 and 0 when none is found), and the frame pointer the walk
/// stopped at. `frames[d]` is what frame `d` holds: its saved frame pointer and its return
/// address.
pub open spec fn walk_frames(frames: Seq<(u64, u64)>, frame_rbp: u64, d: nat) -> (u64, u64, u64)
    decreases MAX_UNWIND_DEPTH - d,
{
    if d >= MAX_UNWIND_DEPTH || !frame_usable(frame_rbp) || d >= frames.len() {
        (0, 0, frame_rbp)
    } else if in_guest_code(frames[d as int].1) {
        (frames[d as int].1, frames[d as int].0, frame_rbp)
    } else {
        walk_frames(frames, frames[d as int].0, d + 1)
    }
}

/// Recovering from guest fault number `count`: walk the frames from `rbp` for a return into
/// guest code and resume there with that frame's saved frame pointer and the stack past the
/// frame (its frame pointer + 16, which pops the saved frame pointer and the return address).
/// Else, when the word at the stack pointer `rsp`, `stack_ret`, is a return into guest code,
/// simulate a `ret`: resume at `stack_ret` with the stack pointer past it (`rsp + 8`) and the
/// frame pointer kept. 0 is returned either way. `None` when too many faults were recovered
/// from, or when no return address is found.
pub open spec fn recovery_spec(
    count: u64,
    rbp: u64,
    rsp: u64,
    frames: Seq<(u64, u64)>,
    stack_ret: u64,
) -> Option<Recovery> {
    if count >= MAX_SIGSEGV_RECOVERIES {
        None
    } else {
        let (ret, saved, frame_rbp) = walk_frames(frames, rbp, 0);
        if ret != 0 {
            Some(
                Recovery {
                    rip: ret,
                    rbp: saved,
                    rsp: crate::linker::relocation::wrap_add(frame_rbp, 16),
                },
            )
        } else if in_guest_code(stack_ret) {
            Some(
                Recovery {
                    rip: stack_ret,
                    rbp: rbp,
                    rsp: crate::linker::relocation::wrap_add(rsp, 8),
                },
            )
        } else {
            None
        }
    }
}

/// Decides how to recover from guest fault number `count` (see `recovery_spec`): `rbp` and
/// `rsp` are the faulting frame and stack pointers, `frames` the frames the walk reads, in
/// order, as (saved frame pointer, return address), and `stack_ret` the word at `rsp`.
pub fn recover_from_fault(
    count: u64,
    rbp: u64,
    rsp: u64,
    frames: &[(u64, u64)],
    stack_ret: u64,
) -> (r: Option<Recovery>)
    ensures
        r == recovery_spec(count, rbp, rsp, frames@, stack_ret),
{
    if count >= MAX_SIGSEGV_RECOVERIES {
        return None;
    }
    let mut found_ret: u64 = 0;
    let mut found_rbp: u64 = 0;
    let mut frame_rbp = rbp;
    let mut d: usize = 0;
    while d < MAX_UNWIND_DEPTH && d < frames.len() && frame_walkable(frame_rbp)
        invariant_except_break
            found_ret == 0 && found_rbp == 0,
        invariant
            d <= MAX_UNWIND_DEPTH,
            walk_frames(frames@, frame_rbp, d as nat) == walk_frames(frames@, rbp, 0),
        ensures
            (found_ret, found_rbp, frame_rbp) == walk_frames(frames@, rbp, 0),
        decreases MAX_UNWIND_DEPTH - d,
    {
        let (saved, ret) = frames[d];
        if is_guest_code(ret) {
            found_ret = ret;
            found_rbp = saved;
            break;
        }
        frame_rbp = saved;
        d = d + 1;
    }
    assert((found_ret, found_rbp, frame_rbp) == walk_frames(frames@, rbp, 0));
    if found_ret != 0 {
        Some(
            Recovery {
                rip: found_ret,
                rbp: found_rbp,
                rsp: crate::linker::relocation::wrapping_add(frame_rbp, 16),
            },
        )
    } else if is_guest_code(stack_ret) {
        Some(
            Recovery {
                rip: stack_ret,
                rbp: rbp,
                rsp: crate::linker::relocation::wrapping_add(rsp, 8),
            },
        )
    } else {
        None
    }
}

/// The code after `syscall` (0F 05) instructions are turned into `ud2` (0F 0B): the second
/// byte of every `0F 05` pair becomes `0B`.
pub open spec fn patched(old: Seq<u8>, j: int) -> bool {
    1 <= j < old.len() && old[j - 1] == 0x0F && old[j] == 0x05
}

/// The code region `old` with every `syscall` turned into `ud2`.
pub open spec fn patched_code(old: Seq<u8>) -> Seq<u8> {
    Seq::new(old.len(), |j: int| if patched(old, j) { 0x0Bu8 } else { old[j] })
}

/// The number of patched bytes among the first `n`.
pub open spec fn patch_count(old: Seq<u8>, n: int) -> nat
    decreases n,
{
    if n <= 0 {
        0
    } else {
        patch_count(old, n - 1) + if patched(old, n - 1) {
            1nat
        } else {
            0nat
        }
    }
}

/// Turns every `syscall` instruction (0F 05) of a code region into `ud2` (0F 0B), so that it
/// traps; returns how many were patched.
pub fn patch_syscalls(memory: &mut [u8]) -> (r: u32)
    requires
        old(memory)@.len() >= 1,
        old(memory)@.len() - 1 <= u32::MAX,
    ensures
        final(memory)@.len() == old(memory)@.len(),
        forall|j: int|
            0 <= j < old(memory)@.len() ==> #[trigger] final(memory)@[j] == if patched(
                old(memory)@,
                j,
            ) {
                0x0Bu8
            } else {
                old(memory)@[j]
            },
        final(memory)@ == patched_code(old(memory)@),
        r == patch_count(old(memory)@, old(memory)@.len() as int),
{
    let ghost orig = memory@;
    let size = memory.len();
    let mut patched_count: u32 = 0;
    let mut offset: usize = 0;
    assert(patch_count(orig, 0) == 0);
    assert(patch_count(orig, 1) == 0);
    while offset < size - 1
        invariant
            size == orig.len(),
            size >= 1,
            size - 1 <= u32::MAX,
            memory@.len() == size,
            offset <= size - 1,
            forall|j: int|
                0 <= j <= offset ==> #[trigger] memory@[j] == if patched(orig, j) {
                    0x0Bu8
                } else {
                    orig[j]
                },
            forall|j: int| offset < j < size ==> #[trigger] memory@[j] == orig[j],
            patched_count == patch_count(orig, offset + 1),
            patched_count <= offset,
        decreases size - 1 - offset,
    {
        let b1 = memory[offset];
        let b2 = memory[offset + 1];
        proof {
            if offset >= 1 {
                assert(patched(orig, offset as int) ==> b1 == 0x0B);
            }
            assert(b1 == 0x0F ==> orig[offset as int] == 0x0F);
        }
        if b1 == 0x0F && b2 == 0x05 {
            memory[offset + 1] = 0x0B;
            patched_count = patched_count + 1;
        }
        offset = offset + 1;
    }
    proof {
        assert(!patched(orig, 0));
        if size >= 1 {
            assert(patch_count(orig, size as int) == patch_count(orig, (size - 1) + 1));
        }
        assert(memory@ =~= patched_code(orig));
    }
    patched_count
}

/// After patching, no `syscall` instruction (0F 05) is left in the region.
pub proof fn law_no_syscall_left(old: Seq<u8>, j: int)
    requires
        1 <= j < old.len(),
    ensures
        !(patched_code(old)[j - 1] == 0x0F && patched_code(old)[j] == 0x05),
{
}

/// Patching a region that was already patched changes nothing and patches nothing.
pub proof fn law_patching_is_idempotent(old: Seq<u8>)
    ensures
        patched_code(patched_code(old)) == patched_code(old),
        patch_count(patched_code(old), old.len() as int) == 0,
{
    let p = patched_code(old);
    assert forall|j: int| 0 <= j < old.len() implies !patched(p, j) by {
        if 1 <= j {
            law_no_syscall_left(old, j);
        }
    }
    assert(patched_code(p) =~= p);
    lemma_no_patch_count(p, old.len() as int);
}

proof fn lemma_no_patch_count(p: Seq<u8>, n: int)
    requires
        n <= p.len(),
        forall|j: int| 0 <= j < p.len() ==> !patched(p, j),
    ensures
        patch_count(p, n) == 0,
    decreases n,
{
    if n > 0 {
        lemma_no_patch_count(p, n - 1);
    }
}

} // verus!
