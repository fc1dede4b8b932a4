//! The kernel library's exports: the functions registered, each behind a stub.
use vstd::prelude::*;
use crate::hle::libraries::{register_names_spec, register_stub};
use crate::hle::stubs::{StubAllocator, stub_state};
use crate::loader::symbols::{SymbolResolver, entries_view};

verus! {

/// The kernel library's exports, in registration order.
pub open spec fn libkernel_names() -> Seq<Seq<char>> {
    libkernel_name_strs().map_values(|s: &str| s@)
}

/// The kernel library's exports, as string literals.
pub open spec fn libkernel_name_strs() -> Seq<&'static str> {
    seq![
        "sceKernelAllocateDirectMemory",
        "sceKernelMapDirectMemory",
        "sceKernelMapFlexibleMemory",
        "sceKernelMunmap",
        "sceKernelMprotect",
        "sceKernelQueryMemoryProtection",
        "sceKernelGetDirectMemorySize",
        "sceKernelAvailableDirectMemorySize",
        "sceKernelVirtualQuery",
        "sceKernelReserveVirtualRange",
        "sceKernelMapNamedFlexibleMemory",
        "sceKernelMapNamedDirectMemory",
        "scePthreadCreate",
        "scePthreadJoin",
        "scePthreadDetach",
        "scePthreadSelf",
        "scePthreadExit",
        "scePthreadSetaffinity",
        "scePthreadGetaffinity",
        "scePthreadSetprio",
        "scePthreadAttrInit",
        "scePthreadAttrDestroy",
        "scePthreadAttrSetstacksize",
        "scePthreadAttrSetdetachstate",
        "scePthreadRename",
        "scePthreadMutexInit",
        "scePthreadMutexDestroy",
        "scePthreadMutexLock",
        "scePthreadMutexUnlock",
        "scePthreadMutexTrylock",
        "scePthreadCondInit",
        "scePthreadCondDestroy",
        "scePthreadCondSignal",
        "scePthreadCondBroadcast",
        "scePthreadCondWait",
        "scePthreadCondTimedwait",
        "scePthreadRwlockInit",
        "scePthreadRwlockDestroy",
        "scePthreadRwlockRdlock",
        "scePthreadRwlockWrlock",
        "scePthreadRwlockUnlock",
        "sceKernelCreateSema",
        "sceKernelDeleteSema",
        "sceKernelWaitSema",
        "sceKernelSignalSema",
        "sceKernelCreateEqueue",
        "sceKernelDeleteEqueue",
        "sceKernelAddUserEvent",
        "sceKernelAddReadEvent",
        "sceKernelWaitEqueue",
        "sceKernelTriggerUserEvent",
        "sceKernelGetTscFrequency",
        "sceKernelGetProcessTime",
        "sceKernelGetProcessTimeCounter",
        "sceKernelGetProcessTimeCounterFrequency",
        "sceKernelClockGettime",
        "sceKernelGettimeofday",
        "sceKernelUsleep",
        "sceKernelSleep",
        "sceKernelNanosleep",
        "sceKernelOpen",
        "sceKernelClose",
        "sceKernelRead",
        "sceKernelWrite",
        "sceKernelLseek",
        "sceKernelStat",
        "sceKernelFstat",
        "sceKernelMkdir",
        "sceKernelGetdents",
        "sceKernelCheckReachability",
        "sceKernelGetCurrentCpu",
        "sceKernelGetProcessParam",
        "sceKernelGetCompiledSdkVersion",
        "sceKernelGetCpuFrequency",
        "sceKernelGetCpuMode",
        "sceKernelIsNeoMode",
        "sceKernelLoadStartModule",
        "sceKernelDlsym",
        "sceKernelGetModuleList",
        "sceKernelGetModuleInfo",
        "sceKernelGetModuleInfoByName",
        "sceKernelDebugOutText",
        "sceKernelDebugRaiseException",
        "pthread_create",
        "pthread_join",
        "pthread_mutex_init",
        "pthread_mutex_lock",
        "pthread_mutex_unlock",
        "pthread_mutex_destroy",
        "pthread_cond_init",
        "pthread_cond_signal",
        "pthread_cond_wait",
        "pthread_cond_destroy",
        "pthread_self",
        "malloc",
        "free",
        "calloc",
        "realloc",
        "memalign",
        "memcpy",
        "memset",
        "memmove",
        "strlen",
    ]
}

/// The kernel library's exports, in registration order.
pub fn libkernel_export_names() -> (r: Vec<&'static str>)
    ensures
        r@ == libkernel_name_strs(),
        r@.map_values(|s: &str| s@) == libkernel_names(),
{
    let v: Vec<&'static str> = vec![
        "sceKernelAllocateDirectMemory",
        "sceKernelMapDirectMemory",
        "sceKernelMapFlexibleMemory",
        "sceKernelMunmap",
        "sceKernelMprotect",
        "sceKernelQueryMemoryProtection",
        "sceKernelGetDirectMemorySize",
        "sceKernelAvailableDirectMemorySize",
        "sceKernelVirtualQuery",
        "sceKernelReserveVirtualRange",
        "sceKernelMapNamedFlexibleMemory",
        "sceKernelMapNamedDirectMemory",
        "scePthreadCreate",
        "scePthreadJoin",
        "scePthreadDetach",
        "scePthreadSelf",
        "scePthreadExit",
        "scePthreadSetaffinity",
        "scePthreadGetaffinity",
        "scePthreadSetprio",
        "scePthreadAttrInit",
        "scePthreadAttrDestroy",
        "scePthreadAttrSetstacksize",
        "scePthreadAttrSetdetachstate",
        "scePthreadRename",
        "scePthreadMutexInit",
        "scePthreadMutexDestroy",
        "scePthreadMutexLock",
        "scePthreadMutexUnlock",
        "scePthreadMutexTrylock",
        "scePthreadCondInit",
        "scePthreadCondDestroy",
        "scePthreadCondSignal",
        "scePthreadCondBroadcast",
        "scePthreadCondWait",
        "scePthreadCondTimedwait",
        "scePthreadRwlockInit",
        "scePthreadRwlockDestroy",
        "scePthreadRwlockRdlock",
        "scePthreadRwlockWrlock",
        "scePthreadRwlockUnlock",
        "sceKernelCreateSema",
        "sceKernelDeleteSema",
        "sceKernelWaitSema",
        "sceKernelSignalSema",
        "sceKernelCreateEqueue",
        "sceKernelDeleteEqueue",
        "sceKernelAddUserEvent",
        "sceKernelAddReadEvent",
        "sceKernelWaitEqueue",
        "sceKernelTriggerUserEvent",
        "sceKernelGetTscFrequency",
        "sceKernelGetProcessTime",
        "sceKernelGetProcessTimeCounter",
        "sceKernelGetProcessTimeCounterFrequency",
        "sceKernelClockGettime",
        "sceKernelGettimeofday",
        "sceKernelUsleep",
        "sceKernelSleep",
        "sceKernelNanosleep",
        "sceKernelOpen",
        "sceKernelClose",
        "sceKernelRead",
        "sceKernelWrite",
        "sceKernelLseek",
        "sceKernelStat",
        "sceKernelFstat",
        "sceKernelMkdir",
        "sceKernelGetdents",
        "sceKernelCheckReachability",
        "sceKernelGetCurrentCpu",
        "sceKernelGetProcessParam",
        "sceKernelGetCompiledSdkVersion",
        "sceKernelGetCpuFrequency",
        "sceKernelGetCpuMode",
        "sceKernelIsNeoMode",
        "sceKernelLoadStartModule",
        "sceKernelDlsym",
        "sceKernelGetModuleList",
        "sceKernelGetModuleInfo",
        "sceKernelGetModuleInfoByName",
        "sceKernelDebugOutText",
        "sceKernelDebugRaiseException",
        "pthread_create",
        "pthread_join",
        "pthread_mutex_init",
        "pthread_mutex_lock",
        "pthread_mutex_unlock",
        "pthread_mutex_destroy",
        "pthread_cond_init",
        "pthread_cond_signal",
        "pthread_cond_wait",
        "pthread_cond_destroy",
        "pthread_self",
        "malloc",
        "free",
        "calloc",
        "realloc",
        "memalign",
        "memcpy",
        "memset",
        "memmove",
        "strlen",
    ];
    assert(v@ =~= libkernel_name_strs());
    v
}

/// Registers every kernel library export (memory, threads, synchronisation, event queues, time,
/// files, process, modules, debug output, and the POSIX and C functions it also exports), each
/// under its own name as NID and behind a stub of its own.
pub fn register(resolver: &mut SymbolResolver, stubs: &mut Option<StubAllocator>)
    requires
        old(resolver).wf(),
        *old(stubs) matches Some(a) ==> a.wf(),
    ensures
        final(resolver).wf(),
        *final(stubs) matches Some(a) ==> a.wf(),
        (entries_view(final(resolver).entries()), stub_state(*final(stubs))) == register_names_spec(
            entries_view(old(resolver).entries()),
            stub_state(*old(stubs)),
            libkernel_names(),
            "libkernel"@,
        ),
{
    let lib = "libkernel";
    let names = libkernel_export_names();
    let ghost ns = libkernel_names();
    let mut i: usize = 0;
    while i < names.len()
        invariant
            i <= names@.len(),
            names@.map_values(|s: &str| s@) == ns,
            ns == libkernel_names(),
            lib@ == "libkernel"@,
            resolver.wf(),
            *stubs matches Some(a) ==> a.wf(),
            (entries_view(resolver.entries()), stub_state(*stubs)) == register_names_spec(
                entries_view(old(resolver).entries()),
                stub_state(*old(stubs)),
                ns.take(i as int),
                lib@,
            ),
        decreases names.len() - i,
    {
        let n = names[i];
        proof {
            assert(ns.take(i + 1).drop_last() =~= ns.take(i as int));
            assert(ns[i as int] == n@);
        }
        register_stub(resolver, stubs, n, n, lib);
        i = i + 1;
    }
    assert(ns.take(names@.len() as int) =~= ns);
}

} // verus!
