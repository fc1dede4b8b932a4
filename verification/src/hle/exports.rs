//! The exports the library implements itself: which implementation each exported name calls
//! for, and the values those implementations compute. What they read from and write to guest
//! memory is done by the caller, with these values.
use vstd::prelude::*;
use crate::kernel::filesystem::{FileSystem, resolve_spec, mount_spec};
use crate::text::str_eq;
use vstd::string::StringSliceAdditionalSpecFns;

verus! {

/// The direct memory size reported: 5632 MiB.
pub const DIRECT_MEMORY_SIZE: u64 = 5905580032;

/// `SCE_USER_SERVICE_ERROR_NO_EVENT`.
pub const USER_SERVICE_NO_EVENT: u64 = 0x80990004;

/// `SCE_SYSTEM_SERVICE_ERROR_NO_EVENT`.
pub const SYSTEM_SERVICE_NO_EVENT: u64 = 0x80A10004;

/// The out-of-memory code returned by the allocation exports.
pub const EXPORT_ENOMEM: u64 = 0x8002000C;

/// The size `malloc(0)` allocates.
pub const DEFAULT_MALLOC_SIZE: u64 = 4096;

/// The size of a guest thread's TCB.
pub const TCB_SIZE: u64 = 4096;

/// The size of a guest thread's stack: 2 MiB.
pub const THREAD_STACK_SIZE: u64 = 0x20_0000;

/// What an exported name calls for.
#[derive(Debug, Clone, Copy, PartialEq, Eq, Structural)]
pub enum ExportKind {
    /// Nothing to do but return this value.
    Return(u64),
    /// `__cxa_guard_acquire`: claim a static-initialisation guard.
    GuardAcquire,
    /// `__cxa_guard_release`: mark a guard initialised.
    GuardRelease,
    /// The guest exits: end the process.
    Exit,
    /// Allocate heap memory.
    Malloc,
    /// `memcpy`.
    Memcpy,
    /// `memset`.
    Memset,
    /// `strcpy`.
    Strcpy,
    /// `strlen`.
    Strlen,
    /// `strcmp`.
    Strcmp,
    /// `memcmp`.
    Memcmp,
    /// `strcat`.
    Strcat,
    /// `printf`: log the format string.
    Printf,
    /// `puts`: log the string.
    Puts,
    /// `vsnprintf`: copy the format string.
    Vsnprintf,
    /// `fopen` through the mounts.
    Fopen,
    /// `fread`.
    Fread,
    /// `fclose`.
    Fclose,
    /// `fseek`.
    Fseek,
    /// `ftell`.
    Ftell,
    /// Allocate direct memory (mapped at once; physical equals virtual).
    AllocateDirectMemory,
    /// Allocate main direct memory (mapped at once).
    AllocateMainDirectMemory,
    /// Map direct memory: the physical address is already mapped.
    MapDirectMemory,
    /// Create an event queue: hand out the next id.
    CreateEqueue,
    /// Create a guest thread with its own TCB and stack.
    PthreadCreate,
    /// Report a 1920x1080 output.
    ResolutionStatus,
    /// Fill a video-out buffer attribute.
    SetBufferAttribute,
    /// Acknowledge video-out buffers.
    RegisterBuffers,
    /// Write the default hardware-state PM4 packets.
    GnmInitHardwareState,
    /// Write a wait-for-flip PM4 packet.
    WaitFlipDone,
    /// Wait on an event queue: report no events.
    WaitEqueue,
    /// Submit draw command buffers to the GPU.
    SubmitCommandBuffers,
    /// End of frame.
    SubmitDone,
    /// Open a controller.
    PadOpen,
    /// Report a neutral controller.
    PadReadState,
    /// Report user 1.
    InitialUser,
    /// Report user 1 logged in.
    LoginUserIdList,
    /// Report a zeroed system service status.
    SystemServiceStatus,
    /// Write handle 1 and succeed.
    WriteOne,
    /// `sinf`.
    Sinf,
    /// `tanf`.
    Tanf,
    /// `asinf`.
    Asinf,
    /// `acosf`.
    Acosf,
    /// `atan2f`.
    Atan2f,
    /// `rand`.
    Rand,
    /// An export with no implementation: return 0.
    Unhandled,
}

/// What each exported name calls for.
pub open spec fn export_kind_spec(name: Seq<char>) -> ExportKind {
    if name == "_init_env"@ {
        ExportKind::Return(0)
    } else if name == "atexit"@ {
        ExportKind::Return(0)
    } else if name == "__cxa_atexit"@ {
        ExportKind::Return(0)
    } else if name == "__cxa_guard_acquire"@ {
        ExportKind::GuardAcquire
    } else if name == "__cxa_guard_release"@ {
        ExportKind::GuardRelease
    } else if name == "sceKernelIsNeoMode"@ {
        ExportKind::Return(0)
    } else if name == "catchReturnFromMain"@ {
        ExportKind::Exit
    } else if name == "exit"@ {
        ExportKind::Exit
    } else if name == "malloc"@ {
        ExportKind::Malloc
    } else if name == "_Znwm"@ {
        ExportKind::Malloc
    } else if name == "free"@ {
        ExportKind::Return(0)
    } else if name == "_ZdlPv"@ {
        ExportKind::Return(0)
    } else if name == "memcpy"@ {
        ExportKind::Memcpy
    } else if name == "memset"@ {
        ExportKind::Memset
    } else if name == "strcpy"@ {
        ExportKind::Strcpy
    } else if name == "strlen"@ {
        ExportKind::Strlen
    } else if name == "strcmp"@ {
        ExportKind::Strcmp
    } else if name == "memcmp"@ {
        ExportKind::Memcmp
    } else if name == "strcat"@ {
        ExportKind::Strcat
    } else if name == "printf"@ {
        ExportKind::Printf
    } else if name == "sceClibPrintf"@ {
        ExportKind::Printf
    } else if name == "puts"@ {
        ExportKind::Puts
    } else if name == "vsnprintf"@ {
        ExportKind::Vsnprintf
    } else if name == "fopen"@ {
        ExportKind::Fopen
    } else if name == "fread"@ {
        ExportKind::Fread
    } else if name == "fclose"@ {
        ExportKind::Fclose
    } else if name == "fseek"@ {
        ExportKind::Fseek
    } else if name == "ftell"@ {
        ExportKind::Ftell
    } else if name == "sceKernelGetDirectMemorySize"@ {
        ExportKind::Return(DIRECT_MEMORY_SIZE)
    } else if name == "sceKernelAllocateDirectMemory"@ {
        ExportKind::AllocateDirectMemory
    } else if name == "sceKernelAllocateMainDirectMemory"@ {
        ExportKind::AllocateMainDirectMemory
    } else if name == "sceKernelMapDirectMemory"@ {
        ExportKind::MapDirectMemory
    } else if name == "sceKernelMunmap"@ {
        ExportKind::Return(0)
    } else if name == "sceKernelReleaseDirectMemory"@ {
        ExportKind::Return(0)
    } else if name == "sceKernelCreateEqueue"@ {
        ExportKind::CreateEqueue
    } else if name == "sceKernelDeleteEqueue"@ {
        ExportKind::Return(0)
    } else if name == "scePthreadMutexDestroy"@ {
        ExportKind::Return(0)
    } else if name == "scePthreadMutexInit"@ {
        ExportKind::Return(0)
    } else if name == "scePthreadMutexLock"@ {
        ExportKind::Return(0)
    } else if name == "scePthreadMutexUnlock"@ {
        ExportKind::Return(0)
    } else if name == "scePthreadCreate"@ {
        ExportKind::PthreadCreate
    } else if name == "sceVideoOutOpen"@ {
        ExportKind::Return(1)
    } else if name == "sceVideoOutSetFlipRate"@ {
        ExportKind::Return(0)
    } else if name == "sceVideoOutClose"@ {
        ExportKind::Return(0)
    } else if name == "sceVideoOutGetResolutionStatus"@ {
        ExportKind::ResolutionStatus
    } else if name == "sceVideoOutSetBufferAttribute"@ {
        ExportKind::SetBufferAttribute
    } else if name == "sceVideoOutRegisterBuffers"@ {
        ExportKind::RegisterBuffers
    } else if name == "sceGnmAddEqEvent"@ {
        ExportKind::Return(0)
    } else if name == "sceGnmDeleteEqEvent"@ {
        ExportKind::Return(0)
    } else if name == "sceGnmDrawInitDefaultHardwareState350"@ {
        ExportKind::GnmInitHardwareState
    } else if name == "sceGnmInsertWaitFlipDone"@ {
        ExportKind::WaitFlipDone
    } else if name == "fzyMKs9kim0"@ {
        ExportKind::WaitEqueue
    } else if name == "fzyMKs9kim0#R#S"@ {
        ExportKind::WaitEqueue
    } else if name == "zwY0YV91TTI"@ {
        ExportKind::SubmitCommandBuffers
    } else if name == "zwY0YV91TTI#R#S"@ {
        ExportKind::SubmitCommandBuffers
    } else if name == "E90Gz79LdBQ"@ {
        ExportKind::SubmitDone
    } else if name == "E90Gz79LdBQ#R#S"@ {
        ExportKind::SubmitDone
    } else if name == "W1Etj-jlW7Y"@ {
        ExportKind::Return(0)
    } else if name == "W1Etj-jlW7Y#B#C"@ {
        ExportKind::Return(0)
    } else if name == "5uFKckiJYRM"@ {
        ExportKind::Return(0)
    } else if name == "5uFKckiJYRM#B#C"@ {
        ExportKind::Return(0)
    } else if name == "+AFvOEXrKJk"@ {
        ExportKind::Return(0)
    } else if name == "+AFvOEXrKJk#B#C"@ {
        ExportKind::Return(0)
    } else if name == "GGsn7jMTxw4"@ {
        ExportKind::Return(0)
    } else if name == "GGsn7jMTxw4#B#C"@ {
        ExportKind::Return(0)
    } else if name == "7qZVNgEu+SY"@ {
        ExportKind::Return(0)
    } else if name == "7qZVNgEu+SY#B#C"@ {
        ExportKind::Return(0)
    } else if name == "gAhCn6UiU4Y"@ {
        ExportKind::Return(0)
    } else if name == "gAhCn6UiU4Y#B#C"@ {
        ExportKind::Return(0)
    } else if name == "HlTPoZ-oY7Y"@ {
        ExportKind::Return(0)
    } else if name == "HlTPoZ-oY7Y#B#C"@ {
        ExportKind::Return(0)
    } else if name == "xbxNatawohc"@ {
        ExportKind::Return(0)
    } else if name == "xbxNatawohc#B#C"@ {
        ExportKind::Return(0)
    } else if name == "yvZ73uQUqrk"@ {
        ExportKind::Return(0)
    } else if name == "yvZ73uQUqrk#B#C"@ {
        ExportKind::Return(0)
    } else if name == "scePadInit"@ {
        ExportKind::Return(0)
    } else if name == "scePadOpen"@ {
        ExportKind::PadOpen
    } else if name == "scePadReadState"@ {
        ExportKind::PadReadState
    } else if name == "scePadClose"@ {
        ExportKind::Return(0)
    } else if name == "sceUserServiceInitialize"@ {
        ExportKind::Return(0)
    } else if name == "sceUserServiceTerminate"@ {
        ExportKind::Return(0)
    } else if name == "sceUserServiceGetInitialUser"@ {
        ExportKind::InitialUser
    } else if name == "sceUserServiceGetEvent"@ {
        ExportKind::Return(USER_SERVICE_NO_EVENT)
    } else if name == "sceUserServiceGetLoginUserIdList"@ {
        ExportKind::LoginUserIdList
    } else if name == "sceSystemServiceHideSplashScreen"@ {
        ExportKind::Return(0)
    } else if name == "sceSystemServiceParamGetInt"@ {
        ExportKind::Return(0)
    } else if name == "sceSysmoduleLoadModule"@ {
        ExportKind::Return(0)
    } else if name == "sceCommonDialogInitialize"@ {
        ExportKind::Return(0)
    } else if name == "sceSaveDataInitialize3"@ {
        ExportKind::Return(0)
    } else if name == "sceSaveDataTerminate"@ {
        ExportKind::Return(0)
    } else if name == "sceNpSetContentRestriction"@ {
        ExportKind::Return(0)
    } else if name == "sceNpSetNpTitleId"@ {
        ExportKind::Return(0)
    } else if name == "sceNpScoreCreateNpTitleCtxA"@ {
        ExportKind::Return(0)
    } else if name == "sceScreenShotSetOverlayImageWithOrigin"@ {
        ExportKind::Return(0)
    } else if name == "sceSystemServiceReceiveEvent"@ {
        ExportKind::Return(SYSTEM_SERVICE_NO_EVENT)
    } else if name == "sceSystemServiceGetStatus"@ {
        ExportKind::SystemServiceStatus
    } else if name == "sceSaveDataDialogUpdateStatus"@ {
        ExportKind::Return(0)
    } else if name == "sceSaveDataDialogGetResult"@ {
        ExportKind::Return(0)
    } else if name == "sceNpTrophyCreateHandle"@ {
        ExportKind::WriteOne
    } else if name == "sceNpTrophyCreateContext"@ {
        ExportKind::WriteOne
    } else if name == "sceAudioOutInit"@ {
        ExportKind::Return(0)
    } else if name == "sceAudioOutOpen"@ {
        ExportKind::Return(1)
    } else if name == "sceNpTrophyRegisterContext"@ {
        ExportKind::Return(0)
    } else if name == "sinf"@ {
        ExportKind::Sinf
    } else if name == "tanf"@ {
        ExportKind::Tanf
    } else if name == "asinf"@ {
        ExportKind::Asinf
    } else if name == "acosf"@ {
        ExportKind::Acosf
    } else if name == "atan2f"@ {
        ExportKind::Atan2f
    } else if name == "rand"@ {
        ExportKind::Rand
    } else {
        ExportKind::Unhandled
    }
}

/// The exports the library answers for, each with what it calls for (as the original's
/// dispatcher table lists them): `name` calls for `kind`.
pub open spec fn export_listed_as(name: Seq<char>, kind: ExportKind) -> bool {
    ||| name == "_init_env"@ && kind == ExportKind::Return(0)
    ||| name == "atexit"@ && kind == ExportKind::Return(0)
    ||| name == "__cxa_atexit"@ && kind == ExportKind::Return(0)
    ||| name == "__cxa_guard_acquire"@ && kind == ExportKind::GuardAcquire
    ||| name == "__cxa_guard_release"@ && kind == ExportKind::GuardRelease
    ||| name == "sceKernelIsNeoMode"@ && kind == ExportKind::Return(0)
    ||| name == "catchReturnFromMain"@ && kind == ExportKind::Exit
    ||| name == "exit"@ && kind == ExportKind::Exit
    ||| name == "malloc"@ && kind == ExportKind::Malloc
    ||| name == "_Znwm"@ && kind == ExportKind::Malloc
    ||| name == "free"@ && kind == ExportKind::Return(0)
    ||| name == "_ZdlPv"@ && kind == ExportKind::Return(0)
    ||| name == "memcpy"@ && kind == ExportKind::Memcpy
    ||| name == "memset"@ && kind == ExportKind::Memset
    ||| name == "strcpy"@ && kind == ExportKind::Strcpy
    ||| name == "strlen"@ && kind == ExportKind::Strlen
    ||| name == "strcmp"@ && kind == ExportKind::Strcmp
    ||| name == "memcmp"@ && kind == ExportKind::Memcmp
    ||| name == "strcat"@ && kind == ExportKind::Strcat
    ||| name == "printf"@ && kind == ExportKind::Printf
    ||| name == "sceClibPrintf"@ && kind == ExportKind::Printf
    ||| name == "puts"@ && kind == ExportKind::Puts
    ||| name == "vsnprintf"@ && kind == ExportKind::Vsnprintf
    ||| name == "fopen"@ && kind == ExportKind::Fopen
    ||| name == "fread"@ && kind == ExportKind::Fread
    ||| name == "fclose"@ && kind == ExportKind::Fclose
    ||| name == "fseek"@ && kind == ExportKind::Fseek
    ||| name == "ftell"@ && kind == ExportKind::Ftell
    ||| name == "sceKernelGetDirectMemorySize"@ && kind == ExportKind::Return(DIRECT_MEMORY_SIZE)
    ||| name == "sceKernelAllocateDirectMemory"@ && kind == ExportKind::AllocateDirectMemory
    ||| name == "sceKernelAllocateMainDirectMemory"@ && kind == ExportKind::AllocateMainDirectMemory
    ||| name == "sceKernelMapDirectMemory"@ && kind == ExportKind::MapDirectMemory
    ||| name == "sceKernelMunmap"@ && kind == ExportKind::Return(0)
    ||| name == "sceKernelReleaseDirectMemory"@ && kind == ExportKind::Return(0)
    ||| name == "sceKernelCreateEqueue"@ && kind == ExportKind::CreateEqueue
    ||| name == "sceKernelDeleteEqueue"@ && kind == ExportKind::Return(0)
    ||| name == "scePthreadMutexDestroy"@ && kind == ExportKind::Return(0)
    ||| name == "scePthreadMutexInit"@ && kind == ExportKind::Return(0)
    ||| name == "scePthreadMutexLock"@ && kind == ExportKind::Return(0)
    ||| name == "scePthreadMutexUnlock"@ && kind == ExportKind::Return(0)
    ||| name == "scePthreadCreate"@ && kind == ExportKind::PthreadCreate
    ||| name == "sceVideoOutOpen"@ && kind == ExportKind::Return(1)
    ||| name == "sceVideoOutSetFlipRate"@ && kind == ExportKind::Return(0)
    ||| name == "sceVideoOutClose"@ && kind == ExportKind::Return(0)
    ||| name == "sceVideoOutGetResolutionStatus"@ && kind == ExportKind::ResolutionStatus
    ||| name == "sceVideoOutSetBufferAttribute"@ && kind == ExportKind::SetBufferAttribute
    ||| name == "sceVideoOutRegisterBuffers"@ && kind == ExportKind::RegisterBuffers
    ||| name == "sceGnmAddEqEvent"@ && kind == ExportKind::Return(0)
    ||| name == "sceGnmDeleteEqEvent"@ && kind == ExportKind::Return(0)
    ||| name == "sceGnmDrawInitDefaultHardwareState350"@ && kind == ExportKind::GnmInitHardwareState
    ||| name == "sceGnmInsertWaitFlipDone"@ && kind == ExportKind::WaitFlipDone
    ||| name == "fzyMKs9kim0"@ && kind == ExportKind::WaitEqueue
    ||| name == "fzyMKs9kim0#R#S"@ && kind == ExportKind::WaitEqueue
    ||| name == "zwY0YV91TTI"@ && kind == ExportKind::SubmitCommandBuffers
    ||| name == "zwY0YV91TTI#R#S"@ && kind == ExportKind::SubmitCommandBuffers
    ||| name == "E90Gz79LdBQ"@ && kind == ExportKind::SubmitDone
    ||| name == "E90Gz79LdBQ#R#S"@ && kind == ExportKind::SubmitDone
    ||| name == "W1Etj-jlW7Y"@ && kind == ExportKind::Return(0)
    ||| name == "W1Etj-jlW7Y#B#C"@ && kind == ExportKind::Return(0)
    ||| name == "5uFKckiJYRM"@ && kind == ExportKind::Return(0)
    ||| name == "5uFKckiJYRM#B#C"@ && kind == ExportKind::Return(0)
    ||| name == "+AFvOEXrKJk"@ && kind == ExportKind::Return(0)
    ||| name == "+AFvOEXrKJk#B#C"@ && kind == ExportKind::Return(0)
    ||| name == "GGsn7jMTxw4"@ && kind == ExportKind::Return(0)
    ||| name == "GGsn7jMTxw4#B#C"@ && kind == ExportKind::Return(0)
    ||| name == "7qZVNgEu+SY"@ && kind == ExportKind::Return(0)
    ||| name == "7qZVNgEu+SY#B#C"@ && kind == ExportKind::Return(0)
    ||| name == "gAhCn6UiU4Y"@ && kind == ExportKind::Return(0)
    ||| name == "gAhCn6UiU4Y#B#C"@ && kind == ExportKind::Return(0)
    ||| name == "HlTPoZ-oY7Y"@ && kind == ExportKind::Return(0)
    ||| name == "HlTPoZ-oY7Y#B#C"@ && kind == ExportKind::Return(0)
    ||| name == "xbxNatawohc"@ && kind == ExportKind::Return(0)
    ||| name == "xbxNatawohc#B#C"@ && kind == ExportKind::Return(0)
    ||| name == "yvZ73uQUqrk"@ && kind == ExportKind::Return(0)
    ||| name == "yvZ73uQUqrk#B#C"@ && kind == ExportKind::Return(0)
    ||| name == "scePadInit"@ && kind == ExportKind::Return(0)
    ||| name == "scePadOpen"@ && kind == ExportKind::PadOpen
    ||| name == "scePadReadState"@ && kind == ExportKind::PadReadState
    ||| name == "scePadClose"@ && kind == ExportKind::Return(0)
    ||| name == "sceUserServiceInitialize"@ && kind == ExportKind::Return(0)
    ||| name == "sceUserServiceTerminate"@ && kind == ExportKind::Return(0)
    ||| name == "sceUserServiceGetInitialUser"@ && kind == ExportKind::InitialUser
    ||| name == "sceUserServiceGetEvent"@ && kind == ExportKind::Return(USER_SERVICE_NO_EVENT)
    ||| name == "sceUserServiceGetLoginUserIdList"@ && kind == ExportKind::LoginUserIdList
    ||| name == "sceSystemServiceHideSplashScreen"@ && kind == ExportKind::Return(0)
    ||| name == "sceSystemServiceParamGetInt"@ && kind == ExportKind::Return(0)
    ||| name == "sceSysmoduleLoadModule"@ && kind == ExportKind::Return(0)
    ||| name == "sceCommonDialogInitialize"@ && kind == ExportKind::Return(0)
    ||| name == "sceSaveDataInitialize3"@ && kind == ExportKind::Return(0)
    ||| name == "sceSaveDataTerminate"@ && kind == ExportKind::Return(0)
    ||| name == "sceNpSetContentRestriction"@ && kind == ExportKind::Return(0)
    ||| name == "sceNpSetNpTitleId"@ && kind == ExportKind::Return(0)
    ||| name == "sceNpScoreCreateNpTitleCtxA"@ && kind == ExportKind::Return(0)
    ||| name == "sceScreenShotSetOverlayImageWithOrigin"@ && kind == ExportKind::Return(0)
    ||| name == "sceSystemServiceReceiveEvent"@ && kind == ExportKind::Return(SYSTEM_SERVICE_NO_EVENT)
    ||| name == "sceSystemServiceGetStatus"@ && kind == ExportKind::SystemServiceStatus
    ||| name == "sceSaveDataDialogUpdateStatus"@ && kind == ExportKind::Return(0)
    ||| name == "sceSaveDataDialogGetResult"@ && kind == ExportKind::Return(0)
    ||| name == "sceNpTrophyCreateHandle"@ && kind == ExportKind::WriteOne
    ||| name == "sceNpTrophyCreateContext"@ && kind == ExportKind::WriteOne
    ||| name == "sceAudioOutInit"@ && kind == ExportKind::Return(0)
    ||| name == "sceAudioOutOpen"@ && kind == ExportKind::Return(1)
    ||| name == "sceNpTrophyRegisterContext"@ && kind == ExportKind::Return(0)
    ||| name == "sinf"@ && kind == ExportKind::Sinf
    ||| name == "tanf"@ && kind == ExportKind::Tanf
    ||| name == "asinf"@ && kind == ExportKind::Asinf
    ||| name == "acosf"@ && kind == ExportKind::Acosf
    ||| name == "atan2f"@ && kind == ExportKind::Atan2f
    ||| name == "rand"@ && kind == ExportKind::Rand
}

/// The names of the exports the library answers for.
pub open spec fn export_listed(name: Seq<char>) -> bool {
    ||| name == "_init_env"@
    ||| name == "atexit"@
    ||| name == "__cxa_atexit"@
    ||| name == "__cxa_guard_acquire"@
    ||| name == "__cxa_guard_release"@
    ||| name == "sceKernelIsNeoMode"@
    ||| name == "catchReturnFromMain"@
    ||| name == "exit"@
    ||| name == "malloc"@
    ||| name == "_Znwm"@
    ||| name == "free"@
    ||| name == "_ZdlPv"@
    ||| name == "memcpy"@
    ||| name == "memset"@
    ||| name == "strcpy"@
    ||| name == "strlen"@
    ||| name == "strcmp"@
    ||| name == "memcmp"@
    ||| name == "strcat"@
    ||| name == "printf"@
    ||| name == "sceClibPrintf"@
    ||| name == "puts"@
    ||| name == "vsnprintf"@
    ||| name == "fopen"@
    ||| name == "fread"@
    ||| name == "fclose"@
    ||| name == "fseek"@
    ||| name == "ftell"@
    ||| name == "sceKernelGetDirectMemorySize"@
    ||| name == "sceKernelAllocateDirectMemory"@
    ||| name == "sceKernelAllocateMainDirectMemory"@
    ||| name == "sceKernelMapDirectMemory"@
    ||| name == "sceKernelMunmap"@
    ||| name == "sceKernelReleaseDirectMemory"@
    ||| name == "sceKernelCreateEqueue"@
    ||| name == "sceKernelDeleteEqueue"@
    ||| name == "scePthreadMutexDestroy"@
    ||| name == "scePthreadMutexInit"@
    ||| name == "scePthreadMutexLock"@
    ||| name == "scePthreadMutexUnlock"@
    ||| name == "scePthreadCreate"@
    ||| name == "sceVideoOutOpen"@
    ||| name == "sceVideoOutSetFlipRate"@
    ||| name == "sceVideoOutClose"@
    ||| name == "sceVideoOutGetResolutionStatus"@
    ||| name == "sceVideoOutSetBufferAttribute"@
    ||| name == "sceVideoOutRegisterBuffers"@
    ||| name == "sceGnmAddEqEvent"@
    ||| name == "sceGnmDeleteEqEvent"@
    ||| name == "sceGnmDrawInitDefaultHardwareState350"@
    ||| name == "sceGnmInsertWaitFlipDone"@
    ||| name == "fzyMKs9kim0"@
    ||| name == "fzyMKs9kim0#R#S"@
    ||| name == "zwY0YV91TTI"@
    ||| name == "zwY0YV91TTI#R#S"@
    ||| name == "E90Gz79LdBQ"@
    ||| name == "E90Gz79LdBQ#R#S"@
    ||| name == "W1Etj-jlW7Y"@
    ||| name == "W1Etj-jlW7Y#B#C"@
    ||| name == "5uFKckiJYRM"@
    ||| name == "5uFKckiJYRM#B#C"@
    ||| name == "+AFvOEXrKJk"@
    ||| name == "+AFvOEXrKJk#B#C"@
    ||| name == "GGsn7jMTxw4"@
    ||| name == "GGsn7jMTxw4#B#C"@
    ||| name == "7qZVNgEu+SY"@
    ||| name == "7qZVNgEu+SY#B#C"@
    ||| name == "gAhCn6UiU4Y"@
    ||| name == "gAhCn6UiU4Y#B#C"@
    ||| name == "HlTPoZ-oY7Y"@
    ||| name == "HlTPoZ-oY7Y#B#C"@
    ||| name == "xbxNatawohc"@
    ||| name == "xbxNatawohc#B#C"@
    ||| name == "yvZ73uQUqrk"@
    ||| name == "yvZ73uQUqrk#B#C"@
    ||| name == "scePadInit"@
    ||| name == "scePadOpen"@
    ||| name == "scePadReadState"@
    ||| name == "scePadClose"@
    ||| name == "sceUserServiceInitialize"@
    ||| name == "sceUserServiceTerminate"@
    ||| name == "sceUserServiceGetInitialUser"@
    ||| name == "sceUserServiceGetEvent"@
    ||| name == "sceUserServiceGetLoginUserIdList"@
    ||| name == "sceSystemServiceHideSplashScreen"@
    ||| name == "sceSystemServiceParamGetInt"@
    ||| name == "sceSysmoduleLoadModule"@
    ||| name == "sceCommonDialogInitialize"@
    ||| name == "sceSaveDataInitialize3"@
    ||| name == "sceSaveDataTerminate"@
    ||| name == "sceNpSetContentRestriction"@
    ||| name == "sceNpSetNpTitleId"@
    ||| name == "sceNpScoreCreateNpTitleCtxA"@
    ||| name == "sceScreenShotSetOverlayImageWithOrigin"@
    ||| name == "sceSystemServiceReceiveEvent"@
    ||| name == "sceSystemServiceGetStatus"@
    ||| name == "sceSaveDataDialogUpdateStatus"@
    ||| name == "sceSaveDataDialogGetResult"@
    ||| name == "sceNpTrophyCreateHandle"@
    ||| name == "sceNpTrophyCreateContext"@
    ||| name == "sceAudioOutInit"@
    ||| name == "sceAudioOutOpen"@
    ||| name == "sceNpTrophyRegisterContext"@
    ||| name == "sinf"@
    ||| name == "tanf"@
    ||| name == "asinf"@
    ||| name == "acosf"@
    ||| name == "atan2f"@
    ||| name == "rand"@
}

/// Each export the library answers for calls for its own implementation: a name the table
/// lists is never left unhandled, and whatever a name calls for is what the table lists for it;
/// every name the table does not list is unhandled (answered with 0).
pub proof fn law_export_dispatch(name: Seq<char>)
    ensures
        export_kind_spec(name) == ExportKind::Unhandled ==> !export_listed(name),
        !export_listed(name) ==> export_kind_spec(name) == ExportKind::Unhandled,
        export_kind_spec(name) != ExportKind::Unhandled ==> export_listed_as(
            name,
            export_kind_spec(name),
        ),
{
}

/// What an exported name calls for.
pub fn export_kind(name: &str) -> (r: ExportKind)
    ensures
        r == export_kind_spec(name@),
{
    if str_eq(name, "_init_env") {
        ExportKind::Return(0)
    } else if str_eq(name, "atexit") {
        ExportKind::Return(0)
    } else if str_eq(name, "__cxa_atexit") {
        ExportKind::Return(0)
    } else if str_eq(name, "__cxa_guard_acquire") {
        ExportKind::GuardAcquire
    } else if str_eq(name, "__cxa_guard_release") {
        ExportKind::GuardRelease
    } else if str_eq(name, "sceKernelIsNeoMode") {
        ExportKind::Return(0)
    } else if str_eq(name, "catchReturnFromMain") {
        ExportKind::Exit
    } else if str_eq(name, "exit") {
        ExportKind::Exit
    } else if str_eq(name, "malloc") {
        ExportKind::Malloc
    } else if str_eq(name, "_Znwm") {
        ExportKind::Malloc
    } else if str_eq(name, "free") {
        ExportKind::Return(0)
    } else if str_eq(name, "_ZdlPv") {
        ExportKind::Return(0)
    } else if str_eq(name, "memcpy") {
        ExportKind::Memcpy
    } else if str_eq(name, "memset") {
        ExportKind::Memset
    } else if str_eq(name, "strcpy") {
        ExportKind::Strcpy
    } else if str_eq(name, "strlen") {
        ExportKind::Strlen
    } else if str_eq(name, "strcmp") {
        ExportKind::Strcmp
    } else if str_eq(name, "memcmp") {
        ExportKind::Memcmp
    } else if str_eq(name, "strcat") {
        ExportKind::Strcat
    } else if str_eq(name, "printf") {
        ExportKind::Printf
    } else if str_eq(name, "sceClibPrintf") {
        ExportKind::Printf
    } else if str_eq(name, "puts") {
        ExportKind::Puts
    } else if str_eq(name, "vsnprintf") {
        ExportKind::Vsnprintf
    } else if str_eq(name, "fopen") {
        ExportKind::Fopen
    } else if str_eq(name, "fread") {
        ExportKind::Fread
    } else if str_eq(name, "fclose") {
        ExportKind::Fclose
    } else if str_eq(name, "fseek") {
        ExportKind::Fseek
    } else if str_eq(name, "ftell") {
        ExportKind::Ftell
    } else if str_eq(name, "sceKernelGetDirectMemorySize") {
        ExportKind::Return(DIRECT_MEMORY_SIZE)
    } else if str_eq(name, "sceKernelAllocateDirectMemory") {
        ExportKind::AllocateDirectMemory
    } else if str_eq(name, "sceKernelAllocateMainDirectMemory") {
        ExportKind::AllocateMainDirectMemory
    } else if str_eq(name, "sceKernelMapDirectMemory") {
        ExportKind::MapDirectMemory
    } else if str_eq(name, "sceKernelMunmap") {
        ExportKind::Return(0)
    } else if str_eq(name, "sceKernelReleaseDirectMemory") {
        ExportKind::Return(0)
    } else if str_eq(name, "sceKernelCreateEqueue") {
        ExportKind::CreateEqueue
    } else if str_eq(name, "sceKernelDeleteEqueue") {
        ExportKind::Return(0)
    } else if str_eq(name, "scePthreadMutexDestroy") {
        ExportKind::Return(0)
    } else if str_eq(name, "scePthreadMutexInit") {
        ExportKind::Return(0)
    } else if str_eq(name, "scePthreadMutexLock") {
        ExportKind::Return(0)
    } else if str_eq(name, "scePthreadMutexUnlock") {
        ExportKind::Return(0)
    } else if str_eq(name, "scePthreadCreate") {
        ExportKind::PthreadCreate
    } else if str_eq(name, "sceVideoOutOpen") {
        ExportKind::Return(1)
    } else if str_eq(name, "sceVideoOutSetFlipRate") {
        ExportKind::Return(0)
    } else if str_eq(name, "sceVideoOutClose") {
        ExportKind::Return(0)
    } else if str_eq(name, "sceVideoOutGetResolutionStatus") {
        ExportKind::ResolutionStatus
    } else if str_eq(name, "sceVideoOutSetBufferAttribute") {
        ExportKind::SetBufferAttribute
    } else if str_eq(name, "sceVideoOutRegisterBuffers") {
        ExportKind::RegisterBuffers
    } else if str_eq(name, "sceGnmAddEqEvent") {
        ExportKind::Return(0)
    } else if str_eq(name, "sceGnmDeleteEqEvent") {
        ExportKind::Return(0)
    } else if str_eq(name, "sceGnmDrawInitDefaultHardwareState350") {
        ExportKind::GnmInitHardwareState
    } else if str_eq(name, "sceGnmInsertWaitFlipDone") {
        ExportKind::WaitFlipDone
    } else if str_eq(name, "fzyMKs9kim0") {
        ExportKind::WaitEqueue
    } else if str_eq(name, "fzyMKs9kim0#R#S") {
        ExportKind::WaitEqueue
    } else if str_eq(name, "zwY0YV91TTI") {
        ExportKind::SubmitCommandBuffers
    } else if str_eq(name, "zwY0YV91TTI#R#S") {
        ExportKind::SubmitCommandBuffers
    } else if str_eq(name, "E90Gz79LdBQ") {
        ExportKind::SubmitDone
    } else if str_eq(name, "E90Gz79LdBQ#R#S") {
        ExportKind::SubmitDone
    } else if str_eq(name, "W1Etj-jlW7Y") {
        ExportKind::Return(0)
    } else if str_eq(name, "W1Etj-jlW7Y#B#C") {
        ExportKind::Return(0)
    } else if str_eq(name, "5uFKckiJYRM") {
        ExportKind::Return(0)
    } else if str_eq(name, "5uFKckiJYRM#B#C") {
        ExportKind::Return(0)
    } else if str_eq(name, "+AFvOEXrKJk") {
        ExportKind::Return(0)
    } else if str_eq(name, "+AFvOEXrKJk#B#C") {
        ExportKind::Return(0)
    } else if str_eq(name, "GGsn7jMTxw4") {
        ExportKind::Return(0)
    } else if str_eq(name, "GGsn7jMTxw4#B#C") {
        ExportKind::Return(0)
    } else if str_eq(name, "7qZVNgEu+SY") {
        ExportKind::Return(0)
    } else if str_eq(name, "7qZVNgEu+SY#B#C") {
        ExportKind::Return(0)
    } else if str_eq(name, "gAhCn6UiU4Y") {
        ExportKind::Return(0)
    } else if str_eq(name, "gAhCn6UiU4Y#B#C") {
        ExportKind::Return(0)
    } else if str_eq(name, "HlTPoZ-oY7Y") {
        ExportKind::Return(0)
    } else if str_eq(name, "HlTPoZ-oY7Y#B#C") {
        ExportKind::Return(0)
    } else if str_eq(name, "xbxNatawohc") {
        ExportKind::Return(0)
    } else if str_eq(name, "xbxNatawohc#B#C") {
        ExportKind::Return(0)
    } else if str_eq(name, "yvZ73uQUqrk") {
        ExportKind::Return(0)
    } else if str_eq(name, "yvZ73uQUqrk#B#C") {
        ExportKind::Return(0)
    } else if str_eq(name, "scePadInit") {
        ExportKind::Return(0)
    } else if str_eq(name, "scePadOpen") {
        ExportKind::PadOpen
    } else if str_eq(name, "scePadReadState") {
        ExportKind::PadReadState
    } else if str_eq(name, "scePadClose") {
        ExportKind::Return(0)
    } else if str_eq(name, "sceUserServiceInitialize") {
        ExportKind::Return(0)
    } else if str_eq(name, "sceUserServiceTerminate") {
        ExportKind::Return(0)
    } else if str_eq(name, "sceUserServiceGetInitialUser") {
        ExportKind::InitialUser
    } else if str_eq(name, "sceUserServiceGetEvent") {
        ExportKind::Return(USER_SERVICE_NO_EVENT)
    } else if str_eq(name, "sceUserServiceGetLoginUserIdList") {
        ExportKind::LoginUserIdList
    } else if str_eq(name, "sceSystemServiceHideSplashScreen") {
        ExportKind::Return(0)
    } else if str_eq(name, "sceSystemServiceParamGetInt") {
        ExportKind::Return(0)
    } else if str_eq(name, "sceSysmoduleLoadModule") {
        ExportKind::Return(0)
    } else if str_eq(name, "sceCommonDialogInitialize") {
        ExportKind::Return(0)
    } else if str_eq(name, "sceSaveDataInitialize3") {
        ExportKind::Return(0)
    } else if str_eq(name, "sceSaveDataTerminate") {
        ExportKind::Return(0)
    } else if str_eq(name, "sceNpSetContentRestriction") {
        ExportKind::Return(0)
    } else if str_eq(name, "sceNpSetNpTitleId") {
        ExportKind::Return(0)
    } else if str_eq(name, "sceNpScoreCreateNpTitleCtxA") {
        ExportKind::Return(0)
    } else if str_eq(name, "sceScreenShotSetOverlayImageWithOrigin") {
        ExportKind::Return(0)
    } else if str_eq(name, "sceSystemServiceReceiveEvent") {
        ExportKind::Return(SYSTEM_SERVICE_NO_EVENT)
    } else if str_eq(name, "sceSystemServiceGetStatus") {
        ExportKind::SystemServiceStatus
    } else if str_eq(name, "sceSaveDataDialogUpdateStatus") {
        ExportKind::Return(0)
    } else if str_eq(name, "sceSaveDataDialogGetResult") {
        ExportKind::Return(0)
    } else if str_eq(name, "sceNpTrophyCreateHandle") {
        ExportKind::WriteOne
    } else if str_eq(name, "sceNpTrophyCreateContext") {
        ExportKind::WriteOne
    } else if str_eq(name, "sceAudioOutInit") {
        ExportKind::Return(0)
    } else if str_eq(name, "sceAudioOutOpen") {
        ExportKind::Return(1)
    } else if str_eq(name, "sceNpTrophyRegisterContext") {
        ExportKind::Return(0)
    } else if str_eq(name, "sinf") {
        ExportKind::Sinf
    } else if str_eq(name, "tanf") {
        ExportKind::Tanf
    } else if str_eq(name, "asinf") {
        ExportKind::Asinf
    } else if str_eq(name, "acosf") {
        ExportKind::Acosf
    } else if str_eq(name, "atan2f") {
        ExportKind::Atan2f
    } else if str_eq(name, "rand") {
        ExportKind::Rand
    } else {
        ExportKind::Unhandled
    }
}

/// The exports that return their result in XMM0.
pub open spec fn float_function_spec(name: Seq<char>) -> bool {
    name == "sinf"@ || name == "tanf"@ || name == "asinf"@ || name == "acosf"@ || name == "cosf"@ || name == "sqrtf"@ || name == "atan2f"@ || name == "floorf"@ || name == "ceilf"@ || name == "fabsf"@ || name == "fmodf"@
}

/// Whether an export returns its result in XMM0 (a float).
pub fn is_float_function(name: &str) -> (r: bool)
    ensures
        r == float_function_spec(name@),
{
    str_eq(name, "sinf") || str_eq(name, "tanf") || str_eq(name, "asinf") || str_eq(name, "acosf") || str_eq(name, "cosf") || str_eq(name, "sqrtf") || str_eq(name, "atan2f") || str_eq(name, "floorf") || str_eq(name, "ceilf") || str_eq(name, "fabsf") || str_eq(name, "fmodf")
}

/// The answer of an export that calls for no work: the value of a `Return`, and 0 for an export
/// the library has no implementation of yet; `None` for the others.
pub open spec fn fixed_result(kind: ExportKind) -> Option<u64> {
    match kind {
        ExportKind::Return(v) => Some(v),
        ExportKind::Unhandled => Some(0),
        _ => None,
    }
}

/// The answer of an export that calls for no work (see `fixed_result`).
pub fn fixed_export_result(kind: ExportKind) -> (r: Option<u64>)
    ensures
        r == fixed_result(kind),
{
    match kind {
        ExportKind::Return(v) => Some(v),
        ExportKind::Unhandled => Some(0),
        _ => None,
    }
}

/// The size `malloc` allocates for a request of `len` bytes.
pub fn malloc_size(len: u64) -> (r: u64)
    ensures
        r == if len == 0 {
            DEFAULT_MALLOC_SIZE
        } else {
            len
        },
{
    if len == 0 {
        DEFAULT_MALLOC_SIZE
    } else {
        len
    }
}

/// The answer an export gives from its arguments alone, without touching guest memory, when a
/// pointer argument is null or a length is 0:
/// - `__cxa_guard_acquire` and `__cxa_guard_release` with a null guard: 0, nothing written;
/// - `memcpy`/`memset` with a null pointer or nothing to do: the destination, nothing written;
/// - `strcpy`/`strcat` with a null string: the destination, nothing written;
/// - `strlen` of a null string: 0;
/// - `strcmp` with a null string: 0 when both are null, else 1;
/// - `memcmp` of 0 bytes: 0, else with a null pointer: 1;
/// - `vsnprintf` into a null or empty buffer: 0.
pub open spec fn early_answer_spec(kind: ExportKind, rdi: u64, rsi: u64, rdx: u64) -> Option<u64> {
    match kind {
        ExportKind::GuardAcquire | ExportKind::GuardRelease => if rdi == 0 { Some(0) } else { None },
        ExportKind::Memcpy => if rdi == 0 || rsi == 0 || rdx == 0 { Some(rdi) } else { None },
        ExportKind::Memset => if rdi == 0 || rdx == 0 { Some(rdi) } else { None },
        ExportKind::Strcpy | ExportKind::Strcat => if rdi == 0 || rsi == 0 { Some(rdi) } else { None },
        ExportKind::Strlen => if rdi == 0 { Some(0) } else { None },
        ExportKind::Strcmp => if rdi == 0 || rsi == 0 {
            Some(if rdi == rsi { 0 } else { 1 })
        } else {
            None
        },
        ExportKind::Memcmp => if rdx == 0 {
            Some(0)
        } else if rdi == 0 || rsi == 0 {
            Some(1)
        } else {
            None
        },
        ExportKind::Vsnprintf => if rdi == 0 || rsi == 0 { Some(0) } else { None },
        _ => None,
    }
}

/// The answer an export gives from its arguments alone (see `early_answer_spec`); `None` when
/// it has guest memory to read or write.
pub fn early_answer(kind: ExportKind, rdi: u64, rsi: u64, rdx: u64) -> (r: Option<u64>)
    ensures
        r == early_answer_spec(kind, rdi, rsi, rdx),
{
    match kind {
        ExportKind::GuardAcquire | ExportKind::GuardRelease => if rdi == 0 { Some(0) } else { None },
        ExportKind::Memcpy => if rdi == 0 || rsi == 0 || rdx == 0 { Some(rdi) } else { None },
        ExportKind::Memset => if rdi == 0 || rdx == 0 { Some(rdi) } else { None },
        ExportKind::Strcpy | ExportKind::Strcat => if rdi == 0 || rsi == 0 { Some(rdi) } else { None },
        ExportKind::Strlen => if rdi == 0 { Some(0) } else { None },
        ExportKind::Strcmp => if rdi == 0 || rsi == 0 {
            Some(if rdi == rsi { 0 } else { 1 })
        } else {
            None
        },
        ExportKind::Memcmp => if rdx == 0 {
            Some(0)
        } else if rdi == 0 || rsi == 0 {
            Some(1)
        } else {
            None
        },
        ExportKind::Vsnprintf => if rdi == 0 || rsi == 0 { Some(0) } else { None },
        _ => None,
    }
}

/// The most bytes `strcpy` and `strcat` copy past the first before they give up on a string
/// with no terminator (1 MiB).
pub const C_STRING_COPY_LIMIT: usize = 0x100000;

/// Whether a C-string copy goes on after copying `byte` as its byte number `index`: not after
/// the terminator, nor past the limit.
pub fn string_copy_goes_on(byte: u8, index: usize) -> (r: bool)
    ensures
        r == (byte != 0 && index < C_STRING_COPY_LIMIT),
{
    byte != 0 && index < C_STRING_COPY_LIMIT
}

/// Whether `strcat`, looking for the end of the destination string, goes on to its byte
/// `index` (the bytes before it not being the terminator): not past the limit.
pub fn string_scan_goes_on(index: usize) -> (r: bool)
    ensures
        r == (index <= C_STRING_COPY_LIMIT),
{
    index <= C_STRING_COPY_LIMIT
}

/// What `sceGnmDrawInitDefaultHardwareState350` returns for a command buffer at `cmdbuf` of
/// `size` words: the packet size it filled (0x100 words), or 0 for a null or too small buffer,
/// which tells the caller that nothing was filled.
pub fn gnm_init_answer(cmdbuf: u64, size: u32) -> (r: u64)
    ensures
        r == if cmdbuf != 0 && size >= HW_INIT_PACKET_SIZE {
            0x100u64
        } else {
            0u64
        },
{
    if cmdbuf != 0 && size >= HW_INIT_PACKET_SIZE {
        0x100
    } else {
        0
    }
}

/// The guard after `__cxa_guard_acquire` on a guard holding `v`: set to 1 when it was 0.
pub open spec fn guard_after_acquire(v: i64) -> i64 {
    if v == 0 {
        1
    } else {
        v
    }
}

/// What `__cxa_guard_acquire` returns on a guard holding `v`: 1 (the caller must initialise)
/// when it was 0, else 0 (already initialised).
pub open spec fn acquire_result(v: i64) -> u64 {
    if v == 0 {
        1
    } else {
        0
    }
}

/// The guard after `__cxa_guard_release` on a guard holding `v`: its first byte (the
/// "initialised" flag, the guard being little-endian) set to 1.
pub open spec fn guard_after_release(v: i64) -> i64 {
    (v & !0xFFi64) | 1i64
}

/// `__cxa_guard_acquire` on a guard holding `guard_value`: the guard's new value and the result.
pub fn cxa_guard_acquire(guard_value: i64) -> (r: (i64, u64))
    ensures
        r == (guard_after_acquire(guard_value), acquire_result(guard_value)),
{
    if guard_value == 0 {
        (1, 1)
    } else {
        (guard_value, 0)
    }
}

/// `__cxa_guard_release` on a guard holding `guard_value`: the guard's new value.
pub fn cxa_guard_release(guard_value: i64) -> (r: i64)
    ensures
        r == guard_after_release(guard_value),
{
    (guard_value & !0xFFi64) | 1i64
}

/// The guard protocol: the first acquire of a fresh guard tells the caller to initialise and
/// sets the guard; any acquire after an acquire, or after a release, returns 0 and leaves the
/// guard as it is.
pub proof fn law_guard_protocol(v: i64)
    ensures
        acquire_result(0) == 1 && guard_after_acquire(0) == 1,
        acquire_result(guard_after_acquire(v)) == 0,
        guard_after_acquire(guard_after_acquire(v)) == guard_after_acquire(v),
        acquire_result(guard_after_release(v)) == 0,
        guard_after_acquire(guard_after_release(v)) == guard_after_release(v),
{
    assert(((v & !0xFFi64) | 1i64) != 0i64) by (bit_vector);
}

/// Byte-wise lexicographic comparison: -1, 0 or 1.
pub open spec fn lex_order(a: Seq<u8>, b: Seq<u8>) -> int
    decreases a.len(),
{
    if a.len() == 0 && b.len() == 0 {
        0
    } else if a.len() == 0 {
        -1
    } else if b.len() == 0 {
        1
    } else if a[0] < b[0] {
        -1
    } else if a[0] > b[0] {
        1
    } else {
        lex_order(a.drop_first(), b.drop_first())
    }
}

/// `strcmp` of two C strings (their bytes without the terminator): 0 when equal, 1 when the
/// first is greater, and -1 (as a 64-bit register) when it is smaller.
pub fn c_string_order(s1: &[u8], s2: &[u8]) -> (r: u64)
    ensures
        lex_order(s1@, s2@) == 0 ==> r == 0,
        lex_order(s1@, s2@) == 1 ==> r == 1,
        lex_order(s1@, s2@) == -1 ==> r == u64::MAX,
{
    let mut i: usize = 0;
    assert(s1@.skip(0) =~= s1@);
    assert(s2@.skip(0) =~= s2@);
    while i < s1.len() && i < s2.len()
        invariant
            i <= s1@.len(),
            i <= s2@.len(),
            lex_order(s1@.skip(i as int), s2@.skip(i as int)) == lex_order(s1@, s2@),
        decreases s1.len() - i,
    {
        if s1[i] < s2[i] {
            return u64::MAX;
        }
        if s1[i] > s2[i] {
            return 1;
        }
        proof {
            assert(s1@.skip(i as int).drop_first() =~= s1@.skip(i + 1));
            assert(s2@.skip(i as int).drop_first() =~= s2@.skip(i + 1));
        }
        i = i + 1;
    }
    if s1.len() == s2.len() {
        0
    } else if i == s1.len() {
        u64::MAX
    } else {
        1
    }
}

/// How many bytes `vsnprintf` copies of a format string of `fmt_len` bytes into a buffer of
/// `size` bytes: all that fit before the terminator.
pub fn vsnprintf_copy_len(fmt_len: usize, size: usize) -> (r: usize)
    requires
        size >= 1,
    ensures
        r == if fmt_len < size - 1 {
            fmt_len
        } else {
            (size - 1) as usize
        },
{
    if fmt_len < size - 1 {
        fmt_len
    } else {
        size - 1
    }
}

/// The bytes `fread` asks for (`size` times `count`), or `None` when that overflows.
pub fn fread_total(size: usize, count: usize) -> (r: Option<usize>)
    ensures
        size * count <= usize::MAX ==> r == Some((size * count) as usize),
        size * count > usize::MAX ==> r is None,
{
    size.checked_mul(count)
}

/// The whole items `fread` reports for `bytes_read` bytes of items of `size` bytes.
pub fn fread_items(bytes_read: usize, size: usize) -> (r: u64)
    requires
        size > 0,
    ensures
        r == bytes_read / size,
{
    (bytes_read / size) as u64
}

/// Where `fseek` moves to.
#[derive(Debug, Clone, Copy, PartialEq, Eq, Structural)]
pub enum SeekTarget {
    /// From the start.
    Start(u64),
    /// From the current position.
    Current(i64),
    /// From the end.
    End(i64),
}

/// The seek `fseek` makes for `whence` (0: set, 1: current, 2: end); `None` for another
/// `whence`.
pub fn seek_target(whence: i32, offset: i64) -> (r: Option<SeekTarget>)
    ensures
        whence == 0 ==> r == Some(SeekTarget::Start(offset as u64)),
        whence == 1 ==> r == Some(SeekTarget::Current(offset)),
        whence == 2 ==> r == Some(SeekTarget::End(offset)),
        whence != 0 && whence != 1 && whence != 2 ==> r is None,
{
    if whence == 0 {
        Some(SeekTarget::Start(offset as u64))
    } else if whence == 1 {
        Some(SeekTarget::Current(offset))
    } else if whence == 2 {
        Some(SeekTarget::End(offset))
    } else {
        None
    }
}

/// The byte at offset `i` of the reported resolution status: full and pane size 1920x1080 as
/// little-endian 32-bit words, then zeros.
pub open spec fn resolution_status_byte(i: int) -> u8 {
    if i == 0 || i == 8 {
        0x80u8
    } else if i == 1 || i == 9 {
        0x07u8
    } else if i == 4 || i == 12 {
        0x38u8
    } else if i == 5 || i == 13 {
        0x04u8
    } else {
        0u8
    }
}

/// The 32 bytes of the reported resolution status.
pub fn resolution_status_bytes() -> (r: Vec<u8>)
    ensures
        r@.len() == 32,
        forall|i: int| 0 <= i < 32 ==> #[trigger] r@[i] == resolution_status_byte(i),
{
    let mut v: Vec<u8> = Vec::new();
    let mut i: usize = 0;
    while i < 32
        invariant
            i <= 32,
            v@.len() == i,
            forall|k: int| 0 <= k < i ==> #[trigger] v@[k] == resolution_status_byte(k),
        decreases 32 - i,
    {
        let b: u8 = if i == 0 || i == 8 {
            0x80
        } else if i == 1 || i == 9 {
            0x07
        } else if i == 4 || i == 12 {
            0x38
        } else if i == 5 || i == 13 {
            0x04
        } else {
            0
        };
        v.push(b);
        i = i + 1;
    }
    v
}

/// The seven words of a video-out buffer attribute: pixel format, tiling mode, aspect ratio,
/// width, height, pitch in pixels (the 7th argument, or the width when it is 0) and option 0.
pub fn buffer_attribute_words(
    pixel_format: u64,
    tiling_mode: u64,
    aspect_ratio: u64,
    width: u64,
    height: u64,
    stack_arg7: u64,
) -> (r: [u32; 7])
    ensures
        r@ == seq![
            pixel_format as u32,
            tiling_mode as u32,
            aspect_ratio as u32,
            width as u32,
            height as u32,
            if stack_arg7 != 0 {
                stack_arg7 as u32
            } else {
                width as u32
            },
            0u32,
        ],
{
    let pitch = if stack_arg7 != 0 {
        stack_arg7 as u32
    } else {
        width as u32
    };
    let r = [
        pixel_format as u32,
        tiling_mode as u32,
        aspect_ratio as u32,
        width as u32,
        height as u32,
        pitch,
        0u32,
    ];
    assert(r@ =~= seq![
        pixel_format as u32,
        tiling_mode as u32,
        aspect_ratio as u32,
        width as u32,
        height as u32,
        pitch,
        0u32,
    ]);
    r
}

/// The size, in words, of the default hardware-state packets.
pub const HW_INIT_PACKET_SIZE: u32 = 0x100;

/// A PM4 `NOP` header with an empty body.
pub const PM4_NOP_HEADER: u32 = 0xC0001000;

/// The PM4 packets that set the GPU's default hardware state.
pub open spec fn hw_init_sequence() -> Seq<u32> {
    seq![
        0xc0001200u32,
        0x00000000u32,
        0xc0017600u32,
        0x00000216u32,
        0xffffffffu32,
        0xc0017600u32,
        0x00000217u32,
        0xffffffffu32,
        0xc0017600u32,
        0x00000215u32,
        0x00000000u32,
        0xc0016900u32,
        0x000002f9u32,
        0x0000002du32,
        0xc0016900u32,
        0x00000282u32,
        0x00000008u32,
        0xc0016900u32,
        0x00000280u32,
        0x00080008u32,
        0xc0016900u32,
        0x00000281u32,
        0xffff0000u32,
        0xc0016900u32,
        0x00000204u32,
        0x00000000u32,
        0xc0016900u32,
        0x00000206u32,
        0x0000043fu32,
        0xc0016900u32,
        0x00000083u32,
        0x0000ffffu32,
        0xc0016900u32,
        0x00000317u32,
        0x00000010u32,
        0xc0016900u32,
        0x000002fau32,
        0x3f800000u32,
        0xc0016900u32,
        0x000002fcu32,
        0x3f800000u32,
        0xc0016900u32,
        0x000002fbu32,
        0x3f800000u32,
        0xc0016900u32,
        0x000002fdu32,
        0x3f800000u32,
        0xc0016900u32,
        0x00000202u32,
        0x00cc0010u32,
        0xc0016900u32,
        0x0000030eu32,
        0xffffffffu32,
        0xc0016900u32,
        0x0000030fu32,
        0xffffffffu32,
        0xc0002f00u32,
        0x00000001u32,
        0xc0017600u32,
        0x00000007u32,
        0x001701ffu32,
        0xc0017600u32,
        0x00000046u32,
        0x001701fdu32,
        0xc0017600u32,
        0x00000087u32,
        0x001701ffu32,
        0xc0017600u32,
        0x000000c7u32,
        0x001701fdu32,
        0xc0017600u32,
        0x00000107u32,
        0x00000017u32,
        0xc0017600u32,
        0x00000147u32,
        0x001701fdu32,
        0xc0017600u32,
        0x00000047u32,
        0x0000001cu32,
        0xc0016900u32,
        0x000001b1u32,
        0x00000002u32,
        0xc0016900u32,
        0x00000101u32,
        0x00000000u32,
        0xc0016900u32,
        0x00000100u32,
        0xffffffffu32,
        0xc0016900u32,
        0x00000103u32,
        0x00000000u32,
        0xc0016900u32,
        0x00000284u32,
        0x00000000u32,
        0xc0016900u32,
        0x00000290u32,
        0x00000000u32,
        0xc0016900u32,
        0x000002aeu32,
        0x00000000u32,
        0xc0016900u32,
        0x00000102u32,
        0x00000000u32,
        0xc0016900u32,
        0x00000292u32,
        0x00000000u32,
        0xc0016900u32,
        0x00000293u32,
        0x06020000u32,
        0xc0016900u32,
        0x000002f8u32,
        0x00000000u32,
        0xc0016900u32,
        0x000002deu32,
        0x000001e9u32,
        0xc0036900u32,
        0x00000295u32,
        0x00000100u32,
        0x00000100u32,
        0x00000004u32,
        0xc0017900u32,
        0x00000200u32,
        0xe0000000u32,
        0xc0016900u32,
        0x000002aau32,
        0x000000ffu32,
    ]
}

/// Word `i` of the default hardware-state packets: the state packets, then empty `NOP`
/// packets up to 256 words.
pub open spec fn hw_init_word(i: int) -> u32 {
    if i < hw_init_sequence().len() {
        hw_init_sequence()[i]
    } else if (i - hw_init_sequence().len()) % 2 == 0 {
        PM4_NOP_HEADER
    } else {
        0u32
    }
}

/// `sceGnmDrawInitDefaultHardwareState350` into a buffer of `size` words: the 256 words of the
/// default hardware-state packets, or `None` when the buffer is smaller.
pub fn gnm_init_default_hw_state(size: u32) -> (r: Option<Vec<u32>>)
    ensures
        size < HW_INIT_PACKET_SIZE ==> r is None,
        size >= HW_INIT_PACKET_SIZE ==> (r matches Some(v) && v@.len() == HW_INIT_PACKET_SIZE
            && forall|i: int| 0 <= i < HW_INIT_PACKET_SIZE ==> #[trigger] v@[i] == hw_init_word(i)),
{
    if size < HW_INIT_PACKET_SIZE {
        return None;
    }
    let mut v: Vec<u32> = vec![
        0xc0001200u32,
        0x00000000u32,
        0xc0017600u32,
        0x00000216u32,
        0xffffffffu32,
        0xc0017600u32,
        0x00000217u32,
        0xffffffffu32,
        0xc0017600u32,
        0x00000215u32,
        0x00000000u32,
        0xc0016900u32,
        0x000002f9u32,
        0x0000002du32,
        0xc0016900u32,
        0x00000282u32,
        0x00000008u32,
        0xc0016900u32,
        0x00000280u32,
        0x00080008u32,
        0xc0016900u32,
        0x00000281u32,
        0xffff0000u32,
        0xc0016900u32,
        0x00000204u32,
        0x00000000u32,
        0xc0016900u32,
        0x00000206u32,
        0x0000043fu32,
        0xc0016900u32,
        0x00000083u32,
        0x0000ffffu32,
        0xc0016900u32,
        0x00000317u32,
        0x00000010u32,
        0xc0016900u32,
        0x000002fau32,
        0x3f800000u32,
        0xc0016900u32,
        0x000002fcu32,
        0x3f800000u32,
        0xc0016900u32,
        0x000002fbu32,
        0x3f800000u32,
        0xc0016900u32,
        0x000002fdu32,
        0x3f800000u32,
        0xc0016900u32,
        0x00000202u32,
        0x00cc0010u32,
        0xc0016900u32,
        0x0000030eu32,
        0xffffffffu32,
        0xc0016900u32,
        0x0000030fu32,
        0xffffffffu32,
        0xc0002f00u32,
        0x00000001u32,
        0xc0017600u32,
        0x00000007u32,
        0x001701ffu32,
        0xc0017600u32,
        0x00000046u32,
        0x001701fdu32,
        0xc0017600u32,
        0x00000087u32,
        0x001701ffu32,
        0xc0017600u32,
        0x000000c7u32,
        0x001701fdu32,
        0xc0017600u32,
        0x00000107u32,
        0x00000017u32,
        0xc0017600u32,
        0x00000147u32,
        0x001701fdu32,
        0xc0017600u32,
        0x00000047u32,
        0x0000001cu32,
        0xc0016900u32,
        0x000001b1u32,
        0x00000002u32,
        0xc0016900u32,
        0x00000101u32,
        0x00000000u32,
        0xc0016900u32,
        0x00000100u32,
        0xffffffffu32,
        0xc0016900u32,
        0x00000103u32,
        0x00000000u32,
        0xc0016900u32,
        0x00000284u32,
        0x00000000u32,
        0xc0016900u32,
        0x00000290u32,
        0x00000000u32,
        0xc0016900u32,
        0x000002aeu32,
        0x00000000u32,
        0xc0016900u32,
        0x00000102u32,
        0x00000000u32,
        0xc0016900u32,
        0x00000292u32,
        0x00000000u32,
        0xc0016900u32,
        0x00000293u32,
        0x06020000u32,
        0xc0016900u32,
        0x000002f8u32,
        0x00000000u32,
        0xc0016900u32,
        0x000002deu32,
        0x000001e9u32,
        0xc0036900u32,
        0x00000295u32,
        0x00000100u32,
        0x00000100u32,
        0x00000004u32,
        0xc0017900u32,
        0x00000200u32,
        0xe0000000u32,
        0xc0016900u32,
        0x000002aau32,
        0x000000ffu32,
    ];
    assert(v@ =~= hw_init_sequence());
    let n = v.len();
    assert(n == 126);
    while v.len() < HW_INIT_PACKET_SIZE as usize
        invariant
            126 <= v@.len() <= HW_INIT_PACKET_SIZE,
            v@.len() % 2 == 0,
            hw_init_sequence().len() == 126,
            forall|i: int| 0 <= i < v@.len() ==> #[trigger] v@[i] == hw_init_word(i),
        decreases HW_INIT_PACKET_SIZE - v@.len(),
    {
        v.push(PM4_NOP_HEADER);
        v.push(0);
    }
    Some(v)
}

/// The size, in words, of the wait-for-flip packet.
pub const WAIT_FLIP_PACKET_SIZE: usize = 7;

/// `sceGnmInsertWaitFlipDone`: a 7-word `NOP` packet (its header counts five body words past
/// the first).
pub fn wait_flip_done_packet() -> (r: Vec<u32>)
    ensures
        r@ == seq![0xC0051000u32, 0u32, 0u32, 0u32, 0u32, 0u32, 0u32],
{
    let count: u32 = (WAIT_FLIP_PACKET_SIZE - 1) as u32 - 1;
    assert(count == 5);
    let header: u32 = PM4_NOP_HEADER | (count << 16);
    assert(header == 0xC0051000u32) by (bit_vector)
        requires
            header == 0xC0001000u32 | (count << 16u32),
            count == 5,
    ;
    let r = vec![header, 0, 0, 0, 0, 0, 0];
    r
}

/// The handle `scePadOpen` returns for pad `index`: the index plus one, at least 1.
pub fn pad_open_handle(index: i32) -> (r: u64)
    requires
        index < i32::MAX,
    ensures
        r == if index + 1 >= 1 {
            (index + 1) as u64
        } else {
            1u64
        },
{
    let h = index + 1;
    if h >= 1 {
        h as u64
    } else {
        1
    }
}

/// The size of the controller state written.
pub const PAD_STATE_SIZE: usize = 80;

/// Byte `i` of a neutral controller state: both sticks centred (128), connected, no buttons.
pub open spec fn pad_state_byte(i: int) -> u8 {
    if 4 <= i < 8 {
        128u8
    } else if i == 19 {
        1u8
    } else {
        0u8
    }
}

/// A neutral controller state: no buttons pressed, sticks centred, connected.
pub fn pad_neutral_state() -> (r: Vec<u8>)
    ensures
        r@.len() == PAD_STATE_SIZE,
        forall|i: int| 0 <= i < PAD_STATE_SIZE ==> #[trigger] r@[i] == pad_state_byte(i),
{
    let mut v: Vec<u8> = Vec::new();
    let mut i: usize = 0;
    while i < PAD_STATE_SIZE
        invariant
            i <= PAD_STATE_SIZE,
            v@.len() == i,
            forall|k: int| 0 <= k < i ==> #[trigger] v@[k] == pad_state_byte(k),
        decreases PAD_STATE_SIZE - i,
    {
        let b: u8 = if 4 <= i && i < 8 {
            128
        } else if i == 19 {
            1
        } else {
            0
        };
        v.push(b);
        i = i + 1;
    }
    v
}

/// The logged-in users reported: user 1, then no more.
pub fn login_user_id_list() -> (r: [i32; 4])
    ensures
        r@ == seq![1i32, -1i32, -1i32, -1i32],
{
    let r = [1i32, -1, -1, -1];
    assert(r@ =~= seq![1i32, -1i32, -1i32, -1i32]);
    r
}

/// The first state of `rand`.
pub const RAND_SEED: u64 = 12345;

/// One step of `rand`'s linear congruential generator: the next state
/// (`state * 1103515245 + 12345`, wrapping) and the value returned (bits 16 to 46 of it).
pub open spec fn rand_step(state: u64) -> (u64, u64) {
    let next = ((state * 1103515245 + 12345) % 0x1_0000_0000_0000_0000) as u64;
    (next, (next >> 16u64) & 0x7FFF_FFFF)
}

/// One step of `rand`.
pub fn rand_next(state: u64) -> (r: (u64, u64))
    ensures
        r == rand_step(state),
        r.1 <= 0x7FFF_FFFF,
{
    let m = state.wrapping_mul(1103515245);
    let next = m.wrapping_add(12345);
    proof {
        assert(next == ((state * 1103515245 + 12345) % 0x1_0000_0000_0000_0000) as u64) by (nonlinear_arith)
            requires
                m == (state * 1103515245) % 0x1_0000_0000_0000_0000,
                next == (m + 12345) % 0x1_0000_0000_0000_0000,
        ;
    }
    let value = (next >> 16) & 0x7FFF_FFFF;
    assert(value <= 0x7FFF_FFFF) by (bit_vector)
        requires
            value == (next >> 16u64) & 0x7FFF_FFFF,
    ;
    (next, value)
}

/// Whether a command buffer submission is looked at: 1 to 99 buffers, with the address and
/// size tables past the first 64 KiB and aligned (8 and 4 bytes).
pub fn submit_buffers_valid(count: u32, dcb_addrs: u64, dcb_sizes: u64) -> (r: bool)
    ensures
        r == (count > 0 && count < 100 && dcb_addrs > 0x10000 && dcb_addrs % 8 == 0 && dcb_sizes
            > 0x10000 && dcb_sizes % 4 == 0),
{
    count > 0 && count < 100 && dcb_addrs > 0x10000 && dcb_addrs % 8 == 0 && dcb_sizes > 0x10000
        && dcb_sizes % 4 == 0
}

/// The words of a submitted command buffer to process: its size in words, when the buffer lies
/// past the first 64 KiB and holds 1 to 0xFFFFFF words.
pub fn dcb_words(ptr: u64, size_bytes: u32) -> (r: Option<u32>)
    ensures
        r == if ptr != 0 && ptr > 0x10000 && size_bytes / 4 > 0 && size_bytes / 4 < 0x1000000 {
            Some(size_bytes / 4)
        } else {
            None
        },
{
    let dw = size_bytes / 4;
    if ptr != 0 && ptr > 0x10000 && dw > 0 && dw < 0x1000000 {
        Some(dw)
    } else {
        None
    }
}

/// The stack pointer a new guest thread starts with: the top of its stack aligned down to 16
/// bytes, less 8 (as after a call).
pub fn thread_entry_rsp(stack_base: u64, stack_size: u64) -> (r: u64)
    requires
        stack_base + stack_size <= u64::MAX,
        stack_base + stack_size >= 16,
    ensures
        r == (((stack_base + stack_size) as u64) & !0xFu64) - 8,
{
    let top = stack_base + stack_size;
    let aligned = top & !0xF;
    assert(aligned >= 8) by (bit_vector)
        requires
            aligned == top & !0xFu64,
            top >= 16,
    ;
    aligned - 8
}

/// A physical range mapped at a virtual address.
#[derive(Debug, Clone, Copy, PartialEq, Eq, Structural)]
pub struct PhysMappingEntry {
    pub phys_start: u64,
    pub virt_start: u64,
    pub size: u64,
}

/// The virtual address of `phys` through the first mapping that contains it.
pub open spec fn phys_to_virt_from(m: Seq<PhysMappingEntry>, phys: u64, i: int) -> Option<u64>
    decreases m.len() - i,
{
    if i < 0 || i >= m.len() {
        None
    } else if m[i].phys_start <= phys < m[i].phys_start + m[i].size {
        Some((m[i].virt_start + (phys - m[i].phys_start)) as u64)
    } else {
        phys_to_virt_from(m, phys, i + 1)
    }
}

/// The physical-to-virtual mappings made by the direct memory exports.
pub struct PhysMappings {
    entries: Vec<PhysMappingEntry>,
}

impl PhysMappings {
    /// The mappings, in registration order.
    pub closed spec fn entries(&self) -> Seq<PhysMappingEntry> {
        self.entries@
    }

    /// Every mapping's physical and virtual ranges end within 64 bits.
    pub closed spec fn wf(&self) -> bool {
        forall|i: int|
            0 <= i < self.entries@.len() ==> #[trigger] self.entries@[i].phys_start
                + self.entries@[i].size <= u64::MAX && self.entries@[i].virt_start
                + self.entries@[i].size <= u64::MAX
    }

    pub fn new() -> (r: Self)
        ensures
            r.wf(),
            r.entries() == Seq::<PhysMappingEntry>::empty(),
    {
        PhysMappings { entries: Vec::new() }
    }

    /// Records that `size` bytes of physical memory at `phys` are mapped at `virt_addr`.
    pub fn register_phys_mapping(&mut self, phys: u64, virt_addr: u64, size: u64)
        requires
            old(self).wf(),
            phys + size <= u64::MAX,
            virt_addr + size <= u64::MAX,
        ensures
            final(self).wf(),
            final(self).entries() == old(self).entries().push(
                PhysMappingEntry { phys_start: phys, virt_start: virt_addr, size },
            ),
    {
        self.entries.push(PhysMappingEntry { phys_start: phys, virt_start: virt_addr, size });
    }

    /// The virtual address of a physical address, through the first mapping containing it.
    pub fn phys_to_virt(&self, phys: u64) -> (r: Option<u64>)
        requires
            self.wf(),
        ensures
            r == phys_to_virt_from(self.entries(), phys, 0),
    {
        let mut i: usize = 0;
        while i < self.entries.len()
            invariant
                i <= self.entries@.len(),
                self.wf(),
                phys_to_virt_from(self.entries@, phys, i as int) == phys_to_virt_from(
                    self.entries@,
                    phys,
                    0,
                ),
            decreases self.entries.len() - i,
        {
            let e = self.entries[i];
            assert(e.phys_start + e.size <= u64::MAX && e.virt_start + e.size <= u64::MAX);
            if phys >= e.phys_start && phys < e.phys_start + e.size {
                return Some(e.virt_start + (phys - e.phys_start));
            }
            i = i + 1;
        }
        None
    }
}

/// The translation through a single mapping.
pub open spec fn through(e: PhysMappingEntry, phys: u64) -> Option<u64> {
    if e.phys_start <= phys < e.phys_start + e.size {
        Some((e.virt_start + (phys - e.phys_start)) as u64)
    } else {
        None
    }
}

proof fn lemma_phys_to_virt_push(m: Seq<PhysMappingEntry>, e: PhysMappingEntry, phys: u64, i: int)
    requires
        0 <= i <= m.len(),
    ensures
        phys_to_virt_from(m.push(e), phys, i) == match phys_to_virt_from(m, phys, i) {
            Some(v) => Some(v),
            None => through(e, phys),
        },
    decreases m.len() - i,
{
    let n = m.push(e);
    if i < m.len() {
        assert(n[i] == m[i]);
        lemma_phys_to_virt_push(m, e, phys, i + 1);
    } else {
        assert(n[i] == e);
        assert(phys_to_virt_from(n, phys, i + 1) is None);
    }
}

/// A new mapping comes after those made before it: an address that an earlier mapping
/// contains still translates through that one, and any other address translates through the
/// new mapping when it contains it.
pub proof fn law_mapping_registered_last(m: Seq<PhysMappingEntry>, e: PhysMappingEntry, phys: u64)
    ensures
        phys_to_virt_from(m.push(e), phys, 0) == match phys_to_virt_from(m, phys, 0) {
            Some(v) => Some(v),
            None => through(e, phys),
        },
{
    lemma_phys_to_virt_push(m, e, phys, 0);
}

/// Mounts a guest path prefix on a host directory for the C file exports.
pub fn mount_filesystem(mounts: &mut FileSystem, ps4_prefix: &str, host_path: &[u8])
    requires
        old(mounts).wf(),
    ensures
        final(mounts).wf(),
        final(mounts).mounts() == mount_spec(old(mounts).mounts(), ps4_prefix.spec_bytes(), host_path@),
        final(mounts).files() == old(mounts).files(),
{
    mounts.mount(ps4_prefix, host_path);
}

/// Resolves a guest path (such as `/app0/clean_vv.sb`) to a host path for the C file exports.
pub fn resolve_ps4_path(mounts: &FileSystem, ps4_path: &str) -> (r: Option<Vec<u8>>)
    ensures
        match r {
            Some(v) => resolve_spec(mounts.mounts(), ps4_path.spec_bytes()) == Some(v@),
            None => resolve_spec(mounts.mounts(), ps4_path.spec_bytes()) is None,
        },
{
    mounts.resolve_path(ps4_path)
}

} // verus!
