use anotherps4::kernel::equeue::{Event, EventFilter, EventQueue};
use anotherps4::kernel::filesystem::FileSystem;
use anotherps4::kernel::threading::{sce_pthread_create, sce_pthread_self, ThreadAttr, ThreadManager};
use anotherps4::kernel::time::{
    sce_kernel_clock_gettime, sce_kernel_get_process_time, sce_kernel_get_process_time_counter,
    sce_kernel_get_process_time_counter_frequency, sce_kernel_get_tsc_frequency,
    sce_kernel_gettimeofday,
};
use anotherps4::kernel::{OrbisError, PosixError};

fn event(ident: u64) -> Event {
    Event { ident, filter: EventFilter::User.value(), flags: 0, fflags: 0, data: 0, udata: ident * 2 }
}

#[test]
fn orbis_error_codes() {
    assert_eq!(OrbisError::ENOMEM as u32, 0x8002000C);
    assert_eq!(OrbisError::EBADF as u32, 0x80020009);
    assert_eq!(i32::from(OrbisError(OrbisError::EINVAL)), OrbisError::EINVAL);
    assert_eq!(PosixError::ENOSYS, 78);
}

#[test]
fn threads_get_increasing_ids() {
    let mut m = ThreadManager::new();
    let attr = ThreadAttr::default();
    assert_eq!(attr.name, "OrbisThread");
    assert_eq!(attr.stack_size, 2 * 1024 * 1024);
    assert_eq!(attr.priority, 700);
    assert_eq!(attr.affinity_mask, 0xFF);
    assert_eq!(m.create_thread(&attr, 0x1000, 0), Ok(1));
    assert_eq!(m.create_thread(&attr, 0x2000, 0), Ok(2));
    let mut out = 0u64;
    assert_eq!(sce_pthread_create(&mut m, &attr, 0x3000, 7, &mut out), 0);
    assert_eq!(out, 3);
    assert_eq!(m.thread_count(), 3);
}

#[test]
fn time_values() {
    assert_eq!(sce_kernel_get_tsc_frequency(), 1_600_000_000);
    assert_eq!(sce_kernel_get_process_time_counter_frequency(), 1_000_000_000);
    assert_eq!(sce_kernel_get_process_time(2, 345_678_901), 2_345_678);
    assert_eq!(sce_kernel_get_process_time_counter(2, 345_678_901), 2_345_678_901);
    let (mut s, mut ns) = (0i64, 0i64);
    assert_eq!(sce_kernel_clock_gettime(0, 100, 5, 3, 9, &mut s, &mut ns), 0);
    assert_eq!((s, ns), (100, 5));
    assert_eq!(sce_kernel_clock_gettime(4, 100, 5, 3, 9, &mut s, &mut ns), 0);
    assert_eq!((s, ns), (3, 9));
    assert_eq!(sce_kernel_clock_gettime(1, 100, 5, 7, 7, &mut s, &mut ns), -1);
    assert_eq!((s, ns), (3, 9));
    let (mut sec, mut usec) = (0i64, 0i64);
    assert_eq!(sce_kernel_gettimeofday(1_700_000_000, 123_456_789, &mut sec, &mut usec), 0);
    assert_eq!((sec, usec), (1_700_000_000, 123_456));
}

#[test]
fn event_filter_values() {
    assert_eq!(EventFilter::Display.value(), -14);
    assert_eq!(EventFilter::from_value(-7), Some(EventFilter::Timer));
    assert_eq!(EventFilter::from_value(5), None);
}

#[test]
fn event_queue_hands_out_events_in_order() {
    let mut q = EventQueue::new("vblank");
    assert_eq!(q.name, "vblank");
    q.add_event(event(9));
    assert_eq!(q.pending_count(), 0);
    q.trigger_event(event(1));
    q.trigger_event(event(2));
    q.trigger_event(event(3));
    assert_eq!(q.wait_sleep_nanos(Some(1_000_000_000)), None);
    let first = q.wait(2);
    assert_eq!(first, vec![event(1), event(2)]);
    assert_eq!(q.pending_count(), 1);
    assert_eq!(q.wait(10), vec![event(3)]);
    assert_eq!(q.wait(10), vec![]);
    assert_eq!(q.wait_sleep_nanos(Some(1_000_000_000)), Some(16_000_000));
    assert_eq!(q.wait_sleep_nanos(Some(5)), Some(5));
    assert_eq!(q.wait_sleep_nanos(None), None);
}

#[test]
fn filesystem_resolves_through_mounts() {
    let mut fs = FileSystem::new();
    fs.mount("/app0", b"/games/sonic");
    fs.mount("/savedata0", b"/saves/");
    assert_eq!(fs.resolve_path("/app0/eboot.bin"), Some(b"/games/sonic/eboot.bin".to_vec()));
    assert_eq!(fs.resolve_path("/app0//sce_module/x.prx"), Some(b"/games/sonic/sce_module/x.prx".to_vec()));
    assert_eq!(fs.resolve_path("/app0"), Some(b"/games/sonic/".to_vec()));
    assert_eq!(fs.resolve_path("/savedata0/a"), Some(b"/saves/a".to_vec()));
    assert_eq!(fs.resolve_path("/dev/null"), None);
    fs.mount("/app0", b"/other");
    assert_eq!(fs.resolve_path("/app0/x"), Some(b"/other/x".to_vec()));
}

#[test]
fn filesystem_descriptors() {
    let mut fs = FileSystem::default();
    fs.mount("/app0", b"/g");
    assert_eq!(fs.open("/app0/a", 0, 0, true), 3);
    assert_eq!(fs.open("/app0/missing", 0, 0, false), OrbisError::ENOENT);
    assert_eq!(fs.open("/dev/dipsw", 0, 0, false), 4);
    assert_eq!(fs.open("/nowhere", 0, 0, true), OrbisError::ENOENT);
    assert_eq!(fs.open_count(), 2);
    // Reads and writes.
    assert_eq!(fs.read(3, Some(10)), 10);
    assert_eq!(fs.read(3, None), -1);
    assert_eq!(fs.read(4, Some(10)), 0);
    assert_eq!(fs.read(99, Some(1)), OrbisError::EBADF as i64);
    assert_eq!(fs.write(1, 12, None), 12);
    assert_eq!(fs.write(2, 5, None), 5);
    assert_eq!(fs.write(4, 8, None), 8);
    assert_eq!(fs.write(3, 8, Some(6)), 6);
    assert_eq!(fs.write(77, 8, Some(6)), OrbisError::EBADF as i64);
    // Closing.
    assert_eq!(fs.close(3), 0);
    assert_eq!(fs.close(3), OrbisError::EBADF);
    assert_eq!(fs.read(3, Some(1)), OrbisError::EBADF as i64);
    assert_eq!(fs.open_count(), 1);
    assert_eq!(fs.open("/app0/b", 0, 0, true), 5);
}

#[test]
fn pthread_self_is_the_thread_id() {
    assert_eq!(sce_pthread_self(4242), 4242);
    assert_ne!(sce_pthread_self(1), sce_pthread_self(2));
}
