//! Tests of socket-name allocation and the accept loop's policy.

use std::collections::HashSet;

use jay_core::acceptor::{
    bind_plan, format_decimal, socket_name, AcceptDecision, AcceptEvent, Acceptor, AcceptorError,
    AcceptorPhase, AddressAllocator, FileStat, ReadyEvents,
};

#[test]
fn decimal_rendering() {
    assert_eq!(format_decimal(0), "0");
    assert_eq!(format_decimal(7), "7");
    assert_eq!(format_decimal(10), "10");
    assert_eq!(format_decimal(907), "907");
    assert_eq!(format_decimal(4294967295), "4294967295");
}

#[test]
fn socket_names_follow_the_pattern() {
    assert_eq!(socket_name(1), "wayland-1");
    assert_eq!(socket_name(999), "wayland-999");
}

#[test]
fn bind_plan_builds_all_three_paths() {
    let plan = bind_plan("/run/user/1000", 1).unwrap();
    assert_eq!(plan.name, "wayland-1");
    assert_eq!(plan.path, "/run/user/1000/wayland-1");
    assert_eq!(plan.lock_path, "/run/user/1000/wayland-1.lock");
}

#[test]
fn overlong_runtime_dir_is_refused() {
    let xrd: String = std::iter::repeat('x').take(200).collect();
    match bind_plan(&xrd, 1) {
        Err(AcceptorError::XrdTooLong(d)) => assert_eq!(d, xrd),
        Err(e) => panic!("expected the too-long error, got {:?}", e),
        Ok(_) => panic!("an overlong runtime directory must be refused"),
    }
}

#[test]
fn two_instances_never_bind_the_same_name() {
    // Two server processes race over the namespace; the advisory lock (the
    // set below) admits each index once. They must end on different names.
    let mut locked: HashSet<u32> = HashSet::new();
    let allocate = |taken: &mut HashSet<u32>| -> String {
        let mut alloc = AddressAllocator::new();
        loop {
            let i = alloc.next_candidate().unwrap();
            if taken.insert(i) {
                return socket_name(i);
            }
        }
    };
    let first = allocate(&mut locked);
    let second = allocate(&mut locked);
    assert_eq!(first, "wayland-1");
    assert_eq!(second, "wayland-2");
    assert_ne!(first, second);
}

#[test]
fn exhausted_namespace_reports_addresses_in_use() {
    let mut alloc = AddressAllocator::new();
    let mut count = 0;
    loop {
        match alloc.next_candidate() {
            Ok(_) => count += 1,
            Err(e) => {
                assert_eq!(e, AcceptorError::AddressesInUse);
                break;
            }
        }
    }
    assert_eq!(count, 999);
    // Exhaustion is permanent.
    assert_eq!(alloc.next_candidate().unwrap_err(), AcceptorError::AddressesInUse);
}

#[test]
fn stale_socket_files_are_unlinked() {
    assert_eq!(jay_core::acceptor::stat_decision(FileStat::Exists), Ok(true));
    assert_eq!(jay_core::acceptor::stat_decision(FileStat::Missing), Ok(false));
    assert_eq!(
        jay_core::acceptor::stat_decision(FileStat::StatFailed(13)),
        Err(AcceptorError::SocketStat(13))
    );
}

#[test]
fn error_state_on_the_socket_is_fatal() {
    let acc = Acceptor::installed("wayland-1".to_string());
    let ok = ReadyEvents { readable: true, error: false, hangup: false };
    assert!(acc.dispatch_status(ok).is_ok());
    let err = ReadyEvents { readable: false, error: true, hangup: false };
    assert_eq!(acc.dispatch_status(err), Err(AcceptorError::ErrorEvent));
    let hup = ReadyEvents { readable: true, error: false, hangup: true };
    assert_eq!(acc.dispatch_status(hup), Err(AcceptorError::ErrorEvent));
}

#[test]
fn spawn_failure_never_stops_the_accept_loop() {
    let acc = Acceptor::installed("wayland-1".to_string());
    assert_eq!(acc.accept_step(AcceptEvent::Accepted), AcceptDecision::Spawn);
    assert_eq!(acc.accept_step(AcceptEvent::QueueDrained), AcceptDecision::Done);
    assert_eq!(
        acc.accept_step(AcceptEvent::AcceptFailed(11)),
        AcceptDecision::Fatal(AcceptorError::AcceptFailed(11))
    );
    // A per-client fault is reported, not fatal.
    assert_eq!(acc.accept_step(AcceptEvent::SpawnFailed(12)), AcceptDecision::Continue);
}

#[test]
fn failures_read_as_their_reports() {
    assert_eq!(AcceptorError::XrdNotSet.message(), "XDG_RUNTIME_DIR is not set");
    assert_eq!(
        AcceptorError::XrdTooLong("/tmp/run".to_string()).message(),
        "XDG_RUNTIME_DIR (/tmp/run) is too long to form a unix socket address"
    );
    assert_eq!(
        AcceptorError::AddressesInUse.message(),
        "All wayland addresses in the range 0..1000 are already in use"
    );
}

#[test]
fn teardown_is_idempotent() {
    let mut acc = Acceptor::installed("wayland-3".to_string());
    assert_eq!(acc.phase, AcceptorPhase::Listening);
    acc.teardown();
    assert_eq!(acc.phase, AcceptorPhase::Removed);
    acc.teardown();
    assert_eq!(acc.phase, AcceptorPhase::Removed);
    assert_eq!(acc.name, "wayland-3");
}
