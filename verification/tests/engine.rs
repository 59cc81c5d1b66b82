use potato_ws::clone::{isolation_clone_flags, proc_clone_flags, thread_clone_flags};
use potato_ws::error::Error;
use potato_ws::idmap::UidMapper;
use potato_ws::isolation::{plan_mounts, IsolationSetting};
use potato_ws::namespace::{create_namespaces, flags_for_kinds, get_hostname, open_proc_ns, Namespace};
use potato_ws::net::{
    create_accepted, is_valid_ipv4_cidr, request_veth_name, veth_inside_name, NetOutcome,
};
use potato_ws::prep::{dir_numbers, next_dir_num};
use potato_ws::protocol::{
    init_step, isolate_decision, worker_step, InitAction, InitEvent, InitState, IsolateNext,
    WorkerAction, WorkerEvent, WorkerPhase,
};
use potato_ws::sorting::{bubble_sort_i32s, bubble_sort_usizes};
use potato_ws::sys;

fn names(list: &[&str]) -> Vec<String> {
    list.iter().map(|s| s.to_string()).collect()
}

#[test]
fn symlink_names_match_proc() {
    assert_eq!(Namespace::Cgroup.to_symlink_name(), "cgroup");
    assert_eq!(Namespace::Ipc.to_symlink_name(), "ipc");
    assert_eq!(Namespace::Network.to_symlink_name(), "net");
    assert_eq!(Namespace::Mount.to_symlink_name(), "mnt");
    assert_eq!(Namespace::Pid.to_symlink_name(), "pid");
    assert_eq!(Namespace::User.to_symlink_name(), "user");
    assert_eq!(Namespace::Uts.to_symlink_name(), "uts");
}

#[test]
fn clone_flags_match_kernel_values() {
    assert_eq!(Namespace::Cgroup.to_clone_flag(), 0x02000000);
    assert_eq!(Namespace::Ipc.to_clone_flag(), 0x08000000);
    assert_eq!(Namespace::Network.to_clone_flag(), 0x40000000);
    assert_eq!(Namespace::Mount.to_clone_flag(), 0x00020000);
    assert_eq!(Namespace::Pid.to_clone_flag(), 0x20000000);
    assert_eq!(Namespace::User.to_clone_flag(), 0x10000000);
    assert_eq!(Namespace::Uts.to_clone_flag(), 0x04000000);
}

#[test]
fn flags_combine_all_kinds() {
    let kinds = vec![
        Namespace::Cgroup,
        Namespace::Ipc,
        Namespace::Network,
        Namespace::Mount,
        Namespace::Pid,
        Namespace::User,
        Namespace::Uts,
    ];
    assert_eq!(flags_for_kinds(&kinds), sys::ALL_NAMESPACE_BITS);
    assert_eq!(flags_for_kinds(&vec![]), 0);
}

#[test]
fn proc_flags_drop_sharing_bits() {
    let f = proc_clone_flags(0x00000100 | 0x00010000 | 0x00020000 | 17);
    assert_eq!(f, 0x00020000 | 17);
}

#[test]
fn thread_flags_force_sharing_and_drop_user_pid() {
    let f = thread_clone_flags(0x10000000 | 0x20000000 | 0x04000000);
    assert_eq!(f, 0x04000000 | 0x00000100 | 0x00010000 | 0x00000800);
}

#[test]
fn isolation_flags_request_every_namespace() {
    assert_eq!(isolation_clone_flags(), 0x7e020000 | 17);
}

#[test]
fn open_namespace_handle_for_current_process() {
    match open_proc_ns(Namespace::Uts) {
        Ok(fd) => {
            assert!(fd >= 0);
            let _ = sys::close_fd(fd);
        },
        Err(e) => {
            // A build environment without /proc reports the namespace error.
            assert!(matches!(e, Error::Namespace(_)));
        },
    }
}

#[test]
fn uid_map_serializes_triples_in_order() {
    let mapper = UidMapper::new().add(0, 1000, 1);
    assert_eq!(mapper.to_uid_map_string(), "0 1000 1\n");
    let mapper = UidMapper::new().add(0, 1000, 1).add(1, 100000, 65536);
    assert_eq!(mapper.to_uid_map_string(), "0 1000 1\n1 100000 65536\n");
}

#[test]
fn errors_carry_their_errno() {
    assert_eq!(Error::Spawn(11).errno(), 11);
    assert_eq!(Error::Namespace(1).errno(), 1);
    assert_eq!(Error::Signal(22).errno(), 22);
    assert_eq!(Error::IdMap(13).errno(), 13);
    assert_eq!(Error::Network(17).errno(), 17);
    assert_eq!(Error::Mount(2).errno(), 2);
    assert_eq!(Error::Chroot(2).errno(), 2);
}

#[test]
fn dir_numbers_keep_only_numeric_names() {
    let nums = dir_numbers(&names(&["1", "potato", "3", "02", "x9"]));
    assert_eq!(nums, vec![1, 3, 2]);
}

#[test]
fn next_dir_number_reuses_gaps() {
    assert_eq!(next_dir_num(&names(&["1", "3"])), 2);
}

#[test]
fn next_dir_number_starts_at_one() {
    assert_eq!(next_dir_num(&names(&[])), 1);
    assert_eq!(next_dir_num(&names(&["potato"])), 1);
}

#[test]
fn next_dir_number_extends_the_range() {
    assert_eq!(next_dir_num(&names(&["1", "2", "3"])), 4);
    assert_eq!(next_dir_num(&names(&["2"])), 1);
}

#[test]
fn next_dir_number_ignores_zero() {
    assert_eq!(next_dir_num(&names(&["0", "1"])), 2);
}

#[test]
fn consecutive_requests_get_distinct_numbers() {
    let first = next_dir_num(&names(&["1", "3"]));
    assert_eq!(first, 2);
    let second = next_dir_num(&names(&["1", "3", "2"]));
    assert_eq!(second, 4);
    assert_ne!(first, second);
}

#[test]
fn sorting_orders_and_keeps_elements() {
    let mut v: Vec<usize> = vec![3, 1, 2, 1];
    bubble_sort_usizes(&mut v);
    assert_eq!(v, vec![1, 1, 2, 3]);
    let mut w: Vec<i32> = vec![5, -5, 0];
    bubble_sort_i32s(&mut w);
    assert_eq!(w, vec![-5, 0, 5]);
}

#[test]
fn bind_mount_points_replace_by_source() {
    let setting = IsolationSetting::new()
        .add_bind_mount_point("/srv/static", "resources")
        .add_bind_mount_point("/srv/data", "data")
        .add_bind_mount_point("/srv/static", "assets");
    assert_eq!(setting.mount_points.len(), 2);
    assert_eq!(setting.mount_points[0].0, "/srv/static");
    assert_eq!(setting.mount_points[0].1, "assets");
    assert_eq!(setting.mount_points[1].0, "/srv/data");
}

#[test]
fn mount_plan_skips_non_directories() {
    let mut setting = IsolationSetting::new()
        .add_bind_mount_point("/srv/static", "resources")
        .add_bind_mount_point("/srv/file.txt", "file");
    setting.rootfs_path = "/run/box/2".to_string();
    let plan = plan_mounts(&setting, &vec![true, false]);
    assert_eq!(plan, vec!["/run/box/2/resources".to_string()]);
    let full = plan_mounts(&setting, &vec![true, true]);
    assert_eq!(
        full,
        vec!["/run/box/2/resources".to_string(), "/run/box/2/file".to_string()]
    );
}

#[test]
fn address_texts_are_checked_before_the_kernel() {
    assert!(is_valid_ipv4_cidr("10.0.0.0/24"));
    assert!(is_valid_ipv4_cidr("10.0.0.1"));
    assert!(is_valid_ipv4_cidr("0.0.0.0/0"));
    assert!(!is_valid_ipv4_cidr("256.0.0.1/24"));
    assert!(!is_valid_ipv4_cidr("10.0.0/24"));
    assert!(!is_valid_ipv4_cidr("10.0.0.0/33"));
    assert!(!is_valid_ipv4_cidr("10.00.0.1/24"));
    assert!(!is_valid_ipv4_cidr("bridge/24"));
    assert!(!is_valid_ipv4_cidr(""));
}

#[test]
fn existing_bridge_counts_as_created() {
    assert!(create_accepted(NetOutcome::Done));
    assert!(create_accepted(NetOutcome::Denied(-17)));
    assert!(create_accepted(NetOutcome::Denied(17)));
    assert!(!create_accepted(NetOutcome::Denied(-13)));
    assert!(!create_accepted(NetOutcome::NoSuchLink));
    assert!(!create_accepted(NetOutcome::ChannelLost));
}

#[test]
fn veth_ends_are_named_per_request() {
    assert_eq!(veth_inside_name("po4217"), "po4217-in");
    assert_ne!(veth_inside_name("po1"), veth_inside_name("po2"));
}

#[test]
fn init_does_not_forward_continue_before_mounts() {
    let s0 = InitState::Start;
    let (s1, a1) = init_step(s0, InitEvent::WorkerCloned(7));
    assert_eq!(s1, InitState::Mounting(7));
    assert_eq!(a1, InitAction::RunMounts);
    // a continue request arriving before the mounts finish is not forwarded
    let (s2, a2) = init_step(s1, InitEvent::ContinueRequested);
    assert_eq!(s2, InitState::Mounting(7));
    assert_eq!(a2, InitAction::Idle);
    let (s3, a3) = init_step(s2, InitEvent::MountsFinished);
    assert_eq!(s3, InitState::Relaying(7));
    assert_eq!(a3, InitAction::AwaitSignal);
    let (s4, a4) = init_step(s3, InitEvent::ContinueRequested);
    assert_eq!(s4, InitState::Relaying(7));
    assert_eq!(a4, InitAction::ForwardContinue(7));
}

#[test]
fn init_cleans_up_exactly_once() {
    let s0 = InitState::Relaying(7);
    let (s1, a1) = init_step(s0, InitEvent::ChildExited);
    assert_eq!(s1, InitState::Done);
    assert_eq!(a1, InitAction::CleanupAndExit);
    // a second child-exit signal is absorbed without another cleanup
    let (s2, a2) = init_step(s1, InitEvent::ChildExited);
    assert_eq!(s2, InitState::Done);
    assert_eq!(a2, InitAction::Idle);
}

#[test]
fn init_reports_spawn_failure() {
    let (s, a) = init_step(InitState::Start, InitEvent::WorkerCloneFailed(11));
    assert_eq!(s, InitState::Failed);
    assert_eq!(a, InitAction::ExitFailure(11));
}

#[test]
fn worker_waits_then_runs_then_exits() {
    let (p1, a1) = worker_step(WorkerPhase::Created, WorkerEvent::SuspensionReached);
    assert_eq!(p1, WorkerPhase::Suspended);
    assert_eq!(a1, WorkerAction::AwaitContinue);
    // the task never starts before the continue signal
    let (p1b, a1b) = worker_step(p1, WorkerEvent::TaskCompleted);
    assert_eq!(p1b, WorkerPhase::Suspended);
    assert_eq!(a1b, WorkerAction::Idle);
    let (p2, a2) = worker_step(p1, WorkerEvent::ContinueReceived);
    assert_eq!(p2, WorkerPhase::Running);
    assert_eq!(a2, WorkerAction::EnterRootAndRun);
    let (p3, a3) = worker_step(p2, WorkerEvent::TaskCompleted);
    assert_eq!(p3, WorkerPhase::Exited);
    assert_eq!(a3, WorkerAction::Exit);
}

#[test]
fn caller_returns_connection_on_spawn_failure() {
    assert_eq!(isolate_decision(Ok(42)), IsolateNext::Proceed(42));
    assert_eq!(isolate_decision(Err(11)), IsolateNext::ReturnToCaller(11));
}

#[test]
fn request_links_are_named_by_pid() {
    assert_eq!(request_veth_name(4217), "po4217");
    assert_ne!(request_veth_name(1), request_veth_name(2));
}

#[test]
fn hostname_is_readable() {
    match get_hostname() {
        Ok(_) => {},
        Err(e) => assert!(matches!(e, Error::Namespace(_))),
    }
}

#[test]
fn namespace_creation_restores_the_caller() {
    // An unprivileged build host may refuse unshare; both outcomes keep the
    // contract: per-kind handles in request order, or a namespace error.
    let kinds = vec![Namespace::Uts];
    match create_namespaces(&kinds) {
        Ok(handles) => {
            assert_eq!(handles.len(), 1);
            assert_eq!(handles[0].0, Namespace::Uts);
            assert!(handles[0].1 >= 0);
            let _ = potato_ws::sys::close_fd(handles[0].1);
        },
        Err(e) => assert!(matches!(e, Error::Namespace(_))),
    }
}

#[test]
fn mount_pass_skips_missing_source() {
    // a source that does not exist is no directory: the pass observes that,
    // plans nothing for it, and mounts nothing
    let mut setting = IsolationSetting::new()
        .add_bind_mount_point("/nonexistent-source-for-this-test", "resources");
    setting.rootfs_path = "/nonexistent-root-for-this-test".to_string();
    let report = setting.mount_all();
    assert_eq!(report.src_is_dir, vec![false]);
    assert!(report.mount_ok.is_empty());
    assert!(report.mounted.is_empty());
}
