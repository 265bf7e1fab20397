use roboplc::buf::DataBuffer;
use roboplc::controller::{
    executable_file_name, signal_action, worker_builder, ControlSignal, ControllerStateKind,
    SignalAction, State,
};
use roboplc::error::Error;
use roboplc::io::{parse_kind_offset, Kind, KeyState, ModbusMappingOptions, Register, Timeouts};
use roboplc::project::{Docker, LockingPolicy, Mode};
use roboplc::supervisor::Supervisor;
use roboplc::system::{ServerKind, StateVariant};
use roboplc::thread_rt::{
    adapter_action, AdapterAction, Builder, RTParams, Scheduling, SetupStep, ThreadSetup,
};

#[test]
fn state_beacon() {
    let s = State::new();
    assert_eq!(s.get(), ControllerStateKind::Starting);
    assert!(s.is_online());
    s.set(ControllerStateKind::Running);
    assert_eq!(s.get(), ControllerStateKind::Running);
    s.set(ControllerStateKind::Stopping);
    assert_eq!(s.get(), ControllerStateKind::Stopping);
    assert!(!s.is_online());
    let shared = s.clone();
    shared.set(ControllerStateKind::Stopped);
    assert_eq!(s.get(), ControllerStateKind::Stopped);
}

#[test]
fn state_codes() {
    assert_eq!(ControllerStateKind::Stopped.code(), -100);
    assert_eq!(ControllerStateKind::from_code(2), ControllerStateKind::Running);
    assert_eq!(ControllerStateKind::from_code(-1), ControllerStateKind::Stopping);
    assert_eq!(ControllerStateKind::from_code(7), ControllerStateKind::Unknown);
    assert!(ControllerStateKind::Active.is_online());
    assert!(!ControllerStateKind::Unknown.is_online());
}

#[test]
fn signals_map_to_actions() {
    assert_eq!(
        signal_action(ControlSignal::Term, 250_000_000),
        SignalAction::Shutdown { kill_after_nanos: 250_000_000 }
    );
    assert_eq!(
        signal_action(ControlSignal::Int, 5),
        SignalAction::Shutdown { kill_after_nanos: 5 }
    );
    assert_eq!(signal_action(ControlSignal::Usr2, 5), SignalAction::Reload);
}

#[test]
fn deleted_executable_name() {
    assert_eq!(executable_file_name("plc (deleted)"), "plc");
    assert_eq!(executable_file_name("plc (deleted) (deleted)"), "plc");
    assert_eq!(executable_file_name("plc"), "plc");
    assert_eq!(executable_file_name(" (deleted)x"), " (deleted)x");
}

#[test]
fn rt_params_builder() {
    let p = RTParams::new().set_scheduling(Scheduling::FIFO);
    assert_eq!(p.priority(), Some(1));
    let p = RTParams::new().set_priority(99).set_scheduling(Scheduling::FIFO).set_cpu_ids(&[0]);
    assert_eq!(p.priority(), Some(99));
    assert_eq!(p.scheduling(), Scheduling::FIFO);
    assert_eq!(p.cpu_ids(), &[0]);
    let p = RTParams::new().set_scheduling(Scheduling::Batch);
    assert_eq!(p.priority(), None);
}

#[test]
fn builder_name_limit() {
    let b = Builder::new().name("short");
    assert!(b.check_name().is_ok());
    let b = Builder::new().name("a_very_long_thread_name");
    assert!(matches!(b.check_name(), Err(Error::InvalidData(_))));
    let b = Builder::new().name("exactly15bytes_").stack_size(1 << 20).blocking(true);
    assert!(b.check_name().is_ok());
    assert_eq!(b.get_stack_size(), Some(1 << 20));
    assert!(b.is_blocking());
    assert!(!b.parks_on_errors());
}

#[test]
fn setup_failure_blocks_body() {
    let params = RTParams::new().set_priority(50).set_cpu_ids(&[1]);
    let mut s = ThreadSetup::new(1234, &params, true);
    assert_eq!(s.next_step(), Some(SetupStep::Affinity));
    s.record(SetupStep::Affinity, 22);
    assert_eq!(s.next_step(), None);
    let r = s.finish();
    assert!(matches!(r, Err(Error::RTSchedSetAffinity(22))));
    let mut body_runs = 0;
    if adapter_action(r.is_ok(), false) == AdapterAction::RunBody {
        body_runs += 1;
    }
    assert_eq!(body_runs, 0);
    assert_eq!(adapter_action(false, true), AdapterAction::Park);
    assert_eq!(adapter_action(false, false), AdapterAction::Panic);
}

#[test]
fn setup_success_runs_body() {
    let params = RTParams::new().set_priority(50).set_cpu_ids(&[1]);
    let mut s = ThreadSetup::new(77, &params, true);
    s.record(SetupStep::Affinity, 0);
    assert_eq!(s.next_step(), Some(SetupStep::Scheduler));
    s.record(SetupStep::Scheduler, 0);
    assert_eq!(s.next_step(), None);
    assert!(matches!(s.finish(), Ok(77)));
    assert_eq!(adapter_action(true, false), AdapterAction::RunBody);
    let sim = ThreadSetup::new(5, &params, false);
    assert_eq!(sim.next_step(), None);
    let bad = ThreadSetup::new(-1, &params, true);
    assert!(matches!(bad.finish(), Err(Error::RTGetTId(-1))));
}

#[test]
fn supervisor_registry() {
    let mut sup: Supervisor<u32> = Supervisor::new();
    assert!(matches!(sup.vacant_name(None), Err(Error::SupervisorNameNotSpecified)));
    let name = sup.vacant_name(Some("worker")).unwrap();
    sup.insert(name, 1);
    match sup.vacant_name(Some("worker")) {
        Err(Error::SupervisorDuplicateTask(n)) => assert_eq!(n, "worker"),
        _ => panic!("duplicate accepted"),
    }
    let n2 = sup.vacant_name(Some("other")).unwrap();
    sup.insert(n2, 2);
    assert_eq!(sup.get_task("other"), Some(&2));
    assert!(matches!(sup.forget_task("missing"), Err(Error::SupervisorTaskNotFound)));
    assert!(sup.forget_task("worker").is_ok());
    assert_eq!(sup.len(), 1);
    let n3 = sup.vacant_name(Some("third")).unwrap();
    sup.insert(n3, 3);
    sup.purge(&vec![true, false]);
    assert_eq!(sup.get_task("other"), None);
    assert_eq!(sup.take_task("third"), Some(3));
    assert_eq!(sup.drain().len(), 0);
}

#[test]
fn data_buffer() {
    let mut b: DataBuffer<u8> = DataBuffer::bounded(2);
    assert_eq!(b.try_push(1), None);
    assert_eq!(b.try_push(2), None);
    assert_eq!(b.try_push(3), Some(3));
    assert!(!b.force_push(4));
    assert!(!b.is_empty());
    assert_eq!(b.len(), 2);
    let taken: Vec<u8> = b.take().into_iter().collect();
    assert_eq!(taken, vec![2, 4]);
    assert!(b.is_empty());
    assert!(b.force_push(5));
}

#[test]
fn register_parsing() {
    assert_eq!(parse_kind_offset("h100").unwrap(), (Kind::Holding, 100));
    assert_eq!(parse_kind_offset("c@5").unwrap(), (Kind::Coil, 5));
    assert_eq!(parse_kind_offset("i+7").unwrap(), (Kind::Input, 7));
    assert_eq!(parse_kind_offset("d65535").unwrap(), (Kind::Discrete, 65535));
    assert!(matches!(parse_kind_offset("d65536"), Err(Error::InvalidData(_))));
    assert!(matches!(parse_kind_offset("x1"), Err(Error::InvalidData(_))));
    assert!(matches!(parse_kind_offset("h"), Err(Error::InvalidData(_))));
    assert!(matches!(parse_kind_offset(""), Err(Error::InvalidData(_))));
    assert!(matches!(parse_kind_offset("h@"), Err(Error::InvalidData(_))));
    assert!(matches!(parse_kind_offset("h1a"), Err(Error::InvalidData(_))));
    assert_eq!(Register::parse("h@10").unwrap(), Register::new(Kind::Holding, 10));
}

#[test]
fn small_value_types() {
    assert!(ModbusMappingOptions::new().is_bulk_write());
    assert!(!ModbusMappingOptions::new().bulk_write(false).is_bulk_write());
    assert_eq!(KeyState::from_value(0), KeyState::Released);
    assert_eq!(KeyState::from_value(1), KeyState::Pressed);
    assert_eq!(KeyState::from_value(2), KeyState::Other(2));
    let t = Timeouts::new(7);
    assert_eq!((t.connect, t.read, t.write), (7, 7, 7));
    let t = Timeouts::none();
    assert_eq!((t.connect, t.read, t.write), (0, 0, 0));
    assert_eq!(StateVariant::Degraded.as_str(), "degraded");
    assert_eq!(ServerKind::WestonLegacy.command(), "weston --tty=1");
    assert_eq!(ServerKind::Xorg.display_env(), ("DISPLAY", ":0"));
    assert_eq!(Docker::Aarch64.target(), "aarch64-unknown-linux-gnu");
    assert_eq!(Docker::X86_64.docker_image_name(), "bmauto/roboplc-x86_64:latest");
    assert_eq!(LockingPolicy::RtSafe.as_feature_str(), "locking-rt-safe");
    assert_eq!(Mode::Config.as_str(), "CONFIG");
}

#[test]
fn worker_options_to_builder() {
    let b = worker_builder("plc", Some(65536), Scheduling::FIFO, None, Some(&[1, 2]), true);
    assert_eq!(b.get_name().map(String::as_str), Some("plc"));
    assert_eq!(b.get_stack_size(), Some(65536));
    assert!(b.is_blocking());
    assert_eq!(b.get_rt_params().priority(), Some(1));
    assert_eq!(b.get_rt_params().cpu_ids(), &[1, 2]);
    let b = worker_builder("io", None, Scheduling::Other, Some(5), None, false);
    assert_eq!(b.get_rt_params().priority(), Some(5));
    assert_eq!(b.get_rt_params().scheduling(), Scheduling::Other);
    assert!(b.get_rt_params().cpu_ids().is_empty());
    assert_eq!(b.get_stack_size(), None);
}
