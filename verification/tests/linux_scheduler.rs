//! Task scheduling: formats, arguments, transactions and the kernel's masks.

use std::sync::Mutex;

use uperf::cpuset::CpuIds;
use uperf::linux::scheduler::{
    chrt_arguments, domain_to_rustix_cpuset, parse_cpu_list, parse_scheduler_file,
    parse_scheduler_stat, read_scheduling, rustix_pid, rustix_to_domain_cpuset,
    trusted_system_tool, uclampset_arguments, write_scheduling, SchedulingApi, Step, ToolFacts,
    AFFINITY_CPUS,
};
use uperf::linux::transaction::{SchedulingAction, SchedulingTransaction};
use uperf::model::SchedulingClass;
use uperf::platform::{PlatformError, PlatformResult, ProcessSchedulingState};

fn cpus(ids: &[u32]) -> CpuIds {
    CpuIds::from_ids(&ids.to_vec())
}

fn state(
    ids: &[u32],
    nice: i8,
    policy: SchedulingClass,
    minimum: Option<u16>,
    maximum: Option<u16>,
) -> ProcessSchedulingState {
    ProcessSchedulingState {
        affinity: cpus(ids),
        nice,
        policy,
        rt_priority: None,
        uclamp_min: minimum,
        uclamp_max: maximum,
    }
}

struct FakeSchedulingApi {
    state: Mutex<ProcessSchedulingState>,
    operations: Mutex<Vec<&'static str>>,
    fail_on: Mutex<Option<&'static str>>,
}

impl FakeSchedulingApi {
    fn new(state: ProcessSchedulingState) -> Self {
        Self {
            state: Mutex::new(state),
            operations: Mutex::new(Vec::new()),
            fail_on: Mutex::new(None),
        }
    }

    fn note(&self, operation: &'static str) -> PlatformResult<()> {
        self.operations.lock().unwrap().push(operation);
        let mut fail_on = self.fail_on.lock().unwrap();
        if *fail_on == Some(operation) {
            *fail_on = None;
            return Err(PlatformError::invalid(operation, "injected failure"));
        }
        Ok(())
    }
}

impl SchedulingApi for FakeSchedulingApi {
    fn read(&self, _process: u32) -> PlatformResult<ProcessSchedulingState> {
        Ok(self.state.lock().unwrap().duplicate())
    }

    fn set_affinity(&self, _process: u32, affinity: &CpuIds) -> PlatformResult<()> {
        self.note("affinity")?;
        self.state.lock().unwrap().affinity = affinity.duplicate();
        Ok(())
    }

    fn set_nice(&self, _process: u32, nice: i8) -> PlatformResult<()> {
        self.note("nice")?;
        self.state.lock().unwrap().nice = nice;
        Ok(())
    }

    fn set_policy(
        &self,
        _process: u32,
        policy: SchedulingClass,
        rt_priority: Option<u8>,
    ) -> PlatformResult<()> {
        self.note("policy")?;
        let mut state = self.state.lock().unwrap();
        state.policy = policy;
        state.rt_priority = rt_priority;
        Ok(())
    }

    fn set_uclamp(&self, _process: u32, minimum: u16, maximum: u16) -> PlatformResult<()> {
        self.note("uclamp")?;
        let mut state = self.state.lock().unwrap();
        state.uclamp_min = Some(minimum);
        state.uclamp_max = Some(maximum);
        Ok(())
    }
}

fn online(text: &str) -> PlatformResult<CpuIds> {
    parse_cpu_list("online", text)
}

#[test]
fn parses_sparse_dynamic_cpu_lists() {
    let cpus = parse_cpu_list("online", "0-3,8,65,511\n").unwrap();
    assert_eq!(cpus.to_vec(), [0, 1, 2, 3, 8, 65, 511]);
}

#[test]
fn rejects_malformed_cpu_lists() {
    assert!(parse_cpu_list("online", "4-2").is_err());
    assert!(parse_cpu_list("online", "0,,2").is_err());
    assert!(parse_cpu_list("online", "").is_err());
    assert!(parse_cpu_list("online", &format!("0-{}", rustix::thread::CpuSet::MAX_CPU)).is_err());
    assert_eq!(AFFINITY_CPUS as usize, rustix::thread::CpuSet::MAX_CPU);
}

#[test]
fn parses_supported_scheduler_state() {
    let parsed = parse_scheduler_file("sched", "policy : 3\nuclamp.min : 128\nuclamp.max : 900\n")
        .unwrap();
    assert_eq!(parsed.policy, SchedulingClass::Batch);
    assert_eq!(parsed.uclamp_min, Some(128));
    assert_eq!(parsed.uclamp_max, Some(900));
}

#[test]
fn parses_exact_fifo_priority_from_proc_stat() {
    let sched = parse_scheduler_file("sched", "policy : 1\nuclamp.min : 0\nuclamp.max : 1024\n")
        .unwrap();
    assert_eq!(sched.policy, SchedulingClass::Fifo);

    let mut fields = vec!["0"; 39];
    fields[0] = "S";
    fields[37] = "12";
    fields[38] = "1";
    let contents = format!("42 (render ) worker) {}\n", fields.join(" "));

    let parsed = parse_scheduler_stat("stat", &contents).unwrap();

    assert_eq!(parsed.policy, SchedulingClass::Fifo);
    assert_eq!(parsed.rt_priority, Some(12));
}

#[test]
fn uclampset_uses_the_portable_util_linux_cli() {
    assert_eq!(uclampset_arguments(42, 205, 512), ["-m", "205", "-M", "512", "-p", "42"]);
}

#[test]
fn chrt_uses_an_explicit_fifo_priority() {
    assert_eq!(
        chrt_arguments("sched", 42, SchedulingClass::Fifo, Some(20)).unwrap(),
        ["--fifo", "--pid", "20", "42"]
    );
    assert!(chrt_arguments("sched", 42, SchedulingClass::Fifo, None).is_err());
    assert!(chrt_arguments("sched", 42, SchedulingClass::Other, Some(1)).is_err());
}

#[test]
fn refuses_sched_rr_and_invalid_uclamp() {
    assert!(parse_scheduler_file("sched", "policy : 2\nuclamp.min : 0\nuclamp.max : 1024\n")
        .is_err());
    assert!(parse_scheduler_file("sched", "policy : 0\nuclamp.min : 900\nuclamp.max : 100\n")
        .is_err());
}

#[test]
fn validates_hotplug_before_any_mutation() {
    let original = state(&[0, 1], 0, SchedulingClass::Other, Some(0), Some(1024));
    let api = FakeSchedulingApi::new(original);
    let requested = state(&[0, 3], 0, SchedulingClass::Other, None, None);

    assert!(write_scheduling(&api, "online", &online("0-2\n"), 42, &requested).is_err());
    assert!(api.operations.lock().unwrap().is_empty());
}

#[test]
fn writes_then_reads_back_all_requested_fields() {
    let original = state(&[0, 1], 0, SchedulingClass::Other, Some(0), Some(1024));
    let api = FakeSchedulingApi::new(original);
    let requested = state(&[4, 7], 5, SchedulingClass::Batch, Some(256), Some(768));

    let applied = write_scheduling(&api, "online", &online("0-7\n"), 42, &requested).unwrap();
    assert_eq!(applied, requested);
    assert_eq!(*api.operations.lock().unwrap(), ["affinity", "nice", "policy", "uclamp"]);
}

#[test]
fn failed_partial_transaction_restores_original_state() {
    let original = state(&[0, 1], 0, SchedulingClass::Other, Some(0), Some(1024));
    let api = FakeSchedulingApi::new(original.duplicate());
    *api.fail_on.lock().unwrap() = Some("policy");
    let requested = state(&[4], 5, SchedulingClass::Batch, None, None);

    assert!(write_scheduling(&api, "online", &online("0-7\n"), 42, &requested).is_err());
    assert_eq!(*api.state.lock().unwrap(), original);
    assert_eq!(
        *api.operations.lock().unwrap(),
        ["affinity", "nice", "policy", "nice", "affinity"]
    );
}

#[test]
fn fifo_priority_is_verified_and_rolled_back_as_part_of_policy() {
    let original = state(&[0, 1], 0, SchedulingClass::Other, Some(0), Some(1024));
    let api = FakeSchedulingApi::new(original.duplicate());
    let mut requested = original.duplicate();
    requested.policy = SchedulingClass::Fifo;
    requested.rt_priority = Some(20);
    requested.uclamp_min = Some(256);
    *api.fail_on.lock().unwrap() = Some("uclamp");

    assert!(write_scheduling(&api, "online", &online("0-7\n"), 42, &requested).is_err());
    assert_eq!(*api.state.lock().unwrap(), original);
    assert_eq!(*api.operations.lock().unwrap(), ["policy", "uclamp", "policy"]);
}

#[test]
fn a_transaction_makes_its_calls_in_order() {
    let original = state(&[0, 1], 0, SchedulingClass::Other, Some(0), Some(1024));
    let requested = state(&[4], 5, SchedulingClass::Other, None, None);
    let begin = || {
        SchedulingTransaction::begin(42, &requested, "online", &online("0-7\n")).unwrap()
    };

    let mut t = begin();
    assert!(matches!(
        t.original_read(Ok(original.duplicate())),
        SchedulingAction::Make(Step::Affinity(c)) if c == cpus(&[4])
    ));
    assert!(matches!(t.stepped(Ok(())), SchedulingAction::Make(Step::Nice(5))));
    assert!(matches!(t.stepped(Ok(())), SchedulingAction::Read));
    let shown = state(&[4], 5, SchedulingClass::Other, Some(0), Some(1024));
    assert!(matches!(
        t.read_back(Ok(shown.duplicate())),
        SchedulingAction::Finish(Ok(actual)) if actual == shown
    ));

    let mut t = begin();
    t.original_read(Ok(original.duplicate()));
    t.stepped(Ok(()));
    t.stepped(Ok(()));
    assert!(!t.is_undoing());
    assert!(matches!(
        t.read_back(Ok(original.duplicate())),
        SchedulingAction::Make(Step::Nice(0))
    ));
    assert!(t.is_undoing());
    assert!(matches!(
        t.undone(Err(PlatformError::Unsupported("first"))),
        SchedulingAction::Make(Step::Affinity(c)) if c == cpus(&[0, 1])
    ));
    match t.undone(Err(PlatformError::Unsupported("second"))) {
        SchedulingAction::Finish(Err(e)) => {
            let message = e.message();
            assert!(message.contains(
                "scheduler readback differs from request: requested ProcessSchedulingState { \
                 affinity: {4}, nice: 5, policy: Other, rt_priority: None, uclamp_min: None, \
                 uclamp_max: None }, got ProcessSchedulingState { affinity: {0, 1}, nice: 0, \
                 policy: Other, rt_priority: None, uclamp_min: Some(0), uclamp_max: Some(1024) }"
            ));
            let first = PlatformError::Unsupported("first").message();
            let second = PlatformError::Unsupported("second").message();
            assert!(message.ends_with(&format!(
                "rollback also failed: nice: {first}; affinity: {second}"
            )));
        }
        other => panic!("the change fails: {other:?}"),
    }
}

#[test]
fn a_failed_read_back_undoes_every_step() {
    let requested = state(&[4], 5, SchedulingClass::Other, None, None);
    let mut t =
        SchedulingTransaction::begin(42, &requested, "online", &online("0-7\n")).unwrap();
    t.original_read(Ok(state(&[0], 5, SchedulingClass::Other, None, None)));
    assert!(matches!(t.stepped(Ok(())), SchedulingAction::Read));
    assert!(matches!(
        t.read_back(Err(PlatformError::Disappeared("process 42".to_owned()))),
        SchedulingAction::Make(Step::Affinity(c)) if c == cpus(&[0])
    ));
    assert!(matches!(
        t.undone(Ok(())),
        SchedulingAction::Finish(Err(PlatformError::Disappeared(what))) if what == "process 42"
    ));
    assert!(SchedulingTransaction::begin(0, &requested, "online", &online("0-7\n")).is_err());
}

#[test]
fn rejects_pid_zero_without_touching_kernel() {
    let api = FakeSchedulingApi::new(state(&[0], 0, SchedulingClass::Other, Some(0), Some(1024)));
    assert!(read_scheduling(&api, 0).is_err());
    assert!(read_scheduling(&api, 42).is_ok());
}

#[test]
fn affinity_masks_carry_sparse_cpus_both_ways() {
    let mask = domain_to_rustix_cpuset(&cpus(&[0, 7, 1023])).unwrap();
    assert!(mask.is_set(7));
    assert!(!mask.is_set(8));
    assert_eq!(mask.count(), 3);
    assert_eq!(rustix_to_domain_cpuset(&mask).to_vec(), [0, 7, 1023]);
    let error = domain_to_rustix_cpuset(&cpus(&[4, 1030, 2000])).unwrap_err().message();
    assert!(error.contains("CPU 1030 exceeds affinity ABI limit 1023"), "{error}");
    assert!(domain_to_rustix_cpuset(&cpus(&[1024])).is_err());
}

#[test]
fn kernel_process_numbers_are_positive() {
    assert_eq!(rustix_pid(42).unwrap().as_raw_nonzero().get(), 42);
    assert!(rustix_pid(0).is_err());
    assert!(rustix_pid(u32::MAX).is_err());
}

#[test]
fn tools_that_others_may_write_are_not_run() {
    let facts = ToolFacts { is_file: true, owner: 0, mode: 0o755, is_absolute: true };
    assert!(trusted_system_tool(facts));
    assert!(!trusted_system_tool(ToolFacts { mode: 0o775, ..facts }));
    assert!(!trusted_system_tool(ToolFacts { owner: 1000, ..facts }));
}
