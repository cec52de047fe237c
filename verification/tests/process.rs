use std::sync::atomic::{AtomicUsize, Ordering};
use std::sync::mpsc::Sender;
use std::sync::{Arc, Mutex};
use std::time::{Duration, Instant};

use kagerou::process::{
    is_run_file_name, recorded_pid, run_file_name, sidecar_in, ChildHandle, Launcher, ProcessError, ProcessEvent, Status, Supervisor, wait_step, WaitStep, names_sing_box,
    MAX_BUFFERED_LOG_LINES,
};

/// Answers like a real sing-box child without spawning one.
#[derive(Clone, Default)]
struct FakeControl {
    fail_next: Arc<Mutex<bool>>,
    kill_count: Arc<AtomicUsize>,
    last_sender: Arc<Mutex<Option<Sender<ProcessEvent>>>>,
    exit_delay: Arc<Mutex<Option<Duration>>>,
    never_exits: Arc<Mutex<bool>>,
}

impl FakeControl {
    fn set_fail_next(&self) {
        *self.fail_next.lock().unwrap() = true;
    }

    fn kill_count(&self) -> usize {
        self.kill_count.load(Ordering::SeqCst)
    }

    fn set_exit_delay(&self, delay: Duration) {
        *self.exit_delay.lock().unwrap() = Some(delay);
    }

    fn set_never_exits(&self) {
        *self.never_exits.lock().unwrap() = true;
    }

    fn send_event(&self, event: ProcessEvent) {
        self.last_sender
            .lock()
            .unwrap()
            .as_ref()
            .expect("no launch has happened yet")
            .send(event)
            .unwrap();
    }
}

struct FakeLauncher(FakeControl);

impl Launcher for FakeLauncher {
    fn launch(&self, _config_path: &str, _tun: bool) -> Result<ChildHandle, ProcessError> {
        if std::mem::replace(&mut *self.0.fail_next.lock().unwrap(), false) {
            return Err(ProcessError::SpawnFailed("fake failure".into()));
        }
        let (tx, rx) = std::sync::mpsc::channel();
        *self.0.last_sender.lock().unwrap() = Some(tx.clone());
        let kill_count = Arc::clone(&self.0.kill_count);
        let exit_delay = Arc::clone(&self.0.exit_delay);
        let never_exits = Arc::clone(&self.0.never_exits);
        Ok(ChildHandle::new(rx, move || {
            kill_count.fetch_add(1, Ordering::SeqCst);
            if *never_exits.lock().unwrap() {
                return Ok(());
            }
            // The process goes away some time after the request.
            if let Some(delay) = *exit_delay.lock().unwrap() {
                let started = Instant::now();
                while started.elapsed() < delay {}
            }
            let _ = tx.send(ProcessEvent::Exited { code: None });
            Ok(())
        }))
    }
}

fn supervisor() -> (Supervisor<FakeLauncher>, FakeControl) {
    let control = FakeControl::default();
    (Supervisor::new(FakeLauncher(control.clone())), control)
}

#[test]
fn start_sets_status_to_running() {
    let (mut sup, _control) = supervisor();
    sup.start("/tmp/config.json", false).unwrap();
    assert_eq!(*sup.status(), Status::Running);
}

#[test]
fn starting_twice_is_an_error_and_does_not_disturb_the_first_child() {
    let (mut sup, control) = supervisor();
    sup.start("/tmp/config.json", false).unwrap();
    let err = sup.start("/tmp/config.json", false).unwrap_err();
    assert!(matches!(err, ProcessError::AlreadyRunning));
    assert_eq!(*sup.status(), Status::Running);
    assert_eq!(control.kill_count(), 0);
}

#[test]
fn stop_kills_the_child_and_sets_status_to_stopped() {
    let (mut sup, control) = supervisor();
    sup.start("/tmp/config.json", false).unwrap();
    sup.stop().unwrap();
    assert_eq!(*sup.status(), Status::Stopped);
    assert_eq!(control.kill_count(), 1);
}

#[test]
fn stopping_when_not_running_is_an_error() {
    let (mut sup, _control) = supervisor();
    assert!(matches!(sup.stop().unwrap_err(), ProcessError::NotRunning));
}

#[test]
fn a_spawn_failure_leaves_status_stopped_and_is_reported() {
    let (mut sup, control) = supervisor();
    control.set_fail_next();
    let err = sup.start("/tmp/config.json", false).unwrap_err();
    assert!(matches!(err, ProcessError::SpawnFailed(_)));
    assert_eq!(*sup.status(), Status::Stopped);
}

#[test]
fn poll_events_buffers_log_lines_in_order() {
    let (mut sup, control) = supervisor();
    sup.start("/tmp/config.json", false).unwrap();
    control.send_event(ProcessEvent::Log("line 1".into()));
    control.send_event(ProcessEvent::Log("line 2".into()));
    sup.poll_events();
    let (logs, produced) = sup.logs_since(0);
    assert_eq!(logs, vec!["line 1".to_string(), "line 2".to_string()]);
    assert_eq!(produced, 2);
}

#[test]
fn poll_events_detects_a_crash_and_records_the_exit_code() {
    let (mut sup, control) = supervisor();
    sup.start("/tmp/config.json", false).unwrap();
    control.send_event(ProcessEvent::Exited { code: Some(1) });
    sup.poll_events();
    assert_eq!(*sup.status(), Status::Crashed { exit_code: Some(1) });
}

#[test]
fn the_log_buffer_is_capped_so_a_noisy_process_cannot_grow_it_unbounded() {
    let (mut sup, control) = supervisor();
    sup.start("/tmp/config.json", false).unwrap();
    for i in 0..(MAX_BUFFERED_LOG_LINES + 50) {
        control.send_event(ProcessEvent::Log(format!("line {i}")));
    }
    sup.poll_events();
    let (logs, produced) = sup.logs_since(0);
    assert_eq!(logs.len(), MAX_BUFFERED_LOG_LINES);
    assert_eq!(logs[0], "line 50", "oldest lines should be dropped first");
    assert_eq!(produced, MAX_BUFFERED_LOG_LINES + 50);
}

#[test]
fn lines_keep_arriving_after_the_buffer_has_wrapped() {
    let (mut sup, control) = supervisor();
    sup.start("/tmp/config.json", false).unwrap();
    for i in 0..MAX_BUFFERED_LOG_LINES {
        control.send_event(ProcessEvent::Log(format!("line {i}")));
    }
    sup.poll_events();
    let (_, forwarded) = sup.logs_since(0);

    for i in 0..3 {
        control.send_event(ProcessEvent::Log(format!("later {i}")));
    }
    sup.poll_events();

    let (logs, produced) = sup.logs_since(forwarded);
    assert_eq!(logs, vec!["later 0", "later 1", "later 2"]);
    assert_eq!(produced, MAX_BUFFERED_LOG_LINES + 3);
}

#[test]
fn a_reader_that_is_already_up_to_date_is_given_nothing() {
    let (mut sup, control) = supervisor();
    sup.start("/tmp/config.json", false).unwrap();
    control.send_event(ProcessEvent::Log("only line".into()));
    sup.poll_events();

    let (_, forwarded) = sup.logs_since(0);
    let (logs, produced) = sup.logs_since(forwarded);
    assert_eq!(logs.len(), 0);
    assert_eq!(produced, forwarded);
}

#[test]
fn can_restart_after_a_crash() {
    let (mut sup, control) = supervisor();
    sup.start("/tmp/config.json", false).unwrap();
    control.send_event(ProcessEvent::Exited { code: Some(137) });
    sup.poll_events();
    assert_eq!(
        *sup.status(),
        Status::Crashed {
            exit_code: Some(137)
        }
    );

    sup.start("/tmp/config.json", false).unwrap();
    assert_eq!(*sup.status(), Status::Running);
}

#[test]
fn stopping_after_a_crash_is_an_error_since_there_is_no_live_child() {
    let (mut sup, control) = supervisor();
    sup.start("/tmp/config.json", false).unwrap();
    control.send_event(ProcessEvent::Exited { code: None });
    sup.poll_events();
    assert!(matches!(sup.stop().unwrap_err(), ProcessError::NotRunning));
}

#[test]
fn a_sidecar_sits_next_to_the_executable_under_its_platform_name() {
    let resolved = sidecar_in("/apps/Kagerou.app/Contents/MacOS", "sing-box", false);
    assert_eq!(resolved, "/apps/Kagerou.app/Contents/MacOS/sing-box");
    let resolved = sidecar_in("/apps/Kagerou.app/Contents/MacOS", "sing-box", true);
    assert_eq!(resolved, "/apps/Kagerou.app/Contents/MacOS/sing-box.exe");
}

#[test]
fn a_windows_sidecar_keeps_the_dots_already_in_its_name() {
    assert_eq!(
        sidecar_in("C:/Kagerou", "sing-box-1.14", true),
        "C:/Kagerou/sing-box-1.14.exe"
    );
    assert_eq!(sidecar_in("/opt/kagerou/", "sing-box", false), "/opt/kagerou/sing-box");
}

#[test]
fn stop_waits_until_the_process_is_actually_gone() {
    let (mut sup, control) = supervisor();
    control.set_exit_delay(Duration::from_millis(300));
    sup.start("/tmp/config.json", false).unwrap();

    let before = Instant::now();
    sup.stop().unwrap();
    assert!(
        before.elapsed() >= Duration::from_millis(250),
        "stop returned before the process had exited"
    );
}

#[test]
fn stop_gives_up_rather_than_hanging_on_a_process_that_will_not_die() {
    let (mut sup, control) = supervisor();
    control.set_never_exits();
    sup.start("/tmp/config.json", false).unwrap();
    assert!(matches!(sup.stop(), Err(ProcessError::KillFailed(_))));
    assert_eq!(
        *sup.status(),
        Status::Stopped,
        "the supervisor still has to let go of a child it cannot kill"
    );
}

#[test]
fn run_files_are_recognised_by_their_name_alone() {
    let name = run_file_name("0f3c");
    assert_eq!(name, "singbox-0f3c.run");
    assert!(is_run_file_name(&name));
    assert!(!is_run_file_name("config.json"));
    assert!(!is_run_file_name("singbox-0f3c.json"));
}

#[test]
fn a_recorded_pid_is_read_from_the_trimmed_file_body() {
    assert_eq!(recorded_pid(" 4242\n"), Some(4242));
    assert_eq!(recorded_pid(""), None);
    assert_eq!(recorded_pid("not a pid"), None);
}

#[test]
fn applying_events_fills_the_buffer_and_an_exit_records_the_crash() {
    let (mut sup, _control) = supervisor();
    sup.start("/tmp/config.json", true).unwrap();
    assert!(sup.apply_event(ProcessEvent::Log("first".into())));
    assert!(sup.apply_event(ProcessEvent::Log("second".into())));
    assert!(!sup.apply_event(ProcessEvent::Exited { code: Some(3) }));
    assert_eq!(*sup.status(), Status::Crashed { exit_code: Some(3) });
    assert_eq!(sup.logs_since(0), (vec!["first".to_string(), "second".to_string()], 2));
    assert!(matches!(sup.stop().unwrap_err(), ProcessError::NotRunning));
}

#[test]
fn waiting_for_a_stopped_process_ends_on_exit_and_gives_up_on_silence() {
    assert!(matches!(wait_step(&Some(ProcessEvent::Exited { code: None })), WaitStep::Done));
    assert!(matches!(wait_step(&Some(ProcessEvent::Log("x".into()))), WaitStep::KeepWaiting));
    assert!(matches!(wait_step(&None), WaitStep::GiveUp));
}

#[test]
fn a_failed_stop_request_is_reported_unchanged() {
    let (_tx, rx) = std::sync::mpsc::channel::<ProcessEvent>();
    let mut h = ChildHandle::new(rx, || Err(ProcessError::KillFailed("denied".into())));
    match h.kill() {
        Err(ProcessError::KillFailed(m)) => assert_eq!(m, "denied"),
        other => panic!("unexpected {:?}", other),
    }
}

#[test]
fn a_stop_on_a_closed_stream_gives_up_with_the_timeout_message() {
    let (tx, rx) = std::sync::mpsc::channel::<ProcessEvent>();
    drop(tx);
    let mut h = ChildHandle::new(rx, || Ok(()));
    match h.kill() {
        Err(ProcessError::KillFailed(m)) => assert_eq!(m, "sing-box did not exit in time"),
        other => panic!("unexpected {:?}", other),
    }
}

#[test]
fn a_stop_succeeds_once_the_exit_arrives_after_log_lines() {
    let (tx, rx) = std::sync::mpsc::channel::<ProcessEvent>();
    tx.send(ProcessEvent::Log("shutting down".into())).unwrap();
    tx.send(ProcessEvent::Exited { code: Some(0) }).unwrap();
    let mut h = ChildHandle::new(rx, || Ok(()));
    assert!(h.kill().is_ok());
}

#[test]
fn only_a_listing_that_names_sing_box_marks_a_leftover() {
    assert!(names_sing_box("sing-box\n"));
    assert!(names_sing_box("sing-box.exe                  4242 Console    1     20,000 K"));
    assert!(!names_sing_box("bash\n"));
    assert!(!names_sing_box(""));
}
