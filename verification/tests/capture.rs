use std::collections::HashMap;

use loghound::capture::dbwin::Poll;
use loghound::capture::{banner_message, Capture, NAME_CACHE_CAPACITY, POLL_TIMEOUT_MS};
use loghound::cli::{Cli, Command};
use loghound::config::{Config, FilterConfig};
use loghound::model::LocalTime;
use loghound::service::{control_reply, ControlReply, ControlRequest};
use loghound::process::ProcessNameLookup;
use loghound::startup::startup_banner;

fn t0() -> LocalTime {
    LocalTime::from_timestamp(1_780_576_496, 0).unwrap()
}

struct Names(HashMap<u32, String>);

impl ProcessNameLookup for Names {
    fn lookup(&self, pid: u32) -> Option<String> {
        self.0.get(&pid).cloned()
    }
}

fn capture_for(names: &[&str], pids: &[u32]) -> Capture<Names> {
    let mut config = Config::default_for(None, "/tmp".to_string(), false);
    config.filter = FilterConfig {
        process_names: names.iter().map(|s| s.to_string()).collect(),
        pids: pids.to_vec(),
    };
    let mut known = HashMap::new();
    known.insert(10, "App.exe".to_string());
    known.insert(20, "other.exe".to_string());
    Capture::new(&config, Names(known))
}

#[test]
fn timeout_gives_nothing() {
    let mut c = capture_for(&[], &[]);
    assert!(c.handle(Poll::Timeout, t0()).is_none());
}

#[test]
fn allowed_message_is_named_and_kept() {
    let mut c = capture_for(&["app.exe"], &[]);
    let m = c.handle(Poll::Message(10, "hi".to_string()), t0()).unwrap();
    assert_eq!(m.pid, 10);
    assert_eq!(m.process_name.as_deref(), Some("App.exe"));
    assert_eq!(m.text, "hi");
    assert_eq!(m.timestamp.secs(), 1_780_576_496);
    assert!(c.handle(Poll::Message(20, "no".to_string()), t0()).is_none());
    assert!(c.handle(Poll::Message(30, "unknown".to_string()), t0()).is_none());
}

#[test]
fn pass_all_keeps_unnamed_processes() {
    let mut c = capture_for(&[], &[]);
    let m = c.handle(Poll::Message(30, "x".to_string()), t0()).unwrap();
    assert_eq!(m.process_name, None);
    assert!(c.filter().is_pass_all());
}

#[test]
fn banner_record() {
    let m = banner_message("started".to_string(), t0());
    assert_eq!(m.pid, 0);
    assert_eq!(m.process_name.as_deref(), Some("loghound"));
    assert_eq!(m.text, "started");
}

#[test]
fn loop_settings() {
    assert_eq!(POLL_TIMEOUT_MS, 500);
    assert_eq!(NAME_CACHE_CAPACITY, 512);
}

#[test]
fn startup_banner_lists_the_filter() {
    let all = FilterConfig { process_names: vec![], pids: vec![] };
    assert_eq!(startup_banner(&all), "loghound 已启动，采集全部进程的 OutputDebugString");
    let some = FilterConfig {
        process_names: vec!["a.exe".to_string(), "b \"q\"".to_string()],
        pids: vec![1, 20],
    };
    assert_eq!(
        startup_banner(&some),
        format!(
            "loghound 已启动，采集 进程名={:?} PID={:?} 的 OutputDebugString",
            some.process_names, some.pids
        )
    );
    let blank_only = FilterConfig { process_names: vec!["  ".to_string()], pids: vec![] };
    assert_eq!(startup_banner(&blank_only), "loghound 已启动，采集全部进程的 OutputDebugString");
    let blank_and_pid = FilterConfig { process_names: vec![" ".to_string()], pids: vec![3] };
    assert_eq!(
        startup_banner(&blank_and_pid),
        "loghound 已启动，采集 进程名=[\" \"] PID=[3] 的 OutputDebugString"
    );
    let pids_only = FilterConfig { process_names: vec![], pids: vec![7] };
    assert_eq!(
        startup_banner(&pids_only),
        "loghound 已启动，采集 进程名=[] PID=[7] 的 OutputDebugString"
    );
}

#[test]
fn run_is_the_default_command() {
    let cli = Cli { config: None, command: None };
    assert_eq!(cli.chosen_command(), Command::Run);
    let cli = Cli { config: Some("x.toml".to_string()), command: Some(Command::Install) };
    assert_eq!(cli.chosen_command(), Command::Install);
}

#[test]
fn service_control_replies() {
    assert_eq!(control_reply(ControlRequest::Stop), (true, ControlReply::NoError));
    assert_eq!(control_reply(ControlRequest::Shutdown), (true, ControlReply::NoError));
    assert_eq!(control_reply(ControlRequest::Interrogate), (false, ControlReply::NoError));
    assert_eq!(control_reply(ControlRequest::Other), (false, ControlReply::NotImplemented));
}
