use mongo_setup::plan::{plan_for_os, InstallPlan, InstallationStep, Platform, Procedure};
use mongo_setup::progress::ProgressEvent;
use mongo_setup::sequencer::{Directive, Reaction, RunState, StepEvent, StepSequencer};

fn shell_step(name: &str) -> InstallationStep {
    InstallationStep {
        description: name.to_string(),
        procedure: Procedure::Shell(format!("run {}", name)),
        needs_secret: false,
        failure_prefix: format!("Failed to spawn {}", name),
    }
}

fn five_step_plan() -> InstallPlan {
    InstallPlan {
        platform: Platform::Linux,
        steps: vec![
            shell_step("one"),
            shell_step("two"),
            shell_step("three"),
            shell_step("four"),
            shell_step("five"),
        ],
    }
}

fn lines(r: &Reaction) -> Vec<(String, bool)> {
    r.events
        .iter()
        .map(|e| match e {
            ProgressEvent::LogLine(l) => (l.clone(), false),
            ProgressEvent::ErrorLine(l) => (l.clone(), true),
            ProgressEvent::Step(p) => (p.message.clone(), p.is_error),
            _ => (String::new(), false),
        })
        .collect()
}

#[test]
fn failing_third_step_stops_the_run() {
    let mut s = StepSequencer::new(five_step_plan());
    let mut all: Vec<(String, bool)> = Vec::new();
    let r = s.start();
    assert_eq!(r.directive, Directive::Launch(0));
    all.extend(lines(&r));
    for _ in 0..2 {
        let r = s.on_event(StepEvent::Terminated(Some(0)));
        all.extend(lines(&r));
    }
    let r = s.on_event(StepEvent::Terminated(Some(1)));
    assert_eq!(r.directive, Directive::Finished);
    all.extend(lines(&r));
    let r = s.on_event(StepEvent::Terminated(Some(0)));
    assert_eq!(r.directive, Directive::Finished);
    assert!(r.events.is_empty());
    let starts = all.iter().filter(|(l, _)| l.ends_with(" - Starting")).count();
    let errors = all.iter().filter(|(_, e)| *e).count();
    assert_eq!(starts, 3);
    assert_eq!(errors, 1);
    assert!(!all.iter().any(|(l, _)| l.starts_with("[Step 4/5]")));
    assert_eq!(s.state(), RunState::Failed(2));
    assert_eq!(
        s.outcome(),
        Some(Err("Command failed with exit code 1 during step 3: three".to_string()))
    );
}

#[test]
fn steps_run_in_declared_order() {
    let mut s = StepSequencer::new(five_step_plan());
    let mut launched = Vec::new();
    if let Directive::Launch(i) = s.start().directive {
        launched.push(i);
    }
    for _ in 0..5 {
        let r = s.on_event(StepEvent::Stdout("working".to_string()));
        assert_eq!(r.directive, Directive::Wait);
        match s.on_event(StepEvent::Terminated(Some(0))).directive {
            Directive::Launch(i) => launched.push(i),
            Directive::Finished => {}
            d => panic!("unexpected {:?}", d),
        }
    }
    assert_eq!(launched, vec![0, 1, 2, 3, 4]);
    assert_eq!(s.state(), RunState::Succeeded);
    assert_eq!(s.outcome(), Some(Ok(())));
}

#[test]
fn linux_run_asks_for_the_secret_first() {
    let plan = plan_for_os("linux").ok().unwrap();
    let mut s = StepSequencer::new(plan);
    assert_eq!(s.total_steps(), 7);
    let r = s.start();
    assert_eq!(r.directive, Directive::RequestSecret);
    assert!(r.events.is_empty());
    let r = s.provide_secret("pw".to_string());
    assert_eq!(r.directive, Directive::Launch(0));
    assert_eq!(
        lines(&r),
        vec![("[Step 1/7] Updating package database - Starting".to_string(), false)]
    );
    assert_eq!(
        s.command_line(0),
        Some("echo pw | sudo -S bash -c 'apt-get update' 2>&1".to_string())
    );
}

#[test]
fn linux_output_lines_are_tagged() {
    let mut s = StepSequencer::new(InstallPlan::linux());
    s.start();
    s.provide_secret("pw".to_string());
    let r = s.on_event(StepEvent::Stdout("Reading package lists".to_string()));
    assert_eq!(lines(&r), vec![("[Step 1/7] Reading package lists".to_string(), false)]);
    let r = s.on_event(StepEvent::Stderr("warning".to_string()));
    assert_eq!(lines(&r), vec![("[Step 1/7] ERROR: warning".to_string(), true)]);
    let r = s.on_event(StepEvent::Terminated(Some(0)));
    assert_eq!(
        lines(&r),
        vec![
            ("[Step 1/7] Updating package database - Completed".to_string(), false),
            ("[Step 2/7] Installing dependencies - Starting".to_string(), false),
        ]
    );
    assert_eq!(r.directive, Directive::Launch(1));
}

#[test]
fn signal_and_spawn_failures_are_reported() {
    let mut s = StepSequencer::new(InstallPlan::linux());
    s.start();
    s.provide_secret("pw".to_string());
    let r = s.on_event(StepEvent::Terminated(None));
    assert_eq!(
        lines(&r),
        vec![(
            "Command was terminated by a signal during step 1: Updating package database".to_string(),
            true
        )]
    );
    let mut t = StepSequencer::new(InstallPlan::linux());
    t.start();
    t.provide_secret("pw".to_string());
    t.on_event(StepEvent::Terminated(Some(0)));
    let r = t.on_event(StepEvent::Aborted("not found".to_string()));
    assert_eq!(
        t.outcome(),
        Some(Err("Failed to spawn command at step 2: not found".to_string()))
    );
    assert_eq!(r.directive, Directive::Finished);
    assert_eq!(t.state(), RunState::Failed(1));
}

#[test]
fn negative_exit_code_is_written_with_sign() {
    let mut s = StepSequencer::new(five_step_plan());
    s.start();
    s.on_event(StepEvent::Terminated(Some(-2)));
    assert_eq!(
        s.outcome(),
        Some(Err("Command failed with exit code -2 during step 1: one".to_string()))
    );
}

#[test]
fn missing_secret_fails_before_any_step() {
    let mut s = StepSequencer::new(InstallPlan::linux());
    s.start();
    let r = s.secret_unavailable("deadline has elapsed".to_string());
    assert_eq!(r.directive, Directive::Finished);
    assert_eq!(s.state(), RunState::Failed(0));
    assert_eq!(s.outcome(), Some(Err("deadline has elapsed".to_string())));
}

#[test]
fn windows_run_uses_structured_notices() {
    let mut s = StepSequencer::new(InstallPlan::windows());
    let r = s.start();
    assert_eq!(r.directive, Directive::Launch(0));
    match &r.events[0] {
        ProgressEvent::Step(p) => {
            assert_eq!((p.step, p.total_steps, p.is_error), (1, 5, false));
            assert_eq!(p.message, "Creating MongoDB data directory");
        }
        _ => panic!("expected a step notice"),
    }
    assert!(s.command_line(0).is_none());
    s.on_event(StepEvent::Terminated(Some(0)));
    let r = s.on_event(StepEvent::Aborted("timed out".to_string()));
    match &r.events[0] {
        ProgressEvent::Step(p) => {
            assert_eq!((p.step, p.is_error), (2, true));
            assert_eq!(p.message, "Failed to download MongoDB installer: timed out");
        }
        _ => panic!("expected a step notice"),
    }
}

#[test]
fn windows_run_completes() {
    let mut s = StepSequencer::new(InstallPlan::windows());
    s.start();
    let mut last = None;
    for _ in 0..5 {
        last = Some(s.on_event(StepEvent::Terminated(Some(0))));
    }
    let r = last.unwrap();
    assert_eq!(r.directive, Directive::Finished);
    match &r.events[0] {
        ProgressEvent::Step(p) => {
            assert_eq!((p.step, p.total_steps), (5, 5));
            assert_eq!(p.message, "MongoDB installation completed successfully");
        }
        _ => panic!("expected a step notice"),
    }
}

#[test]
fn unknown_platform_is_rejected() {
    match plan_for_os("macos") {
        Err(m) => assert_eq!(m, "Unsupported operating system: macos"),
        Ok(_) => panic!("no plan expected"),
    }
    assert!(plan_for_os("windows").is_ok());
}

#[test]
fn cancelling_a_running_step_fails_the_run() {
    let mut s = StepSequencer::new(five_step_plan());
    s.start();
    s.on_event(StepEvent::Terminated(Some(0)));
    let r = s.cancel();
    assert_eq!(r.directive, Directive::Finished);
    assert_eq!(s.state(), RunState::Failed(1));
    assert_eq!(s.outcome(), Some(Err("Installation cancelled".to_string())));
    let r = s.cancel();
    assert!(r.events.is_empty());
    assert_eq!(s.state(), RunState::Failed(1));
}
