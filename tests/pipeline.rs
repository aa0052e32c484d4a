use cargo_cook::pipeline::{hook_name, hook_outcome, AbortReason, Action, Event, Run, Stage};
use cargo_cook::plan::ConfigError;

fn strings(v: &[&str]) -> Vec<String> {
    v.iter().map(|s| s.to_string()).collect()
}

fn drive(mut run: Run, events: &[Event]) -> Vec<Action> {
    let mut out = Vec::new();
    for e in events {
        let (next, a) = run.step(*e);
        run = next;
        out.push(a);
    }
    out
}

#[test]
fn unsupported_container_aborts_before_any_work() {
    let (run, a) = Run::start(&strings(&["tar", "rar"]), &None, &None, false);
    assert_eq!(a, Action::Abort(AbortReason::Config(ConfigError::UnsupportedContainer(1))));
    assert_eq!(run.stage, Stage::Aborted);
    assert_eq!(drive(run, &[Event::Succeeded, Event::Succeeded]), vec![Action::Stop, Action::Stop]);
}

#[test]
fn full_run_orders_archives_hashes_and_deploys() {
    let (run, a) = Run::start(
        &strings(&["tar", "zip"]),
        &Some(strings(&["md5", "sha256"])),
        &Some(strings(&["fs"])),
        false,
    );
    assert_eq!(a, Action::RunPreHook);
    let actions = drive(run, &[Event::Succeeded; 10]);
    assert_eq!(
        actions,
        vec![
            Action::Resolve,
            Action::WriteArchive(0),
            Action::WriteHash(0, 0),
            Action::WriteHash(0, 1),
            Action::WriteArchive(1),
            Action::WriteHash(1, 0),
            Action::WriteHash(1, 1),
            Action::Deploy(0),
            Action::RunPostHook,
            Action::Finish,
        ]
    );
}

#[test]
fn pre_cook_exit_failure_still_builds_archives() {
    let (run, _) = Run::start(&strings(&["tar"]), &None, &None, false);
    let actions = drive(run, &[Event::Refused, Event::Succeeded, Event::Succeeded, Event::Succeeded]);
    assert_eq!(actions, vec![Action::Resolve, Action::WriteArchive(0), Action::RunPostHook, Action::Finish]);
}

#[test]
fn pre_cook_launch_failure_aborts() {
    let (run, _) = Run::start(&strings(&["tar"]), &None, &None, false);
    assert_eq!(drive(run, &[Event::Failed, Event::Succeeded]), vec![Action::Abort(AbortReason::StepFailed), Action::Stop]);
}

#[test]
fn pre_cook_exit_failure_aborts_when_asked() {
    let (run, _) = Run::start(&strings(&["tar"]), &None, &None, true);
    assert_eq!(drive(run, &[Event::Refused]), vec![Action::Abort(AbortReason::PreCookFailed)]);
}

#[test]
fn failed_deploy_target_does_not_stop_the_others() {
    let (run, _) = Run::start(&strings(&["tar"]), &None, &Some(strings(&["fs", "fs", "fs"])), false);
    let actions = drive(
        run,
        &[Event::Succeeded, Event::Succeeded, Event::Succeeded, Event::Succeeded, Event::Refused, Event::Succeeded, Event::Succeeded],
    );
    assert_eq!(
        actions,
        vec![
            Action::Resolve,
            Action::WriteArchive(0),
            Action::Deploy(0),
            Action::Deploy(1),
            Action::Deploy(2),
            Action::RunPostHook,
            Action::Finish,
        ]
    );
}

#[test]
fn archive_write_failure_aborts() {
    let (run, _) = Run::start(&strings(&["tar"]), &Some(strings(&["md5"])), &None, false);
    let actions = drive(run, &[Event::Succeeded, Event::Succeeded, Event::Failed]);
    assert_eq!(actions, vec![Action::Resolve, Action::WriteArchive(0), Action::Abort(AbortReason::StepFailed)]);
}

#[test]
fn hook_outcomes_and_names() {
    assert_eq!(hook_outcome(false, false, false), Event::Succeeded);
    assert_eq!(hook_outcome(true, false, false), Event::Failed);
    assert_eq!(hook_outcome(true, true, true), Event::Succeeded);
    assert_eq!(hook_outcome(true, true, false), Event::Refused);
    assert_eq!(hook_name(true), "Pre-cook");
    assert_eq!(hook_name(false), "Post-cook");
}
