use wiredforge::refresh::{first_step, next_step, LastInfo, RefreshStep};

#[test]
fn recorded_server_is_only_stopped() {
    let step = first_step(LastInfo::Pid(4242));
    assert_eq!(step, RefreshStep::Kill(4242));
    assert_eq!(next_step(step, None), RefreshStep::Finish);
}

#[test]
fn fresh_run_pulls_builds_launches_and_records() {
    let mut steps = vec![first_step(LastInfo::Missing)];
    let launched = [None, None, Some(77), None];
    for l in launched {
        let last = *steps.last().unwrap();
        steps.push(next_step(last, l));
    }
    assert_eq!(
        steps,
        vec![RefreshStep::Pull, RefreshStep::Build, RefreshStep::Launch, RefreshStep::Record(77), RefreshStep::Finish]
    );
}

#[test]
fn failed_launch_records_nothing() {
    assert_eq!(next_step(RefreshStep::Launch, None), RefreshStep::Finish);
}

#[test]
fn unusable_record_ends_the_run() {
    assert_eq!(first_step(LastInfo::Unreadable), RefreshStep::Finish);
    assert_eq!(first_step(LastInfo::Invalid), RefreshStep::Finish);
    assert_eq!(next_step(RefreshStep::Finish, Some(1)), RefreshStep::Finish);
}
