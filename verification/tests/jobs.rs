use jobshell::background::{BackgroundManager, JobHandle};
use jobshell::sys::ChildStatus;

// A process id that is no child of the test: every wait on it fails at once.
const NO_CHILD: i32 = 2147483647;

fn numbers(manager: &BackgroundManager) -> Vec<usize> {
    manager.jobs().iter().map(|j| j.job_number).collect()
}

#[test]
fn new_manager_is_empty() {
    let manager = BackgroundManager::new();
    assert!(manager.jobs().is_empty());
    assert_eq!(manager.next_job_number(), 1);
    assert!(manager.can_register());
}

#[test]
fn jobs_are_numbered_from_one() {
    let mut manager = BackgroundManager::new();
    let first = manager.add_job(500, "sleep 1".to_string());
    let second = manager.add_job(501, "sleep 2".to_string());
    assert_eq!(first, JobHandle { job_number: 1, pid: 500 });
    assert_eq!(second, JobHandle { job_number: 2, pid: 501 });
    assert_eq!(numbers(&manager), vec![1, 2]);
    assert_eq!(manager.jobs()[1].command, "sleep 2");
    assert!(!manager.jobs()[0].finished);
    assert_eq!(manager.next_job_number(), 3);
}

#[test]
fn job_numbers_are_never_reused() {
    let mut manager = BackgroundManager::new();
    manager.add_job(10, "a".to_string());
    manager.add_job(11, "b".to_string());
    manager.add_job(12, "c".to_string());
    let done = manager.reap(&vec![
        ChildStatus::StillAlive,
        ChildStatus::Exited(0),
        ChildStatus::Signaled,
    ]);
    assert_eq!(done.len(), 2);
    assert_eq!(numbers(&manager), vec![1]);
    let next = manager.add_job(13, "d".to_string());
    assert_eq!(next.job_number, 4);
    let done = manager.reap(&vec![ChildStatus::Exited(1), ChildStatus::Exited(0)]);
    assert_eq!(done.len(), 2);
    assert!(manager.jobs().is_empty());
    let next = manager.add_job(14, "e".to_string());
    assert_eq!(next.job_number, 5);
    manager.wait_all();
    assert_eq!(manager.add_job(15, "f".to_string()).job_number, 6);
}

#[test]
fn reap_removes_exactly_the_terminated() {
    let mut manager = BackgroundManager::new();
    for (i, name) in ["a", "b", "c", "d", "e", "f", "g"].iter().enumerate() {
        manager.add_job(100 + i as i32, name.to_string());
    }
    let done = manager.reap(&vec![
        ChildStatus::Exited(0),
        ChildStatus::StillAlive,
        ChildStatus::Signaled,
        ChildStatus::Stopped,
        ChildStatus::Continued,
        ChildStatus::Failed,
        ChildStatus::Traced,
    ]);
    let reported: Vec<(usize, i32, String, bool)> = done
        .iter()
        .map(|j| (j.job_number, j.pid, j.command.clone(), j.finished))
        .collect();
    assert_eq!(
        reported,
        vec![(1, 100, "a".to_string(), true), (3, 102, "c".to_string(), true)]
    );
    assert_eq!(numbers(&manager), vec![2, 4, 5, 6, 7]);
    assert!(manager.jobs().iter().all(|j| !j.finished));
    assert_eq!(manager.jobs()[0].pid, 101);
    assert_eq!(manager.jobs()[0].command, "b");
    assert_eq!(manager.next_job_number(), 8);
}

#[test]
fn reap_of_nothing_changes_nothing() {
    let mut manager = BackgroundManager::new();
    assert!(manager.reap(&Vec::new()).is_empty());
    manager.add_job(1, "x".to_string());
    assert!(manager.reap(&vec![ChildStatus::StillAlive]).is_empty());
    assert_eq!(numbers(&manager), vec![1]);
}

#[test]
fn terminated_means_exited_or_signaled() {
    assert!(ChildStatus::Exited(3).is_terminated());
    assert!(ChildStatus::Signaled.is_terminated());
    assert!(!ChildStatus::StillAlive.is_terminated());
    assert!(!ChildStatus::Stopped.is_terminated());
    assert!(!ChildStatus::Continued.is_terminated());
    assert!(!ChildStatus::Traced.is_terminated());
    assert!(!ChildStatus::Failed.is_terminated());
}

#[test]
fn job_whose_wait_fails_stays_live() {
    let mut manager = BackgroundManager::new();
    manager.add_job(NO_CHILD, "ghost".to_string());
    let statuses = manager.poll_jobs();
    assert_eq!(statuses, vec![ChildStatus::Failed]);
    let done = manager.check_and_cleanup_jobs();
    assert!(done.is_empty());
    assert_eq!(numbers(&manager), vec![1]);
    assert_eq!(manager.next_job_number(), 2);
}

#[test]
fn wait_all_clears_the_live_set() {
    let mut manager = BackgroundManager::new();
    manager.add_job(NO_CHILD, "ghost".to_string());
    manager.add_job(NO_CHILD - 1, "other".to_string());
    manager.wait_all();
    assert!(manager.jobs().is_empty());
    assert_eq!(manager.next_job_number(), 3);
}

#[test]
fn announcement_shows_number_and_pid() {
    let mut manager = BackgroundManager::new();
    let handle = manager.add_job(4242, "sleep 1".to_string());
    assert_eq!(handle.announcement(), "[1] 4242");
    assert_eq!(JobHandle { job_number: 120, pid: 7 }.announcement(), "[120] 7");
    assert_eq!(JobHandle { job_number: 10, pid: -1 }.announcement(), "[10] -1");
    assert_eq!(
        JobHandle { job_number: 0, pid: i32::MIN }.announcement(),
        "[0] -2147483648"
    );
}

#[test]
fn finished_job_is_reported_as_done() {
    let mut manager = BackgroundManager::new();
    manager.add_job(4242, "sleep 1".to_string());
    let done = manager.reap(&vec![ChildStatus::Exited(0)]);
    assert_eq!(done.len(), 1);
    assert_eq!(done[0].done_line(), "[1] + done sleep 1");
}

#[test]
fn listing_shows_live_jobs_in_order() {
    let mut manager = BackgroundManager::new();
    assert_eq!(manager.list_jobs(), vec!["No active background processes.".to_string()]);
    manager.add_job(31, "sleep 5".to_string());
    manager.add_job(32, "cat | wc -l".to_string());
    assert_eq!(
        manager.list_jobs(),
        vec!["[1]+ 31 sleep 5".to_string(), "[2]+ 32 cat | wc -l".to_string()]
    );
    assert_eq!(numbers(&manager), vec![1, 2]);
}
