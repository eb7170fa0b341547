use parabuild::filesystem_utils::{
    copy_dir_with_rsync, gitignore_path, wait_until_file_ready, PollAction, Probe, ReadinessPoll,
    READY_ATTEMPTS, READY_RETRY_MILLIS,
};
use parabuild::Error;

const MISSING: Probe = Probe { exists: false, held: false };
const HELD: Probe = Probe { exists: true, held: true };
const FREE: Probe = Probe { exists: true, held: false };

#[test]
fn poll_constants() {
    assert_eq!(READY_ATTEMPTS, 100);
    assert_eq!(READY_RETRY_MILLIS, 100);
}

#[test]
fn a_free_file_is_ready_at_once() {
    let mut poll = ReadinessPoll::new();
    assert_eq!(poll.observe(FREE), PollAction::Ready);
    assert_eq!(wait_until_file_ready(&vec![FREE]), PollAction::Ready);
}

#[test]
fn a_held_file_is_retried_then_ready() {
    let mut poll = ReadinessPoll::new();
    assert_eq!(poll.observe(HELD), PollAction::Retry { sleep_millis: 100 });
    assert_eq!(poll.observe(MISSING), PollAction::Retry { sleep_millis: 100 });
    assert_eq!(poll.observe(FREE), PollAction::Ready);
}

#[test]
fn the_wait_gives_up_after_the_cap() {
    let mut poll = ReadinessPoll::new();
    for _ in 0..100 {
        assert_eq!(poll.observe(HELD), PollAction::Retry { sleep_millis: 100 });
    }
    assert_eq!(poll.observe(HELD), PollAction::Fail(Error::FileNotReady));
    assert_eq!(poll.observe(MISSING), PollAction::Fail(Error::FileNotFound));
    assert_eq!(poll.observe(FREE), PollAction::Ready);
}

#[test]
fn whole_waits() {
    assert_eq!(wait_until_file_ready(&Vec::new()), PollAction::Retry { sleep_millis: 100 });
    assert_eq!(wait_until_file_ready(&vec![HELD; 100]), PollAction::Retry { sleep_millis: 100 });
    assert_eq!(wait_until_file_ready(&vec![HELD; 101]), PollAction::Fail(Error::FileNotReady));
    assert_eq!(wait_until_file_ready(&vec![MISSING; 101]), PollAction::Fail(Error::FileNotFound));
    let mut probes = vec![MISSING; 100];
    probes.push(FREE);
    assert_eq!(wait_until_file_ready(&probes), PollAction::Ready);
    let mut probes = vec![HELD; 100];
    probes.push(MISSING);
    probes.push(FREE);
    assert_eq!(wait_until_file_ready(&probes), PollAction::Fail(Error::FileNotFound));
}

#[test]
fn rsync_arguments_without_ignore_file() {
    let args = copy_dir_with_rsync("project", "ws/workspace_0", false);
    assert_eq!(args, vec!["-a".to_string(), "project/".to_string(), "ws/workspace_0/".to_string()]);
}

#[test]
fn rsync_arguments_with_ignore_file() {
    let args = copy_dir_with_rsync("/src/project", "/tmp/ws", true);
    assert_eq!(
        args,
        vec![
            "-a".to_string(),
            "--exclude-from=/src/project/.gitignore".to_string(),
            "/src/project/".to_string(),
            "/tmp/ws/".to_string(),
        ]
    );
}

#[test]
fn rsync_arguments_keep_the_root_as_it_is() {
    let args = copy_dir_with_rsync("/", "dest", false);
    assert_eq!(args, vec!["-a".to_string(), "/".to_string(), "dest/".to_string()]);
}

#[test]
fn gitignore_is_in_the_source() {
    assert_eq!(gitignore_path("project"), "project/.gitignore");
}
