//! Decisions around the filesystem tools: when a moved artifact counts as
//! ready, and how the incremental copier is invoked.

use crate::error::Error;
use crate::paths::{ends_with, join, joined_path, path_ends_with};
use crate::text::{lemma_texts_push, texts};
use vstd::prelude::*;

verus! {

/// How many failed probes are followed by another one.
pub const READY_ATTEMPTS: u32 = 100;

/// How long to wait between two probes, in milliseconds.
pub const READY_RETRY_MILLIS: u64 = 100;

/// One look at a file: whether it exists, and whether another process
/// holds it open.
#[derive(PartialEq, Eq, Structural, Copy, Clone, Debug)]
pub struct Probe {
    pub exists: bool,
    pub held: bool,
}

/// What to do after a probe.
#[derive(PartialEq, Eq, Structural, Copy, Clone, Debug)]
pub enum PollAction {
    /// The file is there and free.
    Ready,
    /// Sleep this long, then probe again.
    Retry { sleep_millis: u64 },
    /// Give up.
    Fail(Error),
}

/// Whether a probe found the file ready: it exists and nobody holds it.
pub open spec fn is_ready(probe: Probe) -> bool {
    probe.exists && !probe.held
}

/// The decision after a probe, given how many probes have failed before,
/// and the new count of failed probes.
///
/// A ready file ends the wait. Up to [`READY_ATTEMPTS`] failed probes are
/// each followed by a retry; the next failed probe gives up, with
/// `FileNotFound` if the file is missing and `FileNotReady` if it is held.
pub open spec fn poll_step(attempts: u32, probe: Probe) -> (u32, PollAction) {
    if is_ready(probe) {
        (attempts, PollAction::Ready)
    } else if attempts >= READY_ATTEMPTS {
        (
            attempts,
            PollAction::Fail(
                if probe.exists {
                    Error::FileNotReady
                } else {
                    Error::FileNotFound
                },
            ),
        )
    } else {
        ((attempts + 1) as u32, PollAction::Retry { sleep_millis: READY_RETRY_MILLIS })
    }
}

/// The outcome of a wait that sees `probes` in order, starting after
/// `attempts` failed probes: the first decision that is not a retry, or a
/// retry if every probe asks for one.
pub open spec fn poll_outcome(attempts: u32, probes: Seq<Probe>) -> PollAction
    decreases probes.len(),
{
    if probes.len() == 0 {
        PollAction::Retry { sleep_millis: READY_RETRY_MILLIS }
    } else {
        let (next, action) = poll_step(attempts, probes.first());
        if action is Retry {
            poll_outcome(next, probes.drop_first())
        } else {
            action
        }
    }
}

/// A wait that has seen enough probes has ended: with more probes than
/// retries are left, the outcome is not another retry.
pub proof fn lemma_wait_is_bounded(attempts: u32, probes: Seq<Probe>)
    requires
        attempts <= READY_ATTEMPTS,
        attempts + probes.len() > READY_ATTEMPTS,
    ensures
        !(poll_outcome(attempts, probes) is Retry),
    decreases probes.len(),
{
    let (next, action) = poll_step(attempts, probes.first());
    if action is Retry {
        lemma_wait_is_bounded(next, probes.drop_first());
    }
}

/// The wait for one file to become ready.
pub struct ReadinessPoll {
    attempts: u32,
}

impl ReadinessPoll {
    /// How many probes have failed so far.
    pub closed spec fn attempts(&self) -> u32 {
        self.attempts
    }

    /// A wait that has not probed yet.
    pub fn new() -> (poll: ReadinessPoll)
        ensures
            poll.attempts() == 0,
    {
        ReadinessPoll { attempts: 0 }
    }

    /// Takes the result of one probe and decides: see [`poll_step`].
    pub fn observe(&mut self, probe: Probe) -> (action: PollAction)
        ensures
            (final(self).attempts(), action) == poll_step(old(self).attempts(), probe),
    {
        if probe.exists && !probe.held {
            PollAction::Ready
        } else if self.attempts >= READY_ATTEMPTS {
            PollAction::Fail(
                if probe.exists {
                    Error::FileNotReady
                } else {
                    Error::FileNotFound
                },
            )
        } else {
            self.attempts = self.attempts + 1;
            PollAction::Retry { sleep_millis: READY_RETRY_MILLIS }
        }
    }
}

/// Decides a whole wait from the probes it would see, in order: see
/// [`poll_outcome`].
pub fn wait_until_file_ready(probes: &Vec<Probe>) -> (outcome: PollAction)
    ensures
        outcome == poll_outcome(0, probes@),
{
    let mut poll = ReadinessPoll::new();
    let mut i: usize = 0;
    assert(probes@.skip(0) =~= probes@);
    while i < probes.len()
        invariant
            i <= probes.len(),
            poll_outcome(0, probes@) == poll_outcome(poll.attempts(), probes@.skip(i as int)),
        decreases probes.len() - i,
    {
        let ghost rest = probes@.skip(i as int);
        assert(rest.first() == probes@[i as int]);
        assert(rest.drop_first() =~= probes@.skip(i + 1));
        let action = poll.observe(probes[i]);
        match action {
            PollAction::Retry { sleep_millis } => {},
            _ => {
                return action;
            },
        }
        i += 1;
    }
    assert(probes@.skip(probes.len() as int) =~= Seq::<Probe>::empty());
    PollAction::Retry { sleep_millis: READY_RETRY_MILLIS }
}

/// The name of the ignore file that the incremental copier honours.
pub const GITIGNORE_FILE: &'static str = ".gitignore";

/// A path written so that the copier takes the directory's contents: the
/// path itself where it ends with the root component, and else the path
/// with a slash appended.
pub open spec fn with_slash(path: Seq<char>) -> Seq<char> {
    if path_ends_with(path, "/"@) {
        path
    } else {
        path + "/"@
    }
}

/// The arguments of the incremental copier: archive mode, the exclusion
/// list if the source has an ignore file, then source and destination.
pub open spec fn rsync_arguments(from: Seq<char>, to: Seq<char>, gitignore_exists: bool) -> Seq<
    Seq<char>,
> {
    let head = if gitignore_exists {
        seq!["-a"@, "--exclude-from="@ + joined_path(from, GITIGNORE_FILE@)]
    } else {
        seq!["-a"@]
    };
    head + seq![with_slash(from), with_slash(to)]
}

fn slashed(path: &str) -> (r: String)
    ensures
        r@ == with_slash(path@),
{
    let mut r = String::from_str(path);
    if !ends_with(path, "/") {
        r.append("/");
    }
    r
}

/// The path of the ignore file of a source directory.
pub fn gitignore_path(from: &str) -> (r: String)
    ensures
        r@ == joined_path(from@, GITIGNORE_FILE@),
{
    join(from, GITIGNORE_FILE)
}

/// Plans the incremental copy of `from` into `to`: the arguments that
/// `rsync` is to be called with, given whether the source holds an ignore
/// file. See [`rsync_arguments`].
pub fn copy_dir_with_rsync(from: &str, to: &str, gitignore_exists: bool) -> (args: Vec<String>)
    ensures
        texts(args@) == rsync_arguments(from@, to@, gitignore_exists),
{
    broadcast use lemma_texts_push;

    let mut args: Vec<String> = Vec::new();
    assert(texts(args@) =~= Seq::<Seq<char>>::empty());
    args.push(String::from_str("-a"));
    if gitignore_exists {
        let mut exclude = String::from_str("--exclude-from=");
        exclude.append(gitignore_path(from).as_str());
        args.push(exclude);
    }
    args.push(slashed(from));
    args.push(slashed(to));
    assert(texts(args@) =~= rsync_arguments(from@, to@, gitignore_exists));
    args
}

} // verus!
