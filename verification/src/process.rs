//! Starting, watching and stopping the tools in `bin/`.
//!
//! A tool is watched by asking again and again whether it has ended ([`poll`]), and is stopped
//! together with everything it started: yt-dlp's release binaries run the actual program as a
//! child process, and yt-dlp itself starts ffmpeg.
use vstd::prelude::*;

use crate::text;

verus! {

/// What a finished tool printed.
#[derive(Debug, Clone, PartialEq, Eq)]
pub struct Output {
    /// Whether it exited with success.
    pub success: bool,
    pub stdout: String,
    pub stderr: String,
}

/// Why a tool has no output.
#[derive(Debug, Clone, PartialEq, Eq)]
pub enum RunError {
    Spawn(String),
    Wait(String),
    TimedOut,
}

/// What came of asking whether a tool has ended.
#[derive(Debug, Clone, PartialEq, Eq)]
pub enum Waited {
    Ended,
    Running,
    Failed(String),
}

/// What to do about a tool that is being watched.
#[derive(Debug, Clone, PartialEq, Eq)]
pub enum Watch {
    /// It has ended: collect what it printed.
    Collect,
    /// Sleep this many milliseconds and ask again.
    Sleep(u64),
    /// Kill it with everything it started, wait for it, and report this.
    Kill(RunError),
}

/// How long to sleep between two looks at a running tool, in milliseconds.
pub const POLL_MILLIS: u64 = 50;

/// What to do about a tool that has run for `elapsed` and may run for `limit`, in the same unit.
pub fn poll(waited: Waited, elapsed: u128, limit: u128) -> (r: Watch)
    ensures
        r == (match waited {
            Waited::Ended => Watch::Collect,
            Waited::Running => if elapsed > limit {
                Watch::Kill(RunError::TimedOut)
            } else {
                Watch::Sleep(POLL_MILLIS)
            },
            Waited::Failed(e) => Watch::Kill(RunError::Wait(e)),
        }),
{
    match waited {
        Waited::Ended => Watch::Collect,
        Waited::Running => if elapsed > limit {
            Watch::Kill(RunError::TimedOut)
        } else {
            Watch::Sleep(POLL_MILLIS)
        },
        Waited::Failed(e) => Watch::Kill(RunError::Wait(e)),
    }
}

/// What some bytes read as, with what is not UTF-8 in them replaced.
pub uninterp spec fn lossy(bytes: Seq<u8>) -> Seq<char>;

/// Reads bytes with `String::from_utf8_lossy`, which depends on the bytes alone, replaces what is
/// not UTF-8, and leaves bytes that are UTF-8 as the text they stand for.
#[verifier::external_body]
fn decode(bytes: &[u8]) -> (r: String)
    ensures
        r@ == lossy(bytes@),
        vstd::utf8::valid_utf8(bytes@) ==> r@ == vstd::utf8::decode_utf8(bytes@),
{
    String::from_utf8_lossy(bytes).into_owned()
}

/// Whether `printed` is what a reader has collected in `bytes`: what is not UTF-8 in it is replaced
/// rather than dropped, and a reader that failed has nothing to add.
pub open spec fn reads_as(bytes: Option<Vec<u8>>, printed: Seq<char>) -> bool {
    match bytes {
        Some(bytes) => {
            &&& printed == lossy(bytes@)
            &&& vstd::utf8::valid_utf8(bytes@) ==> printed == vstd::utf8::decode_utf8(bytes@)
        },
        None => printed == Seq::<char>::empty(),
    }
}

/// What a reader has collected, as text.
fn read(bytes: Option<Vec<u8>>) -> (r: String)
    ensures
        reads_as(bytes, r@),
{
    match bytes {
        Some(bytes) => decode(bytes.as_slice()),
        None => String::new(),
    }
}

/// What a tool printed, from what the readers of its two pipes have collected. Bytes that are not
/// UTF-8 are replaced, so one odd byte in a path does not cost the answer.
pub fn collect(success: bool, stdout: Option<Vec<u8>>, stderr: Option<Vec<u8>>) -> (r: Output)
    ensures
        r.success == success,
        reads_as(stdout, r.stdout@),
        reads_as(stderr, r.stderr@),
{
    Output { success, stdout: read(stdout), stderr: read(stderr) }
}

/// The number that addresses the process group led by the process `pid`, where there is one: a
/// negative number stands for a group.
pub fn kill_target(pid: u32) -> (r: Option<i32>)
    ensures
        match r {
            Some(target) => pid <= i32::MAX && target == -pid,
            None => pid > i32::MAX,
        },
{
    if pid <= 2147483647 {
        Some(-(pid as i32))
    } else {
        None
    }
}

/// The arguments that make `taskkill` end a process with everything it started.
pub fn taskkill_args(pid: u32) -> (r: Vec<String>)
    ensures
        text::texts(r@) == seq!["/PID"@, text::decimal(pid as nat), "/T"@, "/F"@],
{
    let mut r: Vec<String> = Vec::new();
    r.push("/PID".to_owned());
    r.push(text::decimal_text(pid as u64));
    r.push("/T".to_owned());
    r.push("/F".to_owned());
    proof {
        assert(text::texts(r@) =~= seq!["/PID"@, text::decimal(pid as nat), "/T"@, "/F"@]);
    }
    r
}

/// A tool that is still running is left alone until it has run for longer than it may, and is
/// never left running after that.
pub proof fn law_a_running_tool_is_killed_exactly_when_it_is_late(
    elapsed: u128,
    limit: u128,
    watch: Watch,
)
    requires
        call_ensures(poll, (Waited::Running, elapsed, limit), watch),
    ensures
        watch is Kill <==> elapsed > limit,
        watch is Sleep <==> elapsed <= limit,
{
}

/// A tool that has ended is never killed, one that can't be watched any more is, with the reason,
/// and one that is late timed out. Between two looks the watcher sleeps for 50 milliseconds.
pub proof fn law_a_tool_is_watched_to_its_end(
    elapsed: u128,
    limit: u128,
    e: String,
    ended: Watch,
    running: Watch,
    lost: Watch,
)
    requires
        call_ensures(poll, (Waited::Ended, elapsed, limit), ended),
        call_ensures(poll, (Waited::Running, elapsed, limit), running),
        call_ensures(poll, (Waited::Failed(e), elapsed, limit), lost),
    ensures
        ended is Collect,
        lost == Watch::Kill(RunError::Wait(e)),
        running is Kill ==> running == Watch::Kill(RunError::TimedOut),
        running is Sleep ==> running == Watch::Sleep(50),
{
}

/// What a tool printed is kept apart by where it was printed to, and is there even where the other
/// reader failed.
pub proof fn law_what_was_printed_is_kept_apart(
    success: bool,
    stdout: Option<Vec<u8>>,
    stderr: Option<Vec<u8>>,
    r: Output,
)
    requires
        call_ensures(collect, (success, stdout, stderr), r),
    ensures
        r.success == success,
        stdout is Some ==> r.stdout@ == lossy(stdout->0@),
        stdout is None ==> r.stdout@.len() == 0,
        stderr is Some ==> r.stderr@ == lossy(stderr->0@),
        stderr is None ==> r.stderr@.len() == 0,
{
}

/// A whole group of processes is addressed by the negative number of its leader, for every number
/// that has a negative, and by nothing else.
pub proof fn law_a_group_is_addressed_by_its_leader(pid: u32, r: Option<i32>)
    requires
        call_ensures(kill_target, (pid,), r),
    ensures
        r is Some <==> pid <= 0x7fff_ffff,
        r is Some ==> r->0 + pid == 0,
{
}

/// On Windows a process is ended by its number, with its children and by force.
pub proof fn law_a_process_is_ended_with_its_children(pid: u32, r: Vec<String>)
    requires
        call_ensures(taskkill_args, (pid,), r),
    ensures
        r@.len() == 4,
        r@[0]@ == "/PID"@,
        r@[1]@ == text::decimal(pid as nat),
        r@[2]@ == "/T"@,
        r@[3]@ == "/F"@,
{
    let all = text::texts(r@);
    assert(all.len() == r@.len());
    assert(all[0] == r@[0]@ && all[1] == r@[1]@ && all[2] == r@[2]@ && all[3] == r@[3]@);
}

} // verus!
