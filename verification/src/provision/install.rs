//! Downloading, verifying and installing one component, as the steps in between the outside work:
//! [`Install::step`] is handed what came back of an [`Action`] and says what to do next.
use vstd::prelude::*;

use super::paths::Paths;
use super::platform::{Packaging, Source};
use super::sums::{
    check_signature, fetch_sums, signed_file, Checked, SumsFetch, SumsReply, SumsStep,
};
use super::{join_path, paths, short_fingerprint, signature, sums, Component, Error, Event};
use crate::log::Level;
use crate::text;

verus! {

/// What has to be done next.
#[derive(Debug)]
pub enum Action<T = String> {
    /// Create this folder, with the ones above it.
    CreateDir(T),
    /// Fetch the checksum file from this address, logging it (a failure too).
    FetchSums(T),
    /// Fetch a text from this address.
    FetchText(T),
    /// Fetch some bytes from this address.
    FetchBytes(T),
    /// Look up the checksum of `asset` in the checksum file `sums`.
    Find { sums: T, asset: T },
    /// Download `url` into the file `part`, logging it (a failure too), and give its SHA-256.
    Download { url: T, asset: T, part: T },
    /// Remove this file, whether that works or not.
    Remove(T),
    /// Install what is in the file `part`.
    Unpack { packaging: Packaging<T>, part: T },
    /// Record a value in the install state.
    Record { key: T, value: T },
    /// There is nothing left to do.
    Finish(Result<(), Error<T>>),
}

impl View for Action {
    type V = Action<Seq<char>>;

    open spec fn view(&self) -> Action<Seq<char>> {
        match *self {
            Action::CreateDir(dir) => Action::CreateDir(dir@),
            Action::FetchSums(url) => Action::FetchSums(url@),
            Action::FetchText(url) => Action::FetchText(url@),
            Action::FetchBytes(url) => Action::FetchBytes(url@),
            Action::Find { sums, asset } => Action::Find { sums: sums@, asset: asset@ },
            Action::Download { url, asset, part } => Action::Download {
                url: url@,
                asset: asset@,
                part: part@,
            },
            Action::Remove(file) => Action::Remove(file@),
            Action::Unpack { packaging, part } => Action::Unpack {
                packaging: packaging@,
                part: part@,
            },
            Action::Record { key, value } => Action::Record { key: key@, value: value@ },
            Action::Finish(result) => Action::Finish(super::outcome(result)),
        }
    }
}

/// What came back of an [`Action`]. Of a signature that was checked only what that gave is left,
/// `B` being [`Checked`].
#[derive(Debug)]
pub enum Reply<T = String, B = Vec<u8>> {
    Created(Result<(), T>),
    Text(Result<T, Error<T>>),
    Bytes(Result<B, Error<T>>),
    Found(Result<T, Error<T>>),
    Downloaded(Result<T, Error<T>>),
    Removed,
    Unpacked(Result<(), Error<T>>),
    Recorded(Result<(), T>),
}

/// What came back, for contracts.
pub type Raw = Reply<Seq<char>, Seq<u8>>;

/// What came back, in which a signature was checked, for contracts.
pub type Seen = Reply<Seq<char>, Checked<Seq<char>>>;

impl View for Reply {
    type V = Raw;

    open spec fn view(&self) -> Raw {
        match *self {
            Reply::Created(r) => Reply::Created(signature::checking(r)),
            Reply::Text(r) => Reply::Text(super::text_outcome(r)),
            Reply::Bytes(r) => Reply::Bytes(sums::bytes_outcome(r)),
            Reply::Found(r) => Reply::Found(super::text_outcome(r)),
            Reply::Downloaded(r) => Reply::Downloaded(super::text_outcome(r)),
            Reply::Removed => Reply::Removed,
            Reply::Unpacked(r) => Reply::Unpacked(super::outcome(r)),
            Reply::Recorded(r) => Reply::Recorded(signature::checking(r)),
        }
    }
}

impl View for Reply<String, Checked> {
    type V = Seen;

    open spec fn view(&self) -> Seen {
        match *self {
            Reply::Created(r) => Reply::Created(signature::checking(r)),
            Reply::Text(r) => Reply::Text(super::text_outcome(r)),
            Reply::Bytes(r) => Reply::Bytes(sums::checked_outcome(r)),
            Reply::Found(r) => Reply::Found(super::text_outcome(r)),
            Reply::Downloaded(r) => Reply::Downloaded(super::text_outcome(r)),
            Reply::Removed => Reply::Removed,
            Reply::Unpacked(r) => Reply::Unpacked(super::outcome(r)),
            Reply::Recorded(r) => Reply::Recorded(signature::checking(r)),
        }
    }
}

/// What is being installed, from where and into what.
#[derive(Debug)]
pub struct Job<T = String> {
    pub component: Component,
    pub source: Source<T>,
    pub bin_dir: T,
    /// The file the download goes to.
    pub part: T,
    /// What the checksum file is called.
    pub sums_name: T,
}

impl View for Job {
    type V = Job<Seq<char>>;

    open spec fn view(&self) -> Job<Seq<char>> {
        Job {
            component: self.component,
            source: self.source@,
            bin_dir: self.bin_dir@,
            part: self.part@,
            sums_name: self.sums_name@,
        }
    }
}

/// What is awaited.
#[derive(Debug)]
pub enum Phase<T = String> {
    /// The folder to be there.
    Creating,
    /// The checksum file.
    FetchingSums,
    /// Its signature.
    FetchingSignature { sums: T },
    /// A checksum file whose signature is right, asked for again.
    Refetching(SumsFetch<T>),
    /// The checksum of the asset.
    Finding,
    /// The asset.
    Downloading { expected: T },
    /// A newer checksum file, as the asset doesn't match the first one.
    Rechecking { expected: T, actual: T, fetch: SumsFetch<T> },
    /// The checksum of the asset in the newer file.
    Refinding { expected: T, actual: T },
    /// The removal of a download that matches no checksum.
    Discarding { expected: T, actual: T },
    /// The executables to be in place.
    Unpacking { expected: T },
    /// The removal of the download.
    Tidying { expected: T, result: Result<(), Error<T>> },
    /// The checksum to be recorded.
    Recording,
    Finished,
}

impl View for Phase {
    type V = Phase<Seq<char>>;

    open spec fn view(&self) -> Phase<Seq<char>> {
        match *self {
            Phase::Creating => Phase::Creating,
            Phase::FetchingSums => Phase::FetchingSums,
            Phase::FetchingSignature { sums } => Phase::FetchingSignature { sums: sums@ },
            Phase::Refetching(fetch) => Phase::Refetching(fetch@),
            Phase::Finding => Phase::Finding,
            Phase::Downloading { expected } => Phase::Downloading { expected: expected@ },
            Phase::Rechecking { expected, actual, fetch } => Phase::Rechecking {
                expected: expected@,
                actual: actual@,
                fetch: fetch@,
            },
            Phase::Refinding { expected, actual } => Phase::Refinding {
                expected: expected@,
                actual: actual@,
            },
            Phase::Discarding { expected, actual } => Phase::Discarding {
                expected: expected@,
                actual: actual@,
            },
            Phase::Unpacking { expected } => Phase::Unpacking { expected: expected@ },
            Phase::Tidying { expected, result } => Phase::Tidying {
                expected: expected@,
                result: super::outcome(result),
            },
            Phase::Recording => Phase::Recording,
            Phase::Finished => Phase::Finished,
        }
    }
}

/// An installation under way.
#[derive(Debug)]
pub struct Install<T = String> {
    pub job: Job<T>,
    pub phase: Phase<T>,
}

impl View for Install {
    type V = Install<Seq<char>>;

    open spec fn view(&self) -> Install<Seq<char>> {
        Install { job: self.job@, phase: self.phase@ }
    }
}

// ---------------------------------------------------------------------------
// What each step does
// ---------------------------------------------------------------------------

/// What comes of a step: how the installation stands then, what is logged and what to do next.
pub struct Progress {
    pub install: Install<Seq<char>>,
    pub log: Seq<Event<Seq<char>>>,
    pub action: Action<Seq<char>>,
}

/// Whether what is being asked for again is the checksum file of `job`, signed as it has to be.
pub open spec fn fetches_for(job: Job<Seq<char>>, fetch: SumsFetch<Seq<char>>) -> bool {
    &&& fetch.url == job.source.checksum_url
    &&& fetch.signer == job.source.signed_by
    &&& fetch.sums is Some ==> fetch.signer is Some
}

/// The invariant of an installation: whatever is asked for again is signed by the same signer.
pub open spec fn valid(install: Install<Seq<char>>) -> bool {
    match install.phase {
        Phase::FetchingSignature { .. } => install.job.source.signed_by is Some,
        Phase::Refetching(fetch) => {
            &&& fetches_for(install.job, fetch)
            &&& fetch.signer is Some
        },
        Phase::Rechecking { fetch, .. } => fetches_for(install.job, fetch),
        _ => true,
    }
}

/// Whether `reply` is what is awaited.
pub open spec fn awaited<B>(install: Install<Seq<char>>, reply: Reply<Seq<char>, B>) -> bool {
    match install.phase {
        Phase::Creating => reply is Created,
        Phase::FetchingSums => reply is Text,
        Phase::FetchingSignature { .. } => reply is Bytes,
        Phase::Refetching(fetch) => if fetch.sums is None {
            reply is Text
        } else {
            reply is Bytes
        },
        Phase::Finding => reply is Found,
        Phase::Downloading { .. } => reply is Downloaded,
        Phase::Rechecking { fetch, .. } => if fetch.sums is None {
            reply is Text
        } else {
            reply is Bytes
        },
        Phase::Refinding { .. } => reply is Found,
        Phase::Discarding { .. } => reply is Removed,
        Phase::Unpacking { .. } => reply is Unpacked,
        Phase::Tidying { .. } => reply is Removed,
        Phase::Recording => reply is Recorded,
        Phase::Finished => false,
    }
}

/// Whether `seen` is what becomes of `reply` when a signature in it is checked: against the
/// checksum file it was asked for, and against who has to have signed that.
pub open spec fn seen_as(install: Install<Seq<char>>, reply: Raw, seen: Seen) -> bool {
    match reply {
        Reply::Created(r) => seen == Seen::Created(r),
        Reply::Text(r) => seen == Seen::Text(r),
        Reply::Bytes(signature) => seen matches Reply::Bytes(checked) && sums::is_checked(
            awaited_sums(install),
            signature,
            install.job.source.signed_by->0,
            checked,
        ),
        Reply::Found(r) => seen == Seen::Found(r),
        Reply::Downloaded(r) => seen == Seen::Downloaded(r),
        Reply::Removed => seen == Seen::Removed,
        Reply::Unpacked(r) => seen == Seen::Unpacked(r),
        Reply::Recorded(r) => seen == Seen::Recorded(r),
    }
}

/// The checksum file whose signature is awaited.
pub open spec fn awaited_sums(install: Install<Seq<char>>) -> Seq<char> {
    match install.phase {
        Phase::FetchingSignature { sums } => sums,
        Phase::Refetching(fetch) => fetch.sums->0,
        Phase::Rechecking { fetch, .. } => fetch.sums->0,
        _ => arbitrary(),
    }
}

/// Whether the fingerprint of who signed can be printed, when `seen` is a signature that was
/// found to be right.
pub open spec fn printable(install: Install<Seq<char>>, seen: Seen) -> bool {
    seen == Seen::Bytes(Ok(Ok(()))) ==> {
        &&& install.job.source.signed_by matches Some(signer)
        &&& super::ascii(signer.fingerprint)
    }
}

/// The part of `reply` that belongs to getting a checksum file.
pub open spec fn for_sums(reply: Seen) -> SumsReply<Seq<char>, Checked<Seq<char>>> {
    match reply {
        Reply::Text(r) => SumsReply::Text(r),
        Reply::Bytes(r) => SumsReply::Bytes(r),
        _ => arbitrary(),
    }
}

/// The end of an installation that failed: the failure is logged.
pub open spec fn failed(job: Job<Seq<char>>, e: Error<Seq<char>>) -> Progress {
    Progress {
        install: Install { job, phase: Phase::Finished },
        log: seq![Event::Log(Level::Error, super::error_text(e))],
        action: Action::Finish(Err(e)),
    }
}

/// The end of an installation whose failure is in the log already.
pub open spec fn stopped(job: Job<Seq<char>>, e: Error<Seq<char>>) -> Progress {
    Progress {
        install: Install { job, phase: Phase::Finished },
        log: Seq::empty(),
        action: Action::Finish(Err(e)),
    }
}

/// The checksum file turned out to be signed as it has to be.
pub open spec fn trusted(job: Job<Seq<char>>, sums: Seq<char>) -> Progress {
    Progress {
        install: Install { job, phase: Phase::Finding },
        log: seq![
            Event::Log(
                Level::Okay,
                "Signed by the expected key ("@ + super::grouped(
                    job.source.signed_by->0.fingerprint,
                ) + ")"@,
            ),
        ],
        action: Action::Find { sums, asset: job.source.asset },
    }
}

/// The download matches the checksum `expected`, after `log`.
pub open spec fn verified(
    job: Job<Seq<char>>,
    log: Seq<Event<Seq<char>>>,
    expected: Seq<char>,
) -> Progress {
    let passed = log.push(Event::Log(Level::Okay, "Hash verification passed"@));
    Progress {
        install: Install { job, phase: Phase::Unpacking { expected } },
        log: if job.source.packaging is Raw {
            passed
        } else {
            passed.push(Event::Log(Level::Info, "Extracting..."@))
        },
        action: Action::Unpack { packaging: job.source.packaging, part: job.part },
    }
}

/// The download matches no checksum.
pub open spec fn discarded(job: Job<Seq<char>>, expected: Seq<char>, actual: Seq<char>) -> Progress {
    Progress {
        install: Install { job, phase: Phase::Discarding { expected, actual } },
        log: Seq::empty(),
        action: Action::Remove(job.part),
    }
}

/// The installation succeeded.
pub open spec fn succeeded(job: Job<Seq<char>>) -> Progress {
    Progress {
        install: Install { job, phase: Phase::Finished },
        log: seq![
            Event::Log(Level::Okay, job.component.name() + " installed successfully"@),
        ],
        action: Action::Finish(Ok(())),
    }
}

/// The first steps, up to a checksum file to look the asset up in.
pub open spec fn prepared(install: Install<Seq<char>>, reply: Seen) -> Progress {
    let job = install.job;
    match install.phase {
        Phase::Creating => match reply->Created_0 {
            Err(e) => failed(
                job,
                Error::Io("Cannot create directory: "@ + job.bin_dir + " ("@ + e + ")"@),
            ),
            Ok(()) => Progress {
                install: Install { job, phase: Phase::FetchingSums },
                log: seq![Event::Log(Level::Install, job.component.name() + "..."@)],
                action: Action::FetchSums(job.source.checksum_url),
            },
        },
        Phase::FetchingSums => match reply->Text_0 {
            Err(e) => stopped(job, e),
            Ok(sums) => match job.source.signed_by {
                None => Progress {
                    install: Install { job, phase: Phase::Finding },
                    log: Seq::empty(),
                    action: Action::Find { sums, asset: job.source.asset },
                },
                Some(signer) => Progress {
                    install: Install { job, phase: Phase::FetchingSignature { sums } },
                    log: seq![
                        Event::Log(
                            Level::Verify,
                            "Checking who signed "@ + job.sums_name + "..."@,
                        ),
                    ],
                    action: Action::FetchBytes(signer.url),
                },
            },
        },
        Phase::FetchingSignature { sums } => match sums::signed_sums(sums, reply->Bytes_0) {
            Ok(sums) => trusted(job, sums),
            // The first copy may predate a release published a moment later.
            Err(_) => Progress {
                install: Install { job, phase: Phase::Refetching(sums::begun(job.source)) },
                log: Seq::empty(),
                action: Action::FetchText(job.source.checksum_url),
            },
        },
        Phase::Refetching(fetch) => {
            let (next, step) = sums::advanced(fetch, for_sums(reply));
            match step {
                SumsStep::FetchText(url) => Progress {
                    install: Install { job, phase: Phase::Refetching(next) },
                    log: Seq::empty(),
                    action: Action::FetchText(url),
                },
                SumsStep::FetchBytes(url) => Progress {
                    install: Install { job, phase: Phase::Refetching(next) },
                    log: Seq::empty(),
                    action: Action::FetchBytes(url),
                },
                SumsStep::Done(Err(e)) => failed(job, e),
                SumsStep::Done(Ok(sums)) => trusted(job, sums),
            }
        },
        _ => arbitrary(),
    }
}

/// The steps that compare the download with its published checksum.
pub open spec fn compared(install: Install<Seq<char>>, reply: Seen) -> Progress {
    let job = install.job;
    match install.phase {
        Phase::Finding => match reply->Found_0 {
            Err(e) => failed(job, e),
            Ok(expected) => Progress {
                install: Install { job, phase: Phase::Downloading { expected } },
                log: Seq::empty(),
                action: Action::Download {
                    url: job.source.url,
                    asset: job.source.asset,
                    part: job.part,
                },
            },
        },
        Phase::Downloading { expected } => match reply->Downloaded_0 {
            Err(e) => stopped(job, e),
            Ok(actual) => {
                let log = seq![
                    Event::Log(
                        Level::Verify,
                        "Checking SHA256 for "@ + job.source.asset + "..."@,
                    ),
                ];
                if text::same_letters(actual, expected) {
                    verified(job, log, expected)
                } else {
                    Progress {
                        install: Install {
                            job,
                            phase: Phase::Rechecking {
                                expected,
                                actual,
                                fetch: sums::begun(job.source),
                            },
                        },
                        log,
                        action: Action::FetchText(job.source.checksum_url),
                    }
                }
            },
        },
        Phase::Rechecking { expected, actual, fetch } => {
            let (next, step) = sums::advanced(fetch, for_sums(reply));
            let phase = Phase::Rechecking { expected, actual, fetch: next };
            match step {
                SumsStep::FetchText(url) => Progress {
                    install: Install { job, phase },
                    log: Seq::empty(),
                    action: Action::FetchText(url),
                },
                SumsStep::FetchBytes(url) => Progress {
                    install: Install { job, phase },
                    log: Seq::empty(),
                    action: Action::FetchBytes(url),
                },
                SumsStep::Done(Err(_)) => discarded(job, expected, actual),
                SumsStep::Done(Ok(sums)) => Progress {
                    install: Install { job, phase: Phase::Refinding { expected, actual } },
                    log: Seq::empty(),
                    action: Action::Find { sums, asset: job.source.asset },
                },
            }
        },
        Phase::Refinding { expected, actual } => match reply->Found_0 {
            Ok(refreshed) if text::same_letters(refreshed, actual) => verified(
                job,
                seq![
                    Event::Log(
                        Level::Info,
                        "A newer release was published during the download; its checksum matches."@,
                    ),
                ],
                refreshed,
            ),
            _ => discarded(job, expected, actual),
        },
        Phase::Discarding { expected, actual } => Progress {
            install: Install { job, phase: Phase::Finished },
            log: seq![
                Event::Log(Level::Error, "Hash mismatch for "@ + job.source.asset + "!"@),
                Event::Log(Level::Info, "Expected: "@ + expected),
                Event::Log(Level::Info, "Actual:   "@ + actual),
            ],
            action: Action::Finish(
                Err(
                    Error::Checksum(
                        "The download of "@ + job.source.asset
                            + " didn't match its published checksum."@,
                    ),
                ),
            ),
        },
        _ => arbitrary(),
    }
}

/// The steps that put a verified download in place.
pub open spec fn placed(install: Install<Seq<char>>, reply: Seen) -> Progress {
    let job = install.job;
    match install.phase {
        Phase::Unpacking { expected } => Progress {
            install: Install { job, phase: Phase::Tidying { expected, result: reply->Unpacked_0 } },
            log: Seq::empty(),
            action: Action::Remove(job.part),
        },
        Phase::Tidying { expected, result } => match result {
            Err(e) => failed(job, e),
            Ok(()) => match job.source.state_key {
                Some(key) => Progress {
                    install: Install { job, phase: Phase::Recording },
                    log: Seq::empty(),
                    action: Action::Record { key, value: expected },
                },
                None => succeeded(job),
            },
        },
        Phase::Recording => match reply->Recorded_0 {
            Err(e) => failed(job, Error::Io(e)),
            Ok(()) => succeeded(job),
        },
        _ => arbitrary(),
    }
}

/// What follows `reply`, in which a signature was checked.
pub open spec fn stepped(install: Install<Seq<char>>, reply: Seen) -> Progress {
    match install.phase {
        Phase::Creating
        | Phase::FetchingSums
        | Phase::FetchingSignature { .. }
        | Phase::Refetching(_) => prepared(install, reply),
        Phase::Unpacking { .. } | Phase::Tidying { .. } | Phase::Recording => placed(install, reply),
        _ => compared(install, reply),
    }
}

/// The start of installing `component` from `source`.
pub open spec fn started(
    component: Component,
    source: Source<Seq<char>>,
    paths: Paths,
    sums_name: Seq<char>,
) -> Install<Seq<char>> {
    Install {
        job: Job {
            component,
            source,
            bin_dir: paths.bin_dir@,
            part: paths::joined_path(
                paths.platform,
                paths.bin_dir@,
                ".download-"@ + source.asset,
            ),
            sums_name,
        },
        phase: Phase::Creating,
    }
}

// ---------------------------------------------------------------------------
// The steps
// ---------------------------------------------------------------------------

fn fail(job: Job, e: Error, log: &mut Vec<Event>) -> (r: (Install, Action))
    ensures
        r.0@ == failed(job@, e@).install,
        r.1@ == failed(job@, e@).action,
        super::events(final(log)@) == super::events(old(log)@) + failed(job@, e@).log,
{
    let result: Result<(), Error> = super::logged(log, Err(e));
    (Install { job, phase: Phase::Finished }, Action::Finish(result))
}

fn say(log: &mut Vec<Event>, level: Level, line: String)
    ensures
        super::events(final(log)@) == super::events(old(log)@).push(Event::Log(level, line@)),
{
    log.push(Event::Log(level, line));
    proof {
        assert(super::events(log@) =~= super::events(old(log)@).push(Event::Log(level, line@)));
    }
}

fn trust(job: Job, sums: String, log: &mut Vec<Event>) -> (r: (Install, Action))
    requires
        job.source.signed_by is Some,
        super::ascii(job.source.signed_by->0.fingerprint@),
    ensures
        r.0@ == trusted(job@, sums@).install,
        r.1@ == trusted(job@, sums@).action,
        super::events(final(log)@) == super::events(old(log)@) + trusted(job@, sums@).log,
{
    if let Some(signer) = &job.source.signed_by {
        let short: String = short_fingerprint(signer.fingerprint.as_str());
        say(log, Level::Okay, text::concat3("Signed by the expected key (", short.as_str(), ")"));
    }
    let asset: String = job.source.asset.clone();
    (Install { job, phase: Phase::Finding }, Action::Find { sums, asset })
}

fn accept(job: Job, expected: String, log: &mut Vec<Event>) -> (r: (Install, Action))
    ensures
        r.0@ == verified(job@, Seq::empty(), expected@).install,
        r.1@ == verified(job@, Seq::empty(), expected@).action,
        super::events(final(log)@) == verified(job@, super::events(old(log)@), expected@).log,
{
    say(log, Level::Okay, "Hash verification passed".to_owned());
    let packaging: Packaging = match &job.source.packaging {
        Packaging::Raw { install_as } => Packaging::Raw { install_as: install_as.clone() },
        Packaging::Archive => {
            say(log, Level::Info, "Extracting...".to_owned());
            Packaging::Archive
        },
    };
    let part: String = job.part.clone();
    (Install { job, phase: Phase::Unpacking { expected } }, Action::Unpack { packaging, part })
}

fn discard(job: Job, expected: String, actual: String) -> (r: (Install, Action))
    ensures
        r.0@ == discarded(job@, expected@, actual@).install,
        r.1@ == discarded(job@, expected@, actual@).action,
{
    let part: String = job.part.clone();
    (Install { job, phase: Phase::Discarding { expected, actual } }, Action::Remove(part))
}

fn succeed(job: Job, log: &mut Vec<Event>) -> (r: (Install, Action))
    ensures
        r.0@ == succeeded(job@).install,
        r.1@ == succeeded(job@).action,
        super::events(final(log)@) == super::events(old(log)@) + succeeded(job@).log,
{
    say(log, Level::Okay, text::concat2(job.component.label(), " installed successfully"));
    (Install { job, phase: Phase::Finished }, Action::Finish(Ok(())))
}

impl Install {
    /// Starts installing `component` from `source`: the folder comes first. `sums_name` is what
    /// the checksum file is called.
    pub fn start(
        component: Component,
        source: Source,
        paths: &Paths,
        sums_name: String,
    ) -> (r: (Install, Action))
        requires
            paths.wf(),
            paths::can_join(paths.platform, source.asset@),
        ensures
            r.0@ == started(component, source@, *paths, sums_name@),
            r.1@ == Action::<Seq<char>>::CreateDir(paths.bin_dir@),
            valid(r.0@),
    {
        let name: String = text::concat2(".download-", source.asset.as_str());
        proof {
            reveal_strlit(".download-");
            reveal_strlit(".");
            reveal_strlit("..");
            assert(name@.len() > 2);
            if paths.platform is Windows {
                assert forall|i: int| 0 <= i < name@.len() implies #[trigger] name@[i] != '\\'
                    && name@[i] != '/' && name@[i] != ':' && name@[i] != '?' by {
                    let n = ".download-"@.len();
                    if i < n {
                        assert(name@[i] == ".download-"@[i]);
                    } else {
                        assert(name@[i] == source.asset@[i - n]);
                    }
                }
            }
        }
        let part: String = join_path(paths.platform, paths.bin_dir.as_str(), name.as_str());
        let bin_dir: String = paths.bin_dir.clone();
        let dir: String = paths.bin_dir.clone();
        (
            Install {
                job: Job { component, source, bin_dir, part, sums_name },
                phase: Phase::Creating,
            },
            Action::CreateDir(dir),
        )
    }

    /// Whether `reply` is what is awaited.
    pub fn expects(&self, reply: &Reply) -> (r: bool)
        ensures
            r == awaited(self@, reply@),
    {
        match &self.phase {
            Phase::Creating => matches!(reply, Reply::Created(_)),
            Phase::FetchingSums => matches!(reply, Reply::Text(_)),
            Phase::FetchingSignature { .. } => matches!(reply, Reply::Bytes(_)),
            Phase::Refetching(fetch) | Phase::Rechecking { fetch, .. } => if fetch.sums.is_none() {
                matches!(reply, Reply::Text(_))
            } else {
                matches!(reply, Reply::Bytes(_))
            },
            Phase::Finding => matches!(reply, Reply::Found(_)),
            Phase::Downloading { .. } => matches!(reply, Reply::Downloaded(_)),
            Phase::Refinding { .. } => matches!(reply, Reply::Found(_)),
            Phase::Discarding { .. } => matches!(reply, Reply::Removed),
            Phase::Unpacking { .. } => matches!(reply, Reply::Unpacked(_)),
            Phase::Tidying { .. } => matches!(reply, Reply::Removed),
            Phase::Recording => matches!(reply, Reply::Recorded(_)),
            Phase::Finished => false,
        }
    }

    /// Checks the signature that came back, when one did.
    pub fn check(&self, reply: Reply) -> (r: Reply<String, Checked>)
        requires
            valid(self@),
            awaited(self@, reply@),
        ensures
            seen_as(self@, reply@, r@),
            awaited(self@, r@),
            printable(self@, r@),
    {
        match reply {
            Reply::Created(r) => Reply::Created(r),
            Reply::Text(r) => Reply::Text(r),
            Reply::Bytes(bytes) => {
                let sums: Option<&String> = match &self.phase {
                    Phase::FetchingSignature { sums } => Some(sums),
                    Phase::Refetching(fetch) | Phase::Rechecking { fetch, .. } => match &fetch.sums {
                        Some(sums) => Some(sums),
                        None => None,
                    },
                    _ => None,
                };
                match (sums, &self.job.source.signed_by) {
                    (Some(sums), Some(signer)) => Reply::Bytes(
                        check_signature(sums.as_str(), bytes, signer),
                    ),
                    _ => {
                        proof {
                            assert(false);
                        }
                        Reply::Removed
                    },
                }
            },
            Reply::Found(r) => Reply::Found(r),
            Reply::Downloaded(r) => Reply::Downloaded(r),
            Reply::Removed => Reply::Removed,
            Reply::Unpacked(r) => Reply::Unpacked(r),
            Reply::Recorded(r) => Reply::Recorded(r),
        }
    }

    /// Goes on with what came back of the last action.
    pub fn step(self, reply: Reply, log: &mut Vec<Event>) -> (r: (Install, Action))
        requires
            valid(self@),
            awaited(self@, reply@),
        ensures
            exists|seen: Seen|
                {
                    &&& seen_as(self@, reply@, seen)
                    &&& r.0@ == (#[trigger] stepped(self@, seen)).install
                    &&& r.1@ == stepped(self@, seen).action
                    &&& super::events(final(log)@) == super::events(old(log)@) + stepped(
                        self@,
                        seen,
                    ).log
                },
            valid(r.0@),
    {
        let seen: Reply<String, Checked> = self.check(reply);
        let r: (Install, Action) = self.go_on(seen, log);
        proof {
            assert(seen_as(self@, reply@, seen@));
            assert(r.0@ == stepped(self@, seen@).install);
        }
        r
    }

    /// Goes on with what came back of the last action, in which a signature was checked.
    pub fn go_on(self, reply: Reply<String, Checked>, log: &mut Vec<Event>) -> (r: (
        Install,
        Action,
    ))
        requires
            valid(self@),
            awaited(self@, reply@),
            printable(self@, reply@),
        ensures
            r.0@ == stepped(self@, reply@).install,
            r.1@ == stepped(self@, reply@).action,
            super::events(final(log)@) == super::events(old(log)@) + stepped(self@, reply@).log,
            valid(r.0@),
    {
        let Install { job, phase } = self;
        match (phase, reply) {
            (Phase::Creating, Reply::Created(created)) => match created {
                Err(e) => {
                    let mut line: String = text::concat3(
                        "Cannot create directory: ",
                        job.bin_dir.as_str(),
                        " (",
                    );
                    line.append(e.as_str());
                    line.append(")");
                    fail(job, Error::Io(line), log)
                },
                Ok(()) => {
                    say(log, Level::Install, text::concat2(job.component.label(), "..."));
                    let url: String = job.source.checksum_url.clone();
                    (Install { job, phase: Phase::FetchingSums }, Action::FetchSums(url))
                },
            },
            (Phase::FetchingSums, Reply::Text(text)) => match text {
                Err(e) => (Install { job, phase: Phase::Finished }, Action::Finish(Err(e))),
                Ok(sums) => match &job.source.signed_by {
                    None => {
                        let asset: String = job.source.asset.clone();
                        (Install { job, phase: Phase::Finding }, Action::Find { sums, asset })
                    },
                    Some(signer) => {
                        say(
                            log,
                            Level::Verify,
                            text::concat3("Checking who signed ", job.sums_name.as_str(), "..."),
                        );
                        let url: String = signer.url.clone();
                        (
                            Install { job, phase: Phase::FetchingSignature { sums } },
                            Action::FetchBytes(url),
                        )
                    },
                },
            },
            (Phase::FetchingSignature { sums }, Reply::Bytes(checked)) => match signed_file(
                sums,
                checked,
            ) {
                Ok(sums) => trust(job, sums, log),
                Err(_) => {
                    let (fetch, _) = fetch_sums(&job.source);
                    let url: String = job.source.checksum_url.clone();
                    (Install { job, phase: Phase::Refetching(fetch) }, Action::FetchText(url))
                },
            },
            (Phase::Refetching(fetch), reply) => {
                let reply: SumsReply<String, Checked> = match reply {
                    Reply::Text(text) => SumsReply::Text(text),
                    Reply::Bytes(bytes) => SumsReply::Bytes(bytes),
                    _ => SumsReply::Text(Err(Error::Unsupported)),
                };
                let (next, step) = fetch.go_on(reply);
                match step {
                    SumsStep::FetchText(url) => (
                        Install { job, phase: Phase::Refetching(next) },
                        Action::FetchText(url),
                    ),
                    SumsStep::FetchBytes(url) => (
                        Install { job, phase: Phase::Refetching(next) },
                        Action::FetchBytes(url),
                    ),
                    SumsStep::Done(Err(e)) => fail(job, e, log),
                    SumsStep::Done(Ok(sums)) => trust(job, sums, log),
                }
            },
            (Phase::Finding, Reply::Found(found)) => match found {
                Err(e) => fail(job, e, log),
                Ok(expected) => {
                    let url: String = job.source.url.clone();
                    let asset: String = job.source.asset.clone();
                    let part: String = job.part.clone();
                    (
                        Install { job, phase: Phase::Downloading { expected } },
                        Action::Download { url, asset, part },
                    )
                },
            },
            (Phase::Downloading { expected }, Reply::Downloaded(downloaded)) => match downloaded {
                Err(e) => (Install { job, phase: Phase::Finished }, Action::Finish(Err(e))),
                Ok(actual) => {
                    say(
                        log,
                        Level::Verify,
                        text::concat3("Checking SHA256 for ", job.source.asset.as_str(), "..."),
                    );
                    if text::eq_ignore_ascii_case(actual.as_str(), expected.as_str()) {
                        accept(job, expected, log)
                    } else {
                        // "latest" can move while a large file downloads, so the file may be a
                        // newer build than the checksum fetched before it. Ask once more before
                        // calling it a mismatch, signed like the first time.
                        let (fetch, _) = fetch_sums(&job.source);
                        let url: String = job.source.checksum_url.clone();
                        (
                            Install { job, phase: Phase::Rechecking { expected, actual, fetch } },
                            Action::FetchText(url),
                        )
                    }
                },
            },
            (Phase::Rechecking { expected, actual, fetch }, reply) => {
                let reply: SumsReply<String, Checked> = match reply {
                    Reply::Text(text) => SumsReply::Text(text),
                    Reply::Bytes(bytes) => SumsReply::Bytes(bytes),
                    _ => SumsReply::Text(Err(Error::Unsupported)),
                };
                let (next, step) = fetch.go_on(reply);
                match step {
                    SumsStep::FetchText(url) => (
                        Install { job, phase: Phase::Rechecking { expected, actual, fetch: next } },
                        Action::FetchText(url),
                    ),
                    SumsStep::FetchBytes(url) => (
                        Install { job, phase: Phase::Rechecking { expected, actual, fetch: next } },
                        Action::FetchBytes(url),
                    ),
                    SumsStep::Done(Err(_)) => discard(job, expected, actual),
                    SumsStep::Done(Ok(sums)) => {
                        let asset: String = job.source.asset.clone();
                        (
                            Install { job, phase: Phase::Refinding { expected, actual } },
                            Action::Find { sums, asset },
                        )
                    },
                }
            },
            (Phase::Refinding { expected, actual }, Reply::Found(found)) => match found {
                Err(_) => discard(job, expected, actual),
                Ok(refreshed) => if text::eq_ignore_ascii_case(
                    refreshed.as_str(),
                    actual.as_str(),
                ) {
                    say(
                        log,
                        Level::Info,
                        "A newer release was published during the download; its checksum matches.".to_owned(),
                    );
                    accept(job, refreshed, log)
                } else {
                    discard(job, expected, actual)
                },
            },
            (Phase::Discarding { expected, actual }, Reply::Removed) => {
                let asset: &str = job.source.asset.as_str();
                say(log, Level::Error, text::concat3("Hash mismatch for ", asset, "!"));
                say(log, Level::Info, text::concat2("Expected: ", expected.as_str()));
                say(log, Level::Info, text::concat2("Actual:   ", actual.as_str()));
                let line: String = text::concat3(
                    "The download of ",
                    asset,
                    " didn't match its published checksum.",
                );
                (
                    Install { job, phase: Phase::Finished },
                    Action::Finish(Err(Error::Checksum(line))),
                )
            },
            (Phase::Unpacking { expected }, Reply::Unpacked(result)) => {
                let part: String = job.part.clone();
                (Install { job, phase: Phase::Tidying { expected, result } }, Action::Remove(part))
            },
            (Phase::Tidying { expected, result }, Reply::Removed) => match result {
                Err(e) => fail(job, e, log),
                Ok(()) => match &job.source.state_key {
                    Some(key) => {
                        let key: String = key.clone();
                        (
                            Install { job, phase: Phase::Recording },
                            Action::Record { key, value: expected },
                        )
                    },
                    None => succeed(job, log),
                },
            },
            (Phase::Recording, Reply::Recorded(recorded)) => match recorded {
                Err(e) => fail(job, Error::Io(e), log),
                Ok(()) => succeed(job, log),
            },
            (phase, _) => {
                proof {
                    assert(false);
                }
                (Install { job, phase }, Action::Finish(Err(Error::Unsupported)))
            },
        }
    }
}

/// Downloads, verifies and installs one component: where there is nothing to get it from on this
/// platform, that is logged and all there is to say.
pub fn install(
    component: Component,
    source: Option<Source>,
    paths: &Paths,
    sums_name: String,
    log: &mut Vec<Event>,
) -> (r: Result<(Install, Action), Error>)
    requires
        paths.wf(),
        source matches Some(source) ==> paths::can_join(paths.platform, source.asset@),
    ensures
        match source {
            None => {
                &&& r matches Err(e)
                &&& e is Unsupported
                &&& super::events(final(log)@) == super::events(old(log)@).push(
                    Event::Log(
                        Level::Error,
                        super::error_text(Error::<Seq<char>>::Unsupported),
                    ),
                )
            },
            Some(source) => {
                &&& r matches Ok(begun)
                &&& begun.0@ == started(component, source@, *paths, sums_name@)
                &&& begun.1@ == Action::<Seq<char>>::CreateDir(paths.bin_dir@)
                &&& valid(begun.0@)
                &&& final(log)@ == old(log)@
            },
        },
{
    match source {
        None => super::logged(log, Err(Error::Unsupported)),
        Some(source) => Ok(Install::start(component, source, paths, sums_name)),
    }
}

// ---------------------------------------------------------------------------
// What holds of a whole installation
// ---------------------------------------------------------------------------

/// How an installation stands after some replies, in which signatures were checked.
pub open spec fn after(
    install: Install<Seq<char>>,
    seen: Seq<Seen>,
) -> Install<Seq<char>>
    decreases seen.len(),
{
    if seen.len() == 0 {
        install
    } else {
        stepped(after(install, seen.drop_last()), seen.last()).install
    }
}

/// Whether each of `replies` is what was awaited, and each of `seen` what became of it.
pub open spec fn answered(
    install: Install<Seq<char>>,
    replies: Seq<Raw>,
    seen: Seq<Seen>,
) -> bool
    decreases seen.len(),
{
    &&& replies.len() == seen.len()
    &&& seen.len() > 0 ==> {
        &&& answered(install, replies.drop_last(), seen.drop_last())
        &&& awaited(after(install, seen.drop_last()), replies.last())
        &&& seen_as(after(install, seen.drop_last()), replies.last(), seen.last())
    }
}

/// What was to be done after the reply at `at`.
pub open spec fn asked(
    install: Install<Seq<char>>,
    seen: Seq<Seen>,
    at: int,
) -> Action<Seq<char>> {
    stepped(after(install, seen.take(at)), seen[at]).action
}

/// Whether `sums` is a checksum file that may be believed, `reply` being the last thing that came
/// back: one that came with a signature by the expected signer, when there is one.
pub open spec fn believed(
    job: Job<Seq<char>>,
    sums: Seq<char>,
    reply: Raw,
) -> bool {
    match job.source.signed_by {
        None => reply == Raw::Text(Ok(sums)),
        Some(signer) => reply matches Reply::Bytes(signature) && sums::is_signed(
            sums,
            signature,
            signer,
        ),
    }
}

/// Whether the asset is being looked up in a checksum file that may be believed.
pub open spec fn looks_up(
    install: Install<Seq<char>>,
    replies: Seq<Raw>,
    seen: Seq<Seen>,
    at: int,
) -> bool {
    asked(install, seen, at) matches Action::Find { sums, asset } && asset
        == install.job.source.asset && believed(install.job, sums, replies[at])
}

/// Whether the reply at `at` is the checksum `hash`, found in a checksum file that may be believed.
pub open spec fn published(
    install: Install<Seq<char>>,
    replies: Seq<Raw>,
    seen: Seq<Seen>,
    at: int,
    hash: Seq<char>,
) -> bool {
    &&& 0 < at < replies.len()
    &&& replies[at] == Raw::Found(Ok(hash))
    &&& looks_up(install, replies, seen, at - 1)
}

/// Whether the reply at `at` is a finished download with this hash.
pub open spec fn downloaded(
    replies: Seq<Raw>,
    at: int,
    hash: Seq<char>,
) -> bool {
    0 <= at < replies.len() && replies[at] == Raw::Downloaded(Ok(hash))
}

/// Whether a believed checksum is the one a download turned out to have.
pub open spec fn matched(
    install: Install<Seq<char>>,
    replies: Seq<Raw>,
    seen: Seq<Seen>,
    expected: Seq<char>,
) -> bool {
    exists|found: int, got: int, actual: Seq<char>|
        #![trigger published(install, replies, seen, found, expected), downloaded(replies, got, actual)]
        published(install, replies, seen, found, expected) && downloaded(replies, got, actual)
            && text::same_letters(actual, expected)
}

/// What the phase of an installation says of what came before.
pub open spec fn explained(
    install: Install<Seq<char>>,
    replies: Seq<Raw>,
    seen: Seq<Seen>,
) -> bool {
    match after(install, seen).phase {
        Phase::Finding => replies.len() > 0 && looks_up(install, replies, seen, replies.len() - 1),
        Phase::Refinding { actual, .. } => {
            &&& replies.len() > 0 && looks_up(install, replies, seen, replies.len() - 1)
            &&& exists|got: int| downloaded(replies, got, actual)
        },
        Phase::Downloading { expected } => exists|found: int|
            published(install, replies, seen, found, expected),
        Phase::Rechecking { actual, .. } => exists|got: int| downloaded(replies, got, actual),
        Phase::Unpacking { expected } => matched(install, replies, seen, expected),
        Phase::Tidying { expected, .. } => matched(install, replies, seen, expected),
        Phase::Recording => install.job.source.state_key is Some,
        _ => true,
    }
}

proof fn lemma_later(
    install: Install<Seq<char>>,
    replies: Seq<Raw>,
    seen: Seq<Seen>,
    reply: Raw,
    sight: Seen,
)
    requires
        replies.len() == seen.len(),
    ensures
        forall|at: int, hash: Seq<char>|
            published(install, replies, seen, at, hash) ==> #[trigger] published(
                install,
                replies.push(reply),
                seen.push(sight),
                at,
                hash,
            ),
        forall|at: int, hash: Seq<char>|
            downloaded(replies, at, hash) ==> #[trigger] downloaded(replies.push(reply), at, hash),
{
    let more = seen.push(sight);
    assert forall|at: int, hash: Seq<char>| published(install, replies, seen, at, hash) implies
        #[trigger] published(install, replies.push(reply), more, at, hash) by {
        assert(more.take(at - 1) =~= seen.take(at - 1));
    }
}

/// What a step tells of the phase before it and of the reply.
pub open spec fn step_facts(
    install: Install<Seq<char>>,
    reply: Raw,
    next: Install<Seq<char>>,
    action: Action<Seq<char>>,
) -> bool {
    &&& next.job == install.job
    &&& match next.phase {
        Phase::Finding => action matches Action::Find { sums, asset } && asset
            == install.job.source.asset && believed(install.job, sums, reply),
        Phase::Refinding { actual, .. } => {
            &&& action matches Action::Find { sums, asset }
            &&& asset == install.job.source.asset
            &&& believed(install.job, sums, reply)
            &&& install.phase is Rechecking
            &&& install.phase->Rechecking_actual == actual
        },
        Phase::Downloading { expected } => {
            &&& install.phase is Finding
            &&& reply == Raw::Found(Ok(expected))
        },
        Phase::Rechecking { actual, .. } => {
            ||| install.phase is Rechecking && install.phase->Rechecking_actual == actual
            ||| install.phase is Downloading && reply == Raw::Downloaded(Ok(actual))
        },
        Phase::Unpacking { expected } => {
            ||| {
                &&& install.phase is Downloading
                &&& install.phase->Downloading_expected == expected
                &&& reply matches Reply::Downloaded(Ok(actual))
                &&& text::same_letters(actual, expected)
            }
            ||| {
                &&& install.phase is Refinding
                &&& reply == Raw::Found(Ok(expected))
                &&& text::same_letters(expected, install.phase->Refinding_actual)
            }
        },
        Phase::Tidying { expected, .. } => {
            &&& install.phase is Unpacking
            &&& install.phase->Unpacking_expected == expected
        },
        Phase::Recording => {
            &&& install.phase matches Phase::Tidying { expected, result }
            &&& result is Ok
            &&& install.job.source.state_key matches Some(key)
            &&& action == (Action::<Seq<char>>::Record { key, value: expected })
        },
        _ => true,
    }
    &&& action is Unpack ==> next.phase is Unpacking && action == (Action::<Seq<char>>::Unpack {
        packaging: install.job.source.packaging,
        part: install.job.part,
    })
    &&& action matches Action::Record { key, value } ==> {
        &&& install.phase is Tidying
        &&& install.phase->Tidying_expected == value
        &&& install.phase->Tidying_result is Ok
        &&& install.job.source.state_key == Some(key)
    }
    &&& action == Action::<Seq<char>>::Finish(Ok(())) ==> {
        ||| {
            &&& install.phase matches Phase::Tidying { result, .. }
            &&& result is Ok
            &&& install.job.source.state_key is None
        }
        ||| install.phase is Recording && reply is Recorded && reply->Recorded_0 is Ok
    }
}

proof fn lemma_step(install: Install<Seq<char>>, reply: Raw, seen: Seen)
    requires
        valid(install),
        awaited(install, reply),
        seen_as(install, reply, seen),
    ensures
        valid(stepped(install, seen).install),
        step_facts(install, reply, stepped(install, seen).install, stepped(install, seen).action),
{
    if let Reply::Bytes(Ok(bytes)) = reply {
        signature::law_only_the_expected_key_is_trusted(
            vstd::utf8::encode_utf8(awaited_sums(install)),
            bytes,
            install.job.source.signed_by->0,
            seen->Bytes_0->Ok_0,
        );
    }
}

proof fn lemma_explained_step(
    install: Install<Seq<char>>,
    early: Seq<Raw>,
    glimpsed: Seq<Seen>,
    reply: Raw,
    sight: Seen,
)
    requires
        early.len() == glimpsed.len(),
        after(install, glimpsed).job == install.job,
        explained(install, early, glimpsed),
        step_facts(
            after(install, glimpsed),
            reply,
            after(install, glimpsed.push(sight)),
            asked(install, glimpsed.push(sight), glimpsed.len() as int),
        ),
    ensures
        explained(install, early.push(reply), glimpsed.push(sight)),
{
    let before = after(install, glimpsed);
    let replies = early.push(reply);
    let seen = glimpsed.push(sight);
    let last = early.len() as int;
    lemma_later(install, early, glimpsed, reply, sight);
    if early.len() > 0 {
        assert(seen.take(last - 1) =~= glimpsed.take(last - 1));
        assert(asked(install, seen, last - 1) == asked(install, glimpsed, last - 1));
    }
    match after(install, seen).phase {
        Phase::Refinding { actual, .. } => {
            let got = choose|got: int| downloaded(early, got, actual);
            assert(downloaded(replies, got, actual));
        },
        Phase::Downloading { expected } => {
            assert(published(install, replies, seen, last, expected));
        },
        Phase::Rechecking { actual, .. } => {
            if before.phase is Rechecking {
                let got = choose|got: int| downloaded(early, got, actual);
                assert(downloaded(replies, got, actual));
            } else {
                assert(downloaded(replies, last, actual));
            }
        },
        Phase::Unpacking { expected } => {
            if before.phase is Downloading {
                let found = choose|found: int|
                    published(install, early, glimpsed, found, expected);
                assert(published(install, replies, seen, found, expected));
                assert(downloaded(replies, last, reply->Downloaded_0->Ok_0));
            } else {
                let actual = before.phase->Refinding_actual;
                let got = choose|got: int| downloaded(early, got, actual);
                assert(downloaded(replies, got, actual));
                assert(published(install, replies, seen, last, expected));
                assert(text::same_letters(actual, expected));
            }
        },
        Phase::Tidying { expected, .. } => {
            let (found, got, actual) = choose|found: int, got: int, actual: Seq<char>|
                #![trigger published(install, early, glimpsed, found, expected), downloaded(early, got, actual)]
                published(install, early, glimpsed, found, expected) && downloaded(
                    early,
                    got,
                    actual,
                ) && text::same_letters(actual, expected);
            assert(published(install, replies, seen, found, expected));
            assert(downloaded(replies, got, actual));
        },
        _ => {},
    }
}

proof fn lemma_explained(install: Install<Seq<char>>, replies: Seq<Raw>, seen: Seq<Seen>)
    requires
        install.phase is Creating,
        answered(install, replies, seen),
    ensures
        valid(after(install, seen)),
        after(install, seen).job == install.job,
        explained(install, replies, seen),
    decreases seen.len(),
{
    if seen.len() > 0 {
        let early = replies.drop_last();
        let glimpsed = seen.drop_last();
        lemma_explained(install, early, glimpsed);
        lemma_last_step(install, replies, seen);
        assert(early.push(replies.last()) == replies);
        assert(glimpsed.push(seen.last()) == seen);
        lemma_explained_step(install, early, glimpsed, replies.last(), seen.last());
    }
}

/// What the last step tells of the phase before it and of the last reply.
proof fn lemma_last_step(install: Install<Seq<char>>, replies: Seq<Raw>, seen: Seq<Seen>)
    requires
        seen.len() > 0,
        answered(install, replies, seen),
        valid(after(install, seen.drop_last())),
    ensures
        valid(after(install, seen)),
        step_facts(
            after(install, seen.drop_last()),
            replies.last(),
            after(install, seen),
            asked(install, seen, seen.len() - 1),
        ),
{
    assert(seen.take(seen.len() - 1) == seen.drop_last());
    lemma_step(after(install, seen.drop_last()), replies.last(), seen.last());
}

/// What the phase of an installation says of every download there was.
pub open spec fn weighed(
    install: Install<Seq<char>>,
    replies: Seq<Raw>,
    seen: Seq<Seen>,
) -> bool {
    match after(install, seen).phase {
        Phase::Rechecking { actual, .. } | Phase::Refinding { actual, .. } => forall|
            got: int,
            hash: Seq<char>,
        | #[trigger] downloaded(replies, got, hash) ==> hash == actual,
        Phase::Unpacking { expected } | Phase::Tidying { expected, .. } => forall|
            got: int,
            hash: Seq<char>,
        | #[trigger] downloaded(replies, got, hash) ==> text::same_letters(hash, expected),
        Phase::Discarding { .. } | Phase::Recording | Phase::Finished => true,
        _ => forall|got: int, hash: Seq<char>| !#[trigger] downloaded(replies, got, hash),
    }
}

proof fn lemma_weighed(install: Install<Seq<char>>, replies: Seq<Raw>, seen: Seq<Seen>)
    requires
        install.phase is Creating,
        answered(install, replies, seen),
    ensures
        weighed(install, replies, seen),
    decreases seen.len(),
{
    if seen.len() > 0 {
        let early = replies.drop_last();
        let glimpsed = seen.drop_last();
        lemma_weighed(install, early, glimpsed);
        lemma_explained(install, early, glimpsed);
        let last = replies.last();
        assert forall|got: int, hash: Seq<char>| #[trigger]
            downloaded(replies, got, hash) implies downloaded(early, got, hash) || last
            == Raw::Downloaded(Ok(hash)) by {
            if got < early.len() {
                assert(replies[got] == early[got]);
            }
        }
    }
}

/// Nothing is unpacked unless its hash is the one published for it: in the checksum file that came
/// first or in the newer one, and, when upstream signs that file, in a copy that came with a
/// signature by the expected key.
pub proof fn law_only_a_matching_download_is_unpacked(
    install: Install<Seq<char>>,
    replies: Seq<Raw>,
    seen: Seq<Seen>,
)
    requires
        install.phase is Creating,
        seen.len() > 0,
        answered(install, replies, seen),
        asked(install, seen, seen.len() - 1) is Unpack,
    ensures
        asked(install, seen, seen.len() - 1) == (Action::<Seq<char>>::Unpack {
            packaging: install.job.source.packaging,
            part: install.job.part,
        }),
        exists|expected: Seq<char>| #[trigger] matched(install, replies, seen, expected),
{
    lemma_explained(install, replies, seen);
    lemma_explained(install, replies.drop_last(), seen.drop_last());
    lemma_last_step(install, replies, seen);
    assert(matched(install, replies, seen, after(install, seen).phase->Unpacking_expected));
}

/// Only what is in place is recorded, under the component's own key, and with the published
/// checksum it matched.
pub proof fn law_the_checksum_that_matched_is_recorded(
    install: Install<Seq<char>>,
    replies: Seq<Raw>,
    seen: Seq<Seen>,
    key: Seq<char>,
    value: Seq<char>,
)
    requires
        install.phase is Creating,
        seen.len() > 0,
        answered(install, replies, seen),
        asked(install, seen, seen.len() - 1) == (Action::<Seq<char>>::Record { key, value }),
    ensures
        install.job.source.state_key == Some(key),
        after(install, seen.drop_last()).phase matches Phase::Tidying { expected, result }
            && expected == value && result is Ok,
        matched(install, replies.drop_last(), seen.drop_last(), value),
{
    lemma_explained(install, replies.drop_last(), seen.drop_last());
    lemma_last_step(install, replies, seen);
}

/// How many replies of an installation that ended well came after its executables were in place:
/// that the download was removed, and that the checksum was recorded where there is a key for it.
pub open spec fn closing(install: Install<Seq<char>>) -> int {
    if install.job.source.state_key is None {
        1
    } else {
        2
    }
}

/// Whether an installation ended well, with a download that matched the checksum `expected`.
pub open spec fn installed(
    install: Install<Seq<char>>,
    seen: Seq<Seen>,
    expected: Seq<char>,
) -> bool {
    &&& seen.len() >= closing(install)
    &&& asked(install, seen, seen.len() - 1) == Action::<Seq<char>>::Finish(Ok(()))
    &&& after(install, seen.take(seen.len() - closing(install))).phase matches Phase::Tidying {
        expected: matching,
        result,
    }
    &&& matching == expected
    &&& result is Ok
}

/// An installation ends well only with everything in place: a believed checksum that every
/// download there was has, and that was recorded where there is a key for it.
pub proof fn law_an_installation_ends_well_only_with_what_matched(
    install: Install<Seq<char>>,
    replies: Seq<Raw>,
    seen: Seq<Seen>,
)
    requires
        install.phase is Creating,
        seen.len() > 0,
        answered(install, replies, seen),
        asked(install, seen, seen.len() - 1) == Action::<Seq<char>>::Finish(Ok(())),
    ensures
        exists|expected: Seq<char>|
            {
                let early = seen.len() - closing(install);
                &&& #[trigger] installed(install, seen, expected)
                &&& matched(install, replies.take(early), seen.take(early), expected)
                &&& forall|got: int, hash: Seq<char>| #[trigger]
                    downloaded(replies, got, hash) ==> text::same_letters(hash, expected)
                &&& install.job.source.state_key matches Some(key) ==> {
                    &&& asked(install, seen, early) == (Action::<Seq<char>>::Record {
                        key,
                        value: expected,
                    })
                    &&& replies.last() is Recorded
                    &&& replies.last()->Recorded_0 is Ok
                }
            },
{
    let glimpsed = seen.drop_last();
    let early = replies.drop_last();
    lemma_explained(install, early, glimpsed);
    lemma_weighed(install, early, glimpsed);
    lemma_last_step(install, replies, seen);
    assert(seen.take(seen.len() - 1) == glimpsed);
    assert(replies.take(replies.len() - 1) == early);
    if install.job.source.state_key is None {
        let expected = after(install, glimpsed).phase->Tidying_expected;
        assert forall|got: int, hash: Seq<char>| #[trigger]
            downloaded(replies, got, hash) implies text::same_letters(hash, expected) by {
            assert(downloaded(early, got, hash));
        }
        assert(installed(install, seen, expected));
    } else {
        let first = glimpsed.drop_last();
        reveal_with_fuel(answered, 2);
        assert(after(install, glimpsed).phase is Recording);
        lemma_explained(install, early.drop_last(), first);
        lemma_weighed(install, early.drop_last(), first);
        lemma_last_step(install, early, glimpsed);
        assert(seen.take(seen.len() - 2) == first);
        assert(replies.take(replies.len() - 2) == early.drop_last());
        assert(glimpsed.take(glimpsed.len() - 1) == first);
        let expected = after(install, first).phase->Tidying_expected;
        assert forall|got: int, hash: Seq<char>| #[trigger]
            downloaded(replies, got, hash) implies text::same_letters(hash, expected) by {
            assert(replies[replies.len() - 2] == early.last());
            assert(downloaded(early.drop_last(), got, hash));
        }
        assert(installed(install, seen, expected));
    }
}

/// A download is removed again whether it was installed or refused: what is asked next after a
/// download that arrived is never the end before its file was to be removed.
pub proof fn law_a_download_is_removed_before_the_end(install: Install<Seq<char>>, reply: Seen)
    requires
        valid(install),
        awaited(install, reply),
        stepped(install, reply).action is Finish,
    ensures
        match install.phase {
            Phase::Downloading { .. } => reply->Downloaded_0 is Err,
            Phase::Rechecking { .. }
            | Phase::Refinding { .. }
            | Phase::Unpacking { .. }
            | Phase::Finished => false,
            _ => true,
        },
        install.phase is Discarding || install.phase is Tidying ==> reply is Removed,
{
}

/// Every failure is in the log when an installation ends with it: its own are logged with the last
/// step, and fetching the checksum file and downloading log theirs themselves.
pub proof fn law_every_failure_is_logged(
    install: Install<Seq<char>>,
    reply: Seen,
    e: Error<Seq<char>>,
)
    requires
        valid(install),
        awaited(install, reply),
        stepped(install, reply).action == Action::<Seq<char>>::Finish(Err(e)),
    ensures
        install.phase is FetchingSums || install.phase is Downloading || ({
            let log = stepped(install, reply).log;
            log.len() > 0 && log[0] matches Event::Log(Level::Error, _)
        }),
{
}

} // verus!
