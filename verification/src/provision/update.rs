//! Whether what is installed is what is published now, as the steps in between the outside work.
use vstd::prelude::*;

use super::checksum::sha256_file;
use super::paths::Paths;
use super::platform::Source;
use super::sums::{fetch_sums, Checked, SumsFetch, SumsReply, SumsStep};
use super::{
    checksum, inspect_files, install, paths, read_state, state, sums, Component, Error,
};
use crate::text;

verus! {

/// How what is installed compares with what is published.
#[derive(Debug, Clone, PartialEq, Eq)]
pub enum UpdateCheck<T = String> {
    Current,
    Outdated,
    /// Installed before update tracking existed (no recorded checksum).
    Unknown,
    Failed(T),
}

impl View for UpdateCheck {
    type V = UpdateCheck<Seq<char>>;

    open spec fn view(&self) -> UpdateCheck<Seq<char>> {
        match *self {
            UpdateCheck::Current => UpdateCheck::Current,
            UpdateCheck::Outdated => UpdateCheck::Outdated,
            UpdateCheck::Unknown => UpdateCheck::Unknown,
            UpdateCheck::Failed(e) => UpdateCheck::Failed(e@),
        }
    }
}

/// What has to be done next.
#[derive(Debug)]
pub enum Request<T = String> {
    /// Fetch a text from this address.
    FetchText(T),
    /// Fetch some bytes from this address.
    FetchBytes(T),
    /// Look up the checksum of `asset` in the checksum file `sums`.
    Find { sums: T, asset: T },
    /// Read this executable.
    ReadTool(T),
    /// Read the install state from this file.
    ReadState(T),
    /// There is nothing left to do.
    Finish(UpdateCheck<T>),
}

impl View for Request {
    type V = Request<Seq<char>>;

    open spec fn view(&self) -> Request<Seq<char>> {
        match *self {
            Request::FetchText(url) => Request::FetchText(url@),
            Request::FetchBytes(url) => Request::FetchBytes(url@),
            Request::Find { sums, asset } => Request::Find { sums: sums@, asset: asset@ },
            Request::ReadTool(file) => Request::ReadTool(file@),
            Request::ReadState(file) => Request::ReadState(file@),
            Request::Finish(check) => Request::Finish(check@),
        }
    }
}

/// What came back of a [`Request`]. Of a signature that was checked only what that gave is left,
/// `S` being [`Checked`].
#[derive(Debug)]
pub enum Answer<T = String, B = Vec<u8>, S = Vec<u8>> {
    Text(Result<T, Error<T>>),
    Bytes(Result<S, Error<T>>),
    Found(Result<T, Error<T>>),
    Tool(Result<B, T>),
    /// `None` when there is no install state to read.
    State(Option<T>),
}

/// What reading a file gave, for contracts.
pub open spec fn contents(r: Result<Vec<u8>, String>) -> Result<Seq<u8>, Seq<char>> {
    match r {
        Ok(bytes) => Ok(bytes@),
        Err(e) => Err(e@),
    }
}

/// What came back, for contracts.
pub type Raw = Answer<Seq<char>, Seq<u8>, Seq<u8>>;

/// What came back, in which a signature was checked, for contracts.
pub type Seen = Answer<Seq<char>, Seq<u8>, Checked<Seq<char>>>;

impl View for Answer {
    type V = Raw;

    open spec fn view(&self) -> Raw {
        match *self {
            Answer::Text(r) => Answer::Text(super::text_outcome(r)),
            Answer::Bytes(r) => Answer::Bytes(sums::bytes_outcome(r)),
            Answer::Found(r) => Answer::Found(super::text_outcome(r)),
            Answer::Tool(r) => Answer::Tool(contents(r)),
            Answer::State(file) => Answer::State(text::opt_text(file)),
        }
    }
}

/// What is awaited.
#[derive(Debug)]
pub enum Stage<T = String> {
    /// The checksum file.
    Fetching(SumsFetch<T>),
    /// The checksum of the asset.
    Finding,
    /// What is installed, to be held against the checksum.
    Reading { published: T },
    Finished,
}

impl View for Stage {
    type V = Stage<Seq<char>>;

    open spec fn view(&self) -> Stage<Seq<char>> {
        match *self {
            Stage::Fetching(fetch) => Stage::Fetching(fetch@),
            Stage::Finding => Stage::Finding,
            Stage::Reading { published } => Stage::Reading { published: published@ },
            Stage::Finished => Stage::Finished,
        }
    }
}

/// An update check under way.
#[derive(Debug)]
pub struct Checking<T = String> {
    pub asset: T,
    /// The executable, whose own checksum is published when there is no `state_key`.
    pub tool: T,
    pub state_file: T,
    pub state_key: Option<T>,
    pub stage: Stage<T>,
}

impl View for Checking {
    type V = Checking<Seq<char>>;

    open spec fn view(&self) -> Checking<Seq<char>> {
        Checking {
            asset: self.asset@,
            tool: self.tool@,
            state_file: self.state_file@,
            state_key: text::opt_text(self.state_key),
            stage: self.stage@,
        }
    }
}

impl View for Answer<String, Vec<u8>, Checked> {
    type V = Seen;

    open spec fn view(&self) -> Seen {
        match *self {
            Answer::Text(r) => Answer::Text(super::text_outcome(r)),
            Answer::Bytes(r) => Answer::Bytes(sums::checked_outcome(r)),
            Answer::Found(r) => Answer::Found(super::text_outcome(r)),
            Answer::Tool(r) => Answer::Tool(contents(r)),
            Answer::State(file) => Answer::State(text::opt_text(file)),
        }
    }
}

/// The start of an update check.
pub open spec fn checking(
    component: Component,
    source: Source<Seq<char>>,
    paths: Paths,
) -> Checking<Seq<char>> {
    Checking {
        asset: source.asset,
        tool: paths.tool_path(component.programs()[0]),
        state_file: paths::joined_path(paths.platform, paths.bin_dir@, ".install_state"@),
        state_key: source.state_key,
        stage: Stage::Fetching(sums::begun(source)),
    }
}

/// Whether a checksum file that is awaited can be waited for in this way.
pub open spec fn valid(check: Checking<Seq<char>>) -> bool {
    check.stage matches Stage::Fetching(fetch) ==> (fetch.sums is Some ==> fetch.signer is Some)
}

/// Whether `answer` is what is awaited.
pub open spec fn awaited<S>(
    check: Checking<Seq<char>>,
    answer: Answer<Seq<char>, Seq<u8>, S>,
) -> bool {
    match check.stage {
        Stage::Fetching(fetch) => if fetch.sums is None {
            answer is Text
        } else {
            answer is Bytes
        },
        Stage::Finding => answer is Found,
        Stage::Reading { .. } => if check.state_key is None {
            answer is Tool
        } else {
            answer is State
        },
        Stage::Finished => false,
    }
}

/// Whether `seen` is what becomes of `answer` when a signature in it is checked.
pub open spec fn seen_as(check: Checking<Seq<char>>, answer: Raw, seen: Seen) -> bool {
    match answer {
        Answer::Text(text) => seen == Seen::Text(text),
        Answer::Bytes(signature) => {
            &&& check.stage matches Stage::Fetching(fetch)
            &&& seen matches Answer::Bytes(checked)
            &&& sums::is_checked(fetch.sums->0, signature, fetch.signer->0, checked)
        },
        Answer::Found(found) => seen == Seen::Found(found),
        Answer::Tool(bytes) => seen == Seen::Tool(bytes),
        Answer::State(file) => seen == Seen::State(file),
    }
}

/// The verdict on an installed hash.
pub open spec fn compared(installed: Seq<char>, published: Seq<char>) -> UpdateCheck<Seq<char>> {
    if text::same_letters(installed, published) {
        UpdateCheck::Current
    } else {
        UpdateCheck::Outdated
    }
}

/// The verdict on what is installed: the executable itself is hashed when that is what is
/// published, and else the checksum recorded when it was installed counts.
pub open spec fn verdict(
    check: Checking<Seq<char>>,
    answer: Seen,
    published: Seq<char>,
) -> UpdateCheck<Seq<char>> {
    match check.state_key {
        None => match answer->Tool_0 {
            Ok(bytes) => compared(text::hex_digits(checksum::sha256(bytes)), published),
            Err(e) => UpdateCheck::Failed(e),
        },
        Some(key) => match answer->State_0 {
            None => UpdateCheck::Unknown,
            Some(file) => match state::state_value(file, key) {
                None => UpdateCheck::Unknown,
                Some(recorded) => compared(recorded, published),
            },
        },
    }
}

/// What follows `answer`, in which a signature was checked.
pub open spec fn stepped(
    check: Checking<Seq<char>>,
    answer: Seen,
) -> (Checking<Seq<char>>, Request<Seq<char>>) {
    let finished = Checking { stage: Stage::<Seq<char>>::Finished, ..check };
    match check.stage {
        Stage::Fetching(fetch) => {
            let reply = match answer {
                Answer::Text(r) => SumsReply::Text(r),
                Answer::Bytes(r) => SumsReply::Bytes(r),
                _ => arbitrary(),
            };
            let (next, step) = sums::advanced(fetch, reply);
            match step {
                SumsStep::FetchText(url) => (
                    Checking { stage: Stage::Fetching(next), ..check },
                    Request::FetchText(url),
                ),
                SumsStep::FetchBytes(url) => (
                    Checking { stage: Stage::Fetching(next), ..check },
                    Request::FetchBytes(url),
                ),
                SumsStep::Done(Err(e)) => (
                    finished,
                    Request::Finish(UpdateCheck::Failed(super::error_text(e))),
                ),
                SumsStep::Done(Ok(sums)) => (
                    Checking { stage: Stage::<Seq<char>>::Finding, ..check },
                    Request::Find { sums, asset: check.asset },
                ),
            }
        },
        Stage::Finding => match answer->Found_0 {
            Err(e) => (finished, Request::Finish(UpdateCheck::Failed(super::error_text(e)))),
            Ok(published) => (
                Checking { stage: Stage::Reading { published }, ..check },
                if check.state_key is None {
                    Request::ReadTool(check.tool)
                } else {
                    Request::ReadState(check.state_file)
                },
            ),
        },
        Stage::Reading { published } => (
            finished,
            Request::Finish(verdict(check, answer, published)),
        ),
        Stage::Finished => arbitrary(),
    }
}

/// Starts comparing what is installed of `component` with what is published, or says why that
/// can't be done on this platform.
pub fn check_update(component: Component, source: Option<Source>, paths: &Paths) -> (r: Result<
    (Checking, Request),
    UpdateCheck,
>)
    requires
        paths.wf(),
    ensures
        match source {
            None => r matches Err(e) && e@ == UpdateCheck::Failed(
                super::error_text(Error::<Seq<char>>::Unsupported),
            ),
            Some(source) => {
                &&& r matches Ok(begun)
                &&& begun.0@ == checking(component, source@, *paths)
                &&& begun.1@ == Request::<Seq<char>>::FetchText(source@.checksum_url)
                &&& valid(begun.0@)
            },
        },
{
    match source {
        None => Err(UpdateCheck::Failed(Error::Unsupported.to_string())),
        Some(source) => {
            let (fetch, _) = fetch_sums(&source);
            let url: String = source.checksum_url.clone();
            let files: Vec<String> = inspect_files(component, paths);
            proof {
                assert(text::texts(files@).len() == files@.len());
                assert(component.programs().len() >= 1);
                assert(text::texts(files@)[0] == files@[0]@);
                assert(super::tool_paths(*paths, component.programs())[0] == paths.tool_path(
                    component.programs()[0],
                ));
            }
            let check = Checking {
                asset: source.asset,
                tool: files[0].clone(),
                state_file: paths.state_file(),
                state_key: source.state_key,
                stage: Stage::Fetching(fetch),
            };
            Ok((check, Request::FetchText(url)))
        },
    }
}

/// The verdict on an installed hash.
pub fn compare(installed: &str, published: &str) -> (r: UpdateCheck)
    ensures
        r@ == compared(installed@, published@),
{
    if text::eq_ignore_ascii_case(installed, published) {
        UpdateCheck::Current
    } else {
        UpdateCheck::Outdated
    }
}

impl Checking {
    /// Whether `answer` is what is awaited.
    pub fn expects(&self, answer: &Answer) -> (r: bool)
        ensures
            r == awaited(self@, answer@),
    {
        match &self.stage {
            Stage::Fetching(fetch) => if fetch.sums.is_none() {
                matches!(answer, Answer::Text(_))
            } else {
                matches!(answer, Answer::Bytes(_))
            },
            Stage::Finding => matches!(answer, Answer::Found(_)),
            Stage::Reading { .. } => if self.state_key.is_none() {
                matches!(answer, Answer::Tool(_))
            } else {
                matches!(answer, Answer::State(_))
            },
            Stage::Finished => false,
        }
    }

    fn judge(&self, answer: Answer<String, Vec<u8>, Checked>, published: &str) -> (r: UpdateCheck)
        requires
            self.state_key is None ==> answer is Tool,
            self.state_key is Some ==> answer is State,
        ensures
            r@ == verdict(self@, answer@, published@),
    {
        match (answer, &self.state_key) {
            // yt-dlp publishes the checksum of the binary itself: hash the file.
            (Answer::Tool(Ok(bytes)), _) => compare(
                sha256_file(bytes.as_slice()).as_str(),
                published,
            ),
            (Answer::Tool(Err(e)), _) => UpdateCheck::Failed(e),
            // FFmpeg and Deno publish the checksum of the archive, which is gone after
            // extraction, so compare with what was recorded at install.
            (Answer::State(Some(file)), Some(key)) => match read_state(
                file.as_str(),
                key.as_str(),
            ) {
                Some(recorded) => compare(recorded.as_str(), published),
                None => UpdateCheck::Unknown,
            },
            _ => UpdateCheck::Unknown,
        }
    }

    /// Checks the signature that came back, when one did.
    pub fn check(&self, answer: Answer) -> (r: Answer<String, Vec<u8>, Checked>)
        requires
            valid(self@),
            awaited(self@, answer@),
        ensures
            seen_as(self@, answer@, r@),
            awaited(self@, r@),
    {
        match answer {
            Answer::Text(text) => Answer::Text(text),
            Answer::Bytes(bytes) => {
                if let Stage::Fetching(fetch) = &self.stage {
                    if let SumsReply::Bytes(checked) = fetch.check(SumsReply::Bytes(bytes)) {
                        return Answer::Bytes(checked);
                    }
                }
                proof {
                    assert(false);
                }
                Answer::State(None)
            },
            Answer::Found(found) => Answer::Found(found),
            Answer::Tool(bytes) => Answer::Tool(bytes),
            Answer::State(file) => Answer::State(file),
        }
    }

    /// Goes on with what came back of the last request.
    pub fn step(self, answer: Answer) -> (r: (Checking, Request))
        requires
            valid(self@),
            awaited(self@, answer@),
        ensures
            exists|seen: Seen|
                seen_as(self@, answer@, seen) && (r.0@, r.1@) == #[trigger] stepped(self@, seen),
            valid(r.0@),
    {
        let seen: Answer<String, Vec<u8>, Checked> = self.check(answer);
        let r: (Checking, Request) = self.go_on(seen);
        proof {
            assert(seen_as(self@, answer@, seen@));
            assert((r.0@, r.1@) == stepped(self@, seen@));
        }
        r
    }

    /// Goes on with what came back of the last request, in which a signature was checked.
    pub fn go_on(self, answer: Answer<String, Vec<u8>, Checked>) -> (r: (Checking, Request))
        requires
            valid(self@),
            awaited(self@, answer@),
        ensures
            (r.0@, r.1@) == stepped(self@, answer@),
            valid(r.0@),
    {
        if let Stage::Reading { published } = &self.stage {
            let check: UpdateCheck = self.judge(answer, published.as_str());
            return (Checking { stage: Stage::Finished, ..self }, Request::Finish(check));
        }
        let Checking { asset, tool, state_file, state_key, stage } = self;
        match (stage, answer) {
            (Stage::Fetching(fetch), answer) => {
                let reply: SumsReply<String, Checked> = match answer {
                    Answer::Text(text) => SumsReply::Text(text),
                    Answer::Bytes(bytes) => SumsReply::Bytes(bytes),
                    _ => SumsReply::Text(Err(Error::Unsupported)),
                };
                let (next, step) = fetch.go_on(reply);
                match step {
                    SumsStep::FetchText(url) => (
                        Checking {
                            asset,
                            tool,
                            state_file,
                            state_key,
                            stage: Stage::Fetching(next),
                        },
                        Request::FetchText(url),
                    ),
                    SumsStep::FetchBytes(url) => (
                        Checking {
                            asset,
                            tool,
                            state_file,
                            state_key,
                            stage: Stage::Fetching(next),
                        },
                        Request::FetchBytes(url),
                    ),
                    SumsStep::Done(Err(e)) => (
                        Checking { asset, tool, state_file, state_key, stage: Stage::Finished },
                        Request::Finish(UpdateCheck::Failed(e.to_string())),
                    ),
                    SumsStep::Done(Ok(sums)) => {
                        let wanted: String = asset.clone();
                        (
                            Checking { asset, tool, state_file, state_key, stage: Stage::Finding },
                            Request::Find { sums, asset: wanted },
                        )
                    },
                }
            },
            (Stage::Finding, Answer::Found(Err(e))) => (
                Checking { asset, tool, state_file, state_key, stage: Stage::Finished },
                Request::Finish(UpdateCheck::Failed(e.to_string())),
            ),
            (Stage::Finding, Answer::Found(Ok(published))) => {
                let request: Request = if state_key.is_none() {
                    Request::ReadTool(tool.clone())
                } else {
                    Request::ReadState(state_file.clone())
                };
                (
                    Checking {
                        asset,
                        tool,
                        state_file,
                        state_key,
                        stage: Stage::Reading { published },
                    },
                    request,
                )
            },
            (stage, _) => {
                proof {
                    assert(false);
                }
                (
                    Checking { asset, tool, state_file, state_key, stage },
                    Request::Finish(UpdateCheck::Failed(Error::Unsupported.to_string())),
                )
            },
        }
    }
}

/// A checksum is looked up for an update check only in a file that may be believed: one that came
/// with a signature by the expected signer, when there is one.
pub proof fn law_an_update_check_believes_only_signed_files(
    check: Checking<Seq<char>>,
    answer: Raw,
    seen: Seen,
    sums: Seq<char>,
    asset: Seq<char>,
)
    requires
        valid(check),
        awaited(check, answer),
        seen_as(check, answer, seen),
        stepped(check, seen).1 == (Request::<Seq<char>>::Find { sums, asset }),
    ensures
        asset == check.asset,
        check.stage matches Stage::Fetching(fetch) && match fetch.signer {
            None => answer == Raw::Text(Ok(sums)),
            Some(signer) => answer matches Answer::Bytes(signature) && sums::is_signed(
                sums,
                signature,
                signer,
            ),
        },
{
}

/// Right after an installation that recorded the published checksum, the update check finds it
/// current, for as long as the same checksum is published.
pub proof fn law_what_was_just_recorded_is_current(
    check: Checking<Seq<char>>,
    file: Seq<char>,
    key: Seq<char>,
    published: Seq<char>,
)
    requires
        check.state_key == Some(key),
        check.stage == (Stage::<Seq<char>>::Reading { published }),
        state::can_record(file, key),
        state::is_value(published),
        published.len() > 0,
    ensures
        stepped(check, Answer::State(Some(state::new_state(file, key, published)))).1
            == Request::<Seq<char>>::Finish(UpdateCheck::Current),
{
    state::law_a_written_value_is_read_back(file, key, published);
}

/// How an update check stands after some answers, in which signatures were checked.
pub open spec fn after(check: Checking<Seq<char>>, answers: Seq<Seen>) -> Checking<Seq<char>>
    decreases answers.len(),
{
    if answers.len() == 0 {
        check
    } else {
        stepped(after(check, answers.drop_last()), answers.last()).0
    }
}

/// What an update check asks for after some answers.
pub open spec fn asked(check: Checking<Seq<char>>, answers: Seq<Seen>) -> Request<Seq<char>>
    recommends
        answers.len() > 0,
{
    stepped(after(check, answers.drop_last()), answers.last()).1
}

/// The answers of an update check that gets the checksum file `sums`, with a signature that is
/// right where upstream signs it, finds `published` in it, and then gets `last`.
pub open spec fn undisturbed(
    source: Source<Seq<char>>,
    sums: Seq<char>,
    published: Seq<char>,
    last: Seen,
) -> Seq<Seen> {
    if source.signed_by is None {
        seq![Seen::Text(Ok(sums)), Seen::Found(Ok(published)), last]
    } else {
        seq![Seen::Text(Ok(sums)), Seen::Bytes(Ok(Ok(()))), Seen::Found(Ok(published)), last]
    }
}

proof fn lemma_undisturbed(
    check: Checking<Seq<char>>,
    source: Source<Seq<char>>,
    sums: Seq<char>,
    published: Seq<char>,
    last: Seen,
)
    requires
        check.stage == Stage::<Seq<char>>::Fetching(sums::begun(source)),
    ensures
        asked(check, undisturbed(source, sums, published, last)) == Request::<Seq<char>>::Finish(
            verdict(check, last, published),
        ),
{
    let answers = undisturbed(source, sums, published, last);
    let found = answers.drop_last();
    let fetched = found.drop_last();
    assert(fetched.drop_last().len() == 0 || fetched.drop_last().drop_last().len() == 0);
    assert(after(check, fetched) == (Checking { stage: Stage::<Seq<char>>::Finding, ..check })) by {
        reveal_with_fuel(after, 3);
    }
    assert(after(check, found) == (Checking { stage: Stage::Reading { published }, ..check }));
}

/// Right after an installation that ended well, the update check finds it current, for as long as
/// what it put in place is left alone and the same checksum is published: also when that is the one
/// that was asked for again after the download. What is in place is the recorded checksum, or the
/// executable that was downloaded where its own checksum is published. `hash` is the SHA-256 of
/// what was downloaded; a key has to be one that the state file can hold.
pub proof fn law_what_was_just_installed_is_current(
    component: Component,
    source: Source<Seq<char>>,
    paths: Paths,
    sums_name: Seq<char>,
    replies: Seq<install::Raw>,
    seen: Seq<install::Seen>,
    expected: Seq<char>,
    sums: Seq<char>,
    file: Seq<char>,
    tool: Seq<u8>,
    got: int,
    hash: Seq<char>,
)
    requires
        install::downloaded(replies, got, hash),
        ({
            let begun = install::started(component, source, paths, sums_name);
            &&& install::answered(begun, replies, seen)
            &&& install::installed(begun, seen, expected)
        }),
        match source.state_key {
            Some(key) => checksum::is_hash(hash) && state::can_record(file, key),
            None => hash == text::hex_digits(checksum::sha256(tool)),
        },
    ensures
        source.state_key matches Some(key) ==> install::asked(
            install::started(component, source, paths, sums_name),
            seen,
            seen.len() - 2,
        ) == (install::Action::<Seq<char>>::Record { key, value: expected }),
        asked(
            checking(component, source, paths),
            undisturbed(
                source,
                sums,
                expected,
                match source.state_key {
                    Some(key) => Seen::State(Some(state::new_state(file, key, expected))),
                    None => Seen::Tool(Ok(tool)),
                },
            ),
        ) == Request::<Seq<char>>::Finish(UpdateCheck::Current),
{
    let begun = install::started(component, source, paths, sums_name);
    let check = checking(component, source, paths);
    install::law_an_installation_ends_well_only_with_what_matched(begun, replies, seen);
    match source.state_key {
        Some(key) => {
            let last = Seen::State(Some(state::new_state(file, key, expected)));
            lemma_undisturbed(check, source, sums, expected, last);
            assert(text::same_letters(hash, expected));
            assert forall|i: int| 0 <= i < expected.len() implies #[trigger] expected[i] != '\n'
                && expected[i] != '\r' by {
                assert(text::lower(hash[i]) == text::lower(expected[i]));
                assert('0' <= hash[i] <= '9' || 'a' <= hash[i] <= 'f');
            }
            assert(text::chomp(expected) == expected);
            state::law_a_written_value_is_read_back(file, key, expected);
        },
        None => {
            lemma_undisturbed(check, source, sums, expected, Seen::Tool(Ok(tool)));
        },
    }
}

} // verus!
