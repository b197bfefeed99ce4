//! Downloads, verifies and installs yt-dlp, FFmpeg and Deno into `bin/` next to the application,
//! tracking what was installed in a small `bin/.install_state` file (needed because FFmpeg and
//! Deno publish the checksum of their archive, which is gone after extraction). Progress is
//! reported through [`Event`]s.
use vstd::prelude::*;

use crate::log::Level;
use crate::process::{Output, RunError};
use crate::text;

pub mod age;
pub mod checksum;
pub mod install;
pub mod install_laws;
pub mod paths;
pub mod platform;
pub mod signature;
pub mod state;
pub mod sums;
pub mod tool_laws;
pub mod update;

pub use age::{days_from_civil, today, ytdlp_age_days, YTDLP_STALE_DAYS};
pub use checksum::sha256_file;
pub use install::install;
pub use paths::{can_hold_files, join_path, plain_path, Paths, Platform};
pub use state::{read_state, write_state};
pub use update::{check_update, UpdateCheck};

verus! {

/// One of the tools the application keeps in `bin/`.
#[derive(Debug, Clone, Copy, PartialEq, Eq, Structural)]
pub enum Component {
    YtDlp,
    Ffmpeg,
    Deno,
}

impl Component {
    pub const ALL: [Component; 3] = [Component::YtDlp, Component::Ffmpeg, Component::Deno];

    /// What people call it.
    pub open spec fn name(self) -> Seq<char> {
        match self {
            Component::YtDlp => "yt-dlp"@,
            Component::Ffmpeg => "FFmpeg"@,
            Component::Deno => "Deno"@,
        }
    }

    pub fn label(self) -> (r: &'static str)
        ensures
            r@ == self.name(),
    {
        match self {
            Component::YtDlp => "yt-dlp",
            Component::Ffmpeg => "FFmpeg",
            Component::Deno => "Deno",
        }
    }

    /// The executables it puts in `bin/`, the one that tells its version first.
    pub open spec fn programs(self) -> Seq<Seq<char>> {
        match self {
            Component::YtDlp => seq!["yt-dlp"@],
            Component::Ffmpeg => seq!["ffmpeg"@, "ffprobe"@],
            Component::Deno => seq!["deno"@],
        }
    }

    /// Executables this component puts in `bin/` (without `.exe`).
    pub fn binaries(self) -> (r: &'static [&'static str])
        ensures
            r@.map_values(|s: &'static str| s@) == self.programs(),
            r@.len() >= 1,
    {
        let r: &'static [&'static str] = match self {
            Component::YtDlp => &["yt-dlp"],
            Component::Ffmpeg => &["ffmpeg", "ffprobe"],
            Component::Deno => &["deno"],
        };
        proof {
            assert(r@.map_values(|s: &'static str| s@) =~= self.programs());
        }
        r
    }
}

/// What happens during an installation.
#[derive(Debug, Clone, PartialEq)]
pub enum Event<T = String> {
    Log(Level, T),
    /// Progress of the file currently downloading.
    Transfer { file: T, received: u64, total: Option<u64> },
    TransferFinished,
}

impl View for Event {
    type V = Event<Seq<char>>;

    open spec fn view(&self) -> Event<Seq<char>> {
        match *self {
            Event::Log(level, text) => Event::Log(level, text@),
            Event::Transfer { file, received, total } => Event::Transfer {
                file: file@,
                received,
                total,
            },
            Event::TransferFinished => Event::TransferFinished,
        }
    }
}

/// What a list of events says.
pub open spec fn events(v: Seq<Event>) -> Seq<Event<Seq<char>>> {
    v.map_values(|e: Event| e@)
}

/// Why something could not be installed or checked.
#[derive(Debug)]
pub enum Error<T = String> {
    Unsupported,
    Io(T),
    Download(T),
    Checksum(T),
    Archive(T),
}

impl View for Error {
    type V = Error<Seq<char>>;

    open spec fn view(&self) -> Error<Seq<char>> {
        match *self {
            Error::Unsupported => Error::Unsupported,
            Error::Io(m) => Error::Io(m@),
            Error::Download(m) => Error::Download(m@),
            Error::Checksum(m) => Error::Checksum(m@),
            Error::Archive(m) => Error::Archive(m@),
        }
    }
}

/// What an error says.
pub open spec fn error_text(e: Error<Seq<char>>) -> Seq<char> {
    match e {
        Error::Unsupported =>
        "This platform isn't supported (only Linux and Windows on x86_64)."@,
        Error::Io(m) => m,
        Error::Download(m) => m,
        Error::Checksum(m) => m,
        Error::Archive(m) => m,
    }
}

/// The outcome of something that may fail with an [`Error`], for contracts.
pub open spec fn outcome<A>(r: Result<A, Error>) -> Result<A, Error<Seq<char>>> {
    match r {
        Ok(a) => Ok(a),
        Err(e) => Err(e@),
    }
}

/// The outcome of something that gives a text or fails with an [`Error`], for contracts.
pub open spec fn text_outcome(r: Result<String, Error>) -> Result<Seq<char>, Error<Seq<char>>> {
    match r {
        Ok(s) => Ok(s@),
        Err(e) => Err(e@),
    }
}

impl Error {
    /// What is shown to the person.
    pub fn to_string(&self) -> (r: String)
        ensures
            r@ == error_text(self@),
    {
        match self {
            Error::Unsupported =>
            "This platform isn't supported (only Linux and Windows on x86_64).".to_owned(),
            Error::Io(m) => m.clone(),
            Error::Download(m) => m.clone(),
            Error::Checksum(m) => m.clone(),
            Error::Archive(m) => m.clone(),
        }
    }
}

// ---------------------------------------------------------------------------
// Status
// ---------------------------------------------------------------------------

/// What is installed of a component.
#[derive(Debug, Clone, PartialEq, Eq)]
pub enum Status<T = String> {
    Missing,
    /// Present but wouldn't run (truncated, wrong architecture...).
    Broken,
    Installed { version: T },
}

impl View for Status {
    type V = Status<Seq<char>>;

    open spec fn view(&self) -> Status<Seq<char>> {
        match *self {
            Status::Missing => Status::Missing,
            Status::Broken => Status::Broken,
            Status::Installed { version } => Status::Installed { version: version@ },
        }
    }
}

/// The argument that makes a component's main program print its version.
pub open spec fn version_argument(component: Component) -> Seq<char> {
    if component is Ffmpeg {
        "-version"@
    } else {
        "--version"@
    }
}

/// Where the programs `names` are in `bin/`.
pub open spec fn tool_paths(paths: Paths, names: Seq<Seq<char>>) -> Seq<Seq<char>> {
    names.map_values(|name: Seq<char>| paths.tool_path(name))
}

proof fn lemma_programs_are_plain(component: Component, platform: Platform, i: int)
    requires
        0 <= i < component.programs().len(),
    ensures
        paths::can_join(platform, component.programs()[i]),
{
    reveal_strlit("yt-dlp");
    reveal_strlit("ffmpeg");
    reveal_strlit("ffprobe");
    reveal_strlit("deno");
    match component {
        Component::YtDlp => {
            assert(component.programs()[i] == "yt-dlp"@);
        },
        Component::Ffmpeg => {
            if i == 0 {
                assert(component.programs()[i] == "ffmpeg"@);
            } else {
                assert(component.programs()[i] == "ffprobe"@);
            }
        },
        Component::Deno => {
            assert(component.programs()[i] == "deno"@);
        },
    }
}

/// The files that have to be there, the one to run first.
pub fn inspect_files(component: Component, paths: &Paths) -> (r: Vec<String>)
    requires
        paths.wf(),
    ensures
        text::texts(r@) == tool_paths(*paths, component.programs()),
{
    let names = component.binaries();
    let ghost programs = component.programs();
    let mut r: Vec<String> = Vec::new();
    let mut i: usize = 0;
    while i < names.len()
        invariant
            i <= names@.len() == programs.len(),
            paths.wf(),
            programs == component.programs(),
            names@.map_values(|s: &'static str| s@) == programs,
            text::texts(r@) == tool_paths(*paths, programs.take(i as int)),
        decreases names@.len() - i,
    {
        let ghost before = text::texts(r@);
        proof {
            assert(programs[i as int] == names@[i as int]@);
            lemma_programs_are_plain(component, paths.platform, i as int);
        }
        r.push(paths.tool(names[i]));
        proof {
            assert(programs.take(i + 1) == programs.take(i as int).push(programs[i as int]));
            assert(text::texts(r@) =~= before.push(paths.tool_path(programs[i as int])));
            assert(tool_paths(*paths, programs.take(i + 1)) =~= before.push(
                paths.tool_path(programs[i as int]),
            ));
        }
        i = i + 1;
    }
    proof {
        assert(programs.take(i as int) == programs);
    }
    r
}

/// The argument that makes a component's main program print its version.
pub fn inspect_argument(component: Component) -> (r: &'static str)
    ensures
        r@ == version_argument(component),
{
    if component == Component::Ffmpeg {
        "-version"
    } else {
        "--version"
    }
}

/// What a finished run printed, when it ran to the end and reported success.
pub fn run_for_output(result: Result<Output, RunError>) -> (r: Option<String>)
    ensures
        r == (match result {
            Ok(output) => if output.success {
                Some(output.stdout)
            } else {
                None
            },
            Err(_) => None,
        }),
{
    match result {
        Ok(output) => if output.success {
            Some(output.stdout)
        } else {
            None
        },
        Err(_) => None,
    }
}

/// Whether every file was found.
pub open spec fn is_complete(found: Seq<bool>) -> bool {
    forall|i: int| 0 <= i < found.len() ==> #[trigger] found[i]
}

/// Whether every file was found: only then there is something to run.
pub fn all_found(found: &Vec<bool>) -> (r: bool)
    ensures
        r == is_complete(found@),
{
    let mut i: usize = 0;
    while i < found.len()
        invariant
            i <= found@.len(),
            forall|j: int| 0 <= j < i ==> #[trigger] found@[j],
        decreases found@.len() - i,
    {
        if !found[i] {
            return false;
        }
        i = i + 1;
    }
    true
}

/// What is installed, based on actually running the binaries: `found` tells of each one of
/// [`inspect_files`] whether it is there, and `output` is what the first of them printed for
/// [`inspect_argument`].
pub open spec fn status_of(
    component: Component,
    found: Seq<bool>,
    output: Option<Seq<char>>,
) -> Status<Seq<char>> {
    if !is_complete(found) {
        Status::Missing
    } else {
        match output {
            Some(out) => match version_in(component, out) {
                Some(version) => Status::Installed { version },
                None => Status::Broken,
            },
            None => Status::Broken,
        }
    }
}

/// What is installed, based on actually running the binaries: `found` tells of each one of
/// [`inspect_files`] whether it is there, and `output` is what the first of them printed for
/// [`inspect_argument`]. A component is missing as soon as one of its executables is.
pub fn inspect(component: Component, found: &Vec<bool>, output: Option<String>) -> (r: Status)
    requires
        found@.len() == component.programs().len(),
    ensures
        r@ == status_of(component, found@, text::opt_text(output)),
        r is Missing <==> exists|i: int| 0 <= i < component.programs().len() && !#[trigger] found@[i],
{
    if !all_found(found) {
        return Status::Missing;
    }
    match output {
        Some(out) => match parse_version(component, out.as_str()) {
            Some(version) => Status::Installed { version },
            None => Status::Broken,
        },
        None => Status::Broken,
    }
}

/// The first of some texts.
pub open spec fn first_of(parts: Seq<Seq<char>>) -> Option<Seq<char>> {
    if parts.len() > 0 {
        Some(parts[0])
    } else {
        None
    }
}

/// The second of some texts.
pub open spec fn second_of(parts: Seq<Seq<char>>) -> Option<Seq<char>> {
    if parts.len() > 1 {
        Some(parts[1])
    } else {
        None
    }
}

/// The version in what a component's main program prints: all of yt-dlp's first line, the word
/// after `ffmpeg version `, and the second word of Deno's first line.
pub open spec fn version_in(component: Component, output: Seq<char>) -> Option<Seq<char>> {
    match first_of(text::lines(output)) {
        Some(line) => {
            let first = text::trim(line);
            let version = match component {
                Component::YtDlp => Some(first),
                Component::Ffmpeg => match text::after(first, "ffmpeg version "@) {
                    Some(rest) => first_of(text::words(rest)),
                    None => None,
                },
                Component::Deno => second_of(text::words(first)),
            };
            match version {
                Some(v) => if v.len() > 0 {
                    Some(v)
                } else {
                    None
                },
                None => None,
            }
        },
        None => None,
    }
}

/// Extracts the version from each tool's own `--version`/`-version` output.
pub fn parse_version(component: Component, output: &str) -> (r: Option<String>)
    ensures
        text::opt_text(r) == version_in(component, output@),
{
    let all: Vec<String> = text::split_lines(output);
    if all.len() == 0 {
        return None;
    }
    proof {
        assert(text::texts(all@)[0] == all@[0]@);
    }
    let first: String = text::trimmed(all[0].as_str());
    let version: String = match component {
        Component::YtDlp => first,
        // "ffmpeg version N-126495-g3a165c77dc-20260910 Copyright ..."
        Component::Ffmpeg => match text::strip_prefix(first.as_str(), "ffmpeg version ") {
            Some(rest) => {
                let parts: Vec<String> = text::split_words(rest.as_str());
                if parts.len() == 0 {
                    return None;
                }
                proof {
                    assert(text::texts(parts@)[0] == parts@[0]@);
                }
                parts[0].clone()
            },
            None => return None,
        },
        // "deno 2.9.6 (stable, release, x86_64-unknown-linux-gnu)"
        Component::Deno => {
            let parts: Vec<String> = text::split_words(first.as_str());
            if parts.len() < 2 {
                return None;
            }
            proof {
                assert(text::texts(parts@)[1] == parts@[1]@);
            }
            parts[1].clone()
        },
    };
    if version.as_str().is_empty() {
        None
    } else {
        Some(version)
    }
}

/// The first line of `output`, which may be empty.
pub open spec fn first_line(output: Seq<char>) -> Seq<char> {
    match first_of(text::lines(output)) {
        Some(line) => line,
        None => Seq::empty(),
    }
}

/// A version is read from the first line alone, whatever comes after it, and stands there: in one
/// piece, and without white space but for yt-dlp, whose whole first line it is. yt-dlp has one
/// unless that line is blank.
pub proof fn law_a_version_stands_in_the_first_line(component: Component, output: Seq<char>)
    ensures
        version_in(component, output) == version_in(component, first_line(output)),
        version_in(component, output) matches Some(version) ==> {
            &&& version.len() > 0
            &&& text::part_of(version, text::trim(first_line(output)))
            &&& component is Ffmpeg || component is Deno ==> text::lacks_white(version)
        },
        component is YtDlp ==> (version_in(component, output) is Some <==> text::trim(
            first_line(output),
        ).len() > 0),
{
    reveal_strlit("ffmpeg version ");
    let line = first_line(output);
    let first = text::trim(line);
    text::lemma_lines_lack_feeds(output);
    text::lemma_lead_props(output, text::other_than('\n'));
    let none = Seq::<char>::empty();
    assert(text::trim(none).len() == 0);
    if line.len() == 0 {
        assert(line =~= none);
        assert(text::words(none).len() == 0);
    } else {
        assert forall|i: int| 0 <= i < line.len() implies text::other_than('\n')(
            #[trigger] line[i],
        ) by {
            assert(text::lacks(text::lines(output)[0], '\n'));
        }
        text::lemma_lead_is(line, text::other_than('\n'), line.len());
        assert(text::lines(line) =~= seq![line]);
    }
    if let Some(version) = version_in(component, output) {
        match component {
            Component::YtDlp => {
                assert(version =~= first.subrange(0, first.len() as int));
            },
            Component::Ffmpeg => {
                let n = "ffmpeg version "@.len() as int;
                let rest = first.skip(n);
                text::lemma_words(rest);
                assert(text::words(rest)[0] == version);
                let (from, to) = choose|from: int, to: int|
                    0 <= from <= to <= rest.len() && version == #[trigger] rest.subrange(from, to);
                assert(version =~= first.subrange(n + from, n + to));
            },
            Component::Deno => {
                text::lemma_words(first);
                assert(text::words(first)[1] == version);
            },
        }
    }
}

// ---------------------------------------------------------------------------
// Helpers of an installation
// ---------------------------------------------------------------------------

/// Two lower case hexadecimal digits for each byte.
pub fn hex(bytes: &[u8]) -> (r: String)
    ensures
        r@ == text::hex_digits(bytes@),
{
    text::hex_text(bytes)
}

/// The file that is written and removed again to see whether the application folder can be
/// written to at all.
pub fn write_probe(paths: &Paths, process_id: u32) -> (r: String)
    requires
        paths.wf(),
    ensures
        r@ == paths::joined_path(
            paths.platform,
            paths.app_dir@,
            ".write-test-"@ + text::decimal(process_id as nat),
        ),
{
    let name: String = text::concat2(".write-test-", text::decimal_text(process_id as u64).as_str());
    proof {
        reveal_strlit(".write-test-");
        reveal_strlit(".");
        reveal_strlit("..");
        assert(name@.len() > 2);
        text::lemma_decimal_digits(process_id as nat);
        assert forall|i: int| 0 <= i < name@.len() implies #[trigger] name@[i] != '\\' && name@[i]
            != '/' && name@[i] != ':' && name@[i] != '?' by {
            let n = ".write-test-"@.len();
            if i < n {
                assert(name@[i] == ".write-test-"@[i]);
            } else {
                assert(name@[i] == text::decimal(process_id as nat)[i - n]);
            }
        }
        assert(name@[0] == '.');
    }
    join_path(paths.platform, paths.app_dir.as_str(), name.as_str())
}

/// Whether a file in `bin/` is a leftover of an interrupted run.
pub open spec fn is_leftover(name: Seq<char>) -> bool {
    text::begins(name, ".download-"@) || text::begins(name, ".tmp-"@)
}

/// Of the files in `bin/`, the leftovers of an interrupted run (partial downloads, half-written
/// binaries): only files an installation creates, identified by their prefix.
pub fn clean_leftovers(names: &Vec<String>) -> (r: Vec<String>)
    ensures
        text::texts(r@) == text::texts(names@).filter(|name: Seq<char>| is_leftover(name)),
{
    let mut r: Vec<String> = Vec::new();
    let mut i: usize = 0;
    let ghost keep = |name: Seq<char>| is_leftover(name);
    proof {
        assert(text::texts(names@).take(0).filter(keep) =~= Seq::empty());
    }
    while i < names.len()
        invariant
            i <= names.len(),
            keep == (|name: Seq<char>| is_leftover(name)),
            text::texts(r@) == text::texts(names@).take(i as int).filter(keep),
        decreases names.len() - i,
    {
        let ghost before = text::texts(names@).take(i as int);
        let leftover: bool = text::starts_with(names[i].as_str(), ".download-") || text::starts_with(
            names[i].as_str(),
            ".tmp-",
        );
        proof {
            let next = text::texts(names@).take(i + 1);
            assert(next == before.push(names@[i as int]@));
            assert(next.drop_last() == before);
            reveal(Seq::filter);
        }
        if leftover {
            r.push(names[i].clone());
            proof {
                assert(text::texts(r@) =~= before.filter(keep).push(names@[i as int]@));
            }
        }
        i = i + 1;
    }
    proof {
        assert(text::texts(names@).take(i as int) == text::texts(names@));
    }
    r
}

/// `s` cut into pieces of four characters, the last one with what is left.
pub open spec fn fours(s: Seq<char>) -> Seq<Seq<char>>
    decreases s.len(),
{
    if s.len() == 0 {
        Seq::empty()
    } else if s.len() <= 4 {
        seq![s]
    } else {
        seq![s.take(4)] + fours(s.skip(4))
    }
}

/// The last 16 characters of `s`.
pub open spec fn tail16(s: Seq<char>) -> Seq<char> {
    if s.len() <= 16 {
        s
    } else {
        s.skip(s.len() - 16)
    }
}

/// `s` in upper case.
pub open spec fn uppercase(s: Seq<char>) -> Seq<char> {
    s.map_values(|c: char| text::upper(c))
}

/// Whether every character of `s` is ASCII.
pub open spec fn ascii(s: Seq<char>) -> bool {
    forall|i: int| 0 <= i < s.len() ==> (#[trigger] s[i]) as u32 <= 127
}

/// The last 16 hex digits, grouped the way `gpg` prints fingerprints.
pub open spec fn grouped(fingerprint: Seq<char>) -> Seq<char> {
    text::join(fours(uppercase(tail16(fingerprint))), " "@)
}

/// The last 16 hex digits, grouped the way `gpg` prints fingerprints.
pub fn short_fingerprint(fingerprint: &str) -> (r: String)
    requires
        ascii(fingerprint@),
    ensures
        r@ == grouped(fingerprint@),
{
    let v: Vec<char> = text::chars_of(fingerprint);
    let start: usize = if v.len() <= 16 {
        0
    } else {
        v.len() - 16
    };
    let mut big: Vec<char> = Vec::new();
    let mut i: usize = start;
    let ghost tail = tail16(fingerprint@);
    proof {
        assert(tail == v@.skip(start as int)) by {
            assert(v@.skip(0) == v@);
        }
    }
    while i < v.len()
        invariant
            start <= i <= v.len(),
            tail == v@.skip(start as int),
            big@ == uppercase(tail.take(i - start)),
        decreases v.len() - i,
    {
        big.push(text::upper_char(v[i]));
        proof {
            assert(tail.take(i - start + 1) == tail.take(i - start).push(v@[i as int]));
            assert(big@ =~= uppercase(tail.take(i - start + 1)));
        }
        i = i + 1;
    }
    proof {
        assert(tail.take(tail.len() as int) == tail);
    }
    let mut groups: Vec<String> = Vec::new();
    let mut at: usize = 0;
    proof {
        assert(big@.skip(0) == big@);
        assert(text::texts(groups@) + fours(big@) == fours(big@));
    }
    while at < big.len()
        invariant
            at <= big.len(),
            text::texts(groups@) + fours(big@.skip(at as int)) == fours(big@),
        decreases big.len() - at,
    {
        let end: usize = if big.len() - at <= 4 {
            big.len()
        } else {
            at + 4
        };
        let ghost before = text::texts(groups@);
        let ghost rest = big@.skip(at as int);
        groups.push(text::piece(&big, at, end));
        proof {
            assert(text::texts(groups@) == before.push(big@.subrange(at as int, end as int)));
            assert(rest.skip(end - at) == big@.skip(end as int));
            if rest.len() <= 4 {
                assert(big@.subrange(at as int, end as int) == rest);
                assert(fours(big@.skip(end as int)) == Seq::<Seq<char>>::empty());
            } else {
                assert(big@.subrange(at as int, end as int) == rest.take(4));
            }
            assert(text::texts(groups@) + fours(big@.skip(end as int)) =~= before + fours(rest));
        }
        at = end;
    }
    proof {
        assert(big@.skip(at as int) == Seq::<char>::empty());
        assert(text::texts(groups@) + fours(big@.skip(at as int)) == text::texts(groups@));
    }
    text::joined(&groups, " ")
}

/// What is logged of an outcome.
pub open spec fn told<A>(outcome: Result<A, Error<Seq<char>>>) -> Seq<Event<Seq<char>>> {
    match outcome {
        Ok(_) => Seq::empty(),
        Err(e) => seq![Event::Log(Level::Error, error_text(e))],
    }
}

/// Logs an error before passing it on, so every failure shows up in the log.
pub fn logged<A>(log: &mut Vec<Event>, result: Result<A, Error>) -> (r: Result<A, Error>)
    ensures
        r == result,
        events(final(log)@) == events(old(log)@) + told(outcome(result)),
        old(log)@ == final(log)@.take(old(log)@.len() as int),
{
    if let Err(e) = &result {
        log.push(Event::Log(Level::Error, e.to_string()));
    }
    proof {
        assert(old(log)@ =~= log@.take(old(log)@.len() as int));
    }
    result
}

} // verus!
