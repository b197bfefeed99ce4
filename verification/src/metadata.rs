//! Looks up a link before it is queued: title, thumbnail, duration and an approximate size for a
//! video, or the title and the number of videos for a playlist, the way a queue card needs to show
//! something useful before the download itself has even started.
//!
//! A lookup is not retried: a failure here just means a plainer card (the raw URL as its title, no
//! thumbnail), not a reason to refuse queuing the link.
use vstd::prelude::*;

use crate::process::{Output, RunError};
use crate::provision::Paths;
use crate::text;

verus! {

/// How long a lookup may take, in seconds. A playlist is looked up flat, one entry, so it answers
/// with its own title and count instead of walking every video.
pub const TIMEOUT_SECONDS: u64 = 30;

/// What the lookup has to agree on with the download it previews.
#[derive(Debug, PartialEq, Eq)]
pub struct Lookup<T = String> {
    /// `--cookies-from-browser`, as the download will use it: a video that needs an account can't
    /// be looked up without it either.
    pub cookies: Option<T>,
    /// `--no-playlist`: a `watch?v=...&list=...` link is then the video, not the playlist, exactly
    /// as the download will treat it.
    pub single_video: bool,
}

impl View for Lookup {
    type V = Lookup<Seq<char>>;

    open spec fn view(&self) -> Lookup<Seq<char>> {
        Lookup { cookies: text::opt_text(self.cookies), single_video: self.single_video }
    }
}

impl Clone for Lookup {
    fn clone(&self) -> (r: Self)
        ensures
            r == *self,
    {
        Lookup {
            cookies: match &self.cookies {
                Some(browser) => Some(browser.clone()),
                None => None,
            },
            single_video: self.single_video,
        }
    }
}

impl Default for Lookup {
    fn default() -> (r: Self)
        ensures
            r == (Lookup::<String> { cookies: None, single_video: false }),
    {
        Lookup { cookies: None, single_video: false }
    }
}

/// A number with a fractional part, by the bits of its IEEE 754 double precision form. The library
/// hands it through and leaves computing with it to its callers.
#[derive(Debug, Clone, Copy, PartialEq, Eq, Structural)]
pub struct Real {
    pub bits: u64,
}

/// What is known of a link.
#[derive(Debug, PartialEq, Eq)]
pub struct Metadata<T = String> {
    pub title: T,
    pub thumbnail_url: Option<T>,
    /// Seconds.
    pub duration: Option<Real>,
    /// Bytes. `filesize` when yt-dlp knows it exactly, `filesize_approx` otherwise; `None` when it
    /// has no idea either (common for formats assembled from live segments).
    pub approx_size: Option<u64>,
    /// `Some` for a playlist: how many videos it holds, when yt-dlp knows.
    pub playlist: Option<Option<u64>>,
}

impl View for Metadata {
    type V = Metadata<Seq<char>>;

    open spec fn view(&self) -> Metadata<Seq<char>> {
        Metadata {
            title: self.title@,
            thumbnail_url: text::opt_text(self.thumbnail_url),
            duration: self.duration,
            approx_size: self.approx_size,
            playlist: self.playlist,
        }
    }
}

impl Clone for Metadata {
    fn clone(&self) -> (r: Self)
        ensures
            r == *self,
    {
        Metadata {
            title: self.title.clone(),
            thumbnail_url: match &self.thumbnail_url {
                Some(url) => Some(url.clone()),
                None => None,
            },
            duration: self.duration,
            approx_size: self.approx_size,
            playlist: self.playlist,
        }
    }
}

/// What yt-dlp prints of a link, as far as it is used.
#[derive(Debug, Clone, PartialEq, Eq)]
pub struct Info {
    pub kind: Option<String>,
    pub title: Option<String>,
    pub thumbnail: Option<String>,
    /// A playlist has no single `thumbnail`, only this list, best last.
    pub thumbnails: Vec<Thumbnail>,
    pub duration: Option<Real>,
    pub filesize: Option<u64>,
    pub filesize_approx: Option<u64>,
    pub playlist_count: Option<u64>,
}

#[derive(Debug, Clone, PartialEq, Eq)]
pub struct Thumbnail {
    pub url: Option<String>,
}

/// The last address among `thumbnails`.
pub open spec fn last_url(thumbnails: Seq<Thumbnail>) -> Option<Seq<char>>
    decreases thumbnails.len(),
{
    if thumbnails.len() == 0 {
        None
    } else {
        match thumbnails.last().url {
            Some(url) => Some(url@),
            None => last_url(thumbnails.drop_last()),
        }
    }
}

/// What `info` says of a link.
pub open spec fn described(info: Info) -> Metadata<Seq<char>> {
    let playlist = info.kind matches Some(kind) && kind@ == "playlist"@;
    Metadata {
        title: match info.title {
            Some(title) => title@,
            None => Seq::empty(),
        },
        thumbnail_url: match info.thumbnail {
            Some(url) => Some(url@),
            None => last_url(info.thumbnails@),
        },
        duration: if playlist {
            None
        } else {
            info.duration
        },
        approx_size: if playlist {
            None
        } else if info.filesize is Some {
            info.filesize
        } else {
            info.filesize_approx
        },
        playlist: if playlist {
            Some(info.playlist_count)
        } else {
            None
        },
    }
}

fn find_last_url(thumbnails: &Vec<Thumbnail>) -> (r: Option<String>)
    ensures
        text::opt_text(r) == last_url(thumbnails@),
{
    let mut i: usize = thumbnails.len();
    proof {
        assert(thumbnails@.take(i as int) == thumbnails@);
    }
    while i > 0
        invariant
            i <= thumbnails@.len(),
            last_url(thumbnails@.take(i as int)) == last_url(thumbnails@),
        decreases i,
    {
        proof {
            assert(thumbnails@.take(i as int).last() == thumbnails@[i - 1]);
            assert(thumbnails@.take(i as int).drop_last() == thumbnails@.take(i - 1));
        }
        i = i - 1;
        if let Some(url) = &thumbnails[i].url {
            return Some(url.clone());
        }
    }
    None
}

impl Metadata {
    /// What `info` says of a link.
    pub fn from(info: Info) -> (r: Metadata)
        ensures
            r@ == described(info),
    {
        let thumbnail_url: Option<String> = match info.thumbnail {
            Some(url) => Some(url),
            None => find_last_url(&info.thumbnails),
        };
        let title: String = match info.title {
            Some(title) => title,
            None => String::new(),
        };
        let playlist: bool = match info.kind {
            Some(kind) => kind == "playlist".to_owned(),
            None => false,
        };
        if playlist {
            return Metadata {
                title,
                thumbnail_url,
                duration: None,
                approx_size: None,
                playlist: Some(info.playlist_count),
            };
        }
        Metadata {
            title,
            thumbnail_url,
            duration: info.duration,
            approx_size: if info.filesize.is_some() {
                info.filesize
            } else {
                info.filesize_approx
            },
            playlist: None,
        }
    }
}

/// A link is a playlist exactly when it is said to be one in so many words: it then holds as many
/// videos as are counted, and has neither a duration nor a size of its own. Anything else, whatever
/// it is said to be, is a video of the length it is said to have, and of its exact size or else of
/// the approximate one.
pub proof fn law_only_a_playlist_is_a_playlist(info: Info, r: Metadata)
    requires
        call_ensures(Metadata::from, (info,), r),
    ensures
        r.playlist is Some <==> (info.kind is Some && info.kind->0@ == seq![
            'p',
            'l',
            'a',
            'y',
            'l',
            'i',
            's',
            't',
        ]),
        r.playlist is Some ==> {
            &&& r.playlist->0 == info.playlist_count
            &&& r.duration is None
            &&& r.approx_size is None
        },
        r.playlist is None ==> {
            &&& r.duration == info.duration
            &&& info.filesize is Some ==> r.approx_size == info.filesize
            &&& info.filesize is None ==> r.approx_size == info.filesize_approx
        },
{
    reveal_strlit("playlist");
    assert("playlist"@ =~= seq!['p', 'l', 'a', 'y', 'l', 'i', 's', 't']);
    assert(r@ == described(info));
    assert(r@.playlist == r.playlist);
    assert(r@.duration == r.duration);
    assert(r@.approx_size == r.approx_size);
}

proof fn lemma_last_url(thumbnails: Seq<Thumbnail>, k: int)
    requires
        0 <= k <= thumbnails.len(),
        forall|j: int| k <= j < thumbnails.len() ==> (#[trigger] thumbnails[j]).url is None,
    ensures
        last_url(thumbnails) == last_url(thumbnails.take(k)),
    decreases thumbnails.len(),
{
    if k < thumbnails.len() {
        let rest = thumbnails.drop_last();
        assert(thumbnails[thumbnails.len() - 1].url is None);
        lemma_last_url(rest, k);
        assert(rest.take(k) =~= thumbnails.take(k));
    } else {
        assert(thumbnails.take(k) =~= thumbnails);
    }
}

/// A link has the title and the thumbnail it is said to have. Where it has several thumbnails
/// instead of one, the last with an address is taken, and none only where none has one.
pub proof fn law_title_and_picture_are_those_of_the_link(info: Info, k: int, r: Metadata)
    requires
        call_ensures(Metadata::from, (info,), r),
        0 <= k < info.thumbnails@.len(),
        forall|j: int|
            k < j < info.thumbnails@.len() ==> (#[trigger] info.thumbnails@[j]).url is None,
    ensures
        info.title is Some ==> r.title@ == info.title->0@,
        info.title is None ==> r.title@.len() == 0,
        info.thumbnail is Some ==> r.thumbnail_url is Some && r.thumbnail_url->0@
            == info.thumbnail->0@,
        info.thumbnail is None && info.thumbnails@[k].url is Some ==> r.thumbnail_url is Some
            && r.thumbnail_url->0@ == info.thumbnails@[k].url->0@,
        info.thumbnail is None && (forall|j: int|
            0 <= j <= k ==> (#[trigger] info.thumbnails@[j]).url is None)
            ==> r.thumbnail_url is None,
{
    let all = info.thumbnails@;
    assert(r@ == described(info));
    assert(r@.title == r.title@);
    assert(r@.thumbnail_url == text::opt_text(r.thumbnail_url));
    lemma_last_url(all, k + 1);
    assert(all.take(k + 1).last() == all[k]);
    if forall|j: int| 0 <= j <= k ==> (#[trigger] all[j]).url is None {
        lemma_last_url(all, 0);
        assert(all.take(0).len() == 0);
    }
}

/// A link that brings no list of thumbnails has the one it is said to have, or none.
pub proof fn law_no_thumbnail_is_made_up(info: Info, r: Metadata)
    requires
        call_ensures(Metadata::from, (info,), r),
        info.thumbnails@.len() == 0,
    ensures
        info.title is Some ==> r.title@ == info.title->0@,
        info.title is None ==> r.title@.len() == 0,
        r.thumbnail_url is Some <==> info.thumbnail is Some,
        r.thumbnail_url is Some ==> r.thumbnail_url->0@ == info.thumbnail->0@,
{
    assert(r@ == described(info));
    assert(r@.title == r.title@);
    assert(r@.thumbnail_url == text::opt_text(r.thumbnail_url));
}

// ---------------------------------------------------------------------------
// Taking turns
// ---------------------------------------------------------------------------

/// How many lookups may run at once. Each one starts a PyInstaller program that unpacks itself
/// first, so pasting thirty links must not start thirty of them.
pub const MAX_LOOKUPS: usize = 3;

/// What someone does about turns.
pub enum Turn {
    /// Tries to take one.
    Take,
    /// Gives one back.
    GiveBack,
}

/// How many turns are held after one more step, when `count` were before: who tries to take one
/// while all are held gets none.
pub open spec fn turned(count: nat, turn: Turn) -> nat {
    match turn {
        Turn::Take => if count < MAX_LOOKUPS {
            count + 1
        } else {
            count
        },
        Turn::GiveBack => (count - 1) as nat,
    }
}

/// How many turns are held after some steps, whoever takes them and in whatever order.
pub open spec fn held(turns: Seq<Turn>) -> nat
    decreases turns.len(),
{
    if turns.len() == 0 {
        0
    } else {
        turned(held(turns.drop_last()), turns.last())
    }
}

/// Whether only turns that are held are given back.
pub open spec fn honest(turns: Seq<Turn>) -> bool
    decreases turns.len(),
{
    turns.len() > 0 ==> {
        &&& honest(turns.drop_last())
        &&& turns.last() is GiveBack ==> held(turns.drop_last()) > 0
    }
}

/// However taking and giving back turns interleave, no more than [`MAX_LOOKUPS`] are held at any
/// moment. Who tries gets one exactly when fewer are held, and each that is given back lets one
/// more be taken.
pub proof fn law_no_more_lookups_run_than_may(turns: Seq<Turn>)
    requires
        honest(turns),
    ensures
        held(turns) <= MAX_LOOKUPS,
        held(turns.push(Turn::Take)) == held(turns) + 1 <==> held(turns) < MAX_LOOKUPS,
        held(turns) > 0 ==> {
            &&& held(turns.push(Turn::GiveBack)) == held(turns) - 1
            &&& held(turns.push(Turn::GiveBack).push(Turn::Take)) == held(turns)
        },
    decreases turns.len(),
{
    if turns.len() > 0 {
        law_no_more_lookups_run_than_may(turns.drop_last());
    }
    assert(turns.push(Turn::Take).drop_last() =~= turns);
    let given = turns.push(Turn::GiveBack);
    assert(given.drop_last() =~= turns);
    assert(given.push(Turn::Take).drop_last() =~= given);
}

/// Three lookups run at once when three are wanted, and a fourth never.
pub proof fn law_three_lookups_run_at_once(turns: Seq<Turn>)
    requires
        honest(turns),
    ensures
        held(turns) <= 3,
        held(turns) < 3 ==> held(turns.push(Turn::Take)) == held(turns) + 1,
        held(turns) == 3 ==> held(turns.push(Turn::Take)) == 3,
{
    law_no_more_lookups_run_than_may(turns);
    assert(turns.push(Turn::Take).drop_last() =~= turns);
}

/// How many lookups are running: never more than [`MAX_LOOKUPS`].
#[derive(Debug)]
pub struct Turns {
    running: usize,
}

impl Turns {
    pub closed spec fn count(self) -> nat {
        self.running as nat
    }

    #[verifier::type_invariant]
    spec fn bounded(self) -> bool {
        self.running <= MAX_LOOKUPS
    }

    pub fn new() -> (r: Turns)
        ensures
            r.count() == 0,
    {
        Turns { running: 0 }
    }

    /// Takes a turn, when there is one left: who gets none waits until one is given back and tries
    /// again.
    pub fn take(&mut self) -> (r: bool)
        ensures
            old(self).count() <= MAX_LOOKUPS,
            r == (old(self).count() < MAX_LOOKUPS),
            final(self).count() == turned(old(self).count(), Turn::Take),
            final(self).count() <= MAX_LOOKUPS,
    {
        proof {
            use_type_invariant(&*self);
        }
        if self.running >= MAX_LOOKUPS {
            false
        } else {
            self.running = self.running + 1;
            true
        }
    }

    /// Gives a turn back.
    pub fn give_back(&mut self)
        requires
            old(self).count() > 0,
        ensures
            final(self).count() == turned(old(self).count(), Turn::GiveBack),
    {
        proof {
            use_type_invariant(&*self);
        }
        self.running = self.running - 1;
    }

    /// How many lookups are running.
    pub fn running(&self) -> (r: usize)
        ensures
            r == self.count(),
            r <= MAX_LOOKUPS,
    {
        proof {
            use_type_invariant(self);
        }
        self.running
    }
}

// ---------------------------------------------------------------------------
// Asking yt-dlp
// ---------------------------------------------------------------------------

/// The arguments yt-dlp is asked about `url` with.
pub open spec fn arguments(paths: Paths, url: Seq<char>, lookup: Lookup<Seq<char>>) -> Seq<
    Seq<char>,
> {
    // The JS runtime of the real download: sites that throw JavaScript challenges at extractors
    // can fail or hang without it.
    seq![
        "-J"@,
        "--flat-playlist"@,
        "--no-warnings"@,
        "--playlist-items"@,
        "1"@,
        "--js-runtimes"@,
        "deno:"@ + paths.tool_path("deno"@),
    ] + (match lookup.cookies {
        Some(browser) => seq!["--cookies-from-browser"@, browser],
        None => Seq::empty(),
    }) + (if lookup.single_video {
        seq!["--no-playlist"@]
    } else {
        Seq::empty()
    }) + seq!["--"@, url]
}

fn push_text(v: &mut Vec<String>, s: String)
    ensures
        text::texts(final(v)@) == text::texts(old(v)@).push(s@),
{
    v.push(s);
    proof {
        assert(text::texts(v@) =~= text::texts(old(v)@).push(s@));
    }
}

/// The arguments yt-dlp is asked about `url` with.
pub fn lookup_arguments(paths: &Paths, url: &str, lookup: &Lookup) -> (r: Vec<String>)
    requires
        paths.wf(),
    ensures
        text::texts(r@) == arguments(*paths, url@, lookup@),
{
    proof {
        reveal_strlit("deno");
    }
    let runtime: String = text::concat2("deno:", paths.tool("deno").as_str());
    let mut r: Vec<String> = Vec::new();
    push_text(&mut r, "-J".to_owned());
    push_text(&mut r, "--flat-playlist".to_owned());
    push_text(&mut r, "--no-warnings".to_owned());
    push_text(&mut r, "--playlist-items".to_owned());
    push_text(&mut r, "1".to_owned());
    push_text(&mut r, "--js-runtimes".to_owned());
    push_text(&mut r, runtime);
    if let Some(browser) = &lookup.cookies {
        push_text(&mut r, "--cookies-from-browser".to_owned());
        push_text(&mut r, browser.clone());
    }
    if lookup.single_video {
        push_text(&mut r, "--no-playlist".to_owned());
    }
    // "--" as in the download itself, so a link can never be an option.
    push_text(&mut r, "--".to_owned());
    push_text(&mut r, url.to_owned());
    proof {
        assert(text::texts(r@) =~= arguments(*paths, url@, lookup@));
    }
    r
}

/// A link is always handed over behind the `--` that ends the options, so it can't be one.
pub proof fn law_a_link_is_never_an_option(
    paths: Paths,
    url: Seq<char>,
    lookup: Lookup<Seq<char>>,
)
    ensures
        ({
            let args = arguments(paths, url, lookup);
            args.len() >= 2 && args[args.len() - 2] == "--"@ && args.last() == url
        }),
{
}

/// What yt-dlp is asked of a link: about one entry only, without a warning, with deno for what
/// sites want computed, with the cookies of the browser exactly when there is one to take them
/// from, and about the video rather than its playlist exactly when a single video is wanted.
pub proof fn law_a_lookup_asks_as_the_download_will(
    paths: Paths,
    url: Seq<char>,
    lookup: Lookup<Seq<char>>,
)
    ensures
        ({
            let args = arguments(paths, url, lookup);
            let jar: int = if lookup.cookies is Some {
                2
            } else {
                0
            };
            let one: int = if lookup.single_video {
                1
            } else {
                0
            };
            &&& args.len() == 9 + jar + one
            &&& args[0] == "-J"@ && args[1] == "--flat-playlist"@ && args[2] == "--no-warnings"@
            &&& args[3] == "--playlist-items"@ && args[4] == "1"@
            &&& args[5] == "--js-runtimes"@ && args[6] == "deno:"@ + paths.tool_path("deno"@)
            &&& lookup.cookies is Some ==> args[7] == "--cookies-from-browser"@ && args[8]
                == lookup.cookies->0
            &&& lookup.single_video ==> args[7 + jar] == "--no-playlist"@
            &&& args[7 + jar + one] == "--"@ && args[8 + jar + one] == url
        }),
{
}

/// The first of `lines` that isn't blank.
pub open spec fn first_full(lines: Seq<Seq<char>>) -> Option<Seq<char>>
    decreases lines.len(),
{
    if lines.len() == 0 {
        None
    } else if text::trim(lines[0]).len() > 0 {
        Some(lines[0])
    } else {
        first_full(lines.skip(1))
    }
}

fn find_full_line(s: &str) -> (r: Option<String>)
    ensures
        text::opt_text(r) == first_full(text::lines(s@)),
{
    let all: Vec<String> = text::split_lines(s);
    let ghost lines = text::texts(all@);
    let mut i: usize = 0;
    proof {
        assert(lines.skip(0) == lines);
    }
    while i < all.len()
        invariant
            i <= all.len(),
            lines == text::texts(all@),
            lines == text::lines(s@),
            first_full(lines.skip(i as int)) == first_full(lines),
        decreases all.len() - i,
    {
        proof {
            assert(lines.skip(i as int)[0] == all@[i as int]@);
            assert(lines.skip(i as int).skip(1) == lines.skip(i + 1));
        }
        if !text::is_blank(all[i].as_str()) {
            return Some(all[i].clone());
        }
        i = i + 1;
    }
    proof {
        assert(lines.skip(i as int).len() == 0);
    }
    None
}

/// `s` without `p` at its start, as often as it is there.
pub open spec fn without_leading(s: Seq<char>, p: Seq<char>) -> Seq<char>
    decreases s.len(),
{
    if p.len() > 0 && text::begins(s, p) {
        without_leading(s.skip(p.len() as int), p)
    } else {
        s
    }
}

fn strip_errors(s: String) -> (r: String)
    ensures
        r@ == without_leading(s@, "ERROR: "@),
{
    let mut r: String = s;
    proof {
        reveal_strlit("ERROR: ");
    }
    loop
        invariant
            without_leading(r@, "ERROR: "@) == without_leading(s@, "ERROR: "@),
            "ERROR: "@.len() > 0,
        ensures
            r@ == without_leading(s@, "ERROR: "@),
        decreases r@.len(),
    {
        match text::strip_prefix(r.as_str(), "ERROR: ") {
            Some(rest) => {
                r = rest;
            },
            None => {
                break ;
            },
        }
    }
    r
}

/// The line of JSON that yt-dlp (at `tool`) printed, or what to say instead.
pub open spec fn answer(tool: Seq<char>, result: Result<Output, RunError>) -> Result<
    Seq<char>,
    Seq<char>,
> {
    match result {
        Err(RunError::TimedOut) => Err("Timed out looking up this link."@),
        Err(RunError::Spawn(e)) => Err("Could not start "@ + tool + ": "@ + e@),
        Err(RunError::Wait(e)) => Err(e@),
        Ok(output) => if !output.success {
            Err(
                match first_full(text::lines(output.stderr@)) {
                    Some(line) => without_leading(line, "ERROR: "@),
                    None => "yt-dlp could not look up this link."@,
                },
            )
        } else {
            match first_full(text::lines(output.stdout@)) {
                Some(line) => Ok(line),
                None => Err("yt-dlp returned no information for this link."@),
            }
        },
    }
}

/// The outcome of something that gives a text or says what is wrong, for contracts.
pub open spec fn told(r: Result<String, String>) -> Result<Seq<char>, Seq<char>> {
    match r {
        Ok(s) => Ok(s@),
        Err(e) => Err(e@),
    }
}

/// The line of JSON that yt-dlp (at `tool`) printed, or what to say instead.
pub fn read_answer(tool: &str, result: Result<Output, RunError>) -> (r: Result<String, String>)
    ensures
        told(r) == answer(tool@, result),
{
    match result {
        Err(RunError::TimedOut) => Err("Timed out looking up this link.".to_owned()),
        Err(RunError::Spawn(e)) => {
            let mut line: String = text::concat3("Could not start ", tool, ": ");
            line.append(e.as_str());
            Err(line)
        },
        Err(RunError::Wait(e)) => Err(e),
        Ok(output) => {
            if !output.success {
                return Err(
                    match find_full_line(output.stderr.as_str()) {
                        Some(line) => strip_errors(line),
                        None => "yt-dlp could not look up this link.".to_owned(),
                    },
                );
            }
            match find_full_line(output.stdout.as_str()) {
                Some(line) => Ok(line),
                None => Err("yt-dlp returned no information for this link.".to_owned()),
            }
        },
    }
}

proof fn lemma_first_full(lines: Seq<Seq<char>>, k: int)
    requires
        0 <= k <= lines.len(),
        forall|j: int| 0 <= j < k ==> text::trim(#[trigger] lines[j]).len() == 0,
        k < lines.len() ==> text::trim(lines[k]).len() > 0,
    ensures
        first_full(lines) == (if k < lines.len() {
            Some(lines[k])
        } else {
            None
        }),
    decreases k,
{
    if k > 0 {
        let rest = lines.skip(1);
        assert(text::trim(lines[0]).len() == 0);
        assert forall|j: int| 0 <= j < k - 1 implies text::trim(#[trigger] rest[j]).len() == 0 by {
            assert(rest[j] == lines[j + 1]);
        }
        lemma_first_full(rest, k - 1);
    }
}

/// What yt-dlp answered is the first line it printed that isn't blank.
pub proof fn law_the_answer_is_the_first_full_line(tool: Seq<char>, output: Output, k: int)
    requires
        output.success,
        0 <= k <= text::lines(output.stdout@).len(),
        forall|j: int|
            0 <= j < k ==> text::trim(#[trigger] text::lines(output.stdout@)[j]).len() == 0,
        k < text::lines(output.stdout@).len() ==> text::trim(
            text::lines(output.stdout@)[k],
        ).len() > 0,
    ensures
        answer(tool, Ok(output)) == (if k < text::lines(output.stdout@).len() {
            Ok::<Seq<char>, Seq<char>>(text::lines(output.stdout@)[k])
        } else {
            Err("yt-dlp returned no information for this link."@)
        }),
{
    lemma_first_full(text::lines(output.stdout@), k);
}

/// `n` times `p`, one behind another.
pub open spec fn repeated(p: Seq<char>, n: nat) -> Seq<char>
    decreases n,
{
    if n == 0 {
        Seq::empty()
    } else {
        p + repeated(p, (n - 1) as nat)
    }
}

/// Taking `p` off the start of a text as often as it is there takes off nothing else.
pub proof fn law_only_what_leads_is_taken_off(s: Seq<char>, p: Seq<char>) -> (n: nat)
    requires
        p.len() > 0,
    ensures
        s == repeated(p, n) + without_leading(s, p),
        without_leading(s, p).len() >= p.len() ==> without_leading(s, p).take(p.len() as int) != p,
    decreases s.len(),
{
    if text::begins(s, p) {
        let m = law_only_what_leads_is_taken_off(s.skip(p.len() as int), p);
        let n = (m + 1) as nat;
        assert(s =~= p + s.skip(p.len() as int));
        assert(repeated(p, n) == p + repeated(p, m));
        assert(s =~= repeated(p, n) + without_leading(s, p));
        n
    } else {
        assert(s =~= repeated(p, 0) + s);
        0
    }
}

/// A lookup that failed says what yt-dlp said first, less the word for an error that it begins
/// with, and something of its own where yt-dlp said nothing or never ran to its end.
pub proof fn law_a_failed_lookup_says_why(tool: Seq<char>, output: Output, e: String, k: int)
    requires
        !output.success,
        0 <= k <= text::lines(output.stderr@).len(),
        forall|j: int|
            0 <= j < k ==> text::trim(#[trigger] text::lines(output.stderr@)[j]).len() == 0,
        k < text::lines(output.stderr@).len() ==> text::trim(
            text::lines(output.stderr@)[k],
        ).len() > 0,
    ensures
        ({
            let lines = text::lines(output.stderr@);
            let r = answer(tool, Ok(output));
            &&& r is Err
            &&& k == lines.len() ==> r->Err_0 == "yt-dlp could not look up this link."@
            &&& k < lines.len() ==> exists|n: nat|
                lines[k] == #[trigger] repeated("ERROR: "@, n) + r->Err_0
            &&& k < lines.len() && r->Err_0.len() >= 7 ==> r->Err_0.take(7) != "ERROR: "@
        }),
        answer(tool, Err(RunError::TimedOut)) == Err::<Seq<char>, Seq<char>>(
            "Timed out looking up this link."@,
        ),
        answer(tool, Err(RunError::Spawn(e))) == Err::<Seq<char>, Seq<char>>(
            "Could not start "@ + tool + ": "@ + e@,
        ),
        answer(tool, Err(RunError::Wait(e))) == Err::<Seq<char>, Seq<char>>(e@),
{
    let lines = text::lines(output.stderr@);
    lemma_first_full(lines, k);
    reveal_strlit("ERROR: ");
    if k < lines.len() {
        let n = law_only_what_leads_is_taken_off(lines[k], "ERROR: "@);
        assert(lines[k] == repeated("ERROR: "@, n) + answer(tool, Ok(output))->Err_0);
    }
}

/// What the lookup of a link gives, `parsed` being what was read from its line of JSON.
pub fn fetch(parsed: Result<Info, String>) -> (r: Result<Metadata, String>)
    ensures
        match parsed {
            Ok(info) => r matches Ok(meta) && meta@ == described(info),
            Err(e) => r matches Err(line) && line@ == "Could not read yt-dlp's output: "@ + e@,
        },
{
    match parsed {
        Ok(info) => Ok(Metadata::from(info)),
        Err(e) => Err(text::concat2("Could not read yt-dlp's output: ", e.as_str())),
    }
}

/// The image bytes of a thumbnail: `answer` is what the request gave, and what reading its body
/// gave then.
pub fn fetch_thumbnail(answer: Result<Result<Vec<u8>, String>, String>) -> (r: Result<
    Vec<u8>,
    String,
>)
    ensures
        r == (match answer {
            Ok(body) => body,
            Err(e) => Err(e),
        }),
{
    match answer {
        Ok(body) => body,
        Err(e) => Err(e),
    }
}

/// What was read of a link is described, and what could not be read is said.
pub proof fn law_what_cannot_be_read_is_said(
    parsed: Result<Info, String>,
    r: Result<Metadata, String>,
)
    requires
        call_ensures(fetch, (parsed,), r),
    ensures
        r is Ok <==> parsed is Ok,
        r is Ok ==> r->Ok_0@ == described(parsed->Ok_0),
        r is Err ==> r->Err_0@ == "Could not read yt-dlp's output: "@ + parsed->Err_0@,
{
}

/// An image is there when both the request and reading its body worked, and else what went wrong
/// first is.
pub proof fn law_an_image_is_there_or_the_reason(
    answer: Result<Result<Vec<u8>, String>, String>,
    r: Result<Vec<u8>, String>,
)
    requires
        call_ensures(fetch_thumbnail, (answer,), r),
    ensures
        r is Ok <==> answer is Ok && answer->Ok_0 is Ok,
        r is Ok ==> r->Ok_0 == answer->Ok_0->Ok_0,
        answer is Err ==> r->Err_0 == answer->Err_0,
        answer is Ok && answer->Ok_0 is Err ==> r->Err_0 == answer->Ok_0->Err_0,
{
}

} // verus!
