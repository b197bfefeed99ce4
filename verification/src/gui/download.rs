//! The Download screen: a queue of links, each previewed with real metadata before it downloads.
//!
//! Adding a link queues it immediately and asks for a lookup that fills the card in once it
//! resolves; a lookup failure never blocks queuing, it just leaves a plainer card. Each item takes
//! a copy of the Settings page's settings when it is added (kind and quality then stay editable on
//! its card while it waits). Items download one at a time, in order; every step yt-dlp reports
//! lands in the activity log.
use std::collections::BTreeMap;

use vstd::prelude::*;

use super::progress::{can_combine, combined, Progress};
use super::queue::{Check, Event, Finish, ItemStatus, Message, MetaState, QueueItem, Task};
use super::{progress, queue};
use crate::config::{Format, Kind, PlaylistChoice, Quality, SavedItem, Settings};
use crate::log::{Level, Note};
use crate::metadata::{Lookup, Metadata, Real};
use crate::provision::Paths;
use crate::{seqs, text};

verus! {

/// How many activity lines are kept. Enough to see a whole run, capped so an hours long recording
/// can't grow without end.
pub const MAX_LOG: usize = 2000;

/// The screen.
#[derive(Debug)]
pub struct Download {
    pub paths: Paths,
    pub url_input: String,
    pub items: Vec<QueueItem>,
    pub next_id: u64,
    pub log: Vec<Note>,
    /// One entry per parallel download of the *current* item, keyed by yt-dlp's slot number (a
    /// live stream fetches video and audio at once).
    pub progress: BTreeMap<u32, Progress>,
    /// Files yt-dlp reported finished for the current item.
    pub files: Vec<String>,
    /// The item currently downloading, if any.
    pub current: Option<u64>,
    /// Whether a download runs.
    pub job: bool,
    /// Shown next to the button when the run can't start.
    pub problem: Option<String>,
    /// The last line as it arrived, and how often it has repeated, so a line yt-dlp keeps printing
    /// is collapsed instead of filling the log.
    pub last: Option<Note>,
    pub repeats: u32,
    /// Metadata lookups still running. Each one runs yt-dlp, which must not be replaced underneath
    /// it.
    pub lookups: usize,
}

/// What the screen holds.
#[verifier::ext_equal]
pub struct Screen {
    pub paths: Paths,
    pub url_input: Seq<char>,
    pub items: Seq<QueueItem<Seq<char>>>,
    pub next_id: int,
    pub log: Seq<Note<Seq<char>>>,
    pub progress: Map<u32, Progress>,
    pub files: Seq<Seq<char>>,
    pub current: Option<u64>,
    pub job: bool,
    pub problem: Option<Seq<char>>,
    pub last: Option<Note<Seq<char>>>,
    pub repeats: int,
    pub lookups: int,
}

impl Download {
    /// What the screen holds.
    pub open spec fn screen(&self) -> Screen {
        Screen {
            paths: self.paths,
            url_input: self.url_input@,
            items: queue::items(self.items@),
            next_id: self.next_id as int,
            log: queue::notes(self.log@),
            progress: self.progress@,
            files: text::texts(self.files@),
            current: self.current,
            job: self.job,
            problem: text::opt_text(self.problem),
            last: match self.last {
                Some(note) => Some(note@),
                None => None,
            },
            repeats: self.repeats as int,
            lookups: self.lookups as int,
        }
    }
}

/// An empty screen.
pub open spec fn empty_screen(paths: Paths) -> Screen {
    Screen {
        paths,
        url_input: Seq::empty(),
        items: Seq::empty(),
        next_id: 0,
        log: Seq::empty(),
        progress: Map::empty(),
        files: Seq::empty(),
        current: None,
        job: false,
        problem: None,
        last: None,
        repeats: 0,
        lookups: 0,
    }
}

// ---------------------------------------------------------------------------
// The activity log
// ---------------------------------------------------------------------------

/// The most recent lines of `log`, as many as are kept.
pub open spec fn recent(log: Seq<Note<Seq<char>>>) -> Seq<Note<Seq<char>>> {
    if log.len() > MAX_LOG {
        log.skip(log.len() - MAX_LOG)
    } else {
        log
    }
}

/// The screen with one more line in the activity log. A line that repeats the one before is
/// counted there instead.
pub open spec fn noted(s: Screen, level: Level, line: Seq<char>) -> Screen {
    let note = Note { level, text: line };
    if s.last == Some(note) && s.log.len() > 0 {
        Screen {
            log: s.log.update(
                s.log.len() - 1,
                Note {
                    level,
                    text: line + "  (x"@ + text::decimal((s.repeats + 2) as nat) + ")"@,
                },
            ),
            repeats: s.repeats + 1,
            ..s
        }
    } else {
        Screen { last: Some(note), repeats: 0, log: recent(s.log.push(note)), ..s }
    }
}

/// Whether `n` more lines can be counted, however often they repeat.
pub open spec fn can_note(s: Screen, n: int) -> bool {
    s.repeats + n < u32::MAX
}

impl Download {
    pub fn new(paths: Paths) -> (r: Self)
        ensures
            r.screen() == empty_screen(paths),
    {
        let r = Download {
            paths,
            url_input: String::new(),
            items: Vec::new(),
            next_id: 0,
            log: Vec::new(),
            progress: BTreeMap::new(),
            files: Vec::new(),
            current: None,
            job: false,
            problem: None,
            last: None,
            repeats: 0,
            lookups: 0,
        };
        proof {
            assert(r.screen() =~= empty_screen(paths));
        }
        r
    }

    pub fn running(&self) -> (r: bool)
        ensures
            r == self.screen().job,
    {
        self.job
    }

    /// yt-dlp is running for a download or a lookup, so the tools in `bin/` must be left alone.
    pub fn uses_tools(&self) -> (r: bool)
        ensures
            r == (self.screen().job || self.screen().lookups > 0),
    {
        self.running() || self.lookups > 0
    }

    /// Adds a line to the activity log on behalf of another screen.
    pub fn log(&mut self, note: Note)
        requires
            can_note(old(self).screen(), 1),
        ensures
            final(self).screen() == noted(old(self).screen(), note.level, note.text@),
    {
        self.note(note);
    }

    /// Adds one line to the activity log, keeping only the last [`MAX_LOG`] of them. A live
    /// recording can run for hours, and an unbounded log would grow (and slow the window down)
    /// with it.
    pub fn note(&mut self, entry: Note)
        requires
            can_note(old(self).screen(), 1),
        ensures
            final(self).screen() == noted(old(self).screen(), entry.level, entry.text@),
    {
        let repeated: bool = match &self.last {
            Some(last) => last.same(&entry),
            None => false,
        };
        if repeated && self.log.len() > 0 {
            self.repeats = self.repeats + 1;
            let count: String = text::decimal_text(self.repeats as u64 + 1);
            let mut line: String = text::concat3(entry.text.as_str(), "  (x", count.as_str());
            line.append(")");
            let at: usize = self.log.len() - 1;
            self.log.set(at, Note { level: entry.level, text: line });
            proof {
                assert(self.screen() =~= noted(old(self).screen(), entry.level, entry.text@));
            }
            return;
        }
        self.last = Some(entry.clone());
        self.repeats = 0;
        self.log.push(entry);
        let ghost grown = queue::notes(self.log@);
        let mut extra: usize = if self.log.len() > MAX_LOG {
            self.log.len() - MAX_LOG
        } else {
            0
        };
        proof {
            assert(grown =~= old(self).screen().log.push(entry@));
            assert(grown.skip(0) =~= grown);
        }
        let ghost most = extra as int;
        while extra > 0
            invariant
                0 <= extra <= most <= grown.len(),
                queue::notes(self.log@) == grown.skip(most - extra),
                self.log@.len() == grown.len() - (most - extra),
                self.paths == old(self).paths,
                self.url_input == old(self).url_input,
                self.items == old(self).items,
                self.next_id == old(self).next_id,
                self.progress == old(self).progress,
                self.files == old(self).files,
                self.current == old(self).current,
                self.job == old(self).job,
                self.problem == old(self).problem,
                self.last == Some(entry),
                self.repeats == 0,
                self.lookups == old(self).lookups,
            decreases extra,
        {
            let ghost before = self.log@;
            self.log.remove(0);
            proof {
                assert(queue::notes(self.log@) =~= queue::notes(before).skip(1));
                assert(grown.skip(most - extra).skip(1) =~= grown.skip(most - extra + 1));
            }
            extra = extra - 1;
        }
        proof {
            assert(self.screen() =~= noted(old(self).screen(), entry.level, entry.text@));
        }
    }
}

// ---------------------------------------------------------------------------
// Finding, changing and dropping items
// ---------------------------------------------------------------------------

/// The place of the first item that `p` holds of, or the number of items when there is none.
pub open spec fn place(
    items: Seq<QueueItem<Seq<char>>>,
    p: spec_fn(QueueItem<Seq<char>>) -> bool,
) -> int
    decreases items.len(),
{
    if items.len() == 0 || p(items[0]) {
        0
    } else {
        1 + place(items.skip(1), p)
    }
}

/// Being the item with this number.
pub open spec fn with_id(id: u64) -> spec_fn(QueueItem<Seq<char>>) -> bool {
    |item: QueueItem<Seq<char>>| item.id == id
}

/// Being the item with this number, and waiting.
pub open spec fn waiting_with_id(id: u64) -> spec_fn(QueueItem<Seq<char>>) -> bool {
    |item: QueueItem<Seq<char>>| item.id == id && item.status is Queued
}

/// The place of the first item that `p` holds of is just that.
pub proof fn lemma_place(
    items: Seq<QueueItem<Seq<char>>>,
    p: spec_fn(QueueItem<Seq<char>>) -> bool,
)
    ensures
        0 <= place(items, p) <= items.len(),
        place(items, p) < items.len() ==> p(items[place(items, p)]),
        forall|i: int| 0 <= i < place(items, p) ==> !p(#[trigger] items[i]),
    decreases items.len(),
{
    if items.len() > 0 && !p(items[0]) {
        let rest = items.skip(1);
        lemma_place(rest, p);
        assert forall|i: int| 0 <= i < place(items, p) implies !p(#[trigger] items[i]) by {
            if i > 0 {
                assert(items[i] == rest[i - 1]);
            }
        }
    }
}

proof fn lemma_place_is(
    items: Seq<QueueItem<Seq<char>>>,
    p: spec_fn(QueueItem<Seq<char>>) -> bool,
    at: int,
)
    requires
        0 <= at <= items.len(),
        at < items.len() ==> p(items[at]),
        forall|i: int| 0 <= i < at ==> !p(#[trigger] items[i]),
    ensures
        place(items, p) == at,
{
    lemma_place(items, p);
    let found = place(items, p);
    if found < at {
        assert(!p(items[found]));
    } else if at < found {
        assert(!p(items[at]));
    }
}

/// The screen with another item at a place of the queue.
pub open spec fn with_item(s: Screen, at: int, item: QueueItem<Seq<char>>) -> Screen {
    Screen { items: s.items.update(at, item), ..s }
}

/// An item in another state.
pub open spec fn in_state(
    item: QueueItem<Seq<char>>,
    status: ItemStatus<Seq<char>>,
) -> QueueItem<Seq<char>> {
    QueueItem { status, ..item }
}

/// An item of another kind.
pub open spec fn of_kind(item: QueueItem<Seq<char>>, kind: Kind) -> QueueItem<
    Seq<char>,
> {
    QueueItem {
        settings: Settings {
            format: Format { kind, ..item.settings.format },
            ..item.settings
        },
        ..item
    }
}

/// An item of another quality.
pub open spec fn of_quality(
    item: QueueItem<Seq<char>>,
    quality: Quality,
) -> QueueItem<Seq<char>> {
    QueueItem {
        settings: Settings {
            format: Format { quality, ..item.settings.format },
            ..item.settings
        },
        ..item
    }
}

/// Staying when the item with this number is removed: every other item does, and so does one that
/// is downloading.
pub open spec fn not_removed(id: u64) -> spec_fn(QueueItem<Seq<char>>) -> bool {
    |item: QueueItem<Seq<char>>| item.id != id || item.status is Downloading
}

/// Staying when what is finished is cleared.
pub open spec fn unfinished() -> spec_fn(QueueItem<Seq<char>>) -> bool {
    |item: QueueItem<Seq<char>>| !queue::is_over(item.status)
}

impl Download {
    fn find(&self, id: u64) -> (r: usize)
        ensures
            r == place(self.screen().items, with_id(id)),
            r <= self.items@.len(),
    {
        let ghost items = self.screen().items;
        let mut i: usize = 0;
        while i < self.items.len() && self.items[i].id != id
            invariant
                i <= self.items@.len(),
                items == self.screen().items,
                forall|j: int| 0 <= j < i ==> !with_id(id)(#[trigger] items[j]),
            decreases self.items@.len() - i,
        {
            proof {
                assert(items[i as int] == self.items@[i as int]@);
            }
            i = i + 1;
        }
        proof {
            if i < self.items@.len() {
                assert(items[i as int] == self.items@[i as int]@);
            }
            lemma_place_is(items, with_id(id), i as int);
        }
        i
    }

    /// Where the waiting item with this number is, or the number of items when there is none.
    fn queued_item(&self, id: u64) -> (r: usize)
        ensures
            r == place(self.screen().items, waiting_with_id(id)),
            r <= self.items@.len(),
    {
        let ghost items = self.screen().items;
        let mut i: usize = 0;
        while i < self.items.len() && !(self.items[i].id == id && self.items[i].status.queued())
            invariant
                i <= self.items@.len(),
                items == self.screen().items,
                forall|j: int| 0 <= j < i ==> !waiting_with_id(id)(#[trigger] items[j]),
            decreases self.items@.len() - i,
        {
            proof {
                assert(items[i as int] == self.items@[i as int]@);
            }
            i = i + 1;
        }
        proof {
            if i < self.items@.len() {
                assert(items[i as int] == self.items@[i as int]@);
            }
            lemma_place_is(items, waiting_with_id(id), i as int);
        }
        i
    }

    fn set_status(&mut self, at: usize, status: ItemStatus)
        requires
            at < old(self).items@.len(),
        ensures
            final(self).screen() == with_item(
                old(self).screen(),
                at as int,
                in_state(old(self).screen().items[at as int], status@),
            ),
            final(self).items@.len() == old(self).items@.len(),
    {
        let item = &mut self.items[at];
        item.status = status;
        proof {
            assert(self.screen() =~= with_item(
                old(self).screen(),
                at as int,
                in_state(old(self).screen().items[at as int], status@),
            ));
        }
    }

    fn remove_item(&mut self, id: u64)
        ensures
            final(self).screen() == (Screen {
                items: old(self).screen().items.filter(not_removed(id)),
                ..old(self).screen()
            }),
    {
        let ghost whole = self.screen().items;
        let mut i: usize = 0;
        let ghost mut seen: int = 0;
        proof {
            assert(whole.take(0).filter(not_removed(id)) =~= Seq::empty()) by {
                reveal(Seq::filter);
            }
            assert(whole.skip(0) =~= whole);
        }
        while i < self.items.len()
            invariant
                0 <= seen <= whole.len(),
                i <= self.items@.len(),
                i == whole.take(seen).filter(not_removed(id)).len(),
                self.screen() == (Screen {
                    items: whole.take(seen).filter(not_removed(id)) + whole.skip(seen),
                    ..old(self).screen()
                }),
            decreases self.items@.len() - i,
        {
            let ghost kept = whole.take(seen).filter(not_removed(id));
            let ghost item = whole[seen];
            proof {
                assert(self.screen().items.len() == self.items@.len());
                assert(self.screen().items[i as int] == whole.skip(seen)[0]);
                assert(self.screen().items[i as int] == self.items@[i as int]@);
                assert(whole.take(seen + 1) =~= whole.take(seen).push(item));
                seqs::lemma_filter_push(whole.take(seen), item, not_removed(id));
                assert(whole.skip(seen) =~= seq![item] + whole.skip(seen + 1));
            }
            if self.items[i].id != id || self.items[i].status.downloading() {
                i = i + 1;
                proof {
                    assert(kept + whole.skip(seen) =~= kept.push(item) + whole.skip(seen + 1));
                }
            } else {
                let ghost before = self.items@;
                self.items.remove(i);
                proof {
                    assert(queue::items(self.items@) =~= queue::items(before).remove(i as int));
                    assert((kept + whole.skip(seen)).remove(i as int) =~= kept + whole.skip(
                        seen + 1,
                    ));
                    assert(self.screen() =~= (Screen {
                        items: kept + whole.skip(seen + 1),
                        ..old(self).screen()
                    }));
                }
            }
            proof {
                seen = seen + 1;
            }
        }
        proof {
            assert(self.screen().items.len() == self.items@.len());
            assert(whole.take(seen) =~= whole);
            assert(whole.take(seen).filter(not_removed(id)) + whole.skip(seen) =~= whole.filter(
                not_removed(id),
            ));
        }
    }

    fn clear_finished(&mut self)
        ensures
            final(self).screen() == (Screen {
                items: old(self).screen().items.filter(unfinished()),
                ..old(self).screen()
            }),
    {
        let ghost whole = self.screen().items;
        let mut i: usize = 0;
        let ghost mut seen: int = 0;
        proof {
            assert(whole.take(0).filter(unfinished()) =~= Seq::empty()) by {
                reveal(Seq::filter);
            }
            assert(whole.skip(0) =~= whole);
        }
        while i < self.items.len()
            invariant
                0 <= seen <= whole.len(),
                i <= self.items@.len(),
                i == whole.take(seen).filter(unfinished()).len(),
                self.screen() == (Screen {
                    items: whole.take(seen).filter(unfinished()) + whole.skip(seen),
                    ..old(self).screen()
                }),
            decreases self.items@.len() - i,
        {
            let ghost kept = whole.take(seen).filter(unfinished());
            let ghost item = whole[seen];
            proof {
                assert(self.screen().items.len() == self.items@.len());
                assert(self.screen().items[i as int] == whole.skip(seen)[0]);
                assert(self.screen().items[i as int] == self.items@[i as int]@);
                assert(whole.take(seen + 1) =~= whole.take(seen).push(item));
                seqs::lemma_filter_push(whole.take(seen), item, unfinished());
                assert(whole.skip(seen) =~= seq![item] + whole.skip(seen + 1));
            }
            if !self.items[i].status.over() {
                i = i + 1;
                proof {
                    assert(kept + whole.skip(seen) =~= kept.push(item) + whole.skip(seen + 1));
                }
            } else {
                let ghost before = self.items@;
                self.items.remove(i);
                proof {
                    assert(queue::items(self.items@) =~= queue::items(before).remove(i as int));
                    assert((kept + whole.skip(seen)).remove(i as int) =~= kept + whole.skip(
                        seen + 1,
                    ));
                    assert(self.screen() =~= (Screen {
                        items: kept + whole.skip(seen + 1),
                        ..old(self).screen()
                    }));
                }
            }
            proof {
                seen = seen + 1;
            }
        }
        proof {
            assert(self.screen().items.len() == self.items@.len());
            assert(whole.take(seen) =~= whole);
            assert(whole.take(seen).filter(unfinished()) + whole.skip(seen) =~= whole.filter(
                unfinished(),
            ));
        }
    }
}

// ---------------------------------------------------------------------------
// Queuing links
// ---------------------------------------------------------------------------

/// The screen with one more item at the end of the queue, which is being looked up.
pub open spec fn pushed(
    s: Screen,
    url: Seq<char>,
    settings: Settings,
    status: ItemStatus<Seq<char>>,
) -> Screen {
    Screen {
        items: s.items.push(
            QueueItem {
                id: s.next_id as u64,
                url,
                settings,
                meta: MetaState::Fetching,
                thumbnail: None,
                status,
            },
        ),
        next_id: s.next_id + 1,
        lookups: s.lookups + 1,
        ..s
    }
}

/// The lookup of the next item: it asks what the download will ask. `cookies` are those the
/// settings stand for.
pub open spec fn lookup_task(
    s: Screen,
    url: Seq<char>,
    settings: Settings,
    cookies: Option<Seq<char>>,
) -> Task<Seq<char>> {
    Task::Lookup {
        id: s.next_id as u64,
        url,
        lookup: Lookup { cookies, single_video: settings.automation.playlist is Single },
    }
}

/// Whether `n` more items can be numbered and looked up.
pub open spec fn can_push(s: Screen, n: int) -> bool {
    s.next_id + n <= u64::MAX && s.lookups + n <= usize::MAX
}

/// Whether a link is in the queue.
pub open spec fn has_url(s: Screen, url: Seq<char>) -> bool {
    exists|i: int| 0 <= i < s.items.len() && (#[trigger] s.items[i]).url == url
}

/// What has become of some links that were pasted.
pub struct Pasted {
    pub screen: Screen,
    pub tasks: Seq<Task<Seq<char>>>,
    /// Those that are no links.
    pub rejected: Seq<Seq<char>>,
    /// How many were in the queue already.
    pub duplicates: nat,
}

/// What becomes of `links`, one by one: `valid` tells which of them are links at all.
pub open spec fn pasted(
    s: Screen,
    links: Seq<Seq<char>>,
    valid: Seq<bool>,
    settings: Settings,
    cookies: Option<Seq<char>>,
) -> Pasted
    decreases links.len(),
{
    if links.len() == 0 {
        Pasted { screen: s, tasks: Seq::empty(), rejected: Seq::empty(), duplicates: 0 }
    } else {
        let url = links.last();
        let before = pasted(s, links.drop_last(), valid, settings, cookies);
        if !valid[links.len() - 1] {
            Pasted { rejected: before.rejected.push(url), ..before }
        } else if has_url(before.screen, url) {
            Pasted { duplicates: before.duplicates + 1, ..before }
        } else {
            Pasted {
                screen: pushed(before.screen, url, settings, ItemStatus::Queued),
                tasks: before.tasks.push(lookup_task(before.screen, url, settings, cookies)),
                ..before
            }
        }
    }
}

/// What is said about the links that were pasted as `input`.
pub open spec fn paste_problem(input: Seq<char>, p: Pasted) -> Option<Seq<char>> {
    if p.rejected.len() > 0 {
        Some("That doesn't look like a link (it should start with http)."@)
    } else if text::trim(input).len() == 0 {
        Some("Paste a link first."@)
    } else if p.duplicates == 1 {
        Some("That link is already in the queue."@)
    } else if p.duplicates > 1 {
        Some(text::decimal(p.duplicates) + " of those links are already in the queue."@)
    } else {
        None
    }
}

/// The screen after what was typed has been queued, and the lookups that asks for. What couldn't be
/// queued stays in the box, to be fixed.
pub open spec fn added(
    s: Screen,
    valid: Seq<bool>,
    settings: Settings,
    cookies: Option<Seq<char>>,
) -> (Screen, Seq<Task<Seq<char>>>) {
    let input = s.url_input;
    let p = pasted(
        Screen { url_input: Seq::empty(), ..s },
        text::words(input),
        valid,
        settings,
        cookies,
    );
    (
        Screen {
            url_input: if p.rejected.len() > 0 {
                text::join(p.rejected, " "@)
            } else {
                Seq::empty()
            },
            problem: paste_problem(input, p),
            ..p.screen
        },
        p.tasks,
    )
}

proof fn lemma_pasted_grows(
    s: Screen,
    links: Seq<Seq<char>>,
    valid: Seq<bool>,
    settings: Settings,
    cookies: Option<Seq<char>>,
)
    ensures
        ({
            let p = pasted(s, links, valid, settings, cookies);
            &&& s.next_id <= p.screen.next_id <= s.next_id + links.len()
            &&& s.lookups <= p.screen.lookups <= s.lookups + links.len()
            &&& p.duplicates <= links.len()
        }),
    decreases links.len(),
{
    if links.len() > 0 {
        lemma_pasted_grows(s, links.drop_last(), valid, settings, cookies);
    }
}

fn push_task(v: &mut Vec<Task>, task: Task)
    ensures
        queue::tasks(final(v)@) == queue::tasks(old(v)@).push(task@),
{
    v.push(task);
    proof {
        assert(queue::tasks(v@) =~= queue::tasks(old(v)@).push(task@));
    }
}

fn push_text(v: &mut Vec<String>, s: String)
    ensures
        text::texts(final(v)@) == text::texts(old(v)@).push(s@),
{
    v.push(s);
    proof {
        assert(text::texts(v@) =~= text::texts(old(v)@).push(s@));
    }
}

fn copy_text(s: &Option<String>) -> (r: Option<String>)
    ensures
        r == *s,
{
    match s {
        Some(s) => Some(s.clone()),
        None => None,
    }
}

impl Download {
    fn has(&self, url: &String) -> (r: bool)
        ensures
            r == has_url(self.screen(), url@),
    {
        let ghost items = self.screen().items;
        let mut i: usize = 0;
        while i < self.items.len()
            invariant
                i <= self.items@.len(),
                items == self.screen().items,
                forall|j: int| 0 <= j < i ==> (#[trigger] items[j]).url != url@,
            decreases self.items@.len() - i,
        {
            proof {
                assert(items[i as int] == self.items@[i as int]@);
            }
            if self.items[i].url == *url {
                return true;
            }
            i = i + 1;
        }
        false
    }

    /// Adds an item to the end of the queue and asks for its lookup.
    pub fn push_item(
        &mut self,
        url: String,
        settings: Settings,
        status: ItemStatus,
        cookies: Option<String>,
    ) -> (r: Task)
        requires
            can_push(old(self).screen(), 1),
        ensures
            final(self).screen() == pushed(old(self).screen(), url@, settings, status@),
            r@ == lookup_task(old(self).screen(), url@, settings, text::opt_text(cookies)),
    {
        let id: u64 = self.next_id;
        self.next_id = self.next_id + 1;
        let lookup = Lookup {
            cookies,
            single_video: settings.automation.playlist == PlaylistChoice::Single,
        };
        let link: String = url.clone();
        self.items.push(
            QueueItem { id, url, settings, meta: MetaState::Fetching, thumbnail: None, status },
        );
        self.lookups = self.lookups + 1;
        proof {
            assert(self.screen() =~= pushed(old(self).screen(), url@, settings, status@));
        }
        Task::Lookup { id, url: link, lookup }
    }

    /// Queues what was pasted (one link, or several separated by spaces or line breaks), and asks
    /// for a lookup of each. `valid` tells which of them are links, and `cookies` are those the
    /// settings stand for. A lookup failure never removes the item; it just leaves a plainer card.
    pub fn add_url(
        &mut self,
        valid: &Vec<bool>,
        settings: &Settings,
        cookies: &Option<String>,
    ) -> (r: Vec<Task>)
        requires
            valid@.len() == text::words(old(self).screen().url_input).len(),
            can_push(old(self).screen(), valid@.len() as int),
        ensures
            (final(self).screen(), queue::tasks(r@)) == added(
                old(self).screen(),
                valid@,
                *settings,
                text::opt_text(*cookies),
            ),
    {
        let input: String = self.url_input.clone();
        let links: Vec<String> = text::split_words(input.as_str());
        self.url_input = String::new();
        let ghost all = text::texts(links@);
        let ghost start = self.screen();
        let ghost jar = text::opt_text(*cookies);
        let mut tasks: Vec<Task> = Vec::new();
        let mut rejected: Vec<String> = Vec::new();
        let mut duplicates: usize = 0;
        let mut i: usize = 0;
        proof {
            assert(start =~= (Screen { url_input: Seq::empty(), ..old(self).screen() }));
            assert(queue::tasks(tasks@) =~= Seq::empty());
            assert(text::texts(rejected@) =~= Seq::empty());
            assert(all.take(0).len() == 0);
        }
        while i < links.len()
            invariant
                i <= links@.len(),
                all == text::texts(links@),
                all.len() == valid@.len(),
                jar == text::opt_text(*cookies),
                can_push(start, valid@.len() as int),
                duplicates <= i,
                self.screen() == pasted(start, all.take(i as int), valid@, *settings, jar).screen,
                queue::tasks(tasks@) == pasted(
                    start,
                    all.take(i as int),
                    valid@,
                    *settings,
                    jar,
                ).tasks,
                text::texts(rejected@) == pasted(
                    start,
                    all.take(i as int),
                    valid@,
                    *settings,
                    jar,
                ).rejected,
                duplicates == pasted(
                    start,
                    all.take(i as int),
                    valid@,
                    *settings,
                    jar,
                ).duplicates,
            decreases links@.len() - i,
        {
            proof {
                assert(all[i as int] == links@[i as int]@);
                assert(all.take(i + 1).drop_last() =~= all.take(i as int));
                assert(all.take(i + 1).last() == all[i as int]);
                lemma_pasted_grows(start, all.take(i as int), valid@, *settings, jar);
            }
            if !valid[i] {
                push_text(&mut rejected, links[i].clone());
            } else if self.has(&links[i]) {
                duplicates = duplicates + 1;
            } else {
                let task: Task = self.push_item(
                    links[i].clone(),
                    settings.clone(),
                    ItemStatus::Queued,
                    copy_text(cookies),
                );
                push_task(&mut tasks, task);
            }
            i = i + 1;
        }
        proof {
            assert(all.take(i as int) =~= all);
            lemma_pasted_unchanged(start, all, valid@, *settings, jar);
            assert(text::texts(rejected@).len() == rejected@.len());
        }
        self.problem = if rejected.len() > 0 {
            // What couldn't be queued stays in the box, to be fixed.
            self.url_input = text::joined(&rejected, " ");
            Some("That doesn't look like a link (it should start with http).".to_owned())
        } else if text::is_blank(input.as_str()) {
            Some("Paste a link first.".to_owned())
        } else if duplicates == 1 {
            Some("That link is already in the queue.".to_owned())
        } else if duplicates > 1 {
            Some(
                text::concat2(
                    text::decimal_text(duplicates as u64).as_str(),
                    " of those links are already in the queue.",
                ),
            )
        } else {
            None
        };
        proof {
            assert(self.screen() =~= added(old(self).screen(), valid@, *settings, jar).0);
        }
        tasks
    }
}

proof fn lemma_pasted_unchanged(
    s: Screen,
    links: Seq<Seq<char>>,
    valid: Seq<bool>,
    settings: Settings,
    cookies: Option<Seq<char>>,
)
    ensures
        ({
            let p = pasted(s, links, valid, settings, cookies).screen;
            p == (Screen {
                items: p.items,
                next_id: p.next_id,
                lookups: p.lookups,
                ..s
            })
        }),
    decreases links.len(),
{
    if links.len() > 0 {
        lemma_pasted_unchanged(s, links.drop_last(), valid, settings, cookies);
    }
}

// ---------------------------------------------------------------------------
// Keeping the queue between two sessions
// ---------------------------------------------------------------------------

/// What is kept of an item: one that ran or runs is waiting again, a failed one keeps its reason,
/// and a finished one is done with.
pub open spec fn kept(item: QueueItem<Seq<char>>) -> queue::Saved {
    queue::Saved {
        url: item.url,
        settings: item.settings,
        failed: match item.status {
            ItemStatus::Failed(reason) => Some(reason),
            _ => None,
        },
    }
}

/// Being still to do.
pub open spec fn to_do() -> spec_fn(QueueItem<Seq<char>>) -> bool {
    |item: QueueItem<Seq<char>>| !(item.status is Completed)
}

/// What is kept of the queue: what is still to do.
pub open spec fn persisted(s: Screen) -> Seq<queue::Saved> {
    s.items.filter(to_do()).map_values(|item: QueueItem<Seq<char>>| kept(item))
}

/// The state an item that was kept comes back in.
pub open spec fn revived(saved: queue::Saved) -> ItemStatus<Seq<char>> {
    match saved.failed {
        Some(reason) => ItemStatus::Failed(reason),
        None => ItemStatus::Queued,
    }
}

/// The screen with the items that were kept at the end of its queue, and their lookups. `cookies`
/// are those the settings of each stand for.
pub open spec fn brought_back(
    s: Screen,
    saved: Seq<queue::Saved>,
    cookies: Seq<Option<Seq<char>>>,
) -> (Screen, Seq<Task<Seq<char>>>)
    decreases saved.len(),
{
    if saved.len() == 0 {
        (s, Seq::empty())
    } else {
        let (before, tasks) = brought_back(s, saved.drop_last(), cookies);
        let item = saved.last();
        (
            pushed(before, item.url, item.settings, revived(item)),
            tasks.push(
                lookup_task(before, item.url, item.settings, cookies[saved.len() - 1]),
            ),
        )
    }
}

/// The screen with the queue the application was closed with, which is announced when there is
/// one.
pub open spec fn restored(
    s: Screen,
    saved: Seq<queue::Saved>,
    cookies: Seq<Option<Seq<char>>>,
) -> (Screen, Seq<Task<Seq<char>>>) {
    let announced = if saved.len() == 0 {
        s
    } else {
        noted(
            s,
            Level::Info,
            "Restored "@ + text::decimal(saved.len()) + " link(s) from the last session."@,
        )
    };
    brought_back(announced, saved, cookies)
}

/// What some optional texts are.
pub open spec fn opt_texts(v: Seq<Option<String>>) -> Seq<Option<Seq<char>>> {
    v.map_values(|o: Option<String>| text::opt_text(o))
}

proof fn lemma_brought_back_grows(
    s: Screen,
    saved: Seq<queue::Saved>,
    cookies: Seq<Option<Seq<char>>>,
)
    ensures
        ({
            let r = brought_back(s, saved, cookies).0;
            &&& r.next_id == s.next_id + saved.len()
            &&& r.lookups == s.lookups + saved.len()
            &&& r.items.len() == s.items.len() + saved.len()
        }),
    decreases saved.len(),
{
    if saved.len() > 0 {
        lemma_brought_back_grows(s, saved.drop_last(), cookies);
    }
}

impl Download {
    /// Brings back the queue the application was closed with. Items that were running are queued
    /// again (their `.part` file resumes them), failed ones keep their reason, and every card is
    /// looked up again. `cookies` are those the settings of each item stand for.
    pub fn restore(&mut self, saved: &Vec<SavedItem>, cookies: &Vec<Option<String>>) -> (r: Vec<
        Task,
    >)
        requires
            cookies@.len() == saved@.len(),
            saved@.len() > 0 ==> can_note(old(self).screen(), 1),
            can_push(old(self).screen(), saved@.len() as int),
        ensures
            (final(self).screen(), queue::tasks(r@)) == restored(
                old(self).screen(),
                queue::saved_items(saved@),
                opt_texts(cookies@),
            ),
    {
        let ghost all = queue::saved_items(saved@);
        let ghost jars = opt_texts(cookies@);
        if saved.len() > 0 {
            let count: String = text::decimal_text(saved.len() as u64);
            self.note(
                Note {
                    level: Level::Info,
                    text: text::concat3(
                        "Restored ",
                        count.as_str(),
                        " link(s) from the last session.",
                    ),
                },
            );
        }
        let ghost start = self.screen();
        let mut tasks: Vec<Task> = Vec::new();
        let mut i: usize = 0;
        proof {
            assert(queue::tasks(tasks@) =~= Seq::empty());
            assert(all.take(0).len() == 0);
        }
        while i < saved.len()
            invariant
                i <= saved@.len(),
                cookies@.len() == saved@.len(),
                all == queue::saved_items(saved@),
                jars == opt_texts(cookies@),
                can_push(start, saved@.len() as int),
                self.screen() == brought_back(start, all.take(i as int), jars).0,
                queue::tasks(tasks@) == brought_back(start, all.take(i as int), jars).1,
            decreases saved@.len() - i,
        {
            proof {
                assert(all[i as int] == queue::saved(saved@[i as int]));
                assert(jars[i as int] == text::opt_text(cookies@[i as int]));
                assert(all.take(i + 1).drop_last() =~= all.take(i as int));
                assert(all.take(i + 1).last() == all[i as int]);
                lemma_brought_back_grows(start, all.take(i as int), jars);
            }
            let status: ItemStatus = match &saved[i].failed {
                Some(reason) => ItemStatus::Failed(reason.clone()),
                None => ItemStatus::Queued,
            };
            let task: Task = self.push_item(
                saved[i].url.clone(),
                saved[i].settings.clone(),
                status,
                copy_text(&cookies[i]),
            );
            push_task(&mut tasks, task);
            i = i + 1;
        }
        proof {
            assert(all.take(i as int) =~= all);
        }
        tasks
    }

    /// What is still to do: waiting, running (as waiting) and failed items. Finished ones are done
    /// with.
    pub fn persist(&self) -> (r: Vec<SavedItem>)
        ensures
            queue::saved_items(r@) == persisted(self.screen()),
    {
        let ghost all = self.screen().items;
        let ghost keep = |item: QueueItem<Seq<char>>| kept(item);
        let mut r: Vec<SavedItem> = Vec::new();
        let mut i: usize = 0;
        proof {
            assert(all.take(0).filter(to_do()) =~= Seq::empty()) by {
                reveal(Seq::filter);
            }
            assert(queue::saved_items(r@) =~= all.take(0).filter(to_do()).map_values(keep));
        }
        while i < self.items.len()
            invariant
                i <= self.items@.len(),
                all == self.screen().items,
                keep == (|item: QueueItem<Seq<char>>| kept(item)),
                queue::saved_items(r@) == all.take(i as int).filter(to_do()).map_values(keep),
            decreases self.items@.len() - i,
        {
            let ghost item = all[i as int];
            let ghost before = queue::saved_items(r@);
            let ghost done = all.take(i as int).filter(to_do());
            proof {
                assert(item == self.items@[i as int]@);
                assert(all.take(i + 1) =~= all.take(i as int).push(item));
                seqs::lemma_filter_push(all.take(i as int), item, to_do());
                assert(done.push(item).map_values(keep) =~= done.map_values(keep).push(
                    kept(item),
                ));
            }
            let next = &self.items[i];
            let failed: Option<Option<String>> = match &next.status {
                ItemStatus::Completed { .. } => None,
                ItemStatus::Failed(reason) => Some(Some(reason.clone())),
                ItemStatus::Queued => Some(None),
                ItemStatus::Downloading(_) => Some(None),
            };
            if let Some(failed) = failed {
                r.push(
                    SavedItem {
                        url: next.url.clone(),
                        settings: next.settings.clone(),
                        failed,
                    },
                );
                proof {
                    assert(queue::saved_items(r@) =~= before.push(kept(item)));
                }
            }
            i = i + 1;
        }
        proof {
            assert(all.take(i as int) =~= all);
        }
        r
    }

    /// Takes in whether the queue could be saved.
    pub fn saved(&mut self, written: Result<(), String>)
        requires
            written is Err ==> can_note(old(self).screen(), 1),
        ensures
            final(self).screen() == after_saving(old(self).screen(), written),
    {
        if let Err(e) = written {
            self.note(
                Note {
                    level: Level::Warn,
                    text: text::concat2("Could not save the queue: ", e.as_str()),
                },
            );
        }
    }
}

// ---------------------------------------------------------------------------
// Downloading
// ---------------------------------------------------------------------------

/// The screen with the item at `at` started: what it will do is announced.
pub open spec fn launched(s: Screen, at: int, check: Check) -> Screen {
    let item = s.items[at];
    let begun = Screen {
        job: true,
        current: Some(item.id),
        items: s.items.update(
            at,
            in_state(item, ItemStatus::Downloading(progress::nothing_yet())),
        ),
        progress: Map::empty(),
        files: Seq::empty(),
        ..s
    };
    let spaced = if s.log.len() == 0 {
        begun
    } else {
        noted(begun, Level::Info, Seq::empty())
    };
    let announced = noted(
        noted(spaced, Level::Download, item.url),
        Level::Info,
        "Saving into: "@ + check.output_dir@,
    );
    match check.no_thumbnail {
        Some(ext) => noted(
            announced,
            Level::Info,
            "No thumbnail: a ."@ + ext@ + " file can't hold one."@,
        ),
        None => announced,
    }
}

/// The download of an item.
pub open spec fn run_task(item: QueueItem<Seq<char>>) -> Task<Seq<char>> {
    Task::Run { id: item.id, url: item.url, settings: item.settings }
}

/// The screen with the first waiting item from `from` on started. One whose settings turn out to be
/// wrong is marked as failed and skipped.
pub open spec fn advanced(s: Screen, checks: Seq<Check>, from: int) -> (Screen, Seq<Task<Seq<char>>>)
    decreases s.items.len() - from,
{
    if from < 0 || from >= s.items.len() {
        (s, Seq::empty())
    } else if !(s.items[from].status is Queued) {
        advanced(s, checks, from + 1)
    } else {
        let item = s.items[from];
        match checks[from].problem {
            Some(problem) => {
                let skipped = noted(
                    with_item(s, from, in_state(item, ItemStatus::Failed(problem@))),
                    Level::Error,
                    item.url + ": "@ + problem@,
                );
                advanced(skipped, checks, from + 1)
            },
            None => (launched(s, from, checks[from]), seq![run_task(item)]),
        }
    }
}

/// The screen with the next waiting item started, unless a download runs already.
pub open spec fn moved_on(s: Screen, checks: Seq<Check>) -> (Screen, Seq<Task<Seq<char>>>) {
    if s.job {
        (s, Seq::empty())
    } else {
        advanced(s, checks, 0)
    }
}

/// Whether some item is waiting.
pub open spec fn any_waiting(s: Screen) -> bool {
    exists|i: int| 0 <= i < s.items.len() && (#[trigger] s.items[i]).status is Queued
}

/// The screen after the button that starts the queue was pressed.
pub open spec fn started(s: Screen, checks: Seq<Check>) -> (Screen, Seq<Task<Seq<char>>>) {
    if s.job {
        (s, Seq::empty())
    } else if !any_waiting(s) {
        (Screen { problem: Some("Add at least one link first."@), ..s }, Seq::empty())
    } else {
        moved_on(Screen { problem: None, ..s }, checks)
    }
}

/// What is said of a download that has ended with so many files.
pub open spec fn farewell(finish: Finish<Seq<char>>, files: nat) -> Note<Seq<char>> {
    match finish {
        Finish::Completed => Note {
            level: Level::Success,
            text: if files == 0 {
                "Finished, with nothing new to download"@
            } else if files == 1 {
                "Download completed"@
            } else {
                "Download completed ("@ + text::decimal(files) + " files)"@
            },
        },
        Finish::StoppedAsConfigured => Note {
            level: Level::Success,
            text: "Stopped as configured (the limit or the history said so)"@,
        },
        Finish::Cancelled => Note {
            level: Level::Warn,
            text:
                "Download cancelled. A partial file was kept, so starting again resumes it."@,
        },
        Finish::Failed(reason) => Note { level: Level::Error, text: reason },
    }
}

/// The state an item is in after its download has ended.
pub open spec fn ended(finish: Finish<Seq<char>>, files: Seq<Seq<char>>) -> ItemStatus<Seq<char>> {
    match finish {
        // The .part file is kept, so the item waits again: starting again resumes it.
        Finish::Cancelled => ItemStatus::Queued,
        Finish::Failed(reason) => ItemStatus::Failed(reason),
        _ => ItemStatus::Completed {
            path: if files.len() > 0 {
                Some(files.last())
            } else {
                None
            },
        },
    }
}

/// The screen after the download that runs has ended, before the next one.
pub open spec fn concluded(s: Screen, finish: Finish<Seq<char>>) -> Screen {
    let note = farewell(finish, s.files.len());
    let idle = noted(
        Screen { job: false, progress: Map::empty(), current: None, ..s },
        note.level,
        note.text,
    );
    match s.current {
        Some(id) => {
            let at = place(idle.items, with_id(id));
            if at < idle.items.len() {
                with_item(idle, at, in_state(idle.items[at], ended(finish, s.files)))
            } else {
                idle
            }
        },
        None => idle,
    }
}

/// The screen after a report of the download that runs. `speed` is what the speeds of its parts add
/// up to.
pub open spec fn reported(
    s: Screen,
    event: Event<Seq<char>>,
    checks: Seq<Check>,
    speed: Option<Real>,
) -> (Screen, Seq<Task<Seq<char>>>) {
    match event {
        Event::Log(level, line) => (noted(s, level, line), Seq::empty()),
        Event::Progress(part) => {
            let all = s.progress.insert(part.stream, part);
            let shown = Screen { progress: all, ..s };
            let whole = progress::together(progress::parts(all), speed);
            let at = match s.current {
                Some(id) => place(s.items, with_id(id)),
                None => s.items.len() as int,
            };
            (
                if at < s.items.len() {
                    with_item(shown, at, in_state(s.items[at], ItemStatus::Downloading(whole)))
                } else {
                    shown
                },
                Seq::empty(),
            )
        },
        // Not the end of the item: a playlist reports one file per video, and the item completes
        // when yt-dlp exits.
        Event::File(path) => {
            let said = noted(s, Level::Okay, "Saved: "@ + path);
            (Screen { files: said.files.push(path), ..said }, Seq::empty())
        },
        Event::Finished(finish) => {
            let done = concluded(s, finish);
            if finish is Cancelled {
                (done, Seq::empty())
            } else {
                moved_on(done, checks)
            }
        },
    }
}

/// How many items wait at `from` or behind it.
pub open spec fn waiting(items: Seq<QueueItem<Seq<char>>>, from: int) -> nat
    decreases items.len() - from,
{
    if from < 0 || from >= items.len() {
        0
    } else {
        waiting(items, from + 1) + (if items[from].status is Queued {
            1nat
        } else {
            0
        })
    }
}

/// How many lines starting the next of `waiting` items can log: one for each that is skipped, and
/// four for the one that is started.
pub open spec fn lines_of_starting(waiting: nat) -> int {
    if waiting == 0 {
        0
    } else {
        waiting as int + 3
    }
}

/// How many lines a report can log.
pub open spec fn lines_of_report(s: Screen, event: Event<Seq<char>>) -> int {
    match event {
        Event::Log(..) => 1,
        Event::Progress(_) => 0,
        Event::File(_) => 1,
        Event::Finished(Finish::Cancelled) => 1,
        Event::Finished(_) => 1 + lines_of_starting(waiting(s.items, 0)),
    }
}

/// No more items wait when none waits that did not before.
proof fn lemma_waiting(
    before: Seq<QueueItem<Seq<char>>>,
    after: Seq<QueueItem<Seq<char>>>,
    from: int,
)
    requires
        before.len() == after.len(),
        0 <= from,
        forall|i: int|
            from <= i < after.len() && (#[trigger] after[i]).status is Queued
                ==> before[i].status is Queued,
    ensures
        waiting(after, from) <= waiting(before, from),
    decreases after.len() - from,
{
    if from < after.len() {
        lemma_waiting(before, after, from + 1);
    }
}

proof fn lemma_noted_keeps(s: Screen, level: Level, line: Seq<char>)
    requires
        0 <= s.repeats,
    ensures
        ({
            let n = noted(s, level, line);
            &&& n == (Screen { log: n.log, last: n.last, repeats: n.repeats, ..s })
            &&& 0 <= n.repeats
            &&& n.repeats <= s.repeats + 1
            &&& n.log.len() > 0
        }),
{
}

fn say(level: Level, line: String) -> (r: Note)
    ensures
        r@ == (Note { level, text: line@ }),
        r.level == level,
        r.text@ == line@,
{
    Note { level, text: line }
}

impl Download {
    fn launch(&mut self, at: usize, check: &Check) -> (r: Task)
        requires
            at < old(self).items@.len(),
            can_note(old(self).screen(), 4),
        ensures
            final(self).screen() == launched(old(self).screen(), at as int, *check),
            r@ == run_task(old(self).screen().items[at as int]),
    {
        let id: u64 = self.items[at].id;
        let url: String = self.items[at].url.clone();
        let settings: Settings = self.items[at].settings.clone();
        proof {
            assert(self.screen().items[at as int] == self.items@[at as int]@);
        }
        self.set_status(at, ItemStatus::Downloading(Progress::default()));
        self.job = true;
        self.current = Some(id);
        self.progress.clear();
        self.files.clear();
        let ghost begun = Screen {
            job: true,
            current: Some(id),
            items: old(self).screen().items.update(
                at as int,
                in_state(
                    old(self).screen().items[at as int],
                    ItemStatus::Downloading(progress::nothing_yet()),
                ),
            ),
            progress: Map::empty(),
            files: Seq::empty(),
            ..old(self).screen()
        };
        proof {
            assert(self.screen() =~= begun);
            assert(self.log@.len() == self.screen().log.len());
        }
        if self.log.len() > 0 {
            self.note(say(Level::Info, String::new()));
            proof {
                lemma_noted_keeps(begun, Level::Info, Seq::empty());
                assert(self.screen() == noted(begun, Level::Info, Seq::empty()));
            }
        }
        let ghost spaced = self.screen();
        self.note(say(Level::Download, url.clone()));
        proof {
            lemma_noted_keeps(spaced, Level::Download, url@);
        }
        let ghost named = self.screen();
        self.note(
            say(Level::Info, text::concat2("Saving into: ", check.output_dir.as_str())),
        );
        proof {
            lemma_noted_keeps(named, Level::Info, "Saving into: "@ + check.output_dir@);
        }
        if let Some(ext) = &check.no_thumbnail {
            self.note(
                say(
                    Level::Info,
                    text::concat3("No thumbnail: a .", ext.as_str(), " file can't hold one."),
                ),
            );
        }
        Task::Run { id, url, settings }
    }

    /// Starts the next waiting item. One whose own settings turn out to be wrong is marked as
    /// failed and skipped, so one bad item doesn't block the rest of the queue. Does nothing if a
    /// download is already running or nothing is left to start. `checks` has what the application
    /// says of each item's settings.
    pub fn run_next(&mut self, checks: &Vec<Check>) -> (r: Vec<Task>)
        requires
            !old(self).screen().job ==> checks@.len() == old(self).screen().items.len(),
            !old(self).screen().job && waiting(old(self).screen().items, 0) > 0 ==> can_note(
                old(self).screen(),
                lines_of_starting(waiting(old(self).screen().items, 0)),
            ),
        ensures
            (final(self).screen(), queue::tasks(r@)) == moved_on(old(self).screen(), checks@),
    {
        let mut tasks: Vec<Task> = Vec::new();
        proof {
            assert(queue::tasks(tasks@) =~= Seq::empty());
            assert(self.screen().items.len() == self.items@.len());
        }
        if self.running() {
            return tasks;
        }
        let mut at: usize = 0;
        while at < self.items.len()
            invariant
                at <= self.items@.len(),
                self.items@.len() == checks@.len(),
                !old(self).screen().job,
                queue::tasks(tasks@) == Seq::<Task<Seq<char>>>::empty(),
                advanced(self.screen(), checks@, at as int) == advanced(old(self).screen(), checks@, 0),
                waiting(self.screen().items, at as int) > 0 ==> can_note(
                    self.screen(),
                    lines_of_starting(waiting(self.screen().items, at as int)),
                ),
            decreases self.items@.len() - at,
        {
            let ghost before = self.screen();
            proof {
                assert(before.items[at as int] == self.items@[at as int]@);
            }
            if self.items[at].status.queued() {
                match &checks[at].problem {
                    Some(problem) => {
                        let url: String = self.items[at].url.clone();
                        self.set_status(at, ItemStatus::Failed(problem.clone()));
                        let ghost marked = self.screen();
                        self.note(
                            say(
                                Level::Error,
                                text::concat3(url.as_str(), ": ", problem.as_str()),
                            ),
                        );
                        proof {
                            lemma_noted_keeps(marked, Level::Error, url@ + ": "@ + problem@);
                            lemma_waiting(before.items, self.screen().items, at + 1);
                            assert(self.screen().items.len() == self.items@.len());
                        }
                    },
                    None => {
                        let task: Task = self.launch(at, &checks[at]);
                        push_task(&mut tasks, task);
                        proof {
                            assert(queue::tasks(tasks@) =~= seq![run_task(before.items[at as int])]);
                        }
                        return tasks;
                    },
                }
            }
            at = at + 1;
        }
        tasks
    }

    /// Starts the queue.
    pub fn start(&mut self, checks: &Vec<Check>) -> (r: Vec<Task>)
        requires
            !old(self).screen().job ==> checks@.len() == old(self).screen().items.len(),
            !old(self).screen().job && waiting(old(self).screen().items, 0) > 0 ==> can_note(
                old(self).screen(),
                lines_of_starting(waiting(old(self).screen().items, 0)),
            ),
        ensures
            (final(self).screen(), queue::tasks(r@)) == started(old(self).screen(), checks@),
    {
        if self.running() {
            let none: Vec<Task> = Vec::new();
            proof {
                assert(queue::tasks(none@) =~= Seq::empty());
            }
            return none;
        }
        let mut waiting: bool = false;
        let mut i: usize = 0;
        while i < self.items.len()
            invariant
                i <= self.items@.len(),
                waiting == exists|j: int| 0 <= j < i && (#[trigger] self.screen().items[j]).status is Queued,
            decreases self.items@.len() - i,
        {
            proof {
                assert(self.screen().items[i as int] == self.items@[i as int]@);
            }
            if self.items[i].status.queued() {
                waiting = true;
            }
            i = i + 1;
        }
        proof {
            assert(self.screen().items.len() == self.items@.len());
        }
        if !waiting {
            self.problem = Some("Add at least one link first.".to_owned());
            let none: Vec<Task> = Vec::new();
            proof {
                assert(queue::tasks(none@) =~= Seq::empty());
                assert(self.screen() =~= started(old(self).screen(), checks@).0);
            }
            return none;
        }
        self.problem = None;
        proof {
            assert(self.screen() =~= (Screen { problem: None, ..old(self).screen() }));
        }
        self.run_next(checks)
    }

    fn conclude(&mut self, finish: &Finish)
        requires
            can_note(old(self).screen(), 1),
        ensures
            final(self).screen() == concluded(old(self).screen(), finish@),
            final(self).screen().items.len() == old(self).screen().items.len(),
            final(self).screen().repeats <= old(self).screen().repeats + 1,
            !final(self).screen().job,
            !(finish is Cancelled) ==> waiting(final(self).screen().items, 0) <= waiting(
                old(self).screen().items,
                0,
            ),
    {
        self.job = false;
        self.progress.clear();
        let id: Option<u64> = self.current;
        self.current = None;
        let ghost idle = Screen {
            job: false,
            progress: Map::empty(),
            current: None,
            ..old(self).screen()
        };
        proof {
            assert(self.screen() =~= idle);
            assert(self.screen().files.len() == self.files@.len());
        }
        let count: usize = self.files.len();
        let note: Note = match finish {
            Finish::Completed => if count == 0 {
                say(Level::Success, "Finished, with nothing new to download".to_owned())
            } else if count == 1 {
                say(Level::Success, "Download completed".to_owned())
            } else {
                say(
                    Level::Success,
                    text::concat3(
                        "Download completed (",
                        text::decimal_text(count as u64).as_str(),
                        " files)",
                    ),
                )
            },
            Finish::StoppedAsConfigured => say(
                Level::Success,
                "Stopped as configured (the limit or the history said so)".to_owned(),
            ),
            Finish::Cancelled => say(
                Level::Warn,
                "Download cancelled. A partial file was kept, so starting again resumes it.".to_owned(),
            ),
            Finish::Failed(reason) => say(Level::Error, reason.clone()),
        };
        proof {
            assert(note@ == farewell(finish@, idle.files.len()));
            lemma_noted_keeps(idle, note.level, note.text@);
        }
        self.note(note);
        if let Some(id) = id {
            let at: usize = self.find(id);
            if at < self.items.len() {
                let status: ItemStatus = match finish {
                    Finish::Cancelled => ItemStatus::Queued,
                    Finish::Failed(reason) => ItemStatus::Failed(reason.clone()),
                    _ => ItemStatus::Completed {
                        path: if self.files.len() > 0 {
                            Some(self.files[self.files.len() - 1].clone())
                        } else {
                            None
                        },
                    },
                };
                proof {
                    assert(self.screen().files == text::texts(self.files@));
                }
                self.set_status(at, status);
            }
        }
        proof {
            if !(finish is Cancelled) {
                lemma_waiting(old(self).screen().items, self.screen().items, 0);
            }
        }
    }

    /// Takes in a report of the download that runs. `speed` is what the speeds of its parts add up
    /// to, and `checks` has what the application says of each item's settings, for a download that
    /// is over.
    pub fn report(&mut self, event: Event, checks: &Vec<Check>, speed: Option<Real>) -> (r: Vec<
        Task,
    >)
        requires
            event is Finished && !(event->Finished_0 is Cancelled) ==> checks@.len() == old(
                self,
            ).screen().items.len(),
            lines_of_report(old(self).screen(), event@) > 0 ==> can_note(
                old(self).screen(),
                lines_of_report(old(self).screen(), event@),
            ),
            event matches Event::Progress(part) ==> progress::countable(
                progress::parts(old(self).screen().progress.insert(part.stream, part)),
            ),
        ensures
            (final(self).screen(), queue::tasks(r@)) == reported(old(self).screen(), event@, checks@, speed),
    {
        let none: Vec<Task> = Vec::new();
        proof {
            assert(queue::tasks(none@) =~= Seq::empty());
        }
        match event {
            Event::Log(level, line) => self.note(say(level, line)),
            Event::Progress(part) => {
                self.progress.insert(part.stream, part);
                let ghost shown = Screen {
                    progress: old(self).screen().progress.insert(part.stream, part),
                    ..old(self).screen()
                };
                proof {
                    assert(self.screen() =~= shown);
                }
                let whole: Progress = combined(&self.progress, speed);
                if let Some(id) = self.current {
                    let at: usize = self.find(id);
                    if at < self.items.len() {
                        self.set_status(at, ItemStatus::Downloading(whole));
                    }
                }
            },
            Event::File(path) => {
                self.note(say(Level::Okay, text::concat2("Saved: ", path.as_str())));
                let ghost said = self.screen();
                self.files.push(path);
                proof {
                    assert(self.screen() =~= (Screen { files: said.files.push(path@), ..said }));
                }
            },
            Event::Finished(finish) => {
                self.conclude(&finish);
                if !matches!(finish, Finish::Cancelled) {
                    return self.run_next(checks);
                }
            },
        }
        none
    }
}

// ---------------------------------------------------------------------------
// Answering
// ---------------------------------------------------------------------------

/// What only the application can say, for the message at hand.
#[derive(Debug, Clone, PartialEq, Eq)]
pub struct Outside {
    /// For [`Message::AddUrl`]: which of the words in the box are links.
    pub valid: Vec<bool>,
    /// For [`Message::AddUrl`]: the cookies the settings stand for.
    pub cookies: Option<String>,
    /// For [`Message::Start`] and a report that a download is over: what there is to say of each item's
    /// settings.
    pub checks: Vec<Check>,
    /// For a report of progress: what the speeds of the parts add up to, when that is anything.
    pub speed: Option<Real>,
}

/// What came of opening a folder.
#[derive(Debug, Clone, PartialEq, Eq)]
pub enum Folder {
    Opened,
    /// It doesn't exist.
    Missing,
    Failed(String),
}

/// What a message asks for.
#[derive(Debug, PartialEq, Eq)]
pub struct Answer {
    pub tasks: Vec<Task>,
    /// What to save of the queue, when it has changed.
    pub save: Option<Vec<SavedItem>>,
}

/// The screen with what a lookup has found, and the thumbnail that is wanted then.
pub open spec fn filled_in(
    s: Screen,
    id: u64,
    result: Result<Metadata<Seq<char>>, Seq<char>>,
) -> (Screen, Seq<Task<Seq<char>>>) {
    let fewer = Screen {
        lookups: if s.lookups > 0 {
            s.lookups - 1
        } else {
            0
        },
        ..s
    };
    let at = place(s.items, with_id(id));
    if at < s.items.len() {
        let meta = match result {
            Ok(meta) => MetaState::Ready(meta),
            Err(e) => MetaState::Failed(e),
        };
        (
            with_item(fewer, at, QueueItem { meta, ..s.items[at] }),
            match result {
                Ok(meta) => match meta.thumbnail_url {
                    Some(url) => seq![Task::Thumbnail { id, url }],
                    None => Seq::empty(),
                },
                Err(_) => Seq::empty(),
            },
        )
    } else {
        (fewer, Seq::empty())
    }
}

/// The screen with the item with this number waiting again, if it failed.
pub open spec fn retried(s: Screen, id: u64) -> Screen {
    let at = place(s.items, with_id(id));
    if at < s.items.len() && s.items[at].status is Failed {
        with_item(s, at, in_state(s.items[at], ItemStatus::Queued))
    } else {
        s
    }
}

/// The screen after a message, and what it asks for.
pub open spec fn applied(
    s: Screen,
    message: Message<Seq<char>>,
    settings: Settings,
    outside: Outside,
) -> (Screen, Seq<Task<Seq<char>>>) {
    let none = Seq::<Task<Seq<char>>>::empty();
    match message {
        Message::UrlInput(value) => (Screen { url_input: value, ..s }, none),
        Message::AddUrl => added(s, outside.valid@, settings, text::opt_text(outside.cookies)),
        Message::RemoveItem(id) => (
            Screen { items: s.items.filter(not_removed(id)), ..s },
            none,
        ),
        Message::RetryItem(id) => (retried(s, id), none),
        Message::ClearFinished => (Screen { items: s.items.filter(unfinished()), ..s }, none),
        // An item that ran (or is running) keeps what it ran with.
        Message::ItemKind(id, value) => {
            let at = place(s.items, waiting_with_id(id));
            (
                if at < s.items.len() {
                    with_item(s, at, of_kind(s.items[at], value))
                } else {
                    s
                },
                none,
            )
        },
        Message::ItemQuality(id, value) => {
            let at = place(s.items, waiting_with_id(id));
            (
                if at < s.items.len() {
                    with_item(s, at, of_quality(s.items[at], value))
                } else {
                    s
                },
                none,
            )
        },
        Message::MetadataFetched(id, result) => filled_in(s, id, result),
        Message::ThumbnailFetched(id, result) => {
            let at = place(s.items, with_id(id));
            (
                if result is Ok && at < s.items.len() {
                    with_item(
                        s,
                        at,
                        QueueItem { thumbnail: Some(result->Ok_0), ..s.items[at] },
                    )
                } else {
                    s
                },
                none,
            )
        },
        Message::Start => started(s, outside.checks@),
        Message::Stop => if s.job {
            (noted(s, Level::Warn, "Stopping the download..."@), seq![Task::Cancel])
        } else {
            (s, none)
        },
        Message::OpenFolder => (s, seq![Task::OpenFolder]),
        Message::OpenItemFolder(path) => (s, seq![Task::RevealFile(path)]),
        Message::Report(event) => reported(s, event, outside.checks@, outside.speed),
    }
}

/// Whether a message changes the queue itself, which is then saved, so that closing the application
/// (or it crashing) loses nothing still to do.
pub open spec fn changes_queue(message: Message<Seq<char>>) -> bool {
    match message {
        Message::AddUrl
        | Message::RemoveItem(_)
        | Message::RetryItem(_)
        | Message::ClearFinished
        | Message::ItemKind(..)
        | Message::ItemQuality(..) => true,
        Message::Report(event) => event is Finished,
        _ => false,
    }
}

/// How many lines a message can log.
pub open spec fn lines_of(s: Screen, message: Message<Seq<char>>) -> int {
    match message {
        Message::Start => if s.job {
            0
        } else {
            lines_of_starting(waiting(s.items, 0))
        },
        Message::Stop => if s.job {
            1
        } else {
            0
        },
        Message::Report(event) => lines_of_report(s, event),
        _ => 0,
    }
}

/// Whether a message can start the next item.
pub open spec fn can_start(s: Screen, message: Message<Seq<char>>) -> bool {
    match message {
        Message::Start => !s.job,
        Message::Report(Event::Finished(finish)) => !(finish is Cancelled),
        _ => false,
    }
}

/// Whether `outside` has what a message needs, and everything it counts can be counted.
pub open spec fn answerable(s: Screen, message: Message<Seq<char>>, outside: Outside) -> bool {
    &&& lines_of(s, message) > 0 ==> can_note(s, lines_of(s, message))
    &&& message is AddUrl ==> {
        &&& outside.valid@.len() == text::words(s.url_input).len()
        &&& can_push(s, outside.valid@.len() as int)
    }
    &&& can_start(s, message) ==> outside.checks@.len() == s.items.len()
    &&& message matches Message::Report(Event::Progress(part)) ==> progress::countable(
        progress::parts(s.progress.insert(part.stream, part)),
    )
}

/// What is saved after a message that has led to this screen.
pub open spec fn to_save(s: Screen, message: Message<Seq<char>>) -> Option<Seq<queue::Saved>> {
    if changes_queue(message) {
        Some(persisted(s))
    } else {
        None
    }
}

/// The screen once the queue was saved, or could not be.
pub open spec fn after_saving(s: Screen, written: Result<(), String>) -> Screen {
    match written {
        Ok(()) => s,
        Err(e) => noted(s, Level::Warn, "Could not save the queue: "@ + e@),
    }
}

/// The screen once a folder was opened, or could not be.
pub open spec fn after_opening(s: Screen, folder: Folder) -> Screen {
    match folder {
        Folder::Opened => s,
        Folder::Missing => noted(s, Level::Info, "The output folder doesn't exist yet."@),
        Folder::Failed(e) => noted(s, Level::Warn, "Could not open the folder: "@ + e@),
    }
}

/// What is asked for, for contracts.
pub open spec fn saves(save: Option<Vec<SavedItem>>) -> Option<Seq<queue::Saved>> {
    match save {
        Some(items) => Some(queue::saved_items(items@)),
        None => None,
    }
}

fn no_tasks() -> (r: Vec<Task>)
    ensures
        queue::tasks(r@) == Seq::<Task<Seq<char>>>::empty(),
{
    let r: Vec<Task> = Vec::new();
    proof {
        assert(queue::tasks(r@) =~= Seq::empty());
    }
    r
}

fn one_task(task: Task) -> (r: Vec<Task>)
    ensures
        queue::tasks(r@) == seq![task@],
{
    let mut r: Vec<Task> = Vec::new();
    r.push(task);
    proof {
        assert(queue::tasks(r@) =~= seq![task@]);
    }
    r
}

impl Download {
    fn retry(&mut self, id: u64)
        ensures
            final(self).screen() == retried(old(self).screen(), id),
    {
        let at: usize = self.find(id);
        if at < self.items.len() {
            proof {
                assert(self.screen().items[at as int] == self.items@[at as int]@);
            }
            if matches!(self.items[at].status, ItemStatus::Failed(_)) {
                self.set_status(at, ItemStatus::Queued);
            }
        }
    }

    fn set_kind(&mut self, id: u64, value: Kind)
        ensures
            ({
                let s = old(self).screen();
                let at = place(s.items, waiting_with_id(id));
                final(self).screen() == (if at < s.items.len() {
                    with_item(s, at, of_kind(s.items[at], value))
                } else {
                    s
                })
            }),
    {
        let at: usize = self.queued_item(id);
        proof {
            assert(self.screen().items.len() == self.items@.len());
        }
        if at < self.items.len() {
            let item = &mut self.items[at];
            item.settings.format.kind = value;
            proof {
                assert(self.screen() =~= with_item(
                    old(self).screen(),
                    at as int,
                    of_kind(old(self).screen().items[at as int], value),
                ));
            }
        }
    }

    fn set_quality(&mut self, id: u64, value: Quality)
        ensures
            ({
                let s = old(self).screen();
                let at = place(s.items, waiting_with_id(id));
                final(self).screen() == (if at < s.items.len() {
                    with_item(s, at, of_quality(s.items[at], value))
                } else {
                    s
                })
            }),
    {
        let at: usize = self.queued_item(id);
        proof {
            assert(self.screen().items.len() == self.items@.len());
        }
        if at < self.items.len() {
            let item = &mut self.items[at];
            item.settings.format.quality = value;
            proof {
                assert(self.screen() =~= with_item(
                    old(self).screen(),
                    at as int,
                    of_quality(old(self).screen().items[at as int], value),
                ));
            }
        }
    }

    fn fill_in(&mut self, id: u64, result: Result<Metadata, String>) -> (r: Vec<Task>)
        ensures
            (final(self).screen(), queue::tasks(r@)) == filled_in(
                old(self).screen(),
                id,
                queue::looked_up(result),
            ),
    {
        if self.lookups > 0 {
            self.lookups = self.lookups - 1;
        }
        let ghost fewer = Screen {
            lookups: if old(self).screen().lookups > 0 {
                old(self).screen().lookups - 1
            } else {
                0
            },
            ..old(self).screen()
        };
        proof {
            assert(self.screen() =~= fewer);
            assert(self.screen().items.len() == self.items@.len());
        }
        let at: usize = self.find(id);
        if at >= self.items.len() {
            return no_tasks();
        }
        let (meta, thumbnail): (MetaState, Option<String>) = match result {
            Ok(meta) => {
                let url: Option<String> = copy_text(&meta.thumbnail_url);
                (MetaState::Ready(meta), url)
            },
            Err(e) => (MetaState::Failed(e), None),
        };
        let ghost found = meta@;
        let item = &mut self.items[at];
        item.meta = meta;
        proof {
            assert(self.screen() =~= with_item(
                fewer,
                at as int,
                QueueItem { meta: found, ..fewer.items[at as int] },
            ));
        }
        match thumbnail {
            Some(url) => one_task(Task::Thumbnail { id, url }),
            None => no_tasks(),
        }
    }

    fn show_thumbnail(&mut self, id: u64, bytes: Vec<u8>)
        ensures
            ({
                let s = old(self).screen();
                let at = place(s.items, with_id(id));
                final(self).screen() == (if at < s.items.len() {
                    with_item(s, at, QueueItem { thumbnail: Some(bytes), ..s.items[at] })
                } else {
                    s
                })
            }),
    {
        let at: usize = self.find(id);
        proof {
            assert(self.screen().items.len() == self.items@.len());
        }
        if at < self.items.len() {
            let item = &mut self.items[at];
            item.thumbnail = Some(bytes);
            proof {
                assert(self.screen() =~= with_item(
                    old(self).screen(),
                    at as int,
                    QueueItem { thumbnail: Some(bytes), ..old(self).screen().items[at as int] },
                ));
            }
        }
    }

    /// Applies one message. `settings` is the Settings page's current state: what a link added now
    /// is queued with.
    pub fn apply(&mut self, message: Message, settings: &Settings, outside: &Outside) -> (r: Vec<
        Task,
    >)
        requires
            answerable(old(self).screen(), message@, *outside),
        ensures
            (final(self).screen(), queue::tasks(r@)) == applied(old(self).screen(), message@, *settings, *outside),
    {
        match message {
            Message::UrlInput(value) => {
                self.url_input = value;
                proof {
                    assert(self.screen() =~= (Screen { url_input: value@, ..old(self).screen() }));
                }
                no_tasks()
            },
            Message::AddUrl => self.add_url(&outside.valid, settings, &outside.cookies),
            Message::RemoveItem(id) => {
                self.remove_item(id);
                no_tasks()
            },
            Message::RetryItem(id) => {
                self.retry(id);
                no_tasks()
            },
            Message::ClearFinished => {
                self.clear_finished();
                no_tasks()
            },
            Message::ItemKind(id, value) => {
                self.set_kind(id, value);
                no_tasks()
            },
            Message::ItemQuality(id, value) => {
                self.set_quality(id, value);
                no_tasks()
            },
            Message::MetadataFetched(id, result) => self.fill_in(id, result),
            Message::ThumbnailFetched(id, result) => {
                if let Ok(bytes) = result {
                    self.show_thumbnail(id, bytes);
                }
                no_tasks()
            },
            Message::Start => self.start(&outside.checks),
            Message::Stop => {
                if self.running() {
                    self.note(say(Level::Warn, "Stopping the download...".to_owned()));
                    one_task(Task::Cancel)
                } else {
                    no_tasks()
                }
            },
            Message::OpenFolder => one_task(Task::OpenFolder),
            Message::OpenItemFolder(path) => one_task(Task::RevealFile(path)),
            Message::Report(event) => self.report(event, &outside.checks, outside.speed),
        }
    }

    /// Applies one message, and says what has to be done and saved. `settings` is the Settings
    /// page's current state: what a link added now is queued with.
    pub fn update(&mut self, message: Message, settings: &Settings, outside: &Outside) -> (r:
        Answer)
        requires
            answerable(old(self).screen(), message@, *outside),
        ensures
            (final(self).screen(), queue::tasks(r.tasks@)) == applied(
                old(self).screen(),
                message@,
                *settings,
                *outside,
            ),
            saves(r.save) == to_save(final(self).screen(), message@),
    {
        let changed: bool = match &message {
            Message::AddUrl
            | Message::RemoveItem(_)
            | Message::RetryItem(_)
            | Message::ClearFinished
            | Message::ItemKind(..)
            | Message::ItemQuality(..) => true,
            Message::Report(event) => matches!(event, Event::Finished(_)),
            _ => false,
        };
        let tasks: Vec<Task> = self.apply(message, settings, outside);
        let save: Option<Vec<SavedItem>> = if changed {
            Some(self.persist())
        } else {
            None
        };
        Answer { tasks, save }
    }

    fn lines_of_starting(&self) -> (r: u128)
        ensures
            r == lines_of_starting(waiting(self.screen().items, 0)),
            r <= usize::MAX + 3,
    {
        let ghost items = self.screen().items;
        let mut i: usize = self.items.len();
        let mut count: u128 = 0;
        while i > 0
            invariant
                i <= self.items@.len(),
                items == self.screen().items,
                self.items@.len() <= usize::MAX,
                count == waiting(items, i as int),
                count <= self.items@.len() - i,
            decreases i,
        {
            i = i - 1;
            proof {
                assert(items[i as int] == self.items@[i as int]@);
            }
            if self.items[i].status.queued() {
                count = count + 1;
            }
        }
        if count == 0 {
            0
        } else {
            count + 3
        }
    }

    fn can_count(&self, lines: u128) -> (r: bool)
        requires
            lines <= usize::MAX + 4,
        ensures
            r == can_note(self.screen(), lines as int),
    {
        self.repeats as u128 + lines < 4294967295
    }

    /// Whether a message can be answered with what `outside` has.
    pub fn can_update(&self, message: &Message, outside: &Outside) -> (r: bool)
        ensures
            r == answerable(self.screen(), message@, *outside),
    {
        proof {
            assert(self.screen().items.len() == self.items@.len());
        }
        let count: usize = self.items.len();
        match message {
            Message::AddUrl => {
                let links: Vec<String> = text::split_words(self.url_input.as_str());
                proof {
                    assert(text::texts(links@).len() == links@.len());
                }
                let n: usize = outside.valid.len();
                n == links.len() && self.next_id <= u64::MAX - n as u64 && self.lookups
                    <= usize::MAX - n
            },
            Message::Start => {
                let lines: u128 = self.lines_of_starting();
                self.job || (outside.checks.len() == count && (lines == 0 || self.can_count(lines)))
            },
            Message::Stop => !self.job || self.can_log(),
            Message::Report(Event::Log(..)) => self.can_log(),
            Message::Report(Event::File(_)) => self.can_log(),
            Message::Report(Event::Finished(Finish::Cancelled)) => self.can_log(),
            Message::Report(Event::Finished(_)) => {
                let lines: u128 = self.lines_of_starting();
                outside.checks.len() == count && self.can_count(lines + 1)
            },
            Message::Report(Event::Progress(part)) => {
                let mut all: BTreeMap<u32, Progress> = self.progress.clone();
                all.insert(part.stream, *part);
                can_combine(&all)
            },
            _ => true,
        }
    }

    /// The window is closing: a running download is stopped together with everything yt-dlp
    /// started, instead of leaving it running with nobody to see it. Its `.part` file stays, so the
    /// next run resumes it.
    pub fn shutdown(&self) -> (r: Answer)
        ensures
            queue::tasks(r.tasks@) == (if self.screen().job {
                seq![Task::<Seq<char>>::Cancel]
            } else {
                Seq::empty()
            }),
            saves(r.save) == Some(persisted(self.screen())),
    {
        let tasks: Vec<Task> = if self.running() {
            one_task(Task::Cancel)
        } else {
            no_tasks()
        };
        Answer { tasks, save: Some(self.persist()) }
    }

    /// Takes in what came of opening a folder.
    pub fn folder_opened(&mut self, folder: Folder)
        requires
            !(folder is Opened) ==> can_note(old(self).screen(), 1),
        ensures
            final(self).screen() == after_opening(old(self).screen(), folder),
    {
        match folder {
            Folder::Opened => {},
            Folder::Missing => self.note(
                say(Level::Info, "The output folder doesn't exist yet.".to_owned()),
            ),
            Folder::Failed(e) => self.note(
                say(Level::Warn, text::concat2("Could not open the folder: ", e.as_str())),
            ),
        }
    }

    /// Whether one more line can be counted.
    pub fn can_log(&self) -> (r: bool)
        ensures
            r == can_note(self.screen(), 1),
    {
        self.repeats < 4294967294
    }
}

/// What a lookup gave, when its worker may have been lost.
pub fn fetch_metadata(answer: Option<Result<Metadata, String>>) -> (r: Result<Metadata, String>)
    ensures
        match answer {
            Some(result) => r == result,
            None => r matches Err(e) && e@ == "the lookup was interrupted"@,
        },
{
    match answer {
        Some(result) => result,
        None => Err("the lookup was interrupted".to_owned()),
    }
}

/// What fetching a thumbnail gave, when its worker may have been lost.
pub fn fetch_thumbnail(answer: Option<Result<Vec<u8>, String>>) -> (r: Result<Vec<u8>, String>)
    ensures
        match answer {
            Some(result) => r == result,
            None => r matches Err(e) && e@ == "the thumbnail fetch was interrupted"@,
        },
{
    match answer {
        Some(result) => result,
        None => Err("the thumbnail fetch was interrupted".to_owned()),
    }
}

} // verus!
