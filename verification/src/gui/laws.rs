//! What holds of the Download screen, whatever it is told.
use vstd::prelude::*;

use super::download::{Outside, Screen, MAX_LOG};
use super::queue::{Check, Event, Finish, ItemStatus, Message, QueueItem, Task};
use super::{download, progress, queue};
use crate::config::{Kind, Quality, Settings};
use crate::log::{Level, Note};
use crate::metadata::Real;
use crate::provision::Paths;
use crate::{seqs, text};

verus! {

// ---------------------------------------------------------------------------
// The invariant
// ---------------------------------------------------------------------------

/// Whether the items of a queue are numbered in the order they were added, from below `next_id`.
pub open spec fn numbered(items: Seq<QueueItem<Seq<char>>>, next_id: int) -> bool {
    &&& forall|i: int, j: int| 0 <= i < j < items.len() ==> items[i].id < items[j].id
    &&& forall|i: int| 0 <= i < items.len() ==> (#[trigger] items[i]).id < next_id
}

/// Whether the item that is downloading is the current one, and no other is.
pub open spec fn one_runs(items: Seq<QueueItem<Seq<char>>>, current: Option<u64>) -> bool {
    &&& forall|i: int|
        0 <= i < items.len() ==> ((#[trigger] items[i]).status is Downloading <==> current == Some(
            items[i].id,
        ))
    &&& current matches Some(id) ==> exists|i: int|
        0 <= i < items.len() && (#[trigger] items[i]).id == id
}

/// What holds of the screen at all times: items are numbered in order, at most one downloads and
/// that is the current one, and the log is bounded.
pub open spec fn sound(s: Screen) -> bool {
    &&& 0 <= s.next_id
    &&& numbered(s.items, s.next_id)
    &&& one_runs(s.items, s.current)
    &&& s.job <==> s.current is Some
    &&& s.log.len() <= MAX_LOG
    &&& s.repeats >= 0
}

proof fn lemma_noted_sound(s: Screen, level: Level, line: Seq<char>)
    requires
        sound(s),
    ensures
        sound(download::noted(s, level, line)),
        download::noted(s, level, line).items == s.items,
        download::noted(s, level, line).job == s.job,
        download::noted(s, level, line).current == s.current,
{
}

proof fn lemma_filter_numbered(
    items: Seq<QueueItem<Seq<char>>>,
    next_id: int,
    keep: spec_fn(QueueItem<Seq<char>>) -> bool,
)
    requires
        numbered(items, next_id),
    ensures
        numbered(items.filter(keep), next_id),
        items.len() > 0 ==> forall|i: int|
            0 <= i < items.filter(keep).len() ==> (#[trigger] items.filter(keep)[i]).id
                <= items.last().id,
    decreases items.len(),
{
    if items.len() == 0 {
        assert(items.filter(keep) =~= items) by {
            reveal(Seq::filter);
        }
    } else {
        let rest = items.drop_last();
        assert(items =~= rest.push(items.last()));
        seqs::lemma_filter_push(rest, items.last(), keep);
        lemma_filter_numbered(rest, next_id, keep);
    }
}

proof fn lemma_filter_runs(
    items: Seq<QueueItem<Seq<char>>>,
    current: Option<u64>,
    keep: spec_fn(QueueItem<Seq<char>>) -> bool,
)
    requires
        one_runs(items, current),
        forall|item: QueueItem<Seq<char>>| item.status is Downloading ==> #[trigger] keep(item),
    ensures
        one_runs(items.filter(keep), current),
{
    seqs::lemma_kept(items, keep);
    let kept = items.filter(keep);
    if current is Some {
        let i = choose|i: int| 0 <= i < items.len() && (#[trigger] items[i]).id == current->0;
        assert(items[i].status is Downloading);
        assert(keep(items[i]));
        assert(kept.contains(items[i]));
        let j = kept.index_of(items[i]);
        assert(kept[j].id == current->0);
    }
}

/// Changing an item in place keeps the screen sound, when its number stays and it downloads exactly
/// if it is the current one.
proof fn lemma_with_item_sound(s: Screen, at: int, item: QueueItem<Seq<char>>)
    requires
        sound(s),
        0 <= at < s.items.len(),
        item.id == s.items[at].id,
        item.status is Downloading <==> s.items[at].status is Downloading,
    ensures
        sound(download::with_item(s, at, item)),
{
    let t = download::with_item(s, at, item);
    if s.current is Some {
        let i = choose|i: int| 0 <= i < s.items.len() && (#[trigger] s.items[i]).id == s.current->0;
        assert(t.items[i].id == s.current->0);
    }
}

proof fn lemma_pushed_sound(
    s: Screen,
    url: Seq<char>,
    settings: Settings,
    status: ItemStatus<Seq<char>>,
)
    requires
        sound(s),
        s.next_id <= u64::MAX,
        !(status is Downloading),
    ensures
        sound(download::pushed(s, url, settings, status)),
{
    let t = download::pushed(s, url, settings, status);
    assert(s.next_id as u64 == s.next_id);
    if s.current is Some {
        let i = choose|i: int| 0 <= i < s.items.len() && (#[trigger] s.items[i]).id == s.current->0;
        assert(t.items[i].id == s.current->0);
        assert(s.items[i].id < s.next_id);
    }
}

proof fn lemma_pasted_sound(
    s: Screen,
    links: Seq<Seq<char>>,
    valid: Seq<bool>,
    settings: Settings,
    cookies: Option<Seq<char>>,
)
    requires
        sound(s),
        s.next_id + links.len() <= u64::MAX,
    ensures
        sound(download::pasted(s, links, valid, settings, cookies).screen),
        download::pasted(s, links, valid, settings, cookies).screen.next_id <= s.next_id
            + links.len(),
    decreases links.len(),
{
    if links.len() > 0 {
        let before = download::pasted(s, links.drop_last(), valid, settings, cookies);
        lemma_pasted_sound(s, links.drop_last(), valid, settings, cookies);
        lemma_pushed_sound(before.screen, links.last(), settings, ItemStatus::Queued);
    }
}

proof fn lemma_launched_sound(s: Screen, at: int, check: Check)
    requires
        sound(s),
        !s.job,
        0 <= at < s.items.len(),
    ensures
        sound(download::launched(s, at, check)),
        download::launched(s, at, check).job,
        download::launched(s, at, check).current == Some(s.items[at].id),
{
    let item = s.items[at];
    let begun = Screen {
        job: true,
        current: Some(item.id),
        items: s.items.update(
            at,
            download::in_state(item, ItemStatus::Downloading(progress::nothing_yet())),
        ),
        progress: Map::empty(),
        files: Seq::empty(),
        ..s
    };
    assert(begun.items[at].id == item.id);
    assert(sound(begun));
    let spaced = if s.log.len() == 0 {
        begun
    } else {
        download::noted(begun, Level::Info, Seq::empty())
    };
    lemma_noted_sound(begun, Level::Info, Seq::empty());
    lemma_noted_sound(spaced, Level::Download, item.url);
    let named = download::noted(spaced, Level::Download, item.url);
    lemma_noted_sound(named, Level::Info, "Saving into: "@ + check.output_dir@);
    let announced = download::noted(named, Level::Info, "Saving into: "@ + check.output_dir@);
    if check.no_thumbnail is Some {
        lemma_noted_sound(
            announced,
            Level::Info,
            "No thumbnail: a ."@ + check.no_thumbnail->0@ + " file can't hold one."@,
        );
    }
}

proof fn lemma_advanced_sound(s: Screen, checks: Seq<Check>, from: int)
    requires
        sound(s),
        !s.job,
        0 <= from,
    ensures
        sound(download::advanced(s, checks, from).0),
    decreases s.items.len() - from,
{
    if from < s.items.len() {
        if !(s.items[from].status is Queued) {
            lemma_advanced_sound(s, checks, from + 1);
        } else {
            let item = s.items[from];
            match checks[from].problem {
                Some(problem) => {
                    let failed = download::in_state(item, ItemStatus::Failed(problem@));
                    lemma_with_item_sound(s, from, failed);
                    let marked = download::with_item(s, from, failed);
                    let line = item.url + ": "@ + problem@;
                    lemma_noted_sound(marked, Level::Error, line);
                    lemma_advanced_sound(
                        download::noted(marked, Level::Error, line),
                        checks,
                        from + 1,
                    );
                },
                None => {
                    lemma_launched_sound(s, from, checks[from]);
                },
            }
        }
    }
}

proof fn lemma_concluded_sound(s: Screen, finish: Finish<Seq<char>>)
    requires
        sound(s),
    ensures
        sound(download::concluded(s, finish)),
        !download::concluded(s, finish).job,
{
    let note = download::farewell(finish, s.files.len());
    let quiet = Screen { job: false, progress: Map::empty(), current: None, ..s };
    let idle = download::noted(quiet, note.level, note.text);
    assert(idle.items == s.items);
    let t = download::concluded(s, finish);
    if s.current is Some {
        let id = s.current->0;
        let at = download::place(s.items, download::with_id(id));
        download::lemma_place(s.items, download::with_id(id));
        let i = choose|i: int| 0 <= i < s.items.len() && (#[trigger] s.items[i]).id == id;
        if at == s.items.len() {
            assert(!download::with_id(id)(s.items[i]));
        }
        assert(s.items[at].id == id);
        assert forall|j: int| 0 <= j < t.items.len() implies !((#[trigger] t.items[j]).status
            is Downloading) by {
            if j != at {
                assert(s.items[j].id != id);
                assert(t.items[j] == s.items[j]);
            }
        }
        assert forall|j: int| 0 <= j < t.items.len() implies (#[trigger] t.items[j]).id
            == s.items[j].id by {}
    } else {
        assert(t == idle);
    }
}

proof fn lemma_reported_sound(
    s: Screen,
    event: Event<Seq<char>>,
    checks: Seq<Check>,
    speed: Option<Real>,
)
    requires
        sound(s),
    ensures
        sound(download::reported(s, event, checks, speed).0),
{
    match event {
        Event::Log(level, line) => {
            lemma_noted_sound(s, level, line);
        },
        Event::Progress(part) => {
            let all = s.progress.insert(part.stream, part);
            let shown = Screen { progress: all, ..s };
            assert(sound(shown));
            if s.current is Some {
                let id = s.current->0;
                download::lemma_place(s.items, download::with_id(id));
                let at = download::place(s.items, download::with_id(id));
                if at < s.items.len() {
                    assert(s.items[at].id == id);
                    lemma_with_item_sound(
                        shown,
                        at,
                        download::in_state(
                            s.items[at],
                            ItemStatus::Downloading(
                                progress::together(progress::parts(all), speed),
                            ),
                        ),
                    );
                }
            }
        },
        Event::File(path) => {
            lemma_noted_sound(s, Level::Okay, "Saved: "@ + path);
        },
        Event::Finished(finish) => {
            lemma_concluded_sound(s, finish);
            if !(finish is Cancelled) {
                lemma_advanced_sound(download::concluded(s, finish), checks, 0);
            }
        },
    }
}

/// Whatever the screen is told, it stays sound: at most one item downloads, the log is bounded, and
/// numbers are never used twice.
pub proof fn law_the_screen_stays_sound(
    s: Screen,
    message: Message<Seq<char>>,
    settings: Settings,
    outside: Outside,
)
    requires
        sound(s),
        download::answerable(s, message, outside),
    ensures
        sound(download::applied(s, message, settings, outside).0),
{
    match message {
        Message::AddUrl => {
            let clear = Screen { url_input: Seq::empty(), ..s };
            assert(sound(clear));
            lemma_pasted_sound(
                clear,
                text::words(s.url_input),
                outside.valid@,
                settings,
                text::opt_text(outside.cookies),
            );
        },
        Message::RemoveItem(id) => {
            lemma_filter_numbered(s.items, s.next_id, download::not_removed(id));
            lemma_filter_runs(s.items, s.current, download::not_removed(id));
        },
        Message::ClearFinished => {
            lemma_filter_numbered(s.items, s.next_id, download::unfinished());
            lemma_filter_runs(s.items, s.current, download::unfinished());
        },
        Message::RetryItem(id) => {
            download::lemma_place(s.items, download::with_id(id));
            let at = download::place(s.items, download::with_id(id));
            if at < s.items.len() && s.items[at].status is Failed {
                lemma_with_item_sound(
                    s,
                    at,
                    download::in_state(s.items[at], ItemStatus::Queued),
                );
            }
        },
        Message::ItemKind(id, value) => {
            download::lemma_place(s.items, download::waiting_with_id(id));
            let at = download::place(s.items, download::waiting_with_id(id));
            if at < s.items.len() {
                lemma_with_item_sound(s, at, download::of_kind(s.items[at], value));
            }
        },
        Message::ItemQuality(id, value) => {
            download::lemma_place(s.items, download::waiting_with_id(id));
            let at = download::place(s.items, download::waiting_with_id(id));
            if at < s.items.len() {
                lemma_with_item_sound(s, at, download::of_quality(s.items[at], value));
            }
        },
        Message::MetadataFetched(id, result) => {
            let fewer = Screen {
                lookups: if s.lookups > 0 {
                    s.lookups - 1
                } else {
                    0
                },
                ..s
            };
            assert(sound(fewer));
            download::lemma_place(s.items, download::with_id(id));
            let at = download::place(s.items, download::with_id(id));
            if at < s.items.len() {
                let meta = match result {
                    Ok(meta) => queue::MetaState::Ready(meta),
                    Err(e) => queue::MetaState::Failed(e),
                };
                lemma_with_item_sound(fewer, at, QueueItem { meta, ..s.items[at] });
            }
        },
        Message::ThumbnailFetched(id, result) => {
            download::lemma_place(s.items, download::with_id(id));
            let at = download::place(s.items, download::with_id(id));
            if result is Ok && at < s.items.len() {
                lemma_with_item_sound(
                    s,
                    at,
                    QueueItem { thumbnail: Some(result->Ok_0), ..s.items[at] },
                );
            }
        },
        Message::Start => {
            if !s.job && download::any_waiting(s) {
                let clear = Screen { problem: None::<Seq<char>>, ..s };
                assert(sound(clear));
                lemma_advanced_sound(clear, outside.checks@, 0);
            }
        },
        Message::Report(event) => {
            lemma_reported_sound(s, event, outside.checks@, outside.speed);
        },
        Message::Stop => {
            lemma_noted_sound(s, Level::Warn, "Stopping the download..."@);
        },
        _ => {},
    }
}

/// The screen starts sound, and stays so when the last session's queue is brought back.
pub proof fn law_the_screen_starts_sound(
    paths: Paths,
    saved: Seq<queue::Saved>,
    cookies: Seq<Option<Seq<char>>>,
)
    requires
        saved.len() <= u64::MAX,
    ensures
        sound(download::empty_screen(paths)),
        sound(download::restored(download::empty_screen(paths), saved, cookies).0),
{
    let empty = download::empty_screen(paths);
    assert(sound(empty));
    let line = "Restored "@ + text::decimal(saved.len()) + " link(s) from the last session."@;
    lemma_noted_sound(empty, Level::Info, line);
    let announced = if saved.len() == 0 {
        empty
    } else {
        download::noted(empty, Level::Info, line)
    };
    lemma_brought_back_sound(announced, saved, cookies);
}

proof fn lemma_brought_back_sound(
    s: Screen,
    saved: Seq<queue::Saved>,
    cookies: Seq<Option<Seq<char>>>,
)
    requires
        sound(s),
        s.next_id + saved.len() <= u64::MAX,
    ensures
        sound(download::brought_back(s, saved, cookies).0),
        download::brought_back(s, saved, cookies).0.next_id == s.next_id + saved.len(),
    decreases saved.len(),
{
    if saved.len() > 0 {
        lemma_brought_back_sound(s, saved.drop_last(), cookies);
        let before = download::brought_back(s, saved.drop_last(), cookies).0;
        let item = saved.last();
        lemma_pushed_sound(before, item.url, item.settings, download::revived(item));
    }
}

// ---------------------------------------------------------------------------
// The log
// ---------------------------------------------------------------------------

/// A line that keeps repeating stays one line of the log, and the last one.
pub proof fn law_a_repeated_line_is_collapsed(s: Screen, level: Level, line: Seq<char>)
    ensures
        ({
            let once = download::noted(s, level, line);
            let twice = download::noted(once, level, line);
            &&& twice.log.len() == once.log.len()
            &&& twice.repeats == once.repeats + 1
            &&& twice.log.last().text == line + "  (x"@ + text::decimal(
                (once.repeats + 2) as nat,
            ) + ")"@
            &&& twice.log.drop_last() == once.log.drop_last()
        }),
{
    let once = download::noted(s, level, line);
    let twice = download::noted(once, level, line);
    assert(once.log.len() > 0);
    assert(twice.log.drop_last() =~= once.log.drop_last());
}

/// A line that is new is the last one of the log as it is, and of the others the most recent stay.
pub proof fn law_a_new_line_is_kept_as_it_is(s: Screen, level: Level, line: Seq<char>)
    requires
        s.last != Some(Note { level, text: line }),
        s.log.len() <= MAX_LOG,
    ensures
        ({
            let t = download::noted(s, level, line);
            &&& t.log.last() == (Note { level, text: line })
            &&& t.log.len() <= MAX_LOG
            &&& t.log.drop_last() == (if s.log.len() < MAX_LOG {
                s.log
            } else {
                s.log.skip(1)
            })
        }),
{
    let t = download::noted(s, level, line);
    let note = Note { level, text: line };
    if s.log.len() < MAX_LOG {
        assert(t.log == s.log.push(note));
        assert(t.log.drop_last() =~= s.log);
    } else {
        assert(t.log =~= s.log.skip(1).push(note));
        assert(t.log.drop_last() =~= s.log.skip(1));
    }
}

// ---------------------------------------------------------------------------
// Queuing
// ---------------------------------------------------------------------------

/// Whether no link is in a queue twice.
pub open spec fn distinct(items: Seq<QueueItem<Seq<char>>>) -> bool {
    forall|i: int, j: int| 0 <= i < j < items.len() ==> items[i].url != items[j].url
}

proof fn lemma_pasted(
    s: Screen,
    links: Seq<Seq<char>>,
    valid: Seq<bool>,
    settings: Settings,
    cookies: Option<Seq<char>>,
)
    ensures
        ({
            let t = download::pasted(s, links, valid, settings, cookies).screen;
            &&& distinct(s.items) ==> distinct(t.items)
            &&& s.items.len() <= t.items.len()
            &&& forall|i: int| 0 <= i < s.items.len() ==> #[trigger] t.items[i] == s.items[i]
            &&& forall|i: int|
                s.items.len() <= i < t.items.len() ==> (#[trigger] t.items[i]).settings == settings
                    && t.items[i].status is Queued
            &&& forall|k: int|
                0 <= k < links.len() && valid[k] ==> download::has_url(t, #[trigger] links[k])
        }),
    decreases links.len(),
{
    if links.len() > 0 {
        let front = links.drop_last();
        lemma_pasted(s, front, valid, settings, cookies);
        let before = download::pasted(s, front, valid, settings, cookies).screen;
        let t = download::pasted(s, links, valid, settings, cookies).screen;
        assert forall|k: int| 0 <= k < links.len() && valid[k] implies download::has_url(
            t,
            #[trigger] links[k],
        ) by {
            if k < front.len() {
                assert(front[k] == links[k]);
                assert(download::has_url(before, front[k]));
                let i = choose|i: int|
                    0 <= i < before.items.len() && (#[trigger] before.items[i]).url == links[k];
                assert(t.items[i].url == links[k]);
            } else if !download::has_url(before, links.last()) {
                assert(t.items[t.items.len() - 1].url == links[k]);
            }
        }
    }
}

/// No link is queued twice.
pub proof fn law_no_link_is_queued_twice(
    s: Screen,
    settings: Settings,
    outside: Outside,
)
    requires
        distinct(s.items),
    ensures
        distinct(download::applied(s, Message::AddUrl, settings, outside).0.items),
{
    lemma_pasted(
        Screen { url_input: Seq::empty(), ..s },
        text::words(s.url_input),
        outside.valid@,
        settings,
        text::opt_text(outside.cookies),
    );
}

/// Every pasted link is in the queue afterwards, what was there before stays as it is, and what is
/// new waits with the settings of that moment.
pub proof fn law_every_pasted_link_is_queued(
    s: Screen,
    settings: Settings,
    outside: Outside,
    k: int,
)
    requires
        outside.valid@.len() == text::words(s.url_input).len(),
        0 <= k < outside.valid@.len(),
        outside.valid@[k],
    ensures
        ({
            let t = download::applied(s, Message::AddUrl, settings, outside).0;
            &&& download::has_url(t, text::words(s.url_input)[k])
            &&& s.items.len() <= t.items.len()
            &&& forall|i: int| 0 <= i < s.items.len() ==> #[trigger] t.items[i] == s.items[i]
            &&& forall|i: int|
                s.items.len() <= i < t.items.len() ==> (#[trigger] t.items[i]).settings == settings
                    && t.items[i].status is Queued
        }),
{
    let clear = Screen { url_input: Seq::empty(), ..s };
    let links = text::words(s.url_input);
    let jar = text::opt_text(outside.cookies);
    lemma_pasted(clear, links, outside.valid@, settings, jar);
    let p = download::pasted(clear, links, outside.valid@, settings, jar).screen;
    let t = download::applied(s, Message::AddUrl, settings, outside).0;
    assert(t.items == p.items);
    assert(download::has_url(p, links[k]));
}

/// What is no link never reaches the queue: it goes back into the box.
pub proof fn law_what_is_no_link_is_not_queued(s: Screen, settings: Settings, outside: Outside)
    requires
        outside.valid@.len() == text::words(s.url_input).len(),
        forall|k: int| 0 <= k < outside.valid@.len() ==> !(#[trigger] outside.valid@[k]),
        outside.valid@.len() > 0,
    ensures
        ({
            let (t, tasks) = download::applied(s, Message::AddUrl, settings, outside);
            &&& t.items == s.items
            &&& tasks.len() == 0
            &&& t.problem is Some
            &&& t.url_input == text::join(text::words(s.url_input), " "@)
        }),
{
    let clear = Screen { url_input: Seq::empty(), ..s };
    lemma_all_rejected(
        clear,
        text::words(s.url_input),
        outside.valid@,
        settings,
        text::opt_text(outside.cookies),
    );
}

proof fn lemma_all_rejected(
    s: Screen,
    links: Seq<Seq<char>>,
    valid: Seq<bool>,
    settings: Settings,
    cookies: Option<Seq<char>>,
)
    requires
        links.len() <= valid.len(),
        forall|k: int| 0 <= k < valid.len() ==> !(#[trigger] valid[k]),
    ensures
        ({
            let p = download::pasted(s, links, valid, settings, cookies);
            p.screen == s && p.tasks.len() == 0 && p.rejected == links && p.duplicates == 0
        }),
    decreases links.len(),
{
    if links.len() > 0 {
        lemma_all_rejected(s, links.drop_last(), valid, settings, cookies);
        assert(links.drop_last().push(links.last()) =~= links);
    } else {
        assert(links =~= Seq::empty());
    }
}

/// A lookup asks for the link what its download will ask: the same single video choice, and the
/// cookies its settings stand for.
pub proof fn law_the_lookup_asks_what_the_download_will_ask(
    s: Screen,
    url: Seq<char>,
    settings: Settings,
    cookies: Option<Seq<char>>,
)
    requires
        0 <= s.next_id <= u64::MAX,
    ensures
        ({
            let t = download::pushed(s, url, settings, ItemStatus::Queued);
            download::lookup_task(s, url, settings, cookies) matches Task::Lookup {
                id,
                url: link,
                lookup,
            } && id == t.items.last().id && link == t.items.last().url && lookup.cookies == cookies
                && lookup.single_video == (t.items.last().settings.automation.playlist is Single)
        }),
{
}

// ---------------------------------------------------------------------------
// What an item keeps
// ---------------------------------------------------------------------------

/// Whether an item goes on as the one it was: its number, its link and its settings.
pub open spec fn same_item(a: QueueItem<Seq<char>>, b: QueueItem<Seq<char>>) -> bool {
    a.id == b.id && a.url == b.url && a.settings == b.settings
}

/// Whether every item of `now` that was there before is as it was queued.
pub open spec fn keeps_settings(s: Screen, now: Seq<QueueItem<Seq<char>>>) -> bool {
    forall|i: int, j: int|
        #![trigger s.items[i], now[j]]
        0 <= i < s.items.len() && 0 <= j < now.len() && s.items[i].id == now[j].id ==> same_item(
            s.items[i],
            now[j],
        )
}

/// Whether two queues have the same items in the same places, whatever their state.
pub open spec fn in_place(
    a: Seq<QueueItem<Seq<char>>>,
    b: Seq<QueueItem<Seq<char>>>,
) -> bool {
    &&& a.len() == b.len()
    &&& forall|i: int| 0 <= i < a.len() ==> same_item(a[i], #[trigger] b[i])
}

proof fn lemma_in_place_keeps(s: Screen, now: Seq<QueueItem<Seq<char>>>)
    requires
        numbered(s.items, s.next_id),
        in_place(s.items, now),
    ensures
        keeps_settings(s, now),
{
    assert forall|i: int, j: int|
        #![trigger s.items[i], now[j]]
        0 <= i < s.items.len() && 0 <= j < now.len() && s.items[i].id == now[j].id implies same_item(
        s.items[i],
        now[j],
    ) by {
        assert(same_item(s.items[j], now[j]));
        if i < j {
            assert(s.items[i].id < s.items[j].id);
        } else if j < i {
            assert(s.items[j].id < s.items[i].id);
        }
    }
}

proof fn lemma_advanced_in_place(s: Screen, checks: Seq<Check>, from: int)
    requires
        0 <= from,
    ensures
        in_place(s.items, download::advanced(s, checks, from).0.items),
        download::advanced(s, checks, from).1.len() <= 1,
        forall|k: int|
            0 <= k < download::advanced(s, checks, from).1.len() ==> exists|i: int|
                0 <= i < s.items.len() && s.items[i].status is Queued && #[trigger] download::advanced(
                    s,
                    checks,
                    from,
                ).1[k] == download::run_task(#[trigger] s.items[i]),
    decreases s.items.len() - from,
{
    if from < s.items.len() {
        if !(s.items[from].status is Queued) {
            lemma_advanced_in_place(s, checks, from + 1);
        } else {
            let item = s.items[from];
            match checks[from].problem {
                Some(problem) => {
                    let marked = download::with_item(
                        s,
                        from,
                        download::in_state(item, ItemStatus::Failed(problem@)),
                    );
                    let skipped = download::noted(
                        marked,
                        Level::Error,
                        item.url + ": "@ + problem@,
                    );
                    lemma_advanced_in_place(skipped, checks, from + 1);
                    let (t, tasks) = download::advanced(skipped, checks, from + 1);
                    assert(download::advanced(s, checks, from) == (t, tasks));
                    assert forall|i: int| 0 <= i < s.items.len() implies same_item(
                        s.items[i],
                        #[trigger] t.items[i],
                    ) by {
                        assert(same_item(skipped.items[i], t.items[i]));
                    }
                    assert forall|k: int| 0 <= k < tasks.len() implies exists|i: int|
                        0 <= i < s.items.len() && s.items[i].status is Queued
                            && #[trigger] tasks[k] == download::run_task(#[trigger] s.items[i]) by {
                        let i = choose|i: int|
                            0 <= i < skipped.items.len() && skipped.items[i].status is Queued
                                && tasks[k] == download::run_task(#[trigger] skipped.items[i]);
                        assert(i != from);
                        assert(s.items[i] == skipped.items[i]);
                    }
                },
                None => {
                    let (t, tasks) = download::advanced(s, checks, from);
                    assert(tasks[0] == download::run_task(s.items[from]));
                    lemma_launched_in_place(s, from, checks[from]);
                },
            }
        }
    }
}

proof fn lemma_launched_in_place(s: Screen, at: int, check: Check)
    requires
        0 <= at < s.items.len(),
    ensures
        in_place(s.items, download::launched(s, at, check).items),
{
    let t = download::launched(s, at, check);
    assert(t.items == s.items.update(
        at,
        download::in_state(s.items[at], ItemStatus::Downloading(progress::nothing_yet())),
    ));
}

proof fn lemma_concluded_in_place(s: Screen, finish: Finish<Seq<char>>)
    ensures
        in_place(s.items, download::concluded(s, finish).items),
{
    if s.current is Some {
        download::lemma_place(s.items, download::with_id(s.current->0));
    }
}

proof fn lemma_filter_keeps(s: Screen, keep: spec_fn(QueueItem<Seq<char>>) -> bool)
    requires
        numbered(s.items, s.next_id),
    ensures
        keeps_settings(s, s.items.filter(keep)),
{
    seqs::lemma_kept(s.items, keep);
    let now = s.items.filter(keep);
    assert forall|i: int, j: int|
        #![trigger s.items[i], now[j]]
        0 <= i < s.items.len() && 0 <= j < now.len() && s.items[i].id == now[j].id implies same_item(
        s.items[i],
        now[j],
    ) by {
        assert(s.items.contains(now[j]));
        let k = s.items.index_of(now[j]);
        assert(s.items[k] == now[j]);
        if i < k {
            assert(s.items[i].id < s.items[k].id);
        } else if k < i {
            assert(s.items[k].id < s.items[i].id);
        }
    }
}

/// A queued link keeps the settings it was queued with: whatever the screen is told, and whatever
/// the Settings page holds by then, only the item's own kind and quality picks change them.
pub proof fn law_a_queued_link_keeps_its_settings(
    s: Screen,
    message: Message<Seq<char>>,
    settings: Settings,
    outside: Outside,
)
    requires
        sound(s),
        download::answerable(s, message, outside),
        !(message is ItemKind),
        !(message is ItemQuality),
    ensures
        keeps_settings(s, download::applied(s, message, settings, outside).0.items),
{
    let t = download::applied(s, message, settings, outside).0;
    match message {
        Message::AddUrl => {
            lemma_pasted_sound(
                Screen { url_input: Seq::empty(), ..s },
                text::words(s.url_input),
                outside.valid@,
                settings,
                text::opt_text(outside.cookies),
            );
            lemma_pasted(
                Screen { url_input: Seq::empty(), ..s },
                text::words(s.url_input),
                outside.valid@,
                settings,
                text::opt_text(outside.cookies),
            );
            assert(numbered(t.items, t.next_id));
            assert forall|i: int, j: int|
                #![trigger s.items[i], t.items[j]]
                0 <= i < s.items.len() && 0 <= j < t.items.len() && s.items[i].id
                    == t.items[j].id implies same_item(s.items[i], t.items[j]) by {
                assert(t.items[i] == s.items[i]);
                if i < j {
                    assert(t.items[i].id < t.items[j].id);
                } else if j < i {
                    assert(t.items[j].id < t.items[i].id);
                }
            }
        },
        Message::RemoveItem(id) => {
            lemma_filter_keeps(s, download::not_removed(id));
        },
        Message::ClearFinished => {
            lemma_filter_keeps(s, download::unfinished());
        },
        Message::Start => {
            if !s.job && download::any_waiting(s) {
                lemma_advanced_in_place(
                    Screen { problem: None::<Seq<char>>, ..s },
                    outside.checks@,
                    0,
                );
            }
            lemma_in_place_keeps(s, t.items);
        },
        Message::Report(Event::Finished(finish)) => {
            let done = download::concluded(s, finish);
            lemma_concluded_in_place(s, finish);
            lemma_concluded_sound(s, finish);
            if !(finish is Cancelled) {
                lemma_advanced_in_place(done, outside.checks@, 0);
                assert forall|i: int| 0 <= i < s.items.len() implies same_item(
                    s.items[i],
                    #[trigger] t.items[i],
                ) by {
                    assert(same_item(s.items[i], done.items[i]));
                }
            }
            lemma_in_place_keeps(s, t.items);
        },
        Message::Report(Event::Progress(_)) => {
            if s.current is Some {
                download::lemma_place(s.items, download::with_id(s.current->0));
            }
            lemma_in_place_keeps(s, t.items);
        },
        Message::RetryItem(id) => {
            download::lemma_place(s.items, download::with_id(id));
            lemma_in_place_keeps(s, t.items);
        },
        Message::MetadataFetched(id, _) => {
            download::lemma_place(s.items, download::with_id(id));
            lemma_in_place_keeps(s, t.items);
        },
        Message::ThumbnailFetched(id, _) => {
            download::lemma_place(s.items, download::with_id(id));
            lemma_in_place_keeps(s, t.items);
        },
        _ => {
            lemma_in_place_keeps(s, t.items);
        },
    }
}

/// What is downloaded is an item that waited, with the settings it has, and one at a time.
pub proof fn law_an_item_is_downloaded_with_its_own_settings(
    s: Screen,
    checks: Seq<Check>,
)
    ensures
        ({
            let tasks = download::moved_on(s, checks).1;
            &&& s.job ==> tasks.len() == 0
            &&& tasks.len() <= 1
            &&& forall|k: int|
                0 <= k < tasks.len() ==> exists|i: int|
                    0 <= i < s.items.len() && s.items[i].status is Queued && #[trigger] tasks[k]
                        == download::run_task(#[trigger] s.items[i])
        }),
{
    if !s.job {
        lemma_advanced_in_place(s, checks, 0);
    }
}

/// An item that already ran keeps the choices it ran with: picks change the item they are made for
/// while it waits, and nothing else.
pub proof fn law_picks_change_only_their_waiting_item(
    s: Screen,
    id: u64,
    kind: Kind,
    quality: Quality,
    settings: Settings,
    outside: Outside,
    i: int,
)
    requires
        0 <= i < s.items.len(),
        s.items[i].id != id || !(s.items[i].status is Queued),
    ensures
        download::applied(s, Message::ItemKind(id, kind), settings, outside).0.items[i]
            == s.items[i],
        download::applied(s, Message::ItemQuality(id, quality), settings, outside).0.items[i]
            == s.items[i],
{
    download::lemma_place(s.items, download::waiting_with_id(id));
}

/// An item that is downloading can be neither removed nor cleared.
pub proof fn law_a_running_item_stays(
    s: Screen,
    id: u64,
    settings: Settings,
    outside: Outside,
    i: int,
)
    requires
        0 <= i < s.items.len(),
        s.items[i].status is Downloading,
    ensures
        download::applied(s, Message::RemoveItem(id), settings, outside).0.items.contains(
            s.items[i],
        ),
        download::applied(s, Message::ClearFinished, settings, outside).0.items.contains(
            s.items[i],
        ),
{
    assert(download::not_removed(id)(s.items[i]));
    assert(download::unfinished()(s.items[i]));
}

/// Removing an item that isn't downloading drops it and keeps the others.
pub proof fn law_a_removed_item_is_gone(
    s: Screen,
    id: u64,
    settings: Settings,
    outside: Outside,
    i: int,
)
    requires
        0 <= i < s.items.len(),
    ensures
        ({
            let t = download::applied(s, Message::RemoveItem(id), settings, outside).0;
            &&& s.items[i].id != id ==> t.items.contains(s.items[i])
            &&& forall|j: int|
                0 <= j < t.items.len() ==> ((#[trigger] t.items[j]).id != id
                    || t.items[j].status is Downloading) && s.items.contains(t.items[j])
        }),
{
    seqs::lemma_kept(s.items, download::not_removed(id));
    if s.items[i].id != id {
        assert(download::not_removed(id)(s.items[i]));
    }
}

// ---------------------------------------------------------------------------
// Downloading
// ---------------------------------------------------------------------------

/// A finished file doesn't complete an item that is still running: it is noted, and the items stay
/// as they are.
pub proof fn law_a_finished_file_completes_nothing(
    s: Screen,
    path: Seq<char>,
    settings: Settings,
    outside: Outside,
)
    ensures
        ({
            let (t, tasks) = download::applied(
                s,
                Message::Report(Event::File(path)),
                settings,
                outside,
            );
            &&& t.items == s.items
            &&& t.current == s.current
            &&& t.job == s.job
            &&& t.files == s.files.push(path)
            &&& tasks.len() == 0
        }),
{
}

/// When a download ends, its item is in the state that says how: waiting again when it was
/// cancelled, failed with its reason, or completed with the last file it reported.
pub proof fn law_the_item_says_how_its_download_ended(
    s: Screen,
    finish: Finish<Seq<char>>,
    i: int,
)
    requires
        sound(s),
        0 <= i < s.items.len(),
        s.current == Some(s.items[i].id),
    ensures
        ({
            let t = download::concluded(s, finish);
            &&& t.items[i] == download::in_state(s.items[i], download::ended(finish, s.files))
            &&& forall|j: int|
                0 <= j < s.items.len() && j != i ==> #[trigger] t.items[j] == s.items[j]
            &&& !t.job && t.current is None
        }),
{
    let id = s.items[i].id;
    download::lemma_place(s.items, download::with_id(id));
    let at = download::place(s.items, download::with_id(id));
    if at < i {
        assert(download::with_id(id)(s.items[at]));
        assert(s.items[at].id < s.items[i].id);
    } else if i < at {
        assert(!download::with_id(id)(s.items[i]));
    }
}

/// One bad item doesn't block the rest of the queue: when it is moved on, either an item is
/// downloading afterwards or none is left waiting.
pub proof fn law_a_bad_item_does_not_block_the_queue(s: Screen, checks: Seq<Check>)
    ensures
        download::moved_on(s, checks).0.job || !download::any_waiting(
            download::moved_on(s, checks).0,
        ),
{
    if !s.job {
        lemma_nothing_waits(s, checks, 0);
    }
}

proof fn lemma_nothing_waits(s: Screen, checks: Seq<Check>, from: int)
    requires
        0 <= from,
        !s.job,
        forall|i: int|
            0 <= i < from && i < s.items.len() ==> !((#[trigger] s.items[i]).status is Queued),
    ensures
        download::advanced(s, checks, from).0.job || !download::any_waiting(
            download::advanced(s, checks, from).0,
        ),
    decreases s.items.len() - from,
{
    if from < s.items.len() {
        if !(s.items[from].status is Queued) {
            lemma_nothing_waits(s, checks, from + 1);
        } else {
            let item = s.items[from];
            match checks[from].problem {
                Some(problem) => {
                    let skipped = download::noted(
                        download::with_item(
                            s,
                            from,
                            download::in_state(item, ItemStatus::Failed(problem@)),
                        ),
                        Level::Error,
                        item.url + ": "@ + problem@,
                    );
                    lemma_nothing_waits(skipped, checks, from + 1);
                },
                None => {
                    assert(download::launched(s, from, checks[from]).job);
                },
            }
        }
    }
}

/// A cancelled download is not followed by another one.
pub proof fn law_cancelling_stops_the_queue(s: Screen, settings: Settings, outside: Outside)
    ensures
        ({
            let (t, tasks) = download::applied(
                s,
                Message::Report(Event::Finished(Finish::Cancelled)),
                settings,
                outside,
            );
            !t.job && tasks.len() == 0
        }),
{
}

/// A failed lookup never blocks queuing: the item stays, in the state it was in.
pub proof fn law_a_failed_lookup_leaves_the_item_queued(
    s: Screen,
    id: u64,
    e: Seq<char>,
    settings: Settings,
    outside: Outside,
)
    ensures
        ({
            let (t, tasks) = download::applied(
                s,
                Message::MetadataFetched(id, Err(e)),
                settings,
                outside,
            );
            &&& tasks.len() == 0
            &&& in_place(s.items, t.items)
            &&& forall|i: int|
                0 <= i < s.items.len() ==> (#[trigger] t.items[i]).status == s.items[i].status
        }),
{
    download::lemma_place(s.items, download::with_id(id));
}

// ---------------------------------------------------------------------------
// Between two sessions
// ---------------------------------------------------------------------------

proof fn lemma_brought_back_items(
    s: Screen,
    saved: Seq<queue::Saved>,
    cookies: Seq<Option<Seq<char>>>,
)
    ensures
        ({
            let t = download::brought_back(s, saved, cookies).0;
            &&& t.items.len() == s.items.len() + saved.len()
            &&& forall|i: int| 0 <= i < s.items.len() ==> #[trigger] t.items[i] == s.items[i]
            &&& forall|k: int|
                0 <= k < saved.len() ==> {
                    let item = #[trigger] t.items[s.items.len() + k];
                    &&& item.url == saved[k].url
                    &&& item.settings == saved[k].settings
                    &&& item.status == download::revived(saved[k])
                }
        }),
    decreases saved.len(),
{
    if saved.len() > 0 {
        let front = saved.drop_last();
        lemma_brought_back_items(s, front, cookies);
        let before = download::brought_back(s, front, cookies).0;
        let t = download::brought_back(s, saved, cookies).0;
        assert forall|k: int| 0 <= k < saved.len() implies ({
            let item = #[trigger] t.items[s.items.len() + k];
            &&& item.url == saved[k].url
            &&& item.settings == saved[k].settings
            &&& item.status == download::revived(saved[k])
        }) by {
            if k < front.len() {
                assert(t.items[s.items.len() + k] == before.items[s.items.len() + k]);
                assert(front[k] == saved[k]);
            }
        }
    }
}

/// The queue comes back after a restart: an empty screen that is given what was saved holds those
/// links in their order, with their settings, failed ones with their reason and the others waiting.
pub proof fn law_the_queue_comes_back_after_a_restart(
    s: Screen,
    paths: Paths,
    cookies: Seq<Option<Seq<char>>>,
)
    ensures
        ({
            let left = s.items.filter(download::to_do());
            let t = download::restored(
                download::empty_screen(paths),
                download::persisted(s),
                cookies,
            ).0;
            &&& t.items.len() == left.len()
            &&& forall|k: int|
                0 <= k < left.len() ==> {
                    &&& (#[trigger] t.items[k]).url == left[k].url
                    &&& t.items[k].settings == left[k].settings
                    &&& t.items[k].status == (match left[k].status {
                        ItemStatus::Failed(reason) => ItemStatus::Failed(reason),
                        _ => ItemStatus::Queued,
                    })
                }
        }),
{
    let left = s.items.filter(download::to_do());
    let saved = download::persisted(s);
    let empty = download::empty_screen(paths);
    let line = "Restored "@ + text::decimal(saved.len()) + " link(s) from the last session."@;
    let announced = if saved.len() == 0 {
        empty
    } else {
        download::noted(empty, Level::Info, line)
    };
    assert(announced.items.len() == 0);
    lemma_brought_back_items(announced, saved, cookies);
    let t = download::restored(empty, saved, cookies).0;
    assert(t == download::brought_back(announced, saved, cookies).0);
    assert forall|k: int| 0 <= k < left.len() implies ({
        &&& (#[trigger] t.items[k]).url == left[k].url
        &&& t.items[k].settings == left[k].settings
        &&& t.items[k].status == (match left[k].status {
            ItemStatus::Failed(reason) => ItemStatus::Failed(reason),
            _ => ItemStatus::Queued,
        })
    }) by {
        assert(t.items[announced.items.len() + k] == t.items[k]);
        assert(saved[k] == download::kept(left[k]));
    }
}

/// What is brought back is what would be saved again.
pub proof fn law_saving_again_saves_the_same(
    s: Screen,
    paths: Paths,
    cookies: Seq<Option<Seq<char>>>,
)
    ensures
        download::persisted(
            download::restored(
                download::empty_screen(paths),
                download::persisted(s),
                cookies,
            ).0,
        ) == download::persisted(s),
{
    let saved = download::persisted(s);
    let left = s.items.filter(download::to_do());
    let t = download::restored(download::empty_screen(paths), saved, cookies).0;
    law_the_queue_comes_back_after_a_restart(s, paths, cookies);
    assert forall|k: int| 0 <= k < t.items.len() implies download::to_do()(#[trigger] t.items[k]) by {
        let status = left[k].status;
    }
    lemma_all_kept(t.items, download::to_do());
    assert(download::persisted(t) =~= saved) by {
        assert forall|k: int| 0 <= k < saved.len() implies download::persisted(t)[k] == saved[k] by {
            assert(saved[k] == download::kept(left[k]));
            assert(download::persisted(t)[k] == download::kept(t.items[k]));
        }
    }
}

proof fn lemma_all_kept(
    items: Seq<QueueItem<Seq<char>>>,
    keep: spec_fn(QueueItem<Seq<char>>) -> bool,
)
    requires
        forall|k: int| 0 <= k < items.len() ==> keep(#[trigger] items[k]),
    ensures
        items.filter(keep) == items,
    decreases items.len(),
{
    if items.len() == 0 {
        assert(items.filter(keep) =~= items) by {
            reveal(Seq::filter);
        }
    } else {
        let rest = items.drop_last();
        assert(items =~= rest.push(items.last()));
        seqs::lemma_filter_push(rest, items.last(), keep);
        lemma_all_kept(rest, keep);
    }
}

} // verus!
