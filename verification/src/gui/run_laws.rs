//! What holds of running the queue: what starts, what is shown of it, how it ends, and what comes
//! next.
use vstd::prelude::*;

use super::download::{Outside, Screen};
use super::progress::Progress;
use super::queue::{Check, Event, Finish, ItemStatus, Message, QueueItem, Task};
use super::{download, laws, progress, queue_laws};
use crate::config::Settings;
use crate::log::Level;
use crate::metadata::Real;
use crate::text;

verus! {

// ---------------------------------------------------------------------------
// What comes next
// ---------------------------------------------------------------------------

/// Whether the item at `k` is the first from `from` on that waits and can be downloaded.
spec fn is_next(s: Screen, checks: Seq<Check>, from: int, k: int) -> bool {
    &&& from <= k < s.items.len()
    &&& s.items[k].status is Queued
    &&& checks[k].problem is None
    &&& forall|j: int|
        from <= j < k && (#[trigger] s.items[j]).status is Queued ==> checks[j].problem is Some
}

/// What items before `to` became when those of them that cannot be downloaded were skipped.
spec fn skipped(
    before: Seq<QueueItem<Seq<char>>>,
    after: Seq<QueueItem<Seq<char>>>,
    checks: Seq<Check>,
    from: int,
    to: int,
) -> bool {
    forall|j: int|
        from <= j < to ==> #[trigger] after[j] == (if before[j].status is Queued {
            QueueItem { status: ItemStatus::Failed(checks[j].problem->0@), ..before[j] }
        } else {
            before[j]
        })
}

/// Whether only what starting an item touches differs.
spec fn only_runs(s: Screen, t: Screen) -> bool {
    t == (Screen {
        items: t.items,
        log: t.log,
        last: t.last,
        repeats: t.repeats,
        job: t.job,
        current: t.current,
        progress: t.progress,
        files: t.files,
        ..s
    })
}

#[verifier::rlimit(40)]
proof fn lemma_next(s: Screen, checks: Seq<Check>, from: int, k: int)
    requires
        0 <= from,
        is_next(s, checks, from, k),
    ensures
        ({
            let (t, tasks) = download::advanced(s, checks, from);
            let item = s.items[k];
            &&& tasks == seq![
                Task::Run { id: item.id, url: item.url, settings: item.settings },
            ]
            &&& t.job
            &&& t.current == Some(item.id)
            &&& t.progress == Map::<u32, Progress>::empty()
            &&& t.files == Seq::<Seq<char>>::empty()
            &&& t.items.len() == s.items.len()
            &&& t.items[k] == (QueueItem {
                status: ItemStatus::Downloading(
                    Progress {
                        stream: 0,
                        downloaded: 0,
                        total: None,
                        speed: None,
                        eta: None,
                        done: false,
                    },
                ),
                ..item
            })
            &&& skipped(s.items, t.items, checks, from, k)
            &&& forall|j: int| 0 <= j < from ==> #[trigger] t.items[j] == s.items[j]
            &&& forall|j: int| k < j < s.items.len() ==> #[trigger] t.items[j] == s.items[j]
            &&& only_runs(s, t)
        }),
    decreases k - from,
{
    if from < k {
        let item = s.items[from];
        if !(item.status is Queued) {
            lemma_next(s, checks, from + 1, k);
        } else {
            let problem = checks[from].problem->0@;
            let marked = download::with_item(
                s,
                from,
                download::in_state(item, ItemStatus::Failed(problem)),
            );
            let told = download::noted(marked, Level::Error, item.url + ": "@ + problem);
            assert(told.items == marked.items);
            assert forall|j: int|
                from + 1 <= j < k && (#[trigger] told.items[j]).status is Queued implies checks[j].problem is Some by {
                assert(told.items[j] == s.items[j]);
            }
            assert(is_next(told, checks, from + 1, k));
            lemma_next(told, checks, from + 1, k);
            let t = download::advanced(s, checks, from).0;
            assert(t.items[from] == told.items[from]);
            assert forall|j: int| from <= j < k implies #[trigger] t.items[j] == (if s.items[j].status is Queued {
                QueueItem { status: ItemStatus::Failed(checks[j].problem->0@), ..s.items[j] }
            } else {
                s.items[j]
            }) by {
                if j > from {
                    assert(told.items[j] == s.items[j]);
                }
            }
        }
    }
}

#[verifier::rlimit(40)]
proof fn lemma_none_next(s: Screen, checks: Seq<Check>, from: int)
    requires
        0 <= from <= s.items.len(),
        forall|j: int|
            from <= j < s.items.len() && (#[trigger] s.items[j]).status is Queued
                ==> checks[j].problem is Some,
    ensures
        ({
            let (t, tasks) = download::advanced(s, checks, from);
            &&& tasks.len() == 0
            &&& t.items.len() == s.items.len()
            &&& skipped(s.items, t.items, checks, from, s.items.len() as int)
            &&& forall|j: int| 0 <= j < from ==> #[trigger] t.items[j] == s.items[j]
            &&& t == (Screen {
                items: t.items,
                log: t.log,
                last: t.last,
                repeats: t.repeats,
                ..s
            })
        }),
    decreases s.items.len() - from,
{
    if from < s.items.len() {
        let item = s.items[from];
        if !(item.status is Queued) {
            lemma_none_next(s, checks, from + 1);
        } else {
            let problem = checks[from].problem->0@;
            let marked = download::with_item(
                s,
                from,
                download::in_state(item, ItemStatus::Failed(problem)),
            );
            let told = download::noted(marked, Level::Error, item.url + ": "@ + problem);
            assert(told.items == marked.items);
            assert forall|j: int|
                from + 1 <= j < told.items.len() && (#[trigger] told.items[j]).status is Queued implies checks[j].problem is Some by {
                assert(told.items[j] == s.items[j]);
            }
            lemma_none_next(told, checks, from + 1);
            let t = download::advanced(s, checks, from).0;
            assert(t.items[from] == told.items[from]);
            assert forall|j: int| from <= j < s.items.len() implies #[trigger] t.items[j] == (if s.items[j].status is Queued {
                QueueItem { status: ItemStatus::Failed(checks[j].problem->0@), ..s.items[j] }
            } else {
                s.items[j]
            }) by {
                if j > from {
                    assert(told.items[j] == s.items[j]);
                }
            }
        }
    }
}

/// There is a next item, or there is none.
proof fn lemma_find_next(s: Screen, checks: Seq<Check>, from: int) -> (k: int)
    requires
        0 <= from <= s.items.len(),
    ensures
        from <= k <= s.items.len(),
        k < s.items.len() ==> is_next(s, checks, from, k),
        k == s.items.len() ==> forall|j: int|
            from <= j < s.items.len() && (#[trigger] s.items[j]).status is Queued
                ==> checks[j].problem is Some,
    decreases s.items.len() - from,
{
    if from == s.items.len() || (s.items[from].status is Queued && checks[from].problem is None) {
        from
    } else {
        lemma_find_next(s, checks, from + 1)
    }
}

/// What comes before the first waiting item does not matter for what is started.
proof fn lemma_to_first_waiting(s: Screen, checks: Seq<Check>, from: int, to: int)
    requires
        0 <= from <= to <= s.items.len(),
        forall|j: int| from <= j < to ==> !((#[trigger] s.items[j]).status is Queued),
    ensures
        download::advanced(s, checks, from) == download::advanced(s, checks, to),
    decreases to - from,
{
    if from < to {
        lemma_to_first_waiting(s, checks, from + 1, to);
    }
}

/// Where the item with the number of the one that runs is.
proof fn lemma_runs_at(s: Screen) -> (i: int)
    requires
        laws::sound(s),
        s.current is Some,
    ensures
        0 <= i < s.items.len(),
        s.items[i].id == s.current->0,
        s.items[i].status is Downloading,
        download::place(s.items, download::with_id(s.current->0)) == i,
        forall|j: int|
            0 <= j < s.items.len() && j != i ==> !((#[trigger] s.items[j]).status is Downloading),
{
    let i = choose|i: int| 0 <= i < s.items.len() && (#[trigger] s.items[i]).id == s.current->0;
    queue_laws::lemma_found(s, i);
    assert forall|j: int| 0 <= j < s.items.len() && j != i implies !((
    #[trigger] s.items[j]).status is Downloading) by {
        assert(s.items[j].id != s.items[i].id);
    }
    i
}

/// The screen when the download of the item at `i` has just ended.
spec fn over(s: Screen, i: int, finish: Finish<Seq<char>>) -> Screen {
    let level = match finish {
        Finish::Completed => Level::Success,
        Finish::StoppedAsConfigured => Level::Success,
        Finish::Cancelled => Level::Warn,
        Finish::Failed(_) => Level::Error,
    };
    let line = match finish {
        Finish::Completed => if s.files.len() == 0 {
            "Finished, with nothing new to download"@
        } else if s.files.len() == 1 {
            "Download completed"@
        } else {
            "Download completed ("@ + text::decimal(s.files.len()) + " files)"@
        },
        Finish::StoppedAsConfigured =>
            "Stopped as configured (the limit or the history said so)"@,
        Finish::Cancelled =>
            "Download cancelled. A partial file was kept, so starting again resumes it."@,
        Finish::Failed(reason) => reason,
    };
    let status = match finish {
        Finish::Cancelled => ItemStatus::Queued,
        Finish::Failed(reason) => ItemStatus::Failed(reason),
        _ => ItemStatus::Completed {
            path: if s.files.len() == 0 {
                None
            } else {
                Some(s.files[s.files.len() - 1])
            },
        },
    };
    download::noted(
        Screen {
            job: false,
            current: None,
            progress: Map::empty(),
            items: s.items.update(i, QueueItem { status, ..s.items[i] }),
            ..s
        },
        level,
        line,
    )
}

proof fn lemma_over(s: Screen, i: int, finish: Finish<Seq<char>>)
    requires
        laws::sound(s),
        0 <= i < s.items.len(),
        s.current == Some(s.items[i].id),
    ensures
        download::concluded(s, finish) == over(s, i, finish),
{
    queue_laws::lemma_found(s, i);
    assert(download::concluded(s, finish) =~= over(s, i, finish));
}

/// The screen when a download has ended other than by being stopped, before the next starts.
proof fn lemma_after_finish(s: Screen, finish: Finish<Seq<char>>) -> (u: Screen)
    requires
        laws::sound(s),
        !(finish is Cancelled),
    ensures
        !u.job,
        u.items.len() == s.items.len(),
        forall|j: int|
            0 <= j < s.items.len() && !(s.items[j].status is Downloading)
                ==> #[trigger] u.items[j] == s.items[j],
        forall|j: int|
            0 <= j < s.items.len() ==> ((#[trigger] u.items[j]).status is Queued
                <==> s.items[j].status is Queued),
        forall|checks: Seq<Check>, speed: Option<Real>| #[trigger]
            download::reported(s, Event::Finished(finish), checks, speed) == download::advanced(
                u,
                checks,
                0,
            ),
{
    if s.current is Some {
        let i = lemma_runs_at(s);
        lemma_over(s, i, finish);
        over(s, i, finish)
    } else {
        download::concluded(s, finish)
    }
}

/// When a download has ended other than by being stopped, the queue moves on: an item downloads
/// then, or none is left waiting. One does exactly when an item waited that can be downloaded.
#[verifier::rlimit(40)]
pub proof fn law_the_queue_moves_on(
    s: Screen,
    finish: Finish<Seq<char>>,
    settings: Settings,
    outside: Outside,
)
    requires
        laws::sound(s),
        !(finish is Cancelled),
    ensures
        ({
            let (t, tasks) = download::applied(
                s,
                Message::Report(Event::Finished(finish)),
                settings,
                outside,
            );
            &&& t.job || forall|j: int|
                0 <= j < t.items.len() ==> !((#[trigger] t.items[j]).status is Queued)
            &&& tasks.len() <= 1
            &&& t.job <==> tasks.len() == 1
            &&& t.job <==> exists|k: int|
                0 <= k < s.items.len() && (#[trigger] s.items[k]).status is Queued
                    && outside.checks@[k].problem is None
        }),
{
    let checks = outside.checks@;
    let u = lemma_after_finish(s, finish);
    let t = download::reported(s, Event::Finished(finish), checks, outside.speed).0;
    let next = lemma_find_next(u, checks, 0);
    if next < u.items.len() {
        lemma_next(u, checks, 0, next);
        assert(s.items[next].status is Queued);
    } else {
        lemma_none_next(u, checks, 0);
        assert forall|k: int|
            0 <= k < s.items.len() && (#[trigger] s.items[k]).status is Queued implies checks[k].problem is Some by {
            assert(u.items[k].status is Queued);
        }
    }
}

/// What is started when a download has ended other than by being stopped is the first waiting item
/// that can be downloaded: its own download is all that is asked for, and nothing is got of it
/// yet. Those that were passed over say why, and what is behind it goes on waiting.
#[verifier::rlimit(40)]
pub proof fn law_the_next_item_is_downloaded(
    s: Screen,
    k: int,
    finish: Finish<Seq<char>>,
    settings: Settings,
    outside: Outside,
)
    requires
        laws::sound(s),
        !(finish is Cancelled),
        0 <= k < s.items.len(),
        s.items[k].status is Queued,
        outside.checks@[k].problem is None,
        forall|j: int|
            0 <= j < k && (#[trigger] s.items[j]).status is Queued
                ==> outside.checks@[j].problem is Some,
    ensures
        ({
            let (t, tasks) = download::applied(
                s,
                Message::Report(Event::Finished(finish)),
                settings,
                outside,
            );
            let item = s.items[k];
            &&& tasks == seq![Task::Run { id: item.id, url: item.url, settings: item.settings }]
            &&& t.job
            &&& t.current == Some(item.id)
            &&& t.progress == Map::<u32, Progress>::empty()
            &&& t.files.len() == 0
            &&& t.items.len() == s.items.len()
            &&& t.items[k] == (QueueItem {
                status: ItemStatus::Downloading(
                    Progress {
                        stream: 0,
                        downloaded: 0,
                        total: None,
                        speed: None,
                        eta: None,
                        done: false,
                    },
                ),
                ..item
            })
            &&& forall|j: int|
                0 <= j < s.items.len() && j != k && !(s.items[j].status is Downloading)
                    ==> #[trigger] t.items[j] == (if j < k && s.items[j].status is Queued {
                    QueueItem {
                        status: ItemStatus::Failed(outside.checks@[j].problem->0@),
                        ..s.items[j]
                    }
                } else {
                    s.items[j]
                })
        }),
{
    let checks = outside.checks@;
    let u = lemma_after_finish(s, finish);
    assert forall|j: int|
        0 <= j < k && (#[trigger] u.items[j]).status is Queued implies checks[j].problem is Some by {
        assert(s.items[j].status is Queued);
    }
    assert(is_next(u, checks, 0, k));
    lemma_next(u, checks, 0, k);
}

/// What the item that ran, and the screen, say once its download has ended, before anything else
/// starts: a stopped download waits again and starts nothing; a failed one says why; any other is
/// completed, with the last file that was saved. Nothing else changes but the log, and then the
/// queue moves on just as if it had been started by hand.
#[verifier::rlimit(40)]
pub proof fn law_a_finished_download_is_over(
    s: Screen,
    i: int,
    finish: Finish<Seq<char>>,
    settings: Settings,
    outside: Outside,
)
    requires
        laws::sound(s),
        0 <= i < s.items.len(),
        s.current == Some(s.items[i].id),
    ensures
        ({
            let r = download::applied(
                s,
                Message::Report(Event::Finished(finish)),
                settings,
                outside,
            );
            let level = match finish {
                Finish::Completed => Level::Success,
                Finish::StoppedAsConfigured => Level::Success,
                Finish::Cancelled => Level::Warn,
                Finish::Failed(_) => Level::Error,
            };
            let line = match finish {
                Finish::Completed => if s.files.len() == 0 {
                    "Finished, with nothing new to download"@
                } else if s.files.len() == 1 {
                    "Download completed"@
                } else {
                    "Download completed ("@ + text::decimal(s.files.len()) + " files)"@
                },
                Finish::StoppedAsConfigured =>
                    "Stopped as configured (the limit or the history said so)"@,
                Finish::Cancelled =>
                    "Download cancelled. A partial file was kept, so starting again resumes it."@,
                Finish::Failed(reason) => reason,
            };
            let status = match finish {
                Finish::Cancelled => ItemStatus::Queued,
                Finish::Failed(reason) => ItemStatus::Failed(reason),
                _ => ItemStatus::Completed {
                    path: if s.files.len() == 0 {
                        None
                    } else {
                        Some(s.files[s.files.len() - 1])
                    },
                },
            };
            let idle = download::noted(
                Screen {
                    job: false,
                    current: None,
                    progress: Map::empty(),
                    items: s.items.update(i, QueueItem { status, ..s.items[i] }),
                    ..s
                },
                level,
                line,
            );
            let waits = exists|j: int|
                0 <= j < s.items.len() && (#[trigger] s.items[j]).status is Queued;
            &&& finish is Cancelled || !waits ==> r == (idle, Seq::<Task<Seq<char>>>::empty())
            &&& !(finish is Cancelled) && waits ==> {
                let begun = download::applied(idle, Message::Start, settings, outside);
                r == (Screen { problem: s.problem, ..begun.0 }, begun.1)
            }
        }),
{
    lemma_over(s, i, finish);
    let idle = over(s, i, finish);
    let checks = outside.checks@;
    assert(s.items[i].status is Downloading);
    assert forall|j: int| 0 <= j < s.items.len() && j != i implies idle.items[j] == s.items[j] by {}
    if !(finish is Cancelled) {
        assert(!(idle.items[i].status is Queued));
        if exists|j: int| 0 <= j < s.items.len() && (#[trigger] s.items[j]).status is Queued {
            let j = choose|j: int|
                0 <= j < s.items.len() && (#[trigger] s.items[j]).status is Queued;
            assert(idle.items[j].status is Queued);
            lemma_problem_aside(idle, None, checks, 0);
            let clear = Screen { problem: None::<Seq<char>>, ..idle };
            let (t, tasks) = download::advanced(idle, checks, 0);
            assert(download::advanced(clear, checks, 0).0 == (Screen {
                problem: None::<Seq<char>>,
                ..t
            }));
            let n = lemma_find_next(idle, checks, 0);
            if n < idle.items.len() {
                lemma_next(idle, checks, 0, n);
            } else {
                lemma_none_next(idle, checks, 0);
            }
            assert(t.problem == s.problem);
            assert(t =~= (Screen { problem: s.problem, ..download::advanced(clear, checks, 0).0 }));
        } else {
            lemma_to_first_waiting(idle, checks, 0, idle.items.len() as int);
        }
    }
}

/// What is started does not depend on the remark at the box.
proof fn lemma_problem_aside(s: Screen, problem: Option<Seq<char>>, checks: Seq<Check>, from: int)
    requires
        0 <= from,
    ensures
        ({
            let (t, tasks) = download::advanced(s, checks, from);
            download::advanced(Screen { problem, ..s }, checks, from) == (
                Screen { problem, ..t },
                tasks,
            )
        }),
    decreases s.items.len() - from,
{
    if from < s.items.len() {
        let item = s.items[from];
        if !(item.status is Queued) {
            lemma_problem_aside(s, problem, checks, from + 1);
        } else if checks[from].problem is Some {
            let text = checks[from].problem->0@;
            let marked = download::with_item(
                s,
                from,
                download::in_state(item, ItemStatus::Failed(text)),
            );
            let told = download::noted(marked, Level::Error, item.url + ": "@ + text);
            lemma_problem_aside(told, problem, checks, from + 1);
        } else {
            assert(download::launched(Screen { problem, ..s }, from, checks[from])
                =~= (Screen { problem, ..download::launched(s, from, checks[from]) }));
        }
    }
}

/// Starting does nothing while a download runs, and asks for a link where none waits.
pub proof fn law_starting_needs_a_waiting_item(s: Screen, settings: Settings, outside: Outside)
    ensures
        ({
            let r = download::applied(s, Message::Start, settings, outside);
            let none = Seq::<Task<Seq<char>>>::empty();
            &&& s.job ==> r == (s, none)
            &&& !s.job && (forall|j: int|
                0 <= j < s.items.len() ==> !((#[trigger] s.items[j]).status is Queued)) ==> r == (
                Screen { problem: Some("Add at least one link first."@), ..s },
                none,
            )
            &&& !s.job && (exists|j: int|
                0 <= j < s.items.len() && (#[trigger] s.items[j]).status is Queued)
                ==> r.0.problem is None
        }),
{
    if !s.job && exists|j: int|
        0 <= j < s.items.len() && (#[trigger] s.items[j]).status is Queued {
        let clear = Screen { problem: None::<Seq<char>>, ..s };
        let n = lemma_find_next(clear, outside.checks@, 0);
        if n < clear.items.len() {
            lemma_next(clear, outside.checks@, 0, n);
        } else {
            lemma_none_next(clear, outside.checks@, 0);
        }
    }
}

/// Starting starts the first waiting item when it can be downloaded: a blank line sets it off from
/// what was logged before, then its link and where it is saved are named, and why it gets no
/// thumbnail when it asked for one that its file cannot hold.
pub proof fn law_starting_announces_the_first_waiting_item(
    s: Screen,
    k: int,
    settings: Settings,
    outside: Outside,
)
    requires
        !s.job,
        0 <= k < s.items.len(),
        s.items[k].status is Queued,
        forall|j: int| 0 <= j < k ==> !((#[trigger] s.items[j]).status is Queued),
        outside.checks@[k].problem is None,
    ensures
        ({
            let item = s.items[k];
            let check = outside.checks@[k];
            let begun = Screen {
                problem: None,
                job: true,
                current: Some(item.id),
                files: Seq::empty(),
                progress: Map::empty(),
                items: s.items.update(
                    k,
                    QueueItem {
                        status: ItemStatus::Downloading(
                            Progress {
                                stream: 0,
                                downloaded: 0,
                                total: None,
                                speed: None,
                                eta: None,
                                done: false,
                            },
                        ),
                        ..item
                    },
                ),
                ..s
            };
            let apart = if s.log.len() > 0 {
                download::noted(begun, Level::Info, Seq::empty())
            } else {
                begun
            };
            let named = download::noted(apart, Level::Download, item.url);
            let placed = download::noted(named, Level::Info, "Saving into: "@ + check.output_dir@);
            let told = if check.no_thumbnail is Some {
                download::noted(
                    placed,
                    Level::Info,
                    "No thumbnail: a ."@ + check.no_thumbnail->0@ + " file can't hold one."@,
                )
            } else {
                placed
            };
            download::applied(s, Message::Start, settings, outside) == (
                told,
                seq![Task::Run { id: item.id, url: item.url, settings: item.settings }],
            )
        }),
{
    let clear = Screen { problem: None::<Seq<char>>, ..s };
    lemma_to_first_waiting(clear, outside.checks@, 0, k);
}

/// An item that cannot be downloaded is marked as failed with the reason, which is logged beside
/// its link, and starting goes on as if it had been so before.
pub proof fn law_starting_passes_over_a_bad_item(
    s: Screen,
    k: int,
    settings: Settings,
    outside: Outside,
)
    requires
        !s.job,
        0 <= k < s.items.len(),
        s.items[k].status is Queued,
        forall|j: int| 0 <= j < k ==> !((#[trigger] s.items[j]).status is Queued),
        outside.checks@[k].problem is Some,
    ensures
        ({
            let item = s.items[k];
            let reason = outside.checks@[k].problem->0@;
            let told = download::noted(
                Screen {
                    problem: None,
                    items: s.items.update(
                        k,
                        QueueItem { status: ItemStatus::Failed(reason), ..item },
                    ),
                    ..s
                },
                Level::Error,
                item.url + ": "@ + reason,
            );
            let r = download::applied(s, Message::Start, settings, outside);
            if exists|j: int| k < j < s.items.len() && (#[trigger] s.items[j]).status is Queued {
                r == download::applied(told, Message::Start, settings, outside)
            } else {
                r == (told, Seq::<Task<Seq<char>>>::empty())
            }
        }),
{
    let checks = outside.checks@;
    let clear = Screen { problem: None::<Seq<char>>, ..s };
    lemma_to_first_waiting(clear, checks, 0, k);
    let item = s.items[k];
    let reason = checks[k].problem->0@;
    let told = download::noted(
        download::with_item(clear, k, download::in_state(item, ItemStatus::Failed(reason))),
        Level::Error,
        item.url + ": "@ + reason,
    );
    assert(told.problem is None && !told.job);
    assert(told =~= (Screen { problem: None, ..told }));
    assert(forall|j: int| 0 <= j < s.items.len() && j != k ==> told.items[j] == s.items[j]);
    lemma_to_first_waiting(told, checks, 0, k + 1);
    if exists|j: int| k < j < s.items.len() && (#[trigger] s.items[j]).status is Queued {
        let j = choose|j: int|
            k < j < s.items.len() && (#[trigger] s.items[j]).status is Queued;
        assert(told.items[j].status is Queued);
    } else {
        lemma_to_first_waiting(told, checks, k + 1, told.items.len() as int);
    }
}

// ---------------------------------------------------------------------------
// What is shown while it runs
// ---------------------------------------------------------------------------

/// What is shown of the item that downloads after a report of progress: everything that its
/// streams reported last, taken together. The bytes are those of all streams, the size is theirs
/// when every one of them is known, the time left is the longest that is known and not 0, and it
/// is done when every stream is. No other item changes, and neither does anything else.
#[verifier::rlimit(40)]
pub proof fn law_progress_is_that_of_all_streams(
    s: Screen,
    i: int,
    part: Progress,
    keys: Seq<u32>,
    settings: Settings,
    outside: Outside,
)
    requires
        laws::sound(s),
        0 <= i < s.items.len(),
        s.current == Some(s.items[i].id),
        forall|a: int, b: int| 0 <= a < b < keys.len() ==> keys[a] < keys[b],
        keys.to_set() == s.progress.insert(part.stream, part).dom(),
        keys.fold_left(
            0int,
            |sum: int, k: u32| sum + s.progress.insert(part.stream, part)[k].downloaded,
        ) <= u64::MAX,
        (forall|k: u32|
            keys.contains(k) ==> (#[trigger] s.progress.insert(part.stream, part)[k]).total is Some)
            ==> keys.fold_left(
            0int,
            |sum: int, k: u32| sum + s.progress.insert(part.stream, part)[k].total->0,
        ) <= u64::MAX,
    ensures
        ({
            let all = s.progress.insert(part.stream, part);
            let (t, tasks) = download::applied(
                s,
                Message::Report(Event::Progress(part)),
                settings,
                outside,
            );
            let shown = t.items[i].status->Downloading_0;
            &&& tasks.len() == 0
            &&& t.progress == all
            &&& t == (Screen { progress: t.progress, items: t.items, ..s })
            &&& t.items == s.items.update(
                i,
                QueueItem { status: ItemStatus::Downloading(shown), ..s.items[i] },
            )
            &&& shown.stream == 0
            &&& shown.downloaded == keys.fold_left(
                0int,
                |sum: int, k: u32| sum + all[k].downloaded,
            )
            &&& shown.total is Some <==> forall|k: u32|
                all.dom().contains(k) ==> (#[trigger] all[k]).total is Some
            &&& shown.total is Some ==> shown.total->0 == keys.fold_left(
                0int,
                |sum: int, k: u32| sum + all[k].total->0,
            )
            &&& shown.eta is Some <==> exists|k: u32|
                all.dom().contains(k) && (#[trigger] all[k]).eta is Some && all[k].eta->0 > 0
            &&& shown.eta is Some ==> shown.eta->0 > 0
            &&& shown.eta is Some ==> exists|k: u32|
                all.dom().contains(k) && (#[trigger] all[k]).eta == shown.eta
            &&& forall|k: u32|
                all.dom().contains(k) && (#[trigger] all[k]).eta is Some && all[k].eta->0 > 0
                    ==> shown.eta is Some && all[k].eta->0 <= shown.eta->0
            &&& shown.done <==> forall|k: u32| all.dom().contains(k) ==> (#[trigger] all[k]).done
            &&& shown.speed == outside.speed
        }),
{
    let all = s.progress.insert(part.stream, part);
    queue_laws::lemma_found(s, i);
    assert(s.items[i].status is Downloading);
    assert forall|k: u32| #[trigger] all.dom().contains(k) <==> keys.contains(k) by {
        assert(keys.to_set().contains(k) <==> keys.contains(k));
    }
    progress::law_streams_add_up(all, keys, outside.speed);
}

/// A report that comes while nothing downloads changes no item: progress is remembered by its
/// stream, and an end is logged and starts nothing when it was asked for.
pub proof fn law_a_report_without_a_download_changes_no_item(
    s: Screen,
    part: Progress,
    settings: Settings,
    outside: Outside,
)
    requires
        laws::sound(s),
        s.current is None,
    ensures
        ({
            let none = Seq::<Task<Seq<char>>>::empty();
            &&& download::applied(s, Message::Report(Event::Progress(part)), settings, outside)
                == (Screen { progress: s.progress.insert(part.stream, part), ..s }, none)
            &&& download::applied(
                s,
                Message::Report(Event::Finished(Finish::Cancelled)),
                settings,
                outside,
            ) == (
                download::noted(
                    Screen { progress: Map::empty(), ..s },
                    Level::Warn,
                    "Download cancelled. A partial file was kept, so starting again resumes it."@,
                ),
                none,
            )
        }),
{
    assert(Screen { job: false, progress: Map::empty(), current: None, ..s } =~= (Screen {
        progress: Map::empty(),
        ..s
    }));
}

/// The screen after one report of progress after another.
pub open spec fn after_reports(
    s: Screen,
    parts: Seq<Progress>,
    settings: Settings,
    outside: Outside,
) -> Screen
    decreases parts.len(),
{
    if parts.len() == 0 {
        s
    } else {
        download::applied(
            after_reports(s, parts.drop_last(), settings, outside),
            Message::Report(Event::Progress(parts.last())),
            settings,
            outside,
        ).0
    }
}

/// However many reports come, what counts of a stream is its latest one: a stream is known once it
/// has reported, and of two reports of one stream the later stands.
pub proof fn law_the_latest_report_of_a_stream_counts(
    s: Screen,
    parts: Seq<Progress>,
    settings: Settings,
    outside: Outside,
)
    requires
        s.progress == Map::<u32, Progress>::empty(),
    ensures
        ({
            let t = after_reports(s, parts, settings, outside);
            &&& forall|k: u32| #[trigger]
                t.progress.dom().contains(k) <==> exists|i: int|
                    0 <= i < parts.len() && (#[trigger] parts[i]).stream == k
            &&& forall|i: int|
                0 <= i < parts.len() && (forall|j: int|
                    i < j < parts.len() ==> (#[trigger] parts[j]).stream
                        != parts[i].stream) ==> t.progress[(#[trigger] parts[i]).stream]
                    == parts[i]
        }),
    decreases parts.len(),
{
    if parts.len() > 0 {
        let front = parts.drop_last();
        law_the_latest_report_of_a_stream_counts(s, front, settings, outside);
        let u = after_reports(s, front, settings, outside);
        let t = after_reports(s, parts, settings, outside);
        let part = parts.last();
        assert(t.progress == u.progress.insert(part.stream, part));
        assert forall|k: u32| #[trigger] t.progress.dom().contains(k) <==> exists|i: int|
            0 <= i < parts.len() && (#[trigger] parts[i]).stream == k by {
            if exists|i: int| 0 <= i < front.len() && (#[trigger] front[i]).stream == k {
                let i = choose|i: int| 0 <= i < front.len() && (#[trigger] front[i]).stream == k;
                assert(parts[i].stream == k);
            }
            if exists|i: int| 0 <= i < parts.len() && (#[trigger] parts[i]).stream == k {
                let i = choose|i: int| 0 <= i < parts.len() && (#[trigger] parts[i]).stream == k;
                if i < front.len() {
                    assert(front[i].stream == k);
                }
            }
            if k == part.stream {
                assert(parts[parts.len() - 1].stream == k);
            }
        }
        assert forall|i: int|
            0 <= i < parts.len() && (forall|j: int|
                i < j < parts.len() ==> (#[trigger] parts[j]).stream
                    != parts[i].stream) implies t.progress[(#[trigger] parts[i]).stream]
            == parts[i] by {
            if i < front.len() {
                assert(parts[parts.len() - 1].stream != parts[i].stream);
                assert forall|j: int| i < j < front.len() implies (#[trigger] front[j]).stream
                    != front[i].stream by {
                    assert(parts[j].stream != parts[i].stream);
                }
                assert(u.progress[front[i].stream] == front[i]);
            }
        }
    }
}

/// Only a report of progress, and a download that starts or ends, changes what is known of the
/// streams.
pub proof fn law_nothing_else_touches_the_streams(
    s: Screen,
    message: Message<Seq<char>>,
    settings: Settings,
    outside: Outside,
)
    requires
        !(message is Start),
        !(message is Report && (message->Report_0 is Progress || message->Report_0 is Finished)),
        0 <= s.next_id,
        message is AddUrl ==> outside.valid@.len() == text::words(s.url_input).len(),
        message is AddUrl ==> s.next_id + outside.valid@.len() <= u64::MAX,
    ensures
        download::applied(s, message, settings, outside).0.progress == s.progress,
        download::applied(s, message, settings, outside).0.current == s.current,
        download::applied(s, message, settings, outside).0.job == s.job,
{
    if message is AddUrl {
        queue_laws::law_new_links_are_queued_in_their_order(s, settings, outside);
    }
}

/// A saved file and a line of the tool are logged, the file is remembered as the last one, and
/// nothing else changes.
pub proof fn law_what_the_tool_says_is_logged(
    s: Screen,
    level: Level,
    line: Seq<char>,
    settings: Settings,
    outside: Outside,
)
    ensures
        ({
            let none = Seq::<Task<Seq<char>>>::empty();
            let said = download::noted(s, Level::Okay, "Saved: "@ + line);
            &&& download::applied(s, Message::Report(Event::Log(level, line)), settings, outside)
                == (download::noted(s, level, line), none)
            &&& download::applied(s, Message::Report(Event::File(line)), settings, outside) == (
                Screen { files: s.files.push(line), ..said },
                none,
            )
        }),
{
}

/// Stopping asks for the download to be cancelled, and says so, exactly while one runs. The item
/// goes on downloading until the tool has ended.
pub proof fn law_stopping_cancels_what_runs(s: Screen, settings: Settings, outside: Outside)
    ensures
        ({
            let r = download::applied(s, Message::Stop, settings, outside);
            &&& s.job ==> r == (
                download::noted(s, Level::Warn, "Stopping the download..."@),
                seq![Task::<Seq<char>>::Cancel],
            )
            &&& !s.job ==> r == (s, Seq::<Task<Seq<char>>>::empty())
        }),
{
}

/// Opening a folder asks for just that, and what is typed into the box is in it: neither changes
/// anything else.
pub proof fn law_typing_and_opening_change_nothing_else(
    s: Screen,
    value: Seq<char>,
    settings: Settings,
    outside: Outside,
)
    ensures
        download::applied(s, Message::UrlInput(value), settings, outside) == (
            Screen { url_input: value, ..s },
            Seq::<Task<Seq<char>>>::empty(),
        ),
        download::applied(s, Message::OpenFolder, settings, outside) == (
            s,
            seq![Task::<Seq<char>>::OpenFolder],
        ),
        download::applied(s, Message::OpenItemFolder(value), settings, outside) == (
            s,
            seq![Task::RevealFile(value)],
        ),
{
}

// ---------------------------------------------------------------------------
// The log
// ---------------------------------------------------------------------------

/// A line is the last of the log, at its level, unless it repeats the one before it: then that one
/// says how often it came. What was logged before stays, but for the oldest line of a full log.
/// Nothing but the log changes.
pub proof fn law_a_line_is_the_last_of_the_log(s: Screen, level: Level, line: Seq<char>)
    requires
        s.log.len() <= 2000,
        s.repeats >= 0,
    ensures
        ({
            let t = download::noted(s, level, line);
            let again = s.log.len() > 0 && s.last is Some && s.last->0.level == level
                && s.last->0.text == line;
            &&& t == (Screen { log: t.log, last: t.last, repeats: t.repeats, ..s })
            &&& t.last is Some && t.last->0.level == level && t.last->0.text == line
            &&& t.log.len() > 0 && t.log.last().level == level
            &&& again ==> {
                &&& t.repeats == s.repeats + 1
                &&& t.log.last().text == line + "  (x"@ + text::decimal(
                    (s.repeats + 2) as nat,
                ) + ")"@
                &&& t.log.drop_last() == s.log.drop_last()
            }
            &&& !again ==> {
                &&& t.repeats == 0
                &&& t.log.last().text == line
                &&& s.log.len() < 2000 ==> t.log.drop_last() == s.log
                &&& s.log.len() == 2000 ==> t.log.drop_last() == s.log.skip(1)
            }
        }),
{
    let t = download::noted(s, level, line);
    if s.log.len() > 0 && s.last is Some && s.last->0.level == level && s.last->0.text == line {
        assert(s.last->0 == crate::log::Note { level, text: line });
        assert(t.log.drop_last() =~= s.log.drop_last());
    } else {
        let more = s.log.push(crate::log::Note { level, text: line });
        if s.log.len() < 2000 {
            assert(t.log.drop_last() =~= s.log);
        } else {
            assert(t.log.drop_last() =~= s.log.skip(1));
        }
    }
}

} // verus!
