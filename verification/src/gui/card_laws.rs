//! What holds of what the Download screen shows.
use vstd::prelude::*;

use super::cards::{Picks, Picture, QueueView, StatusRow, Wording};
use super::download::{Download, Outside, Screen};
use super::progress::Progress;
use super::queue::{ItemStatus, Message, MetaState, QueueItem, Task};
use super::ui::{Label, Tone};
use super::{cards, download, laws, progress, queue, queue_laws};
use crate::config::Settings;
use crate::{seqs, text};

verus! {

/// The queue shows one card for each item, in their order, and says what to do while it is empty.
pub proof fn law_every_item_has_its_card(d: Download, wordings: Seq<Wording>)
    ensures
        ({
            let queue = cards::view_of(d, wordings).queue;
            &&& queue is Cards <==> d.items@.len() > 0
            &&& queue is Cards ==> {
                &&& queue->Cards_0.len() == d.items@.len()
                &&& forall|i: int|
                    0 <= i < d.items@.len() ==> #[trigger] queue->Cards_0[i] == cards::card_of(
                        d.items@[i],
                        wordings[i],
                    )
            }
            &&& queue is Empty ==> queue->title == "Your queue is empty."@ && queue->hint
                == "Paste a link above to get started."@
        }),
{
}

/// A card is titled with the title of its link, or with the link itself while none is known. It
/// shows the thumbnail once there is one, and until then whether it is still looked for.
pub proof fn law_a_card_is_titled_and_pictured(item: QueueItem, w: Wording)
    ensures
        ({
            let card = cards::card_of(item, w);
            &&& item.meta is Ready && item.meta->Ready_0.title@.len() > 0 ==> card.title
                == item.meta->Ready_0.title@
            &&& item.meta is Ready && item.meta->Ready_0.title@.len() == 0 ==> card.title
                == item.url@
            &&& item.meta is Fetching || item.meta is Failed ==> card.title == item.url@
            &&& item.thumbnail is Some ==> card.picture is Thumbnail
            &&& item.thumbnail is None && item.meta is Fetching ==> card.picture
                == Picture::Placeholder("..."@)
            &&& item.thumbnail is None && !(item.meta is Fetching) ==> card.picture
                == Picture::Placeholder("?"@)
        }),
{
}

/// A card lets the kind and the quality of a waiting item be picked, the quality only of a video,
/// and names what was picked once it can't be changed.
pub proof fn law_a_card_shows_the_picks_of_its_item(item: QueueItem, w: Wording)
    ensures
        ({
            let picks = cards::card_of(item, w).picks;
            let format = item.settings.format;
            &&& item.status is Queued ==> {
                &&& picks is Open
                &&& picks->kind == format.kind
                &&& format.kind is VideoAudio ==> picks->quality == Some(format.quality)
                &&& format.kind is AudioOnly ==> picks->quality is None
            }
            &&& !(item.status is Queued) ==> {
                &&& picks is Fixed
                &&& format.kind is VideoAudio ==> picks->Fixed_0 == w.kind@ + ", "@ + w.quality@
                &&& format.kind is AudioOnly ==> picks->Fixed_0 == w.kind@
            }
        }),
{
}

/// A card says what is known of its link: that it is being looked up, why it could not be, or how
/// many videos it has, how long it is and how large, as far as each is known and in that order.
pub proof fn law_a_card_tells_what_is_known(item: QueueItem, w: Wording)
    ensures
        ({
            let details = cards::card_of(item, w).details;
            &&& item.meta is Fetching ==> details == Some(
                Label { text: "Looking up this link..."@, tone: Tone::Muted },
            )
            &&& item.meta is Failed ==> details == Some(
                Label {
                    text: "Could not look this link up ("@ + item.meta->Failed_0@ + ")"@,
                    tone: Tone::Warning,
                },
            )
            &&& item.meta is Ready ==> {
                let meta = item.meta->Ready_0;
                let listed = meta.playlist is Some;
                let timed = meta.duration is Some;
                let sized = meta.approx_size is Some;
                let count = if meta.playlist == Some(Some(1u64)) {
                    "Playlist, 1 video"@
                } else if meta.playlist is Some && meta.playlist->0 is Some {
                    "Playlist, "@ + text::decimal(meta.playlist->0->0 as nat) + " videos"@
                } else {
                    "Playlist"@
                };
                let time = progress::time_text(w.seconds as nat);
                let size = w.size@;
                &&& details is None <==> !listed && !timed && !sized
                &&& details is Some ==> {
                    &&& details->0.tone is Muted
                    &&& details->0.text == (if listed && timed && sized {
                        count + "   "@ + time + "   "@ + size
                    } else if listed && timed {
                        count + "   "@ + time
                    } else if listed && sized {
                        count + "   "@ + size
                    } else if timed && sized {
                        time + "   "@ + size
                    } else if listed {
                        count
                    } else if timed {
                        time
                    } else {
                        size
                    })
                }
            }
        }),
{
    if item.meta is Ready {
        let meta = item.meta->Ready_0@;
        let parts = cards::parts_of(meta, w);
        lemma_join_few(parts);
        assert(item.meta@ == MetaState::Ready(meta));
    }
}

/// Up to three texts with a gap between them.
proof fn lemma_join_few(parts: Seq<Seq<char>>)
    requires
        parts.len() <= 3,
    ensures
        parts.len() == 1 ==> text::join(parts, "   "@) == parts[0],
        parts.len() == 2 ==> text::join(parts, "   "@) == parts[0] + "   "@ + parts[1],
        parts.len() == 3 ==> text::join(parts, "   "@) == parts[0] + "   "@ + parts[1] + "   "@
            + parts[2],
{
    reveal_with_fuel(text::join, 4);
    if parts.len() >= 1 {
        assert(parts.drop_last().len() == parts.len() - 1);
    }
    if parts.len() == 2 {
        assert(text::join(parts, "   "@) =~= parts[0] + "   "@ + parts[1]);
    }
    if parts.len() == 3 {
        assert(text::join(parts, "   "@) =~= parts[0] + "   "@ + parts[1] + "   "@ + parts[2]);
    }
}

/// A card says how its item stands: waiting; downloading, with how much of it is there and, as far
/// as known, how fast it comes and how long it still takes; completed, with a button for its file
/// where there is one; or failed, with the reason and a button to try it again.
pub proof fn law_a_card_tells_how_its_item_stands(item: QueueItem, w: Wording)
    ensures
        ({
            let row = cards::card_of(item, w).status;
            match item.status {
                ItemStatus::Queued => row == StatusRow::Text(
                    Label { text: "Queued"@, tone: Tone::Muted },
                ),
                ItemStatus::Downloading(p) => {
                    let line = row->Progress_0;
                    let rate = "  at "@ + w.speed@ + " MB/s"@;
                    let left = "  "@ + progress::time_text(p.eta->0 as nat) + " left"@;
                    &&& row is Progress
                    &&& line.heading == (if p.done {
                        "Processing"@
                    } else {
                        "Downloading"@
                    })
                    &&& line.details == (if p.speed is Some && p.eta is Some && !p.done {
                        w.amount@ + rate + left
                    } else if p.speed is Some {
                        w.amount@ + rate
                    } else if p.eta is Some && !p.done {
                        w.amount@ + left
                    } else {
                        w.amount@
                    })
                },
                ItemStatus::Completed { path } => {
                    let done = Label { text: "Completed"@, tone: Tone::Success };
                    match path {
                        None => row == StatusRow::Text(done),
                        Some(path) => {
                            &&& row is WithButton
                            &&& row->WithButton_0 == done
                            &&& row->WithButton_1.label == "Open folder"@
                            &&& row->WithButton_1.look is Secondary
                            &&& row->WithButton_1.press == Some(Message::OpenItemFolder(path))
                        },
                    }
                },
                ItemStatus::Failed(reason) => {
                    &&& row is WithButton
                    &&& row->WithButton_0 == (Label {
                        text: "Failed: "@ + reason@,
                        tone: Tone::Danger,
                    })
                    &&& row->WithButton_1.label == "Retry"@
                    &&& row->WithButton_1.look is Secondary
                    &&& row->WithButton_1.press == Some(Message::<String>::RetryItem(item.id))
                },
            }
        }),
{
    if let ItemStatus::Downloading(p) = item.status {
        let line = cards::card_of(item, w).status->Progress_0;
        let rate = "  at "@ + w.speed@ + " MB/s"@;
        let left = "  "@ + progress::time_text(p.eta->0 as nat) + " left"@;
        if p.speed is Some && p.eta is Some && !p.done {
            assert(line.details =~= w.amount@ + rate + left);
        } else if p.speed is Some {
            assert(line.details =~= w.amount@ + rate);
        } else if p.eta is Some && !p.done {
            assert(line.details =~= w.amount@ + left);
        } else {
            assert(line.details =~= w.amount@);
        }
    }
}

/// An item is done with once it completed or failed, and in no other state.
pub proof fn law_an_item_is_done_with_when_it_completed_or_failed(status: ItemStatus, r: bool)
    requires
        call_ensures(ItemStatus::over, (&status,), r),
    ensures
        r <==> status is Completed || status is Failed,
        !r <==> status is Queued || status is Downloading,
{
}

/// A share of a download can be told of a size that is known and not 0.
pub proof fn law_a_share_needs_a_size(p: Progress)
    ensures
        cards::size_of(p) is Some <==> p.total is Some && p.total->0 > 0,
        cards::size_of(p) is Some ==> cards::size_of(p) == p.total,
{
}

/// The buttons of a card are for its own item, whatever else is in the queue: pressing `Remove`
/// takes away that item alone, pressing `Retry` makes it wait again, and its folder is that of the
/// file it was saved as.
pub proof fn law_the_buttons_of_a_card_are_for_its_item(
    d: Download,
    i: int,
    w: Wording,
    settings: Settings,
    outside: Outside,
)
    requires
        laws::sound(d.screen()),
        0 <= i < d.items@.len(),
    ensures
        ({
            let s = d.screen();
            let item = d.items@[i];
            let card = cards::card_of(item, w);
            &&& card.remove.label == "Remove"@ && card.remove.look is Secondary
            &&& card.remove.press is Some <==> !(item.status is Downloading)
            &&& card.remove.press is Some ==> {
                let (t, tasks) = download::applied(
                    s,
                    card.remove.press->0@,
                    settings,
                    outside,
                );
                &&& tasks.len() == 0
                &&& forall|other: QueueItem<Seq<char>>| #[trigger]
                    t.items.contains(other) <==> s.items.contains(other) && other != s.items[i]
            }
            &&& item.status is Failed ==> download::applied(
                s,
                card.status->WithButton_1.press->0@,
                settings,
                outside,
            ).0 == (Screen {
                items: s.items.update(
                    i,
                    QueueItem { status: ItemStatus::Queued, ..s.items[i] },
                ),
                ..s
            })
            &&& item.status is Completed && item.status->path is Some ==> download::applied(
                s,
                card.status->WithButton_1.press->0@,
                settings,
                outside,
            ) == (s, seq![Task::RevealFile(item.status->path->0@)])
        }),
{
    let s = d.screen();
    let item = d.items@[i];
    let card = cards::card_of(item, w);
    assert(s.items[i] == item@);
    assert(s.items[i].id == item.id);
    if !(item.status is Downloading) {
        assert(!(s.items[i].status is Downloading));
        queue_laws::law_removing_takes_away_one_item(s, item.id, settings, outside);
        let t = download::applied(s, card.remove.press->0@, settings, outside).0;
        assert forall|other: QueueItem<Seq<char>>| #[trigger] t.items.contains(other) <==> s.items.contains(
            other,
        ) && other != s.items[i] by {
            if s.items.contains(other) && other.id == item.id {
                let j = s.items.index_of(other);
                if j < i {
                    assert(s.items[j].id < s.items[i].id);
                } else if i < j {
                    assert(s.items[i].id < s.items[j].id);
                }
            }
        }
    }
    queue_laws::law_only_what_failed_is_tried_again(s, i, settings, outside);
}

proof fn lemma_over_count_is(items: Seq<QueueItem>, n: int)
    requires
        0 <= n <= items.len(),
    ensures
        cards::over_count(items.take(n)) == seqs::positions(
            n as nat,
            |k: int| items[k].status is Completed || items[k].status is Failed,
        ).len(),
    decreases n,
{
    let p = |k: int| items[k].status is Completed || items[k].status is Failed;
    if n == 0 {
        seqs::lemma_positions(0, p);
    } else {
        lemma_over_count_is(items, n - 1);
        seqs::lemma_positions_push((n - 1) as nat, p);
        assert(items.take(n).drop_last() =~= items.take(n - 1));
        assert(items.take(n).last() == items[n - 1]);
    }
}

/// How far the queue is: as many are done as completed or failed, of as many as there are. It is
/// said whether it runs, is done with, or waits to be started, and nothing while it is empty.
pub proof fn law_the_queue_counts_what_is_done(d: Download)
    ensures
        ({
            let total = d.items@.len();
            let done = seqs::positions(
                total,
                |k: int| d.items@[k].status is Completed || d.items@[k].status is Failed,
            ).len();
            let shown = cards::progress_of(d);
            &&& shown is None <==> total == 0
            &&& shown is Some && total <= usize::MAX ==> {
                &&& shown->0.done == done
                &&& shown->0.total == total
                &&& shown->0.summary == (if d.job {
                    "Downloading queue: "@ + (text::decimal(done) + " of "@ + text::decimal(total)
                        + " done"@)
                } else if forall|k: int|
                    0 <= k < total ==> (#[trigger] d.items@[k]).status is Completed
                        || d.items@[k].status is Failed {
                    "All done."@
                } else {
                    "Ready: "@ + (text::decimal(done) + " of "@ + text::decimal(total)
                        + " done"@)
                })
            }
        }),
{
    let items = d.items@;
    let n = items.len();
    let p = |k: int| items[k].status is Completed || items[k].status is Failed;
    lemma_over_count_is(items, n as int);
    assert(items.take(n as int) =~= items);
    seqs::lemma_positions(n, p);
    let over = seqs::positions(n, p);
    if forall|k: int|
        0 <= k < n ==> (#[trigger] items[k]).status is Completed || items[k].status is Failed {
        assert(forall|k: int| 0 <= k < n ==> #[trigger] p(k));
        lemma_all_positions(n, p);
    } else {
        let k = choose|k: int|
            0 <= k < n && !((#[trigger] items[k]).status is Completed || items[k].status is Failed);
        assert(!p(k));
        lemma_not_all_positions(n, p, k);
    }
}

proof fn lemma_all_positions(n: nat, p: spec_fn(int) -> bool)
    requires
        forall|k: int| 0 <= k < n ==> #[trigger] p(k),
    ensures
        seqs::positions(n, p).len() == n,
    decreases n,
{
    seqs::lemma_positions(n, p);
    if n > 0 {
        seqs::lemma_positions_push((n - 1) as nat, p);
        lemma_all_positions((n - 1) as nat, p);
    }
}

proof fn lemma_not_all_positions(n: nat, p: spec_fn(int) -> bool, k: int)
    requires
        0 <= k < n,
        !p(k),
    ensures
        seqs::positions(n, p).len() < n,
    decreases n,
{
    seqs::lemma_positions(n, p);
    seqs::lemma_positions_push((n - 1) as nat, p);
    seqs::lemma_positions((n - 1) as nat, p);
    if k < n - 1 {
        lemma_not_all_positions((n - 1) as nat, p, k);
    }
}

/// The buttons below the queue: it can be started while nothing runs and stopped while something
/// does, its folder can always be opened, and what is finished can be cleared once something is.
/// What went wrong comes before that it is working.
pub proof fn law_the_buttons_below_the_queue_fit_it(d: Download)
    ensures
        ({
            let a = cards::actions_of(d);
            &&& d.job ==> a.main.label == "Stop"@ && a.main.look is Danger && a.main.press == Some(
                Message::<String>::Stop,
            )
            &&& !d.job ==> a.main.label == "Download"@ && a.main.look is Main && a.main.press
                == Some(Message::<String>::Start)
            &&& a.open_folder.label == "Open folder"@ && a.open_folder.look is Secondary
            &&& a.open_folder.press == Some(Message::<String>::OpenFolder)
            &&& a.clear is Some <==> exists|k: int|
                0 <= k < d.items@.len() && ((#[trigger] d.items@[k]).status is Completed
                    || d.items@[k].status is Failed)
            &&& a.clear is Some ==> a.clear->0.label == "Clear finished"@ && a.clear->0.look
                is Secondary && a.clear->0.press == Some(Message::<String>::ClearFinished)
            &&& d.problem is Some ==> a.remark == Some(
                Label { text: d.problem->0@, tone: Tone::Danger },
            )
            &&& d.problem is None && d.job ==> a.remark == Some(
                Label { text: "Working..."@, tone: Tone::Muted },
            )
            &&& d.problem is None && !d.job ==> a.remark is None
        }),
{
    let items = d.items@;
    let n = items.len();
    let p = |k: int| items[k].status is Completed || items[k].status is Failed;
    lemma_over_count_is(items, n as int);
    assert(items.take(n as int) =~= items);
    seqs::lemma_positions(n, p);
    let over = seqs::positions(n, p);
    if exists|k: int|
        0 <= k < n && ((#[trigger] items[k]).status is Completed || items[k].status is Failed) {
        let k = choose|k: int|
            0 <= k < n && ((#[trigger] items[k]).status is Completed || items[k].status is Failed);
        assert(p(k));
        assert(over.contains(k));
    }
    if over.len() > 0 {
        assert(p(over[0]));
        assert(0 <= over[0] < n);
        assert(items[over[0]].status is Completed || items[over[0]].status is Failed);
    }
}

/// Above the queue are the box with what is typed into it and the button that adds it. Below it are
/// its buttons and how far it is.
pub proof fn law_the_screen_shows_what_it_holds(d: Download, wordings: Seq<Wording>)
    ensures
        ({
            let v = cards::view_of(d, wordings);
            &&& v.placeholder == "Paste a video or playlist link..."@
            &&& v.input == d.url_input@
            &&& v.add.label == "Add"@ && v.add.look is Main && v.add.press == Some(
                Message::<String>::AddUrl,
            )
            &&& v.actions == cards::actions_of(d)
            &&& v.progress == cards::progress_of(d)
            &&& v.no_activity
                == "Nothing yet. Every step of the download will be listed here."@
        }),
{
}

/// A card is what it is described as.
pub proof fn law_a_card_is_what_it_is_described_as(card: cards::ItemCard)
    ensures
        card@.title == card.title@,
        match card.picture {
            Picture::Thumbnail => card@.picture is Thumbnail,
            Picture::Placeholder(glyph) => card@.picture == Picture::Placeholder(glyph@),
        },
        match card.picks {
            Picks::Open { kind, quality } => card@.picks == (Picks::<Seq<char>>::Open {
                kind,
                quality,
            }),
            Picks::Fixed(line) => card@.picks == Picks::Fixed(line@),
        },
        card@.details is Some <==> card.details is Some,
        card.details is Some ==> card@.details->0.text == card.details->0.text@
            && card@.details->0.tone == card.details->0.tone,
        match card.status {
            StatusRow::Text(label) => {
                &&& card@.status is Text
                &&& card@.status->Text_0.text == label.text@
                &&& card@.status->Text_0.tone == label.tone
            },
            StatusRow::Progress(line) => {
                &&& card@.status is Progress
                &&& card@.status->Progress_0.heading == line.heading@
                &&& card@.status->Progress_0.details == line.details@
            },
            StatusRow::WithButton(label, button) => {
                &&& card@.status is WithButton
                &&& card@.status->WithButton_0.text == label.text@
                &&& card@.status->WithButton_0.tone == label.tone
                &&& card@.status->WithButton_1.label == button.label@
                &&& card@.status->WithButton_1.look == button.look
                &&& card@.status->WithButton_1.press == button.press
            },
        },
        card@.remove.label == card.remove.label@,
        card@.remove.look == card.remove.look,
        card@.remove.press == card.remove.press,
{
}

/// The screen is what it is described as.
pub proof fn law_the_screen_is_what_it_is_described_as(v: cards::ScreenView)
    ensures
        v@.placeholder == v.placeholder@ && v@.input == v.input@ && v@.no_activity
            == v.no_activity@,
        v@.add.label == v.add.label@ && v@.add.look == v.add.look && v@.add.press == v.add.press,
        match v.queue {
            QueueView::Empty { title, hint } => {
                &&& v@.queue is Empty
                &&& v@.queue->title == title@
                &&& v@.queue->hint == hint@
            },
            QueueView::Cards(all) => {
                &&& v@.queue is Cards
                &&& v@.queue->Cards_0.len() == all@.len()
                &&& forall|i: int|
                    0 <= i < all@.len() ==> #[trigger] v@.queue->Cards_0[i] == all@[i]@
            },
        },
        v@.progress is Some <==> v.progress is Some,
        v.progress is Some ==> {
            &&& v@.progress->0.summary == v.progress->0.summary@
            &&& v@.progress->0.done == v.progress->0.done
            &&& v@.progress->0.total == v.progress->0.total
        },
        v@.actions == v.actions@,
{
}

/// The buttons below the queue are what they are described as.
pub proof fn law_the_actions_are_what_they_are_described_as(a: cards::Actions)
    ensures
        a@.main.label == a.main.label@ && a@.main.look == a.main.look && a@.main.press
            == a.main.press,
        a@.open_folder.label == a.open_folder.label@ && a@.open_folder.look == a.open_folder.look
            && a@.open_folder.press == a.open_folder.press,
        a@.clear is Some <==> a.clear is Some,
        a.clear is Some ==> a@.clear->0.label == a.clear->0.label@ && a@.clear->0.look
            == a.clear->0.look && a@.clear->0.press == a.clear->0.press,
        a@.remark is Some <==> a.remark is Some,
        a.remark is Some ==> a@.remark->0.text == a.remark->0.text@ && a@.remark->0.tone
            == a.remark->0.tone,
{
}

} // verus!
