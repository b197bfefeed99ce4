//! What the Download screen shows: the cards of the queue, the buttons below it and how far it is.
//!
//! Sizes, speeds and shares are worded by the application, which has the numbers for it, and
//! handed in as a [`Wording`]; what is shown of them, and when, is decided here.
use vstd::prelude::*;

use super::download::Download;
use super::progress;
use super::progress::{duration, Progress};
use super::queue::{ItemStatus, Message, MetaState, QueueItem};
use super::ui::{button, label, Button, Label, Look, Tone};
use crate::config::{Kind, Quality};
use crate::metadata::Metadata;
use crate::text;

verus! {

/// How the numbers and choices of an item are put into words.
#[derive(Debug, Clone, PartialEq, Eq)]
pub struct Wording {
    /// The length of the video, in whole seconds.
    pub seconds: u64,
    /// Its approximate size.
    pub size: String,
    /// What its kind is called.
    pub kind: String,
    /// What its quality is called, in lower case.
    pub quality: String,
    /// How much of it is there.
    pub amount: String,
    /// How fast it comes in.
    pub speed: String,
}

/// The picture of a card.
#[derive(Debug, Clone, PartialEq, Eq)]
pub enum Picture<T = String> {
    /// The item's own thumbnail.
    Thumbnail,
    /// A placeholder, while it loads or when there is none.
    Placeholder(T),
}

/// The quick picks of a card.
#[derive(Debug, Clone, PartialEq, Eq)]
pub enum Picks<T = String> {
    /// Lists to choose from: the kind, and the quality where that means anything.
    Open { kind: Kind, quality: Option<Quality> },
    /// What was chosen.
    Fixed(T),
}

/// How far a download is, in words.
#[derive(Debug, Clone, PartialEq, Eq)]
pub struct ProgressLine<T = String> {
    pub heading: T,
    pub details: T,
}

impl View for ProgressLine {
    type V = ProgressLine<Seq<char>>;

    open spec fn view(&self) -> ProgressLine<Seq<char>> {
        ProgressLine { heading: self.heading@, details: self.details@ }
    }
}

/// The last row of a card: how the item stands.
#[derive(Debug, PartialEq, Eq)]
pub enum StatusRow<T = String> {
    Text(Label<T>),
    Progress(ProgressLine<T>),
    WithButton(Label<T>, Button<Message, T>),
}

impl View for StatusRow {
    type V = StatusRow<Seq<char>>;

    open spec fn view(&self) -> StatusRow<Seq<char>> {
        match *self {
            StatusRow::Text(label) => StatusRow::Text(label@),
            StatusRow::Progress(line) => StatusRow::Progress(line@),
            StatusRow::WithButton(label, button) => StatusRow::WithButton(label@, button@),
        }
    }
}

/// One card of the queue.
#[derive(Debug, PartialEq, Eq)]
pub struct ItemCard<T = String> {
    pub picture: Picture<T>,
    pub title: T,
    pub picks: Picks<T>,
    /// What is known of the link; nothing where that is nothing.
    pub details: Option<Label<T>>,
    pub status: StatusRow<T>,
    pub remove: Button<Message, T>,
}

impl View for ItemCard {
    type V = ItemCard<Seq<char>>;

    open spec fn view(&self) -> ItemCard<Seq<char>> {
        ItemCard {
            picture: match self.picture {
                Picture::Thumbnail => Picture::Thumbnail,
                Picture::Placeholder(glyph) => Picture::Placeholder(glyph@),
            },
            title: self.title@,
            picks: match self.picks {
                Picks::Open { kind, quality } => Picks::Open { kind, quality },
                Picks::Fixed(label) => Picks::Fixed(label@),
            },
            details: match self.details {
                Some(label) => Some(label@),
                None => None,
            },
            status: self.status@,
            remove: self.remove@,
        }
    }
}

// ---------------------------------------------------------------------------
// How far a download is
// ---------------------------------------------------------------------------

/// The size a share of a download can be told of: a known one that isn't 0.
pub open spec fn size_of(p: Progress) -> Option<u64> {
    match p.total {
        Some(total) => if total > 0 {
            Some(total)
        } else {
            None
        },
        None => None,
    }
}

/// The size a share of a download can be told of: a known one that isn't 0.
pub fn measured(p: &Progress) -> (r: Option<u64>)
    ensures
        r == size_of(*p),
{
    match p.total {
        Some(total) => if total > 0 {
            Some(total)
        } else {
            None
        },
        None => None,
    }
}

/// How far a download is, in words: how much, how fast and how long still, as far as that is known.
pub open spec fn line_of(p: Progress, w: Wording) -> ProgressLine<Seq<char>> {
    ProgressLine {
        heading: if p.done {
            "Processing"@
        } else {
            "Downloading"@
        },
        details: w.amount@ + (if p.speed is Some {
            "  at "@ + w.speed@ + " MB/s"@
        } else {
            Seq::empty()
        }) + (if p.eta is Some && !p.done {
            "  "@ + progress::time_text(p.eta->0 as nat) + " left"@
        } else {
            Seq::empty()
        }),
    }
}

/// How far a download is, in words.
pub fn progress_view(p: &Progress, w: &Wording) -> (r: ProgressLine)
    ensures
        r@ == line_of(*p, *w),
{
    let mut details: String = w.amount.clone();
    if p.speed.is_some() {
        details.append(text::concat3("  at ", w.speed.as_str(), " MB/s").as_str());
    }
    if let Some(eta) = p.eta {
        if !p.done {
            details.append(text::concat3("  ", duration(eta).as_str(), " left").as_str());
        }
    }
    let heading: String = if p.done {
        "Processing".to_owned()
    } else {
        "Downloading".to_owned()
    };
    let r = ProgressLine { heading, details };
    proof {
        assert(r@.details =~= line_of(*p, *w).details);
    }
    r
}

// ---------------------------------------------------------------------------
// A card
// ---------------------------------------------------------------------------

/// What is known of a link: how many videos a playlist has, how long it is and how large.
pub open spec fn parts_of(meta: Metadata<Seq<char>>, w: Wording) -> Seq<Seq<char>> {
    (match meta.playlist {
        Some(Some(n)) => if n == 1 {
            seq!["Playlist, 1 video"@]
        } else {
            seq!["Playlist, "@ + text::decimal(n as nat) + " videos"@]
        },
        Some(None) => seq!["Playlist"@],
        None => Seq::empty(),
    }) + (if meta.duration is Some {
        seq![progress::time_text(w.seconds as nat)]
    } else {
        Seq::empty()
    }) + (if meta.approx_size is Some {
        seq![w.size@]
    } else {
        Seq::empty()
    })
}

/// What a card says of its link.
pub open spec fn details_of(meta: MetaState<Seq<char>>, w: Wording) -> Option<Label<Seq<char>>> {
    match meta {
        MetaState::Fetching => Some(
            Label { text: "Looking up this link..."@, tone: Tone::Muted },
        ),
        MetaState::Failed(e) => Some(
            Label {
                text: "Could not look this link up ("@ + e + ")"@,
                tone: Tone::Warning,
            },
        ),
        MetaState::Ready(meta) => if parts_of(meta, w).len() == 0 {
            None
        } else {
            Some(Label { text: text::join(parts_of(meta, w), "   "@), tone: Tone::Muted })
        },
    }
}

/// What a card shows of the state of its item.
pub open spec fn status_of(item: QueueItem, w: Wording) -> StatusRow<Seq<char>> {
    match item.status {
        ItemStatus::Queued => StatusRow::Text(Label { text: "Queued"@, tone: Tone::Muted }),
        ItemStatus::Downloading(p) => StatusRow::Progress(line_of(p, w)),
        ItemStatus::Completed { path } => {
            let label = Label { text: "Completed"@, tone: Tone::Success };
            match path {
                Some(path) => StatusRow::WithButton(
                    label,
                    Button {
                        label: "Open folder"@,
                        look: Look::Secondary,
                        press: Some(Message::OpenItemFolder(path)),
                    },
                ),
                None => StatusRow::Text(label),
            }
        },
        ItemStatus::Failed(reason) => StatusRow::WithButton(
            Label { text: "Failed: "@ + reason@, tone: Tone::Danger },
            Button {
                label: "Retry"@,
                look: Look::Secondary,
                press: Some(Message::RetryItem(item.id)),
            },
        ),
    }
}

/// One card of the queue: a thumbnail (or a placeholder while it loads or on a failed lookup), the
/// title, the two quick per-item pickers, whatever metadata resolved, and this item's own status.
pub open spec fn card_of(item: QueueItem, w: Wording) -> ItemCard<Seq<char>> {
    let format = item.settings.format;
    ItemCard {
        picture: match item.thumbnail {
            Some(_) => Picture::Thumbnail,
            None => Picture::Placeholder(
                if item.meta is Fetching {
                    "..."@
                } else {
                    "?"@
                },
            ),
        },
        title: match item.meta {
            MetaState::Ready(meta) => if meta.title@.len() > 0 {
                meta.title@
            } else {
                item.url@
            },
            _ => item.url@,
        },
        // Only a waiting item can still change; quality means nothing for audio.
        picks: if item.status is Queued {
            Picks::Open {
                kind: format.kind,
                quality: if format.kind is VideoAudio {
                    Some(format.quality)
                } else {
                    None
                },
            }
        } else {
            Picks::Fixed(
                match format.kind {
                    Kind::VideoAudio => w.kind@ + ", "@ + w.quality@,
                    Kind::AudioOnly => w.kind@,
                },
            )
        },
        details: details_of(item.meta@, w),
        status: status_of(item, w),
        remove: Button {
            label: "Remove"@,
            look: Look::Secondary,
            press: if item.status is Downloading {
                None
            } else {
                Some(Message::RemoveItem(item.id))
            },
        },
    }
}

fn known_parts(meta: &Metadata, w: &Wording) -> (r: Vec<String>)
    ensures
        text::texts(r@) == parts_of(meta@, *w),
{
    let mut parts: Vec<String> = Vec::new();
    match meta.playlist {
        Some(Some(n)) => if n == 1 {
            parts.push("Playlist, 1 video".to_owned());
        } else {
            parts.push(
                text::concat3("Playlist, ", text::decimal_text(n).as_str(), " videos"),
            );
        },
        Some(None) => parts.push("Playlist".to_owned()),
        None => {},
    }
    if meta.duration.is_some() {
        parts.push(duration(w.seconds));
    }
    if meta.approx_size.is_some() {
        parts.push(w.size.clone());
    }
    proof {
        assert(text::texts(parts@) =~= parts_of(meta@, *w));
    }
    parts
}

fn details_label(meta: &MetaState, w: &Wording) -> (r: Option<Label>)
    ensures
        (match r {
            Some(label) => Some(label@),
            None => None,
        }) == details_of(meta@, *w),
{
    match meta {
        MetaState::Fetching => Some(label("Looking up this link...", Tone::Muted)),
        MetaState::Failed(e) => {
            let line: String = text::concat3("Could not look this link up (", e.as_str(), ")");
            Some(label(line.as_str(), Tone::Warning))
        },
        MetaState::Ready(meta) => {
            let parts: Vec<String> = known_parts(meta, w);
            proof {
                assert(text::texts(parts@).len() == parts@.len());
            }
            if parts.len() == 0 {
                None
            } else {
                Some(label(text::joined(&parts, "   ").as_str(), Tone::Muted))
            }
        },
    }
}

fn status_row(item: &QueueItem, w: &Wording) -> (r: StatusRow)
    ensures
        r@ == status_of(*item, *w),
{
    match &item.status {
        ItemStatus::Queued => StatusRow::Text(label("Queued", Tone::Muted)),
        ItemStatus::Downloading(p) => StatusRow::Progress(progress_view(p, w)),
        ItemStatus::Completed { path } => match path {
            Some(path) => StatusRow::WithButton(
                label("Completed", Tone::Success),
                button(
                    "Open folder",
                    Look::Secondary,
                    Some(Message::OpenItemFolder(path.clone())),
                ),
            ),
            None => StatusRow::Text(label("Completed", Tone::Success)),
        },
        ItemStatus::Failed(reason) => StatusRow::WithButton(
            label(text::concat2("Failed: ", reason.as_str()).as_str(), Tone::Danger),
            button("Retry", Look::Secondary, Some(Message::RetryItem(item.id))),
        ),
    }
}

/// One card of the queue.
pub fn item_card(item: &QueueItem, w: &Wording) -> (r: ItemCard)
    ensures
        r@ == card_of(*item, *w),
{
    let picture: Picture = if item.thumbnail.is_some() {
        Picture::Thumbnail
    } else if matches!(item.meta, MetaState::Fetching) {
        Picture::Placeholder("...".to_owned())
    } else {
        Picture::Placeholder("?".to_owned())
    };
    let title: String = match &item.meta {
        MetaState::Ready(meta) => if meta.title.as_str().is_empty() {
            item.url.clone()
        } else {
            meta.title.clone()
        },
        _ => item.url.clone(),
    };
    let kind: Kind = item.settings.format.kind;
    let picks: Picks = if item.status.queued() {
        Picks::Open {
            kind,
            quality: if kind == Kind::VideoAudio {
                Some(item.settings.format.quality)
            } else {
                None
            },
        }
    } else {
        Picks::Fixed(
            match kind {
                Kind::VideoAudio => text::concat3(w.kind.as_str(), ", ", w.quality.as_str()),
                Kind::AudioOnly => w.kind.clone(),
            },
        )
    };
    let press: Option<Message> = if item.status.downloading() {
        None
    } else {
        Some(Message::RemoveItem(item.id))
    };
    ItemCard {
        picture,
        title,
        picks,
        details: details_label(&item.meta, w),
        status: status_row(item, w),
        remove: button("Remove", Look::Secondary, press),
    }
}

// ---------------------------------------------------------------------------
// Below the queue
// ---------------------------------------------------------------------------

/// How far the whole queue is.
#[derive(Debug, Clone, PartialEq, Eq)]
pub struct QueueProgress<T = String> {
    pub summary: T,
    pub done: usize,
    pub total: usize,
}

impl View for QueueProgress {
    type V = QueueProgress<Seq<char>>;

    open spec fn view(&self) -> QueueProgress<Seq<char>> {
        QueueProgress { summary: self.summary@, done: self.done, total: self.total }
    }
}

/// How many items are done with.
pub open spec fn over_count(items: Seq<QueueItem>) -> nat
    decreases items.len(),
{
    if items.len() == 0 {
        0
    } else {
        over_count(items.drop_last()) + (if items.last().status is Completed
            || items.last().status is Failed {
            1nat
        } else {
            0nat
        })
    }
}

/// How far the whole queue is, once there is one.
pub open spec fn progress_of(d: Download) -> Option<QueueProgress<Seq<char>>> {
    let total = d.items@.len();
    let done = over_count(d.items@);
    let share = text::decimal(done) + " of "@ + text::decimal(total) + " done"@;
    if total == 0 {
        None
    } else {
        Some(
            QueueProgress {
                summary: if d.job {
                    "Downloading queue: "@ + share
                } else if done == total {
                    "All done."@
                } else {
                    "Ready: "@ + share
                },
                done: done as usize,
                total: total as usize,
            },
        )
    }
}

/// The buttons below the queue.
#[derive(Debug, PartialEq, Eq)]
pub struct Actions<T = String> {
    pub main: Button<Message, T>,
    pub open_folder: Button<Message, T>,
    pub clear: Option<Button<Message, T>>,
    pub remark: Option<Label<T>>,
}

impl View for Actions {
    type V = Actions<Seq<char>>;

    open spec fn view(&self) -> Actions<Seq<char>> {
        Actions {
            main: self.main@,
            open_folder: self.open_folder@,
            clear: match self.clear {
                Some(button) => Some(button@),
                None => None,
            },
            remark: match self.remark {
                Some(label) => Some(label@),
                None => None,
            },
        }
    }
}

/// The buttons below the queue: to start or stop it, to open the folder, and to clear what is
/// finished once something is.
pub open spec fn actions_of(d: Download) -> Actions<Seq<char>> {
    Actions {
        main: if d.job {
            Button { label: "Stop"@, look: Look::Danger, press: Some(Message::Stop) }
        } else {
            Button { label: "Download"@, look: Look::Main, press: Some(Message::Start) }
        },
        open_folder: Button {
            label: "Open folder"@,
            look: Look::Secondary,
            press: Some(Message::OpenFolder),
        },
        clear: if over_count(d.items@) > 0 {
            Some(
                Button {
                    label: "Clear finished"@,
                    look: Look::Secondary,
                    press: Some(Message::ClearFinished),
                },
            )
        } else {
            None
        },
        remark: match d.problem {
            Some(problem) => Some(Label { text: problem@, tone: Tone::Danger }),
            None => if d.job {
                Some(Label { text: "Working..."@, tone: Tone::Muted })
            } else {
                None
            },
        },
    }
}

/// The queue itself.
#[derive(Debug, PartialEq, Eq)]
pub enum QueueView<T = String, C = Vec<ItemCard>> {
    Empty { title: T, hint: T },
    Cards(C),
}

/// What some cards show.
pub open spec fn shown(v: Seq<ItemCard>) -> Seq<ItemCard<Seq<char>>> {
    v.map_values(|c: ItemCard| c@)
}

impl View for QueueView {
    type V = QueueView<Seq<char>, Seq<ItemCard<Seq<char>>>>;

    open spec fn view(&self) -> QueueView<Seq<char>, Seq<ItemCard<Seq<char>>>> {
        match *self {
            QueueView::Empty { title, hint } => QueueView::Empty { title: title@, hint: hint@ },
            QueueView::Cards(cards) => QueueView::Cards(shown(cards@)),
        }
    }
}

/// What the queue shows, card by card.
pub open spec fn queue_of(d: Download, wordings: Seq<Wording>) -> QueueView<
    Seq<char>,
    Seq<ItemCard<Seq<char>>>,
> {
    if d.items@.len() == 0 {
        QueueView::Empty {
            title: "Your queue is empty."@,
            hint: "Paste a link above to get started."@,
        }
    } else {
        QueueView::Cards(
            Seq::new(d.items@.len(), |i: int| card_of(d.items@[i], wordings[i])),
        )
    }
}

/// The whole screen.
#[derive(Debug, PartialEq, Eq)]
pub struct ScreenView<T = String, C = Vec<ItemCard>> {
    pub placeholder: T,
    pub input: T,
    pub add: Button<Message, T>,
    pub queue: QueueView<T, C>,
    pub actions: Actions<T>,
    pub progress: Option<QueueProgress<T>>,
    /// What the activity log shows while it is empty.
    pub no_activity: T,
}

impl View for ScreenView {
    type V = ScreenView<Seq<char>, Seq<ItemCard<Seq<char>>>>;

    open spec fn view(&self) -> ScreenView<Seq<char>, Seq<ItemCard<Seq<char>>>> {
        ScreenView {
            placeholder: self.placeholder@,
            input: self.input@,
            add: self.add@,
            queue: self.queue@,
            actions: self.actions@,
            progress: match self.progress {
                Some(progress) => Some(progress@),
                None => None,
            },
            no_activity: self.no_activity@,
        }
    }
}

/// What the screen shows.
pub open spec fn view_of(d: Download, wordings: Seq<Wording>) -> ScreenView<
    Seq<char>,
    Seq<ItemCard<Seq<char>>>,
> {
    ScreenView {
        placeholder: "Paste a video or playlist link..."@,
        input: d.url_input@,
        add: Button { label: "Add"@, look: Look::Main, press: Some(Message::AddUrl) },
        queue: queue_of(d, wordings),
        actions: actions_of(d),
        progress: progress_of(d),
        no_activity: "Nothing yet. Every step of the download will be listed here."@,
    }
}

proof fn lemma_over_count(items: Seq<QueueItem>)
    ensures
        over_count(items) <= items.len(),
    decreases items.len(),
{
    if items.len() > 0 {
        lemma_over_count(items.drop_last());
    }
}

impl Download {
    fn count_over(&self) -> (r: usize)
        ensures
            r == over_count(self.items@),
            r <= self.items@.len(),
    {
        let mut done: usize = 0;
        let mut i: usize = 0;
        while i < self.items.len()
            invariant
                i <= self.items@.len(),
                done <= i,
                done == over_count(self.items@.take(i as int)),
            decreases self.items@.len() - i,
        {
            proof {
                assert(self.items@.take(i + 1).drop_last() =~= self.items@.take(i as int));
                assert(self.items@.take(i + 1).last() == self.items@[i as int]);
            }
            if self.items[i].status.over() {
                done = done + 1;
            }
            i = i + 1;
        }
        proof {
            assert(self.items@.take(i as int) =~= self.items@);
        }
        done
    }

    /// How far the whole queue is, the way a batch of downloads reports overall progress once each
    /// item has its own.
    pub fn queue_progress(&self) -> (r: Option<QueueProgress>)
        ensures
            (match r {
                Some(progress) => Some(progress@),
                None => None,
            }) == progress_of(*self),
    {
        let total: usize = self.items.len();
        if total == 0 {
            return None;
        }
        let done: usize = self.count_over();
        let mut share: String = text::concat2(text::decimal_text(done as u64).as_str(), " of ");
        share.append(text::decimal_text(total as u64).as_str());
        share.append(" done");
        let summary: String = if self.running() {
            text::concat2("Downloading queue: ", share.as_str())
        } else if done == total {
            "All done.".to_owned()
        } else {
            text::concat2("Ready: ", share.as_str())
        };
        Some(QueueProgress { summary, done, total })
    }

    /// The buttons below the queue.
    pub fn actions(&self) -> (r: Actions)
        ensures
            r@ == actions_of(*self),
    {
        let main: Button<Message> = if self.running() {
            button("Stop", Look::Danger, Some(Message::Stop))
        } else {
            button("Download", Look::Main, Some(Message::Start))
        };
        let clear: Option<Button<Message>> = if self.count_over() > 0 {
            Some(button("Clear finished", Look::Secondary, Some(Message::ClearFinished)))
        } else {
            None
        };
        let remark: Option<Label> = match &self.problem {
            Some(problem) => Some(label(problem.as_str(), Tone::Danger)),
            None => if self.running() {
                Some(label("Working...", Tone::Muted))
            } else {
                None
            },
        };
        Actions {
            main,
            open_folder: button("Open folder", Look::Secondary, Some(Message::OpenFolder)),
            clear,
            remark,
        }
    }

    /// What the screen shows, with the wording of each item.
    pub fn view(&self, wordings: &Vec<Wording>) -> (r: ScreenView)
        requires
            wordings@.len() == self.items@.len(),
        ensures
            r@ == view_of(*self, wordings@),
    {
        let queue: QueueView = if self.items.len() == 0 {
            QueueView::Empty {
                title: "Your queue is empty.".to_owned(),
                hint: "Paste a link above to get started.".to_owned(),
            }
        } else {
            let ghost all = Seq::new(
                self.items@.len(),
                |i: int| card_of(self.items@[i], wordings@[i]),
            );
            let mut cards: Vec<ItemCard> = Vec::new();
            let mut i: usize = 0;
            while i < self.items.len()
                invariant
                    i <= self.items@.len(),
                    wordings@.len() == self.items@.len(),
                    all == Seq::new(
                        self.items@.len(),
                        |i: int| card_of(self.items@[i], wordings@[i]),
                    ),
                    shown(cards@) == all.take(i as int),
                decreases self.items@.len() - i,
            {
                let ghost before = shown(cards@);
                cards.push(item_card(&self.items[i], &wordings[i]));
                proof {
                    assert(shown(cards@) =~= before.push(all[i as int]));
                    assert(all.take(i + 1) =~= before.push(all[i as int]));
                }
                i = i + 1;
            }
            proof {
                assert(all.take(i as int) =~= all);
            }
            QueueView::Cards(cards)
        };
        ScreenView {
            placeholder: "Paste a video or playlist link...".to_owned(),
            input: self.url_input.clone(),
            add: button("Add", Look::Main, Some(Message::AddUrl)),
            queue,
            actions: self.actions(),
            progress: self.queue_progress(),
            no_activity: "Nothing yet. Every step of the download will be listed here.".to_owned(),
        }
    }
}

/// A card offers only what would do something: an item that is downloading can't be removed, only
/// one that failed can be tried again, and only one that waits can be changed.
pub proof fn law_a_card_offers_only_what_works(item: QueueItem, w: Wording)
    ensures
        card_of(item, w).remove.press is Some <==> !(item.status is Downloading),
        card_of(item, w).picks is Open <==> item.status is Queued,
        card_of(item, w).status matches StatusRow::WithButton(_, button) ==> (button.press == Some(
            Message::<String>::RetryItem(item.id),
        ) <==> item.status is Failed),
{
}

} // verus!
