//! The queue of the Download screen: its items and what is done about them.
use vstd::prelude::*;

use super::progress::Progress;
use crate::config::{Kind, Quality, SavedItem, Settings};
use crate::log::{Level, Note};
use crate::metadata::{Lookup, Metadata};
use crate::text;

verus! {

/// What is known of an item's link.
#[derive(Debug, PartialEq, Eq)]
pub enum MetaState<T = String> {
    Fetching,
    Ready(Metadata<T>),
    Failed(T),
}

impl View for MetaState {
    type V = MetaState<Seq<char>>;

    open spec fn view(&self) -> MetaState<Seq<char>> {
        match *self {
            MetaState::Fetching => MetaState::Fetching,
            MetaState::Ready(meta) => MetaState::Ready(meta@),
            MetaState::Failed(e) => MetaState::Failed(e@),
        }
    }
}

/// How an item stands.
#[derive(Debug, PartialEq, Eq)]
pub enum ItemStatus<T = String> {
    Queued,
    Downloading(Progress),
    Completed { path: Option<T> },
    Failed(T),
}

impl View for ItemStatus {
    type V = ItemStatus<Seq<char>>;

    open spec fn view(&self) -> ItemStatus<Seq<char>> {
        match *self {
            ItemStatus::Queued => ItemStatus::Queued,
            ItemStatus::Downloading(progress) => ItemStatus::Downloading(progress),
            ItemStatus::Completed { path } => ItemStatus::Completed { path: text::opt_text(path) },
            ItemStatus::Failed(reason) => ItemStatus::Failed(reason@),
        }
    }
}

/// Whether an item is done with, one way or the other.
pub open spec fn is_over(status: ItemStatus<Seq<char>>) -> bool {
    status is Completed || status is Failed
}

impl ItemStatus {
    /// Whether an item is done with, one way or the other.
    pub fn over(&self) -> (r: bool)
        ensures
            r == is_over(self@),
    {
        matches!(self, ItemStatus::Completed { .. } | ItemStatus::Failed(_))
    }

    pub fn queued(&self) -> (r: bool)
        ensures
            r == self@ is Queued,
    {
        matches!(self, ItemStatus::Queued)
    }

    pub fn downloading(&self) -> (r: bool)
        ensures
            r == self@ is Downloading,
    {
        matches!(self, ItemStatus::Downloading(_))
    }
}

/// A link of the queue.
#[derive(Debug, PartialEq, Eq)]
pub struct QueueItem<T = String> {
    pub id: u64,
    pub url: T,
    /// The Settings page as it was when this link was queued, which is what that page promises.
    /// Kind and quality are then this item's own quick picks on its card.
    pub settings: Settings,
    pub meta: MetaState<T>,
    /// The image file of its thumbnail.
    pub thumbnail: Option<Vec<u8>>,
    pub status: ItemStatus<T>,
}

impl View for QueueItem {
    type V = QueueItem<Seq<char>>;

    open spec fn view(&self) -> QueueItem<Seq<char>> {
        QueueItem {
            id: self.id,
            url: self.url@,
            settings: self.settings,
            meta: self.meta@,
            thumbnail: self.thumbnail,
            status: self.status@,
        }
    }
}

/// What some items are.
pub open spec fn items(v: Seq<QueueItem>) -> Seq<QueueItem<Seq<char>>> {
    v.map_values(|i: QueueItem| i@)
}

/// What some lines of the log say.
pub open spec fn notes(v: Seq<Note>) -> Seq<Note<Seq<char>>> {
    v.map_values(|n: Note| n@)
}

/// Why a download has ended.
#[derive(Debug, Clone, PartialEq, Eq)]
pub enum Finish<T = String> {
    Completed,
    StoppedAsConfigured,
    Cancelled,
    Failed(T),
}

impl View for Finish {
    type V = Finish<Seq<char>>;

    open spec fn view(&self) -> Finish<Seq<char>> {
        match *self {
            Finish::Completed => Finish::Completed,
            Finish::StoppedAsConfigured => Finish::StoppedAsConfigured,
            Finish::Cancelled => Finish::Cancelled,
            Finish::Failed(reason) => Finish::Failed(reason@),
        }
    }
}

/// What a running download reports.
#[derive(Debug, PartialEq, Eq)]
pub enum Event<T = String> {
    Log(Level, T),
    Progress(Progress),
    /// A file is finished.
    File(T),
    Finished(Finish<T>),
}

impl View for Event {
    type V = Event<Seq<char>>;

    open spec fn view(&self) -> Event<Seq<char>> {
        match *self {
            Event::Log(level, line) => Event::Log(level, line@),
            Event::Progress(progress) => Event::Progress(progress),
            Event::File(path) => Event::File(path@),
            Event::Finished(finish) => Event::Finished(finish@),
        }
    }
}

/// What the screen is told.
#[derive(Debug, PartialEq, Eq)]
pub enum Message<T = String> {
    UrlInput(T),
    AddUrl,
    RemoveItem(u64),
    RetryItem(u64),
    ClearFinished,
    ItemKind(u64, Kind),
    ItemQuality(u64, Quality),
    MetadataFetched(u64, Result<Metadata<T>, T>),
    ThumbnailFetched(u64, Result<Vec<u8>, T>),
    Start,
    Stop,
    OpenFolder,
    OpenItemFolder(T),
    Report(Event<T>),
}

/// The outcome of a lookup, for contracts.
pub open spec fn looked_up(r: Result<Metadata, String>) -> Result<Metadata<Seq<char>>, Seq<char>> {
    match r {
        Ok(meta) => Ok(meta@),
        Err(e) => Err(e@),
    }
}

/// The outcome of fetching a thumbnail, for contracts.
pub open spec fn image(r: Result<Vec<u8>, String>) -> Result<Vec<u8>, Seq<char>> {
    match r {
        Ok(bytes) => Ok(bytes),
        Err(e) => Err(e@),
    }
}

impl View for Message {
    type V = Message<Seq<char>>;

    open spec fn view(&self) -> Message<Seq<char>> {
        match *self {
            Message::UrlInput(value) => Message::UrlInput(value@),
            Message::AddUrl => Message::AddUrl,
            Message::RemoveItem(id) => Message::RemoveItem(id),
            Message::RetryItem(id) => Message::RetryItem(id),
            Message::ClearFinished => Message::ClearFinished,
            Message::ItemKind(id, value) => Message::ItemKind(id, value),
            Message::ItemQuality(id, value) => Message::ItemQuality(id, value),
            Message::MetadataFetched(id, result) => Message::MetadataFetched(
                id,
                looked_up(result),
            ),
            Message::ThumbnailFetched(id, result) => Message::ThumbnailFetched(id, image(result)),
            Message::Start => Message::Start,
            Message::Stop => Message::Stop,
            Message::OpenFolder => Message::OpenFolder,
            Message::OpenItemFolder(path) => Message::OpenItemFolder(path@),
            Message::Report(event) => Message::Report(event@),
        }
    }
}

/// Work that goes on outside and comes back as a [`Message`].
#[derive(Debug, PartialEq, Eq)]
pub enum Task<T = String> {
    /// Look a link up: comes back as [`Message::MetadataFetched`].
    Lookup { id: u64, url: T, lookup: Lookup<T> },
    /// Fetch a thumbnail: comes back as [`Message::ThumbnailFetched`].
    Thumbnail { id: u64, url: T },
    /// Download a link with these settings: comes back as [`Message::Report`]s.
    Run { id: u64, url: T, settings: Settings },
    /// Stop the download that runs.
    Cancel,
    /// Open the output folder, if it is there.
    OpenFolder,
    /// Open the folder a file is in.
    RevealFile(T),
}

impl View for Task {
    type V = Task<Seq<char>>;

    open spec fn view(&self) -> Task<Seq<char>> {
        match *self {
            Task::Lookup { id, url, lookup } => Task::Lookup { id, url: url@, lookup: lookup@ },
            Task::Thumbnail { id, url } => Task::Thumbnail { id, url: url@ },
            Task::Run { id, url, settings } => Task::Run { id, url: url@, settings },
            Task::Cancel => Task::Cancel,
            Task::OpenFolder => Task::OpenFolder,
            Task::RevealFile(path) => Task::RevealFile(path@),
        }
    }
}

/// What some tasks are.
pub open spec fn tasks(v: Seq<Task>) -> Seq<Task<Seq<char>>> {
    v.map_values(|t: Task| t@)
}

/// An item as it is kept between two sessions, for contracts.
#[verifier::ext_equal]
pub struct Saved {
    pub url: Seq<char>,
    pub settings: Settings,
    pub failed: Option<Seq<char>>,
}

/// What a saved item holds.
pub open spec fn saved(item: SavedItem) -> Saved {
    Saved { url: item.url@, settings: item.settings, failed: text::opt_text(item.failed) }
}

/// What some saved items hold.
pub open spec fn saved_items(v: Seq<SavedItem>) -> Seq<Saved> {
    v.map_values(|i: SavedItem| saved(i))
}

/// What the application says of an item's settings before it is downloaded.
#[derive(Debug, Clone, PartialEq, Eq)]
pub struct Check {
    /// The first thing that is wrong with them.
    pub problem: Option<String>,
    /// Where the files go, as it is shown.
    pub output_dir: String,
    /// The extension of the files, when a thumbnail is wanted that they can't hold.
    pub no_thumbnail: Option<String>,
}

} // verus!
