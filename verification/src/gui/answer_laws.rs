//! What holds of when the Download screen can answer, of what it saves, and of what it says about
//! things done elsewhere.
use vstd::prelude::*;

use super::download::{Answer, Download, Folder, Outside, Screen};
use super::folders::Opener;
use super::progress::Progress;
use super::queue::{Event, Finish, ItemStatus, Message, MetaState, Task};
use super::{download, folders, progress, queue, sections};
use crate::config::SavedItem;
use crate::log::Level;
use crate::metadata::Metadata;
use crate::provision::Platform;
use crate::{seqs, text};

verus! {

// ---------------------------------------------------------------------------
// When there is an answer
// ---------------------------------------------------------------------------

/// What concerns the box, the items, the lookups and the folders can always be answered.
pub proof fn law_most_messages_can_always_be_answered(
    s: Screen,
    message: Message<Seq<char>>,
    outside: Outside,
)
    requires
        message is UrlInput || message is RemoveItem || message is RetryItem || message
            is ClearFinished || message is ItemKind || message is ItemQuality || message
            is MetadataFetched || message is ThumbnailFetched || message is OpenFolder || message
            is OpenItemFolder,
    ensures
        download::answerable(s, message, outside),
{
}

/// Pasting can be answered when it is known of each word whether it is a link, and there are
/// numbers left for them.
pub proof fn law_pasting_needs_to_know_the_links(s: Screen, outside: Outside)
    ensures
        download::answerable(s, Message::AddUrl, outside) <==> {
            &&& outside.valid@.len() == text::words(s.url_input).len()
            &&& s.next_id + outside.valid@.len() <= u64::MAX
            &&& s.lookups + outside.valid@.len() <= usize::MAX
        },
{
}

proof fn lemma_waiting_is(s: Screen, from: int)
    requires
        0 <= from <= s.items.len(),
    ensures
        download::waiting(s.items, from) + seqs::positions(
            from as nat,
            |k: int| s.items[k].status is Queued,
        ).len() == seqs::positions(s.items.len(), |k: int| s.items[k].status is Queued).len(),
    decreases s.items.len() - from,
{
    let p = |k: int| s.items[k].status is Queued;
    if from < s.items.len() {
        lemma_waiting_is(s, from + 1);
        seqs::lemma_positions_push(from as nat, p);
    }
}

/// Starting, and moving on, can be answered when it is known of each item whether it can be
/// downloaded, and the log can count a line for each that waits and three for the one that starts.
pub proof fn law_starting_needs_to_know_the_items(
    s: Screen,
    finish: Finish<Seq<char>>,
    outside: Outside,
)
    requires
        s.repeats >= 0,
    ensures
        ({
            let waits = seqs::positions(
                s.items.len(),
                |k: int| s.items[k].status is Queued,
            ).len();
            let lines = if waits == 0 {
                0
            } else {
                waits + 3
            };
            let known = outside.checks@.len() == s.items.len();
            let over = Message::Report(Event::Finished(finish));
            &&& s.job ==> download::answerable(s, Message::Start, outside)
            &&& !s.job ==> (download::answerable(s, Message::Start, outside) <==> known && (waits
                == 0 || s.repeats + lines < u32::MAX))
            &&& finish is Cancelled ==> (download::answerable(s, over, outside) <==> s.repeats + 1
                < u32::MAX)
            &&& !(finish is Cancelled) ==> (download::answerable(s, over, outside) <==> known
                && s.repeats + 1 + lines < u32::MAX)
        }),
{
    let p = |k: int| s.items[k].status is Queued;
    lemma_waiting_is(s, 0);
    seqs::lemma_positions(0, p);
}

/// What only logs a line can be answered while that can be counted.
pub proof fn law_a_line_needs_to_be_counted(
    s: Screen,
    level: Level,
    line: Seq<char>,
    outside: Outside,
)
    ensures
        ({
            let room = s.repeats + 1 < u32::MAX;
            &&& download::answerable(s, Message::Stop, outside) <==> !s.job || room
            &&& download::answerable(s, Message::Report(Event::Log(level, line)), outside) <==> room
            &&& download::answerable(s, Message::Report(Event::File(line)), outside) <==> room
        }),
{
}

/// A report of progress can be answered when what its streams add up to can be counted.
pub proof fn law_progress_needs_to_be_counted(
    s: Screen,
    part: Progress,
    keys: Seq<u32>,
    outside: Outside,
)
    requires
        forall|a: int, b: int| 0 <= a < b < keys.len() ==> keys[a] < keys[b],
        keys.to_set() == s.progress.insert(part.stream, part).dom(),
        forall|k: u32| #[trigger]
            keys.contains(k) ==> s.progress.insert(part.stream, part)[k].total is Some,
    ensures
        ({
            let all = s.progress.insert(part.stream, part);
            download::answerable(s, Message::Report(Event::Progress(part)), outside) <==> {
                &&& keys.fold_left(0int, |sum: int, k: u32| sum + all[k].downloaded) <= u64::MAX
                &&& keys.fold_left(0int, |sum: int, k: u32| sum + all[k].total->0) <= u64::MAX
            }
        }),
{
    let all = s.progress.insert(part.stream, part);
    progress::lemma_sums_of_listing(all, keys);
}

// ---------------------------------------------------------------------------
// What is saved and said
// ---------------------------------------------------------------------------

/// Closing the window stops the download that runs, if one does, and saves the queue in any case.
pub proof fn law_closing_stops_and_saves(d: Download, r: Answer)
    requires
        call_ensures(Download::shutdown, (&d,), r),
    ensures
        d.job ==> r.tasks@.len() == 1 && r.tasks@[0] is Cancel,
        !d.job ==> r.tasks@.len() == 0,
        r.save is Some,
        queue::saved_items(r.save->0@) == download::persisted(d.screen()),
{
    let tasks = queue::tasks(r.tasks@);
    assert(tasks.len() == r.tasks@.len());
    if d.job {
        assert(tasks[0] == r.tasks@[0]@);
    }
}

/// The tools are in use while a download runs or a link is looked up.
pub proof fn law_the_tools_are_in_use(d: Download, used: bool, runs: bool)
    requires
        call_ensures(Download::uses_tools, (&d,), used),
        call_ensures(Download::running, (&d,), runs),
    ensures
        used <==> d.job || d.lookups > 0,
        runs <==> d.job,
{
}

/// A queue that was saved is not worth a line, and one that could not be is, with the reason.
pub proof fn law_only_a_failed_save_is_logged(s: Screen, e: String)
    ensures
        download::after_saving(s, Ok(())) == s,
        download::after_saving(s, Err(e)) == download::noted(
            s,
            Level::Warn,
            "Could not save the queue: "@ + e@,
        ),
{
}

/// A folder that was opened is not worth a line, and one that could not be is.
pub proof fn law_only_a_folder_that_stays_shut_is_logged(s: Screen, e: String)
    ensures
        download::after_opening(s, Folder::Opened) == s,
        download::after_opening(s, Folder::Missing) == download::noted(
            s,
            Level::Info,
            "The output folder doesn't exist yet."@,
        ),
        download::after_opening(s, Folder::Failed(e)) == download::noted(
            s,
            Level::Warn,
            "Could not open the folder: "@ + e@,
        ),
{
}

/// What is saved after a message is the queue as it is then, when the message edits it or ends a
/// download, and else nothing.
pub proof fn law_what_is_saved_is_the_queue_as_it_is(s: Screen, message: Message<Seq<char>>)
    ensures
        message is AddUrl || message is RemoveItem || message is RetryItem || message
            is ClearFinished || message is ItemKind || message is ItemQuality || (message is Report
            && message->Report_0 is Finished) ==> download::to_save(s, message) == Some(
            download::persisted(s),
        ),
        message is UrlInput || message is MetadataFetched || message is ThumbnailFetched || message
            is Start || message is Stop || message is OpenFolder || message is OpenItemFolder || (
        message is Report && !(message->Report_0 is Finished)) ==> download::to_save(s, message)
            is None,
{
}

/// What came of a lookup is passed on as it is, and one whose worker was lost was interrupted.
pub proof fn law_a_lost_worker_is_an_interruption(
    found: Option<Result<Metadata, String>>,
    image: Option<Result<Vec<u8>, String>>,
    a: Result<Metadata, String>,
    b: Result<Vec<u8>, String>,
)
    requires
        call_ensures(download::fetch_metadata, (found,), a),
        call_ensures(download::fetch_thumbnail, (image,), b),
    ensures
        found is Some ==> a == found->0,
        found is None ==> a is Err && a->Err_0@ == "the lookup was interrupted"@,
        image is Some ==> b == image->0,
        image is None ==> b is Err && b->Err_0@ == "the thumbnail fetch was interrupted"@,
{
}

// ---------------------------------------------------------------------------
// What is meant by what
// ---------------------------------------------------------------------------

/// A message means what it says: nothing in it is taken for something else.
pub proof fn law_a_message_means_what_it_says(message: queue::Message)
    ensures
        match message {
            Message::UrlInput(value) => message@ == Message::UrlInput(value@),
            Message::AddUrl => message@ is AddUrl,
            Message::RemoveItem(id) => message@ == Message::<Seq<char>>::RemoveItem(id),
            Message::RetryItem(id) => message@ == Message::<Seq<char>>::RetryItem(id),
            Message::ClearFinished => message@ is ClearFinished,
            Message::ItemKind(id, kind) => message@ == Message::<Seq<char>>::ItemKind(id, kind),
            Message::ItemQuality(id, quality) => message@ == Message::<Seq<char>>::ItemQuality(
                id,
                quality,
            ),
            Message::MetadataFetched(id, Ok(meta)) => message@ == Message::MetadataFetched(
                id,
                Ok(meta@),
            ),
            Message::MetadataFetched(id, Err(e)) => message@ == Message::MetadataFetched(
                id,
                Err(e@),
            ),
            Message::ThumbnailFetched(id, Ok(bytes)) => message@ == Message::<
                Seq<char>,
            >::ThumbnailFetched(id, Ok(bytes)),
            Message::ThumbnailFetched(id, Err(e)) => message@ == Message::ThumbnailFetched(
                id,
                Err(e@),
            ),
            Message::Start => message@ is Start,
            Message::Stop => message@ is Stop,
            Message::OpenFolder => message@ is OpenFolder,
            Message::OpenItemFolder(path) => message@ == Message::OpenItemFolder(path@),
            Message::Report(event) => message@ is Report && match event {
                Event::Log(level, line) => message@->Report_0 == Event::Log(level, line@),
                Event::Progress(part) => message@->Report_0 == Event::<Seq<char>>::Progress(part),
                Event::File(path) => message@->Report_0 == Event::File(path@),
                Event::Finished(finish) => message@->Report_0 is Finished && match finish {
                    Finish::Completed => message@->Report_0->Finished_0 is Completed,
                    Finish::StoppedAsConfigured =>
                        message@->Report_0->Finished_0 is StoppedAsConfigured,
                    Finish::Cancelled => message@->Report_0->Finished_0 is Cancelled,
                    Finish::Failed(reason) => message@->Report_0->Finished_0 == Finish::Failed(
                        reason@,
                    ),
                },
            },
        },
{
}

/// A task means what it says.
pub proof fn law_a_task_means_what_it_says(task: queue::Task)
    ensures
        match task {
            Task::Lookup { id, url, lookup } => {
                &&& task@ is Lookup
                &&& task@->Lookup_id == id
                &&& task@->Lookup_url == url@
                &&& task@->lookup.single_video == lookup.single_video
                &&& task@->lookup.cookies is Some <==> lookup.cookies is Some
                &&& lookup.cookies is Some ==> task@->lookup.cookies->0 == lookup.cookies->0@
            },
            Task::Thumbnail { id, url } => task@ == (Task::Thumbnail { id, url: url@ }),
            Task::Run { id, url, settings } => task@ == (Task::Run { id, url: url@, settings }),
            Task::Cancel => task@ is Cancel,
            Task::OpenFolder => task@ is OpenFolder,
            Task::RevealFile(path) => task@ == Task::RevealFile(path@),
        },
{
}

/// An item means what it says: it is in one state, and has its own link, settings and picture.
pub proof fn law_an_item_means_what_it_says(item: queue::QueueItem)
    ensures
        item@.id == item.id,
        item@.url == item.url@,
        item@.settings == item.settings,
        item@.thumbnail == item.thumbnail,
        match item.status {
            ItemStatus::Queued => item@.status is Queued,
            ItemStatus::Downloading(p) => item@.status == ItemStatus::<Seq<char>>::Downloading(p),
            ItemStatus::Completed { path } => {
                &&& item@.status is Completed
                &&& item@.status->path is Some <==> path is Some
                &&& path is Some ==> item@.status->path->0 == path->0@
            },
            ItemStatus::Failed(reason) => item@.status == ItemStatus::Failed(reason@),
        },
        match item.meta {
            MetaState::Fetching => item@.meta is Fetching,
            MetaState::Failed(e) => item@.meta == MetaState::Failed(e@),
            MetaState::Ready(meta) => {
                let known = item@.meta->Ready_0;
                &&& item@.meta is Ready
                &&& known.title == meta.title@
                &&& known.thumbnail_url is Some <==> meta.thumbnail_url is Some
                &&& meta.thumbnail_url is Some ==> known.thumbnail_url->0
                    == meta.thumbnail_url->0@
                &&& known.duration == meta.duration
                &&& known.approx_size == meta.approx_size
                &&& known.playlist == meta.playlist
            },
        },
{
}

/// The screen holds what it holds: item by item, line by line and file by file.
pub proof fn law_the_screen_is_what_it_holds(d: Download)
    ensures
        ({
            let s = d.screen();
            &&& s.paths == d.paths && s.url_input == d.url_input@
            &&& s.next_id == d.next_id && s.repeats == d.repeats && s.lookups == d.lookups
            &&& s.job == d.job && s.current == d.current && s.progress == d.progress@
            &&& s.items.len() == d.items@.len()
            &&& forall|i: int|
                0 <= i < d.items@.len() ==> #[trigger] s.items[i] == d.items@[i]@
            &&& s.log.len() == d.log@.len()
            &&& forall|i: int|
                0 <= i < d.log@.len() ==> (#[trigger] s.log[i]).level == d.log@[i].level
                    && s.log[i].text == d.log@[i].text@
            &&& s.files.len() == d.files@.len()
            &&& forall|i: int| 0 <= i < d.files@.len() ==> #[trigger] s.files[i] == d.files@[i]@
            &&& s.problem is Some <==> d.problem is Some
            &&& d.problem is Some ==> s.problem->0 == d.problem->0@
            &&& s.last is Some <==> d.last is Some
            &&& d.last is Some ==> s.last->0.level == d.last->0.level && s.last->0.text
                == d.last->0.text@
        }),
{
}

/// What is kept of a link is its address, its settings and why it failed.
pub proof fn law_a_saved_item_is_what_it_holds(item: SavedItem)
    ensures
        queue::saved(item).url == item.url@,
        queue::saved(item).settings == item.settings,
        queue::saved(item).failed is Some <==> item.failed is Some,
        item.failed is Some ==> queue::saved(item).failed->0 == item.failed->0@,
{
}

// ---------------------------------------------------------------------------
// Folders and links
// ---------------------------------------------------------------------------

/// A folder is opened with the file manager of the system.
pub proof fn law_a_folder_is_opened_by_the_system(platform: Platform, dir: &str, r: Opener)
    requires
        call_ensures(folders::open_folder, (platform, dir), r),
    ensures
        platform is Unix ==> r.program@ == "xdg-open"@,
        platform is Windows ==> r.program@ == "explorer"@,
        r.argument@ == dir@,
{
}

/// A file is shown in its folder: Windows marks the file itself, and elsewhere its folder is
/// opened, or the file where it has none.
pub proof fn law_a_file_is_shown_in_its_folder(
    platform: Platform,
    path: &str,
    parent: Option<String>,
    r: Opener,
)
    requires
        call_ensures(folders::reveal_file, (platform, path, parent), r),
    ensures
        platform is Windows ==> r.program@ == "explorer"@ && r.argument@ == "/select,"@ + path@,
        platform is Unix ==> r.program@ == "xdg-open"@,
        platform is Unix && parent is Some ==> r.argument@ == parent->0@,
        platform is Unix && parent is None ==> r.argument@ == path@,
{
}

/// The links of a list are what stands between its commas, each without the white space around it.
pub proof fn law_a_list_is_parted_by_commas(parts: Seq<Seq<char>>)
    requires
        parts.len() > 0,
        forall|i: int| 0 <= i < parts.len() ==> text::lacks(#[trigger] parts[i], ','),
    ensures
        folders::listed(text::join(parts, seq![','])) == parts.map_values(
            |part: Seq<char>| text::trim(part),
        ),
{
    text::lemma_fields_of_joined(parts, ',');
    assert(folders::listed(text::join(parts, seq![','])) =~= parts.map_values(
        |part: Seq<char>| text::trim(part),
    ));
}

proof fn lemma_marked(all: Seq<Seq<char>>, valid: Seq<bool>, n: int)
    requires
        0 <= n <= all.len(),
    ensures
        folders::marked(all.take(n), valid) == seqs::positions(
            n as nat,
            |k: int| valid[k],
        ).map_values(|k: int| all[k]),
    decreases n,
{
    let p = |k: int| valid[k];
    seqs::lemma_positions(n as nat, p);
    if n > 0 {
        lemma_marked(all, valid, n - 1);
        seqs::lemma_positions_push((n - 1) as nat, p);
        assert(all.take(n).drop_last() =~= all.take(n - 1));
        assert(all.take(n).last() == all[n - 1]);
        assert(folders::marked(all.take(n), valid) =~= seqs::positions(n as nat, p).map_values(
            |k: int| all[k],
        ));
    } else {
        assert(folders::marked(all.take(0), valid) =~= seqs::positions(0, p).map_values(
            |k: int| all[k],
        ));
    }
}

/// A development build starts with those of its texts that are links, in their order, and a release
/// build with none.
pub proof fn law_only_a_development_build_starts_with_links(
    development: bool,
    list: Vec<String>,
    valid: Vec<bool>,
    r: Vec<String>,
)
    requires
        valid@.len() == list@.len(),
        call_ensures(folders::dev_urls, (development, &list, &valid), r),
    ensures
        !development ==> r@.len() == 0,
        development ==> text::texts(r@) == seqs::positions(
            list@.len(),
            |k: int| valid@[k],
        ).map_values(|k: int| list@[k]@),
{
    let all = text::texts(list@);
    assert(text::texts(r@).len() == r@.len());
    lemma_marked(all, valid@, all.len() as int);
    assert(all.take(all.len() as int) =~= all);
    let at = seqs::positions(list@.len(), |k: int| valid@[k]);
    seqs::lemma_positions(list@.len(), |k: int| valid@[k]);
    assert(at.map_values(|k: int| all[k]) =~= at.map_values(|k: int| list@[k]@));
}

/// Every audio quality from 0 to 10 is offered once, the best first.
pub proof fn law_every_audio_quality_is_offered(r: Vec<u8>, quality: u8)
    requires
        call_ensures(sections::audio_qualities, (), r),
    ensures
        r@.len() == 11,
        quality <= 10 ==> r@[quality as int] == quality,
{
}

} // verus!
