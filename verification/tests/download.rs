use std::collections::BTreeMap;

use mimirdlp::config::{
    Advanced, Audio, Automation, Browser, Cats, Container, Convert, Extras, Format, Kind,
    PlaylistChoice, Quality, SavedItem, Settings, SignIn, Sponsor, Subs, Template, ThemePref,
    Thumb, VideoFormat,
};
use mimirdlp::gui::cards::{
    item_card, measured, progress_view, Picks, Picture, QueueView, StatusRow, Wording,
};
use mimirdlp::gui::download::{
    fetch_metadata, fetch_thumbnail, Answer, Download, Folder, Outside, MAX_LOG,
};
use mimirdlp::gui::folders::{dev_list, dev_urls, open_folder, reveal_file};
use mimirdlp::gui::progress::{can_combine, combined, duration, Progress};
use mimirdlp::gui::queue::{
    Check, Event, Finish, ItemStatus, Message, MetaState, Task,
};
use mimirdlp::gui::ui::Tone;
use mimirdlp::log::{Level, Note};
use mimirdlp::metadata::{Metadata, Real};
use mimirdlp::provision::{Paths, Platform};

fn base() -> Settings {
    Settings {
        format: Format {
            kind: Kind::VideoAudio,
            video_format: VideoFormat::Preset(0),
            custom_format: String::new(),
            quality: Quality::Preset(0),
            container: Container::Preset(0),
            convert: Convert::Keep,
            convert_target: String::new(),
            audio_convert: false,
            audio: Audio::Mp3,
            audio_quality: 0,
        },
        extras: Extras {
            thumbnail: true,
            thumbnail_format: Thumb::Preset(0),
            metadata: true,
            chapters: false,
            subs: Subs::Off,
            sub_langs: String::new(),
            auto_subs: false,
            sponsor: Sponsor::Off,
            cats: Cats::Preset(0),
            custom_cats: String::new(),
            keyframes: false,
        },
        automation: Automation {
            playlist: PlaylistChoice::Single,
            playlist_items: String::new(),
            playlist_reverse: false,
            organize: false,
            archive: false,
            archive_file: String::new(),
            archive_stop: false,
            max_downloads: String::new(),
            template: Template::Preset(0),
            custom_template: String::new(),
            restrict_filenames: false,
        },
        sign_in: SignIn { cookies_browser: Browser::Off, cookies_profile: String::new() },
        advanced: Advanced {
            limit_rate: String::new(),
            fragments: String::new(),
            sleep: String::new(),
            live_from_start: false,
            wait_for_video: String::new(),
            preserve_mtime: false,
            ignore_errors: false,
            verbose: false,
        },
        output_dir: String::new(),
        theme: ThemePref::Preset(0),
    }
}

fn screen() -> Download {
    Download::new(Paths::new("/app".to_string(), Platform::Unix))
}

fn check(problem: Option<&str>) -> Check {
    Check {
        problem: problem.map(str::to_string),
        output_dir: "/videos".to_string(),
        no_thumbnail: None,
    }
}

/// What the application would say: a link starts with http, and settings are fine.
fn outside(screen: &Download) -> Outside {
    Outside {
        valid: screen
            .url_input
            .split_whitespace()
            .map(|w| w.starts_with("http"))
            .collect(),
        cookies: None,
        checks: screen.items.iter().map(|_| check(None)).collect(),
        speed: None,
    }
}

fn tell(screen: &mut Download, message: Message, settings: &Settings) -> Answer {
    let outside = outside(screen);
    assert!(screen.can_update(&message, &outside));
    screen.update(message, settings, &outside)
}

fn queue(screen: &mut Download, url: &str, settings: &Settings) -> Answer {
    let _ = tell(screen, Message::UrlInput(url.to_string()), settings);
    tell(screen, Message::AddUrl, settings)
}

fn note(level: Level, text: &str) -> Note {
    Note { level, text: text.to_string() }
}

#[test]
fn the_queue_comes_back_after_a_restart() {
    let mut screen_ = screen();
    let mut audio = base();
    audio.format.kind = Kind::AudioOnly;
    for url in [
        "https://example.com/a",
        "https://example.com/b",
        "https://example.com/c",
    ] {
        let _ = queue(&mut screen_, url, &audio);
    }
    screen_.items[1].status = ItemStatus::Completed { path: None };
    screen_.items[2].status = ItemStatus::Failed("gone".into());
    let id = screen_.items[0].id;
    // Any change to the queue saves it.
    let saved = tell(&mut screen_, Message::ItemQuality(id, Quality::P720), &audio)
        .save
        .unwrap();

    let mut reopened = screen();
    let cookies: Vec<Option<String>> = saved.iter().map(|_| None).collect();
    let tasks = reopened.restore(&saved, &cookies);
    let restored: Vec<(&str, &ItemStatus)> = reopened
        .items
        .iter()
        .map(|i| (i.url.as_str(), &i.status))
        .collect();
    assert_eq!(
        restored,
        [
            ("https://example.com/a", &ItemStatus::Queued),
            ("https://example.com/c", &ItemStatus::Failed("gone".into())),
        ],
        "finished items are not brought back"
    );
    assert_eq!(reopened.items[0].settings.format.kind, Kind::AudioOnly);
    assert_eq!(reopened.items[0].settings.format.quality, Quality::P720);
    assert_eq!(tasks.len(), 2, "every card is looked up again");
    assert_eq!(
        reopened.log[0],
        note(Level::Info, "Restored 2 link(s) from the last session.")
    );
    assert_eq!(reopened.persist(), saved, "saving again saves the same");
}

#[test]
fn parallel_downloads_are_shown_as_one() {
    let real = |x: f64| Some(Real { bits: x.to_bits() });
    let streams = BTreeMap::from([
        (
            1,
            Progress {
                stream: 1,
                downloaded: 20_000,
                total: Some(50_000),
                speed: real(1_000.0),
                eta: Some(30),
                done: false,
            },
        ),
        (
            2,
            Progress {
                stream: 2,
                downloaded: 5_000,
                // A live stream doesn't know its size.
                total: None,
                speed: real(500.0),
                eta: Some(0),
                done: false,
            },
        ),
    ]);
    let speed: f64 = streams
        .values()
        .filter_map(|p| p.speed)
        .map(|s| f64::from_bits(s.bits))
        .sum();
    let all = combined(&streams, real(speed));
    assert_eq!(all.downloaded, 25_000);
    assert_eq!(all.total, None, "one unknown size makes the whole unknown");
    assert_eq!(all.speed.map(|s| f64::from_bits(s.bits)), Some(1_500.0));
    assert_eq!(all.eta, Some(30), "a zero eta means unknown, not now");
    assert!(!all.done);
}

#[test]
fn sizes_are_added_up_when_all_are_known() {
    let part = |stream: u32, total: u64, eta: u64| Progress {
        stream,
        downloaded: 10,
        total: Some(total),
        speed: None,
        eta: Some(eta),
        done: true,
    };
    let mut streams = BTreeMap::from([(5, part(5, 70, 3)), (1, part(1, 30, 9))]);
    let all = combined(&streams, None);
    assert_eq!(all.stream, 0);
    assert_eq!(all.total, Some(100));
    assert_eq!(all.eta, Some(9));
    assert!(all.done);
    assert_eq!(combined(&BTreeMap::new(), None).total, Some(0));
    assert!(can_combine(&streams));
    streams.insert(2, part(2, u64::MAX, 1));
    assert!(!can_combine(&streams));
}

#[test]
fn a_line_yt_dlp_keeps_repeating_is_collapsed() {
    let mut screen = screen();
    for _ in 0..3 {
        screen.note(note(Level::Info, "[youtube] Sleeping 1.5 seconds ..."));
    }
    screen.note(note(Level::Info, "[download] Destination: /tmp/v.mkv"));
    assert_eq!(screen.log.len(), 2);
    assert_eq!(screen.log[0].text, "[youtube] Sleeping 1.5 seconds ...  (x3)");
    assert_eq!(screen.log[1].text, "[download] Destination: /tmp/v.mkv");
    // The same text with another tag is another line.
    screen.log(note(Level::Warn, "[download] Destination: /tmp/v.mkv"));
    assert_eq!(screen.log.len(), 3);
    assert!(screen.can_log());
}

#[test]
fn the_activity_log_keeps_only_the_most_recent_lines() {
    let mut screen = screen();
    for n in 0..MAX_LOG + 50 {
        screen.note(note(Level::Info, &format!("line {n}")));
    }
    assert_eq!(screen.log.len(), MAX_LOG);
    // The newest line survives, the oldest ones are gone.
    assert_eq!(
        screen.log.last().unwrap().text,
        format!("line {}", MAX_LOG + 49)
    );
    assert_eq!(screen.log.first().unwrap().text, "line 50");
}

#[test]
fn adding_a_url_queues_it_and_starts_a_metadata_lookup() {
    let mut screen = screen();
    let answer = queue(&mut screen, "https://example.com/video", &base());
    assert_eq!(screen.items.len(), 1);
    assert_eq!(screen.items[0].url, "https://example.com/video");
    assert_eq!(screen.items[0].status, ItemStatus::Queued);
    assert_eq!(screen.items[0].meta, MetaState::Fetching);
    assert_eq!(screen.url_input, "", "the input clears once queued");
    match &answer.tasks[..] {
        [Task::Lookup { id, url, lookup }] => {
            assert_eq!(*id, screen.items[0].id);
            assert_eq!(url, "https://example.com/video");
            assert!(lookup.single_video);
        }
        other => panic!("{other:?}"),
    }
    assert!(screen.uses_tools() && !screen.running());
}

#[test]
fn an_invalid_url_is_rejected_without_touching_the_queue() {
    let mut screen = screen();
    let _ = queue(&mut screen, "not a link", &base());
    assert!(screen.items.is_empty());
    assert!(screen.problem.is_some());
    assert_eq!(screen.url_input, "not a link", "it stays in the box, to be fixed");
    let _ = queue(&mut screen, "  ", &base());
    assert_eq!(screen.problem.as_deref(), Some("Paste a link first."));
}

#[test]
fn a_duplicate_url_is_not_queued_twice() {
    let mut screen = screen();
    let _ = queue(&mut screen, "https://example.com/video", &base());
    let _ = queue(&mut screen, "https://example.com/video", &base());
    assert_eq!(screen.items.len(), 1);
}

#[test]
fn metadata_and_a_thumbnail_fill_the_card_in_once_they_resolve() {
    let mut screen = screen();
    let _ = queue(&mut screen, "https://example.com/video", &base());
    let id = screen.items[0].id;

    let meta = Metadata {
        title: "A video".into(),
        thumbnail_url: Some("https://example.com/thumb.jpg".into()),
        duration: Some(Real { bits: 90.0f64.to_bits() }),
        approx_size: Some(5_000_000),
        playlist: None,
    };
    let answer = tell(&mut screen, Message::MetadataFetched(id, Ok(meta.clone())), &base());
    assert_eq!(screen.items[0].meta, MetaState::Ready(meta));
    assert_eq!(
        answer.tasks,
        [Task::Thumbnail { id, url: "https://example.com/thumb.jpg".into() }]
    );
    assert!(!screen.uses_tools(), "the lookup is over");

    let _ = tell(&mut screen, Message::ThumbnailFetched(id, Ok(vec![1, 2, 3])), &base());
    assert!(screen.items[0].thumbnail.is_some());
}

#[test]
fn a_failed_lookup_leaves_the_item_queued_with_a_plainer_card() {
    let mut screen = screen();
    let _ = queue(&mut screen, "https://example.com/video", &base());
    let id = screen.items[0].id;

    let _ = tell(
        &mut screen,
        Message::MetadataFetched(id, Err("network error".into())),
        &base(),
    );
    assert_eq!(
        screen.items[0].meta,
        MetaState::Failed("network error".into())
    );
    assert_eq!(screen.items[0].status, ItemStatus::Queued, "still queueable");
    // A second answer finds no lookup to count off, and no thumbnail changes nothing.
    let _ = tell(&mut screen, Message::MetadataFetched(99, Err("x".into())), &base());
    let _ = tell(&mut screen, Message::ThumbnailFetched(id, Err("x".into())), &base());
    assert_eq!(screen.lookups, 0);
    assert!(screen.items[0].thumbnail.is_none());
}

#[test]
fn removing_an_item_drops_it_from_the_queue() {
    let mut screen = screen();
    let _ = queue(&mut screen, "https://example.com/a", &base());
    let _ = queue(&mut screen, "https://example.com/b", &base());
    let first_id = screen.items[0].id;

    let _ = tell(&mut screen, Message::RemoveItem(first_id), &base());
    assert_eq!(screen.items.len(), 1);
    assert_eq!(screen.items[0].url, "https://example.com/b");
}

#[test]
fn several_pasted_links_are_queued_one_by_one() {
    let mut screen = screen();
    let _ = queue(
        &mut screen,
        "https://example.com/a https://example.com/b\nhttps://example.com/c",
        &base(),
    );
    let urls: Vec<&str> = screen.items.iter().map(|i| i.url.as_str()).collect();
    assert_eq!(
        urls,
        [
            "https://example.com/a",
            "https://example.com/b",
            "https://example.com/c"
        ]
    );
}

#[test]
fn a_duplicate_link_says_so_instead_of_vanishing() {
    let mut screen = screen();
    for _ in 0..2 {
        let _ = queue(&mut screen, "https://example.com/video", &base());
    }
    assert_eq!(screen.items.len(), 1);
    assert!(
        screen
            .problem
            .as_deref()
            .is_some_and(|p| p.contains("already")),
        "{:?}",
        screen.problem
    );
    let _ = queue(
        &mut screen,
        "https://example.com/video https://example.com/b https://example.com/b",
        &base(),
    );
    assert_eq!(
        screen.problem.as_deref(),
        Some("2 of those links are already in the queue.")
    );
    assert_eq!(screen.items.len(), 2);
}

#[test]
fn a_finished_file_does_not_complete_an_item_that_is_still_running() {
    let mut screen = screen();
    let _ = queue(&mut screen, "https://example.com/list", &base());
    let _ = tell(&mut screen, Message::Start, &base());
    let _ = tell(&mut screen, Message::Report(Event::File("/v/1.mkv".into())), &base());
    assert!(
        matches!(screen.items[0].status, ItemStatus::Downloading(_)),
        "{:?}",
        screen.items[0].status
    );
    let _ = tell(&mut screen, Message::Report(Event::File("/v/2.mkv".into())), &base());
    let _ = tell(
        &mut screen,
        Message::Report(Event::Finished(Finish::Completed)),
        &base(),
    );
    assert_eq!(
        screen.items[0].status,
        ItemStatus::Completed {
            path: Some("/v/2.mkv".into())
        }
    );
    assert_eq!(
        *screen.log.last().unwrap(),
        note(Level::Success, "Download completed (2 files)")
    );
}

#[test]
fn an_item_that_already_ran_keeps_the_choices_it_ran_with() {
    let mut screen = screen();
    let _ = queue(&mut screen, "https://example.com/a", &base());
    screen.items[0].status = ItemStatus::Completed { path: None };
    let id = screen.items[0].id;
    let _ = tell(&mut screen, Message::ItemKind(id, Kind::AudioOnly), &base());
    assert_eq!(screen.items[0].settings.format.kind, Kind::VideoAudio);
}

#[test]
fn a_queued_link_keeps_the_settings_it_was_queued_with() {
    let mut screen = screen();
    let queued_with = base();
    let _ = queue(&mut screen, "https://example.com/a", &queued_with);
    // Changed on the Settings page after the link was queued.
    let mut changed = base();
    changed.extras.sponsor = Sponsor::Mark;
    let answer = tell(&mut screen, Message::Start, &changed);
    match &answer.tasks[..] {
        [Task::Run { url, settings, .. }] => {
            assert_eq!(url, "https://example.com/a");
            assert_eq!(
                *settings, queued_with,
                "a setting changed after queueing leaked into the item"
            );
        }
        other => panic!("{other:?}"),
    }
}

#[test]
fn per_item_kind_and_quality_can_be_changed_independently() {
    let mut screen = screen();
    let _ = queue(&mut screen, "https://example.com/a", &base());
    let _ = queue(&mut screen, "https://example.com/b", &base());
    let a = screen.items[0].id;

    let _ = tell(&mut screen, Message::ItemKind(a, Kind::AudioOnly), &base());
    let _ = tell(&mut screen, Message::ItemQuality(a, Quality::P720), &base());
    assert_eq!(screen.items[0].settings.format.kind, Kind::AudioOnly);
    assert_eq!(screen.items[0].settings.format.quality, Quality::P720);
    // The other item is untouched.
    assert_eq!(screen.items[1].settings.format.kind, Kind::VideoAudio);
}

#[test]
fn a_running_item_can_be_neither_removed_nor_cleared() {
    let mut screen = screen();
    let _ = queue(&mut screen, "https://example.com/a https://example.com/b", &base());
    let _ = tell(&mut screen, Message::Start, &base());
    let id = screen.items[0].id;
    assert_eq!(screen.current, Some(id));
    let _ = tell(&mut screen, Message::RemoveItem(id), &base());
    let _ = tell(&mut screen, Message::ClearFinished, &base());
    assert_eq!(screen.items.len(), 2);
    // Starting again while one runs does nothing.
    assert!(tell(&mut screen, Message::Start, &base()).tasks.is_empty());
    let answer = tell(&mut screen, Message::Stop, &base());
    assert_eq!(answer.tasks, [Task::Cancel]);
    let answer = tell(
        &mut screen,
        Message::Report(Event::Finished(Finish::Cancelled)),
        &base(),
    );
    assert!(answer.tasks.is_empty(), "a cancelled download is not followed by another");
    assert_eq!(screen.items[0].status, ItemStatus::Queued, "it can be resumed");
    assert!(!screen.running());
    assert!(tell(&mut screen, Message::Stop, &base()).tasks.is_empty());
}

#[test]
fn a_bad_item_does_not_block_the_queue() {
    let mut screen = screen();
    let _ = queue(&mut screen, "https://example.com/a https://example.com/b", &base());
    let mut says = outside(&screen);
    says.checks = vec![
        check(Some("no such format")),
        Check { no_thumbnail: Some("wav".into()), ..check(None) },
    ];
    let answer = screen.update(Message::Start, &base(), &says);
    assert_eq!(screen.items[0].status, ItemStatus::Failed("no such format".into()));
    assert!(matches!(&answer.tasks[..], [Task::Run { id, .. }] if *id == screen.items[1].id));
    assert_eq!(
        screen.log,
        [
            note(Level::Error, "https://example.com/a: no such format"),
            note(Level::Info, ""),
            note(Level::Download, "https://example.com/b"),
            note(Level::Info, "Saving into: /videos"),
            note(Level::Info, "No thumbnail: a .wav file can't hold one."),
        ]
    );
    // A failed item can be tried again.
    let failed = screen.items[0].id;
    let _ = tell(&mut screen, Message::RetryItem(failed), &base());
    assert_eq!(screen.items[0].status, ItemStatus::Queued);
    let running = screen.items[1].id;
    let _ = tell(&mut screen, Message::RetryItem(running), &base());
    assert!(matches!(screen.items[1].status, ItemStatus::Downloading(_)));
}

#[test]
fn the_queue_moves_on_by_itself() {
    let mut screen = screen();
    let _ = queue(&mut screen, "https://example.com/a https://example.com/b", &base());
    let _ = tell(&mut screen, Message::Start, &base());
    let part = Progress {
        stream: 3,
        downloaded: 10,
        total: Some(40),
        speed: None,
        eta: Some(5),
        done: false,
    };
    let _ = tell(&mut screen, Message::Report(Event::Progress(part)), &base());
    assert_eq!(
        screen.items[0].status,
        ItemStatus::Downloading(Progress { stream: 0, ..part })
    );
    let answer = tell(
        &mut screen,
        Message::Report(Event::Finished(Finish::Failed("gone".into()))),
        &base(),
    );
    assert_eq!(screen.items[0].status, ItemStatus::Failed("gone".into()));
    assert!(matches!(&answer.tasks[..], [Task::Run { .. }]));
    assert!(answer.save.is_some());
    assert!(screen.progress.is_empty() && screen.files.is_empty());
    let _ = tell(
        &mut screen,
        Message::Report(Event::Log(Level::Info, "hello".into())),
        &base(),
    );
    assert_eq!(*screen.log.last().unwrap(), note(Level::Info, "hello"));
    let _ = tell(
        &mut screen,
        Message::Report(Event::Finished(Finish::StoppedAsConfigured)),
        &base(),
    );
    assert_eq!(screen.items[1].status, ItemStatus::Completed { path: None });
    assert!(!screen.running());
    let _ = tell(&mut screen, Message::Start, &base());
    assert_eq!(screen.problem.as_deref(), Some("Add at least one link first."));
}

#[test]
fn a_completed_download_says_how_many_files_there_are() {
    let said = |files: &[&str]| {
        let mut screen = screen();
        let _ = queue(&mut screen, "https://example.com/a", &base());
        let _ = tell(&mut screen, Message::Start, &base());
        for f in files {
            let _ = tell(&mut screen, Message::Report(Event::File(f.to_string())), &base());
        }
        let _ = tell(
            &mut screen,
            Message::Report(Event::Finished(Finish::Completed)),
            &base(),
        );
        screen.log.last().unwrap().text.clone()
    };
    assert_eq!(said(&[]), "Finished, with nothing new to download");
    assert_eq!(said(&["/v"]), "Download completed");
    assert_eq!(said(&["/v", "/w", "/x"]), "Download completed (3 files)");
}

#[test]
fn closing_the_window_stops_and_saves() {
    let mut screen = screen();
    let _ = queue(&mut screen, "https://example.com/a", &base());
    assert!(screen.shutdown().tasks.is_empty());
    let _ = tell(&mut screen, Message::Start, &base());
    let answer = screen.shutdown();
    assert_eq!(answer.tasks, [Task::Cancel]);
    assert_eq!(
        answer.save,
        Some(vec![SavedItem {
            url: "https://example.com/a".into(),
            settings: base(),
            failed: None
        }])
    );
    screen.saved(Ok(()));
    screen.saved(Err("full".into()));
    assert_eq!(
        *screen.log.last().unwrap(),
        note(Level::Warn, "Could not save the queue: full")
    );
}

#[test]
fn folders_are_opened_by_the_system() {
    let mut screen = screen();
    assert_eq!(tell(&mut screen, Message::OpenFolder, &base()).tasks, [Task::OpenFolder]);
    assert_eq!(
        tell(&mut screen, Message::OpenItemFolder("/v/1".into()), &base()).tasks,
        [Task::RevealFile("/v/1".into())]
    );
    screen.folder_opened(Folder::Opened);
    assert!(screen.log.is_empty());
    screen.folder_opened(Folder::Missing);
    screen.folder_opened(Folder::Failed("no".into()));
    assert_eq!(
        screen.log,
        [
            note(Level::Info, "The output folder doesn't exist yet."),
            note(Level::Warn, "Could not open the folder: no"),
        ]
    );
    assert_eq!(open_folder(Platform::Unix, "/v").program, "xdg-open");
    assert_eq!(reveal_file(Platform::Unix, "/v/1", Some("/v".into())).argument, "/v");
    assert_eq!(reveal_file(Platform::Unix, "/", None).argument, "/");
    let windows = reveal_file(Platform::Windows, r"C:\v\1", Some(r"C:\v".into()));
    assert_eq!(windows.program, "explorer");
    assert_eq!(windows.argument, r"/select,C:\v\1");
}

#[test]
fn a_message_without_what_it_needs_is_not_answered() {
    let mut screen = screen();
    screen.url_input = "https://example.com/a".to_string();
    let mut says = outside(&screen);
    says.valid.clear();
    assert!(!screen.can_update(&Message::AddUrl, &says));
    let _ = tell(&mut screen, Message::AddUrl, &base());
    says.checks.clear();
    assert!(!screen.can_update(&Message::Start, &says));
    assert!(screen.can_update(&Message::Stop, &says));
}

#[test]
fn only_what_logs_needs_room_to_count_repeats() {
    let mut screen = Download::new(Paths::new("/app".into(), Platform::Unix));
    let _ = queue(&mut screen, "https://example.com/a", &base());
    screen.repeats = u32::MAX;
    let says = outside(&screen);
    for message in [
        Message::UrlInput("x".into()),
        Message::ItemKind(0, Kind::AudioOnly),
        Message::MetadataFetched(0, Err("gone".into())),
        Message::Report(Event::Progress(Progress::default())),
        Message::Stop,
        Message::RemoveItem(0),
    ] {
        assert!(screen.can_update(&message, &says), "{message:?}");
        let _ = screen.update(message, &base(), &outside(&screen));
    }
    assert!(screen.can_update(&Message::Start, &outside(&screen)), "nothing waits");
    let _ = queue(&mut screen, "https://example.com/b", &base());
    let says = outside(&screen);
    assert!(!screen.can_update(&Message::Start, &says));
    assert!(!screen.can_update(&Message::Report(Event::File("/v".into())), &says));
    assert!(!screen.can_update(&Message::Report(Event::Finished(Finish::Cancelled)), &says));
    // One item that waits logs four lines at most.
    screen.repeats = u32::MAX - 5;
    assert!(screen.can_update(&Message::Start, &says));
    assert!(!screen.can_update(&Message::Report(Event::Finished(Finish::Completed)), &says));
    screen.repeats = u32::MAX - 6;
    assert!(screen.can_update(&Message::Report(Event::Finished(Finish::Completed)), &says));
}

#[test]
fn a_lost_worker_is_a_failure() {
    assert_eq!(fetch_metadata(None).unwrap_err(), "the lookup was interrupted");
    assert_eq!(fetch_metadata(Some(Err("x".into()))).unwrap_err(), "x");
    assert_eq!(
        fetch_thumbnail(None).unwrap_err(),
        "the thumbnail fetch was interrupted"
    );
    assert_eq!(fetch_thumbnail(Some(Ok(vec![7]))).unwrap(), [7]);
}

#[test]
fn a_development_build_starts_with_its_links() {
    let list = dev_list(" https://a , nope,https://b");
    assert_eq!(list, ["https://a", "nope", "https://b"]);
    let valid: Vec<bool> = list.iter().map(|u| u.starts_with("http")).collect();
    assert_eq!(dev_urls(true, &list, &valid), ["https://a", "https://b"]);
    assert!(dev_urls(false, &list, &valid).is_empty());
}

#[test]
fn times_are_shown_in_their_two_largest_units() {
    assert_eq!(duration(0), "0s");
    assert_eq!(duration(59), "59s");
    assert_eq!(duration(60), "1m 00s");
    assert_eq!(duration(3599), "59m 59s");
    assert_eq!(duration(3600), "1h 00m");
    assert_eq!(duration(90_061), "25h 01m");
}

// ---------------------------------------------------------------------------
// What is shown
// ---------------------------------------------------------------------------

fn wording() -> Wording {
    Wording {
        seconds: 90,
        size: "~5.0 MB".into(),
        kind: "Video and audio".into(),
        quality: "720p".into(),
        amount: "1.0 MB".into(),
        speed: "2.0".into(),
    }
}

#[test]
fn a_card_shows_its_item() {
    let mut screen = screen();
    let _ = queue(&mut screen, "https://example.com/a", &base());
    let card = item_card(&screen.items[0], &wording());
    assert_eq!(card.picture, Picture::Placeholder("...".into()));
    assert_eq!(card.title, "https://example.com/a");
    assert_eq!(
        card.picks,
        Picks::Open { kind: Kind::VideoAudio, quality: Some(Quality::Preset(0)) }
    );
    assert_eq!(card.details.unwrap().text, "Looking up this link...");
    assert_eq!(card.remove.press, Some(Message::RemoveItem(screen.items[0].id)));

    screen.items[0].meta = MetaState::Failed("offline".into());
    screen.items[0].settings.format.kind = Kind::AudioOnly;
    let card = item_card(&screen.items[0], &wording());
    assert_eq!(card.picture, Picture::Placeholder("?".into()));
    let details = card.details.unwrap();
    assert_eq!(details.text, "Could not look this link up (offline)");
    assert_eq!(details.tone, Tone::Warning);
    assert_eq!(card.picks, Picks::Open { kind: Kind::AudioOnly, quality: None });

    let meta = |playlist| Metadata {
        title: "T".into(),
        thumbnail_url: None,
        duration: Some(Real { bits: 0 }),
        approx_size: Some(1),
        playlist,
    };
    for (playlist, said) in [
        (None, "1m 30s   ~5.0 MB"),
        (Some(None), "Playlist   1m 30s   ~5.0 MB"),
        (Some(Some(1)), "Playlist, 1 video   1m 30s   ~5.0 MB"),
        (Some(Some(7)), "Playlist, 7 videos   1m 30s   ~5.0 MB"),
    ] {
        screen.items[0].meta = MetaState::Ready(meta(playlist));
        let card = item_card(&screen.items[0], &wording());
        assert_eq!(card.title, "T");
        assert_eq!(card.details.unwrap().text, said);
    }
    screen.items[0].meta = MetaState::Ready(Metadata {
        title: String::new(),
        duration: None,
        approx_size: None,
        ..meta(None)
    });
    screen.items[0].thumbnail = Some(vec![1]);
    let card = item_card(&screen.items[0], &wording());
    assert_eq!(card.title, "https://example.com/a");
    assert_eq!(card.details, None);
    assert_eq!(card.picture, Picture::Thumbnail);
}

#[test]
fn a_card_offers_only_what_works() {
    let mut screen = screen();
    let _ = queue(&mut screen, "https://example.com/a", &base());
    let id = screen.items[0].id;
    screen.items[0].status = ItemStatus::Downloading(Progress::default());
    let card = item_card(&screen.items[0], &wording());
    assert_eq!(card.remove.press, None);
    assert_eq!(card.picks, Picks::Fixed("Video and audio, 720p".into()));
    screen.items[0].settings.format.kind = Kind::AudioOnly;
    assert_eq!(
        item_card(&screen.items[0], &wording()).picks,
        Picks::Fixed("Video and audio".into())
    );
    screen.items[0].status = ItemStatus::Failed("gone".into());
    match item_card(&screen.items[0], &wording()).status {
        StatusRow::WithButton(label, button) => {
            assert_eq!(label.text, "Failed: gone");
            assert_eq!(button.press, Some(Message::RetryItem(id)));
        }
        other => panic!("{other:?}"),
    }
    screen.items[0].status = ItemStatus::Completed { path: Some("/v/1".into()) };
    match item_card(&screen.items[0], &wording()).status {
        StatusRow::WithButton(label, button) => {
            assert_eq!(label.text, "Completed");
            assert_eq!(button.press, Some(Message::OpenItemFolder("/v/1".into())));
        }
        other => panic!("{other:?}"),
    }
}

#[test]
fn progress_is_told_as_far_as_it_is_known() {
    let mut p = Progress::default();
    let line = progress_view(&p, &wording());
    assert_eq!(line.heading, "Downloading");
    assert_eq!(line.details, "1.0 MB");
    p.speed = Some(Real { bits: 1 });
    p.eta = Some(61);
    assert_eq!(
        progress_view(&p, &wording()).details,
        "1.0 MB  at 2.0 MB/s  1m 01s left"
    );
    p.done = true;
    let line = progress_view(&p, &wording());
    assert_eq!(line.heading, "Processing");
    assert_eq!(line.details, "1.0 MB  at 2.0 MB/s");
    assert_eq!(measured(&p), None);
    p.total = Some(0);
    assert_eq!(measured(&p), None);
    p.total = Some(9);
    assert_eq!(measured(&p), Some(9));
}

#[test]
fn the_screen_shows_the_queue_and_how_far_it_is() {
    let mut screen = screen();
    let view = screen.view(&Vec::new());
    assert!(matches!(view.queue, QueueView::Empty { .. }));
    assert_eq!(view.progress, None);
    assert_eq!(view.actions.main.press, Some(Message::Start));
    assert_eq!(view.add.press, Some(Message::AddUrl));
    assert_eq!(view.actions.clear, None);

    let _ = queue(&mut screen, "https://example.com/a https://example.com/b", &base());
    assert_eq!(screen.queue_progress().unwrap().summary, "Ready: 0 of 2 done");
    let _ = tell(&mut screen, Message::Start, &base());
    let _ = tell(
        &mut screen,
        Message::Report(Event::Finished(Finish::Completed)),
        &base(),
    );
    let view = screen.view(&vec![wording(), wording()]);
    match &view.queue {
        QueueView::Cards(cards) => assert_eq!(cards.len(), 2),
        other => panic!("{other:?}"),
    }
    let progress = view.progress.unwrap();
    assert_eq!(progress.summary, "Downloading queue: 1 of 2 done");
    assert_eq!((progress.done, progress.total), (1, 2));
    assert_eq!(view.actions.main.press, Some(Message::Stop));
    assert_eq!(view.actions.clear.unwrap().press, Some(Message::ClearFinished));
    assert_eq!(view.actions.remark.unwrap().text, "Working...");
    let _ = tell(
        &mut screen,
        Message::Report(Event::Finished(Finish::Completed)),
        &base(),
    );
    assert_eq!(screen.queue_progress().unwrap().summary, "All done.");
    let _ = tell(&mut screen, Message::Start, &base());
    assert_eq!(screen.actions().remark.unwrap().tone, Tone::Danger);
    let _ = tell(&mut screen, Message::ClearFinished, &base());
    assert!(screen.items.is_empty());
}
