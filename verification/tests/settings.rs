use mimirdlp::config::{
    Advanced, Audio, Automation, Browser, Cats, Container, Convert, Extras, Format, Kind,
    PlaylistChoice, Quality, Settings, SignIn, Sponsor, Subs, Template, ThemePref, Thumb,
    VideoFormat,
};
use mimirdlp::gui::sections::{
    advanced_section, audio_qualities, automation_section, destination_section, extras_section, format_section,
    history_list_view, history_row, introduction, sign_in_section, Control, History, HistoryList,
    HistoryRow, Pick, AUDIO_QUALITIES,
};
use mimirdlp::gui::settings::{
    Effect, Field, Flag, HistoryFile, Message, Removal, SettingsPage,
};
use mimirdlp::log::Level;
use mimirdlp::provision::{Paths, Platform};

#[test]
fn eleven_audio_qualities_are_offered() {
    assert_eq!(audio_qualities(), [0, 1, 2, 3, 4, 5, 6, 7, 8, 9, 10]);
    assert_eq!(audio_qualities(), AUDIO_QUALITIES);
}

fn base() -> Settings {
    Settings {
        format: Format {
            kind: Kind::VideoAudio,
            video_format: VideoFormat::Preset(0),
            custom_format: String::new(),
            quality: Quality::Preset(0),
            container: Container::Preset(0),
            convert: Convert::Keep,
            convert_target: String::new(),
            audio_convert: false,
            audio: Audio::Mp3,
            audio_quality: 0,
        },
        extras: Extras {
            thumbnail: true,
            thumbnail_format: Thumb::Preset(0),
            metadata: true,
            chapters: false,
            subs: Subs::Off,
            sub_langs: String::new(),
            auto_subs: false,
            sponsor: Sponsor::Off,
            cats: Cats::Preset(0),
            custom_cats: String::new(),
            keyframes: false,
        },
        automation: Automation {
            playlist: PlaylistChoice::Single,
            playlist_items: String::new(),
            playlist_reverse: false,
            organize: false,
            archive: false,
            archive_file: String::new(),
            archive_stop: false,
            max_downloads: String::new(),
            template: Template::Preset(0),
            custom_template: String::new(),
            restrict_filenames: false,
        },
        sign_in: SignIn { cookies_browser: Browser::Off, cookies_profile: String::new() },
        advanced: Advanced {
            limit_rate: String::new(),
            fragments: String::new(),
            sleep: String::new(),
            live_from_start: false,
            wait_for_video: String::new(),
            preserve_mtime: false,
            ignore_errors: false,
            verbose: false,
        },
        output_dir: String::new(),
        theme: ThemePref::Preset(0),
    }
}

fn no_history() -> HistoryFile {
    HistoryFile { count: None, lines: None }
}

/// A page with the disk around it: the settings as they were last written, and the history file.
struct Disk {
    page: SettingsPage,
    written: Option<Settings>,
    history: Option<Vec<String>>,
}

impl Disk {
    fn new(settings: Settings, history: Option<Vec<String>>) -> Disk {
        let file = HistoryFile { count: history.as_ref().map(Vec::len), lines: history.clone() };
        Disk { page: SettingsPage::new(settings, file), written: None, history }
    }

    fn file(&self) -> HistoryFile {
        HistoryFile {
            count: self.history.as_ref().map(Vec::len),
            lines: self.history.clone(),
        }
    }

    fn save(&mut self) -> Option<(Level, String)> {
        self.written = Some(self.page.settings().clone());
        self.page.save(Ok(())).map(|n| (n.level, n.text))
    }

    fn update(&mut self, message: Message) -> Option<(Level, String)> {
        match self.page.update(message) {
            Effect::Nothing => None,
            Effect::Refresh => {
                let file = self.file();
                self.page.refresh_history(file);
                None
            }
            Effect::RefreshAndSave => {
                let file = self.file();
                self.page.refresh_history(file);
                self.save()
            }
            Effect::Save => self.save(),
            Effect::ListHistory => {
                self.page.show_history(self.history.clone());
                None
            }
            Effect::RemoveHistory => {
                let entries = self.history.as_ref().map(Vec::len);
                let removal = match self.history.take() {
                    Some(_) => Removal::Removed,
                    None => Removal::NotFound,
                };
                let note = self.page.history_cleared(entries, removal);
                Some((note.level, note.text))
            }
        }
    }
}

fn page_with_history() -> Disk {
    let mut settings = base();
    settings.automation.archive = true;
    Disk::new(
        settings,
        Some(vec!["youtube a".to_string(), "youtube b".to_string()]),
    )
}

#[test]
fn clearing_the_history_asks_first_and_says_how_much_went() {
    let mut disk = page_with_history();
    let _ = disk.update(Message::Toggle(Flag::Archive, true));
    assert_eq!(disk.page.history, Some(2), "the count comes from the file");
    assert_eq!(disk.update(Message::ClearHistory), None);
    assert!(disk.history.is_some(), "nothing goes until it is confirmed");
    let _ = disk.update(Message::CancelClearHistory);
    assert!(disk.history.is_some());
    let _ = disk.update(Message::ClearHistory);
    let note = disk.update(Message::ConfirmClearHistory).unwrap();
    assert!(disk.history.is_none());
    assert!(note.1.contains("(2 entries)"), "{note:?}");
}

#[test]
fn the_history_entries_can_be_shown_one_by_one_and_hidden_again() {
    let mut disk = page_with_history();
    assert_eq!(disk.page.history_list, None, "closed until asked to open");
    let _ = disk.update(Message::ToggleHistoryList);
    assert_eq!(
        disk.page.history_list,
        Some(vec!["youtube a".to_string(), "youtube b".to_string()])
    );
    let _ = disk.update(Message::ToggleHistoryList);
    assert_eq!(disk.page.history_list, None, "toggles back off");
    // Clearing the history closes an open list rather than leaving it pointing at a file that no
    // longer exists.
    let _ = disk.update(Message::ToggleHistoryList);
    let _ = disk.update(Message::ClearHistory);
    let _ = disk.update(Message::ConfirmClearHistory);
    assert_eq!(disk.page.history_list, None);
}

#[test]
fn choices_are_saved_at_once_and_typed_text_on_save() {
    let mut disk = Disk::new(base(), None);
    let _ = disk.update(Message::Text(Field::OutputDir, "/videos".into()));
    assert!(disk.written.is_none());
    let _ = disk.update(Message::Toggle(Flag::Verbose, true));
    let on_disk = disk.written.as_ref().unwrap();
    assert!(on_disk.advanced.verbose);
    // A choice writes everything, typed text included.
    assert_eq!(on_disk.output_dir, "/videos");
    let _ = disk.update(Message::Text(Field::Sleep, "3".into()));
    assert_eq!(disk.save(), None);
    assert_eq!(disk.written.as_ref().unwrap().advanced.sleep, "3");
}

#[test]
fn a_chosen_folder_becomes_the_output_folder_and_is_saved() {
    let mut disk = Disk::new(base(), None);
    let _ = disk.update(Message::FolderChosen(None));
    assert_eq!(
        disk.page.settings().output_dir,
        "",
        "a cancelled dialog changes nothing"
    );
    let _ = disk.update(Message::FolderChosen(Some("/videos/new".into())));
    assert_eq!(disk.page.settings().output_dir, "/videos/new");
    assert_eq!(disk.written.unwrap().output_dir, "/videos/new");
}

#[test]
fn every_field_and_flag_edits_its_own_setting() {
    let fields = [
        Field::OutputDir,
        Field::CustomFormat,
        Field::ConvertTarget,
        Field::SubLangs,
        Field::CustomCats,
        Field::PlaylistItems,
        Field::ArchiveFile,
        Field::MaxDownloads,
        Field::CustomTemplate,
        Field::LimitRate,
        Field::Fragments,
        Field::Sleep,
        Field::WaitForVideo,
        Field::CookiesProfile,
    ];
    for field in fields {
        let mut s = base();
        *field.slot(&mut s) = "marker".into();
        let serialized = format!("{s:?}");
        assert_eq!(serialized.matches("\"marker\"").count(), 1, "{field:?}");
    }
    let flags = [
        Flag::AudioConvert,
        Flag::Thumbnail,
        Flag::Metadata,
        Flag::Chapters,
        Flag::AutoSubs,
        Flag::Keyframes,
        Flag::PlaylistReverse,
        Flag::Organize,
        Flag::Archive,
        Flag::ArchiveStop,
        Flag::LiveFromStart,
        Flag::Verbose,
        Flag::Restrict,
        Flag::Mtime,
        Flag::IgnoreErrors,
    ];
    let base = base();
    for flag in flags {
        let mut s = base.clone();
        let slot = flag.slot(&mut s);
        *slot = !*slot;
        assert_ne!(s, base, "{flag:?} changed nothing");
        // Flipping it back restores the default: it touched one field.
        let slot = flag.slot(&mut s);
        *slot = !*slot;
        assert_eq!(s, base, "{flag:?}");
    }
    // Two flags can't share a field.
    for (i, a) in flags.iter().enumerate() {
        for b in &flags[i + 1..] {
            let mut s = base.clone();
            *a.slot(&mut s) = !*a.slot(&mut base.clone());
            let before = *b.slot(&mut base.clone());
            assert_eq!(*b.slot(&mut s), before, "{a:?} also changed {b:?}");
        }
    }
}

#[test]
fn every_choice_reaches_its_own_setting() {
    let mut page = SettingsPage::new(base(), no_history());
    let choices = [
        Message::Kind(Kind::AudioOnly),
        Message::VideoFormat(VideoFormat::Custom),
        Message::Quality(Quality::P720),
        Message::Audio(Audio::Wav),
        Message::AudioQuality(7),
        Message::Container(Container::Mp4),
        Message::Convert(Convert::Preset(1)),
        Message::ThumbFormat(Thumb::Preset(2)),
        Message::Subs(Subs::Preset(1)),
        Message::Sponsor(Sponsor::Mark),
        Message::Cats(Cats::Custom),
        Message::Playlist(PlaylistChoice::Whole),
        Message::Template(Template::Custom),
        Message::Browser(Browser::Preset(3)),
    ];
    for choice in choices {
        assert_eq!(page.update(choice), Effect::RefreshAndSave);
    }
    let s = page.settings();
    assert_eq!(s.format.kind, Kind::AudioOnly);
    assert_eq!(s.format.video_format, VideoFormat::Custom);
    assert_eq!(s.format.quality, Quality::P720);
    assert_eq!(s.format.audio, Audio::Wav);
    assert_eq!(s.format.audio_quality, 7);
    assert_eq!(s.format.container, Container::Mp4);
    assert_eq!(s.format.convert, Convert::Preset(1));
    assert_eq!(s.extras.thumbnail_format, Thumb::Preset(2));
    assert_eq!(s.extras.subs, Subs::Preset(1));
    assert_eq!(s.extras.sponsor, Sponsor::Mark);
    assert_eq!(s.extras.cats, Cats::Custom);
    assert_eq!(s.automation.playlist, PlaylistChoice::Whole);
    assert_eq!(s.automation.template, Template::Custom);
    assert_eq!(s.sign_in.cookies_browser, Browser::Preset(3));
    assert_eq!(page.set_theme(ThemePref::Preset(2)), Effect::Save);
    assert_eq!(page.settings().theme, ThemePref::Preset(2));
}

#[test]
fn the_history_is_counted_only_while_it_is_kept() {
    let file = || HistoryFile { count: Some(5), lines: Some(vec!["youtube a".to_string()]) };
    let mut page = SettingsPage::new(base(), file());
    assert_eq!(page.history, None, "no history is kept");
    assert_eq!(
        page.update(Message::Text(Field::ArchiveFile, "other.txt".into())),
        Effect::Refresh
    );
    assert_eq!(page.update(Message::Toggle(Flag::Archive, true)), Effect::RefreshAndSave);
    page.refresh_history(file());
    assert_eq!(page.history, Some(5));
    assert_eq!(page.history_list, None, "a closed list stays closed");
    page.show_history(Some(Vec::new()));
    page.refresh_history(file());
    assert_eq!(page.history_list, Some(vec!["youtube a".to_string()]));
}

#[test]
fn what_goes_wrong_with_the_files_is_said() {
    let mut page = SettingsPage::new(base(), no_history());
    let note = page.save(Err("disk full".into())).unwrap();
    assert_eq!(note.level, Level::Warn);
    assert_eq!(note.text, "Could not save the settings: disk full");
    let note = page.history_cleared(None, Removal::NotFound);
    assert_eq!(note.level, Level::Info);
    assert_eq!(note.text, "There is no history file yet.");
    let note = page.history_cleared(Some(3), Removal::Failed("locked".into()));
    assert_eq!(note.level, Level::Warn);
    assert_eq!(note.text, "Could not clear the history: locked");
    let note = page.history_cleared(None, Removal::Removed);
    assert_eq!(note.level, Level::Okay);
    assert_eq!(note.text, "History cleared (0 entries).");
}

// ---------------------------------------------------------------------------
// The cards
// ---------------------------------------------------------------------------

fn labels(controls: &[Control]) -> Vec<String> {
    controls
        .iter()
        .map(|c| match c {
            Control::Radio { label, .. }
            | Control::Pick { label, .. }
            | Control::Input { label, .. }
            | Control::Toggle { label, .. } => label.clone(),
            Control::Remark(line) => line.clone(),
            Control::History(_) => "history".to_string(),
            Control::Folder { placeholder, .. } => placeholder.clone(),
        })
        .collect()
}

#[test]
fn the_format_card_follows_the_kind() {
    let mut f = base().format;
    let video = labels(&format_section(&f, false));
    assert_eq!(
        video,
        [
            "Video and audio",
            "Audio only",
            "Format",
            "Quality",
            "Container",
            "Convert the container"
        ]
    );
    f.video_format = VideoFormat::Custom;
    f.convert = Convert::Preset(1);
    f.custom_format = "best".into();
    let custom = format_section(&f, false);
    assert_eq!(
        custom[3],
        Control::Input {
            label: "Format string".into(),
            placeholder: "bestvideo+bestaudio".into(),
            field: Field::CustomFormat,
            value: "best".into(),
            width: 300,
        }
    );
    assert_eq!(labels(&custom).last().unwrap(), "Convert to");
    f.kind = Kind::AudioOnly;
    assert_eq!(
        labels(&format_section(&f, false))[2..],
        [
            "Convert it to another format",
            "The audio is kept exactly as the site serves it."
        ]
    );
    f.audio_convert = true;
    assert_eq!(
        labels(&format_section(&f, false))[2..],
        [
            "Convert it to another format",
            "Audio format",
            "Audio quality (0 best, 10 smallest)"
        ]
    );
    assert_eq!(
        labels(&format_section(&f, true))[2..],
        ["Convert it to another format", "Audio format"],
        "a lossless format has no quality"
    );
}

#[test]
fn the_extras_card_shows_what_depends_on_a_choice() {
    let mut e = base().extras;
    assert_eq!(
        labels(&extras_section(&e)),
        [
            "Embed the thumbnail",
            "Thumbnail format",
            "Embed title, artist and date",
            "Embed chapters",
            "Subtitles",
            "SponsorBlock"
        ]
    );
    e.thumbnail = false;
    e.subs = Subs::Preset(1);
    e.sponsor = Sponsor::Remove;
    e.cats = Cats::Custom;
    assert_eq!(
        labels(&extras_section(&e)),
        [
            "Embed the thumbnail",
            "Embed title, artist and date",
            "Embed chapters",
            "Subtitles",
            "Languages",
            "Include auto-generated subtitles",
            "SponsorBlock",
            "Segments",
            "Categories",
            "Cut exactly at keyframes (re-encodes, much slower)"
        ]
    );
}

fn history() -> History {
    History { count: Some(2), entries: None, confirming_clear: false }
}

#[test]
fn the_automation_card_shows_the_history_while_one_is_kept() {
    let mut a = base().automation;
    assert_eq!(
        labels(&automation_section(&a, &history())),
        [
            "Playlists",
            "Keep a history and skip what was downloaded before",
            "Stop after this many files",
            "File names",
            "Plain ASCII file names"
        ]
    );
    a.playlist = PlaylistChoice::Whole;
    a.archive = true;
    a.template = Template::Custom;
    assert_eq!(
        labels(&automation_section(&a, &history())),
        [
            "Playlists",
            "Items (empty for all)",
            "Start from the end of the playlist",
            "One folder per playlist, numbered",
            "Keep a history and skip what was downloaded before",
            "History file",
            "Stop as soon as a video is already in the history",
            "history",
            "Stop after this many files",
            "File names",
            "Template",
            "Plain ASCII file names"
        ]
    );
}

#[test]
fn the_history_row_asks_before_it_clears() {
    match history_row(&history()) {
        HistoryRow::Summary { summary, entries, clear, list } => {
            assert_eq!(summary, "2 videos in the history");
            assert_eq!(entries.label, "View entries");
            assert_eq!(entries.press, Some(Message::ToggleHistoryList));
            assert_eq!(clear.press, Some(Message::ClearHistory));
            assert_eq!(list, None);
        }
        other => panic!("{other:?}"),
    }
    let none = History { count: None, ..history() };
    match history_row(&none) {
        HistoryRow::Summary { summary, entries, clear, .. } => {
            assert_eq!(summary, "The history file doesn't exist yet.");
            assert_eq!(entries.press, None);
            assert_eq!(clear.press, None);
        }
        other => panic!("{other:?}"),
    }
    let one = History { count: Some(1), entries: Some(Vec::new()), ..history() };
    match history_row(&one) {
        HistoryRow::Summary { summary, entries, list, .. } => {
            assert_eq!(summary, "1 video in the history");
            assert_eq!(entries.label, "Hide entries");
            assert_eq!(list, Some(HistoryList::Remark("The history is empty.".into())));
        }
        other => panic!("{other:?}"),
    }
    let asked = History { confirming_clear: true, ..history() };
    match history_row(&asked) {
        HistoryRow::Confirm { warning, cancel, clear } => {
            assert_eq!(warning, "This deletes the history file for good.");
            assert_eq!(cancel.press, Some(Message::CancelClearHistory));
            assert_eq!(clear.press, Some(Message::ConfirmClearHistory));
        }
        other => panic!("{other:?}"),
    }
    assert_eq!(
        history_list_view(&vec!["youtube a".to_string()]),
        HistoryList::Lines(vec!["youtube a".to_string()])
    );
}

#[test]
fn the_other_cards_show_their_controls() {
    let mut s = base();
    assert_eq!(labels(&sign_in_section(&s.sign_in)), ["Use cookies from"]);
    s.sign_in.cookies_browser = Browser::Preset(0);
    let controls = sign_in_section(&s.sign_in);
    assert_eq!(
        controls[0],
        Control::Pick {
            label: "Use cookies from".into(),
            pick: Pick::Browser(Browser::Preset(0))
        }
    );
    assert_eq!(controls.len(), 3);
    assert_eq!(
        labels(&advanced_section(&s.advanced)),
        [
            "Speed limit",
            "Parts downloaded at once",
            "Seconds between requests",
            "Record live streams from the start",
            "Wait for a scheduled stream (seconds)",
            "Keep the original upload date on the file",
            "Keep going when one video of a playlist fails",
            "Verbose log (for troubleshooting)"
        ]
    );
    let paths = Paths::new("/app".to_string(), Platform::Unix);
    let folder = destination_section(&s, &paths);
    assert_eq!(labels(&folder)[0], "/app/downloads");
    match &folder[0] {
        Control::Folder { choice, field, .. } => {
            assert_eq!(choice.press, Some(Message::ChooseFolder));
            assert_eq!(*field, Field::OutputDir);
        }
        other => panic!("{other:?}"),
    }
}

#[test]
fn the_page_has_its_cards_in_order() {
    let page = SettingsPage::new(base(), no_history());
    let paths = Paths::new("/app".to_string(), Platform::Unix);
    let cards = page.view(&paths, false);
    let titles: Vec<&str> = cards.iter().map(|c| c.title.as_str()).collect();
    assert_eq!(
        titles,
        [
            "What to download",
            "Extras",
            "Automation and naming",
            "Signing in",
            "Advanced",
            "Where to save"
        ]
    );
    assert!(introduction().contains("every link you queue from now on"));
    // Every switch shows the setting it edits.
    let settings = page.settings();
    for card in &cards {
        for control in &card.controls {
            if let Control::Toggle { flag, on, .. } = control {
                assert_eq!(*flag.slot(&mut settings.clone()), *on, "{flag:?}");
            }
        }
    }
}
