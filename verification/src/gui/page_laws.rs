//! What holds of the settings page: what each control is called, shows and changes, and when it is
//! there.
use vstd::prelude::*;

use super::sections::{Control, History, HistoryList, HistoryRow, Pick};
use super::settings::{Field, Flag, HistoryFile, Message, Removal, SettingsPage};
use super::{sections, settings};
use crate::config::{Advanced, Automation, Extras, Format, Kind, Settings, SignIn, ThemePref};
use crate::log::Note;
use crate::provision::{paths, Paths};
use crate::text;

verus! {

// ---------------------------------------------------------------------------
// What a message changes
// ---------------------------------------------------------------------------

/// Typing changes the one setting that is typed into to what was typed, and nothing else.
pub proof fn law_typing_changes_one_setting(page: SettingsPage, field: Field, value: String)
    ensures
        ({
            let s = page.settings;
            let t = settings::changed(page, Message::Text(field, value));
            &&& t == (SettingsPage { settings: t.settings, ..page })
            &&& t.settings == (match field {
                Field::OutputDir => Settings { output_dir: value, ..s },
                Field::CustomFormat => Settings {
                    format: Format { custom_format: value, ..s.format },
                    ..s
                },
                Field::ConvertTarget => Settings {
                    format: Format { convert_target: value, ..s.format },
                    ..s
                },
                Field::SubLangs => Settings {
                    extras: Extras { sub_langs: value, ..s.extras },
                    ..s
                },
                Field::CustomCats => Settings {
                    extras: Extras { custom_cats: value, ..s.extras },
                    ..s
                },
                Field::PlaylistItems => Settings {
                    automation: Automation { playlist_items: value, ..s.automation },
                    ..s
                },
                Field::ArchiveFile => Settings {
                    automation: Automation { archive_file: value, ..s.automation },
                    ..s
                },
                Field::MaxDownloads => Settings {
                    automation: Automation { max_downloads: value, ..s.automation },
                    ..s
                },
                Field::CustomTemplate => Settings {
                    automation: Automation { custom_template: value, ..s.automation },
                    ..s
                },
                Field::LimitRate => Settings {
                    advanced: Advanced { limit_rate: value, ..s.advanced },
                    ..s
                },
                Field::Fragments => Settings {
                    advanced: Advanced { fragments: value, ..s.advanced },
                    ..s
                },
                Field::Sleep => Settings {
                    advanced: Advanced { sleep: value, ..s.advanced },
                    ..s
                },
                Field::WaitForVideo => Settings {
                    advanced: Advanced { wait_for_video: value, ..s.advanced },
                    ..s
                },
                Field::CookiesProfile => Settings {
                    sign_in: SignIn { cookies_profile: value, ..s.sign_in },
                    ..s
                },
            })
        }),
{
}

/// A switch changes the one setting it is for, and nothing else.
pub proof fn law_a_switch_changes_one_setting(page: SettingsPage, flag: Flag, on: bool)
    ensures
        ({
            let s = page.settings;
            let t = settings::changed(page, Message::Toggle(flag, on));
            &&& t == (SettingsPage { settings: t.settings, ..page })
            &&& t.settings == (match flag {
                Flag::AudioConvert => Settings {
                    format: Format { audio_convert: on, ..s.format },
                    ..s
                },
                Flag::Thumbnail => Settings {
                    extras: Extras { thumbnail: on, ..s.extras },
                    ..s
                },
                Flag::Metadata => Settings {
                    extras: Extras { metadata: on, ..s.extras },
                    ..s
                },
                Flag::Chapters => Settings {
                    extras: Extras { chapters: on, ..s.extras },
                    ..s
                },
                Flag::AutoSubs => Settings {
                    extras: Extras { auto_subs: on, ..s.extras },
                    ..s
                },
                Flag::Keyframes => Settings {
                    extras: Extras { keyframes: on, ..s.extras },
                    ..s
                },
                Flag::PlaylistReverse => Settings {
                    automation: Automation { playlist_reverse: on, ..s.automation },
                    ..s
                },
                Flag::Organize => Settings {
                    automation: Automation { organize: on, ..s.automation },
                    ..s
                },
                Flag::Archive => Settings {
                    automation: Automation { archive: on, ..s.automation },
                    ..s
                },
                Flag::ArchiveStop => Settings {
                    automation: Automation { archive_stop: on, ..s.automation },
                    ..s
                },
                Flag::Restrict => Settings {
                    automation: Automation { restrict_filenames: on, ..s.automation },
                    ..s
                },
                Flag::LiveFromStart => Settings {
                    advanced: Advanced { live_from_start: on, ..s.advanced },
                    ..s
                },
                Flag::Mtime => Settings {
                    advanced: Advanced { preserve_mtime: on, ..s.advanced },
                    ..s
                },
                Flag::IgnoreErrors => Settings {
                    advanced: Advanced { ignore_errors: on, ..s.advanced },
                    ..s
                },
                Flag::Verbose => Settings {
                    advanced: Advanced { verbose: on, ..s.advanced },
                    ..s
                },
            })
        }),
{
}

/// A choice from a list changes the one setting it is for, and nothing else. So does choosing a
/// folder; closing the dialog without one changes nothing.
pub proof fn law_a_choice_changes_one_setting(page: SettingsPage, message: Message)
    ensures
        ({
            let s = page.settings;
            let t = settings::changed(page, message);
            match message {
                Message::Kind(kind) => t == (SettingsPage {
                    settings: Settings { format: Format { kind, ..s.format }, ..s },
                    ..page
                }),
                Message::VideoFormat(video_format) => t == (SettingsPage {
                    settings: Settings { format: Format { video_format, ..s.format }, ..s },
                    ..page
                }),
                Message::Quality(quality) => t == (SettingsPage {
                    settings: Settings { format: Format { quality, ..s.format }, ..s },
                    ..page
                }),
                Message::Audio(audio) => t == (SettingsPage {
                    settings: Settings { format: Format { audio, ..s.format }, ..s },
                    ..page
                }),
                Message::AudioQuality(audio_quality) => t == (SettingsPage {
                    settings: Settings { format: Format { audio_quality, ..s.format }, ..s },
                    ..page
                }),
                Message::Container(container) => t == (SettingsPage {
                    settings: Settings { format: Format { container, ..s.format }, ..s },
                    ..page
                }),
                Message::Convert(convert) => t == (SettingsPage {
                    settings: Settings { format: Format { convert, ..s.format }, ..s },
                    ..page
                }),
                Message::ThumbFormat(thumbnail_format) => t == (SettingsPage {
                    settings: Settings { extras: Extras { thumbnail_format, ..s.extras }, ..s },
                    ..page
                }),
                Message::Subs(subs) => t == (SettingsPage {
                    settings: Settings { extras: Extras { subs, ..s.extras }, ..s },
                    ..page
                }),
                Message::Sponsor(sponsor) => t == (SettingsPage {
                    settings: Settings { extras: Extras { sponsor, ..s.extras }, ..s },
                    ..page
                }),
                Message::Cats(cats) => t == (SettingsPage {
                    settings: Settings { extras: Extras { cats, ..s.extras }, ..s },
                    ..page
                }),
                Message::Playlist(playlist) => t == (SettingsPage {
                    settings: Settings {
                        automation: Automation { playlist, ..s.automation },
                        ..s
                    },
                    ..page
                }),
                Message::Template(template) => t == (SettingsPage {
                    settings: Settings {
                        automation: Automation { template, ..s.automation },
                        ..s
                    },
                    ..page
                }),
                Message::Browser(cookies_browser) => t == (SettingsPage {
                    settings: Settings { sign_in: SignIn { cookies_browser, ..s.sign_in }, ..s },
                    ..page
                }),
                Message::FolderChosen(Some(folder)) => t == (SettingsPage {
                    settings: Settings { output_dir: folder, ..s },
                    ..page
                }),
                Message::FolderChosen(None) | Message::ChooseFolder => t == page,
                _ => true,
            }
        }),
{
}

/// What the buttons of the history change: asking to clear it brings up the question, answering it
/// either way takes the question away, and the list of entries is closed.
pub proof fn law_the_history_buttons_change_only_what_is_open(page: SettingsPage)
    ensures
        settings::changed(page, Message::ClearHistory) == (SettingsPage {
            clearing_history: true,
            ..page
        }),
        settings::changed(page, Message::CancelClearHistory) == (SettingsPage {
            clearing_history: false,
            ..page
        }),
        settings::changed(page, Message::ConfirmClearHistory) == (SettingsPage {
            clearing_history: false,
            ..page
        }),
        settings::changed(page, Message::ToggleHistoryList) == (SettingsPage {
            history_list: None,
            ..page
        }),
{
}

/// What a message asks for: whatever is switched or chosen is saved, and the history counted anew;
/// typing saves nothing yet, and only a new name of the history file has it counted anew; only the
/// answer to the question removes the history; and the entries are read when they are to be shown.
pub proof fn law_what_is_chosen_is_saved(page: SettingsPage, message: Message)
    ensures
        ({
            let effect = settings::asks(page, message);
            match message {
                Message::Text(field, _) => if field is ArchiveFile {
                    effect is Refresh
                } else {
                    effect is Nothing
                },
                Message::Toggle(..)
                | Message::Kind(_)
                | Message::VideoFormat(_)
                | Message::Quality(_)
                | Message::Audio(_)
                | Message::AudioQuality(_)
                | Message::Container(_)
                | Message::Convert(_)
                | Message::ThumbFormat(_)
                | Message::Subs(_)
                | Message::Sponsor(_)
                | Message::Cats(_)
                | Message::Playlist(_)
                | Message::Template(_)
                | Message::Browser(_) => effect is RefreshAndSave,
                Message::FolderChosen(folder) => if folder is Some {
                    effect is RefreshAndSave
                } else {
                    effect is Nothing
                },
                Message::ConfirmClearHistory => effect is RemoveHistory,
                Message::ToggleHistoryList => if page.history_list is None {
                    effect is ListHistory
                } else {
                    effect is Nothing
                },
                Message::ClearHistory | Message::CancelClearHistory | Message::ChooseFolder =>
                    effect is Nothing,
            }
        }),
{
}

/// The history is counted exactly while one is kept, a list of its entries that is open shows what
/// they are now, one that is closed stays closed, and nothing else of the page changes.
pub proof fn law_the_history_is_counted_while_it_is_kept(page: SettingsPage, file: HistoryFile)
    ensures
        ({
            let t = settings::refreshed(page, file);
            &&& page.settings.automation.archive ==> t.history == file.count
            &&& !page.settings.automation.archive ==> t.history is None
            &&& page.history_list is Some ==> t.history_list == file.lines
            &&& page.history_list is None ==> t.history_list is None
            &&& t.settings == page.settings
            &&& t.clearing_history == page.clearing_history
        }),
{
}

/// What is said when the history was to be removed: how much was in it, that there was none, or
/// what went wrong.
pub proof fn law_clearing_the_history_says_what_became_of_it(
    entries: Option<usize>,
    removal: Removal,
)
    ensures
        ({
            let note = settings::cleared(entries, removal);
            match removal {
                Removal::Removed => {
                    &&& note.level is Okay
                    &&& entries is Some ==> note.text == "History cleared ("@ + text::decimal(
                        entries->0 as nat,
                    ) + " entries)."@
                    &&& entries is None ==> note.text == "History cleared ("@ + text::decimal(0)
                        + " entries)."@
                },
                Removal::NotFound => note.level is Info && note.text
                    == "There is no history file yet."@,
                Removal::Failed(e) => note.level is Warn && note.text
                    == "Could not clear the history: "@ + e@,
            }
        }),
{
}

/// The entries that are shown are those that were read, and a history that was removed is neither
/// counted nor shown. The settings and the question stay as they are.
pub proof fn law_a_removed_history_is_not_shown(page: SettingsPage, lines: Option<Vec<String>>)
    ensures
        ({
            let shown = settings::opened(page, lines);
            let gone = settings::without_history(page);
            &&& shown.history_list == lines && shown.history == page.history
            &&& gone.history_list is None && gone.history is None
            &&& shown.settings == page.settings && gone.settings == page.settings
            &&& shown.clearing_history == page.clearing_history
            &&& gone.clearing_history == page.clearing_history
        }),
{
}

/// The theme is a setting of its own: picking one changes nothing else.
pub proof fn law_the_theme_is_a_setting_of_its_own(page: SettingsPage, pref: ThemePref)
    ensures
        ({
            let t = settings::themed(page, pref);
            let (a, b) = (page.settings, t.settings);
            &&& b.theme == pref
            &&& b.format == a.format && b.extras == a.extras && b.automation == a.automation
            &&& b.sign_in == a.sign_in && b.advanced == a.advanced && b.output_dir == a.output_dir
            &&& t.history == page.history && t.history_list == page.history_list
            &&& t.clearing_history == page.clearing_history
        }),
{
}

/// The page starts with its settings, the history as it is while one is kept, and nothing open.
pub proof fn law_the_page_starts_with_nothing_open(
    settings: Settings,
    file: HistoryFile,
    page: SettingsPage,
)
    requires
        call_ensures(SettingsPage::new, (settings, file), page),
    ensures
        page.settings == settings,
        page.history_list is None,
        !page.clearing_history,
        settings.automation.archive ==> page.history == file.count,
        !settings.automation.archive ==> page.history is None,
{
}

/// Settings that were saved are not worth a line, and those that could not be are, with the reason.
pub proof fn law_only_a_failed_save_is_told(
    page: SettingsPage,
    written: Result<(), String>,
    r: Option<Note>,
)
    requires
        call_ensures(SettingsPage::save, (&page, written), r),
    ensures
        r is Some <==> written is Err,
        r is Some ==> r->0.level is Warn && r->0.text@ == "Could not save the settings: "@
            + written->Err_0@,
{
}

// ---------------------------------------------------------------------------
// What a control is called and shows
// ---------------------------------------------------------------------------

/// Whether a control is called after the setting it changes, shows what that is, and hints at what
/// could be typed.
pub open spec fn named(c: Control<Seq<char>, Seq<Seq<char>>>, s: Settings) -> bool {
    match c {
        Control::Radio { label, kind, chosen } => chosen == s.format.kind && match kind {
            Kind::VideoAudio => label == "Video and audio"@,
            Kind::AudioOnly => label == "Audio only"@,
        },
        Control::Pick { label, pick } => match pick {
            Pick::VideoFormat(v) => label == "Format"@ && v == s.format.video_format,
            Pick::Quality(v) => label == "Quality"@ && v == s.format.quality,
            Pick::Container(v) => label == "Container"@ && v == s.format.container,
            Pick::Convert(v) => label == "Convert the container"@ && v == s.format.convert,
            Pick::Audio(v) => label == "Audio format"@ && v == s.format.audio,
            Pick::AudioQuality(v) => label == "Audio quality (0 best, 10 smallest)"@ && v
                == s.format.audio_quality,
            Pick::Thumb(v) => label == "Thumbnail format"@ && v == s.extras.thumbnail_format,
            Pick::Subs(v) => label == "Subtitles"@ && v == s.extras.subs,
            Pick::Sponsor(v) => label == "SponsorBlock"@ && v == s.extras.sponsor,
            Pick::Cats(v) => label == "Segments"@ && v == s.extras.cats,
            Pick::Playlist(v) => label == "Playlists"@ && v == s.automation.playlist,
            Pick::Template(v) => label == "File names"@ && v == s.automation.template,
            Pick::Browser(v) => label == "Use cookies from"@ && v == s.sign_in.cookies_browser,
        },
        Control::Input { label, placeholder, field, value, width } => match field {
            Field::CustomFormat => {
                &&& label == "Format string"@ && placeholder == "bestvideo+bestaudio"@
                &&& value == s.format.custom_format@ && width == 300
            },
            Field::ConvertTarget => {
                &&& label == "Convert to"@ && placeholder == "mp4"@
                &&& value == s.format.convert_target@ && width == 160
            },
            Field::SubLangs => {
                &&& label == "Languages"@ && placeholder == "all but live chat"@
                &&& value == s.extras.sub_langs@ && width == 240
            },
            Field::CustomCats => {
                &&& label == "Categories"@ && placeholder == "sponsor,intro,outro"@
                &&& value == s.extras.custom_cats@ && width == 240
            },
            Field::PlaylistItems => {
                &&& label == "Items (empty for all)"@ && placeholder == "1-5,8"@
                &&& value == s.automation.playlist_items@ && width == 160
            },
            Field::ArchiveFile => {
                &&& label == "History file"@ && placeholder == "download_archive.txt"@
                &&& value == s.automation.archive_file@ && width == 240
            },
            Field::MaxDownloads => {
                &&& label == "Stop after this many files"@ && placeholder == "no limit"@
                &&& value == s.automation.max_downloads@ && width == 160
            },
            Field::CustomTemplate => {
                &&& label == "Template"@ && placeholder == "%(title)s [%(id)s].%(ext)s"@
                &&& value == s.automation.custom_template@ && width == 300
            },
            Field::CookiesProfile => {
                &&& label == "Profile (empty for the last used)"@ && placeholder == "default"@
                &&& value == s.sign_in.cookies_profile@ && width == 240
            },
            Field::LimitRate => {
                &&& label == "Speed limit"@ && placeholder == "no limit"@
                &&& value == s.advanced.limit_rate@ && width == 160
            },
            Field::Fragments => {
                &&& label == "Parts downloaded at once"@ && placeholder == "5"@
                &&& value == s.advanced.fragments@ && width == 160
            },
            Field::Sleep => {
                &&& label == "Seconds between requests"@ && placeholder == "1.5"@
                &&& value == s.advanced.sleep@ && width == 160
            },
            Field::WaitForVideo => {
                &&& label == "Wait for a scheduled stream (seconds)"@ && placeholder == "60-3600"@
                &&& value == s.advanced.wait_for_video@ && width == 160
            },
            Field::OutputDir => false,
        },
        Control::Toggle { label, flag, on } => match flag {
            Flag::AudioConvert => label == "Convert it to another format"@ && on
                == s.format.audio_convert,
            Flag::Thumbnail => label == "Embed the thumbnail"@ && on == s.extras.thumbnail,
            Flag::Metadata => label == "Embed title, artist and date"@ && on == s.extras.metadata,
            Flag::Chapters => label == "Embed chapters"@ && on == s.extras.chapters,
            Flag::AutoSubs => label == "Include auto-generated subtitles"@ && on
                == s.extras.auto_subs,
            Flag::Keyframes => label == "Cut exactly at keyframes (re-encodes, much slower)"@
                && on == s.extras.keyframes,
            Flag::PlaylistReverse => label == "Start from the end of the playlist"@ && on
                == s.automation.playlist_reverse,
            Flag::Organize => label == "One folder per playlist, numbered"@ && on
                == s.automation.organize,
            Flag::Archive => label == "Keep a history and skip what was downloaded before"@ && on
                == s.automation.archive,
            Flag::ArchiveStop => label == "Stop as soon as a video is already in the history"@
                && on == s.automation.archive_stop,
            Flag::Restrict => label == "Plain ASCII file names"@ && on
                == s.automation.restrict_filenames,
            Flag::LiveFromStart => label == "Record live streams from the start"@ && on
                == s.advanced.live_from_start,
            Flag::Mtime => label == "Keep the original upload date on the file"@ && on
                == s.advanced.preserve_mtime,
            Flag::IgnoreErrors => label == "Keep going when one video of a playlist fails"@ && on
                == s.advanced.ignore_errors,
            Flag::Verbose => label == "Verbose log (for troubleshooting)"@ && on
                == s.advanced.verbose,
        },
        Control::Folder { field, value, choice, .. } => {
            &&& field is OutputDir && value == s.output_dir@
            &&& choice.label == "Choose..."@ && choice.press == Some(Message::ChooseFolder)
        },
        Control::Remark(_) | Control::History(_) => true,
    }
}

/// Whether all of some controls are called after what they change.
#[verifier::opaque]
pub open spec fn all_named(cs: Seq<Control<Seq<char>, Seq<Seq<char>>>>, s: Settings) -> bool {
    forall|i: int| 0 <= i < cs.len() ==> named(#[trigger] cs[i], s)
}

broadcast proof fn lemma_none_named(s: Settings)
    ensures
        #[trigger] all_named(Seq::empty(), s),
{
    reveal(all_named);
}

broadcast proof fn lemma_more_named(
    cs: Seq<Control<Seq<char>, Seq<Seq<char>>>>,
    c: Control<Seq<char>, Seq<Seq<char>>>,
    s: Settings,
)
    requires
        all_named(cs, s),
        named(c, s),
    ensures
        #[trigger] all_named(cs.push(c), s),
{
    reveal(all_named);
}

broadcast proof fn lemma_both_named(
    front: Seq<Control<Seq<char>, Seq<Seq<char>>>>,
    back: Seq<Control<Seq<char>, Seq<Seq<char>>>>,
    s: Settings,
)
    requires
        all_named(front, s),
        all_named(back, s),
    ensures
        #[trigger] all_named(front + back, s),
{
    reveal(all_named);
}

broadcast group group_named {
    lemma_none_named,
    lemma_more_named,
    lemma_both_named,
}

#[verifier::rlimit(40)]
proof fn lemma_format_named(s: Settings, lossless: bool)
    ensures
        all_named(sections::format_controls(s.format, lossless), s),
{
    broadcast use group_named;

    let f = s.format;
    assert(all_named(sections::video_controls(f), s));
    assert(all_named(sections::audio_controls(f, lossless), s));
    let radios = seq![
        Control::<Seq<char>, Seq<Seq<char>>>::Radio {
            label: "Video and audio"@,
            kind: Kind::VideoAudio,
            chosen: f.kind,
        },
        Control::Radio { label: "Audio only"@, kind: Kind::AudioOnly, chosen: f.kind },
    ];
    assert(all_named(radios, s)) by {
        reveal(all_named);
    }
}

#[verifier::rlimit(40)]
proof fn lemma_others_named(s: Settings, paths: Paths, history: History)
    ensures
        all_named(sections::extras_controls(s.extras), s),
        all_named(sections::automation_controls(s.automation, history), s),
        all_named(sections::sign_in_controls(s.sign_in), s),
        all_named(sections::advanced_controls(s.advanced), s),
        all_named(sections::destination_controls(s, paths), s),
{
    broadcast use group_named;

}

/// Every control of every card is called after the setting that it changes, and shows that one.
pub proof fn law_every_label_names_its_setting(
    s: Settings,
    paths: Paths,
    history: History,
    lossless: bool,
    i: int,
    j: int,
)
    requires
        0 <= i < sections::page_cards(s, paths, history, lossless).len(),
        0 <= j < sections::page_cards(s, paths, history, lossless)[i].controls.len(),
    ensures
        named(sections::page_cards(s, paths, history, lossless)[i].controls[j], s),
{
    lemma_format_named(s, lossless);
    lemma_others_named(s, paths, history);
    reveal(all_named);
    let cards = sections::page_cards(s, paths, history, lossless);
    assert(all_named(cards[i].controls, s));
}

proof fn lemma_input_labels_differ()
    ensures
        "Format string"@.len() == 13,
        "Convert to"@.len() == 10,
        "Languages"@.len() == 9,
        "Categories"@.len() == 10,
        "Items (empty for all)"@.len() == 21,
        "History file"@.len() == 12,
        "Stop after this many files"@.len() == 26,
        "Template"@.len() == 8,
        "Profile (empty for the last used)"@.len() == 33,
        "Speed limit"@.len() == 11,
        "Parts downloaded at once"@.len() == 24,
        "Seconds between requests"@.len() == 24,
        "Wait for a scheduled stream (seconds)"@.len() == 37,
        "Convert to"@[1] == 'o',
        "Categories"@[1] == 'a',
        "Parts downloaded at once"@[0] == 'P',
        "Seconds between requests"@[0] == 'S',
{
    reveal_strlit("Format string");
    reveal_strlit("Convert to");
    reveal_strlit("Languages");
    reveal_strlit("Categories");
    reveal_strlit("Items (empty for all)");
    reveal_strlit("History file");
    reveal_strlit("Stop after this many files");
    reveal_strlit("Template");
    reveal_strlit("Profile (empty for the last used)");
    reveal_strlit("Speed limit");
    reveal_strlit("Parts downloaded at once");
    reveal_strlit("Seconds between requests");
    reveal_strlit("Wait for a scheduled stream (seconds)");
}

/// Typing into the control with a label changes the setting which that label names to what was
/// typed, and no other.
#[verifier::rlimit(40)]
pub proof fn law_typing_under_a_label_changes_what_it_names(
    page: SettingsPage,
    paths: Paths,
    lossless: bool,
    i: int,
    j: int,
    value: String,
)
    requires
        0 <= i < sections::page_cards(
            page.settings,
            paths,
            sections::history_of(page),
            lossless,
        ).len(),
        0 <= j < sections::page_cards(
            page.settings,
            paths,
            sections::history_of(page),
            lossless,
        )[i].controls.len(),
        sections::page_cards(
            page.settings,
            paths,
            sections::history_of(page),
            lossless,
        )[i].controls[j] is Input,
    ensures
        ({
            let s = page.settings;
            let c = sections::page_cards(
                s,
                paths,
                sections::history_of(page),
                lossless,
            )[i].controls[j];
            let label = c->Input_label;
            let t = settings::changed(page, Message::Text(c->Input_field, value));
            &&& t == (SettingsPage { settings: t.settings, ..page })
            &&& label == "Format string"@ ==> t.settings == (Settings {
                format: Format { custom_format: value, ..s.format },
                ..s
            })
            &&& label == "Convert to"@ ==> t.settings == (Settings {
                format: Format { convert_target: value, ..s.format },
                ..s
            })
            &&& label == "Languages"@ ==> t.settings == (Settings {
                extras: Extras { sub_langs: value, ..s.extras },
                ..s
            })
            &&& label == "Categories"@ ==> t.settings == (Settings {
                extras: Extras { custom_cats: value, ..s.extras },
                ..s
            })
            &&& label == "Items (empty for all)"@ ==> t.settings == (Settings {
                automation: Automation { playlist_items: value, ..s.automation },
                ..s
            })
            &&& label == "History file"@ ==> t.settings == (Settings {
                automation: Automation { archive_file: value, ..s.automation },
                ..s
            })
            &&& label == "Stop after this many files"@ ==> t.settings == (Settings {
                automation: Automation { max_downloads: value, ..s.automation },
                ..s
            })
            &&& label == "Template"@ ==> t.settings == (Settings {
                automation: Automation { custom_template: value, ..s.automation },
                ..s
            })
            &&& label == "Profile (empty for the last used)"@ ==> t.settings == (Settings {
                sign_in: SignIn { cookies_profile: value, ..s.sign_in },
                ..s
            })
            &&& label == "Speed limit"@ ==> t.settings == (Settings {
                advanced: Advanced { limit_rate: value, ..s.advanced },
                ..s
            })
            &&& label == "Parts downloaded at once"@ ==> t.settings == (Settings {
                advanced: Advanced { fragments: value, ..s.advanced },
                ..s
            })
            &&& label == "Seconds between requests"@ ==> t.settings == (Settings {
                advanced: Advanced { sleep: value, ..s.advanced },
                ..s
            })
            &&& label == "Wait for a scheduled stream (seconds)"@ ==> t.settings == (Settings {
                advanced: Advanced { wait_for_video: value, ..s.advanced },
                ..s
            })
        }),
{
    law_every_label_names_its_setting(
        page.settings,
        paths,
        sections::history_of(page),
        lossless,
        i,
        j,
    );
    lemma_input_labels_differ();
}

proof fn lemma_switch_labels_differ()
    ensures
        "Convert it to another format"@.len() == 28,
        "Embed the thumbnail"@.len() == 19,
        "Embed title, artist and date"@.len() == 28,
        "Embed chapters"@.len() == 14,
        "Include auto-generated subtitles"@.len() == 32,
        "Cut exactly at keyframes (re-encodes, much slower)"@.len() == 50,
        "Start from the end of the playlist"@.len() == 34,
        "One folder per playlist, numbered"@.len() == 33,
        "Keep a history and skip what was downloaded before"@.len() == 50,
        "Stop as soon as a video is already in the history"@.len() == 49,
        "Plain ASCII file names"@.len() == 22,
        "Record live streams from the start"@.len() == 34,
        "Keep the original upload date on the file"@.len() == 41,
        "Keep going when one video of a playlist fails"@.len() == 45,
        "Verbose log (for troubleshooting)"@.len() == 33,
        "Convert it to another format"@[0] == 'C',
        "Embed title, artist and date"@[0] == 'E',
        "Cut exactly at keyframes (re-encodes, much slower)"@[0] == 'C',
        "Keep a history and skip what was downloaded before"@[0] == 'K',
        "Start from the end of the playlist"@[0] == 'S',
        "Record live streams from the start"@[0] == 'R',
        "One folder per playlist, numbered"@[0] == 'O',
        "Verbose log (for troubleshooting)"@[0] == 'V',
{
    reveal_strlit("Convert it to another format");
    reveal_strlit("Embed the thumbnail");
    reveal_strlit("Embed title, artist and date");
    reveal_strlit("Embed chapters");
    reveal_strlit("Include auto-generated subtitles");
    reveal_strlit("Cut exactly at keyframes (re-encodes, much slower)");
    reveal_strlit("Start from the end of the playlist");
    reveal_strlit("One folder per playlist, numbered");
    reveal_strlit("Keep a history and skip what was downloaded before");
    reveal_strlit("Stop as soon as a video is already in the history");
    reveal_strlit("Plain ASCII file names");
    reveal_strlit("Record live streams from the start");
    reveal_strlit("Keep the original upload date on the file");
    reveal_strlit("Keep going when one video of a playlist fails");
    reveal_strlit("Verbose log (for troubleshooting)");
}

/// The switch with a label switches the setting which that label names, and no other.
#[verifier::rlimit(40)]
pub proof fn law_switching_under_a_label_changes_what_it_names(
    page: SettingsPage,
    paths: Paths,
    lossless: bool,
    i: int,
    j: int,
    on: bool,
)
    requires
        0 <= i < sections::page_cards(
            page.settings,
            paths,
            sections::history_of(page),
            lossless,
        ).len(),
        0 <= j < sections::page_cards(
            page.settings,
            paths,
            sections::history_of(page),
            lossless,
        )[i].controls.len(),
        sections::page_cards(
            page.settings,
            paths,
            sections::history_of(page),
            lossless,
        )[i].controls[j] is Toggle,
    ensures
        ({
            let s = page.settings;
            let c = sections::page_cards(
                s,
                paths,
                sections::history_of(page),
                lossless,
            )[i].controls[j];
            let label = c->Toggle_label;
            let t = settings::changed(page, Message::Toggle(c->flag, on));
            &&& t == (SettingsPage { settings: t.settings, ..page })
            &&& label == "Convert it to another format"@ ==> t.settings == (Settings {
                format: Format { audio_convert: on, ..s.format },
                ..s
            })
            &&& label == "Embed the thumbnail"@ ==> t.settings == (Settings {
                extras: Extras { thumbnail: on, ..s.extras },
                ..s
            })
            &&& label == "Embed title, artist and date"@ ==> t.settings == (Settings {
                extras: Extras { metadata: on, ..s.extras },
                ..s
            })
            &&& label == "Embed chapters"@ ==> t.settings == (Settings {
                extras: Extras { chapters: on, ..s.extras },
                ..s
            })
            &&& label == "Include auto-generated subtitles"@ ==> t.settings == (Settings {
                extras: Extras { auto_subs: on, ..s.extras },
                ..s
            })
            &&& label == "Cut exactly at keyframes (re-encodes, much slower)"@ ==> t.settings == (Settings {
                extras: Extras { keyframes: on, ..s.extras },
                ..s
            })
            &&& label == "Start from the end of the playlist"@ ==> t.settings == (Settings {
                automation: Automation { playlist_reverse: on, ..s.automation },
                ..s
            })
            &&& label == "One folder per playlist, numbered"@ ==> t.settings == (Settings {
                automation: Automation { organize: on, ..s.automation },
                ..s
            })
            &&& label == "Keep a history and skip what was downloaded before"@ ==> t.settings == (Settings {
                automation: Automation { archive: on, ..s.automation },
                ..s
            })
            &&& label == "Stop as soon as a video is already in the history"@ ==> t.settings == (Settings {
                automation: Automation { archive_stop: on, ..s.automation },
                ..s
            })
            &&& label == "Plain ASCII file names"@ ==> t.settings == (Settings {
                automation: Automation { restrict_filenames: on, ..s.automation },
                ..s
            })
            &&& label == "Record live streams from the start"@ ==> t.settings == (Settings {
                advanced: Advanced { live_from_start: on, ..s.advanced },
                ..s
            })
            &&& label == "Keep the original upload date on the file"@ ==> t.settings == (Settings {
                advanced: Advanced { preserve_mtime: on, ..s.advanced },
                ..s
            })
            &&& label == "Keep going when one video of a playlist fails"@ ==> t.settings == (Settings {
                advanced: Advanced { ignore_errors: on, ..s.advanced },
                ..s
            })
            &&& label == "Verbose log (for troubleshooting)"@ ==> t.settings == (Settings {
                advanced: Advanced { verbose: on, ..s.advanced },
                ..s
            })
        }),
{
    law_every_label_names_its_setting(
        page.settings,
        paths,
        sections::history_of(page),
        lossless,
        i,
        j,
    );
    lemma_switch_labels_differ();
}

/// A control is what it is described as: the one that is drawn is the one that is meant.
pub proof fn law_a_control_is_what_it_is_described_as(c: sections::Control)
    ensures
        match c {
            Control::Radio { label, kind, chosen } => c@ == (Control::<
                Seq<char>,
                Seq<Seq<char>>,
            >::Radio { label: label@, kind, chosen }),
            Control::Pick { label, pick } => c@ == (Control::<Seq<char>, Seq<Seq<char>>>::Pick {
                label: label@,
                pick,
            }),
            Control::Input { label, placeholder, field, value, width } => c@ == (Control::<
                Seq<char>,
                Seq<Seq<char>>,
            >::Input { label: label@, placeholder: placeholder@, field, value: value@, width }),
            Control::Toggle { label, flag, on } => c@ == (Control::<
                Seq<char>,
                Seq<Seq<char>>,
            >::Toggle { label: label@, flag, on }),
            Control::Remark(line) => c@ == Control::<Seq<char>, Seq<Seq<char>>>::Remark(line@),
            Control::History(row) => c@ == Control::<Seq<char>, Seq<Seq<char>>>::History(row@),
            Control::Folder { placeholder, field, value, choice } => {
                &&& c@ is Folder
                &&& c@->Folder_placeholder == placeholder@
                &&& c@->Folder_field == field
                &&& c@->Folder_value == value@
                &&& c@->choice.label == choice.label@
                &&& c@->choice.look == choice.look
                &&& c@->choice.press == choice.press
            },
        },
{
}

/// The row of the history is what it is described as, and so is the list of its entries.
pub proof fn law_the_history_row_is_what_it_is_described_as(row: sections::HistoryRow)
    ensures
        match row {
            HistoryRow::Confirm { warning, cancel, clear } => {
                &&& row@ is Confirm
                &&& row@->warning == warning@
                &&& row@->cancel.label == cancel.label@ && row@->cancel.look == cancel.look
                &&& row@->cancel.press == cancel.press
                &&& row@->Confirm_clear.label == clear.label@
                &&& row@->Confirm_clear.look == clear.look
                &&& row@->Confirm_clear.press == clear.press
            },
            HistoryRow::Summary { summary, entries, clear, list } => {
                &&& row@ is Summary
                &&& row@->summary == summary@
                &&& row@->Summary_entries.label == entries.label@
                &&& row@->Summary_entries.look == entries.look
                &&& row@->Summary_entries.press == entries.press
                &&& row@->Summary_clear.label == clear.label@
                &&& row@->Summary_clear.look == clear.look
                &&& row@->Summary_clear.press == clear.press
                &&& row@->list is Some <==> list is Some
                &&& list is Some ==> match list->0 {
                    HistoryList::Remark(line) => row@->list->0 == HistoryList::<
                        Seq<char>,
                        Seq<Seq<char>>,
                    >::Remark(line@),
                    HistoryList::Lines(lines) => {
                        &&& row@->list->0 is Lines
                        &&& row@->list->0->Lines_0.len() == lines@.len()
                        &&& forall|i: int|
                            0 <= i < lines@.len() ==> #[trigger] row@->list->0->Lines_0[i]
                                == lines@[i]@
                    },
                }
            },
        },
{
}

/// A card holds its title and its controls, one by one.
pub proof fn law_a_page_card_is_what_it_is_described_as(card: sections::Card, i: int)
    requires
        0 <= i < card.controls@.len(),
    ensures
        card@.title == card.title@,
        card@.controls.len() == card.controls@.len(),
        card@.controls[i] == card.controls@[i]@,
{
}

// ---------------------------------------------------------------------------
// When a control is there
// ---------------------------------------------------------------------------

/// Being an input for `field`.
pub open spec fn types(field: Field) -> spec_fn(Control<Seq<char>, Seq<Seq<char>>>) -> bool {
    |c: Control<Seq<char>, Seq<Seq<char>>>| c is Input && c->Input_field == field
}

/// Being a switch for `flag`.
pub open spec fn switches(flag: Flag) -> spec_fn(Control<Seq<char>, Seq<Seq<char>>>) -> bool {
    |c: Control<Seq<char>, Seq<Seq<char>>>| c is Toggle && c->flag == flag
}

/// Being a list that shows `pick`.
pub open spec fn picks(pick: Pick) -> spec_fn(Control<Seq<char>, Seq<Seq<char>>>) -> bool {
    |c: Control<Seq<char>, Seq<Seq<char>>>| c is Pick && c->pick == pick
}

/// Being a muted text.
pub open spec fn remarks(line: Seq<char>) -> spec_fn(Control<Seq<char>, Seq<Seq<char>>>) -> bool {
    |c: Control<Seq<char>, Seq<Seq<char>>>| c is Remark && c->Remark_0 == line
}

/// Being the button of one of the kinds.
pub open spec fn offers(kind: Kind) -> spec_fn(Control<Seq<char>, Seq<Seq<char>>>) -> bool {
    |c: Control<Seq<char>, Seq<Seq<char>>>| c is Radio && c->kind == kind
}

/// Being the row of the history.
pub open spec fn is_history() -> spec_fn(Control<Seq<char>, Seq<Seq<char>>>) -> bool {
    |c: Control<Seq<char>, Seq<Seq<char>>>| c is History
}

/// Whether some control among `cs` is such a one.
#[verifier::opaque]
pub open spec fn has(
    cs: Seq<Control<Seq<char>, Seq<Seq<char>>>>,
    p: spec_fn(Control<Seq<char>, Seq<Seq<char>>>) -> bool,
) -> bool {
    exists|i: int| 0 <= i < cs.len() && p(#[trigger] cs[i])
}

broadcast proof fn lemma_none_has(p: spec_fn(Control<Seq<char>, Seq<Seq<char>>>) -> bool)
    ensures
        !#[trigger] has(Seq::empty(), p),
{
    reveal(has);
}

broadcast proof fn lemma_more_has(
    cs: Seq<Control<Seq<char>, Seq<Seq<char>>>>,
    c: Control<Seq<char>, Seq<Seq<char>>>,
    p: spec_fn(Control<Seq<char>, Seq<Seq<char>>>) -> bool,
)
    ensures
        #[trigger] has(cs.push(c), p) <==> has(cs, p) || p(c),
{
    reveal(has);
    let all = cs.push(c);
    if has(cs, p) {
        let i = choose|i: int| 0 <= i < cs.len() && p(#[trigger] cs[i]);
        assert(p(all[i]));
    }
    if p(c) {
        assert(p(all[cs.len() as int]));
    }
    if has(all, p) {
        let i = choose|i: int| 0 <= i < all.len() && p(#[trigger] all[i]);
        if i < cs.len() {
            assert(p(cs[i]));
        }
    }
}

broadcast proof fn lemma_either_has(
    front: Seq<Control<Seq<char>, Seq<Seq<char>>>>,
    back: Seq<Control<Seq<char>, Seq<Seq<char>>>>,
    p: spec_fn(Control<Seq<char>, Seq<Seq<char>>>) -> bool,
)
    ensures
        #[trigger] has(front + back, p) <==> has(front, p) || has(back, p),
{
    reveal(has);
    let all = front + back;
    if has(front, p) {
        let i = choose|i: int| 0 <= i < front.len() && p(#[trigger] front[i]);
        assert(p(all[i]));
    }
    if has(back, p) {
        let i = choose|i: int| 0 <= i < back.len() && p(#[trigger] back[i]);
        assert(p(all[front.len() + i]));
    }
    if has(all, p) {
        let i = choose|i: int| 0 <= i < all.len() && p(#[trigger] all[i]);
        if i < front.len() {
            assert(p(front[i]));
        } else {
            assert(p(back[i - front.len()]));
        }
    }
}

broadcast group group_has {
    lemma_none_has,
    lemma_more_has,
    lemma_either_has,
}

proof fn lemma_format_has(
    f: Format,
    lossless: bool,
    p: spec_fn(Control<Seq<char>, Seq<Seq<char>>>) -> bool,
)
    ensures
        has(sections::format_controls(f, lossless), p) <==> {
            let both = Control::Radio {
                label: "Video and audio"@,
                kind: Kind::VideoAudio,
                chosen: f.kind,
            };
            let only = Control::Radio {
                label: "Audio only"@,
                kind: Kind::AudioOnly,
                chosen: f.kind,
            };
            ||| p(both)
            ||| p(only)
            ||| f.kind is VideoAudio && has(sections::video_controls(f), p)
            ||| f.kind is AudioOnly && has(sections::audio_controls(f, lossless), p)
        },
{
    let both = Control::Radio {
        label: "Video and audio"@,
        kind: Kind::VideoAudio,
        chosen: f.kind,
    };
    let only = Control::Radio { label: "Audio only"@, kind: Kind::AudioOnly, chosen: f.kind };
    let none = Seq::<Control<Seq<char>, Seq<Seq<char>>>>::empty();
    lemma_none_has(p);
    lemma_more_has(none, both, p);
    lemma_more_has(none.push(both), only, p);
    let radios = none.push(both).push(only);
    lemma_either_has(radios, sections::video_controls(f), p);
    lemma_either_has(radios, sections::audio_controls(f, lossless), p);
    assert(radios =~= seq![both, only]);
}

#[verifier::rlimit(40)]
proof fn lemma_video_has(f: Format, p: spec_fn(Control<Seq<char>, Seq<Seq<char>>>) -> bool)
    ensures
        has(sections::video_controls(f), p) <==> {
            ||| p(Control::Pick { label: "Format"@, pick: Pick::VideoFormat(f.video_format) })
            ||| f.video_format is Custom && p(
                Control::Input {
                    label: "Format string"@,
                    placeholder: "bestvideo+bestaudio"@,
                    field: Field::CustomFormat,
                    value: f.custom_format@,
                    width: 300,
                },
            )
            ||| p(Control::Pick { label: "Quality"@, pick: Pick::Quality(f.quality) })
            ||| p(Control::Pick { label: "Container"@, pick: Pick::Container(f.container) })
            ||| p(Control::Pick { label: "Convert the container"@, pick: Pick::Convert(f.convert) })
            ||| !(f.convert is Keep) && p(
                Control::Input {
                    label: "Convert to"@,
                    placeholder: "mp4"@,
                    field: Field::ConvertTarget,
                    value: f.convert_target@,
                    width: 160,
                },
            )
        },
{
    broadcast use group_has;

}

#[verifier::rlimit(40)]
proof fn lemma_audio_has(
    f: Format,
    lossless: bool,
    p: spec_fn(Control<Seq<char>, Seq<Seq<char>>>) -> bool,
)
    ensures
        has(sections::audio_controls(f, lossless), p) <==> {
            ||| p(
                Control::Toggle {
                    label: "Convert it to another format"@,
                    flag: Flag::AudioConvert,
                    on: f.audio_convert,
                },
            )
            ||| f.audio_convert && p(
                Control::Pick { label: "Audio format"@, pick: Pick::Audio(f.audio) },
            )
            ||| f.audio_convert && !lossless && p(
                Control::Pick {
                    label: "Audio quality (0 best, 10 smallest)"@,
                    pick: Pick::AudioQuality(f.audio_quality),
                },
            )
            ||| !f.audio_convert && p(
                Control::Remark("The audio is kept exactly as the site serves it."@),
            )
        },
{
    broadcast use group_has;

}

/// What the card on what to download offers: the two kinds always; for a video its format, quality,
/// container and conversion, and for audio whether and how to convert it. What has to be typed is
/// asked only where it is chosen to be typed, and a quality only where a conversion loses some.
#[verifier::rlimit(40)]
pub proof fn law_what_can_be_asked_of_a_download(
    s: Settings,
    paths: Paths,
    history: History,
    lossless: bool,
)
    ensures
        ({
            let cs = sections::page_cards(s, paths, history, lossless)[0].controls;
            &&& has(cs, offers(Kind::VideoAudio))
            &&& has(cs, offers(Kind::AudioOnly))
            &&& has(cs, picks(Pick::VideoFormat(s.format.video_format)))
                <==> s.format.kind is VideoAudio
            &&& has(cs, types(Field::CustomFormat))
                <==> s.format.kind is VideoAudio && s.format.video_format is Custom
            &&& has(cs, picks(Pick::Quality(s.format.quality))) <==> s.format.kind is VideoAudio
            &&& has(cs, picks(Pick::Container(s.format.container))) <==> s.format.kind is VideoAudio
            &&& has(cs, picks(Pick::Convert(s.format.convert))) <==> s.format.kind is VideoAudio
            &&& has(cs, types(Field::ConvertTarget))
                <==> s.format.kind is VideoAudio && !(s.format.convert is Keep)
            &&& has(cs, switches(Flag::AudioConvert)) <==> s.format.kind is AudioOnly
            &&& has(cs, picks(Pick::Audio(s.format.audio)))
                <==> s.format.kind is AudioOnly && s.format.audio_convert
            &&& has(cs, picks(Pick::AudioQuality(s.format.audio_quality)))
                <==> s.format.kind is AudioOnly && s.format.audio_convert && !lossless
            &&& has(cs, remarks("The audio is kept exactly as the site serves it."@))
                <==> s.format.kind is AudioOnly && !s.format.audio_convert
        }),
{
    let f = s.format;
    lemma_format_has(f, lossless, offers(Kind::VideoAudio));
    lemma_video_has(f, offers(Kind::VideoAudio));
    lemma_audio_has(f, lossless, offers(Kind::VideoAudio));
    lemma_format_has(f, lossless, offers(Kind::AudioOnly));
    lemma_video_has(f, offers(Kind::AudioOnly));
    lemma_audio_has(f, lossless, offers(Kind::AudioOnly));
    lemma_format_has(f, lossless, picks(Pick::VideoFormat(s.format.video_format)));
    lemma_video_has(f, picks(Pick::VideoFormat(s.format.video_format)));
    lemma_audio_has(f, lossless, picks(Pick::VideoFormat(s.format.video_format)));
    lemma_format_has(f, lossless, types(Field::CustomFormat));
    lemma_video_has(f, types(Field::CustomFormat));
    lemma_audio_has(f, lossless, types(Field::CustomFormat));
    lemma_format_has(f, lossless, picks(Pick::Quality(s.format.quality)));
    lemma_video_has(f, picks(Pick::Quality(s.format.quality)));
    lemma_audio_has(f, lossless, picks(Pick::Quality(s.format.quality)));
    lemma_format_has(f, lossless, picks(Pick::Container(s.format.container)));
    lemma_video_has(f, picks(Pick::Container(s.format.container)));
    lemma_audio_has(f, lossless, picks(Pick::Container(s.format.container)));
    lemma_format_has(f, lossless, picks(Pick::Convert(s.format.convert)));
    lemma_video_has(f, picks(Pick::Convert(s.format.convert)));
    lemma_audio_has(f, lossless, picks(Pick::Convert(s.format.convert)));
    lemma_format_has(f, lossless, types(Field::ConvertTarget));
    lemma_video_has(f, types(Field::ConvertTarget));
    lemma_audio_has(f, lossless, types(Field::ConvertTarget));
    lemma_format_has(f, lossless, switches(Flag::AudioConvert));
    lemma_video_has(f, switches(Flag::AudioConvert));
    lemma_audio_has(f, lossless, switches(Flag::AudioConvert));
    lemma_format_has(f, lossless, picks(Pick::Audio(s.format.audio)));
    lemma_video_has(f, picks(Pick::Audio(s.format.audio)));
    lemma_audio_has(f, lossless, picks(Pick::Audio(s.format.audio)));
    lemma_format_has(f, lossless, picks(Pick::AudioQuality(s.format.audio_quality)));
    lemma_video_has(f, picks(Pick::AudioQuality(s.format.audio_quality)));
    lemma_audio_has(f, lossless, picks(Pick::AudioQuality(s.format.audio_quality)));
    lemma_format_has(f, lossless, remarks("The audio is kept exactly as the site serves it."@));
    lemma_video_has(f, remarks("The audio is kept exactly as the site serves it."@));
    lemma_audio_has(f, lossless, remarks("The audio is kept exactly as the site serves it."@));
}

/// What the card on extras offers: the languages of subtitles only where there are any, what to do
/// with segments only where they are looked for, and how to cut only where they are cut out.
#[verifier::rlimit(40)]
pub proof fn law_what_can_be_added_to_a_download(
    s: Settings,
    paths: Paths,
    history: History,
    lossless: bool,
)
    ensures
        ({
            let cs = sections::page_cards(s, paths, history, lossless)[1].controls;
            &&& has(cs, switches(Flag::Thumbnail))
            &&& has(cs, picks(Pick::Thumb(s.extras.thumbnail_format))) <==> s.extras.thumbnail
            &&& has(cs, switches(Flag::Metadata))
            &&& has(cs, switches(Flag::Chapters))
            &&& has(cs, picks(Pick::Subs(s.extras.subs)))
            &&& has(cs, types(Field::SubLangs)) <==> !(s.extras.subs is Off)
            &&& has(cs, switches(Flag::AutoSubs)) <==> !(s.extras.subs is Off)
            &&& has(cs, picks(Pick::Sponsor(s.extras.sponsor)))
            &&& has(cs, picks(Pick::Cats(s.extras.cats))) <==> !(s.extras.sponsor is Off)
            &&& has(cs, types(Field::CustomCats))
                <==> !(s.extras.sponsor is Off) && s.extras.cats is Custom
            &&& has(cs, switches(Flag::Keyframes)) <==> s.extras.sponsor is Remove
        }),
{
    broadcast use group_has;

}

/// What the card on automation offers: what concerns whole playlists only where they are downloaded
/// whole, what concerns the history only where one is kept, and a template of one's own only where
/// that is chosen.
#[verifier::rlimit(40)]
pub proof fn law_what_can_be_automated(
    s: Settings,
    paths: Paths,
    history: History,
    lossless: bool,
)
    ensures
        ({
            let cs = sections::page_cards(s, paths, history, lossless)[2].controls;
            &&& has(cs, picks(Pick::Playlist(s.automation.playlist)))
            &&& has(cs, types(Field::PlaylistItems)) <==> s.automation.playlist is Whole
            &&& has(cs, switches(Flag::PlaylistReverse)) <==> s.automation.playlist is Whole
            &&& has(cs, switches(Flag::Organize)) <==> s.automation.playlist is Whole
            &&& has(cs, switches(Flag::Archive))
            &&& has(cs, types(Field::ArchiveFile)) <==> s.automation.archive
            &&& has(cs, switches(Flag::ArchiveStop)) <==> s.automation.archive
            &&& has(cs, is_history()) <==> s.automation.archive
            &&& has(cs, types(Field::MaxDownloads))
            &&& has(cs, picks(Pick::Template(s.automation.template)))
            &&& has(cs, types(Field::CustomTemplate)) <==> s.automation.template is Custom
            &&& has(cs, switches(Flag::Restrict))
        }),
{
    broadcast use group_has;

}

/// What the card on signing in offers: a profile, and a warning, only where cookies are taken from a
/// browser.
pub proof fn law_a_profile_is_asked_for_a_browser(
    s: Settings,
    paths: Paths,
    history: History,
    lossless: bool,
)
    ensures
        ({
            let cs = sections::page_cards(s, paths, history, lossless)[3].controls;
            &&& has(cs, picks(Pick::Browser(s.sign_in.cookies_browser)))
            &&& has(cs, types(Field::CookiesProfile)) <==> !(s.sign_in.cookies_browser is Off)
            &&& has(cs, remarks("Only for videos that need you signed in. Firefox works best: Chrome, Edge and other Chromium browsers may have to be closed first, and recent versions on Windows can't be read at all."@))
                <==> !(s.sign_in.cookies_browser is Off)
        }),
{
    broadcast use group_has;

}

/// The card on advanced settings offers all of them, whatever is chosen.
#[verifier::rlimit(40)]
pub proof fn law_the_advanced_settings_are_all_there(
    s: Settings,
    paths: Paths,
    history: History,
    lossless: bool,
)
    ensures
        ({
            let cs = sections::page_cards(s, paths, history, lossless)[4].controls;
            &&& has(cs, types(Field::LimitRate))
            &&& has(cs, types(Field::Fragments))
            &&& has(cs, types(Field::Sleep))
            &&& has(cs, switches(Flag::LiveFromStart))
            &&& has(cs, types(Field::WaitForVideo))
            &&& has(cs, switches(Flag::Mtime))
            &&& has(cs, switches(Flag::IgnoreErrors))
            &&& has(cs, switches(Flag::Verbose))
        }),
{
    broadcast use group_has;

}

/// The cards of the page, in their order, and the folder on the last of them: it hints at the one
/// next to the application, which is taken where none is given.
pub proof fn law_the_page_has_its_cards(
    s: Settings,
    paths: Paths,
    history: History,
    lossless: bool,
)
    ensures
        ({
            let cards = sections::page_cards(s, paths, history, lossless);
            let last = cards[5].controls;
            &&& cards.len() == 6
            &&& cards[0].title == "What to download"@
            &&& cards[1].title == "Extras"@
            &&& cards[2].title == "Automation and naming"@
            &&& cards[3].title == "Signing in"@
            &&& cards[4].title == "Advanced"@
            &&& cards[5].title == "Where to save"@
            &&& last.len() == 2
            &&& last[0] is Folder
            &&& last[0]->Folder_placeholder == paths::joined_path(
                paths.platform,
                paths.app_dir@,
                "downloads"@,
            )
            &&& last[0]->Folder_field is OutputDir
            &&& last[0]->Folder_value == s.output_dir@
            &&& last[0]->choice.label == "Choose..."@
            &&& last[0]->choice.press == Some(Message::ChooseFolder)
            &&& last[0]->choice.look is Secondary
            &&& last[1] == Control::<Seq<char>, Seq<Seq<char>>>::Remark(
                "Leave it empty to use the downloads folder next to this app."@,
            )
        }),
{
}

/// The history on its row: the question while it is asked, and otherwise how many videos it holds,
/// a button for its entries and one to clear it, which do something only where there is a history,
/// and the entries while they are open.
pub proof fn law_the_history_row_tells_what_is_in_it(history: History)
    ensures
        ({
            let row = sections::row_of(history);
            let count = history.count;
            &&& row is Confirm <==> history.confirming_clear
            &&& row is Confirm ==> {
                &&& row->warning == "This deletes the history file for good."@
                &&& row->cancel.label == "Cancel"@ && row->cancel.look is Secondary
                &&& row->cancel.press == Some(Message::CancelClearHistory)
                &&& row->Confirm_clear.label == "Clear"@ && row->Confirm_clear.look is Danger
                &&& row->Confirm_clear.press == Some(Message::ConfirmClearHistory)
            }
            &&& row is Summary ==> {
                &&& count is None ==> row->summary == "The history file doesn't exist yet."@
                &&& count == Some(1usize) ==> row->summary == "1 video in the history"@
                &&& count is Some && count->0 != 1 ==> row->summary == text::decimal(
                    count->0 as nat,
                ) + " videos in the history"@
                &&& history.entries is Some ==> row->Summary_entries.label == "Hide entries"@
                &&& history.entries is None ==> row->Summary_entries.label == "View entries"@
                &&& row->Summary_clear.label == "Clear history"@
                &&& row->Summary_entries.look is Secondary && row->Summary_clear.look is Secondary
                &&& count is Some ==> row->Summary_entries.press == Some(
                    Message::ToggleHistoryList,
                ) && row->Summary_clear.press == Some(Message::ClearHistory)
                &&& count is None ==> row->Summary_entries.press is None
                    && row->Summary_clear.press is None
                &&& row->list is Some <==> history.entries is Some
                &&& history.entries is Some && history.entries->0@.len() == 0 ==> row->list->0
                    == HistoryList::<Seq<char>, Seq<Seq<char>>>::Remark("The history is empty."@)
                &&& history.entries is Some && history.entries->0@.len() > 0 ==> {
                    let lines = row->list->0;
                    &&& lines is Lines
                    &&& lines->Lines_0.len() == history.entries->0@.len()
                    &&& forall|i: int|
                        0 <= i < lines->Lines_0.len() ==> #[trigger] lines->Lines_0[i]
                            == history.entries->0@[i]@
                }
            }
        }),
{
}

/// The row of the history is that of the history as it is.
pub proof fn law_the_history_on_the_page_is_the_one_there_is(
    s: Settings,
    paths: Paths,
    history: History,
    lossless: bool,
    j: int,
)
    requires
        0 <= j < sections::page_cards(s, paths, history, lossless)[2].controls.len(),
        sections::page_cards(s, paths, history, lossless)[2].controls[j] is History,
    ensures
        sections::page_cards(s, paths, history, lossless)[2].controls[j]->History_0
            == sections::row_of(history),
{
}

// ---------------------------------------------------------------------------
// In which order the controls come
// ---------------------------------------------------------------------------

/// The place of a control among those of its card.
pub open spec fn rank(c: Control<Seq<char>, Seq<Seq<char>>>) -> int {
    match c {
        Control::Radio { kind, .. } => match kind {
            Kind::VideoAudio => 0,
            Kind::AudioOnly => 1,
        },
        Control::Pick { pick, .. } => match pick {
            Pick::VideoFormat(_) => 2,
            Pick::Quality(_) => 4,
            Pick::Container(_) => 5,
            Pick::Convert(_) => 6,
            Pick::Audio(_) => 9,
            Pick::AudioQuality(_) => 10,
            Pick::Thumb(_) => 1,
            Pick::Subs(_) => 4,
            Pick::Sponsor(_) => 7,
            Pick::Cats(_) => 8,
            Pick::Playlist(_) => 0,
            Pick::Template(_) => 9,
            Pick::Browser(_) => 0,
        },
        Control::Input { field, .. } => match field {
            Field::CustomFormat => 3,
            Field::ConvertTarget => 7,
            Field::SubLangs => 5,
            Field::CustomCats => 9,
            Field::PlaylistItems => 1,
            Field::ArchiveFile => 5,
            Field::MaxDownloads => 8,
            Field::CustomTemplate => 10,
            Field::CookiesProfile => 1,
            Field::LimitRate => 0,
            Field::Fragments => 1,
            Field::Sleep => 2,
            Field::WaitForVideo => 4,
            Field::OutputDir => 0,
        },
        Control::Toggle { flag, .. } => match flag {
            Flag::AudioConvert => 8,
            Flag::Thumbnail => 0,
            Flag::Metadata => 2,
            Flag::Chapters => 3,
            Flag::AutoSubs => 6,
            Flag::Keyframes => 10,
            Flag::PlaylistReverse => 2,
            Flag::Organize => 3,
            Flag::Archive => 4,
            Flag::ArchiveStop => 6,
            Flag::Restrict => 11,
            Flag::LiveFromStart => 3,
            Flag::Mtime => 5,
            Flag::IgnoreErrors => 6,
            Flag::Verbose => 7,
        },
        Control::Remark(_) => 11,
        Control::History(_) => 7,
        Control::Folder { .. } => 0,
    }
}

/// Whether controls come in their order, none of them twice, with places from `lo` to below `hi`.
#[verifier::opaque]
spec fn ordered(cs: Seq<Control<Seq<char>, Seq<Seq<char>>>>, lo: int, hi: int) -> bool {
    &&& forall|i: int| 0 <= i < cs.len() ==> lo <= #[trigger] rank(cs[i]) < hi
    &&& forall|i: int, j: int| 0 <= i < j < cs.len() ==> rank(cs[i]) < rank(cs[j])
}

proof fn lemma_one_ordered(c: Control<Seq<char>, Seq<Seq<char>>>, at: int)
    requires
        rank(c) == at,
    ensures
        ordered(seq![c], at, at + 1),
{
    reveal(ordered);
}

proof fn lemma_when_ordered(
    condition: bool,
    cs: Seq<Control<Seq<char>, Seq<Seq<char>>>>,
    lo: int,
    hi: int,
)
    requires
        ordered(cs, lo, hi),
    ensures
        ordered(sections::when(condition, cs), lo, hi),
{
    reveal(ordered);
}

proof fn lemma_both_ordered(
    front: Seq<Control<Seq<char>, Seq<Seq<char>>>>,
    back: Seq<Control<Seq<char>, Seq<Seq<char>>>>,
    lo: int,
    mid: int,
    next: int,
    hi: int,
)
    requires
        ordered(front, lo, mid),
        ordered(back, next, hi),
        lo <= mid <= next <= hi,
    ensures
        ordered(front + back, lo, hi),
{
    reveal(ordered);
    let all = front + back;
    assert forall|i: int| 0 <= i < all.len() implies lo <= #[trigger] rank(all[i]) < hi by {
        if i < front.len() {
            assert(all[i] == front[i]);
            assert(rank(front[i]) < mid);
        } else {
            assert(all[i] == back[i - front.len()]);
            assert(rank(back[i - front.len()]) >= next);
        }
    }
    assert forall|i: int, j: int| 0 <= i < j < all.len() implies rank(all[i]) < rank(all[j]) by {
        if i < front.len() {
            assert(all[i] == front[i]);
            assert(rank(front[i]) < mid);
            if j < front.len() {
                assert(all[j] == front[j]);
            } else {
                assert(all[j] == back[j - front.len()]);
                assert(rank(back[j - front.len()]) >= next);
            }
        } else {
            assert(all[i] == back[i - front.len()]);
            assert(all[j] == back[j - front.len()]);
        }
    }
}

proof fn lemma_video_ordered(f: Format)
    ensures
        ordered(sections::video_controls(f), 2, 8),
{
    let c0 = sections::a_pick("Format"@, Pick::VideoFormat(f.video_format));
    lemma_one_ordered(c0[0], 2);
    assert(c0 =~= seq![c0[0]]);
    let c2 = sections::an_input(
        "Format string"@,
        "bestvideo+bestaudio"@,
        Field::CustomFormat,
        f.custom_format@,
        300,
    );
    lemma_one_ordered(c2[0], 3);
    assert(c2 =~= seq![c2[0]]);
    let c1 = sections::when(f.video_format is Custom, c2);
    lemma_when_ordered(f.video_format is Custom, c2, 3, 4);
    let c3 = c0 + c1;
    lemma_both_ordered(c0, c1, 2, 3, 3, 4);
    let c4 = sections::a_pick("Quality"@, Pick::Quality(f.quality));
    lemma_one_ordered(c4[0], 4);
    assert(c4 =~= seq![c4[0]]);
    let c5 = c3 + c4;
    lemma_both_ordered(c3, c4, 2, 4, 4, 5);
    let c6 = sections::a_pick("Container"@, Pick::Container(f.container));
    lemma_one_ordered(c6[0], 5);
    assert(c6 =~= seq![c6[0]]);
    let c7 = c5 + c6;
    lemma_both_ordered(c5, c6, 2, 5, 5, 6);
    let c8 = sections::a_pick("Convert the container"@, Pick::Convert(f.convert));
    lemma_one_ordered(c8[0], 6);
    assert(c8 =~= seq![c8[0]]);
    let c9 = c7 + c8;
    lemma_both_ordered(c7, c8, 2, 6, 6, 7);
    let c11 = sections::an_input(
        "Convert to"@,
        "mp4"@,
        Field::ConvertTarget,
        f.convert_target@,
        160,
    );
    lemma_one_ordered(c11[0], 7);
    assert(c11 =~= seq![c11[0]]);
    let c10 = sections::when(!(f.convert is Keep), c11);
    lemma_when_ordered(!(f.convert is Keep), c11, 7, 8);
    let c12 = c9 + c10;
    lemma_both_ordered(c9, c10, 2, 7, 7, 8);
    assert(sections::video_controls(f) == c12);
}

proof fn lemma_audio_ordered(f: Format, lossless: bool)
    ensures
        ordered(sections::audio_controls(f, lossless), 8, 12),
{
    let c0 = sections::a_toggle(
        "Convert it to another format"@,
        Flag::AudioConvert,
        f.audio_convert,
    );
    lemma_one_ordered(c0[0], 8);
    assert(c0 =~= seq![c0[0]]);
    let c2 = sections::a_pick("Audio format"@, Pick::Audio(f.audio));
    lemma_one_ordered(c2[0], 9);
    assert(c2 =~= seq![c2[0]]);
    let c1 = sections::when(f.audio_convert, c2);
    lemma_when_ordered(f.audio_convert, c2, 9, 10);
    let c3 = c0 + c1;
    lemma_both_ordered(c0, c1, 8, 9, 9, 10);
    let c5 = sections::a_pick(
        "Audio quality (0 best, 10 smallest)"@,
        Pick::AudioQuality(f.audio_quality),
    );
    lemma_one_ordered(c5[0], 10);
    assert(c5 =~= seq![c5[0]]);
    let c4 = sections::when(f.audio_convert && !lossless, c5);
    lemma_when_ordered(f.audio_convert && !lossless, c5, 10, 11);
    let c6 = c3 + c4;
    lemma_both_ordered(c3, c4, 8, 10, 10, 11);
    let c8 = sections::a_remark("The audio is kept exactly as the site serves it."@);
    lemma_one_ordered(c8[0], 11);
    assert(c8 =~= seq![c8[0]]);
    let c7 = sections::when(!f.audio_convert, c8);
    lemma_when_ordered(!f.audio_convert, c8, 11, 12);
    let c9 = c6 + c7;
    lemma_both_ordered(c6, c7, 8, 11, 11, 12);
    assert(sections::audio_controls(f, lossless) == c9);
}

proof fn lemma_extras_ordered(e: Extras)
    ensures
        ordered(sections::extras_controls(e), 0, 11),
{
    let c0 = sections::a_toggle("Embed the thumbnail"@, Flag::Thumbnail, e.thumbnail);
    lemma_one_ordered(c0[0], 0);
    assert(c0 =~= seq![c0[0]]);
    let c2 = sections::a_pick("Thumbnail format"@, Pick::Thumb(e.thumbnail_format));
    lemma_one_ordered(c2[0], 1);
    assert(c2 =~= seq![c2[0]]);
    let c1 = sections::when(e.thumbnail, c2);
    lemma_when_ordered(e.thumbnail, c2, 1, 2);
    let c3 = c0 + c1;
    lemma_both_ordered(c0, c1, 0, 1, 1, 2);
    let c4 = sections::a_toggle("Embed title, artist and date"@, Flag::Metadata, e.metadata);
    lemma_one_ordered(c4[0], 2);
    assert(c4 =~= seq![c4[0]]);
    let c5 = c3 + c4;
    lemma_both_ordered(c3, c4, 0, 2, 2, 3);
    let c6 = sections::a_toggle("Embed chapters"@, Flag::Chapters, e.chapters);
    lemma_one_ordered(c6[0], 3);
    assert(c6 =~= seq![c6[0]]);
    let c7 = c5 + c6;
    lemma_both_ordered(c5, c6, 0, 3, 3, 4);
    let c8 = sections::a_pick("Subtitles"@, Pick::Subs(e.subs));
    lemma_one_ordered(c8[0], 4);
    assert(c8 =~= seq![c8[0]]);
    let c9 = c7 + c8;
    lemma_both_ordered(c7, c8, 0, 4, 4, 5);
    let c11 = sections::an_input(
        "Languages"@,
        "all but live chat"@,
        Field::SubLangs,
        e.sub_langs@,
        240,
    );
    lemma_one_ordered(c11[0], 5);
    assert(c11 =~= seq![c11[0]]);
    let c12 = sections::a_toggle("Include auto-generated subtitles"@, Flag::AutoSubs, e.auto_subs);
    lemma_one_ordered(c12[0], 6);
    assert(c12 =~= seq![c12[0]]);
    let c13 = c11 + c12;
    lemma_both_ordered(c11, c12, 5, 6, 6, 7);
    let c10 = sections::when(!(e.subs is Off), c13);
    lemma_when_ordered(!(e.subs is Off), c13, 5, 7);
    let c14 = c9 + c10;
    lemma_both_ordered(c9, c10, 0, 5, 5, 7);
    let c15 = sections::a_pick("SponsorBlock"@, Pick::Sponsor(e.sponsor));
    lemma_one_ordered(c15[0], 7);
    assert(c15 =~= seq![c15[0]]);
    let c16 = c14 + c15;
    lemma_both_ordered(c14, c15, 0, 7, 7, 8);
    let c18 = sections::a_pick("Segments"@, Pick::Cats(e.cats));
    lemma_one_ordered(c18[0], 8);
    assert(c18 =~= seq![c18[0]]);
    let c17 = sections::when(!(e.sponsor is Off), c18);
    lemma_when_ordered(!(e.sponsor is Off), c18, 8, 9);
    let c19 = c16 + c17;
    lemma_both_ordered(c16, c17, 0, 8, 8, 9);
    let c21 = sections::an_input(
        "Categories"@,
        "sponsor,intro,outro"@,
        Field::CustomCats,
        e.custom_cats@,
        240,
    );
    lemma_one_ordered(c21[0], 9);
    assert(c21 =~= seq![c21[0]]);
    let c20 = sections::when(!(e.sponsor is Off) && e.cats is Custom, c21);
    lemma_when_ordered(!(e.sponsor is Off) && e.cats is Custom, c21, 9, 10);
    let c22 = c19 + c20;
    lemma_both_ordered(c19, c20, 0, 9, 9, 10);
    let c24 = sections::a_toggle(
        "Cut exactly at keyframes (re-encodes, much slower)"@,
        Flag::Keyframes,
        e.keyframes,
    );
    lemma_one_ordered(c24[0], 10);
    assert(c24 =~= seq![c24[0]]);
    let c23 = sections::when(e.sponsor is Remove, c24);
    lemma_when_ordered(e.sponsor is Remove, c24, 10, 11);
    let c25 = c22 + c23;
    lemma_both_ordered(c22, c23, 0, 10, 10, 11);
    assert(sections::extras_controls(e) == c25);
}

proof fn lemma_automation_ordered(a: Automation, history: History)
    ensures
        ordered(sections::automation_controls(a, history), 0, 12),
{
    let c0 = sections::a_pick("Playlists"@, Pick::Playlist(a.playlist));
    lemma_one_ordered(c0[0], 0);
    assert(c0 =~= seq![c0[0]]);
    let c2 = sections::an_input(
        "Items (empty for all)"@,
        "1-5,8"@,
        Field::PlaylistItems,
        a.playlist_items@,
        160,
    );
    lemma_one_ordered(c2[0], 1);
    assert(c2 =~= seq![c2[0]]);
    let c3 = sections::a_toggle(
        "Start from the end of the playlist"@,
        Flag::PlaylistReverse,
        a.playlist_reverse,
    );
    lemma_one_ordered(c3[0], 2);
    assert(c3 =~= seq![c3[0]]);
    let c4 = c2 + c3;
    lemma_both_ordered(c2, c3, 1, 2, 2, 3);
    let c5 = sections::a_toggle("One folder per playlist, numbered"@, Flag::Organize, a.organize);
    lemma_one_ordered(c5[0], 3);
    assert(c5 =~= seq![c5[0]]);
    let c6 = c4 + c5;
    lemma_both_ordered(c4, c5, 1, 3, 3, 4);
    let c1 = sections::when(a.playlist is Whole, c6);
    lemma_when_ordered(a.playlist is Whole, c6, 1, 4);
    let c7 = c0 + c1;
    lemma_both_ordered(c0, c1, 0, 1, 1, 4);
    let c8 = sections::a_toggle(
        "Keep a history and skip what was downloaded before"@,
        Flag::Archive,
        a.archive,
    );
    lemma_one_ordered(c8[0], 4);
    assert(c8 =~= seq![c8[0]]);
    let c9 = c7 + c8;
    lemma_both_ordered(c7, c8, 0, 4, 4, 5);
    let c11 = sections::an_input(
        "History file"@,
        "download_archive.txt"@,
        Field::ArchiveFile,
        a.archive_file@,
        240,
    );
    lemma_one_ordered(c11[0], 5);
    assert(c11 =~= seq![c11[0]]);
    let c12 = sections::a_toggle(
        "Stop as soon as a video is already in the history"@,
        Flag::ArchiveStop,
        a.archive_stop,
    );
    lemma_one_ordered(c12[0], 6);
    assert(c12 =~= seq![c12[0]]);
    let c13 = c11 + c12;
    lemma_both_ordered(c11, c12, 5, 6, 6, 7);
    let c14 = seq![Control::History(sections::row_of(history))];
    lemma_one_ordered(c14[0], 7);
    assert(c14 =~= seq![c14[0]]);
    let c15 = c13 + c14;
    lemma_both_ordered(c13, c14, 5, 7, 7, 8);
    let c10 = sections::when(a.archive, c15);
    lemma_when_ordered(a.archive, c15, 5, 8);
    let c16 = c9 + c10;
    lemma_both_ordered(c9, c10, 0, 5, 5, 8);
    let c17 = sections::an_input(
        "Stop after this many files"@,
        "no limit"@,
        Field::MaxDownloads,
        a.max_downloads@,
        160,
    );
    lemma_one_ordered(c17[0], 8);
    assert(c17 =~= seq![c17[0]]);
    let c18 = c16 + c17;
    lemma_both_ordered(c16, c17, 0, 8, 8, 9);
    let c19 = sections::a_pick("File names"@, Pick::Template(a.template));
    lemma_one_ordered(c19[0], 9);
    assert(c19 =~= seq![c19[0]]);
    let c20 = c18 + c19;
    lemma_both_ordered(c18, c19, 0, 9, 9, 10);
    let c22 = sections::an_input(
        "Template"@,
        "%(title)s [%(id)s].%(ext)s"@,
        Field::CustomTemplate,
        a.custom_template@,
        300,
    );
    lemma_one_ordered(c22[0], 10);
    assert(c22 =~= seq![c22[0]]);
    let c21 = sections::when(a.template is Custom, c22);
    lemma_when_ordered(a.template is Custom, c22, 10, 11);
    let c23 = c20 + c21;
    lemma_both_ordered(c20, c21, 0, 10, 10, 11);
    let c24 = sections::a_toggle("Plain ASCII file names"@, Flag::Restrict, a.restrict_filenames);
    lemma_one_ordered(c24[0], 11);
    assert(c24 =~= seq![c24[0]]);
    let c25 = c23 + c24;
    lemma_both_ordered(c23, c24, 0, 11, 11, 12);
    assert(sections::automation_controls(a, history) == c25);
}

proof fn lemma_sign_in_ordered(s: SignIn)
    ensures
        ordered(sections::sign_in_controls(s), 0, 12),
{
    let c0 = sections::a_pick("Use cookies from"@, Pick::Browser(s.cookies_browser));
    lemma_one_ordered(c0[0], 0);
    assert(c0 =~= seq![c0[0]]);
    let c2 = sections::an_input(
        "Profile (empty for the last used)"@,
        "default"@,
        Field::CookiesProfile,
        s.cookies_profile@,
        240,
    );
    lemma_one_ordered(c2[0], 1);
    assert(c2 =~= seq![c2[0]]);
    let c3 = sections::a_remark(
        "Only for videos that need you signed in. Firefox works best: Chrome, Edge and other Chromium browsers may have to be closed first, and recent versions on Windows can't be read at all."@,
    );
    lemma_one_ordered(c3[0], 11);
    assert(c3 =~= seq![c3[0]]);
    let c4 = c2 + c3;
    lemma_both_ordered(c2, c3, 1, 2, 11, 12);
    let c1 = sections::when(!(s.cookies_browser is Off), c4);
    lemma_when_ordered(!(s.cookies_browser is Off), c4, 1, 12);
    let c5 = c0 + c1;
    lemma_both_ordered(c0, c1, 0, 1, 1, 12);
    assert(sections::sign_in_controls(s) == c5);
}

proof fn lemma_advanced_ordered(a: Advanced)
    ensures
        ordered(sections::advanced_controls(a), 0, 8),
{
    let c0 = sections::an_input("Speed limit"@, "no limit"@, Field::LimitRate, a.limit_rate@, 160);
    lemma_one_ordered(c0[0], 0);
    assert(c0 =~= seq![c0[0]]);
    let c1 = sections::an_input(
        "Parts downloaded at once"@,
        "5"@,
        Field::Fragments,
        a.fragments@,
        160,
    );
    lemma_one_ordered(c1[0], 1);
    assert(c1 =~= seq![c1[0]]);
    let c2 = c0 + c1;
    lemma_both_ordered(c0, c1, 0, 1, 1, 2);
    let c3 = sections::an_input("Seconds between requests"@, "1.5"@, Field::Sleep, a.sleep@, 160);
    lemma_one_ordered(c3[0], 2);
    assert(c3 =~= seq![c3[0]]);
    let c4 = c2 + c3;
    lemma_both_ordered(c2, c3, 0, 2, 2, 3);
    let c5 = sections::a_toggle(
        "Record live streams from the start"@,
        Flag::LiveFromStart,
        a.live_from_start,
    );
    lemma_one_ordered(c5[0], 3);
    assert(c5 =~= seq![c5[0]]);
    let c6 = c4 + c5;
    lemma_both_ordered(c4, c5, 0, 3, 3, 4);
    let c7 = sections::an_input(
        "Wait for a scheduled stream (seconds)"@,
        "60-3600"@,
        Field::WaitForVideo,
        a.wait_for_video@,
        160,
    );
    lemma_one_ordered(c7[0], 4);
    assert(c7 =~= seq![c7[0]]);
    let c8 = c6 + c7;
    lemma_both_ordered(c6, c7, 0, 4, 4, 5);
    let c9 = sections::a_toggle(
        "Keep the original upload date on the file"@,
        Flag::Mtime,
        a.preserve_mtime,
    );
    lemma_one_ordered(c9[0], 5);
    assert(c9 =~= seq![c9[0]]);
    let c10 = c8 + c9;
    lemma_both_ordered(c8, c9, 0, 5, 5, 6);
    let c11 = sections::a_toggle(
        "Keep going when one video of a playlist fails"@,
        Flag::IgnoreErrors,
        a.ignore_errors,
    );
    lemma_one_ordered(c11[0], 6);
    assert(c11 =~= seq![c11[0]]);
    let c12 = c10 + c11;
    lemma_both_ordered(c10, c11, 0, 6, 6, 7);
    let c13 = sections::a_toggle("Verbose log (for troubleshooting)"@, Flag::Verbose, a.verbose);
    lemma_one_ordered(c13[0], 7);
    assert(c13 =~= seq![c13[0]]);
    let c14 = c12 + c13;
    lemma_both_ordered(c12, c13, 0, 7, 7, 8);
    assert(sections::advanced_controls(a) == c14);
}

proof fn lemma_format_ordered(f: Format, lossless: bool)
    ensures
        ordered(sections::format_controls(f, lossless), 0, 12),
{
    let both = Control::Radio {
        label: "Video and audio"@,
        kind: Kind::VideoAudio,
        chosen: f.kind,
    };
    let only = Control::Radio { label: "Audio only"@, kind: Kind::AudioOnly, chosen: f.kind };
    lemma_one_ordered(both, 0);
    lemma_one_ordered(only, 1);
    lemma_both_ordered(seq![both], seq![only], 0, 1, 1, 2);
    let radios = seq![both, only];
    assert(radios =~= seq![both] + seq![only]);
    lemma_video_ordered(f);
    lemma_audio_ordered(f, lossless);
    if f.kind is VideoAudio {
        lemma_both_ordered(radios, sections::video_controls(f), 0, 2, 2, 8);
    } else {
        lemma_both_ordered(radios, sections::audio_controls(f, lossless), 0, 2, 8, 12);
    }
    reveal(ordered);
}

/// The controls of each card come in a fixed order, whichever of them are there, and none comes
/// twice.
pub proof fn law_the_controls_come_in_their_order(
    s: Settings,
    paths: Paths,
    history: History,
    lossless: bool,
    i: int,
    j: int,
    k: int,
)
    requires
        0 <= i < sections::page_cards(s, paths, history, lossless).len(),
        0 <= j < k < sections::page_cards(s, paths, history, lossless)[i].controls.len(),
    ensures
        rank(sections::page_cards(s, paths, history, lossless)[i].controls[j]) < rank(
            sections::page_cards(s, paths, history, lossless)[i].controls[k],
        ),
{
    lemma_format_ordered(s.format, lossless);
    lemma_extras_ordered(s.extras);
    lemma_automation_ordered(s.automation, history);
    lemma_sign_in_ordered(s.sign_in);
    lemma_advanced_ordered(s.advanced);
    reveal(ordered);
}

} // verus!
