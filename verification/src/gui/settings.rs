//! The Settings page.
//!
//! [`SettingsPage`] owns [`Settings`] and keeps the history file's live state (count, entry list,
//! the two step clear). Its values apply to links queued from then on: the Download screen copies
//! them into each item when it is added, so an item keeps what it was queued with.
use vstd::prelude::*;

use crate::config::{
    Advanced, Audio, Automation, Browser, Cats, Container, Convert, Extras, Format, Kind,
    PlaylistChoice, Quality, Settings, SignIn, Sponsor, Subs, Template, ThemePref, Thumb,
    VideoFormat,
};
use crate::log::{Level, Note};
use crate::text;

verus! {

/// What the page is told.
#[derive(Debug, Clone, PartialEq, Eq)]
pub enum Message {
    Text(Field, String),
    Toggle(Flag, bool),
    Kind(Kind),
    VideoFormat(VideoFormat),
    Quality(Quality),
    Audio(Audio),
    AudioQuality(u8),
    Container(Container),
    Convert(Convert),
    ThumbFormat(Thumb),
    Subs(Subs),
    Sponsor(Sponsor),
    Cats(Cats),
    Playlist(PlaylistChoice),
    Template(Template),
    Browser(Browser),
    ClearHistory,
    ConfirmClearHistory,
    CancelClearHistory,
    ToggleHistoryList,
    /// Opens the system's folder dialog.
    ChooseFolder,
    /// What the dialog returned; `None` when it was cancelled.
    FolderChosen(Option<String>),
}

/// The text fields. Typed values are saved when leaving the page, when a download starts and when
/// the window closes, not on every keystroke.
#[derive(Debug, Clone, Copy, PartialEq, Eq, Structural)]
pub enum Field {
    OutputDir,
    CustomFormat,
    ConvertTarget,
    SubLangs,
    CustomCats,
    PlaylistItems,
    ArchiveFile,
    MaxDownloads,
    CustomTemplate,
    LimitRate,
    Fragments,
    Sleep,
    WaitForVideo,
    CookiesProfile,
}

impl Field {
    /// The setting this field edits.
    pub open spec fn value(self, s: Settings) -> String {
        match self {
            Field::CustomFormat => s.format.custom_format,
            Field::ConvertTarget => s.format.convert_target,
            Field::SubLangs => s.extras.sub_langs,
            Field::CustomCats => s.extras.custom_cats,
            Field::PlaylistItems => s.automation.playlist_items,
            Field::ArchiveFile => s.automation.archive_file,
            Field::MaxDownloads => s.automation.max_downloads,
            Field::CustomTemplate => s.automation.custom_template,
            Field::CookiesProfile => s.sign_in.cookies_profile,
            Field::LimitRate => s.advanced.limit_rate,
            Field::Fragments => s.advanced.fragments,
            Field::Sleep => s.advanced.sleep,
            Field::WaitForVideo => s.advanced.wait_for_video,
            Field::OutputDir => s.output_dir,
        }
    }

    /// The `format` part of the settings, with `value` in the setting this field edits.
    pub open spec fn in_format(self, part: Format, value: String) -> Format {
        match self {
            Field::CustomFormat => Format { custom_format: value, ..part },
            Field::ConvertTarget => Format { convert_target: value, ..part },
            _ => part,
        }
    }

    /// The `extras` part of the settings, with `value` in the setting this field edits.
    pub open spec fn in_extras(self, part: Extras, value: String) -> Extras {
        match self {
            Field::SubLangs => Extras { sub_langs: value, ..part },
            Field::CustomCats => Extras { custom_cats: value, ..part },
            _ => part,
        }
    }

    /// The `automation` part of the settings, with `value` in the setting this field edits.
    pub open spec fn in_automation(self, part: Automation, value: String) -> Automation {
        match self {
            Field::PlaylistItems => Automation { playlist_items: value, ..part },
            Field::ArchiveFile => Automation { archive_file: value, ..part },
            Field::MaxDownloads => Automation { max_downloads: value, ..part },
            Field::CustomTemplate => Automation { custom_template: value, ..part },
            _ => part,
        }
    }

    /// The `sign_in` part of the settings, with `value` in the setting this field edits.
    pub open spec fn in_sign_in(self, part: SignIn, value: String) -> SignIn {
        match self {
            Field::CookiesProfile => SignIn { cookies_profile: value, ..part },
            _ => part,
        }
    }

    /// The `advanced` part of the settings, with `value` in the setting this field edits.
    pub open spec fn in_advanced(self, part: Advanced, value: String) -> Advanced {
        match self {
            Field::LimitRate => Advanced { limit_rate: value, ..part },
            Field::Fragments => Advanced { fragments: value, ..part },
            Field::Sleep => Advanced { sleep: value, ..part },
            Field::WaitForVideo => Advanced { wait_for_video: value, ..part },
            _ => part,
        }
    }

    /// `s` with `value` in the setting this field edits.
    pub open spec fn edited(self, s: Settings, value: String) -> Settings {
        Settings {
            format: self.in_format(s.format, value),
            extras: self.in_extras(s.extras, value),
            automation: self.in_automation(s.automation, value),
            sign_in: self.in_sign_in(s.sign_in, value),
            advanced: self.in_advanced(s.advanced, value),
            output_dir: if self is OutputDir {
                value
            } else {
                s.output_dir
            },
            ..s
        }
    }

    fn format_slot(self, part: &mut Format) -> (r: &mut String)
        requires
            self is CustomFormat || self is ConvertTarget,
        ensures
            *r == (match self {
                Field::CustomFormat => old(part).custom_format,
                _ => old(part).convert_target,
            }),
            *final(part) == self.in_format(*old(part), *final(r)),
    {
        match self {
            Field::CustomFormat => &mut part.custom_format,
            _ => &mut part.convert_target,
        }
    }

    fn extras_slot(self, part: &mut Extras) -> (r: &mut String)
        requires
            self is SubLangs || self is CustomCats,
        ensures
            *r == (match self {
                Field::SubLangs => old(part).sub_langs,
                _ => old(part).custom_cats,
            }),
            *final(part) == self.in_extras(*old(part), *final(r)),
    {
        match self {
            Field::SubLangs => &mut part.sub_langs,
            _ => &mut part.custom_cats,
        }
    }

    fn automation_slot(self, part: &mut Automation) -> (r: &mut String)
        requires
            self is PlaylistItems || self is ArchiveFile || self is MaxDownloads || self is CustomTemplate,
        ensures
            *r == (match self {
                Field::PlaylistItems => old(part).playlist_items,
                Field::ArchiveFile => old(part).archive_file,
                Field::MaxDownloads => old(part).max_downloads,
                _ => old(part).custom_template,
            }),
            *final(part) == self.in_automation(*old(part), *final(r)),
    {
        match self {
            Field::PlaylistItems => &mut part.playlist_items,
            Field::ArchiveFile => &mut part.archive_file,
            Field::MaxDownloads => &mut part.max_downloads,
            _ => &mut part.custom_template,
        }
    }

    fn sign_in_slot(self, part: &mut SignIn) -> (r: &mut String)
        requires
            self is CookiesProfile,
        ensures
            *r == old(part).cookies_profile,
            *final(part) == self.in_sign_in(*old(part), *final(r)),
    {
        &mut part.cookies_profile
    }

    fn advanced_slot(self, part: &mut Advanced) -> (r: &mut String)
        requires
            self is LimitRate || self is Fragments || self is Sleep || self is WaitForVideo,
        ensures
            *r == (match self {
                Field::LimitRate => old(part).limit_rate,
                Field::Fragments => old(part).fragments,
                Field::Sleep => old(part).sleep,
                _ => old(part).wait_for_video,
            }),
            *final(part) == self.in_advanced(*old(part), *final(r)),
    {
        match self {
            Field::LimitRate => &mut part.limit_rate,
            Field::Fragments => &mut part.fragments,
            Field::Sleep => &mut part.sleep,
            _ => &mut part.wait_for_video,
        }
    }

    /// The setting this field edits.
    pub fn slot(self, s: &mut Settings) -> (r: &mut String)
        ensures
            *r == self.value(*old(s)),
            *final(s) == self.edited(*old(s), *final(r)),
    {
        match self {
            Field::CustomFormat
            | Field::ConvertTarget => self.format_slot(&mut s.format),
            Field::SubLangs
            | Field::CustomCats => self.extras_slot(&mut s.extras),
            Field::PlaylistItems
            | Field::ArchiveFile
            | Field::MaxDownloads
            | Field::CustomTemplate => self.automation_slot(&mut s.automation),
            Field::CookiesProfile => self.sign_in_slot(&mut s.sign_in),
            Field::LimitRate
            | Field::Fragments
            | Field::Sleep
            | Field::WaitForVideo => self.advanced_slot(&mut s.advanced),
            Field::OutputDir => &mut s.output_dir,
        }
    }
}

/// The on/off settings.
#[derive(Debug, Clone, Copy, PartialEq, Eq, Structural)]
pub enum Flag {
    AudioConvert,
    Thumbnail,
    Metadata,
    Chapters,
    AutoSubs,
    Keyframes,
    PlaylistReverse,
    Organize,
    Archive,
    ArchiveStop,
    LiveFromStart,
    Verbose,
    Restrict,
    Mtime,
    IgnoreErrors,
}

impl Flag {
    /// The setting this flag switches.
    pub open spec fn value(self, s: Settings) -> bool {
        match self {
            Flag::AudioConvert => s.format.audio_convert,
            Flag::Thumbnail => s.extras.thumbnail,
            Flag::Metadata => s.extras.metadata,
            Flag::Chapters => s.extras.chapters,
            Flag::AutoSubs => s.extras.auto_subs,
            Flag::Keyframes => s.extras.keyframes,
            Flag::PlaylistReverse => s.automation.playlist_reverse,
            Flag::Organize => s.automation.organize,
            Flag::Archive => s.automation.archive,
            Flag::ArchiveStop => s.automation.archive_stop,
            Flag::Restrict => s.automation.restrict_filenames,
            Flag::LiveFromStart => s.advanced.live_from_start,
            Flag::Mtime => s.advanced.preserve_mtime,
            Flag::IgnoreErrors => s.advanced.ignore_errors,
            Flag::Verbose => s.advanced.verbose,
        }
    }

    /// The `format` part of the settings, with the setting this flag switches at `value`.
    pub open spec fn in_format(self, part: Format, value: bool) -> Format {
        match self {
            Flag::AudioConvert => Format { audio_convert: value, ..part },
            _ => part,
        }
    }

    /// The `extras` part of the settings, with the setting this flag switches at `value`.
    pub open spec fn in_extras(self, part: Extras, value: bool) -> Extras {
        match self {
            Flag::Thumbnail => Extras { thumbnail: value, ..part },
            Flag::Metadata => Extras { metadata: value, ..part },
            Flag::Chapters => Extras { chapters: value, ..part },
            Flag::AutoSubs => Extras { auto_subs: value, ..part },
            Flag::Keyframes => Extras { keyframes: value, ..part },
            _ => part,
        }
    }

    /// The `automation` part of the settings, with the setting this flag switches at `value`.
    pub open spec fn in_automation(self, part: Automation, value: bool) -> Automation {
        match self {
            Flag::PlaylistReverse => Automation { playlist_reverse: value, ..part },
            Flag::Organize => Automation { organize: value, ..part },
            Flag::Archive => Automation { archive: value, ..part },
            Flag::ArchiveStop => Automation { archive_stop: value, ..part },
            Flag::Restrict => Automation { restrict_filenames: value, ..part },
            _ => part,
        }
    }

    /// The `advanced` part of the settings, with the setting this flag switches at `value`.
    pub open spec fn in_advanced(self, part: Advanced, value: bool) -> Advanced {
        match self {
            Flag::LiveFromStart => Advanced { live_from_start: value, ..part },
            Flag::Mtime => Advanced { preserve_mtime: value, ..part },
            Flag::IgnoreErrors => Advanced { ignore_errors: value, ..part },
            Flag::Verbose => Advanced { verbose: value, ..part },
            _ => part,
        }
    }

    /// `s` with the setting this flag switches at `value`.
    pub open spec fn edited(self, s: Settings, value: bool) -> Settings {
        Settings {
            format: self.in_format(s.format, value),
            extras: self.in_extras(s.extras, value),
            automation: self.in_automation(s.automation, value),
            advanced: self.in_advanced(s.advanced, value),
            ..s
        }
    }

    fn format_slot(self, part: &mut Format) -> (r: &mut bool)
        requires
            self is AudioConvert,
        ensures
            *r == old(part).audio_convert,
            *final(part) == self.in_format(*old(part), *final(r)),
    {
        &mut part.audio_convert
    }

    fn extras_slot(self, part: &mut Extras) -> (r: &mut bool)
        requires
            self is Thumbnail || self is Metadata || self is Chapters || self is AutoSubs || self is Keyframes,
        ensures
            *r == (match self {
                Flag::Thumbnail => old(part).thumbnail,
                Flag::Metadata => old(part).metadata,
                Flag::Chapters => old(part).chapters,
                Flag::AutoSubs => old(part).auto_subs,
                _ => old(part).keyframes,
            }),
            *final(part) == self.in_extras(*old(part), *final(r)),
    {
        match self {
            Flag::Thumbnail => &mut part.thumbnail,
            Flag::Metadata => &mut part.metadata,
            Flag::Chapters => &mut part.chapters,
            Flag::AutoSubs => &mut part.auto_subs,
            _ => &mut part.keyframes,
        }
    }

    fn automation_slot(self, part: &mut Automation) -> (r: &mut bool)
        requires
            self is PlaylistReverse || self is Organize || self is Archive || self is ArchiveStop || self is Restrict,
        ensures
            *r == (match self {
                Flag::PlaylistReverse => old(part).playlist_reverse,
                Flag::Organize => old(part).organize,
                Flag::Archive => old(part).archive,
                Flag::ArchiveStop => old(part).archive_stop,
                _ => old(part).restrict_filenames,
            }),
            *final(part) == self.in_automation(*old(part), *final(r)),
    {
        match self {
            Flag::PlaylistReverse => &mut part.playlist_reverse,
            Flag::Organize => &mut part.organize,
            Flag::Archive => &mut part.archive,
            Flag::ArchiveStop => &mut part.archive_stop,
            _ => &mut part.restrict_filenames,
        }
    }

    fn advanced_slot(self, part: &mut Advanced) -> (r: &mut bool)
        requires
            self is LiveFromStart || self is Mtime || self is IgnoreErrors || self is Verbose,
        ensures
            *r == (match self {
                Flag::LiveFromStart => old(part).live_from_start,
                Flag::Mtime => old(part).preserve_mtime,
                Flag::IgnoreErrors => old(part).ignore_errors,
                _ => old(part).verbose,
            }),
            *final(part) == self.in_advanced(*old(part), *final(r)),
    {
        match self {
            Flag::LiveFromStart => &mut part.live_from_start,
            Flag::Mtime => &mut part.preserve_mtime,
            Flag::IgnoreErrors => &mut part.ignore_errors,
            _ => &mut part.verbose,
        }
    }

    /// The setting this flag switches.
    pub fn slot(self, s: &mut Settings) -> (r: &mut bool)
        ensures
            *r == self.value(*old(s)),
            *final(s) == self.edited(*old(s), *final(r)),
    {
        match self {
            Flag::AudioConvert => self.format_slot(&mut s.format),
            Flag::Thumbnail
            | Flag::Metadata
            | Flag::Chapters
            | Flag::AutoSubs
            | Flag::Keyframes => self.extras_slot(&mut s.extras),
            Flag::PlaylistReverse
            | Flag::Organize
            | Flag::Archive
            | Flag::ArchiveStop
            | Flag::Restrict => self.automation_slot(&mut s.automation),
            Flag::LiveFromStart
            | Flag::Mtime
            | Flag::IgnoreErrors
            | Flag::Verbose => self.advanced_slot(&mut s.advanced),
        }
    }
}

/// What a change of the page asks for.
#[derive(Debug, Clone, Copy, PartialEq, Eq, Structural)]
pub enum Effect {
    Nothing,
    /// Read the history file again ([`SettingsPage::refresh_history`]).
    Refresh,
    /// Read the history file again, then write the settings ([`SettingsPage::save`]).
    RefreshAndSave,
    /// Write the settings ([`SettingsPage::save`]).
    Save,
    /// Read the history's entries ([`SettingsPage::show_history`]).
    ListHistory,
    /// Remove the history file ([`SettingsPage::history_cleared`]).
    RemoveHistory,
}

/// The history file as it is now.
#[derive(Debug, Clone, PartialEq, Eq)]
pub struct HistoryFile {
    /// How many videos it holds, when there is one.
    pub count: Option<usize>,
    /// Its entries, when there is one.
    pub lines: Option<Vec<String>>,
}

/// What came of removing the history file.
#[derive(Debug, Clone, PartialEq, Eq)]
pub enum Removal {
    Removed,
    /// There was none.
    NotFound,
    Failed(String),
}

/// The page.
#[derive(Debug, PartialEq, Eq)]
pub struct SettingsPage {
    pub settings: Settings,
    /// How many videos the history holds, when it has been looked at.
    pub history: Option<usize>,
    /// The history's own entries, shown one by one while this is `Some`.
    pub history_list: Option<Vec<String>>,
    /// Waiting for the history file to be cleared on purpose.
    pub clearing_history: bool,
}

/// The settings after a choice.
pub open spec fn chosen(s: Settings, message: Message) -> Settings {
    match message {
        Message::Toggle(flag, value) => flag.edited(s, value),
        Message::Kind(kind) => Settings {
            format: Format { kind, ..s.format },
            ..s
        },
        Message::VideoFormat(video_format) => Settings {
            format: Format { video_format, ..s.format },
            ..s
        },
        Message::Quality(quality) => Settings {
            format: Format { quality, ..s.format },
            ..s
        },
        Message::Audio(audio) => Settings {
            format: Format { audio, ..s.format },
            ..s
        },
        Message::AudioQuality(audio_quality) => Settings {
            format: Format { audio_quality, ..s.format },
            ..s
        },
        Message::Container(container) => Settings {
            format: Format { container, ..s.format },
            ..s
        },
        Message::Convert(convert) => Settings {
            format: Format { convert, ..s.format },
            ..s
        },
        Message::ThumbFormat(thumbnail_format) => Settings {
            extras: Extras { thumbnail_format, ..s.extras },
            ..s
        },
        Message::Subs(subs) => Settings {
            extras: Extras { subs, ..s.extras },
            ..s
        },
        Message::Sponsor(sponsor) => Settings {
            extras: Extras { sponsor, ..s.extras },
            ..s
        },
        Message::Cats(cats) => Settings {
            extras: Extras { cats, ..s.extras },
            ..s
        },
        Message::Playlist(playlist) => Settings {
            automation: Automation { playlist, ..s.automation },
            ..s
        },
        Message::Template(template) => Settings {
            automation: Automation { template, ..s.automation },
            ..s
        },
        Message::Browser(cookies_browser) => Settings {
            sign_in: SignIn { cookies_browser, ..s.sign_in },
            ..s
        },
        Message::FolderChosen(Some(folder)) => Settings { output_dir: folder, ..s },
        _ => s,
    }
}

/// Whether a message is a choice, which changes the settings at once.
pub open spec fn is_choice(message: Message) -> bool {
    match message {
        Message::Text(..) => false,
        Message::ClearHistory | Message::ConfirmClearHistory | Message::CancelClearHistory => false,
        Message::ToggleHistoryList | Message::ChooseFolder => false,
        Message::FolderChosen(folder) => folder is Some,
        _ => true,
    }
}

/// The page after a message.
pub open spec fn changed(page: SettingsPage, message: Message) -> SettingsPage {
    match message {
        Message::Text(field, value) => SettingsPage {
            settings: field.edited(page.settings, value),
            ..page
        },
        Message::ClearHistory => SettingsPage { clearing_history: true, ..page },
        Message::CancelClearHistory | Message::ConfirmClearHistory => SettingsPage {
            clearing_history: false,
            ..page
        },
        Message::ToggleHistoryList => SettingsPage { history_list: None, ..page },
        _ => SettingsPage { settings: chosen(page.settings, message), ..page },
    }
}

/// What a message asks for.
pub open spec fn asks(page: SettingsPage, message: Message) -> Effect {
    match message {
        Message::Text(field, _) => if field is ArchiveFile {
            Effect::Refresh
        } else {
            Effect::Nothing
        },
        Message::ConfirmClearHistory => Effect::RemoveHistory,
        Message::ToggleHistoryList => if page.history_list is Some {
            Effect::Nothing
        } else {
            Effect::ListHistory
        },
        _ => if is_choice(message) {
            Effect::RefreshAndSave
        } else {
            Effect::Nothing
        },
    }
}

/// The page when the history file is `file`: it is counted while a history is kept, and an open
/// list shows its entries.
pub open spec fn refreshed(page: SettingsPage, file: HistoryFile) -> SettingsPage {
    SettingsPage {
        history: if page.settings.automation.archive {
            file.count
        } else {
            None
        },
        history_list: if page.history_list is Some {
            file.lines
        } else {
            None
        },
        ..page
    }
}

/// The page with the list of the history's entries open.
pub open spec fn opened(page: SettingsPage, lines: Option<Vec<String>>) -> SettingsPage {
    SettingsPage { history_list: lines, ..page }
}

/// The page once the history file was removed.
pub open spec fn without_history(page: SettingsPage) -> SettingsPage {
    SettingsPage { history: None, history_list: None, ..page }
}

/// The page with another theme.
pub open spec fn themed(page: SettingsPage, pref: ThemePref) -> SettingsPage {
    SettingsPage { settings: Settings { theme: pref, ..page.settings }, ..page }
}

fn take_choice(s: &mut Settings, message: Message)
    requires
        is_choice(message),
        !(message is Toggle),
        !(message is FolderChosen),
    ensures
        *final(s) == chosen(*old(s), message),
{
    match message {
        Message::Kind(value) => s.format.kind = value,
        Message::VideoFormat(value) => s.format.video_format = value,
        Message::Quality(value) => s.format.quality = value,
        Message::Audio(value) => s.format.audio = value,
        Message::AudioQuality(value) => s.format.audio_quality = value,
        Message::Container(value) => s.format.container = value,
        Message::Convert(value) => s.format.convert = value,
        Message::ThumbFormat(value) => s.extras.thumbnail_format = value,
        Message::Subs(value) => s.extras.subs = value,
        Message::Sponsor(value) => s.extras.sponsor = value,
        Message::Cats(value) => s.extras.cats = value,
        Message::Playlist(value) => s.automation.playlist = value,
        Message::Template(value) => s.automation.template = value,
        Message::Browser(value) => s.sign_in.cookies_browser = value,
        _ => {},
    }
}

impl SettingsPage {
    /// The page with `settings`, the history file being `file`.
    pub fn new(settings: Settings, file: HistoryFile) -> (r: Self)
        ensures
            r == refreshed(
                SettingsPage {
                    settings,
                    history: None,
                    history_list: None,
                    clearing_history: false,
                },
                file,
            ),
    {
        let mut page = SettingsPage {
            settings,
            history: None,
            history_list: None,
            clearing_history: false,
        };
        page.refresh_history(file);
        page
    }

    pub fn settings(&self) -> (r: &Settings)
        ensures
            *r == self.settings,
    {
        &self.settings
    }

    /// An app-wide preference kept with the settings, set from the top bar.
    pub fn set_theme(&mut self, pref: ThemePref) -> (r: Effect)
        ensures
            *final(self) == themed(*old(self), pref),
            r == Effect::Save,
    {
        self.settings.theme = pref;
        Effect::Save
    }

    /// What to say of writing the settings, text fields included. `None` when it worked.
    pub fn save(&self, written: Result<(), String>) -> (r: Option<Note>)
        ensures
            match written {
                Ok(()) => r is None,
                Err(e) => r matches Some(note) && note@ == (Note {
                    level: Level::Warn,
                    text: "Could not save the settings: "@ + e@,
                }),
            },
    {
        match written {
            Ok(()) => None,
            Err(e) => Some(
                Note {
                    level: Level::Warn,
                    text: text::concat2("Could not save the settings: ", e.as_str()),
                },
            ),
        }
    }

    /// Takes in the history file as it is now, which a finished download may have added to, and
    /// the open entry list with it.
    pub fn refresh_history(&mut self, file: HistoryFile)
        ensures
            *final(self) == refreshed(*old(self), file),
    {
        let HistoryFile { count, lines } = file;
        self.history = if self.settings.automation.archive {
            count
        } else {
            None
        };
        if self.history_list.is_some() {
            self.history_list = lines;
        }
    }

    /// Applies one change, and says what else has to be done. Choices are saved at once; typed
    /// text waits (see [`Field`]).
    pub fn update(&mut self, message: Message) -> (r: Effect)
        ensures
            *final(self) == changed(*old(self), message),
            r == asks(*old(self), message),
    {
        match message {
            Message::Text(field, value) => {
                let slot = field.slot(&mut self.settings);
                *slot = value;
                // The history file's name is one of these: keep its count honest as it is typed.
                if field == Field::ArchiveFile {
                    Effect::Refresh
                } else {
                    Effect::Nothing
                }
            },
            Message::Toggle(flag, value) => {
                let slot = flag.slot(&mut self.settings);
                *slot = value;
                Effect::RefreshAndSave
            },
            Message::ClearHistory => {
                self.clearing_history = true;
                Effect::Nothing
            },
            Message::CancelClearHistory => {
                self.clearing_history = false;
                Effect::Nothing
            },
            Message::ConfirmClearHistory => {
                self.clearing_history = false;
                Effect::RemoveHistory
            },
            Message::ChooseFolder => Effect::Nothing,
            Message::FolderChosen(None) => Effect::Nothing,
            Message::FolderChosen(Some(folder)) => {
                self.settings.output_dir = folder;
                Effect::RefreshAndSave
            },
            Message::ToggleHistoryList => {
                let open: bool = self.history_list.is_some();
                self.history_list = None;
                if open {
                    Effect::Nothing
                } else {
                    Effect::ListHistory
                }
            },
            choice => {
                take_choice(&mut self.settings, choice);
                Effect::RefreshAndSave
            },
        }
    }

    /// Opens the list of the history's entries, when there is a history.
    pub fn show_history(&mut self, lines: Option<Vec<String>>)
        ensures
            *final(self) == opened(*old(self), lines),
    {
        self.history_list = lines;
    }

    /// The history file, which held `entries` videos, was to be removed.
    pub fn history_cleared(&mut self, entries: Option<usize>, removal: Removal) -> (r: Note)
        ensures
            *final(self) == without_history(*old(self)),
            r@ == cleared(entries, removal),
    {
        self.history = None;
        self.history_list = None;
        match removal {
            Removal::Removed => {
                let count: usize = match entries {
                    Some(n) => n,
                    None => 0,
                };
                Note {
                    level: Level::Okay,
                    text: text::concat3(
                        "History cleared (",
                        text::decimal_text(count as u64).as_str(),
                        " entries).",
                    ),
                }
            },
            Removal::NotFound => Note {
                level: Level::Info,
                text: "There is no history file yet.".to_owned(),
            },
            Removal::Failed(e) => Note {
                level: Level::Warn,
                text: text::concat2("Could not clear the history: ", e.as_str()),
            },
        }
    }
}

/// What is said of removing a history file that held `entries` videos.
pub open spec fn cleared(entries: Option<usize>, removal: Removal) -> Note<Seq<char>> {
    match removal {
        Removal::Removed => Note {
            level: Level::Okay,
            text: "History cleared ("@ + text::decimal(
                match entries {
                    Some(n) => n as nat,
                    None => 0,
                },
            ) + " entries)."@,
        },
        Removal::NotFound => Note { level: Level::Info, text: "There is no history file yet."@ },
        Removal::Failed(e) => Note {
            level: Level::Warn,
            text: "Could not clear the history: "@ + e@,
        },
    }
}

// ---------------------------------------------------------------------------
// What holds of the page
// ---------------------------------------------------------------------------

/// Whether two settings agree on everything that is chosen from a list.
pub open spec fn same_choices(a: Settings, b: Settings) -> bool {
    &&& a.format.kind == b.format.kind
    &&& a.format.video_format == b.format.video_format
    &&& a.format.quality == b.format.quality
    &&& a.format.container == b.format.container
    &&& a.format.convert == b.format.convert
    &&& a.format.audio == b.format.audio
    &&& a.format.audio_quality == b.format.audio_quality
    &&& a.extras.thumbnail_format == b.extras.thumbnail_format
    &&& a.extras.subs == b.extras.subs
    &&& a.extras.sponsor == b.extras.sponsor
    &&& a.extras.cats == b.extras.cats
    &&& a.automation.playlist == b.automation.playlist
    &&& a.automation.template == b.automation.template
    &&& a.sign_in.cookies_browser == b.sign_in.cookies_browser
    &&& a.theme == b.theme
}

/// A field holds what was typed into it.
pub proof fn law_a_field_edits_its_own_setting(field: Field, s: Settings, value: String)
    ensures
        field.value(field.edited(s, value)) == value,
{
}

/// Typing into a field reaches no other field.
pub proof fn law_a_field_edits_no_other_field(
    field: Field,
    other: Field,
    s: Settings,
    value: String,
)
    requires
        other != field,
    ensures
        other.value(field.edited(s, value)) == other.value(s),
{
}

/// Typing into a field reaches no flag and no choice.
pub proof fn law_a_field_edits_only_text(field: Field, flag: Flag, s: Settings, value: String)
    ensures
        flag.value(field.edited(s, value)) == flag.value(s),
        same_choices(field.edited(s, value), s),
{
}

/// A flag is what it was switched to.
pub proof fn law_a_flag_switches_its_own_setting(flag: Flag, s: Settings, value: bool)
    ensures
        flag.value(flag.edited(s, value)) == value,
{
}

/// Switching a flag reaches no other flag.
pub proof fn law_a_flag_switches_no_other_flag(flag: Flag, other: Flag, s: Settings, value: bool)
    requires
        other != flag,
    ensures
        other.value(flag.edited(s, value)) == other.value(s),
{
}

/// Switching a flag reaches no text and no choice.
pub proof fn law_a_flag_switches_only_itself(flag: Flag, field: Field, s: Settings, value: bool)
    ensures
        field.value(flag.edited(s, value)) == field.value(s),
        same_choices(flag.edited(s, value), s),
{
}

/// Choices are saved at once, and nothing else is.
pub proof fn law_choices_are_saved_at_once(page: SettingsPage, message: Message)
    ensures
        asks(page, message) == Effect::RefreshAndSave <==> is_choice(message),
        asks(page, message) != Effect::Save,
{
}

/// The history file is removed when that is confirmed, and by nothing else; asking for it and
/// thinking better of it leave the page as it was.
pub proof fn law_clearing_the_history_asks_first(page: SettingsPage, message: Message)
    ensures
        asks(page, message) == Effect::RemoveHistory <==> message is ConfirmClearHistory,
        changed(page, Message::ClearHistory).clearing_history,
        !page.clearing_history ==> changed(
            changed(page, Message::ClearHistory),
            Message::CancelClearHistory,
        ) == page,
{
}

/// The list of entries can be opened and hidden again, which leaves the page as it was.
pub proof fn law_the_entries_can_be_hidden_again(page: SettingsPage, lines: Option<Vec<String>>)
    requires
        page.history_list is None,
    ensures
        asks(page, Message::ToggleHistoryList) == Effect::ListHistory,
        changed(page, Message::ToggleHistoryList) == page,
        ({
            let opened = SettingsPage { history_list: lines, ..page };
            changed(opened, Message::ToggleHistoryList) == page
        }),
{
}

} // verus!
