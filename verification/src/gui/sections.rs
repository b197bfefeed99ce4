//! What the Settings page shows: which controls each card has, depending on the settings.
use vstd::prelude::*;

use super::settings::{Field, Flag, Message, SettingsPage};
use super::ui::{button, Button, Look};
use crate::config::{
    Advanced, Audio, Automation, Browser, Cats, Container, Convert, Extras, Format, Kind,
    PlaylistChoice, Quality, Settings, SignIn, Sponsor, Subs, Template, Thumb, VideoFormat,
};
use crate::provision::{join_path, paths, Paths};
use crate::text;

verus! {

/// A list to choose from, with what is chosen now.
#[derive(Debug, Clone, Copy, PartialEq, Eq, Structural)]
pub enum Pick {
    VideoFormat(VideoFormat),
    Quality(Quality),
    Container(Container),
    Convert(Convert),
    Audio(Audio),
    AudioQuality(u8),
    Thumb(Thumb),
    Subs(Subs),
    Sponsor(Sponsor),
    Cats(Cats),
    Playlist(PlaylistChoice),
    Template(Template),
    Browser(Browser),
}

/// The history's own entries, one per line as yt-dlp wrote them.
#[derive(Debug, Clone, PartialEq, Eq)]
pub enum HistoryList<T = String, L = Vec<String>> {
    Remark(T),
    Lines(L),
}

impl View for HistoryList {
    type V = HistoryList<Seq<char>, Seq<Seq<char>>>;

    open spec fn view(&self) -> HistoryList<Seq<char>, Seq<Seq<char>>> {
        match *self {
            HistoryList::Remark(text) => HistoryList::Remark(text@),
            HistoryList::Lines(lines) => HistoryList::Lines(text::texts(lines@)),
        }
    }
}

/// What the history holds, and a two step way to throw it away.
#[derive(Debug, Clone, PartialEq, Eq)]
pub enum HistoryRow<T = String, L = Vec<String>> {
    Confirm { warning: T, cancel: Button<Message, T>, clear: Button<Message, T> },
    Summary {
        summary: T,
        entries: Button<Message, T>,
        clear: Button<Message, T>,
        list: Option<HistoryList<T, L>>,
    },
}

impl View for HistoryRow {
    type V = HistoryRow<Seq<char>, Seq<Seq<char>>>;

    open spec fn view(&self) -> HistoryRow<Seq<char>, Seq<Seq<char>>> {
        match *self {
            HistoryRow::Confirm { warning, cancel, clear } => HistoryRow::Confirm {
                warning: warning@,
                cancel: cancel@,
                clear: clear@,
            },
            HistoryRow::Summary { summary, entries, clear, list } => HistoryRow::Summary {
                summary: summary@,
                entries: entries@,
                clear: clear@,
                list: match list {
                    Some(list) => Some(list@),
                    None => None,
                },
            },
        }
    }
}

/// One control of a card.
#[derive(Debug, Clone, PartialEq, Eq)]
pub enum Control<T = String, L = Vec<String>> {
    /// One of several: sends [`Message::Kind`].
    Radio { label: T, kind: Kind, chosen: Kind },
    Pick { label: T, pick: Pick },
    /// Sends [`Message::Text`].
    Input { label: T, placeholder: T, field: Field, value: T, width: u16 },
    /// Sends [`Message::Toggle`].
    Toggle { label: T, flag: Flag, on: bool },
    Remark(T),
    History(HistoryRow<T, L>),
    /// A folder, which can be typed or chosen from a dialog.
    Folder { placeholder: T, field: Field, value: T, choice: Button<Message, T> },
}

impl View for Control {
    type V = Control<Seq<char>, Seq<Seq<char>>>;

    open spec fn view(&self) -> Control<Seq<char>, Seq<Seq<char>>> {
        match *self {
            Control::Radio { label, kind, chosen } => Control::Radio { label: label@, kind, chosen },
            Control::Pick { label, pick } => Control::Pick { label: label@, pick },
            Control::Input { label, placeholder, field, value, width } => Control::Input {
                label: label@,
                placeholder: placeholder@,
                field,
                value: value@,
                width,
            },
            Control::Toggle { label, flag, on } => Control::Toggle { label: label@, flag, on },
            Control::Remark(text) => Control::Remark(text@),
            Control::History(row) => Control::History(row@),
            Control::Folder { placeholder, field, value, choice } => Control::Folder {
                placeholder: placeholder@,
                field,
                value: value@,
                choice: choice@,
            },
        }
    }
}

/// What some controls show.
pub open spec fn shown(v: Seq<Control>) -> Seq<Control<Seq<char>, Seq<Seq<char>>>> {
    v.map_values(|c: Control| c@)
}

/// A list to choose from.
pub open spec fn a_pick(label: Seq<char>, pick: Pick) -> Seq<Control<Seq<char>, Seq<Seq<char>>>> {
    seq![Control::Pick { label, pick }]
}

/// A text to type.
pub open spec fn an_input(
    label: Seq<char>,
    placeholder: Seq<char>,
    field: Field,
    value: Seq<char>,
    width: u16,
) -> Seq<Control<Seq<char>, Seq<Seq<char>>>> {
    seq![Control::Input { label, placeholder, field, value, width }]
}

/// A switch.
pub open spec fn a_toggle(label: Seq<char>, flag: Flag, on: bool) -> Seq<
    Control<Seq<char>, Seq<Seq<char>>>,
> {
    seq![Control::Toggle { label, flag, on }]
}

/// A muted text.
pub open spec fn a_remark(line: Seq<char>) -> Seq<Control<Seq<char>, Seq<Seq<char>>>> {
    seq![Control::Remark(line)]
}

/// `controls` where `condition` holds, and nothing elsewhere.
pub open spec fn when(
    condition: bool,
    controls: Seq<Control<Seq<char>, Seq<Seq<char>>>>,
) -> Seq<Control<Seq<char>, Seq<Seq<char>>>> {
    if condition {
        controls
    } else {
        Seq::empty()
    }
}

fn push(body: &mut Vec<Control>, control: Control)
    ensures
        shown(final(body)@) == shown(old(body)@) + seq![control@],
{
    body.push(control);
    proof {
        assert(shown(body@) =~= shown(old(body)@) + seq![control@]);
    }
}

fn pick(body: &mut Vec<Control>, label: &str, pick: Pick)
    ensures
        shown(final(body)@) == shown(old(body)@) + a_pick(label@, pick),
{
    push(body, Control::Pick { label: label.to_owned(), pick });
}

fn input(
    body: &mut Vec<Control>,
    label: &str,
    placeholder: &str,
    field: Field,
    value: &String,
    width: u16,
)
    ensures
        shown(final(body)@) == shown(old(body)@) + an_input(
            label@,
            placeholder@,
            field,
            value@,
            width,
        ),
{
    push(
        body,
        Control::Input {
            label: label.to_owned(),
            placeholder: placeholder.to_owned(),
            field,
            value: value.clone(),
            width,
        },
    );
}

fn toggle(body: &mut Vec<Control>, label: &str, flag: Flag, on: bool)
    ensures
        shown(final(body)@) == shown(old(body)@) + a_toggle(label@, flag, on),
{
    push(body, Control::Toggle { label: label.to_owned(), flag, on });
}

fn remark(body: &mut Vec<Control>, line: &str)
    ensures
        shown(final(body)@) == shown(old(body)@) + a_remark(line@),
{
    push(body, Control::Remark(line.to_owned()));
}

fn radio(body: &mut Vec<Control>, label: &str, kind: Kind, chosen: Kind)
    ensures
        shown(final(body)@) == shown(old(body)@) + seq![
            Control::Radio { label: label@, kind, chosen },
        ],
{
    push(body, Control::Radio { label: label.to_owned(), kind, chosen });
}

// ---------------------------------------------------------------------------
// What to download
// ---------------------------------------------------------------------------

/// The controls for a video: format, quality, container and its conversion.
pub open spec fn video_controls(f: Format) -> Seq<Control<Seq<char>, Seq<Seq<char>>>> {
    a_pick("Format"@, Pick::VideoFormat(f.video_format))
    + when(
        f.video_format is Custom,
        an_input(
            "Format string"@,
            "bestvideo+bestaudio"@,
            Field::CustomFormat,
            f.custom_format@,
            300,
        ),
    )
    + a_pick("Quality"@, Pick::Quality(f.quality))
    + a_pick("Container"@, Pick::Container(f.container))
    + a_pick("Convert the container"@, Pick::Convert(f.convert))
    + when(
        !(f.convert is Keep),
        an_input("Convert to"@, "mp4"@, Field::ConvertTarget, f.convert_target@, 160),
    )
}

/// yt-dlp's `--audio-quality` scale.
pub const AUDIO_QUALITIES: [u8; 11] = [0, 1, 2, 3, 4, 5, 6, 7, 8, 9, 10];

/// The audio qualities that are offered: every one from 0, the best, to 10, the smallest.
pub fn audio_qualities() -> (r: Vec<u8>)
    ensures
        r@ == Seq::new(11, |i: int| i as u8),
        forall|quality: u8| r@.contains(quality) <==> quality <= 10,
{
    let mut r: Vec<u8> = Vec::new();
    let all: [u8; 11] = AUDIO_QUALITIES;
    let mut i: usize = 0;
    while i < 11
        invariant
            i <= 11,
            all == AUDIO_QUALITIES,
            r@ == all@.take(i as int),
        decreases 11 - i,
    {
        r.push(all[i]);
        proof {
            assert(all@.take(i + 1) =~= all@.take(i as int).push(all@[i as int]));
        }
        i = i + 1;
    }
    proof {
        assert(r@ =~= Seq::new(11, |i: int| i as u8));
        assert forall|quality: u8| quality <= 10 implies r@.contains(quality) by {
            assert(r@[quality as int] == quality);
        }
    }
    r
}

/// The controls for audio: whether to convert it, to what, and how well where that loses anything.
pub open spec fn audio_controls(f: Format, lossless: bool) -> Seq<
    Control<Seq<char>, Seq<Seq<char>>>,
> {
    a_toggle("Convert it to another format"@, Flag::AudioConvert, f.audio_convert)
    + when(f.audio_convert, a_pick("Audio format"@, Pick::Audio(f.audio)))
    + when(
        f.audio_convert && !lossless,
        a_pick("Audio quality (0 best, 10 smallest)"@, Pick::AudioQuality(f.audio_quality)),
    )
    + when(
        !f.audio_convert,
        a_remark("The audio is kept exactly as the site serves it."@),
    )
}

/// The card on what to download. `lossless` tells whether the chosen audio format loses nothing.
pub open spec fn format_controls(f: Format, lossless: bool) -> Seq<
    Control<Seq<char>, Seq<Seq<char>>>,
> {
    seq![
        Control::Radio { label: "Video and audio"@, kind: Kind::VideoAudio, chosen: f.kind },
        Control::Radio { label: "Audio only"@, kind: Kind::AudioOnly, chosen: f.kind },
    ] + (match f.kind {
        Kind::VideoAudio => video_controls(f),
        Kind::AudioOnly => audio_controls(f, lossless),
    })
}

/// The card on what to download. `lossless` tells whether the chosen audio format loses nothing.
pub fn format_section(f: &Format, lossless: bool) -> (r: Vec<Control>)
    ensures
        shown(r@) == format_controls(*f, lossless),
{
    let mut body: Vec<Control> = Vec::new();
    radio(&mut body, "Video and audio", Kind::VideoAudio, f.kind);
    radio(&mut body, "Audio only", Kind::AudioOnly, f.kind);
    match f.kind {
        Kind::VideoAudio => {
            pick(&mut body, "Format", Pick::VideoFormat(f.video_format));
            if f.video_format == VideoFormat::Custom {
                input(
                    &mut body,
                    "Format string",
                    "bestvideo+bestaudio",
                    Field::CustomFormat,
                    &f.custom_format,
                    300,
                );
            }
            pick(&mut body, "Quality", Pick::Quality(f.quality));
            pick(&mut body, "Container", Pick::Container(f.container));
            pick(&mut body, "Convert the container", Pick::Convert(f.convert));
            if f.convert != Convert::Keep {
                input(
                    &mut body,
                    "Convert to",
                    "mp4",
                    Field::ConvertTarget,
                    &f.convert_target,
                    160,
                );
            }
        },
        Kind::AudioOnly => {
            toggle(
                &mut body,
                "Convert it to another format",
                Flag::AudioConvert,
                f.audio_convert,
            );
            if f.audio_convert {
                pick(&mut body, "Audio format", Pick::Audio(f.audio));
                if !lossless {
                    pick(
                        &mut body,
                        "Audio quality (0 best, 10 smallest)",
                        Pick::AudioQuality(f.audio_quality),
                    );
                }
            } else {
                remark(&mut body, "The audio is kept exactly as the site serves it.");
            }
        },
    }
    proof {
        assert(shown(body@) =~= format_controls(*f, lossless));
    }
    body
}

// ---------------------------------------------------------------------------
// Extras
// ---------------------------------------------------------------------------

/// The card on what is added to a download.
pub open spec fn extras_controls(e: Extras) -> Seq<Control<Seq<char>, Seq<Seq<char>>>> {
    a_toggle("Embed the thumbnail"@, Flag::Thumbnail, e.thumbnail)
    + when(e.thumbnail, a_pick("Thumbnail format"@, Pick::Thumb(e.thumbnail_format)))
    + a_toggle("Embed title, artist and date"@, Flag::Metadata, e.metadata)
    + a_toggle("Embed chapters"@, Flag::Chapters, e.chapters)
    + a_pick("Subtitles"@, Pick::Subs(e.subs))
    + when(
        !(e.subs is Off),
        an_input("Languages"@, "all but live chat"@, Field::SubLangs, e.sub_langs@, 240)
            + a_toggle("Include auto-generated subtitles"@, Flag::AutoSubs, e.auto_subs),
    )
    + a_pick("SponsorBlock"@, Pick::Sponsor(e.sponsor))
    + when(!(e.sponsor is Off), a_pick("Segments"@, Pick::Cats(e.cats)))
    + when(
        !(e.sponsor is Off) && e.cats is Custom,
        an_input("Categories"@, "sponsor,intro,outro"@, Field::CustomCats, e.custom_cats@, 240),
    )
    + when(
        e.sponsor is Remove,
        a_toggle(
            "Cut exactly at keyframes (re-encodes, much slower)"@,
            Flag::Keyframes,
            e.keyframes,
        ),
    )
}

/// The card on what is added to a download.
pub fn extras_section(e: &Extras) -> (r: Vec<Control>)
    ensures
        shown(r@) == extras_controls(*e),
{
    let mut body: Vec<Control> = Vec::new();
    toggle(&mut body, "Embed the thumbnail", Flag::Thumbnail, e.thumbnail);
    if e.thumbnail {
        pick(&mut body, "Thumbnail format", Pick::Thumb(e.thumbnail_format));
    }
    toggle(&mut body, "Embed title, artist and date", Flag::Metadata, e.metadata);
    toggle(&mut body, "Embed chapters", Flag::Chapters, e.chapters);
    pick(&mut body, "Subtitles", Pick::Subs(e.subs));
    if e.subs != Subs::Off {
        input(&mut body, "Languages", "all but live chat", Field::SubLangs, &e.sub_langs, 240);
        toggle(&mut body, "Include auto-generated subtitles", Flag::AutoSubs, e.auto_subs);
    }
    pick(&mut body, "SponsorBlock", Pick::Sponsor(e.sponsor));
    if e.sponsor != Sponsor::Off {
        pick(&mut body, "Segments", Pick::Cats(e.cats));
        if e.cats == Cats::Custom {
            input(
                &mut body,
                "Categories",
                "sponsor,intro,outro",
                Field::CustomCats,
                &e.custom_cats,
                240,
            );
        }
    }
    if e.sponsor == Sponsor::Remove {
        toggle(
            &mut body,
            "Cut exactly at keyframes (re-encodes, much slower)",
            Flag::Keyframes,
            e.keyframes,
        );
    }
    proof {
        assert(shown(body@) =~= extras_controls(*e));
    }
    body
}

// ---------------------------------------------------------------------------
// Automation and naming
// ---------------------------------------------------------------------------

/// The live state of the history file, which isn't part of the settings.
#[derive(Debug, Clone, PartialEq, Eq)]
pub struct History {
    /// How many videos the history holds, when it has been looked at.
    pub count: Option<usize>,
    /// The history's own entries, shown one by one while this is `Some`.
    pub entries: Option<Vec<String>>,
    pub confirming_clear: bool,
}

/// The list of entries.
pub open spec fn list_of(lines: Seq<Seq<char>>) -> HistoryList<Seq<char>, Seq<Seq<char>>> {
    if lines.len() == 0 {
        HistoryList::Remark("The history is empty."@)
    } else {
        HistoryList::Lines(lines)
    }
}

fn copied(v: &Vec<String>) -> (r: Vec<String>)
    ensures
        text::texts(r@) == text::texts(v@),
{
    let mut r: Vec<String> = Vec::new();
    let mut i: usize = 0;
    while i < v.len()
        invariant
            i <= v.len(),
            text::texts(r@) == text::texts(v@).take(i as int),
        decreases v.len() - i,
    {
        let ghost before = text::texts(r@);
        r.push(v[i].clone());
        proof {
            assert(text::texts(r@) =~= before.push(v@[i as int]@));
            assert(text::texts(v@).take(i + 1) =~= before.push(v@[i as int]@));
        }
        i = i + 1;
    }
    proof {
        assert(text::texts(v@).take(i as int) =~= text::texts(v@));
    }
    r
}

/// The history's own entries, one per line as yt-dlp wrote them.
pub fn history_list_view(lines: &Vec<String>) -> (r: HistoryList)
    ensures
        r@ == list_of(text::texts(lines@)),
{
    if lines.len() == 0 {
        HistoryList::Remark("The history is empty.".to_owned())
    } else {
        HistoryList::Lines(copied(lines))
    }
}

/// What the history row shows.
pub open spec fn row_of(history: History) -> HistoryRow<Seq<char>, Seq<Seq<char>>> {
    if history.confirming_clear {
        HistoryRow::Confirm {
            warning: "This deletes the history file for good."@,
            cancel: Button {
                label: "Cancel"@,
                look: Look::Secondary,
                press: Some(Message::CancelClearHistory),
            },
            clear: Button {
                label: "Clear"@,
                look: Look::Danger,
                press: Some(Message::ConfirmClearHistory),
            },
        }
    } else {
        HistoryRow::Summary {
            summary: match history.count {
                Some(n) => if n == 1 {
                    "1 video in the history"@
                } else {
                    text::decimal(n as nat) + " videos in the history"@
                },
                None => "The history file doesn't exist yet."@,
            },
            entries: Button {
                label: if history.entries is Some {
                    "Hide entries"@
                } else {
                    "View entries"@
                },
                look: Look::Secondary,
                press: if history.count is Some {
                    Some(Message::ToggleHistoryList)
                } else {
                    None
                },
            },
            clear: Button {
                label: "Clear history"@,
                look: Look::Secondary,
                press: if history.count is Some {
                    Some(Message::ClearHistory)
                } else {
                    None
                },
            },
            list: match history.entries {
                Some(lines) => Some(list_of(text::texts(lines@))),
                None => None,
            },
        }
    }
}

/// What the history holds, and a two step way to throw it away.
pub fn history_row(history: &History) -> (r: HistoryRow)
    ensures
        r@ == row_of(*history),
{
    if history.confirming_clear {
        return HistoryRow::Confirm {
            warning: "This deletes the history file for good.".to_owned(),
            cancel: button("Cancel", Look::Secondary, Some(Message::CancelClearHistory)),
            clear: button("Clear", Look::Danger, Some(Message::ConfirmClearHistory)),
        };
    }
    let summary: String = match history.count {
        Some(n) => if n == 1 {
            "1 video in the history".to_owned()
        } else {
            text::concat2(text::decimal_text(n as u64).as_str(), " videos in the history")
        },
        None => "The history file doesn't exist yet.".to_owned(),
    };
    let (toggle_press, clear_press): (Option<Message>, Option<Message>) =
        if history.count.is_some() {
        (Some(Message::ToggleHistoryList), Some(Message::ClearHistory))
    } else {
        (None, None)
    };
    let wording: &str = if history.entries.is_some() {
        "Hide entries"
    } else {
        "View entries"
    };
    HistoryRow::Summary {
        summary,
        entries: button(wording, Look::Secondary, toggle_press),
        clear: button("Clear history", Look::Secondary, clear_press),
        list: match &history.entries {
            Some(lines) => Some(history_list_view(lines)),
            None => None,
        },
    }
}

/// The card on playlists, the history and file names.
pub open spec fn automation_controls(a: Automation, history: History) -> Seq<
    Control<Seq<char>, Seq<Seq<char>>>,
> {
    a_pick("Playlists"@, Pick::Playlist(a.playlist))
    + when(
        a.playlist is Whole,
        an_input(
            "Items (empty for all)"@,
            "1-5,8"@,
            Field::PlaylistItems,
            a.playlist_items@,
            160,
        )
        + a_toggle(
            "Start from the end of the playlist"@,
            Flag::PlaylistReverse,
            a.playlist_reverse,
        )
        + a_toggle("One folder per playlist, numbered"@, Flag::Organize, a.organize),
    )
    + a_toggle(
        "Keep a history and skip what was downloaded before"@,
        Flag::Archive,
        a.archive,
    )
    + when(
        a.archive,
        an_input(
            "History file"@,
            "download_archive.txt"@,
            Field::ArchiveFile,
            a.archive_file@,
            240,
        )
        + a_toggle(
            "Stop as soon as a video is already in the history"@,
            Flag::ArchiveStop,
            a.archive_stop,
        )
        + seq![Control::History(row_of(history))],
    )
    + an_input(
        "Stop after this many files"@,
        "no limit"@,
        Field::MaxDownloads,
        a.max_downloads@,
        160,
    )
    + a_pick("File names"@, Pick::Template(a.template))
    + when(
        a.template is Custom,
        an_input(
            "Template"@,
            "%(title)s [%(id)s].%(ext)s"@,
            Field::CustomTemplate,
            a.custom_template@,
            300,
        ),
    )
    + a_toggle("Plain ASCII file names"@, Flag::Restrict, a.restrict_filenames)
}

/// The card on playlists, the history and file names.
pub fn automation_section(a: &Automation, history: &History) -> (r: Vec<Control>)
    ensures
        shown(r@) == automation_controls(*a, *history),
{
    let mut body: Vec<Control> = Vec::new();
    pick(&mut body, "Playlists", Pick::Playlist(a.playlist));
    if a.playlist == PlaylistChoice::Whole {
        input(
            &mut body,
            "Items (empty for all)",
            "1-5,8",
            Field::PlaylistItems,
            &a.playlist_items,
            160,
        );
        toggle(
            &mut body,
            "Start from the end of the playlist",
            Flag::PlaylistReverse,
            a.playlist_reverse,
        );
        toggle(&mut body, "One folder per playlist, numbered", Flag::Organize, a.organize);
    }
    toggle(
        &mut body,
        "Keep a history and skip what was downloaded before",
        Flag::Archive,
        a.archive,
    );
    if a.archive {
        input(
            &mut body,
            "History file",
            "download_archive.txt",
            Field::ArchiveFile,
            &a.archive_file,
            240,
        );
        toggle(
            &mut body,
            "Stop as soon as a video is already in the history",
            Flag::ArchiveStop,
            a.archive_stop,
        );
        push(&mut body, Control::History(history_row(history)));
    }
    input(
        &mut body,
        "Stop after this many files",
        "no limit",
        Field::MaxDownloads,
        &a.max_downloads,
        160,
    );
    pick(&mut body, "File names", Pick::Template(a.template));
    if a.template == Template::Custom {
        input(
            &mut body,
            "Template",
            "%(title)s [%(id)s].%(ext)s",
            Field::CustomTemplate,
            &a.custom_template,
            300,
        );
    }
    toggle(&mut body, "Plain ASCII file names", Flag::Restrict, a.restrict_filenames);
    proof {
        assert(shown(body@) =~= automation_controls(*a, *history));
    }
    body
}

// ---------------------------------------------------------------------------
// Signing in, the advanced settings and the folder
// ---------------------------------------------------------------------------

/// The card on cookies from a browser the person is signed in with.
pub open spec fn sign_in_controls(s: SignIn) -> Seq<Control<Seq<char>, Seq<Seq<char>>>> {
    a_pick("Use cookies from"@, Pick::Browser(s.cookies_browser))
    + when(
        !(s.cookies_browser is Off),
        an_input(
            "Profile (empty for the last used)"@,
            "default"@,
            Field::CookiesProfile,
            s.cookies_profile@,
            240,
        )
        + a_remark(
            "Only for videos that need you signed in. Firefox works best: Chrome, Edge and other Chromium browsers may have to be closed first, and recent versions on Windows can't be read at all."@,
        ),
    )
}

/// The card on cookies from a browser the person is signed in with, for videos that need an
/// account (age restricted, members only, private).
pub fn sign_in_section(s: &SignIn) -> (r: Vec<Control>)
    ensures
        shown(r@) == sign_in_controls(*s),
{
    let mut body: Vec<Control> = Vec::new();
    pick(&mut body, "Use cookies from", Pick::Browser(s.cookies_browser));
    if s.cookies_browser != Browser::Off {
        input(
            &mut body,
            "Profile (empty for the last used)",
            "default",
            Field::CookiesProfile,
            &s.cookies_profile,
            240,
        );
        remark(
            &mut body,
            "Only for videos that need you signed in. Firefox works best: Chrome, Edge and other Chromium browsers may have to be closed first, and recent versions on Windows can't be read at all.",
        );
    }
    proof {
        assert(shown(body@) =~= sign_in_controls(*s));
    }
    body
}

/// The card on how requests are made and what is logged.
pub open spec fn advanced_controls(a: Advanced) -> Seq<Control<Seq<char>, Seq<Seq<char>>>> {
    an_input("Speed limit"@, "no limit"@, Field::LimitRate, a.limit_rate@, 160)
    + an_input("Parts downloaded at once"@, "5"@, Field::Fragments, a.fragments@, 160)
    + an_input("Seconds between requests"@, "1.5"@, Field::Sleep, a.sleep@, 160)
    + a_toggle("Record live streams from the start"@, Flag::LiveFromStart, a.live_from_start)
    + an_input(
        "Wait for a scheduled stream (seconds)"@,
        "60-3600"@,
        Field::WaitForVideo,
        a.wait_for_video@,
        160,
    )
    + a_toggle("Keep the original upload date on the file"@, Flag::Mtime, a.preserve_mtime)
    + a_toggle(
        "Keep going when one video of a playlist fails"@,
        Flag::IgnoreErrors,
        a.ignore_errors,
    )
    + a_toggle("Verbose log (for troubleshooting)"@, Flag::Verbose, a.verbose)
}

/// The card on how requests are made and what is logged.
pub fn advanced_section(a: &Advanced) -> (r: Vec<Control>)
    ensures
        shown(r@) == advanced_controls(*a),
{
    let mut body: Vec<Control> = Vec::new();
    input(&mut body, "Speed limit", "no limit", Field::LimitRate, &a.limit_rate, 160);
    input(&mut body, "Parts downloaded at once", "5", Field::Fragments, &a.fragments, 160);
    input(&mut body, "Seconds between requests", "1.5", Field::Sleep, &a.sleep, 160);
    toggle(
        &mut body,
        "Record live streams from the start",
        Flag::LiveFromStart,
        a.live_from_start,
    );
    input(
        &mut body,
        "Wait for a scheduled stream (seconds)",
        "60-3600",
        Field::WaitForVideo,
        &a.wait_for_video,
        160,
    );
    toggle(
        &mut body,
        "Keep the original upload date on the file",
        Flag::Mtime,
        a.preserve_mtime,
    );
    toggle(
        &mut body,
        "Keep going when one video of a playlist fails",
        Flag::IgnoreErrors,
        a.ignore_errors,
    );
    toggle(&mut body, "Verbose log (for troubleshooting)", Flag::Verbose, a.verbose);
    proof {
        assert(shown(body@) =~= advanced_controls(*a));
    }
    body
}

/// The card on the folder downloads go to.
pub open spec fn destination_controls(s: Settings, paths: Paths) -> Seq<
    Control<Seq<char>, Seq<Seq<char>>>,
> {
    seq![
        Control::Folder {
            placeholder: paths::joined_path(paths.platform, paths.app_dir@, "downloads"@),
            field: Field::OutputDir,
            value: s.output_dir@,
            choice: Button {
                label: "Choose..."@,
                look: Look::Secondary,
                press: Some(Message::ChooseFolder),
            },
        },
    ] + a_remark("Leave it empty to use the downloads folder next to this app."@)
}

/// The card on the folder downloads go to.
pub fn destination_section(s: &Settings, paths: &Paths) -> (r: Vec<Control>)
    requires
        paths.wf(),
    ensures
        shown(r@) == destination_controls(*s, *paths),
{
    proof {
        reveal_strlit("downloads");
        reveal_strlit(".");
        reveal_strlit("..");
        assert("downloads"@.len() > 2);
    }
    let placeholder: String = join_path(paths.platform, paths.app_dir.as_str(), "downloads");
    let mut body: Vec<Control> = Vec::new();
    push(
        &mut body,
        Control::Folder {
            placeholder,
            field: Field::OutputDir,
            value: s.output_dir.clone(),
            choice: button("Choose...", Look::Secondary, Some(Message::ChooseFolder)),
        },
    );
    remark(&mut body, "Leave it empty to use the downloads folder next to this app.");
    proof {
        assert(shown(body@) =~= destination_controls(*s, *paths));
    }
    body
}

// ---------------------------------------------------------------------------
// The page
// ---------------------------------------------------------------------------

/// A card of the page.
#[derive(Debug, Clone, PartialEq, Eq)]
pub struct Card<T = String, C = Vec<Control>> {
    pub title: T,
    pub controls: C,
}

impl View for Card {
    type V = Card<Seq<char>, Seq<Control<Seq<char>, Seq<Seq<char>>>>>;

    open spec fn view(&self) -> Card<Seq<char>, Seq<Control<Seq<char>, Seq<Seq<char>>>>> {
        Card { title: self.title@, controls: shown(self.controls@) }
    }
}

/// What some cards show.
pub open spec fn cards(v: Seq<Card>) -> Seq<
    Card<Seq<char>, Seq<Control<Seq<char>, Seq<Seq<char>>>>>,
> {
    v.map_values(|c: Card| c@)
}

/// What the page says about itself.
pub fn introduction() -> (r: &'static str)
    ensures
        r@
            == "These apply to every link you queue from now on. Links already in the queue keep what they were queued with."@,
{
    "These apply to every link you queue from now on. Links already in the queue keep what they were queued with."
}

/// The live state of the history file as the page has it.
pub open spec fn history_of(page: SettingsPage) -> History {
    History {
        count: page.history,
        entries: page.history_list,
        confirming_clear: page.clearing_history,
    }
}

/// The cards of the page.
pub open spec fn page_cards(
    settings: Settings,
    paths: Paths,
    history: History,
    lossless: bool,
) -> Seq<Card<Seq<char>, Seq<Control<Seq<char>, Seq<Seq<char>>>>>> {
    seq![
        Card {
            title: "What to download"@,
            controls: format_controls(settings.format, lossless),
        },
        Card { title: "Extras"@, controls: extras_controls(settings.extras) },
        Card {
            title: "Automation and naming"@,
            controls: automation_controls(settings.automation, history),
        },
        Card { title: "Signing in"@, controls: sign_in_controls(settings.sign_in) },
        Card { title: "Advanced"@, controls: advanced_controls(settings.advanced) },
        Card { title: "Where to save"@, controls: destination_controls(settings, paths) },
    ]
}

/// The cards of the page. `lossless` tells whether the chosen audio format loses nothing.
pub fn view(settings: &Settings, paths: &Paths, history: &History, lossless: bool) -> (r: Vec<Card>)
    requires
        paths.wf(),
    ensures
        cards(r@) == page_cards(*settings, *paths, *history, lossless),
{
    let mut r: Vec<Card> = Vec::new();
    r.push(
        Card {
            title: "What to download".to_owned(),
            controls: format_section(&settings.format, lossless),
        },
    );
    r.push(Card { title: "Extras".to_owned(), controls: extras_section(&settings.extras) });
    r.push(
        Card {
            title: "Automation and naming".to_owned(),
            controls: automation_section(&settings.automation, history),
        },
    );
    r.push(Card { title: "Signing in".to_owned(), controls: sign_in_section(&settings.sign_in) });
    r.push(Card { title: "Advanced".to_owned(), controls: advanced_section(&settings.advanced) });
    r.push(
        Card {
            title: "Where to save".to_owned(),
            controls: destination_section(settings, paths),
        },
    );
    proof {
        assert(cards(r@) =~= page_cards(*settings, *paths, *history, lossless));
    }
    r
}

impl SettingsPage {
    /// The cards of the page. `lossless` tells whether the chosen audio format loses nothing.
    pub fn view(&self, paths: &Paths, lossless: bool) -> (r: Vec<Card>)
        requires
            paths.wf(),
        ensures
            cards(r@) == page_cards(self.settings, *paths, history_of(*self), lossless),
    {
        let history = History {
            count: self.history,
            entries: match &self.history_list {
                Some(lines) => Some(copied(lines)),
                None => None,
            },
            confirming_clear: self.clearing_history,
        };
        proof {
            assert(row_of(history) == row_of(history_of(*self)));
        }
        view(&self.settings, paths, &history, lossless)
    }
}

// ---------------------------------------------------------------------------
// What holds of the page
// ---------------------------------------------------------------------------

/// The history is thrown away in two steps: the button that removes it is there only once it was
/// asked for, and asking for it is offered only when there is a history.
pub proof fn law_the_history_is_thrown_away_in_two_steps(history: History)
    ensures
        match row_of(history) {
            HistoryRow::Confirm { cancel, clear, .. } => {
                &&& history.confirming_clear
                &&& cancel.press == Some(Message::CancelClearHistory)
                &&& clear.press == Some(Message::ConfirmClearHistory)
            },
            HistoryRow::Summary { entries, clear, .. } => {
                &&& !history.confirming_clear
                &&& entries.press != Some(Message::ConfirmClearHistory)
                &&& clear.press != Some(Message::ConfirmClearHistory)
                &&& clear.press == Some(Message::ClearHistory) <==> history.count is Some
            },
        },
{
}

/// Whether a control shows what is in its setting.
pub open spec fn shows_its_setting(control: Control<Seq<char>, Seq<Seq<char>>>, settings: Settings) -> bool {
    match control {
        Control::Input { field, value, .. } => value == field.value(settings)@,
        Control::Folder { field, value, .. } => value == field.value(settings)@,
        Control::Toggle { flag, on, .. } => on == flag.value(settings),
        Control::Radio { chosen, .. } => chosen == settings.format.kind,
        _ => true,
    }
}

/// What a field shows is what is in its setting: typing into it is seen on its card.
#[verifier::opaque]
pub open spec fn shows(controls: Seq<Control<Seq<char>, Seq<Seq<char>>>>, settings: Settings) -> bool {
    forall|i: int| 0 <= i < controls.len() ==> shows_its_setting(#[trigger] controls[i], settings)
}

broadcast proof fn lemma_none_shows(settings: Settings)
    ensures
        #[trigger] shows(Seq::empty(), settings),
{
    reveal(shows);
}

broadcast proof fn lemma_one_more_shows(
    controls: Seq<Control<Seq<char>, Seq<Seq<char>>>>,
    control: Control<Seq<char>, Seq<Seq<char>>>,
    settings: Settings,
)
    ensures
        #[trigger] shows(controls.push(control), settings) <==> shows(controls, settings)
            && shows_its_setting(control, settings),
{
    reveal(shows);
    let all = controls.push(control);
    if shows(all, settings) {
        assert forall|i: int| 0 <= i < controls.len() implies shows_its_setting(
            #[trigger] controls[i],
            settings,
        ) by {
            assert(all[i] == controls[i]);
        }
        assert(all[controls.len() as int] == control);
    }
}

broadcast proof fn lemma_both_show(
    front: Seq<Control<Seq<char>, Seq<Seq<char>>>>,
    back: Seq<Control<Seq<char>, Seq<Seq<char>>>>,
    settings: Settings,
)
    ensures
        #[trigger] shows(front + back, settings) <==> shows(front, settings) && shows(
            back,
            settings,
        ),
{
    reveal(shows);
    let all = front + back;
    if shows(all, settings) {
        assert forall|i: int| 0 <= i < front.len() implies shows_its_setting(
            #[trigger] front[i],
            settings,
        ) by {
            assert(all[i] == front[i]);
        }
        assert forall|i: int| 0 <= i < back.len() implies shows_its_setting(
            #[trigger] back[i],
            settings,
        ) by {
            assert(all[front.len() + i] == back[i]);
        }
    }
}

broadcast group group_shows {
    lemma_none_shows,
    lemma_one_more_shows,
    lemma_both_show,
}

proof fn lemma_format_shows(settings: Settings, lossless: bool)
    ensures
        shows(format_controls(settings.format, lossless), settings),
{
    broadcast use group_shows;

    let f = settings.format;
    let radios = seq![
        Control::Radio { label: "Video and audio"@, kind: Kind::VideoAudio, chosen: f.kind },
        Control::Radio { label: "Audio only"@, kind: Kind::AudioOnly, chosen: f.kind },
    ];
    assert(shows(radios, settings)) by {
        reveal(shows);
    }
    let rest = match f.kind {
        Kind::VideoAudio => video_controls(f),
        Kind::AudioOnly => audio_controls(f, lossless),
    };
    assert(shows(rest, settings));
    assert(format_controls(f, lossless) == radios + rest);
}

proof fn lemma_extras_shows(settings: Settings)
    ensures
        shows(extras_controls(settings.extras), settings),
{
    broadcast use group_shows;

}

proof fn lemma_automation_shows(settings: Settings, history: History)
    ensures
        shows(automation_controls(settings.automation, history), settings),
{
    broadcast use group_shows;

}

proof fn lemma_sign_in_shows(settings: Settings)
    ensures
        shows(sign_in_controls(settings.sign_in), settings),
{
    broadcast use group_shows;

}

proof fn lemma_advanced_shows(settings: Settings)
    ensures
        shows(advanced_controls(settings.advanced), settings),
{
    broadcast use group_shows;

}

proof fn lemma_destination_shows(settings: Settings, paths: Paths)
    ensures
        shows(destination_controls(settings, paths), settings),
{
    broadcast use group_shows;

}

/// Every input, switch and radio button of the page shows the setting it edits.
pub proof fn law_every_control_shows_the_setting_it_edits(
    settings: Settings,
    paths: Paths,
    history: History,
    lossless: bool,
)
    ensures
        forall|i: int|
            0 <= i < page_cards(settings, paths, history, lossless).len() ==> shows(
                (#[trigger] page_cards(settings, paths, history, lossless)[i]).controls,
                settings,
            ),
{
    lemma_format_shows(settings, lossless);
    lemma_extras_shows(settings);
    lemma_automation_shows(settings, history);
    lemma_sign_in_shows(settings);
    lemma_advanced_shows(settings);
    lemma_destination_shows(settings, paths);
}

} // verus!
