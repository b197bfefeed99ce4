//! The settings a link is queued with.
//!
//! The lists to choose from belong to the application. An entry the library decides something by
//! has a variant of its own here; the others are carried by their place in the list.
use vstd::prelude::*;

verus! {

/// What is downloaded of a video.
#[derive(Debug, Clone, Copy, PartialEq, Eq, Structural)]
pub enum Kind {
    VideoAudio,
    AudioOnly,
}

/// Which of the offered formats is asked for.
#[derive(Debug, Clone, Copy, PartialEq, Eq, Structural)]
pub enum VideoFormat {
    VideoOnly,
    /// The format string that was typed.
    Custom,
    /// Another one of those offered, by its place.
    Preset(u8),
}

/// How good the picture may be.
#[derive(Debug, Clone, Copy, PartialEq, Eq, Structural)]
pub enum Quality {
    P480,
    P720,
    /// Another one of those offered, by its place.
    Preset(u8),
}

/// What audio is converted to.
#[derive(Debug, Clone, Copy, PartialEq, Eq, Structural)]
pub enum Audio {
    Mp3,
    Wav,
    /// Another one of those offered, by its place.
    Preset(u8),
}

/// The container of a video.
#[derive(Debug, Clone, Copy, PartialEq, Eq, Structural)]
pub enum Container {
    Mp4,
    /// Another one of those offered, by its place.
    Preset(u8),
}

/// Whether the container is converted afterwards.
#[derive(Debug, Clone, Copy, PartialEq, Eq, Structural)]
pub enum Convert {
    Keep,
    /// One of the ways of converting it, by its place.
    Preset(u8),
}

/// What thumbnails are converted to: one of the offered formats, by its place.
#[derive(Debug, Clone, Copy, PartialEq, Eq, Structural)]
pub enum Thumb {
    Preset(u8),
}

/// What is done about subtitles.
#[derive(Debug, Clone, Copy, PartialEq, Eq, Structural)]
pub enum Subs {
    Off,
    /// One of the ways of getting them, by its place.
    Preset(u8),
}

/// What is done about SponsorBlock segments.
#[derive(Debug, Clone, Copy, PartialEq, Eq, Structural)]
pub enum Sponsor {
    Off,
    Mark,
    Remove,
}

/// Which SponsorBlock segments count.
#[derive(Debug, Clone, Copy, PartialEq, Eq, Structural)]
pub enum Cats {
    /// The categories that were typed.
    Custom,
    /// One of the offered groups, by its place.
    Preset(u8),
}

/// What a link to a video inside a playlist stands for.
#[derive(Debug, Clone, Copy, PartialEq, Eq, Structural)]
pub enum PlaylistChoice {
    Whole,
    Single,
}

/// How files are named.
#[derive(Debug, Clone, Copy, PartialEq, Eq, Structural)]
pub enum Template {
    /// The template that was typed.
    Custom,
    /// One of the offered templates, by its place.
    Preset(u8),
}

/// Which browser's cookies are used.
#[derive(Debug, Clone, Copy, PartialEq, Eq, Structural)]
pub enum Browser {
    /// Nobody's.
    Off,
    /// One of the supported browsers, by its place.
    Preset(u8),
}

/// Which theme the window has: one of those offered, by its place.
#[derive(Debug, Clone, Copy, PartialEq, Eq, Structural)]
pub enum ThemePref {
    Preset(u8),
}

/// What to download.
#[derive(Debug, PartialEq, Eq)]
pub struct Format {
    pub kind: Kind,
    pub video_format: VideoFormat,
    pub custom_format: String,
    pub quality: Quality,
    pub container: Container,
    pub convert: Convert,
    pub convert_target: String,
    pub audio_convert: bool,
    pub audio: Audio,
    pub audio_quality: u8,
}

impl Clone for Format {
    fn clone(&self) -> (r: Self)
        ensures
            r == *self,
    {
        Format {
            kind: self.kind,
            video_format: self.video_format,
            custom_format: self.custom_format.clone(),
            quality: self.quality,
            container: self.container,
            convert: self.convert,
            convert_target: self.convert_target.clone(),
            audio_convert: self.audio_convert,
            audio: self.audio,
            audio_quality: self.audio_quality,
        }
    }
}

/// What is added to a download.
#[derive(Debug, PartialEq, Eq)]
pub struct Extras {
    pub thumbnail: bool,
    pub thumbnail_format: Thumb,
    pub metadata: bool,
    pub chapters: bool,
    pub subs: Subs,
    pub sub_langs: String,
    pub auto_subs: bool,
    pub sponsor: Sponsor,
    pub cats: Cats,
    pub custom_cats: String,
    pub keyframes: bool,
}

impl Clone for Extras {
    fn clone(&self) -> (r: Self)
        ensures
            r == *self,
    {
        Extras {
            thumbnail: self.thumbnail,
            thumbnail_format: self.thumbnail_format,
            metadata: self.metadata,
            chapters: self.chapters,
            subs: self.subs,
            sub_langs: self.sub_langs.clone(),
            auto_subs: self.auto_subs,
            sponsor: self.sponsor,
            cats: self.cats,
            custom_cats: self.custom_cats.clone(),
            keyframes: self.keyframes,
        }
    }
}

/// Playlists, the history and file names.
#[derive(Debug, PartialEq, Eq)]
pub struct Automation {
    pub playlist: PlaylistChoice,
    pub playlist_items: String,
    pub playlist_reverse: bool,
    pub organize: bool,
    pub archive: bool,
    pub archive_file: String,
    pub archive_stop: bool,
    pub max_downloads: String,
    pub template: Template,
    pub custom_template: String,
    pub restrict_filenames: bool,
}

impl Clone for Automation {
    fn clone(&self) -> (r: Self)
        ensures
            r == *self,
    {
        Automation {
            playlist: self.playlist,
            playlist_items: self.playlist_items.clone(),
            playlist_reverse: self.playlist_reverse,
            organize: self.organize,
            archive: self.archive,
            archive_file: self.archive_file.clone(),
            archive_stop: self.archive_stop,
            max_downloads: self.max_downloads.clone(),
            template: self.template,
            custom_template: self.custom_template.clone(),
            restrict_filenames: self.restrict_filenames,
        }
    }
}

/// Cookies from a browser the person is signed in with.
#[derive(Debug, PartialEq, Eq)]
pub struct SignIn {
    pub cookies_browser: Browser,
    pub cookies_profile: String,
}

impl Clone for SignIn {
    fn clone(&self) -> (r: Self)
        ensures
            r == *self,
    {
        SignIn {
            cookies_browser: self.cookies_browser,
            cookies_profile: self.cookies_profile.clone(),
        }
    }
}

/// How requests are made and what is logged.
#[derive(Debug, PartialEq, Eq)]
pub struct Advanced {
    pub limit_rate: String,
    pub fragments: String,
    pub sleep: String,
    pub live_from_start: bool,
    pub wait_for_video: String,
    pub preserve_mtime: bool,
    pub ignore_errors: bool,
    pub verbose: bool,
}

impl Clone for Advanced {
    fn clone(&self) -> (r: Self)
        ensures
            r == *self,
    {
        Advanced {
            limit_rate: self.limit_rate.clone(),
            fragments: self.fragments.clone(),
            sleep: self.sleep.clone(),
            live_from_start: self.live_from_start,
            wait_for_video: self.wait_for_video.clone(),
            preserve_mtime: self.preserve_mtime,
            ignore_errors: self.ignore_errors,
            verbose: self.verbose,
        }
    }
}

/// Everything the Settings page holds, card by card.
#[derive(Debug, PartialEq, Eq)]
pub struct Settings {
    pub format: Format,
    pub extras: Extras,
    pub automation: Automation,
    pub sign_in: SignIn,
    pub advanced: Advanced,
    /// Where to save; empty for the downloads folder next to the application.
    pub output_dir: String,
    pub theme: ThemePref,
}

impl Clone for Settings {
    fn clone(&self) -> (r: Self)
        ensures
            r == *self,
    {
        Settings {
            format: self.format.clone(),
            extras: self.extras.clone(),
            automation: self.automation.clone(),
            sign_in: self.sign_in.clone(),
            advanced: self.advanced.clone(),
            output_dir: self.output_dir.clone(),
            theme: self.theme,
        }
    }
}

/// A link of the queue as it is kept between two sessions.
#[derive(Debug, PartialEq, Eq)]
pub struct SavedItem {
    pub url: String,
    pub settings: Settings,
    /// Why it failed, if it did.
    pub failed: Option<String>,
}

} // verus!
