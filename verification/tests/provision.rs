use mimirdlp::log::Level;
use mimirdlp::process::{Output, RunError};
use mimirdlp::provision::{
    all_found, can_hold_files, clean_leftovers, days_from_civil, hex, inspect, inspect_argument,
    inspect_files, join_path, logged, parse_version, plain_path, read_state, run_for_output, sha256_file, short_fingerprint,
    today, write_probe, write_state, ytdlp_age_days, Component, Error, Event, Paths, Platform,
    Status, YTDLP_STALE_DAYS,
};

#[test]
fn versions_are_parsed_from_each_tools_own_output() {
    assert_eq!(
        parse_version(Component::YtDlp, "2026.08.30.232658\n").as_deref(),
        Some("2026.08.30.232658")
    );
    assert_eq!(
        parse_version(
            Component::Ffmpeg,
            "ffmpeg version N-126495-g3a165c77dc-20260910 Copyright (c) 2000-2026\nbuilt with gcc"
        )
        .as_deref(),
        Some("N-126495-g3a165c77dc-20260910")
    );
    assert_eq!(
        parse_version(
            Component::Deno,
            "deno 2.9.6 (stable, release, x86_64-unknown-linux-gnu)\nv8 15.0"
        )
        .as_deref(),
        Some("2.9.6")
    );
    assert_eq!(parse_version(Component::Ffmpeg, "garbage"), None);
    assert_eq!(parse_version(Component::Deno, ""), None);
}

#[test]
fn a_yt_dlp_version_tells_its_age() {
    assert_eq!(days_from_civil(1970, 1, 1), 0);
    assert_eq!(days_from_civil(2000, 3, 1), 11_017);
    let today = days_from_civil(2026, 9, 23);
    assert_eq!(ytdlp_age_days("2026.09.16.232951", today), Some(7));
    assert_eq!(ytdlp_age_days("2026.09.16", today), Some(7));
    assert_eq!(ytdlp_age_days("2025.12.31", today), Some(266));
    // A clock behind the build is not a negative age.
    assert_eq!(ytdlp_age_days("2026.09.30", today), Some(0));
    assert_eq!(ytdlp_age_days("nightly", today), None);
    assert_eq!(ytdlp_age_days("2026.13.01", today), None);
}

#[test]
fn an_age_is_refused_for_anything_that_is_no_date() {
    let now = days_from_civil(2026, 1, 1);
    assert_eq!(ytdlp_age_days("1999.12.31", now), None);
    assert_eq!(ytdlp_age_days("2026.00.10", now), None);
    assert_eq!(ytdlp_age_days("2026.01.32", now), None);
    assert_eq!(ytdlp_age_days("2026.01", now), None);
    assert_eq!(ytdlp_age_days("", now), None);
    assert_eq!(ytdlp_age_days("+2026.+1.+1", now), None);
    assert_eq!(ytdlp_age_days("-2026.01.01", now), None);
    assert_eq!(ytdlp_age_days("2026.02.31", 20719), None);
    assert_eq!(ytdlp_age_days("2026.04.31", 20719), None);
    assert_eq!(ytdlp_age_days("2026.02.29", 20719), None);
    assert_eq!(ytdlp_age_days("2100.02.29", 60000), None);
    let leap = days_from_civil(2024, 3, 1);
    assert_eq!(ytdlp_age_days("2024.02.29", leap), Some(1));
    assert_eq!(ytdlp_age_days("2026.02.28", days_from_civil(2026, 3, 1)), Some(1));
    assert_eq!(YTDLP_STALE_DAYS, 14);
}

#[test]
fn the_day_after_the_last_of_february_is_the_first_of_march() {
    assert_eq!(days_from_civil(2024, 2, 29) + 1, days_from_civil(2024, 3, 1));
    assert_eq!(days_from_civil(2100, 2, 28) + 1, days_from_civil(2100, 3, 1));
    assert_eq!(days_from_civil(2025, 12, 31) + 1, days_from_civil(2026, 1, 1));
}

#[test]
fn today_counts_whole_days() {
    assert_eq!(today(Some(0)), 0);
    assert_eq!(today(Some(86_399)), 0);
    assert_eq!(today(Some(86_400)), 1);
    assert_eq!(today(None), 0);
}

#[test]
fn a_newer_build_is_never_older() {
    let now = days_from_civil(2026, 9, 23);
    assert!(
        ytdlp_age_days("2026.09.17", now).unwrap() <= ytdlp_age_days("2026.09.16", now).unwrap()
    );
}

#[test]
fn state_file_reads_and_writes_the_documented_key_value_format() {
    let file = "ffmpeg_archive_sha256=806d1dd\ndeno_zip_sha256=394f07f\n";
    assert_eq!(
        read_state(file, "ffmpeg_archive_sha256").as_deref(),
        Some("806d1dd")
    );
    assert_eq!(read_state(file, "deno_zip_sha256").as_deref(), Some("394f07f"));
    assert_eq!(read_state(file, "deno_zip"), None);

    let text = write_state(file, "deno_zip_sha256", "abc");
    assert_eq!(text, "ffmpeg_archive_sha256=806d1dd\ndeno_zip_sha256=abc\n");
}

#[test]
fn a_written_value_is_read_back_and_the_others_stay() {
    let file = write_state("", "a", "1");
    assert_eq!(file, "a=1\n");
    let file = write_state(&file, "b", "2");
    let file = write_state(&file, "a", "3");
    assert_eq!(read_state(&file, "a").as_deref(), Some("3"));
    assert_eq!(read_state(&file, "b").as_deref(), Some("2"));
    assert_eq!(read_state("a=\n", "a"), None, "an empty value is none");
}

#[test]
fn one_line_belongs_to_a_written_key() {
    let file = write_state("a=1\nb=2\na=3\r\nodd\na\n", "a", "4");
    assert_eq!(file, "b=2\nodd\na\na=4\n");
    assert_eq!(file.lines().filter(|l| l.split_once('=').map(|(k, _)| k) == Some("a")).count(), 1);
}

#[test]
fn a_version_stands_in_the_first_line() {
    for (component, first, version) in [
        (Component::YtDlp, " 2026.09.16 ", Some("2026.09.16")),
        (Component::Ffmpeg, "ffmpeg version N-1 Copyright", Some("N-1")),
        (Component::Deno, "deno 2.9.6 (stable)", Some("2.9.6")),
        (Component::YtDlp, "", None),
        (Component::Ffmpeg, "", None),
        (Component::Deno, "", None),
    ] {
        assert_eq!(parse_version(component, first).as_deref(), version);
        let more = format!("{first}\r\nffmpeg version 2 x\ndeno 3");
        assert_eq!(parse_version(component, &more).as_deref(), version);
    }
}

#[test]
fn a_windows_extended_length_path_is_handed_over_as_a_plain_one() {
    assert_eq!(
        plain_path(String::from(r"\\?\C:\Apps\MimirDLP")),
        String::from(r"C:\Apps\MimirDLP")
    );
    // Everything else is left exactly as it is.
    assert_eq!(
        plain_path(String::from("/home/user/apps")),
        String::from("/home/user/apps")
    );
    assert_eq!(plain_path(String::from(r"C:\Apps")), String::from(r"C:\Apps"));
}

#[test]
fn a_network_share_keeps_its_leading_backslashes() {
    assert_eq!(
        plain_path(String::from(r"\\?\UNC\server\share\MimirDLP")),
        String::from(r"\\server\share\MimirDLP")
    );
}

#[test]
fn paths_are_joined_as_the_platform_does() {
    let join = |base: &str, name: &str| {
        std::path::Path::new(base)
            .join(name)
            .to_str()
            .unwrap()
            .to_string()
    };
    for (base, name) in [("/a", "b"), ("/a/", "b"), ("", "b"), ("/a", "/b"), ("a", "")] {
        assert_eq!(join_path(Platform::Unix, base, name), join(base, name));
    }
    assert_eq!(join_path(Platform::Windows, r"C:\a", "b"), r"C:\a\b");
    assert_eq!(join_path(Platform::Windows, r"C:\a\", "b"), r"C:\a\b");
    assert_eq!(join_path(Platform::Windows, "C:", "b"), "C:b");
    // The extended length form is tidied up on the way.
    assert_eq!(join_path(Platform::Windows, r"\\?\C:\a", "b"), r"\\?\C:\a\b");
    assert_eq!(join_path(Platform::Windows, r"\\?\C:\", "b"), r"\\?\C:\b");
    assert_eq!(join_path(Platform::Windows, r"\\?\C:", "b"), r"\\?\C:\b");
    assert_eq!(join_path(Platform::Windows, r"\\?\C:\a\\c\", "b"), r"\\?\C:\a\c\b");
    assert_eq!(
        join_path(Platform::Windows, r"\\?\UNC\server\share\", "b"),
        r"\\?\UNC\server\share\b"
    );
    assert!(can_hold_files(Platform::Windows, r"\\?\C:\a"));
    assert!(can_hold_files(Platform::Windows, "C:/a/.."));
    assert!(!can_hold_files(Platform::Windows, r"\\?\C:\a/b"));
    assert!(!can_hold_files(Platform::Windows, r"\\?\C:\a\..\b"));
    assert!(can_hold_files(Platform::Unix, r"\\?\C:\a/b"));
}

#[test]
fn the_tools_are_in_bin() {
    let paths = Paths::new(String::from("/apps/mimir"), Platform::Unix);
    assert_eq!(paths.bin_dir, "/apps/mimir/bin");
    assert_eq!(paths.tool("yt-dlp"), "/apps/mimir/bin/yt-dlp");
    assert_eq!(paths.state_file(), "/apps/mimir/bin/.install_state");
    assert_eq!(write_probe(&paths, 42), "/apps/mimir/.write-test-42");
    let paths = Paths::new(String::from(r"C:\Apps"), Platform::Windows);
    assert_eq!(paths.tool("deno"), r"C:\Apps\bin\deno.exe");
    let paths = Paths::new(String::from(r"\\?\C:\Apps"), Platform::Windows);
    assert_eq!(paths.tool("deno"), r"\\?\C:\Apps\bin\deno.exe");
}

#[test]
fn the_app_folder_can_be_overridden() {
    let given = Paths::for_current_exe(
        Some(String::from("/dev/here")),
        Err(String::from("no exe")),
        Platform::Unix,
    );
    assert_eq!(given.unwrap().app_dir, "/dev/here");
    let found = Paths::for_current_exe(None, Ok(Some(String::from("/opt/app"))), Platform::Unix);
    assert_eq!(found.unwrap().bin_dir, "/opt/app/bin");
    assert_eq!(
        Paths::for_current_exe(None, Ok(None), Platform::Unix).unwrap_err(),
        "executable has no parent directory"
    );
    assert_eq!(
        Paths::for_current_exe(None, Err(String::from("gone")), Platform::Unix).unwrap_err(),
        "gone"
    );
}

#[test]
fn components_have_their_names_and_programs() {
    assert_eq!(Component::ALL.len(), 3);
    assert_eq!(Component::YtDlp.label(), "yt-dlp");
    assert_eq!(Component::Ffmpeg.label(), "FFmpeg");
    assert_eq!(Component::Deno.label(), "Deno");
    assert_eq!(Component::Ffmpeg.binaries(), ["ffmpeg", "ffprobe"]);
    let paths = Paths::new(String::from("/a"), Platform::Unix);
    assert_eq!(
        inspect_files(Component::Ffmpeg, &paths),
        ["/a/bin/ffmpeg", "/a/bin/ffprobe"]
    );
    assert_eq!(inspect_argument(Component::Ffmpeg), "-version");
    assert_eq!(inspect_argument(Component::Deno), "--version");
}

#[test]
fn what_is_installed_is_what_the_program_says() {
    let output = |success| {
        run_for_output(Ok(Output {
            success,
            stdout: String::from("2026.09.16\n"),
            stderr: String::new(),
        }))
    };
    assert_eq!(inspect(Component::YtDlp, &vec![false], output(true)), Status::Missing);
    // FFmpeg is missing without ffprobe.
    let ffmpeg = || Some(String::from("ffmpeg version 7 x"));
    assert_eq!(inspect(Component::Ffmpeg, &vec![true, false], ffmpeg()), Status::Missing);
    assert_eq!(inspect(Component::Ffmpeg, &vec![false, true], ffmpeg()), Status::Missing);
    assert_eq!(
        inspect(Component::Ffmpeg, &vec![true, true], ffmpeg()),
        Status::Installed { version: String::from("7") }
    );
    assert!(all_found(&vec![true, true]) && !all_found(&vec![true, false]));
    assert_eq!(
        inspect(Component::YtDlp, &vec![true], output(true)),
        Status::Installed { version: String::from("2026.09.16") }
    );
    assert_eq!(inspect(Component::YtDlp, &vec![true], output(false)), Status::Broken);
    assert_eq!(
        inspect(Component::YtDlp, &vec![true], run_for_output(Err(RunError::TimedOut))),
        Status::Broken
    );
    assert_eq!(
        inspect(Component::YtDlp, &vec![true], Some(String::from("   \n"))),
        Status::Broken
    );
}

#[test]
fn leftovers_are_cleaned_but_nothing_else() {
    let names: Vec<String> = [".download-x.zip", ".tmp-ffmpeg", "ffmpeg", ".install_state"]
        .iter()
        .map(|s| s.to_string())
        .collect();
    let gone = clean_leftovers(&names);
    let mut left: Vec<String> = names.into_iter().filter(|n| !gone.contains(n)).collect();
    left.sort();
    assert_eq!(left, [".install_state", "ffmpeg"]);
}

#[test]
fn a_fingerprint_is_grouped_as_gpg_prints_it() {
    assert_eq!(
        short_fingerprint("ac0cbbe6848d6a873464af4e57cf65933b5a7581"),
        "57CF 6593 3B5A 7581"
    );
    assert_eq!(short_fingerprint("abc123"), "ABC1 23");
    assert_eq!(short_fingerprint(""), "");
}

#[test]
fn bytes_are_written_in_hexadecimal() {
    assert_eq!(hex(&[0x00, 0x0f, 0xa0, 0xff]), "000fa0ff");
    assert_eq!(
        sha256_file(b"abc"),
        "ba7816bf8f01cfea414140de5dae2223b00361a396177a9cb410ff61f20015ad"
    );
    assert_eq!(
        sha256_file(b""),
        "e3b0c44298fc1c149afbf4c8996fb92427ae41e4649b934ca495991b7852b855"
    );
}

#[test]
fn an_error_is_logged_before_it_is_passed_on() {
    let mut log: Vec<Event> = Vec::new();
    assert!(logged(&mut log, Ok(1)).is_ok());
    assert!(log.is_empty());
    assert!(logged::<u32>(&mut log, Err(Error::Archive(String::from("broken")))).is_err());
    assert_eq!(log, [Event::Log(Level::Error, String::from("broken"))]);
}

#[test]
fn errors_say_what_they_are_about() {
    let m = || String::from("m");
    for e in [Error::Io(m()), Error::Download(m()), Error::Checksum(m()), Error::Archive(m())] {
        assert_eq!(e.to_string(), "m");
    }
    assert_eq!(
        Error::Unsupported.to_string(),
        "This platform isn't supported (only Linux and Windows on x86_64)."
    );
}
