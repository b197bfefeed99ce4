use mimirdlp::metadata::{
    fetch, fetch_thumbnail, lookup_arguments, read_answer, Info, Lookup, Metadata, Real, Thumbnail,
    Turns, MAX_LOOKUPS,
};
use mimirdlp::process::{Output, RunError};
use mimirdlp::provision::{Paths, Platform};
use serde_json::Value;

fn text(v: &Value, key: &str) -> Option<String> {
    v.get(key).and_then(Value::as_str).map(str::to_string)
}

fn number(v: &Value, key: &str) -> Option<u64> {
    v.get(key).and_then(Value::as_u64)
}

fn as_real(x: f64) -> Real {
    Real { bits: x.to_bits() }
}

/// What is used of a line of JSON.
fn info(line: &str) -> Info {
    let v: Value = serde_json::from_str(line).unwrap();
    Info {
        kind: text(&v, "_type"),
        title: text(&v, "title"),
        thumbnail: text(&v, "thumbnail"),
        thumbnails: v
            .get("thumbnails")
            .and_then(Value::as_array)
            .map(|list| list.iter().map(|t| Thumbnail { url: text(t, "url") }).collect())
            .unwrap_or_default(),
        duration: v.get("duration").and_then(Value::as_f64).map(as_real),
        filesize: number(&v, "filesize"),
        filesize_approx: number(&v, "filesize_approx"),
        playlist_count: number(&v, "playlist_count"),
    }
}

#[test]
fn a_full_info_dict_is_mapped_to_metadata() {
    let info = info(
        r#"{
            "title": "Me at the zoo",
            "thumbnail": "https://i.ytimg.com/vi/jNQXAC9IVRw/maxresdefault.jpg",
            "duration": 19.0,
            "filesize": 1234567,
            "filesize_approx": 9999999
        }"#,
    );
    let meta = Metadata::from(info);
    assert_eq!(meta.title, "Me at the zoo");
    assert_eq!(
        meta.thumbnail_url.as_deref(),
        Some("https://i.ytimg.com/vi/jNQXAC9IVRw/maxresdefault.jpg")
    );
    assert_eq!(meta.duration.map(|d| f64::from_bits(d.bits)), Some(19.0));
    // The exact size wins over the estimate when both are present.
    assert_eq!(meta.approx_size, Some(1234567));
}

#[test]
fn a_playlist_previews_as_itself() {
    let info = info(
        r#"{"_type": "playlist", "title": "All Tutorials", "playlist_count": 13,
            "thumbnails": [{"url": "https://i.ytimg.com/small.jpg"},
                           {"url": "https://i.ytimg.com/big.jpg"}],
            "entries": [{"_type": "url", "title": "Part 6", "duration": 165}]}"#,
    );
    let meta = Metadata::from(info);
    assert_eq!(meta.title, "All Tutorials");
    assert_eq!(meta.playlist, Some(Some(13)));
    assert_eq!(meta.duration, None, "not the first video's");
    assert_eq!(
        meta.thumbnail_url.as_deref(),
        Some("https://i.ytimg.com/big.jpg")
    );
}

#[test]
fn a_missing_exact_size_falls_back_to_the_estimate() {
    let meta = Metadata::from(info(r#"{"filesize_approx": 555}"#));
    assert_eq!(meta.approx_size, Some(555));
}

#[test]
fn fields_yt_dlp_does_not_know_are_left_out_rather_than_guessed() {
    let meta = Metadata::from(info("{}"));
    assert_eq!(meta.title, "");
    assert_eq!(meta.thumbnail_url, None);
    assert_eq!(meta.duration, None);
    assert_eq!(meta.approx_size, None);
}

#[test]
fn the_last_thumbnail_with_an_address_counts() {
    let meta = Metadata::from(info(
        r#"{"_type": "playlist", "thumbnails": [{"url": "a"}, {"url": "b"}, {}]}"#,
    ));
    assert_eq!(meta.thumbnail_url.as_deref(), Some("b"));
    assert_eq!(meta.playlist, Some(None), "how many is not known");
}

#[test]
fn lookups_run_a_few_at_a_time_not_all_at_once() {
    let mut turns = Turns::new();
    let (mut now, mut most) = (0usize, 0usize);
    for _ in 0..8 {
        if turns.take() {
            now += 1;
        }
        most = most.max(now);
        assert_eq!(turns.running(), now);
    }
    assert!(most <= 3, "{most} lookups ran at the same time");
    assert_eq!(most, MAX_LOOKUPS);
    turns.give_back();
    assert!(turns.take(), "a turn that was given back can be taken");
    assert!(!turns.take());
}

fn arguments(url: &str, lookup: &Lookup) -> Vec<String> {
    let paths = Paths::new("/app".to_string(), Platform::Unix);
    lookup_arguments(&paths, url, lookup)
}

#[test]
fn the_lookup_asks_what_the_download_will_ask() {
    let lookup = Lookup {
        cookies: Some("firefox:work".into()),
        single_video: true,
    };
    let args = arguments("https://example.com/watch?v=a&list=b", &lookup);
    let pair = args
        .windows(2)
        .any(|w| w == ["--cookies-from-browser", "firefox:work"]);
    assert!(pair && args.contains(&"--no-playlist".to_string()), "{args:?}");
    assert_eq!(
        args[args.len() - 2..],
        ["--", "https://example.com/watch?v=a&list=b"]
    );

    let args = arguments("https://example.com/v", &Lookup::default());
    assert_eq!(
        args,
        [
            "-J",
            "--flat-playlist",
            "--no-warnings",
            "--playlist-items",
            "1",
            "--js-runtimes",
            "deno:/app/bin/deno",
            "--",
            "https://example.com/v"
        ]
    );
}

#[test]
fn a_link_is_never_an_option() {
    let args = arguments("--exec=evil", &Lookup::default());
    let dashes = args.iter().position(|a| a == "--").unwrap();
    assert_eq!(args[dashes + 1..], ["--exec=evil"]);
}

fn output(success: bool, stdout: &str, stderr: &str) -> Result<Output, RunError> {
    Ok(Output {
        success,
        stdout: stdout.to_string(),
        stderr: stderr.to_string(),
    })
}

#[test]
fn the_answer_is_the_first_line_that_is_not_blank() {
    assert_eq!(
        read_answer("yt-dlp", output(true, "\n  \n{\"title\": \"x\"}\nmore", "")),
        Ok("{\"title\": \"x\"}".to_string())
    );
    assert_eq!(
        read_answer("yt-dlp", output(true, " \n", "")),
        Err("yt-dlp returned no information for this link.".to_string())
    );
}

#[test]
fn a_failed_lookup_says_why() {
    let said = |r| read_answer("/bin/yt-dlp", r).unwrap_err();
    assert_eq!(
        said(output(false, "{}", "\nERROR: ERROR: [x] gone\nmore")),
        "[x] gone"
    );
    assert_eq!(
        said(output(false, "{}", "  \n")),
        "yt-dlp could not look up this link."
    );
    assert_eq!(said(Err(RunError::TimedOut)), "Timed out looking up this link.");
    assert_eq!(
        said(Err(RunError::Spawn("no such file".into()))),
        "Could not start /bin/yt-dlp: no such file"
    );
    assert_eq!(said(Err(RunError::Wait("lost".into()))), "lost");
    assert_eq!(
        fetch(Err("expected value".into())).unwrap_err(),
        "Could not read yt-dlp's output: expected value"
    );
    assert_eq!(fetch(Ok(info(r#"{"title": "x"}"#))).unwrap().title, "x");
}

#[test]
fn a_thumbnail_is_what_the_request_gave() {
    assert_eq!(fetch_thumbnail(Ok(Ok(vec![1, 2]))), Ok(vec![1, 2]));
    assert_eq!(fetch_thumbnail(Ok(Err("cut".into()))), Err("cut".to_string()));
    assert_eq!(fetch_thumbnail(Err("404".into())), Err("404".to_string()));
}
