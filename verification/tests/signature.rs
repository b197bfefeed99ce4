use std::collections::BTreeMap;

use mimirdlp::log::Level;
use mimirdlp::provision::install::{Action, Install, Reply};
use mimirdlp::provision::platform::{Packaging, SignedBy, Source};
use mimirdlp::provision::signature::{
    judge_bindings, judge_fingerprint, judge_signature, refused, trusted_key, verify,
};
use mimirdlp::provision::sums::{fetch_sums, signed_file, SumsReply, SumsStep};
use mimirdlp::provision::update::{Answer, Request};
use mimirdlp::provision::{
    check_update, install, read_state, sha256_file, write_state, Component, Error, Event, Paths,
    Platform, UpdateCheck,
};
use pgp::composed::{
    ArmorOptions, DetachedSignature, KeyType, SecretKeyParamsBuilder, SignedSecretKey,
    SubkeyParamsBuilder,
};
use pgp::crypto::hash::HashAlgorithm;
use pgp::ser::Serialize;
use pgp::types::{KeyDetails, Password};
use rand::rngs::StdRng;
use rand::SeedableRng;

const SUMS: &str = "0123  other.bin\n";

fn new_key(seed: u64) -> SignedSecretKey {
    SecretKeyParamsBuilder::default()
        .key_type(KeyType::Ed25519)
        .can_sign(true)
        .can_certify(true)
        .primary_user_id("Test <test@example.com>".into())
        .subkey(
            SubkeyParamsBuilder::default()
                .key_type(KeyType::Ed25519)
                .can_sign(true)
                .build()
                .unwrap(),
        )
        .build()
        .unwrap()
        .generate(StdRng::seed_from_u64(seed))
        .unwrap()
}

fn signer(key: &SignedSecretKey) -> SignedBy {
    let public = key.to_public_key();
    SignedBy {
        url: String::from("https://example.com/SUMS.sig"),
        key: public.to_armored_string(ArmorOptions::default()).unwrap(),
        fingerprint: format!("{:x}", public.fingerprint()),
    }
}

fn sign(key: &SignedSecretKey, data: &[u8]) -> Vec<u8> {
    DetachedSignature::sign_binary_data(
        StdRng::seed_from_u64(7),
        &key.primary_key,
        &Password::empty(),
        HashAlgorithm::Sha256,
        data,
    )
    .unwrap()
    .to_bytes()
    .unwrap()
}

fn sign_with_subkey(key: &SignedSecretKey, data: &[u8]) -> Vec<u8> {
    DetachedSignature::sign_binary_data(
        StdRng::seed_from_u64(8),
        &key.secret_subkeys[0].key,
        &Password::empty(),
        HashAlgorithm::Sha256,
        data,
    )
    .unwrap()
    .to_bytes()
    .unwrap()
}

#[test]
fn a_signature_by_the_expected_key_verifies() {
    let key = new_key(1);
    let by = signer(&key);
    assert!(trusted_key(&by).is_ok());
    assert!(verify(SUMS.as_bytes(), &sign(&key, SUMS.as_bytes()), &by).is_ok());
    // The fingerprint may be written in upper case.
    let shouted = SignedBy { fingerprint: by.fingerprint.to_uppercase(), ..signer(&key) };
    assert!(verify(SUMS.as_bytes(), &sign(&key, SUMS.as_bytes()), &shouted).is_ok());
}

#[test]
fn a_signature_by_a_signing_subkey_is_accepted_too() {
    let key = new_key(1);
    let signature = sign_with_subkey(&key, SUMS.as_bytes());
    assert!(verify(SUMS.as_bytes(), &signature, &signer(&key)).is_ok());
}

#[test]
fn one_changed_byte_in_the_checksums_is_caught() {
    let key = new_key(1);
    let signature = sign(&key, SUMS.as_bytes());
    let mut tampered = SUMS.as_bytes().to_vec();
    tampered[0] = if tampered[0] == b'0' { b'1' } else { b'0' };
    assert!(verify(&tampered, &signature, &signer(&key)).is_err());
}

#[test]
fn a_damaged_signature_is_refused() {
    let key = new_key(1);
    let by = signer(&key);
    let signature = sign(&key, SUMS.as_bytes());
    assert!(verify(SUMS.as_bytes(), &signature[..signature.len() / 2], &by).is_err());
    let err = verify(SUMS.as_bytes(), &[0xc0, 0x00], &by).unwrap_err();
    assert!(err.to_string().contains("the signature can't be read"), "{err:?}");
    let err = verify(SUMS.as_bytes(), b"not a signature", &by).unwrap_err();
    assert!(err.to_string().contains("the signature can't be read"), "{err:?}");
}

#[test]
fn a_key_that_does_not_match_its_fingerprint_is_not_trusted() {
    let (ours, theirs) = (new_key(1), new_key(2));
    let swapped = SignedBy { key: signer(&theirs).key, ..signer(&ours) };
    let err = verify(SUMS.as_bytes(), &sign(&theirs, SUMS.as_bytes()), &swapped).unwrap_err();
    assert!(err.to_string().contains("signing key is"), "{err:?}");
}

#[test]
fn a_signature_by_another_key_is_refused() {
    let (ours, theirs) = (new_key(1), new_key(2));
    let err = verify(SUMS.as_bytes(), &sign(&theirs, SUMS.as_bytes()), &signer(&ours)).unwrap_err();
    assert_eq!(
        err.to_string(),
        "Refusing to trust the checksums: the checksum file is not signed by the expected key."
    );
}

#[test]
fn a_key_that_cannot_be_read_is_not_trusted() {
    let by = SignedBy { key: String::from("garbage"), ..signer(&new_key(1)) };
    let err = verify(SUMS.as_bytes(), b"", &by).unwrap_err();
    assert!(err.to_string().contains("the signing key can't be read"), "{err:?}");
}

#[test]
fn the_verdicts_say_what_is_wrong() {
    let said = |e: Error| e.to_string();
    assert_eq!(said(refused("why")), "Refusing to trust the checksums: why.");
    assert!(judge_fingerprint(&Ok(String::from("ab")), "AB").is_ok());
    assert_eq!(
        said(judge_fingerprint(&Ok(String::from("ab")), "cd").unwrap_err()),
        "Refusing to trust the checksums: the signing key is ab, not cd."
    );
    assert_eq!(
        said(judge_fingerprint(&Err(String::from("x")), "cd").unwrap_err()),
        "Refusing to trust the checksums: the signing key can't be read (x)."
    );
    assert!(judge_bindings(&Ok(())).is_ok());
    assert_eq!(
        said(judge_bindings(&Err(String::from("x"))).unwrap_err()),
        "Refusing to trust the checksums: the signing key is not valid (x)."
    );
    assert!(judge_signature(&Ok(()), true).is_ok());
    assert!(judge_signature(&Ok(()), false).is_err());
    assert_eq!(
        said(judge_signature(&Err(String::from("x")), true).unwrap_err()),
        "Refusing to trust the checksums: the signature can't be read (x)."
    );
}

// ---------------------------------------------------------------------------
// Installing
// ---------------------------------------------------------------------------

/// Answers by address and by how often that address was asked for before.
struct Server {
    asked: BTreeMap<String, usize>,
    answer: Box<dyn Fn(&str, usize) -> Option<Vec<u8>>>,
}

impl Server {
    fn new(answer: impl Fn(&str, usize) -> Option<Vec<u8>> + 'static) -> Server {
        Server { asked: BTreeMap::new(), answer: Box::new(answer) }
    }

    fn get(&mut self, url: &str) -> Result<Vec<u8>, Error> {
        let asked = self.asked.entry(url.to_string()).or_insert(0);
        let body = (self.answer)(url, *asked);
        *asked += 1;
        body.ok_or_else(|| Error::Download(String::from("404")))
    }

    fn text(&mut self, url: &str) -> Result<String, Error> {
        self.get(url).map(|b| String::from_utf8(b).unwrap())
    }
}

fn find(sums: &str, asset: &str) -> Result<String, Error> {
    sums.lines()
        .find_map(|l| l.strip_suffix(asset).map(|h| h.trim().to_string()))
        .ok_or_else(|| Error::Checksum(format!("{asset} is not listed")))
}

fn source(signed_by: Option<SignedBy>) -> Source {
    Source {
        url: String::from("/tool.bin"),
        asset: String::from("tool.bin"),
        checksum_url: String::from("/SUMS"),
        packaging: Packaging::Raw { install_as: String::from("tool") },
        state_key: None,
        signed_by,
    }
}

fn paths() -> Paths {
    Paths::new(String::from("/app"), Platform::Unix)
}

/// Runs an installation to its end: its result, what got installed, the log, what was removed, and
/// what was recorded.
struct Outcome {
    result: Result<(), Error>,
    installed: Option<Vec<u8>>,
    log: Vec<Event>,
    removed: Vec<String>,
    recorded: Option<(String, String)>,
}

fn run(source: Source, mut server: Server) -> Outcome {
    let mut log: Vec<Event> = Vec::new();
    let (mut state, mut action) = install(
        Component::YtDlp,
        Some(source),
        &paths(),
        String::from("SUMS"),
        &mut log,
    )
    .unwrap();
    let mut downloaded = Vec::new();
    let (mut installed, mut removed, mut recorded) = (None, Vec::new(), None);
    loop {
        let reply = match action {
            Action::CreateDir(dir) => {
                assert_eq!(dir, "/app/bin");
                Reply::Created(Ok(()))
            }
            Action::FetchSums(url) | Action::FetchText(url) => Reply::Text(server.text(&url)),
            Action::FetchBytes(url) => Reply::Bytes(server.get(&url)),
            Action::Find { sums, asset } => Reply::Found(find(&sums, &asset)),
            Action::Download { url, asset, part } => {
                assert_eq!(asset, "tool.bin");
                assert_eq!(part, "/app/bin/.download-tool.bin");
                Reply::Downloaded(server.get(&url).map(|bytes| {
                    let hash = sha256_file(&bytes);
                    downloaded = bytes;
                    hash
                }))
            }
            Action::Remove(file) => {
                removed.push(file);
                Reply::Removed
            }
            Action::Unpack { part, .. } => {
                assert_eq!(part, "/app/bin/.download-tool.bin");
                installed = Some(downloaded.clone());
                Reply::Unpacked(Ok(()))
            }
            Action::Record { key, value } => {
                recorded = Some((key, value));
                Reply::Recorded(Ok(()))
            }
            Action::Finish(result) => {
                return Outcome { result, installed, log, removed, recorded };
            }
        };
        assert!(state.expects(&reply));
        let (next, then) = state.step(reply, &mut log);
        state = next;
        action = then;
    }
}

fn install_while_upstream_answers(updates: bool) -> Outcome {
    let new = b"new build, published mid-download".to_vec();
    let (old_hash, new_hash) = (sha256_file(b"old build"), sha256_file(&new));
    run(
        source(None),
        Server::new(move |path, asked| match path {
            "/SUMS" => {
                let hash = if asked == 0 || !updates { &old_hash } else { &new_hash };
                Some(format!("{hash}  tool.bin\n").into_bytes())
            }
            _ => Some(new.clone()),
        }),
    )
}

#[test]
fn a_release_updated_during_the_download_is_not_a_hash_mismatch() {
    let outcome = install_while_upstream_answers(true);
    assert!(outcome.result.is_ok(), "{:?}", outcome.result);
    assert_eq!(outcome.installed.unwrap(), b"new build, published mid-download");
    assert!(outcome.log.contains(&Event::Log(
        Level::Info,
        String::from("A newer release was published during the download; its checksum matches.")
    )));
}

#[test]
fn a_file_that_matches_no_published_checksum_is_still_refused() {
    let outcome = install_while_upstream_answers(false);
    assert!(matches!(outcome.result, Err(Error::Checksum(_))), "{:?}", outcome.result);
    assert!(outcome.installed.is_none(), "nothing may be installed");
    assert_eq!(outcome.removed, ["/app/bin/.download-tool.bin"]);
    let tail: Vec<&Event> = outcome.log.iter().rev().take(3).collect();
    assert_eq!(
        *tail[2],
        Event::Log(Level::Error, String::from("Hash mismatch for tool.bin!"))
    );
    assert_eq!(
        *tail[0],
        Event::Log(
            Level::Info,
            format!("Actual:   {}", sha256_file(b"new build, published mid-download"))
        )
    );
}

fn install_signed(signature: impl Fn(&SignedSecretKey, &[u8]) -> Option<Vec<u8>>) -> Outcome {
    let key = new_key(3);
    let by = SignedBy { url: String::from("/SUMS.sig"), ..signer(&key) };
    let sums = format!("{}  tool.bin\n", sha256_file(b"signed tool")).into_bytes();
    let sig = signature(&key, &sums);
    run(
        source(Some(by)),
        Server::new(move |path, _| match path {
            "/SUMS" => Some(sums.clone()),
            "/SUMS.sig" => sig.clone(),
            _ => Some(b"signed tool".to_vec()),
        }),
    )
}

#[test]
fn a_checksum_file_signed_by_the_right_key_is_trusted() {
    let outcome = install_signed(|key, sums| Some(sign(key, sums)));
    assert!(outcome.result.is_ok(), "{:?}\n{:?}", outcome.result, outcome.log);
    assert_eq!(outcome.installed.as_deref(), Some(&b"signed tool"[..]));
    assert_eq!(outcome.removed, ["/app/bin/.download-tool.bin"]);
    let lines: Vec<String> = outcome
        .log
        .iter()
        .map(|e| match e {
            Event::Log(_, line) => line.clone(),
            _ => String::new(),
        })
        .collect();
    assert_eq!(lines[0], "yt-dlp...");
    assert_eq!(lines[1], "Checking who signed SUMS...");
    assert!(lines[2].starts_with("Signed by the expected key ("));
    assert_eq!(
        lines[3..],
        [
            "Checking SHA256 for tool.bin...",
            "Hash verification passed",
            "yt-dlp installed successfully"
        ]
    );
}

#[test]
fn a_checksum_file_with_a_wrong_signature_is_refused() {
    let outcome = install_signed(|_, sums| Some(sign(&new_key(4), sums)));
    assert!(
        matches!(outcome.result, Err(Error::Checksum(_))),
        "{:?}\n{:?}",
        outcome.result,
        outcome.log
    );
    assert_eq!(outcome.installed, None, "nothing may be installed");
}

#[test]
fn asking_again_for_the_checksums_does_not_skip_the_signature() {
    let key = new_key(3);
    let by = SignedBy { url: String::from("/SUMS.sig"), ..signer(&key) };
    let good = format!("{}  tool.bin\n", sha256_file(b"signed tool")).into_bytes();
    let sig = sign(&key, &good);
    let evil = b"evil tool".to_vec();
    let evil_sums = format!("{}  tool.bin\n", sha256_file(&evil));
    let outcome = run(
        source(Some(by)),
        Server::new(move |path, asked| match path {
            "/SUMS" if asked == 0 => Some(good.clone()),
            "/SUMS" => Some(evil_sums.clone().into_bytes()),
            "/SUMS.sig" => Some(sig.clone()),
            "/tool.bin" => Some(evil.clone()),
            _ => None,
        }),
    );
    assert!(matches!(outcome.result, Err(Error::Checksum(_))), "{:?}", outcome.result);
    assert!(outcome.installed.is_none(), "the unsigned build got in");
}

#[test]
fn a_checksum_file_without_its_signature_is_refused() {
    let outcome = install_signed(|_, _| None);
    assert!(outcome.result.is_err(), "{:?}", outcome.result);
    assert_eq!(outcome.installed, None, "nothing may be installed");
    assert_eq!(
        outcome.result.unwrap_err().to_string(),
        "Could not get the signature: 404"
    );
}

#[test]
fn what_is_recorded_is_current_afterwards() {
    let archive = Source {
        packaging: Packaging::Archive,
        state_key: Some(String::from("tool_sha256")),
        ..source(None)
    };
    let hash = sha256_file(b"archive");
    let listed = hash.to_uppercase();
    let outcome = run(
        archive,
        Server::new(move |path, _| match path {
            "/SUMS" => Some(format!("{listed}  tool.bin\n").into_bytes()),
            _ => Some(b"archive".to_vec()),
        }),
    );
    assert!(outcome.result.is_ok());
    assert!(outcome
        .log
        .contains(&Event::Log(Level::Info, String::from("Extracting..."))));
    let (key, value) = outcome.recorded.unwrap();
    assert_eq!(key, "tool_sha256");
    let file = write_state("", &key, &value);
    assert_eq!(read_state(&file, &key), Some(value));
    assert_eq!(check(Some("tool_sha256"), Some(file), &hash), UpdateCheck::Current);
}

#[test]
fn what_was_asked_for_again_is_current_afterwards_too() {
    // The recorded checksum is the one of the newer release.
    let archive = Source {
        packaging: Packaging::Archive,
        state_key: Some(String::from("tool_sha256")),
        ..source(None)
    };
    let (old, new) = (sha256_file(b"old"), sha256_file(b"new"));
    let outcome = run(
        archive,
        Server::new(move |path, asked| match path {
            "/SUMS" => {
                Some(format!("{}  tool.bin\n", if asked == 0 { &old } else { &new }).into_bytes())
            }
            _ => Some(b"new".to_vec()),
        }),
    );
    assert!(outcome.result.is_ok());
    let (key, value) = outcome.recorded.unwrap();
    assert_eq!(value, sha256_file(b"new"));
    let file = write_state("other=1\n", &key, &value);
    assert_eq!(check(Some("tool_sha256"), Some(file), &value), UpdateCheck::Current);
    // Without a key the executable itself counts.
    let outcome = run(
        source(None),
        Server::new(move |path, _| match path {
            "/SUMS" => Some(format!("{}  tool.bin\n", sha256_file(b"abc")).into_bytes()),
            _ => Some(b"abc".to_vec()),
        }),
    );
    assert_eq!(outcome.installed.as_deref(), Some(&b"abc"[..]));
    assert_eq!(check(None, None, &sha256_file(b"abc")), UpdateCheck::Current);
}

#[test]
fn an_installation_goes_on_with_what_checking_a_signature_gave() {
    let fingerprint = String::from("ac0cbbe6848d6a873464af4e57cf65933b5a7581");
    let awaiting = || {
        let by = SignedBy {
            url: String::from("/SUMS.sig"),
            key: String::from("key"),
            fingerprint: fingerprint.clone(),
        };
        let (state, _) =
            Install::start(Component::Deno, source(Some(by)), &paths(), String::from("SUMS"));
        let mut log: Vec<Event> = Vec::new();
        let (state, _) = state.go_on(Reply::Created(Ok(())), &mut log);
        let (state, action) = state.go_on(Reply::Text(Ok(SUMS.to_string())), &mut log);
        assert!(matches!(action, Action::FetchBytes(url) if url == "/SUMS.sig"));
        state
    };
    let mut log: Vec<Event> = Vec::new();
    let (_, action) = awaiting().go_on(Reply::Bytes(Ok(Ok(()))), &mut log);
    assert!(matches!(action, Action::Find { sums, asset } if sums == SUMS && asset == "tool.bin"));
    assert_eq!(
        log,
        [Event::Log(
            Level::Okay,
            String::from("Signed by the expected key (57CF 6593 3B5A 7581)")
        )]
    );
    let mut log: Vec<Event> = Vec::new();
    let wrong = || Reply::Bytes(Ok(Err(refused("why"))));
    let (state, action) = awaiting().go_on(wrong(), &mut log);
    assert!(matches!(action, Action::FetchText(url) if url == "/SUMS"), "asked again");
    let mut state = state;
    for _ in 0..2 {
        let (next, _) = state.go_on(Reply::Text(Ok(SUMS.to_string())), &mut log);
        let (next, action) = next.go_on(wrong(), &mut log);
        state = next;
        if let Action::Finish(result) = action {
            let said = result.unwrap_err().to_string();
            assert_eq!(said, "Refusing to trust the checksums: why.");
        }
    }
    assert_eq!(
        log,
        [Event::Log(Level::Error, String::from("Refusing to trust the checksums: why."))]
    );
}

#[test]
fn an_unsupported_platform_is_logged() {
    let mut log: Vec<Event> = Vec::new();
    let refused = install(Component::Deno, None, &paths(), String::from("SUMS"), &mut log);
    assert!(matches!(refused, Err(Error::Unsupported)));
    assert!(matches!(&log[..], [Event::Log(Level::Error, _)]));
}

#[test]
fn every_failure_of_an_installation_is_reported() {
    let begin = || Install::start(Component::Deno, source(None), &paths(), String::from("SUMS")).0;
    let mut log: Vec<Event> = Vec::new();
    let (_, action) = begin().step(Reply::Created(Err(String::from("read-only"))), &mut log);
    assert!(matches!(action, Action::Finish(Err(Error::Io(_)))));
    assert_eq!(
        log,
        [Event::Log(
            Level::Error,
            String::from("Cannot create directory: /app/bin (read-only)")
        )]
    );
    let (state, _) = begin().step(Reply::Created(Ok(())), &mut log);
    let (_, action) =
        state.step(Reply::Text(Err(Error::Download(String::from("down")))), &mut log);
    assert!(matches!(action, Action::Finish(Err(Error::Download(_)))));
    let (state, _) = begin().step(Reply::Created(Ok(())), &mut log);
    let (state, _) = state.step(Reply::Text(Ok(String::from("x"))), &mut log);
    let (_, action) =
        state.step(Reply::Found(Err(Error::Checksum(String::from("not listed")))), &mut log);
    assert!(matches!(action, Action::Finish(Err(Error::Checksum(_)))));
    assert_eq!(
        *log.last().unwrap(),
        Event::Log(Level::Error, String::from("not listed"))
    );
}

// ---------------------------------------------------------------------------
// Getting the checksum file
// ---------------------------------------------------------------------------

#[test]
fn a_checksum_file_counts_only_with_its_signature() {
    let sums = || String::from("sums");
    assert_eq!(signed_file(sums(), Ok(Ok(()))).unwrap(), "sums");
    assert_eq!(
        signed_file(sums(), Ok(Err(refused("why")))).unwrap_err().to_string(),
        "Refusing to trust the checksums: why."
    );
    assert_eq!(
        signed_file(sums(), Err(Error::Download(String::from("404")))).unwrap_err().to_string(),
        "Could not get the signature: 404"
    );
}

#[test]
fn a_signed_file_is_asked_for_twice_at_most() {
    let key = new_key(1);
    let (fetch, step) = fetch_sums(&source(Some(signer(&key))));
    assert!(matches!(step, SumsStep::FetchText(_)));
    let (fetch, step) = fetch.advance(SumsReply::Text(Ok(SUMS.to_string())));
    assert!(matches!(step, SumsStep::FetchBytes(_)));
    let (fetch, step) = fetch.advance(SumsReply::Bytes(Ok(b"nonsense".to_vec())));
    assert!(matches!(step, SumsStep::FetchText(_)), "asked again");
    let (fetch, _) = fetch.advance(SumsReply::Text(Ok(SUMS.to_string())));
    let (_, step) = fetch.advance(SumsReply::Bytes(Ok(b"nonsense".to_vec())));
    assert!(matches!(step, SumsStep::Done(Err(_))), "the second answer is final");

    let (fetch, _) = fetch_sums(&source(None));
    let (_, step) = fetch.advance(SumsReply::Text(Err(Error::Download(String::from("404")))));
    assert!(matches!(step, SumsStep::Done(Err(_))), "unsigned: once");
}

// ---------------------------------------------------------------------------
// Update checks
// ---------------------------------------------------------------------------

fn check(key: Option<&str>, state: Option<String>, published: &str) -> UpdateCheck {
    let from = Source { state_key: key.map(String::from), ..source(None) };
    let (check, request) = check_update(Component::YtDlp, Some(from), &paths()).unwrap();
    assert!(matches!(request, Request::FetchText(_)));
    let sums = format!("{published}  tool.bin\n");
    let (check, request) = check.step(Answer::Text(Ok(sums.clone())));
    assert!(matches!(request, Request::Find { .. }));
    let (check, request) = check.step(Answer::Found(find(&sums, "tool.bin")));
    let answer = match request {
        Request::ReadTool(file) => {
            assert_eq!(file, "/app/bin/yt-dlp");
            Answer::Tool(Ok(b"abc".to_vec()))
        }
        Request::ReadState(file) => {
            assert_eq!(file, "/app/bin/.install_state");
            Answer::State(state)
        }
        _ => panic!("{request:?}"),
    };
    assert!(check.expects(&answer));
    match check.step(answer).1 {
        Request::Finish(verdict) => verdict,
        other => panic!("{other:?}"),
    }
}

#[test]
fn an_update_check_compares_what_is_published_with_what_is_installed() {
    let hash = sha256_file(b"abc");
    assert_eq!(check(None, None, &hash), UpdateCheck::Current);
    assert_eq!(check(None, None, &hash.to_uppercase()), UpdateCheck::Current);
    assert_eq!(check(None, None, "00"), UpdateCheck::Outdated);
    assert_eq!(check(Some("k"), None, "00"), UpdateCheck::Unknown);
    assert_eq!(check(Some("k"), Some(String::from("j=00\n")), "00"), UpdateCheck::Unknown);
    assert_eq!(check(Some("k"), Some(String::from("k=00\n")), "00"), UpdateCheck::Current);
    assert_eq!(check(Some("k"), Some(String::from("k=01\n")), "00"), UpdateCheck::Outdated);
}

#[test]
fn an_update_check_that_cannot_be_made_says_why() {
    assert_eq!(
        check_update(Component::Deno, None, &paths()).unwrap_err(),
        UpdateCheck::Failed(Error::Unsupported.to_string())
    );
    let start = || check_update(Component::Deno, Some(source(None)), &paths()).unwrap().0;
    let failed = |e: &str| Request::Finish(UpdateCheck::Failed(e.to_string()));
    let same = |a: Request, b: Request| assert_eq!(format!("{a:?}"), format!("{b:?}"));
    same(
        start().step(Answer::Text(Err(Error::Download(String::from("404"))))).1,
        failed("404"),
    );
    let (check, _) = start().step(Answer::Text(Ok(String::new())));
    same(
        check.step(Answer::Found(Err(Error::Checksum(String::from("none"))))).1,
        failed("none"),
    );
    let (check, _) = start().step(Answer::Text(Ok(String::new())));
    let (check, _) = check.step(Answer::Found(Ok(String::from("00"))));
    same(check.step(Answer::Tool(Err(String::from("gone")))).1, failed("gone"));
}
