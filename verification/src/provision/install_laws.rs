//! What holds of an installation and of an update check, from what comes back to what is asked for
//! next.
use vstd::prelude::*;

use super::install::{Action, Install, Phase, Progress, Seen};
use super::platform::{SignedBy, Source};
use super::sums::{Checked, SumsReply, SumsStep};
use super::update::{Checking, Request, Stage, UpdateCheck};
use super::{checksum, install, paths, signature, state, sums, update};
use super::{Component, Error, Event, Paths};
use crate::log::Level;
use crate::text;

verus! {

// ---------------------------------------------------------------------------
// Who signed
// ---------------------------------------------------------------------------

/// A checksum file is trusted exactly when the key can be read, has the expected fingerprint letter
/// for letter (in either case) and valid bindings, and the signature can be read and was made with
/// that key or one of its subkeys.
pub proof fn law_trust_takes_the_key_and_its_signature(
    data: Seq<u8>,
    signed: Seq<u8>,
    signer: SignedBy<Seq<char>>,
    checked: Result<(), Error<Seq<char>>>,
)
    requires
        signature::is_verdict(data, signed, signer, checked),
    ensures
        checked is Ok <==> {
            let found = signature::key_fingerprint(signer.key);
            &&& found is Some
            &&& found->0.len() == signer.fingerprint.len()
            &&& forall|i: int|
                0 <= i < found->0.len() ==> text::lower(#[trigger] found->0[i]) == text::lower(
                    signer.fingerprint[i],
                )
            &&& signature::key_bindings(signer.key) is Ok
            &&& signature::signature_form(signed)
            &&& signature::signed_by_primary(signer.key, signed, data) || exists|place: nat|
                place < signature::key_subkeys(signer.key) && #[trigger] signature::signed_by_subkey(
                    signer.key,
                    signed,
                    data,
                    place,
                )
        },
{
}

/// Why a checksum file is not trusted is said: of the key first, and of the signature only where
/// nothing is wrong with the key.
pub proof fn law_distrust_says_why(
    data: Seq<u8>,
    signed: Seq<u8>,
    signer: SignedBy<Seq<char>>,
    checked: Result<(), Error<Seq<char>>>,
)
    requires
        signature::is_verdict(data, signed, signer, checked),
    ensures
        ({
            let found = signature::key_fingerprint(signer.key);
            let bindings = signature::key_bindings(signer.key);
            let same = found is Some && text::same_letters(found->0, signer.fingerprint);
            let said = checked->Err_0->Checksum_0;
            &&& checked is Err ==> checked->Err_0 is Checksum
            &&& found is None ==> checked is Err && exists|reason: Seq<char>|
                said == #[trigger] ("Refusing to trust the checksums: "@ + (
                "the signing key can't be read ("@ + reason + ")"@) + "."@)
            &&& found is Some && !same ==> checked is Err && said
                == "Refusing to trust the checksums: "@ + ("the signing key is "@ + found->0
                + ", not "@ + signer.fingerprint) + "."@
            &&& same && bindings is Err ==> checked is Err && said
                == "Refusing to trust the checksums: "@ + ("the signing key is not valid ("@
                + bindings->Err_0 + ")"@) + "."@
            &&& same && bindings is Ok && !signature::signature_form(signed) ==> checked is Err
                && exists|reason: Seq<char>|
                said == #[trigger] ("Refusing to trust the checksums: "@ + (
                "the signature can't be read ("@ + reason + ")"@) + "."@)
            &&& same && bindings is Ok && signature::signature_form(signed) && checked is Err
                ==> said == "Refusing to trust the checksums: "@
                + "the checksum file is not signed by the expected key"@ + "."@
        }),
{
    let reason = choose|reason: Seq<char>|
        checked == #[trigger] signature::verdict(data, signed, signer, reason);
    let unread = "Refusing to trust the checksums: "@ + ("the signing key can't be read ("@ + reason
        + ")"@) + "."@;
    let garbled = "Refusing to trust the checksums: "@ + ("the signature can't be read ("@ + reason
        + ")"@) + "."@;
    assert(checked == signature::verdict(data, signed, signer, reason));
}

// ---------------------------------------------------------------------------
// The checksum file
// ---------------------------------------------------------------------------

/// Whether what came back of a signature says that it is right.
pub open spec fn right(signature: Result<Checked<Seq<char>>, Error<Seq<char>>>) -> bool {
    signature is Ok && signature->Ok_0 is Ok
}

/// A signed checksum file is followed by its signature, and handed over as it came once that is
/// right. Where it can't be had or its signature is not right, both are asked for once more, and
/// then what went wrong the second time is said.
pub proof fn law_a_checksum_file_and_its_signature(
    source: Source<Seq<char>>,
    signer: SignedBy<Seq<char>>,
    first: Seq<char>,
    second: Seq<char>,
    wrong: Result<Checked<Seq<char>>, Error<Seq<char>>>,
    good: Result<Checked<Seq<char>>, Error<Seq<char>>>,
    e: Error<Seq<char>>,
)
    requires
        source.signed_by == Some(signer),
        !right(wrong),
        right(good),
    ensures
        ({
            let start = sums::begun(source);
            let (held, asks) = sums::advanced(start, SumsReply::Text(Ok(first)));
            let (again, retries) = sums::advanced(held, SumsReply::Bytes(wrong));
            let (late, more) = sums::advanced(again, SumsReply::Text(Ok(second)));
            let over = sums::advanced(late, SumsReply::Bytes(wrong)).1;
            &&& asks == SumsStep::<Seq<char>>::FetchBytes(signer.url)
            &&& sums::advanced(held, SumsReply::Bytes(good)).1 == SumsStep::<Seq<char>>::Done(
                Ok(first),
            )
            &&& retries == SumsStep::<Seq<char>>::FetchText(source.checksum_url)
            &&& sums::advanced(start, SumsReply::Text(Err(e))) == (again, retries)
            &&& more == SumsStep::<Seq<char>>::FetchBytes(signer.url)
            &&& sums::advanced(late, SumsReply::Bytes(good)).1 == SumsStep::<Seq<char>>::Done(
                Ok(second),
            )
            &&& sums::advanced(again, SumsReply::Text(Err(e))).1 == SumsStep::<Seq<char>>::Done(
                Err(e),
            )
            &&& wrong is Err ==> over == SumsStep::<Seq<char>>::Done(
                Err(
                    Error::Checksum(
                        "Could not get the signature: "@ + super::error_text(wrong->Err_0),
                    ),
                ),
            )
            &&& wrong is Ok ==> over == SumsStep::<Seq<char>>::Done(Err(wrong->Ok_0->Err_0))
        }),
{
}

/// A checksum file that nobody signs is asked for once, and handed over as it came.
pub proof fn law_a_checksum_file_without_a_signer(
    source: Source<Seq<char>>,
    sums: Seq<char>,
    e: Error<Seq<char>>,
)
    requires
        source.signed_by is None,
    ensures
        sums::advanced(sums::begun(source), SumsReply::Text(Ok(sums))).1 == SumsStep::<
            Seq<char>,
        >::Done(Ok(sums)),
        sums::advanced(sums::begun(source), SumsReply::Text(Err(e))).1 == SumsStep::<
            Seq<char>,
        >::Done(Err(e)),
{
}

// ---------------------------------------------------------------------------
// An installation
// ---------------------------------------------------------------------------

/// How an installation begins: with the folder, and then with the checksum file. Where the folder
/// can't be made, it ends with the reason.
pub proof fn law_an_installation_begins_with_the_folder(
    component: Component,
    source: Source<Seq<char>>,
    paths: Paths,
    sums_name: Seq<char>,
    e: Seq<char>,
)
    ensures
        ({
            let begun = install::started(component, source, paths, sums_name);
            let made = install::stepped(begun, Seen::Created(Ok(())));
            let lost = install::stepped(begun, Seen::Created(Err(e)));
            let said = "Cannot create directory: "@ + paths.bin_dir@ + " ("@ + e + ")"@;
            &&& made.action == Action::<Seq<char>>::FetchSums(source.checksum_url)
            &&& made.log == seq![Event::Log(Level::Install, component.name() + "..."@)]
            &&& made.install.job == begun.job
            &&& lost.action == Action::<Seq<char>>::Finish(Err(Error::Io(said)))
            &&& lost.log == seq![Event::Log(Level::Error, said)]
            &&& begun.job.component == component
            &&& begun.job.source == source
            &&& begun.job.bin_dir == paths.bin_dir@
            &&& begun.job.sums_name == sums_name
            &&& begun.job.part == paths::joined_path(
                paths.platform,
                paths.bin_dir@,
                ".download-"@ + source.asset,
            )
        }),
{
}

/// A checksum file that nobody signs is looked into at once; one that can't be had ends the
/// installation.
pub proof fn law_an_unsigned_checksum_file_is_looked_into(
    component: Component,
    source: Source<Seq<char>>,
    paths: Paths,
    sums_name: Seq<char>,
    sums: Seq<char>,
    e: Error<Seq<char>>,
)
    requires
        source.signed_by is None,
    ensures
        ({
            let begun = install::started(component, source, paths, sums_name);
            let made = install::stepped(begun, Seen::Created(Ok(()))).install;
            let got = install::stepped(made, Seen::Text(Ok(sums)));
            let lost = install::stepped(made, Seen::Text(Err(e)));
            &&& got.action == (Action::<Seq<char>>::Find { sums, asset: source.asset })
            &&& got.log.len() == 0
            &&& got.install == (Install { job: begun.job, phase: Phase::<Seq<char>>::Finding })
            &&& lost.action == Action::<Seq<char>>::Finish(Err(e))
            &&& lost.log.len() == 0
        }),
{
}

/// A signed checksum file is looked into once its signature is right, and who signed it is logged.
/// Where the signature is not right, both are asked for again.
pub proof fn law_a_signed_checksum_file_is_looked_into(
    component: Component,
    source: Source<Seq<char>>,
    signer: SignedBy<Seq<char>>,
    paths: Paths,
    sums_name: Seq<char>,
    sums: Seq<char>,
    good: Result<Checked<Seq<char>>, Error<Seq<char>>>,
    wrong: Result<Checked<Seq<char>>, Error<Seq<char>>>,
    e: Error<Seq<char>>,
)
    requires
        source.signed_by == Some(signer),
        right(good),
        !right(wrong),
    ensures
        ({
            let begun = install::started(component, source, paths, sums_name);
            let made = install::stepped(begun, Seen::Created(Ok(()))).install;
            let got = install::stepped(made, Seen::Text(Ok(sums)));
            let passed = install::stepped(got.install, Seen::Bytes(good));
            let again = install::stepped(got.install, Seen::Bytes(wrong));
            let lost = install::stepped(made, Seen::Text(Err(e)));
            &&& got.action == Action::<Seq<char>>::FetchBytes(signer.url)
            &&& got.log == seq![
                Event::Log(Level::Verify, "Checking who signed "@ + sums_name + "..."@),
            ]
            &&& passed.action == (Action::<Seq<char>>::Find { sums, asset: source.asset })
            &&& passed.log == seq![
                Event::Log(
                    Level::Okay,
                    "Signed by the expected key ("@ + super::grouped(signer.fingerprint) + ")"@,
                ),
            ]
            &&& passed.install == (Install {
                job: begun.job,
                phase: Phase::<Seq<char>>::Finding,
            })
            &&& again.action == Action::<Seq<char>>::FetchText(source.checksum_url)
            &&& again.log.len() == 0
            &&& again.install == (Install {
                job: begun.job,
                phase: Phase::Refetching(sums::begun(source)),
            })
            &&& lost.action == Action::<Seq<char>>::Finish(Err(e))
            &&& lost.log.len() == 0
        }),
{
}

/// A signed checksum file that is asked for again is asked for as any is, with its signature: what
/// is handed over is looked into, and where nothing is, the installation ends with why.
pub proof fn law_a_signed_checksum_file_is_asked_for_again(
    job: install::Job<Seq<char>>,
    signer: SignedBy<Seq<char>>,
    first: Seq<char>,
    second: Seq<char>,
    good: Result<Checked<Seq<char>>, Error<Seq<char>>>,
    wrong: Result<Checked<Seq<char>>, Error<Seq<char>>>,
    e: Error<Seq<char>>,
)
    requires
        job.source.signed_by == Some(signer),
        right(good),
        !right(wrong),
    ensures
        ({
            let begun = Install { job, phase: Phase::Refetching(sums::begun(job.source)) };
            let got = install::stepped(begun, Seen::Text(Ok(first)));
            let passed = install::stepped(got.install, Seen::Bytes(good));
            let again = install::stepped(got.install, Seen::Bytes(wrong));
            let late = install::stepped(again.install, Seen::Text(Ok(second)));
            let saved = install::stepped(late.install, Seen::Bytes(good));
            let over = install::stepped(late.install, Seen::Bytes(wrong));
            let lost = install::stepped(again.install, Seen::Text(Err(e)));
            let why = if wrong is Err {
                Error::Checksum(
                    "Could not get the signature: "@ + super::error_text(wrong->Err_0),
                )
            } else {
                wrong->Ok_0->Err_0
            };
            let found = Install { job, phase: Phase::<Seq<char>>::Finding };
            &&& got.action == Action::<Seq<char>>::FetchBytes(signer.url)
            &&& passed.action == (Action::<Seq<char>>::Find {
                sums: first,
                asset: job.source.asset,
            })
            &&& passed.install == found
            &&& passed.log.len() == 1
            &&& again.action == Action::<Seq<char>>::FetchText(job.source.checksum_url)
            &&& install::stepped(begun, Seen::Text(Err(e))) == again
            &&& late.action == Action::<Seq<char>>::FetchBytes(signer.url)
            &&& saved.action == (Action::<Seq<char>>::Find {
                sums: second,
                asset: job.source.asset,
            })
            &&& saved.install == found
            &&& over.action == Action::<Seq<char>>::Finish(Err(why))
            &&& over.log == seq![Event::Log(Level::Error, super::error_text(why))]
            &&& lost.action == Action::<Seq<char>>::Finish(Err(e))
            &&& lost.log == seq![Event::Log(Level::Error, super::error_text(e))]
        }),
{
}

/// Once the checksum of the asset is known, the asset is downloaded. One that can't be found or
/// downloaded ends the installation.
pub proof fn law_what_has_a_checksum_is_downloaded(
    job: install::Job<Seq<char>>,
    expected: Seq<char>,
    e: Error<Seq<char>>,
)
    ensures
        ({
            let looking = Install { job, phase: Phase::<Seq<char>>::Finding };
            let found = install::stepped(looking, Seen::Found(Ok(expected)));
            let lost = install::stepped(looking, Seen::Found(Err(e)));
            let broken = install::stepped(found.install, Seen::Downloaded(Err(e)));
            &&& found.action == (Action::Download {
                url: job.source.url,
                asset: job.source.asset,
                part: job.part,
            })
            &&& found.log.len() == 0
            &&& found.install == (Install { job, phase: Phase::Downloading { expected } })
            &&& lost.action == Action::<Seq<char>>::Finish(Err(e))
            &&& lost.log == seq![Event::Log(Level::Error, super::error_text(e))]
            &&& broken.action == Action::<Seq<char>>::Finish(Err(e))
            &&& broken.log.len() == 0
        }),
{
}

/// A download with the expected checksum is put in place, and one with another is not: the checksum
/// file is asked for again first.
pub proof fn law_a_download_is_held_against_its_checksum(
    job: install::Job<Seq<char>>,
    expected: Seq<char>,
    actual: Seq<char>,
)
    ensures
        ({
            let waiting = Install { job, phase: Phase::Downloading { expected } };
            let p = install::stepped(waiting, Seen::Downloaded(Ok(actual)));
            let checking = Event::Log(
                Level::Verify,
                "Checking SHA256 for "@ + job.source.asset + "..."@,
            );
            let passed = Event::Log(Level::Okay, "Hash verification passed"@);
            let extracting = Event::Log(Level::Info, "Extracting..."@);
            if text::same_letters(actual, expected) {
                &&& p.action == (Action::Unpack {
                    packaging: job.source.packaging,
                    part: job.part,
                })
                &&& p.install == (Install { job, phase: Phase::Unpacking { expected } })
                &&& job.source.packaging is Raw ==> p.log == seq![checking, passed]
                &&& job.source.packaging is Archive ==> p.log == seq![
                    checking,
                    passed,
                    extracting,
                ]
            } else {
                &&& p.action == Action::<Seq<char>>::FetchText(job.source.checksum_url)
                &&& p.log == seq![checking]
                &&& p.install == (Install {
                    job,
                    phase: Phase::Rechecking { expected, actual, fetch: sums::begun(job.source) },
                })
            }
        }),
{
    let waiting = Install { job, phase: Phase::Downloading { expected } };
    let p = install::stepped(waiting, Seen::Downloaded(Ok(actual)));
    let checking = Event::Log(Level::Verify, "Checking SHA256 for "@ + job.source.asset + "..."@);
    let passed = Event::Log(Level::Okay, "Hash verification passed"@);
    let extracting = Event::Log(Level::Info, "Extracting..."@);
    if text::same_letters(actual, expected) {
        if job.source.packaging is Raw {
            assert(p.log =~= seq![checking, passed]);
        } else {
            assert(p.log =~= seq![checking, passed, extracting]);
        }
    }
}

/// The end of an installation whose download matched no checksum: the file is removed, and then
/// both checksums are logged.
pub open spec fn refused(
    job: install::Job<Seq<char>>,
    expected: Seq<char>,
    actual: Seq<char>,
    p: Progress,
) -> bool {
    let end = install::stepped(p.install, Seen::Removed);
    &&& p.action == Action::<Seq<char>>::Remove(job.part)
    &&& p.log.len() == 0
    &&& end.action == Action::<Seq<char>>::Finish(
        Err(
            Error::Checksum(
                "The download of "@ + job.source.asset + " didn't match its published checksum."@,
            ),
        ),
    )
    &&& end.log == seq![
        Event::Log(Level::Error, "Hash mismatch for "@ + job.source.asset + "!"@),
        Event::Log(Level::Info, "Expected: "@ + expected),
        Event::Log(Level::Info, "Actual:   "@ + actual),
    ]
}

/// A newer checksum file without a signer decides about a download that the first one did not
/// match: it is put in place with the newer checksum when that is its own, and refused when it is
/// not or can't be had.
pub proof fn law_a_newer_unsigned_file_decides(
    job: install::Job<Seq<char>>,
    expected: Seq<char>,
    actual: Seq<char>,
    sums: Seq<char>,
    newer: Seq<char>,
    e: Error<Seq<char>>,
)
    requires
        job.source.signed_by is None,
    ensures
        ({
            let again = Install {
                job,
                phase: Phase::Rechecking { expected, actual, fetch: sums::begun(job.source) },
            };
            let got = install::stepped(again, Seen::Text(Ok(sums)));
            let found = install::stepped(got.install, Seen::Found(Ok(newer)));
            &&& got.action == (Action::Find { sums, asset: job.source.asset })
            &&& got.log.len() == 0
            &&& refused(
                job,
                expected,
                actual,
                install::stepped(again, Seen::Text(Err(e))),
            )
            &&& refused(
                job,
                expected,
                actual,
                install::stepped(got.install, Seen::Found(Err(e))),
            )
            &&& !text::same_letters(newer, actual) ==> refused(job, expected, actual, found)
            &&& text::same_letters(newer, actual) ==> {
                &&& found.action == (Action::Unpack {
                    packaging: job.source.packaging,
                    part: job.part,
                })
                &&& found.install == (Install {
                    job,
                    phase: Phase::Unpacking { expected: newer },
                })
                &&& found.log[0] == Event::Log(
                    Level::Info,
                    "A newer release was published during the download; its checksum matches."@,
                )
                &&& found.log[1] == Event::Log(Level::Okay, "Hash verification passed"@)
            }
        }),
{
}

/// A newer signed checksum file is believed only with its signature, and asked for twice at most,
/// before it decides about a download that the first one did not match.
pub proof fn law_a_newer_signed_file_decides(
    job: install::Job<Seq<char>>,
    signer: SignedBy<Seq<char>>,
    expected: Seq<char>,
    actual: Seq<char>,
    first: Seq<char>,
    second: Seq<char>,
    newer: Seq<char>,
    good: Result<Checked<Seq<char>>, Error<Seq<char>>>,
    wrong: Result<Checked<Seq<char>>, Error<Seq<char>>>,
    e: Error<Seq<char>>,
)
    requires
        job.source.signed_by == Some(signer),
        right(good),
        !right(wrong),
    ensures
        ({
            let again = Install {
                job,
                phase: Phase::Rechecking { expected, actual, fetch: sums::begun(job.source) },
            };
            let got = install::stepped(again, Seen::Text(Ok(first)));
            let passed = install::stepped(got.install, Seen::Bytes(good));
            let retried = install::stepped(got.install, Seen::Bytes(wrong));
            let late = install::stepped(retried.install, Seen::Text(Ok(second)));
            let saved = install::stepped(late.install, Seen::Bytes(good));
            let found = install::stepped(saved.install, Seen::Found(Ok(newer)));
            &&& got.action == Action::<Seq<char>>::FetchBytes(signer.url)
            &&& passed.action == (Action::Find { sums: first, asset: job.source.asset })
            &&& retried.action == Action::<Seq<char>>::FetchText(job.source.checksum_url)
            &&& install::stepped(again, Seen::Text(Err(e))) == retried
            &&& late.action == Action::<Seq<char>>::FetchBytes(signer.url)
            &&& saved.action == (Action::Find { sums: second, asset: job.source.asset })
            &&& saved.install == passed.install
            &&& refused(
                job,
                expected,
                actual,
                install::stepped(late.install, Seen::Bytes(wrong)),
            )
            &&& refused(
                job,
                expected,
                actual,
                install::stepped(retried.install, Seen::Text(Err(e))),
            )
            &&& refused(
                job,
                expected,
                actual,
                install::stepped(saved.install, Seen::Found(Err(e))),
            )
            &&& !text::same_letters(newer, actual) ==> refused(job, expected, actual, found)
            &&& text::same_letters(newer, actual) ==> {
                &&& found.action == (Action::Unpack {
                    packaging: job.source.packaging,
                    part: job.part,
                })
                &&& found.install == (Install {
                    job,
                    phase: Phase::Unpacking { expected: newer },
                })
            }
        }),
{
}

/// Once the download was put in place, or could not be, its file is removed. Then the checksum is
/// recorded where there is a key for it, and only then the installation has succeeded. Whatever
/// failed is logged.
pub proof fn law_what_is_in_place_is_recorded(
    job: install::Job<Seq<char>>,
    expected: Seq<char>,
    e: Error<Seq<char>>,
    reason: Seq<char>,
)
    ensures
        ({
            let waiting = Install { job, phase: Phase::Unpacking { expected } };
            let placed = install::stepped(waiting, Seen::Unpacked(Ok(())));
            let broken = install::stepped(waiting, Seen::Unpacked(Err(e)));
            let tidy = install::stepped(placed.install, Seen::Removed);
            let bad = install::stepped(broken.install, Seen::Removed);
            let recorded = install::stepped(tidy.install, Seen::Recorded(Ok(())));
            let lost = install::stepped(tidy.install, Seen::Recorded(Err(reason)));
            let well = seq![
                Event::Log(Level::Okay, job.component.name() + " installed successfully"@),
            ];
            &&& placed.action == Action::<Seq<char>>::Remove(job.part)
            &&& placed.log.len() == 0
            &&& broken.action == Action::<Seq<char>>::Remove(job.part)
            &&& broken.log.len() == 0
            &&& bad.action == Action::<Seq<char>>::Finish(Err(e))
            &&& bad.log == seq![Event::Log(Level::Error, super::error_text(e))]
            &&& job.source.state_key is None ==> {
                &&& tidy.action == Action::<Seq<char>>::Finish(Ok(()))
                &&& tidy.log == well
            }
            &&& job.source.state_key is Some ==> {
                &&& tidy.action == (Action::Record {
                    key: job.source.state_key->0,
                    value: expected,
                })
                &&& tidy.log.len() == 0
                &&& recorded.action == Action::<Seq<char>>::Finish(Ok(()))
                &&& recorded.log == well
                &&& lost.action == Action::<Seq<char>>::Finish(Err(Error::Io(reason)))
                &&& lost.log == seq![Event::<Seq<char>>::Log(Level::Error, reason)]
            }
        }),
{
}

// ---------------------------------------------------------------------------
// An update check
// ---------------------------------------------------------------------------

/// An update check looks the asset up in a checksum file, one with a right signature where there is
/// a signer, and then asks for what is installed: for the program itself where its own checksum is
/// published, and else for what was recorded. What can't be had or found is said.
pub proof fn law_an_update_check_asks_for_what_is_installed(
    component: Component,
    source: Source<Seq<char>>,
    paths: Paths,
    sums: Seq<char>,
    published: Seq<char>,
    good: Result<Checked<Seq<char>>, Error<Seq<char>>>,
    e: Error<Seq<char>>,
)
    requires
        right(good),
    ensures
        ({
            let begun = update::checking(component, source, paths);
            let got = update::stepped(begun, update::Seen::Text(Ok(sums)));
            let looked = if source.signed_by is Some {
                update::stepped(got.0, update::Seen::Bytes(good))
            } else {
                got
            };
            let found = update::stepped(looked.0, update::Seen::Found(Ok(published)));
            let lost = update::stepped(looked.0, update::Seen::Found(Err(e)));
            let gone = update::stepped(begun, update::Seen::Text(Err(e)));
            &&& source.signed_by is Some ==> got.1 == Request::<Seq<char>>::FetchBytes(
                source.signed_by->0.url,
            )
            &&& looked.1 == (Request::Find { sums, asset: source.asset })
            &&& source.state_key is None ==> found.1 == Request::ReadTool(
                paths.tool_path(component.programs()[0]),
            )
            &&& source.state_key is Some ==> found.1 == Request::ReadState(
                paths::joined_path(paths.platform, paths.bin_dir@, ".install_state"@),
            )
            &&& found.0.stage == (Stage::Reading { published })
            &&& found.0.state_key == source.state_key
            &&& lost.1 == Request::<Seq<char>>::Finish(
                UpdateCheck::Failed(super::error_text(e)),
            )
            &&& source.signed_by is None ==> gone.1 == Request::<Seq<char>>::Finish(
                UpdateCheck::Failed(super::error_text(e)),
            )
            &&& source.signed_by is Some ==> gone.1 == Request::<Seq<char>>::FetchText(
                source.checksum_url,
            )
        }),
{
}

/// A signature that is not right is asked for again with its file, and the second one that is not
/// ends the update check with the reason.
pub proof fn law_an_update_check_gives_up_on_a_wrong_signature(
    component: Component,
    source: Source<Seq<char>>,
    signer: SignedBy<Seq<char>>,
    paths: Paths,
    first: Seq<char>,
    second: Seq<char>,
    wrong: Result<Checked<Seq<char>>, Error<Seq<char>>>,
    good: Result<Checked<Seq<char>>, Error<Seq<char>>>,
)
    requires
        source.signed_by == Some(signer),
        right(good),
        !right(wrong),
    ensures
        ({
            let begun = update::checking(component, source, paths);
            let got = update::stepped(begun, update::Seen::Text(Ok(first))).0;
            let (again, retries) = update::stepped(got, update::Seen::Bytes(wrong));
            let (late, asks) = update::stepped(again, update::Seen::Text(Ok(second)));
            &&& retries == Request::<Seq<char>>::FetchText(source.checksum_url)
            &&& asks == Request::<Seq<char>>::FetchBytes(signer.url)
            &&& update::stepped(late, update::Seen::Bytes(good)).1 == (Request::Find {
                sums: second,
                asset: source.asset,
            })
            &&& update::stepped(late, update::Seen::Bytes(wrong)).1 == Request::<
                Seq<char>,
            >::Finish(
                UpdateCheck::Failed(
                    if wrong is Err {
                        "Could not get the signature: "@ + super::error_text(wrong->Err_0)
                    } else {
                        super::error_text(wrong->Ok_0->Err_0)
                    },
                ),
            )
        }),
{
}

/// What is installed is current exactly when its checksum is the published one, in either case of
/// letters: that of the program itself, or the recorded one. Where nothing was recorded, it is not
/// known.
pub proof fn law_what_has_the_published_checksum_is_current(
    check: Checking<Seq<char>>,
    published: Seq<char>,
    bytes: Seq<u8>,
    file: Seq<char>,
    e: Seq<char>,
)
    requires
        check.stage == (Stage::Reading { published }),
    ensures
        ({
            let hash = text::hex_digits(checksum::sha256(bytes));
            let whole = update::stepped(check, update::Seen::Tool(Ok(bytes))).1;
            let noted = update::stepped(check, update::Seen::State(Some(file))).1;
            let value = state::state_value(file, check.state_key->0);
            &&& check.state_key is None ==> {
                &&& whole == Request::<Seq<char>>::Finish(
                    if text::same_letters(hash, published) {
                        UpdateCheck::Current
                    } else {
                        UpdateCheck::Outdated
                    },
                )
                &&& update::stepped(check, update::Seen::Tool(Err(e))).1 == Request::<
                    Seq<char>,
                >::Finish(UpdateCheck::Failed(e))
            }
            &&& check.state_key is Some ==> {
                &&& update::stepped(check, update::Seen::State(None)).1 == Request::<
                    Seq<char>,
                >::Finish(UpdateCheck::Unknown)
                &&& value is None ==> noted == Request::<Seq<char>>::Finish(UpdateCheck::Unknown)
                &&& value is Some && text::same_letters(value->0, published) ==> noted
                    == Request::<Seq<char>>::Finish(UpdateCheck::Current)
                &&& value is Some && !text::same_letters(value->0, published) ==> noted
                    == Request::<Seq<char>>::Finish(UpdateCheck::Outdated)
            }
        }),
{
}

/// Where there is nothing to get a tool from, there is nothing to compare it with either, and that
/// is said. Else the checksum file is asked for first.
pub proof fn law_an_update_check_begins_with_the_checksum_file(
    component: Component,
    source: Option<Source>,
    paths: Paths,
    r: Result<(Checking, Request), UpdateCheck>,
)
    requires
        call_ensures(update::check_update, (component, source, &paths), r),
    ensures
        r is Ok <==> source is Some,
        r is Err ==> r->Err_0@ == UpdateCheck::Failed(
            "This platform isn't supported (only Linux and Windows on x86_64)."@,
        ),
        r is Ok ==> r->Ok_0.1@ == Request::FetchText(source->0@.checksum_url),
{
}

// ---------------------------------------------------------------------------
// What is awaited
// ---------------------------------------------------------------------------

/// Whatever an installation asks for, it awaits just the reply to that, and after its end none. It
/// begins by awaiting that the folder was made.
pub proof fn law_an_installation_awaits_what_it_asked_for(
    begun: Install<Seq<char>>,
    reply: Seen,
    next: install::Raw,
)
    requires
        install::valid(begun),
        install::awaited(begun, reply),
    ensures
        ({
            let p = install::stepped(begun, reply);
            let awaits = install::awaited(p.install, next);
            &&& install::valid(p.install)
            &&& p.install.job == begun.job
            &&& match p.action {
                Action::CreateDir(_) => false,
                Action::FetchSums(_) | Action::FetchText(_) => awaits <==> next is Text,
                Action::FetchBytes(_) => awaits <==> next is Bytes,
                Action::Find { .. } => awaits <==> next is Found,
                Action::Download { .. } => awaits <==> next is Downloaded,
                Action::Remove(_) => awaits <==> next is Removed,
                Action::Unpack { .. } => awaits <==> next is Unpacked,
                Action::Record { .. } => awaits <==> next is Recorded,
                Action::Finish(_) => !awaits,
            }
        }),
{
}

/// An installation begins by awaiting that its folder was made.
pub proof fn law_an_installation_awaits_its_folder_first(
    component: Component,
    source: Source<Seq<char>>,
    paths: Paths,
    sums_name: Seq<char>,
    reply: install::Raw,
)
    ensures
        install::valid(install::started(component, source, paths, sums_name)),
        install::awaited(install::started(component, source, paths, sums_name), reply)
            <==> reply is Created,
{
}

/// Whatever an update check asks for, it awaits just the answer to that, and after its end none. It
/// begins by awaiting the checksum file.
pub proof fn law_an_update_check_awaits_what_it_asked_for(
    begun: Checking<Seq<char>>,
    answer: update::Seen,
    next: update::Raw,
)
    requires
        update::valid(begun),
        update::awaited(begun, answer),
    ensures
        ({
            let (check, request) = update::stepped(begun, answer);
            let awaits = update::awaited(check, next);
            &&& update::valid(check)
            &&& match request {
                Request::FetchText(_) => awaits <==> next is Text,
                Request::FetchBytes(_) => awaits <==> next is Bytes,
                Request::Find { .. } => awaits <==> next is Found,
                Request::ReadTool(_) => awaits <==> next is Tool,
                Request::ReadState(_) => awaits <==> next is State,
                Request::Finish(_) => !awaits,
            }
        }),
{
}

/// An update check begins by awaiting the checksum file.
pub proof fn law_an_update_check_awaits_the_checksum_file_first(
    component: Component,
    source: Source<Seq<char>>,
    paths: Paths,
    answer: update::Raw,
)
    ensures
        update::valid(update::checking(component, source, paths)),
        update::awaited(update::checking(component, source, paths), answer) <==> answer is Text,
{
}

/// A signature that was fetched is checked against the file it came for, and one that was not is
/// reported as it is.
pub proof fn law_a_signature_is_checked_against_its_file(
    sums: &str,
    signature: Result<Vec<u8>, Error>,
    signer: SignedBy,
    r: Result<Checked, Error>,
)
    requires
        call_ensures(sums::check_signature, (sums, signature, &signer), r),
    ensures
        r is Err <==> signature is Err,
        r is Err ==> r->Err_0@ == signature->Err_0@,
        r is Ok ==> signature::is_verdict(
            vstd::utf8::encode_utf8(sums@),
            signature->Ok_0@,
            signer@,
            super::outcome(r->Ok_0),
        ),
{
}

/// A failure is logged once, as an error that says why, and nothing else is.
pub proof fn law_a_failure_is_logged_once(e: Error<Seq<char>>)
    ensures
        super::told(Ok::<(), Error<Seq<char>>>(())).len() == 0,
        super::told(Err::<(), Error<Seq<char>>>(e)) == seq![
            Event::Log(Level::Error, super::error_text(e)),
        ],
{
}

// ---------------------------------------------------------------------------
// What is meant by what
// ---------------------------------------------------------------------------

/// What came of something means what it says, and so does why it failed.
pub proof fn law_an_outcome_means_what_it_says(
    error: super::Error,
    text: Result<String, super::Error>,
    bytes: Result<Vec<u8>, super::Error>,
    plain: Result<(), String>,
)
    ensures
        match error {
            Error::Unsupported => error@ is Unsupported,
            Error::Io(m) => error@ == Error::Io(m@),
            Error::Download(m) => error@ == Error::Download(m@),
            Error::Checksum(m) => error@ == Error::Checksum(m@),
            Error::Archive(m) => error@ == Error::Archive(m@),
        },
        match text {
            Ok(s) => super::text_outcome(text) == Ok::<Seq<char>, Error<Seq<char>>>(s@),
            Err(e) => super::text_outcome(text) == Err::<Seq<char>, Error<Seq<char>>>(e@),
        },
        match bytes {
            Ok(v) => sums::bytes_outcome(bytes) == Ok::<Seq<u8>, Error<Seq<char>>>(v@),
            Err(e) => sums::bytes_outcome(bytes) == Err::<Seq<u8>, Error<Seq<char>>>(e@),
        },
        match plain {
            Ok(_) => signature::checking(plain) is Ok,
            Err(e) => signature::checking(plain) == Err::<(), Seq<char>>(e@),
        },
{
}

/// What came back of a signature that was checked means what it says.
pub proof fn law_a_checked_signature_means_what_it_says(r: Result<sums::Checked, super::Error>)
    ensures
        match r {
            Ok(Ok(_)) => right(sums::checked_outcome(r)),
            Ok(Err(e)) => sums::checked_outcome(r) == Ok::<
                Checked<Seq<char>>,
                Error<Seq<char>>,
            >(Err(e@)),
            Err(e) => sums::checked_outcome(r) == Err::<
                Checked<Seq<char>>,
                Error<Seq<char>>,
            >(e@),
        },
{
}

/// A reply means what it says.
pub proof fn law_a_reply_means_what_it_says(reply: install::Reply)
    ensures
        match reply {
            install::Reply::Created(r) => reply@ == install::Raw::Created(signature::checking(r)),
            install::Reply::Text(r) => reply@ == install::Raw::Text(super::text_outcome(r)),
            install::Reply::Bytes(r) => reply@ == install::Raw::Bytes(sums::bytes_outcome(r)),
            install::Reply::Found(r) => reply@ == install::Raw::Found(super::text_outcome(r)),
            install::Reply::Downloaded(r) => reply@ == install::Raw::Downloaded(
                super::text_outcome(r),
            ),
            install::Reply::Removed => reply@ is Removed,
            install::Reply::Unpacked(r) => reply@ == install::Raw::Unpacked(super::outcome(r)),
            install::Reply::Recorded(r) => reply@ == install::Raw::Recorded(
                signature::checking(r),
            ),
        },
{
}

/// What is to be done means what it says.
pub proof fn law_an_action_means_what_it_says(action: install::Action)
    ensures
        match action {
            Action::CreateDir(dir) => action@ == Action::CreateDir(dir@),
            Action::FetchSums(url) => action@ == Action::FetchSums(url@),
            Action::FetchText(url) => action@ == Action::FetchText(url@),
            Action::FetchBytes(url) => action@ == Action::FetchBytes(url@),
            Action::Find { sums, asset } => action@ == (Action::Find {
                sums: sums@,
                asset: asset@,
            }),
            Action::Download { url, asset, part } => action@ == (Action::Download {
                url: url@,
                asset: asset@,
                part: part@,
            }),
            Action::Remove(file) => action@ == Action::Remove(file@),
            Action::Unpack { packaging, part } => {
                &&& action@ is Unpack
                &&& action@->Unpack_part == part@
                &&& action@->packaging is Raw <==> packaging is Raw
                &&& packaging is Raw ==> action@->packaging->install_as == packaging->install_as@
            },
            Action::Record { key, value } => action@ == (Action::Record {
                key: key@,
                value: value@,
            }),
            Action::Finish(Ok(_)) => action@ is Finish && action@->Finish_0 is Ok,
            Action::Finish(Err(e)) => action@ == Action::Finish(Err(e@)),
        },
{
}

/// Where a tool is published means what it says.
pub proof fn law_a_source_means_what_it_says(source: super::platform::Source)
    ensures
        source@.url == source.url@,
        source@.asset == source.asset@,
        source@.checksum_url == source.checksum_url@,
        source@.state_key is Some <==> source.state_key is Some,
        source.state_key is Some ==> source@.state_key->0 == source.state_key->0@,
        source@.signed_by is Some <==> source.signed_by is Some,
        source.signed_by is Some ==> {
            &&& source@.signed_by->0.url == source.signed_by->0.url@
            &&& source@.signed_by->0.key == source.signed_by->0.key@
            &&& source@.signed_by->0.fingerprint == source.signed_by->0.fingerprint@
        },
{
}

/// What an update check asks, is answered and finds means what it says.
pub proof fn law_an_update_check_means_what_it_says(
    request: update::Request,
    answer: update::Answer,
    found: update::UpdateCheck,
)
    ensures
        match request {
            Request::FetchText(url) => request@ == Request::FetchText(url@),
            Request::FetchBytes(url) => request@ == Request::FetchBytes(url@),
            Request::Find { sums, asset } => request@ == (Request::Find {
                sums: sums@,
                asset: asset@,
            }),
            Request::ReadTool(file) => request@ == Request::ReadTool(file@),
            Request::ReadState(file) => request@ == Request::ReadState(file@),
            Request::Finish(check) => request@ == Request::Finish(check@),
        },
        match answer {
            update::Answer::Text(r) => answer@ == update::Raw::Text(super::text_outcome(r)),
            update::Answer::Bytes(r) => answer@ == update::Raw::Bytes(sums::bytes_outcome(r)),
            update::Answer::Found(r) => answer@ == update::Raw::Found(super::text_outcome(r)),
            update::Answer::Tool(Ok(bytes)) => answer@ == update::Raw::Tool(Ok(bytes@)),
            update::Answer::Tool(Err(e)) => answer@ == update::Raw::Tool(Err(e@)),
            update::Answer::State(Some(file)) => answer@ == update::Raw::State(Some(file@)),
            update::Answer::State(None) => answer@ == update::Raw::State(None),
        },
        match found {
            UpdateCheck::Current => found@ is Current,
            UpdateCheck::Outdated => found@ is Outdated,
            UpdateCheck::Unknown => found@ is Unknown,
            UpdateCheck::Failed(e) => found@ == UpdateCheck::Failed(e@),
        },
{
}

} // verus!
