//! What holds of the tools and their versions, of where they live, and of what is recorded.
use vstd::prelude::*;

use super::age;
use super::paths::Platform;
use super::{paths, state, Component, Error, Paths};
use crate::process::{Output, RunError};
use crate::{seqs, text, text_laws};

verus! {

// ---------------------------------------------------------------------------
// Tools and versions
// ---------------------------------------------------------------------------

/// Each tool has its own name and its own programs, and is asked for its version as it
/// understands.
pub proof fn law_each_tool_has_its_programs(component: Component)
    ensures
        match component {
            Component::YtDlp => {
                &&& component.name() == "yt-dlp"@
                &&& component.programs() == seq!["yt-dlp"@]
                &&& super::version_argument(component) == "--version"@
            },
            Component::Ffmpeg => {
                &&& component.name() == "FFmpeg"@
                &&& component.programs() == seq!["ffmpeg"@, "ffprobe"@]
                &&& super::version_argument(component) == "-version"@
            },
            Component::Deno => {
                &&& component.name() == "Deno"@
                &&& component.programs() == seq!["deno"@]
                &&& super::version_argument(component) == "--version"@
            },
        },
{
}

/// The files of a tool are its programs in `bin/`, in their order.
pub proof fn law_the_files_of_a_tool_are_its_programs(paths: Paths, names: Seq<Seq<char>>, i: int)
    requires
        0 <= i < names.len(),
    ensures
        super::tool_paths(paths, names).len() == names.len(),
        super::tool_paths(paths, names)[i] == paths.tool_path(names[i]),
{
}

/// A tool is missing as soon as one of its files is, installed in the version that it tells, and
/// broken where all files are there but none is told.
pub proof fn law_a_tool_is_installed_in_the_version_it_tells(
    component: Component,
    found: Seq<bool>,
    output: Option<Seq<char>>,
)
    ensures
        ({
            let r = super::status_of(component, found, output);
            let there = forall|i: int| 0 <= i < found.len() ==> #[trigger] found[i];
            let told = output is Some && super::version_in(component, output->0) is Some;
            &&& r is Missing <==> !there
            &&& r is Installed <==> there && told
            &&& r is Broken <==> there && !told
            &&& r is Installed ==> r->version == super::version_in(component, output->0)->0
        }),
{
}

/// The version of yt-dlp is its first line without the white space around it, and it has none where
/// nothing is left of that.
pub proof fn law_the_version_of_ytdlp_is_its_first_line(line: Seq<char>, rest: Seq<char>)
    requires
        forall|i: int| 0 <= i < line.len() ==> #[trigger] line[i] != '\n',
    ensures
        ({
            let version = super::version_in(Component::YtDlp, line + seq!['\n'] + rest);
            &&& text::trim(line).len() > 0 && line.last() != '\r' ==> version == Some(
                text::trim(line),
            )
            &&& text::trim(line).len() == 0 && (line.len() == 0 || line.last() != '\r')
                ==> version is None
        }),
{
    text::lemma_lines_front(line, rest);
    let all = text::lines(line + seq!['\n'] + rest);
    assert(all[0] == text::chomp(line));
}

/// What begins a text that begins with what isn't white space, and goes on with something that
/// ends so too, is not trimmed away.
proof fn lemma_trimmed(front: Seq<char>, tail: Seq<char>) -> (m: int)
    requires
        front.len() > 0,
        !text::is_white(front[0]),
        !text::is_white(front.last()),
    ensures
        0 <= m <= tail.len(),
        text::trim(front + tail) == front + tail.take(m),
{
    let s = front + tail;
    let (from, to) = text_laws::law_trimming_takes_off_only_white_space(s);
    assert(s[0] == front[0]);
    assert(s[front.len() - 1] == front.last());
    assert(from == 0) by {
        if from > 0 {
            assert(text::is_white(s[0]));
        }
    }
    assert(to >= front.len()) by {
        if to < front.len() {
            assert(text::is_white(s[front.len() - 1]));
        }
    }
    let m = to - front.len();
    assert(s.subrange(0, to) =~= front + tail.take(m));
    m
}

/// The words of a text that begins with a word.
proof fn lemma_first_word(word: Seq<char>, tail: Seq<char>)
    requires
        word.len() > 0,
        text::lacks_white(word),
        tail.len() == 0 || text::is_white(tail[0]),
    ensures
        text::words(word + tail).len() > 0,
        text::words(word + tail)[0] == word,
        tail.len() > 0 ==> text::words(word + tail) == seq![word] + text::words(tail.skip(1)),
        tail.len() == 0 ==> text::words(word + tail) == seq![word],
{
    text_laws::law_a_word_is_one_word(word);
    if tail.len() == 0 {
        assert(word + tail =~= word);
    } else {
        assert(word + tail =~= word + seq![tail[0]] + tail.skip(1));
        text_laws::law_white_space_parts_words(word, tail[0], tail.skip(1));
    }
}

/// The version of FFmpeg is the word behind `ffmpeg version `, whatever follows it.
#[verifier::rlimit(40)]
pub proof fn law_the_version_of_ffmpeg_follows_its_name(
    version: Seq<char>,
    tail: Seq<char>,
    rest: Seq<char>,
)
    requires
        version.len() > 0,
        forall|i: int| 0 <= i < version.len() ==> !text::is_white(#[trigger] version[i]),
        tail.len() == 0 || text::is_white(tail[0]),
        forall|i: int| 0 <= i < tail.len() ==> #[trigger] tail[i] != '\n',
    ensures
        super::version_in(
            Component::Ffmpeg,
            "ffmpeg version "@ + version + tail + seq!['\n'] + rest,
        ) == Some(version),
{
    reveal_strlit("ffmpeg version ");
    let p = "ffmpeg version "@;
    let line = p + version + tail;
    assert forall|i: int| 0 <= i < line.len() implies #[trigger] line[i] != '\n' by {
        if i < p.len() {
            assert(line[i] == p[i]);
        } else if i < p.len() + version.len() {
            assert(line[i] == version[i - p.len()]);
        } else {
            assert(line[i] == tail[i - p.len() - version.len()]);
        }
    }
    text::lemma_lines_front(line, rest);
    let all = text::lines(line + seq!['\n'] + rest);
    let first = text::chomp(line);
    assert(all[0] == first);
    let short = if tail.len() > 0 && tail.last() == '\r' {
        tail.drop_last()
    } else {
        tail
    };
    assert(line.last() == if tail.len() > 0 {
        tail.last()
    } else {
        version.last()
    });
    assert(!text::is_white(version.last())) by {
        assert(!text::is_white(version[version.len() - 1]));
    }
    assert(first =~= p + version + short);
    let front = p + version;
    assert(front[0] == 'f');
    assert(front.last() == version.last());
    let m = lemma_trimmed(front, short);
    let trimmed = text::trim(first);
    assert(trimmed.take(p.len() as int) =~= p);
    assert(trimmed.skip(p.len() as int) =~= version + short.take(m));
    assert(short.take(m).len() > 0 ==> short.take(m)[0] == tail[0]);
    lemma_first_word(version, short.take(m));
}

/// FFmpeg has no version where its first line begins otherwise.
pub proof fn law_ffmpeg_without_its_name_has_no_version(output: Seq<char>)
    requires
        text::lines(output).len() == 0 || ({
            let first = text::trim(text::lines(output)[0]);
            first.len() < 15 || first.take(15) != "ffmpeg version "@
        }),
    ensures
        super::version_in(Component::Ffmpeg, output) is None,
{
    reveal_strlit("ffmpeg version ");
}

/// The version of Deno is the second word of its first line, whatever the first one is and whatever
/// follows.
#[verifier::rlimit(40)]
pub proof fn law_the_version_of_deno_is_the_second_word(
    name: Seq<char>,
    white: char,
    version: Seq<char>,
    tail: Seq<char>,
    rest: Seq<char>,
)
    requires
        name.len() > 0,
        forall|i: int| 0 <= i < name.len() ==> !text::is_white(#[trigger] name[i]),
        text::is_white(white),
        white != '\n',
        version.len() > 0,
        forall|i: int| 0 <= i < version.len() ==> !text::is_white(#[trigger] version[i]),
        tail.len() == 0 || text::is_white(tail[0]),
        forall|i: int| 0 <= i < tail.len() ==> #[trigger] tail[i] != '\n',
    ensures
        super::version_in(
            Component::Deno,
            name + seq![white] + version + tail + seq!['\n'] + rest,
        ) == Some(version),
        super::version_in(Component::Deno, name + seq!['\n'] + rest) is None,
{
    let front = name + seq![white] + version;
    let line = front + tail;
    assert forall|i: int| 0 <= i < line.len() implies #[trigger] line[i] != '\n' by {
        if i < name.len() {
            assert(line[i] == name[i]);
        } else if i == name.len() {
            assert(line[i] == white);
        } else if i < front.len() {
            assert(line[i] == version[i - name.len() - 1]);
        } else {
            assert(line[i] == tail[i - front.len()]);
        }
    }
    text::lemma_lines_front(line, rest);
    let all = text::lines(line + seq!['\n'] + rest);
    let first = text::chomp(line);
    assert(all[0] == first);
    let short = if tail.len() > 0 && tail.last() == '\r' {
        tail.drop_last()
    } else {
        tail
    };
    assert(!text::is_white(version.last())) by {
        assert(!text::is_white(version[version.len() - 1]));
    }
    assert(line.last() == if tail.len() > 0 {
        tail.last()
    } else {
        version.last()
    });
    assert(first =~= front + short);
    assert(front[0] == name[0]);
    assert(front.last() == version.last());
    let m = lemma_trimmed(front, short);
    let cut = short.take(m);
    assert(cut.len() > 0 ==> cut[0] == tail[0]);
    lemma_first_word(version, cut);
    assert(front + cut =~= name + seq![white] + (version + cut));
    text_laws::law_white_space_parts_words(name, white, version + cut);
    text_laws::law_a_word_is_one_word(name);
    assert(text::words(text::trim(first))[1] == version);

    assert forall|i: int| 0 <= i < name.len() implies #[trigger] name[i] != '\n' by {
        assert(!text::is_white(name[i]));
    }
    text::lemma_lines_front(name, rest);
    let only = text::lines(name + seq!['\n'] + rest);
    assert(!text::is_white(name[name.len() - 1]));
    assert(only[0] == name);
    let none = Seq::<char>::empty();
    let k = lemma_trimmed(name, none);
    assert(name + none =~= name);
    assert(name + none.take(k) =~= name);
    assert(text::words(name).len() == 1);
}

/// Every error says what it was given to say, and an unsupported platform which ones are supported.
pub proof fn law_an_error_says_what_went_wrong(m: Seq<char>)
    ensures
        super::error_text(Error::Io(m)) == m,
        super::error_text(Error::Download(m)) == m,
        super::error_text(Error::Checksum(m)) == m,
        super::error_text(Error::Archive(m)) == m,
        super::error_text(Error::<Seq<char>>::Unsupported)
            == "This platform isn't supported (only Linux and Windows on x86_64)."@,
{
}

/// A fingerprint is told by its last 16 digits in upper case, in groups of four with a space
/// between each two.
#[verifier::rlimit(40)]
pub proof fn law_a_fingerprint_is_told_in_groups_of_four(
    fingerprint: Seq<char>,
    group: int,
    at: int,
)
    requires
        fingerprint.len() >= 16,
        0 <= group < 4,
        0 <= at < 4,
    ensures
        ({
            let told = super::grouped(fingerprint);
            let n = fingerprint.len();
            &&& told.len() == 19
            &&& told[5 * group + at] == text::upper(fingerprint[n - 16 + 4 * group + at])
            &&& group < 3 ==> told[5 * group + 4] == ' '
        }),
{
    reveal_strlit(" ");
    let big = super::uppercase(super::tail16(fingerprint));
    let n = fingerprint.len();
    assert(big.len() == 16);
    assert forall|i: int| 0 <= i < 16 implies big[i] == text::upper(fingerprint[n - 16 + i]) by {}
    let a = big.subrange(0, 4);
    let b = big.subrange(4, 8);
    let c = big.subrange(8, 12);
    let d = big.subrange(12, 16);
    reveal_with_fuel(super::fours, 5);
    let parts = super::fours(big);
    assert(big.take(4) =~= a);
    assert(big.skip(4).take(4) =~= b);
    assert(big.skip(4).skip(4).take(4) =~= c);
    assert(big.skip(4).skip(4).skip(4) =~= d);
    assert(parts =~= seq![a, b, c, d]);
    let sep = " "@;
    reveal_with_fuel(text::join, 5);
    assert(parts.drop_last() =~= seq![a, b, c]);
    assert(parts.drop_last().drop_last() =~= seq![a, b]);
    assert(parts.drop_last().drop_last().drop_last() =~= seq![a]);
    let told = super::grouped(fingerprint);
    assert(told == a + sep + b + sep + c + sep + d);
    assert(sep.len() == 1 && sep[0] == ' ');
}

/// A short fingerprint of up to four digits is told as it is, in upper case.
pub proof fn law_a_short_fingerprint_is_told_whole(fingerprint: Seq<char>)
    requires
        0 < fingerprint.len() <= 4,
    ensures
        super::grouped(fingerprint) == fingerprint.map_values(|c: char| text::upper(c)),
{
    let big = super::uppercase(super::tail16(fingerprint));
    assert(super::fours(big) == seq![big]);
    assert(big =~= fingerprint.map_values(|c: char| text::upper(c)));
}

/// A file in `bin/` is a leftover exactly when its name begins like that of a download or of a
/// half-written program.
pub proof fn law_leftovers_are_told_by_their_names(name: Seq<char>)
    ensures
        super::is_leftover(name) <==> {
            ||| name.len() >= 10 && name.take(10) == ".download-"@
            ||| name.len() >= 5 && name.take(5) == ".tmp-"@
        },
{
    reveal_strlit(".download-");
    reveal_strlit(".tmp-");
}

// ---------------------------------------------------------------------------
// Where everything lives
// ---------------------------------------------------------------------------

/// On Unix a name is put behind a folder with one slash between the two, also where the folder ends
/// in one. A name from the root stands for itself.
pub proof fn law_a_name_is_put_behind_a_folder(base: Seq<char>, name: Seq<char>)
    ensures
        ({
            let r = paths::joined_path(Platform::Unix, base, name);
            &&& name.len() > 0 && name[0] == '/' ==> r == name
            &&& !(name.len() > 0 && name[0] == '/') ==> {
                &&& base.len() == 0 ==> r == name
                &&& base.len() > 0 && base.last() == '/' ==> r == base + name
                &&& base.len() > 0 && base.last() != '/' ==> r == base + seq!['/'] + name
            }
        }),
{
    reveal_strlit("/");
    assert("/"@ =~= seq!['/']);
    if base.len() == 0 {
        assert(base + name =~= name);
    }
}

/// On Windows a name is put behind a folder with one backslash between the two, but for one that
/// ends in a separator or is just a drive.
pub proof fn law_a_name_is_put_behind_a_windows_folder(base: Seq<char>, name: Seq<char>)
    requires
        base.len() < 4 || base.take(4) != seq!['\\', '\\', '?', '\\'],
        base.len() > 0,
    ensures
        ({
            let r = paths::joined_path(Platform::Windows, base, name);
            let drive = base.len() == 2 && base[1] == ':' && ('a' <= base[0] <= 'z' || 'A'
                <= base[0] <= 'Z');
            if base.last() == '\\' || base.last() == '/' || drive {
                r == base + name
            } else {
                r == base + seq!['\\'] + name
            }
        }),
{
    reveal_strlit(r"\\?\");
    reveal_strlit(r"\");
    assert(r"\\?\"@ =~= seq!['\\', '\\', '?', '\\']);
    assert(r"\"@ =~= seq!['\\']);
}

/// A Windows folder in the extended length form stays in it: the name comes behind one backslash.
pub proof fn law_a_name_is_put_behind_an_extended_folder(
    parts: Seq<Seq<char>>,
    name: Seq<char>,
)
    requires
        parts.len() >= 2,
        forall|i: int|
            0 <= i < parts.len() ==> (#[trigger] parts[i]).len() > 0 && text::lacks(
                parts[i],
                '\\',
            ),
    ensures
        ({
            let base = r"\\?\"@ + text::join(parts, seq!['\\']);
            paths::joined_path(Platform::Windows, base, name) == base + seq!['\\'] + name
        }),
{
    reveal_strlit(r"\\?\");
    let p = r"\\?\"@;
    let sep = seq!['\\'];
    let base = p + text::join(parts, sep);
    assert(base.take(4) =~= p);
    assert(base.skip(4) =~= text::join(parts, sep));
    text::lemma_fields_of_joined(parts, '\\');
    assert(paths::extended_parts(base) == parts);
    let n = paths::root_parts(parts);
    let rest = parts.skip(n);
    assert forall|i: int| 0 <= i < rest.len() implies paths::filled()(#[trigger] rest[i]) by {
        assert(rest[i] == parts[i + n]);
    }
    lemma_all_kept(rest, paths::filled());
    let all = paths::extended_join(parts, name);
    assert(all =~= parts.push(name));
    assert(all.drop_last() =~= parts);
    assert(text::join(all, sep) == text::join(parts, sep) + sep + name);
    assert(paths::joined_path(Platform::Windows, base, name) =~= base + sep + name);
}

/// Behind a Windows folder in the extended length form no empty part stays, but for where it
/// starts: at its drive, or at the server of a network share.
pub proof fn law_an_extended_folder_has_no_empty_parts(parts: Seq<Seq<char>>, name: Seq<char>)
    requires
        parts.len() > 0,
        forall|i: int| 0 <= i < parts.len() ==> text::lacks(#[trigger] parts[i], '\\'),
    ensures
        ({
            let root: int = if parts.len() >= 2 && parts[0] == seq!['U', 'N', 'C'] {
                2
            } else {
                1
            };
            let kept = seqs::positions(
                parts.len(),
                |k: int| k < root || parts[k].len() > 0,
            ).map_values(|k: int| parts[k]);
            paths::joined_path(
                Platform::Windows,
                r"\\?\"@ + text::join(parts, seq!['\\']),
                name,
            ) == r"\\?\"@ + text::join(kept.push(name), seq!['\\'])
        }),
{
    reveal_strlit(r"\\?\");
    reveal_strlit("UNC");
    assert("UNC"@ =~= seq!['U', 'N', 'C']);
    let p = r"\\?\"@;
    let sep = seq!['\\'];
    let base = p + text::join(parts, sep);
    assert(base.take(4) =~= p);
    assert(base.skip(4) =~= text::join(parts, sep));
    text::lemma_fields_of_joined(parts, '\\');
    assert(paths::extended_parts(base) == parts);
    let root = paths::root_parts(parts);
    lemma_filled_behind(parts, root, parts.len() as int);
    assert(parts.take(parts.len() as int) =~= parts);
    let kept = seqs::positions(
        parts.len(),
        |k: int| k < root || parts[k].len() > 0,
    ).map_values(|k: int| parts[k]);
    assert(paths::extended_join(parts, name) =~= kept.push(name));
}

proof fn lemma_filled_behind(parts: Seq<Seq<char>>, root: int, n: int)
    requires
        1 <= root <= n <= parts.len(),
    ensures
        parts.take(root) + parts.take(n).skip(root).filter(paths::filled()) == seqs::positions(
            n as nat,
            |k: int| k < root || parts[k].len() > 0,
        ).map_values(|k: int| parts[k]),
    decreases n,
{
    let p = |k: int| k < root || parts[k].len() > 0;
    let keep = paths::filled();
    if n == root {
        lemma_first_positions(n as nat, p);
        assert(parts.take(n).skip(root) =~= Seq::<Seq<char>>::empty());
        assert(Seq::<Seq<char>>::empty().filter(keep) =~= Seq::<Seq<char>>::empty()) by {
            reveal(Seq::filter);
        }
        assert(seqs::positions(n as nat, p).map_values(|k: int| parts[k]) =~= parts.take(root));
    } else {
        lemma_filled_behind(parts, root, n - 1);
        seqs::lemma_positions_push((n - 1) as nat, p);
        let before = parts.take(n - 1).skip(root);
        let last = parts[n - 1];
        assert(parts.take(n).skip(root) =~= before.push(last));
        seqs::lemma_filter_push(before, last, keep);
        let front = parts.take(root);
        let early = seqs::positions((n - 1) as nat, p);
        let now = seqs::positions(n as nat, p);
        let part = |k: int| parts[k];
        assert(front + before.filter(keep) == early.map_values(part));
        if last.len() > 0 {
            assert(keep(last) && p(n - 1));
            assert(now =~= early.push(n - 1));
            assert(now.map_values(part) =~= early.map_values(part).push(last));
            assert(front + before.filter(keep).push(last) =~= (front + before.filter(keep)).push(
                last,
            ));
        } else {
            assert(!keep(last) && !p(n - 1));
            assert(now =~= early);
        }
    }
}

proof fn lemma_first_positions(n: nat, p: spec_fn(int) -> bool)
    requires
        forall|k: int| 0 <= k < n ==> #[trigger] p(k),
    ensures
        seqs::positions(n, p) == Seq::new(n, |k: int| k),
    decreases n,
{
    if n == 0 {
        seqs::lemma_positions(0, p);
    } else {
        let m = (n - 1) as nat;
        lemma_first_positions(m, p);
        seqs::lemma_positions_push(m, p);
    }
    assert(seqs::positions(n, p) =~= Seq::new(n, |k: int| k));
}

proof fn lemma_all_kept(s: Seq<Seq<char>>, keep: spec_fn(Seq<char>) -> bool)
    requires
        forall|i: int| 0 <= i < s.len() ==> keep(#[trigger] s[i]),
    ensures
        s.filter(keep) == s,
    decreases s.len(),
{
    reveal(Seq::filter);
    if s.len() > 0 {
        let rest = s.drop_last();
        assert forall|i: int| 0 <= i < rest.len() implies keep(#[trigger] rest[i]) by {
            assert(rest[i] == s[i]);
        }
        lemma_all_kept(rest, keep);
        assert(keep(s[s.len() - 1]));
    }
    assert(s.filter(keep) =~= s);
}

/// Files can be put behind every folder, but for one in the extended length form with a part that
/// means nothing there.
pub proof fn law_files_can_be_put_behind_nearly_every_folder(
    base: Seq<char>,
    parts: Seq<Seq<char>>,
)
    requires
        parts.len() > 0,
        forall|i: int| 0 <= i < parts.len() ==> text::lacks(#[trigger] parts[i], '\\'),
    ensures
        paths::is_base(Platform::Unix, base),
        base.len() < 4 || base.take(4) != seq!['\\', '\\', '?', '\\'] ==> paths::is_base(
            Platform::Windows,
            base,
        ),
        paths::is_base(
            Platform::Windows,
            seq!['\\', '\\', '?', '\\'] + text::join(parts, seq!['\\']),
        ) <==> forall|i: int|
            0 <= i < parts.len() ==> {
                &&& text::lacks(#[trigger] parts[i], '/')
                &&& parts[i] != seq!['.']
                &&& parts[i] != seq!['.', '.']
            },
{
    reveal_strlit(r"\\?\");
    reveal_strlit(".");
    reveal_strlit("..");
    let form = seq!['\\', '\\', '?', '\\'];
    let sep = seq!['\\'];
    assert(r"\\?\"@ =~= form);
    assert("."@ =~= seq!['.']);
    assert(".."@ =~= seq!['.', '.']);
    let all = form + text::join(parts, sep);
    assert(all.take(4) =~= form);
    assert(all.skip(4) =~= text::join(parts, sep));
    text::lemma_fields_of_joined(parts, '\\');
    assert(paths::extended_parts(all) == parts);
    let whole = text::join(parts, sep);
    if forall|i: int| 0 <= i < parts.len() ==> text::lacks(#[trigger] parts[i], '/') {
        text::lemma_join_lacks(parts, sep, '/');
        assert forall|i: int| 0 <= i < all.len() implies #[trigger] all[i] != '/' by {
            if i >= 4 {
                assert(all[i] == whole[i - 4]);
            }
        }
    }
    if text::lacks(all, '/') {
        assert forall|i: int| 0 <= i < whole.len() implies #[trigger] whole[i] != '/' by {
            assert(all[i + 4] == whole[i]);
        }
        text::lemma_fields_lack(whole, '\\', '/');
    }
}

/// A program is in `bin/` under its own name, which ends in `.exe` on Windows.
pub proof fn law_a_program_is_in_bin_under_its_name(paths: Paths, name: Seq<char>)
    ensures
        paths.platform is Unix ==> paths.tool_path(name) == paths::joined_path(
            Platform::Unix,
            paths.bin_dir@,
            name,
        ),
        paths.platform is Windows ==> paths.tool_path(name) == paths::joined_path(
            Platform::Windows,
            paths.bin_dir@,
            name + seq!['.', 'e', 'x', 'e'],
        ),
{
    reveal_strlit(".exe");
    assert(".exe"@ =~= seq!['.', 'e', 'x', 'e']);
    assert(name + Seq::empty() =~= name);
}

/// A path without the extended length form in front: a network share begins with two backslashes
/// again, anything else with what follows the form, and what isn't in it stays as it is.
pub proof fn law_a_plain_path_is_the_same_path(rest: Seq<char>)
    ensures
        paths::plain_form(seq!['\\', '\\', '?', '\\', 'U', 'N', 'C', '\\'] + rest) == seq![
            '\\',
            '\\',
        ] + rest,
        rest.len() < 4 || rest.take(4) != seq!['U', 'N', 'C', '\\'] ==> paths::plain_form(
            seq!['\\', '\\', '?', '\\'] + rest,
        ) == rest,
        rest.len() < 4 || rest.take(4) != seq!['\\', '\\', '?', '\\'] ==> paths::plain_form(rest)
            == rest,
{
    reveal_strlit(r"\\?\UNC\");
    reveal_strlit(r"\\?\");
    reveal_strlit(r"\\");
    let form = seq!['\\', '\\', '?', '\\'];
    let unc = seq!['\\', '\\', '?', '\\', 'U', 'N', 'C', '\\'];
    assert(r"\\?\UNC\"@ =~= unc);
    assert(r"\\?\"@ =~= form);
    assert(r"\\"@ =~= seq!['\\', '\\']);
    let share = unc + rest;
    assert(share.take(8) =~= unc);
    assert(share.skip(8) =~= rest);
    let path = form + rest;
    assert(path.take(4) =~= form);
    assert(path.skip(4) =~= rest);
    if text::begins(path, unc) {
        assert(rest.take(4) =~= seq!['U', 'N', 'C', '\\']) by {
            assert forall|i: int| 0 <= i < 4 implies rest[i] == unc[i + 4] by {
                assert(path.take(8)[i + 4] == unc[i + 4]);
            }
        }
    }
    if text::begins(rest, unc) {
        assert(rest.take(4) =~= rest.take(8).take(4));
        assert(unc.take(4) =~= form);
    }
}

/// Everything lives in the folder that is given or else in that of the program, and the tools in
/// `bin` inside it. Where neither is known, that is said.
pub proof fn law_everything_lives_next_to_the_program(
    overridden: Option<String>,
    parent: Result<Option<String>, String>,
    platform: Platform,
    r: Result<Paths, String>,
)
    requires
        call_ensures(Paths::for_current_exe, (overridden, parent, platform), r),
    ensures
        ({
            let dir = if overridden is Some {
                overridden
            } else if parent is Ok {
                parent->Ok_0
            } else {
                None
            };
            &&& r is Ok <==> dir is Some
            &&& r is Ok ==> {
                &&& r->Ok_0.app_dir == dir->0
                &&& r->Ok_0.platform == platform
                &&& r->Ok_0.bin_dir@ == paths::joined_path(platform, dir->0@, "bin"@)
            }
            &&& r is Err && parent is Err ==> r->Err_0 == parent->Err_0
            &&& r is Err && parent is Ok ==> r->Err_0@ == "executable has no parent directory"@
        }),
{
}

/// What was installed is recorded in a file of `bin/`, and whether the folder can be written to is
/// tried with a file of its own for each process.
pub proof fn law_the_files_next_to_the_tools(
    paths: Paths,
    process_id: u32,
    record: String,
    probe: String,
)
    requires
        call_ensures(Paths::state_file, (&paths,), record),
        call_ensures(super::write_probe, (&paths, process_id), probe),
    ensures
        record@ == paths::joined_path(paths.platform, paths.bin_dir@, ".install_state"@),
        probe@ == paths::joined_path(
            paths.platform,
            paths.app_dir@,
            ".write-test-"@ + text::decimal(process_id as nat),
        ),
{
}

/// What a run printed counts when it ended well, and only then.
pub proof fn law_only_a_run_that_ended_well_counts(
    result: Result<Output, RunError>,
    r: Option<String>,
)
    requires
        call_ensures(super::run_for_output, (result,), r),
    ensures
        r is Some <==> result is Ok && result->Ok_0.success,
        r is Some ==> r->0 == result->Ok_0.stdout,
{
}

/// Of the files in `bin/` exactly the leftovers are removed.
pub proof fn law_exactly_the_leftovers_are_removed(names: Vec<String>, r: Vec<String>)
    requires
        call_ensures(super::clean_leftovers, (&names,), r),
    ensures
        text::texts(r@) == seqs::positions(
            names@.len(),
            |k: int|
                {
                    let name = names@[k]@;
                    ||| name.len() >= 10 && name.take(10) == ".download-"@
                    ||| name.len() >= 5 && name.take(5) == ".tmp-"@
                },
        ).map_values(|k: int| names@[k]@),
{
    let all = text::texts(names@);
    let keep = |name: Seq<char>| super::is_leftover(name);
    let p = |k: int|
        {
            let name = names@[k]@;
            ||| name.len() >= 10 && name.take(10) == ".download-"@
            ||| name.len() >= 5 && name.take(5) == ".tmp-"@
        };
    seqs::lemma_filter_positions(all, keep);
    assert forall|k: int| 0 <= k < all.len() implies keep(all[k]) == #[trigger] p(k) by {
        law_leftovers_are_told_by_their_names(all[k]);
    }
    seqs::lemma_same_positions(all.len(), |k: int| keep(all[k]), p);
    seqs::lemma_positions(all.len(), p);
    let at = seqs::positions(all.len(), p);
    assert(at.map_values(|k: int| all[k]) =~= at.map_values(|k: int| names@[k]@));
}

// ---------------------------------------------------------------------------
// How old yt-dlp is
// ---------------------------------------------------------------------------

/// The months have the days they have in the Gregorian calendar.
pub proof fn law_the_months_have_their_days(year: int)
    ensures
        year % 400 == 0 ==> age::month_length(year, 2) == 29,
        year % 400 != 0 && year % 100 == 0 ==> age::month_length(year, 2) == 28,
        year % 100 != 0 && year % 4 == 0 ==> age::month_length(year, 2) == 29,
        year % 4 != 0 ==> age::month_length(year, 2) == 28,
        age::month_length(year, 1) == 31,
        age::month_length(year, 3) == 31,
        age::month_length(year, 4) == 30,
        age::month_length(year, 5) == 31,
        age::month_length(year, 6) == 30,
        age::month_length(year, 7) == 31,
        age::month_length(year, 8) == 31,
        age::month_length(year, 9) == 30,
        age::month_length(year, 10) == 31,
        age::month_length(year, 11) == 30,
        age::month_length(year, 12) == 31,
{
}

/// Days are counted one by one behind a date, also past the end of its month.
pub proof fn law_days_are_counted_on(year: int, month: int, day: int, more: int)
    ensures
        age::day_number(year, month, day + more) == age::day_number(year, month, day) + more,
{
}

/// The build day of a version is the date it begins with, written with points; what follows that
/// does not matter. A date that is none, or before 2000, is no build day, and neither is anything
/// that isn't written in numbers.
pub proof fn law_a_version_is_a_build_date(parts: Seq<Seq<char>>)
    requires
        parts.len() > 0,
        forall|i: int| 0 <= i < parts.len() ==> text::lacks(#[trigger] parts[i], '.'),
    ensures
        ({
            let day = age::build_day(text::join(parts, seq!['.']));
            let y = text::number(parts[0]);
            let m = text::number(parts[1]);
            let d = text::number(parts[2]);
            let written = parts.len() >= 3 && y is Some && m is Some && d is Some;
            let date = 2000 <= y->0 <= 9999 && 1 <= m->0 <= 12 && 1 <= d->0 <= age::month_length(
                y->0,
                m->0,
            );
            &&& day is Some <==> written && date
            &&& day is Some ==> day->0 == age::day_number(y->0, m->0, d->0)
        }),
{
    text::lemma_fields_of_joined(parts, '.');
}

/// The age of a build is the days since then, and 0 where the clock is behind it.
pub proof fn law_the_age_of_a_build_is_the_days_since(built: int, days: nat)
    ensures
        age::age(built, built + days) == days,
        age::age(built, built - days) == 0,
{
}

/// Today is counted in whole days of 86400 seconds, and a clock before 1970 counts as its first day.
pub proof fn law_a_day_has_its_seconds(days: u64, seconds: u64, now: u64, r: i64, none: i64)
    requires
        seconds < 86_400,
        now == days * 86_400 + seconds,
        call_ensures(age::today, (Some(now),), r),
        call_ensures(age::today, (None,), none),
    ensures
        r == days,
        none == 0,
{
}

// ---------------------------------------------------------------------------
// What is recorded
// ---------------------------------------------------------------------------

proof fn lemma_first_recorded(lines: Seq<Seq<char>>, key: Seq<char>, k: int)
    requires
        0 <= k <= lines.len(),
        forall|j: int| 0 <= j < k ==> state::recorded(#[trigger] lines[j], key) is None,
        k < lines.len() ==> state::recorded(lines[k], key) is Some,
    ensures
        state::first_recorded(lines, key) == (if k < lines.len() {
            state::recorded(lines[k], key)
        } else {
            None
        }),
    decreases k,
{
    if k > 0 {
        assert(state::recorded(lines[0], key) is None);
        let rest = lines.drop_first();
        assert forall|j: int| 0 <= j < k - 1 implies state::recorded(#[trigger] rest[j], key)
            is None by {
            assert(rest[j] == lines[j + 1]);
        }
        lemma_first_recorded(rest, key, k - 1);
    }
}

/// What is recorded for a key is what follows the key and an equals sign on the first line that
/// begins so, when that is anything.
pub proof fn law_the_first_record_of_a_key_counts(
    file: Seq<char>,
    key: Seq<char>,
    value: Seq<char>,
    k: int,
)
    requires
        0 <= k < text::lines(file).len(),
        text::lines(file)[k] == key + seq!['='] + value,
        forall|j: int|
            0 <= j < k ==> {
                let line = #[trigger] text::lines(file)[j];
                line.len() <= key.len() || line.take(key.len() as int + 1) != key + seq!['=']
            },
    ensures
        value.len() > 0 ==> state::state_value(file, key) == Some(value),
        value.len() == 0 ==> state::state_value(file, key) is None,
{
    let lines = text::lines(file);
    assert forall|j: int| 0 <= j < k implies state::recorded(#[trigger] lines[j], key) is None by {
        lemma_recorded_begins(lines[j], key);
    }
    let line = lines[k];
    assert(line.take(key.len() as int) =~= key);
    let rest = line.skip(key.len() as int);
    assert(rest =~= seq!['='] + value);
    assert(rest.take(1) =~= seq!['=']);
    assert(rest.skip(1) =~= value);
    lemma_first_recorded(lines, key, k);
}

/// Nothing is recorded for a key that no line begins with.
pub proof fn law_nothing_is_recorded_without_a_record(file: Seq<char>, key: Seq<char>)
    requires
        forall|j: int|
            0 <= j < text::lines(file).len() ==> {
                let line = #[trigger] text::lines(file)[j];
                line.len() <= key.len() || line.take(key.len() as int + 1) != key + seq!['=']
            },
    ensures
        state::state_value(file, key) is None,
{
    let lines = text::lines(file);
    assert forall|j: int| 0 <= j < lines.len() implies state::recorded(#[trigger] lines[j], key)
        is None by {
        lemma_recorded_begins(lines[j], key);
    }
    lemma_first_recorded(lines, key, lines.len() as int);
}

proof fn lemma_recorded_begins(line: Seq<char>, key: Seq<char>)
    ensures
        state::recorded(line, key) is Some ==> line.len() > key.len() && line.take(
            key.len() as int + 1,
        ) == key + seq!['='],
{
    if state::recorded(line, key) is Some {
        let n = key.len() as int;
        let rest = line.skip(n);
        assert(rest.take(1)[0] == '=');
        assert(line.take(n + 1) =~= key + seq!['=']) by {
            assert forall|i: int| 0 <= i < n implies line[i] == key[i] by {
                assert(line.take(n)[i] == key[i]);
            }
        }
    }
}

proof fn lemma_belongs_begins(line: Seq<char>, key: Seq<char>)
    ensures
        state::key_of(line) == Some(key) ==> line.len() > key.len() && line.take(
            key.len() as int + 1,
        ) == key + seq!['='],
{
    text::lemma_lead_props(line, text::other_than('='));
    if state::key_of(line) == Some(key) {
        let n = text::lead(line, text::other_than('=')) as int;
        assert(line[n] == '=');
        assert(line.take(n) == key);
        assert(line.take(n + 1) =~= key + seq!['=']);
    }
}

proof fn lemma_lines_are_parts(parts: Seq<Seq<char>>)
    requires
        forall|i: int|
            0 <= i < parts.len() ==> text::lacks(#[trigger] parts[i], '\n') && text::chomp(
                parts[i],
            ) == parts[i],
    ensures
        parts.len() > 0 ==> text::lines(text::join(parts, seq!['\n']) + seq!['\n']) == parts,
        text::lines(Seq::empty()) == Seq::<Seq<char>>::empty(),
{
    reveal_strlit("\n");
    assert("\n"@ =~= seq!['\n']);
    if parts.len() > 0 {
        text::lemma_lines_of_joined(parts);
        assert(parts.map_values(|p: Seq<char>| text::chomp(p)) =~= parts);
    }
}

/// Writing a key that no line has adds one line to the end of the file and changes nothing before
/// it.
#[verifier::rlimit(40)]
pub proof fn law_a_new_record_is_added_at_the_end(
    parts: Seq<Seq<char>>,
    key: Seq<char>,
    value: Seq<char>,
)
    requires
        forall|i: int|
            0 <= i < parts.len() ==> {
                &&& text::lacks(#[trigger] parts[i], '\n')
                &&& text::chomp(parts[i]) == parts[i]
                &&& parts[i].len() < key.len() + 1 || parts[i].take(key.len() as int + 1) != key
                    + seq!['=']
            },
        text::lacks(key, '='),
    ensures
        ({
            let file = if parts.len() == 0 {
                Seq::empty()
            } else {
                text::join(parts, seq!['\n']) + seq!['\n']
            };
            state::new_state(file, key, value) == file + key + seq!['='] + value + seq!['\n']
        }),
{
    let nl = seq!['\n'];
    let file = if parts.len() == 0 {
        Seq::empty()
    } else {
        text::join(parts, nl) + nl
    };
    lemma_lines_are_parts(parts);
    assert(text::lines(file) =~= parts);
    assert forall|i: int| 0 <= i < parts.len() implies state::stays(key)(#[trigger] parts[i]) by {
        lemma_belongs_begins(parts[i], key);
    }
    lemma_all_kept(parts, state::stays(key));
    lemma_new_state(file, parts, key, value);
    if parts.len() == 0 {
        assert(file + key + seq!['='] + value + nl =~= key + seq!['='] + value + nl);
    }
}

proof fn lemma_new_state(
    file: Seq<char>,
    parts: Seq<Seq<char>>,
    key: Seq<char>,
    value: Seq<char>,
)
    requires
        text::lines(file).filter(state::stays(key)) == parts,
    ensures
        parts.len() == 0 ==> state::new_state(file, key, value) == key + seq!['='] + value
            + seq!['\n'],
        parts.len() > 0 ==> state::new_state(file, key, value) == text::join(parts, seq!['\n'])
            + seq!['\n'] + key + seq!['='] + value + seq!['\n'],
{
    reveal_strlit("\n");
    reveal_strlit("=");
    let nl = seq!['\n'];
    assert("\n"@ =~= nl);
    assert("="@ =~= seq!['=']);
    let record = state::record(key, value);
    assert(record =~= key + seq!['='] + value);
    let all = parts.push(record);
    assert(state::new_lines(file, key, value) == all);
    assert(all.drop_last() =~= parts);
    if parts.len() > 0 {
        let front = text::join(parts, nl) + nl;
        assert(text::join(all, nl) == front + record);
        assert(front + record + nl =~= front + key + seq!['='] + value + nl);
    }
}

/// Writing a key again replaces what was recorded for it and keeps every other line, in its place
/// among them.
#[verifier::rlimit(40)]
pub proof fn law_other_lines_stay_in_their_order(
    file: Seq<char>,
    key: Seq<char>,
    value: Seq<char>,
)
    ensures
        ({
            let lines = text::lines(file);
            let others = seqs::positions(
                lines.len(),
                |k: int|
                    !exists|n: int|
                        0 <= n < lines[k].len() && #[trigger] lines[k][n] == '=' && lines[k].take(n)
                            == key && text::lacks(lines[k].take(n), '='),
            );
            state::new_state(file, key, value) == text::join(
                others.map_values(|k: int| lines[k]).push(key + "="@ + value),
                "\n"@,
            ) + "\n"@
        }),
{
    let lines = text::lines(file);
    let keep = state::stays(key);
    let p = |k: int|
        !exists|n: int|
            0 <= n < lines[k].len() && #[trigger] lines[k][n] == '=' && lines[k].take(n) == key
                && text::lacks(lines[k].take(n), '=');
    seqs::lemma_filter_positions(lines, keep);
    assert forall|k: int| 0 <= k < lines.len() implies keep(lines[k]) == #[trigger] p(k) by {
        let line = lines[k];
        let n = text::lead(line, text::other_than('=')) as int;
        text::lemma_lead_props(line, text::other_than('='));
        if state::key_of(line) == Some(key) {
            assert(line[n] == '=');
            assert forall|i: int| 0 <= i < n implies #[trigger] line.take(n)[i] != '=' by {
                assert(text::other_than('=')(line[i]));
            }
        }
        if !p(k) {
            let m = choose|m: int|
                0 <= m < line.len() && #[trigger] line[m] == '=' && line.take(m) == key
                    && text::lacks(line.take(m), '=');
            assert forall|i: int| 0 <= i < m implies text::other_than('=')(line[i]) by {
                assert(line.take(m)[i] != '=');
            }
            text::lemma_lead_is(line, text::other_than('='), m as nat);
        }
    }
    seqs::lemma_same_positions(lines.len(), |k: int| keep(lines[k]), p);
}

/// yt-dlp is worth updating after two weeks, and a lookup may take half a minute.
pub proof fn law_the_limits_of_time()
    ensures
        age::YTDLP_STALE_DAYS == 14,
        crate::metadata::TIMEOUT_SECONDS == 30,
{
}

} // verus!
