//! Where everything lives: all of it sits next to the executable.
use vstd::prelude::*;

use crate::{seqs, text};

verus! {

/// The two families of systems the application runs on.
#[derive(Debug, Clone, Copy, PartialEq, Eq, Structural)]
pub enum Platform {
    Unix,
    Windows,
}

/// What the name of a program ends with.
pub open spec fn suffix_of(platform: Platform) -> Seq<char> {
    match platform {
        Platform::Unix => Seq::empty(),
        Platform::Windows => ".exe"@,
    }
}

/// Whether `c` separates the parts of a path.
pub open spec fn is_separator(platform: Platform, c: char) -> bool {
    match platform {
        Platform::Unix => c == '/',
        Platform::Windows => c == '\\' || c == '/',
    }
}

/// Whether `base` is just a drive (`C:`), after which no separator is put.
pub open spec fn is_drive(base: Seq<char>) -> bool {
    base.len() == 2 && ('a' <= base[0] <= 'z' || 'A' <= base[0] <= 'Z') && base[1] == ':'
}

/// Whether `name` can be put behind a folder. On Windows this is asked of plain names only.
pub open spec fn can_join(platform: Platform, name: Seq<char>) -> bool {
    platform is Windows ==> forall|i: int|
        0 <= i < name.len() ==> #[trigger] name[i] != '\\' && name[i] != '/' && name[i] != ':'
            && name[i] != '?'
}

/// Whether `name` names a file or a folder: it is not empty, and not `.` or `..`. This is asked on
/// Windows only.
pub open spec fn is_name(platform: Platform, name: Seq<char>) -> bool {
    platform is Windows ==> name.len() > 0 && !is_dots(name)
}

/// Whether `part` is `.` or `..`.
pub open spec fn is_dots(part: Seq<char>) -> bool {
    part == "."@ || part == ".."@
}

/// Whether a Windows path is in the extended length form.
pub open spec fn is_extended(base: Seq<char>) -> bool {
    text::begins(base, r"\\?\"@)
}

/// The parts of a path in the extended length form, in which only `\` separates.
pub open spec fn extended_parts(base: Seq<char>) -> Seq<Seq<char>> {
    text::fields(base.skip(r"\\?\"@.len() as int), '\\')
}

/// Whether files can be put behind a folder. Every folder will do but for one in the extended
/// length form that holds a `/` or has `.` or `..` for a part, which have no meaning there.
pub open spec fn is_base(platform: Platform, base: Seq<char>) -> bool {
    platform is Windows && is_extended(base) ==> {
        &&& text::lacks(base, '/')
        &&& forall|i: int|
            0 <= i < extended_parts(base).len() ==> !is_dots(#[trigger] extended_parts(base)[i])
    }
}

/// Being a part that holds something.
pub open spec fn filled() -> spec_fn(Seq<char>) -> bool {
    |part: Seq<char>| part.len() > 0
}

/// How many parts of a path in the extended length form say where it starts: the `UNC` of a network
/// share and its server, or else the drive.
pub open spec fn root_parts(parts: Seq<Seq<char>>) -> int {
    if parts.len() >= 2 && parts[0] == "UNC"@ {
        2
    } else {
        1
    }
}

/// The parts of the path of `name` inside a folder in the extended length form: no part stays
/// empty behind the start.
pub open spec fn extended_join(parts: Seq<Seq<char>>, name: Seq<char>) -> Seq<Seq<char>> {
    parts.take(root_parts(parts)) + parts.skip(root_parts(parts)).filter(filled()).push(name)
}

/// The path of `name` inside `base`. On Unix an absolute `name` stands for itself.
pub open spec fn joined_path(platform: Platform, base: Seq<char>, name: Seq<char>) -> Seq<char> {
    if platform is Windows && is_extended(base) {
        r"\\?\"@ + text::join(extended_join(extended_parts(base), name), seq!['\\'])
    } else if platform is Unix && name.len() > 0 && name[0] == '/' {
        name
    } else if base.len() == 0 || is_separator(platform, base.last()) || (platform is Windows
        && is_drive(base)) {
        base + name
    } else if platform is Unix {
        base + "/"@ + name
    } else {
        base + r"\"@ + name
    }
}

/// The path of `name` inside `base`.
pub fn join_path(platform: Platform, base: &str, name: &str) -> (r: String)
    requires
        is_base(platform, base@),
        can_join(platform, name@),
        is_name(platform, name@),
    ensures
        r@ == joined_path(platform, base@, name@),
{
    let b: Vec<char> = text::chars_of(base);
    let n: Vec<char> = text::chars_of(name);
    match platform {
        Platform::Unix => {
            if n.len() > 0 && n[0] == '/' {
                name.to_owned()
            } else if b.len() == 0 || b[b.len() - 1] == '/' {
                text::concat2(base, name)
            } else {
                text::concat3(base, "/", name)
            }
        },
        Platform::Windows => {
            if let Some(rest) = text::strip_prefix(base, r"\\?\") {
                return join_extended(rest.as_str(), name);
            }
            let drive: bool = b.len() == 2 && (('a' <= b[0] && b[0] <= 'z') || ('A' <= b[0] && b[0]
                <= 'Z')) && b[1] == ':';
            if b.len() == 0 || b[b.len() - 1] == '\\' || b[b.len() - 1] == '/' || drive {
                text::concat2(base, name)
            } else {
                text::concat3(base, r"\", name)
            }
        },
    }
}

/// The path of `name` inside the folder in the extended length form that `rest` is behind its
/// beginning.
fn join_extended(rest: &str, name: &str) -> (r: String)
    ensures
        r@ == r"\\?\"@ + text::join(
            extended_join(text::fields(rest@, '\\'), name@),
            seq!['\\'],
        ),
{
    let parts: Vec<String> = text::split_fields(rest, '\\');
    let ghost all = text::texts(parts@);
    proof {
        assert(all.len() == parts@.len());
        text::lemma_some_field(rest@, '\\');
        assert(all[0] == parts@[0]@);
    }
    let root: usize = if parts.len() >= 2 && parts[0] == "UNC".to_owned() {
        2
    } else {
        1
    };
    let mut kept: Vec<String> = Vec::new();
    let mut i: usize = 0;
    while i < root
        invariant
            i <= root <= parts@.len(),
            all == text::texts(parts@),
            text::texts(kept@) == all.take(i as int),
        decreases root - i,
    {
        kept.push(parts[i].clone());
        proof {
            assert(text::texts(kept@) =~= all.take(i as int).push(all[i as int]));
            assert(all.take(i + 1) =~= all.take(i as int).push(all[i as int]));
        }
        i = i + 1;
    }
    let ghost start = all.take(root as int);
    proof {
        assert(all.skip(root as int).take(0).filter(filled()) =~= Seq::empty()) by {
            reveal(Seq::filter);
        }
        assert(text::texts(kept@) =~= start + all.skip(root as int).take(0).filter(filled()));
    }
    while i < parts.len()
        invariant
            root <= i <= parts@.len(),
            all == text::texts(parts@),
            start == all.take(root as int),
            text::texts(kept@) == start + all.skip(root as int).take(i - root).filter(filled()),
        decreases parts@.len() - i,
    {
        let ghost before = text::texts(kept@);
        let ghost done = all.skip(root as int).take(i - root);
        proof {
            assert(all.skip(root as int).take(i + 1 - root) =~= done.push(all[i as int]));
            seqs::lemma_filter_push(done, all[i as int], filled());
            assert(all[i as int] == parts@[i as int]@);
        }
        if !parts[i].as_str().is_empty() {
            kept.push(parts[i].clone());
            proof {
                assert(text::texts(kept@) =~= before.push(all[i as int]));
                assert(before.push(all[i as int]) =~= start + done.filter(filled()).push(
                    all[i as int],
                ));
            }
        }
        i = i + 1;
    }
    proof {
        assert(all.skip(root as int).take(i - root) =~= all.skip(root as int));
    }
    let ghost before = text::texts(kept@);
    kept.push(name.to_owned());
    proof {
        reveal_strlit(r"\");
        assert(r"\"@ =~= seq!['\\']);
        assert(text::texts(kept@) =~= before.push(name@));
        assert(before.push(name@) =~= extended_join(all, name@));
    }
    text::concat2(r"\\?\", text::joined(&kept, r"\").as_str())
}

/// Whether files can be put behind a folder.
pub fn can_hold_files(platform: Platform, dir: &str) -> (r: bool)
    ensures
        r == is_base(platform, dir@),
{
    if platform == Platform::Unix {
        return true;
    }
    match text::strip_prefix(dir, r"\\?\") {
        None => true,
        Some(rest) => {
            let v: Vec<char> = text::chars_of(dir);
            let mut i: usize = 0;
            while i < v.len()
                invariant
                    i <= v@.len(),
                    v@ == dir@,
                    platform is Windows && is_extended(dir@),
                    forall|j: int| 0 <= j < i ==> #[trigger] v@[j] != '/',
                decreases v@.len() - i,
            {
                if v[i] == '/' {
                    proof {
                        assert(dir@[i as int] == '/');
                    }
                    return false;
                }
                i = i + 1;
            }
            let parts: Vec<String> = text::split_fields(rest.as_str(), '\\');
            let ghost all = text::texts(parts@);
            let mut k: usize = 0;
            while k < parts.len()
                invariant
                    k <= parts@.len(),
                    all == text::texts(parts@),
                    all == extended_parts(dir@),
                    platform is Windows && is_extended(dir@),
                    forall|j: int| 0 <= j < k ==> !is_dots(#[trigger] all[j]),
                decreases parts@.len() - k,
            {
                proof {
                    assert(all[k as int] == parts@[k as int]@);
                }
                if parts[k] == ".".to_owned() || parts[k] == "..".to_owned() {
                    proof {
                        assert(is_dots(extended_parts(dir@)[k as int]));
                    }
                    return false;
                }
                k = k + 1;
            }
            true
        },
    }
}

/// Where everything lives. Portable: all of it sits next to the executable.
#[derive(Debug, PartialEq, Eq)]
pub struct Paths {
    pub app_dir: String,
    pub bin_dir: String,
    pub platform: Platform,
}

impl Clone for Paths {
    fn clone(&self) -> (r: Self)
        ensures
            r == *self,
    {
        Paths {
            app_dir: self.app_dir.clone(),
            bin_dir: self.bin_dir.clone(),
            platform: self.platform,
        }
    }
}

impl Paths {
    /// The folders are in a form that files can be put behind.
    pub open spec fn wf(self) -> bool {
        &&& is_base(self.platform, self.app_dir@)
        &&& is_base(self.platform, self.bin_dir@)
        &&& self.bin_dir@ == joined_path(self.platform, self.app_dir@, "bin"@)
    }

    pub fn new(app_dir: String, platform: Platform) -> (r: Self)
        requires
            is_base(platform, app_dir@),
        ensures
            r.wf(),
            r.app_dir == app_dir,
            r.platform == platform,
    {
        proof {
            reveal_strlit("bin");
            reveal_strlit(".");
            reveal_strlit("..");
            assert("bin"@.len() == 3 && "."@.len() == 1 && ".."@.len() == 2);
            lemma_join_keeps_base(platform, app_dir@, "bin"@);
        }
        let bin_dir: String = join_path(platform, app_dir.as_str(), "bin");
        Paths { app_dir, bin_dir, platform }
    }

    /// Where everything lives for the running executable: in `overridden` when that is given, and
    /// else in the folder of the executable, `parent`, when that is known and there is one.
    pub fn for_current_exe(
        overridden: Option<String>,
        parent: Result<Option<String>, String>,
        platform: Platform,
    ) -> (r: Result<Self, String>)
        requires
            overridden matches Some(dir) ==> is_base(platform, dir@),
            parent matches Ok(Some(dir)) ==> is_base(platform, dir@),
        ensures
            match (overridden, parent) {
                (Some(dir), _) => r matches Ok(paths) && paths.wf() && paths.app_dir == dir
                    && paths.platform == platform,
                (None, Err(e)) => r matches Err(said) && said == e,
                (None, Ok(None)) => r matches Err(said) && said@
                    == "executable has no parent directory"@,
                (None, Ok(Some(dir))) => r matches Ok(paths) && paths.wf() && paths.app_dir == dir
                    && paths.platform == platform,
            },
    {
        if let Some(dir) = overridden {
            return Ok(Paths::new(dir, platform));
        }
        match parent {
            Err(e) => Err(e),
            Ok(None) => Err("executable has no parent directory".to_owned()),
            Ok(Some(dir)) => Ok(Paths::new(dir, platform)),
        }
    }

    /// Where the program `name` is in `bin/`.
    pub open spec fn tool_path(self, name: Seq<char>) -> Seq<char> {
        joined_path(self.platform, self.bin_dir@, name + suffix_of(self.platform))
    }

    pub fn tool(&self, name: &str) -> (r: String)
        requires
            self.wf(),
            can_join(self.platform, name@),
        ensures
            r@ == self.tool_path(name@),
    {
        match self.platform {
            Platform::Unix => {
                proof {
                    assert(name@ + suffix_of(self.platform) == name@);
                }
                join_path(self.platform, self.bin_dir.as_str(), name)
            },
            Platform::Windows => {
                let file: String = text::concat2(name, ".exe");
                proof {
                    reveal_strlit(".exe");
                    reveal_strlit(".");
                    reveal_strlit("..");
                    assert(file@.len() >= 4);
                    assert forall|i: int| 0 <= i < file@.len() implies #[trigger] file@[i] != '\\'
                        && file@[i] != '/' && file@[i] != ':' && file@[i] != '?' by {
                        if i < name@.len() {
                            assert(file@[i] == name@[i]);
                        } else {
                            assert(file@[i] == ".exe"@[i - name@.len()]);
                        }
                    }
                }
                join_path(self.platform, self.bin_dir.as_str(), file.as_str())
            },
        }
    }

    /// The file that records what was installed.
    pub fn state_file(&self) -> (r: String)
        requires
            self.wf(),
        ensures
            r@ == joined_path(self.platform, self.bin_dir@, ".install_state"@),
    {
        proof {
            reveal_strlit(".install_state");
            reveal_strlit(".");
            reveal_strlit("..");
            assert(".install_state"@.len() > 2);
        }
        join_path(self.platform, self.bin_dir.as_str(), ".install_state")
    }
}

/// Putting a plain name behind a folder gives something that files can be put behind again.
pub proof fn lemma_join_keeps_base(platform: Platform, base: Seq<char>, name: Seq<char>)
    requires
        is_base(platform, base),
        can_join(platform, name),
        is_name(platform, name),
    ensures
        is_base(platform, joined_path(platform, base, name)),
{
    let whole = joined_path(platform, base, name);
    if platform is Windows && is_extended(whole) {
        reveal_strlit(r"\\?\");
        reveal_strlit(r"\");
        let p = r"\\?\"@;
        assert(text::lacks(name, '\\') && text::lacks(name, '/'));
        if is_extended(base) {
            lemma_extended_join(base, name);
        } else {
            assert forall|i: int| 0 <= i < 4 implies whole[i] == p[i] by {
                assert(whole.take(4)[i] == p[i]);
            }
            assert(whole[0] == '\\' && whole[1] == '\\' && whole[2] == '?' && whole[3] == '\\');
            if base.len() >= 4 {
                assert(base.take(4) =~= p) by {
                    assert forall|i: int| 0 <= i < 4 implies base[i] == p[i] by {
                        assert(whole[i] == base[i]);
                    }
                }
            } else if base.len() == 3 {
                assert(whole =~= p + name);
                assert(whole.skip(4) =~= name);
                text::lemma_lead_is(name, text::other_than('\\'), name.len());
            } else if base.len() == 2 {
                assert(whole[2] != '?');
            } else if base.len() == 1 {
                assert(whole[2] == name[1]);
            } else {
                assert(whole =~= name);
            }
        }
    }
}

/// Joining keeps the extended length form, with parts as they have to be.
proof fn lemma_extended_join(base: Seq<char>, name: Seq<char>)
    requires
        is_extended(base),
        is_base(Platform::Windows, base),
        text::lacks(name, '\\'),
        text::lacks(name, '/'),
        !is_dots(name),
    ensures
        is_base(Platform::Windows, joined_path(Platform::Windows, base, name)),
{
    reveal_strlit(r"\\?\");
    let p = r"\\?\"@;
    let whole = joined_path(Platform::Windows, base, name);
    let rest = base.skip(4);
    let parts = extended_parts(base);
    let joined = extended_join(parts, name);
    let sep = seq!['\\'];
    text::lemma_some_field(rest, '\\');
    text::lemma_fields_lack(rest, '\\', '\\');
    text::lemma_fields_lack(rest, '\\', '/');
    let root = root_parts(parts);
    let tail = parts.skip(root);
    seqs::lemma_kept(tail, filled());
    assert forall|i: int| 0 <= i < joined.len() implies text::lacks(#[trigger] joined[i], '\\')
        && text::lacks(joined[i], '/') && !is_dots(joined[i]) by {
        if i < root {
            assert(joined[i] == parts[i]);
        } else if i < joined.len() - 1 {
            let x = tail.filter(filled())[i - root];
            assert(joined[i] == x);
            let j = choose|j: int| 0 <= j < tail.len() && tail[j] == x;
            assert(parts[root + j] == x);
        } else {
            assert(joined[i] == name);
        }
    }
    text::lemma_fields_of_joined(joined, '\\');
    text::lemma_join_lacks(joined, sep, '/');
    assert(whole.skip(4) =~= text::join(joined, sep));
    assert forall|i: int| 0 <= i < whole.len() implies #[trigger] whole[i] != '/' by {
        if i < 4 {
            assert(whole[i] == p[i]);
        } else {
            assert(whole[i] == text::join(joined, sep)[i - 4]);
        }
    }
}

/// The path without the `\\?\` that Windows puts in front of a canonical one; the `\\?\UNC\` of a
/// network share becomes `\\`.
pub open spec fn plain_form(path: Seq<char>) -> Seq<char> {
    match text::after(path, r"\\?\UNC\"@) {
        Some(share) => r"\\"@ + share,
        None => match text::after(path, r"\\?\"@) {
            Some(rest) => rest,
            None => path,
        },
    }
}

/// Drops the `\\?\` that Windows' canonical form puts in front of a path.
///
/// It is a valid path, but it travels badly: it ends up in arguments and in the log, where it
/// confuses both yt-dlp's own path handling and the person reading. A network share comes as
/// `\\?\UNC\server\share` and has to become `\\server\share`: dropping only the prefix would leave
/// a relative path.
pub fn plain_path(path: String) -> (r: String)
    ensures
        r@ == plain_form(path@),
{
    if let Some(share) = text::strip_prefix(path.as_str(), r"\\?\UNC\") {
        return text::concat2(r"\\", share.as_str());
    }
    match text::strip_prefix(path.as_str(), r"\\?\") {
        Some(rest) => rest,
        None => path,
    }
}

} // verus!
