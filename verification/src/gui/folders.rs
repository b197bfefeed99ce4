//! Which program opens a folder, and the links a development build starts with.
use vstd::prelude::*;

use crate::provision::Platform;
use crate::text;

verus! {

/// A program to start, with its one argument.
#[derive(Debug, Clone, PartialEq, Eq)]
pub struct Opener {
    pub program: String,
    pub argument: String,
}

/// What opens the folder `dir` in the system's file manager.
pub fn open_folder(platform: Platform, dir: &str) -> (r: Opener)
    ensures
        r.program@ == (match platform {
            Platform::Unix => "xdg-open"@,
            Platform::Windows => "explorer"@,
        }),
        r.argument@ == dir@,
{
    Opener {
        program: match platform {
            Platform::Unix => "xdg-open".to_owned(),
            Platform::Windows => "explorer".to_owned(),
        },
        argument: dir.to_owned(),
    }
}

/// What opens the folder that the file `path` is in (`parent`, when it has one), highlighting that
/// file specifically where the platform supports it.
pub fn reveal_file(platform: Platform, path: &str, parent: Option<String>) -> (r: Opener)
    ensures
        match platform {
            Platform::Unix => r.program@ == "xdg-open"@ && r.argument@ == (match parent {
                Some(dir) => dir@,
                None => path@,
            }),
            Platform::Windows => r.program@ == "explorer"@ && r.argument@ == "/select,"@ + path@,
        },
{
    match platform {
        Platform::Unix => match parent {
            Some(dir) => open_folder(platform, dir.as_str()),
            None => open_folder(platform, path),
        },
        Platform::Windows => open_folder(platform, text::concat2("/select,", path).as_str()),
    }
}

/// The links in a comma separated list, each without the white space around it.
pub open spec fn listed(value: Seq<char>) -> Seq<Seq<char>> {
    text::fields(value, ',').map_values(|s: Seq<char>| text::trim(s))
}

/// The links in a comma separated list, each without the white space around it.
pub fn dev_list(value: &str) -> (r: Vec<String>)
    ensures
        text::texts(r@) == listed(value@),
{
    let parts: Vec<String> = text::split_fields(value, ',');
    let ghost all = listed(value@);
    let mut r: Vec<String> = Vec::new();
    let mut i: usize = 0;
    proof {
        assert(text::texts(r@) =~= all.take(0));
        assert(text::texts(parts@).len() == parts@.len());
    }
    while i < parts.len()
        invariant
            i <= parts@.len(),
            all == listed(value@),
            text::texts(parts@) == text::fields(value@, ','),
            text::texts(r@) == all.take(i as int),
            all.len() == parts@.len(),
        decreases parts@.len() - i,
    {
        let ghost before = text::texts(r@);
        r.push(text::trimmed(parts[i].as_str()));
        proof {
            assert(text::texts(parts@)[i as int] == parts@[i as int]@);
            assert(text::texts(r@) =~= before.push(all[i as int]));
            assert(all.take(i + 1) =~= before.push(all[i as int]));
        }
        i = i + 1;
    }
    proof {
        assert(all.take(i as int) =~= all);
    }
    r
}

/// The texts of `all` that `valid` marks.
pub open spec fn marked(all: Seq<Seq<char>>, valid: Seq<bool>) -> Seq<Seq<char>>
    decreases all.len(),
{
    if all.len() == 0 {
        Seq::empty()
    } else {
        let before = marked(all.drop_last(), valid);
        if valid[all.len() - 1] {
            before.push(all.last())
        } else {
            before
        }
    }
}

/// The links a development build starts with, out of those it was given: `valid` tells which of
/// them are links. Release builds start with none.
pub fn dev_urls(development: bool, list: &Vec<String>, valid: &Vec<bool>) -> (r: Vec<String>)
    requires
        valid@.len() == list@.len(),
    ensures
        text::texts(r@) == (if development {
            marked(text::texts(list@), valid@)
        } else {
            Seq::empty()
        }),
{
    let mut r: Vec<String> = Vec::new();
    let ghost all = text::texts(list@);
    proof {
        assert(text::texts(r@) =~= Seq::empty());
        assert(all.take(0).len() == 0);
    }
    if !development {
        return r;
    }
    let mut i: usize = 0;
    while i < list.len()
        invariant
            i <= list@.len(),
            valid@.len() == list@.len(),
            all == text::texts(list@),
            text::texts(r@) == marked(all.take(i as int), valid@),
        decreases list@.len() - i,
    {
        let ghost before = text::texts(r@);
        proof {
            assert(all.take(i + 1).drop_last() =~= all.take(i as int));
            assert(all.take(i + 1).last() == list@[i as int]@);
        }
        if valid[i] {
            r.push(list[i].clone());
            proof {
                assert(text::texts(r@) =~= before.push(list@[i as int]@));
            }
        }
        i = i + 1;
    }
    proof {
        assert(all.take(i as int) =~= all);
    }
    r
}

} // verus!
