//! How far a download is.
use std::collections::BTreeMap;

use vstd::prelude::*;

use crate::metadata::Real;
use crate::{seqs, text};

verus! {

/// How far a download is, or one of several that run at once.
#[derive(Debug, Clone, Copy, PartialEq, Eq)]
pub struct Progress {
    /// yt-dlp's slot number.
    pub stream: u32,
    /// Bytes.
    pub downloaded: u64,
    /// Bytes, when that is known.
    pub total: Option<u64>,
    /// Bytes per second.
    pub speed: Option<Real>,
    /// Seconds.
    pub eta: Option<u64>,
    pub done: bool,
}

impl Default for Progress {
    fn default() -> (r: Self)
        ensures
            r == nothing_yet(),
    {
        Progress { stream: 0, downloaded: 0, total: None, speed: None, eta: None, done: false }
    }
}

/// The progress of a download that has just been started.
pub open spec fn nothing_yet() -> Progress {
    Progress { stream: 0, downloaded: 0, total: None, speed: None, eta: None, done: false }
}

/// Whether `keys` are the keys of `m`, in increasing order.
pub open spec fn lists(m: Map<u32, Progress>, keys: Seq<u32>) -> bool {
    &&& forall|i: int, j: int| 0 <= i < j < keys.len() ==> keys[i] < keys[j]
    &&& keys.to_set() == m.dom()
}

/// The parts of a download, by their slot numbers.
pub open spec fn parts(m: Map<u32, Progress>) -> Seq<Progress> {
    let keys = choose|keys: Seq<u32>| lists(m, keys);
    keys.map_values(|k: u32| m[k])
}

proof fn lemma_one_listing(m: Map<u32, Progress>, a: Seq<u32>, b: Seq<u32>)
    requires
        lists(m, a),
        lists(m, b),
    ensures
        a == b,
    decreases a.len(),
{
    if a.len() == 0 {
        if b.len() > 0 {
            assert(b.to_set().contains(b[0]));
            assert(a.to_set().contains(b[0]));
        }
        assert(a =~= b);
    } else {
        assert(a.to_set().contains(a.last()));
        assert(b.to_set().contains(a.last()));
        let i = b.index_of(a.last());
        assert(b.contains(a.last()));
        assert(b.to_set().contains(b.last()));
        assert(a.to_set().contains(b.last()));
        assert(a.contains(b.last()));
        let j = a.index_of(b.last());
        assert(b[i] <= b.last());
        assert(a[j] <= a.last());
        assert(a.last() == b.last());
        let rest = m.remove(a.last());
        assert forall|s: Seq<u32>| #[trigger] lists(m, s) && s.len() > 0 && s.last() == a.last()
            implies lists(rest, s.drop_last()) by {
            assert forall|k: u32| s.drop_last().to_set().contains(k) <==> rest.dom().contains(k)
                by {
                if s.drop_last().to_set().contains(k) {
                    let n = s.drop_last().index_of(k);
                    assert(s.drop_last().contains(k));
                    assert(s[n] == k);
                    assert(s.to_set().contains(k));
                    assert(s[n] < s.last());
                }
                if rest.dom().contains(k) {
                    assert(s.to_set().contains(k));
                    assert(s.contains(k));
                    let n = s.index_of(k);
                    assert(s[n] == k);
                    assert(s.drop_last()[n] == k);
                }
            }
            assert(s.drop_last().to_set() =~= rest.dom());
        }
        lemma_one_listing(rest, a.drop_last(), b.drop_last());
        assert(a =~= a.drop_last().push(a.last()));
        assert(b =~= b.drop_last().push(b.last()));
    }
}

/// The bytes that several downloads have got so far.
pub open spec fn downloaded(ps: Seq<Progress>) -> nat
    decreases ps.len(),
{
    if ps.len() == 0 {
        0
    } else {
        downloaded(ps.drop_last()) + ps.last().downloaded as nat
    }
}

/// Whether every one of several downloads knows its size.
pub open spec fn sized(ps: Seq<Progress>) -> bool {
    forall|i: int| 0 <= i < ps.len() ==> (#[trigger] ps[i]).total is Some
}

/// The sizes of several downloads, up to the first that doesn't know its own.
pub open spec fn known_size(ps: Seq<Progress>) -> nat
    decreases ps.len(),
{
    if ps.len() == 0 {
        0
    } else if sized(ps) {
        known_size(ps.drop_last()) + ps.last().total->0 as nat
    } else {
        known_size(ps.drop_last())
    }
}

/// The longest time left among several downloads: none is not a time, and neither is 0.
pub open spec fn longest(ps: Seq<Progress>) -> Option<u64>
    decreases ps.len(),
{
    if ps.len() == 0 {
        None
    } else {
        let before = longest(ps.drop_last());
        match ps.last().eta {
            Some(e) => if e > 0 && (before is None || e >= before->0) {
                Some(e)
            } else {
                before
            },
            None => before,
        }
    }
}

/// Whether several downloads are all done.
pub open spec fn all_done(ps: Seq<Progress>) -> bool {
    forall|i: int| 0 <= i < ps.len() ==> (#[trigger] ps[i]).done
}

/// Whether what several downloads add up to can be counted.
pub open spec fn countable(ps: Seq<Progress>) -> bool {
    downloaded(ps) <= u64::MAX && known_size(ps) <= u64::MAX
}

/// Several downloads shown as one. `speed` is what their speeds add up to, when that is anything.
pub open spec fn together(ps: Seq<Progress>, speed: Option<Real>) -> Progress {
    Progress {
        stream: 0,
        downloaded: downloaded(ps) as u64,
        // Unknown as soon as one part doesn't know its size, which is the usual case for a live
        // stream.
        total: if sized(ps) {
            Some(known_size(ps) as u64)
        } else {
            None
        },
        speed,
        // 0 means "no idea" here, not "about to finish".
        eta: longest(ps),
        done: all_done(ps),
    }
}

proof fn lemma_sums_grow(ps: Seq<Progress>, n: int)
    requires
        0 <= n <= ps.len(),
    ensures
        downloaded(ps.take(n)) <= downloaded(ps),
        known_size(ps.take(n)) <= known_size(ps),
    decreases ps.len() - n,
{
    if n == ps.len() {
        assert(ps.take(n) =~= ps);
    } else {
        lemma_sums_grow(ps, n + 1);
        assert(ps.take(n + 1).drop_last() =~= ps.take(n));
    }
}

proof fn lemma_increasing(keys: Seq<u32>)
    requires
        vstd::std_specs::btree::increasing_seq(keys),
    ensures
        forall|i: int, j: int| 0 <= i < j < keys.len() ==> keys[i] < keys[j],
{
    broadcast use vstd::laws_cmp::group_laws_cmp;
    broadcast use vstd::std_specs::btree::group_btree_axioms;

    assert forall|i: int, j: int| 0 <= i < j < keys.len() implies keys[i] < keys[j] by {
        assert(vstd::std_specs::cmp::OrdSpec::cmp_spec(&keys[i], &keys[j]) is Less);
    }
}

/// The parts of a download as a list.
fn collected(streams: &BTreeMap<u32, Progress>) -> (r: Vec<Progress>)
    ensures
        r@ == parts(streams@),
{
    let values = streams.values();
    let ghost all = vstd::std_specs::iter::IteratorSpec::remaining(&values);
    let mut r: Vec<Progress> = Vec::new();
    for p in it: values
        invariant
            it.seq() == all,
            r@ == all.unref().take(it.index() as int),
    {
        r.push(*p);
    }
    proof {
        let keys = choose|keys: Seq<u32>|
            #![auto]
            {
                &&& vstd::std_specs::btree::increasing_seq(keys)
                &&& keys.to_set() == streams@.dom()
                &&& keys.no_duplicates()
                &&& all == keys.map(|i: int, k| &streams@[k])
            };
        lemma_increasing(keys);
        assert(lists(streams@, keys));
        lemma_one_listing(streams@, keys, choose|keys: Seq<u32>| lists(streams@, keys));
        assert(all.unref().take(all.len() as int) =~= parts(streams@));
    }
    r
}

/// A live stream fetches video and audio at the same time, so yt-dlp reports two progress lines.
/// They belong to one download as far as the person watching is concerned, so they are added up.
/// `speed` is what their speeds add up to, when that is anything.
pub fn combined(streams: &BTreeMap<u32, Progress>, speed: Option<Real>) -> (r: Progress)
    requires
        countable(parts(streams@)),
    ensures
        r == together(parts(streams@), speed),
{
    let all: Vec<Progress> = collected(streams);
    let ghost ps = all@;
    let mut downloaded: u64 = 0;
    let mut total: Option<u64> = Some(0);
    let mut eta: Option<u64> = None;
    let mut done: bool = true;
    let mut i: usize = 0;
    while i < all.len()
        invariant
            i <= all.len(),
            ps == all@,
            countable(ps),
            downloaded == self::downloaded(ps.take(i as int)),
            total == (if sized(ps.take(i as int)) {
                Some(known_size(ps.take(i as int)) as u64)
            } else {
                None
            }),
            eta == longest(ps.take(i as int)),
            done == all_done(ps.take(i as int)),
        decreases all.len() - i,
    {
        let p: Progress = all[i];
        proof {
            lemma_sums_grow(ps, i + 1);
            lemma_sums_grow(ps, i as int);
            assert(ps.take(i + 1).drop_last() =~= ps.take(i as int));
            assert(ps.take(i + 1).last() == p);
            let before = ps.take(i as int);
            let now = ps.take(i + 1);
            assert(now[i as int] == p);
            assert(forall|j: int| 0 <= j < i ==> now[j] == before[j]);
            assert(sized(now) <==> sized(before) && p.total is Some);
            assert(all_done(now) <==> all_done(before) && p.done);
        }
        downloaded = downloaded + p.downloaded;
        total = match (total, p.total) {
            (Some(a), Some(b)) => Some(a + b),
            _ => None,
        };
        if let Some(e) = p.eta {
            if e > 0 {
                match eta {
                    Some(longest) => if e >= longest {
                        eta = Some(e);
                    },
                    None => {
                        eta = Some(e);
                    },
                }
            }
        }
        done = done && p.done;
        i = i + 1;
    }
    proof {
        assert(ps.take(i as int) =~= ps);
    }
    Progress { stream: 0, downloaded, total, speed, eta, done }
}

/// Whether what several downloads add up to can be counted.
pub fn can_combine(streams: &BTreeMap<u32, Progress>) -> (r: bool)
    ensures
        r == countable(parts(streams@)),
{
    let all: Vec<Progress> = collected(streams);
    let ghost ps = all@;
    let mut downloaded: u64 = 0;
    let mut size: u64 = 0;
    let mut known: bool = true;
    let mut i: usize = 0;
    while i < all.len()
        invariant
            i <= all.len(),
            ps == all@,
            ps == parts(streams@),
            downloaded == self::downloaded(ps.take(i as int)),
            size == known_size(ps.take(i as int)),
            known == sized(ps.take(i as int)),
        decreases all.len() - i,
    {
        let p: Progress = all[i];
        proof {
            lemma_sums_grow(ps, i + 1);
            assert(ps.take(i + 1).drop_last() =~= ps.take(i as int));
            assert(ps.take(i + 1).last() == p);
            let before = ps.take(i as int);
            let now = ps.take(i + 1);
            assert(now[i as int] == p);
            assert(forall|j: int| 0 <= j < i ==> now[j] == before[j]);
            assert(sized(now) <==> sized(before) && p.total is Some);
        }
        downloaded = match downloaded.checked_add(p.downloaded) {
            Some(n) => n,
            None => return false,
        };
        match p.total {
            Some(total) => if known {
                size = match size.checked_add(total) {
                    Some(n) => n,
                    None => return false,
                };
            },
            None => {
                known = false;
            },
        }
        i = i + 1;
    }
    proof {
        assert(ps.take(i as int) =~= ps);
    }
    true
}

/// A time in seconds, as it is shown: its two largest units, the smaller one with two digits.
pub open spec fn time_text(seconds: nat) -> Seq<char> {
    if seconds < 60 {
        text::decimal(seconds) + "s"@
    } else if seconds < 3600 {
        text::decimal(seconds / 60) + "m "@ + text::two_digits(seconds % 60) + "s"@
    } else {
        text::decimal(seconds / 3600) + "h "@ + text::two_digits((seconds % 3600) / 60) + "m"@
    }
}

/// A time in seconds, as it is shown.
pub fn duration(seconds: u64) -> (r: String)
    ensures
        r@ == time_text(seconds as nat),
{
    if seconds < 60 {
        text::concat2(text::decimal_text(seconds).as_str(), "s")
    } else if seconds < 3600 {
        let mut r: String = text::concat2(text::decimal_text(seconds / 60).as_str(), "m ");
        r.append(text::two_digits_text(seconds % 60).as_str());
        r.append("s");
        r
    } else {
        let mut r: String = text::concat2(text::decimal_text(seconds / 3600).as_str(), "h ");
        r.append(text::two_digits_text((seconds % 3600) / 60).as_str());
        r.append("m");
        r
    }
}

/// A time is shown by its two largest units, whatever its hours, minutes and seconds are: an hour
/// and more without the seconds, and less than a minute by the seconds alone.
pub proof fn law_a_time_is_shown_by_its_largest_units(hours: nat, minutes: nat, seconds: nat)
    requires
        minutes < 60,
        seconds < 60,
    ensures
        ({
            let shown = time_text(3600 * hours + 60 * minutes + seconds);
            &&& hours > 0 ==> shown == text::decimal(hours) + "h "@ + text::two_digits(minutes)
                + "m"@
            &&& hours == 0 && minutes > 0 ==> shown == text::decimal(minutes) + "m "@
                + text::two_digits(seconds) + "s"@
            &&& hours == 0 && minutes == 0 ==> shown == text::decimal(seconds) + "s"@
        }),
{
    let all = 3600 * hours + 60 * minutes + seconds;
    assert(all / 3600 == hours && all % 3600 == 60 * minutes + seconds);
    assert((60 * minutes + seconds) / 60 == minutes && (60 * minutes + seconds) % 60 == seconds);
}

/// Parallel downloads are shown as one: the size is unknown as soon as one part doesn't know its
/// own, a time left is one of theirs and never 0, and all is done once every part is.
pub proof fn law_parallel_downloads_are_shown_as_one(ps: Seq<Progress>, speed: Option<Real>, i: int)
    requires
        countable(ps),
        0 <= i < ps.len(),
    ensures
        ps[i].total is None ==> together(ps, speed).total is None,
        together(ps, speed).downloaded >= ps[i].downloaded,
        ps[i].eta is Some && ps[i].eta->0 > 0 ==> together(ps, speed).eta is Some && together(
            ps,
            speed,
        ).eta->0 >= ps[i].eta->0,
        together(ps, speed).eta matches Some(shown) ==> shown > 0,
        together(ps, speed).done ==> ps[i].done,
    decreases ps.len(),
{
    lemma_sums_grow(ps, ps.len() - 1);
    assert(ps.take(ps.len() - 1) =~= ps.drop_last());
    if i < ps.len() - 1 {
        assert(ps.drop_last()[i] == ps[i]);
        law_parallel_downloads_are_shown_as_one(ps.drop_last(), speed, i);
    } else if ps.len() > 1 {
        law_parallel_downloads_are_shown_as_one(ps.drop_last(), speed, 0);
    } else {
        assert(longest(ps.drop_last()) is None);
    }
}

proof fn lemma_parts_of_keys(m: Map<u32, Progress>, keys: Seq<u32>)
    requires
        lists(m, keys),
    ensures
        parts(m) == keys.map_values(|k: u32| m[k]),
{
    lemma_one_listing(m, keys, choose|keys: Seq<u32>| lists(m, keys));
}

proof fn lemma_sums_of_keys(m: Map<u32, Progress>, keys: Seq<u32>)
    ensures
        ({
            let ps = keys.map_values(|k: u32| m[k]);
            &&& downloaded(ps) == keys.fold_left(0int, |sum: int, k: u32| sum + m[k].downloaded)
            &&& sized(ps) ==> known_size(ps) == keys.fold_left(
                0int,
                |sum: int, k: u32| sum + m[k].total->0,
            )
        }),
    decreases keys.len(),
{
    let ps = keys.map_values(|k: u32| m[k]);
    if keys.len() > 0 {
        let rest = keys.drop_last();
        lemma_sums_of_keys(m, rest);
        assert(ps.drop_last() =~= rest.map_values(|k: u32| m[k]));
        assert(ps.last() == m[keys.last()]);
        if sized(ps) {
            assert forall|i: int| 0 <= i < rest.len() implies (#[trigger] ps.drop_last()[i]).total
                is Some by {
                assert(ps[i].total is Some);
            }
        }
    }
}

proof fn lemma_longest(ps: Seq<Progress>)
    ensures
        longest(ps) is Some ==> longest(ps)->0 > 0 && exists|i: int|
            0 <= i < ps.len() && (#[trigger] ps[i]).eta == longest(ps),
        forall|i: int|
            0 <= i < ps.len() && (#[trigger] ps[i]).eta is Some && ps[i].eta->0 > 0 ==> longest(
                ps,
            ) is Some && ps[i].eta->0 <= longest(ps)->0,
    decreases ps.len(),
{
    if ps.len() > 0 {
        let rest = ps.drop_last();
        lemma_longest(rest);
        if longest(ps) is Some {
            if longest(ps) == ps.last().eta {
                assert(ps[ps.len() - 1].eta == longest(ps));
            } else {
                let i = choose|i: int|
                    0 <= i < rest.len() && (#[trigger] rest[i]).eta == longest(rest);
                assert(ps[i].eta == longest(ps));
            }
        }
        assert forall|i: int|
            0 <= i < ps.len() && (#[trigger] ps[i]).eta is Some && ps[i].eta->0 > 0 implies longest(
            ps,
        ) is Some && ps[i].eta->0 <= longest(ps)->0 by {
            if i < rest.len() {
                assert(rest[i] == ps[i]);
            }
        }
    }
}

/// What the streams add up to, listed by their slot numbers.
pub proof fn lemma_sums_of_listing(all: Map<u32, Progress>, keys: Seq<u32>)
    requires
        lists(all, keys),
        forall|k: u32| #[trigger] keys.contains(k) ==> all[k].total is Some,
    ensures
        downloaded(parts(all)) == keys.fold_left(0int, |sum: int, k: u32| sum + all[k].downloaded),
        known_size(parts(all)) == keys.fold_left(0int, |sum: int, k: u32| sum + all[k].total->0),
{
    lemma_parts_of_keys(all, keys);
    lemma_sums_of_keys(all, keys);
    let ps = parts(all);
    assert forall|i: int| 0 <= i < ps.len() implies (#[trigger] ps[i]).total is Some by {
        assert(keys.contains(keys[i]));
    }
}

/// Several streams shown as one, whatever their slot numbers are: the bytes are all of theirs, the
/// size is all of theirs as soon as every one is known, the time left is the longest that is known
/// and not 0, and they are done when every one is.
pub proof fn law_streams_add_up(all: Map<u32, Progress>, keys: Seq<u32>, speed: Option<Real>)
    requires
        forall|a: int, b: int| 0 <= a < b < keys.len() ==> keys[a] < keys[b],
        keys.to_set() == all.dom(),
        keys.fold_left(0int, |sum: int, k: u32| sum + all[k].downloaded) <= u64::MAX,
        (forall|k: u32| all.dom().contains(k) ==> (#[trigger] all[k]).total is Some)
            ==> keys.fold_left(0int, |sum: int, k: u32| sum + all[k].total->0) <= u64::MAX,
    ensures
        ({
            let shown = together(parts(all), speed);
            &&& shown.stream == 0
            &&& shown.downloaded == keys.fold_left(
                0int,
                |sum: int, k: u32| sum + all[k].downloaded,
            )
            &&& shown.total is Some <==> forall|k: u32|
                all.dom().contains(k) ==> (#[trigger] all[k]).total is Some
            &&& shown.total is Some ==> shown.total->0 == keys.fold_left(
                0int,
                |sum: int, k: u32| sum + all[k].total->0,
            )
            &&& shown.eta is Some <==> exists|k: u32|
                all.dom().contains(k) && (#[trigger] all[k]).eta is Some && all[k].eta->0 > 0
            &&& shown.eta is Some ==> shown.eta->0 > 0
            &&& shown.eta is Some ==> exists|k: u32|
                all.dom().contains(k) && (#[trigger] all[k]).eta == shown.eta
            &&& forall|k: u32|
                all.dom().contains(k) && (#[trigger] all[k]).eta is Some && all[k].eta->0 > 0
                    ==> shown.eta is Some && all[k].eta->0 <= shown.eta->0
            &&& shown.done <==> forall|k: u32| all.dom().contains(k) ==> (#[trigger] all[k]).done
            &&& shown.speed == speed
        }),
{
    lemma_parts_of_keys(all, keys);
    lemma_sums_of_keys(all, keys);
    let ps = parts(all);
    lemma_longest(ps);
    let shown = together(ps, speed);
    assert forall|k: u32| #[trigger] all.dom().contains(k) implies exists|i: int|
        0 <= i < keys.len() && keys[i] == k && #[trigger] ps[i] == all[k] by {
        assert(keys.to_set().contains(k));
        let i = keys.index_of(k);
        assert(ps[i] == all[k]);
    }
    assert forall|i: int| 0 <= i < ps.len() implies all.dom().contains(keys[i])
        && #[trigger] ps[i] == all[keys[i]] by {
        assert(keys.to_set().contains(keys[i]));
    }
    if sized(ps) {
        assert forall|k: u32| all.dom().contains(k) implies (#[trigger] all[k]).total is Some by {
            let i = choose|i: int| 0 <= i < keys.len() && keys[i] == k && #[trigger] ps[i] == all[k];
            assert(ps[i].total is Some);
        }
    }
    if all_done(ps) {
        assert forall|k: u32| all.dom().contains(k) implies (#[trigger] all[k]).done by {
            let i = choose|i: int| 0 <= i < keys.len() && keys[i] == k && #[trigger] ps[i] == all[k];
            assert(ps[i].done);
        }
    }
    assert forall|k: u32|
        all.dom().contains(k) && (#[trigger] all[k]).eta is Some && all[k].eta->0 > 0 implies shown.eta
        is Some && all[k].eta->0 <= shown.eta->0 by {
        let i = choose|i: int| 0 <= i < keys.len() && keys[i] == k && #[trigger] ps[i] == all[k];
        assert(ps[i].eta is Some);
    }
    if shown.eta is Some {
        let i = choose|i: int| 0 <= i < ps.len() && (#[trigger] ps[i]).eta == longest(ps);
        assert(all[keys[i]].eta == shown.eta);
    }
}

/// The streams of a download can always be listed by their slot numbers.
pub proof fn law_streams_can_be_listed(all: Map<u32, Progress>) -> (keys: Seq<u32>)
    ensures
        forall|a: int, b: int| 0 <= a < b < keys.len() ==> keys[a] < keys[b],
        keys.to_set() == all.dom(),
{
    let known = |k: int| all.dom().contains(k as u32);
    seqs::lemma_positions(0x1_0000_0000, known);
    let at = seqs::positions(0x1_0000_0000, known);
    let keys = at.map_values(|k: int| k as u32);
    assert forall|k: u32| keys.to_set().contains(k) <==> all.dom().contains(k) by {
        if keys.to_set().contains(k) {
            let i = keys.index_of(k);
            assert(keys[i] == at[i] as u32);
            assert(known(at[i]));
        }
        if all.dom().contains(k) {
            assert(known(k as int));
            assert(at.contains(k as int));
            let i = at.index_of(k as int);
            assert(keys[i] == k);
        }
    }
    assert(keys.to_set() =~= all.dom());
    keys
}

} // verus!
