//! What holds of editing the queue: pasting links, picking, removing, trying again, looking up, and
//! keeping it between two sessions.
use vstd::prelude::*;

use super::download::{Outside, Screen};
use super::laws;
use super::queue::{Event, ItemStatus, Message, MetaState, QueueItem, Task};
use super::{download, queue};
use crate::config::{Format, Kind, Quality, Settings};
use crate::log::Level;
use crate::metadata::{Lookup, Metadata};
use crate::provision::Paths;
use crate::{seqs, text};

verus! {

// ---------------------------------------------------------------------------
// Pasting
// ---------------------------------------------------------------------------

/// Whether the word at `k` is a link that is neither in the queue nor among the words before it.
spec fn fresh(
    items: Seq<QueueItem<Seq<char>>>,
    words: Seq<Seq<char>>,
    valid: Seq<bool>,
    k: int,
) -> bool {
    &&& valid[k]
    &&& forall|i: int| 0 <= i < items.len() ==> (#[trigger] items[i]).url != words[k]
    &&& forall|j: int| 0 <= j < k && valid[j] ==> (#[trigger] words[j]) != words[k]
}

/// The places of the first `n` words that are fresh.
spec fn fresh_words(
    items: Seq<QueueItem<Seq<char>>>,
    words: Seq<Seq<char>>,
    valid: Seq<bool>,
    n: nat,
) -> Seq<int> {
    seqs::positions(n, |k: int| fresh(items, words, valid, k))
}

/// The places of the first `n` words that are no links.
spec fn no_links(valid: Seq<bool>, n: nat) -> Seq<int> {
    seqs::positions(n, |k: int| !valid[k])
}

#[verifier::rlimit(40)]
proof fn lemma_pasted_exactly(
    s: Screen,
    words: Seq<Seq<char>>,
    valid: Seq<bool>,
    settings: Settings,
    cookies: Option<Seq<char>>,
    n: nat,
)
    requires
        n <= words.len() == valid.len(),
        0 <= s.next_id,
        s.next_id + words.len() <= u64::MAX,
    ensures
        ({
            let p = download::pasted(s, words.take(n as int), valid, settings, cookies);
            let found = fresh_words(s.items, words, valid, n);
            let left = no_links(valid, n);
            &&& p.screen == (Screen {
                items: p.screen.items,
                next_id: s.next_id + found.len(),
                lookups: s.lookups + found.len(),
                ..s
            })
            &&& p.screen.items.len() == s.items.len() + found.len()
            &&& forall|i: int| 0 <= i < s.items.len() ==> #[trigger] p.screen.items[i] == s.items[i]
            &&& forall|m: int|
                0 <= m < found.len() ==> #[trigger] p.screen.items[s.items.len() + m] == (QueueItem {
                    id: (s.next_id + m) as u64,
                    url: words[found[m]],
                    settings,
                    meta: MetaState::Fetching,
                    thumbnail: None,
                    status: ItemStatus::Queued,
                })
            &&& p.tasks.len() == found.len()
            &&& forall|m: int|
                0 <= m < found.len() ==> #[trigger] p.tasks[m] == (Task::Lookup {
                    id: (s.next_id + m) as u64,
                    url: words[found[m]],
                    lookup: Lookup {
                        cookies,
                        single_video: settings.automation.playlist is Single,
                    },
                })
            &&& p.rejected == left.map_values(|k: int| words[k])
            &&& p.duplicates == n - found.len() - left.len()
        }),
    decreases n,
{
    let is_fresh = |k: int| fresh(s.items, words, valid, k);
    let is_no_link = |k: int| !valid[k];
    if n == 0 {
        seqs::lemma_positions(0, is_fresh);
        seqs::lemma_positions(0, is_no_link);
        assert(words.take(0).len() == 0);
        assert(no_links(valid, 0).map_values(|k: int| words[k]) =~= Seq::empty());
    } else {
        let m = (n - 1) as nat;
        lemma_pasted_exactly(s, words, valid, settings, cookies, m);
        seqs::lemma_positions(m, is_fresh);
        seqs::lemma_positions(m, is_no_link);
        seqs::lemma_positions_push(m, is_fresh);
        seqs::lemma_positions_push(m, is_no_link);
        let links = words.take(n as int);
        assert(links.drop_last() =~= words.take(m as int));
        let url = words[m as int];
        assert(links.last() == url);
        let before = download::pasted(s, links.drop_last(), valid, settings, cookies);
        let early = fresh_words(s.items, words, valid, m);
        let p = download::pasted(s, links, valid, settings, cookies);
        if valid[m as int] {
            assert(download::has_url(before.screen, url) <==> !is_fresh(m as int)) by {
                if download::has_url(before.screen, url) {
                    let i = choose|i: int|
                        0 <= i < before.screen.items.len() && (#[trigger] before.screen.items[i]).url
                            == url;
                    if i < s.items.len() {
                        assert(s.items[i].url == url);
                    } else {
                        let at = i - s.items.len();
                        assert(before.screen.items[s.items.len() + at].url == words[early[at]]);
                        assert(is_fresh(early[at]));
                    }
                } else if !is_fresh(m as int) {
                    if exists|i: int| 0 <= i < s.items.len() && (#[trigger] s.items[i]).url == url {
                        let i = choose|i: int|
                            0 <= i < s.items.len() && (#[trigger] s.items[i]).url == url;
                        assert(before.screen.items[i].url == url);
                    } else {
                        let j = choose|j: int|
                            0 <= j < m && valid[j] && (#[trigger] words[j]) == url;
                        lemma_some_first(words, valid, j);
                        let f = choose|f: int|
                            0 <= f <= j && valid[f] && words[f] == url && forall|g: int|
                                0 <= g < f && valid[g] ==> (#[trigger] words[g]) != url;
                        assert(is_fresh(f));
                        assert(early.contains(f));
                        let at = early.index_of(f);
                        assert(before.screen.items[s.items.len() + at].url == url);
                    }
                }
            }
        }
        assert(no_links(valid, n).map_values(|k: int| words[k]) =~= p.rejected);
        assert(p.screen =~= (Screen {
            items: p.screen.items,
            next_id: p.screen.next_id,
            lookups: p.screen.lookups,
            ..s
        }));
    }
}

proof fn lemma_some_first(words: Seq<Seq<char>>, valid: Seq<bool>, j: int)
    requires
        0 <= j,
        valid[j],
    ensures
        exists|f: int|
            0 <= f <= j && valid[f] && words[f] == words[j] && forall|g: int|
                0 <= g < f && valid[g] ==> (#[trigger] words[g]) != words[j],
    decreases j,
{
    if exists|g: int| 0 <= g < j && valid[g] && (#[trigger] words[g]) == words[j] {
        let g = choose|g: int| 0 <= g < j && valid[g] && (#[trigger] words[g]) == words[j];
        lemma_some_first(words, valid, g);
    } else {
        assert(words[j] == words[j]);
    }
}

/// After links were pasted, the words of the box are exactly those that are no links, in the order
/// they were typed in and with a space between each two: a link that was queued is not left in it,
/// and what is no link is not lost.
pub proof fn law_what_is_no_link_stays_in_the_box(s: Screen, settings: Settings, outside: Outside)
    requires
        outside.valid@.len() == text::words(s.url_input).len(),
        0 <= s.next_id,
        s.next_id + outside.valid@.len() <= u64::MAX,
    ensures
        ({
            let typed = text::words(s.url_input);
            let t = download::applied(s, Message::AddUrl, settings, outside).0;
            let left = seqs::positions(
                typed.len(),
                |k: int| !outside.valid@[k],
            ).map_values(|k: int| typed[k]);
            &&& text::words(t.url_input) == left
            &&& t.url_input == text::join(left, seq![' '])
        }),
{
    let typed = text::words(s.url_input);
    let clear = Screen { url_input: Seq::empty(), ..s };
    let jar = text::opt_text(outside.cookies);
    lemma_pasted_exactly(clear, typed, outside.valid@, settings, jar, typed.len());
    assert(typed.take(typed.len() as int) =~= typed);
    let p = download::pasted(clear, typed, outside.valid@, settings, jar);
    text::lemma_words(s.url_input);
    seqs::lemma_positions(typed.len(), |k: int| !outside.valid@[k]);
    assert forall|i: int| 0 <= i < p.rejected.len() implies (#[trigger] p.rejected[i]).len() > 0
        && text::lacks_white(p.rejected[i]) by {
        assert(p.rejected[i] == typed[no_links(outside.valid@, typed.len())[i]]);
    }
    reveal_strlit(" ");
    assert(" "@ =~= seq![' ']);
    text::lemma_words_of_joined(p.rejected);
    if p.rejected.len() == 0 {
        assert(text::join(p.rejected, " "@) =~= Seq::empty());
    }
    assert(seqs::positions(typed.len(), |k: int| !outside.valid@[k]).map_values(|k: int| typed[k])
        =~= p.rejected);
}

/// What pasting queues: every word that is a link and new, once and in the order of the words, each
/// at the end of the queue, numbered on, waiting with the settings of that moment and being looked
/// up. Nothing else changes but the box and the remark.
#[verifier::rlimit(40)]
pub proof fn law_new_links_are_queued_in_their_order(
    s: Screen,
    settings: Settings,
    outside: Outside,
)
    requires
        outside.valid@.len() == text::words(s.url_input).len(),
        0 <= s.next_id,
        s.next_id + outside.valid@.len() <= u64::MAX,
    ensures
        ({
            let typed = text::words(s.url_input);
            let found = seqs::positions(
                typed.len(),
                |k: int|
                    {
                        &&& outside.valid@[k]
                        &&& forall|i: int|
                            0 <= i < s.items.len() ==> (#[trigger] s.items[i]).url != typed[k]
                        &&& forall|j: int|
                            0 <= j < k && outside.valid@[j] ==> (#[trigger] typed[j]) != typed[k]
                    },
            );
            let (t, tasks) = download::applied(s, Message::AddUrl, settings, outside);
            &&& t.items.len() == s.items.len() + found.len()
            &&& forall|i: int| 0 <= i < s.items.len() ==> #[trigger] t.items[i] == s.items[i]
            &&& forall|m: int|
                0 <= m < found.len() ==> {
                    let item = #[trigger] t.items[s.items.len() + m];
                    &&& item.id == s.next_id + m
                    &&& item.url == typed[found[m]]
                    &&& item.settings == settings
                    &&& item.meta is Fetching
                    &&& item.thumbnail is None
                    &&& item.status is Queued
                }
            &&& tasks.len() == found.len()
            &&& forall|m: int|
                0 <= m < found.len() ==> {
                    &&& #[trigger] tasks[m] is Lookup
                    &&& tasks[m]->Lookup_id == s.next_id + m
                    &&& tasks[m]->Lookup_url == typed[found[m]]
                    &&& tasks[m]->lookup.cookies == text::opt_text(outside.cookies)
                    &&& tasks[m]->lookup.single_video <==> settings.automation.playlist is Single
                }
            &&& t.next_id == s.next_id + found.len()
            &&& t.lookups == s.lookups + found.len()
            &&& t == (Screen {
                items: t.items,
                next_id: t.next_id,
                lookups: t.lookups,
                url_input: t.url_input,
                problem: t.problem,
                ..s
            })
        }),
{
    let typed = text::words(s.url_input);
    let clear = Screen { url_input: Seq::empty(), ..s };
    let jar = text::opt_text(outside.cookies);
    lemma_pasted_exactly(clear, typed, outside.valid@, settings, jar, typed.len());
    assert(typed.take(typed.len() as int) =~= typed);
    let is_fresh = |k: int|
        {
            &&& outside.valid@[k]
            &&& forall|i: int| 0 <= i < s.items.len() ==> (#[trigger] s.items[i]).url != typed[k]
            &&& forall|j: int|
                0 <= j < k && outside.valid@[j] ==> (#[trigger] typed[j]) != typed[k]
        };
    seqs::lemma_same_positions(
        typed.len(),
        is_fresh,
        |k: int| fresh(s.items, typed, outside.valid@, k),
    );
    seqs::lemma_positions(typed.len(), is_fresh);
}

/// What is said about what was pasted: something that is no link comes first, then that nothing
/// was pasted, then how many links were there already (or were pasted twice), and nothing when all
/// is well.
pub proof fn law_the_remark_says_what_became_of_the_links(
    s: Screen,
    settings: Settings,
    outside: Outside,
)
    requires
        outside.valid@.len() == text::words(s.url_input).len(),
        0 <= s.next_id,
        s.next_id + outside.valid@.len() <= u64::MAX,
    ensures
        ({
            let typed = text::words(s.url_input);
            let t = download::applied(s, Message::AddUrl, settings, outside).0;
            let known = typed.len() - text::words(t.url_input).len() - (t.items.len()
                - s.items.len());
            &&& (exists|k: int| 0 <= k < typed.len() && !#[trigger] outside.valid@[k])
                ==> t.problem == Some(
                "That doesn't look like a link (it should start with http)."@,
            )
            &&& typed.len() == 0 ==> t.problem == Some("Paste a link first."@)
            &&& typed.len() > 0 && (forall|k: int|
                0 <= k < typed.len() ==> #[trigger] outside.valid@[k]) ==> t.problem == (
            if known == 0 {
                None
            } else if known == 1 {
                Some("That link is already in the queue."@)
            } else {
                Some(
                    text::decimal(known as nat) + " of those links are already in the queue."@,
                )
            })
        }),
{
    let typed = text::words(s.url_input);
    let clear = Screen { url_input: Seq::empty(), ..s };
    let jar = text::opt_text(outside.cookies);
    lemma_pasted_exactly(clear, typed, outside.valid@, settings, jar, typed.len());
    assert(typed.take(typed.len() as int) =~= typed);
    law_what_is_no_link_stays_in_the_box(s, settings, outside);
    text::lemma_blank_has_no_words(s.url_input);
    let is_no_link = |k: int| !outside.valid@[k];
    seqs::lemma_positions(typed.len(), is_no_link);
    let left = no_links(outside.valid@, typed.len());
    if exists|k: int| 0 <= k < typed.len() && !#[trigger] outside.valid@[k] {
        let k = choose|k: int| 0 <= k < typed.len() && !#[trigger] outside.valid@[k];
        assert(is_no_link(k));
        assert(left.contains(k));
        assert(left.len() > 0);
    }
    if left.len() > 0 {
        assert(is_no_link(left[0]));
    }
    seqs::lemma_positions(typed.len(), |k: int| fresh(s.items, typed, outside.valid@, k));
}

// ---------------------------------------------------------------------------
// Editing an item
// ---------------------------------------------------------------------------

/// An item is found by its number.
pub proof fn lemma_found(s: Screen, i: int)
    requires
        laws::sound(s),
        0 <= i < s.items.len(),
    ensures
        download::place(s.items, download::with_id(s.items[i].id)) == i,
        s.items[i].status is Queued ==> download::place(
            s.items,
            download::waiting_with_id(s.items[i].id),
        ) == i,
        !(s.items[i].status is Queued) ==> download::place(
            s.items,
            download::waiting_with_id(s.items[i].id),
        ) == s.items.len(),
{
    let id = s.items[i].id;
    download::lemma_place(s.items, download::with_id(id));
    download::lemma_place(s.items, download::waiting_with_id(id));
    let at = download::place(s.items, download::with_id(id));
    assert(download::with_id(id)(s.items[i]));
    if at < i {
        assert(s.items[at].id < s.items[i].id);
    }
    let waits = download::place(s.items, download::waiting_with_id(id));
    if waits < i {
        assert(s.items[waits].id < s.items[i].id);
    } else if i < waits {
        assert(!download::waiting_with_id(id)(s.items[i]));
        if waits < s.items.len() {
            assert(s.items[i].id < s.items[waits].id);
        }
    }
}

/// Who has no item is not found.
pub proof fn lemma_not_found(s: Screen, id: u64)
    requires
        forall|i: int| 0 <= i < s.items.len() ==> (#[trigger] s.items[i]).id != id,
    ensures
        download::place(s.items, download::with_id(id)) == s.items.len(),
        download::place(s.items, download::waiting_with_id(id)) == s.items.len(),
{
    download::lemma_place(s.items, download::with_id(id));
    download::lemma_place(s.items, download::waiting_with_id(id));
}

/// A pick on the card of a waiting item is the item's own choice from then on: its kind or its
/// quality is what was picked, and nothing else changes. An item that ran keeps what it ran with.
pub proof fn law_a_pick_changes_its_item(
    s: Screen,
    i: int,
    kind: Kind,
    quality: Quality,
    settings: Settings,
    outside: Outside,
)
    requires
        laws::sound(s),
        0 <= i < s.items.len(),
    ensures
        ({
            let item = s.items[i];
            let own = item.settings;
            let (t, tasks) = download::applied(
                s,
                Message::ItemKind(item.id, kind),
                settings,
                outside,
            );
            let (u, more) = download::applied(
                s,
                Message::ItemQuality(item.id, quality),
                settings,
                outside,
            );
            &&& tasks.len() == 0 && more.len() == 0
            &&& item.status is Queued ==> t == (Screen {
                items: s.items.update(
                    i,
                    QueueItem {
                        settings: Settings { format: Format { kind, ..own.format }, ..own },
                        ..item
                    },
                ),
                ..s
            })
            &&& item.status is Queued ==> u == (Screen {
                items: s.items.update(
                    i,
                    QueueItem {
                        settings: Settings { format: Format { quality, ..own.format }, ..own },
                        ..item
                    },
                ),
                ..s
            })
            &&& !(item.status is Queued) ==> t == s && u == s
        }),
{
    lemma_found(s, i);
}

/// What concerns an item that is not in the queue changes nothing.
pub proof fn law_what_is_not_there_is_not_changed(
    s: Screen,
    id: u64,
    kind: Kind,
    quality: Quality,
    settings: Settings,
    outside: Outside,
)
    requires
        forall|i: int| 0 <= i < s.items.len() ==> (#[trigger] s.items[i]).id != id,
    ensures
        download::applied(s, Message::ItemKind(id, kind), settings, outside) == (
            s,
            Seq::<Task<Seq<char>>>::empty(),
        ),
        download::applied(s, Message::ItemQuality(id, quality), settings, outside) == (
            s,
            Seq::<Task<Seq<char>>>::empty(),
        ),
        download::applied(s, Message::RetryItem(id), settings, outside) == (
            s,
            Seq::<Task<Seq<char>>>::empty(),
        ),
{
    lemma_not_found(s, id);
}

/// Trying again puts an item that failed back among those that wait, and does nothing to any other.
pub proof fn law_only_what_failed_is_tried_again(
    s: Screen,
    i: int,
    settings: Settings,
    outside: Outside,
)
    requires
        laws::sound(s),
        0 <= i < s.items.len(),
    ensures
        ({
            let item = s.items[i];
            let (t, tasks) = download::applied(
                s,
                Message::RetryItem(item.id),
                settings,
                outside,
            );
            &&& tasks.len() == 0
            &&& item.status is Failed ==> t == (Screen {
                items: s.items.update(i, QueueItem { status: ItemStatus::Queued, ..item }),
                ..s
            })
            &&& !(item.status is Failed) ==> t == s
        }),
{
    lemma_found(s, i);
}

/// What a lookup found is on the item's own card: what is known of the link, or why nothing is. A
/// thumbnail is asked for exactly when the link has one. The item stays in the state it is in.
pub proof fn law_a_lookup_fills_in_its_item(
    s: Screen,
    i: int,
    result: Result<Metadata<Seq<char>>, Seq<char>>,
    settings: Settings,
    outside: Outside,
)
    requires
        laws::sound(s),
        s.lookups >= 0,
        0 <= i < s.items.len(),
    ensures
        ({
            let item = s.items[i];
            let (t, tasks) = download::applied(
                s,
                Message::MetadataFetched(item.id, result),
                settings,
                outside,
            );
            &&& t.items == s.items.update(
                i,
                QueueItem {
                    meta: match result {
                        Ok(meta) => MetaState::Ready(meta),
                        Err(e) => MetaState::Failed(e),
                    },
                    ..item
                },
            )
            &&& s.lookups > 0 ==> t.lookups == s.lookups - 1
            &&& s.lookups == 0 ==> t.lookups == 0
            &&& t == (Screen { items: t.items, lookups: t.lookups, ..s })
            &&& tasks.len() == 1 <==> (result is Ok && result->Ok_0.thumbnail_url is Some)
            &&& tasks.len() <= 1
            &&& tasks.len() == 1 ==> tasks[0] == (Task::<Seq<char>>::Thumbnail {
                id: item.id,
                url: result->Ok_0.thumbnail_url->0,
            })
        }),
{
    lemma_found(s, i);
}

/// A lookup of an item that is gone counts as over and does nothing else, and neither does a
/// thumbnail for it.
pub proof fn law_a_late_lookup_changes_no_item(
    s: Screen,
    id: u64,
    result: Result<Metadata<Seq<char>>, Seq<char>>,
    bytes: Result<Vec<u8>, Seq<char>>,
    settings: Settings,
    outside: Outside,
)
    requires
        s.lookups >= 0,
        forall|i: int| 0 <= i < s.items.len() ==> (#[trigger] s.items[i]).id != id,
    ensures
        ({
            let (t, tasks) = download::applied(
                s,
                Message::MetadataFetched(id, result),
                settings,
                outside,
            );
            &&& tasks.len() == 0
            &&& t == (Screen { lookups: t.lookups, ..s })
            &&& s.lookups > 0 ==> t.lookups == s.lookups - 1
            &&& s.lookups == 0 ==> t.lookups == 0
            &&& download::applied(s, Message::ThumbnailFetched(id, bytes), settings, outside) == (
                s,
                Seq::<Task<Seq<char>>>::empty(),
            )
        }),
{
    lemma_not_found(s, id);
}

/// A thumbnail is on its item's own card, and one that could not be fetched changes nothing.
pub proof fn law_a_thumbnail_goes_to_its_item(
    s: Screen,
    i: int,
    result: Result<Vec<u8>, Seq<char>>,
    settings: Settings,
    outside: Outside,
)
    requires
        laws::sound(s),
        0 <= i < s.items.len(),
    ensures
        ({
            let item = s.items[i];
            let (t, tasks) = download::applied(
                s,
                Message::ThumbnailFetched(item.id, result),
                settings,
                outside,
            );
            &&& tasks.len() == 0
            &&& match result {
                Ok(bytes) => t == (Screen {
                    items: s.items.update(i, QueueItem { thumbnail: Some(bytes), ..item }),
                    ..s
                }),
                Err(_) => t == s,
            }
        }),
{
    lemma_found(s, i);
}

/// Removing an item takes away that item, unless it is downloading, and no other.
pub proof fn law_removing_takes_away_one_item(
    s: Screen,
    id: u64,
    settings: Settings,
    outside: Outside,
)
    ensures
        ({
            let (t, tasks) = download::applied(s, Message::RemoveItem(id), settings, outside);
            &&& tasks.len() == 0
            &&& t == (Screen { items: t.items, ..s })
            &&& forall|item: QueueItem<Seq<char>>| #[trigger]
                t.items.contains(item) <==> s.items.contains(item) && (item.id != id
                    || item.status is Downloading)
            &&& t.items == seqs::positions(
                s.items.len(),
                |k: int| s.items[k].id != id || s.items[k].status is Downloading,
            ).map_values(|k: int| s.items[k])
        }),
{
    let keep = download::not_removed(id);
    seqs::lemma_kept(s.items, keep);
    seqs::lemma_filter_positions(s.items, keep);
    seqs::lemma_same_positions(
        s.items.len(),
        |k: int| keep(s.items[k]),
        |k: int| s.items[k].id != id || s.items[k].status is Downloading,
    );
    let t = download::applied(s, Message::RemoveItem(id), settings, outside).0;
    assert forall|item: QueueItem<Seq<char>>| s.items.contains(item) && (item.id != id
        || item.status is Downloading) implies #[trigger] t.items.contains(item) by {
        assert(keep(item));
    }
}

/// Clearing takes away what completed or failed, and nothing that waits or downloads.
pub proof fn law_clearing_takes_away_what_is_over(s: Screen, settings: Settings, outside: Outside)
    ensures
        ({
            let (t, tasks) = download::applied(s, Message::ClearFinished, settings, outside);
            &&& tasks.len() == 0
            &&& t == (Screen { items: t.items, ..s })
            &&& forall|item: QueueItem<Seq<char>>| #[trigger]
                t.items.contains(item) <==> s.items.contains(item) && (item.status is Queued
                    || item.status is Downloading)
            &&& t.items == seqs::positions(
                s.items.len(),
                |k: int| s.items[k].status is Queued || s.items[k].status is Downloading,
            ).map_values(|k: int| s.items[k])
        }),
{
    let keep = download::unfinished();
    seqs::lemma_kept(s.items, keep);
    seqs::lemma_filter_positions(s.items, keep);
    seqs::lemma_same_positions(
        s.items.len(),
        |k: int| keep(s.items[k]),
        |k: int| s.items[k].status is Queued || s.items[k].status is Downloading,
    );
    let t = download::applied(s, Message::ClearFinished, settings, outside).0;
    assert forall|item: QueueItem<Seq<char>>| s.items.contains(item) && (item.status is Queued
        || item.status is Downloading) implies #[trigger] t.items.contains(item) by {
        assert(keep(item));
    }
}

// ---------------------------------------------------------------------------
// Between two sessions
// ---------------------------------------------------------------------------

/// What is kept of a queue: every item that isn't completed, in its place among them, with its link
/// and settings, and with its reason when it failed.
pub proof fn law_what_is_not_completed_is_kept(s: Screen)
    ensures
        ({
            let left = seqs::positions(
                s.items.len(),
                |k: int| !(s.items[k].status is Completed),
            );
            let saved = download::persisted(s);
            &&& saved.len() == left.len()
            &&& forall|m: int|
                0 <= m < left.len() ==> {
                    let item = s.items[left[m]];
                    &&& (#[trigger] saved[m]).url == item.url
                    &&& saved[m].settings == item.settings
                    &&& saved[m].failed == (match item.status {
                        ItemStatus::Failed(reason) => Some(reason),
                        _ => None,
                    })
                }
        }),
{
    let keep = download::to_do();
    seqs::lemma_filter_positions(s.items, keep);
    seqs::lemma_same_positions(
        s.items.len(),
        |k: int| keep(s.items[k]),
        |k: int| !(s.items[k].status is Completed),
    );
}

#[verifier::rlimit(40)]
proof fn lemma_brought_back_exactly(
    s: Screen,
    saved: Seq<queue::Saved>,
    cookies: Seq<Option<Seq<char>>>,
)
    requires
        0 <= s.next_id,
        s.next_id + saved.len() <= u64::MAX,
    ensures
        ({
            let (t, tasks) = download::brought_back(s, saved, cookies);
            &&& t == (Screen {
                items: t.items,
                next_id: s.next_id + saved.len(),
                lookups: s.lookups + saved.len(),
                ..s
            })
            &&& t.items.len() == s.items.len() + saved.len()
            &&& forall|i: int| 0 <= i < s.items.len() ==> #[trigger] t.items[i] == s.items[i]
            &&& forall|k: int|
                0 <= k < saved.len() ==> #[trigger] t.items[s.items.len() + k] == (QueueItem {
                    id: (s.next_id + k) as u64,
                    url: saved[k].url,
                    settings: saved[k].settings,
                    meta: MetaState::Fetching,
                    thumbnail: None,
                    status: match saved[k].failed {
                        Some(reason) => ItemStatus::Failed(reason),
                        None => ItemStatus::Queued,
                    },
                })
            &&& tasks.len() == saved.len()
            &&& forall|k: int|
                0 <= k < saved.len() ==> #[trigger] tasks[k] == (Task::Lookup {
                    id: (s.next_id + k) as u64,
                    url: saved[k].url,
                    lookup: Lookup {
                        cookies: cookies[k],
                        single_video: saved[k].settings.automation.playlist is Single,
                    },
                })
        }),
    decreases saved.len(),
{
    if saved.len() > 0 {
        let front = saved.drop_last();
        lemma_brought_back_exactly(s, front, cookies);
        let t = download::brought_back(s, saved, cookies).0;
        assert(t =~= (Screen {
            items: t.items,
            next_id: s.next_id + saved.len(),
            lookups: s.lookups + saved.len(),
            ..s
        }));
    }
}

/// What was kept comes back: each item at the end of the queue in the order it was kept, numbered
/// on, with its link and settings, failed with its reason or waiting, and looked up again. That is
/// announced when there is anything to bring back.
pub proof fn law_what_was_kept_comes_back(
    s: Screen,
    saved: Seq<queue::Saved>,
    cookies: Seq<Option<Seq<char>>>,
)
    requires
        0 <= s.next_id,
        s.next_id + saved.len() <= u64::MAX,
    ensures
        ({
            let (t, tasks) = download::restored(s, saved, cookies);
            let n = s.items.len();
            &&& saved.len() == 0 ==> t == s && tasks.len() == 0
            &&& saved.len() > 0 ==> {
                let told = download::noted(
                    s,
                    Level::Info,
                    "Restored "@ + text::decimal(saved.len()) + " link(s) from the last session."@,
                );
                t == (Screen {
                    items: t.items,
                    next_id: s.next_id + saved.len(),
                    lookups: s.lookups + saved.len(),
                    ..told
                })
            }
            &&& t.items.len() == n + saved.len()
            &&& forall|i: int| 0 <= i < n ==> #[trigger] t.items[i] == s.items[i]
            &&& forall|k: int|
                0 <= k < saved.len() ==> {
                    let item = #[trigger] t.items[n + k];
                    &&& item.id == s.next_id + k
                    &&& item.url == saved[k].url
                    &&& item.settings == saved[k].settings
                    &&& item.meta is Fetching
                    &&& item.thumbnail is None
                    &&& saved[k].failed is Some ==> item.status == ItemStatus::Failed(
                        saved[k].failed->0,
                    )
                    &&& saved[k].failed is None ==> item.status is Queued
                }
            &&& tasks.len() == saved.len()
            &&& forall|k: int|
                0 <= k < saved.len() ==> {
                    &&& #[trigger] tasks[k] is Lookup
                    &&& tasks[k]->Lookup_id == s.next_id + k
                    &&& tasks[k]->Lookup_url == saved[k].url
                    &&& tasks[k]->lookup.cookies == cookies[k]
                    &&& tasks[k]->lookup.single_video
                        <==> saved[k].settings.automation.playlist is Single
                }
        }),
{
    let told = if saved.len() == 0 {
        s
    } else {
        download::noted(
            s,
            Level::Info,
            "Restored "@ + text::decimal(saved.len()) + " link(s) from the last session."@,
        )
    };
    assert(told.items == s.items && told.next_id == s.next_id && told.lookups == s.lookups);
    lemma_brought_back_exactly(told, saved, cookies);
    if saved.len() == 0 {
        assert(download::brought_back(told, saved, cookies) == (
            s,
            Seq::<Task<Seq<char>>>::empty(),
        ));
    }
}

/// Whether two queues hold the same to keep, item by item.
spec fn keep_alike(a: Seq<QueueItem<Seq<char>>>, b: Seq<QueueItem<Seq<char>>>) -> bool {
    &&& a.len() == b.len()
    &&& forall|i: int|
        0 <= i < a.len() ==> download::kept(#[trigger] a[i]) == download::kept(b[i]) && (
        a[i].status is Completed <==> b[i].status is Completed)
}

proof fn lemma_keep_alike(s: Screen, t: Screen)
    requires
        keep_alike(s.items, t.items),
    ensures
        download::persisted(s) == download::persisted(t),
{
    law_what_is_not_completed_is_kept(s);
    law_what_is_not_completed_is_kept(t);
    let p = |k: int| !(s.items[k].status is Completed);
    let q = |k: int| !(t.items[k].status is Completed);
    assert forall|k: int| 0 <= k < s.items.len() implies (#[trigger] p(k)) == q(k) by {
        assert(download::kept(s.items[k]) == download::kept(t.items[k]));
    }
    seqs::lemma_same_positions(s.items.len(), p, q);
    seqs::lemma_positions(s.items.len(), p);
    let left = seqs::positions(s.items.len(), p);
    assert forall|m: int| 0 <= m < left.len() implies download::persisted(s)[m]
        == download::persisted(t)[m] by {
        let a = s.items[left[m]];
        let b = t.items[left[m]];
        assert(download::kept(a) == download::kept(b));
        assert(download::persisted(s)[m].url == a.url);
        assert(download::persisted(t)[m].url == b.url);
    }
    assert(download::persisted(s) =~= download::persisted(t));
}

/// Whatever changes what there is to keep is kept at once: a message after which nothing is saved
/// leaves that as it was. Only starting the queue, which may mark items as failed, is not followed
/// by a save of its own.
pub proof fn law_no_change_of_the_queue_is_lost(
    s: Screen,
    message: Message<Seq<char>>,
    settings: Settings,
    outside: Outside,
)
    requires
        laws::sound(s),
        !download::changes_queue(message),
        !(message is Start),
    ensures
        download::persisted(download::applied(s, message, settings, outside).0)
            == download::persisted(s),
{
    let t = download::applied(s, message, settings, outside).0;
    match message {
        Message::MetadataFetched(id, _) => {
            download::lemma_place(s.items, download::with_id(id));
        },
        Message::ThumbnailFetched(id, _) => {
            download::lemma_place(s.items, download::with_id(id));
        },
        Message::Report(Event::Progress(_)) => {
            if s.current is Some {
                download::lemma_place(s.items, download::with_id(s.current->0));
            }
        },
        _ => {},
    }
    assert(keep_alike(s.items, t.items));
    lemma_keep_alike(s, t);
}

/// What edits the queue or ends a download is saved; typing, looking up, and the course of a
/// download are not.
pub proof fn law_edits_of_the_queue_are_saved(message: Message<Seq<char>>)
    ensures
        message is AddUrl || message is RemoveItem || message is RetryItem || message
            is ClearFinished || message is ItemKind || message is ItemQuality
            ==> download::changes_queue(message),
        message matches Message::Report(event) ==> (download::changes_queue(message)
            <==> event is Finished),
        message is UrlInput || message is MetadataFetched || message is ThumbnailFetched || message
            is Start || message is Stop || message is OpenFolder || message is OpenItemFolder
            ==> !download::changes_queue(message),
{
}

/// An empty screen holds nothing and does nothing.
pub proof fn law_a_new_screen_is_empty(paths: Paths)
    ensures
        ({
            let s = download::empty_screen(paths);
            &&& s.paths == paths
            &&& s.items.len() == 0 && s.log.len() == 0 && s.files.len() == 0
            &&& s.url_input.len() == 0
            &&& !s.job && s.current is None && s.problem is None && s.last is None
            &&& s.progress == Map::<u32, super::progress::Progress>::empty()
            &&& s.next_id == 0 && s.repeats == 0 && s.lookups == 0
        }),
{
}

} // verus!
