//! The install state, a small key=value file.
use vstd::prelude::*;

use crate::seqs;
use crate::text;

verus! {

/// What a line records for `key`: what stands behind `key=`.
pub open spec fn recorded(line: Seq<char>, key: Seq<char>) -> Option<Seq<char>> {
    match text::after(line, key) {
        Some(rest) => text::after(rest, seq!['=']),
        None => None,
    }
}

/// The first value that some line records for `key`.
pub open spec fn first_recorded(lines: Seq<Seq<char>>, key: Seq<char>) -> Option<Seq<char>>
    decreases lines.len(),
{
    if lines.len() == 0 {
        None
    } else {
        match recorded(lines[0], key) {
            Some(value) => Some(value),
            None => first_recorded(lines.drop_first(), key),
        }
    }
}

/// What the state file says about `key`; an empty value says nothing.
pub open spec fn state_value(file: Seq<char>, key: Seq<char>) -> Option<Seq<char>> {
    match first_recorded(text::lines(file), key) {
        Some(value) => if value.len() > 0 {
            Some(value)
        } else {
            None
        },
        None => None,
    }
}

/// What stands before the first `=` of a line that has one.
pub open spec fn key_of(line: Seq<char>) -> Option<Seq<char>> {
    let n = text::lead(line, text::other_than('=')) as int;
    if n < line.len() {
        Some(line.take(n))
    } else {
        None
    }
}

/// Whether a line stays when `key` is written.
pub open spec fn stays(key: Seq<char>) -> spec_fn(Seq<char>) -> bool {
    |line: Seq<char>| key_of(line) != Some(key)
}

/// Whether a line belongs to `key`.
pub open spec fn belongs(key: Seq<char>) -> spec_fn(Seq<char>) -> bool {
    |line: Seq<char>| key_of(line) == Some(key)
}

/// The line that records `value` for `key`.
pub open spec fn record(key: Seq<char>, value: Seq<char>) -> Seq<char> {
    key + "="@ + value
}

/// The lines of the state file once `value` is written for `key`: those of the other keys, then
/// the new one.
pub open spec fn new_lines(file: Seq<char>, key: Seq<char>, value: Seq<char>) -> Seq<Seq<char>> {
    text::lines(file).filter(stays(key)).push(record(key, value))
}

/// The state file once `value` is written for `key`.
pub open spec fn new_state(file: Seq<char>, key: Seq<char>, value: Seq<char>) -> Seq<char> {
    text::join(new_lines(file, key, value), "\n"@) + "\n"@
}

/// What the state file `file` says about `key`.
pub fn read_state(file: &str, key: &str) -> (r: Option<String>)
    ensures
        text::opt_text(r) == state_value(file@, key@),
{
    let all: Vec<String> = text::split_lines(file);
    let ghost lines = text::texts(all@);
    let mut i: usize = 0;
    proof {
        assert(lines.skip(0) == lines);
    }
    while i < all.len()
        invariant
            i <= all.len(),
            lines == text::texts(all@),
            lines == text::lines(file@),
            first_recorded(lines, key@) == first_recorded(lines.skip(i as int), key@),
        decreases all.len() - i,
    {
        proof {
            assert(lines.skip(i as int)[0] == all@[i as int]@);
            assert(lines.skip(i as int).drop_first() == lines.skip(i + 1));
        }
        if let Some(rest) = text::strip_prefix(all[i].as_str(), key) {
            let value: Option<String> = text::strip_prefix(rest.as_str(), "=");
            proof {
                reveal_strlit("=");
                assert("="@ =~= seq!['=']);
            }
            if let Some(value) = value {
                if value.as_str().is_empty() {
                    return None;
                }
                return Some(value);
            }
        }
        i = i + 1;
    }
    None
}

/// The state file `file` once `value` is written for `key`.
pub fn write_state(file: &str, key: &str, value: &str) -> (r: String)
    ensures
        r@ == new_state(file@, key@, value@),
{
    let all: Vec<String> = text::split_lines(file);
    let ghost lines = text::texts(all@);
    let mut kept: Vec<String> = Vec::new();
    let mut i: usize = 0;
    proof {
        assert(lines.take(0).filter(stays(key@)) =~= Seq::empty());
    }
    while i < all.len()
        invariant
            i <= all.len(),
            lines == text::texts(all@),
            text::texts(kept@) == lines.take(i as int).filter(stays(key@)),
        decreases all.len() - i,
    {
        let line: Vec<char> = text::chars_of(all[i].as_str());
        let n: usize = text::skip_to(&line, 0, '=');
        proof {
            assert(line@.skip(0) == line@);
            assert(lines.take(i + 1).drop_last() == lines.take(i as int));
            assert(lines.take(i + 1).last() == line@);
            assert(line@.subrange(0, n as int) == line@.take(n as int));
            reveal(Seq::filter);
        }
        let same: bool = n < line.len() && text::piece(&line, 0, n) == key.to_owned();
        if !same {
            kept.push(all[i].clone());
            proof {
                assert(text::texts(kept@) =~= lines.take(i as int).filter(stays(key@)).push(line@));
            }
        }
        i = i + 1;
    }
    proof {
        assert(lines.take(i as int) == lines);
    }
    let ghost before = text::texts(kept@);
    kept.push(text::concat3(key, "=", value));
    proof {
        assert(text::texts(kept@) =~= before.push(record(key@, value@)));
    }
    let mut r: String = text::joined(&kept, "\n");
    r.append("\n");
    r
}

/// A key as the state file uses them: without the characters that end it.
pub open spec fn is_key(key: Seq<char>) -> bool {
    text::lacks(key, '=') && text::lacks(key, '\n')
}

/// A value that a line can hold: without a line feed, and without a carriage return at its end.
pub open spec fn is_value(value: Seq<char>) -> bool {
    text::lacks(value, '\n') && text::chomp(value) == value
}

/// A line that records something for a key has that key before its first `=`.
proof fn lemma_recorded_has_the_key(line: Seq<char>, key: Seq<char>)
    requires
        text::lacks(key, '='),
        recorded(line, key) is Some,
    ensures
        key_of(line) == Some(key),
{
    let n = key.len();
    let rest = line.skip(n as int);
    assert(rest.take(1)[0] == '=');
    assert(line[n as int] == '=');
    assert forall|i: int| 0 <= i < n implies text::other_than('=')(line[i]) by {
        assert(line.take(n as int)[i] == key[i]);
    }
    text::lemma_lead_is(line, text::other_than('='), n);
}

/// The new line records the value for its key.
proof fn lemma_record(key: Seq<char>, value: Seq<char>)
    ensures
        recorded(record(key, value), key) == Some(value),
        text::lacks(key, '=') ==> key_of(record(key, value)) == Some(key),
{
    reveal_strlit("=");
    let line = record(key, value);
    assert(line.take(key.len() as int) =~= key);
    let rest = line.skip(key.len() as int);
    assert(rest =~= "="@ + value);
    assert(rest.take(1) =~= seq!['=']);
    assert(rest.skip(1) =~= value);
    if text::lacks(key, '=') {
        lemma_recorded_has_the_key(line, key);
    }
}

/// What is recorded does not change when a carriage return at the end of another line goes.
proof fn lemma_chomped_records_less(line: Seq<char>, key: Seq<char>)
    requires
        recorded(text::chomp(line), key) is Some,
    ensures
        recorded(line, key) is Some,
{
    let short = text::chomp(line);
    let n = key.len() as int;
    assert(short.take(n) =~= line.take(n));
    assert(short.skip(n).take(1) =~= line.skip(n).take(1));
}

/// Lines that record nothing for `key` are passed over.
proof fn lemma_passed_over(front: Seq<Seq<char>>, back: Seq<Seq<char>>, key: Seq<char>)
    requires
        forall|i: int| 0 <= i < front.len() ==> recorded(#[trigger] front[i], key) is None,
    ensures
        first_recorded(front + back, key) == first_recorded(back, key),
    decreases front.len(),
{
    let all = front + back;
    if front.len() == 0 {
        assert(all =~= back);
    } else {
        assert(all[0] == front[0]);
        let rest = front.drop_first();
        assert forall|i: int| 0 <= i < rest.len() implies recorded(#[trigger] rest[i], key)
            is None by {
            assert(rest[i] == front[i + 1]);
        }
        assert(all.drop_first() =~= rest + back);
        lemma_passed_over(rest, back, key);
    }
}

/// What the lines of the written file are.
proof fn lemma_lines_of_new_state(file: Seq<char>, key: Seq<char>, value: Seq<char>)
    requires
        text::lacks(key, '\n'),
        is_value(value),
    ensures
        text::lines(new_state(file, key, value)) == new_lines(file, key, value).map_values(
            |l: Seq<char>| text::chomp(l),
        ),
        text::chomp(record(key, value)) == record(key, value),
{
    reveal_strlit("=");
    let parts = new_lines(file, key, value);
    let kept = text::lines(file).filter(stays(key));
    text::lemma_lines_lack_feeds(file);
    seqs::lemma_kept(text::lines(file), stays(key));
    assert forall|i: int| 0 <= i < parts.len() implies text::lacks(#[trigger] parts[i], '\n') by {
        if i < kept.len() {
            assert(kept.contains(parts[i]));
            let j = choose|j: int|
                0 <= j < text::lines(file).len() && text::lines(file)[j] == parts[i];
            assert(text::lacks(text::lines(file)[j], '\n'));
        } else {
            let line = record(key, value);
            assert forall|k: int| 0 <= k < line.len() implies #[trigger] line[k] != '\n' by {
                if k < key.len() {
                    assert(line[k] == key[k]);
                } else if k > key.len() {
                    assert(line[k] == value[k - key.len() - 1]);
                }
            }
        }
    }
    text::lemma_lines_of_joined(parts);
    let line = record(key, value);
    if value.len() > 0 {
        assert(line.last() == value.last());
    } else {
        assert(line.last() == '=');
    }
}

/// Whether something can be written for `key` into `file` and found again: the key has to fit into
/// a line, and what was written for it before, if anything, has to be recognised as that.
pub open spec fn can_record(file: Seq<char>, key: Seq<char>) -> bool {
    &&& text::lacks(key, '\n')
    &&& text::lacks(key, '=') || forall|i: int|
        0 <= i < text::lines(file).len() ==> recorded(#[trigger] text::lines(file)[i], key) is None
}

/// A value that was written is what is read for its key, whatever the file held before.
pub proof fn law_a_written_value_is_read_back(file: Seq<char>, key: Seq<char>, value: Seq<char>)
    requires
        can_record(file, key),
        is_value(value),
        value.len() > 0,
    ensures
        state_value(new_state(file, key, value), key) == Some(value),
{
    lemma_lines_of_new_state(file, key, value);
    lemma_record(key, value);
    let kept = text::lines(file).filter(stays(key));
    let front = kept.map_values(|l: Seq<char>| text::chomp(l));
    let back = seq![record(key, value)];
    seqs::lemma_kept(text::lines(file), stays(key));
    assert forall|i: int| 0 <= i < front.len() implies recorded(#[trigger] front[i], key)
        is None by {
        assert(kept.contains(kept[i]));
        assert(stays(key)(kept[i]));
        if recorded(front[i], key) is Some {
            lemma_chomped_records_less(kept[i], key);
            if text::lacks(key, '=') {
                lemma_recorded_has_the_key(kept[i], key);
            } else {
                let j = choose|j: int|
                    0 <= j < text::lines(file).len() && text::lines(file)[j] == kept[i];
                assert(recorded(text::lines(file)[j], key) is None);
            }
        }
    }
    lemma_passed_over(front, back, key);
    assert(text::lines(new_state(file, key, value)) =~= front + back);
    assert(back.drop_first() =~= Seq::<Seq<char>>::empty());
}

/// A line has the same key without a carriage return at its end, when it has one then.
proof fn lemma_chomped_keeps_the_key(line: Seq<char>, key: Seq<char>)
    requires
        key_of(text::chomp(line)) == Some(key),
    ensures
        key_of(line) == Some(key),
{
    let short = text::chomp(line);
    let n = text::lead(short, text::other_than('='));
    text::lemma_lead_props(short, text::other_than('='));
    assert forall|i: int| 0 <= i < n implies text::other_than('=')(line[i]) by {
        assert(short[i] == line[i]);
    }
    assert(line[n as int] == short[n as int]);
    text::lemma_lead_is(line, text::other_than('='), n);
    assert(short.take(n as int) =~= line.take(n as int));
}

/// Once a value was written, exactly one line of the file belongs to its key: the one that records
/// it.
pub proof fn law_one_line_belongs_to_a_written_key(
    file: Seq<char>,
    key: Seq<char>,
    value: Seq<char>,
)
    requires
        is_key(key),
        is_value(value),
    ensures
        text::lines(new_state(file, key, value)).filter(belongs(key)) == seq![record(key, value)],
{
    lemma_lines_of_new_state(file, key, value);
    lemma_record(key, value);
    let kept = text::lines(file).filter(stays(key));
    let front = kept.map_values(|l: Seq<char>| text::chomp(l));
    seqs::lemma_kept(text::lines(file), stays(key));
    assert forall|i: int| 0 <= i < front.len() implies !belongs(key)(#[trigger] front[i]) by {
        assert(kept.contains(kept[i]));
        assert(stays(key)(kept[i]));
        if belongs(key)(front[i]) {
            lemma_chomped_keeps_the_key(kept[i], key);
        }
    }
    seqs::lemma_none_kept(front, belongs(key));
    seqs::lemma_filter_push(front, record(key, value), belongs(key));
    assert(text::lines(new_state(file, key, value)) =~= front.push(record(key, value)));
    assert(Seq::<Seq<char>>::empty().push(record(key, value)) =~= seq![record(key, value)]);
}

/// Dropping lines that record nothing for `other` does not change what is read for it.
proof fn lemma_filter_keeps_others(lines: Seq<Seq<char>>, key: Seq<char>, other: Seq<char>)
    requires
        text::lacks(other, '='),
        key != other,
    ensures
        first_recorded(lines.filter(stays(key)), other) == first_recorded(lines, other),
    decreases lines.len(),
{
    if lines.len() > 0 {
        let rest = lines.drop_first();
        lemma_filter_keeps_others(rest, key, other);
        assert(lines =~= seq![lines[0]] + rest);
        seqs::lemma_filter_front(lines[0], rest, stays(key));
        if stays(key)(lines[0]) {
            assert(lines.filter(stays(key)).drop_first() =~= rest.filter(stays(key)));
        } else if recorded(lines[0], other) is Some {
            lemma_recorded_has_the_key(lines[0], other);
        }
    } else {
        reveal(Seq::filter);
    }
}

/// Writing one key leaves what is read for every other key as it was, in a file whose lines do
/// not end in a bare carriage return.
pub proof fn law_other_keys_keep_their_value(
    file: Seq<char>,
    key: Seq<char>,
    value: Seq<char>,
    other: Seq<char>,
)
    requires
        is_key(key),
        is_value(value),
        text::lacks(other, '='),
        other != key,
        forall|i: int|
            0 <= i < text::lines(file).len() ==> text::chomp(#[trigger] text::lines(file)[i])
                == text::lines(file)[i],
    ensures
        state_value(new_state(file, key, value), other) == state_value(file, other),
{
    lemma_lines_of_new_state(file, key, value);
    lemma_record(key, value);
    let all = text::lines(file);
    let kept = all.filter(stays(key));
    seqs::lemma_kept(all, stays(key));
    let parts = new_lines(file, key, value);
    assert(parts.map_values(|l: Seq<char>| text::chomp(l)) =~= parts) by {
        assert forall|i: int| 0 <= i < parts.len() implies text::chomp(parts[i]) == parts[i] by {
            if i < kept.len() {
                assert(kept.contains(parts[i]));
                let j = choose|j: int| 0 <= j < all.len() && all[j] == parts[i];
                assert(text::chomp(all[j]) == all[j]);
            }
        }
    }
    lemma_filter_keeps_others(all, key, other);
    lemma_last_does_not_matter(kept, record(key, value), other);
}

/// A last line that records nothing for `key` does not change what is read for it.
proof fn lemma_last_does_not_matter(lines: Seq<Seq<char>>, last: Seq<char>, key: Seq<char>)
    requires
        text::lacks(key, '='),
        key_of(last) != Some(key),
    ensures
        first_recorded(lines.push(last), key) == first_recorded(lines, key),
    decreases lines.len(),
{
    let all = lines.push(last);
    if lines.len() == 0 {
        if recorded(last, key) is Some {
            lemma_recorded_has_the_key(last, key);
        }
        assert(all.drop_first() =~= lines);
    } else {
        assert(all[0] == lines[0]);
        assert(all.drop_first() =~= lines.drop_first().push(last));
        lemma_last_does_not_matter(lines.drop_first(), last, key);
    }
}

} // verus!
