//! Text as the rest of the library reads and writes it: lines, words, prefixes and numbers.
//!
//! The contracts speak of a text as the sequence of its characters.
use vstd::prelude::*;

verus! {

// ---------------------------------------------------------------------------
// Building strings
// ---------------------------------------------------------------------------

/// `String::push` puts one character at the end of the string and leaves the rest as it was.
pub assume_specification[ String::push ](s: &mut String, ch: char)
    ensures
        final(s)@ == old(s)@.push(ch),
;

/// The characters of `s`, in order.
pub fn chars_of(s: &str) -> (v: Vec<char>)
    ensures
        v@ == s@,
{
    let mut v: Vec<char> = Vec::new();
    for c in it: s.chars()
        invariant
            it.seq() == s@,
            v@ == s@.take(it.index()),
    {
        v.push(c);
        proof {
            assert(s@.take(it.index() + 1) == s@.take(it.index()).push(s@[it.index()]));
        }
    }
    proof {
        assert(s@.take(s@.len() as int) == s@);
    }
    v
}

/// The characters `from..to` of `v` as a string.
pub fn piece(v: &Vec<char>, from: usize, to: usize) -> (r: String)
    requires
        from <= to <= v.len(),
    ensures
        r@ == v@.subrange(from as int, to as int),
{
    let mut r: String = String::new();
    let mut i: usize = from;
    while i < to
        invariant
            from <= i <= to <= v.len(),
            r@ == v@.subrange(from as int, i as int),
        decreases to - i,
    {
        r.push(v[i]);
        proof {
            assert(v@.subrange(from as int, i + 1) == v@.subrange(from as int, i as int).push(
                v@[i as int],
            ));
        }
        i = i + 1;
    }
    r
}

/// `a` followed by `b`.
pub fn concat2(a: &str, b: &str) -> (r: String)
    ensures
        r@ == a@ + b@,
{
    let mut r: String = a.to_owned();
    r.append(b);
    r
}

/// `a`, `b` and `c` in a row.
pub fn concat3(a: &str, b: &str, c: &str) -> (r: String)
    ensures
        r@ == a@ + b@ + c@,
{
    let mut r: String = concat2(a, b);
    r.append(c);
    r
}

/// The texts behind a sequence of strings.
pub open spec fn texts(v: Seq<String>) -> Seq<Seq<char>> {
    v.map_values(|s: String| s@)
}

/// The text behind an optional string.
pub open spec fn opt_text(o: Option<String>) -> Option<Seq<char>> {
    match o {
        Some(s) => Some(s@),
        None => None,
    }
}

// ---------------------------------------------------------------------------
// Leading runs
// ---------------------------------------------------------------------------

/// How many characters at the start of `s` satisfy `p`.
pub open spec fn lead(s: Seq<char>, p: spec_fn(char) -> bool) -> nat
    decreases s.len(),
{
    if s.len() == 0 || !p(s[0]) {
        0
    } else {
        1 + lead(s.drop_first(), p)
    }
}

/// `lead` is the one length whose characters all satisfy `p` and that ends at one that does not.
pub proof fn lemma_lead_is(s: Seq<char>, p: spec_fn(char) -> bool, n: nat)
    requires
        n <= s.len(),
        forall|i: int| 0 <= i < n ==> p(s[i]),
        n == s.len() || !p(s[n as int]),
    ensures
        lead(s, p) == n,
    decreases s.len(),
{
    if n > 0 {
        assert(p(s[0]));
        let rest = s.drop_first();
        assert forall|i: int| 0 <= i < n - 1 implies p(rest[i]) by {
            assert(rest[i] == s[i + 1]);
        }
        lemma_lead_is(rest, p, (n - 1) as nat);
    }
}

/// What `lead` counts.
pub proof fn lemma_lead_props(s: Seq<char>, p: spec_fn(char) -> bool)
    ensures
        lead(s, p) <= s.len(),
        forall|i: int| 0 <= i < lead(s, p) ==> p(#[trigger] s[i]),
        lead(s, p) < s.len() ==> !p(s[lead(s, p) as int]),
    decreases s.len(),
{
    if s.len() > 0 && p(s[0]) {
        let rest = s.drop_first();
        lemma_lead_props(rest, p);
        assert forall|i: int| 0 <= i < lead(s, p) implies p(#[trigger] s[i]) by {
            if i > 0 {
                assert(rest[i - 1] == s[i]);
            }
        }
    }
}

/// Unicode's `White_Space` property.
pub open spec fn is_white(c: char) -> bool {
    let n = c as u32;
    ||| 0x09 <= n <= 0x0D
    ||| n == 0x20
    ||| n == 0x85
    ||| n == 0xA0
    ||| n == 0x1680
    ||| 0x2000 <= n <= 0x200A
    ||| n == 0x2028
    ||| n == 0x2029
    ||| n == 0x202F
    ||| n == 0x205F
    ||| n == 0x3000
}

/// Whether `c` is white space.
pub fn white_char(c: char) -> (r: bool)
    ensures
        r == is_white(c),
{
    let n: u32 = c as u32;
    (0x09 <= n && n <= 0x0D) || n == 0x20 || n == 0x85 || n == 0xA0 || n == 0x1680 || (0x2000 <= n
        && n <= 0x200A) || n == 0x2028 || n == 0x2029 || n == 0x202F || n == 0x205F || n == 0x3000
}

pub open spec fn white() -> spec_fn(char) -> bool {
    |c: char| is_white(c)
}

pub open spec fn dark() -> spec_fn(char) -> bool {
    |c: char| !is_white(c)
}

pub open spec fn other_than(x: char) -> spec_fn(char) -> bool {
    |c: char| c != x
}

/// The first position at or after `from` that is not white space.
pub fn skip_white(v: &Vec<char>, from: usize) -> (n: usize)
    requires
        from <= v.len(),
    ensures
        n == from + lead(v@.skip(from as int), white()),
        from <= n <= v.len(),
        forall|i: int| from <= i < n ==> is_white(#[trigger] v@[i]),
        n < v.len() ==> !is_white(v@[n as int]),
{
    let mut n: usize = from;
    while n < v.len() && white_char(v[n])
        invariant
            from <= n <= v.len(),
            forall|i: int| from <= i < n ==> is_white(#[trigger] v@[i]),
        decreases v.len() - n,
    {
        n = n + 1;
    }
    proof {
        lemma_lead_is(v@.skip(from as int), white(), (n - from) as nat);
    }
    n
}

/// The first position at or after `from` that is white space.
pub fn skip_dark(v: &Vec<char>, from: usize) -> (n: usize)
    requires
        from <= v.len(),
    ensures
        n == from + lead(v@.skip(from as int), dark()),
        from <= n <= v.len(),
        forall|i: int| from <= i < n ==> !is_white(#[trigger] v@[i]),
        n < v.len() ==> is_white(v@[n as int]),
{
    let mut n: usize = from;
    while n < v.len() && !white_char(v[n])
        invariant
            from <= n <= v.len(),
            forall|i: int| from <= i < n ==> !is_white(#[trigger] v@[i]),
        decreases v.len() - n,
    {
        n = n + 1;
    }
    proof {
        lemma_lead_is(v@.skip(from as int), dark(), (n - from) as nat);
    }
    n
}

/// The first position at or after `from` that holds `x`, or the length.
pub fn skip_to(v: &Vec<char>, from: usize, x: char) -> (n: usize)
    requires
        from <= v.len(),
    ensures
        n == from + lead(v@.skip(from as int), other_than(x)),
        from <= n <= v.len(),
        forall|i: int| from <= i < n ==> #[trigger] v@[i] != x,
        n < v.len() ==> v@[n as int] == x,
{
    let mut n: usize = from;
    while n < v.len() && v[n] != x
        invariant
            from <= n <= v.len(),
            forall|i: int| from <= i < n ==> #[trigger] v@[i] != x,
        decreases v.len() - n,
    {
        n = n + 1;
    }
    proof {
        lemma_lead_is(v@.skip(from as int), other_than(x), (n - from) as nat);
    }
    n
}

// ---------------------------------------------------------------------------
// Trimming
// ---------------------------------------------------------------------------

/// `s` without the white space at its start.
pub open spec fn trim_start(s: Seq<char>) -> Seq<char> {
    s.skip(lead(s, white()) as int)
}

/// `s` without the white space at its end.
pub open spec fn trim_end(s: Seq<char>) -> Seq<char>
    decreases s.len(),
{
    if s.len() > 0 && is_white(s.last()) {
        trim_end(s.drop_last())
    } else {
        s
    }
}

/// `s` without the white space at either end.
pub open spec fn trim(s: Seq<char>) -> Seq<char> {
    trim_end(trim_start(s))
}

/// Where the trimmed text lies in `v`.
fn trim_bounds(v: &Vec<char>) -> (r: (usize, usize))
    ensures
        r.0 <= r.1 <= v.len(),
        trim(v@) == v@.subrange(r.0 as int, r.1 as int),
{
    let from: usize = skip_white(v, 0);
    let mut to: usize = v.len();
    proof {
        assert(v@.skip(0) == v@);
        assert(v@.skip(from as int) == v@.subrange(from as int, to as int));
    }
    while from < to && white_char(v[to - 1])
        invariant
            from <= to <= v.len(),
            trim(v@) == trim_end(v@.subrange(from as int, to as int)),
        decreases to,
    {
        proof {
            let t = v@.subrange(from as int, to as int);
            assert(t.drop_last() == v@.subrange(from as int, to - 1));
        }
        to = to - 1;
    }
    (from, to)
}

/// `s` without the white space at either end.
pub fn trimmed(s: &str) -> (r: String)
    ensures
        r@ == trim(s@),
{
    let v: Vec<char> = chars_of(s);
    let (from, to) = trim_bounds(&v);
    piece(&v, from, to)
}

/// Whether `s` holds nothing but white space.
pub fn is_blank(s: &str) -> (r: bool)
    ensures
        r == (trim(s@).len() == 0),
{
    let v: Vec<char> = chars_of(s);
    let (from, to) = trim_bounds(&v);
    from == to
}

// ---------------------------------------------------------------------------
// Lines, words and fields
// ---------------------------------------------------------------------------

/// `s` without one carriage return at its end.
pub open spec fn chomp(s: Seq<char>) -> Seq<char> {
    if s.len() > 0 && s.last() == '\r' {
        s.drop_last()
    } else {
        s
    }
}

/// The lines of `s`. A line ends at a line feed, and a carriage return right before that belongs
/// to the ending; the last line may have no ending.
pub open spec fn lines(s: Seq<char>) -> Seq<Seq<char>>
    decreases s.len(),
{
    let n = lead(s, other_than('\n')) as int;
    if s.len() == 0 {
        Seq::empty()
    } else if n >= s.len() {
        seq![s]
    } else {
        seq![chomp(s.take(n))] + lines(s.skip(n + 1))
    }
}

/// The lines of `s`.
pub fn split_lines(s: &str) -> (r: Vec<String>)
    ensures
        texts(r@) == lines(s@),
{
    let v: Vec<char> = chars_of(s);
    let mut r: Vec<String> = Vec::new();
    let mut at: usize = 0;
    proof {
        assert(v@.skip(0) == v@);
        assert(texts(r@) + lines(v@) == lines(v@));
    }
    while at < v.len()
        invariant
            at <= v.len(),
            v@ == s@,
            texts(r@) + lines(v@.skip(at as int)) == lines(s@),
        decreases v.len() - at,
    {
        let end: usize = skip_to(&v, at, '\n');
        let ghost rest = v@.skip(at as int);
        let ghost before = texts(r@);
        proof {
            assert(rest.take(end - at) == v@.subrange(at as int, end as int));
        }
        if end == v.len() {
            r.push(piece(&v, at, end));
            proof {
                assert(v@.subrange(at as int, end as int) == rest);
                assert(texts(r@) == before + seq![rest]);
                assert(v@.skip(end as int) == Seq::<char>::empty());
                assert(texts(r@) + lines(v@.skip(end as int)) == texts(r@));
            }
            at = end;
        } else {
            let stop: usize = if end > at && v[end - 1] == '\r' {
                end - 1
            } else {
                end
            };
            r.push(piece(&v, at, stop));
            proof {
                let line = v@.subrange(at as int, end as int);
                assert(v@.subrange(at as int, stop as int) == chomp(line));
                assert(rest.skip(end - at + 1) == v@.skip(end + 1));
                assert(texts(r@) == before + seq![chomp(line)]);
                assert(texts(r@) + lines(v@.skip(end + 1)) == before + (seq![chomp(line)] + lines(
                    v@.skip(end + 1),
                )));
            }
            at = end + 1;
        }
    }
    proof {
        assert(v@.skip(at as int) == Seq::<char>::empty());
        assert(texts(r@) + lines(v@.skip(at as int)) == texts(r@));
    }
    r
}

/// The words of `s`: its longest runs without white space.
pub open spec fn words(s: Seq<char>) -> Seq<Seq<char>>
    decreases s.len(),
{
    let t = trim_start(s);
    let n = lead(t, dark()) as int;
    if t.len() == 0 {
        Seq::empty()
    } else {
        proof {
            lemma_lead_props(s, white());
            lemma_lead_props(t, dark());
            assert(t[0] == s[lead(s, white()) as int]);
        }
        seq![t.take(n)] + words(t.skip(n))
    }
}

/// The words of `s`.
pub fn split_words(s: &str) -> (r: Vec<String>)
    ensures
        texts(r@) == words(s@),
{
    let v: Vec<char> = chars_of(s);
    let mut r: Vec<String> = Vec::new();
    proof {
        assert(v@.skip(0) == v@);
        assert(texts(r@) + words(v@) == words(v@));
    }
    let mut at: usize = 0;
    loop
        invariant
            at <= v.len(),
            v@ == s@,
            texts(r@) + words(v@.skip(at as int)) == words(s@),
        ensures
            texts(r@) == words(s@),
        decreases v.len() - at,
    {
        let from: usize = skip_white(&v, at);
        let ghost rest = v@.skip(at as int);
        let ghost before = texts(r@);
        proof {
            assert(trim_start(rest) == v@.skip(from as int));
        }
        if from == v.len() {
            proof {
                assert(words(rest) == Seq::<Seq<char>>::empty());
                assert(texts(r@) + words(rest) == texts(r@));
            }
            break;
        }
        let to: usize = skip_dark(&v, from);
        r.push(piece(&v, from, to));
        proof {
            let t = v@.skip(from as int);
            assert(t.take(to - from) == v@.subrange(from as int, to as int));
            assert(t.skip(to - from) == v@.skip(to as int));
            assert(texts(r@) == before + seq![t.take(to - from)]);
            assert(texts(r@) + words(v@.skip(to as int)) == before + (seq![t.take(to - from)]
                + words(v@.skip(to as int))));
            assert(to > from);
        }
        at = to;
    }
    r
}

/// Whether `part` stands somewhere in `s`, in one piece.
pub open spec fn part_of(part: Seq<char>, s: Seq<char>) -> bool {
    exists|from: int, to: int|
        0 <= from <= to <= s.len() && part == #[trigger] s.subrange(from, to)
}

/// Whether `s` holds no white space.
pub open spec fn lacks_white(s: Seq<char>) -> bool {
    forall|i: int| 0 <= i < s.len() ==> !is_white(#[trigger] s[i])
}

/// The words of a text stand in it, hold something, and hold no white space.
pub proof fn lemma_words(s: Seq<char>)
    ensures
        forall|i: int|
            0 <= i < words(s).len() ==> {
                &&& part_of(#[trigger] words(s)[i], s)
                &&& words(s)[i].len() > 0
                &&& lacks_white(words(s)[i])
            },
    decreases s.len(),
{
    lemma_lead_props(s, white());
    let from = lead(s, white()) as int;
    let t = trim_start(s);
    lemma_lead_props(t, dark());
    let n = lead(t, dark()) as int;
    if t.len() > 0 {
        let rest = t.skip(n);
        assert(t[0] == s[from]);
        assert(dark()(t[0]));
        lemma_words(rest);
        assert(t.take(n) =~= s.subrange(from, from + n));
        assert forall|i: int| 0 <= i < n implies !is_white(#[trigger] t.take(n)[i]) by {
            assert(dark()(t[i]));
        }
        assert forall|i: int| 0 <= i < words(s).len() implies {
            &&& part_of(#[trigger] words(s)[i], s)
            &&& words(s)[i].len() > 0
            &&& lacks_white(words(s)[i])
        } by {
            if i > 0 {
                let word = words(rest)[i - 1];
                assert(words(s)[i] == word);
                let (a, b) = choose|a: int, b: int|
                    0 <= a <= b <= rest.len() && word == #[trigger] rest.subrange(a, b);
                assert(word =~= s.subrange(from + n + a, from + n + b));
            }
        }
    }
}

/// A word, a space and the rest.
proof fn lemma_words_front(word: Seq<char>, rest: Seq<char>)
    requires
        word.len() > 0,
        lacks_white(word),
    ensures
        words(word + seq![' '] + rest) == seq![word] + words(rest),
        words(word) == seq![word],
{
    let n = word.len() as int;
    let s = word + seq![' '] + rest;
    assert forall|i: int| 0 <= i < n implies dark()(#[trigger] s[i]) by {
        assert(s[i] == word[i]);
    }
    lemma_lead_is(s, white(), 0);
    assert(trim_start(s) =~= s);
    assert(s[n] == ' ');
    lemma_lead_is(s, dark(), n as nat);
    assert(s.take(n) =~= word);
    let tail = s.skip(n);
    assert(tail =~= seq![' '] + rest);
    assert(tail[0] == ' ' && tail.drop_first() =~= rest);
    lemma_lead_props(rest, white());
    assert(white()(' '));
    assert(lead(tail, white()) == 1 + lead(rest, white()));
    assert(trim_start(tail) =~= trim_start(rest));
    assert(words(tail) == words(rest));
    assert forall|i: int| 0 <= i < n implies dark()(#[trigger] word[i]) by {}
    lemma_lead_is(word, white(), 0);
    assert(trim_start(word) =~= word);
    lemma_lead_is(word, dark(), n as nat);
    assert(word.take(n) =~= word);
    let none = word.skip(n);
    lemma_lead_props(none, white());
    assert(trim_start(none).len() == 0);
    assert(words(none) =~= Seq::<Seq<char>>::empty());
    assert(words(word) =~= seq![word]);
}

/// Words that are written with a space between each two are found again.
pub proof fn lemma_words_of_joined(parts: Seq<Seq<char>>)
    requires
        forall|i: int|
            0 <= i < parts.len() ==> (#[trigger] parts[i]).len() > 0 && lacks_white(parts[i]),
    ensures
        words(join(parts, seq![' '])) == parts,
    decreases parts.len(),
{
    let sep = seq![' '];
    if parts.len() == 0 {
        assert(trim_start(join(parts, sep)).len() == 0);
    } else if parts.len() == 1 {
        lemma_words_front(parts[0], Seq::empty());
    } else {
        let rest = parts.drop_first();
        assert forall|i: int| 0 <= i < rest.len() implies (#[trigger] rest[i]).len() > 0
            && lacks_white(rest[i]) by {
            assert(rest[i] == parts[i + 1]);
        }
        lemma_words_of_joined(rest);
        lemma_join_front(parts, sep);
        lemma_words_front(parts[0], join(rest, sep));
    }
    assert(words(join(parts, sep)) =~= parts);
}

proof fn lemma_trim_end_keeps(s: Seq<char>)
    requires
        s.len() > 0,
        !is_white(s[0]),
    ensures
        trim_end(s).len() > 0,
    decreases s.len(),
{
    if is_white(s.last()) {
        assert(s.len() > 1);
        assert(s.drop_last()[0] == s[0]);
        lemma_trim_end_keeps(s.drop_last());
    }
}

/// A text has no words exactly when nothing is left of it without white space.
pub proof fn lemma_blank_has_no_words(s: Seq<char>)
    ensures
        words(s).len() == 0 <==> trim(s).len() == 0,
{
    lemma_lead_props(s, white());
    let t = trim_start(s);
    if t.len() > 0 {
        assert(t[0] == s[lead(s, white()) as int]);
        assert(!white()(t[0]));
        lemma_trim_end_keeps(t);
        lemma_lead_props(t, dark());
    }
}

/// The fields of `s` between the separators `x`; there is always at least one.
pub open spec fn fields(s: Seq<char>, x: char) -> Seq<Seq<char>>
    decreases s.len(),
{
    let n = lead(s, other_than(x)) as int;
    if n >= s.len() {
        seq![s]
    } else {
        seq![s.take(n)] + fields(s.skip(n + 1), x)
    }
}

/// The fields of `s` between the separators `x`.
pub fn split_fields(s: &str, x: char) -> (r: Vec<String>)
    ensures
        texts(r@) == fields(s@, x),
{
    let v: Vec<char> = chars_of(s);
    let mut r: Vec<String> = Vec::new();
    proof {
        assert(v@.skip(0) == v@);
        assert(texts(r@) + fields(v@, x) == fields(v@, x));
    }
    let mut at: usize = 0;
    loop
        invariant_except_break
            at <= v.len(),
            v@ == s@,
            texts(r@) + fields(v@.skip(at as int), x) == fields(s@, x),
        ensures
            texts(r@) == fields(s@, x),
        decreases v.len() - at,
    {
        let end: usize = skip_to(&v, at, x);
        let ghost rest = v@.skip(at as int);
        let ghost before = texts(r@);
        r.push(piece(&v, at, end));
        proof {
            assert(rest.take(end - at) == v@.subrange(at as int, end as int));
            assert(texts(r@) == before + seq![v@.subrange(at as int, end as int)]);
        }
        if end == v.len() {
            proof {
                assert(v@.subrange(at as int, end as int) == rest);
            }
            break;
        }
        proof {
            assert(rest.skip(end - at + 1) == v@.skip(end + 1));
            assert(texts(r@) + fields(v@.skip(end + 1), x) == before + (seq![rest.take(end - at)]
                + fields(v@.skip(end + 1), x)));
        }
        at = end + 1;
    }
    r
}

/// The parts in a row, with `sep` between each two.
pub open spec fn join(parts: Seq<Seq<char>>, sep: Seq<char>) -> Seq<char>
    decreases parts.len(),
{
    if parts.len() == 0 {
        Seq::empty()
    } else if parts.len() == 1 {
        parts[0]
    } else {
        join(parts.drop_last(), sep) + sep + parts.last()
    }
}

/// The parts in a row, with `sep` between each two.
pub fn joined(parts: &Vec<String>, sep: &str) -> (r: String)
    ensures
        r@ == join(texts(parts@), sep@),
{
    let mut r: String = String::new();
    let mut i: usize = 0;
    while i < parts.len()
        invariant
            i <= parts.len(),
            r@ == join(texts(parts@).take(i as int), sep@),
        decreases parts.len() - i,
    {
        let ghost all = texts(parts@);
        if i > 0 {
            r.append(sep);
        }
        r.append(parts[i].as_str());
        proof {
            let next = all.take(i + 1);
            assert(next.drop_last() == all.take(i as int));
            assert(next.last() == parts@[i as int]@);
            if i == 0 {
                assert(r@ == next[0]);
            }
        }
        i = i + 1;
    }
    proof {
        assert(texts(parts@).take(i as int) == texts(parts@));
    }
    r
}

/// Whether `x` does not occur in `s`.
pub open spec fn lacks(s: Seq<char>, x: char) -> bool {
    forall|i: int| 0 <= i < s.len() ==> #[trigger] s[i] != x
}

/// A line without a line feed, its ending, and the rest.
pub proof fn lemma_lines_front(line: Seq<char>, rest: Seq<char>)
    requires
        lacks(line, '\n'),
    ensures
        lines(line + seq!['\n'] + rest) == seq![chomp(line)] + lines(rest),
{
    let s = line + seq!['\n'] + rest;
    lemma_lead_is(s, other_than('\n'), line.len());
    assert(s.take(line.len() as int) == line);
    assert(s.skip(line.len() as int + 1) == rest);
}

/// Joining from the front.
pub proof fn lemma_join_front(parts: Seq<Seq<char>>, sep: Seq<char>)
    requires
        parts.len() >= 2,
    ensures
        join(parts, sep) == parts[0] + sep + join(parts.drop_first(), sep),
    decreases parts.len(),
{
    let rest = parts.drop_first();
    if parts.len() == 2 {
        assert(parts.drop_last().len() == 1);
        assert(join(parts.drop_last(), sep) == parts[0]);
        assert(rest.len() == 1);
    } else {
        lemma_join_front(parts.drop_last(), sep);
        assert(parts.drop_last().drop_first() == rest.drop_last());
        assert(join(parts, sep) =~= parts[0] + sep + join(rest, sep));
    }
}

/// Lines that are written one per line are read back, each without a carriage return at its end.
pub proof fn lemma_lines_of_joined(parts: Seq<Seq<char>>)
    requires
        parts.len() > 0,
        forall|i: int| 0 <= i < parts.len() ==> lacks(#[trigger] parts[i], '\n'),
    ensures
        lines(join(parts, "\n"@) + "\n"@) == parts.map_values(|p: Seq<char>| chomp(p)),
    decreases parts.len(),
{
    reveal_strlit("\n");
    assert("\n"@ =~= seq!['\n']);
    let nl = seq!['\n'];
    if parts.len() == 1 {
        let none = Seq::<char>::empty();
        lemma_lines_front(parts[0], none);
        assert(parts[0] + nl + none =~= parts[0] + nl);
        assert(lines(none) =~= Seq::<Seq<char>>::empty());
    } else {
        let rest = parts.drop_first();
        lemma_join_front(parts, nl);
        assert forall|i: int| 0 <= i < rest.len() implies lacks(#[trigger] rest[i], '\n') by {
            assert(rest[i] == parts[i + 1]);
        }
        lemma_lines_of_joined(rest);
        lemma_lines_front(parts[0], join(rest, nl) + nl);
        assert(join(parts, nl) + nl =~= parts[0] + nl + (join(rest, nl) + nl));
    }
    assert(lines(join(parts, nl) + nl) =~= parts.map_values(|p: Seq<char>| chomp(p)));
}

/// There is always a field.
pub proof fn lemma_some_field(s: Seq<char>, x: char)
    ensures
        fields(s, x).len() > 0,
{
}

/// A field without separator, the separator, and the rest.
proof fn lemma_fields_front(field: Seq<char>, rest: Seq<char>, x: char)
    requires
        lacks(field, x),
    ensures
        fields(field + seq![x] + rest, x) == seq![field] + fields(rest, x),
{
    let s = field + seq![x] + rest;
    lemma_lead_is(s, other_than(x), field.len());
    assert(s.take(field.len() as int) == field);
    assert(s.skip(field.len() as int + 1) == rest);
}

/// Fields that are joined are found again.
pub proof fn lemma_fields_of_joined(parts: Seq<Seq<char>>, x: char)
    requires
        parts.len() > 0,
        forall|i: int| 0 <= i < parts.len() ==> lacks(#[trigger] parts[i], x),
    ensures
        fields(join(parts, seq![x]), x) == parts,
    decreases parts.len(),
{
    if parts.len() == 1 {
        lemma_lead_is(parts[0], other_than(x), parts[0].len());
    } else {
        let rest = parts.drop_first();
        assert forall|i: int| 0 <= i < rest.len() implies lacks(#[trigger] rest[i], x) by {
            assert(rest[i] == parts[i + 1]);
        }
        lemma_fields_of_joined(rest, x);
        lemma_join_front(parts, seq![x]);
        lemma_fields_front(parts[0], join(rest, seq![x]), x);
    }
    assert(fields(join(parts, seq![x]), x) =~= parts);
}

/// No field holds the separator, nor anything that the text doesn't hold.
pub proof fn lemma_fields_lack(s: Seq<char>, x: char, y: char)
    requires
        y == x || lacks(s, y),
    ensures
        forall|i: int| 0 <= i < fields(s, x).len() ==> lacks(#[trigger] fields(s, x)[i], y),
    decreases s.len(),
{
    lemma_lead_props(s, other_than(x));
    let n = lead(s, other_than(x)) as int;
    assert forall|i: int| 0 <= i < n && i < s.len() implies #[trigger] s[i] != y by {
        assert(other_than(x)(s[i]));
    }
    if n < s.len() {
        let rest = s.skip(n + 1);
        assert forall|i: int| 0 <= i < rest.len() && y != x implies #[trigger] rest[i] != y by {
            assert(rest[i] == s[n + 1 + i]);
        }
        lemma_fields_lack(rest, x, y);
        assert(lacks(s.take(n), y));
        assert forall|i: int| 0 <= i < fields(s, x).len() implies lacks(
            #[trigger] fields(s, x)[i],
            y,
        ) by {
            if i > 0 {
                assert(fields(s, x)[i] == fields(rest, x)[i - 1]);
            }
        }
    }
}

/// What is missing in the parts and in the separator is missing once they are joined.
pub proof fn lemma_join_lacks(parts: Seq<Seq<char>>, sep: Seq<char>, y: char)
    requires
        forall|i: int| 0 <= i < parts.len() ==> lacks(#[trigger] parts[i], y),
        lacks(sep, y),
    ensures
        lacks(join(parts, sep), y),
    decreases parts.len(),
{
    if parts.len() == 1 {
        assert(lacks(parts[0], y));
    } else if parts.len() > 1 {
        let front = parts.drop_last();
        assert forall|i: int| 0 <= i < front.len() implies lacks(#[trigger] front[i], y) by {
            assert(front[i] == parts[i]);
        }
        lemma_join_lacks(front, sep, y);
        assert(lacks(parts[parts.len() - 1], y));
        let all = join(parts, sep);
        assert forall|i: int| 0 <= i < all.len() implies #[trigger] all[i] != y by {
            let a = join(front, sep).len();
            if i < a {
                assert(all[i] == join(front, sep)[i]);
            } else if i < a + sep.len() {
                assert(all[i] == sep[i - a]);
            } else {
                assert(all[i] == parts.last()[i - a - sep.len()]);
            }
        }
    }
}

/// No line holds a line feed.
pub proof fn lemma_lines_lack_feeds(s: Seq<char>)
    ensures
        forall|i: int| 0 <= i < lines(s).len() ==> lacks(#[trigger] lines(s)[i], '\n'),
    decreases s.len(),
{
    lemma_lead_props(s, other_than('\n'));
    let n = lead(s, other_than('\n')) as int;
    if s.len() > 0 {
        if n >= s.len() {
            assert forall|i: int| 0 <= i < s.len() implies #[trigger] s[i] != '\n' by {
                assert(other_than('\n')(s[i]));
            }
        } else {
            lemma_lines_lack_feeds(s.skip(n + 1));
            let first = s.take(n);
            assert forall|i: int| 0 <= i < first.len() implies #[trigger] first[i] != '\n' by {
                assert(first[i] == s[i]);
                assert(other_than('\n')(s[i]));
            }
            assert(lacks(chomp(first), '\n'));
            assert forall|i: int| 0 <= i < lines(s).len() implies lacks(
                #[trigger] lines(s)[i],
                '\n',
            ) by {
                if i > 0 {
                    assert(lines(s)[i] == lines(s.skip(n + 1))[i - 1]);
                }
            }
        }
    }
}

// ---------------------------------------------------------------------------
// Prefixes and ASCII case
// ---------------------------------------------------------------------------

/// Whether `s` begins with `p`.
pub open spec fn begins(s: Seq<char>, p: Seq<char>) -> bool {
    p.len() <= s.len() && s.take(p.len() as int) == p
}

/// What is left of `s` after `p`, when `s` begins with it.
pub open spec fn after(s: Seq<char>, p: Seq<char>) -> Option<Seq<char>> {
    if begins(s, p) {
        Some(s.skip(p.len() as int))
    } else {
        None
    }
}

/// Whether `s` begins with `p`.
pub fn starts_with(s: &str, p: &str) -> (r: bool)
    ensures
        r == begins(s@, p@),
{
    let v: Vec<char> = chars_of(s);
    let w: Vec<char> = chars_of(p);
    if w.len() > v.len() {
        return false;
    }
    let mut i: usize = 0;
    while i < w.len()
        invariant
            i <= w.len() <= v.len(),
            v@ == s@,
            w@ == p@,
            forall|j: int| 0 <= j < i ==> v@[j] == w@[j],
        decreases w.len() - i,
    {
        if v[i] != w[i] {
            proof {
                assert(s@.take(p@.len() as int)[i as int] != p@[i as int]);
            }
            return false;
        }
        i = i + 1;
    }
    proof {
        assert(s@.take(p@.len() as int) == p@);
    }
    true
}

/// What is left of `s` after `p`, when `s` begins with it.
pub fn strip_prefix(s: &str, p: &str) -> (r: Option<String>)
    ensures
        opt_text(r) == after(s@, p@),
{
    if starts_with(s, p) {
        let v: Vec<char> = chars_of(s);
        let n: usize = chars_of(p).len();
        let r: String = piece(&v, n, v.len());
        proof {
            assert(s@.subrange(n as int, s@.len() as int) == s@.skip(n as int));
        }
        Some(r)
    } else {
        None
    }
}

/// The lower case of an ASCII letter; anything else is left alone.
pub open spec fn lower(c: char) -> char {
    if 'A' <= c <= 'Z' {
        ((c as u8) + 32) as char
    } else {
        c
    }
}

/// The upper case of an ASCII letter; anything else is left alone.
pub open spec fn upper(c: char) -> char {
    if 'a' <= c <= 'z' {
        ((c as u8) - 32) as char
    } else {
        c
    }
}

fn lower_char(c: char) -> (r: char)
    ensures
        r == lower(c),
{
    if 'A' <= c && c <= 'Z' {
        ((c as u8) + 32) as char
    } else {
        c
    }
}

/// The upper case of an ASCII letter; anything else is left alone.
pub fn upper_char(c: char) -> (r: char)
    ensures
        r == upper(c),
{
    if 'a' <= c && c <= 'z' {
        ((c as u8) - 32) as char
    } else {
        c
    }
}

/// Whether two texts are the same but for the case of ASCII letters.
pub open spec fn same_letters(a: Seq<char>, b: Seq<char>) -> bool {
    a.len() == b.len() && forall|i: int| 0 <= i < a.len() ==> lower(#[trigger] a[i]) == lower(b[i])
}

/// Whether two texts are the same but for the case of ASCII letters.
pub fn eq_ignore_ascii_case(a: &str, b: &str) -> (r: bool)
    ensures
        r == same_letters(a@, b@),
{
    let v: Vec<char> = chars_of(a);
    let w: Vec<char> = chars_of(b);
    if v.len() != w.len() {
        return false;
    }
    let mut i: usize = 0;
    while i < v.len()
        invariant
            i <= v.len() == w.len(),
            v@ == a@,
            w@ == b@,
            forall|j: int| 0 <= j < i ==> lower(#[trigger] a@[j]) == lower(b@[j]),
        decreases v.len() - i,
    {
        if lower_char(v[i]) != lower_char(w[i]) {
            return false;
        }
        i = i + 1;
    }
    true
}

// ---------------------------------------------------------------------------
// Numbers
// ---------------------------------------------------------------------------

/// The character of a decimal or hexadecimal digit.
pub open spec fn digit(d: nat) -> char {
    if d < 10 {
        (48 + d) as char
    } else {
        (87 + d) as char
    }
}

fn digit_char(d: u8) -> (r: char)
    requires
        d < 16,
    ensures
        r == digit(d as nat),
{
    if d < 10 {
        (48 + d) as char
    } else {
        (87 + d) as char
    }
}

/// `n` in decimal.
pub open spec fn decimal(n: nat) -> Seq<char>
    decreases n,
{
    if n < 10 {
        seq![digit(n)]
    } else {
        decimal(n / 10).push(digit(n % 10))
    }
}

/// `n` in decimal.
pub fn decimal_text(n: u64) -> (r: String)
    ensures
        r@ == decimal(n as nat),
    decreases n,
{
    if n < 10 {
        let mut r: String = String::new();
        r.push(digit_char(n as u8));
        proof {
            assert(r@ == seq![digit(n as nat)]);
        }
        r
    } else {
        let mut r: String = decimal_text(n / 10);
        r.push(digit_char((n % 10) as u8));
        r
    }
}

/// A decimal number is a row of digits.
pub proof fn lemma_decimal_digits(n: nat)
    ensures
        all_digits(decimal(n)),
    decreases n,
{
    if n >= 10 {
        lemma_decimal_digits(n / 10);
        let s = decimal(n);
        assert forall|i: int| 0 <= i < s.len() implies is_digit(#[trigger] s[i]) by {
            if i < s.len() - 1 {
                assert(s[i] == decimal(n / 10)[i]);
            }
        }
    }
}

/// `n` in decimal, with a zero in front of a single digit.
pub open spec fn two_digits(n: nat) -> Seq<char> {
    if n < 10 {
        seq!['0', digit(n)]
    } else {
        decimal(n)
    }
}

/// `n` in decimal, with a zero in front of a single digit.
pub fn two_digits_text(n: u64) -> (r: String)
    ensures
        r@ == two_digits(n as nat),
{
    if n < 10 {
        let mut r: String = String::new();
        r.push('0');
        r.push(digit_char(n as u8));
        proof {
            assert(r@ == seq!['0', digit(n as nat)]);
        }
        r
    } else {
        decimal_text(n)
    }
}

/// Two lower case hexadecimal digits for each byte.
pub open spec fn hex_digits(bytes: Seq<u8>) -> Seq<char> {
    Seq::new(
        2 * bytes.len(),
        |i: int|
            if i % 2 == 0 {
                digit((bytes[i / 2] / 16) as nat)
            } else {
                digit((bytes[i / 2] % 16) as nat)
            },
    )
}

/// Bytes are written with hexadecimal digits in lower case and nothing else.
pub proof fn lemma_hex_digits(bytes: Seq<u8>)
    ensures
        hex_digits(bytes).len() == 2 * bytes.len(),
        forall|i: int|
            0 <= i < hex_digits(bytes).len() ==> '0' <= #[trigger] hex_digits(bytes)[i] <= '9'
                || 'a' <= hex_digits(bytes)[i] <= 'f',
{
}

/// Two lower case hexadecimal digits for each byte.
pub fn hex_text(bytes: &[u8]) -> (r: String)
    ensures
        r@ == hex_digits(bytes@),
{
    let mut r: String = String::new();
    let mut i: usize = 0;
    proof {
        assert(r@ == hex_digits(bytes@.take(0)));
    }
    while i < bytes.len()
        invariant
            i <= bytes.len(),
            r@ == hex_digits(bytes@.take(i as int)),
        decreases bytes.len() - i,
    {
        r.push(digit_char(bytes[i] / 16));
        r.push(digit_char(bytes[i] % 16));
        i = i + 1;
        proof {
            assert(r@ =~= hex_digits(bytes@.take(i as int)));
        }
    }
    proof {
        assert(bytes@.take(i as int) == bytes@);
    }
    r
}

/// Whether `c` is a decimal digit.
pub open spec fn is_digit(c: char) -> bool {
    '0' <= c <= '9'
}

/// Whether `s` is a non-empty row of decimal digits.
pub open spec fn all_digits(s: Seq<char>) -> bool {
    s.len() > 0 && forall|i: int| 0 <= i < s.len() ==> is_digit(#[trigger] s[i])
}

/// The number that a row of decimal digits stands for.
pub open spec fn digits_value(s: Seq<char>) -> nat
    decreases s.len(),
{
    if s.len() == 0 {
        0
    } else {
        (digits_value(s.drop_last()) * 10 + (s.last() as nat - 48)) as nat
    }
}

/// The number that `s` stands for: a row of decimal digits, and no more than 63 bits.
pub open spec fn number(s: Seq<char>) -> Option<int> {
    if all_digits(s) && digits_value(s) <= i64::MAX {
        Some(digits_value(s) as int)
    } else {
        None
    }
}

proof fn lemma_digits_grow(s: Seq<char>, n: int)
    requires
        all_digits(s),
        0 <= n <= s.len(),
    ensures
        digits_value(s.take(n)) <= digits_value(s),
    decreases s.len(),
{
    if n == s.len() {
        assert(s.take(n) == s);
    } else if s.len() == 1 {
        assert(s.take(n) == Seq::<char>::empty());
    } else {
        lemma_digits_grow(s.drop_last(), n);
        assert(s.drop_last().take(n) == s.take(n));
        assert(is_digit(s[s.len() - 1]));
    }
}

/// The number that `s` stands for: a row of decimal digits, and no more than 63 bits.
pub fn parse_number(s: &str) -> (r: Option<i64>)
    ensures
        number(s@) == (match r {
            Some(n) => Some(n as int),
            None => None,
        }),
{
    let v: Vec<char> = chars_of(s);
    if v.len() == 0 {
        return None;
    }
    let mut value: i64 = 0;
    let mut i: usize = 0;
    proof {
        assert(v@.take(0) == Seq::<char>::empty());
    }
    while i < v.len()
        invariant
            i <= v.len(),
            v@ == s@,
            0 <= value,
            value as nat == digits_value(v@.take(i as int)),
            forall|j: int| 0 <= j < i ==> is_digit(#[trigger] v@[j]),
        decreases v.len() - i,
    {
        let c: char = v[i];
        proof {
            assert(v@.take(i + 1).drop_last() == v@.take(i as int));
        }
        if !('0' <= c && c <= '9') {
            return None;
        }
        let d: i64 = (c as i64) - 48;
        if value > (i64::MAX - d) / 10 {
            proof {
                if all_digits(v@) {
                    lemma_digits_grow(v@, i + 1);
                }
            }
            return None;
        }
        value = value * 10 + d;
        i = i + 1;
    }
    proof {
        assert(v@.take(i as int) == v@);
    }
    Some(value)
}

} // verus!
