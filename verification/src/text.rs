//! Text as sequences of characters: the small string operations that the rest
//! of the library is built from.

use vstd::prelude::*;

verus! {

/// `String::push` appends the character to the end of the string.
pub assume_specification[ String::push ](s: &mut String, c: char)
    ensures
        final(s)@ == old(s)@.push(c),
;

/// `String::pop` removes the last character and returns it, or returns `None`
/// when the string is empty.
pub assume_specification[ String::pop ](s: &mut String) -> (r: Option<char>)
    ensures
        old(s)@.len() == 0 ==> r is None && final(s)@ == old(s)@,
        old(s)@.len() > 0 ==> r == Some(old(s)@.last()) && final(s)@ == old(s)@.drop_last(),
;

/// The characters of a string.
pub fn chars_of(s: &str) -> (r: Vec<char>)
    ensures
        r@ == s@,
{
    let mut out: Vec<char> = Vec::new();
    for c in it: s.chars()
        invariant
            it.seq() == s@,
            out@ == s@.take(it.index()),
    {
        out.push(c);
    }
    out
}

/// The string made of `chars[from..to]`.
pub fn string_of(chars: &Vec<char>, from: usize, to: usize) -> (r: String)
    requires
        from <= to <= chars.len(),
    ensures
        r@ == chars@.subrange(from as int, to as int),
{
    let mut out: String = String::new();
    let mut i: usize = from;
    while i < to
        invariant
            from <= i <= to <= chars.len(),
            out@ == chars@.subrange(from as int, i as int),
        decreases to - i,
    {
        out.push(chars[i]);
        i = i + 1;
    }
    out
}

/// Whether two strings hold the same characters.
pub fn same(a: &str, b: &str) -> (r: bool)
    ensures
        r == (a@ == b@),
{
    a.to_owned() == b.to_owned()
}

/// The characters that the Unicode `White_Space` property covers.
pub open spec fn white(c: char) -> bool {
    let u = c as u32;
    ||| 9 <= u <= 13
    ||| u == 0x20
    ||| u == 0x85
    ||| u == 0xa0
    ||| u == 0x1680
    ||| 0x2000 <= u <= 0x200a
    ||| u == 0x2028
    ||| u == 0x2029
    ||| u == 0x202f
    ||| u == 0x205f
    ||| u == 0x3000
}

/// Whether the character is white space.
pub fn is_white(c: char) -> (r: bool)
    ensures
        r == white(c),
{
    let u: u32 = c as u32;
    (9 <= u && u <= 13) || u == 0x20 || u == 0x85 || u == 0xa0 || u == 0x1680 || (0x2000 <= u && u
        <= 0x200a) || u == 0x2028 || u == 0x2029 || u == 0x202f || u == 0x205f || u == 0x3000
}

/// `s` without its leading white space.
pub open spec fn trim_start(s: Seq<char>) -> Seq<char>
    decreases s.len(),
{
    if s.len() > 0 && white(s[0]) {
        trim_start(s.skip(1))
    } else {
        s
    }
}

/// `s` without its trailing white space.
pub open spec fn trim_end(s: Seq<char>) -> Seq<char>
    decreases s.len(),
{
    if s.len() > 0 && white(s.last()) {
        trim_end(s.drop_last())
    } else {
        s
    }
}

/// `s` without the white space at either end.
pub open spec fn trimmed(s: Seq<char>) -> Seq<char> {
    trim_end(trim_start(s))
}

proof fn lemma_trim_start_at(s: Seq<char>, i: int)
    requires
        0 <= i <= s.len(),
        forall|j: int| 0 <= j < i ==> white(s[j]),
        i < s.len() ==> !white(s[i]),
    ensures
        trim_start(s) == s.skip(i),
    decreases i,
{
    if i == 0 {
        assert(s.skip(0) == s);
    } else {
        let t = s.skip(1);
        assert forall|j: int| 0 <= j < i - 1 implies white(t[j]) by {
            assert(t[j] == s[j + 1]);
        }
        if i < s.len() {
            assert(t[i - 1] == s[i]);
        }
        lemma_trim_start_at(t, i - 1);
        assert(t.skip(i - 1) == s.skip(i));
        assert(white(s[0]));
    }
}

proof fn lemma_trim_end_at(s: Seq<char>, i: int)
    requires
        0 <= i <= s.len(),
        forall|j: int| i <= j < s.len() ==> white(s[j]),
        i > 0 ==> !white(s[i - 1]),
    ensures
        trim_end(s) == s.take(i),
    decreases s.len() - i,
{
    if i == s.len() {
        assert(s.take(i) == s);
    } else {
        assert(white(s[s.len() - 1]));
        let t = s.drop_last();
        lemma_trim_end_at(t, i);
        assert(t.take(i) == s.take(i));
    }
}

proof fn lemma_trim_start_first(s: Seq<char>)
    ensures
        trim_start(s).len() > 0 ==> !white(trim_start(s)[0]),
    decreases s.len(),
{
    if s.len() > 0 && white(s[0]) {
        lemma_trim_start_first(s.skip(1));
    }
}

/// What `trimmed` leaves, when only white space stands before and behind it.
pub proof fn lemma_trim_between(s: Seq<char>, from: int, to: int)
    requires
        0 <= from < to <= s.len(),
        forall|j: int| 0 <= j < from ==> white(s[j]),
        forall|j: int| to <= j < s.len() ==> white(s[j]),
        !white(s[from]),
        !white(s[to - 1]),
    ensures
        trimmed(s) == s.subrange(from, to),
{
    lemma_trim_start_at(s, from);
    let rest = s.skip(from);
    assert forall|j: int| to - from <= j < rest.len() implies white(rest[j]) by {
        assert(rest[j] == s[j + from]);
    }
    assert(rest[to - from - 1] == s[to - 1]);
    lemma_trim_end_at(rest, to - from);
    assert(rest.take(to - from) == s.subrange(from, to));
}

/// `str::trim`.
pub fn trim(s: &str) -> (r: String)
    ensures
        r@ == trimmed(s@),
{
    let chars: Vec<char> = chars_of(s);
    let n: usize = chars.len();
    let mut from: usize = 0;
    while from < n && is_white(chars[from])
        invariant
            n == chars.len(),
            from <= n,
            forall|j: int| 0 <= j < from ==> white(chars@[j]),
        decreases n - from,
    {
        from = from + 1;
    }
    proof {
        lemma_trim_start_at(s@, from as int);
    }
    let ghost rest = s@.skip(from as int);
    let mut to: usize = n;
    while to > from && is_white(chars[to - 1])
        invariant
            n == chars.len(),
            from <= to <= n,
            forall|j: int| to <= j < n ==> white(chars@[j]),
        decreases to,
    {
        to = to - 1;
    }
    proof {
        assert forall|j: int| to - from <= j < rest.len() implies white(rest[j]) by {
            assert(rest[j] == chars@[j + from]);
        }
        if to > from {
            assert(rest[to - from - 1] == chars@[to - 1]);
        }
        lemma_trim_end_at(rest, to - from);
        assert(rest.take(to - from) == s@.subrange(from as int, to as int));
    }
    string_of(&chars, from, to)
}

/// The index of the first `c` in `s`, or the length of `s` when there is none.
pub open spec fn position(s: Seq<char>, c: char) -> int
    decreases s.len(),
{
    if s.len() == 0 || s[0] == c {
        0
    } else {
        1 + position(s.skip(1), c)
    }
}

/// `position` is where `c` first occurs.
pub proof fn lemma_position(s: Seq<char>, c: char)
    ensures
        0 <= position(s, c) <= s.len(),
        forall|j: int| 0 <= j < position(s, c) ==> s[j] != c,
        position(s, c) < s.len() ==> s[position(s, c)] == c,
        position(s, c) < s.len() <==> s.contains(c),
    decreases s.len(),
{
    if s.len() > 0 && s[0] != c {
        let t = s.skip(1);
        lemma_position(t, c);
        let p = position(s, c);
        assert forall|j: int| 0 <= j < p implies s[j] != c by {
            if j > 0 {
                assert(t[j - 1] == s[j]);
            }
        }
        if s.contains(c) {
            let k = choose|k: int| 0 <= k < s.len() && s[k] == c;
            assert(t[k - 1] == c);
        }
    }
}

/// Where the first `c` in `chars[from..]` stands, counted from `from`.
pub fn find(chars: &Vec<char>, from: usize, c: char) -> (r: usize)
    requires
        from <= chars.len(),
    ensures
        r == position(chars@.skip(from as int), c),
        from + r <= chars.len(),
{
    let ghost s = chars@.skip(from as int);
    let mut i: usize = from;
    while i < chars.len() && chars[i] != c
        invariant
            from <= i <= chars.len(),
            s == chars@.skip(from as int),
            forall|j: int| 0 <= j < i - from ==> s[j] != c,
        decreases chars.len() - i,
    {
        assert(s[i - from] == chars@[i as int]);
        i = i + 1;
    }
    proof {
        lemma_position(s, c);
        if i < chars.len() {
            assert(s[i - from] == c);
        }
    }
    i - from
}

/// `str::split_once`: what stands before and after the first `c`.
pub open spec fn split_at(s: Seq<char>, c: char) -> Option<(Seq<char>, Seq<char>)> {
    let i = position(s, c);
    if i < s.len() {
        Some((s.take(i), s.skip(i + 1)))
    } else {
        None
    }
}

/// `str::split_once`.
pub fn split_once(s: &str, c: char) -> (r: Option<(String, String)>)
    ensures
        split_at(s@, c) is Some <==> r is Some,
        r matches Some(p) ==> split_at(s@, c) == Some((p.0@, p.1@)),
{
    let chars: Vec<char> = chars_of(s);
    let i: usize = find(&chars, 0, c);
    assert(chars@.skip(0) == s@);
    if i < chars.len() {
        let before: String = string_of(&chars, 0, i);
        let after: String = string_of(&chars, i + 1, chars.len());
        assert(before@ == s@.take(i as int));
        assert(after@ == s@.skip(i + 1));
        Some((before, after))
    } else {
        None
    }
}

/// Whether `s` begins with `prefix`.
pub open spec fn begins(s: Seq<char>, prefix: Seq<char>) -> bool {
    prefix.len() <= s.len() && s.take(prefix.len() as int) == prefix
}

/// Whether `prefix` stands in `s` at index `at`.
pub open spec fn stands_at(s: Seq<char>, part: Seq<char>, at: int) -> bool {
    0 <= at && at + part.len() <= s.len() && s.subrange(at, at + part.len()) == part
}

/// Whether `part` stands somewhere in `s`.
pub open spec fn holds(s: Seq<char>, part: Seq<char>) -> bool {
    exists|at: int| stands_at(s, part, at)
}

fn matches_at(chars: &Vec<char>, part: &Vec<char>, at: usize) -> (r: bool)
    requires
        at <= chars.len(),
    ensures
        r == stands_at(chars@, part@, at as int),
{
    if part.len() > chars.len() - at {
        return false;
    }
    let mut i: usize = 0;
    while i < part.len()
        invariant
            i <= part.len(),
            at + part.len() <= chars.len(),
            forall|j: int| 0 <= j < i ==> chars@[at + j] == part@[j],
        decreases part.len() - i,
    {
        if chars[at + i] != part[i] {
            assert(chars@.subrange(at as int, at + part@.len())[i as int] != part@[i as int]);
            return false;
        }
        i = i + 1;
    }
    assert(chars@.subrange(at as int, at + part@.len()) =~= part@);
    true
}

/// `str::starts_with`.
pub fn starts_with(s: &str, prefix: &str) -> (r: bool)
    ensures
        r == begins(s@, prefix@),
{
    let chars: Vec<char> = chars_of(s);
    let part: Vec<char> = chars_of(prefix);
    proof {
        if prefix@.len() <= s@.len() {
            assert(s@.subrange(0, prefix@.len() as int) == s@.take(prefix@.len() as int));
        }
    }
    matches_at(&chars, &part, 0)
}

/// `str::strip_prefix`.
pub fn strip_prefix(s: &str, prefix: &str) -> (r: Option<String>)
    ensures
        r is Some <==> begins(s@, prefix@),
        r matches Some(rest) ==> rest@ == s@.skip(prefix@.len() as int),
{
    if !starts_with(s, prefix) {
        return None;
    }
    let chars: Vec<char> = chars_of(s);
    let part: Vec<char> = chars_of(prefix);
    let rest: String = string_of(&chars, part.len(), chars.len());
    assert(rest@ == s@.skip(prefix@.len() as int));
    Some(rest)
}

/// `str::contains` of a string.
pub fn contains(s: &str, part: &str) -> (r: bool)
    ensures
        r == holds(s@, part@),
{
    let chars: Vec<char> = chars_of(s);
    let piece: Vec<char> = chars_of(part);
    let mut at: usize = 0;
    while at < chars.len()
        invariant
            chars@ == s@,
            piece@ == part@,
            at <= chars.len(),
            forall|k: int| 0 <= k < at ==> !stands_at(s@, part@, k),
        decreases chars.len() - at,
    {
        if matches_at(&chars, &piece, at) {
            return true;
        }
        at = at + 1;
    }
    matches_at(&chars, &piece, at)
}

/// `str::contains` of a character.
pub fn contains_char(s: &str, c: char) -> (r: bool)
    ensures
        r == s@.contains(c),
{
    let chars: Vec<char> = chars_of(s);
    let i: usize = find(&chars, 0, c);
    proof {
        assert(chars@.skip(0) == s@);
        lemma_position(s@, c);
    }
    i < chars.len()
}

/// The text of an optional string slice.
pub open spec fn optional(s: Option<&str>) -> Option<Seq<char>> {
    match s {
        Some(text) => Some(text@),
        None => None,
    }
}

/// The text of an optional string.
pub open spec fn text_of(s: Option<String>) -> Option<Seq<char>> {
    match s {
        Some(text) => Some(text@),
        None => None,
    }
}

/// The first of two optional values that is there.
pub open spec fn or<T>(a: Option<T>, b: Option<T>) -> Option<T> {
    if a is Some {
        a
    } else {
        b
    }
}

/// `Option::or`.
pub fn first_of<T>(a: Option<T>, b: Option<T>) -> (r: Option<T>)
    ensures
        r == or(a, b),
{
    match a {
        Some(value) => Some(value),
        None => b,
    }
}

/// The text of a string as `{:?}` formats it.
pub uninterp spec fn debug_of(s: Seq<char>) -> Seq<char>;

/// `format!` with `{:?}`: the text in quotes, with the characters escaped that
/// `Debug` escapes. Which those are is left to the standard library.
#[verifier::external_body]
pub(crate) fn quoted(s: &str) -> (r: String)
    ensures
        r@ == debug_of(s@),
{
    format!("{:?}", s)
}

/// The views of a sequence of strings.
pub open spec fn texts(v: Seq<String>) -> Seq<Seq<char>> {
    v.map_values(|s: String| s@)
}

/// Pushing a string pushes its view.
pub broadcast proof fn lemma_texts_push(v: Seq<String>, s: String)
    ensures
        #[trigger] texts(v.push(s)) == texts(v).push(s@),
{
    assert(texts(v.push(s)) =~= texts(v).push(s@));
}

/// `parts` with `between` put between each two of them.
pub open spec fn joined_texts(parts: Seq<Seq<char>>, between: Seq<char>) -> Seq<char>
    decreases parts.len(),
{
    if parts.len() == 0 {
        Seq::empty()
    } else if parts.len() == 1 {
        parts[0]
    } else {
        joined_texts(parts.drop_last(), between) + between + parts.last()
    }
}

/// `slice::join`.
pub fn join_texts(parts: &Vec<String>, between: &str) -> (r: String)
    ensures
        r@ == joined_texts(texts(parts@), between@),
{
    let ghost all = texts(parts@);
    let mut out: String = String::new();
    let mut i: usize = 0;
    assert(out@ =~= joined_texts(all.take(0), between@));
    while i < parts.len()
        invariant
            all == texts(parts@),
            i <= parts.len(),
            out@ == joined_texts(all.take(i as int), between@),
        decreases parts.len() - i,
    {
        assert(all.take(i + 1).drop_last() == all.take(i as int));
        assert(all.take(i + 1).last() == parts@[i as int]@);
        if i > 0 {
            out.append(between);
        }
        out.append(parts[i].as_str());
        i = i + 1;
        assert(out@ =~= joined_texts(all.take(i as int), between@));
    }
    assert(all.take(i as int) == all);
    out
}

/// A line without the carriage return that belongs to its line ending.
pub open spec fn without_cr(line: Seq<char>) -> Seq<char> {
    if line.len() > 0 && line.last() == '\r' {
        line.drop_last()
    } else {
        line
    }
}

/// `str::lines`: the lines of `s`, each without its line ending; a last line
/// without a line ending counts, an empty one does not.
pub open spec fn lines_of(s: Seq<char>) -> Seq<Seq<char>>
    decreases s.len(),
{
    let i = position(s, '\n');
    if s.len() == 0 {
        Seq::empty()
    } else if 0 <= i < s.len() {
        seq![without_cr(s.take(i))] + lines_of(s.skip(i + 1))
    } else {
        seq![s]
    }
}

/// `str::lines`.
pub fn lines(s: &str) -> (r: Vec<String>)
    ensures
        texts(r@) == lines_of(s@),
{
    broadcast use lemma_texts_push;

    let chars: Vec<char> = chars_of(s);
    let n: usize = chars.len();
    let mut out: Vec<String> = Vec::new();
    let mut at: usize = 0;
    proof {
        assert(s@.skip(0) == s@);
        assert(texts(out@) =~= Seq::empty());
    }
    while at < n
        invariant
            chars@ == s@,
            n == chars.len(),
            at <= n,
            lines_of(s@) =~= texts(out@) + lines_of(s@.skip(at as int)),
        decreases n - at,
    {
        let ghost rest = s@.skip(at as int);
        let ghost before = texts(out@);
        let len: usize = find(&chars, at, '\n');
        if at + len < n {
            let mut end: usize = at + len;
            if len > 0 && chars[end - 1] == '\r' {
                end = end - 1;
            }
            let line: String = string_of(&chars, at, end);
            proof {
                let taken = rest.take(len as int);
                if len > 0 {
                    assert(taken.last() == s@[at + len - 1]);
                }
                assert(line@ =~= without_cr(taken));
                assert(rest.skip(len + 1) =~= s@.skip(at + len + 1));
                assert(lines_of(rest) =~= seq![line@] + lines_of(s@.skip(at + len + 1)));
            }
            out.push(line);
            at = at + len + 1;
        } else {
            let line: String = string_of(&chars, at, n);
            proof {
                assert(line@ =~= rest);
                assert(lines_of(rest) =~= seq![line@]);
                assert(s@.skip(n as int) =~= Seq::empty());
            }
            out.push(line);
            at = n;
        }
        assert(lines_of(s@) =~= texts(out@) + lines_of(s@.skip(at as int)));
    }
    assert(s@.skip(n as int) =~= Seq::empty());
    out
}

/// The number of characters before the first white space.
pub open spec fn word_len(s: Seq<char>) -> int
    decreases s.len(),
{
    if s.len() == 0 || white(s[0]) {
        0
    } else {
        1 + word_len(s.skip(1))
    }
}

proof fn lemma_word_len_at(s: Seq<char>, i: int)
    requires
        0 <= i <= s.len(),
        forall|j: int| 0 <= j < i ==> !white(s[j]),
        i < s.len() ==> white(s[i]),
    ensures
        word_len(s) == i,
    decreases i,
{
    if i > 0 {
        let t = s.skip(1);
        assert forall|j: int| 0 <= j < i - 1 implies !white(t[j]) by {
            assert(t[j] == s[j + 1]);
        }
        if i < s.len() {
            assert(t[i - 1] == s[i]);
        }
        lemma_word_len_at(t, i - 1);
        assert(!white(s[0]));
    }
}

/// The first of the words that white space separates, if there is one.
pub open spec fn first_word_of(s: Seq<char>) -> Option<Seq<char>> {
    let t = trim_start(s);
    if t.len() == 0 {
        None
    } else {
        Some(t.take(word_len(t)))
    }
}

proof fn lemma_word_len(s: Seq<char>)
    ensures
        0 <= word_len(s) <= s.len(),
        forall|i: int| 0 <= i < word_len(s) ==> !white(s[i]),
    decreases s.len(),
{
    if s.len() > 0 && !white(s[0]) {
        let t = s.skip(1);
        lemma_word_len(t);
        assert forall|i: int| 0 <= i < word_len(s) implies !white(s[i]) by {
            if i > 0 {
                assert(s[i] == t[i - 1]);
            }
        }
    }
}

/// A word is not empty and holds no white space.
pub proof fn lemma_first_word(s: Seq<char>)
    ensures
        first_word_of(s) matches Some(word) ==> word.len() > 0 && forall|i: int|
            0 <= i < word.len() ==> !white(#[trigger] word[i]),
{
    let t = trim_start(s);
    lemma_trim_start_first(s);
    lemma_word_len(t);
    if t.len() > 0 {
        assert(word_len(t) > 0) by {
            lemma_word_len(t.skip(1));
        }
    }
}

/// Where the first word begins and ends.
fn word_bounds(chars: &Vec<char>) -> (r: (usize, usize))
    ensures
        r.0 <= r.1 <= chars.len(),
        trim_start(chars@) == chars@.skip(r.0 as int),
        word_len(trim_start(chars@)) == r.1 - r.0,
{
    let n: usize = chars.len();
    let mut from: usize = 0;
    while from < n && is_white(chars[from])
        invariant
            n == chars.len(),
            from <= n,
            forall|j: int| 0 <= j < from ==> white(chars@[j]),
        decreases n - from,
    {
        from = from + 1;
    }
    proof {
        lemma_trim_start_at(chars@, from as int);
    }
    let ghost t = chars@.skip(from as int);
    let mut to: usize = from;
    while to < n && !is_white(chars[to])
        invariant
            n == chars.len(),
            from <= to <= n,
            t == chars@.skip(from as int),
            forall|j: int| 0 <= j < to - from ==> !white(t[j]),
        decreases n - to,
    {
        assert(t[to - from] == chars@[to as int]);
        to = to + 1;
    }
    proof {
        if to < n {
            assert(t[to - from] == chars@[to as int]);
        }
        lemma_word_len_at(t, to - from);
    }
    (from, to)
}

/// The first item of `str::split_whitespace`.
pub fn first_word(s: &str) -> (r: Option<String>)
    ensures
        text_of(r) == first_word_of(s@),
{
    let chars: Vec<char> = chars_of(s);
    let (from, to) = word_bounds(&chars);
    if from == chars.len() {
        return None;
    }
    assert(s@.skip(from as int).take(to - from) == s@.subrange(from as int, to as int));
    Some(string_of(&chars, from, to))
}

/// What stands behind the first word.
pub open spec fn behind_first_word(s: Seq<char>) -> Seq<char> {
    let t = trim_start(s);
    t.skip(word_len(t))
}

/// The second of the words that white space separates, if there is one.
pub open spec fn second_word_of(s: Seq<char>) -> Option<Seq<char>> {
    first_word_of(behind_first_word(s))
}

/// The second item of `str::split_whitespace`.
pub fn second_word(s: &str) -> (r: Option<String>)
    ensures
        text_of(r) == second_word_of(s@),
{
    let chars: Vec<char> = chars_of(s);
    let (from, to) = word_bounds(&chars);
    let rest: String = string_of(&chars, to, chars.len());
    assert(rest@ == s@.skip(from as int).skip(to - from));
    first_word(rest.as_str())
}

/// White space is the space, the characters from tab to carriage return, and
/// the white space beyond ASCII; no other ASCII character is.
pub proof fn law_white_space(c: char)
    ensures
        (c as u32) < 128 ==> (white(c) <==> c == ' ' || c == '\t' || c == '\n' || c == '\r'
            || c as u32 == 11 || c as u32 == 12),
        (c as u32) >= 128 ==> (white(c) <==> seq![
            0x85int,
            0xa0,
            0x1680,
            0x2000,
            0x2001,
            0x2002,
            0x2003,
            0x2004,
            0x2005,
            0x2006,
            0x2007,
            0x2008,
            0x2009,
            0x200a,
            0x2028,
            0x2029,
            0x202f,
            0x205f,
            0x3000,
        ].contains(c as int)),
{
    let beyond = seq![
        0x85int,
        0xa0,
        0x1680,
        0x2000,
        0x2001,
        0x2002,
        0x2003,
        0x2004,
        0x2005,
        0x2006,
        0x2007,
        0x2008,
        0x2009,
        0x200a,
        0x2028,
        0x2029,
        0x202f,
        0x205f,
        0x3000,
    ];
    assert(beyond[0] == 0x85 && beyond[1] == 0xa0 && beyond[2] == 0x1680);
    assert(beyond[3] == 0x2000 && beyond[4] == 0x2001 && beyond[5] == 0x2002 && beyond[6]
        == 0x2003);
    assert(beyond[7] == 0x2004 && beyond[8] == 0x2005 && beyond[9] == 0x2006 && beyond[10]
        == 0x2007);
    assert(beyond[11] == 0x2008 && beyond[12] == 0x2009 && beyond[13] == 0x200a);
    assert(beyond[14] == 0x2028 && beyond[15] == 0x2029 && beyond[16] == 0x202f);
    assert(beyond[17] == 0x205f && beyond[18] == 0x3000);
}

/// Trimming takes away the white space at either end, and nothing else: what is
/// left is a stretch of the text with white space alone around it, and neither
/// its first nor its last character is white space.
pub proof fn law_trimmed(s: Seq<char>)
    ensures
        exists|from: int, to: int|
            {
                &&& 0 <= from <= to <= s.len()
                &&& trimmed(s) == #[trigger] s.subrange(from, to)
                &&& forall|j: int| 0 <= j < from ==> white(s[j])
                &&& forall|j: int| to <= j < s.len() ==> white(s[j])
                &&& from < to ==> !white(s[from]) && !white(s[to - 1])
            },
{
    let from = leading(s);
    lemma_leading(s);
    lemma_trim_start_at(s, from);
    let rest = s.skip(from);
    let left = trailing(rest);
    lemma_trailing(rest);
    lemma_trim_end_at(rest, left);
    let to = from + left;
    assert(rest.take(left) =~= s.subrange(from, to));
    assert forall|j: int| to <= j < s.len() implies white(s[j]) by {
        assert(rest[j - from] == s[j]);
    }
    if from < to {
        assert(rest[left - 1] == s[to - 1]);
    }
}

spec fn leading(s: Seq<char>) -> int
    decreases s.len(),
{
    if s.len() > 0 && white(s[0]) {
        1 + leading(s.skip(1))
    } else {
        0
    }
}

spec fn trailing(s: Seq<char>) -> int
    decreases s.len(),
{
    if s.len() > 0 && white(s.last()) {
        trailing(s.drop_last())
    } else {
        s.len() as int
    }
}

proof fn lemma_leading(s: Seq<char>)
    ensures
        0 <= leading(s) <= s.len(),
        forall|j: int| 0 <= j < leading(s) ==> white(s[j]),
        leading(s) < s.len() ==> !white(s[leading(s)]),
    decreases s.len(),
{
    if s.len() > 0 && white(s[0]) {
        let t = s.skip(1);
        lemma_leading(t);
        assert forall|j: int| 0 <= j < leading(s) implies white(s[j]) by {
            if j > 0 {
                assert(t[j - 1] == s[j]);
            }
        }
        if leading(s) < s.len() {
            assert(t[leading(t)] == s[leading(s)]);
        }
    }
}

proof fn lemma_trailing(s: Seq<char>)
    ensures
        0 <= trailing(s) <= s.len(),
        forall|j: int| trailing(s) <= j < s.len() ==> white(s[j]),
        trailing(s) > 0 ==> !white(s[trailing(s) - 1]),
    decreases s.len(),
{
    if s.len() > 0 && white(s.last()) {
        let t = s.drop_last();
        lemma_trailing(t);
        assert forall|j: int| trailing(s) <= j < s.len() implies white(s[j]) by {
            if j < t.len() {
                assert(t[j] == s[j]);
            }
        }
    }
}

/// Splitting at a character parts the text at the first place where it stands,
/// and gives nothing exactly when it stands nowhere.
pub proof fn law_split(s: Seq<char>, c: char)
    ensures
        split_at(s, c) is None <==> !s.contains(c),
        split_at(s, c) matches Some((before, behind)) ==> s == before + seq![c] + behind
            && !before.contains(c),
{
    lemma_position(s, c);
    let i = position(s, c);
    if i < s.len() {
        assert(s =~= s.take(i) + seq![c] + s.skip(i + 1));
        if s.take(i).contains(c) {
            let k = choose|k: int| 0 <= k < i && s.take(i)[k] == c;
            assert(s[k] == c);
        }
    }
}

/// Two texts with a character between them that is not in the first are what
/// splitting at the character gives.
pub proof fn law_split_undoes_joining(before: Seq<char>, c: char, behind: Seq<char>)
    requires
        !before.contains(c),
    ensures
        split_at(before + seq![c] + behind, c) == Some((before, behind)),
{
    let s = before + seq![c] + behind;
    lemma_position(s, c);
    let i = position(s, c);
    assert(s[before.len() as int] == c);
    if i < before.len() {
        assert(before[i] == c);
    }
    assert(s.take(i) =~= before);
    assert(s.skip(i + 1) =~= behind);
}

/// A text begins with another exactly when it is that one with something behind
/// it.
pub proof fn law_begins(prefix: Seq<char>, rest: Seq<char>, s: Seq<char>)
    ensures
        begins(prefix + rest, prefix),
        begins(s, prefix) ==> s == prefix + s.skip(prefix.len() as int),
{
    assert((prefix + rest).take(prefix.len() as int) =~= prefix);
    if begins(s, prefix) {
        assert(s =~= s.take(prefix.len() as int) + s.skip(prefix.len() as int));
    }
}

/// A text holds another exactly when it is that one with something before and
/// something behind it.
pub proof fn law_holds(before: Seq<char>, part: Seq<char>, behind: Seq<char>, s: Seq<char>)
    ensures
        holds(before + part + behind, part),
        holds(s, part) ==> exists|at: int|
            0 <= at <= s.len() - part.len() && #[trigger] s.take(at) + part + s.skip(
                at + part.len(),
            ) == s,
{
    let whole = before + part + behind;
    assert(whole.subrange(before.len() as int, (before.len() + part.len()) as int) =~= part);
    assert(stands_at(whole, part, before.len() as int));
    if holds(s, part) {
        let at = choose|at: int| stands_at(s, part, at);
        assert(s.take(at) + s.subrange(at, at + part.len()) + s.skip(at + part.len()) =~= s);
        assert(s.take(at) + part + s.skip(at + part.len()) == s);
    }
}

/// A line ends at its line feed, and a carriage return before that belongs to
/// the line ending. What stands behind the last line feed is a line, unless it
/// is empty.
pub proof fn law_lines(line: Seq<char>, rest: Seq<char>)
    requires
        !line.contains('\n'),
    ensures
        line.len() > 0 ==> lines_of(line) == seq![line],
        line.len() == 0 ==> lines_of(line) == Seq::<Seq<char>>::empty(),
        line.len() == 0 || line.last() != '\r' ==> lines_of(line + seq!['\n'] + rest) == seq![line]
            + lines_of(rest),
        lines_of(line + seq!['\r', '\n'] + rest) == seq![line] + lines_of(rest),
{
    lemma_position(line, '\n');
    let ended = line + seq!['\n'] + rest;
    law_split_undoes_joining(line, '\n', rest);
    lemma_position(ended, '\n');
    assert(ended[line.len() as int] == '\n');
    let returned = line.push('\r');
    if returned.contains('\n') {
        let k = choose|k: int| 0 <= k < returned.len() && returned[k] == '\n';
        assert(line[k] == '\n');
    }
    let both = line + seq!['\r', '\n'] + rest;
    assert(both =~= returned + seq!['\n'] + rest);
    law_split_undoes_joining(returned, '\n', rest);
    lemma_position(both, '\n');
    assert(both[returned.len() as int] == '\n');
    assert(returned.last() == '\r');
    assert(returned.drop_last() =~= line);
}

/// Whether a text is white space alone.
pub open spec fn blank(s: Seq<char>) -> bool {
    forall|i: int| 0 <= i < s.len() ==> white(#[trigger] s[i])
}

/// Whether a text is one word: not empty, and without white space.
pub open spec fn one_word(s: Seq<char>) -> bool {
    s.len() > 0 && forall|i: int| 0 <= i < s.len() ==> !white(#[trigger] s[i])
}

/// The words of a text are the stretches between its white space, in order, and
/// a blank text has none.
pub proof fn law_words(
    gap: Seq<char>,
    first: Seq<char>,
    between: Seq<char>,
    second: Seq<char>,
    rest: Seq<char>,
)
    requires
        blank(gap),
        one_word(first),
        blank(between),
        between.len() > 0,
        one_word(second),
        rest.len() > 0 ==> white(rest[0]),
    ensures
        first_word_of(gap) is None,
        first_word_of(gap + first) == Some(first),
        second_word_of(gap + first) is None,
        first_word_of(gap + first + between + second + rest) == Some(first),
        second_word_of(gap + first + between + second + rest) == Some(second),
{
    lemma_trim_start_at(gap, gap.len() as int);
    lemma_word_behind_gap(gap, first, Seq::empty());
    assert(gap + first + Seq::<char>::empty() =~= gap + first);
    lemma_trim_start_at(Seq::<char>::empty(), 0);
    let tail = between + second + rest;
    assert(tail[0] == between[0]);
    lemma_word_behind_gap(gap, first, tail);
    assert(gap + first + between + second + rest =~= gap + first + tail);
    lemma_word_behind_gap(between, second, rest);
}

proof fn lemma_word_behind_gap(gap: Seq<char>, first: Seq<char>, tail: Seq<char>)
    requires
        blank(gap),
        one_word(first),
        tail.len() > 0 ==> white(tail[0]),
    ensures
        first_word_of(gap + first + tail) == Some(first),
        behind_first_word(gap + first + tail) == tail,
{
    let s = gap + first + tail;
    let n = gap.len() as int;
    assert(s[n] == first[0]);
    assert forall|j: int| 0 <= j < n implies white(s[j]) by {
        assert(s[j] == gap[j]);
    }
    lemma_trim_start_at(s, n);
    let t = s.skip(n);
    assert(t =~= first + tail);
    assert forall|j: int| 0 <= j < first.len() implies !white(t[j]) by {
        assert(t[j] == first[j]);
    }
    if first.len() < t.len() {
        assert(t[first.len() as int] == tail[0]);
    }
    lemma_word_len_at(t, first.len() as int);
    assert(t.take(first.len() as int) =~= first);
    assert(t.skip(first.len() as int) =~= tail);
}

/// Of two optional values the first counts where it is there, and the second
/// where it is not.
pub proof fn law_first_counts<T>(a: T, b: Option<T>)
    ensures
        or(Some(a), b) == Some(a),
        or(None::<T>, b) == b,
{
}

/// Joined texts grow by what is put between and the next text.
pub proof fn law_joined_texts(parts: Seq<Seq<char>>, between: Seq<char>, next: Seq<char>)
    ensures
        joined_texts(seq![next], between) == next,
        parts.len() > 0 ==> joined_texts(parts.push(next), between) == joined_texts(parts, between)
            + between + next,
{
    assert(parts.push(next).drop_last() =~= parts);
}

/// The views of strings are their characters, in order, and an optional string is
/// viewed as its characters where it is there.
pub proof fn law_views_of_strings(v: Seq<String>, i: int, s: String, t: &str)
    ensures
        texts(v).len() == v.len(),
        0 <= i < v.len() ==> texts(v)[i] == v[i]@,
        text_of(Some(s)) == Some(s@),
        text_of(None) is None,
        optional(Some(t)) == Some(t@),
        optional(None) is None,
{
}

} // verus!
