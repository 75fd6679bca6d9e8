//! Text as sequences of characters: the few string operations the agent needs,
//! each stated over `Seq<char>` and proved.
use vstd::prelude::*;
use vstd::string::*;

verus! {

// ── Characters ──────────────────────────────────────────────────────────────

/// The Unicode property `White_Space`.
pub open spec fn white_space(c: char) -> bool {
    ||| '\u{9}' <= c <= '\u{d}'
    ||| c == ' '
    ||| c == '\u{85}'
    ||| c == '\u{a0}'
    ||| c == '\u{1680}'
    ||| '\u{2000}' <= c <= '\u{200a}'
    ||| c == '\u{2028}'
    ||| c == '\u{2029}'
    ||| c == '\u{202f}'
    ||| c == '\u{205f}'
    ||| c == '\u{3000}'
}

/// Whether `c` has the Unicode property `White_Space`.
pub fn is_white_space(c: char) -> (r: bool)
    ensures
        r == white_space(c),
{
    ('\u{9}' <= c && c <= '\u{d}') || c == ' ' || c == '\u{85}' || c == '\u{a0}' || c == '\u{1680}'
        || ('\u{2000}' <= c && c <= '\u{200a}') || c == '\u{2028}' || c == '\u{2029}' || c
        == '\u{202f}' || c == '\u{205f}' || c == '\u{3000}'
}

/// A decimal digit, `0` to `9`.
pub open spec fn ascii_digit(c: char) -> bool {
    '0' <= c <= '9'
}

/// Whether `c` is a decimal digit.
pub fn is_ascii_digit(c: char) -> (r: bool)
    ensures
        r == ascii_digit(c),
{
    '0' <= c && c <= '9'
}

/// An ASCII letter or a decimal digit.
pub open spec fn ascii_alphanumeric(c: char) -> bool {
    'A' <= c <= 'Z' || 'a' <= c <= 'z' || ascii_digit(c)
}

/// Whether `c` is an ASCII letter or a decimal digit.
pub fn is_ascii_alphanumeric(c: char) -> (r: bool)
    ensures
        r == ascii_alphanumeric(c),
{
    ('A' <= c && c <= 'Z') || ('a' <= c && c <= 'z') || is_ascii_digit(c)
}

/// `c`, in lower case where it is an ASCII capital.
pub open spec fn lower(c: char) -> char {
    if 'A' <= c <= 'Z' {
        ((c as u8) + 32) as char
    } else {
        c
    }
}

/// The ASCII lower case of `c`.
pub fn to_lower(c: char) -> (r: char)
    ensures
        r == lower(c),
{
    if 'A' <= c && c <= 'Z' {
        ((c as u8) + 32) as char
    } else {
        c
    }
}

// ── Between strings and characters ──────────────────────────────────────────

/// `String::push` appends one character at the end of the string.
pub assume_specification[ String::push ](s: &mut String, c: char)
    ensures
        final(s)@ == old(s)@.push(c),
;

/// The texts of a list of strings.
pub open spec fn texts(v: Seq<String>) -> Seq<Seq<char>> {
    Seq::new(v.len(), |i: int| v[i]@)
}

/// The text of an optional string.
pub open spec fn opt_text(o: Option<String>) -> Option<Seq<char>> {
    match o {
        Some(s) => Some(s@),
        None => None,
    }
}

/// A copy of an optional string.
pub fn copy_opt(o: &Option<String>) -> (r: Option<String>)
    ensures
        opt_text(r) == opt_text(*o),
{
    match o {
        Some(s) => Some(s.clone()),
        None => None,
    }
}

/// A copy of a list of strings.
pub fn copy_texts(v: &Vec<String>) -> (r: Vec<String>)
    ensures
        texts(r@) == texts(v@),
{
    let mut out: Vec<String> = Vec::new();
    let mut i: usize = 0;
    while i < v.len()
        invariant
            i <= v@.len(),
            texts(out@) == texts(v@).take(i as int),
        decreases v@.len() - i,
    {
        let ghost before = out@;
        out.push(v[i].clone());
        assert(texts(out@) =~= texts(before).push(v@[i as int]@));
        i += 1;
    }
    assert(texts(v@).take(i as int) =~= texts(v@));
    out
}

/// The characters of a string.
pub fn chars_of(s: &str) -> (r: Vec<char>)
    ensures
        r@ == s@,
{
    let mut out: Vec<char> = Vec::new();
    for c in it: s.chars()
        invariant
            it.seq() == s@,
            out@ == it.seq().take(it.index() as int),
    {
        out.push(c);
    }
    out
}

/// The characters of `v` from `from` up to `to`, as a string.
pub fn slice_string(v: &Vec<char>, from: usize, to: usize) -> (r: String)
    requires
        from <= to <= v@.len(),
    ensures
        r@ == v@.subrange(from as int, to as int),
{
    let mut out = String::new();
    let mut i: usize = from;
    while i < to
        invariant
            from <= i <= to <= v@.len(),
            out@ == v@.subrange(from as int, i as int),
        decreases to - i,
    {
        out.push(v[i]);
        i += 1;
    }
    out
}

/// Whether two strings hold the same text.
pub fn same_text(a: &str, b: &str) -> (r: bool)
    ensures
        r == (a@ == b@),
{
    a.to_owned() == b.to_owned()
}

/// Two texts, one after the other.
pub fn prefixed(prefix: &str, text: &str) -> (r: String)
    ensures
        r@ == prefix@ + text@,
{
    let mut out = prefix.to_string();
    out.append(text);
    out
}

// ── Searching ───────────────────────────────────────────────────────────────

/// Where `c` first stands in `s`; the length of `s` where it does not occur.
pub open spec fn find_char(s: Seq<char>, c: char) -> nat
    decreases s.len(),
{
    if s.len() == 0 || s[0] == c {
        0
    } else {
        1 + find_char(s.drop_first(), c)
    }
}

/// `find_char` is the first place of `c`.
pub proof fn lemma_find_char(s: Seq<char>, c: char)
    ensures
        find_char(s, c) <= s.len(),
        forall|i: int| 0 <= i < find_char(s, c) ==> s[i] != c,
        find_char(s, c) < s.len() ==> s[find_char(s, c) as int] == c,
    decreases s.len(),
{
    if s.len() != 0 && s[0] != c {
        lemma_find_char(s.drop_first(), c);
        let rest = s.drop_first();
        assert forall|i: int| 0 <= i < find_char(s, c) implies s[i] != c by {
            if i > 0 {
                assert(s[i] == rest[i - 1]);
            }
        }
    }
}

/// The first place of `c` is the only one with no `c` before it.
proof fn lemma_find_char_unique(s: Seq<char>, c: char, n: nat)
    requires
        n <= s.len(),
        forall|i: int| 0 <= i < n ==> s[i] != c,
        n < s.len() ==> s[n as int] == c,
    ensures
        find_char(s, c) == n,
{
    lemma_find_char(s, c);
    if n < find_char(s, c) {
        assert(s[n as int] == c);
    }
    if find_char(s, c) < n {
        assert(s[find_char(s, c) as int] != c);
    }
}

/// The first place of `c` in `v` at or after `from`; the length of `v` where there is none.
pub fn find_char_from(v: &Vec<char>, from: usize, c: char) -> (r: usize)
    requires
        from <= v@.len(),
    ensures
        from <= r <= v@.len(),
        r == from + find_char(v@.skip(from as int), c),
{
    let mut i: usize = from;
    while i < v.len() && v[i] != c
        invariant
            from <= i <= v@.len(),
            forall|j: int| from <= j < i ==> v@[j] != c,
        decreases v@.len() - i,
    {
        i += 1;
    }
    proof {
        lemma_find_char_unique(v@.skip(from as int), c, (i - from) as nat);
    }
    i
}

/// Whether `s` begins with `p`.
pub open spec fn starts_with(s: Seq<char>, p: Seq<char>) -> bool {
    p.len() <= s.len() && s.take(p.len() as int) == p
}

/// Whether `s` ends in `p`.
pub open spec fn ends_with(s: Seq<char>, p: Seq<char>) -> bool {
    p.len() <= s.len() && s.skip(s.len() - p.len()) == p
}

/// Where `p` first stands in `s`.
pub open spec fn find_text(s: Seq<char>, p: Seq<char>) -> Option<nat>
    decreases s.len(),
{
    if starts_with(s, p) {
        Some(0)
    } else if s.len() == 0 {
        None
    } else {
        match find_text(s.drop_first(), p) {
            Some(i) => Some(i + 1),
            None => None,
        }
    }
}

/// Whether the characters of `v` from `at` on begin with `p`.
pub fn starts_with_at(v: &Vec<char>, at: usize, p: &Vec<char>) -> (r: bool)
    requires
        at <= v@.len(),
    ensures
        r == starts_with(v@.skip(at as int), p@),
{
    let ghost rest = v@.skip(at as int);
    if v.len() - at < p.len() {
        return false;
    }
    let mut i: usize = 0;
    while i < p.len()
        invariant
            i <= p@.len(),
            at + p@.len() <= v.len(),
            rest == v@.skip(at as int),
            forall|j: int| 0 <= j < i ==> rest[j] == p@[j],
        decreases p@.len() - i,
    {
        if v[at + i] != p[i] {
            assert(rest.take(p@.len() as int)[i as int] != p@[i as int]);
            return false;
        }
        i += 1;
    }
    assert(rest.take(p@.len() as int) =~= p@);
    true
}

/// The first place of `p` in `v`.
pub fn find_text_in(v: &Vec<char>, p: &Vec<char>) -> (r: Option<usize>)
    ensures
        r is Some <==> find_text(v@, p@) is Some,
        r matches Some(i) ==> find_text(v@, p@) == Some(i as nat) && i + p@.len() <= v@.len(),
{
    let mut i: usize = 0;
    assert(v@.skip(0) =~= v@);
    loop
        invariant
            i <= v@.len(),
            find_text(v@.skip(i as int), p@) is Some <==> find_text(v@, p@) is Some,
            find_text(v@.skip(i as int), p@) matches Some(k) ==> find_text(v@, p@) == Some(
                (k + i) as nat,
            ),
        decreases v@.len() - i,
    {
        if starts_with_at(v, i, p) {
            return Some(i);
        }
        if i == v.len() {
            return None;
        }
        assert(v@.skip(i as int).drop_first() =~= v@.skip(i + 1));
        i += 1;
    }
}

/// `s` in ASCII lower case.
pub open spec fn lower_case(s: Seq<char>) -> Seq<char> {
    Seq::new(s.len(), |i: int| lower(s[i]))
}

/// The characters of `v` in ASCII lower case.
pub fn lower_chars(v: &Vec<char>) -> (r: Vec<char>)
    ensures
        r@ == lower_case(v@),
{
    let mut out: Vec<char> = Vec::new();
    let mut i: usize = 0;
    while i < v.len()
        invariant
            i <= v@.len(),
            out@ == lower_case(v@).take(i as int),
        decreases v@.len() - i,
    {
        out.push(to_lower(v[i]));
        i += 1;
        assert(out@ =~= lower_case(v@).take(i as int));
    }
    assert(lower_case(v@).take(v@.len() as int) =~= lower_case(v@));
    out
}

/// `s` without `p` at its end, where it ends in `p`.
pub fn strip_suffix(s: &str, p: &str) -> (r: Option<String>)
    ensures
        r is Some <==> ends_with(s@, p@),
        r matches Some(t) ==> t@ == s@.take(s@.len() - p@.len()),
{
    let v = chars_of(s);
    let w = chars_of(p);
    if v.len() < w.len() {
        return None;
    }
    let cut = v.len() - w.len();
    if starts_with_at(&v, cut, &w) {
        assert(v@.skip(cut as int).take(w@.len() as int) =~= v@.skip(cut as int));
        let t = slice_string(&v, 0, cut);
        assert(t@ =~= s@.take(s@.len() - p@.len()));
        Some(t)
    } else {
        assert(v@.skip(cut as int).take(w@.len() as int) =~= v@.skip(cut as int));
        None
    }
}

// ── White space ─────────────────────────────────────────────────────────────

/// `s` without the white space at its start.
pub open spec fn trim_start(s: Seq<char>) -> Seq<char>
    decreases s.len(),
{
    if s.len() != 0 && white_space(s[0]) {
        trim_start(s.drop_first())
    } else {
        s
    }
}

/// `s` without the white space at its end.
pub open spec fn trim_end(s: Seq<char>) -> Seq<char>
    decreases s.len(),
{
    if s.len() != 0 && white_space(s.last()) {
        trim_end(s.drop_last())
    } else {
        s
    }
}

/// `s` without the white space around it.
pub open spec fn trim(s: Seq<char>) -> Seq<char> {
    trim_end(trim_start(s))
}

/// Whether `s` holds nothing but white space.
pub open spec fn blank(s: Seq<char>) -> bool {
    forall|i: int| 0 <= i < s.len() ==> white_space(s[i])
}

/// Trimming leaves nothing of blank text, and something of any other.
pub proof fn trimming_empties_blank_text(s: Seq<char>)
    ensures
        trim(s).len() == 0 <==> blank(s),
{
    lemma_trim_start_blank(s);
    lemma_trim_end_blank(trim_start(s));
    if trim_start(s).len() != 0 {
        assert(!white_space(trim_start(s)[0]));
    }
}

proof fn lemma_trim_start_blank(s: Seq<char>)
    ensures
        trim_start(s).len() == 0 <==> blank(s),
        trim_start(s).len() != 0 ==> !white_space(trim_start(s)[0]),
        trim_start(s).len() <= s.len(),
    decreases s.len(),
{
    if s.len() != 0 && white_space(s[0]) {
        lemma_trim_start_blank(s.drop_first());
        assert(blank(s) ==> blank(s.drop_first()));
        if blank(s.drop_first()) {
            assert forall|i: int| 0 <= i < s.len() implies white_space(s[i]) by {
                if i > 0 {
                    assert(white_space(s.drop_first()[i - 1]));
                }
            }
        }
    }
}

proof fn lemma_trim_end_blank(s: Seq<char>)
    ensures
        trim_end(s).len() == 0 <==> blank(s),
    decreases s.len(),
{
    if s.len() != 0 && white_space(s.last()) {
        lemma_trim_end_blank(s.drop_last());
        assert(blank(s) ==> blank(s.drop_last()));
        if blank(s.drop_last()) {
            assert forall|i: int| 0 <= i < s.len() implies white_space(s[i]) by {
                if i < s.len() - 1 {
                    assert(white_space(s.drop_last()[i]));
                }
            }
        }
    } else if s.len() != 0 {
        assert(!white_space(s[s.len() - 1]));
    }
}

/// Where the text of `v` from `from` up to `to` starts once trimmed.
pub fn trim_start_at(v: &Vec<char>, from: usize, to: usize) -> (r: usize)
    requires
        from <= to <= v@.len(),
    ensures
        from <= r <= to,
        v@.subrange(r as int, to as int) == trim_start(v@.subrange(from as int, to as int)),
{
    let mut i: usize = from;
    while i < to && is_white_space(v[i])
        invariant
            from <= i <= to <= v@.len(),
            trim_start(v@.subrange(from as int, to as int)) == trim_start(
                v@.subrange(i as int, to as int),
            ),
        decreases to - i,
    {
        assert(v@.subrange(i as int, to as int).drop_first() =~= v@.subrange(i + 1, to as int));
        i += 1;
    }
    i
}

/// Where the text of `v` from `from` up to `to` ends once trimmed.
pub fn trim_end_at(v: &Vec<char>, from: usize, to: usize) -> (r: usize)
    requires
        from <= to <= v@.len(),
    ensures
        from <= r <= to,
        v@.subrange(from as int, r as int) == trim_end(v@.subrange(from as int, to as int)),
{
    let mut i: usize = to;
    while i > from && is_white_space(v[i - 1])
        invariant
            from <= i <= to <= v@.len(),
            trim_end(v@.subrange(from as int, to as int)) == trim_end(
                v@.subrange(from as int, i as int),
            ),
        decreases i - from,
    {
        assert(v@.subrange(from as int, i as int).drop_last() =~= v@.subrange(
            from as int,
            i - 1,
        ));
        i -= 1;
    }
    i
}

/// `s` without the white space around it.
pub fn trimmed(s: &str) -> (r: String)
    ensures
        r@ == trim(s@),
{
    let v = chars_of(s);
    let from = trim_start_at(&v, 0, v.len());
    let to = trim_end_at(&v, from, v.len());
    assert(v@.subrange(0, v@.len() as int) =~= v@);
    slice_string(&v, from, to)
}

/// Whether `s` holds nothing but white space.
pub fn is_blank(s: &str) -> (r: bool)
    ensures
        r == blank(s@),
{
    let v = chars_of(s);
    let mut i: usize = 0;
    while i < v.len()
        invariant
            v@ == s@,
            i <= v@.len(),
            forall|j: int| 0 <= j < i ==> white_space(v@[j]),
        decreases v@.len() - i,
    {
        if !is_white_space(v[i]) {
            return false;
        }
        i += 1;
    }
    true
}

/// How many characters `s` holds before its first white space.
pub open spec fn word_len(s: Seq<char>) -> nat
    decreases s.len(),
{
    if s.len() == 0 || white_space(s[0]) {
        0
    } else {
        1 + word_len(s.drop_first())
    }
}

/// The first word of `s`; empty where `s` is blank.
pub open spec fn first_word(s: Seq<char>) -> Seq<char> {
    trim_start(s).take(word_len(trim_start(s)) as int)
}

/// What follows the first word of `s`.
pub open spec fn after_word(s: Seq<char>) -> Seq<char> {
    trim_start(s).skip(word_len(trim_start(s)) as int)
}

proof fn lemma_word_len(s: Seq<char>, n: nat)
    requires
        n <= s.len(),
        forall|i: int| 0 <= i < n ==> !white_space(s[i]),
        n < s.len() ==> white_space(s[n as int]),
    ensures
        word_len(s) == n,
    decreases s.len(),
{
    if n > 0 {
        let rest = s.drop_first();
        assert(!white_space(s[0]));
        assert forall|i: int| 0 <= i < n - 1 implies !white_space(rest[i]) by {
            assert(rest[i] == s[i + 1]);
        }
        lemma_word_len(rest, (n - 1) as nat);
    }
}

/// The bounds of the first word of `v` at or after `from`.
pub fn next_word(v: &Vec<char>, from: usize) -> (r: (usize, usize))
    requires
        from <= v@.len(),
    ensures
        from <= r.0 <= r.1 <= v@.len(),
        v@.subrange(r.0 as int, r.1 as int) == first_word(v@.skip(from as int)),
        v@.skip(r.1 as int) == after_word(v@.skip(from as int)),
{
    let start = trim_start_at(v, from, v.len());
    let ghost rest = v@.skip(start as int);
    assert(v@.subrange(from as int, v@.len() as int) =~= v@.skip(from as int));
    assert(v@.subrange(start as int, v@.len() as int) =~= rest);
    let mut i: usize = start;
    while i < v.len() && !is_white_space(v[i])
        invariant
            start <= i <= v@.len(),
            rest == v@.skip(start as int),
            forall|j: int| 0 <= j < i - start ==> !white_space(rest[j]),
        decreases v@.len() - i,
    {
        i += 1;
    }
    proof {
        lemma_word_len(rest, (i - start) as nat);
        assert(v@.subrange(start as int, i as int) =~= rest.take(i - start));
        assert(v@.skip(i as int) =~= rest.skip(i - start));
    }
    (start, i)
}

// ── Splitting and joining ───────────────────────────────────────────────────

/// The parts of `s` between the places where `sep` stands.
pub open spec fn split(s: Seq<char>, sep: char) -> Seq<Seq<char>>
    decreases s.len(),
{
    let i = find_char(s, sep);
    if i >= s.len() {
        seq![s]
    } else {
        seq![s.take(i as int)] + split(s.skip((i + 1) as int), sep)
    }
}

/// The parts of `s` between the places where `sep` stands.
pub fn split_at_each(s: &str, sep: char) -> (r: Vec<String>)
    ensures
        texts(r@) == split(s@, sep),
{
    let v = chars_of(s);
    let mut out: Vec<String> = Vec::new();
    let mut at: usize = 0;
    assert(v@.skip(0) =~= v@);
    assert(texts(out@) + split(v@, sep) =~= split(v@, sep));
    loop
        invariant
            v@ == s@,
            at <= v@.len(),
            texts(out@) + split(v@.skip(at as int), sep) == split(s@, sep),
        decreases v@.len() - at,
    {
        let ghost rest = v@.skip(at as int);
        let ghost before = out@;
        let end = find_char_from(&v, at, sep);
        let part = slice_string(&v, at, end);
        proof {
            assert(part@ =~= rest.take(end - at));
            assert(texts(before.push(part)) =~= texts(before) + seq![part@]);
        }
        out.push(part);
        if end == v.len() {
            assert(rest.take(end - at) =~= rest);
            return out;
        }
        assert(rest.skip(end - at + 1) =~= v@.skip(end + 1));
        assert(texts(out@) + split(v@.skip(end + 1), sep) =~= texts(before) + split(rest, sep));
        at = end + 1;
    }
}

/// A line without the carriage return that stands before its line feed.
pub open spec fn without_cr(s: Seq<char>) -> Seq<char> {
    if s.len() != 0 && s.last() == '\r' {
        s.drop_last()
    } else {
        s
    }
}

/// The lines of `s`: each ends at a line feed, alone or after a carriage return, and what
/// follows the last line feed is a line where it is not empty.
pub open spec fn lines(s: Seq<char>) -> Seq<Seq<char>>
    decreases s.len(),
{
    let i = find_char(s, '\n');
    if s.len() == 0 {
        Seq::empty()
    } else if i >= s.len() {
        seq![s]
    } else {
        seq![without_cr(s.take(i as int))] + lines(s.skip((i + 1) as int))
    }
}

/// The lines of `s`.
pub fn lines_of(s: &str) -> (r: Vec<String>)
    ensures
        texts(r@) == lines(s@),
{
    let v = chars_of(s);
    let mut out: Vec<String> = Vec::new();
    let mut at: usize = 0;
    assert(v@.skip(0) =~= v@);
    assert(texts(out@) + lines(v@) =~= lines(v@));
    while at < v.len()
        invariant
            v@ == s@,
            at <= v@.len(),
            texts(out@) + lines(v@.skip(at as int)) == lines(s@),
        decreases v@.len() - at,
    {
        let ghost rest = v@.skip(at as int);
        let ghost before = out@;
        let end = find_char_from(&v, at, '\n');
        if end == v.len() {
            let last = slice_string(&v, at, end);
            proof {
                assert(last@ =~= rest);
                assert(texts(before.push(last)) =~= texts(before) + seq![last@]);
                assert(v@.skip(v@.len() as int).len() == 0);
                assert(texts(before.push(last)) + lines(v@.skip(v@.len() as int)) =~= texts(before)
                    + lines(rest));
            }
            out.push(last);
            at = v.len();
        } else {
            let cut = if end > at && v[end - 1] == '\r' {
                end - 1
            } else {
                end
            };
            let line = slice_string(&v, at, cut);
            proof {
                assert(rest.take(end - at) =~= v@.subrange(at as int, end as int));
                assert(line@ =~= without_cr(rest.take(end - at)));
                assert(texts(before.push(line)) =~= texts(before) + seq![line@]);
                assert(rest.skip(end - at + 1) =~= v@.skip(end + 1));
                assert(texts(before.push(line)) + lines(v@.skip(end + 1)) =~= texts(before)
                    + lines(rest));
            }
            out.push(line);
            at = end + 1;
        }
    }
    assert(lines(v@.skip(at as int)) =~= Seq::<Seq<char>>::empty());
    assert(texts(out@) =~= lines(s@));
    out
}

/// The parts of `parts` that are not blank.
pub open spec fn not_blank(parts: Seq<Seq<char>>) -> Seq<Seq<char>>
    decreases parts.len(),
{
    if parts.len() == 0 {
        Seq::empty()
    } else if blank(parts.last()) {
        not_blank(parts.drop_last())
    } else {
        not_blank(parts.drop_last()).push(parts.last())
    }
}

/// The last `n` of `parts`; all of them where there are no more.
pub open spec fn last_of(parts: Seq<Seq<char>>, n: nat) -> Seq<Seq<char>> {
    if parts.len() <= n {
        parts
    } else {
        parts.skip(parts.len() - n)
    }
}

/// `parts` one after the other, with `sep` between them.
pub open spec fn join(parts: Seq<Seq<char>>, sep: Seq<char>) -> Seq<char>
    decreases parts.len(),
{
    if parts.len() == 0 {
        Seq::empty()
    } else if parts.len() == 1 {
        parts[0]
    } else {
        join(parts.drop_last(), sep) + sep + parts.last()
    }
}

/// `parts` from `from` on, one after the other, with `sep` between them.
pub fn joined_from(parts: &Vec<String>, from: usize, sep: &str) -> (r: String)
    requires
        from <= parts@.len(),
    ensures
        r@ == join(texts(parts@).skip(from as int), sep@),
{
    let ghost all = texts(parts@).skip(from as int);
    let mut out = String::new();
    let mut i: usize = from;
    while i < parts.len()
        invariant
            from <= i <= parts@.len(),
            all == texts(parts@).skip(from as int),
            out@ == join(all.take(i - from), sep@),
        decreases parts@.len() - i,
    {
        let ghost k = i - from;
        if i > from {
            out.append(sep);
        }
        out.append(parts[i].as_str());
        proof {
            assert(all.take(k + 1).drop_last() =~= all.take(k));
            assert(all.take(k + 1).last() == parts@[i as int]@);
            assert(out@ =~= join(all.take(k + 1), sep@));
        }
        i += 1;
    }
    assert(all.take(i - from) =~= all);
    out
}

/// `parts` one after the other, with `sep` between them.
pub fn joined(parts: &Vec<String>, sep: &str) -> (r: String)
    ensures
        r@ == join(texts(parts@), sep@),
{
    assert(texts(parts@).skip(0) =~= texts(parts@));
    joined_from(parts, 0, sep)
}

/// The last `n` lines of `s` that are not blank, on one line.
pub open spec fn tail_text(s: Seq<char>, n: nat) -> Seq<char> {
    join(last_of(not_blank(lines(s)), n), " | "@)
}

/// The last `n` lines of `s` that are not blank, on one line. It is where a program that
/// failed says why.
pub fn tail(s: &str, n: usize) -> (r: String)
    ensures
        r@ == tail_text(s@, n as nat),
{
    let all = lines_of(s);
    let ghost every = texts(all@);
    let mut kept: Vec<String> = Vec::new();
    let mut i: usize = 0;
    while i < all.len()
        invariant
            i <= all@.len(),
            every == texts(all@),
            texts(kept@) == not_blank(every.take(i as int)),
        decreases all@.len() - i,
    {
        proof {
            assert(every.take(i + 1).drop_last() =~= every.take(i as int));
        }
        if !is_blank(all[i].as_str()) {
            let ghost before = kept@;
            let line = all[i].clone();
            assert(texts(before.push(line)) =~= texts(before).push(line@));
            kept.push(line);
        }
        i += 1;
    }
    assert(every.take(i as int) =~= every);
    let from = if kept.len() <= n {
        0
    } else {
        kept.len() - n
    };
    assert(texts(kept@).skip(0) =~= texts(kept@));
    joined_from(&kept, from, " | ")
}

// ── Numbers ─────────────────────────────────────────────────────────────────

/// The character of the digit `d`, below ten.
pub open spec fn digit(d: nat) -> char {
    (('0' as u8) + d) as char
}

/// `n` in decimal.
pub open spec fn decimal(n: nat) -> Seq<char>
    decreases n,
{
    if n < 10 {
        seq![digit(n)]
    } else {
        decimal(n / 10).push(digit(n % 10))
    }
}

/// `n` in decimal, with a sign where it is negative.
pub open spec fn signed_decimal(n: int) -> Seq<char> {
    if n < 0 {
        seq!['-'] + decimal((-n) as nat)
    } else {
        decimal(n as nat)
    }
}

/// `n` in decimal, with zeros before it up to two digits.
pub open spec fn two_digits(n: nat) -> Seq<char> {
    if n < 10 {
        seq!['0'] + decimal(n)
    } else {
        decimal(n)
    }
}

/// `n` in decimal, with zeros before it up to three digits.
pub open spec fn three_digits(n: nat) -> Seq<char> {
    if n < 100 {
        seq!['0'] + two_digits(n)
    } else {
        decimal(n)
    }
}

/// Appends `n` in decimal.
pub fn push_decimal(out: &mut String, n: u64)
    ensures
        final(out)@ == old(out)@ + decimal(n as nat),
    decreases n,
{
    if n >= 10 {
        push_decimal(out, n / 10);
    }
    out.push((48u8 + ((n % 10) as u8)) as char);
    assert(out@ =~= old(out)@ + decimal(n as nat));
}

/// Appends `n` in decimal, with a sign where it is negative.
pub fn push_signed(out: &mut String, n: i32)
    ensures
        final(out)@ == old(out)@ + signed_decimal(n as int),
{
    if n < 0 {
        out.push('-');
        push_decimal(out, (-(n as i64)) as u64);
    } else {
        push_decimal(out, n as u64);
    }
    assert(out@ =~= old(out)@ + signed_decimal(n as int));
}

/// Appends `n` in at least two digits.
pub fn push_two_digits(out: &mut String, n: u64)
    ensures
        final(out)@ == old(out)@ + two_digits(n as nat),
{
    if n < 10 {
        out.push('0');
    }
    push_decimal(out, n);
    assert(out@ =~= old(out)@ + two_digits(n as nat));
}

/// Appends `n` in at least three digits.
pub fn push_three_digits(out: &mut String, n: u64)
    ensures
        final(out)@ == old(out)@ + three_digits(n as nat),
{
    if n < 100 {
        out.push('0');
        push_two_digits(out, n);
    } else {
        push_decimal(out, n);
    }
    assert(out@ =~= old(out)@ + three_digits(n as nat));
}

/// `n` in decimal.
pub fn decimal_of(n: u64) -> (r: String)
    ensures
        r@ == decimal(n as nat),
{
    let mut out = String::new();
    push_decimal(&mut out, n);
    assert(out@ =~= decimal(n as nat));
    out
}

/// Whether `s` holds decimal digits alone.
pub open spec fn all_digits(s: Seq<char>) -> bool {
    forall|i: int| 0 <= i < s.len() ==> ascii_digit(s[i])
}

/// The number that the decimal digits `s` write.
pub open spec fn digits_value(s: Seq<char>) -> nat
    decreases s.len(),
{
    if s.len() == 0 {
        0
    } else {
        (digits_value(s.drop_last()) * 10 + (s.last() as u8 - '0' as u8)) as nat
    }
}

/// `s` without the plus sign at its start.
pub open spec fn without_plus(s: Seq<char>) -> Seq<char> {
    if s.len() != 0 && s[0] == '+' {
        s.drop_first()
    } else {
        s
    }
}

/// The number that `s` writes in decimal, at most `max`: one digit or more, after a plus sign
/// or none.
pub open spec fn number_upto(s: Seq<char>, max: nat) -> Option<nat> {
    let digits = without_plus(s);
    if digits.len() != 0 && all_digits(digits) && digits_value(digits) <= max {
        Some(digits_value(digits))
    } else {
        None
    }
}

proof fn lemma_digits_value_grows(s: Seq<char>, n: int)
    requires
        0 <= n <= s.len(),
        all_digits(s),
    ensures
        digits_value(s.take(n)) <= digits_value(s),
    decreases s.len(),
{
    if n == s.len() {
        assert(s.take(n) =~= s);
    } else {
        let front = s.drop_last();
        assert(all_digits(front)) by {
            assert forall|i: int| 0 <= i < front.len() implies ascii_digit(front[i]) by {
                assert(front[i] == s[i]);
            }
        }
        lemma_digits_value_grows(front, n);
        assert(front.take(n) =~= s.take(n));
        assert(ascii_digit(s[s.len() - 1]));
    }
}

/// The number that the digits of `v` from `from` up to `to` write, at most `max`.
pub fn digits_upto(v: &Vec<char>, from: usize, to: usize, max: u32) -> (r: Option<u32>)
    requires
        from <= to <= v@.len(),
        all_digits(v@.subrange(from as int, to as int)),
    ensures
        r is Some <==> digits_value(v@.subrange(from as int, to as int)) <= max,
        r matches Some(n) ==> n == digits_value(v@.subrange(from as int, to as int)),
{
    let ghost s = v@.subrange(from as int, to as int);
    let mut n: u64 = 0;
    let mut i: usize = from;
    while i < to
        invariant
            from <= i <= to <= v@.len(),
            s == v@.subrange(from as int, to as int),
            all_digits(s),
            n == digits_value(s.take(i - from)),
            n <= max,
        decreases to - i,
    {
        proof {
            assert(s.take(i - from + 1).drop_last() =~= s.take(i - from));
            assert(ascii_digit(s[i - from]));
            lemma_digits_value_grows(s, i - from + 1);
        }
        n = n * 10 + ((v[i] as u8 - 48u8) as u64);
        if n > max as u64 {
            return None;
        }
        i += 1;
    }
    assert(s.take(to - from) =~= s);
    Some(n as u32)
}

/// The number that `s` writes in decimal, where it fits `u32`.
pub fn parse_u32(s: &str) -> (r: Option<u32>)
    ensures
        r is Some <==> number_upto(s@, u32::MAX as nat) is Some,
        r matches Some(n) ==> number_upto(s@, u32::MAX as nat) == Some(n as nat),
{
    let v = chars_of(s);
    let from: usize = if v.len() != 0 && v[0] == '+' {
        1
    } else {
        0
    };
    let ghost digits = v@.subrange(from as int, v@.len() as int);
    assert(digits =~= without_plus(s@));
    if from == v.len() {
        return None;
    }
    let mut i: usize = from;
    while i < v.len()
        invariant
            from <= i <= v@.len(),
            digits == v@.subrange(from as int, v@.len() as int),
            digits == without_plus(s@),
            forall|j: int| 0 <= j < i - from ==> ascii_digit(digits[j]),
        decreases v@.len() - i,
    {
        if !is_ascii_digit(v[i]) {
            assert(!ascii_digit(digits[i - from]));
            return None;
        }
        i += 1;
    }
    digits_upto(&v, from, v.len(), u32::MAX)
}

// ── Laws ────────────────────────────────────────────────────────────────────

/// White space, digits, letters and capitals, by their code points. Lower case changes capitals
/// alone, and each of them to the letter thirty-two places behind it.
pub proof fn characters_are_told_apart(c: char)
    ensures
        ({
            let n = c as int;
            &&& white_space(c) <==> (9 <= n <= 13 || n == 32 || n == 133 || n == 160 || n == 5760
                || 8192 <= n <= 8202 || n == 8232 || n == 8233 || n == 8239 || n == 8287 || n
                == 12288)
            &&& ascii_digit(c) <==> 48 <= n <= 57
            &&& ascii_alphanumeric(c) <==> (48 <= n <= 57 || 65 <= n <= 90 || 97 <= n <= 122)
            &&& lower(c) as int == (if 65 <= n <= 90 {
                n + 32
            } else {
                n
            })
        }),
{
}

/// A list of strings is seen as a list of texts, each in its place.
pub proof fn texts_stand_in_their_places(v: Seq<String>, o: Option<String>, i: int)
    ensures
        texts(v).len() == v.len(),
        0 <= i < v.len() ==> texts(v)[i] == v[i]@,
        o matches Some(t) ==> opt_text(o) == Some(t@),
        o is None ==> opt_text(o) is None,
{
}

/// A text that begins or ends with another has its characters there, one by one.
pub proof fn ends_are_compared_by_characters(s: Seq<char>, p: Seq<char>)
    ensures
        starts_with(s, p) <==> (p.len() <= s.len() && forall|i: int|
            0 <= i < p.len() ==> #[trigger] p[i] == s[i]),
        ends_with(s, p) <==> (p.len() <= s.len() && forall|i: int|
            0 <= i < p.len() ==> #[trigger] p[i] == s[s.len() - p.len() + i]),
{
    if p.len() <= s.len() {
        let head = s.take(p.len() as int);
        let end = s.skip(s.len() - p.len());
        if forall|i: int| 0 <= i < p.len() ==> #[trigger] p[i] == s[i] {
            assert(head =~= p);
        } else {
            let i = choose|i: int| 0 <= i < p.len() && #[trigger] p[i] != s[i];
            assert(head[i] != p[i]);
        }
        if forall|i: int| 0 <= i < p.len() ==> #[trigger] p[i] == s[s.len() - p.len() + i] {
            assert(end =~= p);
        } else {
            let i = choose|i: int|
                0 <= i < p.len() && #[trigger] p[i] != s[s.len() - p.len() + i];
            assert(end[i] != p[i]);
        }
    }
}

/// A text is found at the first place where it stands, and nowhere where it stands nowhere.
pub proof fn the_first_place_is_found(s: Seq<char>, p: Seq<char>)
    ensures
        match find_text(s, p) {
            Some(at) => at + p.len() <= s.len() && s.subrange(at as int, (at + p.len()) as int)
                == p && forall|j: int|
                0 <= j < at ==> #[trigger] s.subrange(j, j + p.len()) != p,
            None => forall|j: int|
                0 <= j && j + p.len() <= s.len() ==> #[trigger] s.subrange(j, j + p.len()) != p,
        },
    decreases s.len(),
{
    if starts_with(s, p) {
        assert(s.take(p.len() as int) =~= s.subrange(0, p.len() as int));
    } else {
        if p.len() <= s.len() {
            assert(s.take(p.len() as int) =~= s.subrange(0, p.len() as int));
        }
        if s.len() > 0 {
            let rest = s.drop_first();
            the_first_place_is_found(rest, p);
            assert forall|j: int| 1 <= j && j + p.len() <= s.len() implies #[trigger] s.subrange(
                j,
                j + p.len(),
            ) == rest.subrange(j - 1, j - 1 + p.len()) by {
                assert(s.subrange(j, j + p.len()) =~= rest.subrange(j - 1, j - 1 + p.len()));
            }
            if let Some(i) = find_text(rest, p) {
                let at = i as int;
                assert(s.subrange(at + 1, at + 1 + p.len()) == rest.subrange(at, at + p.len()));
            }
        }
    }
}

/// Trimming takes off the white space around a text, all of it and nothing else.
pub proof fn trimming_takes_off_what_is_around(
    before: Seq<char>,
    core: Seq<char>,
    after: Seq<char>,
)
    requires
        blank(before),
        blank(after),
        core.len() > 0 ==> !white_space(core[0]) && !white_space(core.last()),
    ensures
        trim(before + core + after) == core,
        core.len() > 0 ==> trim_start(before + core + after) == core + after,
{
    if core.len() == 0 {
        let all = before + core + after;
        assert(blank(all)) by {
            assert forall|i: int| 0 <= i < all.len() implies white_space(all[i]) by {
                if i < before.len() {
                    assert(all[i] == before[i]);
                } else {
                    assert(all[i] == after[i - before.len()]);
                }
            }
        }
        trimming_empties_blank_text(all);
        assert(trim(all) =~= core);
    } else {
        assert(before + core + after =~= before + (core + after));
        lemma_trim_start_skips(before, core + after);
        lemma_trim_end_drops(core, after);
    }
}

/// White space at the start is skipped.
pub proof fn lemma_trim_start_skips(before: Seq<char>, rest: Seq<char>)
    requires
        blank(before),
        rest.len() > 0 ==> !white_space(rest[0]),
    ensures
        trim_start(before + rest) == rest,
    decreases before.len(),
{
    let all = before + rest;
    if before.len() > 0 {
        assert(all[0] == before[0]);
        assert(all.drop_first() =~= before.drop_first() + rest);
        assert(blank(before.drop_first())) by {
            assert forall|i: int| 0 <= i < before.len() - 1 implies white_space(
                before.drop_first()[i],
            ) by {
                assert(white_space(before[i + 1]));
            }
        }
        lemma_trim_start_skips(before.drop_first(), rest);
    } else {
        assert(all =~= rest);
    }
}

proof fn lemma_trim_end_drops(core: Seq<char>, after: Seq<char>)
    requires
        blank(after),
        core.len() > 0 ==> !white_space(core.last()),
    ensures
        trim_end(core + after) == core,
    decreases after.len(),
{
    let all = core + after;
    if after.len() > 0 {
        assert(all.last() == after.last());
        assert(white_space(after[after.len() - 1]));
        assert(all.drop_last() =~= core + after.drop_last());
        assert(blank(after.drop_last())) by {
            assert forall|i: int| 0 <= i < after.len() - 1 implies white_space(
                after.drop_last()[i],
            ) by {
                assert(white_space(after[i]));
            }
        }
        lemma_trim_end_drops(core, after.drop_last());
    } else {
        assert(all =~= core);
    }
}

/// The first word of a text stands behind the white space before it and ends at the next.
pub proof fn words_end_at_white_space(before: Seq<char>, word: Seq<char>, rest: Seq<char>)
    requires
        blank(before),
        word.len() > 0,
        forall|i: int| 0 <= i < word.len() ==> !white_space(#[trigger] word[i]),
        rest.len() > 0 ==> white_space(rest[0]),
    ensures
        first_word(before + word + rest) == word,
        after_word(before + word + rest) == rest,
{
    let tail = word + rest;
    assert(tail[0] == word[0]);
    assert(before + word + rest =~= before + tail);
    lemma_trim_start_skips(before, tail);
    assert forall|i: int| 0 <= i < word.len() implies !white_space(tail[i]) by {
        assert(tail[i] == word[i]);
    }
    if rest.len() > 0 {
        assert(tail[word.len() as int] == rest[0]);
    }
    lemma_word_len(tail, word.len());
    assert(tail.take(word.len() as int) =~= word);
    assert(tail.skip(word.len() as int) =~= rest);
}

/// Texts that are joined stand one after the other in their order, with the separator between
/// any two and nowhere else.
pub proof fn joined_texts_keep_their_order(
    a: Seq<Seq<char>>,
    b: Seq<Seq<char>>,
    x: Seq<char>,
    sep: Seq<char>,
)
    ensures
        join(Seq::empty(), sep) == Seq::<char>::empty(),
        join(seq![x], sep) == x,
        a.len() > 0 && b.len() > 0 ==> join(a + b, sep) == join(a, sep) + sep + join(b, sep),
    decreases b.len(),
{
    if a.len() > 0 && b.len() > 0 {
        let all = a + b;
        assert(all.last() == b.last());
        assert(all.drop_last() =~= a + b.drop_last());
        if b.len() == 1 {
            assert(all.drop_last() =~= a);
        } else {
            joined_texts_keep_their_order(a, b.drop_last(), x, sep);
            assert(join(all, sep) =~= join(a, sep) + sep + join(b, sep));
        }
    }
}

/// A text that is cut at a character is the parts with that character between them, and none of
/// the parts holds it.
pub proof fn a_text_is_its_parts(s: Seq<char>, sep: char, i: int)
    ensures
        split(s, sep).len() >= 1,
        join(split(s, sep), seq![sep]) == s,
        0 <= i < split(s, sep).len() ==> !split(s, sep)[i].contains(sep),
    decreases s.len(),
{
    let at = find_char(s, sep);
    lemma_find_char(s, sep);
    if at < s.len() {
        let head = s.take(at as int);
        let rest = s.skip((at + 1) as int);
        a_text_is_its_parts(rest, sep, i - 1);
        joined_texts_keep_their_order(seq![head], split(rest, sep), head, seq![sep]);
        assert(head + seq![sep] + rest =~= s);
        if i == 0 {
            assert(split(s, sep)[0] == head);
        } else if 0 < i < split(s, sep).len() {
            assert(split(s, sep)[i] == split(rest, sep)[i - 1]);
        }
    } else {
        assert(join(split(s, sep), seq![sep]) =~= s);
    }
}

/// The lines of a text: what stands before the first line feed is the first of them, without the
/// carriage return at its end, and what stands behind it has the others. Text without a line
/// feed is one line, and no text is none.
pub proof fn lines_end_at_line_feeds(line: Seq<char>, rest: Seq<char>)
    requires
        !line.contains('\n'),
    ensures
        lines(line) == (if line.len() == 0 {
            Seq::empty()
        } else {
            seq![line]
        }),
        lines(line.push('\n') + rest) == seq![
            if line.len() > 0 && line.last() == '\r' {
                line.drop_last()
            } else {
                line
            },
        ] + lines(rest),
{
    lemma_find_char(line, '\n');
    let all = line.push('\n') + rest;
    lemma_find_char(all, '\n');
    assert(find_char(line, '\n') == line.len());
    assert(all[line.len() as int] == '\n');
    let at = find_char(all, '\n');
    if at < line.len() {
        assert(line[at as int] == all[at as int]);
        assert(line.contains('\n'));
    }
    assert(at == line.len());
    assert(all.take(at as int) =~= line);
    assert(all.skip((at + 1) as int) =~= rest);
}

/// What is told of a program that failed are the last lines that say something, in their order:
/// blank ones are passed over, and so are those before the last few.
pub proof fn a_tail_is_the_last_lines(
    s: Seq<char>,
    n: nat,
    a: Seq<Seq<char>>,
    b: Seq<Seq<char>>,
    x: Seq<char>,
)
    ensures
        ({
            let all = not_blank(lines(s));
            tail_text(s, n) == join(
                all.subrange(
                    if all.len() <= n {
                        0
                    } else {
                        all.len() - n
                    },
                    all.len() as int,
                ),
                seq![' ', '|', ' '],
            )
        }),
        not_blank(a + b) == not_blank(a) + not_blank(b),
        not_blank(seq![x]) == (if blank(x) {
            Seq::empty()
        } else {
            seq![x]
        }),
{
    reveal_strlit(" | ");
    assert(" | "@ =~= seq![' ', '|', ' ']);
    let all = not_blank(lines(s));
    if all.len() <= n {
        assert(all.subrange(0, all.len() as int) =~= all);
    } else {
        assert(all.subrange(all.len() - n, all.len() as int) =~= all.skip(all.len() - n));
    }
    lemma_not_blank_parts(a, b);
    assert(seq![x].drop_last() =~= Seq::empty());
    reveal_with_fuel(not_blank, 2);
    assert(not_blank(seq![x]) =~= (if blank(x) {
        Seq::empty()
    } else {
        seq![x]
    }));
}

proof fn lemma_not_blank_parts(a: Seq<Seq<char>>, b: Seq<Seq<char>>)
    ensures
        not_blank(a + b) == not_blank(a) + not_blank(b),
    decreases b.len(),
{
    if b.len() == 0 {
        assert(a + b =~= a);
        assert(not_blank(a) + not_blank(b) =~= not_blank(a));
    } else {
        assert((a + b).drop_last() =~= a + b.drop_last());
        lemma_not_blank_parts(a, b.drop_last());
        assert(not_blank(a + b) =~= not_blank(a) + not_blank(b));
    }
}

/// A number is written so that it can be read back: digits alone, the first of them no zero but
/// in zero itself, with zeros before it up to the digits that were asked for.
pub proof fn numbers_are_read_back(n: nat)
    ensures
        all_digits(decimal(n)),
        digits_value(decimal(n)) == n,
        n > 0 ==> decimal(n).len() > 0 && decimal(n)[0] != '0',
        decimal(0) == seq!['0'],
        digits_value(two_digits(n)) == n,
        n < 100 ==> two_digits(n).len() == 2,
        n >= 100 ==> two_digits(n) == decimal(n),
        digits_value(three_digits(n)) == n,
        n < 1000 ==> three_digits(n).len() == 3,
        n >= 1000 ==> three_digits(n) == decimal(n),
        signed_decimal(n as int) == decimal(n),
        n > 0 ==> signed_decimal(-n) == seq!['-'] + decimal(n),
    decreases n,
{
    lemma_decimal_reads_back(n);
    let d = decimal(n);
    lemma_zero_before(d);
    lemma_zero_before(seq!['0'] + d);
    assert(seq!['0'] + (seq!['0'] + d) =~= seq!['0', '0'] + d);
    lemma_decimal_length(n);
}

proof fn lemma_decimal_reads_back(n: nat)
    ensures
        all_digits(decimal(n)),
        digits_value(decimal(n)) == n,
        decimal(n).len() > 0,
        n > 0 ==> decimal(n)[0] != '0',
    decreases n,
{
    let last = digit(n % 10);
    assert(ascii_digit(last) && last as u8 - '0' as u8 == n % 10);
    if n >= 10 {
        lemma_decimal_reads_back(n / 10);
        let front = decimal(n / 10);
        assert(decimal(n).drop_last() =~= front);
        assert forall|i: int| 0 <= i < decimal(n).len() implies ascii_digit(decimal(n)[i]) by {
            if i < front.len() {
                assert(ascii_digit(front[i]));
            }
        }
        assert(decimal(n)[0] == front[0]);
    } else {
        assert(decimal(n).drop_last() =~= Seq::empty());
        reveal_with_fuel(digits_value, 2);
    }
}

proof fn lemma_zero_before(s: Seq<char>)
    ensures
        digits_value(seq!['0'] + s) == digits_value(s),
    decreases s.len(),
{
    let all = seq!['0'] + s;
    if s.len() == 0 {
        assert(all.drop_last() =~= Seq::empty());
        reveal_with_fuel(digits_value, 2);
    } else {
        assert(all.drop_last() =~= seq!['0'] + s.drop_last());
        lemma_zero_before(s.drop_last());
    }
}

proof fn lemma_decimal_length(n: nat)
    ensures
        n < 10 ==> decimal(n).len() == 1,
        10 <= n < 100 ==> decimal(n).len() == 2,
        100 <= n < 1000 ==> decimal(n).len() == 3,
{
    reveal_with_fuel(decimal, 3);
}

/// What is read as a number is digits, after a plus sign or none, and no more than may be; each
/// digit counts ten times what the next does.
pub proof fn only_digits_are_numbers(s: Seq<char>, c: char, n: nat, max: nat)
    ensures
        digits_value(Seq::empty()) == 0,
        ascii_digit(c) ==> digits_value(s.push(c)) == 10 * digits_value(s) + (c as int - 48),
        number_upto(s, max) matches Some(v) ==> v <= max,
        number_upto(Seq::empty(), max) is None,
        number_upto(decimal(n), max) == (if n <= max {
            Some(n)
        } else {
            None
        }),
        number_upto(seq!['+'] + decimal(n), max) == number_upto(decimal(n), max),
        number_upto(s, max) is Some && s.contains(c) ==> ascii_digit(c) || (c == '+' && s[0] == c),
{
    assert(s.push(c).drop_last() =~= s);
    lemma_decimal_reads_back(n);
    let d = decimal(n);
    assert(ascii_digit(d[0]));
    assert((seq!['+'] + d).drop_first() =~= d);
    if number_upto(s, max) is Some && s.contains(c) {
        let i = choose|i: int| 0 <= i < s.len() && s[i] == c;
        let digits = without_plus(s);
        if s[0] == '+' {
            if i > 0 {
                assert(ascii_digit(digits[i - 1]));
            }
        } else {
            assert(ascii_digit(digits[i]));
        }
    }
}

/// What stands before the first separator is the first part of a text, and what stands behind it
/// has the others.
pub proof fn parts_end_at_separators(part: Seq<char>, rest: Seq<char>, sep: char)
    requires
        !part.contains(sep),
    ensures
        split(part, sep) == seq![part],
        split(part.push(sep) + rest, sep) == seq![part] + split(rest, sep),
{
    lemma_find_char(part, sep);
    if find_char(part, sep) < part.len() {
        assert(part.contains(sep));
    }
    let all = part.push(sep) + rest;
    lemma_find_char(all, sep);
    assert(all[part.len() as int] == sep);
    let at = find_char(all, sep);
    if at < part.len() {
        assert(part[at as int] == all[at as int]);
        assert(part.contains(sep));
    }
    assert(at == part.len());
    assert(all.take(at as int) =~= part);
    assert(all.skip((at + 1) as int) =~= rest);
}

} // verus!
