//! Character-level helpers on strings: prefixes, substrings, ASCII case
//! folding and splitting at a separator.

use vstd::prelude::*;

verus! {

/// ASCII lower-casing of one character: `A`..`Z` go to `a`..`z`, every other
/// character stays as it is.
pub open spec fn lower_char(c: char) -> char {
    if 'A' <= c && c <= 'Z' {
        ((c as u8) + 32) as char
    } else {
        c
    }
}

/// ASCII lower-casing of a whole text.
pub open spec fn lower(s: Seq<char>) -> Seq<char> {
    s.map_values(|c: char| lower_char(c))
}

/// `needle` occurs in `hay` starting at position `at`.
pub open spec fn occurs_at(hay: Seq<char>, needle: Seq<char>, at: int) -> bool {
    &&& 0 <= at
    &&& at + needle.len() <= hay.len()
    &&& forall|k: int| 0 <= k < needle.len() ==> hay[at + k] == needle[k]
}

/// `needle` occurs somewhere in `hay`.
pub open spec fn contains(hay: Seq<char>, needle: Seq<char>) -> bool {
    exists|at: int| occurs_at(hay, needle, at)
}

/// `needle` occurs in `hay` when the ASCII letters of both are compared
/// without regard to case.
pub open spec fn contains_ignore_case(hay: Seq<char>, needle: Seq<char>) -> bool {
    contains(lower(hay), lower(needle))
}

/// `prefix` is how `s` begins.
pub open spec fn starts_with(s: Seq<char>, prefix: Seq<char>) -> bool {
    occurs_at(s, prefix, 0)
}

/// What is found anywhere in a part of a text is found in the text.
pub proof fn lemma_contains_transitive(hay: Seq<char>, middle: Seq<char>, needle: Seq<char>)
    requires
        contains(hay, middle),
        contains(middle, needle),
    ensures
        contains(hay, needle),
{
    let a = choose|at: int| occurs_at(hay, middle, at);
    let b = choose|at: int| occurs_at(middle, needle, at);
    assert forall|k: int| 0 <= k < needle.len() implies hay[a + b + k] == needle[k] by {
        assert(hay[a + (b + k)] == middle[b + k]);
    }
    assert(occurs_at(hay, needle, a + b));
}

/// Case folding keeps occurrences: a part of a text is still a part of it
/// after both were lower-cased.
pub proof fn lemma_lower_keeps_contains(hay: Seq<char>, needle: Seq<char>)
    requires
        contains(hay, needle),
    ensures
        contains_ignore_case(hay, needle),
{
    let a = choose|at: int| occurs_at(hay, needle, at);
    assert(occurs_at(lower(hay), lower(needle), a));
}

/// The empty text occurs in every text.
pub proof fn lemma_contains_empty(hay: Seq<char>)
    ensures
        contains(hay, Seq::<char>::empty()),
        contains_ignore_case(hay, Seq::<char>::empty()),
{
    assert(occurs_at(hay, Seq::<char>::empty(), 0));
    assert(lower(Seq::<char>::empty()) =~= Seq::<char>::empty());
    assert(occurs_at(lower(hay), lower(Seq::<char>::empty()), 0));
}

/// `String::push` puts one character at the end of the string.
pub assume_specification[ String::push ](s: &mut String, c: char)
    ensures
        final(s)@ == old(s)@.push(c),
;

/// `String::pop` takes the last character off the string and returns it, or
/// returns `None` and leaves the string alone where it is empty.
pub assume_specification[ String::pop ](s: &mut String) -> (c: Option<char>)
    ensures
        old(s)@.len() == 0 ==> c is None && final(s)@ == old(s)@,
        old(s)@.len() > 0 ==> c == Some(old(s)@.last()) && final(s)@ == old(s)@.drop_last(),
;

/// The characters of a string, in order.
pub fn chars_of(s: &str) -> (v: Vec<char>)
    ensures
        v@ == s@,
{
    let mut v: Vec<char> = Vec::new();
    for c in it: s.chars()
        invariant
            v@ == it.seq().take(it.index() as int),
            it.seq() == s@,
    {
        v.push(c);
    }
    v
}

/// Two strings hold the same characters.
pub fn same_text(a: &str, b: &str) -> (r: bool)
    ensures
        r == (a@ == b@),
{
    let x = chars_of(a);
    let y = chars_of(b);
    if x.len() != y.len() {
        return false;
    }
    let mut i: usize = 0;
    while i < x.len()
        invariant
            i <= x.len(),
            x.len() == y.len(),
            x@ == a@,
            y@ == b@,
            forall|k: int| 0 <= k < i ==> x@[k] == y@[k],
        decreases x.len() - i,
    {
        if x[i] != y[i] {
            assert(a@[i as int] != b@[i as int]);
            return false;
        }
        i += 1;
    }
    assert(x@ =~= y@);
    true
}

/// Two optional strings are both absent, or both present with the same
/// characters.
pub fn same_optional_text(a: &Option<String>, b: &Option<String>) -> (r: bool)
    ensures
        r == (a.deep_view() == b.deep_view()),
{
    match (a, b) {
        (None, None) => true,
        (Some(x), Some(y)) => *x == *y,
        _ => false,
    }
}

/// A copy of an optional string.
pub fn copy_optional_text(a: &Option<String>) -> (r: Option<String>)
    ensures
        r.deep_view() == a.deep_view(),
{
    match a {
        None => None,
        Some(x) => Some(x.clone()),
    }
}

/// One character with its ASCII case folded.
pub fn to_lower_char(c: char) -> (r: char)
    ensures
        r == lower_char(c),
{
    if 'A' <= c && c <= 'Z' {
        ((c as u8) + 32) as char
    } else {
        c
    }
}

/// The characters with their ASCII case folded.
pub fn to_lower(v: &Vec<char>) -> (r: Vec<char>)
    ensures
        r@ == lower(v@),
{
    let mut r: Vec<char> = Vec::new();
    let mut i: usize = 0;
    while i < v.len()
        invariant
            i <= v.len(),
            r@.len() == i,
            forall|k: int| 0 <= k < i ==> r@[k] == lower_char(v@[k]),
        decreases v.len() - i,
    {
        r.push(to_lower_char(v[i]));
        i += 1;
    }
    assert(r@ =~= lower(v@));
    r
}

/// Whether `needle` stands in `hay` at position `at`.
pub fn found_at(hay: &Vec<char>, needle: &Vec<char>, at: usize) -> (r: bool)
    ensures
        r == occurs_at(hay@, needle@, at as int),
{
    if needle.len() > hay.len() || at > hay.len() - needle.len() {
        return false;
    }
    let mut k: usize = 0;
    while k < needle.len()
        invariant
            k <= needle.len(),
            at + needle.len() <= hay.len(),
            forall|j: int| 0 <= j < k ==> hay@[at + j] == needle@[j],
        decreases needle.len() - k,
    {
        if hay[at + k] != needle[k] {
            return false;
        }
        k += 1;
    }
    true
}

/// Whether `needle` stands somewhere in `hay`.
pub fn find(hay: &Vec<char>, needle: &Vec<char>) -> (r: bool)
    ensures
        r == contains(hay@, needle@),
{
    if needle.len() > hay.len() {
        return false;
    }
    let last: usize = hay.len() - needle.len();
    let mut at: usize = 0;
    while at <= last
        invariant
            at <= last + 1,
            last == hay.len() - needle.len(),
            needle.len() <= hay.len(),
            forall|j: int| 0 <= j < at ==> !occurs_at(hay@, needle@, j),
        decreases last + 1 - at,
    {
        if found_at(hay, needle, at) {
            return true;
        }
        at += 1;
    }
    false
}

/// Whether `s` begins with `prefix`.
pub fn has_prefix(s: &str, prefix: &str) -> (r: bool)
    ensures
        r == starts_with(s@, prefix@),
{
    let hay = chars_of(s);
    let needle = chars_of(prefix);
    found_at(&hay, &needle, 0)
}

/// Whether `needle` is a part of `hay`, character for character.
pub fn has_part(hay: &str, needle: &str) -> (r: bool)
    ensures
        r == contains(hay@, needle@),
{
    let h = chars_of(hay);
    let n = chars_of(needle);
    find(&h, &n)
}

/// Whether `needle` is a part of `hay` when ASCII case is ignored.
pub fn has_part_ignore_case(hay: &str, needle: &str) -> (r: bool)
    ensures
        r == contains_ignore_case(hay@, needle@),
{
    let h = to_lower(&chars_of(hay));
    let n = to_lower(&chars_of(needle));
    find(&h, &n)
}

/// The string made of the characters `v[from..to]`.
pub fn text_of(v: &Vec<char>, from: usize, to: usize) -> (s: String)
    requires
        from <= to <= v.len(),
    ensures
        s@ == v@.subrange(from as int, to as int),
{
    let mut s = String::new();
    let mut i: usize = from;
    while i < to
        invariant
            from <= i <= to <= v.len(),
            s@ == v@.subrange(from as int, i as int),
        decreases to - i,
    {
        s.push(v[i]);
        assert(v@.subrange(from as int, i + 1) =~= v@.subrange(from as int, i as int).push(
            v@[i as int],
        ));
        i += 1;
    }
    s
}

/// Reading a text from the left and cutting it at every `sep`: the pieces
/// that are complete, and the piece that is still open.
pub open spec fn split_scan(s: Seq<char>, sep: char) -> (Seq<Seq<char>>, Seq<char>)
    decreases s.len(),
{
    if s.len() == 0 {
        (Seq::empty(), Seq::empty())
    } else {
        let (done, open) = split_scan(s.drop_last(), sep);
        if s.last() == sep {
            (done.push(open), Seq::empty())
        } else {
            (done, open.push(s.last()))
        }
    }
}

/// The pieces a text falls into when it is cut at every `sep`. A text
/// without `sep` is one piece, the empty text too.
pub open spec fn split(s: Seq<char>, sep: char) -> Seq<Seq<char>> {
    split_scan(s, sep).0.push(split_scan(s, sep).1)
}

/// Pieces in one text, `sep` between each two.
pub open spec fn joined_pieces(pieces: Seq<Seq<char>>, sep: char) -> Seq<char>
    decreases pieces.len(),
{
    if pieces.len() == 0 {
        Seq::empty()
    } else if pieces.len() == 1 {
        pieces[0]
    } else {
        joined_pieces(pieces.drop_last(), sep) + seq![sep] + pieces.last()
    }
}

/// What cutting a text at a character gives: at least one piece, no piece
/// holds the character, and the pieces with the character between them are
/// the text again.
pub proof fn lemma_split_joins_back(s: Seq<char>, sep: char)
    ensures
        split(s, sep).len() >= 1,
        joined_pieces(split(s, sep), sep) == s,
        forall|i: int, k: int|
            0 <= i < split(s, sep).len() && 0 <= k < split(s, sep)[i].len() ==> (
            #[trigger] split(s, sep)[i][k]) != sep,
    decreases s.len(),
{
    if s.len() == 0 {
        assert(split(s, sep) =~= seq![Seq::<char>::empty()]);
        assert(joined_pieces(split(s, sep), sep) =~= s);
    } else {
        let t = s.drop_last();
        let c = s.last();
        lemma_split_joins_back(t, sep);
        let done = split_scan(t, sep).0;
        let open = split_scan(t, sep).1;
        let before = split(t, sep);
        let now = split(s, sep);
        assert(before.drop_last() =~= done);
        assert(t.push(c) =~= s);
        if c == sep {
            assert(now == before.push(Seq::<char>::empty()));
            assert(now.drop_last() =~= before);
            assert(joined_pieces(now, sep) =~= t + seq![sep] + Seq::<char>::empty());
            assert(joined_pieces(now, sep) =~= s);
            assert forall|i: int, k: int|
                0 <= i < now.len() && 0 <= k < now[i].len() implies (#[trigger] now[i][k])
                != sep by {
                assert(now[i] == before[i]);
                assert(before[i][k] != sep);
            }
        } else {
            assert(now == done.push(open.push(c)));
            assert(now.drop_last() =~= done);
            if done.len() == 0 {
                assert(before.len() == 1);
                assert(joined_pieces(now, sep) =~= s);
            } else {
                assert(joined_pieces(before, sep) == joined_pieces(done, sep) + seq![sep] + open);
                assert(joined_pieces(now, sep) =~= joined_pieces(done, sep) + seq![sep] + open.push(
                    c,
                ));
                assert(joined_pieces(now, sep) =~= s);
            }
            assert forall|i: int, k: int|
                0 <= i < now.len() && 0 <= k < now[i].len() implies (#[trigger] now[i][k])
                != sep by {
                if i < done.len() {
                    assert(now[i] == before[i]);
                    assert(before[i][k] != sep);
                } else if k < open.len() {
                    assert(before[i] == open);
                    assert(before[i][k] != sep);
                }
            }
        }
    }
}

/// The pieces between the occurrences of `sep` in `s`.
pub fn split_at_char(s: &str, sep: char) -> (pieces: Vec<String>)
    ensures
        pieces.deep_view() == split(s@, sep),
{
    let chars = chars_of(s);
    let mut done: Vec<String> = Vec::new();
    let mut open = String::new();
    let mut i: usize = 0;
    assert(done.deep_view() =~= Seq::<Seq<char>>::empty());
    while i < chars.len()
        invariant
            i <= chars.len(),
            chars@ == s@,
            done.deep_view() == split_scan(s@.take(i as int), sep).0,
            open@ == split_scan(s@.take(i as int), sep).1,
        decreases chars.len() - i,
    {
        let c = chars[i];
        assert(s@.take(i + 1).drop_last() =~= s@.take(i as int));
        assert(s@.take(i + 1).last() == c);
        if c == sep {
            let ghost before = done.deep_view();
            let ghost piece = open@;
            done.push(open);
            open = String::new();
            assert(done.deep_view() =~= before.push(piece));
        } else {
            open.push(c);
        }
        i += 1;
    }
    assert(s@.take(chars.len() as int) =~= s@);
    let ghost before = done.deep_view();
    let ghost piece = open@;
    done.push(open);
    assert(done.deep_view() =~= before.push(piece));
    done
}

/// The character `c` stands at index `i` of `s`, and nowhere before.
pub open spec fn is_first_at(s: Seq<char>, c: char, i: int) -> bool {
    &&& 0 <= i < s.len()
    &&& s[i] == c
    &&& forall|j: int| 0 <= j < i ==> s[j] != c
}

/// Where `c` first stands in `v`, if anywhere.
pub fn first_index_of(v: &Vec<char>, c: char) -> (r: Option<usize>)
    ensures
        match r {
            Some(i) => is_first_at(v@, c, i as int),
            None => forall|j: int| 0 <= j < v@.len() ==> v@[j] != c,
        },
{
    let mut i: usize = 0;
    while i < v.len()
        invariant
            i <= v.len(),
            forall|j: int| 0 <= j < i ==> v@[j] != c,
        decreases v.len() - i,
    {
        if v[i] == c {
            return Some(i);
        }
        i += 1;
    }
    None
}

/// The number of characters of a string.
pub fn char_count(s: &str) -> (n: usize)
    ensures
        n == s@.len(),
{
    s.unicode_len()
}

} // verus!
