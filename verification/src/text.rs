//! Plain text: the string operations that the rest of the library builds on,
//! each with its meaning as a function on sequences of characters.

use vstd::prelude::*;

verus! {

/// What `String::push` does: it appends the character.
pub assume_specification[ String::push ](s: &mut String, c: char)
    ensures
        final(s)@ == old(s)@.push(c),
;

/// The contents of a list of strings.
pub open spec fn views(list: Seq<String>) -> Seq<Seq<char>> {
    list.map_values(|s: String| s@)
}

/// The contents of an optional string.
pub open spec fn opt_view(s: Option<String>) -> Option<Seq<char>> {
    match s {
        Some(v) => Some(v@),
        None => None,
    }
}

/// The contents of an optional borrowed string.
pub open spec fn opt_str_view(s: Option<&str>) -> Option<Seq<char>> {
    match s {
        Some(v) => Some(v@),
        None => None,
    }
}

/// Whether two strings hold the same characters.
pub fn same(a: &str, b: &str) -> (r: bool)
    ensures
        r == (a@ == b@),
{
    a.to_owned() == b.to_owned()
}

pub proof fn lemma_views_push(list: Seq<String>, s: String)
    ensures
        views(list.push(s)) == views(list).push(s@),
{
    assert(views(list.push(s)) =~= views(list).push(s@));
}

/// The characters with Unicode's `White_Space` property.
pub open spec fn is_space(c: char) -> bool {
    let u = c as u32;
    ||| 0x9 <= u <= 0xd
    ||| u == 0x20
    ||| u == 0x85
    ||| u == 0xa0
    ||| u == 0x1680
    ||| 0x2000 <= u <= 0x200a
    ||| u == 0x2028
    ||| u == 0x2029
    ||| u == 0x202f
    ||| u == 0x205f
    ||| u == 0x3000
}

/// Whether `c` is white space.
pub fn is_whitespace(c: char) -> (r: bool)
    ensures
        r == is_space(c),
{
    let u: u32 = c as u32;
    (0x9 <= u && u <= 0xd) || u == 0x20 || u == 0x85 || u == 0xa0 || u == 0x1680 || (0x2000 <= u
        && u <= 0x200a) || u == 0x2028 || u == 0x2029 || u == 0x202f || u == 0x205f || u == 0x3000
}

/// The characters of `s`, one by one.
pub fn chars_of(s: &str) -> (r: Vec<char>)
    ensures
        r@ == s@,
{
    let mut v: Vec<char> = Vec::new();
    for c in iter: s.chars()
        invariant
            v@ == iter.seq().take(iter.index() as int),
            iter.seq() == s@,
    {
        v.push(c);
    }
    v
}

/// The characters `from..to` of `v` as a string.
pub fn slice_of(v: &Vec<char>, from: usize, to: usize) -> (r: String)
    requires
        from <= to <= v.len(),
    ensures
        r@ == v@.subrange(from as int, to as int),
{
    let mut r = String::new();
    let mut i: usize = from;
    while i < to
        invariant
            from <= i <= to <= v.len(),
            r@ == v@.subrange(from as int, i as int),
        decreases to - i,
    {
        r.push(v[i]);
        i += 1;
    }
    r
}

/// `s` from its first character that is not white space on.
pub open spec fn trim_start(s: Seq<char>) -> Seq<char>
    decreases s.len(),
{
    if s.len() > 0 && is_space(s[0]) {
        trim_start(s.drop_first())
    } else {
        s
    }
}

/// `s` up to its last character that is not white space.
pub open spec fn trim_end(s: Seq<char>) -> Seq<char>
    decreases s.len(),
{
    if s.len() > 0 && is_space(s.last()) {
        trim_end(s.drop_last())
    } else {
        s
    }
}

/// `s` without the white space at either end.
pub open spec fn trimmed(s: Seq<char>) -> Seq<char> {
    trim_end(trim_start(s))
}

/// `s` without the white space at either end.
pub fn trim(s: &str) -> (r: String)
    ensures
        r@ == trimmed(s@),
{
    let v = chars_of(s);
    let n: usize = v.len();
    let mut i: usize = 0;
    assert(v@.subrange(0, n as int) == v@);
    while i < n && is_whitespace(v[i])
        invariant
            i <= n == v.len(),
            trim_start(v@) == trim_start(v@.subrange(i as int, n as int)),
        decreases n - i,
    {
        assert(v@.subrange(i as int, n as int).drop_first() == v@.subrange(i + 1, n as int));
        i += 1;
    }
    let mut j: usize = n;
    while i < j && is_whitespace(v[j - 1])
        invariant
            i <= j <= n == v.len(),
            trim_end(v@.subrange(i as int, n as int)) == trim_end(v@.subrange(i as int, j as int)),
        decreases j - i,
    {
        assert(v@.subrange(i as int, j as int).drop_last() == v@.subrange(i as int, j - 1));
        j -= 1;
    }
    slice_of(&v, i, j)
}

/// How many characters `s` starts with that are not white space.
pub open spec fn word_len(s: Seq<char>) -> nat
    decreases s.len(),
{
    if s.len() == 0 || is_space(s[0]) {
        0
    } else {
        1 + word_len(s.drop_first())
    }
}

pub proof fn lemma_word_len(s: Seq<char>)
    ensures
        word_len(s) <= s.len(),
        s.len() > 0 && !is_space(s[0]) ==> word_len(s) > 0,
        forall|i: int| 0 <= i < word_len(s) ==> !is_space(#[trigger] s[i]),
        word_len(s) < s.len() ==> is_space(s[word_len(s) as int]),
    decreases s.len(),
{
    if s.len() > 0 && !is_space(s[0]) {
        lemma_word_len(s.drop_first());
        assert forall|i: int| 0 <= i < word_len(s) implies !is_space(#[trigger] s[i]) by {
            if i > 0 {
                assert(s[i] == s.drop_first()[i - 1]);
            }
        }
    }
}

/// The longest runs of `s` that hold no white space, in order.
pub open spec fn words(s: Seq<char>) -> Seq<Seq<char>>
    decreases s.len(),
{
    if s.len() == 0 {
        Seq::empty()
    } else if is_space(s[0]) {
        words(s.drop_first())
    } else {
        proof {
            lemma_word_len(s);
        }
        seq![s.take(word_len(s) as int)] + words(s.skip(word_len(s) as int))
    }
}

/// The words of `s`: its longest runs without white space.
pub fn split_whitespace(s: &str) -> (r: Vec<String>)
    ensures
        views(r@) == words(s@),
{
    let v = chars_of(s);
    let n: usize = v.len();
    let mut out: Vec<String> = Vec::new();
    let mut i: usize = 0;
    assert(v@.skip(0) == v@);
    assert(views(out@) + words(v@) == words(v@));
    while i < n
        invariant
            i <= n == v.len(),
            views(out@) + words(v@.skip(i as int)) == words(v@),
        decreases n - i,
    {
        if is_whitespace(v[i]) {
            assert(v@.skip(i as int).drop_first() == v@.skip(i + 1));
            i += 1;
        } else {
            let mut j: usize = i;
            while j < n && !is_whitespace(v[j])
                invariant
                    i <= j <= n == v.len(),
                    j - i + word_len(v@.skip(j as int)) == word_len(v@.skip(i as int)),
                decreases n - j,
            {
                assert(v@.skip(j as int).drop_first() == v@.skip(j + 1));
                j += 1;
            }
            let ghost rest = v@.skip(i as int);
            proof {
                lemma_word_len(rest);
                assert(word_len(rest) == j - i);
                assert(rest.take(j - i) == v@.subrange(i as int, j as int));
                assert(rest.skip(j - i) == v@.skip(j as int));
            }
            let word = slice_of(&v, i, j);
            let ghost before = out@;
            out.push(word);
            proof {
                lemma_views_push(before, word);
                assert(views(before).push(word@) + words(v@.skip(j as int)) == views(before) + (
                seq![word@] + words(v@.skip(j as int))));
            }
            i = j;
        }
    }
    assert(views(out@) + words(v@.skip(n as int)) == views(out@));
    out
}

/// The parts of `s` between the separators, `n` separators giving `n + 1`
/// parts.
pub open spec fn parts(s: Seq<char>, sep: char) -> Seq<Seq<char>>
    decreases s.len(),
{
    if !s.contains(sep) {
        seq![s]
    } else {
        let i = s.index_of_first(sep)->0;
        proof {
            s.index_of_first_ensures(sep);
        }
        seq![s.take(i)] + parts(s.skip(i + 1), sep)
    }
}

/// The parts of `s` between the separators.
pub fn split_on(s: &str, sep: char) -> (r: Vec<String>)
    ensures
        views(r@) == parts(s@, sep),
{
    let v = chars_of(s);
    let n: usize = v.len();
    let mut out: Vec<String> = Vec::new();
    let mut from: usize = 0;
    let mut i: usize = 0;
    assert(v@.skip(0) == v@);
    assert(views(out@) + parts(v@, sep) == parts(v@, sep));
    while i < n
        invariant
            from <= i <= n == v.len(),
            forall|k: int| from <= k < i ==> v@[k] != sep,
            views(out@) + parts(v@.skip(from as int), sep) == parts(v@, sep),
        decreases n - i,
    {
        if v[i] == sep {
            let ghost rest = v@.skip(from as int);
            proof {
                assert(rest[i - from] == sep);
                assert(rest.contains(sep));
                rest.index_of_first_ensures(sep);
                let k = rest.index_of_first(sep)->0;
                assert(rest[k] == v@[from + k]);
                assert(k == i - from);
                assert(rest.take(k) == v@.subrange(from as int, i as int));
                assert(rest.skip(k + 1) == v@.skip(i + 1));
            }
            let part = slice_of(&v, from, i);
            let ghost before = out@;
            out.push(part);
            proof {
                lemma_views_push(before, part);
                assert(views(before).push(part@) + parts(v@.skip(i + 1), sep) == views(before) + (
                seq![part@] + parts(v@.skip(i + 1), sep)));
            }
            from = i + 1;
        }
        i += 1;
    }
    let ghost rest = v@.skip(from as int);
    assert(!rest.contains(sep));
    let part = slice_of(&v, from, n);
    let ghost before = out@;
    out.push(part);
    proof {
        assert(part@ == rest);
        lemma_views_push(before, part);
        assert(views(before).push(part@) == views(before) + seq![part@]);
    }
    out
}

/// What stands behind the last `sep` of `s`, all of it where it has none.
pub open spec fn last_part(s: Seq<char>, sep: char) -> Seq<char>
    decreases s.len(),
{
    if s.len() == 0 || s.last() == sep {
        Seq::empty()
    } else {
        last_part(s.drop_last(), sep).push(s.last())
    }
}

/// What is put behind a text without `sep` in it is put behind its last part.
pub proof fn lemma_last_part_of_sum(s: Seq<char>, more: Seq<char>, sep: char)
    requires
        !more.contains(sep),
    ensures
        last_part(s + more, sep) == last_part(s, sep) + more,
    decreases more.len(),
{
    if more.len() == 0 {
        assert(s + more =~= s);
        assert(last_part(s, sep) + more =~= last_part(s, sep));
    } else {
        assert(more[more.len() - 1] == more.last());
        assert forall|i: int| 0 <= i < more.drop_last().len() implies more.drop_last()[i] != sep by {
            assert(more[i] == more.drop_last()[i]);
        }
        lemma_last_part_of_sum(s, more.drop_last(), sep);
        assert((s + more).drop_last() =~= s + more.drop_last());
        assert((last_part(s, sep) + more.drop_last()).push(more.last()) =~= last_part(s, sep)
            + more);
    }
}

/// `line` without the carriage return that belongs to its line end.
pub open spec fn without_cr(line: Seq<char>) -> Seq<char> {
    if line.len() > 0 && line.last() == '\r' {
        line.drop_last()
    } else {
        line
    }
}

/// The lines of `s`, each ended by a line feed or by a carriage return and a
/// line feed; the last one may lack its end.
pub open spec fn lines(s: Seq<char>) -> Seq<Seq<char>>
    decreases s.len(),
{
    if s.len() == 0 {
        Seq::empty()
    } else if !s.contains('\n') {
        seq![s]
    } else {
        let i = s.index_of_first('\n')->0;
        proof {
            s.index_of_first_ensures('\n');
        }
        seq![without_cr(s.take(i))] + lines(s.skip(i + 1))
    }
}

/// The lines of `s`, without their ends.
pub fn split_lines(s: &str) -> (r: Vec<String>)
    ensures
        views(r@) == lines(s@),
{
    let v = chars_of(s);
    let n: usize = v.len();
    let mut out: Vec<String> = Vec::new();
    let mut from: usize = 0;
    let mut i: usize = 0;
    assert(v@.skip(0) == v@);
    assert(views(out@) + lines(v@) == lines(v@));
    while i < n
        invariant
            from <= i <= n == v.len(),
            forall|k: int| from <= k < i ==> v@[k] != '\n',
            views(out@) + lines(v@.skip(from as int)) == lines(v@),
        decreases n - i,
    {
        if v[i] == '\n' {
            let ghost rest = v@.skip(from as int);
            let mut to: usize = i;
            if from < i && v[i - 1] == '\r' {
                to = i - 1;
            }
            proof {
                assert(rest[i - from] == '\n');
                assert(rest.contains('\n'));
                rest.index_of_first_ensures('\n');
                let k = rest.index_of_first('\n')->0;
                assert(rest[k] == v@[from + k]);
                assert(k == i - from);
                assert(rest.take(k) == v@.subrange(from as int, i as int));
                assert(without_cr(rest.take(k)) == v@.subrange(from as int, to as int));
                assert(rest.skip(k + 1) == v@.skip(i + 1));
            }
            let line = slice_of(&v, from, to);
            let ghost before = out@;
            out.push(line);
            proof {
                lemma_views_push(before, line);
                assert(views(before).push(line@) + lines(v@.skip(i + 1)) == views(before) + (
                seq![line@] + lines(v@.skip(i + 1))));
            }
            from = i + 1;
        }
        i += 1;
    }
    let ghost rest = v@.skip(from as int);
    assert(!rest.contains('\n'));
    if from < n {
        let line = slice_of(&v, from, n);
        let ghost before = out@;
        out.push(line);
        proof {
            assert(line@ == rest);
            lemma_views_push(before, line);
            assert(views(before).push(line@) == views(before) + seq![line@]);
        }
    } else {
        assert(views(out@) + lines(rest) == views(out@));
    }
    out
}

/// Whether `needle` stands somewhere in `hay`, as a whole.
pub open spec fn occurs(needle: Seq<char>, hay: Seq<char>) -> bool {
    exists|i: int| occurs_at(needle, hay, i)
}

/// Whether `needle` stands in `hay` from position `i` on.
pub open spec fn occurs_at(needle: Seq<char>, hay: Seq<char>, i: int) -> bool {
    0 <= i && i + needle.len() <= hay.len() && hay.subrange(i, i + needle.len()) == needle
}

/// Whether `hay` holds `needle`.
pub fn contains(hay: &str, needle: &str) -> (r: bool)
    ensures
        r == occurs(needle@, hay@),
{
    let h = chars_of(hay);
    let p = chars_of(needle);
    if p.len() > h.len() {
        return false;
    }
    let last: usize = h.len() - p.len();
    let mut i: usize = 0;
    loop
        invariant
            h@ == hay@,
            p@ == needle@,
            i <= last,
            last + p.len() == h.len(),
            forall|k: int| 0 <= k < i ==> !occurs_at(p@, h@, k),
        decreases last - i,
    {
        let mut j: usize = 0;
        while j < p.len() && h[i + j] == p[j]
            invariant
                j <= p.len(),
                i + p.len() <= h.len(),
                h@.subrange(i as int, i + j) == p@.take(j as int),
            decreases p.len() - j,
        {
            j += 1;
            proof {
                assert(h@.subrange(i as int, i + j) == h@.subrange(i as int, i + j - 1).push(
                    h@[i + j - 1],
                ));
                assert(p@.take(j as int) == p@.take(j - 1).push(p@[j - 1]));
            }
        }
        if j == p.len() {
            assert(p@.take(j as int) == p@);
            assert(occurs_at(p@, h@, i as int));
            return true;
        }
        assert(h@.subrange(i as int, i + p.len())[j as int] == h@[i + j]);
        assert(!occurs_at(p@, h@, i as int));
        if i == last {
            assert forall|k: int| !occurs_at(p@, h@, k) by {
            }
            return false;
        }
        i += 1;
    }
}

/// The words put together with one space between neighbours.
pub open spec fn joined(list: Seq<Seq<char>>) -> Seq<char>
    decreases list.len(),
{
    if list.len() == 0 {
        Seq::empty()
    } else if list.len() == 1 {
        list[0]
    } else {
        list[0] + (seq![' '] + joined(list.drop_first()))
    }
}

/// What is left to write of `list` once its first `n` words are written.
spec fn join_rest(list: Seq<Seq<char>>, n: int) -> Seq<char> {
    if n == 0 {
        joined(list)
    } else if n >= list.len() {
        Seq::empty()
    } else {
        seq![' '] + joined(list.skip(n))
    }
}

/// Puts the words together with one space between neighbours.
pub fn join_words(list: &Vec<String>) -> (r: String)
    ensures
        r@ == joined(views(list@)),
{
    let ghost all = views(list@);
    let mut r = String::new();
    let mut i: usize = 0;
    assert(Seq::<char>::empty() + joined(all) =~= joined(all));
    while i < list.len()
        invariant
            i <= list.len(),
            all == views(list@),
            r@ + join_rest(all, i as int) == joined(all),
        decreases list.len() - i,
    {
        let ghost before = r@;
        if i > 0 {
            r.push(' ');
        }
        r.append(list[i].as_str());
        proof {
            let word = list@[i as int]@;
            assert(all.skip(0) =~= all);
            assert(all.skip(i as int)[0] == word);
            assert(all.skip(i as int).drop_first() =~= all.skip(i + 1));
            let head = if i > 0 {
                seq![' ']
            } else {
                Seq::<char>::empty()
            };
            assert(r@ =~= before + head + word);
            assert(join_rest(all, i as int) =~= head + joined(all.skip(i as int)));
            assert(joined(all.skip(i as int)) =~= word + join_rest(all, i + 1));
            assert(r@ + join_rest(all, i + 1) =~= before + join_rest(all, i as int));
        }
        i += 1;
    }
    assert(r@ + join_rest(all, list.len() as int) =~= r@);
    r
}

/// Whether every one of the words holds something, and none of them white
/// space.
pub open spec fn are_words(list: Seq<Seq<char>>) -> bool {
    forall|i: int|
        0 <= i < list.len() ==> (#[trigger] list[i]).len() > 0 && word_len(list[i])
            == list[i].len()
}

proof fn lemma_word_len_of_word(w: Seq<char>)
    requires
        forall|i: int| 0 <= i < w.len() ==> !is_space(#[trigger] w[i]),
    ensures
        word_len(w) == w.len(),
    decreases w.len(),
{
    if w.len() > 0 {
        assert forall|i: int| 0 <= i < w.drop_first().len() implies !is_space(
            #[trigger] w.drop_first()[i],
        ) by {
            assert(w.drop_first()[i] == w[i + 1]);
        }
        lemma_word_len_of_word(w.drop_first());
    }
}

pub proof fn lemma_words_are_words(s: Seq<char>)
    ensures
        are_words(words(s)),
    decreases s.len(),
{
    if s.len() > 0 {
        if is_space(s[0]) {
            lemma_words_are_words(s.drop_first());
            assert(words(s) == words(s.drop_first()));
        } else {
            lemma_word_len(s);
            let n = word_len(s) as int;
            let rest = s.skip(n);
            lemma_words_are_words(rest);
            lemma_word_len_of_word(s.take(n));
            assert forall|i: int| 0 <= i < words(s).len() implies (
            #[trigger] words(s)[i]).len() > 0 && word_len(words(s)[i]) == words(s)[i].len() by {
                if i > 0 {
                    assert(words(s)[i] == words(rest)[i - 1]);
                } else {
                    assert(words(s)[i] == s.take(n));
                }
            }
        }
    }
}

proof fn lemma_word_len_before_space(w: Seq<char>, rest: Seq<char>)
    requires
        word_len(w) == w.len(),
        rest.len() > 0 ==> is_space(rest[0]),
    ensures
        word_len(w + rest) == w.len(),
    decreases w.len(),
{
    if w.len() == 0 {
        assert(w + rest =~= rest);
    } else {
        lemma_word_len(w);
        assert(!is_space(w[0]));
        lemma_word_len_before_space(w.drop_first(), rest);
        assert((w + rest).drop_first() =~= w.drop_first() + rest);
    }
}

/// Words that were put together with spaces are found again.
pub proof fn lemma_words_of_joined(list: Seq<Seq<char>>)
    requires
        are_words(list),
    ensures
        words(joined(list)) == list,
    decreases list.len(),
{
    if list.len() > 0 {
        let w = list[0];
        let rest = list.drop_first();
        assert forall|i: int| 0 <= i < rest.len() implies (#[trigger] rest[i]).len() > 0
            && word_len(rest[i]) == rest[i].len() by {
            assert(rest[i] == list[i + 1]);
        }
        lemma_words_of_joined(rest);
        lemma_word_len(w);
        let tail = if list.len() == 1 {
            Seq::<char>::empty()
        } else {
            seq![' '] + joined(rest)
        };
        let all = joined(list);
        assert(all =~= w + tail);
        lemma_word_len_before_space(w, tail);
        assert(!is_space(all[0]));
        assert(all.take(w.len() as int) =~= w);
        assert(all.skip(w.len() as int) =~= tail);
        if list.len() > 1 {
            assert(tail.drop_first() =~= joined(rest));
            assert(words(tail) == words(joined(rest)));
        }
        assert(words(all) =~= seq![w] + words(tail));
        assert(list =~= seq![w] + rest);
    }
}

/// Whether `a` stands directly before `b` somewhere in `s`.
pub open spec fn holds_pair(s: Seq<char>, a: char, b: char) -> bool {
    exists|i: int| pair_at(s, i, a, b)
}

/// Whether `a` and `b` stand at `i` and `i + 1` of `s`.
pub open spec fn pair_at(s: Seq<char>, i: int, a: char, b: char) -> bool {
    0 <= i && i + 1 < s.len() && s[i] == a && s[i + 1] == b
}

/// Putting the words of `s` together with single spaces puts no two
/// characters side by side that were not so in `s`, but for the spaces.
pub proof fn lemma_joining_makes_no_pair(s: Seq<char>, a: char, b: char)
    requires
        a != ' ',
        b != ' ',
        holds_pair(joined(words(s)), a, b),
    ensures
        holds_pair(s, a, b),
    decreases s.len(),
{
    let i = choose|i: int| pair_at(joined(words(s)), i, a, b);
    if s.len() > 0 {
        if is_space(s[0]) {
            lemma_joining_makes_no_pair(s.drop_first(), a, b);
            let k = choose|k: int| pair_at(s.drop_first(), k, a, b);
            assert(pair_at(s, k + 1, a, b));
        } else {
            lemma_word_len(s);
            let n = word_len(s) as int;
            let rest = s.skip(n);
            let ws = words(s);
            assert(ws[0] == s.take(n));
            assert(ws.drop_first() =~= words(rest));
            if i + 1 < n {
                assert(joined(ws)[i] == s[i] && joined(ws)[i + 1] == s[i + 1]);
                assert(pair_at(s, i, a, b));
            } else if ws.len() > 1 {
                assert(joined(ws)[n] == ' ');
                assert(pair_at(joined(words(rest)), i - n - 1, a, b)) by {
                    assert(joined(ws)[i] == joined(words(rest))[i - n - 1]);
                    assert(joined(ws)[i + 1] == joined(words(rest))[i - n]);
                }
                lemma_joining_makes_no_pair(rest, a, b);
                let k = choose|k: int| pair_at(rest, k, a, b);
                assert(pair_at(s, k + n, a, b));
            }
        }
    }
}

/// Two characters that stand side by side in `s`, neither of them white space,
/// still do where its words are put together with single spaces.
pub proof fn lemma_joining_keeps_pairs(s: Seq<char>, a: char, b: char)
    requires
        !is_space(a),
        !is_space(b),
        holds_pair(s, a, b),
    ensures
        holds_pair(joined(words(s)), a, b),
    decreases s.len(),
{
    let k = choose|k: int| pair_at(s, k, a, b);
    if is_space(s[0]) {
        assert(pair_at(s.drop_first(), k - 1, a, b));
        lemma_joining_keeps_pairs(s.drop_first(), a, b);
    } else {
        lemma_word_len(s);
        let n = word_len(s) as int;
        let rest = s.skip(n);
        let ws = words(s);
        assert(ws[0] == s.take(n));
        assert(ws.drop_first() =~= words(rest));
        if k + 1 < n {
            assert(pair_at(joined(ws), k, a, b));
        } else {
            assert(pair_at(rest, k - n, a, b));
            lemma_joining_keeps_pairs(rest, a, b);
            let i = choose|i: int| pair_at(joined(words(rest)), i, a, b);
            assert(joined(ws) =~= ws[0] + (seq![' '] + joined(words(rest))));
            assert(pair_at(joined(ws), i + n + 1, a, b));
        }
    }
}

/// `c` in lower case where it is an ASCII letter, else `c` itself.
pub open spec fn ascii_lower_char(c: char) -> char {
    if 'A' <= c <= 'Z' {
        (c as u32 + 32) as char
    } else {
        c
    }
}

/// `s` with its ASCII letters in lower case.
pub open spec fn ascii_lower(s: Seq<char>) -> Seq<char> {
    s.map_values(|c: char| ascii_lower_char(c))
}

/// `s` with its ASCII letters in lower case, all else as it is.
pub fn to_ascii_lowercase(s: &str) -> (r: String)
    ensures
        r@ == ascii_lower(s@),
{
    let v = chars_of(s);
    let mut r = String::new();
    let mut i: usize = 0;
    while i < v.len()
        invariant
            i <= v.len(),
            r@ == ascii_lower(v@.take(i as int)),
        decreases v.len() - i,
    {
        let c: char = v[i];
        let lower: char = if 'A' <= c && c <= 'Z' {
            (c as u8 + 32) as char
        } else {
            c
        };
        r.push(lower);
        assert(v@.take(i + 1) == v@.take(i as int).push(c));
        assert(ascii_lower(v@.take(i + 1)) == ascii_lower(v@.take(i as int)).push(lower));
        i += 1;
    }
    assert(v@.take(v.len() as int) == v@);
    r
}

// ---------------------------------------------------------------------------
// What the operations amount to
// ---------------------------------------------------------------------------
/// Whether all of `s` is white space.
pub open spec fn is_blank(s: Seq<char>) -> bool {
    forall|i: int| 0 <= i < s.len() ==> is_space(#[trigger] s[i])
}

/// Whether `s` has no white space at its ends; it may be empty.
pub open spec fn is_trim(s: Seq<char>) -> bool {
    s.len() > 0 ==> !is_space(s[0]) && !is_space(s[s.len() - 1])
}

/// Trimming takes the white space away from both ends, all of it, and nothing
/// else.
pub proof fn law_trimming_takes_the_ends_away(
    before: Seq<char>,
    core: Seq<char>,
    after: Seq<char>,
)
    requires
        is_blank(before),
        is_trim(core),
        is_blank(after),
    ensures
        trimmed(before + core + after) == core,
{
    lemma_trim_start_takes(before, core + after);
    assert(before + core + after =~= before + (core + after));
    if core.len() > 0 {
        assert((core + after)[0] == core[0]);
        assert(trim_start(core + after) == core + after);
        lemma_trim_end_takes(core, after);
        assert(core.last() == core[core.len() - 1]);
        assert(trim_end(core) == core);
    } else {
        assert(core + after =~= after);
        lemma_trim_start_takes(after, core);
        assert(after + core =~= after);
        assert(core =~= Seq::<char>::empty());
    }
}

proof fn lemma_trim_start_takes(before: Seq<char>, s: Seq<char>)
    requires
        is_blank(before),
    ensures
        trim_start(before + s) == trim_start(s),
    decreases before.len(),
{
    if before.len() == 0 {
        assert(before + s =~= s);
    } else {
        assert(is_space(before[0]));
        assert((before + s).drop_first() =~= before.drop_first() + s);
        assert forall|i: int| 0 <= i < before.drop_first().len() implies is_space(
            #[trigger] before.drop_first()[i],
        ) by {
            assert(is_space(before[i + 1]));
        }
        lemma_trim_start_takes(before.drop_first(), s);
    }
}

proof fn lemma_trim_end_takes(s: Seq<char>, after: Seq<char>)
    requires
        is_blank(after),
    ensures
        trim_end(s + after) == trim_end(s),
    decreases after.len(),
{
    if after.len() == 0 {
        assert(s + after =~= s);
    } else {
        assert(is_space(after[after.len() - 1]));
        assert((s + after).drop_last() =~= s + after.drop_last());
        assert forall|i: int| 0 <= i < after.drop_last().len() implies is_space(
            #[trigger] after.drop_last()[i],
        ) by {
            assert(is_space(after[i]));
        }
        lemma_trim_end_takes(s, after.drop_last());
    }
}

/// White space parts words: the words of two texts with white space between
/// them are those of the one and then those of the other.
pub proof fn law_white_space_parts_words(a: Seq<char>, space: char, b: Seq<char>)
    requires
        is_space(space),
    ensures
        words(a.push(space) + b) == words(a) + words(b),
    decreases a.len(),
{
    let s = a.push(space) + b;
    if a.len() == 0 {
        assert(s.drop_first() =~= b);
        assert(words(a) + words(b) =~= words(b));
    } else if is_space(a[0]) {
        assert(s.drop_first() =~= a.drop_first().push(space) + b);
        law_white_space_parts_words(a.drop_first(), space, b);
    } else {
        lemma_word_len(a);
        lemma_word_len(s);
        let n = word_len(a) as int;
        let w = a.take(n);
        assert forall|i: int| 0 <= i < w.len() implies !is_space(#[trigger] w[i]) by {
            assert(!is_space(a[i]));
        }
        lemma_word_len_of_word(w);
        let tail = s.skip(n);
        assert(s =~= w + tail);
        assert(tail[0] == s[n]);
        assert(is_space(tail[0]));
        lemma_word_len_before_space(w, tail);
        assert(s.take(n) =~= w);
        if n < a.len() {
            assert(tail =~= a.skip(n).push(space) + b);
            law_white_space_parts_words(a.skip(n), space, b);
        } else {
            assert(tail.drop_first() =~= b);
            assert(a.skip(n) =~= Seq::<char>::empty());
            assert(words(a.skip(n)) =~= Seq::<Seq<char>>::empty());
        }
        assert(words(s) =~= seq![w] + words(tail));
        assert(words(a) =~= seq![w] + words(a.skip(n)));
        assert(words(a) + words(b) =~= seq![w] + (words(a.skip(n)) + words(b)));
    }
}

/// A text without white space is one word, and nothing has no words.
pub proof fn law_a_word_stays_whole(w: Seq<char>)
    requires
        forall|i: int| 0 <= i < w.len() ==> !is_space(#[trigger] w[i]),
    ensures
        w.len() > 0 ==> words(w) == seq![w],
        w.len() == 0 ==> words(w) == Seq::<Seq<char>>::empty(),
{
    if w.len() > 0 {
        lemma_word_len_of_word(w);
        assert(w.take(w.len() as int) =~= w);
        assert(w.skip(w.len() as int) =~= Seq::<char>::empty());
        assert(words(w.skip(w.len() as int)) =~= Seq::<Seq<char>>::empty());
        assert(words(w) =~= seq![w]);
    }
}

/// A separator parts a text, and nothing else does: the parts of two texts with
/// a separator between them are those of the one and then those of the other,
/// and a text without a separator is one part.
pub proof fn law_separators_part_a_text(a: Seq<char>, sep: char, b: Seq<char>)
    ensures
        parts(a.push(sep) + b, sep) == parts(a, sep) + parts(b, sep),
        !a.contains(sep) ==> parts(a, sep) == seq![a],
    decreases a.len(),
{
    let s = a.push(sep) + b;
    assert(s[a.len() as int] == sep);
    s.index_of_first_ensures(sep);
    let i = s.index_of_first(sep)->0;
    if a.contains(sep) {
        a.index_of_first_ensures(sep);
        let k = a.index_of_first(sep)->0;
        assert(s[k] == a[k]);
        assert(i <= k);
        assert(a[i] == s[i]);
        assert(i == k);
        assert(s.take(i) =~= a.take(k));
        assert(s.skip(i + 1) =~= a.skip(k + 1).push(sep) + b);
        law_separators_part_a_text(a.skip(k + 1), sep, b);
        assert(parts(s, sep) =~= parts(a, sep) + parts(b, sep));
    } else {
        if i < a.len() {
            assert(a[i] == s[i]);
        }
        assert(i == a.len());
        assert(s.take(i) =~= a);
        assert(s.skip(i + 1) =~= b);
    }
}

/// A line feed ends a line, with the carriage return before it if there is one,
/// and nothing else does; what stands behind the last line feed is a line if it
/// is anything at all.
pub proof fn law_line_feeds_end_lines(line: Seq<char>, rest: Seq<char>)
    requires
        !line.contains('\n'),
    ensures
        line.len() > 0 && line[line.len() - 1] == '\r' ==> lines(line.push('\n') + rest) == seq![
            line.take(line.len() - 1),
        ] + lines(rest),
        line.len() == 0 || line[line.len() - 1] != '\r' ==> lines(line.push('\n') + rest) == seq![
            line,
        ] + lines(rest),
        line.len() > 0 ==> lines(line) == seq![line],
        line.len() == 0 ==> lines(line) == Seq::<Seq<char>>::empty(),
{
    let s = line.push('\n') + rest;
    assert(s[line.len() as int] == '\n');
    s.index_of_first_ensures('\n');
    let i = s.index_of_first('\n')->0;
    if i < line.len() {
        assert(line[i] == s[i]);
    }
    assert(s.take(i) =~= line);
    assert(s.skip(i + 1) =~= rest);
    if line.len() > 0 {
        assert(line.drop_last() =~= line.take(line.len() - 1));
    }
}

/// A text holds another where it is that text with something before it and
/// something behind it, and nowhere else.
pub proof fn law_holding_is_standing_in_between(needle: Seq<char>, hay: Seq<char>)
    ensures
        occurs(needle, hay) <==> exists|before: Seq<char>, after: Seq<char>|
            hay == #[trigger] (before + needle + after),
{
    let n = needle.len() as int;
    if occurs(needle, hay) {
        let i = choose|i: int| occurs_at(needle, hay, i);
        let before = hay.take(i);
        let after = hay.skip(i + n);
        assert(hay =~= before + hay.subrange(i, i + n) + after);
        assert(hay == before + needle + after);
    }
    if exists|before: Seq<char>, after: Seq<char>| hay == #[trigger] (before + needle + after) {
        let (before, after) = choose|before: Seq<char>, after: Seq<char>|
            hay == #[trigger] (before + needle + after);
        let i = before.len() as int;
        assert(hay.subrange(i, i + n) =~= needle);
        assert(occurs_at(needle, hay, i));
    }
}

/// Words are put together in order, with one space between neighbours and none
/// at the ends.
pub proof fn law_joining_puts_one_space_between(list: Seq<Seq<char>>, w: Seq<char>)
    ensures
        list.len() == 0 ==> joined(list.push(w)) == w,
        list.len() > 0 ==> joined(list.push(w)) == joined(list) + seq![' '] + w,
        joined(Seq::empty()) == Seq::<char>::empty(),
    decreases list.len(),
{
    let all = list.push(w);
    if list.len() == 1 {
        assert(all.drop_first() =~= seq![w]);
        assert(joined(seq![w]) == w);
        assert(joined(all) =~= list[0] + seq![' '] + w);
    } else if list.len() > 1 {
        law_joining_puts_one_space_between(list.drop_first(), w);
        assert(all.drop_first() =~= list.drop_first().push(w));
        assert(joined(all) =~= joined(list) + seq![' '] + w);
    }
}

/// ASCII lower case goes character by character: a capital letter becomes the
/// small one, 32 places on, and all else stays.
pub proof fn law_ascii_lower_case(s: Seq<char>)
    ensures
        ascii_lower(s).len() == s.len(),
        forall|i: int|
            0 <= i < s.len() ==> if 65 <= s[i] as u32 && s[i] as u32 <= 90 {
                (#[trigger] ascii_lower(s)[i]) as u32 == s[i] as u32 + 32
            } else {
                ascii_lower(s)[i] == s[i]
            },
{
}

/// What stands behind the last separator is the last part, and all of a text
/// without one.
pub proof fn law_the_last_part(a: Seq<char>, sep: char, b: Seq<char>)
    requires
        !b.contains(sep),
    ensures
        last_part(a.push(sep) + b, sep) == b,
        last_part(b, sep) == b,
{
    lemma_last_part_of_sum(a.push(sep), b, sep);
    lemma_last_part_of_sum(Seq::empty(), b, sep);
    assert(Seq::<char>::empty() + b =~= b);
}

} // verus!
