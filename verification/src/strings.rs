//! Small verified utilities over strings and characters that the rest of
//! the engine builds on: character collection, substring search, and the
//! path manipulations that EPUB hrefs need.

use vstd::prelude::*;
use vstd::string::StringExecFns;

verus! {

/// The characters that carry the Unicode `White_Space` property, which is
/// what `char::is_whitespace` tests.
pub open spec fn is_unicode_whitespace(c: char) -> bool {
    ||| c == ' '
    ||| ('\u{9}' as int) <= (c as int) <= ('\u{D}' as int)
    ||| c == '\u{85}'
    ||| c == '\u{A0}'
    ||| c == '\u{1680}'
    ||| ('\u{2000}' as int) <= (c as int) <= ('\u{200A}' as int)
    ||| c == '\u{2028}'
    ||| c == '\u{2029}'
    ||| c == '\u{202F}'
    ||| c == '\u{205F}'
    ||| c == '\u{3000}'
}

/// Relies on `char::is_whitespace`: true exactly for the characters with the
/// Unicode `White_Space` property, as its documentation states.
pub assume_specification[ char::is_whitespace ](c: char) -> (r: bool)
    ensures
        r == is_unicode_whitespace(c),
;

/// Relies on `String::push`: appends one character at the end of the string.
pub assume_specification[ String::push ](s: &mut String, c: char)
    ensures
        final(s)@ == old(s)@.push(c),
;

/// The characters of a string slice, as a vector.
pub fn chars_of(s: &str) -> (r: Vec<char>)
    ensures
        r@ == s@,
{
    let mut r: Vec<char> = Vec::new();
    for c in it: s.chars()
        invariant
            it.seq() == s@,
            r@ == it.seq().take(it.index() as int),
    {
        r.push(c);
    }
    proof {
        assert(r@ =~= s@);
    }
    r
}

/// The string holding the characters `cs[from..to]`.
pub fn string_from_chars(cs: &Vec<char>, from: usize, to: usize) -> (r: String)
    requires
        from <= to <= cs.len(),
    ensures
        r@ == cs@.subrange(from as int, to as int),
{
    let mut r = String::new();
    let mut i: usize = from;
    while i < to
        invariant
            from <= i <= to <= cs.len(),
            r@ == cs@.subrange(from as int, i as int),
        decreases to - i,
    {
        r.push(cs[i]);
        proof {
            assert(r@ =~= cs@.subrange(from as int, (i + 1) as int));
        }
        i = i + 1;
    }
    r
}

/// Whether two string slices hold the same characters.
pub fn str_eq(a: &str, b: &str) -> (r: bool)
    ensures
        r == (a@ == b@),
{
    let sa = String::from_str(a);
    let sb = String::from_str(b);
    sa.eq(&sb)
}

/// Whether `needle` occurs somewhere in `hay` as a contiguous run.
pub open spec fn contains_seq(hay: Seq<char>, needle: Seq<char>) -> bool {
    exists|k: int|
        0 <= k && k + needle.len() <= hay.len() && #[trigger] hay.subrange(k, k + needle.len())
            == needle
}

/// Whether `s` ends with the characters of `suffix`.
pub open spec fn ends_with_seq(s: Seq<char>, suffix: Seq<char>) -> bool {
    s.len() >= suffix.len() && s.subrange(s.len() - suffix.len(), s.len() as int) == suffix
}

/// The position of the first occurrence of `c` in `s`, if there is one.
pub open spec fn first_index_of(s: Seq<char>, c: char) -> Option<int>
    decreases s.len(),
{
    if s.len() == 0 {
        None
    } else if s.first() == c {
        Some(0)
    } else {
        match first_index_of(s.drop_first(), c) {
            Some(i) => Some(i + 1),
            None => None,
        }
    }
}

/// The position of the last occurrence of `c` in `s`, if there is one.
pub open spec fn last_index_of(s: Seq<char>, c: char) -> Option<int>
    decreases s.len(),
{
    if s.len() == 0 {
        None
    } else if s.last() == c {
        Some(s.len() - 1)
    } else {
        last_index_of(s.drop_last(), c)
    }
}

/// A position that holds `c`, with nothing but other characters before it,
/// is the first occurrence.
pub proof fn lemma_first_index_some(s: Seq<char>, c: char, i: int)
    requires
        0 <= i < s.len(),
        s[i] == c,
        forall|j: int| 0 <= j < i ==> s[j] != c,
    ensures
        first_index_of(s, c) == Some(i),
    decreases i,
{
    if i == 0 {
    } else {
        assert(s.first() != c);
        lemma_first_index_some(s.drop_first(), c, i - 1);
    }
}

/// A sequence without `c` anywhere has no first occurrence of it.
pub proof fn lemma_first_index_none(s: Seq<char>, c: char)
    requires
        forall|j: int| 0 <= j < s.len() ==> s[j] != c,
    ensures
        first_index_of(s, c) is None,
    decreases s.len(),
{
    if s.len() == 0 {
    } else {
        lemma_first_index_none(s.drop_first(), c);
    }
}

/// A position that holds `c`, with nothing but other characters after it,
/// is the last occurrence.
pub proof fn lemma_last_index_some(s: Seq<char>, c: char, i: int)
    requires
        0 <= i < s.len(),
        s[i] == c,
        forall|j: int| i < j < s.len() ==> s[j] != c,
    ensures
        last_index_of(s, c) == Some(i),
    decreases s.len(),
{
    if i == s.len() - 1 {
    } else {
        assert(s.last() != c);
        lemma_last_index_some(s.drop_last(), c, i);
    }
}

/// A sequence without `c` anywhere has no last occurrence of it.
pub proof fn lemma_last_index_none(s: Seq<char>, c: char)
    requires
        forall|j: int| 0 <= j < s.len() ==> s[j] != c,
    ensures
        last_index_of(s, c) is None,
    decreases s.len(),
{
    if s.len() == 0 {
    } else {
        lemma_last_index_none(s.drop_last(), c);
    }
}

/// Finds the position of the first occurrence of `c` in `cs`.
pub fn find_first_char(cs: &Vec<char>, c: char) -> (r: Option<usize>)
    ensures
        r matches Some(i) ==> i < cs.len() && first_index_of(cs@, c) == Some(i as int),
        r is None ==> first_index_of(cs@, c) is None,
{
    let mut i: usize = 0;
    while i < cs.len()
        invariant
            i <= cs.len(),
            forall|j: int| 0 <= j < i ==> cs@[j] != c,
        decreases cs.len() - i,
    {
        if cs[i] == c {
            proof {
                lemma_first_index_some(cs@, c, i as int);
            }
            return Some(i);
        }
        i = i + 1;
    }
    proof {
        lemma_first_index_none(cs@, c);
    }
    None
}

/// Finds the position of the last occurrence of `c` in `cs`.
pub fn find_last_char(cs: &Vec<char>, c: char) -> (r: Option<usize>)
    ensures
        r matches Some(i) ==> i < cs.len() && last_index_of(cs@, c) == Some(i as int),
        r is None ==> last_index_of(cs@, c) is None,
{
    let mut i: usize = cs.len();
    while i > 0
        invariant
            i <= cs.len(),
            forall|j: int| i <= j < cs@.len() ==> cs@[j] != c,
        decreases i,
    {
        i = i - 1;
        if cs[i] == c {
            proof {
                lemma_last_index_some(cs@, c, i as int);
            }
            return Some(i);
        }
    }
    proof {
        lemma_last_index_none(cs@, c);
    }
    None
}

/// Whether `needle` occurs in `hay` as a substring.
pub fn contains_substr(hay: &str, needle: &str) -> (r: bool)
    ensures
        r == contains_seq(hay@, needle@),
{
    let h = chars_of(hay);
    let n = chars_of(needle);
    if n.len() > h.len() {
        return false;
    }
    if n.len() == 0 {
        proof {
            assert(hay@.subrange(0, 0 + needle@.len() as int) =~= needle@);
        }
        return true;
    }
    let last_start = h.len() - n.len();
    let mut k: usize = 0;
    while k <= last_start
        invariant
            1 <= n.len() <= h.len(),
            last_start == h.len() - n.len(),
            k <= last_start + 1,
            h@ == hay@,
            n@ == needle@,
            forall|j: int| 0 <= j < k ==> #[trigger] hay@.subrange(j, j + needle@.len()) != needle@,
        decreases last_start + 1 - k,
    {
        let mut t: usize = 0;
        let mut matched = true;
        while t < n.len()
            invariant
                n.len() <= h.len(),
                k + n.len() <= h.len(),
                t <= n.len(),
                h@ == hay@,
                n@ == needle@,
                matched ==> forall|u: int| 0 <= u < t ==> hay@[k + u] == needle@[u],
                !matched ==> hay@.subrange(k as int, k + needle@.len()) != needle@,
            decreases n.len() - t,
        {
            if h[k + t] != n[t] {
                proof {
                    assert(hay@.subrange(k as int, k + needle@.len())[t as int] == hay@[k + t]);
                }
                matched = false;
            }
            t = t + 1;
        }
        if matched {
            proof {
                assert(hay@.subrange(k as int, k + needle@.len()) =~= needle@);
            }
            return true;
        }
        k = k + 1;
    }
    proof {
        assert forall|j: int| 0 <= j && j + needle@.len() <= hay@.len() implies #[trigger] hay@
            .subrange(j, j + needle@.len()) != needle@ by {
            assert(j < k);
        }
    }
    false
}

/// Whether `s` ends with `suffix`.
pub fn ends_with_str(s: &str, suffix: &str) -> (r: bool)
    ensures
        r == ends_with_seq(s@, suffix@),
{
    let cs = chars_of(s);
    let suf = chars_of(suffix);
    if suf.len() > cs.len() {
        return false;
    }
    let start = cs.len() - suf.len();
    let mut t: usize = 0;
    while t < suf.len()
        invariant
            suf.len() <= cs.len(),
            start == cs.len() - suf.len(),
            t <= suf.len(),
            cs@ == s@,
            suf@ == suffix@,
            forall|u: int| 0 <= u < t ==> s@[start + u] == suffix@[u],
        decreases suf.len() - t,
    {
        if cs[start + t] != suf[t] {
            proof {
                assert(s@.subrange(s@.len() - suffix@.len(), s@.len() as int)[t as int] == s@[
                    start + t
                ]);
            }
            return false;
        }
        t = t + 1;
    }
    proof {
        assert(s@.subrange(s@.len() - suffix@.len(), s@.len() as int) =~= suffix@);
    }
    true
}

/// The soft hyphen, U+00AD: a line-break hint that must never appear in
/// extracted chapter text.
pub open spec fn is_soft_hyphen(c: char) -> bool {
    c == '\u{ad}'
}

/// `s` with every soft hyphen removed and nothing else changed.
pub open spec fn without_soft_hyphens(s: Seq<char>) -> Seq<char>
    decreases s.len(),
{
    if s.len() == 0 {
        Seq::empty()
    } else if is_soft_hyphen(s.first()) {
        without_soft_hyphens(s.drop_first())
    } else {
        seq![s.first()] + without_soft_hyphens(s.drop_first())
    }
}

/// Law, one step of it: a string without soft hyphens to begin with is
/// left unchanged, and the result never holds one.
pub proof fn lemma_without_soft_hyphens_clean(s: Seq<char>)
    ensures
        forall|i: int| 0 <= i < without_soft_hyphens(s).len() ==> !is_soft_hyphen(
            #[trigger] without_soft_hyphens(s)[i],
        ),
        (forall|i: int| 0 <= i < s.len() ==> !is_soft_hyphen(#[trigger] s[i]))
            ==> without_soft_hyphens(s) == s,
    decreases s.len(),
{
    if s.len() == 0 {
        assert(without_soft_hyphens(s) =~= s);
    } else {
        lemma_without_soft_hyphens_clean(s.drop_first());
        let rest = without_soft_hyphens(s.drop_first());
        if is_soft_hyphen(s.first()) {
            assert(without_soft_hyphens(s) == rest);
        } else {
            assert forall|i: int| 0 <= i < without_soft_hyphens(s).len() implies !is_soft_hyphen(
                #[trigger] without_soft_hyphens(s)[i],
            ) by {
                if i == 0 {
                    assert(without_soft_hyphens(s)[0] == s.first());
                } else {
                    assert(without_soft_hyphens(s)[i] == rest[i - 1]);
                }
            }
            if forall|i: int| 0 <= i < s.len() ==> !is_soft_hyphen(#[trigger] s[i]) {
                assert forall|i: int| 0 <= i < s.drop_first().len() implies !is_soft_hyphen(
                    #[trigger] s.drop_first()[i],
                ) by {
                    assert(s.drop_first()[i] == s[i + 1]);
                }
                assert(seq![s.first()] + s.drop_first() =~= s);
            }
        }
    }
}

/// Computes [`without_soft_hyphens`].
pub fn strip_soft_hyphens(s: &str) -> (r: String)
    ensures
        r@ == without_soft_hyphens(s@),
{
    let cs = chars_of(s);
    let mut r = String::new();
    let mut i: usize = 0;
    proof {
        assert(cs@.skip(0) =~= cs@);
    }
    while i < cs.len()
        invariant
            i <= cs.len(),
            cs@ == s@,
            without_soft_hyphens(s@) == r@ + without_soft_hyphens(s@.skip(i as int)),
        decreases cs.len() - i,
    {
        proof {
            assert(s@.skip(i as int).first() == s@[i as int]);
            assert(s@.skip(i as int).drop_first() =~= s@.skip(i + 1));
        }
        let c = cs[i];
        if c != '\u{ad}' {
            r.push(c);
            proof {
                assert(r@ + without_soft_hyphens(s@.skip(i + 1)) =~= (r@.drop_last() + (seq![
                    s@[i as int],
                ] + without_soft_hyphens(s@.skip(i + 1)))));
            }
        }
        i = i + 1;
    }
    proof {
        assert(s@.skip(s@.len() as int) =~= Seq::<char>::empty());
        assert(r@ + Seq::<char>::empty() =~= r@);
    }
    r
}

/// Splitting on runs of whitespace, folded left to right: `cur` is the
/// word being gathered, `acc` the words already complete.
pub open spec fn words_fold(s: Seq<char>, cur: Seq<char>, acc: Seq<Seq<char>>) -> Seq<Seq<char>>
    decreases s.len(),
{
    if s.len() == 0 {
        if cur.len() == 0 {
            acc
        } else {
            acc.push(cur)
        }
    } else if is_unicode_whitespace(s.first()) {
        if cur.len() == 0 {
            words_fold(s.drop_first(), Seq::empty(), acc)
        } else {
            words_fold(s.drop_first(), Seq::empty(), acc.push(cur))
        }
    } else {
        words_fold(s.drop_first(), cur.push(s.first()), acc)
    }
}

/// The whitespace-separated words of `s`, in order, duplicates kept.
pub open spec fn words_of(s: Seq<char>) -> Seq<Seq<char>> {
    words_fold(s, Seq::empty(), Seq::empty())
}

/// Computes [`words_of`].
pub fn split_whitespace_words(s: &str) -> (r: Vec<String>)
    ensures
        r.deep_view() == words_of(s@),
{
    let cs = chars_of(s);
    let mut acc: Vec<String> = Vec::new();
    let mut cur = String::new();
    let mut i: usize = 0;
    proof {
        assert(cs@.skip(0) =~= cs@);
        assert(acc.deep_view() =~= Seq::<Seq<char>>::empty());
    }
    while i < cs.len()
        invariant
            i <= cs.len(),
            cs@ == s@,
            words_of(s@) == words_fold(s@.skip(i as int), cur@, acc.deep_view()),
        decreases cs.len() - i,
    {
        proof {
            assert(s@.skip(i as int).first() == s@[i as int]);
            assert(s@.skip(i as int).drop_first() =~= s@.skip(i + 1));
        }
        let c = cs[i];
        if c.is_whitespace() {
            if !cur.as_str().is_empty() {
                let ghost pre = acc.deep_view();
                let ghost gcur = cur@;
                acc.push(cur);
                cur = String::new();
                proof {
                    assert(acc.deep_view() =~= pre.push(gcur));
                }
            } else {
                proof {
                    assert(cur@ =~= Seq::<char>::empty());
                }
            }
        } else {
            cur.push(c);
        }
        i = i + 1;
    }
    if !cur.as_str().is_empty() {
        let ghost pre = acc.deep_view();
        let ghost gcur = cur@;
        acc.push(cur);
        proof {
            assert(acc.deep_view() =~= pre.push(gcur));
        }
    }
    proof {
        assert(s@.skip(s@.len() as int) =~= Seq::<char>::empty());
    }
    acc
}

/// The directory part of a path: everything before the last `/`, or the
/// empty string where the path holds no `/` at all.
pub open spec fn parent_dir_of(p: Seq<char>) -> Seq<char> {
    match last_index_of(p, '/') {
        Some(i) => p.take(i),
        None => Seq::empty(),
    }
}

/// Computes [`parent_dir_of`].
pub fn parent_dir(p: &str) -> (r: String)
    ensures
        r@ == parent_dir_of(p@),
{
    let cs = chars_of(p);
    match find_last_char(&cs, '/') {
        Some(i) => {
            let r = string_from_chars(&cs, 0, i);
            proof {
                assert(cs@.subrange(0, i as int) =~= p@.take(i as int));
            }
            r
        },
        None => String::new(),
    }
}

/// `dir` and `rel` joined with a single forward slash.  Archive entry names
/// always use `/`, so this is a plain character join, never an OS path one.
pub open spec fn slash_joined(dir: Seq<char>, rel: Seq<char>) -> Seq<char> {
    dir + "/"@ + rel
}

/// Computes [`slash_joined`].
pub fn slash_join(dir: &str, rel: &str) -> (r: String)
    ensures
        r@ == slash_joined(dir@, rel@),
{
    let mut r = String::from_str(dir);
    r.append("/");
    r.append(rel);
    r
}

/// `dir` and `rel` joined with `/`, except that an empty `dir` adds no
/// separator, the way a path join treats an empty directory.
pub open spec fn dir_joined(dir: Seq<char>, rel: Seq<char>) -> Seq<char> {
    if dir.len() == 0 {
        rel
    } else {
        slash_joined(dir, rel)
    }
}

/// Computes [`dir_joined`].
pub fn dir_join(dir: &str, rel: &str) -> (r: String)
    ensures
        r@ == dir_joined(dir@, rel@),
{
    if dir.is_empty() {
        String::from_str(rel)
    } else {
        slash_join(dir, rel)
    }
}

} // verus!
