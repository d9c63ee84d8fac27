//! String primitives with exact specifications, shared by the other modules.
use vstd::prelude::*;
use vstd::string::*;

verus! {

/// `needle` occurs in `hay` starting at index `k`.
pub open spec fn occurs_at(hay: Seq<char>, needle: Seq<char>, k: int) -> bool {
    0 <= k && k + needle.len() <= hay.len() && hay.subrange(k, k + needle.len()) == needle
}

/// `needle` occurs somewhere in `hay`.
pub open spec fn contains(hay: Seq<char>, needle: Seq<char>) -> bool {
    exists|k: int| occurs_at(hay, needle, k)
}

/// `s` with every non-overlapping occurrence of `pat`, scanned from the left,
/// replaced by `with`.
pub open spec fn replace_all(s: Seq<char>, pat: Seq<char>, with: Seq<char>) -> Seq<char>
    decreases s.len(),
{
    if pat.len() == 0 || s.len() < pat.len() {
        s
    } else if s.take(pat.len() as int) == pat {
        with + replace_all(s.skip(pat.len() as int), pat, with)
    } else {
        seq![s[0]] + replace_all(s.skip(1), pat, with)
    }
}

/// Copies a string slice into an owned string.
pub fn owned(s: &str) -> (r: String)
    ensures
        r@ == s@,
{
    String::from_str(s)
}

/// Whether two string slices hold the same characters.
pub fn str_eq(a: &str, b: &str) -> (r: bool)
    ensures
        r == (a@ == b@),
{
    let x = owned(a);
    let y = owned(b);
    x == y
}

/// Whether `needle` occurs in `hay`.
pub fn contains_str(hay: &str, needle: &str) -> (r: bool)
    ensures
        r == contains(hay@, needle@),
{
    let n = hay.unicode_len();
    let m = needle.unicode_len();
    if m == 0 {
        assert(hay@.subrange(0, 0) =~= needle@);
        assert(occurs_at(hay@, needle@, 0));
        return true;
    }
    if m > n {
        return false;
    }
    let mut i: usize = 0;
    while i <= n - m
        invariant
            n == hay@.len(),
            m == needle@.len(),
            0 < m <= n,
            i <= n - m + 1,
            forall|k: int| 0 <= k < i ==> !occurs_at(hay@, needle@, k),
        decreases n - m + 1 - i,
    {
        let part = hay.substring_char(i, i + m);
        if str_eq(part, needle) {
            assert(occurs_at(hay@, needle@, i as int));
            return true;
        }
        i = i + 1;
    }
    assert forall|k: int| !occurs_at(hay@, needle@, k) by {
        if 0 <= k < i {
        }
    }
    false
}

/// `s` with every occurrence of `pat` replaced by `with`, as `str::replace`
/// does it.
pub fn replace_str(s: &str, pat: &str, with: &str) -> (r: String)
    requires
        pat@.len() > 0,
    ensures
        r@ == replace_all(s@, pat@, with@),
{
    let n = s.unicode_len();
    let m = pat.unicode_len();
    let mut out = String::new();
    let mut i: usize = 0;
    assert(s@.skip(0) =~= s@);
    while i < n && m <= n - i
        invariant
            n == s@.len(),
            m == pat@.len(),
            m > 0,
            i <= n,
            replace_all(s@, pat@, with@) == out@ + replace_all(s@.skip(i as int), pat@, with@),
        decreases n - i,
    {
        let ghost rest = s@.skip(i as int);
        let head = s.substring_char(i, i + m);
        assert(head@ =~= rest.take(m as int));
        let ghost prev = out@;
        if str_eq(head, pat) {
            out.append(with);
            assert(rest.skip(m as int) =~= s@.skip(i + m));
            assert(prev + replace_all(rest, pat@, with@) =~= out@ + replace_all(
                s@.skip(i + m),
                pat@,
                with@,
            ));
            i = i + m;
        } else {
            let one = s.substring_char(i, i + 1);
            assert(one@ =~= seq![rest[0]]);
            out.append(one);
            assert(rest.skip(1) =~= s@.skip(i + 1));
            assert(prev + replace_all(rest, pat@, with@) =~= out@ + replace_all(
                s@.skip(i + 1),
                pat@,
                with@,
            ));
            i = i + 1;
        }
    }
    let tail = s.substring_char(i, n);
    assert(tail@ =~= s@.skip(i as int));
    out.append(tail);
    out
}

/// `k` is the first index of `c` in `s`.
pub open spec fn is_first(s: Seq<char>, c: char, k: int) -> bool {
    0 <= k < s.len() && s[k] == c && forall|j: int| 0 <= j < k ==> s[j] != c
}

/// What precedes the first `c` in `s`, if `s` holds a `c`.
pub open spec fn before_first(s: Seq<char>, c: char) -> Option<Seq<char>> {
    if exists|k: int| is_first(s, c, k) {
        Some(s.take(choose|k: int| is_first(s, c, k)))
    } else {
        None
    }
}

/// What precedes the first `c` in `s`, as `split_once(c)` gives it.
pub fn prefix_before(s: &str, c: char) -> (r: Option<String>)
    ensures
        r is Some <==> before_first(s@, c) is Some,
        r matches Some(p) ==> Some(p@) == before_first(s@, c),
{
    let n = s.unicode_len();
    let mut i: usize = 0;
    while i < n
        invariant
            n == s@.len(),
            i <= n,
            forall|j: int| 0 <= j < i ==> s@[j] != c,
        decreases n - i,
    {
        if s.get_char(i) == c {
            assert(is_first(s@, c, i as int));
            let ghost k = choose|k: int| is_first(s@, c, k);
            assert(k == i) by {
                if k < i {
                } else if k > i {
                    assert(s@[i as int] == c);
                }
            }
            return Some(owned(s.substring_char(0, i)));
        }
        i = i + 1;
    }
    assert(!exists|k: int| is_first(s@, c, k));
    None
}

/// The characters with the Unicode `White_Space` property, as
/// `char::is_whitespace` defines them.
pub open spec fn is_white_space(c: char) -> bool {
    let u = c as u32;
    (0x9 <= u && u <= 0xd) || u == 0x20 || u == 0x85 || u == 0xa0 || u == 0x1680 || (0x2000
        <= u && u <= 0x200a) || u == 0x2028 || u == 0x2029 || u == 0x202f || u == 0x205f || u
        == 0x3000
}

/// Whether `c` is white space.
pub fn is_white_space_char(c: char) -> (r: bool)
    ensures
        r == is_white_space(c),
{
    let u = c as u32;
    (0x9 <= u && u <= 0xd) || u == 0x20 || u == 0x85 || u == 0xa0 || u == 0x1680 || (0x2000
        <= u && u <= 0x200a) || u == 0x2028 || u == 0x2029 || u == 0x202f || u == 0x205f || u
        == 0x3000
}

/// The word under construction, if it is not empty.
pub open spec fn flush(cur: Seq<char>) -> Seq<Seq<char>> {
    if cur.len() == 0 {
        seq![]
    } else {
        seq![cur]
    }
}

/// The words of `s` after a word begun as `cur`.
pub open spec fn words_from(s: Seq<char>, cur: Seq<char>) -> Seq<Seq<char>>
    decreases s.len(),
{
    if s.len() == 0 {
        flush(cur)
    } else if is_white_space(s[0]) {
        flush(cur) + words_from(s.drop_first(), seq![])
    } else {
        words_from(s.drop_first(), cur.push(s[0]))
    }
}

/// The maximal runs of non-white-space characters of `s`, in order, as
/// `str::split_whitespace` yields them.
pub open spec fn words(s: Seq<char>) -> Seq<Seq<char>> {
    words_from(s, seq![])
}

/// The words of `s`.
pub fn split_words(s: &str) -> (r: Vec<String>)
    ensures
        r.deep_view() == words(s@),
{
    let n = s.unicode_len();
    let mut out: Vec<String> = Vec::new();
    let mut cur = String::new();
    let mut i: usize = 0;
    assert(s@.skip(0) =~= s@);
    while i < n
        invariant
            n == s@.len(),
            i <= n,
            words(s@) == out.deep_view() + words_from(s@.skip(i as int), cur@),
        decreases n - i,
    {
        let ghost rest = s@.skip(i as int);
        let ghost prev = out.deep_view();
        let c = s.get_char(i);
        assert(rest[0] == c);
        assert(rest.drop_first() =~= s@.skip(i + 1));
        if is_white_space_char(c) {
            let ghost prev_cur = cur@;
            assert(words_from(rest, prev_cur) == flush(prev_cur) + words_from(
                s@.skip(i + 1),
                seq![],
            ));
            if cur.unicode_len() > 0 {
                out.push(cur);
            }
            assert(out.deep_view() =~= prev + flush(prev_cur));
            cur = String::new();
            assert(prev + (flush(prev_cur) + words_from(s@.skip(i + 1), seq![])) =~= out.deep_view()
                + words_from(s@.skip(i + 1), seq![]));
        } else {
            let ghost before = cur@;
            cur.append(s.substring_char(i, i + 1));
            assert(cur@ =~= before.push(c));
        }
        i = i + 1;
    }
    assert(s@.skip(n as int) =~= seq![]);
    if cur.unicode_len() > 0 {
        let ghost prev = out.deep_view();
        out.push(cur);
        assert(out.deep_view() =~= prev + seq![cur@]);
    }
    assert(words(s@) =~= out.deep_view());
    out
}

/// `parts` separated by `sep`.
pub open spec fn join(parts: Seq<Seq<char>>, sep: Seq<char>) -> Seq<char>
    decreases parts.len(),
{
    if parts.len() == 0 {
        seq![]
    } else if parts.len() == 1 {
        parts[0]
    } else {
        parts[0] + sep + join(parts.drop_first(), sep)
    }
}

proof fn lemma_join_snoc(xs: Seq<Seq<char>>, sep: Seq<char>, k: int)
    requires
        1 <= k < xs.len(),
    ensures
        join(xs.take(k + 1), sep) == join(xs.take(k), sep) + sep + xs[k],
    decreases k,
{
    let ys = xs.drop_first();
    assert(xs.take(k + 1).drop_first() =~= ys.take(k));
    if k == 1 {
        assert(ys.take(1).len() == 1);
        assert(join(ys.take(1), sep) == ys[0]);
        assert(xs.take(1).len() == 1);
        assert(join(xs.take(1), sep) == xs[0]);
        assert(xs.take(2)[0] == xs[0]);
        assert(join(xs.take(2), sep) == xs[0] + sep + join(ys.take(1), sep));
    } else {
        lemma_join_snoc(ys, sep, k - 1);
        assert(xs.take(k).drop_first() =~= ys.take(k - 1));
        assert(join(xs.take(k + 1), sep) =~= join(xs.take(k), sep) + sep + xs[k]);
    }
}

/// `parts` joined by `sep`.
pub fn join_strs(parts: &Vec<String>, sep: &str) -> (r: String)
    ensures
        r@ == join(parts.deep_view(), sep@),
{
    let ghost xs = parts.deep_view();
    let mut out = String::new();
    let mut i: usize = 0;
    assert(xs.take(0) =~= seq![]);
    while i < parts.len()
        invariant
            xs == parts.deep_view(),
            i <= parts.len(),
            out@ == join(xs.take(i as int), sep@),
        decreases parts.len() - i,
    {
        assert(xs[i as int] == parts[i as int]@);
        if i == 0 {
            out.append(parts[i].as_str());
            assert(xs.take(1).len() == 1);
            assert(out@ =~= join(xs.take(1), sep@));
        } else {
            proof {
                lemma_join_snoc(xs, sep@, i as int);
            }
            out.append(sep);
            out.append(parts[i].as_str());
        }
        i = i + 1;
    }
    assert(xs.take(parts.len() as int) =~= xs);
    out
}

/// `s` holds no white space.
pub open spec fn no_white_space(s: Seq<char>) -> bool {
    forall|i: int| 0 <= i < s.len() ==> !is_white_space(#[trigger] s[i])
}

proof fn lemma_words_skip_word(x: Seq<char>, t: Seq<char>, cur: Seq<char>)
    requires
        no_white_space(x),
    ensures
        words_from(x + t, cur) == words_from(t, cur + x),
    decreases x.len(),
{
    if x.len() == 0 {
        assert(x + t =~= t);
        assert(cur + x =~= cur);
    } else {
        assert((x + t)[0] == x[0]);
        assert((x + t).drop_first() =~= x.drop_first() + t);
        lemma_words_skip_word(x.drop_first(), t, cur.push(x[0]));
        assert(cur.push(x[0]) + x.drop_first() =~= cur + x);
    }
}

/// Splitting the space-separated join of non-empty words without white space
/// gives back the words.
pub proof fn lemma_words_of_join(xs: Seq<Seq<char>>)
    requires
        forall|i: int| 0 <= i < xs.len() ==> #[trigger] xs[i].len() > 0 && no_white_space(xs[i]),
    ensures
        words(join(xs, seq![' '])) == xs,
    decreases xs.len(),
{
    let sep = seq![' '];
    assert(is_white_space(' '));
    if xs.len() == 0 {
        assert(words(join(xs, sep)) =~= xs);
    } else if xs.len() == 1 {
        assert(xs[0] + seq![] =~= xs[0]);
        lemma_words_skip_word(xs[0], seq![], seq![]);
        assert(seq![] + xs[0] =~= xs[0]);
        assert(words(join(xs, sep)) =~= xs);
    } else {
        let rest = xs.drop_first();
        assert forall|i: int| 0 <= i < rest.len() implies #[trigger] rest[i].len() > 0
            && no_white_space(rest[i]) by {
            assert(rest[i] == xs[i + 1]);
        }
        lemma_words_of_join(rest);
        let j = join(rest, sep);
        assert(join(xs, sep) =~= xs[0] + (sep + j));
        lemma_words_skip_word(xs[0], sep + j, seq![]);
        assert(seq![] + xs[0] =~= xs[0]);
        assert((sep + j).drop_first() =~= j);
        assert(words_from(sep + j, xs[0]) == flush(xs[0]) + words_from(j, seq![]));
        assert(words(join(xs, sep)) =~= xs);
    }
}

/// `s` without the leading characters that `drop` holds of.
pub open spec fn strip_start(s: Seq<char>, drop: spec_fn(char) -> bool) -> Seq<char>
    decreases s.len(),
{
    if s.len() > 0 && drop(s[0]) {
        strip_start(s.drop_first(), drop)
    } else {
        s
    }
}

/// `s` without the trailing characters that `drop` holds of.
pub open spec fn strip_end(s: Seq<char>, drop: spec_fn(char) -> bool) -> Seq<char>
    decreases s.len(),
{
    if s.len() > 0 && drop(s.last()) {
        strip_end(s.drop_last(), drop)
    } else {
        s
    }
}

/// `s` without the leading and trailing characters that `drop` holds of.
pub open spec fn strip(s: Seq<char>, drop: spec_fn(char) -> bool) -> Seq<char> {
    strip_end(strip_start(s, drop), drop)
}

/// The characters that `strip_chars` removes: double quotes, or white space.
pub open spec fn strip_class(quotes: bool) -> spec_fn(char) -> bool {
    if quotes {
        |c: char| c == '"'
    } else {
        |c: char| is_white_space(c)
    }
}

fn in_strip_class(c: char, quotes: bool) -> (r: bool)
    ensures
        r == strip_class(quotes)(c),
{
    if quotes {
        c == '"'
    } else {
        is_white_space_char(c)
    }
}

/// `s` without leading and trailing white space (`quotes` false, as
/// `str::trim`) or double quotes (`quotes` true, as `str::trim_matches('"')`).
pub fn strip_chars(s: &str, quotes: bool) -> (r: String)
    ensures
        r@ == strip(s@, strip_class(quotes)),
{
    let ghost drop = strip_class(quotes);
    let n = s.unicode_len();
    let mut i: usize = 0;
    assert(s@.skip(0) =~= s@);
    while i < n && in_strip_class(s.get_char(i), quotes)
        invariant
            n == s@.len(),
            i <= n,
            drop == strip_class(quotes),
            strip_start(s@, drop) == strip_start(s@.skip(i as int), drop),
        decreases n - i,
    {
        assert(s@.skip(i as int).drop_first() =~= s@.skip(i + 1));
        i = i + 1;
    }
    let ghost front = s@.skip(i as int);
    assert(strip_start(front, drop) == front);
    let mut j: usize = n;
    assert(front =~= s@.subrange(i as int, j as int));
    while j > i && in_strip_class(s.get_char(j - 1), quotes)
        invariant
            n == s@.len(),
            i <= j <= n,
            drop == strip_class(quotes),
            strip_end(front, drop) == strip_end(s@.subrange(i as int, j as int), drop),
        decreases j,
    {
        assert(s@.subrange(i as int, j as int).drop_last() =~= s@.subrange(i as int, j - 1));
        j = j - 1;
    }
    owned(s.substring_char(i, j))
}

/// A sequence occurs in itself.
pub proof fn lemma_contains_self(n: Seq<char>)
    ensures
        contains(n, n),
{
    assert(n.subrange(0, n.len() as int) =~= n);
    assert(occurs_at(n, n, 0));
}

/// What occurs in `a` occurs in `a + b`.
pub proof fn lemma_contains_left(a: Seq<char>, b: Seq<char>, n: Seq<char>)
    requires
        contains(a, n),
    ensures
        contains(a + b, n),
{
    let k = choose|k: int| occurs_at(a, n, k);
    assert((a + b).subrange(k, k + n.len()) =~= a.subrange(k, k + n.len()));
    assert(occurs_at(a + b, n, k));
}

/// What occurs in `b` occurs in `a + b`.
pub proof fn lemma_contains_right(a: Seq<char>, b: Seq<char>, n: Seq<char>)
    requires
        contains(b, n),
    ensures
        contains(a + b, n),
{
    let k = choose|k: int| occurs_at(b, n, k);
    assert((a + b).subrange(a.len() + k, a.len() + k + n.len()) =~= b.subrange(k, k + n.len()));
    assert(occurs_at(a + b, n, a.len() + k));
}

/// Each part occurs in the join of the parts.
pub proof fn lemma_join_contains(xs: Seq<Seq<char>>, sep: Seq<char>, i: int)
    requires
        0 <= i < xs.len(),
    ensures
        contains(join(xs, sep), xs[i]),
    decreases xs.len(),
{
    if xs.len() == 1 {
        lemma_contains_self(xs[0]);
    } else if i == 0 {
        lemma_contains_self(xs[0]);
        lemma_contains_left(xs[0], sep, xs[0]);
        lemma_contains_left(xs[0] + sep, join(xs.drop_first(), sep), xs[0]);
    } else {
        lemma_join_contains(xs.drop_first(), sep, i - 1);
        lemma_contains_right(xs[0] + sep, join(xs.drop_first(), sep), xs[i]);
    }
}

/// Occurrence is transitive.
pub proof fn lemma_contains_trans(a: Seq<char>, m: Seq<char>, n: Seq<char>)
    requires
        contains(a, m),
        contains(m, n),
    ensures
        contains(a, n),
{
    let k = choose|k: int| occurs_at(a, m, k);
    let j = choose|j: int| occurs_at(m, n, j);
    assert(a.subrange(k + j, k + j + n.len()) =~= m.subrange(j, j + n.len()));
    assert(occurs_at(a, n, k + j));
}

/// A copy of a list of strings.
pub fn clone_strings(xs: &Vec<String>) -> (r: Vec<String>)
    ensures
        r.deep_view() == xs.deep_view(),
{
    let mut r: Vec<String> = Vec::new();
    let mut i: usize = 0;
    while i < xs.len()
        invariant
            i <= xs.len(),
            r.deep_view() =~= xs.deep_view().take(i as int),
        decreases xs.len() - i,
    {
        let ghost prev = r.deep_view();
        r.push(xs[i].clone());
        assert(r.deep_view() =~= prev.push(xs[i as int]@));
        assert(xs.deep_view().take(i + 1) =~= xs.deep_view().take(i as int).push(xs[i as int]@));
        i = i + 1;
    }
    assert(xs.deep_view().take(xs.len() as int) =~= xs.deep_view());
    r
}

/// Whether `xs` holds a string equal to `x`.
pub fn holds_string(xs: &Vec<String>, x: &String) -> (r: bool)
    ensures
        r == xs.deep_view().contains(x@),
{
    let mut i: usize = 0;
    while i < xs.len()
        invariant
            i <= xs.len(),
            forall|j: int| 0 <= j < i ==> xs.deep_view()[j] != x@,
        decreases xs.len() - i,
    {
        if xs[i] == *x {
            assert(xs.deep_view()[i as int] == x@);
            return true;
        }
        i = i + 1;
    }
    false
}

} // verus!
