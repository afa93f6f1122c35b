//! Character-level text handling shared by the rest of the library:
//! whitespace, trimming, word splitting, joining, splitting on a separator
//! and decimal numbers, each with the mathematical meaning it is proved against.
use vstd::prelude::*;
use vstd::std_specs::iter::IteratorSpec;

verus! {

broadcast use vstd::string::group_string_axioms;

// ---------------------------------------------------------------------------
// Whitespace
// ---------------------------------------------------------------------------

/// The Unicode `White_Space` property, which `char::is_whitespace` tests.
pub open spec fn is_ws(c: char) -> bool {
    let u = c as u32;
    ||| 9 <= u <= 13
    ||| u == 32
    ||| u == 0x85
    ||| u == 0xA0
    ||| u == 0x1680
    ||| 0x2000 <= u <= 0x200A
    ||| u == 0x2028
    ||| u == 0x2029
    ||| u == 0x202F
    ||| u == 0x205F
    ||| u == 0x3000
}

/// Whether `c` is Unicode whitespace.
pub fn is_whitespace(c: char) -> (r: bool)
    ensures
        r == is_ws(c),
{
    let u = c as u32;
    (9 <= u && u <= 13) || u == 32 || u == 0x85 || u == 0xA0 || u == 0x1680 || (0x2000 <= u && u
        <= 0x200A) || u == 0x2028 || u == 0x2029 || u == 0x202F || u == 0x205F || u == 0x3000
}

/// Every character of `s` is whitespace.
pub open spec fn all_ws(s: Seq<char>) -> bool {
    forall|i: int| 0 <= i < s.len() ==> is_ws(#[trigger] s[i])
}

/// `s` with its leading whitespace removed.
pub open spec fn trim_start(s: Seq<char>) -> Seq<char>
    decreases s.len(),
{
    if s.len() > 0 && is_ws(s[0]) {
        trim_start(s.drop_first())
    } else {
        s
    }
}

/// `s` with its trailing whitespace removed.
pub open spec fn trim_end(s: Seq<char>) -> Seq<char>
    decreases s.len(),
{
    if s.len() > 0 && is_ws(s.last()) {
        trim_end(s.drop_last())
    } else {
        s
    }
}

/// `s` with whitespace removed from both ends, as `str::trim` gives it.
pub open spec fn trimmed(s: Seq<char>) -> Seq<char> {
    trim_end(trim_start(s))
}

/// Trimming leaves nothing exactly when every character is whitespace.
pub proof fn lemma_trim_empty_iff_all_ws(s: Seq<char>)
    ensures
        (trimmed(s).len() == 0) <==> all_ws(s),
    decreases s.len(),
{
    lemma_trim_start_empty_iff(s);
    lemma_trim_end_empty_iff(trim_start(s));
}

proof fn lemma_trim_start_empty_iff(s: Seq<char>)
    ensures
        (trim_start(s).len() == 0) <==> all_ws(s),
        trim_start(s).len() > 0 ==> !is_ws(trim_start(s)[0]),
    decreases s.len(),
{
    if s.len() > 0 && is_ws(s[0]) {
        lemma_trim_start_empty_iff(s.drop_first());
        if all_ws(s.drop_first()) {
            assert forall|i: int| 0 <= i < s.len() implies is_ws(#[trigger] s[i]) by {
                if i > 0 {
                    assert(s[i] == s.drop_first()[i - 1]);
                }
            }
        }
        if all_ws(s) {
            assert forall|i: int| 0 <= i < s.drop_first().len() implies is_ws(
                #[trigger] s.drop_first()[i],
            ) by {
                assert(s.drop_first()[i] == s[i + 1]);
            }
        }
    } else if s.len() > 0 {
        assert(!is_ws(s[0]));
    }
}

proof fn lemma_trim_end_empty_iff(s: Seq<char>)
    ensures
        (trim_end(s).len() == 0) <==> all_ws(s),
        trim_end(s).len() > 0 ==> !is_ws(trim_end(s).last()),
    decreases s.len(),
{
    if s.len() > 0 && is_ws(s.last()) {
        lemma_trim_end_empty_iff(s.drop_last());
        if all_ws(s.drop_last()) {
            assert forall|i: int| 0 <= i < s.len() implies is_ws(#[trigger] s[i]) by {
                if i < s.len() - 1 {
                    assert(s[i] == s.drop_last()[i]);
                }
            }
        }
        if all_ws(s) {
            assert forall|i: int| 0 <= i < s.drop_last().len() implies is_ws(
                #[trigger] s.drop_last()[i],
            ) by {
                assert(s.drop_last()[i] == s[i]);
            }
        }
    } else if s.len() > 0 {
        assert(!is_ws(s[s.len() - 1]));
    }
}

/// A trimmed text neither starts nor ends with whitespace.
pub proof fn lemma_trimmed_ends(s: Seq<char>)
    ensures
        trimmed(s).len() > 0 ==> !is_ws(trimmed(s)[0]) && !is_ws(trimmed(s).last()),
{
    lemma_trim_start_empty_iff(s);
    lemma_trim_end_empty_iff(trim_start(s));
    lemma_trim_end_is_prefix(trim_start(s));
}

proof fn lemma_trim_end_is_prefix(s: Seq<char>)
    ensures
        trim_end(s).len() <= s.len(),
        trim_end(s) == s.subrange(0, trim_end(s).len() as int),
    decreases s.len(),
{
    if s.len() > 0 && is_ws(s.last()) {
        lemma_trim_end_is_prefix(s.drop_last());
        assert(s.drop_last().subrange(0, trim_end(s).len() as int) =~= s.subrange(
            0,
            trim_end(s).len() as int,
        ));
    } else {
        assert(s.subrange(0, s.len() as int) =~= s);
    }
}

/// A text with no whitespace at either end is its own trim.
pub proof fn lemma_trim_fixed(s: Seq<char>)
    requires
        s.len() > 0 ==> !is_ws(s[0]) && !is_ws(s.last()),
    ensures
        trimmed(s) == s,
{
}

// ---------------------------------------------------------------------------
// Conversions between text and character vectors
// ---------------------------------------------------------------------------

/// `String::push`: appends one character at the end.
#[verifier::external_body]
fn push_char(s: &mut String, c: char)
    ensures
        final(s)@ == old(s)@.push(c),
{
    s.push(c);
}

/// The characters of `s`, in order.
pub fn to_chars(s: &str) -> (r: Vec<char>)
    ensures
        r@ == s@,
{
    let mut out: Vec<char> = Vec::new();
    let mut it = s.chars();
    loop
        invariant
            out@ + it.remaining() == s@,
            it.decrease() is Some,
        ensures
            out@ == s@,
        decreases it.decrease()->0,
    {
        match it.next() {
            Some(c) => {
                out.push(c);
            },
            None => {
                assert(out@ + it.remaining() =~= out@);
                break;
            },
        }
    }
    out
}

/// The text made of the characters of `v`.
pub fn from_chars(v: &Vec<char>) -> (r: String)
    ensures
        r@ == v@,
{
    let mut out = String::new();
    let n = v.len();
    for i in 0..n
        invariant
            n == v.len(),
            out@ == v@.take(i as int),
    {
        push_char(&mut out, v[i]);
        assert(v@.take(i + 1) =~= v@.take(i as int).push(v@[i as int]));
    }
    assert(v@.take(n as int) =~= v@);
    out
}

/// The text made of the characters of `s` followed by those of `t`.
pub fn concat_str(s: &str, t: &str) -> (r: String)
    ensures
        r@ == s@ + t@,
{
    let mut v = to_chars(s);
    let w = to_chars(t);
    append_chars(&mut v, &w);
    from_chars(&v)
}

/// Appends the characters of `w` to `v`.
pub fn append_chars(v: &mut Vec<char>, w: &Vec<char>)
    ensures
        final(v)@ == old(v)@ + w@,
{
    let n = w.len();
    let ghost start = v@;
    for i in 0..n
        invariant
            n == w.len(),
            v@ == start + w@.take(i as int),
    {
        v.push(w[i]);
        assert(start + w@.take(i + 1) =~= (start + w@.take(i as int)).push(w@[i as int]));
    }
    assert(w@.take(n as int) =~= w@);
}

/// Appends the characters of `s` to `v`.
pub fn append_str(v: &mut Vec<char>, s: &str)
    ensures
        final(v)@ == old(v)@ + s@,
{
    let w = to_chars(s);
    append_chars(v, &w);
}

/// The characters of `v` from index `a` up to (not including) `b`.
pub fn slice_chars(v: &Vec<char>, a: usize, b: usize) -> (r: Vec<char>)
    requires
        a <= b <= v.len(),
    ensures
        r@ == v@.subrange(a as int, b as int),
{
    let mut out: Vec<char> = Vec::new();
    let mut i = a;
    while i < b
        invariant
            a <= i <= b <= v.len(),
            out@ == v@.subrange(a as int, i as int),
        decreases b - i,
    {
        out.push(v[i]);
        assert(v@.subrange(a as int, i + 1) =~= v@.subrange(a as int, i as int).push(v@[i as int]));
        i += 1;
    }
    out
}

/// Whether two character sequences are equal.
pub fn chars_equal(a: &Vec<char>, b: &Vec<char>) -> (r: bool)
    ensures
        r == (a@ == b@),
{
    if a.len() != b.len() {
        return false;
    }
    let n = a.len();
    for i in 0..n
        invariant
            n == a.len() == b.len(),
            forall|j: int| 0 <= j < i ==> a@[j] == b@[j],
    {
        if a[i] != b[i] {
            return false;
        }
    }
    assert(a@ =~= b@);
    true
}

/// Whether the characters of `a` spell the text `b`.
pub fn chars_equal_str(a: &Vec<char>, b: &str) -> (r: bool)
    ensures
        r == (a@ == b@),
{
    let w = to_chars(b);
    chars_equal(a, &w)
}

/// Whether `s` begins with `p`.
pub open spec fn has_prefix(s: Seq<char>, p: Seq<char>) -> bool {
    p.len() <= s.len() && s.subrange(0, p.len() as int) == p
}

/// Whether `s` ends with `p`.
pub open spec fn has_suffix(s: Seq<char>, p: Seq<char>) -> bool {
    p.len() <= s.len() && s.subrange(s.len() - p.len(), s.len() as int) == p
}

/// Whether the characters of `s` begin with those of `p`.
pub fn starts_with_chars(s: &Vec<char>, p: &Vec<char>) -> (r: bool)
    ensures
        r == has_prefix(s@, p@),
{
    if p.len() > s.len() {
        return false;
    }
    let n = p.len();
    for i in 0..n
        invariant
            n == p.len() <= s.len(),
            forall|j: int| 0 <= j < i ==> s@[j] == p@[j],
    {
        if s[i] != p[i] {
            assert(s@.subrange(0, n as int)[i as int] != p@[i as int]);
            return false;
        }
    }
    assert(s@.subrange(0, n as int) =~= p@);
    true
}

/// Whether the characters of `s` end with those of `p`.
pub fn ends_with_chars(s: &Vec<char>, p: &Vec<char>) -> (r: bool)
    ensures
        r == has_suffix(s@, p@),
{
    if p.len() > s.len() {
        return false;
    }
    let n = p.len();
    let off = s.len() - n;
    for i in 0..n
        invariant
            n == p.len() <= s.len(),
            off == s.len() - n,
            forall|j: int| 0 <= j < i ==> s@[off + j] == p@[j],
    {
        if s[off + i] != p[i] {
            assert(s@.subrange(off as int, s.len() as int)[i as int] != p@[i as int]);
            return false;
        }
    }
    assert(s@.subrange(off as int, s.len() as int) =~= p@);
    true
}

/// Whether the text `s` begins with the text `p`.
pub fn str_starts_with(s: &str, p: &str) -> (r: bool)
    ensures
        r == has_prefix(s@, p@),
{
    let a = to_chars(s);
    let b = to_chars(p);
    starts_with_chars(&a, &b)
}

// ---------------------------------------------------------------------------
// Trimming
// ---------------------------------------------------------------------------

/// The characters of `v` without leading and trailing whitespace.
pub fn trim_chars(v: &Vec<char>) -> (r: Vec<char>)
    ensures
        r@ == trimmed(v@),
{
    let n = v.len();
    let mut i: usize = 0;
    assert(v@.subrange(0, n as int) =~= v@);
    while i < n && is_whitespace(v[i])
        invariant
            n == v.len(),
            i <= n,
            trim_start(v@) == trim_start(v@.subrange(i as int, n as int)),
        decreases n - i,
    {
        assert(v@.subrange(i as int, n as int).drop_first() =~= v@.subrange(i + 1, n as int));
        i += 1;
    }
    let ghost mid = v@.subrange(i as int, n as int);
    assert(trim_start(mid) == mid);
    let mut j: usize = n;
    while j > i && is_whitespace(v[j - 1])
        invariant
            n == v.len(),
            i <= j <= n,
            mid == v@.subrange(i as int, n as int),
            trim_end(mid) == trim_end(v@.subrange(i as int, j as int)),
        decreases j - i,
    {
        assert(v@.subrange(i as int, j as int).drop_last() =~= v@.subrange(i as int, j - 1));
        j -= 1;
    }
    slice_chars(v, i, j)
}

/// `s` with whitespace removed from both ends.
pub fn trim(s: &str) -> (r: String)
    ensures
        r@ == trimmed(s@),
{
    let v = to_chars(s);
    let t = trim_chars(&v);
    from_chars(&t)
}

/// Whether `s` holds nothing but whitespace, as `s.trim().is_empty()` tells.
pub fn is_blank(s: &str) -> (r: bool)
    ensures
        r == (trimmed(s@).len() == 0),
        r == all_ws(s@),
{
    let v = to_chars(s);
    let t = trim_chars(&v);
    proof {
        lemma_trim_empty_iff_all_ws(s@);
    }
    t.len() == 0
}

// ---------------------------------------------------------------------------
// Words and joining
// ---------------------------------------------------------------------------

/// The character sequences held by a sequence of character vectors.
pub open spec fn vec_views(v: Seq<Vec<char>>) -> Seq<Seq<char>> {
    Seq::new(v.len(), |i: int| v[i]@)
}

/// The views of a sequence of texts.
pub open spec fn string_views(v: Seq<String>) -> Seq<Seq<char>> {
    Seq::new(v.len(), |i: int| v[i]@)
}

/// The maximal runs of non-whitespace characters of `s`, in order, as
/// `str::split_whitespace` yields them.
pub open spec fn words(s: Seq<char>) -> Seq<Seq<char>>
    decreases s.len(),
{
    if s.len() == 0 {
        Seq::empty()
    } else {
        let prev = words(s.drop_last());
        let c = s.last();
        if is_ws(c) {
            prev
        } else if s.len() >= 2 && !is_ws(s[s.len() - 2]) {
            prev.update(prev.len() - 1, prev.last().push(c))
        } else {
            prev.push(seq![c])
        }
    }
}

/// A word: at least one character, and no whitespace.
pub open spec fn is_word(w: Seq<char>) -> bool {
    w.len() > 0 && forall|i: int| 0 <= i < w.len() ==> !is_ws(#[trigger] w[i])
}

/// Every element of `ws` is a word.
pub open spec fn all_words(ws: Seq<Seq<char>>) -> bool {
    forall|i: int| 0 <= i < ws.len() ==> is_word(#[trigger] ws[i])
}

/// The pieces of `parts` with `sep` between each two neighbours.
pub open spec fn join(parts: Seq<Seq<char>>, sep: Seq<char>) -> Seq<char>
    decreases parts.len(),
{
    if parts.len() == 0 {
        Seq::empty()
    } else if parts.len() == 1 {
        parts[0]
    } else {
        join(parts.drop_last(), sep) + sep + parts.last()
    }
}

/// What `words` yields consists of words, and ends in a word run exactly
/// when the text ends in a non-whitespace character.
pub proof fn lemma_words_are_words(s: Seq<char>)
    ensures
        all_words(words(s)),
        s.len() > 0 && !is_ws(s.last()) ==> words(s).len() > 0,
    decreases s.len(),
{
    if s.len() > 0 {
        let p = s.drop_last();
        lemma_words_are_words(p);
        let prev = words(p);
        let c = s.last();
        if is_ws(c) {
        } else if s.len() >= 2 && !is_ws(s[s.len() - 2]) {
            assert(p.last() == s[s.len() - 2]);
            let w = prev.last().push(c);
            assert(is_word(prev[prev.len() - 1]));
            assert forall|i: int| 0 <= i < w.len() implies !is_ws(#[trigger] w[i]) by {
                if i < w.len() - 1 {
                    assert(w[i] == prev.last()[i]);
                }
            }
            assert forall|i: int| 0 <= i < words(s).len() implies is_word(
                #[trigger] words(s)[i],
            ) by {
                if i < prev.len() - 1 {
                    assert(words(s)[i] == prev[i]);
                }
            }
        } else {
            let w = seq![c];
            assert(is_word(w));
            assert forall|i: int| 0 <= i < words(s).len() implies is_word(
                #[trigger] words(s)[i],
            ) by {
                if i < prev.len() {
                    assert(words(s)[i] == prev[i]);
                }
            }
        }
    }
}

/// Appending whitespace to a text adds no word.
proof fn lemma_words_push_ws(p: Seq<char>, c: char)
    requires
        is_ws(c),
    ensures
        words(p.push(c)) == words(p),
{
    assert(p.push(c).drop_last() =~= p);
}

/// Appending a word to a text that is empty or ends in whitespace adds
/// exactly that word.
proof fn lemma_words_append_word(p: Seq<char>, w: Seq<char>)
    requires
        is_word(w),
        p.len() > 0 ==> is_ws(p.last()),
    ensures
        words(p + w) == words(p).push(w),
    decreases w.len(),
{
    if w.len() == 1 {
        assert((p + w).drop_last() =~= p);
        assert(w =~= seq![w[0]]);
        if p.len() > 0 {
            assert((p + w)[(p + w).len() - 2] == p.last());
        }
    } else {
        let w0 = w.drop_last();
        assert(is_word(w0)) by {
            assert forall|i: int| 0 <= i < w0.len() implies !is_ws(#[trigger] w0[i]) by {
                assert(w0[i] == w[i]);
            }
        }
        lemma_words_append_word(p, w0);
        assert((p + w).drop_last() =~= p + w0);
        assert((p + w)[(p + w).len() - 2] == w0.last());
        assert(!is_ws(w[w.len() - 1]));
        assert(w0.push(w.last()) =~= w);
    }
}

/// Splitting the words of `ws` joined by single spaces gives `ws` back.
pub proof fn lemma_words_of_join(ws: Seq<Seq<char>>)
    requires
        all_words(ws),
    ensures
        words(join(ws, seq![' '])) == ws,
        ws.len() > 0 ==> join(ws, seq![' ']).len() > 0 && !is_ws(join(ws, seq![' ']).last()),
    decreases ws.len(),
{
    let sp = seq![' '];
    if ws.len() == 0 {
    } else if ws.len() == 1 {
        assert(is_word(ws[0]));
        lemma_words_append_word(Seq::empty(), ws[0]);
        assert(Seq::<char>::empty() + ws[0] =~= ws[0]);
        assert(Seq::<Seq<char>>::empty().push(ws[0]) =~= ws);
        assert(ws[0][ws[0].len() - 1] == ws[0].last());
    } else {
        let init = ws.drop_last();
        assert(all_words(init)) by {
            assert forall|i: int| 0 <= i < init.len() implies is_word(#[trigger] init[i]) by {
                assert(init[i] == ws[i]);
            }
        }
        lemma_words_of_join(init);
        let j0 = join(init, sp);
        lemma_words_push_ws(j0, ' ');
        assert(j0 + sp =~= j0.push(' '));
        assert(is_word(ws[ws.len() - 1]));
        lemma_words_append_word(j0 + sp, ws.last());
        assert(init.push(ws.last()) =~= ws);
        let w = ws.last();
        assert((j0 + sp + w).last() == w.last());
        assert(w[w.len() - 1] == w.last());
    }
}

/// The words of `v`, each as a vector of characters.
pub fn split_words(v: &Vec<char>) -> (r: Vec<Vec<char>>)
    ensures
        vec_views(r@) == words(v@),
{
    let n = v.len();
    let mut out: Vec<Vec<char>> = Vec::new();
    let mut in_word = false;
    for i in 0..n
        invariant
            n == v.len(),
            vec_views(out@) == words(v@.take(i as int)),
            in_word == (i > 0 && !is_ws(v@[i - 1])),
    {
        let c = v[i];
        let ghost pre = v@.take(i as int);
        let ghost cur = v@.take(i + 1);
        assert(cur.drop_last() =~= pre);
        assert(cur.last() == c);
        if is_whitespace(c) {
            in_word = false;
        } else if in_word {
            assert(cur[cur.len() - 2] == v@[i - 1]);
            proof {
                lemma_words_are_words(pre);
                assert(pre.last() == v@[i - 1]);
            }
            let mut w = out.pop().unwrap();
            w.push(c);
            out.push(w);
            in_word = true;
            assert(vec_views(out@) =~= words(cur));
        } else {
            if i > 0 {
                assert(cur[cur.len() - 2] == v@[i - 1]);
            }
            let mut w: Vec<char> = Vec::new();
            w.push(c);
            out.push(w);
            assert(w@ =~= seq![c]);
            in_word = true;
            assert(vec_views(out@) =~= words(cur));
        }
    }
    assert(v@.take(n as int) =~= v@);
    out
}

// ---------------------------------------------------------------------------
// Splitting on a separator character
// ---------------------------------------------------------------------------

/// The pieces of `s` between occurrences of `sep`, as `str::split(sep)`
/// yields them (empty pieces included; always at least one piece).
pub open spec fn split_on(s: Seq<char>, sep: char) -> Seq<Seq<char>>
    decreases s.len(),
{
    if s.len() == 0 {
        seq![Seq::empty()]
    } else {
        let p = split_on(s.drop_last(), sep);
        if s.last() == sep {
            p.push(Seq::empty())
        } else {
            p.update(p.len() - 1, p.last().push(s.last()))
        }
    }
}

/// `split_on` always yields at least one piece.
pub proof fn lemma_split_on_nonempty(s: Seq<char>, sep: char)
    ensures
        split_on(s, sep).len() >= 1,
    decreases s.len(),
{
    if s.len() > 0 {
        lemma_split_on_nonempty(s.drop_last(), sep);
    }
}

/// The pieces of `v` between occurrences of `sep`.
pub fn split_chars(v: &Vec<char>, sep: char) -> (r: Vec<Vec<char>>)
    ensures
        vec_views(r@) == split_on(v@, sep),
        r.len() >= 1,
{
    let n = v.len();
    let mut out: Vec<Vec<char>> = Vec::new();
    out.push(Vec::new());
    assert(vec_views(out@) =~= split_on(v@.take(0), sep));
    for i in 0..n
        invariant
            n == v.len(),
            vec_views(out@) == split_on(v@.take(i as int), sep),
            out.len() >= 1,
    {
        let c = v[i];
        let ghost pre = v@.take(i as int);
        let ghost cur = v@.take(i + 1);
        assert(cur.drop_last() =~= pre);
        assert(cur.last() == c);
        if c == sep {
            out.push(Vec::new());
            assert(vec_views(out@) =~= split_on(cur, sep));
        } else {
            let mut w = out.pop().unwrap();
            w.push(c);
            out.push(w);
            assert(vec_views(out@) =~= split_on(cur, sep));
        }
    }
    assert(v@.take(n as int) =~= v@);
    out
}

// ---------------------------------------------------------------------------
// Decimal numbers
// ---------------------------------------------------------------------------

/// The character of the decimal digit `d`.
pub open spec fn digit_char(d: nat) -> char {
    if d == 0 {
        '0'
    } else if d == 1 {
        '1'
    } else if d == 2 {
        '2'
    } else if d == 3 {
        '3'
    } else if d == 4 {
        '4'
    } else if d == 5 {
        '5'
    } else if d == 6 {
        '6'
    } else if d == 7 {
        '7'
    } else if d == 8 {
        '8'
    } else {
        '9'
    }
}

/// Whether `c` is one of `0`..`9`.
pub open spec fn is_digit(c: char) -> bool {
    48 <= (c as u32) <= 57
}

/// The value of the decimal digit `c`.
pub open spec fn digit_value(c: char) -> nat {
    ((c as u32) - 48) as nat
}

/// Every character of `s` is a decimal digit.
pub open spec fn all_digits(s: Seq<char>) -> bool {
    forall|i: int| 0 <= i < s.len() ==> is_digit(#[trigger] s[i])
}

/// The value of the decimal numeral `s`.
pub open spec fn digits_value(s: Seq<char>) -> nat
    decreases s.len(),
{
    if s.len() == 0 {
        0
    } else {
        digits_value(s.drop_last()) * 10 + digit_value(s.last())
    }
}

/// The decimal numeral of `n`, without leading zeros, as `to_string` writes it.
pub open spec fn decimal(n: nat) -> Seq<char>
    decreases n,
{
    if n < 10 {
        seq![digit_char(n)]
    } else {
        decimal(n / 10).push(digit_char(n % 10))
    }
}

/// The text after an optional leading `+`.
pub open spec fn unsigned_digits(s: Seq<char>) -> Seq<char> {
    if s.len() > 0 && s[0] == '+' {
        s.drop_first()
    } else {
        s
    }
}

/// What `str::parse` gives for an unsigned integer type whose largest value
/// is `max`: an optional `+`, then one or more decimal digits whose value
/// does not exceed `max`.
pub open spec fn parse_unsigned(s: Seq<char>, max: nat) -> Option<nat> {
    let d = unsigned_digits(s);
    if d.len() > 0 && all_digits(d) && digits_value(d) <= max {
        Some(digits_value(d))
    } else {
        None
    }
}

proof fn lemma_digit_char(d: nat)
    requires
        d < 10,
    ensures
        is_digit(digit_char(d)),
        digit_value(digit_char(d)) == d,
{
}

/// A numeral is made of digits, is not empty, and reads back as its value.
pub proof fn lemma_decimal(n: nat)
    ensures
        decimal(n).len() > 0,
        all_digits(decimal(n)),
        digits_value(decimal(n)) == n,
    decreases n,
{
    if n < 10 {
        lemma_digit_char(n);
        assert(decimal(n).drop_last() =~= Seq::<char>::empty());
        assert(decimal(n).last() == digit_char(n));
        assert(digits_value(decimal(n)) == digits_value(decimal(n).drop_last()) * 10 + digit_value(decimal(n).last()));
        assert(digits_value(Seq::<char>::empty()) == 0);
    } else {
        lemma_decimal(n / 10);
        lemma_digit_char(n % 10);
        let d = decimal(n);
        assert(d.drop_last() =~= decimal(n / 10));
        assert(d.last() == digit_char(n % 10));
        assert(digits_value(d) == digits_value(decimal(n / 10)) * 10 + digit_value(d.last()));
        assert(digits_value(decimal(n / 10)) == n / 10);
        assert(digit_value(d.last()) == n % 10);
        assert((n / 10) * 10 + n % 10 == n) by (nonlinear_arith);
        assert forall|i: int| 0 <= i < d.len() implies is_digit(#[trigger] d[i]) by {
            if i < d.len() - 1 {
                assert(d[i] == decimal(n / 10)[i]);
            }
        }
    }
}

/// Different numbers have different numerals.
pub proof fn lemma_decimal_injective(a: nat, b: nat)
    requires
        decimal(a) == decimal(b),
    ensures
        a == b,
{
    lemma_decimal(a);
    lemma_decimal(b);
}

/// Reading back a written number gives that number.
pub proof fn lemma_parse_decimal(n: nat, max: nat)
    requires
        n <= max,
    ensures
        parse_unsigned(decimal(n), max) == Some(n),
{
    lemma_decimal(n);
    assert(is_digit(decimal(n)[0]));
}

/// A numeral's value is at least that of any of its prefixes.
proof fn lemma_digits_value_prefix(s: Seq<char>, k: int)
    requires
        0 <= k <= s.len(),
    ensures
        digits_value(s.take(k)) <= digits_value(s),
    decreases s.len(),
{
    if k < s.len() {
        assert(s.drop_last().take(k) =~= s.take(k));
        lemma_digits_value_prefix(s.drop_last(), k);
    } else {
        assert(s.take(k) =~= s);
    }
}

/// The character of the decimal digit `d`.
fn digit_to_char(d: u128) -> (c: char)
    requires
        d < 10,
    ensures
        c == digit_char(d as nat),
{
    if d == 0 {
        '0'
    } else if d == 1 {
        '1'
    } else if d == 2 {
        '2'
    } else if d == 3 {
        '3'
    } else if d == 4 {
        '4'
    } else if d == 5 {
        '5'
    } else if d == 6 {
        '6'
    } else if d == 7 {
        '7'
    } else if d == 8 {
        '8'
    } else {
        '9'
    }
}

/// Appends the decimal numeral of `n` to `out`.
pub fn push_decimal(out: &mut Vec<char>, n: u128)
    ensures
        final(out)@ == old(out)@ + decimal(n as nat),
    decreases n,
{
    if n >= 10 {
        push_decimal(out, n / 10);
    }
    let c = digit_to_char(n % 10);
    let ghost before = out@;
    out.push(c);
    proof {
        if n >= 10 {
            assert(decimal(n as nat) == decimal((n / 10) as nat).push(digit_char((n % 10) as nat)));
            assert(out@ =~= old(out)@ + decimal(n as nat));
        } else {
            assert(out@ =~= old(out)@ + decimal(n as nat));
        }
    }
}

/// The decimal numeral of `n`.
pub fn u64_to_string(n: u64) -> (r: String)
    ensures
        r@ == decimal(n as nat),
{
    let mut v: Vec<char> = Vec::new();
    push_decimal(&mut v, n as u128);
    assert(v@ =~= decimal(n as nat));
    from_chars(&v)
}

/// The value of `v` read as an unsigned decimal integer of at most `u64::MAX`.
pub fn parse_u64_chars(v: &Vec<char>) -> (r: Option<u64>)
    ensures
        match r {
            Some(x) => parse_unsigned(v@, u64::MAX as nat) == Some(x as nat),
            None => parse_unsigned(v@, u64::MAX as nat) is None,
        },
{
    let n = v.len();
    let start: usize = if n > 0 && v[0] == '+' {
        1
    } else {
        0
    };
    let ghost d = unsigned_digits(v@);
    assert(d =~= v@.subrange(start as int, n as int));
    if start == n {
        return None;
    }
    let mut acc: u64 = 0;
    let mut i = start;
    while i < n
        invariant
            start <= i <= n == v.len(),
            d == v@.subrange(start as int, n as int),
            d == unsigned_digits(v@),
            all_digits(d.take(i - start)),
            acc as nat == digits_value(d.take(i - start)),
        decreases n - i,
    {
        let c = v[i];
        let ghost k = i - start;
        assert(d[k as int] == c);
        if !(48 <= (c as u32) && (c as u32) <= 57) {
            assert(!is_digit(d[k as int]));
            assert(!all_digits(d));
            return None;
        }
        let dv = ((c as u32) - 48) as u64;
        assert(d.take(k + 1).drop_last() =~= d.take(k as int));
        assert(d.take(k + 1).last() == c);
        match acc.checked_mul(10) {
            Some(m) => {
                match m.checked_add(dv) {
                    Some(a) => {
                        acc = a;
                    },
                    None => {
                        proof {
                            lemma_digits_value_prefix(d, k + 1);
                        }
                        return None;
                    },
                }
            },
            None => {
                proof {
                    lemma_digits_value_prefix(d, k + 1);
                }
                return None;
            },
        }
        assert forall|j: int| 0 <= j < d.take(k + 1).len() implies is_digit(
            #[trigger] d.take(k + 1)[j],
        ) by {
            if j < k {
                assert(d.take(k + 1)[j] == d.take(k as int)[j]);
            }
        }
        i += 1;
    }
    assert(d.take(n - start) =~= d);
    Some(acc)
}

/// The value of `s` read as an unsigned decimal integer of at most `u64::MAX`,
/// as `s.parse::<u64>().ok()` gives it.
pub fn parse_u64(s: &str) -> (r: Option<u64>)
    ensures
        match r {
            Some(x) => parse_unsigned(s@, u64::MAX as nat) == Some(x as nat),
            None => parse_unsigned(s@, u64::MAX as nat) is None,
        },
{
    let v = to_chars(s);
    parse_u64_chars(&v)
}

/// The value of `s` read as an unsigned decimal integer of at most `u32::MAX`,
/// as `s.parse::<u32>().ok()` gives it.
pub fn parse_u32_chars(v: &Vec<char>) -> (r: Option<u32>)
    ensures
        match r {
            Some(x) => parse_unsigned(v@, u32::MAX as nat) == Some(x as nat),
            None => parse_unsigned(v@, u32::MAX as nat) is None,
        },
{
    match parse_u64_chars(v) {
        Some(x) => {
            if x <= u32::MAX as u64 {
                Some(x as u32)
            } else {
                None
            }
        },
        None => None,
    }
}

// ---------------------------------------------------------------------------
// Case mapping
// ---------------------------------------------------------------------------

/// What `str::to_lowercase` returns for a text: its Unicode lowercase mapping.
pub uninterp spec fn lowercase_of(s: Seq<char>) -> Seq<char>;

/// `str::to_lowercase`: the lowercase mapping of `s` as Unicode defines it.
/// The mapping is named, not written out: what is claimed is only that the
/// result is a function of the text alone.
#[verifier::external_body]
pub(crate) fn to_lowercase(s: &str) -> (r: String)
    ensures
        r@ == lowercase_of(s@),
{
    s.to_lowercase()
}

/// ASCII letters made lowercase, other characters kept.
pub open spec fn ascii_lower(c: char) -> char {
    if 65 <= (c as u32) <= 90 {
        ((c as u32) + 32) as char
    } else {
        c
    }
}

/// Whether two characters are equal once ASCII letters are made lowercase.
pub fn eq_ignore_ascii_case_char(a: char, b: char) -> (r: bool)
    ensures
        r == (ascii_lower(a) == ascii_lower(b)),
{
    let x = a as u32;
    let y = b as u32;
    let lx = if 65 <= x && x <= 90 {
        x + 32
    } else {
        x
    };
    let ly = if 65 <= y && y <= 90 {
        y + 32
    } else {
        y
    };
    proof {
        assert(ascii_lower(a) as u32 == lx);
        assert(ascii_lower(b) as u32 == ly);
    }
    lx == ly
}

/// Whether two texts are equal once ASCII letters are made lowercase, as
/// `str::eq_ignore_ascii_case` tells.
pub open spec fn eq_ignore_ascii_case(a: Seq<char>, b: Seq<char>) -> bool {
    a.len() == b.len() && forall|i: int| 0 <= i < a.len() ==> ascii_lower(#[trigger] a[i])
        == ascii_lower(b[i])
}

/// Whether `a` and `b` are equal ignoring ASCII case.
pub fn str_eq_ignore_ascii_case(a: &str, b: &str) -> (r: bool)
    ensures
        r == eq_ignore_ascii_case(a@, b@),
{
    let x = to_chars(a);
    let y = to_chars(b);
    if x.len() != y.len() {
        return false;
    }
    let n = x.len();
    for i in 0..n
        invariant
            n == x.len() == y.len(),
            x@ == a@,
            y@ == b@,
            forall|j: int| 0 <= j < i ==> ascii_lower(#[trigger] x@[j]) == ascii_lower(y@[j]),
    {
        if !eq_ignore_ascii_case_char(x[i], y[i]) {
            return false;
        }
    }
    true
}

/// The parts of `parts` with the characters of `sep` between neighbours.
pub fn join_chars(parts: &Vec<Vec<char>>, sep: &str) -> (r: Vec<char>)
    ensures
        r@ == join(vec_views(parts@), sep@),
{
    let n = parts.len();
    let ghost ps = vec_views(parts@);
    let mut out: Vec<char> = Vec::new();
    assert(ps.take(0) =~= Seq::<Seq<char>>::empty());
    for i in 0..n
        invariant
            n == parts.len(),
            ps == vec_views(parts@),
            out@ == join(ps.take(i as int), sep@),
    {
        assert(ps.take(i + 1).drop_last() =~= ps.take(i as int));
        assert(ps.take(i + 1).last() == parts@[i as int]@);
        if i > 0 {
            append_str(&mut out, sep);
        } else {
            assert(ps.take(1) =~= seq![parts@[0]@]);
        }
        append_chars(&mut out, &parts[i]);
    }
    assert(ps.take(n as int) =~= ps);
    out
}

/// The characters of `a` followed by those of `b`.
pub fn concat_chars(a: &str, b: &str) -> (r: Vec<char>)
    ensures
        r@ == a@ + b@,
{
    let mut v = to_chars(a);
    append_str(&mut v, b);
    v
}

// ---------------------------------------------------------------------------
// Unix paths
// ---------------------------------------------------------------------------

/// Whether a piece between `/` separators is a component that names
/// something: not empty and not `.`.
pub open spec fn is_named_piece(p: Seq<char>) -> bool {
    p.len() > 0 && p != "."@
}

/// The last piece of `pieces` that names something, if any.
pub open spec fn last_named_piece(pieces: Seq<Seq<char>>) -> Option<Seq<char>>
    decreases pieces.len(),
{
    if pieces.len() == 0 {
        None
    } else if is_named_piece(pieces.last()) {
        Some(pieces.last())
    } else {
        last_named_piece(pieces.drop_last())
    }
}

/// The final component of a Unix path, as `Path::file_name` gives it: `None`
/// when the path has no component or ends in `..`.
pub open spec fn file_name(path: Seq<char>) -> Option<Seq<char>> {
    match last_named_piece(split_on(path, '/')) {
        Some(c) => if c == ".."@ {
            None
        } else {
            Some(c)
        },
        None => None,
    }
}

/// The final component of the Unix path `path`, if it has one.
pub fn file_name_of(path: &str) -> (r: Option<Vec<char>>)
    ensures
        match r {
            Some(v) => file_name(path@) == Some(v@),
            None => file_name(path@) is None,
        },
{
    let v = to_chars(path);
    let pieces = split_chars(&v, '/');
    let ghost ps = vec_views(pieces@);
    let n = pieces.len();
    let mut last: Option<usize> = None;
    assert(ps.take(0) =~= Seq::<Seq<char>>::empty());
    for i in 0..n
        invariant
            n == pieces.len(),
            ps == vec_views(pieces@),
            match last {
                Some(j) => j < i && last_named_piece(ps.take(i as int)) == Some(ps[j as int]),
                None => last_named_piece(ps.take(i as int)) is None,
            },
    {
        assert(ps.take(i + 1).drop_last() =~= ps.take(i as int));
        assert(ps.take(i + 1).last() == pieces@[i as int]@);
        let named = pieces[i].len() > 0 && !chars_equal_str(&pieces[i], ".");
        if named {
            last = Some(i);
        }
    }
    assert(ps.take(n as int) =~= ps);
    match last {
        Some(j) => {
            if chars_equal_str(&pieces[j], "..") {
                None
            } else {
                Some(slice_chars(&pieces[j], 0, pieces[j].len()))
            }
        },
        None => None,
    }
}

} // verus!
