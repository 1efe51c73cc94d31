//! Text helpers on `str`: Unicode white space, trimming, substring search,
//! lower-casing and the ordering of strings.

use vstd::prelude::*;

verus! {

/// The characters with the Unicode `White_Space` property
/// (the set that `char::is_whitespace` accepts).
pub open spec fn is_white_space(c: char) -> bool {
    let u = c as u32;
    ||| 0x09 <= u <= 0x0D
    ||| u == 0x20
    ||| u == 0x85
    ||| u == 0xA0
    ||| u == 0x1680
    ||| 0x2000 <= u <= 0x200A
    ||| u == 0x2028
    ||| u == 0x2029
    ||| u == 0x202F
    ||| u == 0x205F
    ||| u == 0x3000
}

/// `s` without its leading white space.
pub open spec fn trim_start_chars(s: Seq<char>) -> Seq<char>
    decreases s.len(),
{
    if s.len() > 0 && is_white_space(s[0]) {
        trim_start_chars(s.drop_first())
    } else {
        s
    }
}

/// `s` without its trailing white space.
pub open spec fn trim_end_chars(s: Seq<char>) -> Seq<char>
    decreases s.len(),
{
    if s.len() > 0 && is_white_space(s.last()) {
        trim_end_chars(s.drop_last())
    } else {
        s
    }
}

/// `s` without leading and trailing white space, as `str::trim` gives it.
pub open spec fn trimmed(s: Seq<char>) -> Seq<char> {
    trim_end_chars(trim_start_chars(s))
}

proof fn lemma_trim_start_clean(s: Seq<char>)
    ensures
        trim_start_chars(s).len() == 0 || !is_white_space(trim_start_chars(s)[0]),
    decreases s.len(),
{
    if s.len() > 0 && is_white_space(s[0]) {
        lemma_trim_start_clean(s.drop_first());
    }
}

proof fn lemma_trim_end_prefix(s: Seq<char>)
    ensures
        trim_end_chars(s).len() <= s.len(),
        trim_end_chars(s) == s.take(trim_end_chars(s).len() as int),
        trim_end_chars(s).len() == 0 || !is_white_space(trim_end_chars(s).last()),
    decreases s.len(),
{
    if s.len() > 0 && is_white_space(s.last()) {
        lemma_trim_end_prefix(s.drop_last());
        assert(s.drop_last().take(trim_end_chars(s).len() as int) =~= s.take(
            trim_end_chars(s).len() as int,
        ));
    } else {
        assert(s.take(s.len() as int) =~= s);
    }
}

/// Trimming a trimmed text changes nothing.
pub proof fn law_trim_is_idempotent(s: Seq<char>)
    ensures
        trimmed(trimmed(s)) == trimmed(s),
{
    let t = trim_start_chars(s);
    let y = trim_end_chars(t);
    lemma_trim_start_clean(s);
    lemma_trim_end_prefix(t);
    if y.len() > 0 {
        assert(y[0] == t[0]);
    }
    assert(trim_start_chars(y) == y);
    lemma_trim_end_prefix(y);
}

proof fn lemma_trim_start_at(s: Seq<char>) -> (i: int)
    ensures
        0 <= i <= s.len(),
        trim_start_chars(s) == s.subrange(i, s.len() as int),
        forall|k: int| 0 <= k < i ==> is_white_space(#[trigger] s[k]),
        i < s.len() ==> !is_white_space(s[i]),
    decreases s.len(),
{
    if s.len() > 0 && is_white_space(s[0]) {
        let d = s.drop_first();
        let i1 = lemma_trim_start_at(d);
        assert(d.subrange(i1, d.len() as int) =~= s.subrange(i1 + 1, s.len() as int));
        assert forall|k: int| 0 <= k < i1 + 1 implies is_white_space(#[trigger] s[k]) by {
            if k > 0 {
                assert(s[k] == d[k - 1]);
            }
        }
        i1 + 1
    } else {
        assert(s.subrange(0, s.len() as int) =~= s);
        0
    }
}

proof fn lemma_trim_end_at(s: Seq<char>) -> (j: int)
    ensures
        0 <= j <= s.len(),
        trim_end_chars(s) == s.subrange(0, j),
        forall|k: int| j <= k < s.len() ==> is_white_space(#[trigger] s[k]),
        j > 0 ==> !is_white_space(s[j - 1]),
    decreases s.len(),
{
    if s.len() > 0 && is_white_space(s.last()) {
        let d = s.drop_last();
        let j1 = lemma_trim_end_at(d);
        assert(d.subrange(0, j1) =~= s.subrange(0, j1));
        assert forall|k: int| j1 <= k < s.len() implies is_white_space(#[trigger] s[k]) by {
            if k < s.len() - 1 {
                assert(s[k] == d[k]);
            }
        }
        j1
    } else {
        assert(s.subrange(0, s.len() as int) =~= s);
        s.len() as int
    }
}

/// Trimming removes white space from both ends and nothing else: the result is the run
/// of `s` from its first to its last character that is not white space (empty when
/// every character is white space).
pub proof fn law_trim_removes_only_outer_white_space(s: Seq<char>)
    ensures
        exists|i: int, j: int|
            {
                &&& 0 <= i <= j <= s.len()
                &&& trimmed(s) == s.subrange(i, j)
                &&& forall|k: int| 0 <= k < i ==> is_white_space(#[trigger] s[k])
                &&& forall|k: int| j <= k < s.len() ==> is_white_space(#[trigger] s[k])
                &&& i < j ==> !is_white_space(s[i]) && !is_white_space(s[j - 1])
            },
{
    let i = lemma_trim_start_at(s);
    let t = s.subrange(i, s.len() as int);
    let j1 = lemma_trim_end_at(t);
    let j = i + j1;
    assert(t.subrange(0, j1) =~= s.subrange(i, j));
    assert forall|k: int| j <= k < s.len() implies is_white_space(#[trigger] s[k]) by {
        assert(s[k] == t[k - i]);
    }
    if i < j {
        assert(s[i] == t[0]);
        assert(s[j - 1] == t[j1 - 1]);
    }
}

/// A text trims to nothing exactly when all its characters are white space.
pub proof fn law_trimmed_empty_iff_all_white_space(s: Seq<char>)
    ensures
        trimmed(s).len() == 0 <==> forall|k: int| 0 <= k < s.len() ==> is_white_space(
            #[trigger] s[k],
        ),
{
    law_trim_removes_only_outer_white_space(s);
    let (i, j) = choose|i: int, j: int|
        {
            &&& 0 <= i <= j <= s.len()
            &&& trimmed(s) == s.subrange(i, j)
            &&& forall|k: int| 0 <= k < i ==> is_white_space(#[trigger] s[k])
            &&& forall|k: int| j <= k < s.len() ==> is_white_space(#[trigger] s[k])
            &&& i < j ==> !is_white_space(s[i]) && !is_white_space(s[j - 1])
        };
    if trimmed(s).len() == 0 {
        assert forall|k: int| 0 <= k < s.len() implies is_white_space(#[trigger] s[k]) by {
            if k < i {
            } else {
                assert(j <= k);
            }
        }
    }
}

/// Whether `c` is Unicode white space.
pub fn is_whitespace(c: char) -> (r: bool)
    ensures
        r == is_white_space(c),
{
    let u = c as u32;
    (0x09 <= u && u <= 0x0D) || u == 0x20 || u == 0x85 || u == 0xA0 || u == 0x1680 || (0x2000
        <= u && u <= 0x200A) || u == 0x2028 || u == 0x2029 || u == 0x202F || u == 0x205F || u
        == 0x3000
}

/// `s` with leading and trailing white space removed.
pub fn trim(s: &str) -> (r: &str)
    ensures
        r@ == trimmed(s@),
{
    let n = s.unicode_len();
    let mut i: usize = 0;
    assert(s@.subrange(0, n as int) =~= s@);
    loop
        invariant
            n == s@.len(),
            i <= n,
            trim_start_chars(s@) == trim_start_chars(s@.subrange(i as int, n as int)),
        ensures
            i <= n,
            i == n || !is_white_space(s@[i as int]),
            trim_start_chars(s@) == trim_start_chars(s@.subrange(i as int, n as int)),
        decreases n - i,
    {
        if i == n {
            break;
        }
        let c = s.get_char(i);
        if !is_whitespace(c) {
            break;
        }
        assert(s@.subrange(i as int, n as int).drop_first() =~= s@.subrange(i + 1, n as int));
        i = i + 1;
    }
    assert(trim_start_chars(s@) == s@.subrange(i as int, n as int));
    let mut j: usize = n;
    loop
        invariant
            n == s@.len(),
            i <= j <= n,
            trim_start_chars(s@) == s@.subrange(i as int, n as int),
            trim_end_chars(s@.subrange(i as int, n as int)) == trim_end_chars(
                s@.subrange(i as int, j as int),
            ),
        ensures
            i <= j <= n,
            j == i || !is_white_space(s@[j - 1]),
            trim_end_chars(s@.subrange(i as int, n as int)) == trim_end_chars(
                s@.subrange(i as int, j as int),
            ),
        decreases j - i,
    {
        if j == i {
            break;
        }
        let c = s.get_char(j - 1);
        if !is_whitespace(c) {
            break;
        }
        assert(s@.subrange(i as int, j as int).drop_last() =~= s@.subrange(i as int, j - 1));
        j = j - 1;
    }
    assert(trim_end_chars(s@.subrange(i as int, j as int)) == s@.subrange(i as int, j as int));
    s.substring_char(i, j)
}


/// Whether `needle` occurs in `hay` as a run of consecutive characters.
pub open spec fn has_infix(hay: Seq<char>, needle: Seq<char>) -> bool {
    exists|i: int|
        0 <= i <= hay.len() - needle.len() && #[trigger] hay.subrange(i, i + needle.len())
            == needle
}

/// The characters of `s`, one by one.
pub fn chars_of(s: &str) -> (r: Vec<char>)
    ensures
        r@ == s@,
{
    let n = s.unicode_len();
    let mut v: Vec<char> = Vec::new();
    for i in 0..n
        invariant
            n == s@.len(),
            v@ == s@.subrange(0, i as int),
    {
        v.push(s.get_char(i));
        assert(v@ =~= s@.subrange(0, i + 1));
    }
    assert(v@ =~= s@);
    v
}

/// Whether `needle` occurs in `hay`, as `str::contains` with a string pattern
/// answers it (a byte match of UTF-8 text is a match of whole characters).
pub fn contains(hay: &str, needle: &str) -> (r: bool)
    ensures
        r == has_infix(hay@, needle@),
{
    let h = chars_of(hay);
    let m = chars_of(needle);
    if m.len() > h.len() {
        return false;
    }
    let last = h.len() - m.len();
    let mut i: usize = 0;
    while i <= last
        invariant
            h@ == hay@,
            m@ == needle@,
            m.len() <= h.len(),
            last == h.len() - m.len(),
            i <= last + 1,
            forall|k: int| 0 <= k < i ==> #[trigger] hay@.subrange(k, k + m.len()) != needle@,
        decreases last + 1 - i,
    {
        let mut j: usize = 0;
        let mut same = true;
        while j < m.len()
            invariant
                h@ == hay@,
                m@ == needle@,
                i <= last,
                last == h.len() - m.len(),
                j <= m.len(),
                same ==> forall|t: int| 0 <= t < j ==> h@[i + t] == m@[t],
                !same ==> hay@.subrange(i as int, i + m.len()) != needle@,
            decreases m.len() - j,
        {
            if h[i + j] != m[j] {
                same = false;
                assert(hay@.subrange(i as int, i + m.len())[j as int] != needle@[j as int]);
            }
            j = j + 1;
        }
        if same {
            assert(hay@.subrange(i as int, i + m.len()) =~= needle@);
            return true;
        }
        if i == last {
            return false;
        }
        i = i + 1;
    }
    false
}

/// What `str::to_lowercase` returns for a text: its Unicode lower-case mapping.
pub uninterp spec fn lowercase_of(s: Seq<char>) -> Seq<char>;

/// Calls `str::to_lowercase`. Claimed: the result is a function of the text's
/// characters alone (named `lowercase_of`), and the empty text stays empty; which
/// mapping Unicode gives each character is left to the standard library and not
/// stated here.
#[verifier::external_body]
pub(crate) fn to_lowercase(s: &str) -> (r: String)
    ensures
        r@ == lowercase_of(s@),
        s@.len() == 0 ==> r@.len() == 0,
{
    s.to_lowercase()
}


/// Lexicographic order of texts by code point. For UTF-8 text it is the byte
/// order that `str`'s `<` and `cmp` use.
pub open spec fn chars_less(a: Seq<char>, b: Seq<char>) -> bool
    decreases a.len(),
{
    if a.len() == 0 {
        b.len() > 0
    } else if b.len() == 0 {
        false
    } else if a[0] != b[0] {
        (a[0] as u32) < (b[0] as u32)
    } else {
        chars_less(a.drop_first(), b.drop_first())
    }
}

/// No text is before itself, and of two texts at most one is before the other.
pub proof fn lemma_chars_less_asymmetric(a: Seq<char>, b: Seq<char>)
    ensures
        chars_less(a, b) ==> !chars_less(b, a),
        !chars_less(a, a),
    decreases a.len(),
{
    if a.len() > 0 && b.len() > 0 {
        if a[0] == b[0] {
            lemma_chars_less_asymmetric(a.drop_first(), b.drop_first());
        }
    }
    if a.len() > 0 {
        lemma_chars_less_asymmetric(a.drop_first(), a.drop_first());
    }
}

/// The order of texts is transitive.
pub proof fn lemma_chars_less_transitive(a: Seq<char>, b: Seq<char>, c: Seq<char>)
    requires
        chars_less(a, b),
        chars_less(b, c),
    ensures
        chars_less(a, c),
    decreases a.len(),
{
    if a.len() > 0 && b.len() > 0 && c.len() > 0 {
        if a[0] == b[0] && b[0] == c[0] {
            lemma_chars_less_transitive(a.drop_first(), b.drop_first(), c.drop_first());
        }
    }
}

/// Of two different texts, one is before the other.
pub proof fn lemma_chars_less_total(a: Seq<char>, b: Seq<char>)
    requires
        a != b,
    ensures
        chars_less(a, b) || chars_less(b, a),
    decreases a.len(),
{
    if a.len() > 0 && b.len() > 0 {
        if a[0] == b[0] {
            if a.drop_first() == b.drop_first() {
                assert(a =~= seq![a[0]] + a.drop_first());
                assert(b =~= seq![b[0]] + b.drop_first());
            }
            lemma_chars_less_total(a.drop_first(), b.drop_first());
        } else if (a[0] as u32) == (b[0] as u32) {
            vstd::utf8::char_u32_cast(a[0], a[0] as u32);
            vstd::utf8::char_u32_cast(b[0], b[0] as u32);
        }
    } else if a.len() == 0 && b.len() == 0 {
        assert(a =~= b);
    }
}

/// Whether `a` comes before `b` in the order of `str`'s `<`.
pub fn less(a: &str, b: &str) -> (r: bool)
    ensures
        r == chars_less(a@, b@),
{
    let x = chars_of(a);
    let y = chars_of(b);
    let mut k: usize = 0;
    assert(a@.skip(0) =~= a@);
    assert(b@.skip(0) =~= b@);
    loop
        invariant
            x@ == a@,
            y@ == b@,
            k <= x.len(),
            k <= y.len(),
            chars_less(a@, b@) == chars_less(a@.skip(k as int), b@.skip(k as int)),
        decreases x.len() - k,
    {
        if k == x.len() {
            return k < y.len();
        }
        if k == y.len() {
            return false;
        }
        let cx = x[k];
        let cy = y[k];
        if cx != cy {
            return (cx as u32) < (cy as u32);
        }
        assert(a@.skip(k as int).drop_first() =~= a@.skip(k + 1));
        assert(b@.skip(k as int).drop_first() =~= b@.skip(k + 1));
        k = k + 1;
    }
}


/// A text occurs in another exactly when the other is made of some text, then it, then
/// some text.
pub proof fn law_infix_is_a_middle_part(hay: Seq<char>, needle: Seq<char>)
    ensures
        has_infix(hay, needle) <==> exists|a: Seq<char>, b: Seq<char>| hay == a + needle + b,
{
    if has_infix(hay, needle) {
        let i = choose|i: int|
            0 <= i <= hay.len() - needle.len() && #[trigger] hay.subrange(i, i + needle.len())
                == needle;
        let a = hay.subrange(0, i);
        let b = hay.subrange(i + needle.len(), hay.len() as int);
        assert(hay =~= a + needle + b);
    }
    if exists|a: Seq<char>, b: Seq<char>| hay == a + needle + b {
        let (a, b) = choose|a: Seq<char>, b: Seq<char>| hay == a + needle + b;
        assert(hay.subrange(a.len() as int, (a.len() + needle.len()) as int) =~= needle);
    }
}

/// A text comes before every longer text that starts with it, and two texts that first
/// differ at some place are ordered by the characters there.
pub proof fn law_text_order_is_dictionary_order(a: Seq<char>, b: Seq<char>, k: int)
    requires
        0 <= k <= a.len(),
        k <= b.len(),
        a.subrange(0, k) == b.subrange(0, k),
    ensures
        k == a.len() && k < b.len() ==> chars_less(a, b),
        k < a.len() && k < b.len() && a[k] != b[k] ==> (chars_less(a, b) <==> (a[k] as u32) < (
        b[k] as u32)),
    decreases k,
{
    if k > 0 {
        assert(a.drop_first().subrange(0, k - 1) =~= a.subrange(0, k).drop_first());
        assert(b.drop_first().subrange(0, k - 1) =~= b.subrange(0, k).drop_first());
        assert(a[0] == a.subrange(0, k)[0]);
        assert(b[0] == b.subrange(0, k)[0]);
        law_text_order_is_dictionary_order(a.drop_first(), b.drop_first(), k - 1);
    }
}

} // verus!
