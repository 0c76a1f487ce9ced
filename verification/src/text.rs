//! Character-level utilities shared by the lexer, the walker and the
//! renderers: whitespace trimming, searching, prefix tests, splitting, and
//! the XML character-entity decoding used when declaration text is
//! reconstructed from the document.

use vstd::prelude::*;

verus! {

broadcast use vstd::string::group_string_axioms;

/// The whitespace characters that incidental layout in the document uses.
pub open spec fn is_space_char(c: char) -> bool {
    c == ' ' || c == '\t' || c == '\n' || c == '\r'
}

/// Whether `c` is one of the whitespace characters trimming removes.
pub fn is_space(c: char) -> (r: bool)
    ensures
        r == is_space_char(c),
{
    c == ' ' || c == '\t' || c == '\n' || c == '\r'
}

/// The sequence with the leading whitespace removed.
pub open spec fn trim_front(s: Seq<char>) -> Seq<char>
    decreases s.len(),
{
    if s.len() == 0 {
        s
    } else if is_space_char(s[0]) {
        trim_front(s.drop_first())
    } else {
        s
    }
}

/// The sequence with the trailing whitespace removed.
pub open spec fn trim_back(s: Seq<char>) -> Seq<char>
    decreases s.len(),
{
    if s.len() == 0 {
        s
    } else if is_space_char(s.last()) {
        trim_back(s.drop_last())
    } else {
        s
    }
}

/// The sequence with whitespace removed from both ends.
pub open spec fn trimmed(s: Seq<char>) -> Seq<char> {
    trim_back(trim_front(s))
}

pub proof fn lemma_trim_front_len(s: Seq<char>)
    ensures
        trim_front(s).len() <= s.len(),
    decreases s.len(),
{
    if s.len() > 0 && is_space_char(s[0]) {
        lemma_trim_front_len(s.drop_first());
    }
}

/// A nonempty trimmed sequence starts with a non-whitespace character.
pub proof fn lemma_trim_front_head(s: Seq<char>)
    ensures
        trim_front(s).len() == 0 || !is_space_char(trim_front(s)[0]),
    decreases s.len(),
{
    if s.len() > 0 && is_space_char(s[0]) {
        lemma_trim_front_head(s.drop_first());
    }
}

/// `trim_front` keeps exactly the part after the leading run of whitespace.
pub proof fn lemma_trim_front_subrange(s: Seq<char>, k: int)
    requires
        0 <= k <= s.len(),
        forall|j: int| 0 <= j < k ==> is_space_char(s[j]),
        k == s.len() || !is_space_char(s[k]),
    ensures
        trim_front(s) == s.subrange(k, s.len() as int),
    decreases k,
{
    if k == 0 {
        assert(s.subrange(0, s.len() as int) =~= s);
    } else {
        let d = s.drop_first();
        lemma_trim_front_subrange(d, k - 1);
        assert(d.subrange(k - 1, d.len() as int) =~= s.subrange(k, s.len() as int));
    }
}

/// `trim_back` keeps exactly the part before the trailing run of whitespace.
pub proof fn lemma_trim_back_subrange(s: Seq<char>, k: int)
    requires
        0 <= k <= s.len(),
        forall|j: int| k <= j < s.len() ==> is_space_char(s[j]),
        k == 0 || !is_space_char(s[k - 1]),
    ensures
        trim_back(s) == s.subrange(0, k),
    decreases s.len() - k,
{
    if k == s.len() {
        assert(s.subrange(0, s.len() as int) =~= s);
    } else {
        let d = s.drop_last();
        lemma_trim_back_subrange(d, k);
        assert(d.subrange(0, k) =~= s.subrange(0, k));
    }
}

/// The characters of `s`, as a vector.
pub fn chars_of(s: &str) -> (v: Vec<char>)
    ensures
        v@ == s@,
{
    let n = s.unicode_len();
    let mut v: Vec<char> = Vec::new();
    let mut i: usize = 0;
    while i < n
        invariant
            i <= n,
            n == s@.len(),
            v@ == s@.subrange(0, i as int),
        decreases n - i,
    {
        let c = s.get_char(i);
        v.push(c);
        proof {
            assert(s@.subrange(0, i + 1 as int) =~= s@.subrange(0, i as int).push(s@[i as int]));
        }
        i += 1;
    }
    proof {
        assert(s@.subrange(0, n as int) =~= s@);
    }
    v
}

/// Relies on `String`'s `FromIterator` over `char`: collecting yields exactly
/// the characters of the iterator, in order.
#[verifier::external_body]
pub fn string_of(v: &Vec<char>) -> (s: String)
    ensures
        s@ == v@,
{
    v.iter().collect()
}

/// The vector with whitespace removed from both ends.
pub fn trim_chars(v: &Vec<char>) -> (r: Vec<char>)
    ensures
        r@ == trimmed(v@),
{
    let n = v.len();
    let mut start: usize = 0;
    while start < n && is_space(v[start])
        invariant
            start <= n,
            n == v@.len(),
            forall|j: int| 0 <= j < start ==> is_space_char(v@[j]),
        decreases n - start,
    {
        start += 1;
    }
    let mut end: usize = n;
    while end > start && is_space(v[end - 1])
        invariant
            start <= end <= n,
            n == v@.len(),
            forall|j: int| end <= j < n ==> is_space_char(v@[j]),
        decreases end,
    {
        end -= 1;
    }
    let mut r: Vec<char> = Vec::new();
    let mut i: usize = start;
    while i < end
        invariant
            start <= i <= end <= n,
            n == v@.len(),
            r@ == v@.subrange(start as int, i as int),
        decreases end - i,
    {
        let c = v[i];
        r.push(c);
        proof {
            assert(v@.subrange(start as int, i + 1 as int) =~= v@.subrange(
                start as int,
                i as int,
            ).push(v@[i as int]));
        }
        i += 1;
    }
    proof {
        lemma_trim_front_subrange(v@, start as int);
        let f = v@.subrange(start as int, n as int);
        lemma_trim_back_subrange(f, end - start);
        assert(f.subrange(0, end - start) =~= v@.subrange(start as int, end as int));
    }
    r
}

/// Trimming the front twice is the same as trimming it once.
pub proof fn lemma_trim_front_idempotent(s: Seq<char>)
    ensures
        trim_front(trim_front(s)) == trim_front(s),
{
    lemma_trim_front_head(s);
}

/// The first position at or after `i` whose character is not whitespace.
pub fn skip_spaces(w: &Vec<char>, i: usize) -> (j: usize)
    requires
        i <= w@.len(),
    ensures
        i <= j <= w@.len(),
        trim_front(w@.skip(i as int)) == w@.skip(j as int),
        j == w@.len() || !is_space_char(w@[j as int]),
    decreases w@.len() - i,
{
    let n = w.len();
    let mut j: usize = i;
    while j < n && is_space(w[j])
        invariant
            i <= j <= n,
            n == w@.len(),
            forall|x: int| i <= x < j ==> is_space_char(w@[x]),
        decreases n - j,
    {
        j += 1;
    }
    proof {
        let s = w@.skip(i as int);
        assert(forall|x: int| 0 <= x < s.len() ==> s[x] == w@[i + x]);
        lemma_trim_front_subrange(s, j - i);
        assert(s.subrange(j - i, s.len() as int) =~= w@.skip(j as int));
    }
    j
}

/// The first position at or after `i` holding `c`, as a position in `w`.
pub fn find_char_from(w: &Vec<char>, i: usize, c: char) -> (r: Option<usize>)
    requires
        i <= w@.len(),
    ensures
        match r {
            Some(j) => i <= j < w@.len() && find_char(w@.skip(i as int), c) == Some(j - i),
            None => find_char(w@.skip(i as int), c) is None,
        },
{
    let n = w.len();
    let mut j: usize = i;
    while j < n && w[j] != c
        invariant
            i <= j <= n,
            n == w@.len(),
            forall|x: int| i <= x < j ==> w@[x] != c,
        decreases n - j,
    {
        j += 1;
    }
    proof {
        let s = w@.skip(i as int);
        assert(forall|x: int| 0 <= x < s.len() ==> s[x] == w@[i + x]);
        lemma_find_char(s, c);
        if j < n {
            assert(s[j - i] == c);
            match find_char(s, c) {
                Some(k) => {
                    if k < j - i {
                        assert(s[k] == w@[i + k]);
                        assert(w@[i + k] != c);
                    }
                    if k > j - i {
                        assert(s[j - i] != c);
                    }
                },
                None => {
                    assert(s[j - i] != c);
                },
            }
        }
    }
    if j < n {
        Some(j)
    } else {
        None
    }
}

/// The characters of `w` from `i` (inclusive) to `j` (exclusive).
pub fn copy_range(w: &Vec<char>, i: usize, j: usize) -> (r: Vec<char>)
    requires
        i <= j <= w@.len(),
    ensures
        r@ == w@.subrange(i as int, j as int),
{
    let mut r: Vec<char> = Vec::new();
    let mut x: usize = i;
    while x < j
        invariant
            i <= x <= j <= w@.len(),
            r@ == w@.subrange(i as int, x as int),
        decreases j - x,
    {
        let c = w[x];
        r.push(c);
        proof {
            assert(w@.subrange(i as int, x + 1 as int) =~= w@.subrange(i as int, x as int).push(
                w@[x as int],
            ));
        }
        x += 1;
    }
    r
}

/// The position of the first occurrence of `c` in `s`, if any.
pub open spec fn find_char(s: Seq<char>, c: char) -> Option<int>
    decreases s.len(),
{
    if s.len() == 0 {
        None
    } else if s[0] == c {
        Some(0int)
    } else {
        match find_char(s.drop_first(), c) {
            Some(k) => Some(k + 1),
            None => None,
        }
    }
}

/// `find_char` returns the first position holding `c`, and `None` exactly
/// when `c` does not occur.
pub proof fn lemma_find_char(s: Seq<char>, c: char)
    ensures
        match find_char(s, c) {
            Some(k) => 0 <= k < s.len() && s[k] == c && forall|j: int| 0 <= j < k ==> s[j] != c,
            None => forall|j: int| 0 <= j < s.len() ==> s[j] != c,
        },
    decreases s.len(),
{
    if s.len() > 0 && s[0] != c {
        let d = s.drop_first();
        lemma_find_char(d, c);
        assert(forall|j: int| 0 <= j < d.len() ==> d[j] == s[j + 1]);
        match find_char(d, c) {
            Some(k) => {
                assert(forall|j: int| 1 <= j < k + 1 ==> s[j] == d[j - 1] && d[j - 1] != c);
            },
            None => {
                assert(forall|j: int| 1 <= j < s.len() ==> s[j] == d[j - 1] && d[j - 1] != c);
            },
        }
    }
}

/// Whether `p` is a prefix of `s`.
pub open spec fn has_prefix(s: Seq<char>, p: Seq<char>) -> bool {
    p.len() <= s.len() && p == s.subrange(0, p.len() as int)
}

/// Whether the two string slices hold the same characters.
pub fn str_eq(a: &str, b: &str) -> (r: bool)
    ensures
        r == (a@ == b@),
{
    let an = a.unicode_len();
    let bn = b.unicode_len();
    if an != bn {
        return false;
    }
    let mut i: usize = 0;
    while i < an
        invariant
            i <= an,
            an == a@.len(),
            an == b@.len(),
            forall|j: int| 0 <= j < i ==> a@[j] == b@[j],
        decreases an - i,
    {
        if a.get_char(i) != b.get_char(i) {
            return false;
        }
        i += 1;
    }
    proof {
        assert(a@ =~= b@);
    }
    true
}

/// Whether the character vector holds the same characters as `s`.
pub fn chars_eq_str(v: &Vec<char>, s: &str) -> (r: bool)
    ensures
        r == (v@ == s@),
{
    let n = s.unicode_len();
    if v.len() != n {
        return false;
    }
    let mut i: usize = 0;
    while i < n
        invariant
            i <= n,
            n == s@.len(),
            n == v@.len(),
            forall|j: int| 0 <= j < i ==> v@[j] == s@[j],
        decreases n - i,
    {
        if v[i] != s.get_char(i) {
            return false;
        }
        i += 1;
    }
    proof {
        assert(v@ =~= s@);
    }
    true
}

/// Whether the character vector starts with the characters of `p`.
pub fn chars_have_prefix(v: &Vec<char>, p: &str) -> (r: bool)
    ensures
        r == has_prefix(v@, p@),
{
    let n = p.unicode_len();
    if v.len() < n {
        return false;
    }
    let mut i: usize = 0;
    while i < n
        invariant
            i <= n,
            n == p@.len(),
            n <= v@.len(),
            forall|j: int| 0 <= j < i ==> v@[j] == p@[j],
        decreases n - i,
    {
        if v[i] != p.get_char(i) {
            proof {
                assert(v@.subrange(0, n as int)[i as int] != p@[i as int]);
            }
            return false;
        }
        i += 1;
    }
    proof {
        assert(p@ =~= v@.subrange(0, n as int));
    }
    true
}

/// The position of the first whitespace character in `s`, if any.
pub open spec fn find_space(s: Seq<char>) -> Option<int>
    decreases s.len(),
{
    if s.len() == 0 {
        None
    } else if is_space_char(s[0]) {
        Some(0int)
    } else {
        match find_space(s.drop_first()) {
            Some(k) => Some(k + 1),
            None => None,
        }
    }
}

/// `find_space` returns the first whitespace position, and `None` exactly
/// when no character is whitespace.
pub proof fn lemma_find_space(s: Seq<char>)
    ensures
        match find_space(s) {
            Some(k) => 0 <= k < s.len() && is_space_char(s[k]) && forall|j: int|
                0 <= j < k ==> !is_space_char(s[j]),
            None => forall|j: int| 0 <= j < s.len() ==> !is_space_char(s[j]),
        },
    decreases s.len(),
{
    if s.len() > 0 && !is_space_char(s[0]) {
        let d = s.drop_first();
        lemma_find_space(d);
        assert(forall|j: int| 0 <= j < d.len() ==> d[j] == s[j + 1]);
        match find_space(d) {
            Some(k) => {
                assert(forall|j: int|
                    1 <= j < k + 1 ==> s[j] == d[j - 1] && !is_space_char(d[j - 1]));
            },
            None => {
                assert(forall|j: int|
                    1 <= j < s.len() ==> s[j] == d[j - 1] && !is_space_char(d[j - 1]));
            },
        }
    }
}

/// The whitespace-separated words of `s`, in order, with no empty words.
pub open spec fn split_ws(s: Seq<char>) -> Seq<Seq<char>>
    decreases s.len(),
    via split_ws_dec
{
    let t = trim_front(s);
    if t.len() == 0 {
        seq![]
    } else {
        match find_space(t) {
            Some(k) => seq![t.subrange(0, k)] + split_ws(t.skip(k)),
            None => seq![t],
        }
    }
}

#[via_fn]
proof fn split_ws_dec(s: Seq<char>) {
    lemma_trim_front_len(s);
    lemma_trim_front_head(s);
    lemma_find_space(trim_front(s));
}

/// The pieces of `s` between occurrences of `c`, in order; one more piece
/// than there are occurrences, and pieces may be empty.
pub open spec fn split_at_char(s: Seq<char>, c: char) -> Seq<Seq<char>>
    decreases s.len(),
    via split_at_char_dec
{
    match find_char(s, c) {
        None => seq![s],
        Some(k) => seq![s.subrange(0, k)] + split_at_char(s.skip(k + 1), c),
    }
}

#[via_fn]
proof fn split_at_char_dec(s: Seq<char>, c: char) {
    lemma_find_char(s, c);
}

/// The result of reversing the XML character-entity escapes in `s`:
/// `&lt;` becomes `<`, `&gt;` becomes `>`, `&amp;` becomes `&`, everything
/// else is kept; `None` when a `&` is not followed by one of those escapes.
pub open spec fn decoded(s: Seq<char>) -> Option<Seq<char>>
    decreases s.len(),
    via decoded_dec
{
    if s.len() == 0 {
        Some(Seq::empty())
    } else if s[0] != '&' {
        match decoded(s.drop_first()) {
            Some(r) => Some(seq![s[0]] + r),
            None => None,
        }
    } else if has_prefix(s, "&lt;"@) {
        match decoded(s.skip(4)) {
            Some(r) => Some(seq!['<'] + r),
            None => None,
        }
    } else if has_prefix(s, "&gt;"@) {
        match decoded(s.skip(4)) {
            Some(r) => Some(seq!['>'] + r),
            None => None,
        }
    } else if has_prefix(s, "&amp;"@) {
        match decoded(s.skip(5)) {
            Some(r) => Some(seq!['&'] + r),
            None => None,
        }
    } else {
        None
    }
}

#[via_fn]
proof fn decoded_dec(s: Seq<char>) {
    reveal_strlit("&lt;");
    reveal_strlit("&gt;");
    reveal_strlit("&amp;");
}

/// The result of escaping `<`, `>` and `&` in `s` as XML character entities.
pub open spec fn encoded(s: Seq<char>) -> Seq<char>
    decreases s.len(),
{
    if s.len() == 0 {
        Seq::empty()
    } else {
        let head = if s[0] == '<' {
            "&lt;"@
        } else if s[0] == '>' {
            "&gt;"@
        } else if s[0] == '&' {
            "&amp;"@
        } else {
            seq![s[0]]
        };
        head + encoded(s.drop_first())
    }
}

/// Round trip: escaped text decodes back to exactly the original characters.
pub proof fn lemma_decode_encode(s: Seq<char>)
    ensures
        decoded(encoded(s)) == Some(s),
    decreases s.len(),
{
    reveal_strlit("&lt;");
    reveal_strlit("&gt;");
    reveal_strlit("&amp;");
    if s.len() == 0 {
        assert(encoded(s) =~= Seq::<char>::empty());
        assert(Seq::<char>::empty() =~= s);
    } else {
        let rest = s.drop_first();
        lemma_decode_encode(rest);
        let e = encoded(s);
        if s[0] == '<' {
            assert(e =~= "&lt;"@ + encoded(rest));
            assert(has_prefix(e, "&lt;"@)) by {
                assert("&lt;"@ =~= e.subrange(0, 4));
            };
            assert(e[0] == '&');
            assert(e.skip(4) =~= encoded(rest));
            assert(seq!['<'] + rest =~= s);
        } else if s[0] == '>' {
            assert(e =~= "&gt;"@ + encoded(rest));
            assert(e[0] == '&');
            assert(e[1] == 'g');
            assert(!has_prefix(e, "&lt;"@)) by {
                if has_prefix(e, "&lt;"@) {
                    assert(e.subrange(0, 4)[1] == 'l');
                }
            };
            assert(has_prefix(e, "&gt;"@)) by {
                assert("&gt;"@ =~= e.subrange(0, 4));
            };
            assert(e.skip(4) =~= encoded(rest));
            assert(seq!['>'] + rest =~= s);
        } else if s[0] == '&' {
            assert(e =~= "&amp;"@ + encoded(rest));
            assert(e[0] == '&');
            assert(e[1] == 'a');
            assert(!has_prefix(e, "&lt;"@)) by {
                if has_prefix(e, "&lt;"@) {
                    assert(e.subrange(0, 4)[1] == 'l');
                }
            };
            assert(!has_prefix(e, "&gt;"@)) by {
                if has_prefix(e, "&gt;"@) {
                    assert(e.subrange(0, 4)[1] == 'g');
                }
            };
            assert(has_prefix(e, "&amp;"@)) by {
                assert("&amp;"@ =~= e.subrange(0, 5));
            };
            assert(e.skip(5) =~= encoded(rest));
            assert(seq!['&'] + rest =~= s);
        } else {
            assert(e =~= seq![s[0]] + encoded(rest));
            assert(e[0] == s[0]);
            assert(e.drop_first() =~= encoded(rest));
            assert(seq![s[0]] + rest =~= s);
        }
    }
}

/// Reverses the XML character-entity escapes in `v`, or reports that a `&`
/// begins no known escape.
pub fn decode_chars(v: &Vec<char>) -> (r: Option<Vec<char>>)
    ensures
        match r {
            Some(out) => decoded(v@) == Some(out@),
            None => decoded(v@) is None,
        },
{
    let n = v.len();
    let mut out: Vec<char> = Vec::new();
    let mut i: usize = 0;
    proof {
        assert(v@.skip(0) =~= v@);
        match decoded(v@) {
            Some(r) => {
                assert(Seq::<char>::empty() + r =~= r);
            },
            None => {},
        }
    }
    loop
        invariant
            i <= n,
            n == v@.len(),
            decoded(v@) == (match decoded(v@.skip(i as int)) {
                Some(r) => Some(out@ + r),
                None => None::<Seq<char>>,
            }),
        decreases n - i,
    {
        proof {
            reveal_strlit("&lt;");
            reveal_strlit("&gt;");
            reveal_strlit("&amp;");
        }
        if i == n {
            proof {
                assert(v@.skip(n as int) =~= Seq::<char>::empty());
                assert(out@ + Seq::<char>::empty() =~= out@);
            }
            return Some(out);
        }
        let ghost s = v@.skip(i as int);
        proof {
            assert(s.len() == n - i);
            assert(forall|j: int| 0 <= j < s.len() ==> s[j] == v@[i + j]);
        }
        let c = v[i];
        if c != '&' {
            proof {
                assert(s[0] == c);
                assert(s.drop_first() =~= v@.skip(i + 1 as int));
                match decoded(v@.skip(i + 1 as int)) {
                    Some(r) => {
                        assert(out@.push(c) + r =~= out@ + (seq![c] + r));
                    },
                    None => {},
                }
            }
            out.push(c);
            i += 1;
        } else if n - i >= 4 && v[i + 1] == 'l' && v[i + 2] == 't' && v[i + 3] == ';' {
            proof {
                assert(has_prefix(s, "&lt;"@)) by {
                    assert("&lt;"@ =~= s.subrange(0, 4));
                };
                assert(s.skip(4) =~= v@.skip(i + 4 as int));
                match decoded(v@.skip(i + 4 as int)) {
                    Some(r) => {
                        assert(out@.push('<') + r =~= out@ + (seq!['<'] + r));
                    },
                    None => {},
                }
            }
            out.push('<');
            i += 4;
        } else if n - i >= 4 && v[i + 1] == 'g' && v[i + 2] == 't' && v[i + 3] == ';' {
            proof {
                assert(!has_prefix(s, "&lt;"@)) by {
                    if has_prefix(s, "&lt;"@) {
                        assert(s.subrange(0, 4)[1] == 'l');
                    }
                };
                assert(has_prefix(s, "&gt;"@)) by {
                    assert("&gt;"@ =~= s.subrange(0, 4));
                };
                assert(s.skip(4) =~= v@.skip(i + 4 as int));
                match decoded(v@.skip(i + 4 as int)) {
                    Some(r) => {
                        assert(out@.push('>') + r =~= out@ + (seq!['>'] + r));
                    },
                    None => {},
                }
            }
            out.push('>');
            i += 4;
        } else if n - i >= 5 && v[i + 1] == 'a' && v[i + 2] == 'm' && v[i + 3] == 'p' && v[i + 4]
            == ';' {
            proof {
                assert(!has_prefix(s, "&lt;"@)) by {
                    if has_prefix(s, "&lt;"@) {
                        assert(s.subrange(0, 4)[1] == 'l');
                    }
                };
                assert(!has_prefix(s, "&gt;"@)) by {
                    if has_prefix(s, "&gt;"@) {
                        assert(s.subrange(0, 4)[1] == 'g');
                    }
                };
                assert(has_prefix(s, "&amp;"@)) by {
                    assert("&amp;"@ =~= s.subrange(0, 5));
                };
                assert(s.skip(5) =~= v@.skip(i + 5 as int));
                match decoded(v@.skip(i + 5 as int)) {
                    Some(r) => {
                        assert(out@.push('&') + r =~= out@ + (seq!['&'] + r));
                    },
                    None => {},
                }
            }
            out.push('&');
            i += 5;
        } else {
            proof {
                assert(!has_prefix(s, "&lt;"@)) by {
                    if has_prefix(s, "&lt;"@) {
                        assert(s.subrange(0, 4)[1] == 'l');
                        assert(s.subrange(0, 4)[2] == 't');
                        assert(s.subrange(0, 4)[3] == ';');
                    }
                };
                assert(!has_prefix(s, "&gt;"@)) by {
                    if has_prefix(s, "&gt;"@) {
                        assert(s.subrange(0, 4)[1] == 'g');
                        assert(s.subrange(0, 4)[2] == 't');
                        assert(s.subrange(0, 4)[3] == ';');
                    }
                };
                assert(!has_prefix(s, "&amp;"@)) by {
                    if has_prefix(s, "&amp;"@) {
                        assert(s.subrange(0, 5)[1] == 'a');
                        assert(s.subrange(0, 5)[2] == 'm');
                        assert(s.subrange(0, 5)[3] == 'p');
                        assert(s.subrange(0, 5)[4] == ';');
                    }
                };
            }
            return None;
        }
    }
}

/// Appends the characters of `s` to `v`.
pub fn push_str_chars(v: &mut Vec<char>, s: &str)
    ensures
        final(v)@ == old(v)@ + s@,
{
    let n = s.unicode_len();
    let mut i: usize = 0;
    while i < n
        invariant
            i <= n,
            n == s@.len(),
            v@ == old(v)@ + s@.subrange(0, i as int),
        decreases n - i,
    {
        let c = s.get_char(i);
        v.push(c);
        proof {
            assert(old(v)@ + s@.subrange(0, i + 1 as int) =~= (old(v)@ + s@.subrange(
                0,
                i as int,
            )).push(s@[i as int]));
        }
        i += 1;
    }
    proof {
        assert(old(v)@ + s@.subrange(0, n as int) =~= old(v)@ + s@);
    }
}

/// Appends the characters of `w` to `v`.
pub fn push_chars(v: &mut Vec<char>, w: &Vec<char>)
    ensures
        final(v)@ == old(v)@ + w@,
{
    let n = w.len();
    let mut i: usize = 0;
    while i < n
        invariant
            i <= n,
            n == w@.len(),
            v@ == old(v)@ + w@.subrange(0, i as int),
        decreases n - i,
    {
        let c = w[i];
        v.push(c);
        proof {
            assert(old(v)@ + w@.subrange(0, i + 1 as int) =~= (old(v)@ + w@.subrange(
                0,
                i as int,
            )).push(w@[i as int]));
        }
        i += 1;
    }
    proof {
        assert(old(v)@ + w@.subrange(0, n as int) =~= old(v)@ + w@);
    }
}

/// The words of `v` separated by whitespace, with no empty words.
#[verifier::loop_isolation(false)]
pub fn split_ws_chars(v: &Vec<char>) -> (r: Vec<Vec<char>>)
    ensures
        r.deep_view() == split_ws(v@),
{
    let n = v.len();
    let mut out: Vec<Vec<char>> = Vec::new();
    let mut i: usize = 0;
    proof {
        assert(v@.skip(0) =~= v@);
        assert(out.deep_view() =~= Seq::<Seq<char>>::empty());
        assert(Seq::<Seq<char>>::empty() + split_ws(v@) =~= split_ws(v@));
    }
    loop
        invariant
            i <= n,
            split_ws(v@) == out.deep_view() + split_ws(v@.skip(i as int)),
        decreases n - i,
    {
        let j = skip_spaces(v, i);
        if j == n {
            proof {
                assert(v@.skip(n as int) =~= Seq::<char>::empty());
                assert(split_ws(v@.skip(i as int)) =~= Seq::<Seq<char>>::empty());
                assert(out.deep_view() + Seq::<Seq<char>>::empty() =~= out.deep_view());
            }
            return out;
        }
        let mut k: usize = j;
        while k < n && !is_space(v[k])
            invariant
                j <= k <= n,
                forall|x: int| j <= x < k ==> !is_space_char(v@[x]),
            decreases n - k,
        {
            k += 1;
        }
        let w = copy_range(v, j, k);
        let ghost prev = out.deep_view();
        let ghost t = v@.skip(j as int);
        proof {
            assert(forall|x: int| 0 <= x < t.len() ==> t[x] == v@[j + x]);
            lemma_find_space(t);
            if k < n {
                assert(is_space_char(t[k - j]));
                match find_space(t) {
                    Some(m) => {
                        if m < k - j {
                            assert(t[m] == v@[j + m]);
                            assert(!is_space_char(v@[j + m]));
                        }
                        if m > k - j {
                            assert(!is_space_char(t[k - j]));
                        }
                    },
                    None => {
                        assert(!is_space_char(t[k - j]));
                    },
                }
                assert(t.subrange(0, k - j) =~= v@.subrange(j as int, k as int));
                assert(t.skip(k - j) =~= v@.skip(k as int));
            } else {
                match find_space(t) {
                    Some(m) => {
                        assert(t[m] == v@[j + m]);
                        assert(!is_space_char(v@[j + m]));
                    },
                    None => {},
                }
                assert(t =~= v@.subrange(j as int, n as int));
                assert(w@ =~= t);
                assert(v@.skip(n as int) =~= Seq::<char>::empty());
                assert(split_ws(v@.skip(n as int)) =~= Seq::<Seq<char>>::empty());
                assert(seq![t] + Seq::<Seq<char>>::empty() =~= seq![t]);
            }
        }
        out.push(w);
        proof {
            assert(out.deep_view() =~~= prev.push(w@));
            assert(split_ws(v@.skip(i as int)) =~= seq![w@] + split_ws(v@.skip(k as int)));
            assert(prev + (seq![w@] + split_ws(v@.skip(k as int))) =~= prev.push(w@) + split_ws(
                v@.skip(k as int),
            ));
        }
        i = k;
    }
}

/// The pieces of `s` between commas, in order, as strings.
#[verifier::loop_isolation(false)]
pub fn split_commas(s: &str) -> (r: Vec<String>)
    ensures
        r.deep_view() == split_at_char(s@, ','),
{
    let w = chars_of(s);
    let n = w.len();
    let mut out: Vec<String> = Vec::new();
    let mut i: usize = 0;
    proof {
        assert(w@.skip(0) =~= w@);
        assert(out.deep_view() =~= Seq::<Seq<char>>::empty());
        assert(Seq::<Seq<char>>::empty() + split_at_char(w@, ',') =~= split_at_char(w@, ','));
    }
    loop
        invariant
            i <= n,
            split_at_char(s@, ',') == out.deep_view() + split_at_char(w@.skip(i as int), ','),
        decreases n - i,
    {
        let ghost t = w@.skip(i as int);
        let ghost prev = out.deep_view();
        match find_char_from(&w, i, ',') {
            Some(k) => {
                let piece = string_of(&copy_range(&w, i, k));
                out.push(piece);
                proof {
                    assert(t.subrange(0, k - i) =~= w@.subrange(i as int, k as int));
                    assert(t.skip(k - i + 1) =~= w@.skip(k + 1 as int));
                    assert(out.deep_view() =~= prev.push(w@.subrange(i as int, k as int)));
                    assert(prev + (seq![t.subrange(0, k - i)] + split_at_char(
                        w@.skip(k + 1 as int),
                        ',',
                    )) =~= out.deep_view() + split_at_char(w@.skip(k + 1 as int), ','));
                }
                i = k + 1;
            },
            None => {
                let piece = string_of(&copy_range(&w, i, n));
                out.push(piece);
                proof {
                    assert(t =~= w@.subrange(i as int, n as int));
                    assert(out.deep_view() =~= prev.push(t));
                    assert(prev + seq![t] =~= out.deep_view());
                }
                return out;
            },
        }
    }
}

/// The pieces joined in order with a comma and a space between them.
pub open spec fn join_comma_space(parts: Seq<Seq<char>>) -> Seq<char>
    decreases parts.len(),
{
    if parts.len() == 0 {
        Seq::empty()
    } else if parts.len() == 1 {
        parts[0]
    } else {
        parts[0] + ", "@ + join_comma_space(parts.drop_first())
    }
}

/// Joining one more piece appends a separator and the piece.
pub proof fn lemma_join_push(parts: Seq<Seq<char>>, x: Seq<char>)
    requires
        parts.len() >= 1,
    ensures
        join_comma_space(parts.push(x)) == join_comma_space(parts) + ", "@ + x,
    decreases parts.len(),
{
    if parts.len() == 1 {
        let p = parts.push(x);
        assert(p.len() == 2);
        assert(p.drop_first() =~= seq![x]);
        assert(join_comma_space(p) == p[0] + ", "@ + join_comma_space(p.drop_first()));
    } else {
        let p = parts.push(x);
        assert(p.drop_first() =~= parts.drop_first().push(x));
        lemma_join_push(parts.drop_first(), x);
        assert(p[0] + ", "@ + (join_comma_space(parts.drop_first()) + ", "@ + x) =~= (parts[0]
            + ", "@ + join_comma_space(parts.drop_first())) + ", "@ + x);
    }
}

} // verus!
