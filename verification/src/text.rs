//! Character-level text handling: whitespace trimming and string comparison.

use vstd::prelude::*;

verus! {

/// The Unicode `White_Space` property, which is what `char::is_whitespace`
/// and `str::trim` go by.
pub open spec fn is_white_space(c: char) -> bool {
    let u = c as u32;
    ||| 0x09 <= u <= 0x0d
    ||| u == 0x20
    ||| u == 0x85
    ||| u == 0xa0
    ||| u == 0x1680
    ||| 0x2000 <= u <= 0x200a
    ||| u == 0x2028
    ||| u == 0x2029
    ||| u == 0x202f
    ||| u == 0x205f
    ||| u == 0x3000
}

/// Tells whether `c` is white space in the sense of `is_white_space`.
pub fn white_space(c: char) -> (r: bool)
    ensures
        r == is_white_space(c),
{
    let u = c as u32;
    (0x09 <= u && u <= 0x0d) || u == 0x20 || u == 0x85 || u == 0xa0 || u == 0x1680 || (0x2000
        <= u && u <= 0x200a) || u == 0x2028 || u == 0x2029 || u == 0x202f || u == 0x205f || u
        == 0x3000
}

/// `s` without its leading white space.
pub open spec fn trim_start(s: Seq<char>) -> Seq<char>
    decreases s.len(),
{
    if s.len() > 0 && is_white_space(s[0]) {
        trim_start(s.drop_first())
    } else {
        s
    }
}

/// `s` without its trailing white space.
pub open spec fn trim_end(s: Seq<char>) -> Seq<char>
    decreases s.len(),
{
    if s.len() > 0 && is_white_space(s.last()) {
        trim_end(s.drop_last())
    } else {
        s
    }
}

/// `s` without leading and trailing white space, as `str::trim` gives it.
pub open spec fn trimmed(s: Seq<char>) -> Seq<char> {
    trim_end(trim_start(s))
}

proof fn lemma_trim_start_shape(s: Seq<char>)
    ensures
        trim_start(s).len() == 0 || !is_white_space(trim_start(s)[0]),
    decreases s.len(),
{
    if s.len() > 0 && is_white_space(s[0]) {
        lemma_trim_start_shape(s.drop_first());
    }
}

proof fn lemma_trim_end_shape(s: Seq<char>)
    ensures
        trim_end(s).len() <= s.len(),
        trim_end(s) == s.take(trim_end(s).len() as int),
        trim_end(s).len() == 0 || !is_white_space(trim_end(s).last()),
    decreases s.len(),
{
    if s.len() > 0 && is_white_space(s.last()) {
        lemma_trim_end_shape(s.drop_last());
        assert(s.drop_last().take(trim_end(s).len() as int) =~= s.take(trim_end(s).len() as int));
    } else {
        assert(s.take(s.len() as int) =~= s);
    }
}

/// Trimming the start drops leading white space, up to the first other
/// character.
proof fn lemma_trim_start_drops(s: Seq<char>) -> (i: int)
    ensures
        0 <= i <= s.len(),
        trim_start(s) == s.skip(i),
        forall|k: int| 0 <= k < i ==> is_white_space(#[trigger] s[k]),
        i < s.len() ==> !is_white_space(s[i]),
    decreases s.len(),
{
    if s.len() > 0 && is_white_space(s[0]) {
        let i1 = lemma_trim_start_drops(s.drop_first());
        assert(s.drop_first().skip(i1) =~= s.skip(i1 + 1));
        assert forall|k: int| 0 <= k < i1 + 1 implies is_white_space(#[trigger] s[k]) by {
            if k > 0 {
                assert(s[k] == s.drop_first()[k - 1]);
            }
        }
        if i1 + 1 < s.len() {
            assert(s[i1 + 1] == s.drop_first()[i1]);
        }
        i1 + 1
    } else {
        assert(s.skip(0) =~= s);
        0
    }
}

/// Trimming the end drops trailing white space, back to the last other
/// character.
proof fn lemma_trim_end_drops(s: Seq<char>) -> (j: int)
    ensures
        0 <= j <= s.len(),
        trim_end(s) == s.take(j),
        forall|k: int| j <= k < s.len() ==> is_white_space(#[trigger] s[k]),
        j > 0 ==> !is_white_space(s[j - 1]),
    decreases s.len(),
{
    if s.len() > 0 && is_white_space(s.last()) {
        let j1 = lemma_trim_end_drops(s.drop_last());
        assert(s.drop_last().take(j1) =~= s.take(j1));
        assert forall|k: int| j1 <= k < s.len() implies is_white_space(#[trigger] s[k]) by {
            if k < s.len() - 1 {
                assert(s[k] == s.drop_last()[k]);
            }
        }
        if j1 > 0 {
            assert(s[j1 - 1] == s.drop_last()[j1 - 1]);
        }
        j1
    } else {
        assert(s.take(s.len() as int) =~= s);
        s.len() as int
    }
}

/// `t` is `s` between `i` and `j`, with only white space outside and no
/// white space at either end of `t`.
pub open spec fn trimmed_between(s: Seq<char>, i: int, j: int, t: Seq<char>) -> bool {
    &&& 0 <= i <= j <= s.len()
    &&& t == s.subrange(i, j)
    &&& forall|k: int| 0 <= k < i ==> is_white_space(#[trigger] s[k])
    &&& forall|k: int| j <= k < s.len() ==> is_white_space(#[trigger] s[k])
    &&& i < j ==> !is_white_space(s[i]) && !is_white_space(s[j - 1])
}

/// Trimming keeps the part of the text between its leading and its trailing
/// white space: what is left starts and ends with other characters, and
/// everything cut off is white space.
pub proof fn lemma_trimmed_cuts_outer_white_space(s: Seq<char>)
    ensures
        exists|i: int, j: int| #[trigger] trimmed_between(s, i, j, trimmed(s)),
{
    let i = lemma_trim_start_drops(s);
    let u = s.skip(i);
    let j = lemma_trim_end_drops(u);
    assert(trimmed(s) == u.take(j));
    assert(u.take(j) =~= s.subrange(i, i + j));
    assert forall|k: int| i + j <= k < s.len() implies is_white_space(#[trigger] s[k]) by {
        assert(s[k] == u[k - i]);
    }
    if j > 0 {
        assert(u[0] == s[i]);
        assert(!is_white_space(s[i]));
        assert(s[i + j - 1] == u[j - 1]);
    }
    assert(trimmed_between(s, i, i + j, trimmed(s)));
}

/// Trimming what is already trimmed changes nothing.
pub proof fn lemma_trimmed_idempotent(s: Seq<char>)
    ensures
        trimmed(trimmed(s)) == trimmed(s),
{
    let u = trim_start(s);
    let t = trim_end(u);
    lemma_trim_start_shape(s);
    lemma_trim_end_shape(u);
    if t.len() > 0 {
        assert(t[0] == u.take(t.len() as int)[0]);
    }
    assert(trim_start(t) == t);
    assert(trim_end(t) == t);
}

/// The characters of `s`, in order.
pub fn chars_of(s: &str) -> (v: Vec<char>)
    ensures
        v@ == s@,
{
    broadcast use vstd::string::group_string_axioms;

    let mut v: Vec<char> = Vec::new();
    for c in it: s.chars()
        invariant
            it.seq() == s@,
            v@ == it.seq().take(it.index()),
    {
        v.push(c);
        assert(v@ =~= it.seq().take(it.index() + 1));
    }
    assert(v@ =~= s@);
    v
}

/// Returns `s` with leading and trailing white space removed.
pub fn trim(s: &str) -> (r: String)
    ensures
        r@ == trimmed(s@),
{
    let cs = chars_of(s);
    let n = cs.len();
    let mut i: usize = 0;
    assert(s@.subrange(0, n as int) =~= s@);
    while i < n && white_space(cs[i])
        invariant
            i <= n,
            n == s@.len(),
            cs@ == s@,
            trim_start(s@) == trim_start(s@.subrange(i as int, n as int)),
        decreases n - i,
    {
        assert(s@.subrange(i as int, n as int).drop_first() =~= s@.subrange(i + 1, n as int));
        i = i + 1;
    }
    assert(trim_start(s@) == s@.subrange(i as int, n as int));
    let mut j: usize = n;
    while j > i && white_space(cs[j - 1])
        invariant
            i <= j <= n,
            n == s@.len(),
            cs@ == s@,
            trimmed(s@) == trim_end(s@.subrange(i as int, j as int)),
        decreases j,
    {
        assert(s@.subrange(i as int, j as int).drop_last() =~= s@.subrange(i as int, j - 1));
        j = j - 1;
    }
    s.substring_char(i, j).to_owned()
}

/// Tells whether `a` and `b` hold the same characters.
pub fn same_text(a: &str, b: &str) -> (r: bool)
    ensures
        r == (a@ == b@),
{
    let ca = chars_of(a);
    let cb = chars_of(b);
    if ca.len() != cb.len() {
        return false;
    }
    let mut i: usize = 0;
    while i < ca.len()
        invariant
            ca@ == a@,
            cb@ == b@,
            ca.len() == cb.len(),
            i <= ca.len(),
            forall|k: int| 0 <= k < i ==> ca@[k] == cb@[k],
        decreases ca.len() - i,
    {
        if ca[i] != cb[i] {
            return false;
        }
        i = i + 1;
    }
    assert(a@ =~= b@);
    true
}

/// `a` comes before `b` in lexicographic order of characters (by code
/// point), which for UTF-8 text is the byte order that `String` is
/// ordered by.
pub open spec fn text_less(a: Seq<char>, b: Seq<char>) -> bool
    decreases a.len(),
{
    if a.len() == 0 {
        b.len() > 0
    } else if b.len() == 0 {
        false
    } else if a[0] != b[0] {
        (a[0] as u32) < (b[0] as u32)
    } else {
        text_less(a.drop_first(), b.drop_first())
    }
}

/// `a` and `b` agree before position `k`, and there `a` has the smaller
/// character.
pub open spec fn smaller_at(a: Seq<char>, b: Seq<char>, k: int) -> bool {
    &&& 0 <= k < a.len()
    &&& k < b.len()
    &&& a.take(k) == b.take(k)
    &&& (a[k] as u32) < (b[k] as u32)
}

/// `text_less` is the lexicographic order of characters by code point: `a`
/// comes before `b` exactly when `a` is a proper prefix of `b`, or at the
/// first position where they differ `a` has the smaller character.
pub proof fn lemma_text_less_is_lexicographic(a: Seq<char>, b: Seq<char>)
    ensures
        text_less(a, b) == ((a.len() < b.len() && a == b.take(a.len() as int)) || exists|k: int|
            #[trigger] smaller_at(a, b, k)),
    decreases a.len(),
{
    if a.len() == 0 {
        assert(a =~= b.take(0));
    } else if b.len() == 0 {
    } else if a[0] != b[0] {
        if a.len() < b.len() && a == b.take(a.len() as int) {
            assert(a[0] == b.take(a.len() as int)[0]);
        }
        assert forall|k: int| #[trigger] smaller_at(a, b, k) implies k == 0 && (a[0] as u32) < (
        b[0] as u32) by {
            if k > 0 {
                assert(a[0] == a.take(k)[0]);
                assert(b[0] == b.take(k)[0]);
            }
        }
        if (a[0] as u32) < (b[0] as u32) {
            assert(a.take(0) =~= b.take(0));
            assert(smaller_at(a, b, 0));
        }
    } else {
        let a1 = a.drop_first();
        let b1 = b.drop_first();
        lemma_text_less_is_lexicographic(a1, b1);
        if a1.len() < b1.len() && a1 == b1.take(a1.len() as int) {
            assert(a =~= b.take(a.len() as int)) by {
                let n = a.len() as int;
                assert forall|i: int| 0 <= i < n implies #[trigger] a[i] == b.take(n)[i] by {
                    if i > 0 {
                        assert(a[i] == a1[i - 1]);
                        assert(b[i] == b1[i - 1]);
                        assert(a1[i - 1] == b1.take(a1.len() as int)[i - 1]);
                    }
                }
            }
        }
        if a.len() < b.len() && a == b.take(a.len() as int) {
            assert(a1 =~= b1.take(a1.len() as int)) by {
                let n = a1.len() as int;
                assert forall|i: int| 0 <= i < n implies #[trigger] a1[i] == b1.take(n)[i] by {
                    assert(a[i + 1] == b.take(a.len() as int)[i + 1]);
                }
            }
        }
        if exists|k: int| #[trigger] smaller_at(a1, b1, k) {
            let k = choose|k: int| #[trigger] smaller_at(a1, b1, k);
            let n = k + 1;
            assert(a.take(n) =~= b.take(n)) by {
                assert forall|i: int| 0 <= i < n implies #[trigger] a.take(n)[i] == b.take(n)[i] by {
                    if i > 0 {
                        assert(a1.take(k)[i - 1] == b1.take(k)[i - 1]);
                    }
                }
            }
            assert(smaller_at(a, b, k + 1));
        }
        if exists|k: int| #[trigger] smaller_at(a, b, k) {
            let k = choose|k: int| #[trigger] smaller_at(a, b, k);
            assert(k != 0);
            let n = k - 1;
            assert(a1.take(n) =~= b1.take(n)) by {
                assert forall|i: int| 0 <= i < n implies #[trigger] a1.take(n)[i] == b1.take(n)[i] by {
                    assert(a.take(k)[i + 1] == b.take(k)[i + 1]);
                }
            }
            assert(smaller_at(a1, b1, k - 1));
        }
    }
}

/// No text comes before itself.
pub proof fn lemma_text_less_irreflexive(a: Seq<char>)
    ensures
        !text_less(a, a),
    decreases a.len(),
{
    if a.len() > 0 {
        lemma_text_less_irreflexive(a.drop_first());
    }
}

/// `text_less` is transitive.
pub proof fn lemma_text_less_transitive(a: Seq<char>, b: Seq<char>, c: Seq<char>)
    requires
        text_less(a, b),
        text_less(b, c),
    ensures
        text_less(a, c),
    decreases a.len(),
{
    if a.len() > 0 && b.len() > 0 && c.len() > 0 && a[0] == b[0] && b[0] == c[0] {
        lemma_text_less_transitive(a.drop_first(), b.drop_first(), c.drop_first());
    }
}

/// Of two different texts, one comes before the other.
pub proof fn lemma_text_less_total(a: Seq<char>, b: Seq<char>)
    ensures
        a == b || text_less(a, b) || text_less(b, a),
    decreases a.len(),
{
    if a.len() > 0 && b.len() > 0 && a[0] == b[0] {
        lemma_text_less_total(a.drop_first(), b.drop_first());
        if a.drop_first() == b.drop_first() {
            assert forall|k: int| 0 <= k < a.len() implies a[k] == b[k] by {
                if k > 0 {
                    assert(a[k] == a.drop_first()[k - 1]);
                    assert(b[k] == b.drop_first()[k - 1]);
                }
            }
            assert(a =~= b);
        }
    } else if a.len() == 0 && b.len() == 0 {
        assert(a =~= b);
    } else if a.len() > 0 && b.len() > 0 {
        vstd::utf8::char_u32_cast(a[0], a[0] as u32);
        vstd::utf8::char_u32_cast(b[0], b[0] as u32);
    }
}

/// Whenever `a` comes before `c`, any `b` comes after `a` or before `c`.
pub proof fn lemma_text_less_negatively_transitive(a: Seq<char>, b: Seq<char>, c: Seq<char>)
    requires
        text_less(a, c),
    ensures
        text_less(a, b) || text_less(b, c),
{
    lemma_text_less_total(a, b);
    if text_less(b, a) {
        lemma_text_less_transitive(b, a, c);
    }
}

/// Tells whether `a` comes before `b` in the order of `text_less`.
pub fn text_precedes(a: &str, b: &str) -> (r: bool)
    ensures
        r == text_less(a@, b@),
{
    let ca = chars_of(a);
    let cb = chars_of(b);
    let mut i: usize = 0;
    assert(a@.skip(0) =~= a@);
    assert(b@.skip(0) =~= b@);
    while i < ca.len() && i < cb.len() && ca[i] == cb[i]
        invariant
            ca@ == a@,
            cb@ == b@,
            i <= ca.len(),
            i <= cb.len(),
            text_less(a@, b@) == text_less(a@.skip(i as int), b@.skip(i as int)),
        decreases ca.len() - i,
    {
        assert(a@.skip(i as int).drop_first() =~= a@.skip(i + 1));
        assert(b@.skip(i as int).drop_first() =~= b@.skip(i + 1));
        i = i + 1;
    }
    if i == ca.len() {
        i < cb.len()
    } else if i == cb.len() {
        false
    } else {
        assert(a@.skip(i as int)[0] == ca@[i as int]);
        assert(b@.skip(i as int)[0] == cb@[i as int]);
        (ca[i] as u32) < (cb[i] as u32)
    }
}

} // verus!
