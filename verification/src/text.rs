//! Character and string helpers shared by the selector grammar, the JSON
//! codec and the response interpreters: whitespace trimming, case-insensitive
//! ASCII comparison, and decimal conversion.

use vstd::prelude::*;

verus! {

/// The characters that `str::trim` removes: the Unicode `White_Space` set.
pub open spec fn is_wspace(c: char) -> bool {
    let u = c as u32;
    (0x09 <= u && u <= 0x0D) || u == 0x20 || u == 0x85 || u == 0xA0 || u == 0x1680 || (0x2000 <= u
        && u <= 0x200A) || u == 0x2028 || u == 0x2029 || u == 0x202F || u == 0x205F || u == 0x3000
}

/// Runtime test for [`is_wspace`].
pub fn is_wspace_char(c: char) -> (r: bool)
    ensures
        r == is_wspace(c),
{
    let u = c as u32;
    (0x09 <= u && u <= 0x0D) || u == 0x20 || u == 0x85 || u == 0xA0 || u == 0x1680 || (0x2000 <= u
        && u <= 0x200A) || u == 0x2028 || u == 0x2029 || u == 0x202F || u == 0x205F || u == 0x3000
}

/// Length of the longest whitespace prefix of `s`.
pub open spec fn ws_prefix_len(s: Seq<char>) -> nat
    decreases s.len(),
{
    if s.len() > 0 && is_wspace(s[0]) {
        1 + ws_prefix_len(s.drop_first())
    } else {
        0
    }
}

/// Length of the longest whitespace suffix of `s`.
pub open spec fn ws_suffix_len(s: Seq<char>) -> nat
    decreases s.len(),
{
    if s.len() > 0 && is_wspace(s.last()) {
        1 + ws_suffix_len(s.drop_last())
    } else {
        0
    }
}

/// What `str::trim` returns: `s` with its whitespace prefix and suffix gone.
pub open spec fn trim_of(s: Seq<char>) -> Seq<char> {
    if ws_prefix_len(s) + ws_suffix_len(s) >= s.len() {
        Seq::empty()
    } else {
        s.subrange(ws_prefix_len(s) as int, s.len() - ws_suffix_len(s))
    }
}

proof fn lemma_ws_prefix_le_len(s: Seq<char>)
    ensures
        ws_prefix_len(s) <= s.len(),
        forall|i: int| 0 <= i < ws_prefix_len(s) ==> is_wspace(#[trigger] s[i]),
        ws_prefix_len(s) < s.len() ==> !is_wspace(s[ws_prefix_len(s) as int]),
    decreases s.len(),
{
    if s.len() > 0 && is_wspace(s[0]) {
        lemma_ws_prefix_le_len(s.drop_first());
        assert forall|i: int| 0 <= i < ws_prefix_len(s) implies is_wspace(#[trigger] s[i]) by {
            if i > 0 {
                assert(s.drop_first()[i - 1] == s[i]);
            }
        }
    }
}

proof fn lemma_ws_suffix_le_len(s: Seq<char>)
    ensures
        ws_suffix_len(s) <= s.len(),
        forall|i: int| s.len() - ws_suffix_len(s) <= i < s.len() ==> is_wspace(#[trigger] s[i]),
        ws_suffix_len(s) < s.len() ==> !is_wspace(s[s.len() - ws_suffix_len(s) - 1]),
    decreases s.len(),
{
    if s.len() > 0 && is_wspace(s.last()) {
        lemma_ws_suffix_le_len(s.drop_last());
        assert forall|i: int| s.len() - ws_suffix_len(s) <= i < s.len() implies is_wspace(
            #[trigger] s[i],
        ) by {
            if i < s.len() - 1 {
                assert(s.drop_last()[i] == s[i]);
            }
        }
    }
}

/// A prefix of whitespace characters bounded by a non-whitespace character (or
/// the end) is exactly the longest whitespace prefix.
proof fn lemma_ws_prefix_len_is(s: Seq<char>, k: int)
    requires
        0 <= k <= s.len(),
        forall|i: int| 0 <= i < k ==> is_wspace(#[trigger] s[i]),
        k < s.len() ==> !is_wspace(s[k]),
    ensures
        ws_prefix_len(s) == k,
    decreases s.len(),
{
    if s.len() > 0 && is_wspace(s[0]) {
        assert(k > 0) by {
            if k == 0 {
                assert(!is_wspace(s[0]));
            }
        }
        assert forall|i: int| 0 <= i < k - 1 implies is_wspace(#[trigger] s.drop_first()[i]) by {
            assert(s.drop_first()[i] == s[i + 1]);
        }
        if k - 1 < s.drop_first().len() {
            assert(s.drop_first()[k - 1] == s[k]);
        }
        lemma_ws_prefix_len_is(s.drop_first(), k - 1);
    } else {
        assert(k == 0) by {
            if k > 0 {
                assert(is_wspace(s[0]));
            }
        }
    }
}

/// Mirror of [`lemma_ws_prefix_len_is`] for the suffix.
proof fn lemma_ws_suffix_len_is(s: Seq<char>, k: int)
    requires
        0 <= k <= s.len(),
        forall|i: int| s.len() - k <= i < s.len() ==> is_wspace(#[trigger] s[i]),
        k < s.len() ==> !is_wspace(s[s.len() - k - 1]),
    ensures
        ws_suffix_len(s) == k,
    decreases s.len(),
{
    if s.len() > 0 && is_wspace(s.last()) {
        assert(k > 0) by {
            if k == 0 {
                assert(!is_wspace(s[s.len() - 1]));
            }
        }
        assert forall|i: int|
            s.drop_last().len() - (k - 1) <= i < s.drop_last().len() implies is_wspace(
            #[trigger] s.drop_last()[i],
        ) by {
            assert(s.drop_last()[i] == s[i]);
        }
        if k - 1 < s.drop_last().len() {
            assert(s.drop_last()[s.len() - k - 1] == s[s.len() - k - 1]);
        }
        lemma_ws_suffix_len_is(s.drop_last(), k - 1);
    } else {
        assert(k == 0) by {
            if k > 0 {
                assert(is_wspace(s.last()));
            }
        }
    }
}

/// `str::trim`, verified: drops the whitespace prefix and suffix of `s`.
pub fn trim_str<'a>(s: &'a str) -> (r: &'a str)
    ensures
        r@ == trim_of(s@),
{
    let n = s.unicode_len();
    let mut start: usize = 0;
    while start < n && is_wspace_char(s.get_char(start))
        invariant
            0 <= start <= n,
            n == s@.len(),
            forall|i: int| 0 <= i < start ==> is_wspace(#[trigger] s@[i]),
        decreases n - start,
    {
        start = start + 1;
    }
    proof {
        lemma_ws_prefix_len_is(s@, start as int);
    }
    if start == n {
        proof {
            lemma_ws_suffix_le_len(s@);
        }
        let r = s.substring_char(0, 0);
        assert(r@ =~= trim_of(s@));
        return r;
    }
    let mut end: usize = n;
    while end > start && is_wspace_char(s.get_char(end - 1))
        invariant
            start <= end <= n,
            n == s@.len(),
            forall|i: int| end <= i < n ==> is_wspace(#[trigger] s@[i]),
        decreases end,
    {
        end = end - 1;
    }
    assert(!is_wspace(s@[start as int]));
    assert(end > start);
    proof {
        lemma_ws_suffix_len_is(s@, n - end);
    }
    let r = s.substring_char(start, end);
    assert(r@ =~= trim_of(s@));
    r
}

/// The code point of `c` with an upper-case ASCII letter mapped to lower case.
pub open spec fn lower_u32(c: char) -> u32 {
    if 0x41 <= c as u32 && c as u32 <= 0x5A {
        (c as u32 + 0x20) as u32
    } else {
        c as u32
    }
}

/// ASCII-case-insensitive character equality.
pub open spec fn char_eq_ci(a: char, b: char) -> bool {
    lower_u32(a) == lower_u32(b)
}

/// Runtime test for [`char_eq_ci`].
pub fn char_eq_ci_exec(a: char, b: char) -> (r: bool)
    ensures
        r == char_eq_ci(a, b),
{
    let ua = a as u32;
    let ub = b as u32;
    let la = if 0x41 <= ua && ua <= 0x5A {
        ua + 0x20
    } else {
        ua
    };
    let lb = if 0x41 <= ub && ub <= 0x5A {
        ub + 0x20
    } else {
        ub
    };
    la == lb
}

/// ASCII-case-insensitive string equality.
pub open spec fn seq_eq_ci(a: Seq<char>, b: Seq<char>) -> bool {
    a.len() == b.len() && forall|i: int| 0 <= i < a.len() ==> char_eq_ci(a[i], b[i])
}

/// Runtime test for [`seq_eq_ci`].
pub fn str_eq_ci(a: &str, b: &str) -> (r: bool)
    ensures
        r == seq_eq_ci(a@, b@),
{
    let na = a.unicode_len();
    let nb = b.unicode_len();
    if na != nb {
        return false;
    }
    let mut i: usize = 0;
    while i < na
        invariant
            0 <= i <= na,
            na == a@.len(),
            na == b@.len(),
            forall|j: int| 0 <= j < i ==> char_eq_ci(a@[j], b@[j]),
        decreases na - i,
    {
        if !char_eq_ci_exec(a.get_char(i), b.get_char(i)) {
            return false;
        }
        i = i + 1;
    }
    true
}

/// Exact string equality on views.
pub fn str_eq(a: &str, b: &str) -> (r: bool)
    ensures
        r == (a@ == b@),
{
    let na = a.unicode_len();
    let nb = b.unicode_len();
    if na != nb {
        assert(a@ != b@);
        return false;
    }
    let mut i: usize = 0;
    while i < na
        invariant
            0 <= i <= na,
            na == a@.len(),
            na == b@.len(),
            forall|j: int| 0 <= j < i ==> a@[j] == b@[j],
        decreases na - i,
    {
        if a.get_char(i) != b.get_char(i) {
            return false;
        }
        i = i + 1;
    }
    assert(a@ =~= b@);
    true
}

/// Strings that agree up to ASCII case compare alike against any third.
pub proof fn lemma_seq_eq_ci_subst(a: Seq<char>, b: Seq<char>)
    requires
        seq_eq_ci(a, b),
    ensures
        forall|z: Seq<char>| #![trigger seq_eq_ci(z, a)] #![trigger seq_eq_ci(z, b)]
            seq_eq_ci(z, a) == seq_eq_ci(z, b),
{
    assert forall|z: Seq<char>| #![trigger seq_eq_ci(z, a)] #![trigger seq_eq_ci(z, b)]
        seq_eq_ci(z, a) == seq_eq_ci(z, b) by {
        if seq_eq_ci(z, a) {
            assert forall|i: int| 0 <= i < z.len() implies char_eq_ci(z[i], b[i]) by {
                assert(char_eq_ci(z[i], a[i]));
                assert(char_eq_ci(a[i], b[i]));
            }
        }
        if seq_eq_ci(z, b) {
            assert forall|i: int| 0 <= i < z.len() implies char_eq_ci(z[i], a[i]) by {
                assert(char_eq_ci(z[i], b[i]));
                assert(char_eq_ci(a[i], b[i]));
            }
        }
    }
}

/// Whether `p` is a prefix of `s`.
pub open spec fn has_prefix(s: Seq<char>, p: Seq<char>) -> bool {
    s.len() >= p.len() && s.subrange(0, p.len() as int) == p
}

/// Runtime test for [`has_prefix`].
pub fn str_has_prefix(s: &str, p: &str) -> (r: bool)
    ensures
        r == has_prefix(s@, p@),
{
    let ns = s.unicode_len();
    let np = p.unicode_len();
    if ns < np {
        return false;
    }
    let mut i: usize = 0;
    while i < np
        invariant
            0 <= i <= np,
            ns == s@.len(),
            np == p@.len(),
            np <= ns,
            forall|j: int| 0 <= j < i ==> s@[j] == p@[j],
        decreases np - i,
    {
        if s.get_char(i) != p.get_char(i) {
            assert(s@.subrange(0, np as int)[i as int] != p@[i as int]);
            return false;
        }
        i = i + 1;
    }
    assert(s@.subrange(0, np as int) =~= p@);
    true
}

/// Whether `p` is an ASCII-case-insensitive prefix of `s`.
pub open spec fn has_prefix_ci(s: Seq<char>, p: Seq<char>) -> bool {
    s.len() >= p.len() && seq_eq_ci(s.subrange(0, p.len() as int), p)
}

/// Runtime test for [`has_prefix_ci`].
pub fn str_has_prefix_ci(s: &str, p: &str) -> (r: bool)
    ensures
        r == has_prefix_ci(s@, p@),
{
    let ns = s.unicode_len();
    let np = p.unicode_len();
    if ns < np {
        return false;
    }
    let mut i: usize = 0;
    while i < np
        invariant
            0 <= i <= np,
            ns == s@.len(),
            np == p@.len(),
            np <= ns,
            forall|j: int| 0 <= j < i ==> char_eq_ci(s@[j], p@[j]),
        decreases np - i,
    {
        if !char_eq_ci_exec(s.get_char(i), p.get_char(i)) {
            assert(!char_eq_ci(s@.subrange(0, np as int)[i as int], p@[i as int]));
            return false;
        }
        i = i + 1;
    }
    assert(forall|j: int|
        0 <= j < np ==> char_eq_ci(#[trigger] s@.subrange(0, np as int)[j], p@[j]));
    true
}

} // verus!
