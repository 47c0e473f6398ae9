//! The selector mini-language: a `uuid:` or `title:` prefix (matched without
//! regard to ASCII case) forces one matching mode, anything else tries both.
//! UUID tokens are accepted in hyphenated or bare 32-hex-digit form, with
//! optional surrounding braces, and are canonicalized to lower-case hex.

use vstd::prelude::*;
use crate::num::is_digit;
use crate::text::{trim_of, trim_str, has_prefix_ci, str_has_prefix_ci};

verus! {

/// How a selector picks its entry.
#[derive(Clone, Copy, PartialEq, Eq, Structural, Debug)]
pub enum SelectorMode {
    Auto,
    Title,
    Uuid,
}

/// Length of the run of `c` at the front of `s`.
pub open spec fn char_prefix_len(s: Seq<char>, c: char) -> nat
    decreases s.len(),
{
    if s.len() > 0 && s[0] == c {
        1 + char_prefix_len(s.drop_first(), c)
    } else {
        0
    }
}

/// Length of the run of `c` at the back of `s`.
pub open spec fn char_suffix_len(s: Seq<char>, c: char) -> nat
    decreases s.len(),
{
    if s.len() > 0 && s.last() == c {
        1 + char_suffix_len(s.drop_last(), c)
    } else {
        0
    }
}

/// What `str::trim_matches(c)` returns: `s` with every leading and trailing
/// `c` removed.
pub open spec fn trim_char_of(s: Seq<char>, c: char) -> Seq<char> {
    if char_prefix_len(s, c) + char_suffix_len(s, c) >= s.len() {
        Seq::empty()
    } else {
        s.subrange(char_prefix_len(s, c) as int, s.len() - char_suffix_len(s, c))
    }
}

proof fn lemma_char_prefix_len_is(s: Seq<char>, c: char, k: int)
    requires
        0 <= k <= s.len(),
        forall|i: int| 0 <= i < k ==> #[trigger] s[i] == c,
        k < s.len() ==> s[k] != c,
    ensures
        char_prefix_len(s, c) == k,
    decreases s.len(),
{
    if s.len() > 0 && s[0] == c {
        assert(k > 0);
        assert(forall|i: int| 0 <= i < k - 1 ==> #[trigger] s.drop_first()[i] == s[i + 1]);
        if k - 1 < s.drop_first().len() {
            assert(s.drop_first()[k - 1] == s[k]);
        }
        lemma_char_prefix_len_is(s.drop_first(), c, k - 1);
    } else {
        assert(k == 0) by {
            if k > 0 {
                assert(s[0] == c);
            }
        }
    }
}

proof fn lemma_char_suffix_len_is(s: Seq<char>, c: char, k: int)
    requires
        0 <= k <= s.len(),
        forall|i: int| s.len() - k <= i < s.len() ==> #[trigger] s[i] == c,
        k < s.len() ==> s[s.len() - k - 1] != c,
    ensures
        char_suffix_len(s, c) == k,
    decreases s.len(),
{
    if s.len() > 0 && s.last() == c {
        assert(k > 0) by {
            if k == 0 {
                assert(s[s.len() - 1] != c);
            }
        }
        assert(forall|i: int|
            0 <= i < s.drop_last().len() ==> #[trigger] s.drop_last()[i] == s[i]);
        lemma_char_suffix_len_is(s.drop_last(), c, k - 1);
    } else {
        assert(k == 0) by {
            if k > 0 {
                assert(s[s.len() - 1] == c);
            }
        }
    }
}

/// `str::trim_matches` for a single pattern character, verified.
pub fn trim_char_str<'a>(s: &'a str, c: char) -> (r: &'a str)
    ensures
        r@ == trim_char_of(s@, c),
{
    let n = s.unicode_len();
    let mut start: usize = 0;
    while start < n && s.get_char(start) == c
        invariant
            0 <= start <= n,
            n == s@.len(),
            forall|i: int| 0 <= i < start ==> #[trigger] s@[i] == c,
        decreases n - start,
    {
        start = start + 1;
    }
    proof {
        lemma_char_prefix_len_is(s@, c, start as int);
    }
    if start == n {
        let r = s.substring_char(0, 0);
        assert(r@ =~= trim_char_of(s@, c));
        return r;
    }
    let mut end: usize = n;
    while end > start && s.get_char(end - 1) == c
        invariant
            start <= end <= n,
            n == s@.len(),
            forall|i: int| end <= i < n ==> #[trigger] s@[i] == c,
        decreases end,
    {
        end = end - 1;
    }
    assert(s@[start as int] != c);
    assert(end > start);
    proof {
        lemma_char_suffix_len_is(s@, c, n - end);
    }
    let r = s.substring_char(start, end);
    assert(r@ =~= trim_char_of(s@, c));
    r
}

/// Whether `c` is a hexadecimal digit, either case.
pub open spec fn is_hex(c: char) -> bool {
    is_digit(c) || (0x61 <= c as u32 && c as u32 <= 0x66) || (0x41 <= c as u32 && c as u32
        <= 0x46)
}

/// Whether every character of `s` is a hexadecimal digit.
pub open spec fn all_hex(s: Seq<char>) -> bool {
    forall|i: int| 0 <= i < s.len() ==> is_hex(#[trigger] s[i])
}

/// The hex digit `c` in lower case.
pub open spec fn hex_lower(c: char) -> char {
    if c == 'A' {
        'a'
    } else if c == 'B' {
        'b'
    } else if c == 'C' {
        'c'
    } else if c == 'D' {
        'd'
    } else if c == 'E' {
        'e'
    } else if c == 'F' {
        'f'
    } else {
        c
    }
}

/// `s` with its hex digits mapped to lower case.
pub open spec fn lower_hex_seq(s: Seq<char>) -> Seq<char> {
    Seq::new(s.len(), |i: int| hex_lower(s[i]))
}

/// `s` with every `-` removed.
pub open spec fn dashes_removed(s: Seq<char>) -> Seq<char>
    decreases s.len(),
{
    if s.len() == 0 {
        Seq::empty()
    } else if s.last() == '-' {
        dashes_removed(s.drop_last())
    } else {
        dashes_removed(s.drop_last()).push(s.last())
    }
}

/// Removing dashes from a prefix yields a prefix of the dash-free whole.
proof fn lemma_dashes_removed_prefix(s: Seq<char>, k: int)
    requires
        0 <= k <= s.len(),
    ensures
        dashes_removed(s.subrange(0, k)).len() <= dashes_removed(s).len(),
        forall|i: int|
            0 <= i < dashes_removed(s.subrange(0, k)).len() ==> #[trigger] dashes_removed(s)[i]
                == dashes_removed(s.subrange(0, k))[i],
    decreases s.len() - k,
{
    if k == s.len() {
        assert(s.subrange(0, k) =~= s);
    } else {
        lemma_dashes_removed_prefix(s, k + 1);
        let p = s.subrange(0, k + 1);
        assert(p.drop_last() =~= s.subrange(0, k));
    }
}

/// The canonical 32-digit lower-case form of a UUID token, if the token is
/// well formed: trimmed, brace-stripped, dash-free, exactly 32 hex digits.
pub open spec fn uuid_canon_of(input: Seq<char>) -> Option<Seq<char>> {
    let t = trim_char_of(trim_char_of(trim_of(input), '{'), '}');
    let h = dashes_removed(t);
    if h.len() == 32 && all_hex(h) {
        Some(lower_hex_seq(h))
    } else {
        None
    }
}

/// A store entry's identifier, held canonically as 32 lower-case hex digits.
#[derive(Debug)]
pub struct Uuid {
    pub hex: String,
}

impl Uuid {
    /// The canonical form is exactly 32 lower-case hex digits.
    pub open spec fn well_formed(&self) -> bool {
        self.hex@.len() == 32 && forall|i: int|
            0 <= i < 32 ==> (is_digit(#[trigger] self.hex@[i]) || (0x61 <= self.hex@[i] as u32
                && self.hex@[i] as u32 <= 0x66))
    }

    /// Two identifiers are the same exactly when their canonical forms are.
    pub fn same_as(&self, other: &Uuid) -> (r: bool)
        ensures
            r == (self.hex@ == other.hex@),
    {
        crate::text::str_eq(self.hex.as_str(), other.hex.as_str())
    }
}

/// The one-character string holding the lower-case form of hex digit `c`.
fn hex_char_str(c: char) -> (r: &'static str)
    requires
        is_hex(c),
    ensures
        r@ == seq![hex_lower(c)],
{
    proof {
        reveal_strlit("0");
        reveal_strlit("1");
        reveal_strlit("2");
        reveal_strlit("3");
        reveal_strlit("4");
        reveal_strlit("5");
        reveal_strlit("6");
        reveal_strlit("7");
        reveal_strlit("8");
        reveal_strlit("9");
        reveal_strlit("a");
        reveal_strlit("b");
        reveal_strlit("c");
        reveal_strlit("d");
        reveal_strlit("e");
        reveal_strlit("f");
    }
    match c {
        '0' => "0",
        '1' => "1",
        '2' => "2",
        '3' => "3",
        '4' => "4",
        '5' => "5",
        '6' => "6",
        '7' => "7",
        '8' => "8",
        '9' => "9",
        'a' | 'A' => "a",
        'b' | 'B' => "b",
        'c' | 'C' => "c",
        'd' | 'D' => "d",
        'e' | 'E' => "e",
        _ => "f",
    }
}

/// Parses a UUID token: trims it, strips surrounding braces, drops dashes,
/// and accepts exactly 32 hex digits, canonicalized to lower case.
pub fn parse_uuid(input: &str) -> (r: Option<Uuid>)
    ensures
        match uuid_canon_of(input@) {
            Some(h) => r matches Some(u) && u.hex@ == h && u.well_formed(),
            None => r is None,
        },
{
    let t0 = trim_str(input);
    let t = trim_char_str(trim_char_str(t0, '{'), '}');
    let n = t.unicode_len();
    let ghost whole = dashes_removed(t@);
    let mut acc = String::new();
    let mut count: usize = 0;
    let mut i: usize = 0;
    while i < n
        invariant
            0 <= i <= n,
            n == t@.len(),
            t@ == trim_char_of(trim_char_of(trim_of(input@), '{'), '}'),
            whole == dashes_removed(t@),
            count == dashes_removed(t@.subrange(0, i as int)).len(),
            count <= i,
            acc@ == lower_hex_seq(dashes_removed(t@.subrange(0, i as int))),
            all_hex(dashes_removed(t@.subrange(0, i as int))),
        decreases n - i,
    {
        let c = t.get_char(i);
        let u = c as u32;
        proof {
            let p = t@.subrange(0, i + 1);
            assert(p.drop_last() =~= t@.subrange(0, i as int));
            assert(p.last() == t@[i as int]);
        }
        if c == '-' {
            i = i + 1;
            continue ;
        }
        let hex = (0x30 <= u && u <= 0x39) || (0x61 <= u && u <= 0x66) || (0x41 <= u && u
            <= 0x46);
        if !hex {
            proof {
                lemma_dashes_removed_prefix(t@, i + 1);
                let p = dashes_removed(t@.subrange(0, i + 1));
                assert(p.last() == t@[i as int]);
                assert(!is_hex(whole[p.len() - 1]));
                assert(!all_hex(whole));
            }
            return None;
        }
        acc = acc.concat(hex_char_str(c));
        count = count + 1;
        i = i + 1;
        proof {
            let q = dashes_removed(t@.subrange(0, i as int));
            assert(q.drop_last() =~= dashes_removed(t@.subrange(0, i - 1)));
            assert(acc@ =~= lower_hex_seq(q)) by {
                assert(forall|j: int|
                    0 <= j < q.len() - 1 ==> #[trigger] q[j] == q.drop_last()[j]);
            }
            assert forall|j: int| 0 <= j < q.len() implies is_hex(#[trigger] q[j]) by {
                if j < q.len() - 1 {
                    assert(q[j] == q.drop_last()[j]);
                }
            }
        }
    }
    proof {
        assert(t@.subrange(0, n as int) =~= t@);
    }
    if count != 32 {
        return None;
    }
    let u = Uuid { hex: acc };
    proof {
        assert forall|j: int|
            0 <= j < 32 implies (is_digit(#[trigger] u.hex@[j]) || (0x61 <= u.hex@[j] as u32
            && u.hex@[j] as u32 <= 0x66)) by {
            assert(u.hex@[j] == hex_lower(whole[j]));
            assert(is_hex(whole[j]));
        }
    }
    Some(u)
}

/// The matching mode a selector's prefix picks.
pub open spec fn selector_mode_of(s: Seq<char>) -> SelectorMode {
    if has_prefix_ci(s, "uuid:"@) {
        SelectorMode::Uuid
    } else if has_prefix_ci(s, "title:"@) {
        SelectorMode::Title
    } else {
        SelectorMode::Auto
    }
}

/// The token the matching mode applies to: what follows a recognized prefix,
/// trimmed; the unchanged input otherwise.
pub open spec fn selector_token_of(s: Seq<char>) -> Seq<char> {
    if has_prefix_ci(s, "uuid:"@) {
        trim_of(s.skip(5))
    } else if has_prefix_ci(s, "title:"@) {
        trim_of(s.skip(6))
    } else {
        s
    }
}

/// Splits a selector into its mode and its token.  The prefix is matched
/// without regard to ASCII case; the token keeps its case.
pub fn parse_selector<'a>(input: &'a str) -> (r: (SelectorMode, &'a str))
    ensures
        r.0 == selector_mode_of(input@),
        r.1@ == selector_token_of(input@),
{
    proof {
        reveal_strlit("uuid:");
        reveal_strlit("title:");
    }
    let n = input.unicode_len();
    if str_has_prefix_ci(input, "uuid:") {
        let rest = input.substring_char(5, n);
        let tok = trim_str(rest);
        proof {
            assert(input@.subrange(5, n as int) =~= input@.skip(5));
        }
        (SelectorMode::Uuid, tok)
    } else if str_has_prefix_ci(input, "title:") {
        let rest = input.substring_char(6, n);
        let tok = trim_str(rest);
        proof {
            assert(input@.subrange(6, n as int) =~= input@.skip(6));
        }
        (SelectorMode::Title, tok)
    } else {
        (SelectorMode::Auto, input)
    }
}

} // verus!
