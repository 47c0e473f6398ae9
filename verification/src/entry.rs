//! The decrypted secret store: entries with an identifier, a title and named
//! fields, resolved through the selector grammar, always in store order.

use vstd::prelude::*;
use crate::errors::Error;
use crate::scan::{
    first_idx, lemma_first_idx_congruence, lemma_first_idx_is, lemma_first_idx_none,
    lemma_first_idx_props,
};
use crate::selector::{parse_selector, parse_uuid, selector_mode_of, selector_token_of,
    uuid_canon_of, SelectorMode, Uuid};
use crate::text::{seq_eq_ci, str_eq, str_eq_ci, trim_of, trim_str};

verus! {

/// One decrypted entry: its identifier and its named fields, standard fields
/// (`Title`, `UserName`, `Password`, `URL`) among them.
#[derive(Debug)]
pub struct SecretEntry {
    pub uuid: Uuid,
    pub fields: Vec<(String, String)>,
}

/// The whole decrypted store, entries in their natural order.
#[derive(Debug)]
pub struct SecretStore {
    pub entries: Vec<SecretEntry>,
}

/// Matches a field row by its exact key.
pub open spec fn exact_key_pred(key: Seq<char>) -> spec_fn((String, String)) -> bool {
    |f: (String, String)| f.0@ == key
}

/// Matches a field row by its key, without regard to ASCII case.
pub open spec fn ci_key_pred(key: Seq<char>) -> spec_fn((String, String)) -> bool {
    |f: (String, String)| seq_eq_ci(f.0@, key)
}

/// The value of the first field whose key is exactly `key`.
pub open spec fn std_field_of(e: SecretEntry, key: Seq<char>) -> Option<Seq<char>> {
    match first_idx(e.fields@, exact_key_pred(key)) {
        Some(i) => Some(e.fields@[i].1@),
        None => None,
    }
}

/// The value of the first field whose key equals `key` without regard to
/// ASCII case.
pub open spec fn custom_field_of(e: SecretEntry, key: Seq<char>) -> Option<Seq<char>> {
    match first_idx(e.fields@, ci_key_pred(key)) {
        Some(i) => Some(e.fields@[i].1@),
        None => None,
    }
}

/// Field resolution: the logical aliases map to the standard fields, any
/// other name is looked up among the entry's fields without regard to ASCII
/// case; the name is trimmed first.
pub open spec fn entry_field_of(e: SecretEntry, field: Seq<char>) -> Option<Seq<char>> {
    let t = trim_of(field);
    if seq_eq_ci(t, "title"@) {
        std_field_of(e, "Title"@)
    } else if seq_eq_ci(t, "username"@) || seq_eq_ci(t, "user_name"@) || seq_eq_ci(t, "user-name"@)
        || seq_eq_ci(t, "user"@) {
        std_field_of(e, "UserName"@)
    } else if seq_eq_ci(t, "password"@) || seq_eq_ci(t, "pass"@) {
        std_field_of(e, "Password"@)
    } else if seq_eq_ci(t, "url"@) {
        std_field_of(e, "URL"@)
    } else {
        custom_field_of(e, t)
    }
}

/// First field of `fields` whose key is exactly `key`, by scan.
fn lookup_exact<'a>(fields: &'a Vec<(String, String)>, key: &str) -> (r: Option<&'a str>)
    ensures
        match first_idx(fields@, exact_key_pred(key@)) {
            Some(i) => r matches Some(v) && v@ == fields@[i].1@,
            None => r is None,
        },
{
    let n = fields.len();
    let mut i: usize = 0;
    while i < n
        invariant
            0 <= i <= n,
            n == fields@.len(),
            forall|j: int| 0 <= j < i ==> !(exact_key_pred(key@)(#[trigger] fields@[j])),
        decreases n - i,
    {
        if str_eq(fields[i].0.as_str(), key) {
            proof {
                lemma_first_idx_is(fields@, exact_key_pred(key@), i as int);
            }
            return Some(fields[i].1.as_str());
        }
        i = i + 1;
    }
    proof {
        lemma_first_idx_none(fields@, exact_key_pred(key@));
    }
    None
}

/// First field of `fields` whose key equals `key` without regard to case.
fn lookup_ci<'a>(fields: &'a Vec<(String, String)>, key: &str) -> (r: Option<&'a str>)
    ensures
        match first_idx(fields@, ci_key_pred(key@)) {
            Some(i) => r matches Some(v) && v@ == fields@[i].1@,
            None => r is None,
        },
{
    let n = fields.len();
    let mut i: usize = 0;
    while i < n
        invariant
            0 <= i <= n,
            n == fields@.len(),
            forall|j: int| 0 <= j < i ==> !(ci_key_pred(key@)(#[trigger] fields@[j])),
        decreases n - i,
    {
        if str_eq_ci(fields[i].0.as_str(), key) {
            proof {
                lemma_first_idx_is(fields@, ci_key_pred(key@), i as int);
            }
            return Some(fields[i].1.as_str());
        }
        i = i + 1;
    }
    proof {
        lemma_first_idx_none(fields@, ci_key_pred(key@));
    }
    None
}

impl SecretEntry {
    /// The entry's `Title` field.
    pub fn get_title(&self) -> (r: Option<&str>)
        ensures
            match std_field_of(*self, "Title"@) {
                Some(v) => r matches Some(x) && x@ == v,
                None => r is None,
            },
    {
        lookup_exact(&self.fields, "Title")
    }

    /// The entry's `UserName` field.
    pub fn get_username(&self) -> (r: Option<&str>)
        ensures
            match std_field_of(*self, "UserName"@) {
                Some(v) => r matches Some(x) && x@ == v,
                None => r is None,
            },
    {
        lookup_exact(&self.fields, "UserName")
    }

    /// The entry's `Password` field.
    pub fn get_password(&self) -> (r: Option<&str>)
        ensures
            match std_field_of(*self, "Password"@) {
                Some(v) => r matches Some(x) && x@ == v,
                None => r is None,
            },
    {
        lookup_exact(&self.fields, "Password")
    }

    /// The entry's `URL` field.
    pub fn get_url(&self) -> (r: Option<&str>)
        ensures
            match std_field_of(*self, "URL"@) {
                Some(v) => r matches Some(x) && x@ == v,
                None => r is None,
            },
    {
        lookup_exact(&self.fields, "URL")
    }
}

/// Resolves a field name on an entry: aliases first, then a case-insensitive
/// lookup of the trimmed name.
pub fn entry_field<'a>(entry: &'a SecretEntry, field: &str) -> (r: Option<&'a str>)
    ensures
        match entry_field_of(*entry, field@) {
            Some(v) => r matches Some(x) && x@ == v,
            None => r is None,
        },
{
    let t = trim_str(field);
    if str_eq_ci(t, "title") {
        lookup_exact(&entry.fields, "Title")
    } else if str_eq_ci(t, "username") || str_eq_ci(t, "user_name") || str_eq_ci(t, "user-name")
        || str_eq_ci(t, "user") {
        lookup_exact(&entry.fields, "UserName")
    } else if str_eq_ci(t, "password") || str_eq_ci(t, "pass") {
        lookup_exact(&entry.fields, "Password")
    } else if str_eq_ci(t, "url") {
        lookup_exact(&entry.fields, "URL")
    } else {
        lookup_ci(&entry.fields, t)
    }
}

/// Resolves a required field, or reports which field of which entry misses.
pub fn required_field(entry: &SecretEntry, field: &str, entry_label: &str) -> (r: Result<
    String,
    Error,
>)
    ensures
        match entry_field_of(*entry, field@) {
            Some(v) => r matches Ok(s) && s@ == v,
            None => r matches Err(e) && e matches Error::MissingField { field: f, entry: l }
                && f@ == field@ && l@ == entry_label@,
        },
{
    match entry_field(entry, field) {
        Some(v) => Ok(String::from_str(v)),
        None => Err(
            Error::MissingField {
                field: String::from_str(field),
                entry: String::from_str(entry_label),
            },
        ),
    }
}

/// Rejects a secret that is empty after trimming.
pub fn ensure_non_empty(secret: &str, label: &str) -> (r: Result<(), Error>)
    ensures
        if trim_of(secret@).len() == 0 {
            r matches Err(e) && e matches Error::EmptySecret { label: l } && l@ == label@
        } else {
            r matches Ok(())
        },
{
    let t = trim_str(secret);
    if t.unicode_len() == 0 {
        Err(Error::EmptySecret { label: String::from_str(label) })
    } else {
        Ok(())
    }
}

/// Whether the entry's title is exactly `token`.
pub open spec fn entry_title_matches(e: SecretEntry, token: Seq<char>) -> bool {
    match std_field_of(e, "Title"@) {
        Some(t) => t == token,
        None => false,
    }
}

/// Matches an entry by identifier.
pub open spec fn uuid_match_pred(h: Seq<char>) -> spec_fn(SecretEntry) -> bool {
    |e: SecretEntry| e.uuid.hex@ == h
}

/// Matches an entry by exact title.
pub open spec fn title_match_pred(token: Seq<char>) -> spec_fn(SecretEntry) -> bool {
    |e: SecretEntry| entry_title_matches(e, token)
}

/// Matches an entry by identifier or exact title.
pub open spec fn auto_match_pred(h: Seq<char>, token: Seq<char>) -> spec_fn(SecretEntry) -> bool {
    |e: SecretEntry| e.uuid.hex@ == h || entry_title_matches(e, token)
}

/// The index of the entry a selector resolves to: the selector is trimmed,
/// its prefix picks the mode, and the first entry matching the token wins.
pub open spec fn find_entry_of(entries: Seq<SecretEntry>, selector: Seq<char>) -> Option<int> {
    let sel = trim_of(selector);
    let tok = selector_token_of(sel);
    match selector_mode_of(sel) {
        SelectorMode::Uuid => match uuid_canon_of(tok) {
            Some(h) => first_idx(entries, uuid_match_pred(h)),
            None => None,
        },
        SelectorMode::Title => first_idx(entries, title_match_pred(tok)),
        SelectorMode::Auto => match uuid_canon_of(tok) {
            Some(h) => first_idx(entries, auto_match_pred(h, tok)),
            None => first_idx(entries, title_match_pred(tok)),
        },
    }
}

/// Whether the entry's title equals `token`, by scan.
fn title_matches_exec(e: &SecretEntry, token: &str) -> (r: bool)
    ensures
        r == entry_title_matches(*e, token@),
{
    match lookup_exact(&e.fields, "Title") {
        Some(t) => str_eq(t, token),
        None => false,
    }
}

impl SecretStore {
    /// Resolves a selector to the first matching entry in store order.
    pub fn find_entry<'a>(&'a self, selector: &str) -> (r: Option<&'a SecretEntry>)
        ensures
            match find_entry_of(self.entries@, selector@) {
                Some(i) => r matches Some(e) && 0 <= i < self.entries@.len() && *e
                    == self.entries@[i],
                None => r is None,
            },
    {
        let sel = trim_str(selector);
        let (mode, token) = parse_selector(sel);
        let n = self.entries.len();
        match mode {
            SelectorMode::Uuid => {
                let u = match parse_uuid(token) {
                    Some(u) => u,
                    None => {
                        return None;
                    },
                };
                let ghost h = u.hex@;
                let mut i: usize = 0;
                while i < n
                    invariant
                        0 <= i <= n,
                        n == self.entries@.len(),
                        h == u.hex@,
                        selector_mode_of(trim_of(selector@)) == SelectorMode::Uuid,
                        uuid_canon_of(selector_token_of(trim_of(selector@))) == Some(h),
                        forall|j: int|
                            0 <= j < i ==> !(uuid_match_pred(h)(#[trigger] self.entries@[j])),
                    decreases n - i,
                {
                    if self.entries[i].uuid.same_as(&u) {
                        proof {
                            lemma_first_idx_is(self.entries@, uuid_match_pred(h), i as int);
                        }
                        return Some(&self.entries[i]);
                    }
                    i = i + 1;
                }
                proof {
                    lemma_first_idx_none(self.entries@, uuid_match_pred(h));
                }
                None
            },
            SelectorMode::Title => {
                let mut i: usize = 0;
                while i < n
                    invariant
                        0 <= i <= n,
                        n == self.entries@.len(),
                        selector_mode_of(trim_of(selector@)) == SelectorMode::Title,
                        token@ == selector_token_of(trim_of(selector@)),
                        forall|j: int|
                            0 <= j < i ==> !(title_match_pred(token@)(
                                #[trigger] self.entries@[j],
                            )),
                    decreases n - i,
                {
                    if title_matches_exec(&self.entries[i], token) {
                        proof {
                            lemma_first_idx_is(self.entries@, title_match_pred(token@), i as int);
                        }
                        return Some(&self.entries[i]);
                    }
                    i = i + 1;
                }
                proof {
                    lemma_first_idx_none(self.entries@, title_match_pred(token@));
                }
                None
            },
            SelectorMode::Auto => {
                match parse_uuid(token) {
                    Some(u) => {
                        let ghost h = u.hex@;
                        let mut i: usize = 0;
                        while i < n
                            invariant
                                0 <= i <= n,
                                n == self.entries@.len(),
                                h == u.hex@,
                                selector_mode_of(trim_of(selector@)) == SelectorMode::Auto,
                                token@ == selector_token_of(trim_of(selector@)),
                                uuid_canon_of(token@) == Some(h),
                                forall|j: int|
                                    0 <= j < i ==> !(auto_match_pred(h, token@)(
                                        #[trigger] self.entries@[j],
                                    )),
                            decreases n - i,
                        {
                            if self.entries[i].uuid.same_as(&u) || title_matches_exec(
                                &self.entries[i],
                                token,
                            ) {
                                proof {
                                    lemma_first_idx_is(
                                        self.entries@,
                                        auto_match_pred(h, token@),
                                        i as int,
                                    );
                                }
                                return Some(&self.entries[i]);
                            }
                            i = i + 1;
                        }
                        proof {
                            lemma_first_idx_none(self.entries@, auto_match_pred(h, token@));
                        }
                        None
                    },
                    None => {
                        let mut i: usize = 0;
                        while i < n
                            invariant
                                0 <= i <= n,
                                n == self.entries@.len(),
                                selector_mode_of(trim_of(selector@)) == SelectorMode::Auto,
                                token@ == selector_token_of(trim_of(selector@)),
                                uuid_canon_of(token@) is None,
                                forall|j: int|
                                    0 <= j < i ==> !(title_match_pred(token@)(
                                        #[trigger] self.entries@[j],
                                    )),
                            decreases n - i,
                        {
                            if title_matches_exec(&self.entries[i], token) {
                                proof {
                                    lemma_first_idx_is(
                                        self.entries@,
                                        title_match_pred(token@),
                                        i as int,
                                    );
                                }
                                return Some(&self.entries[i]);
                            }
                            i = i + 1;
                        }
                        proof {
                            lemma_first_idx_none(self.entries@, title_match_pred(token@));
                        }
                        None
                    },
                }
            },
        }
    }
}

/// Resolves a selector, or reports it as not found.
pub fn require_entry<'a>(store: &'a SecretStore, selector: &str) -> (r: Result<
    &'a SecretEntry,
    Error,
>)
    ensures
        match find_entry_of(store.entries@, selector@) {
            Some(i) => r matches Ok(e) && 0 <= i < store.entries@.len() && *e
                == store.entries@[i],
            None => r matches Err(e) && e matches Error::EntryNotFound { selector: s } && s@
                == selector@,
        },
{
    match store.find_entry(selector) {
        Some(e) => Ok(e),
        None => Err(Error::EntryNotFound { selector: String::from_str(selector) }),
    }
}

/// A selector with the `uuid:` prefix matches only by identifier: when the
/// token is a well-formed UUID, the first entry carrying it is found, and
/// titles play no part; a malformed token matches nothing.
pub proof fn lemma_uuid_selector_matches_uuid_only(entries: Seq<SecretEntry>, selector: Seq<char>)
    requires
        selector_mode_of(trim_of(selector)) == SelectorMode::Uuid,
    ensures
        ({
            let tok = selector_token_of(trim_of(selector));
            match uuid_canon_of(tok) {
                Some(h) => match find_entry_of(entries, selector) {
                    Some(i) => 0 <= i < entries.len() && entries[i].uuid.hex@ == h && forall|
                        j: int,
                    | 0 <= j < i ==> (#[trigger] entries[j]).uuid.hex@ != h,
                    None => forall|j: int|
                        0 <= j < entries.len() ==> (#[trigger] entries[j]).uuid.hex@ != h,
                },
                None => find_entry_of(entries, selector) is None,
            }
        }),
{
    let tok = selector_token_of(trim_of(selector));
    match uuid_canon_of(tok) {
        Some(h) => {
            lemma_first_idx_props(entries, uuid_match_pred(h));
        },
        None => {},
    }
}

/// A selector with the `title:` prefix matches only by exact, case-sensitive
/// title equality: the first entry whose title equals the token is found,
/// and identifiers play no part.
pub proof fn lemma_title_selector_matches_title_only(entries: Seq<SecretEntry>, selector: Seq<char>)
    requires
        selector_mode_of(trim_of(selector)) == SelectorMode::Title,
    ensures
        ({
            let tok = selector_token_of(trim_of(selector));
            match find_entry_of(entries, selector) {
                Some(i) => 0 <= i < entries.len() && entry_title_matches(entries[i], tok)
                    && forall|j: int|
                    0 <= j < i ==> !entry_title_matches(#[trigger] entries[j], tok),
                None => forall|j: int|
                    0 <= j < entries.len() ==> !entry_title_matches(#[trigger] entries[j], tok),
            }
        }),
{
    let tok = selector_token_of(trim_of(selector));
    lemma_first_idx_props(entries, title_match_pred(tok));
}

/// An unprefixed selector tries the UUID reading and the title reading of
/// its token together, and the first entry in store order satisfying either
/// is found; when the token is no UUID, only titles are tried.
pub proof fn lemma_auto_selector_first_match(entries: Seq<SecretEntry>, selector: Seq<char>)
    requires
        selector_mode_of(trim_of(selector)) == SelectorMode::Auto,
    ensures
        ({
            let tok = selector_token_of(trim_of(selector));
            match uuid_canon_of(tok) {
                Some(h) => match find_entry_of(entries, selector) {
                    Some(i) => 0 <= i < entries.len() && (entries[i].uuid.hex@ == h
                        || entry_title_matches(entries[i], tok)) && forall|j: int|
                        0 <= j < i ==> !((#[trigger] entries[j]).uuid.hex@ == h
                            || entry_title_matches(entries[j], tok)),
                    None => forall|j: int|
                        0 <= j < entries.len() ==> !((#[trigger] entries[j]).uuid.hex@ == h
                            || entry_title_matches(entries[j], tok)),
                },
                None => match find_entry_of(entries, selector) {
                    Some(i) => 0 <= i < entries.len() && entry_title_matches(entries[i], tok)
                        && forall|j: int|
                        0 <= j < i ==> !entry_title_matches(#[trigger] entries[j], tok),
                    None => forall|j: int|
                        0 <= j < entries.len() ==> !entry_title_matches(
                            #[trigger] entries[j],
                            tok,
                        ),
                },
            }
        }),
{
    let tok = selector_token_of(trim_of(selector));
    match uuid_canon_of(tok) {
        Some(h) => {
            lemma_first_idx_props(entries, auto_match_pred(h, tok));
        },
        None => {
            lemma_first_idx_props(entries, title_match_pred(tok));
        },
    }
}

/// Field names that agree after trimming, up to ASCII case, resolve to the
/// same field: `"  USERNAME "` reads the same field as `"username"`.
pub proof fn lemma_field_alias_case_insensitive(e: SecretEntry, a: Seq<char>, b: Seq<char>)
    requires
        seq_eq_ci(trim_of(a), trim_of(b)),
    ensures
        entry_field_of(e, a) == entry_field_of(e, b),
{
    let ta = trim_of(a);
    let tb = trim_of(b);
    crate::text::lemma_seq_eq_ci_subst(ta, tb);
    assert(seq_eq_ci(ta, "title"@) == seq_eq_ci(tb, "title"@)) by {
        lemma_seq_eq_ci_comm(ta, "title"@);
        lemma_seq_eq_ci_comm(tb, "title"@);
    }
    assert(seq_eq_ci(ta, "username"@) == seq_eq_ci(tb, "username"@)) by {
        lemma_seq_eq_ci_comm(ta, "username"@);
        lemma_seq_eq_ci_comm(tb, "username"@);
    }
    assert(seq_eq_ci(ta, "user_name"@) == seq_eq_ci(tb, "user_name"@)) by {
        lemma_seq_eq_ci_comm(ta, "user_name"@);
        lemma_seq_eq_ci_comm(tb, "user_name"@);
    }
    assert(seq_eq_ci(ta, "user-name"@) == seq_eq_ci(tb, "user-name"@)) by {
        lemma_seq_eq_ci_comm(ta, "user-name"@);
        lemma_seq_eq_ci_comm(tb, "user-name"@);
    }
    assert(seq_eq_ci(ta, "user"@) == seq_eq_ci(tb, "user"@)) by {
        lemma_seq_eq_ci_comm(ta, "user"@);
        lemma_seq_eq_ci_comm(tb, "user"@);
    }
    assert(seq_eq_ci(ta, "password"@) == seq_eq_ci(tb, "password"@)) by {
        lemma_seq_eq_ci_comm(ta, "password"@);
        lemma_seq_eq_ci_comm(tb, "password"@);
    }
    assert(seq_eq_ci(ta, "pass"@) == seq_eq_ci(tb, "pass"@)) by {
        lemma_seq_eq_ci_comm(ta, "pass"@);
        lemma_seq_eq_ci_comm(tb, "pass"@);
    }
    assert(seq_eq_ci(ta, "url"@) == seq_eq_ci(tb, "url"@)) by {
        lemma_seq_eq_ci_comm(ta, "url"@);
        lemma_seq_eq_ci_comm(tb, "url"@);
    }
    assert forall|j: int| 0 <= j < e.fields@.len() implies (ci_key_pred(ta)(
        #[trigger] e.fields@[j],
    ) == ci_key_pred(tb)(e.fields@[j])) by {
        assert(seq_eq_ci(e.fields@[j].0@, ta) == seq_eq_ci(e.fields@[j].0@, tb));
    }
    lemma_first_idx_congruence(e.fields@, ci_key_pred(ta), ci_key_pred(tb));
}

/// Case-insensitive string equality is symmetric.
proof fn lemma_seq_eq_ci_comm(a: Seq<char>, b: Seq<char>)
    ensures
        seq_eq_ci(a, b) == seq_eq_ci(b, a),
{
    if seq_eq_ci(a, b) {
        assert forall|i: int| 0 <= i < b.len() implies crate::text::char_eq_ci(b[i], a[i]) by {
            assert(crate::text::char_eq_ci(a[i], b[i]));
        }
    }
    if seq_eq_ci(b, a) {
        assert forall|i: int| 0 <= i < a.len() implies crate::text::char_eq_ci(a[i], b[i]) by {
            assert(crate::text::char_eq_ci(b[i], a[i]));
        }
    }
}

} // verus!
