//! The configuration the orchestration runs on, as plain values: records for
//! each NAS and each volume, the defaults the file format leaves out, and
//! path expansion.  Reading and deserializing the file itself is the
//! caller's job; paths are handled as `/`-separated text.

use vstd::prelude::*;
use crate::scan::{first_idx, lemma_first_idx_is, lemma_first_idx_none};
use crate::text::{has_prefix, str_eq, str_has_prefix};

verus! {

/// How the API calls authenticate.
#[derive(Clone, Copy, PartialEq, Eq, Structural, Debug)]
pub enum AuthMethod {
    Basic,
    ApiKey,
}

/// Which form of secret the unlock call sends.
#[derive(Clone, Copy, PartialEq, Eq, Structural, Debug)]
pub enum UnlockMode {
    Passphrase,
    Key,
}

/// Where the secret store lives.
pub struct KeepassConfig {
    pub path: String,
    pub key_file: Option<String>,
}

/// One NAS record.
pub struct NasConfig {
    pub host: String,
    pub auth_entry: String,
    pub auth_method: AuthMethod,
    pub username_field: String,
    pub password_field: String,
    pub skip_tls_verify: bool,
}

/// One volume record.
pub struct VolumeConfig {
    pub nas: String,
    pub dataset: String,
    pub unlock_entry: String,
    pub unlock_field: String,
    pub unlock_mode: UnlockMode,
    pub recursive: bool,
    pub force: bool,
    pub lock_force_umount: bool,
    pub toggle_attachments: bool,
}

/// The whole configuration: the store, and named NAS and volume records.
pub struct Config {
    pub keepass: KeepassConfig,
    pub nas: Vec<(String, NasConfig)>,
    pub volume: Vec<(String, VolumeConfig)>,
}

/// Matches a NAS record by name.
pub open spec fn nas_name_pred(name: Seq<char>) -> spec_fn((String, NasConfig)) -> bool {
    |f: (String, NasConfig)| f.0@ == name
}

/// Matches a volume record by name.
pub open spec fn volume_name_pred(name: Seq<char>) -> spec_fn((String, VolumeConfig)) -> bool {
    |f: (String, VolumeConfig)| f.0@ == name
}

impl Config {
    /// The first NAS record named exactly `name`.
    pub fn get_nas<'a>(&'a self, name: &str) -> (r: Option<&'a NasConfig>)
        ensures
            match first_idx(self.nas@, nas_name_pred(name@)) {
                Some(i) => r matches Some(c) && *c == self.nas@[i].1,
                None => r is None,
            },
    {
        let n = self.nas.len();
        let mut i: usize = 0;
        while i < n
            invariant
                0 <= i <= n,
                n == self.nas@.len(),
                forall|j: int| 0 <= j < i ==> !(nas_name_pred(name@)(#[trigger] self.nas@[j])),
            decreases n - i,
        {
            if str_eq(self.nas[i].0.as_str(), name) {
                proof {
                    lemma_first_idx_is(self.nas@, nas_name_pred(name@), i as int);
                }
                return Some(&self.nas[i].1);
            }
            i = i + 1;
        }
        proof {
            lemma_first_idx_none(self.nas@, nas_name_pred(name@));
        }
        None
    }

    /// The first volume record named exactly `name`.
    pub fn get_volume<'a>(&'a self, name: &str) -> (r: Option<&'a VolumeConfig>)
        ensures
            match first_idx(self.volume@, volume_name_pred(name@)) {
                Some(i) => r matches Some(c) && *c == self.volume@[i].1,
                None => r is None,
            },
    {
        let n = self.volume.len();
        let mut i: usize = 0;
        while i < n
            invariant
                0 <= i <= n,
                n == self.volume@.len(),
                forall|j: int|
                    0 <= j < i ==> !(volume_name_pred(name@)(#[trigger] self.volume@[j])),
            decreases n - i,
        {
            if str_eq(self.volume[i].0.as_str(), name) {
                proof {
                    lemma_first_idx_is(self.volume@, volume_name_pred(name@), i as int);
                }
                return Some(&self.volume[i].1);
            }
            i = i + 1;
        }
        proof {
            lemma_first_idx_none(self.volume@, volume_name_pred(name@));
        }
        None
    }
}

/// The default authentication method.
pub fn default_auth_method() -> (r: AuthMethod)
    ensures
        r == AuthMethod::Basic,
{
    AuthMethod::Basic
}

/// The default unlock mode.
pub fn default_unlock_mode() -> (r: UnlockMode)
    ensures
        r == UnlockMode::Passphrase,
{
    UnlockMode::Passphrase
}

/// The default username field name.
pub fn default_username_field() -> (r: String)
    ensures
        r@ == "UserName"@,
{
    String::from_str("UserName")
}

/// The default password field name.
pub fn default_password_field() -> (r: String)
    ensures
        r@ == "Password"@,
{
    String::from_str("Password")
}

/// Unlocking recurses into child datasets by default.
pub fn default_recursive() -> (r: bool)
    ensures
        r == true,
{
    true
}

/// Attachments are toggled by default.
pub fn default_toggle_attachments() -> (r: bool)
    ensures
        r == true,
{
    true
}

/// Appending a path segment: a `/` goes between unless the base is empty or
/// already ends in one.
pub open spec fn joined_path(base: Seq<char>, rel: Seq<char>) -> Seq<char> {
    if base.len() == 0 {
        rel
    } else if base.last() == '/' {
        base + rel
    } else {
        base + "/"@ + rel
    }
}

/// Whether a path is relative: it does not start at the root.
pub open spec fn is_relative_path(s: Seq<char>) -> bool {
    !(s.len() > 0 && s[0] == '/')
}

/// `~` and `~/...` resolved against the home directory, when one is known.
pub open spec fn expand_tilde_of(path: Seq<char>, home: Option<Seq<char>>) -> Seq<char> {
    if (path == "~"@ || has_prefix(path, "~/"@)) && home is Some {
        if path.len() > 2 {
            joined_path(home->0, path.skip(2))
        } else {
            home->0
        }
    } else {
        path
    }
}

/// What path expansion yields: the tilde resolved, then a still-relative
/// path anchored at `base_dir` when one is given.
pub open spec fn expand_path_of(
    path: Seq<char>,
    home: Option<Seq<char>>,
    base_dir: Option<Seq<char>>,
) -> Seq<char> {
    let e = expand_tilde_of(path, home);
    if is_relative_path(e) && base_dir is Some {
        joined_path(base_dir->0, e)
    } else {
        e
    }
}

/// The view of an optional path.
pub open spec fn opt_path_view(o: Option<&str>) -> Option<Seq<char>> {
    match o {
        Some(s) => Some(s@),
        None => None,
    }
}

/// Appends a path segment, putting a `/` between unless the base is empty
/// or already ends in one.
fn join_path(base: &str, rel: &str) -> (r: String)
    ensures
        r@ == joined_path(base@, rel@),
{
    let n = base.unicode_len();
    if n == 0 {
        String::from_str(rel)
    } else if base.get_char(n - 1) == '/' {
        String::from_str(base).concat(rel)
    } else {
        String::from_str(base).concat("/").concat(rel)
    }
}

/// Expands a path: `~` against the home directory, then a relative result
/// against `base_dir`.  Paths are `/`-separated text.
pub fn expand_path(path: &str, home: Option<&str>, base_dir: Option<&str>) -> (r: String)
    ensures
        r@ == expand_path_of(path@, opt_path_view(home), opt_path_view(base_dir)),
{
    proof {
        reveal_strlit("~");
        reveal_strlit("~/");
    }
    let n = path.unicode_len();
    let expanded: String = if (str_eq(path, "~") || str_has_prefix(path, "~/")) && home.is_some() {
        let h = match home {
            Some(h) => h,
            None => "",
        };
        if n > 2 {
            let rest = path.substring_char(2, n);
            proof {
                assert(path@.subrange(2, n as int) =~= path@.skip(2));
            }
            join_path(h, rest)
        } else {
            String::from_str(h)
        }
    } else {
        String::from_str(path)
    };
    let en = expanded.as_str().unicode_len();
    let relative = !(en > 0 && expanded.as_str().get_char(0) == '/');
    if relative && base_dir.is_some() {
        let b = match base_dir {
            Some(b) => b,
            None => "",
        };
        join_path(b, expanded.as_str())
    } else {
        expanded
    }
}

/// Where the configuration is read from: an explicit path expanded, else
/// `naslock/config.toml` under the platform configuration directory, else
/// nothing when no directory is known.
pub fn resolve_config_path(
    cli_path: Option<&str>,
    home: Option<&str>,
    config_dir: Option<&str>,
) -> (r: Option<String>)
    ensures
        match cli_path {
            Some(p) => r matches Some(s) && s@ == expand_path_of(p@, opt_path_view(home), None),
            None => match config_dir {
                Some(d) => r matches Some(s) && s@ == joined_path(
                    joined_path(d@, "naslock"@),
                    "config.toml"@,
                ),
                None => r is None,
            },
        },
{
    match cli_path {
        Some(p) => Some(expand_path(p, home, None)),
        None => match config_dir {
            Some(d) => Some(join_path(join_path(d, "naslock").as_str(), "config.toml")),
            None => None,
        },
    }
}

} // verus!
