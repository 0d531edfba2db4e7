//! Stored credentials and the rules that pick the daemon URL, the API key
//! and the default project.

use vstd::prelude::*;

use crate::cli::Command;
use crate::text::{radix_digits, radix_string, trim_end_char, trim_end_slashes, trim_white, trim_white_space};

verus! {

/// The daemon URL used when nothing else names one.
pub open spec fn default_url() -> Seq<char> {
    "https://api.cantrip.ai"@
}

/// The credentials that `login` stores.
#[derive(Debug, Clone)]
pub struct Credentials {
    pub api_key: String,
    pub daemon_url: String,
    /// The project used when a command names none.
    pub default_project: Option<String>,
}

/// The URL that `login` validates against: `--url`, else a non-empty
/// `CANTRIP_URL`, each without trailing slashes, else the default URL.
pub open spec fn login_url_choice(flag: Option<Seq<char>>, env: Option<Seq<char>>) -> Seq<char> {
    match flag {
        Some(u) => trim_end_char(u, '/'),
        None => match env {
            Some(e) if e.len() > 0 => trim_end_char(e, '/'),
            _ => default_url(),
        },
    }
}

fn default_url_string() -> (r: String)
    ensures
        r@ == default_url(),
{
    String::from_str("https://api.cantrip.ai")
}

/// Picks the URL for `login` from the `--url` flag and the value of the
/// `CANTRIP_URL` environment variable (the stored credentials are not read,
/// as login is about to write them).
pub fn resolve_url_for_login(url_flag: Option<&str>, env_url: Option<&str>) -> (r: String)
    ensures
        r@ == login_url_choice(
            match url_flag {
                Some(u) => Some(u@),
                None => None,
            },
            match env_url {
                Some(e) => Some(e@),
                None => None,
            },
        ),
{
    if let Some(u) = url_flag {
        return trim_end_slashes(u);
    }
    if let Some(e) = env_url {
        if !e.is_empty() {
            return trim_end_slashes(e);
        }
    }
    default_url_string()
}

/// The daemon URL for a request: a non-empty `CANTRIP_URL` without
/// trailing slashes, else a non-empty stored URL as it is, else the default
/// URL.
pub open spec fn daemon_url_choice(env: Option<Seq<char>>, stored: Option<Seq<char>>) -> Seq<
    char,
> {
    match env {
        Some(e) if e.len() > 0 => trim_end_char(e, '/'),
        _ => match stored {
            Some(s) if s.len() > 0 => s,
            _ => default_url(),
        },
    }
}

/// Picks the daemon URL from the value of `CANTRIP_URL` and the stored
/// credentials.
pub fn resolve_url(env_url: Option<&str>, stored: Option<&Credentials>) -> (r: String)
    ensures
        r@ == daemon_url_choice(
            match env_url {
                Some(e) => Some(e@),
                None => None,
            },
            match stored {
                Some(c) => Some(c.daemon_url@),
                None => None,
            },
        ),
{
    if let Some(e) = env_url {
        if !e.is_empty() {
            return trim_end_slashes(e);
        }
    }
    if let Some(c) = stored {
        if !c.daemon_url.as_str().is_empty() {
            return c.daemon_url.clone();
        }
    }
    default_url_string()
}

/// The API key for a request: a non-empty `CANTRIP_API_KEY`, else a
/// non-empty stored key, else none.
pub open spec fn api_key_choice(env: Option<Seq<char>>, stored: Option<Seq<char>>) -> Option<
    Seq<char>,
> {
    match env {
        Some(e) if e.len() > 0 => Some(e),
        _ => match stored {
            Some(s) if s.len() > 0 => Some(s),
            _ => None,
        },
    }
}

/// Picks the API key from the value of `CANTRIP_API_KEY` and the stored
/// credentials.
pub fn resolve_api_key(env_key: Option<&str>, stored: Option<&Credentials>) -> (r: Option<String>)
    ensures
        match r {
            Some(k) => api_key_choice(
                match env_key {
                    Some(e) => Some(e@),
                    None => None,
                },
                match stored {
                    Some(c) => Some(c.api_key@),
                    None => None,
                },
            ) == Some(k@),
            None => api_key_choice(
                match env_key {
                    Some(e) => Some(e@),
                    None => None,
                },
                match stored {
                    Some(c) => Some(c.api_key@),
                    None => None,
                },
            ) is None,
        },
{
    if let Some(e) = env_key {
        if !e.is_empty() {
            return Some(String::from_str(e));
        }
    }
    if let Some(c) = stored {
        if !c.api_key.as_str().is_empty() {
            return Some(c.api_key.clone());
        }
    }
    None
}

/// Whether a command without an API key is warned that it is not
/// authenticated: every command but `login` and `logout`.
pub fn warns_without_key(command: &Command) -> (r: bool)
    ensures
        r == !(command is Login || command is Logout),
{
    match command {
        Command::Login { .. } | Command::Logout => false,
        _ => true,
    }
}

/// The key that `login` reads from its prompt: the entry without leading
/// and trailing white space, where anything is left.
pub fn entered_key(line: &str) -> (r: Option<String>)
    ensures
        match r {
            Some(k) => trim_white(line@).len() > 0 && k@ == trim_white(line@),
            None => trim_white(line@).len() == 0,
        },
{
    let k = trim_white_space(line);
    if k.as_str().is_empty() {
        None
    } else {
        Some(k)
    }
}

/// The credentials after `project switch` to `slug`: the stored ones with
/// the new default project, or, where none are stored, empty key and URL
/// with it.
pub fn with_default_project(stored: Option<Credentials>, slug: &str) -> (r: Credentials)
    ensures
        r.default_project matches Some(p) && p@ == slug@,
        match stored {
            Some(c) => r.api_key == c.api_key && r.daemon_url == c.daemon_url,
            None => r.api_key@.len() == 0 && r.daemon_url@.len() == 0,
        },
{
    match stored {
        Some(c) => Credentials {
            api_key: c.api_key,
            daemon_url: c.daemon_url,
            default_project: Some(String::from_str(slug)),
        },
        None => Credentials {
            api_key: String::new(),
            daemon_url: String::new(),
            default_project: Some(String::from_str(slug)),
        },
    }
}

/// The warning for a credential file whose permission bits are not
/// owner read and write only: the bits in octal and the fix.
pub open spec fn permission_warning_text(mode: u32, path: Seq<char>) -> Option<Seq<char>> {
    let bits = mode & 0o777u32;
    if bits != 0o600u32 {
        Some(
            "Warning: credential file has insecure permissions ("@ + radix_digits(bits as nat, 8)
                + "). Run: chmod 600 "@ + path,
        )
    } else {
        None
    }
}

/// The warning for a credential file with file mode `mode` at `path`, if
/// its permission bits are not 0600.
pub fn permission_warning(mode: u32, path: &str) -> (r: Option<String>)
    ensures
        match r {
            Some(w) => permission_warning_text(mode, path@) == Some(w@),
            None => permission_warning_text(mode, path@) is None,
        },
{
    let bits = mode & 0o777u32;
    if bits != 0o600u32 {
        let mut w = String::from_str("Warning: credential file has insecure permissions (");
        let octal = radix_string(bits as u64, 8);
        w.append(octal.as_str());
        w.append("). Run: chmod 600 ");
        w.append(path);
        Some(w)
    } else {
        None
    }
}

} // verus!
