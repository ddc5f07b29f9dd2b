use vstd::prelude::*;
use vstd::slice::slice_subrange;

use base64::Engine;

verus! {

/// What base64's standard engine decodes `s` to, or `None` where `s` is not
/// valid standard base64.
pub uninterp spec fn base64_decoded(s: Seq<u8>) -> Option<Seq<u8>>;

/// The text that `b` encodes as UTF-8, or `None` where it is not valid UTF-8.
pub uninterp spec fn utf8_text(b: Seq<u8>) -> Option<Seq<char>>;

/// The value of `key` in `section` of the INI text `text`, as rust-ini
/// reads it, or `None` where the text does not parse or holds no such entry.
pub uninterp spec fn ini_lookup(text: Seq<char>, section: Seq<char>, key: Seq<char>) -> Option<
    Seq<char>,
>;

pub open spec fn bytes_view(r: Option<Vec<u8>>) -> Option<Seq<u8>> {
    match r {
        Some(v) => Some(v@),
        None => None,
    }
}

pub open spec fn text_view(r: Option<String>) -> Option<Seq<char>> {
    match r {
        Some(v) => Some(v@),
        None => None,
    }
}

/// Relies on base64's `Engine::decode` with the `STANDARD` engine; a decode
/// error becomes `None`.
#[verifier::external_body]
fn decode_base64(s: &[u8]) -> (r: Option<Vec<u8>>)
    ensures
        bytes_view(r) == base64_decoded(s@),
{
    base64::engine::general_purpose::STANDARD.decode(s).ok()
}

/// Relies on `String::from_utf8`; an invalid sequence becomes `None`.
#[verifier::external_body]
fn utf8_to_string(b: Vec<u8>) -> (r: Option<String>)
    ensures
        text_view(r) == utf8_text(b@),
{
    String::from_utf8(b).ok()
}

/// Relies on rust-ini's `Ini::load_from_str`, `Ini::section` and
/// `Properties::get`: parses `text` and reads `key` in `section`.
#[verifier::external_body]
fn ini_value(text: &str, section: &str, key: &str) -> (r: Option<String>)
    ensures
        text_view(r) == ini_lookup(text@, section@, key@),
{
    let conf = ini::Ini::load_from_str(text).ok()?;
    conf.section(Some(section))?.get(key).map(String::from)
}

/// The index of the first `b` in `s` at or after `from`, or `s.len()`.
pub open spec fn find_byte(s: Seq<u8>, b: u8, from: int) -> int
    decreases s.len() - from,
{
    if from < 0 || from >= s.len() {
        s.len() as int
    } else if s[from] == b {
        from
    } else {
        find_byte(s, b, from + 1)
    }
}

/// The second line of `s`, read as `BufRead::lines` reads lines: split at
/// `\n`, with a `\r` before that `\n` dropped. `None` when there is no
/// second line.
pub open spec fn second_line(s: Seq<u8>) -> Option<Seq<u8>> {
    let i = find_byte(s, 10, 0);
    if i + 1 >= s.len() {
        None
    } else {
        let e = find_byte(s, 10, i + 1);
        let raw = s.subrange(i + 1, e);
        if e < s.len() && raw.len() > 0 && raw.last() == 13 {
            Some(raw.drop_last())
        } else {
            Some(raw)
        }
    }
}

fn find_newline(s: &[u8], from: usize) -> (r: usize)
    requires
        from <= s@.len(),
    ensures
        r == find_byte(s@, 10, from as int),
        from <= r <= s@.len(),
{
    let mut k = from;
    while k < s.len()
        invariant
            from <= k <= s@.len(),
            find_byte(s@, 10, k as int) == find_byte(s@, 10, from as int),
        decreases s@.len() - k,
    {
        if s[k] == 10 {
            return k;
        }
        k += 1;
    }
    k
}

/// The sync folder recorded in a sync client's `host.db`: its second line,
/// base64-decoded, read as UTF-8.
pub fn folder_from_host_db(contents: &[u8]) -> (r: Option<String>)
    ensures
        text_view(r) == match second_line(contents@) {
            None => None,
            Some(line) => match base64_decoded(line) {
                None => None,
                Some(b) => utf8_text(b),
            },
        },
{
    let n = contents.len();
    let i = find_newline(contents, 0);
    if n == 0 || i >= n - 1 {
        return None;
    }
    let e = find_newline(contents, i + 1);
    let mut end = e;
    if e < n && e > i + 1 && contents[e - 1] == 13 {
        end = e - 1;
    }
    let line = slice_subrange(contents, i + 1, end);
    proof {
        let raw = contents@.subrange(i + 1, e as int);
        if e < n && raw.len() > 0 && raw.last() == 13 {
            assert(line@ =~= raw.drop_last());
        } else {
            assert(line@ =~= raw);
        }
    }
    match decode_base64(line) {
        None => None,
        Some(b) => utf8_to_string(b),
    }
}

/// The sync folder recorded in a sync client's INI configuration: the
/// `path` entry of its `sync` section.
pub fn folder_from_maestral(contents: &str) -> (r: Option<String>)
    ensures
        text_view(r) == ini_lookup(contents@, "sync"@, "path"@),
{
    ini_value(contents, "sync", "path")
}

/// The configured sync folder given what could be read of the two
/// configuration sources: `host.db` wins when present, then the INI file;
/// empty when neither yields a folder.
pub open spec fn configured_folder(host_db: Option<Seq<u8>>, ini_text: Option<Seq<char>>) -> Seq<
    char,
> {
    match host_db {
        Some(b) => match second_line(b) {
            Some(line) => match base64_decoded(line) {
                Some(d) => match utf8_text(d) {
                    Some(t) => t,
                    None => Seq::empty(),
                },
                None => Seq::empty(),
            },
            None => Seq::empty(),
        },
        None => match ini_text {
            Some(t) => match ini_lookup(t, "sync"@, "path"@) {
                Some(p) => p,
                None => Seq::empty(),
            },
            None => Seq::empty(),
        },
    }
}

/// Picks the sync folder from the contents of the two configuration
/// sources, each `None` where its file does not exist.
pub fn get_folder(host_db: Option<&[u8]>, maestral: Option<&str>) -> (r: String)
    ensures
        r@ == configured_folder(
            match host_db {
                Some(b) => Some(b@),
                None => None,
            },
            match maestral {
                Some(t) => Some(t@),
                None => None,
            },
        ),
{
    let found = match host_db {
        Some(b) => folder_from_host_db(b),
        None => match maestral {
            Some(t) => folder_from_maestral(t),
            None => None,
        },
    };
    match found {
        Some(p) => p,
        None => String::new(),
    }
}

} // verus!
