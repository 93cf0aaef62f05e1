//! Start-up argument handling: turning the one `source` argument (a file
//! path, a deeplink, or nothing) into the application's `Args`. Resolving a
//! path against the file system is the caller's job; the deeplink query is
//! parsed by the `url` crate and its `text` parameter decoded from base64
//! behind trusted items.

use vstd::prelude::*;
use vstd::utf8::{decode_utf8, valid_utf8};

use base64::Engine;

use crate::pathutil::{expand_tilde, opt_view, parent_of, parent_path};
use crate::strutil::{str_eq, str_starts_with};

verus! {

/// The application's start-up arguments.
#[derive(Clone, Debug)]
pub struct Args {
    /// The working directory.
    pub cwd: Option<String>,
    /// An existing source file to open.
    pub file: Option<String>,
    /// A source file that does not exist yet but whose directory does.
    pub new_file: Option<String>,
    /// A collaboration room from a deeplink.
    pub room: Option<String>,
    /// Text from a deeplink, base64-decoded.
    pub text: Option<String>,
}

#[verifier::external_type_specification]
#[verifier::external_body]
pub struct ExUrl(url::Url);

/// Relies on `url::Url::parse`: a parsed URL, or nothing for invalid input.
/// What a URL holds is not modeled, so nothing more is promised.
#[verifier::external_body]
fn url_parse(s: &str) -> (r: Option<url::Url>) {
    url::Url::parse(s).ok()
}

/// Relies on `url::Url::query_pairs`: the percent-decoded key/value pairs of
/// the URL's query string, in order. Their relation to the URL is not
/// modeled, so nothing more is promised.
#[verifier::external_body]
fn url_query_pairs(u: &url::Url) -> (r: Vec<(String, String)>) {
    u.query_pairs().into_owned().collect()
}

/// What the standard-alphabet base64 decoding of `s` yields, if `s` is valid
/// base64: the result depends on the characters alone.
pub uninterp spec fn base64_decoded(s: Seq<char>) -> Option<Seq<u8>>;

/// Relies on base64's standard-alphabet, padded decode
/// (`engine::general_purpose::STANDARD`).
#[verifier::external_body]
fn b64_decode(s: &str) -> (r: Option<Vec<u8>>)
    ensures
        r is Some <==> base64_decoded(s@) is Some,
        r is Some ==> r->Some_0@ == base64_decoded(s@)->Some_0,
{
    base64::engine::general_purpose::STANDARD.decode(s).ok()
}

/// Relies on `String::from_utf8`: succeeds exactly on valid UTF-8 and
/// decodes it.
#[verifier::external_body]
fn utf8_to_string(bytes: Vec<u8>) -> (r: Option<String>)
    ensures
        r is Some <==> valid_utf8(bytes@),
        r is Some ==> r->Some_0@ == decode_utf8(bytes@),
{
    String::from_utf8(bytes).ok()
}

/// The view of a list of query pairs.
pub open spec fn pair_views(s: Seq<(String, String)>) -> Seq<(Seq<char>, Seq<char>)> {
    s.map_values(|p: (String, String)| (p.0@, p.1@))
}

/// The value of the last pair with key `key`, the way collecting pairs into
/// a map keeps the last occurrence.
pub open spec fn last_value(pairs: Seq<(Seq<char>, Seq<char>)>, key: Seq<char>) -> Option<
    Seq<char>,
>
    decreases pairs.len(),
{
    if pairs.len() == 0 {
        None
    } else if pairs.last().0 == key {
        Some(pairs.last().1)
    } else {
        last_value(pairs.drop_last(), key)
    }
}

/// The deeplink `text` parameter decoded: base64, then UTF-8; anything
/// invalid yields nothing.
pub open spec fn decoded_text(v: Option<Seq<char>>) -> Option<Seq<char>> {
    match v {
        None => None,
        Some(t) => match base64_decoded(t) {
            None => None,
            Some(bytes) => if valid_utf8(bytes) {
                Some(decode_utf8(bytes))
            } else {
                None
            },
        },
    }
}

/// The value of the last query pair named `key`, if any.
fn last_param(pairs: &Vec<(String, String)>, key: &str) -> (r: Option<String>)
    ensures
        opt_view(r) == last_value(pair_views(pairs@), key@),
{
    let ghost pv = pair_views(pairs@);
    let n = pairs.len();
    proof {
        assert(pv.take(n as int) =~= pv);
    }
    let mut i: usize = n;
    while i > 0
        invariant
            n == pairs@.len(),
            pv == pair_views(pairs@),
            i <= n,
            last_value(pv, key@) == last_value(pv.take(i as int), key@),
        decreases i,
    {
        i = i - 1;
        proof {
            assert(pv.take(i + 1 as int).last() == pv[i as int]);
            assert(pv.take(i + 1 as int).drop_last() =~= pv.take(i as int));
        }
        if str_eq(pairs[i].0.as_str(), key) {
            return Some(pairs[i].1.clone());
        }
    }
    None
}

/// The arguments a deeplink's query pairs carry: the last `room` value, and
/// the last `text` value decoded from base64 to a UTF-8 string. No file is
/// opened; the working directory falls back to the caller's.
pub fn args_from_query_pairs(pairs: &Vec<(String, String)>, fallback_cwd: &Option<String>) -> (a:
    Args)
    ensures
        opt_view(a.cwd) == opt_view(*fallback_cwd),
        a.file is None,
        a.new_file is None,
        opt_view(a.room) == last_value(pair_views(pairs@), "room"@),
        opt_view(a.text) == decoded_text(last_value(pair_views(pairs@), "text"@)),
{
    let room = last_param(pairs, "room");
    let text = match last_param(pairs, "text") {
        Some(t) => match b64_decode(t.as_str()) {
            Some(bytes) => utf8_to_string(bytes),
            None => None,
        },
        None => None,
    };
    Args {
        cwd: match fallback_cwd {
            Some(ref c) => Some(c.clone()),
            None => None,
        },
        file: None,
        new_file: None,
        room,
        text,
    }
}

/// The source names a deeplink of the application's scheme.
pub open spec fn is_deeplink(source: Seq<char>) -> bool {
    "tinywrite://"@.is_prefix_of(source)
}

/// Builds the start-up arguments from the one `source` argument and what the
/// caller learned from the outside:
/// - `resolved`: the canonicalized path `source` names, with whether it is a
///   directory, when `source` resolved against the file system;
/// - `parent_exists`: whether the tilde-expanded `source` has an existing
///   parent directory (consulted only when it did not resolve);
/// - `fallback_cwd`: the caller's working directory.
///
/// A deeplink yields room and text from its query; an existing directory
/// becomes the working directory; an existing file is opened with its parent
/// as working directory; an unresolved path under an existing directory
/// becomes a file to create; anything else leaves only the working
/// directory.
pub fn create_args(
    source: &str,
    home: &Option<String>,
    resolved: &Option<(String, bool)>,
    parent_exists: bool,
    fallback_cwd: &Option<String>,
) -> (a: Args)
    ensures
        is_deeplink(source@) ==> {
            &&& a.file is None
            &&& a.new_file is None
            &&& opt_view(a.cwd) == opt_view(*fallback_cwd)
        },
        !is_deeplink(source@) ==> a.room is None && a.text is None,
        !is_deeplink(source@) && source@.len() == 0 ==> {
            &&& a.file is None
            &&& a.new_file is None
            &&& opt_view(a.cwd) == opt_view(*fallback_cwd)
        },
        !is_deeplink(source@) && source@.len() > 0 ==> {
            &&& (match *resolved {
                Some((ref p, true)) => {
                    &&& opt_view(a.cwd) == Some::<Seq<char>>(p@)
                    &&& a.file is None
                    &&& a.new_file is None
                },
                Some((ref p, false)) => {
                    &&& opt_view(a.file) == Some::<Seq<char>>(p@)
                    &&& a.new_file is None
                    &&& opt_view(a.cwd) == (match parent_of(p@) {
                        Some(d) => Some(d),
                        None => opt_view(*fallback_cwd),
                    })
                },
                None => {
                    &&& a.file is None
                    &&& opt_view(a.cwd) == opt_view(*fallback_cwd)
                    &&& (parent_exists && crate::pathutil::expanded_tilde(
                        source@,
                        opt_view(*home),
                    ) is Some ==> opt_view(a.new_file) == crate::pathutil::expanded_tilde(
                        source@,
                        opt_view(*home),
                    ))
                    &&& (!(parent_exists && crate::pathutil::expanded_tilde(
                        source@,
                        opt_view(*home),
                    ) is Some) ==> a.new_file is None)
                },
            })
        },
{
    if str_starts_with(source, "tinywrite://") {
        match url_parse(source) {
            Some(u) => {
                let pairs = url_query_pairs(&u);
                return args_from_query_pairs(&pairs, fallback_cwd);
            },
            None => {
                let empty: Vec<(String, String)> = Vec::new();
                return args_from_query_pairs(&empty, fallback_cwd);
            },
        }
    }
    let fallback: Option<String> = match fallback_cwd {
        Some(ref c) => Some(c.clone()),
        None => None,
    };
    if source.unicode_len() == 0 {
        return Args { cwd: fallback, file: None, new_file: None, room: None, text: None };
    }
    match resolved {
        Some((p, is_dir)) => {
            if *is_dir {
                Args {
                    cwd: Some(p.clone()),
                    file: None,
                    new_file: None,
                    room: None,
                    text: None,
                }
            } else {
                let cwd = match parent_path(p.as_str()) {
                    Some(d) => Some(d),
                    None => fallback,
                };
                Args { cwd, file: Some(p.clone()), new_file: None, room: None, text: None }
            }
        },
        None => {
            let new_file = if parent_exists {
                expand_tilde(source, home)
            } else {
                None
            };
            Args { cwd: fallback, file: None, new_file, room: None, text: None }
        },
    }
}

} // verus!
