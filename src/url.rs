//! Download URLs of source files: the repository's URL pattern with its
//! `{relpath}` and `{git_commit}` variables filled in.

use vstd::prelude::*;
use vstd::utf8::encode_utf8;
use crate::text::{chars_of, string_of, extend_chars, same_text};
use crate::template::{template_keys, render_template, template_keys_of, rendered_of, pair_views};

verus! {

/// What relative_path's `normalize` makes of the path `s` (`.` segments
/// dropped, `..` resolved against the segment before it where there is one),
/// written with `/` separators.
pub uninterp spec fn normalized_of(s: Seq<char>) -> Seq<char>;

/// Relies on `relative_path::RelativePath::normalize`: the normalised form of
/// the relative path `s`, as text.
#[verifier::external_body]
pub(crate) fn normalize_relpath(s: &str) -> (r: String)
    ensures
        r@ == normalized_of(s@),
{
    relative_path::RelativePath::new(s).normalize().to_string()
}

/// The upper-case hexadecimal digit of `d`.
pub open spec fn hex_upper(d: nat) -> char {
    if d < 10 {
        crate::version::digit_char(d)
    } else if d == 10 { 'A' } else if d == 11 { 'B' } else if d == 12 { 'C' }
    else if d == 13 { 'D' } else if d == 14 { 'E' } else { 'F' }
}

/// The percent escape of one byte: `%` and two upper-case hex digits.
pub open spec fn percent_escape(b: u8) -> Seq<char> {
    seq!['%', hex_upper((b / 16) as nat), hex_upper((b % 16) as nat)]
}

/// The bytes that stay as they are in an encoded path: ASCII letters and
/// digits, `/`, `.`, `-` and `_`.
pub open spec fn path_safe(b: u8) -> bool {
    (48 <= b <= 57) || (65 <= b <= 90) || (97 <= b <= 122) || b == 47 || b == 46 || b == 45 || b == 95
}

/// The percent-encoding of a byte string, every byte that is not path-safe
/// escaped.
pub open spec fn encode_path_bytes(bs: Seq<u8>) -> Seq<char>
    decreases bs.len(),
{
    if bs.len() == 0 {
        Seq::empty()
    } else {
        encode_path_bytes(bs.drop_last()) + if path_safe(bs.last()) {
            seq![bs.last() as char]
        } else {
            percent_escape(bs.last())
        }
    }
}

/// Relies on `percent_encoding::percent_encode_byte`: `%` followed by the
/// two upper-case hex digits of `b`.
#[verifier::external_body]
fn percent_byte(b: u8) -> (r: &'static str)
    ensures
        r@ == percent_escape(b),
{
    percent_encoding::percent_encode_byte(b)
}

fn is_path_safe(b: u8) -> (r: bool)
    ensures
        r == path_safe(b),
{
    (48 <= b && b <= 57) || (65 <= b && b <= 90) || (97 <= b && b <= 122) || b == 47 || b == 46 || b
        == 45 || b == 95
}

/// The URL form of a path relative to the repository root: normalised, then
/// its UTF-8 bytes percent-encoded except ASCII letters, digits, `/`, `.`,
/// `-` and `_`.
pub fn url_encode_path(path: &str) -> (r: String)
    ensures
        r@ == encode_path_bytes(encode_utf8(normalized_of(path@))),
{
    let norm = normalize_relpath(path);
    let bytes = norm.as_str().as_bytes();
    let mut out: Vec<char> = Vec::new();
    let mut i: usize = 0;
    while i < bytes.len()
        invariant
            i <= bytes@.len(),
            bytes@ == encode_utf8(normalized_of(path@)),
            out@ == encode_path_bytes(bytes@.take(i as int)),
        decreases bytes@.len() - i,
    {
        let b = bytes[i];
        assert(bytes@.take(i + 1).drop_last() =~= bytes@.take(i as int));
        if is_path_safe(b) {
            out.push(b as char);
        } else {
            let esc = chars_of(percent_byte(b));
            extend_chars(&mut out, &esc);
        }
        i = i + 1;
    }
    assert(bytes@.take(i as int) =~= bytes@);
    string_of(&out)
}

/// Why a URL could not be rendered.
#[derive(Debug)]
pub enum UrlError {
    /// The pattern is not a template that leon accepts.
    InvalidPattern,
    /// A variable that is not known, written with its braces (`{foo}`).
    UnknownVariable(String),
    /// `{git_commit}` is used and no revision id is at hand.
    CommitUnavailable,
}

/// Whether a key of the URL pattern has a value.
pub open spec fn url_key_known(key: Seq<char>, commit: Option<Seq<char>>) -> bool {
    key == "relpath"@ || (key == "git_commit"@ && commit is Some)
}

/// The key/value pairs that a URL pattern is rendered with.
pub open spec fn url_values(encoded: Seq<char>, commit: Option<Seq<char>>) -> Seq<(Seq<char>, Seq<char>)> {
    match commit {
        Some(c) => seq![("relpath"@, encoded), ("git_commit"@, c)],
        None => seq![("relpath"@, encoded)],
    }
}

pub open spec fn opt_text(o: Option<&str>) -> Option<Seq<char>> {
    match o {
        Some(s) => Some(s@),
        None => None,
    }
}

/// Whether one of `keys` is `git_commit`.
pub open spec fn uses_commit(keys: Seq<Seq<char>>) -> bool {
    exists|i: int| 0 <= i < keys.len() && #[trigger] keys[i] == "git_commit"@
}

/// Whether every one of `keys` has a value.
pub open spec fn all_known(keys: Seq<Seq<char>>, commit: Option<Seq<char>>) -> bool {
    forall|i: int| 0 <= i < keys.len() ==> url_key_known(#[trigger] keys[i], commit)
}

/// Whether `keys[i]` is the first key, in order, that has no value.
pub open spec fn first_unknown(keys: Seq<Seq<char>>, commit: Option<Seq<char>>, i: int) -> bool {
    0 <= i < keys.len() && !url_key_known(keys[i], commit) && forall|j: int|
        0 <= j < i ==> url_key_known(#[trigger] keys[j], commit)
}

/// Renders `pattern` for the source at `relpath` (relative to the repository
/// root), with `git_commit` as the revision id where one is at hand. The first
/// key, in order, that has no value decides the error.
pub fn render_url(pattern: &str, relpath: &str, git_commit: Option<&str>) -> (r: Result<String, UrlError>)
    ensures
        match r {
            Ok(url) => template_keys_of(pattern@) is Some && all_known(
                template_keys_of(pattern@)->0,
                opt_text(git_commit),
            ) && url@ == rendered_of(
                pattern@,
                url_values(encode_path_bytes(encode_utf8(normalized_of(relpath@))), opt_text(git_commit)),
            ),
            Err(UrlError::InvalidPattern) => template_keys_of(pattern@) is None,
            Err(UrlError::UnknownVariable(name)) => template_keys_of(pattern@) is Some && exists|i: int|
                #[trigger] first_unknown(template_keys_of(pattern@)->0, opt_text(git_commit), i)
                    && template_keys_of(pattern@)->0[i] != "git_commit"@ && name@ == "{"@
                    + template_keys_of(pattern@)->0[i] + "}"@,
            Err(UrlError::CommitUnavailable) => template_keys_of(pattern@) is Some && exists|i: int|
                #[trigger] first_unknown(template_keys_of(pattern@)->0, opt_text(git_commit), i)
                    && template_keys_of(pattern@)->0[i] == "git_commit"@,
        },
{
    let keys = match template_keys(pattern) {
        Ok(k) => k,
        Err(_) => {
            return Err(UrlError::InvalidPattern);
        },
    };
    let ghost kv = template_keys_of(pattern@)->0;
    proof {
        reveal_strlit("relpath");
        reveal_strlit("git_commit");
        assert("relpath"@.len() == 7 && "git_commit"@.len() == 10);
    }
    let mut i: usize = 0;
    while i < keys.len()
        invariant
            i <= keys@.len() == kv.len(),
            "relpath"@ != "git_commit"@,
            forall|j: int| 0 <= j < kv.len() ==> kv[j] == (#[trigger] keys@[j])@,
            template_keys_of(pattern@) == Some(kv),
            forall|j: int| 0 <= j < i ==> url_key_known(#[trigger] kv[j], opt_text(git_commit)),
        decreases keys@.len() - i,
    {
        let key = keys[i].as_str();
        assert(kv[i as int] == keys@[i as int]@);
        if same_text(key, "git_commit") {
            if git_commit.is_none() {
                assert(kv[i as int] == "git_commit"@);
                assert(template_keys_of(pattern@)->0 == kv);
                assert(first_unknown(template_keys_of(pattern@)->0, opt_text(git_commit), i as int));
                assert(template_keys_of(pattern@)->0[i as int] == "git_commit"@);
                return Err(UrlError::CommitUnavailable);
            }
        } else if !same_text(key, "relpath") {
            let mut name = chars_of("{");
            extend_chars(&mut name, &chars_of(key));
            extend_chars(&mut name, &chars_of("}"));
            assert(name@ == "{"@ + kv[i as int] + "}"@);
            assert(template_keys_of(pattern@)->0 == kv);
            assert(first_unknown(template_keys_of(pattern@)->0, opt_text(git_commit), i as int));
            let name = string_of(&name);
            return Err(UrlError::UnknownVariable(name));
        }
        i = i + 1;
    }
    let encoded = url_encode_path(relpath);
    let mut values: Vec<(String, String)> = vec![("relpath".to_owned(), encoded)];
    match git_commit {
        Some(c) => values.push(("git_commit".to_owned(), c.to_owned())),
        None => {},
    }
    let ghost enc = encode_path_bytes(encode_utf8(normalized_of(relpath@)));
    assert(pair_views(values@) =~= url_values(enc, opt_text(git_commit)));
    match render_template(pattern, &values) {
        Ok(Ok(url)) => Ok(url),
        Ok(Err(_)) => {
            proof {
                reveal_strlit("relpath");
                reveal_strlit("git_commit");
                let k = choose|k: int| 0 <= k < kv.len() && !crate::template::has_value(pair_views(values@), #[trigger] kv[k]);
                assert(url_key_known(kv[k], opt_text(git_commit)));
                if kv[k] == "relpath"@ {
                    assert(pair_views(values@)[0].0 == kv[k]);
                } else {
                    assert(pair_views(values@)[1].0 == kv[k]);
                }
            }
            Err(UrlError::InvalidPattern)
        },
        Err(_) => Err(UrlError::InvalidPattern),
    }
}

/// Whether `pattern` uses `{git_commit}`, so that a revision id is needed;
/// an error where the pattern is not a template that leon accepts.
pub fn pattern_uses_commit(pattern: &str) -> (r: Result<bool, UrlError>)
    ensures
        match r {
            Ok(b) => template_keys_of(pattern@) is Some && b == uses_commit(
                template_keys_of(pattern@)->0,
            ),
            Err(e) => template_keys_of(pattern@) is None && e is InvalidPattern,
        },
{
    let keys = match template_keys(pattern) {
        Ok(k) => k,
        Err(_) => {
            return Err(UrlError::InvalidPattern);
        },
    };
    let ghost kv = template_keys_of(pattern@)->0;
    let mut i: usize = 0;
    while i < keys.len()
        invariant
            i <= keys@.len() == kv.len(),
            forall|j: int| 0 <= j < kv.len() ==> kv[j] == (#[trigger] keys@[j])@,
            template_keys_of(pattern@) == Some(kv),
            forall|j: int| 0 <= j < i ==> #[trigger] kv[j] != "git_commit"@,
        decreases keys@.len() - i,
    {
        assert(keys@[i as int]@ == kv[i as int]);
        assert(kv[i as int] == keys@[i as int]@);
        if same_text(keys[i].as_str(), "git_commit") {
            assert(kv[i as int] == "git_commit"@);
            assert(uses_commit(kv));
            return Ok(true);
        }
        i = i + 1;
    }
    assert(!uses_commit(kv));
    Ok(false)
}

} // verus!
