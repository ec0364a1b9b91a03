//! Which build this is.
use vstd::prelude::*;

use crate::text;

verus! {

/// How many bytes of a hash are shown.
pub const SHORT_HASH: usize = 7;

/// The UTF-8 encoding of a hash, shortened.
pub open spec fn short_bytes(hash: Seq<char>) -> Seq<u8> {
    let bytes = vstd::utf8::encode_utf8(hash);
    if bytes.len() <= SHORT_HASH {
        bytes
    } else {
        bytes.take(SHORT_HASH as int)
    }
}

/// The hash can be shortened: the cut is not inside a character.
pub open spec fn can_be_shortened(hash: Seq<char>) -> bool {
    let bytes = vstd::utf8::encode_utf8(hash);
    bytes.len() > SHORT_HASH ==> vstd::utf8::is_char_boundary(bytes, SHORT_HASH as int)
}

/// The hash that names a build: the one that was handed in, shortened, or else what git described,
/// without white space around it, or else the word "unknown". An empty one does not count, nor
/// does a description that is no text.
pub open spec fn build_hash(injected: Option<Seq<char>>, described: Option<Seq<u8>>) -> Seq<char> {
    match (injected, described) {
        (Some(hash), _) if hash.len() > 0 => vstd::utf8::decode_utf8(short_bytes(hash)),
        (_, Some(bytes)) if vstd::utf8::valid_utf8(bytes) && text::trimmed(
            vstd::utf8::decode_utf8(bytes),
        ).len() > 0 => text::trimmed(vstd::utf8::decode_utf8(bytes)),
        _ => "unknown"@,
    }
}

fn shorten(hash: &str) -> (r: String)
    requires
        can_be_shortened(hash@),
    ensures
        r@ == vstd::utf8::decode_utf8(short_bytes(hash@)),
{
    let mut bytes = hash.as_bytes_vec();
    proof {
        vstd::utf8::encode_utf8_valid_utf8(hash@);
        vstd::utf8::encode_utf8_decode_utf8(hash@);
    }
    if bytes.len() <= SHORT_HASH {
        return hash.to_owned();
    }
    proof {
        vstd::utf8::valid_utf8_split(bytes@, SHORT_HASH as int);
    }
    assert(bytes@.subrange(0, SHORT_HASH as int) =~= short_bytes(hash@));
    bytes.truncate(SHORT_HASH);
    assert(bytes@ =~= short_bytes(hash@));
    match text::from_utf8(bytes) {
        Some(short) => short,
        None => String::new(),
    }
}

/// The hash that names a build. `injected` comes from the environment of the build, `described` is
/// what `git describe` printed where it could be run.
pub fn git_hash(injected: Option<&str>, described: Option<Vec<u8>>) -> (r: String)
    requires
        injected matches Some(hash) ==> can_be_shortened(hash@),
    ensures
        r@ == build_hash(
            match injected {
                Some(hash) => Some(hash@),
                None => None,
            },
            match described {
                Some(bytes) => Some(bytes@),
                None => None,
            },
        ),
{
    if let Some(hash) = injected {
        if !hash.is_empty() {
            return shorten(hash);
        }
    }
    if let Some(bytes) = described {
        if let Some(line) = text::from_utf8(bytes) {
            let hash = text::trim(line.as_str());
            if !hash.as_str().is_empty() {
                return hash;
            }
        }
    }
    "unknown".to_owned()
}

/// A hash of up to seven bytes is shown as it is, and a longer one by its beginning, of seven bytes.
pub proof fn law_hash_is_shortened(hash: Seq<char>)
    requires
        can_be_shortened(hash),
    ensures
        ({
            let short = vstd::utf8::decode_utf8(short_bytes(hash));
            &&& short.is_prefix_of(hash)
            &&& vstd::utf8::encode_utf8(short) == short_bytes(hash)
            &&& vstd::utf8::encode_utf8(hash).len() <= SHORT_HASH ==> short == hash
        }),
{
    let bytes = vstd::utf8::encode_utf8(hash);
    vstd::utf8::encode_utf8_valid_utf8(hash);
    vstd::utf8::encode_utf8_decode_utf8(hash);
    if bytes.len() > SHORT_HASH {
        let n = SHORT_HASH as int;
        vstd::utf8::valid_utf8_split(bytes, n);
        vstd::utf8::decode_utf8_split(bytes, n);
        assert(bytes.subrange(0, n) =~= short_bytes(hash));
        let short = vstd::utf8::decode_utf8(short_bytes(hash));
        assert(hash.subrange(0, short.len() as int) =~= short);
        vstd::utf8::decode_utf8_encode_utf8(short_bytes(hash));
    }
}

/// A hash that was handed in comes first, then what git described, then nothing: an empty hash, and a
/// description that is no text or white space alone, do not count. What git described is taken
/// whole, without the white space around it.
pub proof fn law_hash_comes_from(
    hash: Seq<char>,
    described: Option<Seq<u8>>,
    front: Seq<char>,
    core: Seq<char>,
    back: Seq<char>,
)
    requires
        text::all_white_space(front),
        text::all_white_space(back),
        core.len() > 0 ==> !text::is_white_space(core[0]) && !text::is_white_space(core.last()),
    ensures
        hash.len() > 0 ==> build_hash(Some(hash), described) == vstd::utf8::decode_utf8(
            short_bytes(hash),
        ),
        build_hash(Some(Seq::empty()), described) == build_hash(None, described),
        core.len() > 0 ==> build_hash(
            None,
            Some(vstd::utf8::encode_utf8(front + core + back)),
        ) == core,
        core.len() == 0 ==> build_hash(
            None,
            Some(vstd::utf8::encode_utf8(front + core + back)),
        ) == "unknown"@,
        described is None ==> build_hash(None, described) == "unknown"@,
        described matches Some(bytes) ==> (!vstd::utf8::valid_utf8(bytes) ==> build_hash(
            None,
            described,
        ) == "unknown"@),
{
    let whole = front + core + back;
    vstd::utf8::encode_utf8_valid_utf8(whole);
    vstd::utf8::encode_utf8_decode_utf8(whole);
    text::law_trim_takes_the_white_space(front, core, back);
}

} // verus!
