//! Derivation of stable document identifiers from filesystem paths.
//!
//! An identifier is `filename + "-" + hash` where `filename` is the last
//! path segment with `.` replaced by `-` (or `unknown` when the path has no
//! segment), and `hash` is the first eight lowercase hex digits of a
//! deterministic 64-bit hash of the whole path. The same path always yields
//! the same identifier, in every process.

use vstd::prelude::*;

verus! {

/// Offset basis of the 64-bit FNV-1a hash.
pub const HASH_SEED: u64 = 0xcbf29ce484222325;

/// Multiplier of the 64-bit FNV-1a hash.
pub const HASH_PRIME: u64 = 0x100000001b3;

/// One step of the hash: fold one character into the accumulator.
pub open spec fn hash_step(h: u64, c: char) -> u64 {
    vstd::wrapping::u64_specs::wrapping_mul(h ^ (c as u64), HASH_PRIME)
}

/// Hash of a whole character sequence, folding left to right.
pub open spec fn hash_chars(s: Seq<char>) -> u64
    decreases s.len(),
{
    if s.len() == 0 {
        HASH_SEED
    } else {
        hash_step(hash_chars(s.drop_last()), s.last())
    }
}

/// Deterministic 64-bit hash of a path string.
pub fn hash_path(s: &str) -> (h: u64)
    ensures
        h == hash_chars(s@),
{
    let len = s.unicode_len();
    let mut h: u64 = HASH_SEED;
    let mut i: usize = 0;
    while i < len
        invariant
            len == s@.len(),
            i <= len,
            h == hash_chars(s@.take(i as int)),
        decreases len - i,
    {
        let c = s.get_char(i);
        h = (h ^ (c as u64)).wrapping_mul(HASH_PRIME);
        proof {
            assert(s@.take(i + 1 as int).drop_last() =~= s@.take(i as int));
            assert(s@.take(i + 1 as int).last() == s@[i as int]);
        }
        i = i + 1;
    }
    proof {
        assert(s@.take(len as int) =~= s@);
    }
    h
}

/// Character-for-character string equality.
pub fn str_eq(a: &str, b: &str) -> (r: bool)
    ensures
        r == (a@ == b@),
{
    a.to_owned() == b.to_owned()
}

/// Lowercase hex digit for a value below 16.
pub open spec fn hex_digit(d: u64) -> char {
    if d == 0 {
        '0'
    } else if d == 1 {
        '1'
    } else if d == 2 {
        '2'
    } else if d == 3 {
        '3'
    } else if d == 4 {
        '4'
    } else if d == 5 {
        '5'
    } else if d == 6 {
        '6'
    } else if d == 7 {
        '7'
    } else if d == 8 {
        '8'
    } else if d == 9 {
        '9'
    } else if d == 10 {
        'a'
    } else if d == 11 {
        'b'
    } else if d == 12 {
        'c'
    } else if d == 13 {
        'd'
    } else if d == 14 {
        'e'
    } else {
        'f'
    }
}

/// Lowercase hex rendering of a 64-bit value, most significant digit first,
/// without leading zeros (a single `0` for zero itself).
pub open spec fn hex_seq(n: u64) -> Seq<char>
    decreases n,
{
    if n < 16 {
        seq![hex_digit(n)]
    } else {
        hex_seq(n / 16).push(hex_digit(n % 16))
    }
}

/// The hash part of a document id: the first eight hex digits of the path
/// hash (all of them when the rendering is shorter).
pub open spec fn short_hash(path: Seq<char>) -> Seq<char> {
    let digits = hex_seq(hash_chars(path));
    if digits.len() <= 8 {
        digits
    } else {
        digits.take(8)
    }
}

pub(crate) fn hex_digit_str(d: u64) -> (r: &'static str)
    requires
        d < 16,
    ensures
        r@ =~= seq![hex_digit(d)],
{
    proof {
        reveal_strlit("0");
        reveal_strlit("1");
        reveal_strlit("2");
        reveal_strlit("3");
        reveal_strlit("4");
        reveal_strlit("5");
        reveal_strlit("6");
        reveal_strlit("7");
        reveal_strlit("8");
        reveal_strlit("9");
        reveal_strlit("a");
        reveal_strlit("b");
        reveal_strlit("c");
        reveal_strlit("d");
        reveal_strlit("e");
        reveal_strlit("f");
    }
    if d == 0 {
        "0"
    } else if d == 1 {
        "1"
    } else if d == 2 {
        "2"
    } else if d == 3 {
        "3"
    } else if d == 4 {
        "4"
    } else if d == 5 {
        "5"
    } else if d == 6 {
        "6"
    } else if d == 7 {
        "7"
    } else if d == 8 {
        "8"
    } else if d == 9 {
        "9"
    } else if d == 10 {
        "a"
    } else if d == 11 {
        "b"
    } else if d == 12 {
        "c"
    } else if d == 13 {
        "d"
    } else if d == 14 {
        "e"
    } else {
        "f"
    }
}

fn hex_string(n: u64) -> (r: String)
    ensures
        r@ == hex_seq(n),
    decreases n,
{
    if n < 16 {
        hex_digit_str(n).to_owned()
    } else {
        let mut s = hex_string(n / 16);
        s.append(hex_digit_str(n % 16));
        proof {
            assert(hex_seq(n / 16).push(hex_digit(n % 16)) =~= hex_seq(n / 16) + seq![
                hex_digit(n % 16),
            ]);
        }
        s
    }
}

/// Characters of the last path segment: everything after the final `/`
/// (the whole string when it holds no `/`, nothing when it ends in `/`).
pub open spec fn file_name_part(p: Seq<char>) -> Seq<char>
    decreases p.len(),
{
    if p.len() == 0 {
        Seq::empty()
    } else if p.last() == '/' {
        Seq::empty()
    } else {
        file_name_part(p.drop_last()).push(p.last())
    }
}

pub(crate) fn file_name_of(s: &str) -> (r: String)
    ensures
        r@ == file_name_part(s@),
{
    let len = s.unicode_len();
    let mut start: usize = 0;
    let mut i: usize = 0;
    while i < len
        invariant
            len == s@.len(),
            start <= i <= len,
            file_name_part(s@.take(i as int)) =~= s@.subrange(start as int, i as int),
        decreases len - i,
    {
        let c = s.get_char(i);
        proof {
            assert(s@.take(i + 1 as int).drop_last() =~= s@.take(i as int));
            assert(s@.take(i + 1 as int).last() == s@[i as int]);
        }
        if c == '/' {
            start = i + 1;
        } else {
            proof {
                assert(s@.subrange(start as int, i as int).push(s@[i as int]) =~= s@.subrange(
                    start as int,
                    i + 1 as int,
                ));
            }
        }
        i = i + 1;
    }
    proof {
        assert(s@.take(len as int) =~= s@);
    }
    s.substring_char(start, len).to_owned()
}

/// The index of the last `.` of a file name, never counting a leading `.`
/// (a hidden file's whole name is its stem); negative when there is none.
pub open spec fn last_dot(name: Seq<char>) -> int
    decreases name.len(),
{
    if name.len() <= 1 {
        -1
    } else if name.last() == '.' {
        name.len() - 1
    } else {
        last_dot(name.drop_last())
    }
}

/// A file name without its extension: everything before the last `.`, or
/// the whole name when it has no extension.
pub open spec fn stem_of(name: Seq<char>) -> Seq<char> {
    if last_dot(name) < 0 {
        name
    } else {
        name.take(last_dot(name))
    }
}

pub(crate) fn stem_of_exec(name: &str) -> (r: String)
    ensures
        r@ == stem_of(name@),
{
    let len = name.unicode_len();
    let mut i = len;
    proof {
        assert(name@.take(len as int) =~= name@);
    }
    while i > 1
        invariant
            len == name@.len(),
            i <= len,
            last_dot(name@) == last_dot(name@.take(i as int)),
        decreases i,
    {
        proof {
            assert(name@.take(i as int).drop_last() =~= name@.take(i - 1 as int));
            assert(name@.take(i as int).last() == name@[i - 1 as int]);
        }
        if name.get_char(i - 1) == '.' {
            return name.substring_char(0, i - 1).to_owned();
        }
        i = i - 1;
    }
    proof {
        assert(last_dot(name@.take(i as int)) == -1);
    }
    name.to_owned()
}

/// A path-segment character made safe for use inside an id: `.` becomes `-`.
pub open spec fn sanitize_char(c: char) -> char {
    if c == '.' {
        '-'
    } else {
        c
    }
}

/// The segment with every `.` replaced by `-`.
pub open spec fn sanitize(s: Seq<char>) -> Seq<char>
    decreases s.len(),
{
    if s.len() == 0 {
        Seq::empty()
    } else {
        sanitize(s.drop_last()).push(sanitize_char(s.last()))
    }
}

fn sanitize_name(s: &str) -> (r: String)
    ensures
        r@ == sanitize(s@),
{
    let len = s.unicode_len();
    let mut out = String::new();
    let mut i: usize = 0;
    while i < len
        invariant
            len == s@.len(),
            i <= len,
            out@ =~= sanitize(s@.take(i as int)),
        decreases len - i,
    {
        let c = s.get_char(i);
        proof {
            assert(s@.take(i + 1 as int).drop_last() =~= s@.take(i as int));
            assert(s@.take(i + 1 as int).last() == s@[i as int]);
            reveal_strlit("-");
        }
        if c == '.' {
            out.append("-");
        } else {
            let piece = s.substring_char(i, i + 1);
            proof {
                assert(piece@ =~= seq![s@[i as int]]);
            }
            out.append(piece);
        }
        i = i + 1;
    }
    proof {
        assert(s@.take(len as int) =~= s@);
    }
    out
}

/// The identifier derived from a path: sanitized filename (or `unknown`),
/// a dash, and the short hash of the whole path.
pub open spec fn doc_id_of(path: Seq<char>) -> Seq<char> {
    let name = file_name_part(path);
    let base = if name.len() == 0 {
        "unknown"@
    } else {
        sanitize(name)
    };
    base + "-"@ + short_hash(path)
}

/// Derives a stable, human-readable document id from a file path.
///
/// Deterministic: the same path always yields the same id, in every process
/// and across restarts. Callers that want ids independent of the working
/// directory pass an absolute path. Total: a path without a final segment
/// falls back to the placeholder `unknown` instead of failing.
pub fn generate_document_id(filepath: &str) -> (id: String)
    ensures
        id@ == doc_id_of(filepath@),
{
    let name = file_name_of(filepath);
    let mut base = if name.unicode_len() == 0 {
        "unknown".to_owned()
    } else {
        sanitize_name(name.as_str())
    };
    base.append("-");
    let digits = hex_string(hash_path(filepath));
    let short = if digits.unicode_len() <= 8 {
        digits
    } else {
        digits.as_str().substring_char(0, 8).to_owned()
    };
    proof {
        assert(short@ =~= short_hash(filepath@));
    }
    base.append(short.as_str());
    proof {
        assert(base@ =~= doc_id_of(filepath@));
    }
    base
}

} // verus!
