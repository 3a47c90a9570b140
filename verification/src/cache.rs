//! The rules of the summary cache: the text of a key, and when an entry is stale.

use crate::decimal::digit_char;
use crate::text::chars_of;
use std::collections::hash_map::DefaultHasher;
use std::hash::Hasher;
use vstd::prelude::*;
use vstd::std_specs::hash::DefaultHasherAdditionalSpecFns;
use vstd::string::StringSliceAdditionalSpecFns;

verus! {

/// The character of a hexadecimal digit, in lower case.
pub open spec fn hex_char(d: int) -> char {
    if d < 10 {
        digit_char(d)
    } else if d == 10 {
        'a'
    } else if d == 11 {
        'b'
    } else if d == 12 {
        'c'
    } else if d == 13 {
        'd'
    } else if d == 14 {
        'e'
    } else {
        'f'
    }
}

/// The hexadecimal digits of `n` in lower case, most significant first,
/// without leading zeros.
pub open spec fn hex_of(n: nat) -> Seq<char>
    decreases n,
{
    if n < 16 {
        seq![hex_char(n as int)]
    } else {
        hex_of(n / 16).push(hex_char((n % 16) as int))
    }
}

/// Whether an entry that was stored at `cached_at` is stale at `now`: more
/// than `ttl_hours` hours have passed. The instants are in nanoseconds.
pub open spec fn stale(cached_at: i64, now: i64, ttl_hours: u32) -> bool {
    now - cached_at > ttl_hours * 3_600_000_000_000
}

/// The character of the hexadecimal digit `d`.
pub fn char_of_hex(d: u8) -> (c: char)
    requires
        d < 16,
    ensures
        c == hex_char(d as int),
{
    if d < 10 {
        crate::decimal::char_of_digit(d)
    } else if d == 10 {
        'a'
    } else if d == 11 {
        'b'
    } else if d == 12 {
        'c'
    } else if d == 13 {
        'd'
    } else if d == 14 {
        'e'
    } else {
        'f'
    }
}

/// Appends the hexadecimal digits of `n` to `out`.
pub fn push_hex(out: &mut Vec<char>, n: u64)
    ensures
        final(out)@ == old(out)@ + hex_of(n as nat),
    decreases n,
{
    if n >= 16 {
        push_hex(out, n / 16);
    }
    out.push(char_of_hex((n % 16) as u8));
    proof {
        assert(out@ =~= old(out)@ + hex_of(n as nat));
    }
}

/// The key under which a summary is cached, from the hash of the
/// repository's path and its commit hashes.
pub fn cache_key(hash: u64) -> (key: String)
    ensures
        key@ == "summary_"@ + hex_of(hash as nat),
{
    let mut out: Vec<char> = chars_of("summary_");
    push_hex(&mut out, hash);
    crate::text::string_of(&out)
}

/// What is written to the hasher for a key: the bytes of the path and of
/// each commit hash in turn, each followed by one byte that no text holds.
pub open spec fn key_writes(repo_path: Seq<char>, commit_hashes: Seq<String>) -> Seq<Seq<u8>>
    decreases commit_hashes.len(),
{
    if commit_hashes.len() == 0 {
        seq![vstd::utf8::encode_utf8(repo_path), seq![0xffu8]]
    } else {
        key_writes(repo_path, commit_hashes.drop_last()).push(
            vstd::utf8::encode_utf8(commit_hashes.last()@),
        ).push(seq![0xffu8])
    }
}

/// Writes a text to the hasher as the standard library hashes a string: its
/// bytes, then the byte `0xff`.
fn write_text(hasher: &mut DefaultHasher, text: &str)
    ensures
        final(hasher)@ == old(hasher)@.push(vstd::utf8::encode_utf8(text@)).push(seq![0xffu8]),
{
    hasher.write(text.as_bytes());
    let mut end: Vec<u8> = Vec::new();
    end.push(0xff);
    hasher.write(end.as_slice());
    proof {
        assert(end@ =~= seq![0xffu8]);
    }
}

/// The key under which the summary of a repository is cached: it depends on
/// the repository's path and on the hashes of its commits, in their order.
pub fn generate_key(repo_path: &str, commit_hashes: &Vec<String>) -> (key: String)
    ensures
        key@ == "summary_"@ + hex_of(
            DefaultHasher::spec_finish(key_writes(repo_path@, commit_hashes@)) as nat,
        ),
{
    let mut hasher = DefaultHasher::new();
    write_text(&mut hasher, repo_path);
    proof {
        assert(commit_hashes@.take(0) =~= Seq::<String>::empty());
        assert(hasher@ =~= key_writes(repo_path@, commit_hashes@.take(0)));
    }
    let mut i: usize = 0;
    while i < commit_hashes.len()
        invariant
            i <= commit_hashes.len(),
            hasher@ == key_writes(repo_path@, commit_hashes@.take(i as int)),
        decreases commit_hashes.len() - i,
    {
        proof {
            assert(commit_hashes@.take(i + 1).drop_last() =~= commit_hashes@.take(i as int));
            assert(commit_hashes@.take(i + 1).last() == commit_hashes@[i as int]);
        }
        write_text(&mut hasher, commit_hashes[i].as_str());
        i += 1;
    }
    proof {
        assert(commit_hashes@.take(i as int) =~= commit_hashes@);
    }
    cache_key(hasher.finish())
}

/// Tests whether a cached entry is stale.
pub fn is_expired(cached_at: i64, now: i64, ttl_hours: u32) -> (r: bool)
    ensures
        r == stale(cached_at, now, ttl_hours),
{
    let passed: i128 = now as i128 - cached_at as i128;
    assert(ttl_hours * 3_600_000_000_000 <= 0xffff_ffff * 3_600_000_000_000) by (nonlinear_arith)
        requires
            ttl_hours <= 0xffff_ffff,
    ;
    let allowed: i128 = ttl_hours as i128 * 3_600_000_000_000i128;
    passed > allowed
}

} // verus!
