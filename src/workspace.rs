//! Naming and pruning of the rotated workspace snapshots kept in the
//! history directory.

use std::io::{Read, Write};
use vstd::prelude::*;
use vstd::utf8::{decode_utf8, encode_utf8, valid_utf8};
use crate::text::{ends_with, has_prefix, has_suffix, starts_with, strings_view, to_chars};

verus! {

/// How many snapshots the history keeps.
pub const MAX_HISTORY_FILES: usize = 10;

/// Whether a file name is that of a snapshot: `workspaces_<stamp>.json.gz`.
pub open spec fn is_history_name(n: Seq<char>) -> bool {
    has_prefix(n, "workspaces_"@) && has_suffix(n, ".json.gz"@)
}

/// Lexicographic order by character; for UTF-8 text this is the order of
/// the encoded bytes, in which file names compare.
pub open spec fn lex_lt(a: Seq<char>, b: Seq<char>) -> bool
    decreases a.len(),
{
    if a.len() == 0 {
        b.len() > 0
    } else if b.len() == 0 {
        false
    } else if a[0] != b[0] {
        (a[0] as u32) < (b[0] as u32)
    } else {
        lex_lt(a.drop_first(), b.drop_first())
    }
}

/// How many snapshot names among `names` sort after `n`: with time stamps
/// in the names, how many snapshots are newer.
pub open spec fn newer_count(names: Seq<Seq<char>>, n: Seq<char>) -> nat
    decreases names.len(),
{
    if names.len() == 0 {
        0
    } else {
        newer_count(names.drop_last(), n) + if is_history_name(names.last()) && lex_lt(
            n,
            names.last(),
        ) {
            1nat
        } else {
            0nat
        }
    }
}

/// Whether the snapshot `n` falls outside the newest `MAX_HISTORY_FILES`.
pub open spec fn is_stale(all: Seq<Seq<char>>, n: Seq<char>) -> bool {
    is_history_name(n) && newer_count(all, n) >= MAX_HISTORY_FILES
}

/// The names of `part` that are stale among `all`, in the order of `part`.
pub open spec fn stale_among(all: Seq<Seq<char>>, part: Seq<Seq<char>>) -> Seq<Seq<char>>
    decreases part.len(),
{
    if part.len() == 0 {
        seq![]
    } else if is_stale(all, part.last()) {
        stale_among(all, part.drop_last()).push(part.last())
    } else {
        stale_among(all, part.drop_last())
    }
}

/// Whether `a` sorts before `b`.
fn lex_less(a: &Vec<char>, b: &Vec<char>) -> (r: bool)
    ensures
        r == lex_lt(a@, b@),
{
    let mut i: usize = 0;
    proof {
        assert(a@.subrange(0, a@.len() as int) =~= a@);
        assert(b@.subrange(0, b@.len() as int) =~= b@);
    }
    loop
        invariant
            i <= a@.len(),
            i <= b@.len(),
            lex_lt(a@, b@) == lex_lt(
                a@.subrange(i as int, a@.len() as int),
                b@.subrange(i as int, b@.len() as int),
            ),
        decreases a@.len() - i,
    {
        if i == a.len() {
            return i < b.len();
        }
        if i == b.len() {
            return false;
        }
        if a[i] != b[i] {
            return (a[i] as u32) < (b[i] as u32);
        }
        proof {
            assert(a@.subrange(i as int, a@.len() as int).drop_first() =~= a@.subrange(
                i + 1,
                a@.len() as int,
            ));
            assert(b@.subrange(i as int, b@.len() as int).drop_first() =~= b@.subrange(
                i + 1,
                b@.len() as int,
            ));
        }
        i = i + 1;
    }
}

/// The characters of each name.
fn all_chars(names: &Vec<String>) -> (r: Vec<Vec<char>>)
    ensures
        r@.len() == names@.len(),
        forall|j: int| 0 <= j < names@.len() ==> #[trigger] r@[j]@ == names@[j]@,
{
    let mut r: Vec<Vec<char>> = Vec::new();
    let mut i: usize = 0;
    while i < names.len()
        invariant
            i <= names@.len(),
            r@.len() == i,
            forall|j: int| 0 <= j < i ==> #[trigger] r@[j]@ == names@[j]@,
        decreases names@.len() - i,
    {
        r.push(to_chars(names[i].as_str()));
        i = i + 1;
    }
    r
}

/// Whether `n` is a snapshot name.
fn history_name(n: &Vec<char>, prefix: &Vec<char>, suffix: &Vec<char>) -> (r: bool)
    requires
        prefix@ == "workspaces_"@,
        suffix@ == ".json.gz"@,
    ensures
        r == is_history_name(n@),
{
    starts_with(n, prefix) && ends_with(n, suffix)
}

/// Of the file names found in the history directory, those to delete: the
/// snapshots other than the `MAX_HISTORY_FILES` newest, newest being last
/// in name order. Names that are not snapshots are never chosen. The names
/// of one directory are distinct, so exactly the newest ones are kept.
pub fn stale_history_files(names: &Vec<String>) -> (r: Vec<String>)
    ensures
        strings_view(r@) == stale_among(strings_view(names@), strings_view(names@)),
{
    let ghost all = strings_view(names@);
    let cs = all_chars(names);
    let n = cs.len();
    let prefix = to_chars("workspaces_");
    let suffix = to_chars(".json.gz");
    proof {
        assert(strings_view(names@) =~= cs@.map_values(|v: Vec<char>| v@));
    }
    let mut r: Vec<String> = Vec::new();
    let mut i: usize = 0;
    while i < n
        invariant
            n == cs@.len(),
            n == names@.len(),
            i <= n,
            all == strings_view(names@),
            prefix@ == "workspaces_"@,
            suffix@ == ".json.gz"@,
            forall|j: int| 0 <= j < n ==> #[trigger] cs@[j]@ == names@[j]@,
            strings_view(r@) == stale_among(all, all.subrange(0, i as int)),
        decreases n - i,
    {
        let ghost before = r@;
        let ghost name = all[i as int];
        proof {
            assert(all.subrange(0, i + 1).drop_last() =~= all.subrange(0, i as int));
            assert(all.subrange(0, i + 1).last() == name);
        }
        if history_name(&cs[i], &prefix, &suffix) {
            let mut newer: usize = 0;
            let mut j: usize = 0;
            proof {
                assert(all.subrange(0, 0) =~= Seq::<Seq<char>>::empty());
            }
            while j < n
                invariant
                    n == cs@.len(),
                    n == names@.len(),
                    i < n,
                    j <= n,
                    all == strings_view(names@),
                    name == all[i as int],
                    prefix@ == "workspaces_"@,
                    suffix@ == ".json.gz"@,
                    forall|k: int| 0 <= k < n ==> #[trigger] cs@[k]@ == names@[k]@,
                    newer as nat == newer_count(all.subrange(0, j as int), name),
                    newer <= j,
                decreases n - j,
            {
                proof {
                    assert(all.subrange(0, j + 1).drop_last() =~= all.subrange(0, j as int));
                    assert(all.subrange(0, j + 1).last() == cs@[j as int]@);
                }
                if history_name(&cs[j], &prefix, &suffix) && lex_less(&cs[i], &cs[j]) {
                    newer = newer + 1;
                }
                j = j + 1;
            }
            proof {
                assert(all.subrange(0, n as int) =~= all);
            }
            if newer >= MAX_HISTORY_FILES {
                r.push(names[i].clone());
                proof {
                    assert(strings_view(r@) =~= strings_view(before).push(name));
                }
            }
        }
        i = i + 1;
    }
    proof {
        assert(all.subrange(0, n as int) =~= all);
    }
    r
}

/// The file name of the snapshot taken at `stamp`.
pub fn history_file_name(stamp: &str) -> (r: String)
    ensures
        r@ == "workspaces_"@ + stamp@ + ".json.gz"@,
{
    "workspaces_".to_string().concat(stamp).concat(".json.gz")
}

/// A name for the gzip stream that flate2 writes for some bytes at the
/// default compression level (no file name, time stamp 0).
pub uninterp spec fn gzip_bytes(data: Seq<u8>) -> Seq<u8>;

/// A name for the text that flate2's gzip decoder reads from some bytes,
/// when they are one gzip stream holding UTF-8 text.
pub uninterp spec fn gunzip_text(data: Seq<u8>) -> Option<Seq<char>>;

/// Relies on flate2's `GzEncoder::new(Vec::new(), Compression::default())`,
/// `write_all` and `finish`: the compressed stream of `data`. Writing into
/// a `Vec` cannot fail, and flate2's decoder reads back what it wrote.
#[verifier::external_body]
fn gzip(data: &[u8]) -> (r: Result<Vec<u8>, String>)
    ensures
        r is Ok,
        r matches Ok(v) ==> v@ == gzip_bytes(data@),
        r matches Ok(v) ==> (valid_utf8(data@) ==> gunzip_text(v@) == Some(decode_utf8(data@))),
{
    let mut encoder = flate2::write::GzEncoder::new(Vec::new(), flate2::Compression::default());
    encoder.write_all(data).map_err(|e| format!("Failed to write compressed data: {}", e))?;
    encoder.finish().map_err(|e| format!("Failed to finish compression: {}", e))
}

/// Relies on flate2's `GzDecoder::new(data)` and `read_to_string`, which
/// fails on a damaged stream and on text that is not UTF-8.
#[verifier::external_body]
fn gunzip(data: &[u8]) -> (r: Result<String, String>)
    ensures
        match r {
            Ok(s) => gunzip_text(data@) == Some(s@),
            Err(_) => gunzip_text(data@) is None,
        },
{
    let mut decoder = flate2::read::GzDecoder::new(data);
    let mut text = String::new();
    match decoder.read_to_string(&mut text) {
        Ok(_) => Ok(text),
        Err(e) => Err(format!("Failed to decompress data: {}", e)),
    }
}

/// The bytes stored for a workspace: its text, gzip-compressed; reading
/// them back with `decompress_workspace` gives the text again.
pub fn compress_workspace(data: &str) -> (r: Result<Vec<u8>, String>)
    ensures
        r is Ok,
        r matches Ok(v) ==> v@ == gzip_bytes(encode_utf8(data@)),
        r matches Ok(v) ==> gunzip_text(v@) == Some(data@),
{
    broadcast use vstd::utf8::encode_utf8_valid_utf8, vstd::utf8::encode_utf8_decode_utf8;

    gzip(data.as_bytes())
}

/// The workspace text held in stored bytes; fails exactly when they are
/// not a gzip stream of UTF-8 text.
pub fn decompress_workspace(stored: &[u8]) -> (r: Result<String, String>)
    ensures
        match r {
            Ok(s) => gunzip_text(stored@) == Some(s@),
            Err(_) => gunzip_text(stored@) is None,
        },
{
    gunzip(stored)
}

} // verus!
