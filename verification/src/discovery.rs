//! Discovery of the current log source: given one directory listing, the
//! newest qualifying log file.
//!
//! The surrounding shell reads the watched directory and hands over one
//! [`LogSource`] per regular file, with its name and modification time; this
//! module filters the candidates by name and picks the one with the greatest
//! modification time. A tie on the time is broken deterministically in
//! favour of the lexicographically greatest name.
use vstd::prelude::*;

use crate::text::bytes_eq;
use crate::text::bytes_le;
use crate::text::ends_with;
use crate::text::has_prefix;
use crate::text::has_suffix;
use crate::text::lex_le;
use crate::text::slice_to_vec;
use crate::text::starts_with;

verus! {

/// The watched directory itself could not be listed: missing, not a
/// directory, or permission denied. Never fatal: the caller treats the tick
/// as having found no source and retries later.
#[derive(Debug, Clone, PartialEq, Eq)]
pub enum DiscoveryError {
    DirectoryUnavailable,
}

/// One candidate log file: its file name and its modification time, in
/// whatever monotone unit the file system reports.
#[derive(Debug, Clone, PartialEq, Eq)]
pub struct LogSource {
    pub path: Vec<u8>,
    pub last_modified: u64,
}

/// The bytes of `"output_log_"`.
pub open spec fn log_file_prefix() -> Seq<u8> {
    seq![111u8, 117, 116, 112, 117, 116, 95, 108, 111, 103, 95]
}

fn log_file_prefix_marker() -> (r: [u8; 11])
    ensures
        r@ == log_file_prefix(),
{
    let r: [u8; 11] = [111u8, 117, 116, 112, 117, 116, 95, 108, 111, 103, 95];
    assert(r@ =~= log_file_prefix());
    r
}

/// The bytes of `".txt"`.
pub open spec fn log_file_suffix() -> Seq<u8> {
    seq![46u8, 116, 120, 116]
}

fn log_file_suffix_marker() -> (r: [u8; 4])
    ensures
        r@ == log_file_suffix(),
{
    let r: [u8; 4] = [46u8, 116, 120, 116];
    assert(r@ =~= log_file_suffix());
    r
}

/// A file name that qualifies as a log file.
pub open spec fn is_log_name(name: Seq<u8>) -> bool {
    has_prefix(name, log_file_prefix()) && has_suffix(name, log_file_suffix())
}

/// Whether a file name has the log file shape. Whether the path is a
/// regular file at all stays with the caller, which read the directory.
pub fn is_log_file(name: &[u8]) -> (r: bool)
    ensures
        r == is_log_name(name@),
{
    let pre = log_file_prefix_marker();
    let suf = log_file_suffix_marker();
    starts_with(name, pre.as_slice()) && ends_with(name, suf.as_slice())
}

/// `a` supersedes `b`: modified later, or modified at the same time and
/// greater in name order.
pub open spec fn beats(a: LogSource, b: LogSource) -> bool {
    a.last_modified > b.last_modified || (a.last_modified == b.last_modified && a.path@ != b.path@
        && lex_le(b.path@, a.path@))
}

/// The qualifying source a listing settles on: each candidate in turn
/// replaces the earlier winner only if it strictly supersedes it.
pub open spec fn newest_spec(entries: Seq<LogSource>) -> Option<LogSource>
    decreases entries.len(),
{
    if entries.len() == 0 {
        None
    } else {
        let rest = newest_spec(entries.drop_last());
        let e = entries.last();
        if !is_log_name(e.path@) {
            rest
        } else {
            match rest {
                None => Some(e),
                Some(b) => if beats(e, b) {
                    Some(e)
                } else {
                    Some(b)
                },
            }
        }
    }
}

/// The settled source is a qualifying entry of the listing, and no
/// qualifying entry was modified later.
pub proof fn lemma_newest_is_max(entries: Seq<LogSource>)
    ensures
        newest_spec(entries).is_none() ==> forall|i: int|
            0 <= i < entries.len() ==> !is_log_name(#[trigger] entries[i].path@),
        newest_spec(entries).is_some() ==> {
            let w = newest_spec(entries).unwrap();
            &&& is_log_name(w.path@)
            &&& exists|i: int| 0 <= i < entries.len() && entries[i] == w
            &&& forall|i: int|
                0 <= i < entries.len() && is_log_name(#[trigger] entries[i].path@)
                    ==> entries[i].last_modified <= w.last_modified
        },
    decreases entries.len(),
{
    if entries.len() > 0 {
        lemma_newest_is_max(entries.drop_last());
        assert(forall|i: int|
            0 <= i < entries.len() - 1 ==> entries.drop_last()[i] == entries[i]);
        if newest_spec(entries).is_some() {
            let w = newest_spec(entries).unwrap();
            if newest_spec(entries.drop_last()).is_some() && w == newest_spec(
                entries.drop_last(),
            ).unwrap() {
                let i = choose|i: int|
                    0 <= i < entries.drop_last().len() && entries.drop_last()[i] == w;
                assert(entries[i] == w);
            } else {
                assert(entries[entries.len() - 1] == w);
            }
        }
    }
}

/// Picks the newest qualifying log file of one directory listing, or
/// nothing when no entry qualifies.
pub fn get_newest_log_path(entries: &Vec<LogSource>) -> (r: Option<Vec<u8>>)
    ensures
        match r {
            Some(p) => newest_spec(entries@).is_some() && p@ == newest_spec(
                entries@,
            ).unwrap().path@,
            None => newest_spec(entries@).is_none(),
        },
{
    let mut best: Option<usize> = None;
    let mut k: usize = 0;
    while k < entries.len()
        invariant
            k <= entries@.len(),
            match best {
                None => newest_spec(entries@.take(k as int)).is_none(),
                Some(b) => b < k && newest_spec(entries@.take(k as int)) == Some(
                    entries@[b as int],
                ),
            },
        decreases entries@.len() - k,
    {
        proof {
            assert(entries@.take(k + 1).drop_last() =~= entries@.take(k as int));
            assert(entries@.take(k + 1).last() == entries@[k as int]);
        }
        let e = &entries[k];
        if is_log_file(e.path.as_slice()) {
            match best {
                None => {
                    best = Some(k);
                },
                Some(b) => {
                    let w = &entries[b];
                    let newer = if e.last_modified > w.last_modified {
                        true
                    } else if e.last_modified == w.last_modified {
                        !bytes_eq(e.path.as_slice(), w.path.as_slice()) && bytes_le(
                            w.path.as_slice(),
                            e.path.as_slice(),
                        )
                    } else {
                        false
                    };
                    if newer {
                        best = Some(k);
                    }
                },
            }
        }
        k += 1;
    }
    proof {
        assert(entries@.take(entries@.len() as int) =~= entries@);
    }
    match best {
        None => None,
        Some(b) => Some(slice_to_vec(entries[b].path.as_slice())),
    }
}

} // verus!
