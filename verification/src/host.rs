//! Questions about the machine the library runs on.
use vstd::prelude::*;
use crate::models::opt_view;
use crate::paths::{join, path_join};
use crate::text::{chars_to_string, str_chars, strings_view};

verus! {

/// Calls `std::path::Path::exists` on `p`.  The answer depends on the file
/// system at the moment of the call, so nothing is stated of it.
#[verifier::external_body]
pub(crate) fn path_exists(p: &str) -> bool {
    std::path::Path::new(p).exists()
}

/// The first item whose probe answered yes (`found[i]` for `items[i]`).
pub open spec fn first_flagged(items: Seq<Seq<char>>, found: Seq<bool>) -> Option<Seq<char>>
    decreases items.len(),
{
    if items.len() == 0 || found.len() == 0 {
        None
    } else if found[0] {
        Some(items[0])
    } else {
        first_flagged(items.skip(1), found.skip(1))
    }
}

/// When the probes of `items[..i]` said no and that of `items[i]` (if any)
/// said yes, the first flagged item is `items[i]`.
pub proof fn lemma_first_flagged(items: Seq<Seq<char>>, found: Seq<bool>, i: int)
    requires
        found.len() == items.len(),
        0 <= i <= items.len(),
        forall|j: int| 0 <= j < i ==> !found[j],
        i < items.len() ==> found[i],
    ensures
        first_flagged(items, found) == if i < items.len() {
            Some(items[i])
        } else {
            None
        },
    decreases i,
{
    if i > 0 {
        let a = items.skip(1);
        let b = found.skip(1);
        assert forall|j: int| 0 <= j < i - 1 implies !b[j] by {
            assert(b[j] == found[j + 1]);
        }
        lemma_first_flagged(a, b, i - 1);
        if i < items.len() {
            assert(a[i - 1] == items[i]);
        }
    }
}

/// The first of `paths` whose answer in `found` is yes.
pub fn first_flagged_path(paths: &Vec<String>, found: &Vec<bool>) -> (r: Option<String>)
    requires
        found@.len() == paths@.len(),
    ensures
        opt_view(r) == first_flagged(strings_view(paths@), found@),
{
    let ghost items = strings_view(paths@);
    let mut k: usize = 0;
    while k < paths.len()
        invariant
            k <= paths.len(),
            found@.len() == paths@.len(),
            items == strings_view(paths@),
            forall|j: int| 0 <= j < k ==> !found@[j],
        decreases paths.len() - k,
    {
        if found[k] {
            proof {
                lemma_first_flagged(items, found@, k as int);
            }
            return Some(paths[k].clone());
        }
        k += 1;
    }
    proof {
        lemma_first_flagged(items, found@, items.len() as int);
    }
    None
}

/// Asks the file system, path by path and in order, whether each of
/// `paths` exists (with `inside`, whether it holds that entry).  The
/// answers depend on the disk at the moment of the call; only their number
/// is stated.
pub fn probe_paths(paths: &Vec<String>, inside: Option<&str>) -> (r: Vec<bool>)
    ensures
        r@.len() == paths@.len(),
{
    let mut found: Vec<bool> = Vec::new();
    let mut k: usize = 0;
    while k < paths.len()
        invariant
            k <= paths.len(),
            found@.len() == k,
        decreases paths.len() - k,
    {
        let probe = match inside {
            Some(e) => {
                let j = join(str_chars(paths[k].as_str()).as_slice(), str_chars(e).as_slice());
                chars_to_string(j.as_slice())
            },
            None => paths[k].clone(),
        };
        found.push(path_exists(probe.as_str()));
        k += 1;
    }
    found
}

/// The first of `paths` that exists on disk (with `inside`, the first that
/// holds that entry): every path is probed, then the first answered yes is
/// chosen by `first_flagged_path`.
pub fn first_existing(paths: &Vec<String>, inside: Option<&str>) -> (r: Option<String>)
    ensures
        exists|found: Seq<bool>|
            found.len() == paths@.len() && opt_view(r) == first_flagged(strings_view(paths@), found),
{
    let found = probe_paths(paths, inside);
    first_flagged_path(paths, &found)
}

} // verus!
