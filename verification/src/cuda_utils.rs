//! GPU isolation ids: the MIG device UUIDs found in a device listing.

use crate::text::{lemma_texts_push, texts};
use vstd::prelude::*;

verus! {

/// The pattern of one MIG device UUID in the output of `nvidia-smi -L`.
pub const MIG_UUID_PATTERN: &'static str = r"\(UUID: (MIG-[a-f0-9\-]+)\)";

/// The capture group of [`MIG_UUID_PATTERN`] that holds the UUID.
pub const MIG_UUID_GROUP: usize = 1;

/// What the regular-expression engine finds: `None` where `pattern` does
/// not compile, else, for each successive non-overlapping match of
/// `pattern` in `haystack`, the text that capture group `group` matched, or
/// `None` where that group took no part in the match.
pub uninterp spec fn regex_group_matches(
    pattern: Seq<char>,
    haystack: Seq<char>,
    group: nat,
) -> Option<Seq<Option<Seq<char>>>>;

/// The texts held by what [`group_matches`] returns.
pub open spec fn found_texts(found: Option<Vec<Option<String>>>) -> Option<
    Seq<Option<Seq<char>>>,
> {
    match found {
        Some(groups) => Some(
            Seq::new(
                groups@.len(),
                |i: int|
                    match groups@[i] {
                        Some(s) => Some(s@),
                        None => None,
                    },
            ),
        ),
        None => None,
    }
}

/// Calls `regex::Regex::new` on `pattern` and, where it compiles,
/// `Regex::captures_iter` on `haystack`, taking from each match the text of
/// `Captures::get(group)`. Nothing is proved of the engine: the contract
/// only gives its result the name [`regex_group_matches`].
#[verifier::external_body]
fn group_matches(pattern: &str, haystack: &str, group: usize) -> (found: Option<
    Vec<Option<String>>,
>)
    ensures
        found_texts(found) == regex_group_matches(pattern@, haystack@, group as nat),
{
    match regex::Regex::new(pattern) {
        Ok(re) => Some(
            re.captures_iter(haystack).map(|c| c.get(group).map(|m| m.as_str().to_string()))
                .collect(),
        ),
        Err(_) => None,
    }
}

/// The groups that took part in their match, in order.
pub open spec fn present(groups: Seq<Option<Seq<char>>>) -> Seq<Seq<char>>
    decreases groups.len(),
{
    if groups.len() == 0 {
        Seq::empty()
    } else {
        match groups.last() {
            Some(t) => present(groups.drop_last()).push(t),
            None => present(groups.drop_last()),
        }
    }
}

/// The isolation ids of a listing: the UUIDs that were found, last match
/// first; none where nothing could be searched.
pub open spec fn mig_uuids_of(found: Option<Seq<Option<Seq<char>>>>) -> Seq<Seq<char>> {
    match found {
        Some(groups) => present(groups).reverse(),
        None => Seq::empty(),
    }
}

/// Turns the matches of [`MIG_UUID_PATTERN`] into the list of isolation
/// ids: the captured UUIDs in reverse order of appearance.
pub fn mig_uuids_from_matches(found: Option<Vec<Option<String>>>) -> (uuids: Vec<String>)
    ensures
        texts(uuids@) == mig_uuids_of(found_texts(found)),
{
    broadcast use lemma_texts_push;

    let mut uuids: Vec<String> = Vec::new();
    match found {
        None => {
            assert(texts(uuids@) =~= Seq::<Seq<char>>::empty());
        },
        Some(groups) => {
            let ghost all = found_texts(found)->Some_0;
            let mut kept: Vec<String> = Vec::new();
            let mut i: usize = 0;
            assert(texts(kept@) =~= present(all.take(0)));
            while i < groups.len()
                invariant
                    i <= groups.len(),
                    all.len() == groups.len(),
                    forall|k: int|
                        0 <= k < groups.len() ==> #[trigger] all[k] == match groups@[k] {
                            Some(s) => Some(s@),
                            None => None,
                        },
                    texts(kept@) == present(all.take(i as int)),
                decreases groups.len() - i,
            {
                assert(all.take(i + 1).drop_last() =~= all.take(i as int));
                assert(all.take(i + 1).last() == all[i as int]);
                match &groups[i] {
                    Some(s) => {
                        kept.push(s.clone());
                    },
                    None => {},
                }
                i += 1;
            }
            assert(all.take(all.len() as int) =~= all);
            let mut j: usize = kept.len();
            assert(texts(uuids@) =~= texts(kept@).reverse().take(0));
            while j > 0
                invariant
                    j <= kept.len(),
                    uuids.len() == kept.len() - j,
                    texts(uuids@) == texts(kept@).reverse().take(kept.len() - j),
                decreases j,
            {
                j -= 1;
                uuids.push(kept[j].clone());
                assert(texts(uuids@) =~= texts(kept@).reverse().take(kept.len() - j));
            }
            assert(texts(kept@).reverse().take(kept.len() as int) =~= texts(kept@).reverse());
        },
    }
    uuids
}

/// The isolation ids named by a device listing, as `nvidia-smi -L` prints
/// it: every MIG UUID of the listing, last listed first.
pub fn get_cuda_mig_device_uuids(listing: &str) -> (uuids: Vec<String>)
    ensures
        texts(uuids@) == mig_uuids_of(
            regex_group_matches(MIG_UUID_PATTERN@, listing@, MIG_UUID_GROUP as nat),
        ),
{
    mig_uuids_from_matches(group_matches(MIG_UUID_PATTERN, listing, MIG_UUID_GROUP))
}

/// The isolation id of the workspace with index `id`: the entry of `uuids`
/// at that index, if there is one.
pub fn get_cuda_device_uuid(uuids: &Vec<String>, id: usize) -> (uuid: Option<String>)
    ensures
        uuid is Some <==> id < uuids.len(),
        uuid matches Some(u) ==> u@ == uuids@[id as int]@,
{
    if id < uuids.len() {
        Some(uuids[id].clone())
    } else {
        None
    }
}

} // verus!
