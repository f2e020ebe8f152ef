//! The one fetch mapping that makes a checkout follow its upstream's `HEAD`.

use crate::text::same_text;
use vstd::prelude::*;

verus! {

/// The mapping that keeps `refs/remotes/origin/REMOTE_HEAD` at whatever the remote's
/// `HEAD` resolves to.
pub open spec fn remote_head_mapping() -> Seq<char> {
    "+HEAD:refs/remotes/origin/REMOTE_HEAD"@
}

/// The value of a configuration entry; one without a value counts as empty.
pub open spec fn entry_value(entry: Option<String>) -> Seq<char> {
    match entry {
        Some(v) => v@,
        None => ""@,
    }
}

/// Whether one of the entries is the mapping.
pub open spec fn has_remote_head(entries: Seq<Option<String>>) -> bool {
    exists|i: int|
        0 <= i < entries.len() && entry_value(#[trigger] entries[i]) == remote_head_mapping()
}

/// Tells whether the entries of `remote.origin.fetch` hold the mapping of the remote's
/// `HEAD`.
pub fn fetches_remote_head(entries: &Vec<Option<String>>) -> (r: bool)
    ensures
        r == has_remote_head(entries@),
{
    let mut i: usize = 0;
    while i < entries.len()
        invariant
            i <= entries.len(),
            forall|j: int|
                0 <= j < i ==> entry_value(#[trigger] entries@[j]) != remote_head_mapping(),
        decreases entries.len() - i,
    {
        let found = match &entries[i] {
            Some(v) => same_text(v.as_str(), "+HEAD:refs/remotes/origin/REMOTE_HEAD"),
            None => same_text("", "+HEAD:refs/remotes/origin/REMOTE_HEAD"),
        };
        if found {
            return true;
        }
        i = i + 1;
    }
    false
}

/// The mapping of the remote's `HEAD`, as an entry of `remote.origin.fetch`.
pub fn remote_head_entry() -> (r: String)
    ensures
        r@ == remote_head_mapping(),
{
    "+HEAD:refs/remotes/origin/REMOTE_HEAD".to_owned()
}

/// The mapping to add to `remote.origin.fetch`, where the entries do not hold it yet.
pub fn add_if_missing(entries: &Vec<Option<String>>) -> (r: Option<String>)
    ensures
        has_remote_head(entries@) ==> r is None,
        !has_remote_head(entries@) ==> (r matches Some(m) && m@ == remote_head_mapping()),
{
    if fetches_remote_head(entries) {
        None
    } else {
        Some(remote_head_entry())
    }
}

/// Once the mapping that [`add_if_missing`] asks for stands among the entries, nothing
/// more is asked for.
pub proof fn lemma_add_if_missing_settles(entries: Seq<Option<String>>, added: String)
    requires
        added@ == remote_head_mapping(),
    ensures
        has_remote_head(entries.push(Some(added))),
{
    let after = entries.push(Some(added));
    assert(entry_value(after[entries.len() as int]) == remote_head_mapping());
}

} // verus!
