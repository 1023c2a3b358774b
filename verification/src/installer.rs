//! Planning of the package pipeline: the decisions of `install`,
//! `update` and the dependency walk, over the canonical names that
//! `identifier` derives. The host performs the clone, build, move and
//! delete steps and reports what the disk holds; every decision between
//! those steps is taken here.

use vstd::prelude::*;
use crate::compositer::CompositerError;
use crate::identifier::{account_at_rep, git_url_id};

verus! {

/// What `install` decides for a URL, over the set of names whose
/// checkouts exist: the name fails to normalize, the checkout already
/// exists, or the install may proceed under the canonical name.
pub open spec fn spec_install(url: Seq<char>, existing: Set<Seq<char>>) -> Result<
    Seq<char>,
    CompositerError,
> {
    match git_url_id(url) {
        None => Err(CompositerError::InstallFormat),
        Some(id) => if existing.contains(id) {
            Err(CompositerError::InstallExists)
        } else {
            Ok(id)
        },
    }
}

/// Installing a URL twice with no uninstall between: the first success
/// puts the canonical name's checkout on disk, so the second decision is
/// always `InstallExists`.
pub proof fn lemma_install_twice(url: Seq<char>, existing: Set<Seq<char>>)
    ensures
        spec_install(url, existing) matches Ok(id) ==> spec_install(url, existing.insert(id))
            == Err::<Seq<char>, CompositerError>(CompositerError::InstallExists),
{
}

/// The decision that opens `install(url)`: the canonical name when the
/// URL normalizes and no checkout of that name exists; `InstallFormat`
/// when it does not normalize; `InstallExists` when the checkout exists.
/// The host then clones, builds and mounts under the returned name.
pub fn install_plan(repo: &str, dest_exists: bool) -> (r: Result<String, CompositerError>)
    ensures
        match r {
            Ok(id) => git_url_id(repo@) == Some(id@) && !dest_exists,
            Err(e) => (e is InstallFormat && git_url_id(repo@) is None) || (e is InstallExists
                && git_url_id(repo@) is Some && dest_exists),
        },
{
    match account_at_rep(repo) {
        None => Err(CompositerError::InstallFormat),
        Some(id) => if dest_exists {
            Err(CompositerError::InstallExists)
        } else {
            Ok(id)
        },
    }
}

/// What the dependency walk does with one entry.
#[derive(Clone, Copy, Debug, PartialEq, Eq, Structural)]
pub enum DepAction {
    /// Clone and build the dependency afresh.
    Install,
    /// The checkout exists: update it instead of re-cloning.
    Update,
}

/// The decision for one dependency entry carrying the remote URL `repo`:
/// install it, or update it when its checkout already exists; the naming
/// error when the URL does not normalize.
pub fn dependency_plan(repo: &str, dest_exists: bool) -> (r: Result<
    (String, DepAction),
    CompositerError,
>)
    ensures
        match r {
            Ok(p) => git_url_id(repo@) == Some(p.0@) && (p.1 is Update <==> dest_exists),
            Err(e) => e is InstallFormat && git_url_id(repo@) is None,
        },
{
    match account_at_rep(repo) {
        None => Err(CompositerError::InstallFormat),
        Some(id) => if dest_exists {
            Ok((id, DepAction::Update))
        } else {
            Ok((id, DepAction::Install))
        },
    }
}

} // verus!
