//! Where a repository browser has to be opened to see what a reference
//! points at.

use radicle_surf::radicle_git_ref_format::Component;
use radicle_surf::radicle_git_ref_format::RefString;
use vstd::prelude::*;
use vstd::string::StringExecFns;

use crate::reference::slash_free;
use crate::reference::Reference;
use crate::reference::ReferenceView;
use crate::refname::ref_string;
use crate::refname::ref_string_of;
use crate::state::State;

verus! {

/// `radicle_surf::Branch`, a branch as a repository browser names it: a
/// local one, or one of a remote. Nothing is known of what a value holds.
#[verifier::external_type_specification]
#[verifier::external_body]
pub struct ExBranch(radicle_surf::Branch);

/// What the library gets from `radicle_surf::Branch::local` for a text. The
/// name stands for two calls in a row: `RefString::try_from`, which checks
/// the text against the reference format, and `Branch::local` on what
/// passed. It is the local branch of that name, or nothing where the text is
/// no reference name.
pub uninterp spec fn local_branch_of(name: Seq<char>) -> Option<radicle_surf::Branch>;

/// What the library gets from `radicle_surf::Branch::remote` for two texts.
/// The name stands for the calls that lead there: `RefString::try_from` on
/// either text, `Component::from_refstr` on the remote, and `Branch::remote`
/// on what passed. It is the branch of that name under that remote, or
/// nothing where either text is no reference name or the remote holds a `/`.
pub uninterp spec fn remote_branch_of(remote: Seq<char>, name: Seq<char>) -> Option<
    radicle_surf::Branch,
>;

/// `radicle_surf::Branch::local`, on a name that `RefString::try_from` has
/// let pass. The outcome depends on the text alone, and there is a branch
/// exactly where the text is a reference name: the constructor itself never
/// fails.
#[verifier::external_body]
fn local_branch(name: &str) -> (branch: Option<radicle_surf::Branch>)
    ensures
        branch == local_branch_of(name@),
        branch.is_some() == ref_string_of(name@).is_some(),
{
    let name = RefString::try_from(name).ok()?;
    Some(radicle_surf::Branch::local(name))
}

/// `radicle_surf::Branch::remote`, on a remote that `RefString::try_from`
/// and `Component::from_refstr` have let pass and a name that
/// `RefString::try_from` has let pass. The outcome depends on the two texts
/// alone, and there is a branch exactly where both texts are reference names
/// and the remote holds no `/`, which is all that `Component::from_refstr`
/// asks: the constructor itself never fails.
#[verifier::external_body]
fn remote_branch(remote: &str, name: &str) -> (branch: Option<radicle_surf::Branch>)
    ensures
        branch == remote_branch_of(remote@, name@),
        branch.is_some() == (ref_string_of(remote@).is_some() && slash_free(remote@)
            && ref_string_of(name@).is_some()),
{
    let remote = Component::from_refstr(RefString::try_from(remote).ok()?)?;
    let name = RefString::try_from(name).ok()?;
    Some(radicle_surf::Branch::remote(remote, name))
}

/// The place to open a browser at: a namespace of the repository and a branch
/// in it.
#[derive(Debug, PartialEq, Eq)]
pub struct Browse {
    pub namespace: RefString,
    pub branch: radicle_surf::Branch,
}

/// The branch that shows what `reference` points at: the local branch of its
/// name for the owner's reference, and for a peer's the branch `heads/<name>`
/// of the remote named like the peer.
pub open spec fn branch_of(reference: ReferenceView) -> Option<radicle_surf::Branch> {
    match reference.remote {
        None => local_branch_of(reference.name),
        Some(peer) => remote_branch_of(peer, "heads/"@ + reference.name),
    }
}

/// The place made of a namespace and a branch, where both could be formed.
pub open spec fn browse_spec(
    namespace: Option<RefString>,
    branch: Option<radicle_surf::Branch>,
) -> Option<Browse> {
    match (namespace, branch) {
        (Some(namespace), Some(branch)) => Some(Browse { namespace, branch }),
        _ => None,
    }
}

/// The place made of a namespace and a branch: there is one where both could
/// be formed, and none where either could not.
pub fn browse_at(namespace: Option<RefString>, branch: Option<radicle_surf::Branch>) -> (place:
    Option<Browse>)
    ensures
        place == browse_spec(namespace, branch),
{
    match namespace {
        Some(namespace) => match branch {
            Some(branch) => Some(Browse { namespace, branch }),
            None => None,
        },
        None => None,
    }
}

/// Whether there is a place to open a browser at for `reference`: the
/// project's identifier has to be a reference name, and so has the branch;
/// for a peer's reference the peer has to be a single component of a
/// reference name as well.
pub open spec fn has_place(reference: ReferenceView) -> bool {
    &&& ref_string_of(reference.namespace).is_some()
    &&& match reference.remote {
        None => ref_string_of(reference.name).is_some(),
        Some(peer) => {
            &&& ref_string_of(peer).is_some()
            &&& slash_free(peer)
            &&& ref_string_of("heads/"@ + reference.name).is_some()
        },
    }
}

impl State {
    /// The namespace and branch at which to open a browser for `reference`:
    /// the namespace is the project's identifier, the branch is as
    /// [`branch_of`] says. There is such a place exactly where
    /// [`has_place`] holds.
    pub fn with_browser(&self, reference: &Reference) -> (place: Option<Browse>)
        ensures
            place == browse_spec(ref_string_of(reference@.namespace), branch_of(reference@)),
            place.is_some() == has_place(reference@),
    {
        let namespace = ref_string(reference.namespace.as_str());
        let branch = match &reference.remote {
            None => local_branch(reference.name.as_str()),
            Some(peer) => {
                let mut name = String::from_str("heads/");
                name.append(reference.name.as_str());
                remote_branch(peer.as_str(), name.as_str())
            },
        };
        browse_at(namespace, branch)
    }
}

} // verus!
