//! Working copies: what to materialise, for whom, and how a run ended.

use vstd::prelude::*;

use crate::error::Error;
use crate::error::ErrorView;
use crate::ident::PeerId;
use crate::ident::Urn;
use crate::identity::Project;
use crate::identity::ProjectView;
use crate::refname::is_ref_name;
use crate::state::State;

verus! {

/// Whose view of the project a working copy starts from.
#[derive(Clone, Debug, PartialEq, Eq)]
pub enum Ownership {
    /// The local node's own view.
    Local(PeerId),
    /// The view of `remote`, who goes by `handle`, fetched through `local`.
    Remote { handle: String, remote: PeerId, local: PeerId },
}

/// What an ownership says.
pub enum OwnershipView {
    Local(Seq<char>),
    Remote { handle: Seq<char>, remote: Seq<char>, local: Seq<char> },
}

impl View for Ownership {
    type V = OwnershipView;

    open spec fn view(&self) -> OwnershipView {
        match *self {
            Ownership::Local(peer) => OwnershipView::Local(peer@),
            Ownership::Remote { handle, remote, local } => OwnershipView::Remote {
                handle: handle@,
                remote: remote@,
                local: local@,
            },
        }
    }
}

/// A working copy to materialise.
#[derive(Clone, Debug, PartialEq, Eq)]
pub struct Checkout {
    pub urn: Urn,
    pub name: String,
    pub default_branch: String,
    pub path: String,
    pub include_path: String,
    pub ownership: Ownership,
}

/// What a checkout says.
pub struct CheckoutView {
    pub urn: Seq<char>,
    pub name: Seq<char>,
    pub default_branch: Seq<char>,
    pub path: Seq<char>,
    pub include_path: Seq<char>,
    pub ownership: OwnershipView,
}

impl View for Checkout {
    type V = CheckoutView;

    open spec fn view(&self) -> CheckoutView {
        CheckoutView {
            urn: self.urn@,
            name: self.name@,
            default_branch: self.default_branch@,
            path: self.path@,
            include_path: self.include_path@,
            ownership: self.ownership@,
        }
    }
}

/// The peer whose view is wanted, with the handle it goes by.
pub open spec fn remote_handle_view(remote: Option<(PeerId, String)>) -> Option<
    (Seq<char>, Seq<char>),
> {
    match remote {
        Some((peer, handle)) => Some((peer@, handle@)),
        None => None,
    }
}

/// Whose view a working copy made on the node `local` starts from.
pub open spec fn ownership_spec(local: Seq<char>, remote: Option<(Seq<char>, Seq<char>)>) -> OwnershipView {
    match remote {
        None => OwnershipView::Local(local),
        Some((peer, handle)) => OwnershipView::Remote { handle, remote: peer, local },
    }
}

/// The working copy of `project` to materialise at `path`, where `valid`
/// says whether the declared default branch is a reference name: none for a
/// project without a declared default branch, none where the declared name is
/// no reference name, else one that starts at that branch and reads the fetch
/// configuration at `include_path`.
pub open spec fn checkout_spec(
    local: Seq<char>,
    project: ProjectView,
    valid: bool,
    remote: Option<(Seq<char>, Seq<char>)>,
    path: Seq<char>,
    include_path: Seq<char>,
) -> Result<CheckoutView, ErrorView> {
    match project.default_branch {
        None => Err(ErrorView::NoDefaultBranch { name: project.name, urn: project.urn }),
        Some(default_branch) => if !valid {
            Err(ErrorView::InvalidName { name: default_branch })
        } else {
            Ok(
                CheckoutView {
                    urn: project.urn,
                    name: project.name,
                    default_branch,
                    path,
                    include_path,
                    ownership: ownership_spec(local, remote),
                },
            )
        },
    }
}

/// The view of a planned checkout.
pub open spec fn plan_view(plan: Result<Checkout, Error>) -> Result<CheckoutView, ErrorView> {
    match plan {
        Ok(checkout) => Ok(checkout@),
        Err(error) => Err(error@),
    }
}

/// How a run ended: with the failure of the run itself if it failed; else
/// with all warnings of the transport as one failure if there are any; else
/// with the path of the working copy.
pub open spec fn finished_spec(run: Result<String, Error>, warnings: Vec<String>) -> Result<
    String,
    Error,
> {
    match run {
        Err(error) => Err(error),
        Ok(path) => if warnings@.len() > 0 {
            Err(Error::Transport { warnings })
        } else {
            Ok(path)
        },
    }
}

impl State {
    /// Plans the working copy of `project` at `path`, where `valid` says
    /// whether the declared default branch passed the check of the reference
    /// format. `remote` names the peer whose view is wanted and the handle it
    /// goes by; without it the local node's own view is taken.
    pub fn plan_checkout(
        &self,
        project: &Project,
        valid: bool,
        remote: Option<(PeerId, String)>,
        path: String,
        include_path: String,
    ) -> (plan: Result<Checkout, Error>)
        ensures
            plan_view(plan) == checkout_spec(
                self.peer_id@,
                project@,
                valid,
                remote_handle_view(remote),
                path@,
                include_path@,
            ),
    {
        match &project.default_branch {
            None => Err(
                Error::NoDefaultBranch { name: project.name.clone(), urn: project.urn.clone() },
            ),
            Some(default_branch) => {
                if !valid {
                    return Err(Error::InvalidName { name: default_branch.clone() });
                }
                let ownership = match remote {
                    None => Ownership::Local(self.peer_id.clone()),
                    Some((peer, handle)) => Ownership::Remote {
                        handle,
                        remote: peer,
                        local: self.peer_id.clone(),
                    },
                };
                Ok(
                    Checkout {
                        urn: project.urn.clone(),
                        name: project.name.clone(),
                        default_branch: default_branch.clone(),
                        path,
                        include_path,
                        ownership,
                    },
                )
            },
        }
    }

    /// Plans the working copy of `project` at `path`: `NoDefaultBranch` where
    /// the project declares none, `InvalidName` where what it declares is no
    /// reference name, else the working copy that starts at the declared
    /// branch. `remote` names the peer whose view is wanted and the handle it
    /// goes by; without it the local node's own view is taken.
    pub fn checkout(
        &self,
        project: &Project,
        remote: Option<(PeerId, String)>,
        path: String,
        include_path: String,
    ) -> (plan: Result<Checkout, Error>)
        ensures
            plan_view(plan) == checkout_spec(
                self.peer_id@,
                project@,
                project@.declares_ref_name(),
                remote_handle_view(remote),
                path@,
                include_path@,
            ),
    {
        let valid = match &project.default_branch {
            Some(default_branch) => is_ref_name(default_branch.as_str()),
            None => false,
        };
        self.plan_checkout(project, valid, remote, path, include_path)
    }

    /// How a run of a checkout ended, from what the run returned and the
    /// warnings that the transport collected meanwhile.
    pub fn finish_checkout(&self, run: Result<String, Error>, warnings: Vec<String>) -> (outcome:
        Result<String, Error>)
        ensures
            outcome == finished_spec(run, warnings),
    {
        match run {
            Err(error) => Err(error),
            Ok(path) => if warnings.len() > 0 {
                Err(Error::Transport { warnings })
            } else {
                Ok(path)
            },
        }
    }
}

} // verus!
