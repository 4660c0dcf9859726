//! Which reference stands for a branch, and which one is a project's default
//! branch when replicas disagree.

use vstd::prelude::*;
use vstd::string::StringExecFns;

use crate::error::Error;
use crate::error::ErrorView;
use crate::error::StorageError;
use crate::ident::PeerId;
use crate::ident::Urn;
use crate::identity::Project;
use crate::identity::ProjectView;
use crate::reference::remote_view;
use crate::reference::Reference;
use crate::reference::ReferenceView;
use crate::refname::is_ref_name;
use crate::refname::ref_string_of;
use crate::state::State;

verus! {

/// The branch `name` of the project `urn` as `remote` sees it. The local node
/// asked for as a remote is the owner: its branches carry no remote.
pub open spec fn branch_reference_spec(
    local: Seq<char>,
    urn: Seq<char>,
    remote: Option<Seq<char>>,
    name: Seq<char>,
) -> ReferenceView {
    ReferenceView::head(
        urn,
        match remote {
            Some(peer) => if peer == local {
                None
            } else {
                Some(peer)
            },
            None => None,
        },
        name,
    )
}

/// The reference of a branch whose name was checked against the reference
/// format: the reference if the name passed, and the name's refusal if not.
pub open spec fn named_branch_spec(
    local: Seq<char>,
    urn: Seq<char>,
    remote: Option<Seq<char>>,
    name: Seq<char>,
    valid: bool,
) -> Result<ReferenceView, ErrorView> {
    if valid {
        Ok(branch_reference_spec(local, urn, remote, name))
    } else {
        Err(ErrorView::InvalidName { name })
    }
}

/// What the lookup of `reference` comes to, given what the storage said when
/// asked whether the reference exists.
pub open spec fn branch_outcome(reference: Reference, exists: Result<bool, StorageError>) -> Result<
    Reference,
    Error,
> {
    match exists {
        Ok(true) => Ok(reference),
        Ok(false) => Err(Error::MissingRef { reference }),
        Err(error) => Err(Error::Storage(error)),
    }
}

/// The references that may stand for a project's default branch: the owner's,
/// and that of the first delegate if the delegation names any peer.
#[derive(Clone, Debug, PartialEq, Eq)]
pub struct Candidates {
    pub owner: Reference,
    pub delegate: Option<Reference>,
}

/// What a pair of candidates says.
pub struct CandidatesView {
    pub owner: ReferenceView,
    pub delegate: Option<ReferenceView>,
}

impl View for Candidates {
    type V = CandidatesView;

    open spec fn view(&self) -> CandidatesView {
        CandidatesView {
            owner: self.owner@,
            delegate: match self.delegate {
                Some(reference) => Some(reference@),
                None => None,
            },
        }
    }
}

/// The failure of a project for which no default branch can be named.
pub open spec fn no_default_branch(project: ProjectView) -> ErrorView {
    ErrorView::NoDefaultBranch { name: project.name, urn: project.urn }
}

/// The candidates for the default branch of `project`, seen from the node
/// `local`, where `valid` says whether the declared name is a reference name:
/// none without a declared default branch, and none where the declared name
/// is no reference name; else the owner's branch of that name and the first
/// delegate's. Delegates after the first are not candidates.
pub open spec fn candidates_spec(local: Seq<char>, project: ProjectView, valid: bool) -> Result<
    CandidatesView,
    ErrorView,
> {
    match project.default_branch {
        None => Err(no_default_branch(project)),
        Some(name) => if !valid {
            Err(ErrorView::InvalidName { name })
        } else {
            Ok(
                CandidatesView {
                    owner: branch_reference_spec(local, project.urn, None, name),
                    delegate: match project.first_delegate() {
                        Some(peer) => Some(
                            branch_reference_spec(local, project.urn, Some(peer), name),
                        ),
                        None => None,
                    },
                },
            )
        },
    }
}

/// The view of the outcome of a lookup.
pub open spec fn lookup_view(found: Result<Reference, Error>) -> Result<ReferenceView, ErrorView> {
    match found {
        Ok(reference) => Ok(reference@),
        Err(error) => Err(error@),
    }
}

/// The view of the outcome of a lookup that may not have been made.
pub open spec fn optional_lookup_view(found: Option<Result<Reference, Error>>) -> Option<
    Result<ReferenceView, ErrorView>,
> {
    match found {
        Some(found) => Some(lookup_view(found)),
        None => None,
    }
}

/// Whether a lookup failed for another reason than that the reference is not
/// there.
pub open spec fn is_fault(found: Result<ReferenceView, ErrorView>) -> bool {
    match found {
        Ok(_) => false,
        Err(error) => !error.is_missing_ref(),
    }
}

/// Whether the delegate's reference was looked up and the lookup failed for
/// another reason than that the reference is not there.
pub open spec fn delegate_fault(delegate: Option<Result<ReferenceView, ErrorView>>) -> bool {
    match delegate {
        Some(found) => is_fault(found),
        None => false,
    }
}

/// The default branch, from what the two lookups found. A project that
/// declares no default branch has none, whatever was found. Else a fault of
/// either lookup is handed on, the owner's before the delegate's. Without a
/// fault the owner's reference wins, then the delegate's; if neither is
/// there, the project has no default branch.
pub open spec fn resolve_spec(
    project: ProjectView,
    owner: Result<ReferenceView, ErrorView>,
    delegate: Option<Result<ReferenceView, ErrorView>>,
) -> Result<ReferenceView, ErrorView> {
    if project.default_branch.is_none() {
        Err(no_default_branch(project))
    } else if is_fault(owner) {
        owner
    } else if delegate_fault(delegate) {
        delegate->Some_0
    } else if owner is Ok {
        owner
    } else if delegate is Some && delegate->Some_0 is Ok {
        delegate->Some_0
    } else {
        Err(no_default_branch(project))
    }
}

/// Looking `reference` up where exactly the references in `held` exist.
pub open spec fn lookup_in(held: Set<ReferenceView>, reference: ReferenceView) -> Result<
    ReferenceView,
    ErrorView,
> {
    if held.contains(reference) {
        Ok(reference)
    } else {
        Err(ErrorView::MissingRef { reference })
    }
}

/// The default branch of `project`, seen from the node `local`, where exactly
/// the references in `held` exist and `valid` says whether the declared name
/// is a reference name.
pub open spec fn default_branch_in(
    local: Seq<char>,
    project: ProjectView,
    valid: bool,
    held: Set<ReferenceView>,
) -> Result<ReferenceView, ErrorView> {
    match candidates_spec(local, project, valid) {
        Err(error) => Err(error),
        Ok(candidates) => resolve_spec(
            project,
            lookup_in(held, candidates.owner),
            match candidates.delegate {
                Some(reference) => Some(lookup_in(held, reference)),
                None => None,
            },
        ),
    }
}

/// Where the owner has the default branch, under a name that is a reference
/// name, the owner's reference is the answer, whether or not the first
/// delegate has the branch too.
pub proof fn lemma_owner_wins(
    local: Seq<char>,
    project: ProjectView,
    held: Set<ReferenceView>,
    name: Seq<char>,
)
    requires
        project.default_branch == Some(name),
        held.contains(branch_reference_spec(local, project.urn, None, name)),
    ensures
        default_branch_in(local, project, true, held) == Ok::<ReferenceView, ErrorView>(
            branch_reference_spec(local, project.urn, None, name),
        ),
{
}

/// Where the owner lacks the default branch and the first delegate has it,
/// the first delegate's reference is the answer.
pub proof fn lemma_first_delegate_stands_in(
    local: Seq<char>,
    project: ProjectView,
    held: Set<ReferenceView>,
    name: Seq<char>,
    first: Seq<char>,
)
    requires
        project.default_branch == Some(name),
        project.first_delegate() == Some(first),
        !held.contains(branch_reference_spec(local, project.urn, None, name)),
        held.contains(branch_reference_spec(local, project.urn, Some(first), name)),
    ensures
        default_branch_in(local, project, true, held) == Ok::<ReferenceView, ErrorView>(
            branch_reference_spec(local, project.urn, Some(first), name),
        ),
{
}

/// Where neither the owner nor the first delegate has the default branch, the
/// project has none, even though the delegate at `later` has it: delegates
/// after the first are not consulted.
pub proof fn lemma_later_delegates_not_consulted(
    local: Seq<char>,
    project: ProjectView,
    held: Set<ReferenceView>,
    name: Seq<char>,
    later: int,
)
    requires
        project.default_branch == Some(name),
        0 < later < project.delegate_peers().len(),
        !held.contains(branch_reference_spec(local, project.urn, None, name)),
        !held.contains(
            branch_reference_spec(local, project.urn, Some(project.delegate_peers()[0]), name),
        ),
        held.contains(
            branch_reference_spec(local, project.urn, Some(project.delegate_peers()[later]), name),
        ),
    ensures
        default_branch_in(local, project, true, held) == Err::<ReferenceView, ErrorView>(
            no_default_branch(project),
        ),
{
}

impl Project {
    /// The branch that is meant: the one asked for, or else the project's
    /// declared default branch; `None` where neither is there.
    pub fn branch_or_default(&self, requested: Option<String>) -> (name: Option<String>)
        ensures
            crate::identity::text_view(name) == match requested {
                Some(asked) => Some(asked@),
                None => self@.default_branch,
            },
    {
        match requested {
            Some(asked) => Some(asked),
            None => match &self.default_branch {
                Some(declared) => Some(declared.clone()),
                None => None,
            },
        }
    }
}

impl State {
    /// The reference of the branch `name` of the project `urn` as `remote`
    /// sees it, where `valid` says whether the name passed the check of the
    /// reference format: the owner's own branch where `remote` is absent or is
    /// this node, the peer's otherwise, and `InvalidName` where the name did
    /// not pass.
    pub fn named_branch(
        &self,
        urn: &Urn,
        remote: Option<PeerId>,
        name: &str,
        valid: bool,
    ) -> (outcome: Result<Reference, Error>)
        ensures
            lookup_view(outcome) == named_branch_spec(
                self.peer_id@,
                urn@,
                remote_view(remote),
                name@,
                valid,
            ),
    {
        if !valid {
            return Err(Error::InvalidName { name: String::from_str(name) });
        }
        let remote = match remote {
            Some(peer) => if peer.same(&self.peer_id) {
                None
            } else {
                Some(peer)
            },
            None => None,
        };
        Ok(Reference::head(urn.clone(), remote, name))
    }

    /// The reference of the branch `name` of the project `urn` as `remote`
    /// sees it; `InvalidName` where `name` is no reference name.
    pub fn branch_reference(&self, urn: &Urn, remote: Option<PeerId>, name: &str) -> (outcome:
        Result<Reference, Error>)
        ensures
            lookup_view(outcome) == named_branch_spec(
                self.peer_id@,
                urn@,
                remote_view(remote),
                name@,
                ref_string_of(name@).is_some(),
            ),
    {
        let valid = is_ref_name(name);
        self.named_branch(urn, remote, name, valid)
    }

    /// The branch behind `reference`, given what the storage said when asked
    /// whether the reference exists: the reference itself if it does,
    /// `MissingRef` with the reference if it does not, and the storage's own
    /// failure if the question failed.
    pub fn get_branch(&self, reference: Reference, exists: Result<bool, StorageError>) -> (found:
        Result<Reference, Error>)
        ensures
            found == branch_outcome(reference, exists),
    {
        match exists {
            Ok(true) => Ok(reference),
            Ok(false) => Err(Error::MissingRef { reference }),
            Err(error) => Err(Error::Storage(error)),
        }
    }

    /// The references to look up for the default branch of `project`:
    /// `NoDefaultBranch` if the project declares none, `InvalidName` if what
    /// it declares is no reference name, else the owner's branch of the
    /// declared name and the first delegate's.
    pub fn default_branch_candidates(&self, project: &Project) -> (candidates: Result<
        Candidates,
        Error,
    >)
        ensures
            match candidates {
                Ok(found) => candidates_spec(
                    self.peer_id@,
                    project@,
                    project@.declares_ref_name(),
                ) == Ok::<CandidatesView, ErrorView>(found@),
                Err(error) => candidates_spec(
                    self.peer_id@,
                    project@,
                    project@.declares_ref_name(),
                ) == Err::<CandidatesView, ErrorView>(error@),
            },
    {
        match &project.default_branch {
            None => Err(
                Error::NoDefaultBranch { name: project.name.clone(), urn: project.urn.clone() },
            ),
            Some(name) => {
                let owner = match self.branch_reference(&project.urn, None, name.as_str()) {
                    Ok(reference) => reference,
                    Err(error) => {
                        return Err(error);
                    },
                };
                let delegate = match project.first_delegate() {
                    Some(peer) => {
                        match self.branch_reference(
                            &project.urn,
                            Some(peer.clone()),
                            name.as_str(),
                        ) {
                            Ok(reference) => Some(reference),
                            Err(error) => {
                                return Err(error);
                            },
                        }
                    },
                    None => None,
                };
                Ok(Candidates { owner, delegate })
            },
        }
    }

    /// The default branch of `project`, from what the lookups of the two
    /// candidates found (`delegate` is `None` where there was no second
    /// candidate). A project that declares no default branch has none. For
    /// one that declares a branch, the owner's reference is the answer
    /// wherever the owner has the branch and the delegate's lookup did not
    /// fail.
    pub fn find_default_branch(
        &self,
        project: &Project,
        owner: Result<Reference, Error>,
        delegate: Option<Result<Reference, Error>>,
    ) -> (found: Result<Reference, Error>)
        ensures
            lookup_view(found) == resolve_spec(
                project@,
                lookup_view(owner),
                optional_lookup_view(delegate),
            ),
            project@.default_branch.is_some() && owner is Ok && !delegate_fault(
                optional_lookup_view(delegate),
            ) ==> found == owner,
    {
        if project.default_branch.is_none() {
            return Err(
                Error::NoDefaultBranch { name: project.name.clone(), urn: project.urn.clone() },
            );
        }
        match owner {
            Err(error) => {
                if !error.is_missing_ref() {
                    return Err(error);
                }
                match delegate {
                    Some(Ok(reference)) => Ok(reference),
                    Some(Err(other)) => {
                        if !other.is_missing_ref() {
                            Err(other)
                        } else {
                            Err(
                                Error::NoDefaultBranch {
                                    name: project.name.clone(),
                                    urn: project.urn.clone(),
                                },
                            )
                        }
                    },
                    None => Err(
                        Error::NoDefaultBranch {
                            name: project.name.clone(),
                            urn: project.urn.clone(),
                        },
                    ),
                }
            },
            Ok(reference) => {
                match delegate {
                    Some(Err(other)) => {
                        if !other.is_missing_ref() {
                            Err(other)
                        } else {
                            Ok(reference)
                        }
                    },
                    _ => Ok(reference),
                }
            },
        }
    }
}

} // verus!
