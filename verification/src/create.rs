//! What is handed to the storage when a person or a project is created, and
//! how the documents of the storage are told apart.

use either::Either;
use vstd::prelude::*;

use crate::error::Error;
use crate::error::StorageError;
use crate::ident::PeerId;
use crate::identity::delegate_views;
use crate::identity::peer_views;
use crate::identity::Delegate;
use crate::identity::Person;
use crate::identity::Project;
use crate::identity::SomeIdentity;
use crate::state::State;

verus! {

/// A person document that is not stored yet.
#[derive(Clone, Debug, PartialEq, Eq)]
pub struct PersonDraft {
    pub name: String,
    pub keys: Vec<PeerId>,
}

/// What is asked for when a project is created.
#[derive(Clone, Debug, PartialEq, Eq)]
pub struct Create {
    pub name: String,
    pub description: String,
    pub default_branch: String,
}

/// A project document that is not stored yet.
#[derive(Clone, Debug, PartialEq, Eq)]
pub struct ProjectDraft {
    pub name: String,
    pub description: Option<String>,
    pub default_branch: Option<String>,
    pub delegations: Vec<Delegate>,
}

/// How the node comes by its owner.
#[derive(Clone, Debug, PartialEq, Eq)]
pub enum OwnerPlan {
    /// The storage has an owner already: that one stays.
    Keep(Person),
    /// There is none: this person is to be created and made the owner.
    Create(PersonDraft),
}

/// The first entry, from the front, that the storage could not read.
pub open spec fn first_fault(entries: Seq<Result<SomeIdentity, StorageError>>) -> Option<
    StorageError,
>
    decreases entries.len(),
{
    if entries.len() == 0 {
        None
    } else {
        match entries[0] {
            Err(fault) => Some(fault),
            Ok(_) => first_fault(entries.drop_first()),
        }
    }
}

/// The projects among the documents, in their order.
pub open spec fn projects_of(entries: Seq<Result<SomeIdentity, StorageError>>) -> Seq<Project>
    decreases entries.len(),
{
    if entries.len() == 0 {
        Seq::empty()
    } else {
        let before = projects_of(entries.drop_last());
        match entries.last() {
            Ok(SomeIdentity::Project(project)) => before.push(project),
            _ => before,
        }
    }
}

/// The persons among the documents, in their order.
pub open spec fn persons_of(entries: Seq<Result<SomeIdentity, StorageError>>) -> Seq<Person>
    decreases entries.len(),
{
    if entries.len() == 0 {
        Seq::empty()
    } else {
        let before = persons_of(entries.drop_last());
        match entries.last() {
            Ok(SomeIdentity::Person(person)) => before.push(person),
            _ => before,
        }
    }
}

/// Where the first `count` entries could be read, the first fault is the
/// entry after them if that one could not be read, and there is none if they
/// are all.
proof fn lemma_first_fault(entries: Seq<Result<SomeIdentity, StorageError>>, count: int)
    requires
        0 <= count <= entries.len(),
        forall|j: int| 0 <= j < count ==> (#[trigger] entries[j]) is Ok,
    ensures
        count == entries.len() ==> first_fault(entries).is_none(),
        count < entries.len() && entries[count] is Err ==> first_fault(entries) == Some(
            entries[count]->Err_0,
        ),
    decreases entries.len(),
{
    if count > 0 {
        let rest = entries.drop_first();
        assert(entries[0] is Ok);
        assert forall|j: int| 0 <= j < count - 1 implies (#[trigger] rest[j]) is Ok by {
            assert(rest[j] == entries[j + 1]);
        }
        if count < entries.len() {
            assert(rest[count - 1] == entries[count]);
        }
        lemma_first_fault(rest, count - 1);
    }
}

impl State {
    /// The person to create for `name`: it has the signer's key and no other.
    pub fn init_user(&self, name: String) -> (draft: PersonDraft)
        ensures
            draft.name == name,
            peer_views(draft.keys@) == seq![self.signer@],
    {
        let mut keys: Vec<PeerId> = Vec::new();
        keys.push(self.signer.clone());
        assert(peer_views(keys@) =~= seq![self.signer@]);
        PersonDraft { name, keys }
    }

    /// How the node comes by its owner: the one that the storage has, if it
    /// has one; else a person to create for `name` under the signer's key.
    pub fn init_owner(&self, existing: Option<Person>, name: String) -> (plan: OwnerPlan)
        ensures
            match existing {
                Some(owner) => plan == OwnerPlan::Keep(owner),
                None => plan matches OwnerPlan::Create(draft) && draft.name == name && peer_views(
                    draft.keys@,
                ) == seq![self.signer@],
            },
    {
        match existing {
            Some(owner) => OwnerPlan::Keep(owner),
            None => OwnerPlan::Create(self.init_user(name)),
        }
    }

    /// The project to create for `create`: it carries the name, the
    /// description and the default branch that were asked for, and its
    /// delegation is the signer's key alone.
    pub fn init_project(&self, create: Create) -> (draft: ProjectDraft)
        ensures
            draft.name == create.name,
            draft.description == Some(create.description),
            draft.default_branch == Some(create.default_branch),
            delegate_views(draft.delegations@) == seq![
                Either::<Seq<char>, crate::identity::PersonView>::Left(self.signer@),
            ],
    {
        let mut delegations: Vec<Delegate> = Vec::new();
        delegations.push(Either::Left(self.signer.clone()));
        assert(delegate_views(delegations@) =~= seq![
            Either::<Seq<char>, crate::identity::PersonView>::Left(self.signer@),
        ]);
        ProjectDraft {
            name: create.name,
            description: Some(create.description),
            default_branch: Some(create.default_branch),
            delegations,
        }
    }

    /// The projects among the documents of the storage, in the order of
    /// `entries`. An entry that the storage could not read is a failure of
    /// the whole listing: the first such fault is handed on.
    pub fn list_projects(&self, entries: Vec<Result<SomeIdentity, StorageError>>) -> (projects:
        Result<Vec<Project>, Error>)
        ensures
            match first_fault(entries@) {
                Some(fault) => projects == Err::<Vec<Project>, Error>(Error::Storage(fault)),
                None => projects matches Ok(found) && found@ == projects_of(entries@),
            },
    {
        let ghost all = entries@;
        let mut projects: Vec<Project> = Vec::new();
        for entry in it: entries
            invariant
                all == it.seq(),
                forall|j: int| 0 <= j < it.index() ==> (#[trigger] all[j]) is Ok,
                projects@ == projects_of(all.take(it.index() as int)),
        {
            proof {
                let next = all.take(it.index() + 1);
                assert(next.drop_last() =~= all.take(it.index() as int));
                assert(next.last() == entry);
                lemma_first_fault(all, it.index() as int);
            }
            match entry {
                Ok(SomeIdentity::Project(project)) => {
                    projects.push(project);
                },
                Ok(SomeIdentity::Person(_)) => {},
                Err(fault) => {
                    return Err(Error::Storage(fault));
                },
            }
        }
        proof {
            assert(all.take(all.len() as int) =~= all);
            lemma_first_fault(all, all.len() as int);
        }
        Ok(projects)
    }

    /// The persons among the documents of the storage, in the order of
    /// `entries`. An entry that the storage could not read is a failure of
    /// the whole listing: the first such fault is handed on.
    pub fn list_users(&self, entries: Vec<Result<SomeIdentity, StorageError>>) -> (persons:
        Result<Vec<Person>, Error>)
        ensures
            match first_fault(entries@) {
                Some(fault) => persons == Err::<Vec<Person>, Error>(Error::Storage(fault)),
                None => persons matches Ok(found) && found@ == persons_of(entries@),
            },
    {
        let ghost all = entries@;
        let mut persons: Vec<Person> = Vec::new();
        for entry in it: entries
            invariant
                all == it.seq(),
                forall|j: int| 0 <= j < it.index() ==> (#[trigger] all[j]) is Ok,
                persons@ == persons_of(all.take(it.index() as int)),
        {
            proof {
                let next = all.take(it.index() + 1);
                assert(next.drop_last() =~= all.take(it.index() as int));
                assert(next.last() == entry);
                lemma_first_fault(all, it.index() as int);
            }
            match entry {
                Ok(SomeIdentity::Person(person)) => {
                    persons.push(person);
                },
                Ok(SomeIdentity::Project(_)) => {},
                Err(fault) => {
                    return Err(Error::Storage(fault));
                },
            }
        }
        proof {
            assert(all.take(all.len() as int) =~= all);
            lemma_first_fault(all, all.len() as int);
        }
        Ok(persons)
    }
}

impl Project {
    /// The description to set a working copy up with: the project's own, or
    /// the empty text where it has none.
    pub fn description_or_default(&self) -> (description: String)
        ensures
            description@ == match self@.description {
                Some(text) => text,
                None => Seq::<char>::empty(),
            },
    {
        match &self.description {
            Some(text) => text.clone(),
            None => String::new(),
        }
    }
}

} // verus!
