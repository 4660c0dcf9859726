//! Identity documents and the delegation of a project.

use either::Either;
use vstd::prelude::*;

use crate::ident::PeerId;
use crate::ident::Urn;
use crate::refname::ref_string_of;

verus! {

/// `either::Either`, the two-variant sum that tags a delegation entry. Verus
/// reads both variants from the type itself; nothing is assumed of them.
#[verifier::external_type_specification]
#[verifier::reject_recursive_types(L)]
#[verifier::reject_recursive_types(R)]
pub struct ExEither<L, R>(Either<L, R>);

/// A person document: a name and the keys that speak for it.
#[derive(Debug, PartialEq, Eq)]
pub struct Person {
    pub urn: Urn,
    pub name: String,
    pub keys: Vec<PeerId>,
}

/// What a person document says.
pub struct PersonView {
    pub urn: Seq<char>,
    pub name: Seq<char>,
    pub keys: Seq<Seq<char>>,
}

/// The views of a sequence of peers.
pub open spec fn peer_views(peers: Seq<PeerId>) -> Seq<Seq<char>> {
    Seq::new(peers.len(), |i: int| peers[i]@)
}

impl View for Person {
    type V = PersonView;

    open spec fn view(&self) -> PersonView {
        PersonView { urn: self.urn@, name: self.name@, keys: peer_views(self.keys@) }
    }
}

/// Copies a list of peers.
pub fn clone_peers(peers: &Vec<PeerId>) -> (copy: Vec<PeerId>)
    ensures
        peer_views(copy@) == peer_views(peers@),
{
    let mut copy: Vec<PeerId> = Vec::new();
    let mut i: usize = 0;
    while i < peers.len()
        invariant
            i <= peers.len(),
            copy@.len() == i,
            forall|j: int| 0 <= j < i ==> copy@[j]@ == peers@[j]@,
        decreases peers.len() - i,
    {
        copy.push(peers[i].clone());
        i += 1;
    }
    assert(peer_views(copy@) =~= peer_views(peers@));
    copy
}

impl Clone for Person {
    fn clone(&self) -> (person: Person)
        ensures
            person@ == self@,
    {
        Person { urn: self.urn.clone(), name: self.name.clone(), keys: clone_peers(&self.keys) }
    }
}

/// An entry of a delegation: a key that stands for itself, or a person that
/// lends the project all of its keys.
pub type Delegate = Either<PeerId, Person>;

/// What a delegation entry says.
pub type DelegateView = Either<Seq<char>, PersonView>;

/// The view of one delegation entry.
pub open spec fn delegate_view(entry: Delegate) -> DelegateView {
    match entry {
        Either::Left(key) => Either::Left(key@),
        Either::Right(person) => Either::Right(person@),
    }
}

/// The views of a delegation, entry by entry.
pub open spec fn delegate_views(entries: Seq<Delegate>) -> Seq<DelegateView> {
    Seq::new(entries.len(), |i: int| delegate_view(entries[i]))
}

/// The peers that one entry contributes, in the order in which it stores them.
pub open spec fn entry_peers(entry: DelegateView) -> Seq<Seq<char>> {
    match entry {
        Either::Left(key) => seq![key],
        Either::Right(person) => person.keys,
    }
}

/// The delegation flattened: every entry's peers, entries in stored order.
pub open spec fn delegate_peers(entries: Seq<DelegateView>) -> Seq<Seq<char>>
    decreases entries.len(),
{
    if entries.len() == 0 {
        Seq::empty()
    } else {
        entry_peers(entries[0]) + delegate_peers(entries.drop_first())
    }
}

/// A project document.
#[derive(Clone, Debug, PartialEq, Eq)]
pub struct Project {
    pub urn: Urn,
    pub name: String,
    pub description: Option<String>,
    pub default_branch: Option<String>,
    pub delegations: Vec<Delegate>,
}

/// What a project document says.
pub struct ProjectView {
    pub urn: Seq<char>,
    pub name: Seq<char>,
    pub description: Option<Seq<char>>,
    pub default_branch: Option<Seq<char>>,
    pub delegations: Seq<DelegateView>,
}

/// The view of an optional text.
pub open spec fn text_view(text: Option<String>) -> Option<Seq<char>> {
    match text {
        Some(t) => Some(t@),
        None => None,
    }
}

impl View for Project {
    type V = ProjectView;

    open spec fn view(&self) -> ProjectView {
        ProjectView {
            urn: self.urn@,
            name: self.name@,
            description: text_view(self.description),
            default_branch: text_view(self.default_branch),
            delegations: delegate_views(self.delegations@),
        }
    }
}

impl ProjectView {
    /// The peers that may act as maintainers, in delegation order.
    pub open spec fn delegate_peers(self) -> Seq<Seq<char>> {
        delegate_peers(self.delegations)
    }

    /// The first peer of the flattened delegation, if it has any.
    pub open spec fn first_delegate(self) -> Option<Seq<char>> {
        if self.delegate_peers().len() > 0 {
            Some(self.delegate_peers()[0])
        } else {
            None
        }
    }

    /// Whether `peer` is one of the delegates.
    pub open spec fn is_delegate(self, peer: Seq<char>) -> bool {
        self.delegate_peers().contains(peer)
    }

    /// Whether the project declares a default branch and the declared name
    /// is a reference name.
    pub open spec fn declares_ref_name(self) -> bool {
        match self.default_branch {
            Some(name) => ref_string_of(name).is_some(),
            None => false,
        }
    }
}

/// Flattening the entries from `from` on is the peers of entry `from`
/// followed by the flattening from `from + 1` on.
proof fn lemma_delegate_peers_step(entries: Seq<DelegateView>, from: int)
    requires
        0 <= from < entries.len(),
    ensures
        delegate_peers(entries.subrange(from, entries.len() as int)) == entry_peers(entries[from])
            + delegate_peers(entries.subrange(from + 1, entries.len() as int)),
{
    let tail = entries.subrange(from, entries.len() as int);
    assert(tail.drop_first() =~= entries.subrange(from + 1, entries.len() as int));
}

/// Whether `peer` is among `keys`.
fn holds_key(keys: &Vec<PeerId>, peer: &PeerId) -> (found: bool)
    ensures
        found == peer_views(keys@).contains(peer@),
{
    let mut i: usize = 0;
    while i < keys.len()
        invariant
            i <= keys.len(),
            forall|j: int| 0 <= j < i ==> peer_views(keys@)[j] != peer@,
        decreases keys.len() - i,
    {
        if keys[i].same(peer) {
            assert(peer_views(keys@)[i as int] == peer@);
            return true;
        }
        i += 1;
    }
    false
}

impl Project {
    /// The first peer of the flattened delegation: the first key of the first
    /// entry that has one.
    pub fn first_delegate(&self) -> (first: Option<&PeerId>)
        ensures
            match first {
                Some(peer) => self@.first_delegate() == Some(peer@),
                None => self@.first_delegate().is_none(),
            },
    {
        let ghost entries = self@.delegations;
        let mut i: usize = 0;
        proof {
            assert(entries.subrange(0, entries.len() as int) =~= entries);
        }
        while i < self.delegations.len()
            invariant
                i <= self.delegations.len(),
                entries == self@.delegations,
                delegate_peers(entries) == delegate_peers(
                    entries.subrange(i as int, entries.len() as int),
                ),
            decreases self.delegations.len() - i,
        {
            proof {
                lemma_delegate_peers_step(entries, i as int);
            }
            match &self.delegations[i] {
                Either::Left(key) => {
                    return Some(key);
                },
                Either::Right(person) => {
                    if person.keys.len() > 0 {
                        assert(peer_views(person.keys@)[0] == person.keys@[0]@);
                        return Some(&person.keys[0]);
                    }
                    assert(entry_peers(entries[i as int]) =~= Seq::empty());
                },
            }
            i += 1;
        }
        None
    }

    /// Whether `peer` is one of the delegates: a key of the delegation itself
    /// or of a person in it.
    pub fn is_delegate(&self, peer: &PeerId) -> (found: bool)
        ensures
            found == self@.is_delegate(peer@),
    {
        let ghost entries = self@.delegations;
        let mut i: usize = 0;
        proof {
            assert(entries.subrange(0, entries.len() as int) =~= entries);
        }
        while i < self.delegations.len()
            invariant
                i <= self.delegations.len(),
                entries == self@.delegations,
                delegate_peers(entries).contains(peer@) == delegate_peers(
                    entries.subrange(i as int, entries.len() as int),
                ).contains(peer@),
            decreases self.delegations.len() - i,
        {
            proof {
                lemma_delegate_peers_step(entries, i as int);
            }
            let ghost here = entry_peers(entries[i as int]);
            let ghost rest = delegate_peers(entries.subrange(i + 1, entries.len() as int));
            let found = match &self.delegations[i] {
                Either::Left(key) => {
                    assert(here[0] == key@);
                    key.same(peer)
                },
                Either::Right(person) => holds_key(&person.keys, peer),
            };
            assert(found == here.contains(peer@));
            if found {
                let ghost at = choose|k: int| 0 <= k < here.len() && here[k] == peer@;
                assert((here + rest)[at] == peer@);
                return true;
            }
            assert((here + rest).contains(peer@) == rest.contains(peer@)) by {
                if (here + rest).contains(peer@) {
                    let k = choose|k: int| 0 <= k < (here + rest).len() && (here + rest)[k] == peer@;
                    assert(k >= here.len());
                    assert(rest[k - here.len()] == peer@);
                }
                if rest.contains(peer@) {
                    let k = choose|k: int| 0 <= k < rest.len() && rest[k] == peer@;
                    assert((here + rest)[here.len() + k] == peer@);
                }
            }
            i += 1;
        }
        false
    }
}

/// A document of the identity store: a person or a project.
#[derive(Clone, Debug, PartialEq, Eq)]
pub enum SomeIdentity {
    Person(Person),
    Project(Project),
}

} // verus!
