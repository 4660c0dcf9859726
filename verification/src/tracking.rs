//! Tracking a peer, and the fetch configuration that follows the tracked set.

use vstd::prelude::*;
use vstd::string::StringExecFns;

use crate::error::Error;
use crate::error::StorageError;
use crate::ident::PeerId;
use crate::ident::Urn;
use crate::identity::Person;
use crate::identity::PersonView;
use crate::identity::ProjectView;
use crate::peer::peer_entries;
use crate::peer::remote_entry_of;
use crate::peer::Facts;
use crate::peer::Peer;
use crate::peer::PeerView;
use crate::peer::Status;
use crate::peer::StatusView;
use crate::state::State;

verus! {

/// A remote of the fetch configuration: a replicated peer and the person it
/// claims to be.
#[derive(Clone, Debug, PartialEq, Eq)]
pub struct Remote {
    pub user: Person,
    pub peer_id: PeerId,
}

/// What a remote says.
pub struct RemoteView {
    pub user: PersonView,
    pub peer_id: Seq<char>,
}

impl View for Remote {
    type V = RemoteView;

    open spec fn view(&self) -> RemoteView {
        RemoteView { user: self.user@, peer_id: self.peer_id@ }
    }
}

/// The views of a list of remotes.
pub open spec fn remote_views(remotes: Seq<Remote>) -> Seq<RemoteView> {
    Seq::new(remotes.len(), |i: int| remotes[i]@)
}

/// The remote that a peer entry gives: one for a remote peer that is
/// replicated, none for the local node or a peer that is not replicated.
pub open spec fn replicated_remote(peer: PeerView) -> Option<RemoteView> {
    match peer {
        PeerView::Remote { peer_id, status: StatusView::Replicated { user, .. } } => Some(
            RemoteView { user, peer_id },
        ),
        _ => None,
    }
}

/// The remotes of a list of peers, in the order of the list.
pub open spec fn replicated_remotes(peers: Seq<PeerView>) -> Seq<RemoteView>
    decreases peers.len(),
{
    if peers.len() == 0 {
        Seq::empty()
    } else {
        let before = replicated_remotes(peers.drop_last());
        match replicated_remote(peers.last()) {
            Some(remote) => before.push(remote),
            None => before,
        }
    }
}

impl Peer {
    /// The remote that this entry gives, if it is a replicated remote peer.
    pub fn replicated_remote(self) -> (remote: Option<Remote>)
        ensures
            match remote {
                Some(found) => replicated_remote(self@) == Some(found@),
                None => replicated_remote(self@).is_none(),
            },
    {
        match self {
            Peer::Remote { peer_id, status: Status::Replicated { role: _, user } } => Some(
                Remote { user, peer_id },
            ),
            _ => None,
        }
    }
}

/// The content of the fetch configuration of one project.
#[derive(Clone, Debug, PartialEq, Eq)]
pub struct Artifact {
    /// The project whose working copies read the file.
    pub urn: Urn,
    /// The node that the remotes are fetched through.
    pub local: PeerId,
    /// One remote for each replicated peer.
    pub remotes: Vec<Remote>,
}

/// A discovery hint: `peer` is wanted for the project `urn`.
#[derive(Clone, Debug, PartialEq, Eq)]
pub struct Hint {
    pub urn: Urn,
    pub peer: PeerId,
}

/// What a change of the tracking relation obliges the caller to do before it
/// returns.
#[derive(Clone, Debug, PartialEq, Eq)]
pub struct Followup {
    /// The hint to broadcast, if any.
    pub hint: Option<Hint>,
    /// The project whose fetch configuration has to be written anew, if any.
    pub refresh: Option<Urn>,
}

/// What follows once the storage was asked to track `peer` for `urn`.
/// Tracking a peer that is tracked already is a success like any other: the
/// hint goes out and the fetch configuration is written anew either way. A
/// failure of the storage is handed on and nothing follows.
pub open spec fn track_spec(urn: Urn, peer: PeerId, stored: Result<bool, StorageError>) -> Result<
    Followup,
    Error,
> {
    match stored {
        Ok(_) => Ok(Followup { hint: Some(Hint { urn, peer }), refresh: Some(urn) }),
        Err(error) => Err(Error::Storage(error)),
    }
}

/// What follows once the storage was asked to untrack a peer of `urn`:
/// whether a relation was removed, and the fetch configuration to write anew
/// if and only if one was. A failure of the storage is handed on.
pub open spec fn untrack_spec(urn: Urn, stored: Result<bool, StorageError>) -> Result<
    (bool, Followup),
    Error,
> {
    match stored {
        Ok(true) => Ok((true, Followup { hint: None, refresh: Some(urn) })),
        Ok(false) => Ok((false, Followup { hint: None, refresh: None })),
        Err(error) => Err(Error::Storage(error)),
    }
}

/// Tracking a peer again obliges to the same as tracking it the first time:
/// whether the storage made the relation anew or found it there, the same
/// hint goes out and the same project's fetch configuration is written anew.
pub proof fn lemma_track_again_is_the_same(urn: Urn, peer: PeerId)
    ensures
        track_spec(urn, peer, Ok(true)) == track_spec(urn, peer, Ok(false)),
        track_spec(urn, peer, Ok(true)) is Ok,
{
}

/// The peer that an entry is about.
pub open spec fn entry_peer(peer: PeerView) -> Seq<char> {
    match peer {
        PeerView::Local { peer_id, .. } => peer_id,
        PeerView::Remote { peer_id, .. } => peer_id,
    }
}

/// A listing without the entries of `peer`.
pub open spec fn without_peer(peers: Seq<PeerView>, peer: Seq<char>) -> Seq<PeerView>
    decreases peers.len(),
{
    if peers.len() == 0 {
        Seq::empty()
    } else if entry_peer(peers.last()) == peer {
        without_peer(peers.drop_last(), peer)
    } else {
        without_peer(peers.drop_last(), peer).push(peers.last())
    }
}

/// The remotes without those of `peer`.
pub open spec fn without_remote(remotes: Seq<RemoteView>, peer: Seq<char>) -> Seq<RemoteView>
    decreases remotes.len(),
{
    if remotes.len() == 0 {
        Seq::empty()
    } else if remotes.last().peer_id == peer {
        without_remote(remotes.drop_last(), peer)
    } else {
        without_remote(remotes.drop_last(), peer).push(remotes.last())
    }
}

/// Every remote of the fetch configuration is a peer of the listing: a peer
/// that the listing does not name has no remote.
pub proof fn lemma_unlisted_peer_has_no_remote(peers: Seq<PeerView>, peer: Seq<char>)
    requires
        forall|i: int| 0 <= i < peers.len() ==> entry_peer(#[trigger] peers[i]) != peer,
    ensures
        forall|j: int|
            0 <= j < replicated_remotes(peers).len() ==> (#[trigger] replicated_remotes(
                peers,
            )[j]).peer_id != peer,
        without_peer(peers, peer) == peers,
        without_remote(replicated_remotes(peers), peer) == replicated_remotes(peers),
    decreases peers.len(),
{
    if peers.len() > 0 {
        let rest = peers.drop_last();
        assert forall|i: int| 0 <= i < rest.len() implies entry_peer(#[trigger] rest[i])
            != peer by {
            assert(rest[i] == peers[i]);
        }
        lemma_unlisted_peer_has_no_remote(rest, peer);
        assert(entry_peer(peers.last()) != peer);
        assert(without_peer(peers, peer) =~= peers);
        match replicated_remote(peers.last()) {
            Some(remote) => {
                let remotes = replicated_remotes(peers);
                assert(remotes.drop_last() =~= replicated_remotes(rest));
                assert(remotes.last() == remote);
                assert(without_remote(remotes, peer) =~= remotes);
            },
            None => {},
        }
    }
}

/// Taking a peer out of the listing takes its remotes, and no others, out of
/// the fetch configuration.
pub proof fn lemma_removal_reaches_artifact(peers: Seq<PeerView>, peer: Seq<char>)
    ensures
        replicated_remotes(without_peer(peers, peer)) == without_remote(
            replicated_remotes(peers),
            peer,
        ),
        forall|j: int|
            0 <= j < replicated_remotes(without_peer(peers, peer)).len() ==> (
            #[trigger] replicated_remotes(without_peer(peers, peer))[j]).peer_id != peer,
    decreases peers.len(),
{
    if peers.len() > 0 {
        let rest = peers.drop_last();
        let last = peers.last();
        lemma_removal_reaches_artifact(rest, peer);
        let kept = without_peer(rest, peer);
        let remotes = replicated_remotes(peers);
        if entry_peer(last) == peer {
            match replicated_remote(last) {
                Some(remote) => {
                    assert(remotes.drop_last() =~= replicated_remotes(rest));
                    assert(remotes.last() == remote);
                },
                None => {},
            }
        } else {
            let listed = kept.push(last);
            assert(listed.drop_last() =~= kept);
            assert(listed.last() == last);
            match replicated_remote(last) {
                Some(remote) => {
                    assert(remotes.drop_last() =~= replicated_remotes(rest));
                    assert(remotes.last() == remote);
                    let made = replicated_remotes(listed);
                    assert(made == replicated_remotes(kept).push(remote));
                },
                None => {},
            }
        }
    }
}

/// The tracking relation of one project as this library expects its storage
/// to keep it: the peers in the order in which they were first tracked.
/// Tracking a peer adds it unless it is there. Nothing here holds a storage
/// to this; the laws below say what follows where a storage keeps to it.
pub open spec fn relation_with(peers: Seq<Seq<char>>, peer: Seq<char>) -> Seq<Seq<char>> {
    if peers.contains(peer) {
        peers
    } else {
        peers.push(peer)
    }
}

/// Untracking a peer takes it out of the relation, as far as this library
/// expects of its storage.
pub open spec fn relation_without(peers: Seq<Seq<char>>, peer: Seq<char>) -> Seq<Seq<char>>
    decreases peers.len(),
{
    if peers.len() == 0 {
        Seq::empty()
    } else if peers.last() == peer {
        relation_without(peers.drop_last(), peer)
    } else {
        relation_without(peers.drop_last(), peer).push(peers.last())
    }
}

/// The listing of the peers of a relation when the storage holds `facts(p)`
/// of each peer `p`. (Where a self reference stands without an identity the
/// listing fails; the entry of such a peer says nothing here.)
pub open spec fn listing_of(
    project: ProjectView,
    peers: Seq<Seq<char>>,
    facts: spec_fn(Seq<char>) -> Facts,
) -> Seq<PeerView> {
    Seq::new(peers.len(), |i: int| remote_entry_of(project, peers[i], facts(peers[i])))
}

/// The remotes of the fetch configuration that belongs to a relation.
pub open spec fn artifact_of(
    project: ProjectView,
    peers: Seq<Seq<char>>,
    facts: spec_fn(Seq<char>) -> Facts,
) -> Seq<RemoteView> {
    replicated_remotes(listing_of(project, peers, facts))
}

/// Tracking keeps the relation a set: where no peer is in the relation
/// twice, none is after a peer was tracked, whether it was there or not. So
/// a peer that is tracked, once or many times, is in the relation once.
pub proof fn lemma_relation_holds_a_peer_once(peers: Seq<Seq<char>>, peer: Seq<char>)
    requires
        peers.no_duplicates(),
    ensures
        relation_with(peers, peer).no_duplicates(),
        relation_with(relation_with(peers, peer), peer).no_duplicates(),
{
    let tracked_once = relation_with(peers, peer);
    if !peers.contains(peer) {
        assert forall|i: int, j: int|
            0 <= i < tracked_once.len() && 0 <= j < tracked_once.len() && i != j implies tracked_once[i]
            != tracked_once[j] by {
            if i < peers.len() {
                assert(peers[i] != peer);
            }
            if j < peers.len() {
                assert(peers[j] != peer);
            }
        }
        assert(tracked_once[peers.len() as int] == peer);
    }
}

/// Tracking a peer twice leaves the relation as tracking it once did, with
/// the peer in it, and so gives the same fetch configuration both times.
pub proof fn lemma_track_twice(
    project: ProjectView,
    peers: Seq<Seq<char>>,
    peer: Seq<char>,
    facts: spec_fn(Seq<char>) -> Facts,
)
    ensures
        relation_with(peers, peer).contains(peer),
        relation_with(relation_with(peers, peer), peer) == relation_with(peers, peer),
        artifact_of(project, relation_with(relation_with(peers, peer), peer), facts)
            == artifact_of(project, relation_with(peers, peer), facts),
{
    if !peers.contains(peer) {
        assert(peers.push(peer)[peers.len() as int] == peer);
    }
}

/// Untracking a peer that is not tracked removes nothing: the relation and
/// the fetch configuration stay as they are, and no follow-up is owed.
pub proof fn lemma_untrack_stranger(
    project: ProjectView,
    urn: Urn,
    peers: Seq<Seq<char>>,
    peer: Seq<char>,
    facts: spec_fn(Seq<char>) -> Facts,
)
    requires
        !peers.contains(peer),
    ensures
        relation_without(peers, peer) == peers,
        artifact_of(project, relation_without(peers, peer), facts) == artifact_of(
            project,
            peers,
            facts,
        ),
        untrack_spec(urn, Ok(peers.contains(peer))) == Ok::<(bool, Followup), Error>(
            (false, Followup { hint: None, refresh: None }),
        ),
    decreases peers.len(),
{
    if peers.len() > 0 {
        let rest = peers.drop_last();
        assert(peers.last() == peers[peers.len() - 1]);
        assert forall|i: int| 0 <= i < rest.len() implies rest[i] != peer by {
            assert(rest[i] == peers[i]);
        }
        lemma_untrack_stranger(project, urn, rest, peer, facts);
        assert(relation_without(peers, peer) =~= peers);
    }
}

/// Untracking a tracked peer removes it: the storage reports the removal, the
/// fetch configuration is owed anew, and made from the relation that is left
/// it is the old one without the remotes of that peer.
pub proof fn lemma_untrack_removes(
    project: ProjectView,
    urn: Urn,
    peers: Seq<Seq<char>>,
    peer: Seq<char>,
    facts: spec_fn(Seq<char>) -> Facts,
)
    requires
        peers.contains(peer),
    ensures
        !relation_without(peers, peer).contains(peer),
        untrack_spec(urn, Ok(peers.contains(peer))) == Ok::<(bool, Followup), Error>(
            (true, Followup { hint: None, refresh: Some(urn) }),
        ),
        artifact_of(project, relation_without(peers, peer), facts) == without_remote(
            artifact_of(project, peers, facts),
            peer,
        ),
        forall|j: int|
            0 <= j < artifact_of(project, relation_without(peers, peer), facts).len() ==> (
            #[trigger] artifact_of(project, relation_without(peers, peer), facts)[j]).peer_id
                != peer,
{
    lemma_relation_without(project, peers, peer, facts);
    lemma_removal_reaches_artifact(listing_of(project, peers, facts), peer);
}

/// What is left of a relation does not name the peer that was taken out, and
/// its listing is the old listing without the entries of that peer.
proof fn lemma_relation_without(
    project: ProjectView,
    peers: Seq<Seq<char>>,
    peer: Seq<char>,
    facts: spec_fn(Seq<char>) -> Facts,
)
    ensures
        !relation_without(peers, peer).contains(peer),
        listing_of(project, relation_without(peers, peer), facts) == without_peer(
            listing_of(project, peers, facts),
            peer,
        ),
    decreases peers.len(),
{
    let left = relation_without(peers, peer);
    let listing = listing_of(project, peers, facts);
    if peers.len() == 0 {
        assert(listing_of(project, left, facts) =~= without_peer(listing, peer));
    } else {
        let rest = peers.drop_last();
        let kept = relation_without(rest, peer);
        lemma_relation_without(project, rest, peer, facts);
        assert(listing.drop_last() =~= listing_of(project, rest, facts));
        assert(entry_peer(listing.last()) == peers.last());
        if peers.last() != peer {
            assert forall|i: int| 0 <= i < left.len() implies left[i] != peer by {
                if i < kept.len() {
                    assert(left[i] == kept[i]);
                }
            }
            assert(listing_of(project, left, facts) =~= listing_of(project, kept, facts).push(
                listing.last(),
            ));
        }
    }
}

impl Artifact {
    /// The name of the file that holds the fetch configuration, below the
    /// directory that the node keeps such files in: the project's identifier
    /// and the extension `inc`.
    pub open spec fn file_name_spec(urn: Seq<char>) -> Seq<char> {
        urn + ".inc"@
    }

    /// The name of the file that holds this fetch configuration. It follows
    /// from the project alone.
    pub fn file_name(&self) -> (name: String)
        ensures
            name@ == Artifact::file_name_spec(self.urn@),
    {
        let mut name = self.urn.id.clone();
        name.append(".inc");
        name
    }
}

impl State {
    /// What follows once the storage was asked to track `peer` for `urn` and
    /// answered `stored`.
    pub fn track(&self, urn: Urn, peer: PeerId, stored: Result<bool, StorageError>) -> (outcome:
        Result<Followup, Error>)
        ensures
            outcome == track_spec(urn, peer, stored),
    {
        match stored {
            Ok(_) => {
                let refresh = urn.clone();
                Ok(Followup { hint: Some(Hint { urn, peer }), refresh: Some(refresh) })
            },
            Err(error) => Err(Error::Storage(error)),
        }
    }

    /// What follows once the storage was asked to untrack a peer of `urn` and
    /// answered `stored`.
    pub fn untrack(&self, urn: Urn, stored: Result<bool, StorageError>) -> (outcome: Result<
        (bool, Followup),
        Error,
    >)
        ensures
            outcome == untrack_spec(urn, stored),
    {
        match stored {
            Ok(true) => Ok((true, Followup { hint: None, refresh: Some(urn) })),
            Ok(false) => Ok((false, Followup { hint: None, refresh: None })),
            Err(error) => Err(Error::Storage(error)),
        }
    }

    /// The fetch configuration of the project `urn`, made anew from the
    /// listing of its tracked peers: one remote for each replicated remote
    /// peer of `peers`, in the order of the listing, and nothing else.
    pub fn update_include(&self, urn: Urn, peers: Vec<Peer>) -> (artifact: Artifact)
        ensures
            artifact.urn == urn,
            artifact.local@ == self.peer_id@,
            remote_views(artifact.remotes@) == replicated_remotes(peer_entries(peers@)),
    {
        let ghost all = peer_entries(peers@);
        let mut remotes: Vec<Remote> = Vec::new();
        for peer in it: peers
            invariant
                all == peer_entries(it.seq()),
                remote_views(remotes@) == replicated_remotes(all.take(it.index() as int)),
        {
            let ghost seen = all.take(it.index() as int);
            let ghost next = all.take(it.index() + 1);
            proof {
                assert(next.drop_last() =~= seen);
                assert(next.last() == peer@);
            }
            match peer.replicated_remote() {
                Some(remote) => {
                    let ghost before = remotes@;
                    remotes.push(remote);
                    assert(remote_views(remotes@) =~= remote_views(before).push(remote@));
                },
                None => {},
            }
        }
        proof {
            assert(all.take(all.len() as int) =~= all);
        }
        Artifact { urn, local: self.peer_id.clone(), remotes }
    }
}

} // verus!
