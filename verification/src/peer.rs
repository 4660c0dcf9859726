//! Who replicates a project, and in which role.
//!
//! Nothing here is stored: a peer's status is worked out anew, every time,
//! from what the storage holds of it at that moment.

use vstd::prelude::*;

use crate::error::Error;
use crate::error::ErrorView;
use crate::ident::PeerId;
use crate::ident::Urn;
use crate::identity::Person;
use crate::identity::PersonView;
use crate::identity::Project;
use crate::identity::ProjectView;
use crate::reference::Reference;
use crate::reference::ReferenceView;
use crate::state::State;

verus! {

/// What a peer is to a project.
#[derive(Clone, Copy, Debug, PartialEq, Eq, Structural)]
pub enum Role {
    /// Replicates the project and no more.
    Tracker,
    /// Has published signed reference state of its own.
    Contributor,
    /// Holds a key of the project's delegation.
    Maintainer,
}

/// Whether a peer's view of a project is here, and if so as what.
#[derive(Clone, Debug, PartialEq, Eq)]
pub enum Status {
    NotReplicated,
    Replicated { role: Role, user: Person },
}

/// What a status says.
pub enum StatusView {
    NotReplicated,
    Replicated { role: Role, user: PersonView },
}

impl View for Status {
    type V = StatusView;

    open spec fn view(&self) -> StatusView {
        match *self {
            Status::NotReplicated => StatusView::NotReplicated,
            Status::Replicated { role, user } => StatusView::Replicated { role, user: user@ },
        }
    }
}

/// A peer of a project: the local node or a tracked remote one.
#[derive(Clone, Debug, PartialEq, Eq)]
pub enum Peer {
    Local { peer_id: PeerId, status: Status },
    Remote { peer_id: PeerId, status: Status },
}

/// What a peer entry says.
pub enum PeerView {
    Local { peer_id: Seq<char>, status: StatusView },
    Remote { peer_id: Seq<char>, status: StatusView },
}

impl View for Peer {
    type V = PeerView;

    open spec fn view(&self) -> PeerView {
        match *self {
            Peer::Local { peer_id, status } => PeerView::Local {
                peer_id: peer_id@,
                status: status@,
            },
            Peer::Remote { peer_id, status } => PeerView::Remote {
                peer_id: peer_id@,
                status: status@,
            },
        }
    }
}

/// The views of a list of peer entries.
pub open spec fn peer_entries(peers: Seq<Peer>) -> Seq<PeerView> {
    Seq::new(peers.len(), |i: int| peers[i]@)
}

/// A question to the storage about one peer under a project's namespace.
#[derive(Clone, Copy, Debug, PartialEq, Eq, Structural)]
pub enum Probe {
    /// Does the peer's self reference exist?
    SelfRef,
    /// Which person stands behind the self reference?
    Identity,
    /// Does the peer's signed-refs reference exist?
    SignedRefs,
}

/// What is known so far of one peer. `None` in a field: not asked yet.
#[derive(Clone, Debug, PartialEq, Eq)]
pub struct Sighting {
    pub peer_id: PeerId,
    pub self_ref: Option<bool>,
    pub identity: Option<Option<Person>>,
    pub signed_refs: Option<bool>,
}

/// What a sighting says.
pub struct SightingView {
    pub peer_id: Seq<char>,
    pub self_ref: Option<bool>,
    pub identity: Option<Option<PersonView>>,
    pub signed_refs: Option<bool>,
}

/// The view of an answer to [`Probe::Identity`].
pub open spec fn identity_view(identity: Option<Option<Person>>) -> Option<Option<PersonView>> {
    match identity {
        None => None,
        Some(None) => Some(None),
        Some(Some(person)) => Some(Some(person@)),
    }
}

impl View for Sighting {
    type V = SightingView;

    open spec fn view(&self) -> SightingView {
        SightingView {
            peer_id: self.peer_id@,
            self_ref: self.self_ref,
            identity: identity_view(self.identity),
            signed_refs: self.signed_refs,
        }
    }
}

impl Sighting {
    /// A peer of which nothing has been asked yet.
    pub fn new(peer_id: PeerId) -> (sighting: Sighting)
        ensures
            sighting.peer_id == peer_id,
            sighting.self_ref.is_none(),
            sighting.identity.is_none(),
            sighting.signed_refs.is_none(),
    {
        Sighting { peer_id, self_ref: None, identity: None, signed_refs: None }
    }

    /// Records whether the reference that `probe` looks at exists. The answer
    /// to [`Probe::Identity`] is a person, not a yes or no: for that probe
    /// nothing is recorded here.
    pub fn note_exists(&mut self, probe: Probe, exists: bool)
        ensures
            final(self).peer_id == old(self).peer_id,
            final(self).identity == old(self).identity,
            final(self).self_ref == if probe == Probe::SelfRef {
                Some(exists)
            } else {
                old(self).self_ref
            },
            final(self).signed_refs == if probe == Probe::SignedRefs {
                Some(exists)
            } else {
                old(self).signed_refs
            },
    {
        match probe {
            Probe::SelfRef => {
                self.self_ref = Some(exists);
            },
            Probe::SignedRefs => {
                self.signed_refs = Some(exists);
            },
            Probe::Identity => {},
        }
    }

    /// Records which person stands behind the self reference, `None` if the
    /// storage found none.
    pub fn note_identity(&mut self, person: Option<Person>)
        ensures
            final(self).peer_id == old(self).peer_id,
            final(self).self_ref == old(self).self_ref,
            final(self).signed_refs == old(self).signed_refs,
            final(self).identity == Some(person),
    {
        self.identity = Some(person);
    }
}

/// The views of a list of sightings.
pub open spec fn sighting_views(sightings: Seq<Sighting>) -> Seq<SightingView> {
    Seq::new(sightings.len(), |i: int| sightings[i]@)
}

/// Where the classification of one peer stands.
#[derive(Clone, Debug, PartialEq, Eq)]
pub enum Verdict {
    /// One more answer is needed.
    Ask(Probe),
    /// The peer's status.
    Settled(Status),
    /// The self reference exists and no identity stands behind it.
    Violation,
}

/// What a verdict says.
pub enum VerdictView {
    Ask(Probe),
    Settled(StatusView),
    Violation,
}

impl View for Verdict {
    type V = VerdictView;

    open spec fn view(&self) -> VerdictView {
        match *self {
            Verdict::Ask(probe) => VerdictView::Ask(probe),
            Verdict::Settled(status) => VerdictView::Settled(status@),
            Verdict::Violation => VerdictView::Violation,
        }
    }
}

/// The rules, in their order: without a self reference the peer is not
/// replicated; with one, its identity has to resolve; then a delegate is a
/// maintainer, whoever else has published signed refs is a contributor, and
/// the rest are trackers. Where the next rule needs an answer that the
/// sighting lacks, that answer is asked for.
pub open spec fn classify_spec(project: ProjectView, sighting: SightingView) -> VerdictView {
    match sighting.self_ref {
        None => VerdictView::Ask(Probe::SelfRef),
        Some(false) => VerdictView::Settled(StatusView::NotReplicated),
        Some(true) => match sighting.identity {
            None => VerdictView::Ask(Probe::Identity),
            Some(None) => VerdictView::Violation,
            Some(Some(user)) => if project.is_delegate(sighting.peer_id) {
                VerdictView::Settled(StatusView::Replicated { role: Role::Maintainer, user })
            } else {
                match sighting.signed_refs {
                    None => VerdictView::Ask(Probe::SignedRefs),
                    Some(true) => VerdictView::Settled(
                        StatusView::Replicated { role: Role::Contributor, user },
                    ),
                    Some(false) => VerdictView::Settled(
                        StatusView::Replicated { role: Role::Tracker, user },
                    ),
                }
            },
        },
    }
}

/// What the storage holds of one peer under a project's namespace.
pub struct Facts {
    /// Whether the peer's self reference exists.
    pub self_ref: bool,
    /// The person behind the self reference, if one resolves.
    pub identity: Option<PersonView>,
    /// Whether the peer's signed-refs reference exists.
    pub signed_refs: bool,
}

/// The status of `peer` for `project` when the storage holds `facts` of it;
/// `None` where the self reference exists and no identity stands behind it.
pub open spec fn status_of(project: ProjectView, peer: Seq<char>, facts: Facts) -> Option<
    StatusView,
> {
    if !facts.self_ref {
        Some(StatusView::NotReplicated)
    } else {
        match facts.identity {
            None => None,
            Some(user) => Some(
                StatusView::Replicated {
                    role: if project.is_delegate(peer) {
                        Role::Maintainer
                    } else if facts.signed_refs {
                        Role::Contributor
                    } else {
                        Role::Tracker
                    },
                    user,
                },
            ),
        }
    }
}

/// Whether every answer recorded in `sighting` is what `facts` says.
pub open spec fn agrees(sighting: SightingView, facts: Facts) -> bool {
    &&& sighting.self_ref is Some ==> sighting.self_ref == Some(facts.self_ref)
    &&& sighting.identity is Some ==> sighting.identity == Some(facts.identity)
    &&& sighting.signed_refs is Some ==> sighting.signed_refs == Some(facts.signed_refs)
}

/// A delegate whose self reference exists and resolves is a maintainer,
/// never a contributor or a tracker, whether or not it has published signed
/// refs.
pub proof fn lemma_delegate_is_maintainer(
    project: ProjectView,
    peer: Seq<char>,
    user: PersonView,
    signed_refs: bool,
)
    requires
        project.is_delegate(peer),
    ensures
        status_of(project, peer, Facts { self_ref: true, identity: Some(user), signed_refs })
            == Some(StatusView::Replicated { role: Role::Maintainer, user }),
        forall|known: Option<bool>|
            classify_spec(
                project,
                SightingView {
                    peer_id: peer,
                    self_ref: Some(true),
                    identity: Some(Some(user)),
                    signed_refs: known,
                },
            ) == VerdictView::Settled(StatusView::Replicated { role: Role::Maintainer, user }),
{
}

/// Classifying from the answers given so far never contradicts the storage:
/// a settled status is the status that the facts give, a violation is one of
/// the facts, and a question is one that has not been answered yet.
pub proof fn lemma_classify_agrees(project: ProjectView, sighting: SightingView, facts: Facts)
    requires
        agrees(sighting, facts),
    ensures
        match classify_spec(project, sighting) {
            VerdictView::Settled(status) => status_of(project, sighting.peer_id, facts) == Some(
                status,
            ),
            VerdictView::Violation => status_of(project, sighting.peer_id, facts).is_none(),
            VerdictView::Ask(Probe::SelfRef) => sighting.self_ref.is_none(),
            VerdictView::Ask(Probe::Identity) => sighting.identity.is_none(),
            VerdictView::Ask(Probe::SignedRefs) => sighting.signed_refs.is_none(),
        },
{
}

/// The sighting once the storage has answered `probe` as `facts` says.
pub open spec fn answered(sighting: SightingView, probe: Probe, facts: Facts) -> SightingView {
    match probe {
        Probe::SelfRef => SightingView { self_ref: Some(facts.self_ref), ..sighting },
        Probe::Identity => SightingView { identity: Some(facts.identity), ..sighting },
        Probe::SignedRefs => SightingView { signed_refs: Some(facts.signed_refs), ..sighting },
    }
}

/// Where classifying ends when every question, up to `rounds` of them, is
/// answered as `facts` says.
pub open spec fn classify_with(
    project: ProjectView,
    sighting: SightingView,
    facts: Facts,
    rounds: nat,
) -> VerdictView
    decreases rounds,
{
    match classify_spec(project, sighting) {
        VerdictView::Ask(probe) => if rounds == 0 {
            VerdictView::Ask(probe)
        } else {
            classify_with(project, answered(sighting, probe, facts), facts, (rounds - 1) as nat)
        },
        verdict => verdict,
    }
}

/// Three answers are enough: starting with nothing known of a peer and
/// answering what is asked, the classification ends in the status that the
/// facts give, or in the violation.
pub proof fn lemma_three_answers_suffice(project: ProjectView, peer: Seq<char>, facts: Facts)
    ensures
        classify_with(
            project,
            SightingView { peer_id: peer, self_ref: None, identity: None, signed_refs: None },
            facts,
            3,
        ) == match status_of(project, peer, facts) {
            Some(status) => VerdictView::Settled(status),
            None => VerdictView::Violation,
        },
{
    let start = SightingView { peer_id: peer, self_ref: None, identity: None, signed_refs: None };
    let first = answered(start, Probe::SelfRef, facts);
    let second = answered(first, Probe::Identity, facts);
    let third = answered(second, Probe::SignedRefs, facts);
    reveal_with_fuel(classify_with, 4);
    assert(classify_spec(project, start) == VerdictView::Ask(Probe::SelfRef));
    if facts.self_ref {
        assert(classify_spec(project, first) == VerdictView::Ask(Probe::Identity));
        if facts.identity is Some && !project.is_delegate(peer) {
            assert(classify_spec(project, second) == VerdictView::Ask(Probe::SignedRefs));
            assert(classify_spec(project, third) is Settled);
        }
    }
}

/// Classifies one peer of `project` from what is known of it so far.
pub fn classify(project: &Project, sighting: &Sighting) -> (verdict: Verdict)
    ensures
        verdict@ == classify_spec(project@, sighting@),
        // a delegate whose identity resolves is a maintainer, whatever is
        // known of its signed refs
        sighting.self_ref == Some(true) && project@.is_delegate(sighting.peer_id@) ==> (
        match sighting@.identity {
            Some(Some(user)) => verdict@ == VerdictView::Settled(
                StatusView::Replicated { role: Role::Maintainer, user },
            ),
            Some(None) => verdict@ == VerdictView::Violation,
            None => verdict@ == VerdictView::Ask(Probe::Identity),
        }),
{
    match sighting.self_ref {
        None => Verdict::Ask(Probe::SelfRef),
        Some(false) => Verdict::Settled(Status::NotReplicated),
        Some(true) => match &sighting.identity {
            None => Verdict::Ask(Probe::Identity),
            Some(None) => Verdict::Violation,
            Some(Some(person)) => {
                if project.is_delegate(&sighting.peer_id) {
                    Verdict::Settled(
                        Status::Replicated { role: Role::Maintainer, user: person.clone() },
                    )
                } else {
                    match sighting.signed_refs {
                        None => Verdict::Ask(Probe::SignedRefs),
                        Some(true) => Verdict::Settled(
                            Status::Replicated { role: Role::Contributor, user: person.clone() },
                        ),
                        Some(false) => Verdict::Settled(
                            Status::Replicated { role: Role::Tracker, user: person.clone() },
                        ),
                    }
                }
            },
        },
    }
}

/// The reference that a probe looks at: the self reference for the first two
/// probes, the signed-refs reference for the third. `remote` is `None` for the
/// local node.
pub open spec fn probe_reference_spec(
    urn: Seq<char>,
    remote: Option<Seq<char>>,
    probe: Probe,
) -> ReferenceView {
    match probe {
        Probe::SelfRef => ReferenceView::rad_self(urn, remote),
        Probe::Identity => ReferenceView::rad_self(urn, remote),
        Probe::SignedRefs => ReferenceView::rad_signed_refs(urn, remote),
    }
}

/// The reference that `probe` looks at for `remote` under the project `urn`.
pub fn probe_reference(urn: &Urn, remote: Option<&PeerId>, probe: Probe) -> (reference: Reference)
    ensures
        reference@ == probe_reference_spec(
            urn@,
            match remote {
                Some(peer) => Some(peer@),
                None => None,
            },
            probe,
        ),
{
    let remote = match remote {
        Some(peer) => Some(peer.clone()),
        None => None,
    };
    match probe {
        Probe::SelfRef => Reference::rad_self(urn.clone(), remote),
        Probe::Identity => Reference::rad_self(urn.clone(), remote),
        Probe::SignedRefs => Reference::rad_signed_refs(urn.clone(), remote),
    }
}

/// How far a listing of peers has come.
#[derive(Clone, Debug, PartialEq, Eq)]
pub enum Listing {
    /// An answer about the local node is needed first.
    AskLocal(Probe),
    /// An answer about the tracked peer at `index` is needed first.
    AskRemote { index: usize, probe: Probe },
    /// Every peer is classified.
    Done(Vec<Peer>),
}

/// What a listing says.
pub enum ListingView {
    AskLocal(Probe),
    AskRemote { index: int, probe: Probe },
    Done(Seq<PeerView>),
}

impl View for Listing {
    type V = ListingView;

    open spec fn view(&self) -> ListingView {
        match *self {
            Listing::AskLocal(probe) => ListingView::AskLocal(probe),
            Listing::AskRemote { index, probe } => ListingView::AskRemote {
                index: index as int,
                probe,
            },
            Listing::Done(peers) => ListingView::Done(peer_entries(peers@)),
        }
    }
}

/// The view of the outcome of a listing.
pub open spec fn listing_view(outcome: Result<Listing, Error>) -> Result<ListingView, ErrorView> {
    match outcome {
        Ok(listing) => Ok(listing@),
        Err(error) => Err(error@),
    }
}

/// How many sightings, from the first on, are settled.
pub open spec fn settled_prefix(project: ProjectView, sightings: Seq<SightingView>) -> int
    decreases sightings.len(),
{
    if sightings.len() == 0 {
        0
    } else if classify_spec(project, sightings[0]) is Settled {
        1 + settled_prefix(project, sightings.drop_first())
    } else {
        0
    }
}

/// The entry of a tracked peer whose classification is settled.
pub open spec fn remote_entry(project: ProjectView, sighting: SightingView) -> PeerView {
    PeerView::Remote {
        peer_id: sighting.peer_id,
        status: classify_spec(project, sighting)->Settled_0,
    }
}

/// The tracked peers of a project, in the order of `sightings`: the first
/// sighting that is not settled decides, by a question or by a failure; if
/// there is none, each sighting gives one remote entry.
pub open spec fn tracked_spec(project: ProjectView, sightings: Seq<SightingView>) -> Result<
    ListingView,
    ErrorView,
> {
    let settled = settled_prefix(project, sightings);
    if settled == sightings.len() {
        Ok(ListingView::Done(Seq::new(sightings.len(), |i: int| remote_entry(project, sightings[i]))))
    } else {
        match classify_spec(project, sightings[settled]) {
            VerdictView::Ask(probe) => Ok(ListingView::AskRemote { index: settled, probe }),
            _ => Err(
                ErrorView::ContractViolation {
                    reference: ReferenceView::rad_self(
                        project.urn,
                        Some(sightings[settled].peer_id),
                    ),
                },
            ),
        }
    }
}

/// What the local node knows of itself: its self reference and its identity
/// are there, its signed refs are as `signed_refs` says.
pub open spec fn local_sighting(
    peer_id: Seq<char>,
    owner: PersonView,
    signed_refs: Option<bool>,
) -> SightingView {
    SightingView { peer_id, self_ref: Some(true), identity: Some(Some(owner)), signed_refs }
}

/// The peers of a project: the local node first, classified by the same rules
/// as any other, then the tracked peers in the order of `remotes`.
pub open spec fn project_peers_spec(
    project: ProjectView,
    local: SightingView,
    remotes: Seq<SightingView>,
) -> Result<ListingView, ErrorView> {
    match classify_spec(project, local) {
        VerdictView::Ask(probe) => Ok(ListingView::AskLocal(probe)),
        VerdictView::Settled(status) => match tracked_spec(project, remotes) {
            Ok(ListingView::Done(peers)) => Ok(
                ListingView::Done(seq![PeerView::Local { peer_id: local.peer_id, status }] + peers),
            ),
            other => other,
        },
        VerdictView::Violation => Err(
            ErrorView::ContractViolation {
                reference: ReferenceView::rad_self(project.urn, None),
            },
        ),
    }
}

/// How many entries of `peers` are local ones.
pub open spec fn local_count(peers: Seq<PeerView>) -> int
    decreases peers.len(),
{
    if peers.len() == 0 {
        0
    } else {
        (if peers.last() is Local { 1int } else { 0int }) + local_count(peers.drop_last())
    }
}

/// If the first `count` sightings are settled and the next one, if there is
/// one, is not, then `count` is the settled prefix.
proof fn lemma_settled_prefix(project: ProjectView, sightings: Seq<SightingView>, count: int)
    requires
        0 <= count <= sightings.len(),
        forall|j: int| 0 <= j < count ==> classify_spec(project, #[trigger] sightings[j]) is Settled,
        count < sightings.len() ==> !(classify_spec(project, sightings[count]) is Settled),
    ensures
        settled_prefix(project, sightings) == count,
    decreases sightings.len(),
{
    if sightings.len() > 0 && count > 0 {
        let rest = sightings.drop_first();
        assert(classify_spec(project, sightings[0]) is Settled);
        assert forall|j: int| 0 <= j < count - 1 implies classify_spec(
            project,
            #[trigger] rest[j],
        ) is Settled by {
            assert(rest[j] == sightings[j + 1]);
        }
        if count - 1 < rest.len() {
            assert(rest[count - 1] == sightings[count]);
        }
        lemma_settled_prefix(project, rest, count - 1);
    }
}

/// A list of remote entries holds no local one.
proof fn lemma_no_local(peers: Seq<PeerView>)
    requires
        forall|i: int| 0 <= i < peers.len() ==> #[trigger] peers[i] is Remote,
    ensures
        local_count(peers) == 0,
    decreases peers.len(),
{
    if peers.len() > 0 {
        let rest = peers.drop_last();
        assert forall|i: int| 0 <= i < rest.len() implies #[trigger] rest[i] is Remote by {
            assert(rest[i] == peers[i]);
        }
        lemma_no_local(rest);
    }
}

/// A local entry followed by remote ones holds exactly one local entry.
proof fn lemma_one_local(head: PeerView, peers: Seq<PeerView>)
    requires
        head is Local,
        forall|i: int| 0 <= i < peers.len() ==> #[trigger] peers[i] is Remote,
    ensures
        local_count(seq![head] + peers) == 1,
    decreases peers.len(),
{
    let all = seq![head] + peers;
    if peers.len() == 0 {
        assert(all.drop_last() =~= Seq::<PeerView>::empty());
        assert(local_count(all.drop_last()) == 0);
        assert(all.last() == head);
    } else {
        let rest = peers.drop_last();
        assert(all.drop_last() =~= seq![head] + rest);
        assert(all.last() == peers.last());
        assert forall|i: int| 0 <= i < rest.len() implies #[trigger] rest[i] is Remote by {
            assert(rest[i] == peers[i]);
        }
        lemma_one_local(head, rest);
    }
}

/// How many questions about one peer are still without an answer.
pub open spec fn open_answers(sighting: SightingView) -> nat {
    (if sighting.self_ref is None { 1nat } else { 0nat })
        + (if sighting.identity is None { 1nat } else { 0nat })
        + (if sighting.signed_refs is None { 1nat } else { 0nat })
}

/// How many questions about a list of peers are still without an answer.
pub open spec fn open_answers_of(sightings: Seq<SightingView>) -> nat
    decreases sightings.len(),
{
    if sightings.len() == 0 {
        0
    } else {
        open_answers_of(sightings.drop_last()) + open_answers(sightings.last())
    }
}

/// Where listing the tracked peers ends when every question, up to `rounds`
/// of them, is answered as `facts` says of the peer that it is about.
pub open spec fn tracked_with(
    project: ProjectView,
    sightings: Seq<SightingView>,
    facts: Seq<Facts>,
    rounds: nat,
) -> Result<ListingView, ErrorView>
    decreases rounds,
{
    match tracked_spec(project, sightings) {
        Ok(ListingView::AskRemote { index, probe }) => if rounds == 0 {
            Ok(ListingView::AskRemote { index, probe })
        } else {
            tracked_with(
                project,
                sightings.update(index, answered(sightings[index], probe, facts[index])),
                facts,
                (rounds - 1) as nat,
            )
        },
        outcome => outcome,
    }
}

/// The entry of a tracked peer of which the storage holds `facts`.
pub open spec fn remote_entry_of(project: ProjectView, peer: Seq<char>, facts: Facts) -> PeerView {
    PeerView::Remote { peer_id: peer, status: status_of(project, peer, facts)->Some_0 }
}

/// The settled prefix is a prefix, and what follows it is not settled.
proof fn lemma_settled_prefix_bounds(project: ProjectView, sightings: Seq<SightingView>)
    ensures
        0 <= settled_prefix(project, sightings) <= sightings.len(),
        forall|j: int|
            0 <= j < settled_prefix(project, sightings) ==> classify_spec(
                project,
                #[trigger] sightings[j],
            ) is Settled,
        settled_prefix(project, sightings) < sightings.len() ==> !(classify_spec(
            project,
            sightings[settled_prefix(project, sightings)],
        ) is Settled),
    decreases sightings.len(),
{
    if sightings.len() > 0 && classify_spec(project, sightings[0]) is Settled {
        let rest = sightings.drop_first();
        lemma_settled_prefix_bounds(project, rest);
        let count = settled_prefix(project, rest);
        assert forall|j: int| 0 <= j < count + 1 implies classify_spec(
            project,
            #[trigger] sightings[j],
        ) is Settled by {
            if j > 0 {
                assert(sightings[j] == rest[j - 1]);
            }
        }
        if count < rest.len() {
            assert(rest[count] == sightings[count + 1]);
        }
    }
}

/// Putting another sighting in one place changes the count of open answers
/// by what the two differ in.
proof fn lemma_open_answers_update(sightings: Seq<SightingView>, index: int, put: SightingView)
    requires
        0 <= index < sightings.len(),
    ensures
        open_answers_of(sightings.update(index, put)) + open_answers(sightings[index])
            == open_answers_of(sightings) + open_answers(put),
    decreases sightings.len(),
{
    let changed = sightings.update(index, put);
    if index == sightings.len() - 1 {
        assert(changed.drop_last() =~= sightings.drop_last());
        assert(changed.last() == put);
    } else {
        assert(changed.drop_last() =~= sightings.drop_last().update(index, put));
        assert(changed.last() == sightings.last());
        lemma_open_answers_update(sightings.drop_last(), index, put);
    }
}

/// A question is asked only while an answer is open.
proof fn lemma_open_answer_behind_question(sightings: Seq<SightingView>, index: int)
    requires
        0 <= index < sightings.len(),
    ensures
        open_answers_of(sightings) >= open_answers(sightings[index]),
    decreases sightings.len(),
{
    if index < sightings.len() - 1 {
        lemma_open_answer_behind_question(sightings.drop_last(), index);
    }
}

/// Answering what is asked ends, while the rounds last, in the listing that
/// the facts give.
proof fn lemma_tracked_with(
    project: ProjectView,
    sightings: Seq<SightingView>,
    facts: Seq<Facts>,
    rounds: nat,
)
    requires
        facts.len() == sightings.len(),
        forall|i: int|
            0 <= i < sightings.len() ==> agrees(#[trigger] sightings[i], facts[i]) && status_of(
                project,
                sightings[i].peer_id,
                facts[i],
            ) is Some,
        rounds >= open_answers_of(sightings),
    ensures
        tracked_with(project, sightings, facts, rounds) == Ok::<ListingView, ErrorView>(
            ListingView::Done(
                Seq::new(
                    sightings.len(),
                    |i: int| remote_entry_of(project, sightings[i].peer_id, facts[i]),
                ),
            ),
        ),
    decreases rounds,
{
    lemma_settled_prefix_bounds(project, sightings);
    let settled = settled_prefix(project, sightings);
    if settled == sightings.len() {
        let entries = Seq::new(sightings.len(), |i: int| remote_entry(project, sightings[i]));
        let expected = Seq::new(
            sightings.len(),
            |i: int| remote_entry_of(project, sightings[i].peer_id, facts[i]),
        );
        assert forall|i: int| 0 <= i < sightings.len() implies entries[i] == expected[i] by {
            lemma_classify_agrees(project, sightings[i], facts[i]);
        }
        assert(entries =~= expected);
    } else {
        lemma_classify_agrees(project, sightings[settled], facts[settled]);
        let probe = classify_spec(project, sightings[settled])->Ask_0;
        let put = answered(sightings[settled], probe, facts[settled]);
        let next = sightings.update(settled, put);
        lemma_open_answers_update(sightings, settled, put);
        lemma_open_answer_behind_question(sightings, settled);
        assert(open_answers(put) + 1 == open_answers(sightings[settled]));
        assert forall|i: int| 0 <= i < next.len() implies agrees(#[trigger] next[i], facts[i])
            && status_of(project, next[i].peer_id, facts[i]) is Some by {
            if i != settled {
                assert(next[i] == sightings[i]);
            }
        }
        lemma_tracked_with(project, next, facts, (rounds - 1) as nat);
        let expected = Seq::new(
            sightings.len(),
            |i: int| remote_entry_of(project, sightings[i].peer_id, facts[i]),
        );
        let after = Seq::new(
            next.len(),
            |i: int| remote_entry_of(project, next[i].peer_id, facts[i]),
        );
        assert forall|i: int| 0 <= i < sightings.len() implies after[i] == expected[i] by {
            if i != settled {
                assert(next[i] == sightings[i]);
            }
        }
        assert(after =~= expected);
    }
}

/// Nothing is known of the peers: one sighting for each, every answer open.
pub open spec fn fresh_sightings(peers: Seq<Seq<char>>) -> Seq<SightingView> {
    Seq::new(
        peers.len(),
        |i: int|
            SightingView { peer_id: peers[i], self_ref: None, identity: None, signed_refs: None },
    )
}

/// Three answers for each peer are enough: starting with nothing known and
/// answering what is asked, the listing ends with one remote entry for each
/// tracked peer, in order, each with the status that the facts give. (A peer
/// whose self reference stands without an identity is left out here: with one
/// the listing fails.)
pub proof fn lemma_listing_follows_the_facts(
    project: ProjectView,
    peers: Seq<Seq<char>>,
    facts: Seq<Facts>,
)
    requires
        facts.len() == peers.len(),
        forall|i: int| 0 <= i < peers.len() ==> status_of(project, peers[i], #[trigger] facts[i]) is Some,
    ensures
        tracked_with(project, fresh_sightings(peers), facts, 3 * peers.len()) == Ok::<
            ListingView,
            ErrorView,
        >(
            ListingView::Done(
                Seq::new(peers.len(), |i: int| remote_entry_of(project, peers[i], facts[i])),
            ),
        ),
{
    let fresh = fresh_sightings(peers);
    lemma_fresh_open_answers(peers);
    lemma_tracked_with(project, fresh, facts, 3 * peers.len());
    assert(Seq::new(fresh.len(), |i: int| remote_entry_of(project, fresh[i].peer_id, facts[i]))
        =~= Seq::new(peers.len(), |i: int| remote_entry_of(project, peers[i], facts[i])));
}

/// Of peers of which nothing is known, three answers each are open.
proof fn lemma_fresh_open_answers(peers: Seq<Seq<char>>)
    ensures
        open_answers_of(fresh_sightings(peers)) == 3 * peers.len(),
    decreases peers.len(),
{
    if peers.len() > 0 {
        assert(fresh_sightings(peers).drop_last() =~= fresh_sightings(peers.drop_last()));
        lemma_fresh_open_answers(peers.drop_last());
    }
}

impl State {
    /// The tracked peers of `project` with their status, one remote entry for
    /// each sighting and in the same order; or the next question to put to the
    /// storage, about one of the sightings; or the failure of the first peer
    /// whose self reference stands without an identity.
    pub fn tracked_peers(&self, project: &Project, sightings: &Vec<Sighting>) -> (outcome: Result<
        Listing,
        Error,
    >)
        ensures
            listing_view(outcome) == tracked_spec(project@, sighting_views(sightings@)),
            outcome matches Ok(Listing::Done(peers)) ==> peers@.len() == sightings@.len()
                && local_count(peer_entries(peers@)) == 0,
            outcome matches Ok(Listing::AskRemote { index, .. }) ==> index < sightings@.len(),
            !(outcome matches Ok(Listing::AskLocal(_))),
    {
        let ghost views = sighting_views(sightings@);
        let mut peers: Vec<Peer> = Vec::new();
        let mut i: usize = 0;
        while i < sightings.len()
            invariant
                i <= sightings.len(),
                views == sighting_views(sightings@),
                peers@.len() == i,
                forall|j: int| 0 <= j < i ==> classify_spec(project@, #[trigger] views[j]) is Settled,
                forall|j: int| 0 <= j < i ==> (#[trigger] peers@[j])@ == remote_entry(project@, views[j]),
            decreases sightings.len() - i,
        {
            let verdict = classify(project, &sightings[i]);
            assert(views[i as int] == sightings@[i as int]@);
            match verdict {
                Verdict::Settled(status) => {
                    peers.push(Peer::Remote { peer_id: sightings[i].peer_id.clone(), status });
                },
                Verdict::Ask(probe) => {
                    proof {
                        lemma_settled_prefix(project@, views, i as int);
                    }
                    return Ok(Listing::AskRemote { index: i, probe });
                },
                Verdict::Violation => {
                    proof {
                        lemma_settled_prefix(project@, views, i as int);
                    }
                    return Err(
                        Error::ContractViolation {
                            reference: Reference::rad_self(
                                project.urn.clone(),
                                Some(sightings[i].peer_id.clone()),
                            ),
                        },
                    );
                },
            }
            i += 1;
        }
        proof {
            lemma_settled_prefix(project@, views, i as int);
            assert(peer_entries(peers@) =~= Seq::new(
                views.len(),
                |k: int| remote_entry(project@, views[k]),
            ));
            lemma_no_local(peer_entries(peers@));
        }
        Ok(Listing::Done(peers))
    }

    /// The peers of `project`: exactly one local entry, for this node with
    /// `owner` as its identity, then the tracked peers as [`State::tracked_peers`]
    /// gives them; or the next question to put to the storage; or the failure.
    pub fn list_project_peers(
        &self,
        project: &Project,
        owner: &Person,
        signed_refs: Option<bool>,
        remotes: &Vec<Sighting>,
    ) -> (outcome: Result<Listing, Error>)
        ensures
            listing_view(outcome) == project_peers_spec(
                project@,
                local_sighting(self.peer_id@, owner@, signed_refs),
                sighting_views(remotes@),
            ),
            outcome matches Ok(Listing::Done(peers)) ==> peers@.len() == remotes@.len() + 1
                && peers@[0] is Local && local_count(peer_entries(peers@)) == 1,
            outcome matches Ok(Listing::AskRemote { index, .. }) ==> index < remotes@.len(),
    {
        let local = Sighting {
            peer_id: self.peer_id.clone(),
            self_ref: Some(true),
            identity: Some(Some(owner.clone())),
            signed_refs,
        };
        assert(local@ == local_sighting(self.peer_id@, owner@, signed_refs));
        match classify(project, &local) {
            Verdict::Ask(probe) => Ok(Listing::AskLocal(probe)),
            Verdict::Violation => {
                Err(
                    Error::ContractViolation {
                        reference: Reference::rad_self(project.urn.clone(), None),
                    },
                )
            },
            Verdict::Settled(status) => {
                match self.tracked_peers(project, remotes) {
                    Ok(Listing::Done(mut remote_peers)) => {
                        let ghost tail = peer_entries(remote_peers@);
                        let head = Peer::Local { peer_id: local.peer_id, status };
                        let ghost first = head@;
                        let mut peers: Vec<Peer> = Vec::new();
                        peers.push(head);
                        peers.append(&mut remote_peers);
                        proof {
                            assert(peer_entries(peers@) =~= seq![first] + tail);
                            assert forall|i: int| 0 <= i < tail.len() implies #[trigger] tail[i] is Remote by {
                                assert(tail[i] == remote_entry(
                                    project@,
                                    sighting_views(remotes@)[i],
                                ));
                            }
                            lemma_one_local(first, tail);
                        }
                        Ok(Listing::Done(peers))
                    },
                    other => other,
                }
            },
        }
    }
}

} // verus!
