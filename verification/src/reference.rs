//! Named pointers into the replicated object graph, and how they are spelled.

use vstd::prelude::*;
use vstd::string::StrSliceExecFns;
use vstd::string::StringExecFns;

use crate::ident::PeerId;
use crate::ident::Urn;

verus! {

/// The part of a namespace that a reference lives in.
#[derive(Clone, Copy, Debug, PartialEq, Eq, Structural)]
pub enum Category {
    /// Branch heads.
    Heads,
    /// Bookkeeping of the protocol itself.
    Rad,
}

impl Category {
    /// The path segment of the category.
    pub open spec fn text(self) -> Seq<char> {
        match self {
            Category::Heads => "heads"@,
            Category::Rad => "rad"@,
        }
    }

    /// The path segment of the category.
    pub fn as_str(&self) -> (text: &'static str)
        ensures
            text@ == self.text(),
    {
        match self {
            Category::Heads => "heads",
            Category::Rad => "rad",
        }
    }
}

/// A reference: a name under a project's namespace, in the owner's own view
/// (`remote` is `None`) or in the view of a remote peer.
#[derive(Debug, PartialEq, Eq)]
pub struct Reference {
    pub namespace: Urn,
    pub remote: Option<PeerId>,
    pub category: Category,
    pub name: String,
}

/// What a reference says.
pub struct ReferenceView {
    pub namespace: Seq<char>,
    pub remote: Option<Seq<char>>,
    pub category: Category,
    pub name: Seq<char>,
}

/// The view of an optional peer.
pub open spec fn remote_view(remote: Option<PeerId>) -> Option<Seq<char>> {
    match remote {
        Some(peer) => Some(peer@),
        None => None,
    }
}

impl View for Reference {
    type V = ReferenceView;

    open spec fn view(&self) -> ReferenceView {
        ReferenceView {
            namespace: self.namespace@,
            remote: remote_view(self.remote),
            category: self.category,
            name: self.name@,
        }
    }
}

impl ReferenceView {
    /// The branch `name` under `namespace`, as `remote` sees it.
    pub open spec fn head(
        namespace: Seq<char>,
        remote: Option<Seq<char>>,
        name: Seq<char>,
    ) -> ReferenceView {
        ReferenceView { namespace, remote, category: Category::Heads, name }
    }

    /// The reference that publishes the identity `remote` claims under `namespace`.
    pub open spec fn rad_self(namespace: Seq<char>, remote: Option<Seq<char>>) -> ReferenceView {
        ReferenceView { namespace, remote, category: Category::Rad, name: "self"@ }
    }

    /// The reference that marks that `remote` has published signed reference state.
    pub open spec fn rad_signed_refs(
        namespace: Seq<char>,
        remote: Option<Seq<char>>,
    ) -> ReferenceView {
        ReferenceView { namespace, remote, category: Category::Rad, name: "signed-refs"@ }
    }

    /// The segment that selects whose view is meant: nothing for the owner,
    /// `remotes/<peer>/` for a remote peer.
    pub open spec fn remote_segment(self) -> Seq<char> {
        match self.remote {
            Some(peer) => "remotes/"@ + peer + "/"@,
            None => Seq::empty(),
        }
    }

    /// The full name of the reference:
    /// `refs/namespaces/<urn>/refs/<category>/<name>` for the owner and
    /// `refs/namespaces/<urn>/refs/remotes/<peer>/<category>/<name>` for a peer.
    pub open spec fn path(self) -> Seq<char> {
        "refs/namespaces/"@ + self.namespace + "/refs/"@ + self.remote_segment()
            + self.category.text() + "/"@ + self.name
    }
}

/// Whether a text holds no `/`.
pub open spec fn slash_free(text: Seq<char>) -> bool {
    forall|i: int| 0 <= i < text.len() ==> text[i] != '/'
}

impl ReferenceView {
    /// Whether the identifiers of the reference are single path segments:
    /// neither the project's identifier nor the peer's holds a `/`.
    pub open spec fn well_formed(self) -> bool {
        &&& slash_free(self.namespace)
        &&& match self.remote {
            Some(peer) => slash_free(peer),
            None => true,
        }
    }

    /// What follows the remote segment: `<category>/<name>`.
    pub open spec fn leaf(self) -> Seq<char> {
        self.category.text() + "/"@ + self.name
    }
}

/// Equal texts with an equal beginning have an equal rest.
proof fn lemma_cancel_prefix(prefix: Seq<char>, left: Seq<char>, right: Seq<char>)
    requires
        prefix + left == prefix + right,
    ensures
        left == right,
{
    let whole = prefix + left;
    let other = prefix + right;
    assert(whole.len() == prefix.len() + left.len());
    assert(other.len() == prefix.len() + right.len());
    assert forall|i: int| 0 <= i < left.len() implies left[i] == right[i] by {
        assert(whole[prefix.len() + i] == left[i]);
        assert(other[prefix.len() + i] == right[i]);
    }
    assert(left =~= right);
}

/// A text is cut at its first `/` in one way only.
proof fn lemma_cut_at_slash(
    head: Seq<char>,
    rest: Seq<char>,
    other_head: Seq<char>,
    other_rest: Seq<char>,
)
    requires
        slash_free(head),
        slash_free(other_head),
        rest.len() > 0 && rest[0] == '/',
        other_rest.len() > 0 && other_rest[0] == '/',
        head + rest == other_head + other_rest,
    ensures
        head == other_head,
        rest == other_rest,
{
    let whole = head + rest;
    let other = other_head + other_rest;
    if head.len() < other_head.len() {
        assert(whole[head.len() as int] == rest[0]);
        assert(other[head.len() as int] == other_head[head.len() as int]);
        assert(false);
    }
    if other_head.len() < head.len() {
        assert(other[other_head.len() as int] == other_rest[0]);
        assert(whole[other_head.len() as int] == head[other_head.len() as int]);
        assert(false);
    }
    assert forall|i: int| 0 <= i < head.len() implies head[i] == other_head[i] by {
        assert(whole[i] == head[i]);
        assert(other[i] == other_head[i]);
    }
    assert(head =~= other_head);
    lemma_cancel_prefix(head, rest, other_rest);
}

/// The category and the name can be read off `<category>/<name>`.
proof fn lemma_leaf_is_read_back(left: ReferenceView, right: ReferenceView)
    requires
        left.leaf() == right.leaf(),
    ensures
        left.category == right.category,
        left.name == right.name,
{
    reveal_strlit("heads");
    reveal_strlit("rad");
    reveal_strlit("/");
    let l = left.leaf();
    let r = right.leaf();
    assert(l[0] == left.category.text()[0]);
    assert(r[0] == right.category.text()[0]);
    assert(left.category == right.category);
    assert(l =~= (left.category.text() + "/"@) + left.name);
    assert(r =~= (left.category.text() + "/"@) + right.name);
    lemma_cancel_prefix(left.category.text() + "/"@, left.name, right.name);
}

/// An owner's reference and a peer's never run on alike after the namespace:
/// one goes on with a category, the other with `remotes/`.
proof fn lemma_owner_is_no_remote(owner: ReferenceView, peer: ReferenceView)
    requires
        owner.remote is None,
        peer.remote is Some,
    ensures
        owner.remote_segment() + owner.leaf() != peer.remote_segment() + peer.leaf(),
{
    reveal_strlit("heads");
    reveal_strlit("rad");
    reveal_strlit("/");
    reveal_strlit("remotes/");
    let mine = owner.remote_segment() + owner.leaf();
    let theirs = peer.remote_segment() + peer.leaf();
    assert(mine =~= owner.leaf());
    assert(theirs =~= "remotes/"@ + (peer.remote->Some_0 + "/"@ + peer.leaf()));
    assert(theirs[0] == 'r' && theirs[1] == 'e');
    assert(mine[0] == owner.category.text()[0]);
    assert(mine[1] == owner.category.text()[1]);
}

/// No two references share a name: where the identifiers are single path
/// segments, the full name tells the project, the peer, the category and the
/// name apart. So a project and an optional peer select one namespace of
/// references, and no other pair selects the same.
pub proof fn lemma_path_is_injective(left: ReferenceView, right: ReferenceView)
    requires
        left.well_formed(),
        right.well_formed(),
        left.path() == right.path(),
    ensures
        left == right,
{
    reveal_strlit("refs/namespaces/");
    reveal_strlit("/refs/");
    reveal_strlit("remotes/");
    reveal_strlit("/");
    let root = "refs/namespaces/"@;
    let refs = "/refs/"@;
    let left_tail = left.remote_segment() + left.leaf();
    let right_tail = right.remote_segment() + right.leaf();
    assert(left.path() =~= root + (left.namespace + (refs + left_tail)));
    assert(right.path() =~= root + (right.namespace + (refs + right_tail)));
    lemma_cancel_prefix(
        root,
        left.namespace + (refs + left_tail),
        right.namespace + (refs + right_tail),
    );
    assert((refs + left_tail)[0] == '/');
    assert((refs + right_tail)[0] == '/');
    lemma_cut_at_slash(left.namespace, refs + left_tail, right.namespace, refs + right_tail);
    lemma_cancel_prefix(refs, left_tail, right_tail);
    match (left.remote, right.remote) {
        (None, None) => {
            assert(left_tail =~= left.leaf());
            assert(right_tail =~= right.leaf());
            lemma_leaf_is_read_back(left, right);
        },
        (Some(mine), Some(theirs)) => {
            let slash = "/"@;
            assert(left_tail =~= "remotes/"@ + (mine + (slash + left.leaf())));
            assert(right_tail =~= "remotes/"@ + (theirs + (slash + right.leaf())));
            lemma_cancel_prefix(
                "remotes/"@,
                mine + (slash + left.leaf()),
                theirs + (slash + right.leaf()),
            );
            assert((slash + left.leaf())[0] == '/');
            assert((slash + right.leaf())[0] == '/');
            lemma_cut_at_slash(mine, slash + left.leaf(), theirs, slash + right.leaf());
            lemma_cancel_prefix(slash, left.leaf(), right.leaf());
            lemma_leaf_is_read_back(left, right);
        },
        (None, Some(_)) => {
            lemma_owner_is_no_remote(left, right);
        },
        (Some(_), None) => {
            lemma_owner_is_no_remote(right, left);
        },
    }
}

/// Copies an optional peer.
pub fn clone_remote(remote: &Option<PeerId>) -> (copy: Option<PeerId>)
    ensures
        copy == *remote,
{
    match remote {
        Some(peer) => Some(peer.clone()),
        None => None,
    }
}

impl Clone for Reference {
    fn clone(&self) -> (copy: Reference)
        ensures
            copy == *self,
    {
        Reference {
            namespace: self.namespace.clone(),
            remote: clone_remote(&self.remote),
            category: self.category,
            name: self.name.clone(),
        }
    }
}

/// Whether `text` holds no `/`.
pub fn is_slash_free(text: &str) -> (free: bool)
    ensures
        free == slash_free(text@),
{
    let length = text.unicode_len();
    let mut i: usize = 0;
    while i < length
        invariant
            i <= length,
            length == text@.len(),
            forall|j: int| 0 <= j < i ==> text@[j] != '/',
        decreases length - i,
    {
        if text.get_char(i) == '/' {
            return false;
        }
        i += 1;
    }
    true
}

impl Reference {
    /// Whether the identifiers of the reference are single path segments, so
    /// that no other reference shares its full name.
    pub fn is_well_formed(&self) -> (ok: bool)
        ensures
            ok == self@.well_formed(),
    {
        if !is_slash_free(self.namespace.as_str()) {
            return false;
        }
        match &self.remote {
            Some(peer) => is_slash_free(peer.as_str()),
            None => true,
        }
    }

    /// The branch `name` under `namespace`, as `remote` sees it.
    pub fn head(namespace: Urn, remote: Option<PeerId>, name: &str) -> (reference: Reference)
        ensures
            reference@ == ReferenceView::head(namespace@, remote_view(remote), name@),
    {
        Reference { namespace, remote, category: Category::Heads, name: String::from_str(name) }
    }

    /// The reference that publishes the identity `remote` claims under `namespace`.
    pub fn rad_self(namespace: Urn, remote: Option<PeerId>) -> (reference: Reference)
        ensures
            reference@ == ReferenceView::rad_self(namespace@, remote_view(remote)),
    {
        Reference { namespace, remote, category: Category::Rad, name: String::from_str("self") }
    }

    /// The reference that marks that `remote` has published signed reference state.
    pub fn rad_signed_refs(namespace: Urn, remote: Option<PeerId>) -> (reference: Reference)
        ensures
            reference@ == ReferenceView::rad_signed_refs(namespace@, remote_view(remote)),
    {
        Reference {
            namespace,
            remote,
            category: Category::Rad,
            name: String::from_str("signed-refs"),
        }
    }

    /// The full name of the reference, character for character.
    pub fn path(&self) -> (path: String)
        ensures
            path@ == self@.path(),
    {
        let mut path = String::from_str("refs/namespaces/");
        path.append(self.namespace.as_str());
        path.append("/refs/");
        match &self.remote {
            Some(peer) => {
                path.append("remotes/");
                path.append(peer.as_str());
                path.append("/");
            },
            None => {},
        }
        assert(path@ =~= "refs/namespaces/"@ + self@.namespace + "/refs/"@
            + self@.remote_segment());
        path.append(self.category.as_str());
        path.append("/");
        path.append(self.name.as_str());
        path
    }
}

} // verus!
