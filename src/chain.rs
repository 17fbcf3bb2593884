use vstd::prelude::*;

use crate::crypto::{sha256, sha256_of, signature_valid, verify_signature};
use crate::error::KvError;
use crate::gate::{authorize, verdict_error, GateVerdict};
use crate::payload::{build_payload, opt_bytes, payload_text};

verus! {

/// Where a chain link stands in its life.
#[derive(Debug, Clone, Copy, PartialEq, Eq, Structural)]
pub enum LinkState {
    /// Built and handed out for signing; not part of any chain yet.
    Proposed,
    /// Signed and verified; part of its persona's chain, never changed again.
    Committed,
    /// Abandoned before commit; it has no effect on any chain.
    Expired,
}

/// What can happen to a link after it was proposed.
#[derive(Debug, Clone, Copy, PartialEq, Eq, Structural)]
pub enum LinkEvent {
    /// A signature over its payload verified under its persona's key.
    SignatureVerified,
    /// The proposal was given up or timed out.
    Abandoned,
}

/// The lifecycle: only a proposed link moves, to committed on a verified
/// signature and to expired when abandoned; the other two states are final.
pub open spec fn next_state(s: LinkState, e: LinkEvent) -> Option<LinkState> {
    match (s, e) {
        (LinkState::Proposed, LinkEvent::SignatureVerified) => Some(LinkState::Committed),
        (LinkState::Proposed, LinkEvent::Abandoned) => Some(LinkState::Expired),
        _ => None,
    }
}

/// The state a link moves to on an event, or `None` when the event does
/// not apply to that state.
pub fn transition(s: LinkState, e: LinkEvent) -> (r: Option<LinkState>)
    ensures
        r == next_state(s, e),
{
    match (s, e) {
        (LinkState::Proposed, LinkEvent::SignatureVerified) => Some(LinkState::Committed),
        (LinkState::Proposed, LinkEvent::Abandoned) => Some(LinkState::Expired),
        _ => None,
    }
}

/// One record of a persona's chain.
pub struct ChainLink {
    /// Ordering key assigned by the store: the link's position in it.
    pub id: u64,
    /// Client-visible identifier assigned when the link is proposed.
    pub external_id: String,
    /// Compressed public key of the chain's owner.
    pub persona: Vec<u8>,
    pub platform: String,
    pub identity: String,
    /// JSON text of the patch, kept verbatim.
    pub patch: String,
    /// The committed link this one extends, `None` for a first link.
    pub previous: Option<u64>,
    /// The persona's signature over the payload; empty until commit.
    pub signature: Vec<u8>,
    /// The exact payload handed out for signing.
    pub signature_payload: String,
    /// Proposal time, part of the signed payload.
    pub created_at: i64,
    pub state: LinkState,
    /// Position in the store's commit order (meaningful once committed).
    pub commit_seq: u64,
}

/// What a proposal hands back for offline signing.
pub struct Proposal {
    pub external_id: String,
    pub sign_payload: String,
    pub created_at: i64,
}

/// The persisted chain store: every link ever proposed, in proposal order.
pub struct ChainStore {
    links: Vec<ChainLink>,
    commits: u64,
}

/// `l` is a committed link of persona `p`.
pub open spec fn committed_of(l: ChainLink, p: Seq<u8>) -> bool {
    l.state == LinkState::Committed && l.persona@ == p
}

/// The committed link of `p` among the first `n` links with the highest
/// commit position, if `p` has any there.
pub open spec fn head_in(links: Seq<ChainLink>, p: Seq<u8>, n: int) -> Option<u64>
    decreases n,
{
    if n <= 0 {
        None
    } else {
        let prev = head_in(links, p, n - 1);
        let l = links[n - 1];
        if committed_of(l, p) && (prev is None || links[prev->Some_0 as int].commit_seq
            < l.commit_seq) {
            Some((n - 1) as u64)
        } else {
            prev
        }
    }
}

/// The head of `p`'s chain: its most recently committed link.
pub open spec fn head_of(links: Seq<ChainLink>, p: Seq<u8>) -> Option<u64> {
    head_in(links, p, links.len() as int)
}

/// The first pending proposal among the first `n` links with external id `e`.
pub open spec fn proposal_in(links: Seq<ChainLink>, e: Seq<char>, n: int) -> Option<u64>
    decreases n,
{
    if n <= 0 {
        None
    } else {
        match proposal_in(links, e, n - 1) {
            Some(x) => Some(x),
            None => if links[n - 1].state == LinkState::Proposed && links[n - 1].external_id@
                == e {
                Some((n - 1) as u64)
            } else {
                None
            },
        }
    }
}

/// The signature of the link that `l` extends, if any.
pub open spec fn previous_signature(links: Seq<ChainLink>, l: ChainLink) -> Option<Seq<u8>> {
    match l.previous {
        None => None,
        Some(k) => Some(links[k as int].signature@),
    }
}

/// The canonical payload recomputed from `l`'s own fields.
pub open spec fn link_payload(links: Seq<ChainLink>, l: ChainLink) -> Seq<char> {
    payload_text(
        l.persona@,
        l.platform@,
        l.identity@,
        l.patch@,
        previous_signature(links, l),
        l.external_id@,
        l.created_at as int,
    )
}

/// `l`'s signature verifies against its recomputed payload under its persona.
pub open spec fn signed_over_payload(links: Seq<ChainLink>, l: ChainLink) -> bool {
    signature_valid(sha256_of(link_payload(links, l)), l.signature@, l.persona@)
}

/// `a` and `b` agree on every field that the payload and the chain read.
pub open spec fn same_content(a: ChainLink, b: ChainLink) -> bool {
    &&& a.id == b.id
    &&& a.external_id@ == b.external_id@
    &&& a.persona@ == b.persona@
    &&& a.platform@ == b.platform@
    &&& a.identity@ == b.identity@
    &&& a.patch@ == b.patch@
    &&& a.previous == b.previous
    &&& a.signature_payload@ == b.signature_payload@
    &&& a.created_at == b.created_at
}

/// Link `i` extends, if anything, a committed link of the same persona that
/// was committed before it.
pub open spec fn previous_sound(links: Seq<ChainLink>, i: int) -> bool {
    links[i].previous is Some ==> {
        let k = links[i].previous->Some_0 as int;
        &&& 0 <= k < links.len()
        &&& committed_of(links[k], links[i].persona@)
        &&& links[i].state == LinkState::Committed ==> links[k].commit_seq < links[i].commit_seq
    }
}

/// Link `i` stores the payload recomputed from its fields, and, once
/// committed, a signature that verifies against it.
pub open spec fn payload_sound(links: Seq<ChainLink>, i: int) -> bool {
    &&& links[i].signature_payload@ == link_payload(links, links[i])
    &&& links[i].state == LinkState::Committed ==> signed_over_payload(links, links[i])
}

/// Chain structure: links sit at their ids, each `previous` names a
/// committed link of the same persona committed earlier, and no two
/// committed links of one persona extend the same link (or both start it).
pub open spec fn chains_linear(links: Seq<ChainLink>, commits: u64) -> bool {
    &&& forall|i: int| 0 <= i < links.len() ==> (#[trigger] links[i]).id == i
    &&& forall|i: int| 0 <= i < links.len() ==> #[trigger] previous_sound(links, i)
    &&& forall|i: int|
        0 <= i < links.len() && (#[trigger] links[i]).state == LinkState::Committed
            ==> links[i].commit_seq < commits
    &&& forall|i: int, j: int|
        0 <= i < links.len() && 0 <= j < links.len() && i != j && (#[trigger] links[i]).state
            == LinkState::Committed && (#[trigger] links[j]).state == LinkState::Committed
            ==> links[i].commit_seq != links[j].commit_seq
    &&& forall|i: int, j: int|
        0 <= i < links.len() && 0 <= j < links.len() && i != j && committed_of(
            #[trigger] links[i],
            links[j].persona@,
        ) && (#[trigger] links[j]).state == LinkState::Committed ==> links[i].previous
            != links[j].previous
}

/// Payload integrity: every stored payload is the recomputed one, and every
/// committed signature verifies against it.
pub open spec fn payloads_sound(links: Seq<ChainLink>) -> bool {
    forall|i: int| 0 <= i < links.len() ==> #[trigger] payload_sound(links, i)
}

/// `new` is `old` with one more link at its end: a fresh proposal of the
/// given fields, extending the head that `persona` had in `old`.
pub open spec fn proposed_onto(
    old: Seq<ChainLink>,
    new: Seq<ChainLink>,
    persona: Seq<u8>,
    platform: Seq<char>,
    identity: Seq<char>,
    patch: Seq<char>,
    external_id: Seq<char>,
    created_at: i64,
) -> bool {
    let l = new.last();
    &&& new.len() == old.len() + 1
    &&& new.drop_last() == old
    &&& l.id == old.len()
    &&& l.external_id@ == external_id
    &&& l.persona@ == persona
    &&& l.platform@ == platform
    &&& l.identity@ == identity
    &&& l.patch@ == patch
    &&& l.created_at == created_at
    &&& l.previous == head_of(old, persona)
    &&& l.state == LinkState::Proposed
    &&& l.signature@.len() == 0
    &&& l.signature_payload@ == payload_text(
        persona,
        platform,
        identity,
        patch,
        previous_signature(old, l),
        external_id,
        created_at as int,
    )
}

/// `new` is `old` with link `i` committed: it carries `signature` and commit
/// position `seq`, and every other field and every other link are kept.
pub open spec fn committed_at(
    old: Seq<ChainLink>,
    new: Seq<ChainLink>,
    i: int,
    signature: Seq<u8>,
    seq: u64,
) -> bool {
    &&& new.len() == old.len()
    &&& 0 <= i < old.len()
    &&& forall|j: int| 0 <= j < old.len() && j != i ==> #[trigger] new[j] == old[j]
    &&& same_content(new[i], old[i])
    &&& new[i].signature@ == signature
    &&& new[i].state == LinkState::Committed
    &&& new[i].commit_seq == seq
}

/// Committing a pending link that extends its persona's current head, with a
/// signature that verifies, keeps the chains linear and the payloads sound,
/// and makes that link the persona's new head.
pub proof fn lemma_commit_keeps_chains(
    old: Seq<ChainLink>,
    new: Seq<ChainLink>,
    commits: u64,
    i: int,
    signature: Seq<u8>,
)
    requires
        chains_linear(old, commits),
        payloads_sound(old),
        old.len() <= u64::MAX,
        commits < u64::MAX,
        0 <= i < old.len(),
        old[i].state == LinkState::Proposed,
        old[i].previous == head_of(old, old[i].persona@),
        signature_valid(sha256_of(link_payload(old, old[i])), signature, old[i].persona@),
        committed_at(old, new, i, signature, commits),
    ensures
        chains_linear(new, (commits + 1) as u64),
        payloads_sound(new),
        head_of(new, old[i].persona@) == Some(i as u64),
{
    let p = old[i].persona@;
    lemma_head_in(old, p, old.len() as int);
    assert forall|j: int| 0 <= j < new.len() implies #[trigger] previous_sound(new, j)
        && payload_sound(new, j) by {
        assert(previous_sound(old, j));
        assert(payload_sound(old, j));
        if old[j].previous is Some {
            let k = old[j].previous->Some_0 as int;
            assert(k != i);
            assert(new[k] == old[k]);
        }
        assert(previous_signature(new, new[j]) == previous_signature(old, old[j]));
        if j != i {
            assert(new[j] == old[j]);
        }
    }
    assert forall|j: int| 0 <= j < new.len() implies #[trigger] payload_sound(new, j) by {
        assert(previous_sound(new, j) && payload_sound(new, j));
    }
    assert forall|j: int| 0 <= j < new.len() implies (#[trigger] new[j]).id == j by {
        if j != i {
            assert(new[j] == old[j]);
        }
    }
    assert forall|j: int|
        0 <= j < new.len() && (#[trigger] new[j]).state == LinkState::Committed implies new[j].commit_seq
        < commits + 1 by {
        if j != i {
            assert(new[j] == old[j]);
        }
    }
    assert forall|a: int, b: int|
        0 <= a < new.len() && 0 <= b < new.len() && a != b && (#[trigger] new[a]).state
            == LinkState::Committed && (#[trigger] new[b]).state
            == LinkState::Committed implies new[a].commit_seq != new[b].commit_seq by {
        if a != i {
            assert(new[a] == old[a]);
        }
        if b != i {
            assert(new[b] == old[b]);
        }
    }
    assert forall|a: int, b: int|
        0 <= a < new.len() && 0 <= b < new.len() && a != b && committed_of(
            #[trigger] new[a],
            new[b].persona@,
        ) && (#[trigger] new[b]).state == LinkState::Committed implies new[a].previous
        != new[b].previous by {
        if a != i {
            assert(new[a] == old[a]);
        }
        if b != i {
            assert(new[b] == old[b]);
        }
        if a == i || b == i {
            let o = if a == i { b } else { a };
            assert(committed_of(old[o], p));
            assert(previous_sound(old, o));
            match head_of(old, p) {
                None => {},
                Some(h) => {
                    assert(old[o].commit_seq <= old[h as int].commit_seq);
                },
            }
        }
    }
    lemma_head_in(new, p, new.len() as int);
    match head_of(new, p) {
        None => {
            assert(committed_of(new[i], p));
        },
        Some(m) => {
            if m as int != i {
                assert(new[m as int] == old[m as int]);
                assert(new[i].commit_seq <= new[m as int].commit_seq);
            }
        },
    }
}

/// Expiring a pending link keeps the chains linear and the payloads sound:
/// no committed link refers to it, and its own fields do not change.
pub proof fn lemma_expire_keeps_chains(old: Seq<ChainLink>, new: Seq<ChainLink>, commits: u64, i: int)
    requires
        chains_linear(old, commits),
        payloads_sound(old),
        0 <= i < old.len(),
        old[i].state == LinkState::Proposed,
        new.len() == old.len(),
        forall|j: int| 0 <= j < old.len() && j != i ==> #[trigger] new[j] == old[j],
        same_content(new[i], old[i]),
        new[i].state == LinkState::Expired,
    ensures
        chains_linear(new, commits),
        payloads_sound(new),
{
    assert forall|j: int| 0 <= j < new.len() implies #[trigger] previous_sound(new, j)
        && payload_sound(new, j) by {
        assert(previous_sound(old, j));
        assert(payload_sound(old, j));
        if old[j].previous is Some {
            let k = old[j].previous->Some_0 as int;
            assert(k != i);
            assert(new[k] == old[k]);
        }
        assert(previous_signature(new, new[j]) == previous_signature(old, old[j]));
        if j != i {
            assert(new[j] == old[j]);
        }
    }
    assert forall|j: int| 0 <= j < new.len() implies #[trigger] payload_sound(new, j) by {
        assert(previous_sound(new, j) && payload_sound(new, j));
    }
    assert forall|j: int| 0 <= j < new.len() implies (#[trigger] new[j]).id == j by {
        if j != i {
            assert(new[j] == old[j]);
        }
    }
    assert forall|a: int, b: int|
        0 <= a < new.len() && 0 <= b < new.len() && a != b && committed_of(
            #[trigger] new[a],
            new[b].persona@,
        ) && (#[trigger] new[b]).state == LinkState::Committed implies new[a].previous
        != new[b].previous by {
        assert(new[a] == old[a]);
        assert(new[b] == old[b]);
    }
}

/// What `proposal_in` picks: a pending link with that external id.
pub proof fn lemma_proposal_in(links: Seq<ChainLink>, e: Seq<char>, n: int)
    requires
        0 <= n <= links.len(),
        n <= u64::MAX,
    ensures
        proposal_in(links, e, n) is Some ==> {
            let i = proposal_in(links, e, n)->Some_0 as int;
            &&& 0 <= i < n
            &&& links[i].state == LinkState::Proposed
            &&& links[i].external_id@ == e
        },
    decreases n,
{
    if n > 0 {
        lemma_proposal_in(links, e, n - 1);
    }
}

/// What `head_in` picks: a committed link of `p` whose commit position is
/// the largest among the first `n` links, or nothing when there is none.
pub proof fn lemma_head_in(links: Seq<ChainLink>, p: Seq<u8>, n: int)
    requires
        0 <= n <= links.len(),
        n <= u64::MAX,
    ensures
        match head_in(links, p, n) {
            Some(h) => {
                &&& 0 <= h < n
                &&& committed_of(links[h as int], p)
                &&& forall|j: int|
                    0 <= j < n && committed_of(#[trigger] links[j], p) ==> links[j].commit_seq
                        <= links[h as int].commit_seq
            },
            None => forall|j: int| 0 <= j < n ==> !committed_of(#[trigger] links[j], p),
        },
    decreases n,
{
    if n > 0 {
        lemma_head_in(links, p, n - 1);
    }
}

impl ChainStore {
    pub closed spec fn view_links(&self) -> Seq<ChainLink> {
        self.links@
    }

    pub closed spec fn commit_count(&self) -> u64 {
        self.commits
    }

    /// The store's invariant.
    pub open spec fn wf(&self) -> bool {
        chains_linear(self.view_links(), self.commit_count()) && payloads_sound(self.view_links())
    }

    /// An empty store.
    pub fn new() -> (r: ChainStore)
        ensures
            r.wf(),
            r.view_links().len() == 0,
            r.commit_count() == 0,
    {
        ChainStore { links: Vec::new(), commits: 0 }
    }

    /// Number of links ever proposed.
    pub fn len(&self) -> (r: usize)
        ensures
            r == self.view_links().len(),
    {
        self.links.len()
    }

    /// The link with the given id.
    pub fn link(&self, id: usize) -> (r: &ChainLink)
        requires
            id < self.view_links().len(),
        ensures
            *r == self.view_links()[id as int],
    {
        &self.links[id]
    }

    /// Resolves the head of `persona`'s chain: the id of its most recently
    /// committed link, or `None`. Pending proposals never count.
    pub fn head(&self, persona: &[u8]) -> (r: Option<u64>)
        ensures
            r == head_of(self.view_links(), persona@),
    {
        let mut best: Option<u64> = None;
        let mut i: usize = 0;
        while i < self.links.len()
            invariant
                0 <= i <= self.links@.len(),
                best == head_in(self.links@, persona@, i as int),
            decreases self.links@.len() - i,
        {
            proof {
                lemma_head_in(self.links@, persona@, i as int);
            }
            let l = &self.links[i];
            if l.state == LinkState::Committed && bytes_equal(l.persona.as_slice(), persona) {
                let better = match best {
                    None => true,
                    Some(b) => self.links[b as usize].commit_seq < l.commit_seq,
                };
                if better {
                    best = Some(i as u64);
                }
            }
            i += 1;
        }
        best
    }
    /// Proposes a mutation of `persona`'s chain. The authorization verdict is
    /// checked before anything else; on an allow the head is resolved, the
    /// canonical payload built, and the link stored as a pending proposal.
    pub fn propose(
        &mut self,
        persona: Vec<u8>,
        platform: String,
        identity: String,
        patch: String,
        external_id: String,
        created_at: i64,
        verdict: GateVerdict,
    ) -> (r: Result<Proposal, KvError>)
        requires
            old(self).wf(),
        ensures
            final(self).wf(),
            final(self).commit_count() == old(self).commit_count(),
            match verdict_error(verdict) {
                Some(e) => r == Err::<Proposal, KvError>(e) && final(self).view_links()
                    == old(self).view_links(),
                None => {
                    &&& r is Ok
                    &&& proposed_onto(
                        old(self).view_links(),
                        final(self).view_links(),
                        persona@,
                        platform@,
                        identity@,
                        patch@,
                        external_id@,
                        created_at,
                    )
                    &&& r->Ok_0.external_id@ == external_id@
                    &&& r->Ok_0.sign_payload@ == final(self).view_links().last().signature_payload@
                    &&& r->Ok_0.created_at == created_at
                },
            },
    {
        match authorize(verdict) {
            Err(e) => {
                return Err(e);
            },
            Ok(()) => {},
        }
        let head = self.head(persona.as_slice());
        let n: usize = self.links.len();
        proof {
            lemma_head_in(self.links@, persona@, n as int);
        }
        let previous: Option<&[u8]> = match head {
            Some(h) => Some(self.links[h as usize].signature.as_slice()),
            None => None,
        };
        let payload = build_payload(
            persona.as_slice(),
            platform.as_str(),
            identity.as_str(),
            patch.as_str(),
            previous,
            external_id.as_str(),
            created_at,
        );
        let ghost prev_view = opt_bytes(previous);
        assert(prev_view == match head {
            Some(h) => Some(self.links@[h as int].signature@),
            None => None::<Seq<u8>>,
        });
        let response = Proposal {
            external_id: external_id.clone(),
            sign_payload: payload.clone(),
            created_at,
        };
        let link = ChainLink {
            id: self.links.len() as u64,
            external_id,
            persona,
            platform,
            identity,
            patch,
            previous: head,
            signature: Vec::new(),
            signature_payload: payload,
            created_at,
            state: LinkState::Proposed,
            commit_seq: 0,
        };
        let ghost old_links = self.links@;
        self.links.push(link);
        proof {
            let new_links = self.links@;
            assert(new_links.drop_last() =~= old_links);
            assert forall|i: int| 0 <= i < new_links.len() implies previous_sound(new_links, i)
                && payload_sound(new_links, i) by {
                if i < old_links.len() {
                    assert(previous_sound(old_links, i));
                    assert(payload_sound(old_links, i));
                    assert(new_links[i] == old_links[i]);
                    assert(previous_signature(new_links, new_links[i]) == previous_signature(
                        old_links,
                        old_links[i],
                    ));
                } else {
                    assert(previous_signature(new_links, new_links[i]) == previous_signature(
                        old_links,
                        new_links[i],
                    ));
                    assert(previous_signature(old_links, new_links[i]) == prev_view);
                }
            }
            assert forall|i: int| 0 <= i < new_links.len() implies (#[trigger] new_links[i]).id
                == i by {
                if i < old_links.len() {
                    assert(new_links[i] == old_links[i]);
                }
            }
            assert forall|i: int| 0 <= i < new_links.len() implies #[trigger] payload_sound(
                new_links,
                i,
            ) by {
                assert(previous_sound(new_links, i) && payload_sound(new_links, i));
            }
            assert forall|i: int| 0 <= i < new_links.len() implies #[trigger] previous_sound(
                new_links,
                i,
            ) by {
                assert(previous_sound(new_links, i) && payload_sound(new_links, i));
            }
            assert(chains_linear(new_links, self.commits));
            assert(payloads_sound(new_links));
        }
        Ok(response)
    }
    /// Commits the pending proposal with the given external id: the payload
    /// is recomputed from the link's fields and the signature checked against
    /// it under the persona's key. Only a link that still extends its
    /// persona's head can commit; it then becomes the new head.
    pub fn commit(&mut self, external_id: &String, signature: Vec<u8>) -> (r: Result<(), KvError>)
        requires
            old(self).wf(),
        ensures
            final(self).wf(),
            match proposal_in(old(self).view_links(), external_id@, old(self).view_links().len() as int) {
                None => r == Err::<(), KvError>(KvError::NotFound) && *final(self) == *old(self),
                Some(i) => {
                    let l = old(self).view_links()[i as int];
                    if l.previous != head_of(old(self).view_links(), l.persona@) {
                        r == Err::<(), KvError>(KvError::Conflict) && *final(self) == *old(self)
                    } else if !signature_valid(
                        sha256_of(link_payload(old(self).view_links(), l)),
                        signature@,
                        l.persona@,
                    ) {
                        r == Err::<(), KvError>(KvError::SignatureInvalid) && *final(self)
                            == *old(self)
                    } else if old(self).commit_count() == u64::MAX {
                        r == Err::<(), KvError>(KvError::StorageError) && *final(self) == *old(self)
                    } else {
                        &&& r is Ok
                        &&& committed_at(
                            old(self).view_links(),
                            final(self).view_links(),
                            i as int,
                            signature@,
                            old(self).commit_count(),
                        )
                        &&& final(self).commit_count() == old(self).commit_count() + 1
                        &&& head_of(final(self).view_links(), l.persona@) == Some(i)
                    }
                },
            },
    {
        let n: usize = self.links.len();
        let mut found: Option<u64> = None;
        let mut j: usize = 0;
        while j < n
            invariant
                n == self.links@.len(),
                0 <= j <= n,
                found == proposal_in(self.links@, external_id@, j as int),
            decreases n - j,
        {
            if found.is_none() && self.links[j].state == LinkState::Proposed
                && self.links[j].external_id.eq(external_id) {
                found = Some(j as u64);
            }
            j += 1;
        }
        let i: usize = match found {
            None => {
                return Err(KvError::NotFound);
            },
            Some(i) => i as usize,
        };
        proof {
            lemma_proposal_in(self.links@, external_id@, n as int);
        }
        let head = self.head(self.links[i].persona.as_slice());
        if !same_previous(self.links[i].previous, head) {
            return Err(KvError::Conflict);
        }
        proof {
            assert(previous_sound(self.links@, i as int));
        }
        let l = &self.links[i];
        let previous: Option<&[u8]> = match l.previous {
            Some(k) => Some(self.links[k as usize].signature.as_slice()),
            None => None,
        };
        let payload = build_payload(
            l.persona.as_slice(),
            l.platform.as_str(),
            l.identity.as_str(),
            l.patch.as_str(),
            previous,
            l.external_id.as_str(),
            l.created_at,
        );
        assert(payload@ == link_payload(self.links@, *l));
        let digest = sha256(payload.as_str());
        if !verify_signature(digest.as_slice(), signature.as_slice(), l.persona.as_slice()) {
            return Err(KvError::SignatureInvalid);
        }
        if self.commits == u64::MAX {
            return Err(KvError::StorageError);
        }
        let state = match transition(l.state, LinkEvent::SignatureVerified) {
            Some(s) => s,
            None => {
                return Err(KvError::NotFound);
            },
        };
        let updated = ChainLink {
            id: l.id,
            external_id: l.external_id.clone(),
            persona: copy_bytes(&l.persona),
            platform: l.platform.clone(),
            identity: l.identity.clone(),
            patch: l.patch.clone(),
            previous: l.previous,
            signature,
            signature_payload: l.signature_payload.clone(),
            created_at: l.created_at,
            state,
            commit_seq: self.commits,
        };
        let ghost old_links = self.links@;
        let ghost sig_view = updated.signature@;
        self.links.set(i, updated);
        proof {
            lemma_commit_keeps_chains(old_links, self.links@, self.commits, i as int, sig_view);
        }
        self.commits = self.commits + 1;
        Ok(())
    }
    /// Gives up the pending proposal with the given external id: it expires
    /// and can no longer commit. Committed links and other proposals are
    /// untouched.
    pub fn expire(&mut self, external_id: &String) -> (r: Result<(), KvError>)
        requires
            old(self).wf(),
        ensures
            final(self).wf(),
            final(self).commit_count() == old(self).commit_count(),
            match proposal_in(old(self).view_links(), external_id@, old(self).view_links().len() as int) {
                None => r == Err::<(), KvError>(KvError::NotFound) && *final(self) == *old(self),
                Some(i) => {
                    &&& r is Ok
                    &&& final(self).view_links().len() == old(self).view_links().len()
                    &&& forall|j: int|
                        0 <= j < old(self).view_links().len() && j != i
                            ==> #[trigger] final(self).view_links()[j] == old(self).view_links()[j]
                    &&& same_content(final(self).view_links()[i as int], old(self).view_links()[i as int])
                    &&& final(self).view_links()[i as int].state == LinkState::Expired
                },
            },
    {
        let n: usize = self.links.len();
        let mut found: Option<u64> = None;
        let mut j: usize = 0;
        while j < n
            invariant
                n == self.links@.len(),
                0 <= j <= n,
                found == proposal_in(self.links@, external_id@, j as int),
            decreases n - j,
        {
            if found.is_none() && self.links[j].state == LinkState::Proposed
                && self.links[j].external_id.eq(external_id) {
                found = Some(j as u64);
            }
            j += 1;
        }
        let i: usize = match found {
            None => {
                return Err(KvError::NotFound);
            },
            Some(i) => i as usize,
        };
        proof {
            lemma_proposal_in(self.links@, external_id@, n as int);
        }
        let l = &self.links[i];
        let state = match transition(l.state, LinkEvent::Abandoned) {
            Some(s) => s,
            None => {
                return Err(KvError::NotFound);
            },
        };
        let updated = ChainLink {
            id: l.id,
            external_id: l.external_id.clone(),
            persona: copy_bytes(&l.persona),
            platform: l.platform.clone(),
            identity: l.identity.clone(),
            patch: l.patch.clone(),
            previous: l.previous,
            signature: copy_bytes(&l.signature),
            signature_payload: l.signature_payload.clone(),
            created_at: l.created_at,
            state,
            commit_seq: l.commit_seq,
        };
        let ghost old_links = self.links@;
        self.links.set(i, updated);
        proof {
            lemma_expire_keeps_chains(old_links, self.links@, self.commits, i as int);
        }
        Ok(())
    }
}

/// Whether two optional link references are the same.
fn same_previous(a: Option<u64>, b: Option<u64>) -> (r: bool)
    ensures
        r == (a == b),
{
    match (a, b) {
        (None, None) => true,
        (Some(x), Some(y)) => x == y,
        _ => false,
    }
}

/// A copy of a byte vector.
fn copy_bytes(v: &Vec<u8>) -> (r: Vec<u8>)
    ensures
        r@ == v@,
{
    let r = v.clone();
    assert(r@ =~= v@);
    r
}

/// Byte-wise equality of two slices.
pub fn bytes_equal(a: &[u8], b: &[u8]) -> (r: bool)
    ensures
        r == (a@ == b@),
{
    if a.len() != b.len() {
        return false;
    }
    let mut i: usize = 0;
    while i < a.len()
        invariant
            a@.len() == b@.len(),
            0 <= i <= a@.len(),
            a@.subrange(0, i as int) == b@.subrange(0, i as int),
        decreases a@.len() - i,
    {
        if a[i] != b[i] {
            assert(a@[i as int] != b@[i as int]);
            return false;
        }
        assert(a@.subrange(0, i + 1) == a@.subrange(0, i as int).push(a@[i as int]));
        assert(b@.subrange(0, i + 1) == b@.subrange(0, i as int).push(b@[i as int]));
        i += 1;
    }
    assert(a@ == a@.subrange(0, a@.len() as int));
    assert(b@ == b@.subrange(0, b@.len() as int));
    true
}

} // verus!

verus! {

/// Committed links form one linear chain per persona: each link's
/// `previous` is a committed link of the same persona committed strictly
/// earlier (so following `previous` never cycles and ends at a first link),
/// no two committed links of a persona extend the same link, and a persona
/// has at most one first link.
pub proof fn lemma_chains_are_linear(store: ChainStore)
    requires
        store.wf(),
    ensures
        forall|i: int|
            0 <= i < store.view_links().len() ==> #[trigger] previous_sound(store.view_links(), i),
        forall|i: int, j: int|
            0 <= i < store.view_links().len() && 0 <= j < store.view_links().len() && i != j
                && committed_of(#[trigger] store.view_links()[i], store.view_links()[j].persona@)
                && (#[trigger] store.view_links()[j]).state == LinkState::Committed
                ==> store.view_links()[i].previous != store.view_links()[j].previous,
        forall|i: int, j: int|
            0 <= i < store.view_links().len() && 0 <= j < store.view_links().len() && committed_of(
                #[trigger] store.view_links()[i],
                store.view_links()[j].persona@,
            ) && (#[trigger] store.view_links()[j]).state == LinkState::Committed
                && store.view_links()[i].previous is None && store.view_links()[j].previous is None
                ==> i == j,
{
    lemma_linear_links(store.view_links(), store.commit_count());
}

proof fn lemma_linear_links(links: Seq<ChainLink>, commits: u64)
    requires
        chains_linear(links, commits),
    ensures
        forall|i: int, j: int|
            0 <= i < links.len() && 0 <= j < links.len() && committed_of(
                #[trigger] links[i],
                links[j].persona@,
            ) && (#[trigger] links[j]).state == LinkState::Committed && links[i].previous is None
                && links[j].previous is None ==> i == j,
{
    assert forall|i: int, j: int|
        0 <= i < links.len() && 0 <= j < links.len() && committed_of(
            #[trigger] links[i],
            links[j].persona@,
        ) && (#[trigger] links[j]).state == LinkState::Committed && links[i].previous is None
            && links[j].previous is None implies i == j by {
        if i != j {
            assert(links[i].previous != links[j].previous);
        }
    }
}

/// A committed link re-verifies: recomputing its payload from its own fields
/// gives the stored payload, and its signature verifies against that payload
/// under its persona's key.
pub proof fn lemma_committed_link_verifies(store: ChainStore, i: int)
    requires
        store.wf(),
        0 <= i < store.view_links().len(),
        store.view_links()[i].state == LinkState::Committed,
    ensures
        store.view_links()[i].signature_payload@ == link_payload(
            store.view_links(),
            store.view_links()[i],
        ),
        signature_valid(
            sha256_of(link_payload(store.view_links(), store.view_links()[i])),
            store.view_links()[i].signature@,
            store.view_links()[i].persona@,
        ),
{
    assert(payload_sound(store.view_links(), i));
}

/// Two pending proposals of one persona that extend the same head race:
/// once one of them commits, it is the persona's head, and the other no
/// longer extends the head, so its commit fails with `Conflict`.
pub proof fn lemma_racing_proposals(before: ChainStore, after: ChainStore, a: int, b: int, signature: Seq<u8>)
    requires
        before.wf(),
        0 <= a < before.view_links().len(),
        0 <= b < before.view_links().len(),
        a != b,
        before.view_links()[a].state == LinkState::Proposed,
        before.view_links()[b].state == LinkState::Proposed,
        before.view_links()[a].persona@ == before.view_links()[b].persona@,
        before.view_links()[a].previous == before.view_links()[b].previous,
        before.view_links()[a].previous == head_of(
            before.view_links(),
            before.view_links()[a].persona@,
        ),
        before.commit_count() < u64::MAX,
        signature_valid(
            sha256_of(link_payload(before.view_links(), before.view_links()[a])),
            signature,
            before.view_links()[a].persona@,
        ),
        committed_at(before.view_links(), after.view_links(), a, signature, before.commit_count()),
    ensures
        head_of(after.view_links(), after.view_links()[b].persona@) == Some(a as u64),
        after.view_links()[b].state == LinkState::Proposed,
        after.view_links()[b].previous != head_of(
            after.view_links(),
            after.view_links()[b].persona@,
        ),
{
    let old = before.view_links();
    let new = after.view_links();
    assert(old.len() == before.links.len());
    lemma_commit_keeps_chains(old, new, before.commit_count(), a, signature);
    assert(new[b] == old[b]);
    assert(old[a].previous != Some(a as u64)) by {
        lemma_head_in(old, old[a].persona@, old.len() as int);
    }
}

} // verus!
