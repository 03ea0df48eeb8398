//! The data model of the ledger: phases, participant entries, and the
//! mathematical view of the registry that all contracts speak of.

use vstd::prelude::*;

verus! {

/// Momentum strategy tag.
pub const STRATEGY_MOMENTUM: u8 = 0;

/// Dollar-cost-averaging strategy tag.
pub const STRATEGY_DCA: u8 = 1;

/// Mean-reversion strategy tag; also the largest known tag.
pub const STRATEGY_MEAN_REVERSION: u8 = 2;

/// The lifecycle stage of one tournament instance.  It only ever advances:
/// `Registration` to `Active` to `Ended`.
#[derive(Clone, Copy, Debug, PartialEq, Eq, Structural)]
pub enum Phase {
    /// Entries may be registered; scores cannot change yet.
    Registration,
    /// Scores may be updated; no new entries are admitted.
    Active,
    /// The tournament is settled; nothing can change any more.
    Ended,
}

/// The position of a phase in the forward-only lifecycle order.
pub open spec fn phase_rank(p: Phase) -> int {
    match p {
        Phase::Registration => 0,
        Phase::Active => 1,
        Phase::Ended => 2,
    }
}

/// One registered participant.
#[derive(Clone, Debug)]
pub struct AgentEntry {
    /// Unique participant-chosen key; immutable after registration.
    pub agent_id: Vec<u8>,
    /// Identity of the caller who registered this entry; immutable.
    pub player_address: Vec<u8>,
    /// One of the known strategy tags; immutable.
    pub strategy_type: u8,
    /// The amount actually paid at registration; immutable.
    pub entry_fee: u64,
    /// Score in signed basis points (10000 = 100%); mutable only while the
    /// tournament is active.
    pub final_roi: i64,
    /// Timestamp of registration; an audit field, never used for ranking.
    pub registered_at: u64,
}

/// The mathematical value of an [`AgentEntry`].
#[verifier::ext_equal]
pub struct AgentEntryV {
    /// Unique participant-chosen key.
    pub agent_id: Seq<u8>,
    /// Identity of the registering caller.
    pub player_address: Seq<u8>,
    /// Strategy tag.
    pub strategy_type: u8,
    /// Stake paid at registration.
    pub entry_fee: u64,
    /// Score in signed basis points.
    pub final_roi: i64,
    /// Timestamp of registration.
    pub registered_at: u64,
}

impl View for AgentEntry {
    type V = AgentEntryV;

    open spec fn view(&self) -> AgentEntryV {
        AgentEntryV {
            agent_id: self.agent_id@,
            player_address: self.player_address@,
            strategy_type: self.strategy_type,
            entry_fee: self.entry_fee,
            final_roi: self.final_roi,
            registered_at: self.registered_at,
        }
    }
}

/// The view of a whole registry: each entry replaced by its value.
pub open spec fn views_of(s: Seq<AgentEntry>) -> Seq<AgentEntryV> {
    s.map_values(|e: AgentEntry| e@)
}

/// No two entries share an id.
pub open spec fn unique_ids(s: Seq<AgentEntryV>) -> bool {
    forall|i: int, j: int|
        0 <= i < j < s.len() ==> s[i].agent_id != s[j].agent_id
}

/// Some entry carries this id.
pub open spec fn has_agent(s: Seq<AgentEntryV>, id: Seq<u8>) -> bool {
    exists|i: int| 0 <= i < s.len() && s[i].agent_id == id
}

/// The index of the entry carrying this id; meaningful when `has_agent`
/// holds, and unique when ids are unique.
pub open spec fn agent_idx(s: Seq<AgentEntryV>, id: Seq<u8>) -> int {
    choose|i: int| 0 <= i < s.len() && s[i].agent_id == id
}

/// With unique ids, any position that carries the id is the position
/// `agent_idx` names.
pub proof fn lemma_agent_idx_unique(s: Seq<AgentEntryV>, id: Seq<u8>, i: int)
    requires
        unique_ids(s),
        0 <= i < s.len(),
        s[i].agent_id == id,
    ensures
        agent_idx(s, id) == i,
        has_agent(s, id),
{
    assert(has_agent(s, id));
    let k = agent_idx(s, id);
    if k != i {
        if k < i {
            assert(s[k].agent_id != s[i].agent_id);
        } else {
            assert(s[i].agent_id != s[k].agent_id);
        }
    }
}

/// The total staked by a sequence of entries.
pub open spec fn sum_stakes(s: Seq<AgentEntryV>) -> int
    decreases s.len(),
{
    if s.len() == 0 {
        0
    } else {
        sum_stakes(s.drop_last()) + s.last().entry_fee
    }
}

/// The total staked does not depend on any field but the stakes: two
/// registries that agree on every stake agree on the total.
pub proof fn lemma_sum_stakes_same_fees(a: Seq<AgentEntryV>, b: Seq<AgentEntryV>)
    requires
        a.len() == b.len(),
        forall|i: int| 0 <= i < a.len() ==> a[i].entry_fee == b[i].entry_fee,
    ensures
        sum_stakes(a) == sum_stakes(b),
    decreases a.len(),
{
    if a.len() > 0 {
        lemma_sum_stakes_same_fees(a.drop_last(), b.drop_last());
    }
}

/// Byte-for-byte copy of a byte string.
pub fn clone_bytes(a: &Vec<u8>) -> (r: Vec<u8>)
    ensures
        r@ == a@,
{
    let mut r: Vec<u8> = Vec::new();
    let mut i: usize = 0;
    while i < a.len()
        invariant
            i <= a.len(),
            r@ == a@.take(i as int),
        decreases a.len() - i,
    {
        r.push(a[i]);
        proof {
            assert(r@ =~= a@.take(i as int + 1));
        }
        i += 1;
    }
    proof {
        assert(a@.take(a.len() as int) =~= a@);
    }
    r
}

/// Whether two byte strings hold the same bytes.
pub fn bytes_eq(a: &Vec<u8>, b: &Vec<u8>) -> (r: bool)
    ensures
        r == (a@ == b@),
{
    if a.len() != b.len() {
        return false;
    }
    let mut i: usize = 0;
    while i < a.len()
        invariant
            i <= a.len(),
            a.len() == b.len(),
            forall|k: int| 0 <= k < i ==> a@[k] == b@[k],
        decreases a.len() - i,
    {
        if a[i] != b[i] {
            return false;
        }
        i += 1;
    }
    proof {
        assert(a@ =~= b@);
    }
    true
}

/// A copy of an entry with the same value.
pub fn clone_entry(e: &AgentEntry) -> (r: AgentEntry)
    ensures
        r@ == e@,
{
    AgentEntry {
        agent_id: clone_bytes(&e.agent_id),
        player_address: clone_bytes(&e.player_address),
        strategy_type: e.strategy_type,
        entry_fee: e.entry_fee,
        final_roi: e.final_roi,
        registered_at: e.registered_at,
    }
}

/// The position of the entry carrying this id, if any, scanning in
/// registration order.
pub fn find_agent(agents: &Vec<AgentEntry>, id: &Vec<u8>) -> (r: Option<usize>)
    ensures
        match r {
            Some(i) => {
                &&& i < agents.len()
                &&& views_of(agents@)[i as int].agent_id == id@
            },
            None => !has_agent(views_of(agents@), id@),
        },
{
    let mut i: usize = 0;
    while i < agents.len()
        invariant
            i <= agents.len(),
            forall|k: int| 0 <= k < i ==> views_of(agents@)[k].agent_id != id@,
        decreases agents.len() - i,
    {
        if bytes_eq(&agents[i].agent_id, id) {
            return Some(i);
        }
        i += 1;
    }
    None
}

} // verus!
