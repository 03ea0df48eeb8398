//! The tournament ledger: one instance per tournament, owning the phase,
//! the entry fee, the prize pool and the registry, and exposing every
//! operation of the system.
//!
//! The host is expected to supply the facts only it can know: the caller's
//! identity, whether the caller holds administrative authority, and the
//! amount actually paid with a registration.  Every operation either fully
//! commits or returns an error and leaves the ledger exactly as it was.

use vstd::prelude::*;

use crate::errors::TournamentError;
use crate::model::AgentEntry;
use crate::model::AgentEntryV;
use crate::model::Phase;
use crate::model::STRATEGY_MEAN_REVERSION;
use crate::model::agent_idx;
use crate::model::clone_bytes;
use crate::model::clone_entry;
use crate::model::find_agent;
use crate::model::has_agent;
use crate::model::lemma_agent_idx_unique;
use crate::model::lemma_sum_stakes_same_fees;
use crate::model::phase_rank;
use crate::model::sum_stakes;
use crate::model::unique_ids;
use crate::model::views_of;
use crate::payout::PRIZE_FIRST;
use crate::payout::PRIZE_SECOND;
use crate::payout::PRIZE_THIRD;
use crate::payout::Payout;
use crate::payout::payout_views_of;
use crate::payout::payouts_of;
use crate::payout::prize_share;
use crate::ranking::lemma_rank_of_len;
use crate::ranking::rank_of;
use crate::ranking::ranked_copy;

verus! {

/// One tournament instance: phase, fixed entry fee, accumulated prize pool,
/// and the registry of entries in registration order.
pub struct Tournament {
    /// The lifecycle stage; only ever advances.
    pub tournament_state: Phase,
    /// The minimum stake, fixed at creation.
    pub entry_fee: u64,
    /// The accumulated stakes not yet paid out.
    pub prize_pool: u64,
    /// The registry, in first-registration-first order; ids are unique.
    pub agents: Vec<AgentEntry>,
}

impl Tournament {
    /// The mathematical value of the registry.
    pub open spec fn agents_v(&self) -> Seq<AgentEntryV> {
        views_of(self.agents@)
    }

    /// The ledger's invariant, held after every committed operation: ids are
    /// unique; until the tournament has ended the pool is exactly the total
    /// staked, and once it has ended the pool is zero.
    pub open spec fn wf(&self) -> bool {
        &&& unique_ids(self.agents_v())
        &&& self.tournament_state != Phase::Ended ==> self.prize_pool as int == sum_stakes(
            self.agents_v(),
        )
        &&& self.tournament_state == Phase::Ended ==> self.prize_pool == 0
    }

    /// A fresh ledger: in registration phase, with the given entry fee, an
    /// empty pool and an empty registry.
    pub fn init(entry_fee: u64) -> (t: Tournament)
        ensures
            t.wf(),
            t.tournament_state == Phase::Registration,
            t.entry_fee == entry_fee,
            t.prize_pool == 0,
            t.agents_v().len() == 0,
    {
        Tournament {
            tournament_state: Phase::Registration,
            entry_fee,
            prize_pool: 0,
            agents: Vec::new(),
        }
    }

    /// Admit one participant: only during registration, only with a known
    /// strategy tag, only for at least the entry fee, and only under a fresh
    /// id.  On success the entry joins the end of the registry with a zero
    /// score and its stake joins the pool; on any rejection the ledger is
    /// untouched.
    pub fn register_agent(
        &mut self,
        agent_id: Vec<u8>,
        strategy_type: u8,
        caller: Vec<u8>,
        paid_amount: u64,
        now: u64,
    ) -> (r: Result<(), TournamentError>)
        requires
            old(self).wf(),
            old(self).tournament_state == Phase::Registration && paid_amount >= old(
                self,
            ).entry_fee ==> old(self).prize_pool + paid_amount <= u64::MAX,
        ensures
            final(self).wf(),
            final(self).tournament_state == old(self).tournament_state,
            final(self).entry_fee == old(self).entry_fee,
            phase_rank(old(self).tournament_state) <= phase_rank(final(self).tournament_state),
            r is Err ==> *final(self) == *old(self),
            old(self).tournament_state != Phase::Registration ==> r == Err::<
                (),
                TournamentError,
            >(TournamentError::WrongPhase),
            old(self).tournament_state == Phase::Registration && strategy_type
                > STRATEGY_MEAN_REVERSION ==> r == Err::<(), TournamentError>(
                TournamentError::InvalidStrategy,
            ),
            old(self).tournament_state == Phase::Registration && strategy_type
                <= STRATEGY_MEAN_REVERSION && paid_amount < old(self).entry_fee ==> r == Err::<
                (),
                TournamentError,
            >(TournamentError::InsufficientPayment),
            old(self).tournament_state == Phase::Registration && strategy_type
                <= STRATEGY_MEAN_REVERSION && paid_amount >= old(self).entry_fee && has_agent(
                old(self).agents_v(),
                agent_id@,
            ) ==> r == Err::<(), TournamentError>(TournamentError::DuplicateAgent),
            old(self).tournament_state == Phase::Registration && strategy_type
                <= STRATEGY_MEAN_REVERSION && paid_amount >= old(self).entry_fee && !has_agent(
                old(self).agents_v(),
                agent_id@,
            ) ==> r == Ok::<(), TournamentError>(()) && final(self).prize_pool == old(self).prize_pool + paid_amount && final(self).agents_v() == old(self).agents_v().push(
                (AgentEntryV {
                    agent_id: agent_id@,
                    player_address: caller@,
                    strategy_type,
                    entry_fee: paid_amount,
                    final_roi: 0,
                    registered_at: now,
                }),
            ),
    {
        if self.tournament_state != Phase::Registration {
            return Err(TournamentError::WrongPhase);
        }
        if strategy_type > STRATEGY_MEAN_REVERSION {
            return Err(TournamentError::InvalidStrategy);
        }
        if paid_amount < self.entry_fee {
            return Err(TournamentError::InsufficientPayment);
        }
        if find_agent(&self.agents, &agent_id).is_some() {
            return Err(TournamentError::DuplicateAgent);
        }
        let ghost vs = self.agents_v();
        let entry = AgentEntry {
            agent_id,
            player_address: caller,
            strategy_type,
            entry_fee: paid_amount,
            final_roi: 0,
            registered_at: now,
        };
        let ghost ev = entry@;
        self.agents.push(entry);
        self.prize_pool = self.prize_pool + paid_amount;
        proof {
            assert(self.agents_v() =~= vs.push(ev));
            assert(vs.push(ev).drop_last() =~= vs);
            assert(forall|k: int| 0 <= k < vs.len() ==> vs[k].agent_id != ev.agent_id);
        }
        Ok(())
    }

    /// Open the active phase: administrative, only from registration, and
    /// only with at least one entry registered.
    pub fn start_tournament(&mut self, authorized: bool) -> (r: Result<(), TournamentError>)
        requires
            old(self).wf(),
        ensures
            final(self).wf(),
            final(self).entry_fee == old(self).entry_fee,
            final(self).prize_pool == old(self).prize_pool,
            final(self).agents_v() == old(self).agents_v(),
            phase_rank(old(self).tournament_state) <= phase_rank(final(self).tournament_state),
            r is Err ==> *final(self) == *old(self),
            !authorized ==> r == Err::<(), TournamentError>(TournamentError::NotAuthorized),
            authorized && old(self).tournament_state != Phase::Registration ==> r == Err::<
                (),
                TournamentError,
            >(TournamentError::WrongPhase),
            authorized && old(self).tournament_state == Phase::Registration && old(self).agents_v().len() == 0 ==> r == Err::<(), TournamentError>(
                TournamentError::EmptyRegistry,
            ),
            authorized && old(self).tournament_state == Phase::Registration && old(self).agents_v().len() > 0 ==> r == Ok::<(), TournamentError>(()) && final(self).tournament_state == Phase::Active,
    {
        if !authorized {
            return Err(TournamentError::NotAuthorized);
        }
        if self.tournament_state != Phase::Registration {
            return Err(TournamentError::WrongPhase);
        }
        if self.agents.is_empty() {
            return Err(TournamentError::EmptyRegistry);
        }
        self.tournament_state = Phase::Active;
        Ok(())
    }

    /// Record a participant's score: administrative, only while active, only
    /// for a registered id.  The new score replaces the old one outright;
    /// nothing else about any entry changes.
    pub fn update_score(
        &mut self,
        agent_id: &Vec<u8>,
        roi_basis_points: i64,
        authorized: bool,
    ) -> (r: Result<(), TournamentError>)
        requires
            old(self).wf(),
        ensures
            final(self).wf(),
            final(self).tournament_state == old(self).tournament_state,
            final(self).entry_fee == old(self).entry_fee,
            final(self).prize_pool == old(self).prize_pool,
            phase_rank(old(self).tournament_state) <= phase_rank(final(self).tournament_state),
            r is Err ==> *final(self) == *old(self),
            !authorized ==> r == Err::<(), TournamentError>(TournamentError::NotAuthorized),
            authorized && old(self).tournament_state != Phase::Active ==> r == Err::<
                (),
                TournamentError,
            >(TournamentError::WrongPhase),
            authorized && old(self).tournament_state == Phase::Active && !has_agent(
                old(self).agents_v(),
                agent_id@,
            ) ==> r == Err::<(), TournamentError>(TournamentError::AgentNotFound),
            authorized && old(self).tournament_state == Phase::Active && has_agent(
                old(self).agents_v(),
                agent_id@,
            ) ==> r == Ok::<(), TournamentError>(()) && final(self).agents_v() == old(self).agents_v().update(
                agent_idx(old(self).agents_v(), agent_id@),
                (AgentEntryV {
                    final_roi: roi_basis_points,
                    ..old(self).agents_v()[agent_idx(old(self).agents_v(), agent_id@)]
                }),
            ),
    {
        if !authorized {
            return Err(TournamentError::NotAuthorized);
        }
        if self.tournament_state != Phase::Active {
            return Err(TournamentError::WrongPhase);
        }
        let found = find_agent(&self.agents, agent_id);
        match found {
            None => Err(TournamentError::AgentNotFound),
            Some(i) => {
                let ghost vs = self.agents_v();
                let mut entry = self.agents.remove(i);
                entry.final_roi = roi_basis_points;
                let ghost ev = entry@;
                self.agents.insert(i, entry);
                proof {
                    lemma_agent_idx_unique(vs, agent_id@, i as int);
                    assert(self.agents_v() =~= vs.update(i as int, ev));
                    let ws = self.agents_v();
                    assert(forall|k: int| 0 <= k < ws.len() ==> ws[k].agent_id == vs[k].agent_id);
                    lemma_sum_stakes_same_fees(ws, vs);
                }
                Ok(())
            },
        }
    }

    /// Settle the tournament: administrative, only while active.  The phase
    /// moves to ended, the pool is zeroed, and the report lists what each of
    /// the top-ranked participants is owed — half the pool to the first
    /// rank, three tenths to the second, one fifth to the third, each share
    /// floored.  An empty registry settles to an empty report.  The registry
    /// itself is never mutated.
    pub fn end_tournament(&mut self, authorized: bool) -> (r: Result<Vec<Payout>, TournamentError>)
        requires
            old(self).wf(),
        ensures
            final(self).wf(),
            final(self).entry_fee == old(self).entry_fee,
            final(self).agents_v() == old(self).agents_v(),
            phase_rank(old(self).tournament_state) <= phase_rank(final(self).tournament_state),
            r is Err ==> *final(self) == *old(self),
            !authorized ==> r == Err::<Vec<Payout>, TournamentError>(TournamentError::NotAuthorized),
            authorized && old(self).tournament_state != Phase::Active ==> r == Err::<
                Vec<Payout>,
                TournamentError,
            >(TournamentError::WrongPhase),
            authorized && old(self).tournament_state == Phase::Active ==> {
                &&& final(self).tournament_state == Phase::Ended
                &&& final(self).prize_pool == 0
                &&& r matches Ok(report) && payout_views_of(report@) == payouts_of(
                    rank_of(old(self).agents_v()),
                    old(self).prize_pool,
                )
            },
    {
        if !authorized {
            return Err(TournamentError::NotAuthorized);
        }
        if self.tournament_state != Phase::Active {
            return Err(TournamentError::WrongPhase);
        }
        self.tournament_state = Phase::Ended;
        let ranked = ranked_copy(&self.agents);
        let pool = self.prize_pool;
        self.prize_pool = 0;
        proof {
            lemma_rank_of_len(views_of(self.agents@));
        }
        let mut report: Vec<Payout> = Vec::new();
        if ranked.len() >= 1 {
            report.push(
                Payout {
                    agent_id: clone_bytes(&ranked[0].agent_id),
                    player_address: clone_bytes(&ranked[0].player_address),
                    amount: prize_share(pool, PRIZE_FIRST),
                },
            );
        }
        if ranked.len() >= 2 {
            report.push(
                Payout {
                    agent_id: clone_bytes(&ranked[1].agent_id),
                    player_address: clone_bytes(&ranked[1].player_address),
                    amount: prize_share(pool, PRIZE_SECOND),
                },
            );
        }
        if ranked.len() >= 3 {
            report.push(
                Payout {
                    agent_id: clone_bytes(&ranked[2].agent_id),
                    player_address: clone_bytes(&ranked[2].player_address),
                    amount: prize_share(pool, PRIZE_THIRD),
                },
            );
        }
        proof {
            assert(payout_views_of(report@) =~= payouts_of(rank_of(views_of(self.agents@)), pool));
        }
        Ok(report)
    }

    /// A copy of the entry registered under this id, if any.
    pub fn get_agent(&self, agent_id: &Vec<u8>) -> (r: Result<AgentEntry, TournamentError>)
        requires
            self.wf(),
        ensures
            !has_agent(self.agents_v(), agent_id@) ==> r == Err::<AgentEntry, TournamentError>(
                TournamentError::AgentNotFound,
            ),
            has_agent(self.agents_v(), agent_id@) ==> (r matches Ok(e) && e@ == self.agents_v()[
                agent_idx(self.agents_v(), agent_id@)
            ]),
    {
        match find_agent(&self.agents, agent_id) {
            None => Err(TournamentError::AgentNotFound),
            Some(i) => {
                proof {
                    lemma_agent_idx_unique(self.agents_v(), agent_id@, i as int);
                }
                Ok(clone_entry(&self.agents[i]))
            },
        }
    }

    /// The ranked leaderboard: every entry, in stable descending score
    /// order.  Available in any phase; with no scores recorded yet it
    /// degrades to pure registration order.
    pub fn get_leaderboard(&self) -> (r: Vec<AgentEntry>)
        ensures
            views_of(r@) == rank_of(self.agents_v()),
    {
        self.get_sorted_agents()
    }

    /// The ranked order of the registry, leaving the registry untouched.
    pub fn get_sorted_agents(&self) -> (r: Vec<AgentEntry>)
        ensures
            views_of(r@) == rank_of(self.agents_v()),
    {
        ranked_copy(&self.agents)
    }

    /// The current phase.
    pub fn get_tournament_state_view(&self) -> (r: Phase)
        ensures
            r == self.tournament_state,
    {
        self.tournament_state
    }

    /// The current prize pool.
    pub fn get_prize_pool(&self) -> (r: u64)
        ensures
            r == self.prize_pool,
    {
        self.prize_pool
    }

    /// The entry fee fixed at creation.
    pub fn get_entry_fee(&self) -> (r: u64)
        ensures
            r == self.entry_fee,
    {
        self.entry_fee
    }

    /// How many entries are registered.
    pub fn get_agent_count(&self) -> (r: usize)
        ensures
            r as int == self.agents_v().len(),
    {
        self.agents.len()
    }
}

/// Conservation of stakes: until the tournament has ended, the pool of a
/// well-formed ledger is exactly the sum of every registered stake.
pub proof fn lemma_pool_is_total_stakes(t: &Tournament)
    requires
        t.wf(),
        t.tournament_state != Phase::Ended,
    ensures
        t.prize_pool as int == sum_stakes(t.agents_v()),
{
}

} // verus!
