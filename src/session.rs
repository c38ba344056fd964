//! The session state machine and the lobby that holds all shared state.

use std::collections::HashMap;

use vstd::prelude::*;

use crate::error::Error;
use crate::maps::{name_views, MapPool, POOL_CAPACITY};
use crate::queue::{left, Queue, QUEUE_CAPACITY};
use crate::vote::{
    lemma_tally_len, lemma_tie_set, random_below, resolve, tally, tally_reactions, tie_set,
    tied_options,
};

verus! {

broadcast use vstd::std_specs::hash::group_hash_axioms;

/// The stage of match setup, which decides what operations are legal.
#[derive(Debug, Clone, Copy, PartialEq, Eq, Structural)]
pub enum Phase {
    Queue,
    MapVote,
    CaptainPick,
    Draft,
    SidePick,
    Ready,
}

/// The side the second captain's team starts on.
#[derive(Debug, Clone, Copy, PartialEq, Eq, Structural)]
pub enum Side {
    Defense,
    Attack,
}

/// One of the two teams of a draft.
#[derive(Debug, Clone, Copy, PartialEq, Eq, Structural)]
pub enum Team {
    A,
    B,
}

/// The participants of the queue that are on neither team, in queue order.
pub open spec fn unpicked(q: Seq<u64>, a: Seq<u64>, b: Seq<u64>) -> Seq<u64>
    decreases q.len(),
{
    if q.len() == 0 {
        Seq::empty()
    } else {
        let rest = unpicked(q.drop_last(), a, b);
        if a.contains(q.last()) || b.contains(q.last()) {
            rest
        } else {
            rest.push(q.last())
        }
    }
}

/// Two disjoint teams without repeats, drawn from a queue without repeats,
/// together hold no more participants than the queue.
pub proof fn law_teams_fit_in_queue(a: Seq<u64>, b: Seq<u64>, q: Seq<u64>)
    requires
        a.no_duplicates(),
        b.no_duplicates(),
        q.no_duplicates(),
        forall|x: u64| #[trigger] a.contains(x) ==> !b.contains(x) && q.contains(x),
        forall|x: u64| #[trigger] b.contains(x) ==> q.contains(x),
    ensures
        a.len() + b.len() <= q.len(),
{
    broadcast use vstd::seq_lib::seq_to_set_is_finite;
    a.unique_seq_to_set();
    b.unique_seq_to_set();
    q.unique_seq_to_set();
    let sa = a.to_set();
    let sb = b.to_set();
    assert(sa.disjoint(sb));
    vstd::set_lib::lemma_set_disjoint_lens(sa, sb);
    assert((sa + sb).subset_of(q.to_set()));
    vstd::set_lib::lemma_len_subset(sa + sb, q.to_set());
}

/// The draft state of one match setup. While the phase is `Queue` every
/// other field is empty.
pub struct Session {
    pub phase: Phase,
    pub captain_a: Option<u64>,
    pub captain_b: Option<u64>,
    pub team_a: Vec<u64>,
    pub team_b: Vec<u64>,
    pub current_picker: Option<u64>,
    pub starting_side: Option<Side>,
    /// The map names on offer while a vote runs, in token order.
    pub vote_options: Vec<String>,
}

/// The queue `q` after each of `ids` tried to join in turn: one joins when
/// the queue has room, does not hold them yet and their external game id is
/// in `known`.
pub open spec fn joins_from(q: Seq<u64>, ids: Seq<u64>, known: Map<u64, String>) -> Seq<u64>
    decreases ids.len(),
{
    if ids.len() == 0 {
        q
    } else {
        let before = joins_from(q, ids.drop_last(), known);
        let id = ids.last();
        if known.contains_key(id) && before.len() < QUEUE_CAPACITY && !before.contains(id) {
            before.push(id)
        } else {
            before
        }
    }
}

/// A copy of `v`.
fn copy_names(v: &Vec<String>) -> (r: Vec<String>)
    ensures
        r@ == v@,
{
    let mut r: Vec<String> = Vec::new();
    let mut i: usize = 0;
    while i < v.len()
        invariant
            i <= v@.len(),
            r@ == v@.subrange(0, i as int),
        decreases v@.len() - i,
    {
        r.push(v[i].clone());
        i = i + 1;
        assert(r@ =~= v@.subrange(0, i as int));
    }
    assert(v@.subrange(0, v@.len() as int) =~= v@);
    r
}

/// The map that won a vote, and whether a tie was broken at random for it.
#[derive(Debug)]
pub struct MapChoice {
    pub map: String,
    pub tie_broken: bool,
}

impl Session {
    /// No captain, team member, picker, side or vote option.
    pub open spec fn is_blank(&self) -> bool {
        &&& self.captain_a is None
        &&& self.captain_b is None
        &&& self.team_a@.len() == 0
        &&& self.team_b@.len() == 0
        &&& self.current_picker is None
        &&& self.starting_side is None
        &&& self.vote_options@.len() == 0
    }

    pub open spec fn on_a_team(&self, id: u64) -> bool {
        self.team_a@.contains(id) || self.team_b@.contains(id)
    }

    /// Two distinct captains, each first on their own team, and two
    /// disjoint teams without repeats drawn from the queue `q`.
    pub open spec fn teams_wf(&self, q: Seq<u64>) -> bool {
        &&& self.captain_a is Some
        &&& self.captain_b is Some
        &&& self.captain_a->0 != self.captain_b->0
        &&& self.team_a@.len() > 0 && self.team_a@[0] == self.captain_a->0
        &&& self.team_b@.len() > 0 && self.team_b@[0] == self.captain_b->0
        &&& self.team_a@.no_duplicates()
        &&& self.team_b@.no_duplicates()
        &&& forall|x: u64| #[trigger]
            self.team_a@.contains(x) ==> !self.team_b@.contains(x) && q.contains(x)
        &&& forall|x: u64| #[trigger] self.team_b@.contains(x) ==> q.contains(x)
        &&& self.vote_options@.len() == 0
    }

    /// What each phase holds of the draft state, for the queue `q`.
    pub open spec fn wf(&self, q: Seq<u64>) -> bool {
        match self.phase {
            Phase::Queue => self.is_blank(),
            Phase::MapVote => {
                &&& self.captain_a is None
                &&& self.captain_b is None
                &&& self.team_a@.len() == 0
                &&& self.team_b@.len() == 0
                &&& self.current_picker is None
                &&& self.starting_side is None
                &&& 0 < self.vote_options@.len() <= POOL_CAPACITY
            },
            Phase::CaptainPick => {
                &&& self.captain_b is None
                &&& self.team_b@.len() == 0
                &&& self.current_picker is None
                &&& self.starting_side is None
                &&& self.vote_options@.len() == 0
                &&& match self.captain_a {
                    None => self.team_a@.len() == 0,
                    Some(a) => self.team_a@ == seq![a] && q.contains(a),
                }
            },
            Phase::Draft => {
                &&& self.teams_wf(q)
                &&& self.starting_side is None
                &&& (self.current_picker == self.captain_a || self.current_picker
                    == self.captain_b)
            },
            Phase::SidePick => {
                &&& self.teams_wf(q)
                &&& self.starting_side is None
                &&& unpicked(q, self.team_a@, self.team_b@).len() == 0
            },
            Phase::Ready => {
                &&& self.teams_wf(q)
                &&& self.starting_side is Some
                &&& unpicked(q, self.team_a@, self.team_b@).len() == 0
            },
        }
    }

    /// A session in phase `Queue` with nothing else set.
    pub fn new() -> (r: Session)
        ensures
            r.phase == Phase::Queue,
            r.is_blank(),
    {
        Session {
            phase: Phase::Queue,
            captain_a: None,
            captain_b: None,
            team_a: Vec::new(),
            team_b: Vec::new(),
            current_picker: None,
            starting_side: None,
            vote_options: Vec::new(),
        }
    }
}

/// Everything one match setup shares: the queue, the map pool, the draft
/// session and the two caches keyed by participant id (external game id,
/// custom team name).
pub struct Lobby {
    pub queue: Queue,
    pub maps: MapPool,
    pub session: Session,
    pub riot_ids: HashMap<u64, String>,
    pub team_names: HashMap<u64, String>,
}

impl Lobby {
    /// The queue and pool are well formed, the session fits its phase, and
    /// outside phase `Queue` the queue is full and frozen.
    pub open spec fn wf(&self) -> bool {
        &&& self.queue.wf()
        &&& self.maps.wf()
        &&& self.session.wf(self.queue@)
        &&& self.session.phase != Phase::Queue ==> self.queue@.len() == QUEUE_CAPACITY
    }

    /// `self` and `other` differ at most in their queue.
    pub open spec fn same_but_queue(&self, other: &Lobby) -> bool {
        &&& self.maps == other.maps
        &&& self.session == other.session
        &&& self.riot_ids@ == other.riot_ids@
        &&& self.team_names@ == other.team_names@
    }

    /// `self` and `other` differ at most in their map pool.
    pub open spec fn same_but_maps(&self, other: &Lobby) -> bool {
        &&& self.queue == other.queue
        &&& self.session == other.session
        &&& self.riot_ids@ == other.riot_ids@
        &&& self.team_names@ == other.team_names@
    }

    /// Why `actor` may not join now, if they may not: checked in this order.
    pub open spec fn join_refusal(&self, actor: u64) -> Option<Error> {
        if self.session.phase != Phase::Queue {
            Some(Error::WrongPhase)
        } else if self.queue@.len() >= QUEUE_CAPACITY {
            Some(Error::QueueFull)
        } else if self.queue@.contains(actor) {
            Some(Error::AlreadyQueued)
        } else if !self.riot_ids@.contains_key(actor) {
            Some(Error::RiotIdMissing)
        } else {
            None
        }
    }

    /// Why `id` may not leave or be kicked now, if so.
    pub open spec fn leave_refusal(&self, id: u64) -> Option<Error> {
        if self.session.phase != Phase::Queue {
            Some(Error::WrongPhase)
        } else if !self.queue@.contains(id) {
            Some(Error::NotQueued)
        } else {
            None
        }
    }

    /// Why `actor` may not start match setup now, if so.
    pub open spec fn start_refusal(&self, actor: u64) -> Option<Error> {
        if self.session.phase != Phase::Queue {
            Some(Error::WrongPhase)
        } else if !self.queue@.contains(actor) {
            Some(Error::NotQueued)
        } else if self.queue@.len() != QUEUE_CAPACITY {
            Some(Error::QueueNotFull)
        } else if self.maps@.len() == 0 {
            Some(Error::NoMapsConfigured)
        } else {
            None
        }
    }

    /// `self` and `other` differ at most in their session.
    pub open spec fn same_but_session(&self, other: &Lobby) -> bool {
        &&& self.queue == other.queue
        &&& self.maps == other.maps
        &&& self.riot_ids@ == other.riot_ids@
        &&& self.team_names@ == other.team_names@
    }

    /// A lobby in phase `Queue` with an empty queue, over the given pool and
    /// caches.
    pub fn new(
        maps: MapPool,
        riot_ids: HashMap<u64, String>,
        team_names: HashMap<u64, String>,
    ) -> (r: Lobby)
        requires
            maps.wf(),
        ensures
            r.wf(),
            r.queue@.len() == 0,
            r.maps == maps,
            r.session.phase == Phase::Queue,
            r.session.is_blank(),
            r.riot_ids@ == riot_ids@,
            r.team_names@ == team_names@,
    {
        Lobby { queue: Queue::new(), maps, session: Session::new(), riot_ids, team_names }
    }

    /// Adds `actor` to the queue and returns its new size. Legal only in phase
    /// `Queue`. A full queue is refused first, then a participant already in
    /// it, then one whose external game id is not known.
    pub fn join(&mut self, actor: u64) -> (r: Result<usize, Error>)
        requires
            old(self).wf(),
        ensures
            final(self).wf(),
            match old(self).join_refusal(actor) {
                Some(e) => r == Err::<usize, Error>(e) && *final(self) == *old(self),
                None => {
                    &&& final(self).queue@ == old(self).queue@.push(actor)
                    &&& r == Ok::<usize, Error>(final(self).queue@.len() as usize)
                    &&& final(self).same_but_queue(old(self))
                },
            },
    {
        if self.session.phase != Phase::Queue {
            return Err(Error::WrongPhase);
        }
        if self.queue.len() >= QUEUE_CAPACITY {
            return Err(Error::QueueFull);
        }
        if self.queue.contains(actor) {
            return Err(Error::AlreadyQueued);
        }
        if !self.riot_ids.contains_key(&actor) {
            return Err(Error::RiotIdMissing);
        }
        self.queue.join(actor)
    }

    /// Takes `actor` out of the queue and returns its new size. Legal only in
    /// phase `Queue`.
    pub fn leave(&mut self, actor: u64) -> (r: Result<usize, Error>)
        requires
            old(self).wf(),
        ensures
            final(self).wf(),
            match old(self).leave_refusal(actor) {
                Some(e) => r == Err::<usize, Error>(e) && *final(self) == *old(self),
                None => {
                    &&& final(self).queue@ == left(old(self).queue@, actor)
                    &&& !final(self).queue@.contains(actor)
                    &&& r == Ok::<usize, Error>(final(self).queue@.len() as usize)
                    &&& final(self).same_but_queue(old(self))
                },
            },
    {
        if self.session.phase != Phase::Queue {
            return Err(Error::WrongPhase);
        }
        self.queue.leave(actor)
    }

    /// Takes `target` out of the queue on an administrator's behalf and
    /// returns its new size. Legal only in phase `Queue`.
    pub fn kick(&mut self, target: u64) -> (r: Result<usize, Error>)
        requires
            old(self).wf(),
        ensures
            final(self).wf(),
            match old(self).leave_refusal(target) {
                Some(e) => r == Err::<usize, Error>(e) && *final(self) == *old(self),
                None => {
                    &&& final(self).queue@ == left(old(self).queue@, target)
                    &&& !final(self).queue@.contains(target)
                    &&& r == Ok::<usize, Error>(final(self).queue@.len() as usize)
                    &&& final(self).same_but_queue(old(self))
                },
            },
    {
        self.leave(target)
    }

    /// Empties the queue. Legal only in phase `Queue`.
    pub fn clear(&mut self) -> (r: Result<(), Error>)
        requires
            old(self).wf(),
        ensures
            final(self).wf(),
            r is Err ==> *final(self) == *old(self),
            r is Err <==> old(self).session.phase != Phase::Queue,
            r is Err ==> r == Err::<(), Error>(Error::WrongPhase),
            r is Ok ==> final(self).queue@.len() == 0 && final(self).same_but_queue(old(self)),
    {
        if self.session.phase != Phase::Queue {
            return Err(Error::WrongPhase);
        }
        self.queue.clear();
        Ok(())
    }

    /// The scheduled clear: empties the queue when the phase is `Queue`, and
    /// leaves a match setup in progress alone. Says whether it cleared.
    pub fn autoclear(&mut self) -> (r: bool)
        requires
            old(self).wf(),
        ensures
            final(self).wf(),
            r == (old(self).session.phase == Phase::Queue),
            r ==> final(self).queue@.len() == 0 && final(self).same_but_queue(old(self)),
            !r ==> *final(self) == *old(self),
    {
        self.clear().is_ok()
    }

    /// Replaces the queue by those of `ids` that can join, in order, as if
    /// each had joined in turn, and returns each one's result. Legal only in
    /// phase `Queue`.
    pub fn recover_queue(&mut self, ids: &Vec<u64>) -> (r: Result<Vec<Result<usize, Error>>, Error>)
        requires
            old(self).wf(),
        ensures
            final(self).wf(),
            r is Err ==> *final(self) == *old(self),
            r is Err <==> old(self).session.phase != Phase::Queue,
            r is Err ==> r == Err::<Vec<Result<usize, Error>>, Error>(Error::WrongPhase),
            r matches Ok(v) ==> v@.len() == ids@.len() && final(self).queue@ == joins_from(
                Seq::empty(),
                ids@,
                old(self).riot_ids@,
            ) && final(self).same_but_queue(old(self)),
    {
        if self.session.phase != Phase::Queue {
            return Err(Error::WrongPhase);
        }
        self.queue.clear();
        let mut results: Vec<Result<usize, Error>> = Vec::new();
        let mut k: usize = 0;
        while k < ids.len()
            invariant
                k <= ids@.len(),
                self.wf(),
                self.session.phase == Phase::Queue,
                self.same_but_queue(old(self)),
                results@.len() == k,
                self.queue@ == joins_from(
                    Seq::empty(),
                    ids@.subrange(0, k as int),
                    old(self).riot_ids@,
                ),
            decreases ids@.len() - k,
        {
            assert(ids@.subrange(0, k + 1).drop_last() =~= ids@.subrange(0, k as int));
            let res = self.join(ids[k]);
            results.push(res);
            k = k + 1;
        }
        assert(ids@.subrange(0, ids@.len() as int) =~= ids@);
        Ok(results)
    }

    /// Starts match setup on behalf of a queued participant once the queue is
    /// full: the phase becomes `MapVote` and the pool, in order, becomes the
    /// vote's options, which are returned.
    pub fn start(&mut self, actor: u64) -> (r: Result<Vec<String>, Error>)
        requires
            old(self).wf(),
        ensures
            final(self).wf(),
            match old(self).start_refusal(actor) {
                Some(e) => r == Err::<Vec<String>, Error>(e) && *final(self) == *old(self),
                None => r matches Ok(v) && {
                    &&& name_views(v@) == old(self).maps@
                    &&& final(self).session.vote_options@ == v@
                    &&& final(self).session.phase == Phase::MapVote
                    &&& final(self).same_but_session(old(self))
                },
            },
    {
        if self.session.phase != Phase::Queue {
            return Err(Error::WrongPhase);
        }
        if !self.queue.contains(actor) {
            return Err(Error::NotQueued);
        }
        if self.queue.len() != QUEUE_CAPACITY {
            return Err(Error::QueueNotFull);
        }
        if self.maps.len() == 0 {
            return Err(Error::NoMapsConfigured);
        }
        let options = copy_names(&self.maps.names);
        self.session.vote_options = copy_names(&options);
        self.session.phase = Phase::MapVote;
        Ok(options)
    }

    /// Ends the vote from the reactions read back, one count per token, and
    /// a draw that picks among tied options (taken modulo their number): the
    /// winner is announced and the phase becomes `CaptainPick`.
    pub fn conclude_vote(&mut self, reactions: &Vec<(String, u64)>, draw: usize) -> (r: Result<
        MapChoice,
        Error,
    >)
        requires
            old(self).wf(),
        ensures
            final(self).wf(),
            r is Err ==> *final(self) == *old(self),
            r is Err <==> old(self).session.phase != Phase::MapVote,
            r is Err ==> r matches Err(Error::WrongPhase),
            r matches Ok(c) ==> {
                let opts = old(self).session.vote_options@;
                let ties = tie_set(tally(opts.len(), reactions@));
                &&& c.map@ == opts[ties[(draw as int) % (ties.len() as int)] as int]@
                &&& c.tie_broken == (ties.len() > 1)
                &&& final(self).session.phase == Phase::CaptainPick
                &&& final(self).session.is_blank()
                &&& final(self).same_but_session(old(self))
            },
    {
        if self.session.phase != Phase::MapVote {
            return Err(Error::WrongPhase);
        }
        let n = self.session.vote_options.len();
        let counts = tally_reactions(n, reactions);
        proof {
            lemma_tally_len(n as nat, reactions@);
        }
        let outcome = resolve(&counts, draw);
        let map = self.session.vote_options[outcome.winner].clone();
        let mut fresh = Session::new();
        fresh.phase = Phase::CaptainPick;
        self.session = fresh;
        Ok(MapChoice { map, tie_broken: outcome.tie_broken })
    }

    /// Ends the vote from the reactions read back, breaking a tie uniformly
    /// at random: the winner is one of the options tied at the top, and the
    /// phase becomes `CaptainPick`.
    pub fn finish_vote(&mut self, reactions: &Vec<(String, u64)>) -> (r: Result<
        MapChoice,
        Error,
    >)
        requires
            old(self).wf(),
        ensures
            final(self).wf(),
            r is Err ==> *final(self) == *old(self),
            r is Err <==> old(self).session.phase != Phase::MapVote,
            r is Err ==> r matches Err(Error::WrongPhase),
            r matches Ok(c) ==> {
                let opts = old(self).session.vote_options@;
                let ties = tie_set(tally(opts.len(), reactions@));
                &&& exists|k: int| 0 <= k < ties.len() && c.map@ == opts[#[trigger] ties[k] as int]@
                &&& c.tie_broken == (ties.len() > 1)
                &&& final(self).session.phase == Phase::CaptainPick
                &&& final(self).session.is_blank()
                &&& final(self).same_but_session(old(self))
            },
    {
        if self.session.phase != Phase::MapVote {
            return Err(Error::WrongPhase);
        }
        let n = self.session.vote_options.len();
        let counts = tally_reactions(n, reactions);
        proof {
            lemma_tally_len(n as nat, reactions@);
            lemma_tie_set(counts@);
        }
        let ties = tied_options(&counts);
        let draw = random_below(ties.len());
        let r = self.conclude_vote(reactions, draw);
        proof {
            let k = (draw as int) % (ties@.len() as int);
            assert(0 <= k < ties@.len());
        }
        r
    }

    /// Adds `name` to the map pool. Legal in every phase: a vote in progress
    /// keeps the options it started with.
    pub fn add_map(&mut self, name: String) -> (r: Result<(), Error>)
        requires
            old(self).wf(),
        ensures
            final(self).wf(),
            r is Err ==> *final(self) == *old(self),
            old(self).maps@.len() >= POOL_CAPACITY ==> r == Err::<(), Error>(Error::PoolFull),
            old(self).maps@.len() < POOL_CAPACITY && old(self).maps@.contains(name@) ==> r
                == Err::<(), Error>(Error::DuplicateMap),
            r is Ok <==> old(self).maps@.len() < POOL_CAPACITY && !old(self).maps@.contains(name@),
            r is Ok ==> final(self).maps@ == old(self).maps@.push(name@)
                && final(self).same_but_maps(old(self)),
    {
        self.maps.add(name)
    }

    /// Takes `name` out of the map pool. Legal in every phase.
    pub fn remove_map(&mut self, name: &String) -> (r: Result<(), Error>)
        requires
            old(self).wf(),
        ensures
            final(self).wf(),
            r is Err ==> *final(self) == *old(self),
            r is Err <==> !old(self).maps@.contains(name@),
            r is Err ==> r == Err::<(), Error>(Error::MapNotFound),
            r is Ok ==> final(self).maps@ == old(self).maps@.remove(old(self).maps@.index_of(name@))
                && final(self).same_but_maps(old(self)),
    {
        self.maps.remove(name)
    }

    /// Resets the session to a blank `Queue` phase without finishing the
    /// match: no line-up is produced. The queue is kept. Legal in every phase
    /// but `Queue`.
    pub fn cancel(&mut self) -> (r: Result<(), Error>)
        requires
            old(self).wf(),
        ensures
            final(self).wf(),
            r is Err ==> *final(self) == *old(self),
            r is Err <==> old(self).session.phase == Phase::Queue,
            r is Err ==> r == Err::<(), Error>(Error::WrongPhase),
            r is Ok ==> final(self).session.phase == Phase::Queue && final(self).session.is_blank()
                && final(self).same_but_session(old(self)),
    {
        if self.session.phase == Phase::Queue {
            return Err(Error::WrongPhase);
        }
        self.session = Session::new();
        Ok(())
    }
}

/// Each participant operation is refused with `WrongPhase` outside its own
/// phase, before any other check; a refused operation changes nothing, as
/// each operation's contract states.
pub proof fn law_wrong_phase_first(l: Lobby, actor: u64, target: u64)
    ensures
        l.session.phase != Phase::Queue ==> {
            &&& l.join_refusal(actor) == Some(Error::WrongPhase)
            &&& l.leave_refusal(actor) == Some(Error::WrongPhase)
            &&& l.start_refusal(actor) == Some(Error::WrongPhase)
        },
        l.session.phase != Phase::CaptainPick ==> l.captain_refusal(actor) == Some(
            Error::WrongPhase,
        ),
        l.session.phase != Phase::Draft ==> l.pick_refusal(actor, target) == Some(
            Error::WrongPhase,
        ),
        l.session.phase != Phase::SidePick ==> l.side_refusal(actor) == Some(Error::WrongPhase),
{
}

} // verus!
