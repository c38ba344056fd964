//! Captain claims, alternating picks, the side choice and the final line-up.

use vstd::prelude::*;

use crate::error::Error;
use crate::session::{unpicked, Lobby, Phase, Session, Side, Team};

verus! {

/// Whether `v` holds `x`.
fn holds(v: &Vec<u64>, x: u64) -> (r: bool)
    ensures
        r == v@.contains(x),
{
    let mut i: usize = 0;
    while i < v.len()
        invariant
            i <= v@.len(),
            forall|k: int| 0 <= k < i ==> v@[k] != x,
        decreases v@.len() - i,
    {
        if v[i] == x {
            return true;
        }
        i = i + 1;
    }
    false
}

/// The members of `q` on neither `a` nor `b`, in queue order.
pub fn unpicked_of(q: &Vec<u64>, a: &Vec<u64>, b: &Vec<u64>) -> (r: Vec<u64>)
    ensures
        r@ == unpicked(q@, a@, b@),
{
    let mut r: Vec<u64> = Vec::new();
    let mut i: usize = 0;
    while i < q.len()
        invariant
            i <= q@.len(),
            r@ == unpicked(q@.subrange(0, i as int), a@, b@),
        decreases q@.len() - i,
    {
        assert(q@.subrange(0, i + 1).drop_last() =~= q@.subrange(0, i as int));
        let x = q[i];
        if !holds(a, x) && !holds(b, x) {
            r.push(x);
        }
        i = i + 1;
    }
    assert(q@.subrange(0, q@.len() as int) =~= q@);
    r
}

/// The result of a successful pick: the team the player joined and how many
/// queued participants are still on neither team.
#[derive(Debug, Clone, Copy, PartialEq, Eq, Structural)]
pub struct Pick {
    pub team: Team,
    pub remaining: usize,
}

/// The finished teams of a match, handed out when setup completes.
#[derive(Debug)]
pub struct Lineup {
    pub captain_a: u64,
    pub captain_b: u64,
    pub team_a: Vec<u64>,
    pub team_b: Vec<u64>,
    /// The side team B starts on.
    pub starting_side: Side,
}

impl Lobby {
    /// Why `actor` may not become a captain now, if so.
    pub open spec fn captain_refusal(&self, actor: u64) -> Option<Error> {
        if self.session.phase != Phase::CaptainPick {
            Some(Error::WrongPhase)
        } else if !self.queue@.contains(actor) {
            Some(Error::NotQueued)
        } else if self.session.captain_a == Some(actor) {
            Some(Error::AlreadyCaptain)
        } else {
            None
        }
    }

    /// Why `actor` may not pick `target` now, if so.
    pub open spec fn pick_refusal(&self, actor: u64, target: u64) -> Option<Error> {
        if self.session.phase != Phase::Draft {
            Some(Error::WrongPhase)
        } else if self.session.captain_a != Some(actor) && self.session.captain_b != Some(actor) {
            Some(Error::NotCaptain)
        } else if self.session.current_picker != Some(actor) {
            Some(Error::WrongTurn)
        } else if !self.queue@.contains(target) {
            Some(Error::NotQueued)
        } else if self.session.on_a_team(target) {
            Some(Error::AlreadyPicked)
        } else {
            None
        }
    }

    /// Why `actor` may not choose the starting side now, if so.
    pub open spec fn side_refusal(&self, actor: u64) -> Option<Error> {
        if self.session.phase != Phase::SidePick {
            Some(Error::WrongPhase)
        } else if self.session.captain_b != Some(actor) {
            Some(Error::NotCaptainB)
        } else {
            None
        }
    }

    /// Makes `actor`, a queued participant, a captain: the first claimant
    /// leads team A, the second team B, after which the phase becomes
    /// `Draft` with captain A to pick first.
    pub fn claim_captain(&mut self, actor: u64) -> (r: Result<Team, Error>)
        requires
            old(self).wf(),
        ensures
            final(self).wf(),
            match old(self).captain_refusal(actor) {
                Some(e) => r == Err::<Team, Error>(e) && *final(self) == *old(self),
                None => final(self).same_but_session(old(self)) && if old(self).session.captain_a
                    is None {
                    &&& r == Ok::<Team, Error>(Team::A)
                    &&& final(self).session.phase == Phase::CaptainPick
                    &&& final(self).session.captain_a == Some(actor)
                    &&& final(self).session.team_a@ == seq![actor]
                    &&& final(self).session.captain_b is None
                    &&& final(self).session.team_b@.len() == 0
                } else {
                    &&& r == Ok::<Team, Error>(Team::B)
                    &&& final(self).session.phase == Phase::Draft
                    &&& final(self).session.captain_a == old(self).session.captain_a
                    &&& final(self).session.team_a@ == old(self).session.team_a@
                    &&& final(self).session.captain_b == Some(actor)
                    &&& final(self).session.team_b@ == seq![actor]
                    &&& final(self).session.current_picker == old(self).session.captain_a
                    &&& final(self).session.starting_side is None
                },
            },
    {
        if self.session.phase != Phase::CaptainPick {
            return Err(Error::WrongPhase);
        }
        if !self.queue.contains(actor) {
            return Err(Error::NotQueued);
        }
        match self.session.captain_a {
            Some(a) => {
                if a == actor {
                    return Err(Error::AlreadyCaptain);
                }
                self.session.captain_b = Some(actor);
                self.session.team_b.push(actor);
                self.session.current_picker = Some(a);
                self.session.phase = Phase::Draft;
                proof {
                    assert(self.session.team_b@ =~= seq![actor]);
                    assert(self.session.team_a@ =~= seq![a]);
                    assert forall|x: u64| #[trigger]
                        self.session.team_a@.contains(x) implies !self.session.team_b@.contains(x)
                        && self.queue@.contains(x) by {
                        assert(self.session.team_a@[0] == x);
                    }
                    assert forall|x: u64| #[trigger]
                        self.session.team_b@.contains(x) implies self.queue@.contains(x) by {
                        assert(self.session.team_b@[0] == x);
                    }
                }
                Ok(Team::B)
            },
            None => {
                self.session.captain_a = Some(actor);
                self.session.team_a.push(actor);
                assert(self.session.team_a@ =~= seq![actor]);
                Ok(Team::A)
            },
        }
    }

    /// The current picker adds `target`, a queued participant on neither
    /// team, to their own team; the turn passes to the other captain. When
    /// no queued participant is left unpicked the phase becomes `SidePick`.
    pub fn pick(&mut self, actor: u64, target: u64) -> (r: Result<Pick, Error>)
        requires
            old(self).wf(),
        ensures
            final(self).wf(),
            match old(self).pick_refusal(actor, target) {
                Some(e) => r == Err::<Pick, Error>(e) && *final(self) == *old(self),
                None => r matches Ok(p) && {
                    let s0 = old(self).session;
                    let s1 = final(self).session;
                    &&& final(self).same_but_session(old(self))
                    &&& s1.captain_a == s0.captain_a && s1.captain_b == s0.captain_b
                    &&& s1.starting_side is None
                    &&& (p.team == Team::A <==> s0.captain_a == Some(actor))
                    &&& p.team == Team::A ==> {
                        &&& s1.team_a@ == s0.team_a@.push(target)
                        &&& s1.team_b@ == s0.team_b@
                        &&& s1.current_picker == s0.captain_b
                    }
                    &&& p.team == Team::B ==> {
                        &&& s1.team_b@ == s0.team_b@.push(target)
                        &&& s1.team_a@ == s0.team_a@
                        &&& s1.current_picker == s0.captain_a
                    }
                    &&& p.remaining == unpicked(final(self).queue@, s1.team_a@, s1.team_b@).len()
                    &&& (s1.phase == Phase::SidePick <==> p.remaining == 0)
                    &&& (s1.phase == Phase::Draft <==> p.remaining > 0)
                },
            },
    {
        if self.session.phase != Phase::Draft {
            return Err(Error::WrongPhase);
        }
        let is_a = self.session.captain_a == Some(actor);
        if !is_a && self.session.captain_b != Some(actor) {
            return Err(Error::NotCaptain);
        }
        if self.session.current_picker != Some(actor) {
            return Err(Error::WrongTurn);
        }
        if !self.queue.contains(target) {
            return Err(Error::NotQueued);
        }
        if holds(&self.session.team_a, target) || holds(&self.session.team_b, target) {
            return Err(Error::AlreadyPicked);
        }
        let ghost s0 = self.session;
        let team = if is_a {
            self.session.team_a.push(target);
            self.session.current_picker = self.session.captain_b;
            Team::A
        } else {
            self.session.team_b.push(target);
            self.session.current_picker = self.session.captain_a;
            Team::B
        };
        proof {
            let s1 = self.session;
            let q = self.queue@;
            assert(s1.team_a@[0] == s0.team_a@[0]);
            assert(s1.team_b@[0] == s0.team_b@[0]);
            assert forall|x: u64| #[trigger]
                s1.team_a@.contains(x) implies !s1.team_b@.contains(x) && q.contains(x) by {
                if x != target {
                    let k = choose|k: int| 0 <= k < s1.team_a@.len() && s1.team_a@[k] == x;
                    assert(s0.team_a@.contains(x)) by {
                        assert(s0.team_a@[k] == x);
                    }
                    if s1.team_b@.contains(x) {
                        let j = choose|j: int| 0 <= j < s1.team_b@.len() && s1.team_b@[j] == x;
                        assert(s0.team_b@[j] == x);
                    }
                } else {
                    if s1.team_b@.contains(x) {
                        let j = choose|j: int| 0 <= j < s1.team_b@.len() && s1.team_b@[j] == x;
                        if j < s0.team_b@.len() {
                            assert(s0.team_b@[j] == x);
                        }
                    }
                }
            }
            assert forall|x: u64| #[trigger] s1.team_b@.contains(x) implies q.contains(x) by {
                if x != target {
                    let j = choose|j: int| 0 <= j < s1.team_b@.len() && s1.team_b@[j] == x;
                    assert(s0.team_b@[j] == x);
                    assert(s0.team_b@.contains(x));
                }
            }
        }
        let left = unpicked_of(&self.queue.members, &self.session.team_a, &self.session.team_b);
        let remaining = left.len();
        if remaining == 0 {
            self.session.phase = Phase::SidePick;
        }
        Ok(Pick { team, remaining })
    }

    /// The queued participants on neither team, in queue order.
    pub fn unpicked(&self) -> (r: Vec<u64>)
        ensures
            r@ == unpicked(self.queue@, self.session.team_a@, self.session.team_b@),
    {
        unpicked_of(&self.queue.members, &self.session.team_a, &self.session.team_b)
    }

    /// Captain B chooses the side their team starts on; the phase becomes
    /// `Ready`.
    pub fn choose_side(&mut self, actor: u64, side: Side) -> (r: Result<(), Error>)
        requires
            old(self).wf(),
        ensures
            final(self).wf(),
            match old(self).side_refusal(actor) {
                Some(e) => r == Err::<(), Error>(e) && *final(self) == *old(self),
                None => {
                    &&& r is Ok
                    &&& final(self).same_but_session(old(self))
                    &&& final(self).session.phase == Phase::Ready
                    &&& final(self).session.starting_side == Some(side)
                    &&& final(self).session.captain_a == old(self).session.captain_a
                    &&& final(self).session.captain_b == old(self).session.captain_b
                    &&& final(self).session.team_a == old(self).session.team_a
                    &&& final(self).session.team_b == old(self).session.team_b
                },
            },
    {
        if self.session.phase != Phase::SidePick {
            return Err(Error::WrongPhase);
        }
        if self.session.captain_b != Some(actor) {
            return Err(Error::NotCaptainB);
        }
        self.session.starting_side = Some(side);
        self.session.phase = Phase::Ready;
        Ok(())
    }

    /// Completes match setup: hands out the line-up, empties the queue and
    /// resets the session to a blank `Queue` phase.
    pub fn finalize(&mut self) -> (r: Result<Lineup, Error>)
        requires
            old(self).wf(),
        ensures
            final(self).wf(),
            r is Err ==> *final(self) == *old(self),
            r is Err <==> old(self).session.phase != Phase::Ready,
            r is Err ==> r matches Err(Error::WrongPhase),
            r matches Ok(l) ==> {
                let s0 = old(self).session;
                &&& s0.captain_a == Some(l.captain_a)
                &&& s0.captain_b == Some(l.captain_b)
                &&& l.team_a@ == s0.team_a@
                &&& l.team_b@ == s0.team_b@
                &&& s0.starting_side == Some(l.starting_side)
                &&& final(self).queue@.len() == 0
                &&& final(self).session.phase == Phase::Queue
                &&& final(self).session.is_blank()
                &&& final(self).maps == old(self).maps
                &&& final(self).riot_ids@ == old(self).riot_ids@
                &&& final(self).team_names@ == old(self).team_names@
            },
    {
        if self.session.phase != Phase::Ready {
            return Err(Error::WrongPhase);
        }
        let mut done = Session::new();
        std::mem::swap(&mut self.session, &mut done);
        self.queue.clear();
        let captain_a = done.captain_a.unwrap();
        let captain_b = done.captain_b.unwrap();
        let starting_side = done.starting_side.unwrap();
        Ok(Lineup { captain_a, captain_b, team_a: done.team_a, team_b: done.team_b, starting_side })
    }
}

} // verus!
