use std::collections::HashMap;

use scrim_bot::error::Error;
use scrim_bot::maps::MapPool;
use scrim_bot::draft::Pick;
use scrim_bot::session::{Lobby, Phase, Side, Team};

fn riot_ids(ids: std::ops::RangeInclusive<u64>) -> HashMap<u64, String> {
    ids.map(|i| (i, format!("player{}#EU", i))).collect()
}

fn lobby() -> Lobby {
    let maps = MapPool::from_names(vec![String::from("Mirage"), String::from("Inferno")]).unwrap();
    Lobby::new(maps, riot_ids(1..=12), HashMap::new())
}

fn full_lobby() -> Lobby {
    let mut l = lobby();
    for id in 1..=10u64 {
        assert_eq!(l.join(id), Ok(id as usize));
    }
    l
}

fn tie_reactions() -> Vec<(String, u64)> {
    vec![(String::from("\u{1F1E6}"), 5), (String::from("\u{1F1E7}"), 5)]
}

/// A lobby in phase `Draft` with 1 leading team A and 2 leading team B.
fn drafting_lobby() -> Lobby {
    let mut l = full_lobby();
    l.start(1).unwrap();
    l.conclude_vote(&tie_reactions(), 0).unwrap();
    assert_eq!(l.claim_captain(1), Ok(Team::A));
    assert_eq!(l.claim_captain(2), Ok(Team::B));
    l
}

fn side_pick_lobby() -> Lobby {
    let mut l = drafting_lobby();
    let mut turn_a = true;
    for target in 3..=10u64 {
        let actor = if turn_a { 1 } else { 2 };
        l.pick(actor, target).unwrap();
        turn_a = !turn_a;
    }
    l
}

#[test]
fn join_needs_known_riot_id() {
    let mut l = lobby();
    assert_eq!(l.join(99), Err(Error::RiotIdMissing));
    assert_eq!(l.queue.len(), 0);
}

#[test]
fn join_at_ten_fails_queue_full() {
    let mut l = full_lobby();
    assert_eq!(l.join(11), Err(Error::QueueFull));
    assert_eq!(l.join(99), Err(Error::QueueFull));
    assert_eq!(l.queue.len(), 10);
}

#[test]
fn leave_and_kick_in_queue_phase() {
    let mut l = full_lobby();
    assert_eq!(l.leave(3), Ok(9));
    assert_eq!(l.kick(4), Ok(8));
    assert_eq!(l.kick(4), Err(Error::NotQueued));
    assert_eq!(l.queue.members, vec![1, 2, 5, 6, 7, 8, 9, 10]);
}

#[test]
fn start_errors() {
    let mut l = lobby();
    l.join(1).unwrap();
    assert_eq!(l.start(2), Err(Error::NotQueued));
    assert_eq!(l.start(1), Err(Error::QueueNotFull));
    let mut empty_pool = Lobby::new(MapPool::new(), riot_ids(1..=10), HashMap::new());
    for id in 1..=10u64 {
        empty_pool.join(id).unwrap();
    }
    assert_eq!(empty_pool.start(1), Err(Error::NoMapsConfigured));
    assert_eq!(empty_pool.session.phase, Phase::Queue);
}

#[test]
fn operations_outside_their_phase_fail_wrong_phase() {
    let mut l = lobby();
    assert_eq!(l.claim_captain(1).unwrap_err(), Error::WrongPhase);
    assert_eq!(l.pick(1, 2).unwrap_err(), Error::WrongPhase);
    assert_eq!(l.choose_side(1, Side::Attack), Err(Error::WrongPhase));
    assert_eq!(l.finalize().unwrap_err(), Error::WrongPhase);
    assert_eq!(l.cancel(), Err(Error::WrongPhase));
    assert_eq!(l.finish_vote(&tie_reactions()).unwrap_err(), Error::WrongPhase);

    let mut l = full_lobby();
    l.start(1).unwrap();
    let before = l.queue.members.clone();
    assert_eq!(l.join(11), Err(Error::WrongPhase));
    assert_eq!(l.leave(1), Err(Error::WrongPhase));
    assert_eq!(l.kick(1), Err(Error::WrongPhase));
    assert_eq!(l.clear(), Err(Error::WrongPhase));
    assert_eq!(l.recover_queue(&vec![1]).unwrap_err(), Error::WrongPhase);
    assert_eq!(l.start(1).unwrap_err(), Error::WrongPhase);
    assert_eq!(l.claim_captain(1).unwrap_err(), Error::WrongPhase);
    assert!(!l.autoclear());
    assert_eq!(l.queue.members, before);
    assert_eq!(l.session.phase, Phase::MapVote);
}

#[test]
fn captain_claims() {
    let mut l = full_lobby();
    l.start(1).unwrap();
    l.conclude_vote(&tie_reactions(), 1).unwrap();
    assert_eq!(l.session.phase, Phase::CaptainPick);
    assert_eq!(l.claim_captain(11), Err(Error::NotQueued));
    assert_eq!(l.claim_captain(4), Ok(Team::A));
    assert_eq!(l.claim_captain(4), Err(Error::AlreadyCaptain));
    assert_eq!(l.session.team_a, vec![4]);
    assert_eq!(l.claim_captain(6), Ok(Team::B));
    assert_eq!(l.session.phase, Phase::Draft);
    assert_eq!(l.session.current_picker, Some(4));
    assert_eq!(l.session.team_b, vec![6]);
}

#[test]
fn pick_by_other_captain_fails_wrong_turn() {
    let mut l = drafting_lobby();
    assert_eq!(l.pick(2, 5), Err(Error::WrongTurn));
    assert_eq!(l.session.team_a, vec![1]);
    assert_eq!(l.session.team_b, vec![2]);
    assert_eq!(l.session.current_picker, Some(1));
    assert_eq!(l.pick(1, 5), Ok(Pick { team: Team::A, remaining: 7 }));
    assert_eq!(l.pick(1, 6), Err(Error::WrongTurn));
    assert_eq!(l.session.team_a, vec![1, 5]);
}

#[test]
fn pick_errors() {
    let mut l = drafting_lobby();
    assert_eq!(l.pick(7, 5), Err(Error::NotCaptain));
    assert_eq!(l.pick(1, 11), Err(Error::NotQueued));
    assert_eq!(l.pick(1, 2), Err(Error::AlreadyPicked));
    assert_eq!(l.pick(1, 1), Err(Error::AlreadyPicked));
    assert_eq!(l.unpicked(), vec![3, 4, 5, 6, 7, 8, 9, 10]);
}

#[test]
fn last_pick_moves_to_side_pick() {
    let mut l = drafting_lobby();
    let mut turn_a = true;
    for target in 3..=10u64 {
        let actor = if turn_a { 1 } else { 2 };
        let p = l.pick(actor, target).unwrap();
        assert_eq!(p.remaining, (10 - target) as usize);
        if p.remaining > 0 {
            assert_eq!(l.session.phase, Phase::Draft);
        } else {
            assert_eq!(l.session.phase, Phase::SidePick);
        }
        turn_a = !turn_a;
    }
    assert_eq!(l.session.team_a, vec![1, 3, 5, 7, 9]);
    assert_eq!(l.session.team_b, vec![2, 4, 6, 8, 10]);
}

#[test]
fn only_captain_b_chooses_side() {
    let mut l = side_pick_lobby();
    assert_eq!(l.choose_side(1, Side::Defense), Err(Error::NotCaptainB));
    assert_eq!(l.session.phase, Phase::SidePick);
    assert_eq!(l.choose_side(2, Side::Defense), Ok(()));
    assert_eq!(l.session.starting_side, Some(Side::Defense));
    assert_eq!(l.session.phase, Phase::Ready);
}

#[test]
fn end_to_end_setup() {
    let mut l = full_lobby();
    let options = l.start(3).unwrap();
    assert_eq!(options, vec![String::from("Mirage"), String::from("Inferno")]);
    assert_eq!(l.session.phase, Phase::MapVote);
    let choice = l.finish_vote(&tie_reactions()).unwrap();
    assert!(choice.tie_broken);
    assert!(choice.map == "Mirage" || choice.map == "Inferno");
    assert_eq!(l.session.phase, Phase::CaptainPick);
    l.claim_captain(1).unwrap();
    l.claim_captain(2).unwrap();
    assert_eq!(l.session.phase, Phase::Draft);
    assert_eq!(l.session.current_picker, Some(1));
    let mut turn_a = true;
    for target in 3..=10u64 {
        let actor = if turn_a { 1 } else { 2 };
        l.pick(actor, target).unwrap();
        turn_a = !turn_a;
    }
    assert_eq!(l.session.phase, Phase::SidePick);
    l.choose_side(2, Side::Attack).unwrap();
    assert_eq!(l.session.phase, Phase::Ready);
    let lineup = l.finalize().unwrap();
    assert_eq!(lineup.captain_a, 1);
    assert_eq!(lineup.captain_b, 2);
    assert_eq!(lineup.team_a, vec![1, 3, 5, 7, 9]);
    assert_eq!(lineup.team_b, vec![2, 4, 6, 8, 10]);
    assert_eq!(lineup.starting_side, Side::Attack);
    assert_eq!(l.session.phase, Phase::Queue);
    assert_eq!(l.queue.len(), 0);
    assert!(l.session.team_a.is_empty() && l.session.team_b.is_empty());
    assert_eq!(l.session.captain_a, None);
    assert_eq!(l.session.current_picker, None);
}

#[test]
fn conclude_vote_uses_draw_among_ties() {
    let mut l = full_lobby();
    l.start(1).unwrap();
    let c = l.conclude_vote(&tie_reactions(), 1).unwrap();
    assert_eq!(c.map, "Inferno");
    assert!(c.tie_broken);
    let mut l = full_lobby();
    l.start(1).unwrap();
    let rs = vec![(String::from("\u{1F1E6}"), 2), (String::from("\u{1F1E7}"), 6)];
    let c = l.conclude_vote(&rs, 0).unwrap();
    assert_eq!(c.map, "Inferno");
    assert!(!c.tie_broken);
}

#[test]
fn cancel_in_every_later_phase_resets_to_queue() {
    let mut lobbies = Vec::new();
    let mut l = full_lobby();
    l.start(1).unwrap();
    lobbies.push(l);
    let mut l = full_lobby();
    l.start(1).unwrap();
    l.conclude_vote(&tie_reactions(), 0).unwrap();
    l.claim_captain(5).unwrap();
    lobbies.push(l);
    lobbies.push(drafting_lobby());
    lobbies.push(side_pick_lobby());
    let mut l = side_pick_lobby();
    l.choose_side(2, Side::Attack).unwrap();
    lobbies.push(l);
    for mut l in lobbies {
        assert_ne!(l.session.phase, Phase::Queue);
        assert_eq!(l.cancel(), Ok(()));
        assert_eq!(l.session.phase, Phase::Queue);
        assert_eq!(l.session.captain_a, None);
        assert_eq!(l.session.captain_b, None);
        assert!(l.session.team_a.is_empty() && l.session.team_b.is_empty());
        assert_eq!(l.session.current_picker, None);
        assert_eq!(l.session.starting_side, None);
        assert_eq!(l.queue.len(), 10);
        assert_eq!(l.finalize().unwrap_err(), Error::WrongPhase);
    }
}

#[test]
fn recover_queue_rejoins_in_order() {
    let mut l = full_lobby();
    let results = l.recover_queue(&vec![4, 99, 4, 2]).unwrap();
    assert_eq!(results, vec![Ok(1), Err(Error::RiotIdMissing), Err(Error::AlreadyQueued), Ok(2)]);
    assert_eq!(l.queue.members, vec![4, 2]);
}

#[test]
fn clear_and_autoclear() {
    let mut l = full_lobby();
    assert_eq!(l.clear(), Ok(()));
    assert_eq!(l.queue.len(), 0);
    let mut l = full_lobby();
    assert!(l.autoclear());
    assert_eq!(l.queue.len(), 0);
    let mut l = drafting_lobby();
    assert!(!l.autoclear());
    assert_eq!(l.queue.len(), 10);
}

#[test]
fn map_pool_changes_in_any_phase() {
    let mut l = drafting_lobby();
    assert_eq!(l.add_map(String::from("Nuke")), Ok(()));
    assert_eq!(l.add_map(String::from("Nuke")), Err(Error::DuplicateMap));
    assert_eq!(l.remove_map(&String::from("Mirage")), Ok(()));
    assert_eq!(l.remove_map(&String::from("Dust")), Err(Error::MapNotFound));
    assert_eq!(l.maps.names, vec![String::from("Inferno"), String::from("Nuke")]);
}

#[test]
fn riot_id_shape_is_checked() {
    let mut l = lobby();
    assert_eq!(l.set_riot_id(50, "Martige#NA1"), Ok(()));
    assert_eq!(l.riot_id(50), Some(String::from("Martige#NA1")));
    assert_eq!(l.set_riot_id(51, "Martige"), Err(Error::InvalidRiotId));
    assert_eq!(l.set_riot_id(51, "#NA1"), Err(Error::InvalidRiotId));
    assert_eq!(l.riot_id(51), None);
    assert_eq!(l.join(50), Ok(1));
    assert_eq!(l.record_riot_id(52, "anything", false), Err(Error::InvalidRiotId));
    assert_eq!(l.record_riot_id(52, "anything", true), Ok(()));
}

#[test]
fn team_names() {
    let mut l = lobby();
    assert_eq!(l.team_name(1, "alice"), String::from("alice"));
    assert_eq!(l.set_team_name(1, "Eighteen bytes 123"), Ok(()));
    assert_eq!(l.team_name(1, "alice"), String::from("Eighteen bytes 123"));
    assert_eq!(l.set_team_name(1, "Nineteen bytes 1234"), Err(Error::TeamNameTooLong));
    assert_eq!(l.set_team_name(1, ""), Err(Error::MissingArgument));
    assert_eq!(l.team_name(1, "alice"), String::from("Eighteen bytes 123"));
}
