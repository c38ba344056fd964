use scrim_bot::vote::{
    resolve, resolve_at_random, tally_reactions, tied_options, token_index, vote_letter, vote_token,
    VoteOutcome,
};

#[test]
fn tokens_are_regional_indicators() {
    assert_eq!(vote_token(0), '\u{1F1E6}');
    assert_eq!(vote_token(25), '\u{1F1FF}');
    assert_eq!(vote_letter(0), 'a');
    assert_eq!(vote_letter(2), 'c');
    assert_eq!(vote_letter(25), 'z');
    assert_eq!(token_index("\u{1F1E6}"), Some(0));
    assert_eq!(token_index("\u{1F1E8}"), Some(2));
    assert_eq!(token_index("\u{1F1FF}"), Some(25));
    assert_eq!(token_index("a"), None);
    assert_eq!(token_index("\u{1F1E6}\u{1F1E6}"), None);
    assert_eq!(token_index(""), None);
}

#[test]
fn tally_maps_tokens_to_options() {
    let rs = vec![
        (String::from("\u{1F1E7}"), 4u64),
        (String::from("\u{1F44D}"), 9u64),
        (String::from("\u{1F1E6}"), 2u64),
        (String::from("\u{1F1FA}"), 7u64),
    ];
    assert_eq!(tally_reactions(3, &rs), vec![2, 4, 0]);
    assert_eq!(tally_reactions(0, &rs), Vec::<u64>::new());
}

#[test]
fn tally_later_reaction_overrides() {
    let rs = vec![(String::from("\u{1F1E6}"), 4u64), (String::from("\u{1F1E6}"), 1u64)];
    assert_eq!(tally_reactions(1, &rs), vec![1]);
}

#[test]
fn tie_set_of_three_three_one() {
    let counts = vec![3u64, 3, 1];
    assert_eq!(tied_options(&counts), vec![0, 1]);
    assert_eq!(resolve(&counts, 0), VoteOutcome { winner: 0, tie_broken: true });
    assert_eq!(resolve(&counts, 1), VoteOutcome { winner: 1, tie_broken: true });
    assert_eq!(resolve(&counts, 2), VoteOutcome { winner: 0, tie_broken: true });
}

#[test]
fn random_tie_break_is_among_leaders_and_roughly_uniform() {
    let counts = vec![3u64, 3, 1];
    let mut hits = [0usize; 3];
    for _ in 0..2000 {
        let r = resolve_at_random(&counts);
        assert!(r.tie_broken);
        hits[r.winner] += 1;
    }
    assert_eq!(hits[2], 0);
    assert!(hits[0] > 800 && hits[1] > 800);
}

#[test]
fn all_zero_tally_still_yields_one_winner() {
    let counts = vec![0u64, 0, 0];
    assert_eq!(tied_options(&counts), vec![0, 1, 2]);
    let r = resolve_at_random(&counts);
    assert!(r.winner < 3);
    assert!(r.tie_broken);
}

#[test]
fn clear_winner_is_not_tie_broken() {
    let counts = vec![1u64, 5, 2];
    assert_eq!(resolve(&counts, 7), VoteOutcome { winner: 1, tie_broken: false });
    let r = resolve_at_random(&counts);
    assert_eq!(r, VoteOutcome { winner: 1, tie_broken: false });
}
