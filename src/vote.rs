//! Vote tokens, the tally of a vote and its resolution with a random tie-break.

use vstd::prelude::*;

verus! {

/// The code point of the first vote token, REGIONAL INDICATOR SYMBOL LETTER A.
pub const FIRST_TOKEN: u32 = 0x1F1E6;

/// How many distinct vote tokens there are: one per letter.
pub const TOKEN_COUNT: usize = 26;

/// The reaction emoji that stands for option `i` in a vote.
pub fn vote_token(i: usize) -> (r: char)
    requires
        i < TOKEN_COUNT,
    ensures
        r as u32 == FIRST_TOKEN + i,
{
    match i {
        0 => '\u{1F1E6}',
        1 => '\u{1F1E7}',
        2 => '\u{1F1E8}',
        3 => '\u{1F1E9}',
        4 => '\u{1F1EA}',
        5 => '\u{1F1EB}',
        6 => '\u{1F1EC}',
        7 => '\u{1F1ED}',
        8 => '\u{1F1EE}',
        9 => '\u{1F1EF}',
        10 => '\u{1F1F0}',
        11 => '\u{1F1F1}',
        12 => '\u{1F1F2}',
        13 => '\u{1F1F3}',
        14 => '\u{1F1F4}',
        15 => '\u{1F1F5}',
        16 => '\u{1F1F6}',
        17 => '\u{1F1F7}',
        18 => '\u{1F1F8}',
        19 => '\u{1F1F9}',
        20 => '\u{1F1FA}',
        21 => '\u{1F1FB}',
        22 => '\u{1F1FC}',
        23 => '\u{1F1FD}',
        24 => '\u{1F1FE}',
        _ => '\u{1F1FF}',
    }
}


/// The lower-case letter that names option `i` in the published option list.
pub fn vote_letter(i: usize) -> (r: char)
    requires
        i < TOKEN_COUNT,
    ensures
        r as u32 == 'a' as u32 + i,
{
    let b: u8 = 97u8 + i as u8;
    b as char
}

/// The option that a reaction stands for, if it is one of the vote tokens.
pub open spec fn token_index_of(t: Seq<char>) -> Option<nat> {
    if t.len() == 1 && FIRST_TOKEN <= t[0] as u32 && (t[0] as u32) < FIRST_TOKEN + TOKEN_COUNT {
        Some((t[0] as u32 - FIRST_TOKEN) as nat)
    } else {
        None
    }
}

pub fn token_index(t: &str) -> (r: Option<usize>)
    ensures
        r matches Some(i) ==> token_index_of(t@) == Some(i as nat),
        r is None ==> token_index_of(t@) is None,
{
    if t.unicode_len() != 1 {
        return None;
    }
    let c = t.get_char(0);
    let v = c as u32;
    if FIRST_TOKEN <= v && v < FIRST_TOKEN + 26 {
        Some((v - FIRST_TOKEN) as usize)
    } else {
        None
    }
}

/// The count of each of `n` options after the reactions `rs` were read back:
/// each reaction sets the count of the option its token stands for, a later
/// reaction for the same token overrides an earlier one, and a reaction
/// that stands for no option is ignored. An option with no reaction counts 0.
pub open spec fn tally(n: nat, rs: Seq<(String, u64)>) -> Seq<u64>
    decreases rs.len(),
{
    if rs.len() == 0 {
        Seq::new(n, |i: int| 0u64)
    } else {
        let before = tally(n, rs.drop_last());
        match token_index_of(rs.last().0@) {
            Some(i) => if i < n {
                before.update(i as int, rs.last().1)
            } else {
                before
            },
            None => before,
        }
    }
}

/// A tally over `n` options holds `n` counts.
pub proof fn lemma_tally_len(n: nat, rs: Seq<(String, u64)>)
    ensures
        tally(n, rs).len() == n,
    decreases rs.len(),
{
    if rs.len() > 0 {
        lemma_tally_len(n, rs.drop_last());
    }
}

/// The count per option, in option order, from the reactions read back at
/// the end of a vote over `n` options.
pub fn tally_reactions(n: usize, rs: &Vec<(String, u64)>) -> (r: Vec<u64>)
    ensures
        r@ == tally(n as nat, rs@),
{
    let mut counts: Vec<u64> = Vec::new();
    let mut j: usize = 0;
    while j < n
        invariant
            j <= n,
            counts@ == Seq::new(j as nat, |i: int| 0u64),
        decreases n - j,
    {
        counts.push(0);
        j = j + 1;
        assert(counts@ =~= Seq::new(j as nat, |i: int| 0u64));
    }
    let mut k: usize = 0;
    while k < rs.len()
        invariant
            k <= rs@.len(),
            counts@ == tally(n as nat, rs@.subrange(0, k as int)),
        decreases rs@.len() - k,
    {
        proof {
            lemma_tally_len(n as nat, rs@.subrange(0, k as int));
            assert(rs@.subrange(0, k + 1).drop_last() =~= rs@.subrange(0, k as int));
        }
        match token_index(rs[k].0.as_str()) {
            Some(i) => {
                if i < n {
                    counts.set(i, rs[k].1);
                }
            },
            None => {},
        }
        k = k + 1;
    }
    assert(rs@.subrange(0, rs@.len() as int) =~= rs@);
    counts
}

/// The largest count, 0 for no counts.
pub open spec fn seq_max(s: Seq<u64>) -> u64
    decreases s.len(),
{
    if s.len() == 0 {
        0
    } else {
        let m = seq_max(s.drop_last());
        if s.last() > m {
            s.last()
        } else {
            m
        }
    }
}

/// The positions of `s` that hold `m`, in increasing order.
pub open spec fn positions_of(s: Seq<u64>, m: u64) -> Seq<usize>
    decreases s.len(),
{
    if s.len() == 0 {
        Seq::empty()
    } else if s.last() == m {
        positions_of(s.drop_last(), m).push((s.len() - 1) as usize)
    } else {
        positions_of(s.drop_last(), m)
    }
}

/// The options tied at the largest count.
pub open spec fn tie_set(counts: Seq<u64>) -> Seq<usize> {
    positions_of(counts, seq_max(counts))
}

/// No count exceeds the largest, and a non-empty sequence holds it.
pub proof fn lemma_seq_max(s: Seq<u64>)
    ensures
        forall|i: int| 0 <= i < s.len() ==> s[i] <= seq_max(s),
        s.len() > 0 ==> s.contains(seq_max(s)),
    decreases s.len(),
{
    if s.len() > 0 {
        let t = s.drop_last();
        lemma_seq_max(t);
        assert forall|i: int| 0 <= i < s.len() implies s[i] <= seq_max(s) by {
            if i < s.len() - 1 {
                assert(s[i] == t[i]);
            }
        }
        if s.last() <= seq_max(t) && t.len() > 0 {
            let k = choose|k: int| 0 <= k < t.len() && t[k] == seq_max(t);
            assert(s[k] == seq_max(s));
        }
        if t.len() == 0 {
            assert(s[0] == seq_max(s));
        }
    }
}

/// The positions holding `m` are exactly the indices of `s` whose value is
/// `m`, strictly increasing.
pub proof fn lemma_positions_of(s: Seq<u64>, m: u64)
    requires
        s.len() <= usize::MAX,
    ensures
        forall|k: int|
            0 <= k < positions_of(s, m).len() ==> (positions_of(s, m)[k] as int) < s.len()
                && s[positions_of(s, m)[k] as int] == m,
        forall|i: int| 0 <= i < s.len() && s[i] == m ==> positions_of(s, m).contains(i as usize),
        forall|a: int, b: int|
            0 <= a < b < positions_of(s, m).len() ==> positions_of(s, m)[a] < positions_of(
                s,
                m,
            )[b],
    decreases s.len(),
{
    if s.len() > 0 {
        let t = s.drop_last();
        lemma_positions_of(t, m);
        let p = positions_of(t, m);
        assert forall|k: int| 0 <= k < p.len() implies s[p[k] as int] == m by {
            assert(s[p[k] as int] == t[p[k] as int]);
        }
        assert forall|i: int| 0 <= i < s.len() && s[i] == m implies positions_of(s, m).contains(
            i as usize,
        ) by {
            if i < s.len() - 1 {
                assert(t[i] == m);
                let k = choose|k: int| 0 <= k < p.len() && p[k] == i as usize;
                if s.last() == m {
                    assert(positions_of(s, m)[k] == i as usize);
                }
            } else {
                assert(positions_of(s, m).last() == i as usize);
            }
        }
    }
}

/// Every vote over at least one option has at least one option tied at the
/// top, each of them a valid option holding the largest count.
pub proof fn lemma_tie_set(counts: Seq<u64>)
    requires
        0 < counts.len() <= usize::MAX,
    ensures
        tie_set(counts).len() > 0,
        forall|k: int|
            0 <= k < tie_set(counts).len() ==> (tie_set(counts)[k] as int) < counts.len()
                && counts[tie_set(counts)[k] as int] == seq_max(counts),
        forall|i: int|
            0 <= i < counts.len() ==> counts[i] <= seq_max(counts) && (counts[i] == seq_max(
                counts,
            ) <==> tie_set(counts).contains(i as usize)),
{
    lemma_seq_max(counts);
    lemma_positions_of(counts, seq_max(counts));
    let i = counts.index_of(seq_max(counts));
    counts.index_of_first_ensures(seq_max(counts));
    assert(tie_set(counts).contains(i as usize));
    assert forall|i: int|
        0 <= i < counts.len() && tie_set(counts).contains(i as usize) implies counts[i] == seq_max(
        counts,
    ) by {
        let k = choose|k: int| 0 <= k < tie_set(counts).len() && tie_set(counts)[k] == i as usize;
    }
}

/// When no option got a vote every option ties at the top, so the random
/// tie-break runs over the whole pool and still settles on one option.
pub proof fn law_all_zero_votes_tie_everything(counts: Seq<u64>)
    requires
        0 < counts.len() <= usize::MAX,
        forall|i: int| 0 <= i < counts.len() ==> counts[i] == 0,
    ensures
        seq_max(counts) == 0,
        tie_set(counts).len() > 0,
        forall|i: usize| 0 <= i < counts.len() ==> #[trigger] tie_set(counts).contains(i),
{
    lemma_tie_set(counts);
    lemma_seq_max(counts);
    let k = choose|k: int| 0 <= k < counts.len() && counts[k] == seq_max(counts);
    assert forall|i: usize| 0 <= i < counts.len() implies #[trigger] tie_set(counts).contains(
        i,
    ) by {
        assert(counts[i as int] == seq_max(counts));
    }
}

/// The options tied at the largest count, in option order.
pub fn tied_options(counts: &Vec<u64>) -> (r: Vec<usize>)
    ensures
        r@ == tie_set(counts@),
{
    let mut m: u64 = 0;
    let mut i: usize = 0;
    while i < counts.len()
        invariant
            i <= counts@.len(),
            m == seq_max(counts@.subrange(0, i as int)),
        decreases counts@.len() - i,
    {
        assert(counts@.subrange(0, i + 1).drop_last() =~= counts@.subrange(0, i as int));
        if counts[i] > m {
            m = counts[i];
        }
        i = i + 1;
    }
    assert(counts@.subrange(0, counts@.len() as int) =~= counts@);
    let mut r: Vec<usize> = Vec::new();
    let mut j: usize = 0;
    while j < counts.len()
        invariant
            j <= counts@.len(),
            m == seq_max(counts@),
            r@ == positions_of(counts@.subrange(0, j as int), m),
        decreases counts@.len() - j,
    {
        assert(counts@.subrange(0, j + 1).drop_last() =~= counts@.subrange(0, j as int));
        if counts[j] == m {
            r.push(j);
        }
        j = j + 1;
    }
    r
}

/// How a vote ended: the winning option and whether a tie was broken at
/// random to get it.
#[derive(Debug, Clone, Copy, PartialEq, Eq, Structural)]
pub struct VoteOutcome {
    pub winner: usize,
    pub tie_broken: bool,
}

/// Settles a vote given its counts and a draw, an index into the tie set
/// taken modulo its size: with a single top option the draw plays no part.
/// The winner always holds the largest count.
pub fn resolve(counts: &Vec<u64>, draw: usize) -> (r: VoteOutcome)
    requires
        counts@.len() > 0,
    ensures
        r.winner == tie_set(counts@)[(draw as int) % (tie_set(counts@).len() as int)],
        r.tie_broken == (tie_set(counts@).len() > 1),
        r.winner < counts@.len(),
        counts@[r.winner as int] == seq_max(counts@),
        forall|i: int| 0 <= i < counts@.len() ==> #[trigger] counts@[i] <= counts@[r.winner as int],
{
    let ties = tied_options(counts);
    // a Vec's length fits in usize, as the tie-set lemma needs
    let _n = counts.len();
    proof {
        lemma_tie_set(counts@);
    }
    let k = draw % ties.len();
    VoteOutcome { winner: ties[k], tie_broken: ties.len() > 1 }
}

/// Relies on rand::Rng::gen_range on rand::thread_rng: a value drawn from
/// [0, n), which panics on an empty range.
#[verifier::external_body]
pub(crate) fn random_below(n: usize) -> (r: usize)
    requires
        n > 0,
    ensures
        r < n,
{
    rand::Rng::gen_range(&mut rand::thread_rng(), 0, n)
}

/// Settles a vote, breaking a tie uniformly at random. The winner always
/// holds the largest count and is one of the tied options.
pub fn resolve_at_random(counts: &Vec<u64>) -> (r: VoteOutcome)
    requires
        counts@.len() > 0,
    ensures
        tie_set(counts@).contains(r.winner),
        r.tie_broken == (tie_set(counts@).len() > 1),
        r.winner < counts@.len(),
        counts@[r.winner as int] == seq_max(counts@),
{
    // a Vec's length fits in usize, as the tie-set lemma needs
    let _n = counts.len();
    proof {
        lemma_tie_set(counts@);
    }
    let ties = tied_options(counts);
    let draw = random_below(ties.len());
    let r = resolve(counts, draw);
    assert(tie_set(counts@)[(draw % ties.len()) as int] == r.winner);
    r
}

} // verus!
