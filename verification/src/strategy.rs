use vstd::prelude::*;

verus! {

/// What the strategy recommends for an instrument.
#[derive(Debug, Clone, Copy, PartialEq, Eq, Structural)]
pub enum Signal {
    Buy,
    Sell,
    Hold,
}

/// Fewest prices for which a composite signal is computed (MACD needs 26 + 9).
pub const MIN_SIGNAL_PRICES: usize = 35;

/// Number of votes equal to `v`.
pub open spec fn vote_count(votes: Seq<i8>, v: i8) -> nat
    decreases votes.len(),
{
    if votes.len() == 0 {
        0
    } else {
        vote_count(votes.drop_last(), v) + (if votes.last() == v { 1nat } else { 0nat })
    }
}

/// The signal that a set of indicator votes (+1 buy, -1 sell, 0 neutral) yields:
/// a side wins only when at least three indicators agree on it.
pub open spec fn signal_of_votes(votes: Seq<i8>) -> Signal {
    if vote_count(votes, 1i8) >= 3 {
        Signal::Buy
    } else if vote_count(votes, -1i8) >= 3 {
        Signal::Sell
    } else {
        Signal::Hold
    }
}

proof fn lemma_vote_counts_bounded(votes: Seq<i8>, a: i8, b: i8)
    requires
        a != b,
    ensures
        vote_count(votes, a) + vote_count(votes, b) <= votes.len(),
    decreases votes.len(),
{
    if votes.len() > 0 {
        lemma_vote_counts_bounded(votes.drop_last(), a, b);
    }
}

/// Of four votes, a side that at least three indicators vote for wins,
/// whatever the remaining vote; when neither side has three votes the
/// signal is `Hold`.
pub proof fn lemma_majority_decides(votes: Seq<i8>)
    requires
        votes.len() == 4,
    ensures
        vote_count(votes, 1i8) >= 3 ==> signal_of_votes(votes) == Signal::Buy,
        vote_count(votes, -1i8) >= 3 ==> signal_of_votes(votes) == Signal::Sell,
        vote_count(votes, 1i8) < 3 && vote_count(votes, -1i8) < 3 ==> signal_of_votes(votes)
            == Signal::Hold,
{
    lemma_vote_counts_bounded(votes, 1i8, -1i8);
}

/// Combines the votes of the four indicators (RSI, EMA cross, Bollinger, MACD):
/// `Buy` when at least three vote +1, else `Sell` when at least three vote -1,
/// else `Hold`.
pub fn combine_votes(votes: [i8; 4]) -> (s: Signal)
    ensures
        s == signal_of_votes(votes@),
        vote_count(votes@, 1i8) >= 3 ==> s == Signal::Buy,
        vote_count(votes@, -1i8) >= 3 ==> s == Signal::Sell,
        vote_count(votes@, 1i8) < 3 && vote_count(votes@, -1i8) < 3 ==> s == Signal::Hold,
{
    proof {
        lemma_majority_decides(votes@);
    }
    let mut buy_count: usize = 0;
    let mut sell_count: usize = 0;
    let mut i: usize = 0;
    while i < 4
        invariant
            i <= 4,
            buy_count <= i,
            sell_count <= i,
            buy_count == vote_count(votes@.take(i as int), 1i8),
            sell_count == vote_count(votes@.take(i as int), -1i8),
        decreases 4 - i,
    {
        assert(votes@.take(i + 1).drop_last() =~= votes@.take(i as int));
        if votes[i] == 1 {
            buy_count = buy_count + 1;
        } else if votes[i] == -1 {
            sell_count = sell_count + 1;
        }
        i = i + 1;
    }
    assert(votes@.take(4) =~= votes@);
    if buy_count >= 3 {
        Signal::Buy
    } else if sell_count >= 3 {
        Signal::Sell
    } else {
        Signal::Hold
    }
}

/// The composite signal for a window of `price_count` prices whose
/// indicators voted `votes`: `Hold` below `MIN_SIGNAL_PRICES` prices, else
/// the three-out-of-four vote.
pub fn signal_for(price_count: usize, votes: [i8; 4]) -> (s: Signal)
    ensures
        s == (if price_count < MIN_SIGNAL_PRICES {
            Signal::Hold
        } else {
            signal_of_votes(votes@)
        }),
        price_count < 35 ==> s == Signal::Hold,
        price_count >= 35 && vote_count(votes@, 1i8) >= 3 ==> s == Signal::Buy,
        price_count >= 35 && vote_count(votes@, -1i8) >= 3 ==> s == Signal::Sell,
        vote_count(votes@, 1i8) < 3 && vote_count(votes@, -1i8) < 3 ==> s == Signal::Hold,
{
    proof {
        lemma_majority_decides(votes@);
    }
    if price_count < MIN_SIGNAL_PRICES {
        Signal::Hold
    } else {
        combine_votes(votes)
    }
}

} // verus!
