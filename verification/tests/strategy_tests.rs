use etoro_backend::strategy::combine_votes;
use etoro_backend::strategy::signal_for;
use etoro_backend::strategy::Signal;
use etoro_backend::strategy::MIN_SIGNAL_PRICES;

#[test]
fn three_buy_votes_give_buy() {
    assert_eq!(combine_votes([1, 1, 1, 0]), Signal::Buy);
    assert_eq!(combine_votes([1, 1, 1, 1]), Signal::Buy);
    assert_eq!(combine_votes([1, -1, 1, 1]), Signal::Buy);
}

#[test]
fn three_sell_votes_give_sell() {
    assert_eq!(combine_votes([-1, -1, 0, -1]), Signal::Sell);
    assert_eq!(combine_votes([-1, -1, -1, -1]), Signal::Sell);
}

#[test]
fn two_votes_are_not_enough() {
    assert_eq!(combine_votes([1, 1, 0, 0]), Signal::Hold);
    assert_eq!(combine_votes([1, 1, -1, -1]), Signal::Hold);
    assert_eq!(combine_votes([0, 0, 0, 0]), Signal::Hold);
    assert_eq!(combine_votes([-1, -1, 1, 0]), Signal::Hold);
}

#[test]
fn macd_needs_thirty_five_prices() {
    assert_eq!(MIN_SIGNAL_PRICES, 35);
}

#[test]
fn test_hold_insufficient_data() {
    assert_eq!(signal_for(10, [1, 1, 1, 1]), Signal::Hold);
    assert_eq!(signal_for(34, [1, 1, 1, 1]), Signal::Hold);
    assert_eq!(signal_for(35, [1, 1, 1, 1]), Signal::Buy);
    assert_eq!(signal_for(35, [-1, -1, -1, 0]), Signal::Sell);
}
