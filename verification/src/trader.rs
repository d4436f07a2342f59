use std::collections::HashMap;
use std::collections::VecDeque;

use vstd::prelude::*;

use crate::strategy::Signal;
use crate::text::same_text;
use vstd::std_specs::iter::IteratorSpec;

verus! {

/// A position that the bot believes is open on an instrument. Needed because
/// the demo portfolio often reports no position right after an opening, so the
/// bot keeps its own record and reconciles it when the portfolio answers.
#[derive(Debug, Clone, Copy)]
pub struct TrackedPosition<P> {
    /// `true` for a long, `false` for a short.
    pub is_buy: bool,
    /// Entry price (ask for a long, bid for a short).
    pub entry: P,
    /// `true` once the switch of the stop-loss to trailing was accepted.
    pub tsl_activated: bool,
}

/// The state of the trading bot. `P` is the price type; the bot stores and
/// hands back prices but never computes with them.
pub struct Trader<P> {
    /// `instrument_id` -> symbol
    instruments: HashMap<i64, String>,
    /// `instrument_id` -> sliding window of ask prices
    price_windows: HashMap<i64, VecDeque<P>>,
    amount: P,
    leverage: i64,
    window_size: usize,
    /// Consecutive confirmations per instrument: positive for accumulated
    /// `Buy` signals, negative for `Sell` signals.
    confirm_counts: HashMap<i64, i8>,
    /// Consecutive confirmations required before acting.
    confirm_required: i8,
    /// Profit (%) from which the stop-loss is switched to trailing.
    tsl_trigger_pct: P,
    /// Gap (%) between the current price and the trailing stop-loss.
    tsl_gap_pct: P,
    /// Whether a confirmed `Sell` may open a short.
    allow_short: bool,
    /// Positions opened by the bot, by instrument.
    open_tracks: HashMap<i64, TrackedPosition<P>>,
}

/// A position as reported by the portfolio.
#[derive(Debug, Clone, Copy)]
pub struct PortfolioPosition<P> {
    pub position_id: i64,
    pub instrument_id: i64,
    pub is_buy: bool,
    pub open_rate: P,
    pub is_tsl_enabled: bool,
}

/// A market order opening a position, as the broker's API takes it.
#[derive(Debug, Clone, Copy)]
pub struct OpenOrder<P> {
    pub instrument_id: i64,
    pub is_buy: bool,
    pub leverage: i64,
    /// Cash amount (orders give an amount or units, not both).
    pub amount: Option<P>,
    pub units: Option<P>,
    pub stop_loss_rate: Option<P>,
    pub take_profit_rate: Option<P>,
    pub is_tsl_enabled: Option<bool>,
    /// `true`: no take-profit, the winners run.
    pub is_no_take_profit: Option<bool>,
}

/// A market order closing a position: `units_to_deduct` is `None` for a
/// total close.
#[derive(Debug, Clone, Copy)]
pub struct CloseOrder<P> {
    pub instrument_id: i64,
    pub units_to_deduct: Option<P>,
}

/// What the bot does about the trailing stop of an instrument.
#[derive(Debug, Clone, Copy, PartialEq, Eq, Structural)]
pub enum TrailingStep {
    /// No switch pending, or the profit threshold is not reached.
    Skip,
    /// The switch is due but the position id is not known this tick (empty
    /// portfolio): try again at the next tick.
    PositionUnknown,
    /// Switch the stop-loss of this position to trailing.
    Switch { position_id: i64 },
}

/// What the bot does about an instrument once its signal is counted.
#[derive(Debug, Clone, Copy)]
pub enum Decision<P> {
    /// No signal is confirmed: nothing to do.
    Wait,
    /// Already positioned in the direction of the confirmed signal.
    AlreadyPositioned,
    /// The confirmed signal opposes the tracked position: close this position.
    Close { position_id: i64 },
    /// The confirmed signal opposes the tracked position, but its id is not
    /// known this tick (empty portfolio): try again at the next tick.
    CloseDeferred,
    /// A `Sell` is confirmed, no position is open, and shorts are not allowed.
    ShortsDisabled,
    /// No position is open: open one in the direction of the signal, at
    /// `entry` (ask for a long, bid for a short).
    Open { is_buy: bool, entry: P },
}

/// A window grown by one price, with its oldest price dropped when it has
/// grown past `size`.
pub open spec fn capped<P>(w: Seq<P>, size: nat) -> Seq<P> {
    if w.len() > size {
        w.drop_first()
    } else {
        w
    }
}

/// The confirmation count after one more signal: a `Buy` extends a run of
/// buys (saturating at `i8::MAX`) or restarts it at 1, a `Sell` extends a run
/// of sells (saturating at `i8::MIN`) or restarts it at -1, a `Hold` resets it.
pub open spec fn next_count(c: i8, s: Signal) -> i8 {
    match s {
        Signal::Buy => if c >= 0 {
            if c == i8::MAX { c } else { (c + 1) as i8 }
        } else {
            1i8
        },
        Signal::Sell => if c <= 0 {
            if c == i8::MIN { c } else { (c - 1) as i8 }
        } else {
            -1i8
        },
        Signal::Hold => 0i8,
    }
}

/// The portfolio's positions by instrument; of two positions on one
/// instrument, the later one in the list wins.
pub open spec fn by_instrument<P>(s: Seq<PortfolioPosition<P>>) -> Map<i64, PortfolioPosition<P>>
    decreases s.len(),
{
    if s.len() == 0 {
        Map::empty()
    } else {
        by_instrument(s.drop_last()).insert(s.last().instrument_id, s.last())
    }
}

/// The record the bot adopts for a position found in the portfolio.
pub open spec fn adopted<P>(p: PortfolioPosition<P>) -> TrackedPosition<P> {
    TrackedPosition { is_buy: p.is_buy, entry: p.open_rate, tsl_activated: p.is_tsl_enabled }
}

/// The tracked positions after reconciling `tracks` with the portfolio `by`:
/// positions absent from the portfolio (closed by their stop-loss) are
/// dropped, positions on known instruments that the bot did not track
/// (opened by hand) are adopted, and the others are kept as they were.
pub open spec fn reconciled<P>(
    tracks: Map<i64, TrackedPosition<P>>,
    known: Set<i64>,
    by: Map<i64, PortfolioPosition<P>>,
) -> Map<i64, TrackedPosition<P>> {
    Map::new(
        |id: i64| by.contains_key(id) && (tracks.contains_key(id) || known.contains(id)),
        |id: i64| if tracks.contains_key(id) { tracks[id] } else { adopted(by[id]) },
    )
}


/// The tracked position on `id` whose stop-loss may still be switched to
/// trailing.
pub open spec fn trailing_candidate_of<P>(tracks: Map<i64, TrackedPosition<P>>, id: i64) -> Option<
    TrackedPosition<P>,
> {
    if tracks.contains_key(id) && !tracks[id].tsl_activated {
        Some(tracks[id])
    } else {
        None
    }
}

/// The tracked positions once the switch to trailing on `id` was accepted.
pub open spec fn with_trailing_enabled<P>(tracks: Map<i64, TrackedPosition<P>>, id: i64) -> Map<
    i64,
    TrackedPosition<P>,
> {
    if tracks.contains_key(id) {
        tracks.insert(id, TrackedPosition { tsl_activated: true, ..tracks[id] })
    } else {
        tracks
    }
}

/// The confirmation count after the signals of `history`, starting from `c`.
pub open spec fn count_after(c: i8, history: Seq<Signal>) -> i8
    decreases history.len(),
{
    if history.len() == 0 {
        c
    } else {
        next_count(count_after(c, history.drop_last()), history.last())
    }
}

/// The number of signals equal to `s` at the end of `history`.
pub open spec fn streak(history: Seq<Signal>, s: Signal) -> nat
    decreases history.len(),
{
    if history.len() == 0 || history.last() != s {
        0
    } else {
        streak(history.drop_last(), s) + 1
    }
}

/// The window `w` after pushing the prices of `prices` one by one, each
/// push as `push_price` does it on a window of capacity `size`.
pub open spec fn pushed_all<P>(w: Seq<P>, prices: Seq<P>, size: nat) -> Seq<P>
    decreases prices.len(),
{
    if prices.len() == 0 {
        w
    } else {
        capped(pushed_all(w, prices.drop_last(), size).push(prices.last()), size)
    }
}

/// The last `size` elements of `s` (all of them when `s` is shorter).
pub open spec fn last_at_most<P>(s: Seq<P>, size: nat) -> Seq<P> {
    s.subrange(if s.len() > size { s.len() - size } else { 0 }, s.len() as int)
}

/// The confirmation count tells the current run of signals: after a run of
/// `n` buys it is `min(n, 127)`, after a run of `n` sells `-min(n, 128)`, and
/// after a hold 0.
pub proof fn lemma_count_is_streak(history: Seq<Signal>)
    ensures
        count_after(0, history) == (if history.len() == 0 {
            0
        } else {
            match history.last() {
                Signal::Buy => if streak(history, Signal::Buy) < 127 { streak(history, Signal::Buy) as int } else { 127 },
                Signal::Sell => if streak(history, Signal::Sell) < 128 { -(streak(history, Signal::Sell) as int) } else { -128 },
                Signal::Hold => 0,
            }
        }),
    decreases history.len(),
{
    if history.len() > 0 {
        let h = history.drop_last();
        let s = history.last();
        lemma_count_is_streak(h);
        assert(count_after(0, history) == next_count(count_after(0, h), s));
        assert(streak(history, s) == streak(h, s) + 1);
        if h.len() > 0 {
            assert(streak(h, h.last()) >= 1);
            if h.last() != s {
                assert(streak(h, s) == 0);
            }
        } else {
            assert(streak(h, s) == 0);
        }
    }
}

/// A side is confirmed only by a run of signals: with a threshold `r >= 1`,
/// a count of at least `r` means the last `r` signals were all `Buy`, and a
/// count of at most `-r` means they were all `Sell`.
pub proof fn lemma_confirmation_needs_run(history: Seq<Signal>, r: i8)
    requires
        r >= 1,
    ensures
        count_after(0, history) >= r ==> streak(history, Signal::Buy) >= r,
        count_after(0, history) <= -r ==> streak(history, Signal::Sell) >= r,
{
    lemma_count_is_streak(history);
}

/// The sliding window always holds the last `size` prices of its former
/// contents followed by the prices pushed since, oldest first (all of them
/// while there are fewer), so it never holds more than `size` prices.
pub proof fn lemma_window_after_pushes<P>(w: Seq<P>, prices: Seq<P>, size: nat)
    requires
        w.len() <= size,
    ensures
        pushed_all(w, prices, size) == last_at_most(w + prices, size),
        pushed_all(w, prices, size).len() <= size,
    decreases prices.len(),
{
    if prices.len() == 0 {
        assert(w + prices =~= w);
        assert(last_at_most(w, size) =~= w);
    } else {
        let p = prices.drop_last();
        lemma_window_after_pushes(w, p, size);
        assert(w + prices =~= (w + p).push(prices.last()));
        assert(pushed_all(w, prices, size) =~= last_at_most(w + prices, size));
    }
}

/// A position is a candidate for the switch to trailing exactly while it is
/// tracked and not switched yet, whatever its side; once switched, it is no
/// longer a candidate, and its side and entry, and the other positions, are
/// kept.
pub proof fn lemma_trailing_switch_is_final<P>(tracks: Map<i64, TrackedPosition<P>>, id: i64)
    ensures
        trailing_candidate_of(with_trailing_enabled(tracks, id), id) is None,
        tracks.contains_key(id) ==> {
            &&& with_trailing_enabled(tracks, id)[id].is_buy == tracks[id].is_buy
            &&& with_trailing_enabled(tracks, id)[id].entry == tracks[id].entry
        },
        with_trailing_enabled(tracks, id).dom() == tracks.dom(),
        tracks.contains_key(id) ==> with_trailing_enabled(tracks, id)[id].tsl_activated,
        forall|k: i64| k != id && #[trigger] tracks.contains_key(k) ==> with_trailing_enabled(
            tracks,
            id,
        )[k] == tracks[k],
        trailing_candidate_of(tracks, id) is Some <==> tracks.contains_key(id)
            && !tracks[id].tsl_activated,
        trailing_candidate_of(tracks, id) is Some ==> trailing_candidate_of(tracks, id)->0
            == tracks[id],
{
    assert(with_trailing_enabled(tracks, id).dom() =~= tracks.dom());
}

/// After a reconciliation every tracked position is in the portfolio, every
/// portfolio position on a known instrument is tracked, a position tracked
/// before keeps its record, a position adopted from the portfolio keeps its
/// side, open rate and trailing state, nothing is tracked on an unknown
/// instrument that was not tracked before, and reconciling again with the
/// same portfolio changes nothing.
pub proof fn lemma_reconcile_laws<P>(
    tracks: Map<i64, TrackedPosition<P>>,
    known: Set<i64>,
    by: Map<i64, PortfolioPosition<P>>,
)
    ensures
        reconciled(tracks, known, by).dom().subset_of(by.dom()),
        forall|k: i64| by.contains_key(k) && known.contains(k)
            ==> #[trigger] reconciled(tracks, known, by).contains_key(k),
        forall|k: i64| tracks.contains_key(k) && by.contains_key(k)
            ==> #[trigger] reconciled(tracks, known, by)[k] == tracks[k],
        reconciled(reconciled(tracks, known, by), known, by) == reconciled(tracks, known, by),
        forall|k: i64| #[trigger] reconciled(tracks, known, by).contains_key(k) <==> by.contains_key(k)
            && (tracks.contains_key(k) || known.contains(k)),
        forall|k: i64| by.contains_key(k) && known.contains(k) && !tracks.contains_key(k)
            ==> #[trigger] reconciled(tracks, known, by)[k] == (TrackedPosition {
            is_buy: by[k].is_buy,
            entry: by[k].open_rate,
            tsl_activated: by[k].is_tsl_enabled,
        }),
{
    let once = reconciled(tracks, known, by);
    assert(reconciled(once, known, by) =~= once);
}

/// The portfolio's positions by instrument hold an instrument exactly when
/// some position is on it, and then the last position on it in the list.
pub proof fn lemma_by_instrument_is_last<P>(s: Seq<PortfolioPosition<P>>)
    ensures
        forall|k: i64| #[trigger] by_instrument(s).contains_key(k) <==> exists|i: int|
            0 <= i < s.len() && (#[trigger] s[i]).instrument_id == k,
        forall|k: i64| #[trigger] by_instrument(s).contains_key(k) ==> exists|i: int|
            0 <= i < s.len() && #[trigger] s[i] == by_instrument(s)[k] && s[i].instrument_id == k
                && forall|j: int| i < j < s.len() ==> (#[trigger] s[j]).instrument_id != k,
    decreases s.len(),
{
    if s.len() > 0 {
        let p = s.drop_last();
        lemma_by_instrument_is_last(p);
        let n = s.len() - 1;
        assert forall|k: i64| #[trigger] by_instrument(s).contains_key(k) <==> exists|i: int|
            0 <= i < s.len() && (#[trigger] s[i]).instrument_id == k by {
            assert(by_instrument(s) == by_instrument(p).insert(s[n].instrument_id, s[n]));
            if by_instrument(s).contains_key(k) && k != s[n].instrument_id {
                assert(by_instrument(p).contains_key(k));
                let i = choose|i: int| 0 <= i < p.len() && (#[trigger] p[i]).instrument_id == k;
                assert(s[i] == p[i]);
            }
            if exists|i: int| 0 <= i < s.len() && (#[trigger] s[i]).instrument_id == k {
                let i = choose|i: int| 0 <= i < s.len() && (#[trigger] s[i]).instrument_id == k;
                if i < n {
                    assert(p[i] == s[i]);
                }
            }
        }
        assert forall|k: i64| #[trigger] by_instrument(s).contains_key(k) implies exists|i: int|
            0 <= i < s.len() && #[trigger] s[i] == by_instrument(s)[k] && s[i].instrument_id == k
                && forall|j: int| i < j < s.len() ==> (#[trigger] s[j]).instrument_id != k by {
            if k == s[n].instrument_id {
                assert(s[n] == by_instrument(s)[k]);
            } else {
                assert(by_instrument(s) == by_instrument(p).insert(s[n].instrument_id, s[n]));
                assert(by_instrument(p).contains_key(k));
                assert(by_instrument(s)[k] == by_instrument(p)[k]);
                let i = choose|i: int|
                    0 <= i < p.len() && #[trigger] p[i] == by_instrument(p)[k] && p[i].instrument_id == k
                        && forall|j: int| i < j < p.len() ==> (#[trigger] p[j]).instrument_id != k;
                assert(s[i] == p[i]);
                assert forall|j: int| i < j < s.len() implies (#[trigger] s[j]).instrument_id != k by {
                    if j < n {
                        assert(s[j] == p[j]);
                    }
                }
            }
        }
    }
}

/// The id of the first search result whose full internal symbol is
/// `symbol` exactly; `None` when no result matches.
pub fn resolve_symbol(results: &Vec<(i64, String)>, symbol: &str) -> (r: Option<i64>)
    ensures
        match r {
            Some(id) => exists|k: int|
                0 <= k < results@.len() && results@[k].1@ == symbol@ && results@[k].0 == id
                    && forall|j: int| 0 <= j < k ==> #[trigger] results@[j].1@ != symbol@,
            None => forall|j: int| 0 <= j < results@.len() ==> #[trigger] results@[j].1@ != symbol@,
        },
{
    let mut i: usize = 0;
    while i < results.len()
        invariant
            i <= results@.len(),
            forall|j: int| 0 <= j < i ==> #[trigger] results@[j].1@ != symbol@,
        decreases results@.len() - i,
    {
        if same_text(results[i].1.as_str(), symbol) {
            return Some(results[i].0);
        }
        i = i + 1;
    }
    None
}

/// Collects the portfolio's positions by instrument (the later of two
/// positions on one instrument wins).
pub fn positions_by_instrument<P: Copy>(positions: &Vec<PortfolioPosition<P>>) -> (m: HashMap<
    i64,
    PortfolioPosition<P>,
>)
    ensures
        m@ == by_instrument(positions@),
{
    let mut m: HashMap<i64, PortfolioPosition<P>> = HashMap::new();
    let mut i: usize = 0;
    while i < positions.len()
        invariant
            i <= positions@.len(),
            m@ == by_instrument(positions@.take(i as int)),
        decreases positions@.len() - i,
    {
        let p = positions[i];
        assert(positions@.take(i + 1).drop_last() =~= positions@.take(i as int));
        m.insert(p.instrument_id, p);
        i = i + 1;
    }
    assert(positions@.take(positions@.len() as int) =~= positions@);
    m
}

impl<P> Trader<P> {
    /// Well-formedness: the confirmation threshold can be negated, and no
    /// window holds more than `window_size` prices.
    pub closed spec fn wf(self) -> bool {
        &&& self.confirm_required > i8::MIN
        &&& forall|id: i64| #[trigger] self.price_windows@.contains_key(id)
            ==> self.price_windows@[id]@.len() <= self.window_size
    }

    /// The known instruments and their symbols.
    pub closed spec fn symbols(self) -> Map<i64, Seq<char>> {
        self.instruments@.map_values(|s: String| s@)
    }

    /// The sliding window of ask prices of `id` (empty when none was seen).
    pub closed spec fn window(self, id: i64) -> Seq<P> {
        if self.price_windows@.contains_key(id) {
            self.price_windows@[id]@
        } else {
            Seq::empty()
        }
    }

    /// The confirmation count of `id` (0 when none was recorded).
    pub closed spec fn count(self, id: i64) -> i8 {
        if self.confirm_counts@.contains_key(id) {
            self.confirm_counts@[id]
        } else {
            0
        }
    }

    /// The positions the bot tracks, by instrument.
    pub closed spec fn tracks(self) -> Map<i64, TrackedPosition<P>> {
        self.open_tracks@
    }

    /// Capacity of the price windows.
    pub closed spec fn spec_window_size(self) -> nat {
        self.window_size as nat
    }

    /// Consecutive confirmations required before acting.
    pub closed spec fn spec_confirm_required(self) -> i8 {
        self.confirm_required
    }

    /// Whether a confirmed `Sell` may open a short.
    pub closed spec fn spec_allow_short(self) -> bool {
        self.allow_short
    }

    /// Leverage of the orders.
    pub closed spec fn spec_leverage(self) -> i64 {
        self.leverage
    }

    /// Cash amount invested per order.
    pub closed spec fn spec_amount(self) -> P {
        self.amount
    }

    /// Profit (%) from which the stop-loss is switched to trailing.
    pub closed spec fn spec_tsl_trigger_pct(self) -> P {
        self.tsl_trigger_pct
    }

    /// Gap (%) between the current price and the trailing stop-loss.
    pub closed spec fn spec_tsl_gap_pct(self) -> P {
        self.tsl_gap_pct
    }

    /// Builds the bot over the resolved instruments; `None` when no instrument
    /// was resolved (the bot does not start). Every instrument starts with an
    /// empty price window, a zero confirmation count and no tracked position.
    pub fn new(
        instruments: HashMap<i64, String>,
        amount: P,
        leverage: i64,
        window_size: usize,
        confirm_required: i8,
        tsl_trigger_pct: P,
        tsl_gap_pct: P,
        allow_short: bool,
    ) -> (r: Option<Trader<P>>)
        requires
            confirm_required > i8::MIN,
        ensures
            r is None <==> instruments@.len() == 0,
            r matches Some(t) ==> {
                &&& t.wf()
                &&& t.symbols() == instruments@.map_values(|s: String| s@)
                &&& forall|id: i64| #[trigger] t.window(id) == Seq::<P>::empty()
                &&& forall|id: i64| #[trigger] t.count(id) == 0
                &&& t.tracks() == Map::<i64, TrackedPosition<P>>::empty()
                &&& t.spec_window_size() == window_size
                &&& t.spec_confirm_required() == confirm_required
                &&& t.spec_allow_short() == allow_short
                &&& t.spec_leverage() == leverage
                &&& t.spec_amount() == amount
                &&& t.spec_tsl_trigger_pct() == tsl_trigger_pct
                &&& t.spec_tsl_gap_pct() == tsl_gap_pct
            },
    {
        if instruments.is_empty() {
            return None;
        }
        let mut price_windows: HashMap<i64, VecDeque<P>> = HashMap::new();
        let mut confirm_counts: HashMap<i64, i8> = HashMap::new();
        for id in it: instruments.keys()
            invariant
                forall|k: i64| #[trigger] price_windows@.contains_key(k) ==> price_windows@[k]@.len() == 0,
                forall|k: i64| #[trigger] confirm_counts@.contains_key(k) ==> confirm_counts@[k] == 0,
        {
            price_windows.insert(*id, VecDeque::new());
            confirm_counts.insert(*id, 0);
        }
        Some(Trader {
            instruments,
            price_windows,
            amount,
            leverage,
            window_size,
            confirm_counts,
            confirm_required,
            tsl_trigger_pct,
            tsl_gap_pct,
            allow_short,
            open_tracks: HashMap::new(),
        })
    }

    /// Everything but the windows, counts and tracked positions.
    pub open spec fn same_setup(self, other: Self) -> bool {
        &&& self.symbols() == other.symbols()
        &&& self.spec_window_size() == other.spec_window_size()
        &&& self.spec_confirm_required() == other.spec_confirm_required()
        &&& self.spec_allow_short() == other.spec_allow_short()
        &&& self.spec_leverage() == other.spec_leverage()
        &&& self.spec_amount() == other.spec_amount()
        &&& self.spec_tsl_trigger_pct() == other.spec_tsl_trigger_pct()
        &&& self.spec_tsl_gap_pct() == other.spec_tsl_gap_pct()
    }

    /// The ids of the known instruments, each once, in no particular order.
    pub fn instrument_ids(&self) -> (ids: Vec<i64>)
        ensures
            ids@.no_duplicates(),
            ids@.to_set() == self.symbols().dom(),
    {
        let mut ids: Vec<i64> = Vec::new();
        let ghost all = vstd::std_specs::hash::spec_keys_iter(&self.instruments).remaining();
        for id in it: self.instruments.keys()
            invariant
                it.seq() == all,
                ids@ == all.take(it.index()).map_values(|k: &i64| *k),
        {
            ids.push(*id);
            assert(all.take(it.index() + 1).map_values(|k: &i64| *k) =~= ids@);
        }
        assert(all.take(all.len() as int) =~= all);
        assert(ids@ =~= all.unref());
        assert(self.symbols().dom() =~= self.instruments@.dom());
        ids
    }

    /// The symbol of `id`, or the empty string for an unknown instrument.
    pub fn symbol_of(&self, id: i64) -> (s: String)
        ensures
            s@ == (if self.symbols().contains_key(id) { self.symbols()[id] } else { Seq::<char>::empty() }),
    {
        match self.instruments.get(&id) {
            Some(s) => s.clone(),
            None => String::new(),
        }
    }

    /// Appends the ask price `ask` to the sliding window of `id`, dropping the
    /// oldest price when the window outgrows `window_size`, and returns the
    /// window's prices, oldest first.
    pub fn push_price(&mut self, id: i64, ask: P) -> (prices: Vec<P>)
        where P: Copy,
        requires
            old(self).wf(),
        ensures
            final(self).wf(),
            final(self).window(id) == capped(old(self).window(id).push(ask), old(self).spec_window_size()),
            final(self).window(id) == pushed_all(old(self).window(id), seq![ask], old(self).spec_window_size()),
            prices@ == final(self).window(id),
            final(self).window(id).len() <= final(self).spec_window_size(),
            forall|k: i64| k != id ==> #[trigger] final(self).window(k) == old(self).window(k),
            forall|k: i64| #[trigger] final(self).count(k) == old(self).count(k),
            final(self).tracks() == old(self).tracks(),
            final(self).same_setup(*old(self)),
    {
        let mut w = match self.price_windows.remove(&id) {
            Some(w) => w,
            None => VecDeque::new(),
        };
        w.push_back(ask);
        if w.len() > self.window_size {
            w.pop_front();
        }
        let mut prices: Vec<P> = Vec::new();
        let mut i: usize = 0;
        while i < w.len()
            invariant
                i <= w@.len(),
                prices@ == w@.take(i as int),
            decreases w@.len() - i,
        {
            prices.push(w[i]);
            i = i + 1;
            assert(prices@ =~= w@.take(i as int));
        }
        assert(prices@ =~= w@);
        proof {
            let old_w = if old(self).price_windows@.contains_key(id) { old(self).price_windows@[id]@ } else { Seq::empty() };
            assert(seq![ask].drop_last() =~= Seq::<P>::empty());
            assert(seq![ask].last() == ask);
            assert(pushed_all(old_w, Seq::<P>::empty(), self.window_size as nat) == old_w);
            assert(pushed_all(old_w, seq![ask], self.window_size as nat) == capped(old_w.push(ask), self.window_size as nat));
        }
        self.price_windows.insert(id, w);
        prices
    }

    /// Records the strategy's signal for `id` and returns the new
    /// confirmation count.
    pub fn record_signal(&mut self, id: i64, signal: Signal) -> (count: i8)
        requires
            old(self).wf(),
        ensures
            final(self).wf(),
            count == next_count(old(self).count(id), signal),
            final(self).count(id) == count,
            forall|k: i64| k != id ==> #[trigger] final(self).count(k) == old(self).count(k),
            forall|k: i64| #[trigger] final(self).window(k) == old(self).window(k),
            final(self).tracks() == old(self).tracks(),
            final(self).same_setup(*old(self)),
    {
        let c: i8 = match self.confirm_counts.get(&id) {
            Some(c) => *c,
            None => 0,
        };
        let next: i8 = match signal {
            Signal::Buy => if c >= 0 {
                if c == i8::MAX { c } else { c + 1 }
            } else {
                1
            },
            Signal::Sell => if c <= 0 {
                if c == i8::MIN { c } else { c - 1 }
            } else {
                -1
            },
            Signal::Hold => 0,
        };
        self.confirm_counts.insert(id, next);
        next
    }

    /// The count of `id` confirms a `Buy`.
    pub open spec fn buy_confirmed(self, id: i64) -> bool {
        self.count(id) >= self.spec_confirm_required()
    }

    /// The count of `id` confirms a `Sell`.
    pub open spec fn sell_confirmed(self, id: i64) -> bool {
        self.count(id) <= -self.spec_confirm_required()
    }

    /// A `Sell` is confirmed on `id`, no `Buy` is, and no position is held.
    pub open spec fn sell_only(self, id: i64) -> bool {
        !self.buy_confirmed(id) && self.sell_confirmed(id) && !self.tracks().contains_key(id)
    }

    /// A side is confirmed on `id` and the position held there is on it.
    pub open spec fn held_on_confirmed_side(self, id: i64) -> bool {
        &&& self.buy_confirmed(id) || self.sell_confirmed(id)
        &&& self.tracks().contains_key(id)
        &&& self.tracks()[id].is_buy == self.buy_confirmed(id)
    }

    /// A side is confirmed on `id` and the position held there is against it.
    pub open spec fn held_against_confirmed_side(self, id: i64) -> bool {
        &&& self.buy_confirmed(id) || self.sell_confirmed(id)
        &&& self.tracks().contains_key(id)
        &&& self.tracks()[id].is_buy != self.buy_confirmed(id)
    }

    /// The decision on `id` given its current confirmation count, the
    /// instrument's bid and ask, and the id of its portfolio position when the
    /// portfolio reported one this tick.
    pub open spec fn decision(self, id: i64, bid: P, ask: P, position_id: Option<i64>) -> Decision<P> {
        let count = self.count(id);
        let confirmed_buy = count >= self.spec_confirm_required();
        let confirmed_sell = count <= -self.spec_confirm_required();
        let want_buy = confirmed_buy;
        if !confirmed_buy && !confirmed_sell {
            Decision::Wait
        } else if self.tracks().contains_key(id) {
            if self.tracks()[id].is_buy == want_buy {
                Decision::AlreadyPositioned
            } else {
                match position_id {
                    Some(pid) => Decision::Close { position_id: pid },
                    None => Decision::CloseDeferred,
                }
            }
        } else if !want_buy && !self.spec_allow_short() {
            Decision::ShortsDisabled
        } else {
            Decision::Open { is_buy: want_buy, entry: if want_buy { ask } else { bid } }
        }
    }

    /// Decides what to do about `id` once its signal is counted: acts only on
    /// a confirmed signal, never adds to a position held in the same
    /// direction, closes a position held against the signal, and opens a
    /// position (a short only when shorts are allowed) when none is held.
    pub fn decide(&self, id: i64, bid: P, ask: P, position_id: Option<i64>) -> (d: Decision<P>)
        requires
            self.wf(),
        ensures
            d == self.decision(id, bid, ask, position_id),
            !self.buy_confirmed(id) && !self.sell_confirmed(id) ==> (d is Wait),
            self.held_on_confirmed_side(id) ==> (d is AlreadyPositioned),
            self.held_against_confirmed_side(id) && position_id is None ==> (d is CloseDeferred),
            self.held_against_confirmed_side(id) && position_id is Some ==> d == (
            Decision::<P>::Close { position_id: position_id->0 }),
            self.buy_confirmed(id) && !self.tracks().contains_key(id) ==> d == (Decision::Open {
                is_buy: true,
                entry: ask,
            }),
            self.sell_only(id) && self.spec_allow_short() ==> d == (Decision::Open {
                is_buy: false,
                entry: bid,
            }),
            self.sell_only(id) && !self.spec_allow_short() ==> (d is ShortsDisabled),
    {
        proof {
            self.lemma_decision_cases(id, bid, ask, position_id);
        }
        let count: i8 = match self.confirm_counts.get(&id) {
            Some(c) => *c,
            None => 0,
        };
        let confirmed_buy = count >= self.confirm_required;
        let confirmed_sell = count <= -self.confirm_required;
        if !confirmed_buy && !confirmed_sell {
            return Decision::Wait;
        }
        let want_buy = confirmed_buy;
        match self.open_tracks.get(&id) {
            Some(track) => {
                if track.is_buy == want_buy {
                    Decision::AlreadyPositioned
                } else {
                    match position_id {
                        Some(pid) => Decision::Close { position_id: pid },
                        None => Decision::CloseDeferred,
                    }
                }
            },
            None => {
                if !want_buy && !self.allow_short {
                    Decision::ShortsDisabled
                } else {
                    let entry = if want_buy { ask } else { bid };
                    Decision::Open { is_buy: want_buy, entry }
                }
            },
        }
    }

    /// Records a position opened by the bot on `id` and resets its count.
    pub fn on_order_placed(&mut self, id: i64, is_buy: bool, entry: P)
        requires
            old(self).wf(),
        ensures
            final(self).wf(),
            final(self).tracks() == old(self).tracks().insert(
                id,
                TrackedPosition { is_buy, entry, tsl_activated: false },
            ),
            final(self).count(id) == 0,
            forall|k: i64| k != id ==> #[trigger] final(self).count(k) == old(self).count(k),
            forall|k: i64| #[trigger] final(self).window(k) == old(self).window(k),
            final(self).same_setup(*old(self)),
    {
        self.open_tracks.insert(id, TrackedPosition { is_buy, entry, tsl_activated: false });
        self.confirm_counts.insert(id, 0);
    }

    /// Forgets the position closed on `id` and resets its count.
    pub fn on_position_closed(&mut self, id: i64)
        requires
            old(self).wf(),
        ensures
            final(self).wf(),
            final(self).tracks() == old(self).tracks().remove(id),
            final(self).count(id) == 0,
            forall|k: i64| k != id ==> #[trigger] final(self).count(k) == old(self).count(k),
            forall|k: i64| #[trigger] final(self).window(k) == old(self).window(k),
            final(self).same_setup(*old(self)),
    {
        self.open_tracks.remove(&id);
        self.confirm_counts.insert(id, 0);
    }

    /// The tracked position on `id` whose stop-loss may still be switched to
    /// trailing: `None` when no position is tracked or the switch was already
    /// accepted.
    pub fn trailing_candidate(&self, id: i64) -> (r: Option<TrackedPosition<P>>)
        where P: Copy,
        ensures
            r == trailing_candidate_of(self.tracks(), id),
            r is Some <==> self.switch_pending(id),
            r is Some ==> r->0 == self.tracks()[id],
    {
        match self.open_tracks.get(&id) {
            Some(t) => if t.tsl_activated {
                None
            } else {
                Some(*t)
            },
            None => None,
        }
    }

    /// What to do about the trailing stop of `id` this tick, given whether
    /// the position is far enough in profit (`in_profit`) and the id of its
    /// portfolio position when the portfolio reported one.
    pub open spec fn trailing_step_of(self, id: i64, in_profit: bool, position_id: Option<i64>) -> TrailingStep {
        if trailing_candidate_of(self.tracks(), id) is None || !in_profit {
            TrailingStep::Skip
        } else {
            match position_id {
                Some(pid) => TrailingStep::Switch { position_id: pid },
                None => TrailingStep::PositionUnknown,
            }
        }
    }

    /// The switch of the stop-loss of `id` to trailing is pending: a position
    /// is tracked there and its stop-loss was not switched yet.
    pub open spec fn switch_pending(self, id: i64) -> bool {
        self.tracks().contains_key(id) && !self.tracks()[id].tsl_activated
    }

    /// The trailing step in every case, for a short as for a long: nothing
    /// when no switch is pending or the position is not far enough in
    /// profit, a retry when its id is unknown, else the switch of that
    /// position.
    pub proof fn lemma_trailing_step_cases(self, id: i64, in_profit: bool, position_id: Option<i64>)
        ensures
            !self.switch_pending(id) || !in_profit ==> (self.trailing_step_of(id, in_profit, position_id) is Skip),
            self.switch_pending(id) && in_profit && position_id is None ==> (self.trailing_step_of(id, in_profit, position_id) is PositionUnknown),
            self.switch_pending(id) && in_profit && position_id is Some ==> self.trailing_step_of(id, in_profit, position_id) == (
            TrailingStep::Switch { position_id: position_id->0 }),
    {
    }

    /// Decides the trailing-stop step for `id`: nothing when no switch is
    /// pending or the profit threshold is not reached, a retry at the next
    /// tick when the position id is unknown, else the switch of the
    /// stop-loss of that position.
    pub fn trailing_step(&self, id: i64, in_profit: bool, position_id: Option<i64>) -> (step: TrailingStep)
        ensures
            step == self.trailing_step_of(id, in_profit, position_id),
            !self.switch_pending(id) || !in_profit ==> (step is Skip),
            self.switch_pending(id) && in_profit && position_id is None ==> (step is PositionUnknown),
            self.switch_pending(id) && in_profit && position_id is Some ==> step == (
            TrailingStep::Switch { position_id: position_id->0 }),
    {
        proof {
            self.lemma_trailing_step_cases(id, in_profit, position_id);
        }
        let pending = match self.open_tracks.get(&id) {
            Some(t) => !t.tsl_activated,
            None => false,
        };
        if !pending || !in_profit {
            return TrailingStep::Skip;
        }
        match position_id {
            Some(pid) => TrailingStep::Switch { position_id: pid },
            None => TrailingStep::PositionUnknown,
        }
    }

    /// Records the broker's answer to the switch of the stop-loss on `id` to
    /// trailing: the switch is noted only when it was accepted (the answer
    /// carried an operation id).
    pub fn on_trailing_answer(&mut self, id: i64, accepted: bool)
        where P: Copy,
        requires
            old(self).wf(),
        ensures
            final(self).wf(),
            final(self).tracks() == (if accepted {
                with_trailing_enabled(old(self).tracks(), id)
            } else {
                old(self).tracks()
            }),
            forall|k: i64| #[trigger] final(self).count(k) == old(self).count(k),
            forall|k: i64| #[trigger] final(self).window(k) == old(self).window(k),
            final(self).same_setup(*old(self)),
    {
        if !accepted {
            return;
        }
        match self.open_tracks.get(&id) {
            Some(t) => {
                let updated = TrackedPosition { is_buy: t.is_buy, entry: t.entry, tsl_activated: true };
                self.open_tracks.insert(id, updated);
            },
            None => {},
        }
    }

    /// Takes in the portfolio's positions: the tracked positions are
    /// reconciled with them only when the portfolio reports at least one
    /// (the demo portfolio often reports none right after an opening), and
    /// the positions are returned by instrument.
    pub fn apply_portfolio(&mut self, positions: &Vec<PortfolioPosition<P>>) -> (by: HashMap<
        i64,
        PortfolioPosition<P>,
    >)
        where P: Copy,
        requires
            old(self).wf(),
        ensures
            final(self).wf(),
            by@ == by_instrument(positions@),
            final(self).tracks() == (if positions@.len() > 0 {
                reconciled(old(self).tracks(), old(self).symbols().dom(), by_instrument(positions@))
            } else {
                old(self).tracks()
            }),
            forall|k: i64| #[trigger] final(self).count(k) == old(self).count(k),
            forall|k: i64| #[trigger] final(self).window(k) == old(self).window(k),
            final(self).same_setup(*old(self)),
    {
        if positions.len() > 0 {
            self.reconcile(positions);
        }
        positions_by_instrument(positions)
    }

    /// Every window of a well-formed bot holds at most `window_size` prices,
    /// and the confirmation threshold can be negated.
    pub proof fn lemma_wf_bounds(self)
        requires
            self.wf(),
        ensures
            forall|id: i64| #[trigger] self.window(id).len() <= self.spec_window_size(),
            self.spec_confirm_required() > i8::MIN,
    {
    }

    /// Aligns the tracked positions with the portfolio when it reports
    /// positions: positions that left the portfolio (closed by a stop-loss on
    /// the broker's side) are dropped, and positions on known instruments that
    /// the bot did not track (opened by hand) are adopted.
    pub fn reconcile(&mut self, positions: &Vec<PortfolioPosition<P>>)
        where P: Copy,
        requires
            old(self).wf(),
        ensures
            final(self).wf(),
            final(self).tracks() == reconciled(
                old(self).tracks(),
                old(self).symbols().dom(),
                by_instrument(positions@),
            ),
            forall|k: i64| #[trigger] final(self).tracks().contains_key(k) <==> by_instrument(
                positions@,
            ).contains_key(k) && (old(self).tracks().contains_key(k) || old(self).symbols().contains_key(k)),
            forall|k: i64|
                old(self).tracks().contains_key(k) && by_instrument(positions@).contains_key(k)
                    ==> #[trigger] final(self).tracks()[k] == old(self).tracks()[k],
            forall|k: i64|
                by_instrument(positions@).contains_key(k) && old(self).symbols().contains_key(k)
                    && !old(self).tracks().contains_key(k) ==> #[trigger] final(self).tracks()[k] == (
                TrackedPosition {
                    is_buy: by_instrument(positions@)[k].is_buy,
                    entry: by_instrument(positions@)[k].open_rate,
                    tsl_activated: by_instrument(positions@)[k].is_tsl_enabled,
                }),
            forall|k: i64| #[trigger] final(self).count(k) == old(self).count(k),
            forall|k: i64| #[trigger] final(self).window(k) == old(self).window(k),
            final(self).same_setup(*old(self)),
    {
        let by = positions_by_instrument(positions);
        proof {
            lemma_reconcile_laws(self.open_tracks@, self.symbols().dom(), by@);
        }
        let ghost target = reconciled(self.open_tracks@, self.symbols().dom(), by@);
        let ghost all = vstd::std_specs::hash::spec_hash_map_iter(&by).remaining();
        proof {
            assert(self.symbols().dom() =~= self.instruments@.dom());
        }
        let mut kept: HashMap<i64, TrackedPosition<P>> = HashMap::new();
        for (id, pos) in it: by.iter()
            invariant
                it.seq() == all,
                target == reconciled(self.open_tracks@, self.instruments@.dom(), by@),
                forall|k: i64| #[trigger] kept@.contains_key(k)
                    ==> target.contains_key(k) && kept@[k] == target[k],
                forall|j: int| 0 <= j < it.index() && target.contains_key(*all[j].0)
                    ==> #[trigger] kept@.contains_key(*all[j].0),
        {
            proof {
                assert(by@.contains_key(*all[it.index()].0));
            }
            match self.open_tracks.get(id) {
                Some(t) => {
                    kept.insert(*id, *t);
                },
                None => {
                    if self.instruments.contains_key(id) {
                        let p = *pos;
                        kept.insert(
                            *id,
                            TrackedPosition { is_buy: p.is_buy, entry: p.open_rate, tsl_activated: p.is_tsl_enabled },
                        );
                    }
                },
            }
        }
        proof {
            assert forall|k: i64| target.contains_key(k) implies #[trigger] kept@.contains_key(k) by {
                assert(all.contains((&k, &by@[k])));
                let j = choose|j: int| 0 <= j < all.len() && all[j] == (&k, &by@[k]);
                assert(*all[j].0 == k);
            }
            assert(kept@ =~= target);
        }
        self.open_tracks = kept;
    }

    /// The decision in every case, stated over the count, the threshold
    /// and the tracked positions: no confirmed side waits; a position held on
    /// the confirmed side stays; a position held against it is closed (or
    /// the close is deferred while its id is unknown), for a long as for a
    /// short; with no position, a confirmed `Buy` opens a long at the ask and
    /// a confirmed `Sell` opens a short at the bid when shorts are allowed.
    pub proof fn lemma_decision_cases(self, id: i64, bid: P, ask: P, position_id: Option<i64>)
        ensures
            !self.buy_confirmed(id) && !self.sell_confirmed(id) ==> (self.decision(id, bid, ask, position_id) is Wait),
            self.held_on_confirmed_side(id) ==> (self.decision(id, bid, ask, position_id) is AlreadyPositioned),
            self.held_against_confirmed_side(id) && position_id is None ==> (self.decision(id, bid, ask, position_id) is CloseDeferred),
            self.held_against_confirmed_side(id) && position_id is Some ==> self.decision(id, bid, ask, position_id) == (
            Decision::<P>::Close { position_id: position_id->0 }),
            self.buy_confirmed(id) && !self.tracks().contains_key(id) ==> self.decision(id, bid, ask, position_id) == (Decision::Open {
                is_buy: true,
                entry: ask,
            }),
            self.sell_only(id) && self.spec_allow_short() ==> self.decision(id, bid, ask, position_id) == (Decision::Open {
                is_buy: false,
                entry: bid,
            }),
            self.sell_only(id) && !self.spec_allow_short() ==> (self.decision(id, bid, ask, position_id) is ShortsDisabled),
    {
    }

    /// The bot acts only on a confirmed signal, never adds to a position held
    /// in the same direction, opens a short only when shorts are allowed, and
    /// closes only a tracked position held against the signal whose id the
    /// portfolio reported; with a threshold of at least 1, a count reset to
    /// 0 (after an order or a close) waits for new confirmations.
    pub proof fn lemma_decision_safety(self, id: i64, bid: P, ask: P, position_id: Option<i64>)
        ensures
            !(self.decision(id, bid, ask, position_id) is Wait) ==> self.count(id)
                >= self.spec_confirm_required() || self.count(id) <= -self.spec_confirm_required(),
            self.decision(id, bid, ask, position_id) is Open ==> !self.tracks().contains_key(id),
            self.decision(id, bid, ask, position_id) matches Decision::Open { is_buy, entry } ==> {
                &&& (!is_buy ==> self.spec_allow_short())
                &&& entry == (if is_buy { ask } else { bid })
                &&& is_buy == (self.count(id) >= self.spec_confirm_required())
            },
            self.decision(id, bid, ask, position_id) matches Decision::Close { position_id: pid } ==> {
                &&& self.tracks().contains_key(id)
                &&& self.tracks()[id].is_buy != (self.count(id) >= self.spec_confirm_required())
                &&& position_id == Some(pid)
            },
            self.count(id) == 0 && self.spec_confirm_required() >= 1 ==> self.decision(
                id,
                bid,
                ask,
                position_id,
            ) is Wait,
    {
    }

    /// Cash amount invested per order.
    pub fn amount(&self) -> (a: P)
        where P: Copy,
        ensures
            a == self.spec_amount(),
    {
        self.amount
    }

    /// Leverage of the orders.
    pub fn leverage(&self) -> (l: i64)
        ensures
            l == self.spec_leverage(),
    {
        self.leverage
    }

    /// Capacity of the price windows.
    pub fn window_size(&self) -> (n: usize)
        ensures
            n == self.spec_window_size(),
    {
        self.window_size
    }

    /// Consecutive confirmations required before acting.
    pub fn confirm_required(&self) -> (r: i8)
        ensures
            r == self.spec_confirm_required(),
    {
        self.confirm_required
    }

    /// Profit (%) from which the stop-loss is switched to trailing.
    pub fn tsl_trigger_pct(&self) -> (p: P)
        where P: Copy,
        ensures
            p == self.spec_tsl_trigger_pct(),
    {
        self.tsl_trigger_pct
    }

    /// Gap (%) between the current price and the trailing stop-loss.
    pub fn tsl_gap_pct(&self) -> (p: P)
        where P: Copy,
        ensures
            p == self.spec_tsl_gap_pct(),
    {
        self.tsl_gap_pct
    }

    /// Number of positions the bot tracks.
    pub fn tracked_count(&self) -> (n: usize)
        ensures
            n == self.tracks().len(),
    {
        self.open_tracks.len()
    }

    /// The order the bot sends to open a position on `id` with the initial
    /// stop-loss `stop_loss`: by cash amount, no units, no take-profit (the
    /// exit is by trailing stop), no trailing stop at opening.
    pub fn opening_order(&self, id: i64, is_buy: bool, stop_loss: P) -> (o: OpenOrder<P>)
        where P: Copy,
        ensures
            o == (OpenOrder {
                instrument_id: id,
                is_buy,
                leverage: self.spec_leverage(),
                amount: Some(self.spec_amount()),
                units: None,
                stop_loss_rate: Some(stop_loss),
                take_profit_rate: None,
                is_tsl_enabled: None,
                is_no_take_profit: Some(true),
            }),
    {
        OpenOrder {
            instrument_id: id,
            is_buy,
            leverage: self.leverage,
            amount: Some(self.amount),
            units: None,
            stop_loss_rate: Some(stop_loss),
            take_profit_rate: None,
            is_tsl_enabled: None,
            is_no_take_profit: Some(true),
        }
    }

    /// The order the bot sends to close its position on `id`: a total close.
    pub fn closing_order(&self, id: i64) -> (o: CloseOrder<P>)
        ensures
            o == (CloseOrder::<P> { instrument_id: id, units_to_deduct: None }),
    {
        CloseOrder { instrument_id: id, units_to_deduct: None }
    }
}

} // verus!
