//! The shared strategy state and the threshold-crossing decision engine.
//!
//! Prices are fixed-point integers: one unit is `1 / PRICE_SCALE` of the quoted price.
use vstd::prelude::*;

verus! {

/// Units of a fixed-point price per whole unit of the quoted price.
pub const PRICE_SCALE: u64 = 100_000_000;

/// The quantity of every strategy order, in fixed-point units (0.0001).
pub const ORDER_QTY: u64 = 10_000;

/// `c` is an ASCII decimal digit.
pub open spec fn is_digit(c: char) -> bool {
    '0' <= c <= '9'
}

/// The number that the digits `s` spell, most significant first.
pub open spec fn digits_value(s: Seq<char>) -> nat
    decreases s.len(),
{
    if s.len() == 0 {
        0
    } else {
        digits_value(s.drop_last()) * 10 + (s.last() as nat - '0' as nat) as nat
    }
}

/// `10` to the power `k`.
pub open spec fn pow10(k: nat) -> nat
    decreases k,
{
    if k == 0 {
        1
    } else {
        10 * pow10((k - 1) as nat)
    }
}

/// Every character of `s` is a digit.
pub open spec fn all_digits(s: Seq<char>) -> bool {
    forall|i: int| 0 <= i < s.len() ==> is_digit(s[i])
}

/// The offset of the first `.` in `s`, or its length where there is none.
pub open spec fn point_offset(s: Seq<char>) -> int {
    if exists|i: int| 0 <= i < s.len() && s[i] == '.' {
        choose|i: int| 0 <= i < s.len() && s[i] == '.' && forall|j: int| 0 <= j < i ==> s[j] != '.'
    } else {
        s.len() as int
    }
}

/// The fixed-point value of a price written `digits` or `digits.digits`, with one to
/// eleven digits before the point and at most eight after it; `None` for other text.
pub open spec fn price_units(s: Seq<char>) -> Option<nat> {
    let d = point_offset(s);
    let whole = s.take(d);
    let frac = if d < s.len() {
        s.skip(d + 1)
    } else {
        seq![]
    };
    if 1 <= whole.len() <= 11 && frac.len() <= 8 && all_digits(whole) && all_digits(frac) {
        Some(digits_value(whole) * PRICE_SCALE as nat + digits_value(frac) * pow10(
            (8 - frac.len()) as nat,
        ))
    } else {
        None
    }
}

/// Reads the digits `s[from..to]`, all of them, into their value.
fn read_digits(s: &str, from: usize, to: usize) -> (r: Option<u64>)
    requires
        from <= to <= s@.len(),
        to - from <= 11,
    ensures
        match r {
            Some(v) => all_digits(s@.subrange(from as int, to as int)) && v as nat == digits_value(
                s@.subrange(from as int, to as int),
            ) && v < pow10((to - from) as nat),
            None => !all_digits(s@.subrange(from as int, to as int)),
        },
{
    let ghost t = s@;
    let mut value: u64 = 0;
    let mut i: usize = from;
    proof {
        reveal_with_fuel(pow10, 12);
    }
    assert(pow10(11) == 100_000_000_000);
    while i < to
        invariant
            t == s@,
            from <= i <= to <= t.len(),
            to - from <= 11,
            pow10(11) == 100_000_000_000,
            all_digits(t.subrange(from as int, i as int)),
            value as nat == digits_value(t.subrange(from as int, i as int)),
            value < pow10((i - from) as nat),
        decreases to - i,
    {
        let ghost pre = t.subrange(from as int, i as int);
        let ghost next = t.subrange(from as int, i + 1);
        let c = s.get_char(i);
        if !('0' <= c && c <= '9') {
            assert(next[i - from] == c);
            return None;
        }
        assert(next.drop_last() =~= pre);
        assert(next.last() == c);
        proof {
            lemma_pow10_monotone((i + 1 - from) as nat, 11);
        }
        let digit = (c as u32 - '0' as u32) as u64;
        value = value * 10 + digit;
        i = i + 1;
    }
    Some(value)
}

proof fn lemma_pow10_monotone(a: nat, b: nat)
    requires
        a <= b,
    ensures
        pow10(a) <= pow10(b),
    decreases b,
{
    if a < b {
        lemma_pow10_monotone(a, (b - 1) as nat);
    }
}

/// Reads a decimal price into fixed-point units, as `price_units` describes.
pub fn parse_price(s: &str) -> (r: Option<u64>)
    ensures
        match r {
            Some(v) => price_units(s@) == Some(v as nat),
            None => price_units(s@) is None,
        },
{
    let ghost t = s@;
    let n = s.unicode_len();
    let mut d: usize = 0;
    while d < n && s.get_char(d) != '.'
        invariant
            n == t.len(),
            t == s@,
            d <= n,
            forall|j: int| 0 <= j < d ==> t[j] != '.',
        decreases n - d,
    {
        d = d + 1;
    }
    assert(point_offset(t) == d) by {
        if d < n {
            let c = choose|i: int|
                0 <= i < t.len() && t[i] == '.' && forall|j: int| 0 <= j < i ==> t[j] != '.';
            if c < d {
                assert(t[c] != '.');
            } else if d < c {
                assert(t[d as int] != '.');
            }
        }
    }
    let frac_start: usize = if d < n {
        d + 1
    } else {
        n
    };
    assert(t.take(d as int) =~= t.subrange(0, d as int));
    if d < n {
        assert(t.skip(d + 1) =~= t.subrange(frac_start as int, n as int));
    } else {
        assert(t.subrange(frac_start as int, n as int) =~= seq![]);
    }
    if d == 0 || d > 11 || n - frac_start > 8 {
        return None;
    }
    let whole = match read_digits(s, 0, d) {
        Some(v) => v,
        None => {
            return None;
        },
    };
    let frac = match read_digits(s, frac_start, n) {
        Some(v) => v,
        None => {
            return None;
        },
    };
    let flen = n - frac_start;
    let mut scaled: u64 = frac;
    let mut k: usize = flen;
    proof {
        reveal_with_fuel(pow10, 9);
    }
    assert(pow10(8) == 100_000_000);
    assert(pow10(0) == 1);
    assert(frac as nat * pow10(0) == frac as nat) by (nonlinear_arith)
        requires
            pow10(0) == 1,
    ;
    while k < 8
        invariant
            flen <= k <= 8,
            pow10(8) == 100_000_000,
            scaled as nat == frac as nat * pow10((k - flen) as nat),
            scaled < pow10(k as nat),
        decreases 8 - k,
    {
        proof {
            lemma_pow10_monotone((k + 1) as nat, 8);
            let p = pow10((k - flen) as nat);
            assert(pow10((k + 1 - flen) as nat) == 10 * p);
            assert(frac as nat * (10 * p) == (frac as nat * p) * 10) by (nonlinear_arith);
        }
        scaled = scaled * 10;
        k = k + 1;
    }
    Some(whole * PRICE_SCALE + scaled)
}

/// A directional position.
#[derive(PartialEq, Eq, Structural, Clone, Copy, Debug)]
pub enum Side {
    Buy,
    Sell,
}

/// An order instruction that the engine hands to the session that sends it.
pub enum OrderAction {
    /// Cancel the order `orig_id`; the cancel request itself is `cancel_id`.
    Cancel { cancel_id: String, orig_id: String },
    /// A new limit order for `ORDER_QTY` at `price`.
    New { side: Side, price: u64, cl_ord_id: String },
}

/// `a` cancels `orig` under the request id `cancel_id`.
pub open spec fn is_cancel(a: OrderAction, cancel_id: Seq<char>, orig: Seq<char>) -> bool {
    match a {
        OrderAction::Cancel { cancel_id: c, orig_id: o } => c@ == cancel_id && o@ == orig,
        _ => false,
    }
}

/// `a` is a new limit order on `side` at `price` with id `id`.
pub open spec fn is_new_order(a: OrderAction, side: Side, price: u64, id: Seq<char>) -> bool {
    match a {
        OrderAction::New { side: s, price: p, cl_ord_id: c } => s == side && p == price && c@
            == id,
        _ => false,
    }
}

/// A bid above `reference × 1.01`.
pub open spec fn above_sell_threshold(reference: u64, price: u64) -> bool {
    price as int * 100 > reference as int * 101
}

/// An ask below `reference × 0.99`.
pub open spec fn below_buy_threshold(reference: u64, price: u64) -> bool {
    price as int * 100 < reference as int * 99
}

/// The strategy record that both sessions share.
pub struct StrategyState {
    /// The centre of the price band, fixed at construction.
    pub reference_price: u64,
    /// The last order the strategy believes is open.
    pub active_order_id: Option<String>,
    /// The strategy's current position.
    pub side: Option<Side>,
    /// Set once the order-entry session has seen its logon acknowledged.
    pub oe_logon_ready: bool,
}

impl StrategyState {
    /// An order id is recorded exactly when a position is.
    pub open spec fn wf(&self) -> bool {
        self.active_order_id.is_some() == self.side.is_some()
    }

    /// The tick fires the sell rule on this state.
    pub open spec fn sells_on(&self, side_tag: Seq<char>, price: u64) -> bool {
        self.oe_logon_ready && side_tag == seq!['0'] && above_sell_threshold(
            self.reference_price,
            price,
        ) && self.side != Some(Side::Sell)
    }

    /// The tick fires the buy rule on this state.
    pub open spec fn buys_on(&self, side_tag: Seq<char>, price: u64) -> bool {
        self.oe_logon_ready && side_tag == seq!['1'] && below_buy_threshold(
            self.reference_price,
            price,
        ) && self.side != Some(Side::Buy)
    }

    /// A fresh state: no position, order entry not ready.
    pub fn new(reference_price: u64) -> (r: Self)
        ensures
            r.wf(),
            r.reference_price == reference_price,
            r.active_order_id is None,
            r.side is None,
            !r.oe_logon_ready,
    {
        StrategyState { reference_price, active_order_id: None, side: None, oe_logon_ready: false }
    }

    /// Sets the readiness flag: order traffic may flow from now on.
    pub fn mark_order_entry_ready(&mut self)
        ensures
            final(self).oe_logon_ready,
            final(self).reference_price == old(self).reference_price,
            final(self).active_order_id == old(self).active_order_id,
            final(self).side == old(self).side,
    {
        self.oe_logon_ready = true;
    }

    /// Runs one market-data tick through the strategy.
    ///
    /// `side_tag` is the tick's side indicator (`0` bid, `1` ask). A bid above the
    /// sell threshold while not short, or an ask below the buy threshold while not
    /// long, flips the position, provided the readiness flag is set: a cancel of the active
    /// order (if any) under `cancel_id` comes first, then a new order `order_id` at
    /// the tick's price, and the state records the new order and side. Any other tick
    /// leaves the state alone and yields no instruction.
    pub fn on_tick(&mut self, side_tag: &str, price: u64, cancel_id: String, order_id: String) -> (actions: Vec<OrderAction>)
        requires
            old(self).wf(),
        ensures
            final(self).wf(),
            final(self).reference_price == old(self).reference_price,
            final(self).oe_logon_ready == old(self).oe_logon_ready,
            !(old(self).sells_on(side_tag@, price) && old(self).buys_on(side_tag@, price)),
            !old(self).oe_logon_ready ==> actions@.len() == 0,
            old(self).sells_on(side_tag@, price) || old(self).buys_on(side_tag@, price) ==> {
                let side = if old(self).sells_on(side_tag@, price) {
                    Side::Sell
                } else {
                    Side::Buy
                };
                &&& final(self).side == Some(side)
                &&& final(self).active_order_id matches Some(id) && id@ == order_id@
                &&& match old(self).active_order_id {
                    Some(orig) => actions@.len() == 2 && is_cancel(
                        actions@[0],
                        cancel_id@,
                        orig@,
                    ) && is_new_order(actions@[1], side, price, order_id@),
                    None => actions@.len() == 1 && is_new_order(
                        actions@[0],
                        side,
                        price,
                        order_id@,
                    ),
                }
            },
            !old(self).sells_on(side_tag@, price) && !old(self).buys_on(side_tag@, price) ==> {
                &&& actions@.len() == 0
                &&& final(self).side == old(self).side
                &&& final(self).active_order_id == old(self).active_order_id
            },
    {
        let mut actions: Vec<OrderAction> = Vec::new();
        if !self.oe_logon_ready {
            return actions;
        }
        let one_char = side_tag.unicode_len() == 1;
        let is_bid = one_char && side_tag.get_char(0) == '0';
        let is_ask = one_char && side_tag.get_char(0) == '1';
        assert(is_bid == (side_tag@ == seq!['0'])) by {
            if side_tag@.len() == 1 {
                if side_tag@[0] == '0' {
                    assert(side_tag@ =~= seq!['0']);
                }
            }
        }
        assert(is_ask == (side_tag@ == seq!['1'])) by {
            if side_tag@.len() == 1 {
                if side_tag@[0] == '1' {
                    assert(side_tag@ =~= seq!['1']);
                }
            }
        }
        let short = match self.side {
            Some(Side::Sell) => true,
            _ => false,
        };
        let long = match self.side {
            Some(Side::Buy) => true,
            _ => false,
        };
        let scaled = price as u128 * 100;
        let reference = self.reference_price as u128;
        let side = if is_bid && scaled > reference * 101 && !short {
            Side::Sell
        } else if is_ask && scaled < reference * 99 && !long {
            Side::Buy
        } else {
            return actions;
        };
        match &self.active_order_id {
            Some(orig_id) => {
                actions.push(OrderAction::Cancel { cancel_id, orig_id: orig_id.clone() });
            },
            None => {},
        }
        actions.push(OrderAction::New { side, price, cl_ord_id: order_id.clone() });
        self.active_order_id = Some(order_id);
        self.side = Some(side);
        actions
    }
}

} // verus!
