//! The market-data and order-entry session state machines.
//!
//! Each session is a transition function from its state and one inbound message to its
//! next state and the messages to send; the caller owns the transport.
use vstd::prelude::*;
use crate::builders::{
    build_heartbeat_message,
    build_logon_message,
    build_market_data_request,
    build_new_order_single,
    build_order_cancel_request,
    cancel_fields,
    heartbeat_fields,
    logon_fields,
    market_data_request_fields,
    new_order_fields,
};
use vstd::utf8::encode_utf8;
use crate::credentials::{auth_payload_text, base64_text, compute_raw_data, ed25519_signature, SigningSecret};
use crate::message::{extract_field, field_value, fix_message};
use crate::strategy::{
    parse_price,
    price_units,
    OrderAction,
    Side,
    StrategyState,
    ORDER_QTY,
};

verus! {

/// The symbol the sessions trade.
pub const SYMBOL: &'static str = "BTCUSDT";

/// The request id of the best bid/offer subscription.
pub const BOOK_REQUEST_ID: &'static str = "BOOK_TICKER_STREAM";

/// The limit price of the order-entry self-test order (100000, fixed point).
pub const DEMO_PRICE: u64 = 10_000_000_000_000;

/// A text value, or the empty text where there is none.
pub open spec fn text_or_empty(v: Option<Seq<char>>) -> Seq<char> {
    match v {
        Some(t) => t,
        None => seq![],
    }
}

/// The best bid/offer subscription (depth 1) for `SYMBOL`.
pub open spec fn book_request(
    sender: Seq<char>,
    target: Seq<char>,
    seq: int,
    now: Seq<char>,
) -> Seq<char> {
    fix_message(
        market_data_request_fields(
            sender,
            target,
            seq,
            now,
            BOOK_REQUEST_ID@,
            SYMBOL@,
            seq!["0"@, "1"@],
            Some(1),
        ),
    )
}

/// `v` holds an id whose text is `id`.
pub open spec fn holds_id(v: Option<String>, id: Seq<char>) -> bool {
    match v {
        Some(x) => x@ == id,
        None => false,
    }
}

/// The price of a tick: its fixed-point value, or zero where the text is not a price.
pub open spec fn tick_price(v: Option<Seq<char>>) -> u64 {
    match price_units(text_or_empty(v)) {
        Some(p) => p as u64,
        None => 0,
    }
}

fn text_value(v: Option<String>) -> (r: String)
    ensures
        r@ == text_or_empty(
            match v {
                Some(s) => Some(s@),
                None => None,
            },
        ),
{
    match v {
        Some(s) => s,
        None => String::new(),
    }
}

/// Relies on chrono's `Utc::now` and `format`: the current UTC time as
/// `YYYYMMDD-HH:MM:SS.sss`. Nothing is promised of its value.
#[verifier::external_body]
fn utc_sending_time() -> (r: String) {
    chrono::Utc::now().format("%Y%m%d-%H:%M:%S%.3f").to_string()
}

/// Relies on uuid's `Uuid::new_v4` and its hyphenated text form: a fresh random id.
/// Nothing is promised of its value.
#[verifier::external_body]
fn fresh_order_id() -> (r: String) {
    uuid::Uuid::new_v4().to_string()
}

/// The phase of the market-data session.
#[derive(PartialEq, Eq, Structural, Clone, Copy, Debug)]
pub enum MdState {
    AwaitingLogonAck,
    Streaming,
    Terminated,
}

/// What one inbound message asks of the market-data session's caller.
pub struct MdOutput {
    /// Messages to send, in order.
    pub outbound: Vec<String>,
    /// The session ends: its loop exits.
    pub stop: bool,
}

/// The message one strategy instruction turns into, sent with sequence number `seq`.
pub open spec fn action_message(
    sender: Seq<char>,
    target: Seq<char>,
    now: Seq<char>,
    symbol: Seq<char>,
    a: OrderAction,
    seq: int,
) -> Seq<char> {
    match a {
        OrderAction::Cancel { cancel_id, orig_id } => fix_message(
            cancel_fields(sender, target, seq, now, symbol, cancel_id@, orig_id@),
        ),
        OrderAction::New { side, price, cl_ord_id } => fix_message(
            new_order_fields(
                sender,
                target,
                seq,
                now,
                symbol,
                side,
                ORDER_QTY as nat,
                price as nat,
                cl_ord_id@,
            ),
        ),
    }
}

/// The messages a tick makes the strategy send, numbered from `seq`.
pub open spec fn tick_messages(
    sender: Seq<char>,
    target: Seq<char>,
    now: Seq<char>,
    symbol: Seq<char>,
    st: StrategyState,
    side_tag: Seq<char>,
    price: u64,
    cancel_id: Seq<char>,
    order_id: Seq<char>,
    seq: int,
) -> Seq<Seq<char>> {
    if st.sells_on(side_tag, price) || st.buys_on(side_tag, price) {
        let side = if st.sells_on(side_tag, price) {
            Side::Sell
        } else {
            Side::Buy
        };
        match st.active_order_id {
            Some(orig) => seq![
                fix_message(cancel_fields(sender, target, seq, now, symbol, cancel_id, orig@)),
                fix_message(
                    new_order_fields(
                        sender,
                        target,
                        seq + 1,
                        now,
                        symbol,
                        side,
                        ORDER_QTY as nat,
                        price as nat,
                        order_id,
                    ),
                ),
            ],
            None => seq![
                fix_message(
                    new_order_fields(
                        sender,
                        target,
                        seq,
                        now,
                        symbol,
                        side,
                        ORDER_QTY as nat,
                        price as nat,
                        order_id,
                    ),
                ),
            ],
        }
    } else {
        seq![]
    }
}

/// The logon message with sequence number 1 and the credential signed under `key`.
pub open spec fn signed_logon(
    sender: Seq<char>,
    target: Seq<char>,
    key: Seq<u8>,
    username: Seq<char>,
    sending_time: Seq<char>,
) -> Seq<char> {
    let raw = base64_text(
        ed25519_signature(key, encode_utf8(auth_payload_text(sender, target, 1, sending_time))),
    );
    fix_message(
        logon_fields(sender, target, 1, sending_time, raw, encode_utf8(raw).len(), username),
    )
}

/// The market-data session: identity, next outbound sequence number and phase.
pub struct MarketDataSession {
    pub sender: String,
    pub target: String,
    pub next_seq: i32,
    pub state: MdState,
}

impl MarketDataSession {
    /// Opens a session: the logon message (sequence number 1, signed credential) and
    /// the session waiting for its acknowledgment, next sequence number 2.
    pub fn open(
        sender: &str,
        target: &str,
        key: &SigningSecret,
        username: &str,
        sending_time: &str,
    ) -> (r: (MarketDataSession, String))
        requires
            key.wf(),
        ensures
            r.0.sender@ == sender@,
            r.0.target@ == target@,
            r.0.next_seq == 2,
            r.0.state == MdState::AwaitingLogonAck,
            r.1@ == signed_logon(sender@, target@, key@, username@, sending_time@),
    {
        let raw = compute_raw_data(key, sender, target, 1, sending_time);
        let logon = build_logon_message(sender, target, 1, sending_time, raw.as_str(), username);
        let session = MarketDataSession {
            sender: String::from_str(sender),
            target: String::from_str(target),
            next_seq: 2,
            state: MdState::AwaitingLogonAck,
        };
        (session, logon)
    }

    /// Runs a market-data message through the strategy and turns each instruction
    /// into a message: symbol (55), side (269) and price (270) come from the message,
    /// an absent or unreadable price counting as zero.
    #[verifier::loop_isolation(false)]
    pub fn on_market_data(
        &mut self,
        msg: &str,
        strategy: &mut StrategyState,
        now: &str,
        cancel_id: String,
        order_id: String,
    ) -> (sent: Vec<String>)
        requires
            old(strategy).wf(),
            1 <= old(self).next_seq <= i32::MAX - 2,
        ensures
            final(strategy).wf(),
            final(strategy).reference_price == old(strategy).reference_price,
            final(strategy).oe_logon_ready == old(strategy).oe_logon_ready,
            final(self).sender == old(self).sender,
            final(self).target == old(self).target,
            final(self).state == old(self).state,
            final(self).next_seq == old(self).next_seq + sent@.len(),
            sent@.len() <= 2,
            ({
                let side_tag = text_or_empty(field_value(msg@, "269"@));
                let price = tick_price(field_value(msg@, "270"@));
                let st = *old(strategy);
                &&& sent.deep_view() == tick_messages(
                    old(self).sender@,
                    old(self).target@,
                    now@,
                    text_or_empty(field_value(msg@, "55"@)),
                    st,
                    side_tag,
                    price,
                    cancel_id@,
                    order_id@,
                    old(self).next_seq as int,
                )
                &&& if st.sells_on(side_tag, price) || st.buys_on(side_tag, price) {
                    &&& final(strategy).side == Some(
                        if st.sells_on(side_tag, price) {
                            Side::Sell
                        } else {
                            Side::Buy
                        },
                    )
                    &&& final(strategy).active_order_id matches Some(id) && id@ == order_id@
                } else {
                    *final(strategy) == *old(strategy)
                }
            }),
    {
        let mut outbound: Vec<String> = Vec::new();
        let symbol = text_value(extract_field(msg, "55"));
        let side_tag = text_value(extract_field(msg, "269"));
        let price_text = text_value(extract_field(msg, "270"));
        let price = match parse_price(price_text.as_str()) {
            Some(p) => p,
            None => 0,
        };
        let actions = strategy.on_tick(side_tag.as_str(), price, cancel_id, order_id);
        let ghost seq0 = self.next_seq as int;
        let mut k: usize = 0;
        while k < actions.len()
            invariant
                self.sender == old(self).sender,
                self.target == old(self).target,
                self.state == old(self).state,
                actions@.len() <= 2,
                k <= actions@.len(),
                self.next_seq == seq0 + k,
                1 <= seq0 <= i32::MAX - 2,
                outbound@.len() == k,
                forall|j: int|
                    0 <= j < k ==> #[trigger] outbound@[j]@ == action_message(
                        self.sender@,
                        self.target@,
                        now@,
                        symbol@,
                        actions@[j],
                        seq0 + j,
                    ),
            decreases actions@.len() - k,
        {
            let m = match &actions[k] {
                OrderAction::Cancel { cancel_id, orig_id } => build_order_cancel_request(
                    self.sender.as_str(),
                    self.target.as_str(),
                    self.next_seq,
                    now,
                    symbol.as_str(),
                    cancel_id.as_str(),
                    orig_id.as_str(),
                ),
                OrderAction::New { side, price, cl_ord_id } => build_new_order_single(
                    self.sender.as_str(),
                    self.target.as_str(),
                    self.next_seq,
                    now,
                    symbol.as_str(),
                    *side,
                    ORDER_QTY,
                    *price,
                    cl_ord_id.as_str(),
                ),
            };
            outbound.push(m);
            self.next_seq = self.next_seq + 1;
            k = k + 1;
        }
        assert(outbound.deep_view() =~= tick_messages(
            self.sender@,
            self.target@,
            now@,
            symbol@,
            *old(strategy),
            side_tag@,
            price,
            cancel_id@,
            order_id@,
            seq0,
        ));
        outbound
    }

    /// Handles one inbound message, at time `now`, with `cancel_id` and `order_id` as
    /// the ids of any cancel and order the strategy sends.
    ///
    /// A test request with an id (112) is answered by a heartbeat echoing it; a logon
    /// acknowledgment by the best bid/offer subscription (depth 1) for `SYMBOL`, and
    /// the session streams; a market-data message (`X` or `W`) goes to the strategy,
    /// and each instruction becomes one message; a logout ends the session. Every sent
    /// message takes the next sequence number. Anything else changes nothing.
    pub fn on_message_at(
        &mut self,
        msg: &str,
        strategy: &mut StrategyState,
        now: &str,
        cancel_id: String,
        order_id: String,
    ) -> (out: MdOutput)
        requires
            old(strategy).wf(),
            1 <= old(self).next_seq <= i32::MAX - 2,
        ensures
            final(strategy).wf(),
            final(strategy).reference_price == old(strategy).reference_price,
            final(strategy).oe_logon_ready == old(strategy).oe_logon_ready,
            final(self).sender == old(self).sender,
            final(self).target == old(self).target,
            final(self).next_seq == old(self).next_seq + out.outbound@.len(),
            out.outbound@.len() <= 2,
            out.stop <==> field_value(msg@, "35"@) == Some("5"@),
            ({
                let ty = field_value(msg@, "35"@);
                let sender = old(self).sender@;
                let target = old(self).target@;
                let seq = old(self).next_seq as int;
                let sent = out.outbound.deep_view();
                if ty == Some("1"@) && field_value(msg@, "112"@) is Some {
                    &&& sent == seq![
                        fix_message(
                            heartbeat_fields(sender, target, seq, now@, field_value(msg@, "112"@)),
                        ),
                    ]
                    &&& !out.stop && final(self).state == old(self).state
                    &&& *final(strategy) == *old(strategy)
                } else if ty == Some("A"@) {
                    &&& sent == seq![
                        fix_message(
                            market_data_request_fields(
                                sender,
                                target,
                                seq,
                                now@,
                                BOOK_REQUEST_ID@,
                                SYMBOL@,
                                seq!["0"@, "1"@],
                                Some(1),
                            ),
                        ),
                    ]
                    &&& !out.stop && final(self).state == MdState::Streaming
                    &&& *final(strategy) == *old(strategy)
                } else if ty == Some("X"@) || ty == Some("W"@) {
                    let side_tag = text_or_empty(field_value(msg@, "269"@));
                    let price = tick_price(field_value(msg@, "270"@));
                    let st = *old(strategy);
                    &&& sent == tick_messages(
                        sender,
                        target,
                        now@,
                        text_or_empty(field_value(msg@, "55"@)),
                        st,
                        side_tag,
                        price,
                        cancel_id@,
                        order_id@,
                        seq,
                    )
                    &&& !out.stop && final(self).state == old(self).state
                    &&& if st.sells_on(side_tag, price) || st.buys_on(side_tag, price) {
                        &&& final(strategy).side == Some(
                            if st.sells_on(side_tag, price) {
                                Side::Sell
                            } else {
                                Side::Buy
                            },
                        )
                        &&& final(strategy).active_order_id matches Some(id) && id@ == order_id@
                    } else {
                        *final(strategy) == *old(strategy)
                    }
                } else if ty == Some("5"@) {
                    &&& sent.len() == 0 && out.stop && final(self).state == MdState::Terminated
                    &&& *final(strategy) == *old(strategy)
                } else {
                    &&& sent.len() == 0 && !out.stop && final(self).state == old(self).state
                    &&& *final(strategy) == *old(strategy)
                }
            }),
    {
        proof {
            reveal_strlit("1");
            reveal_strlit("A");
            reveal_strlit("X");
            reveal_strlit("W");
            reveal_strlit("5");
        }
        let mut outbound: Vec<String> = Vec::new();
        let ty = match extract_field(msg, "35") {
            Some(t) => t,
            None => {
                return MdOutput { outbound, stop: false };
            },
        };
        let t = ty.as_str();
        let one = t.unicode_len() == 1;
        let c = if one {
            t.get_char(0)
        } else {
            ' '
        };
        assert(one ==> t@ =~= seq![c]);
        if one && c == '1' {
            match extract_field(msg, "112") {
                Some(id) => {
                    assert(field_value(msg@, "35"@) == Some("1"@));
                    let hb = build_heartbeat_message(
                        self.sender.as_str(),
                        self.target.as_str(),
                        self.next_seq,
                        now,
                        Some(id.as_str()),
                    );
                    outbound.push(hb);
                    self.next_seq = self.next_seq + 1;
                    assert(outbound.deep_view() =~= seq![hb@]);
                },
                None => {},
            }
            return MdOutput { outbound, stop: false };
        } else if one && c == 'A' {
            let mut types: Vec<String> = Vec::new();
            types.push(String::from_str("0"));
            types.push(String::from_str("1"));
            assert(types.deep_view() =~= seq!["0"@, "1"@]);
            let req = build_market_data_request(
                self.sender.as_str(),
                self.target.as_str(),
                self.next_seq,
                now,
                BOOK_REQUEST_ID,
                SYMBOL,
                &types,
                Some(1),
            );
            outbound.push(req);
            assert(outbound.deep_view() =~= seq![req@]);
            self.next_seq = self.next_seq + 1;
            self.state = MdState::Streaming;
            assert(field_value(msg@, "35"@) == Some("A"@));
            assert(field_value(msg@, "35"@) != Some("1"@));
            return MdOutput { outbound, stop: false };
        } else if one && (c == 'X' || c == 'W') {
            assert(field_value(msg@, "35"@) == Some("X"@) || field_value(msg@, "35"@) == Some("W"@));
            assert(field_value(msg@, "35"@) != Some("1"@) && field_value(msg@, "35"@) != Some("A"@));
            let outbound = self.on_market_data(msg, strategy, now, cancel_id, order_id);
            return MdOutput { outbound, stop: false };
        } else if one && c == '5' {
            self.state = MdState::Terminated;
            assert(field_value(msg@, "35"@) == Some("5"@));
            assert(field_value(msg@, "35"@) != Some("1"@) && field_value(msg@, "35"@) != Some("A"@));
            assert(field_value(msg@, "35"@) != Some("X"@) && field_value(msg@, "35"@) != Some("W"@));
            return MdOutput { outbound, stop: true };
        }
        MdOutput { outbound, stop: false }
    }

    /// Handles one inbound message at the current time, with fresh random ids for any
    /// orders the strategy sends; otherwise as `on_message_at`.
    pub fn on_message(&mut self, msg: &str, strategy: &mut StrategyState) -> (out: MdOutput)
        requires
            old(strategy).wf(),
            1 <= old(self).next_seq <= i32::MAX - 2,
        ensures
            final(strategy).wf(),
            final(strategy).reference_price == old(strategy).reference_price,
            final(strategy).oe_logon_ready == old(strategy).oe_logon_ready,
            final(self).sender == old(self).sender,
            final(self).target == old(self).target,
            final(self).next_seq == old(self).next_seq + out.outbound@.len(),
            out.outbound@.len() <= 2,
            out.stop <==> field_value(msg@, "35"@) == Some("5"@),
            field_value(msg@, "35"@) == Some("A"@) ==> out.outbound@.len() == 1
                && final(self).state == MdState::Streaming,
            field_value(msg@, "35"@) == Some("5"@) ==> out.outbound@.len() == 0
                && final(self).state == MdState::Terminated,
            field_value(msg@, "35"@) == Some("1"@) ==> out.outbound@.len() == (if field_value(
                msg@,
                "112"@,
            ) is Some {
                1int
            } else {
                0int
            }),
            ({
                let ty = field_value(msg@, "35"@);
                let sender = old(self).sender@;
                let target = old(self).target@;
                let seq = old(self).next_seq as int;
                let sent = out.outbound.deep_view();
                if ty == Some("1"@) && field_value(msg@, "112"@) is Some {
                    &&& exists|now: Seq<char>|
                        sent == seq![
                            fix_message(
                                #[trigger] heartbeat_fields(
                                    sender,
                                    target,
                                    seq,
                                    now,
                                    field_value(msg@, "112"@),
                                ),
                            ),
                        ]
                    &&& *final(strategy) == *old(strategy)
                } else if ty == Some("A"@) {
                    &&& exists|now: Seq<char>|
                        sent == seq![#[trigger] book_request(sender, target, seq, now)]
                    &&& *final(strategy) == *old(strategy)
                } else if ty == Some("X"@) || ty == Some("W"@) {
                    let side_tag = text_or_empty(field_value(msg@, "269"@));
                    let price = tick_price(field_value(msg@, "270"@));
                    let st = *old(strategy);
                    let fires = st.sells_on(side_tag, price) || st.buys_on(side_tag, price);
                    &&& exists|now: Seq<char>, c: Seq<char>, o: Seq<char>|
                        sent == #[trigger] tick_messages(
                            sender,
                            target,
                            now,
                            text_or_empty(field_value(msg@, "55"@)),
                            st,
                            side_tag,
                            price,
                            c,
                            o,
                            seq,
                        ) && (fires ==> holds_id(final(strategy).active_order_id, o))
                    &&& fires ==> final(strategy).side == Some(
                        if st.sells_on(side_tag, price) {
                            Side::Sell
                        } else {
                            Side::Buy
                        },
                    )
                    &&& !fires ==> *final(strategy) == *old(strategy)
                } else {
                    *final(strategy) == *old(strategy)
                }
            }),
    {
        proof {
            reveal_strlit("1");
            reveal_strlit("A");
            reveal_strlit("X");
            reveal_strlit("W");
            reveal_strlit("5");
        }
        let now = utc_sending_time();
        let cancel_id = fresh_order_id();
        let order_id = fresh_order_id();
        let ghost c = cancel_id@;
        let ghost o = order_id@;
        let ghost before = *self;
        let ghost st = *strategy;
        let out = self.on_message_at(msg, strategy, now.as_str(), cancel_id, order_id);
        assert(out.outbound.deep_view().len() == out.outbound@.len());
        assert("A"@ =~= seq!['A'] && "1"@ =~= seq!['1'] && "5"@ =~= seq!['5']);
        assert("X"@ =~= seq!['X'] && "W"@ =~= seq!['W']);
        assert("A"@ != "1"@) by {
            assert("A"@[0] != "1"@[0]);
        }
        assert("X"@ != "1"@ && "W"@ != "1"@ && "5"@ != "1"@) by {
            assert("X"@[0] != "1"@[0] && "W"@[0] != "1"@[0] && "5"@[0] != "1"@[0]);
        }
        assert("X"@ != "A"@ && "W"@ != "A"@ && "5"@ != "A"@ && "5"@ != "X"@ && "5"@ != "W"@) by {
            assert("X"@[0] != "A"@[0] && "W"@[0] != "A"@[0] && "5"@[0] != "A"@[0]);
            assert("5"@[0] != "X"@[0] && "5"@[0] != "W"@[0]);
        }
        proof {
            let ty = field_value(msg@, "35"@);
            let sender = before.sender@;
            let target = before.target@;
            let seq = before.next_seq as int;
            if ty == Some("1"@) && field_value(msg@, "112"@) is Some {
                assert(out.outbound.deep_view() == seq![
                    fix_message(
                        heartbeat_fields(sender, target, seq, now@, field_value(msg@, "112"@)),
                    ),
                ]);
            } else if ty == Some("A"@) {
                assert(out.outbound.deep_view() == seq![book_request(sender, target, seq, now@)]);
            } else if ty == Some("X"@) || ty == Some("W"@) {
                let side_tag = text_or_empty(field_value(msg@, "269"@));
                let price = tick_price(field_value(msg@, "270"@));
                assert(out.outbound.deep_view() == tick_messages(
                    sender,
                    target,
                    now@,
                    text_or_empty(field_value(msg@, "55"@)),
                    st,
                    side_tag,
                    price,
                    c,
                    o,
                    seq,
                ));
            }
        }
        out
    }
}

/// What an execution report says, by its execution type (150).
pub enum ExecutionEvent {
    /// `0`: the order was accepted.
    Accepted { symbol: String, side: String, qty: String, price: String, cl_ord_id: String },
    /// `4`: the order was canceled.
    Canceled { symbol: String, cl_ord_id: String },
    /// `8`: the order was rejected, for the reason in 58.
    Rejected { cl_ord_id: String, reason: String },
    /// Any other execution type.
    Unknown { exec_type: String, cl_ord_id: String },
}

/// The text of `tag` in `m`, or the empty text where `tag` is absent.
pub open spec fn field_or_empty(m: Seq<char>, tag: Seq<char>) -> Seq<char> {
    text_or_empty(field_value(m, tag))
}

/// What execution report `m` says as `ev`: the execution type (150) picks the event,
/// which carries the order id (11) and the fields that belong to it.
pub open spec fn report_of(r: ExecutionEvent, m: Seq<char>) -> bool {
    let et = field_or_empty(m, "150"@);
    if et == "0"@ {
        r matches ExecutionEvent::Accepted { symbol, side, qty, price, cl_ord_id } && symbol@
            == field_or_empty(m, "55"@) && side@ == field_or_empty(m, "54"@) && qty@
            == field_or_empty(m, "38"@) && price@ == field_or_empty(m, "44"@) && cl_ord_id@
            == field_or_empty(m, "11"@)
    } else if et == "4"@ {
        r matches ExecutionEvent::Canceled { symbol, cl_ord_id } && symbol@ == field_or_empty(
            m,
            "55"@,
        ) && cl_ord_id@ == field_or_empty(m, "11"@)
    } else if et == "8"@ {
        r matches ExecutionEvent::Rejected { cl_ord_id, reason } && cl_ord_id@ == field_or_empty(
            m,
            "11"@,
        ) && reason@ == field_or_empty(m, "58"@)
    } else {
        r matches ExecutionEvent::Unknown { exec_type, cl_ord_id } && exec_type@ == et
            && cl_ord_id@ == field_or_empty(m, "11"@)
    }
}

/// Reads an execution report: the execution type (150) decides the event, which
/// carries the order id (11) and the fields that belong to it.
pub fn handle_execution_report(message: &str) -> (r: ExecutionEvent)
    ensures
        report_of(r, message@),
{
    proof {
        reveal_strlit("0");
        reveal_strlit("4");
        reveal_strlit("8");
    }
    let cl_ord_id = text_value(extract_field(message, "11"));
    let exec_type = text_value(extract_field(message, "150"));
    let t = exec_type.as_str();
    let one = t.unicode_len() == 1;
    let c = if one {
        t.get_char(0)
    } else {
        ' '
    };
    assert(one ==> t@ =~= seq![c]);
    assert("0"@ =~= seq!['0'] && "4"@ =~= seq!['4'] && "8"@ =~= seq!['8']);
    assert(t@ == "0"@ <==> (one && c == '0'));
    assert(t@ == "4"@ <==> (one && c == '4'));
    assert(t@ == "8"@ <==> (one && c == '8'));
    if one && c == '0' {
        ExecutionEvent::Accepted {
            symbol: text_value(extract_field(message, "55")),
            side: text_value(extract_field(message, "54")),
            qty: text_value(extract_field(message, "38")),
            price: text_value(extract_field(message, "44")),
            cl_ord_id,
        }
    } else if one && c == '4' {
        ExecutionEvent::Canceled { symbol: text_value(extract_field(message, "55")), cl_ord_id }
    } else if one && c == '8' {
        ExecutionEvent::Rejected { cl_ord_id, reason: text_value(extract_field(message, "58")) }
    } else {
        ExecutionEvent::Unknown { exec_type, cl_ord_id }
    }
}

/// What one inbound message means to the order-entry session.
pub enum OeEvent {
    /// The logon was acknowledged: the readiness flag is set, and the self-test order
    /// `orig_cl_ord_id` is to be sent, then canceled after a pause.
    LoggedOn { order: String, orig_cl_ord_id: String },
    /// An execution report with an execution type.
    Report(ExecutionEvent),
    /// An execution report without an execution type.
    MissingExecType,
    /// Anything else.
    Ignored,
}

/// The order-entry session: identity and next outbound sequence number.
pub struct OrderEntrySession {
    pub sender: String,
    pub target: String,
    pub next_seq: i32,
}

impl OrderEntrySession {
    /// Opens a session: the logon message (sequence number 1, signed credential) and
    /// the session with next sequence number 2.
    pub fn open(
        sender: &str,
        target: &str,
        key: &SigningSecret,
        username: &str,
        sending_time: &str,
    ) -> (r: (OrderEntrySession, String))
        requires
            key.wf(),
        ensures
            r.0.sender@ == sender@,
            r.0.target@ == target@,
            r.0.next_seq == 2,
            r.1@ == signed_logon(sender@, target@, key@, username@, sending_time@),
    {
        let raw = compute_raw_data(key, sender, target, 1, sending_time);
        let logon = build_logon_message(sender, target, 1, sending_time, raw.as_str(), username);
        let session = OrderEntrySession {
            sender: String::from_str(sender),
            target: String::from_str(target),
            next_seq: 2,
        };
        (session, logon)
    }

    /// Handles one inbound message at time `now`; `order_id` names the self-test order.
    ///
    /// A logon acknowledgment sets the strategy's readiness flag and yields the self-test buy
    /// order for `SYMBOL` (quantity `ORDER_QTY`, price `DEMO_PRICE`) with the next
    /// sequence number. An execution report yields what it says. Nothing else changes
    /// anything.
    pub fn on_message_at(
        &mut self,
        msg: &str,
        strategy: &mut StrategyState,
        now: &str,
        order_id: String,
    ) -> (r: OeEvent)
        requires
            1 <= old(self).next_seq < i32::MAX,
        ensures
            final(self).sender == old(self).sender,
            final(self).target == old(self).target,
            final(strategy).reference_price == old(strategy).reference_price,
            final(strategy).active_order_id == old(strategy).active_order_id,
            final(strategy).side == old(strategy).side,
            ({
                let ty = field_value(msg@, "35"@);
                if ty == Some("A"@) {
                    &&& final(strategy).oe_logon_ready
                    &&& final(self).next_seq == old(self).next_seq + 1
                    &&& r matches OeEvent::LoggedOn { order, orig_cl_ord_id }
                    &&& orig_cl_ord_id@ == order_id@
                    &&& order@ == fix_message(
                        new_order_fields(
                            old(self).sender@,
                            old(self).target@,
                            old(self).next_seq as int,
                            now@,
                            SYMBOL@,
                            Side::Buy,
                            ORDER_QTY as nat,
                            DEMO_PRICE as nat,
                            order_id@,
                        ),
                    )
                } else {
                    &&& final(strategy).oe_logon_ready == old(strategy).oe_logon_ready
                    &&& final(self).next_seq == old(self).next_seq
                    &&& if ty == Some("8"@) {
                        if field_or_empty(msg@, "150"@).len() == 0 {
                            r is MissingExecType
                        } else {
                            r matches OeEvent::Report(ev) && report_of(ev, msg@)
                        }
                    } else {
                        r is Ignored
                    }
                }
            }),
    {
        proof {
            reveal_strlit("A");
            reveal_strlit("8");
        }
        let ty = match extract_field(msg, "35") {
            Some(t) => t,
            None => {
                return OeEvent::Ignored;
            },
        };
        let t = ty.as_str();
        let one = t.unicode_len() == 1;
        let c = if one {
            t.get_char(0)
        } else {
            ' '
        };
        assert(one ==> t@ =~= seq![c]);
        assert("A"@ =~= seq!['A'] && "8"@ =~= seq!['8']);
        assert(t@ == "A"@ <==> (one && c == 'A'));
        assert(t@ == "8"@ <==> (one && c == '8'));
        if one && c == 'A' {
            strategy.mark_order_entry_ready();
            let order = build_new_order_single(
                self.sender.as_str(),
                self.target.as_str(),
                self.next_seq,
                now,
                SYMBOL,
                Side::Buy,
                ORDER_QTY,
                DEMO_PRICE,
                order_id.as_str(),
            );
            self.next_seq = self.next_seq + 1;
            OeEvent::LoggedOn { order, orig_cl_ord_id: order_id }
        } else if one && c == '8' {
            let exec_type = text_value(extract_field(msg, "150"));
            if exec_type.unicode_len() == 0 {
                OeEvent::MissingExecType
            } else {
                OeEvent::Report(handle_execution_report(msg))
            }
        } else {
            OeEvent::Ignored
        }
    }

    /// The cancel of the self-test order `orig_cl_ord_id`, at time `now`, under the
    /// request id `cancel_id`, with the next sequence number.
    pub fn cancel_demo_order_at(
        &mut self,
        now: &str,
        cancel_id: &str,
        orig_cl_ord_id: &str,
    ) -> (r: String)
        requires
            1 <= old(self).next_seq < i32::MAX,
        ensures
            final(self).sender == old(self).sender,
            final(self).target == old(self).target,
            final(self).next_seq == old(self).next_seq + 1,
            r@ == fix_message(
                cancel_fields(
                    old(self).sender@,
                    old(self).target@,
                    old(self).next_seq as int,
                    now@,
                    SYMBOL@,
                    cancel_id@,
                    orig_cl_ord_id@,
                ),
            ),
    {
        let m = build_order_cancel_request(
            self.sender.as_str(),
            self.target.as_str(),
            self.next_seq,
            now,
            SYMBOL,
            cancel_id,
            orig_cl_ord_id,
        );
        self.next_seq = self.next_seq + 1;
        m
    }

    /// Handles one inbound message at the current time with a fresh random id for the
    /// self-test order; otherwise as `on_message_at`.
    pub fn on_message(&mut self, msg: &str, strategy: &mut StrategyState) -> (r: OeEvent)
        requires
            1 <= old(self).next_seq < i32::MAX,
        ensures
            final(self).sender == old(self).sender,
            final(self).target == old(self).target,
            final(strategy).reference_price == old(strategy).reference_price,
            final(strategy).active_order_id == old(strategy).active_order_id,
            final(strategy).side == old(strategy).side,
            field_value(msg@, "35"@) == Some("A"@) ==> final(strategy).oe_logon_ready
                && final(self).next_seq == old(self).next_seq + 1 && (r matches OeEvent::LoggedOn {
                order,
                orig_cl_ord_id,
            } && exists|now: Seq<char>|
                order@ == fix_message(
                    #[trigger] new_order_fields(
                        old(self).sender@,
                        old(self).target@,
                        old(self).next_seq as int,
                        now,
                        SYMBOL@,
                        Side::Buy,
                        ORDER_QTY as nat,
                        DEMO_PRICE as nat,
                        orig_cl_ord_id@,
                    ),
                )),
            field_value(msg@, "35"@) != Some("A"@) ==> final(self).next_seq == old(self).next_seq
                && final(strategy).oe_logon_ready == old(strategy).oe_logon_ready,
            field_value(msg@, "35"@) == Some("8"@) ==> if field_or_empty(msg@, "150"@).len() == 0 {
                r is MissingExecType
            } else {
                r matches OeEvent::Report(ev) && report_of(ev, msg@)
            },
            field_value(msg@, "35"@) != Some("A"@) && field_value(msg@, "35"@) != Some("8"@)
                ==> r is Ignored,
    {
        proof {
            reveal_strlit("A");
            reveal_strlit("8");
        }
        let now = utc_sending_time();
        let order_id = fresh_order_id();
        let ghost before = *self;
        let r = self.on_message_at(msg, strategy, now.as_str(), order_id);
        assert("A"@ =~= seq!['A'] && "8"@ =~= seq!['8']);
        if let OeEvent::LoggedOn { order, orig_cl_ord_id } = &r {
            assert(field_value(msg@, "35"@) == Some("A"@) ==> order@ == fix_message(
                new_order_fields(
                    before.sender@,
                    before.target@,
                    before.next_seq as int,
                    now@,
                    SYMBOL@,
                    Side::Buy,
                    ORDER_QTY as nat,
                    DEMO_PRICE as nat,
                    orig_cl_ord_id@,
                ),
            ));
        }
        assert("A"@ != "8"@) by {
            assert("A"@[0] != "8"@[0]);
        }
        r
    }

    /// The cancel of the self-test order at the current time, under a fresh random
    /// request id, with the next sequence number.
    pub fn cancel_demo_order(&mut self, orig_cl_ord_id: &str) -> (r: String)
        requires
            1 <= old(self).next_seq < i32::MAX,
        ensures
            final(self).sender == old(self).sender,
            final(self).target == old(self).target,
            final(self).next_seq == old(self).next_seq + 1,
            exists|now: Seq<char>, c: Seq<char>|
                r@ == fix_message(
                    #[trigger] cancel_fields(
                        old(self).sender@,
                        old(self).target@,
                        old(self).next_seq as int,
                        now,
                        SYMBOL@,
                        c,
                        orig_cl_ord_id@,
                    ),
                ),
    {
        let now = utc_sending_time();
        let cancel_id = fresh_order_id();
        self.cancel_demo_order_at(now.as_str(), cancel_id.as_str(), orig_cl_ord_id)
    }
}

} // verus!
