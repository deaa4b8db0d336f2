use base64::Engine;
use ed25519_dalek::{Signer, SigningKey, Verifier};
use fix_client::builders::{
    build_heartbeat_message, build_market_data_request, build_new_order_single,
    build_order_cancel_request,
};
use fix_client::credentials::{auth_payload, compute_raw_data, KeyError, SigningSecret};
use fix_client::message::{build_fix_message, extract_field};
use fix_client::session::{
    handle_execution_report, ExecutionEvent, MarketDataSession, MdState, OeEvent,
    OrderEntrySession,
};
use fix_client::strategy::{parse_price, OrderAction, Side, StrategyState, ORDER_QTY, PRICE_SCALE};

const SEED_HEX: &str = "9d61b19deffd5a60ba844af492ec2cc44449c5697b326919703bac031cae7f60";
const SEED_B64: &str = "nWGxne/9WmC6hEr0kuwsxERJxWl7MmkZcDusAxyuf2A=";
const PKCS8_B64: &str = "MC4CAQAwBQYDK2VwBCIEIJ1hsZ3v/VpguoRK9JLsLMREScVpezJpGXA7rAMcrn9g";
const TIME: &str = "20240101-00:00:00.000";

fn seed() -> [u8; 32] {
    let mut out = [0u8; 32];
    for i in 0..32 {
        out[i] = u8::from_str_radix(&SEED_HEX[2 * i..2 * i + 2], 16).unwrap();
    }
    out
}

fn msg(list: &[&str]) -> String {
    build_fix_message(list.iter().map(|s| s.to_string()).collect())
}

fn px(whole: u64) -> u64 {
    whole * PRICE_SCALE
}

fn ready_state() -> StrategyState {
    let mut st = StrategyState::new(px(100000));
    st.mark_order_entry_ready();
    st
}

#[test]
fn auth_payload_is_exact() {
    let p = auth_payload("AAAAAAAA", "TARGET", 1, TIME);
    assert_eq!(p, "A\x01AAAAAAAA\x01TARGET\x011\x0120240101-00:00:00.000");
}

#[test]
fn raw_data_signs_the_payload() {
    let key = SigningSecret::from_base64(SEED_B64).ok().unwrap();
    let raw = compute_raw_data(&key, "AAAAAAAA", "TARGET", 1, TIME);
    assert_eq!(
        raw,
        "qApJSuKL1oIMZ+YWwVWgEkghyInZSSgHW//BOsSmsFgsp9EoeONdCCY/5XTTVCQcW/ba0d3cdYagQysNrb7DAQ=="
    );
    let sk = SigningKey::from_bytes(&seed());
    let sig_bytes = base64::engine::general_purpose::STANDARD.decode(&raw).unwrap();
    let sig = ed25519_dalek::Signature::from_slice(&sig_bytes).unwrap();
    let payload = b"A\x01AAAAAAAA\x01TARGET\x011\x0120240101-00:00:00.000";
    assert!(sk.verifying_key().verify(payload, &sig).is_ok());
    assert_eq!(sk.sign(payload).to_bytes().to_vec(), sig_bytes);
}

#[test]
fn key_from_pkcs8_document() {
    let a = SigningSecret::from_base64(PKCS8_B64).ok().unwrap();
    let b = SigningSecret::from_base64(SEED_B64).ok().unwrap();
    let ra = compute_raw_data(&a, "S", "T", 3, TIME);
    let rb = compute_raw_data(&b, "S", "T", 3, TIME);
    assert_eq!(ra, rb);
}

#[test]
fn key_with_bad_length_is_refused() {
    let r = SigningSecret::from_base64("AAAA");
    assert_eq!(r.err(), Some(KeyError::InvalidKeyFormat));
}

#[test]
fn key_with_bad_base64_is_refused() {
    let r = SigningSecret::from_base64("not base64!");
    assert_eq!(r.err(), Some(KeyError::InvalidBase64));
}

#[test]
fn prices_parse_to_fixed_point() {
    assert_eq!(parse_price("102000"), Some(px(102000)));
    assert_eq!(parse_price("0.0001"), Some(ORDER_QTY));
    assert_eq!(parse_price("1.5"), Some(150_000_000));
    assert_eq!(parse_price("1."), Some(PRICE_SCALE));
    assert_eq!(parse_price("99999999999.99999999"), Some(9_999_999_999_999_999_999));
    assert_eq!(parse_price(""), None);
    assert_eq!(parse_price(".5"), None);
    assert_eq!(parse_price("1.000000001"), None);
    assert_eq!(parse_price("abc"), None);
}

#[test]
fn new_order_text() {
    let m = build_new_order_single("S", "T", 5, TIME, "BTCUSDT", Side::Sell, ORDER_QTY, px(102000), "ID1");
    let expected = msg(&[
        "8=FIX.4.4", "9=000", "35=D", "34=5", "49=S", "56=T", "52=20240101-00:00:00.000",
        "11=ID1", "55=BTCUSDT", "54=2", "38=0.0001", "40=2", "44=102000", "59=1",
    ]);
    assert_eq!(m, expected);
}

#[test]
fn new_order_fractional_price() {
    let m = build_new_order_single("S", "T", 5, TIME, "X", Side::Buy, ORDER_QTY, 150_000_000, "I");
    assert_eq!(extract_field(&m, "44").as_deref(), Some("1.5"));
    assert_eq!(extract_field(&m, "54").as_deref(), Some("1"));
}

#[test]
fn cancel_text() {
    let m = build_order_cancel_request("S", "T", 9, TIME, "BTCUSDT", "C1", "O1");
    let expected = msg(&[
        "8=FIX.4.4", "9=000", "35=F", "49=S", "56=T", "34=9", "52=20240101-00:00:00.000",
        "11=C1", "41=O1", "55=BTCUSDT",
    ]);
    assert_eq!(m, expected);
}

#[test]
fn heartbeat_echoes_test_request() {
    let m = build_heartbeat_message("S", "T", 3, TIME, Some("PING"));
    let expected = msg(&[
        "8=FIX.4.4", "9=000", "35=0", "34=3", "49=S", "52=20240101-00:00:00.000", "56=T",
        "112=PING",
    ]);
    assert_eq!(m, expected);
    let plain = build_heartbeat_message("S", "T", 3, TIME, None);
    assert_eq!(extract_field(&plain, "112"), None);
}

#[test]
fn market_data_request_text() {
    let types = vec!["0".to_string(), "1".to_string()];
    let m = build_market_data_request("S", "T", 2, TIME, "REQ", "BTCUSDT", &types, Some(1));
    let expected = msg(&[
        "8=FIX.4.4", "9=000", "35=V", "49=S", "56=T", "34=2", "52=20240101-00:00:00.000",
        "262=REQ", "263=1", "146=1", "55=BTCUSDT", "267=2", "269=0", "269=1", "264=1", "266=Y",
    ]);
    assert_eq!(m, expected);
}

#[test]
fn sell_signal_without_active_order() {
    let mut st = ready_state();
    let acts = st.on_tick("0", px(102000), "C".to_string(), "N".to_string());
    assert_eq!(acts.len(), 1);
    assert!(matches!(&acts[0], OrderAction::New { side: Side::Sell, price, cl_ord_id } if *price == px(102000) && cl_ord_id == "N"));
    assert_eq!(st.side, Some(Side::Sell));
    assert_eq!(st.active_order_id.as_deref(), Some("N"));
}

#[test]
fn sell_signal_cancels_active_order_first() {
    let mut st = ready_state();
    st.on_tick("1", px(98000), "C0".to_string(), "OLD".to_string());
    assert_eq!(st.side, Some(Side::Buy));
    let acts = st.on_tick("0", px(102000), "C".to_string(), "N".to_string());
    assert_eq!(acts.len(), 2);
    assert!(matches!(&acts[0], OrderAction::Cancel { cancel_id, orig_id } if cancel_id == "C" && orig_id == "OLD"));
    assert!(matches!(&acts[1], OrderAction::New { side: Side::Sell, cl_ord_id, .. } if cl_ord_id == "N"));
    assert_eq!(st.active_order_id.as_deref(), Some("N"));
}

#[test]
fn no_repeat_while_already_short() {
    let mut st = ready_state();
    st.on_tick("0", px(102000), "C".to_string(), "N".to_string());
    let acts = st.on_tick("0", px(103000), "C2".to_string(), "N2".to_string());
    assert!(acts.is_empty());
    assert_eq!(st.active_order_id.as_deref(), Some("N"));
}

#[test]
fn threshold_is_strict() {
    let mut st = ready_state();
    assert!(st.on_tick("0", px(101000), "C".to_string(), "N".to_string()).is_empty());
    assert!(st.on_tick("1", px(99000), "C".to_string(), "N".to_string()).is_empty());
    assert_eq!(st.on_tick("1", px(99000) - 1, "C".to_string(), "N".to_string()).len(), 1);
}

#[test]
fn unready_order_entry_sends_nothing() {
    let mut st = StrategyState::new(px(100000));
    assert!(st.on_tick("0", px(102000), "C".to_string(), "N".to_string()).is_empty());
    assert!(st.on_tick("1", px(90000), "C".to_string(), "N".to_string()).is_empty());
    assert_eq!(st.side, None);
    assert_eq!(st.active_order_id, None);
}

#[test]
fn id_and_side_move_together() {
    let mut st = ready_state();
    let ticks = [("0", 102000), ("1", 98000), ("1", 97000), ("0", 100000), ("0", 105000), ("2", 1)];
    for (i, (tag, p)) in ticks.iter().enumerate() {
        st.on_tick(tag, px(*p), format!("c{}", i), format!("o{}", i));
        assert_eq!(st.active_order_id.is_some(), st.side.is_some());
    }
}

#[test]
fn market_data_session_flow() {
    let key = SigningSecret::from_base64(SEED_B64).ok().unwrap();
    let (mut s, logon) = MarketDataSession::open("SENDER01", "TARGET", &key, "APIKEY", TIME);
    assert_eq!(extract_field(&logon, "34").as_deref(), Some("1"));
    assert_eq!(extract_field(&logon, "553").as_deref(), Some("APIKEY"));
    let raw = compute_raw_data(&key, "SENDER01", "TARGET", 1, TIME);
    assert_eq!(extract_field(&logon, "96"), Some(raw.clone()));
    assert_eq!(extract_field(&logon, "95"), Some(raw.len().to_string()));
    let mut st = ready_state();

    let out = s.on_message_at(&msg(&["8=FIX.4.4", "9=0", "35=A"]), &mut st, TIME, "c".into(), "o".into());
    assert_eq!(out.outbound.len(), 1);
    assert_eq!(extract_field(&out.outbound[0], "35").as_deref(), Some("V"));
    assert_eq!(extract_field(&out.outbound[0], "34").as_deref(), Some("2"));
    assert_eq!(s.state, MdState::Streaming);

    let out = s.on_message_at(&msg(&["8=FIX.4.4", "9=0", "35=1", "112=T1"]), &mut st, TIME, "c".into(), "o".into());
    assert_eq!(out.outbound, vec![build_heartbeat_message("SENDER01", "TARGET", 3, TIME, Some("T1"))]);

    let tick = msg(&["8=FIX.4.4", "9=0", "35=X", "55=BTCUSDT", "269=0", "270=102000.00", "271=1"]);
    let out = s.on_message_at(&tick, &mut st, TIME, "c".into(), "o".into());
    assert_eq!(out.outbound, vec![build_new_order_single("SENDER01", "TARGET", 4, TIME, "BTCUSDT", Side::Sell, ORDER_QTY, px(102000), "o")]);
    assert_eq!(s.next_seq, 5);

    let out = s.on_message_at(&msg(&["8=FIX.4.4", "9=0", "35=0"]), &mut st, TIME, "c".into(), "o".into());
    assert!(out.outbound.is_empty() && !out.stop);

    let out = s.on_message_at(&msg(&["8=FIX.4.4", "9=0", "35=5"]), &mut st, TIME, "c".into(), "o".into());
    assert!(out.outbound.is_empty() && out.stop);
    assert_eq!(s.state, MdState::Terminated);
}

#[test]
fn order_entry_session_flow() {
    let key = SigningSecret::from_base64(SEED_B64).ok().unwrap();
    let (mut s, _logon) = OrderEntrySession::open("SENDER02", "TARGET", &key, "APIKEY", TIME);
    let mut st = StrategyState::new(px(100000));
    let ev = s.on_message_at(&msg(&["8=FIX.4.4", "9=0", "35=A"]), &mut st, TIME, "DEMO".into());
    assert!(st.oe_logon_ready);
    match ev {
        OeEvent::LoggedOn { order, orig_cl_ord_id } => {
            assert_eq!(orig_cl_ord_id, "DEMO");
            assert_eq!(order, build_new_order_single("SENDER02", "TARGET", 2, TIME, "BTCUSDT", Side::Buy, ORDER_QTY, px(100000), "DEMO"));
        }
        _ => panic!("expected a logon"),
    }
    let cancel = s.cancel_demo_order_at(TIME, "CX", "DEMO");
    assert_eq!(cancel, build_order_cancel_request("SENDER02", "TARGET", 3, TIME, "BTCUSDT", "CX", "DEMO"));
    let ev = s.on_message_at(&msg(&["8=FIX.4.4", "9=0", "35=8", "11=DEMO"]), &mut st, TIME, "x".into());
    assert!(matches!(ev, OeEvent::MissingExecType));
    let ev = s.on_message_at(&msg(&["8=FIX.4.4", "9=0", "35=8", "150=4", "11=DEMO"]), &mut st, TIME, "x".into());
    assert!(matches!(ev, OeEvent::Report(ExecutionEvent::Canceled { .. })));
    assert_eq!(s.next_seq, 4);
}

#[test]
fn execution_report_kinds() {
    let acc = msg(&["8=FIX.4.4", "9=0", "35=8", "150=0", "11=A1", "55=BTCUSDT", "54=1", "38=0.0001", "44=100000"]);
    match handle_execution_report(&acc) {
        ExecutionEvent::Accepted { symbol, side, qty, price, cl_ord_id } => {
            assert_eq!((symbol.as_str(), side.as_str(), qty.as_str(), price.as_str(), cl_ord_id.as_str()), ("BTCUSDT", "1", "0.0001", "100000", "A1"));
        }
        _ => panic!("expected accepted"),
    }
    let rej = msg(&["8=FIX.4.4", "9=0", "35=8", "150=8", "11=R1", "58=no funds"]);
    assert!(matches!(handle_execution_report(&rej), ExecutionEvent::Rejected { cl_ord_id, reason } if cl_ord_id == "R1" && reason == "no funds"));
    let unk = msg(&["8=FIX.4.4", "9=0", "35=8", "150=F", "11=U1"]);
    assert!(matches!(handle_execution_report(&unk), ExecutionEvent::Unknown { exec_type, .. } if exec_type == "F"));
}

#[test]
fn live_clock_and_fresh_ids() {
    let key = SigningSecret::from_base64(SEED_B64).ok().unwrap();
    let (mut s, _) = MarketDataSession::open("SENDER01", "TARGET", &key, "APIKEY", TIME);
    let mut st = ready_state();
    let out = s.on_message(&msg(&["8=FIX.4.4", "9=0", "35=A"]), &mut st);
    assert_eq!(out.outbound.len(), 1);
    let time = extract_field(&out.outbound[0], "52").unwrap();
    assert_eq!(time.len(), 21);
    assert_ne!(time, TIME);
    let tick = msg(&["8=FIX.4.4", "9=0", "35=W", "55=BTCUSDT", "269=1", "270=95000", "271=2"]);
    let out = s.on_message(&tick, &mut st);
    assert_eq!(out.outbound.len(), 1);
    let id = extract_field(&out.outbound[0], "11").unwrap();
    assert_eq!(id.len(), 36);
    assert_eq!(st.active_order_id.as_deref(), Some(id.as_str()));
    assert_eq!(st.side, Some(Side::Buy));
}

#[test]
fn demo_order_gets_fresh_ids() {
    let key = SigningSecret::from_base64(SEED_B64).ok().unwrap();
    let (mut s, _) = OrderEntrySession::open("SENDER02", "TARGET", &key, "APIKEY", TIME);
    let mut st = StrategyState::new(px(100000));
    let orig = match s.on_message(&msg(&["8=FIX.4.4", "9=0", "35=A"]), &mut st) {
        OeEvent::LoggedOn { order, orig_cl_ord_id } => {
            assert_eq!(extract_field(&order, "11"), Some(orig_cl_ord_id.clone()));
            orig_cl_ord_id
        }
        _ => panic!("expected a logon"),
    };
    assert_eq!(orig.len(), 36);
    let cancel = s.cancel_demo_order(&orig);
    assert_eq!(extract_field(&cancel, "41"), Some(orig.clone()));
    let cancel_id = extract_field(&cancel, "11").unwrap();
    assert_eq!(cancel_id.len(), 36);
    assert_ne!(cancel_id, orig);
}
