//! The session-level messages this client sends.
use vstd::prelude::*;
use vstd::utf8::encode_utf8;
use crate::message::{
    build_fix_message,
    decimal,
    digit_char,
    fix_message,
    push_decimal,
    push_signed_decimal,
    signed_decimal,
};
use crate::strategy::{Side, PRICE_SCALE};

verus! {

/// `tag` (with its `=`) followed by a signed decimal.
pub open spec fn int_field(tag: Seq<char>, n: int) -> Seq<char> {
    tag + signed_decimal(n)
}

/// The digits of `f` padded with zeros to exactly `k` places.
pub open spec fn padded_digits(f: nat, k: nat) -> Seq<char>
    decreases k,
{
    if k == 0 {
        seq![]
    } else {
        padded_digits(f / 10, (k - 1) as nat).push(digit_char(f % 10))
    }
}

/// The `k`-place fraction `f` without its trailing zeros.
pub open spec fn fraction_text(f: nat, k: nat) -> Seq<char>
    decreases k,
{
    if k > 0 && f % 10 == 0 {
        fraction_text(f / 10, (k - 1) as nat)
    } else {
        padded_digits(f, k)
    }
}

/// A fixed-point amount in plain decimal: whole part, then a point and the fraction
/// without trailing zeros where the fraction is not zero.
pub open spec fn amount_text(n: nat) -> Seq<char> {
    let whole = decimal(n / PRICE_SCALE as nat);
    let frac = n % PRICE_SCALE as nat;
    if frac == 0 {
        whole
    } else {
        whole + seq!['.'] + fraction_text(frac, 8)
    }
}

/// The side code of a new order: `1` buy, `2` sell.
pub open spec fn side_code(side: Side) -> Seq<char> {
    match side {
        Side::Buy => seq!['1'],
        Side::Sell => seq!['2'],
    }
}

fn push_padded(s: &mut String, f: u64, k: u64)
    requires
        k <= 8,
    ensures
        final(s)@ == old(s)@ + padded_digits(f as nat, k as nat),
    decreases k,
{
    if k > 0 {
        push_padded(s, f / 10, k - 1);
        let mut one = String::new();
        push_decimal(&mut one, f % 10);
        s.append(one.as_str());
        assert(final(s)@ =~= old(s)@ + padded_digits(f as nat, k as nat));
    }
}

/// Appends the plain decimal text of a fixed-point amount.
pub fn push_amount(s: &mut String, n: u64)
    ensures
        final(s)@ == old(s)@ + amount_text(n as nat),
{
    push_decimal(s, n / PRICE_SCALE);
    let frac = n % PRICE_SCALE;
    if frac != 0 {
        proof {
            reveal_strlit(".");
        }
        s.append(".");
        let mut f = frac;
        let mut k: u64 = 8;
        while k > 0 && f % 10 == 0
            invariant
                k <= 8,
                fraction_text(f as nat, k as nat) == fraction_text(frac as nat, 8),
            decreases k,
        {
            f = f / 10;
            k = k - 1;
        }
        push_padded(s, f, k);
        assert(final(s)@ =~= old(s)@ + amount_text(n as nat));
    }
}

fn text_field(tag: &str, value: &str) -> (r: String)
    ensures
        r@ == tag@ + value@,
{
    let mut r = String::from_str(tag);
    r.append(value);
    r
}

fn number_field(tag: &str, n: i64) -> (r: String)
    ensures
        r@ == int_field(tag@, n as int),
{
    let mut r = String::from_str(tag);
    push_signed_decimal(&mut r, n);
    r
}

/// The fields of a logon message.
pub open spec fn logon_fields(
    sender: Seq<char>,
    target: Seq<char>,
    seq_num: int,
    sending_time: Seq<char>,
    raw_data: Seq<char>,
    raw_len: nat,
    username: Seq<char>,
) -> Seq<Seq<char>> {
    seq![
        "8=FIX.4.4"@,
        "9=000"@,
        "35=A"@,
        int_field("34="@, seq_num),
        "49="@ + sender,
        "52="@ + sending_time,
        "56="@ + target,
        "95="@ + decimal(raw_len),
        "96="@ + raw_data,
        "98=0"@,
        "108=30"@,
        "141=Y"@,
        "553="@ + username,
        "25035=1"@,
    ]
}

/// The logon message: identities, the signed credential in raw-data fields 95/96
/// (95 holds its length in bytes), heartbeat interval 30 and the API key as user name.
pub fn build_logon_message(
    sender: &str,
    target: &str,
    seq_num: i32,
    sending_time: &str,
    raw_data: &str,
    username: &str,
) -> (r: String)
    ensures
        r@ == fix_message(
            logon_fields(
                sender@,
                target@,
                seq_num as int,
                sending_time@,
                raw_data@,
                encode_utf8(raw_data@).len(),
                username@,
            ),
        ),
{
    let raw_len = raw_data.as_bytes_vec().len();
    let mut len_field = String::from_str("95=");
    push_decimal(&mut len_field, raw_len as u64);
    let mut fields: Vec<String> = Vec::new();
    fields.push(String::from_str("8=FIX.4.4"));
    fields.push(String::from_str("9=000"));
    fields.push(String::from_str("35=A"));
    fields.push(number_field("34=", seq_num as i64));
    fields.push(text_field("49=", sender));
    fields.push(text_field("52=", sending_time));
    fields.push(text_field("56=", target));
    fields.push(len_field);
    fields.push(text_field("96=", raw_data));
    fields.push(String::from_str("98=0"));
    fields.push(String::from_str("108=30"));
    fields.push(String::from_str("141=Y"));
    fields.push(text_field("553=", username));
    fields.push(String::from_str("25035=1"));
    assert(fields.deep_view() =~= logon_fields(
        sender@,
        target@,
        seq_num as int,
        sending_time@,
        raw_data@,
        encode_utf8(raw_data@).len(),
        username@,
    ));
    build_fix_message(fields)
}

/// The fields of a heartbeat, with the echoed test request id where there is one.
pub open spec fn heartbeat_fields(
    sender: Seq<char>,
    target: Seq<char>,
    seq_num: int,
    sending_time: Seq<char>,
    test_req_id: Option<Seq<char>>,
) -> Seq<Seq<char>> {
    let base = seq![
        "8=FIX.4.4"@,
        "9=000"@,
        "35=0"@,
        int_field("34="@, seq_num),
        "49="@ + sender,
        "52="@ + sending_time,
        "56="@ + target,
    ];
    match test_req_id {
        Some(id) => base.push("112="@ + id),
        None => base,
    }
}

/// A heartbeat; in reply to a test request it carries the request's id in tag 112.
pub fn build_heartbeat_message(
    sender: &str,
    target: &str,
    seq_num: i32,
    sending_time: &str,
    test_req_id: Option<&str>,
) -> (r: String)
    ensures
        r@ == fix_message(
            heartbeat_fields(
                sender@,
                target@,
                seq_num as int,
                sending_time@,
                match test_req_id {
                    Some(id) => Some(id@),
                    None => None,
                },
            ),
        ),
{
    let mut fields: Vec<String> = Vec::new();
    fields.push(String::from_str("8=FIX.4.4"));
    fields.push(String::from_str("9=000"));
    fields.push(String::from_str("35=0"));
    fields.push(number_field("34=", seq_num as i64));
    fields.push(text_field("49=", sender));
    fields.push(text_field("52=", sending_time));
    fields.push(text_field("56=", target));
    match test_req_id {
        Some(id) => {
            fields.push(text_field("112=", id));
        },
        None => {},
    }
    assert(fields.deep_view() =~= heartbeat_fields(
        sender@,
        target@,
        seq_num as int,
        sending_time@,
        match test_req_id {
            Some(id) => Some(id@),
            None => None,
        },
    ));
    build_fix_message(fields)
}

/// One `269` field per entry type, in order.
pub open spec fn entry_type_fields(types: Seq<Seq<char>>) -> Seq<Seq<char>> {
    Seq::new(types.len(), |i: int| "269="@ + types[i])
}

/// The fields of a market data subscription request.
pub open spec fn market_data_request_fields(
    sender: Seq<char>,
    target: Seq<char>,
    seq_num: int,
    sending_time: Seq<char>,
    req_id: Seq<char>,
    symbol: Seq<char>,
    entry_types: Seq<Seq<char>>,
    market_depth: Option<int>,
) -> Seq<Seq<char>> {
    let base = seq![
        "8=FIX.4.4"@,
        "9=000"@,
        "35=V"@,
        "49="@ + sender,
        "56="@ + target,
        int_field("34="@, seq_num),
        "52="@ + sending_time,
        "262="@ + req_id,
        "263=1"@,
        "146=1"@,
        "55="@ + symbol,
        "267="@ + decimal(entry_types.len()),
    ] + entry_type_fields(entry_types);
    let with_depth = match market_depth {
        Some(d) => base.push(int_field("264="@, d)),
        None => base,
    };
    with_depth.push("266=Y"@)
}

/// A subscription (263=1) to one symbol, one 269 field per entry type, market depth
/// (264) where given, and aggregated book (266=Y).
pub fn build_market_data_request(
    sender: &str,
    target: &str,
    seq_num: i32,
    sending_time: &str,
    req_id: &str,
    symbol: &str,
    entry_types: &Vec<String>,
    market_depth: Option<i32>,
) -> (r: String)
    ensures
        r@ == fix_message(
            market_data_request_fields(
                sender@,
                target@,
                seq_num as int,
                sending_time@,
                req_id@,
                symbol@,
                entry_types.deep_view(),
                match market_depth {
                    Some(d) => Some(d as int),
                    None => None,
                },
            ),
        ),
{
    let ghost types = entry_types.deep_view();
    let mut count = String::from_str("267=");
    push_decimal(&mut count, entry_types.len() as u64);
    let mut fields: Vec<String> = Vec::new();
    fields.push(String::from_str("8=FIX.4.4"));
    fields.push(String::from_str("9=000"));
    fields.push(String::from_str("35=V"));
    fields.push(text_field("49=", sender));
    fields.push(text_field("56=", target));
    fields.push(number_field("34=", seq_num as i64));
    fields.push(text_field("52=", sending_time));
    fields.push(text_field("262=", req_id));
    fields.push(String::from_str("263=1"));
    fields.push(String::from_str("146=1"));
    fields.push(text_field("55=", symbol));
    fields.push(count);
    let ghost base = fields.deep_view();
    let mut i: usize = 0;
    while i < entry_types.len()
        invariant
            i <= entry_types@.len(),
            types == entry_types.deep_view(),
            base.len() == 12,
            fields.deep_view() =~= base + entry_type_fields(types.take(i as int)),
        decreases entry_types@.len() - i,
    {
        assert(entry_types@[i as int]@ == types[i as int]);
        let ghost prev = fields.deep_view();
        fields.push(text_field("269=", entry_types[i].as_str()));
        assert(fields.deep_view() =~= prev.push("269="@ + types[i as int]));
        assert(types.take(i + 1) =~= types.take(i as int).push(types[i as int]));
        assert(entry_type_fields(types.take(i + 1)) =~= entry_type_fields(types.take(i as int)).push(
            "269="@ + types[i as int],
        ));
        assert(fields.deep_view() =~= base + entry_type_fields(types.take(i + 1)));
        i = i + 1;
    }
    assert(types.take(i as int) =~= types);
    assert(fields.deep_view() =~= base + entry_type_fields(types));
    let ghost listed = fields.deep_view();
    match market_depth {
        Some(d) => {
            fields.push(number_field("264=", d as i64));
            assert(fields.deep_view() =~= listed.push(int_field("264="@, d as int)));
        },
        None => {},
    }
    let ghost with_depth = fields.deep_view();
    fields.push(String::from_str("266=Y"));
    assert(fields.deep_view() =~= with_depth.push("266=Y"@));
    assert(fields.deep_view() =~= market_data_request_fields(
        sender@,
        target@,
        seq_num as int,
        sending_time@,
        req_id@,
        symbol@,
        types,
        match market_depth {
            Some(d) => Some(d as int),
            None => None,
        },
    ));
    build_fix_message(fields)
}

/// The fields of a new limit order (good till cancel).
pub open spec fn new_order_fields(
    sender: Seq<char>,
    target: Seq<char>,
    seq_num: int,
    sending_time: Seq<char>,
    symbol: Seq<char>,
    side: Side,
    qty: nat,
    price: nat,
    cl_ord_id: Seq<char>,
) -> Seq<Seq<char>> {
    seq![
        "8=FIX.4.4"@,
        "9=000"@,
        "35=D"@,
        int_field("34="@, seq_num),
        "49="@ + sender,
        "56="@ + target,
        "52="@ + sending_time,
        "11="@ + cl_ord_id,
        "55="@ + symbol,
        "54="@ + side_code(side),
        "38="@ + amount_text(qty),
        "40=2"@,
        "44="@ + amount_text(price),
        "59=1"@,
    ]
}

/// A new single limit order; quantity and price are fixed-point amounts.
pub fn build_new_order_single(
    sender: &str,
    target: &str,
    seq_num: i32,
    sending_time: &str,
    symbol: &str,
    side: Side,
    qty: u64,
    price: u64,
    cl_ord_id: &str,
) -> (r: String)
    ensures
        r@ == fix_message(
            new_order_fields(
                sender@,
                target@,
                seq_num as int,
                sending_time@,
                symbol@,
                side,
                qty as nat,
                price as nat,
                cl_ord_id@,
            ),
        ),
{
    let mut qty_field = String::from_str("38=");
    push_amount(&mut qty_field, qty);
    let mut price_field = String::from_str("44=");
    push_amount(&mut price_field, price);
    proof {
        reveal_strlit("54=1");
        reveal_strlit("54=2");
        reveal_strlit("54=");
    }
    let side_field = match side {
        Side::Buy => String::from_str("54=1"),
        Side::Sell => String::from_str("54=2"),
    };
    assert(side_field@ =~= "54="@ + side_code(side));
    let mut fields: Vec<String> = Vec::new();
    fields.push(String::from_str("8=FIX.4.4"));
    fields.push(String::from_str("9=000"));
    fields.push(String::from_str("35=D"));
    fields.push(number_field("34=", seq_num as i64));
    fields.push(text_field("49=", sender));
    fields.push(text_field("56=", target));
    fields.push(text_field("52=", sending_time));
    fields.push(text_field("11=", cl_ord_id));
    fields.push(text_field("55=", symbol));
    fields.push(side_field);
    fields.push(qty_field);
    fields.push(String::from_str("40=2"));
    fields.push(price_field);
    fields.push(String::from_str("59=1"));
    assert(fields.deep_view() =~= new_order_fields(
        sender@,
        target@,
        seq_num as int,
        sending_time@,
        symbol@,
        side,
        qty as nat,
        price as nat,
        cl_ord_id@,
    ));
    build_fix_message(fields)
}

/// The fields of an order cancel request.
pub open spec fn cancel_fields(
    sender: Seq<char>,
    target: Seq<char>,
    seq_num: int,
    sending_time: Seq<char>,
    symbol: Seq<char>,
    cancel_cl_ord_id: Seq<char>,
    orig_cl_ord_id: Seq<char>,
) -> Seq<Seq<char>> {
    seq![
        "8=FIX.4.4"@,
        "9=000"@,
        "35=F"@,
        "49="@ + sender,
        "56="@ + target,
        int_field("34="@, seq_num),
        "52="@ + sending_time,
        "11="@ + cancel_cl_ord_id,
        "41="@ + orig_cl_ord_id,
        "55="@ + symbol,
    ]
}

/// A request to cancel the order `orig_cl_ord_id`, itself identified by `cancel_cl_ord_id`.
pub fn build_order_cancel_request(
    sender: &str,
    target: &str,
    seq_num: i32,
    sending_time: &str,
    symbol: &str,
    cancel_cl_ord_id: &str,
    orig_cl_ord_id: &str,
) -> (r: String)
    ensures
        r@ == fix_message(
            cancel_fields(
                sender@,
                target@,
                seq_num as int,
                sending_time@,
                symbol@,
                cancel_cl_ord_id@,
                orig_cl_ord_id@,
            ),
        ),
{
    let mut fields: Vec<String> = Vec::new();
    fields.push(String::from_str("8=FIX.4.4"));
    fields.push(String::from_str("9=000"));
    fields.push(String::from_str("35=F"));
    fields.push(text_field("49=", sender));
    fields.push(text_field("56=", target));
    fields.push(number_field("34=", seq_num as i64));
    fields.push(text_field("52=", sending_time));
    fields.push(text_field("11=", cancel_cl_ord_id));
    fields.push(text_field("41=", orig_cl_ord_id));
    fields.push(text_field("55=", symbol));
    assert(fields.deep_view() =~= cancel_fields(
        sender@,
        target@,
        seq_num as int,
        sending_time@,
        symbol@,
        cancel_cl_ord_id@,
        orig_cl_ord_id@,
    ));
    build_fix_message(fields)
}

} // verus!
