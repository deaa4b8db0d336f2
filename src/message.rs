//! Building FIX messages with their trailers, and reading fields back out of them.
use vstd::prelude::*;
use vstd::utf8::encode_utf8;
use vstd::arithmetic::div_mod::lemma_add_mod_noop;

verus! {

/// The delimiter that ends every field, as a character.
pub open spec fn soh() -> char {
    '\x01'
}

/// The decimal digit character for `d < 10`.
pub open spec fn digit_char(d: nat) -> char {
    if d == 0 {
        '0'
    } else if d == 1 {
        '1'
    } else if d == 2 {
        '2'
    } else if d == 3 {
        '3'
    } else if d == 4 {
        '4'
    } else if d == 5 {
        '5'
    } else if d == 6 {
        '6'
    } else if d == 7 {
        '7'
    } else if d == 8 {
        '8'
    } else {
        '9'
    }
}

/// The decimal digits of `n`, most significant first, with no leading zeros.
pub open spec fn decimal(n: nat) -> Seq<char>
    decreases n,
{
    if n < 10 {
        seq![digit_char(n)]
    } else {
        decimal(n / 10).push(digit_char(n % 10))
    }
}

/// The decimal form of a signed integer, with a leading `-` when it is negative.
pub open spec fn signed_decimal(n: int) -> Seq<char> {
    if n < 0 {
        seq!['-'] + decimal((-n) as nat)
    } else {
        decimal(n as nat)
    }
}

/// `n < 1000` written with exactly three digits, zero padded.
pub open spec fn three_digits(n: nat) -> Seq<char> {
    seq![digit_char(n / 100), digit_char((n / 10) % 10), digit_char(n % 10)]
}

/// The fields of `fs`, joined by the delimiter.
pub open spec fn join_fields(fs: Seq<Seq<char>>) -> Seq<char>
    decreases fs.len(),
{
    if fs.len() == 0 {
        seq![]
    } else if fs.len() == 1 {
        fs[0]
    } else {
        join_fields(fs.drop_last()) + seq![soh()] + fs.last()
    }
}

/// The body: every field from the third on, each followed by the delimiter.
pub open spec fn body_of(fs: Seq<Seq<char>>) -> Seq<char> {
    join_fields(fs.skip(2)) + seq![soh()]
}

/// The message up to its checksum: begin string, body length in bytes, body.
pub open spec fn head_of(fs: Seq<Seq<char>>) -> Seq<char> {
    let body = body_of(fs);
    fs[0] + seq![soh()] + seq!['9', '='] + decimal(encode_utf8(body).len()) + seq![soh()] + body
}

/// The sum of the bytes of `b`.
pub open spec fn byte_sum(b: Seq<u8>) -> nat
    decreases b.len(),
{
    if b.len() == 0 {
        0
    } else {
        byte_sum(b.drop_last()) + b.last() as nat
    }
}

/// The checksum of a message head: the sum of its UTF-8 bytes modulo 256.
pub open spec fn checksum_of(head: Seq<char>) -> nat {
    byte_sum(encode_utf8(head)) % 256
}

/// The finished message for the field list `fs`.
pub open spec fn fix_message(fs: Seq<Seq<char>>) -> Seq<char> {
    let head = head_of(fs);
    head + seq!['1', '0', '='] + three_digits(checksum_of(head)) + seq![soh()]
}

/// The delimiter as a one-character string.
pub fn delimiter() -> (r: &'static str)
    ensures
        r@ == seq![soh()],
{
    proof {
        reveal_strlit("\x01");
    }
    let r = "\x01";
    assert(r@ =~= seq![soh()]);
    r
}

fn digit_str(d: u64) -> (r: &'static str)
    requires
        d < 10,
    ensures
        r@ == seq![digit_char(d as nat)],
{
    proof {
        reveal_strlit("0");
        reveal_strlit("1");
        reveal_strlit("2");
        reveal_strlit("3");
        reveal_strlit("4");
        reveal_strlit("5");
        reveal_strlit("6");
        reveal_strlit("7");
        reveal_strlit("8");
        reveal_strlit("9");
    }
    if d == 0 {
        "0"
    } else if d == 1 {
        "1"
    } else if d == 2 {
        "2"
    } else if d == 3 {
        "3"
    } else if d == 4 {
        "4"
    } else if d == 5 {
        "5"
    } else if d == 6 {
        "6"
    } else if d == 7 {
        "7"
    } else if d == 8 {
        "8"
    } else {
        "9"
    }
}

/// Appends the decimal digits of `n` to `s`.
pub fn push_decimal(s: &mut String, n: u64)
    ensures
        final(s)@ == old(s)@ + decimal(n as nat),
    decreases n,
{
    if n >= 10 {
        push_decimal(s, n / 10);
    }
    s.append(digit_str(n % 10));
    assert(final(s)@ =~= old(s)@ + decimal(n as nat));
}

/// Appends the decimal form of a signed integer to `s`.
pub fn push_signed_decimal(s: &mut String, n: i64)
    ensures
        final(s)@ == old(s)@ + signed_decimal(n as int),
{
    if n < 0 {
        proof {
            reveal_strlit("-");
        }
        s.append("-");
        let m: u64 = if n == i64::MIN {
            9223372036854775808u64
        } else {
            (-n) as u64
        };
        push_decimal(s, m);
        assert(final(s)@ =~= old(s)@ + signed_decimal(n as int));
    } else {
        push_decimal(s, n as u64);
    }
}

/// Appends the three-digit form of `n < 1000` to `s`.
pub fn push_three_digits(s: &mut String, n: u64)
    requires
        n < 1000,
    ensures
        final(s)@ == old(s)@ + three_digits(n as nat),
{
    s.append(digit_str(n / 100));
    s.append(digit_str((n / 10) % 10));
    s.append(digit_str(n % 10));
    assert(final(s)@ =~= old(s)@ + three_digits(n as nat));
}

/// The sum of `bytes` modulo 256.
pub fn byte_sum_mod_256(bytes: &Vec<u8>) -> (r: u64)
    ensures
        r as nat == byte_sum(bytes@) % 256,
{
    let mut acc: u64 = 0;
    let mut i: usize = 0;
    while i < bytes.len()
        invariant
            i <= bytes@.len(),
            acc as nat == byte_sum(bytes@.take(i as int)) % 256,
        decreases bytes@.len() - i,
    {
        let ghost prev = bytes@.take(i as int);
        assert(bytes@.take(i + 1).drop_last() =~= prev);
        proof {
            lemma_add_mod_noop(byte_sum(prev) as int, bytes@[i as int] as int, 256);
        }
        acc = (acc + bytes[i] as u64) % 256;
        i = i + 1;
    }
    assert(bytes@.take(i as int) =~= bytes@);
    acc
}

/// Turns an ordered field list into a finished message.
///
/// The first two fields stand for the begin string and the body length; the second
/// is replaced. The body is every field from the third on, joined by the delimiter,
/// with a delimiter after the last; `9=<body length in bytes>` follows the begin
/// string, and `10=<byte sum modulo 256, three digits>` and a delimiter close the
/// message.
pub fn build_fix_message(fields: Vec<String>) -> (r: String)
    requires
        fields@.len() >= 2,
    ensures
        r@ == fix_message(fields.deep_view()),
{
    let ghost fs = fields.deep_view();
    proof {
        reveal_strlit("\x01");
        reveal_strlit("9=");
        reveal_strlit("10=");
    }
    let mut body = String::new();
    let mut i: usize = 2;
    while i < fields.len()
        invariant
            2 <= i <= fields@.len(),
            fs == fields.deep_view(),
            body@ == join_fields(fs.subrange(2, i as int)),
        decreases fields@.len() - i,
    {
        let ghost before = fs.subrange(2, i as int);
        assert(fs.subrange(2, i + 1).drop_last() =~= before);
        if i > 2 {
            body.append(delimiter());
            assert(body@ == join_fields(before) + seq![soh()]);
        } else {
            assert(before.len() == 0);
        }
        assert(fields@[i as int]@ == fs[i as int]);
        assert(fs.subrange(2, i + 1).last() == fs[i as int]);
        let ghost mid = body@;
        body.append(fields[i].as_str());
        assert(body@ == mid + fs[i as int]);
        let ghost after = fs.subrange(2, i + 1);
        if i > 2 {
            assert(join_fields(after) == join_fields(after.drop_last()) + seq![soh()] + after.last());
        } else {
            assert(join_fields(after) == after[0]);
        }
        assert(body@ =~= join_fields(after));
        i = i + 1;
    }
    assert(fs.subrange(2, i as int) =~= fs.skip(2));
    body.append(delimiter());
    let body_len = body.as_str().as_bytes_vec().len();
    assert(fields@[0]@ == fs[0]);
    let mut head = String::from_str(fields[0].as_str());
    head.append(delimiter());
    head.append("9=");
    push_decimal(&mut head, body_len as u64);
    head.append(delimiter());
    head.append(body.as_str());
    assert(head@ =~= head_of(fs));
    let bytes = head.as_str().as_bytes_vec();
    let checksum = byte_sum_mod_256(&bytes);
    let mut msg = head;
    msg.append("10=");
    push_three_digits(&mut msg, checksum);
    msg.append(delimiter());
    assert(msg@ =~= fix_message(fs));
    msg
}

/// `pat` occurs in `s` at offset `p`.
pub open spec fn occurs_at(s: Seq<char>, pat: Seq<char>, p: int) -> bool {
    0 <= p && p + pat.len() <= s.len() && s.subrange(p, p + pat.len()) == pat
}

/// A field starts at offset `p` of `s` (at the start, or right after a delimiter)
/// and opens with `pat`.
pub open spec fn field_at(s: Seq<char>, pat: Seq<char>, p: int) -> bool {
    occurs_at(s, pat, p) && (p == 0 || s[p - 1] == soh())
}

/// `p` is the leftmost field of `s` that opens with `pat`.
pub open spec fn first_occurrence(s: Seq<char>, pat: Seq<char>, p: int) -> bool {
    field_at(s, pat, p) && forall|q: int| 0 <= q < p ==> !field_at(s, pat, q)
}

/// A value that starts at `a` ends at `e`: at the next delimiter, or at the end of `s`.
pub open spec fn value_ends(s: Seq<char>, a: int, e: int) -> bool {
    a <= e <= s.len() && (forall|k: int| a <= k < e ==> s[k] != soh()) && (e == s.len() || s[e]
        == soh())
}

/// The value of the first field of `m` whose tag is `tag`, scanning fields left to
/// right: what follows `tag=` up to the next delimiter or the end of `m`; `None` where
/// no field has that tag.
pub open spec fn field_value(m: Seq<char>, tag: Seq<char>) -> Option<Seq<char>> {
    let pat = tag.push('=');
    if exists|p: int| first_occurrence(m, pat, p) {
        let a = (choose|p: int| first_occurrence(m, pat, p)) + pat.len();
        Some(m.subrange(a, choose|e: int| value_ends(m, a, e)))
    } else {
        None
    }
}

proof fn lemma_first_occurrence_unique(s: Seq<char>, pat: Seq<char>, p: int, q: int)
    requires
        first_occurrence(s, pat, p),
        first_occurrence(s, pat, q),
    ensures
        p == q,
{
}

proof fn lemma_value_ends_unique(s: Seq<char>, a: int, e: int, e2: int)
    requires
        value_ends(s, a, e),
        value_ends(s, a, e2),
    ensures
        e == e2,
{
    if e < e2 {
        assert(s[e] != soh());
    } else if e2 < e {
        assert(s[e2] != soh());
    }
}

fn tag_at(message: &str, tag: &str, tlen: usize, p: usize) -> (r: bool)
    requires
        tlen == tag@.len(),
        p + tlen + 1 <= message@.len() <= usize::MAX,
    ensures
        r == occurs_at(message@, tag@.push('='), p as int),
{
    let ghost pat = tag@.push('=');
    let mut k: usize = 0;
    while k < tlen
        invariant
            tlen == tag@.len(),
            p + tlen + 1 <= message@.len() <= usize::MAX,
            pat == tag@.push('='),
            k <= tlen,
            forall|j: int| 0 <= j < k ==> message@[p + j] == tag@[j],
        decreases tlen - k,
    {
        if message.get_char(p + k) != tag.get_char(k) {
            assert(message@.subrange(p as int, p + pat.len())[k as int] != pat[k as int]);
            return false;
        }
        k = k + 1;
    }
    if message.get_char(p + tlen) != '=' {
        assert(message@.subrange(p as int, p + pat.len())[tlen as int] != pat[tlen as int]);
        return false;
    }
    assert(message@.subrange(p as int, p + pat.len()) =~= pat);
    true
}

/// Looks up the value of `tag` in a raw message.
///
/// Finds the first field from the left that starts with `tag=` and returns what
/// follows up to the next delimiter, or to the end of the message where no delimiter
/// follows; `None` where no field has that tag.
pub fn extract_field(message: &str, tag: &str) -> (r: Option<String>)
    ensures
        match r {
            Some(v) => field_value(message@, tag@) == Some(v@),
            None => field_value(message@, tag@) is None,
        },
{
    let ghost m = message@;
    let ghost pat = tag@.push('=');
    let mlen = message.unicode_len();
    let tlen = tag.unicode_len();
    if tlen >= mlen {
        assert forall|q: int| !first_occurrence(m, pat, q) by {}
        return None;
    }
    let plen = tlen + 1;
    let mut p: usize = 0;
    while p <= mlen - plen
        invariant
            mlen == m.len(),
            m == message@,
            pat == tag@.push('='),
            tlen == tag@.len(),
            plen == tlen + 1,
            plen <= mlen,
            forall|q: int| 0 <= q < p ==> !field_at(m, pat, q),
        decreases mlen - p,
    {
        let at_field = p == 0 || message.get_char(p - 1) == '\x01';
        if at_field && tag_at(message, tag, tlen, p) {
            assert(first_occurrence(m, pat, p as int));
            let a = p + plen;
            let mut e: usize = a;
            while e < mlen && message.get_char(e) != '\x01'
                invariant
                    mlen == m.len(),
                    m == message@,
                    a <= e <= mlen,
                    forall|k: int| a <= k < e ==> m[k] != soh(),
                decreases mlen - e,
            {
                e = e + 1;
            }
            assert(value_ends(m, a as int, e as int));
            proof {
                let p2 = choose|q: int| first_occurrence(m, pat, q);
                lemma_first_occurrence_unique(m, pat, p as int, p2);
                let e2 = choose|x: int| value_ends(m, a as int, x);
                lemma_value_ends_unique(m, a as int, e as int, e2);
            }
            let v = String::from_str(message.substring_char(a, e));
            return Some(v);
        }
        p = p + 1;
    }
    assert forall|q: int| !first_occurrence(m, pat, q) by {
        if first_occurrence(m, pat, q) {
            assert(!field_at(m, pat, q));
        }
    }
    None
}

/// Where field `k` (from the third on) starts in the message for `fs`.
pub open spec fn field_offset(fs: Seq<Seq<char>>, k: int) -> int {
    let pre = fs[0] + seq![soh()] + seq!['9', '='] + decimal(encode_utf8(body_of(fs)).len())
        + seq![soh()];
    if k == 2 {
        pre.len() as int
    } else {
        (pre.len() + join_fields(fs.subrange(2, k)).len() + 1) as int
    }
}

proof fn lemma_join_split(g: Seq<Seq<char>>, j: int) -> (rest: Seq<char>)
    requires
        0 <= j < g.len(),
    ensures
        join_fields(g) + seq![soh()] == (if j == 0 {
            Seq::<char>::empty()
        } else {
            join_fields(g.take(j)) + seq![soh()]
        }) + g[j] + seq![soh()] + rest,
    decreases g.len(),
{
    if j == g.len() - 1 {
        if g.len() > 1 {
            assert(g.take(j) =~= g.drop_last());
        }
        let rest = Seq::<char>::empty();
        assert(join_fields(g) + seq![soh()] =~= (if j == 0 {
            Seq::<char>::empty()
        } else {
            join_fields(g.take(j)) + seq![soh()]
        }) + g[j] + seq![soh()] + rest);
        rest
    } else {
        let d = g.drop_last();
        let r = lemma_join_split(d, j);
        assert(d.take(j) =~= g.take(j));
        let rest = r + g.last() + seq![soh()];
        assert(join_fields(g) + seq![soh()] =~= (if j == 0 {
            Seq::<char>::empty()
        } else {
            join_fields(g.take(j)) + seq![soh()]
        }) + g[j] + seq![soh()] + rest);
        rest
    }
}

/// Reading back what was built: where field `k` of `fs` is `tag=value`, `value`
/// holds no delimiter and no field of the message before it has the tag `tag`,
/// the message built from `fs` yields `value` for `tag`.
pub proof fn lemma_built_field_found(
    fs: Seq<Seq<char>>,
    k: int,
    tag: Seq<char>,
    value: Seq<char>,
)
    requires
        2 <= k < fs.len(),
        fs[k] == tag.push('=') + value,
        forall|i: int| 0 <= i < value.len() ==> value[i] != soh(),
        forall|q: int|
            0 <= q < field_offset(fs, k) ==> !field_at(fix_message(fs), tag.push('='), q),
    ensures
        field_value(fix_message(fs), tag) == Some(value),
{
    let pat = tag.push('=');
    let msg = fix_message(fs);
    let g = fs.skip(2);
    let j = k - 2;
    let rest = lemma_join_split(g, j);
    assert(g.take(j) =~= fs.subrange(2, k));
    assert(g[j] == fs[k]);
    let head = head_of(fs);
    let pre = fs[0] + seq![soh()] + seq!['9', '='] + decimal(encode_utf8(body_of(fs)).len())
        + seq![soh()];
    let before = if j == 0 {
        Seq::<char>::empty()
    } else {
        join_fields(g.take(j)) + seq![soh()]
    };
    let trailer = seq!['1', '0', '='] + three_digits(checksum_of(head)) + seq![soh()];
    assert(msg =~= (pre + before) + (pat + value) + seq![soh()] + (rest + trailer));
    let p = field_offset(fs, k);
    assert(p == (pre + before).len());
    let a = p + pat.len();
    let e = a + value.len();
    assert(msg.subrange(p, p + pat.len()) =~= pat);
    assert(msg[p - 1] == soh());
    assert(first_occurrence(msg, pat, p));
    assert(msg.subrange(a, e) =~= value);
    assert forall|x: int| a <= x < e implies msg[x] != soh() by {
        assert(msg[x] == value[x - a]);
    }
    assert(msg[e] == soh());
    assert(value_ends(msg, a, e));
    let p2 = choose|q: int| first_occurrence(msg, pat, q);
    lemma_first_occurrence_unique(msg, pat, p, p2);
    let e2 = choose|x: int| value_ends(msg, a, x);
    lemma_value_ends_unique(msg, a, e, e2);
}

} // verus!
