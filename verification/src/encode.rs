//! Wire-format encoding of dispatch outcomes, and the decoding needed to
//! read a length-prefixed buffer back.
//!
//! Three modes are supported:
//! - structured value: the bytes of `{"err":null,"ok":{}}` on success,
//!   or `{"err":"<message>","ok":null}` on failure;
//! - status byte: `0` on success, `1` on failure;
//! - tagged buffer: a 4-byte big-endian length prefix followed by the
//!   bytes of `{"type":"success"}` or of
//!   `{"type":"error","when":"<stage>","message":"<message>"}`.
//!
//! Wherever a message is embedded in JSON text, every double quote and
//! backslash in it is escaped with a backslash first.

use vstd::prelude::*;
use crate::request::{Outcome, OutcomeModel, Stage};

verus! {

pub const QUOTE: u8 = 34;

pub const BACKSLASH: u8 = 92;

/// The bytes of `{"type":"success"}`.
pub open spec fn success_payload() -> Seq<u8> {
    seq![123u8, 34u8, 116u8, 121u8, 112u8, 101u8, 34u8, 58u8, 34u8, 115u8, 117u8, 99u8, 99u8,
        101u8, 115u8, 115u8, 34u8, 125u8]
}

/// The bytes of `{"type":"error","when":"`.
pub open spec fn err_head() -> Seq<u8> {
    seq![123u8, 34u8, 116u8, 121u8, 112u8, 101u8, 34u8, 58u8, 34u8, 101u8, 114u8, 114u8, 111u8,
        114u8, 34u8, 44u8, 34u8, 119u8, 104u8, 101u8, 110u8, 34u8, 58u8, 34u8]
}

/// The bytes of `","message":"`.
pub open spec fn err_mid() -> Seq<u8> {
    seq![34u8, 44u8, 34u8, 109u8, 101u8, 115u8, 115u8, 97u8, 103u8, 101u8, 34u8, 58u8, 34u8]
}

/// The bytes of `"}`.
pub open spec fn err_tail() -> Seq<u8> {
    seq![34u8, 125u8]
}

/// The bytes of `parsing_input`.
pub open spec fn stage_parsing() -> Seq<u8> {
    seq![112u8, 97u8, 114u8, 115u8, 105u8, 110u8, 103u8, 95u8, 105u8, 110u8, 112u8, 117u8, 116u8]
}

/// The bytes of `sending_notification`.
pub open spec fn stage_sending() -> Seq<u8> {
    seq![115u8, 101u8, 110u8, 100u8, 105u8, 110u8, 103u8, 95u8, 110u8, 111u8, 116u8, 105u8,
        102u8, 105u8, 99u8, 97u8, 116u8, 105u8, 111u8, 110u8]
}

/// The bytes of `{"err":null,"ok":{}}`.
pub open spec fn ok_structured() -> Seq<u8> {
    seq![123u8, 34u8, 101u8, 114u8, 114u8, 34u8, 58u8, 110u8, 117u8, 108u8, 108u8, 44u8, 34u8,
        111u8, 107u8, 34u8, 58u8, 123u8, 125u8, 125u8]
}

/// The bytes of `{"err":"`.
pub open spec fn structured_head() -> Seq<u8> {
    seq![123u8, 34u8, 101u8, 114u8, 114u8, 34u8, 58u8, 34u8]
}

/// The bytes of `","ok":null}`.
pub open spec fn structured_tail() -> Seq<u8> {
    seq![34u8, 44u8, 34u8, 111u8, 107u8, 34u8, 58u8, 110u8, 117u8, 108u8, 108u8, 125u8]
}

/// The wire name of a stage.
pub open spec fn stage_ref(s: Stage) -> Seq<u8> {
    match s {
        Stage::ParsingInput => stage_parsing(),
        Stage::SendingNotification => stage_sending(),
    }
}

/// `message` with every double quote and backslash preceded by a
/// backslash.
pub open spec fn escape_bytes(m: Seq<u8>) -> Seq<u8>
    decreases m.len(),
{
    if m.len() == 0 {
        Seq::empty()
    } else {
        let head: Seq<u8> = if m[0] == QUOTE || m[0] == BACKSLASH {
            seq![BACKSLASH, m[0]]
        } else {
            seq![m[0]]
        };
        head + escape_bytes(m.drop_first())
    }
}

/// Escaping distributes over concatenation.
pub proof fn lemma_escape_concat(a: Seq<u8>, b: Seq<u8>)
    ensures
        escape_bytes(a + b) == escape_bytes(a) + escape_bytes(b),
    decreases a.len(),
{
    if a.len() == 0 {
        assert(a + b =~= b);
        assert(escape_bytes(a) + escape_bytes(b) =~= escape_bytes(b));
    } else {
        lemma_escape_concat(a.drop_first(), b);
        assert((a + b).drop_first() =~= a.drop_first() + b);
        assert((a + b)[0] == a[0]);
        let head: Seq<u8> = if a[0] == QUOTE || a[0] == BACKSLASH {
            seq![BACKSLASH, a[0]]
        } else {
            seq![a[0]]
        };
        assert(escape_bytes(a + b) == head + (escape_bytes(a.drop_first()) + escape_bytes(b)));
        assert(head + (escape_bytes(a.drop_first()) + escape_bytes(b)) =~= (head + escape_bytes(
            a.drop_first(),
        )) + escape_bytes(b));
    }
}

/// An escaped message is at most twice as long as the original.
pub proof fn lemma_escape_len(m: Seq<u8>)
    ensures
        m.len() <= escape_bytes(m).len() <= 2 * m.len(),
    decreases m.len(),
{
    if m.len() > 0 {
        lemma_escape_len(m.drop_first());
    }
}

/// Escapes every double quote and backslash of `m` with a backslash.
pub fn escape_message(m: &Vec<u8>) -> (r: Vec<u8>)
    ensures
        r@ == escape_bytes(m@),
{
    let mut r: Vec<u8> = Vec::new();
    let mut i: usize = 0;
    while i < m.len()
        invariant
            i <= m.len(),
            r@ == escape_bytes(m@.take(i as int)),
        decreases m.len() - i,
    {
        let b = m[i];
        if b == QUOTE || b == BACKSLASH {
            r.push(BACKSLASH);
            r.push(b);
        } else {
            r.push(b);
        }
        proof {
            let head: Seq<u8> = if b == QUOTE || b == BACKSLASH {
                seq![BACKSLASH, b]
            } else {
                seq![b]
            };
            lemma_escape_concat(m@.take(i as int), seq![b]);
            assert(m@.take(i + 1 as int) =~= m@.take(i as int) + seq![b]);
            assert(seq![b].drop_first() =~= Seq::<u8>::empty());
            assert(escape_bytes(Seq::<u8>::empty()) =~= Seq::<u8>::empty());
            assert(escape_bytes(seq![b]) =~= head);
            assert(r@ =~= escape_bytes(m@.take(i as int)) + escape_bytes(seq![b]));
        }
        i = i + 1;
    }
    proof {
        assert(m@.take(m@.len() as int) =~= m@);
    }
    r
}

/// The four bytes of `n` in big-endian order.
pub open spec fn be32(n: u32) -> Seq<u8> {
    seq![(n >> 24) as u8, ((n >> 16) & 0xff) as u8, ((n >> 8) & 0xff) as u8, (n & 0xff) as u8]
}

/// The value read back from four big-endian bytes.
pub open spec fn be32_val(b0: u8, b1: u8, b2: u8, b3: u8) -> u32 {
    ((b0 as u32) << 24) | ((b1 as u32) << 16) | ((b2 as u32) << 8) | (b3 as u32)
}

/// Reading the four big-endian bytes of `n` yields `n` again.
pub proof fn lemma_be32_round_trip(n: u32)
    ensures
        be32_val(be32(n)[0], be32(n)[1], be32(n)[2], be32(n)[3]) == n,
{
    assert(((((n >> 24) as u8) as u32) << 24) | ((((n >> 16) & 0xff) as u8 as u32) << 16) | ((((n
        >> 8) & 0xff) as u8 as u32) << 8) | (((n & 0xff) as u8) as u32) == n) by (bit_vector);
}

/// Frames a payload for the one-shot buffer hand-off: the 4-byte
/// big-endian length of the payload, then the payload itself.  The
/// returned buffer is a fresh allocation whose ownership passes to the
/// caller; nothing here releases it.
pub fn to_result_str(payload: Vec<u8>) -> (r: Vec<u8>)
    requires
        payload@.len() <= 0xFFFF_FFFF,
    ensures
        r@ == be32(payload@.len() as u32) + payload@,
        r@.len() == 4 + payload@.len(),
{
    let mut payload = payload;
    let n: u32 = payload.len() as u32;
    proof {
        assert(n >> 24 < 256 && (n >> 16) & 0xff < 256 && (n >> 8) & 0xff < 256 && n & 0xff < 256)
            by (bit_vector);
    }
    let b0: u8 = (n >> 24) as u8;
    let b1: u8 = ((n >> 16) & 0xff) as u8;
    let b2: u8 = ((n >> 8) & 0xff) as u8;
    let b3: u8 = (n & 0xff) as u8;
    let mut r: Vec<u8> = vec![b0, b1, b2, b3];
    proof {
        assert(r@ =~= be32(n));
    }
    r.append(&mut payload);
    r
}

/// The un-prefixed payload of the tagged mode.
pub open spec fn tagged_payload(o: OutcomeModel) -> Seq<u8> {
    match o {
        OutcomeModel::Success => success_payload(),
        OutcomeModel::Failure { stage, message } => err_head() + stage_ref(stage) + err_mid()
            + escape_bytes(message) + err_tail(),
    }
}

/// The whole tagged-mode buffer: big-endian length prefix, then payload.
pub open spec fn spec_encode_tagged(o: OutcomeModel) -> Seq<u8> {
    be32(tagged_payload(o).len() as u32) + tagged_payload(o)
}

/// The structured-mode bytes.
pub open spec fn spec_encode_structured(o: OutcomeModel) -> Seq<u8> {
    match o {
        OutcomeModel::Success => ok_structured(),
        OutcomeModel::Failure { stage, message } => structured_head() + escape_bytes(message)
            + structured_tail(),
    }
}

/// The status-byte mode: `0` for success, `1` for failure.
pub open spec fn spec_status_byte(o: OutcomeModel) -> u8 {
    match o {
        OutcomeModel::Success => 0,
        OutcomeModel::Failure { .. } => 1,
    }
}

/// Builds the bytes of `{"type":"success"}`.
fn success_payload_vec() -> (r: Vec<u8>)
    ensures
        r@ == success_payload(),
{
    let v: Vec<u8> = vec![123u8, 34u8, 116u8, 121u8, 112u8, 101u8, 34u8, 58u8, 34u8, 115u8, 117u8,
        99u8, 99u8, 101u8, 115u8, 115u8, 34u8, 125u8];
    proof {
        assert(v@ =~= success_payload());
    }
    v
}

/// Builds the bytes of `{"type":"error","when":"`.
fn err_head_vec() -> (r: Vec<u8>)
    ensures
        r@ == err_head(),
{
    let v: Vec<u8> = vec![123u8, 34u8, 116u8, 121u8, 112u8, 101u8, 34u8, 58u8, 34u8, 101u8, 114u8,
        114u8, 111u8, 114u8, 34u8, 44u8, 34u8, 119u8, 104u8, 101u8, 110u8, 34u8, 58u8, 34u8];
    proof {
        assert(v@ =~= err_head());
    }
    v
}

/// Builds the bytes of `","message":"`.
fn err_mid_vec() -> (r: Vec<u8>)
    ensures
        r@ == err_mid(),
{
    let v: Vec<u8> = vec![34u8, 44u8, 34u8, 109u8, 101u8, 115u8, 115u8, 97u8, 103u8, 101u8, 34u8,
        58u8, 34u8];
    proof {
        assert(v@ =~= err_mid());
    }
    v
}

/// Builds the bytes of `"}`.
fn err_tail_vec() -> (r: Vec<u8>)
    ensures
        r@ == err_tail(),
{
    let v: Vec<u8> = vec![34u8, 125u8];
    proof {
        assert(v@ =~= err_tail());
    }
    v
}

/// Builds the wire name of a stage.
pub fn stage_ref_vec(s: Stage) -> (r: Vec<u8>)
    ensures
        r@ == stage_ref(s),
{
    match s {
        Stage::ParsingInput => {
            let v: Vec<u8> = vec![112u8, 97u8, 114u8, 115u8, 105u8, 110u8, 103u8, 95u8, 105u8,
                110u8, 112u8, 117u8, 116u8];
            proof {
                assert(v@ =~= stage_parsing());
            }
            v
        },
        Stage::SendingNotification => {
            let v: Vec<u8> = vec![115u8, 101u8, 110u8, 100u8, 105u8, 110u8, 103u8, 95u8, 110u8,
                111u8, 116u8, 105u8, 102u8, 105u8, 99u8, 97u8, 116u8, 105u8, 111u8, 110u8];
            proof {
                assert(v@ =~= stage_sending());
            }
            v
        },
    }
}

/// Encodes an outcome as the status-byte mode.
pub fn encode_status(o: &Outcome) -> (r: u8)
    ensures
        r == spec_status_byte(o@),
{
    match o {
        Outcome::Success => 0,
        Outcome::Failure { .. } => 1,
    }
}

/// Encodes an outcome as the structured-value mode.
pub fn encode_structured(o: &Outcome) -> (r: Vec<u8>)
    ensures
        r@ == spec_encode_structured(o@),
{
    match o {
        Outcome::Success => {
            let v: Vec<u8> = vec![123u8, 34u8, 101u8, 114u8, 114u8, 34u8, 58u8, 110u8, 117u8,
                108u8, 108u8, 44u8, 34u8, 111u8, 107u8, 34u8, 58u8, 123u8, 125u8, 125u8];
            proof {
                assert(v@ =~= ok_structured());
            }
            v
        },
        Outcome::Failure { stage: _, message } => {
            let mut v: Vec<u8> = vec![123u8, 34u8, 101u8, 114u8, 114u8, 34u8, 58u8, 34u8];
            proof {
                assert(v@ =~= structured_head());
            }
            let mut esc = escape_message(message);
            let mut tail: Vec<u8> = vec![34u8, 44u8, 34u8, 111u8, 107u8, 34u8, 58u8, 110u8, 117u8,
                108u8, 108u8, 125u8];
            proof {
                assert(tail@ =~= structured_tail());
            }
            v.append(&mut esc);
            v.append(&mut tail);
            v
        },
    }
}

/// Encodes an outcome as the tagged, length-prefixed mode.  The returned
/// buffer is allocated here and handed off to the caller, who is
/// responsible for reclaiming it once the payload has been read.
pub fn encode_tagged(o: &Outcome) -> (r: Vec<u8>)
    requires
        o@ matches OutcomeModel::Failure { message, .. } ==> message.len() <= 0x7FFF_0000,
    ensures
        r@ == spec_encode_tagged(o@),
        r@.len() == 4 + tagged_payload(o@).len(),
{
    let payload: Vec<u8> = match o {
        Outcome::Success => success_payload_vec(),
        Outcome::Failure { stage, message } => {
            proof {
                lemma_escape_len(message@);
            }
            let mut v = err_head_vec();
            let mut st = stage_ref_vec(*stage);
            let mut mid = err_mid_vec();
            let mut esc = escape_message(message);
            let mut tail = err_tail_vec();
            v.append(&mut st);
            v.append(&mut mid);
            v.append(&mut esc);
            v.append(&mut tail);
            v
        },
    };
    proof {
        assert(payload@ == tagged_payload(o@));
    }
    to_result_str(payload)
}

/// A failure at the parsing stage is reported as a failure in every
/// response mode: the status byte is `1`, the structured value embeds
/// the decoder's message with `"ok":null`, and the tagged payload names
/// the parsing stage and carries the message, escaped.
pub proof fn lemma_parse_failure_reported_in_every_mode(message: Seq<u8>)
    ensures
        spec_status_byte(OutcomeModel::Failure { stage: Stage::ParsingInput, message }) == 1,
        spec_encode_structured(OutcomeModel::Failure { stage: Stage::ParsingInput, message })
            == structured_head() + escape_bytes(message) + structured_tail(),
        tagged_payload(OutcomeModel::Failure { stage: Stage::ParsingInput, message })
            == err_head() + stage_parsing() + err_mid() + escape_bytes(message) + err_tail(),
{
}

/// `s` begins with `pre`.
pub open spec fn starts_with(s: Seq<u8>, pre: Seq<u8>) -> bool {
    pre.len() <= s.len() && s.take(pre.len() as int) == pre
}

/// Undoes [`escape_bytes`] on a region that held an escaped message:
/// each backslash must be followed by a double quote or a backslash,
/// which it yields; a bare double quote cannot occur.  `acc` carries the
/// bytes recovered so far.
pub open spec fn unescape_region(s: Seq<u8>, acc: Seq<u8>) -> Option<Seq<u8>>
    decreases s.len(),
{
    if s.len() == 0 {
        Some(acc)
    } else if s[0] == BACKSLASH {
        if s.len() >= 2 && (s[1] == QUOTE || s[1] == BACKSLASH) {
            unescape_region(s.skip(2), acc + seq![s[1]])
        } else {
            None
        }
    } else if s[0] == QUOTE {
        None
    } else {
        unescape_region(s.skip(1), acc + seq![s[0]])
    }
}

/// The message recovered from the tail of an error payload: everything
/// up to the closing `"}` is unescaped.
pub open spec fn spec_decode_err_msg(t: Seq<u8>, stage: Stage) -> Option<OutcomeModel> {
    if t.len() < 2 || t[t.len() - 2] != QUOTE || t[t.len() - 1] != 125 {
        None
    } else {
        match unescape_region(t.take(t.len() - 2), Seq::empty()) {
            Some(m) => Some(OutcomeModel::Failure { stage, message: m }),
            None => None,
        }
    }
}

/// The outcome recovered from an un-prefixed tagged payload.
pub open spec fn spec_decode_payload(p: Seq<u8>) -> Option<OutcomeModel> {
    if p == success_payload() {
        Some(OutcomeModel::Success)
    } else if starts_with(p, err_head()) {
        let rest = p.skip(err_head().len() as int);
        let pm = stage_parsing() + err_mid();
        let sm = stage_sending() + err_mid();
        if starts_with(rest, pm) {
            spec_decode_err_msg(rest.skip(pm.len() as int), Stage::ParsingInput)
        } else if starts_with(rest, sm) {
            spec_decode_err_msg(rest.skip(sm.len() as int), Stage::SendingNotification)
        } else {
            None
        }
    } else {
        None
    }
}

/// The outcome recovered from a whole tagged buffer: the first four
/// bytes must hold, big-endian, exactly the length of the rest, which is
/// then decoded as a payload.
pub open spec fn spec_decode_tagged(s: Seq<u8>) -> Option<OutcomeModel> {
    if s.len() < 4 {
        None
    } else if s.len() - 4 != be32_val(s[0], s[1], s[2], s[3]) as int {
        None
    } else {
        spec_decode_payload(s.skip(4))
    }
}

/// Model of an optional outcome.
pub open spec fn opt_outcome_view(o: Option<Outcome>) -> Option<OutcomeModel> {
    match o {
        Some(v) => Some(v@),
        None => None,
    }
}

/// Whether `buf`, from `off` on, begins with the bytes of `pat`.
fn starts_with_at(buf: &Vec<u8>, off: usize, pat: &Vec<u8>) -> (r: bool)
    requires
        off <= buf@.len(),
    ensures
        r == starts_with(buf@.skip(off as int), pat@),
{
    if pat.len() > buf.len() - off {
        proof {
            assert(!starts_with(buf@.skip(off as int), pat@));
        }
        return false;
    }
    let end: usize = off + pat.len();
    let mut j: usize = off;
    while j < end
        invariant
            off <= j <= end,
            end == off + pat@.len(),
            end <= buf@.len(),
            forall|k: int| 0 <= k < j - off ==> buf@.skip(off as int)[k] == pat@[k],
        decreases end - j,
    {
        if buf[j] != pat[j - off] {
            proof {
                assert(buf@.skip(off as int).take(pat@.len() as int)[j - off] != pat@[j - off]);
            }
            return false;
        }
        j = j + 1;
    }
    proof {
        assert(buf@.skip(off as int).take(pat@.len() as int) =~= pat@);
    }
    true
}

/// Unescapes `buf[from..to]`, the region of an error payload that held
/// the escaped message.
fn unescape_slice(buf: &Vec<u8>, from: usize, to: usize) -> (r: Option<Vec<u8>>)
    requires
        from <= to <= buf@.len(),
    ensures
        crate::request::opt_bytes_view(r) == unescape_region(
            buf@.subrange(from as int, to as int),
            Seq::empty(),
        ),
{
    let mut acc: Vec<u8> = Vec::new();
    let mut i: usize = from;
    while i < to
        invariant
            from <= i <= to <= buf@.len(),
            unescape_region(buf@.subrange(from as int, to as int), Seq::empty())
                == unescape_region(buf@.subrange(i as int, to as int), acc@),
        decreases to - i,
    {
        let ghost s = buf@.subrange(i as int, to as int);
        let b = buf[i];
        if b == BACKSLASH {
            if i + 1 < to && (buf[i + 1] == QUOTE || buf[i + 1] == BACKSLASH) {
                proof {
                    assert(s.skip(2) =~= buf@.subrange(i + 2 as int, to as int));
                    assert(acc@ + seq![s[1]] =~= acc@.push(buf@[i + 1]));
                }
                acc.push(buf[i + 1]);
                i = i + 2;
            } else {
                proof {
                    assert(unescape_region(s, acc@) is None);
                }
                return None;
            }
        } else if b == QUOTE {
            proof {
                assert(unescape_region(s, acc@) is None);
            }
            return None;
        } else {
            proof {
                assert(s.skip(1) =~= buf@.subrange(i + 1 as int, to as int));
                assert(acc@ + seq![s[0]] =~= acc@.push(buf@[i as int]));
            }
            acc.push(b);
            i = i + 1;
        }
    }
    proof {
        assert(buf@.subrange(i as int, to as int) =~= Seq::<u8>::empty());
    }
    Some(acc)
}

/// Decodes a tagged, length-prefixed buffer back into an outcome;
/// `None` when the buffer is not a well-formed tagged encoding.
pub fn decode_tagged(buf: &Vec<u8>) -> (r: Option<Outcome>)
    ensures
        opt_outcome_view(r) == spec_decode_tagged(buf@),
{
    if buf.len() < 4 {
        return None;
    }
    let n: u32 = be32_val_exec(buf[0], buf[1], buf[2], buf[3]);
    if buf.len() - 4 != n as usize {
        proof {
            assert(buf@.len() - 4 != be32_val(buf@[0], buf@[1], buf@[2], buf@[3]) as int);
        }
        return None;
    }
    let ghost p = buf@.skip(4);
    let success = success_payload_vec();
    if buf.len() - 4 == success.len() && starts_with_at(buf, 4, &success) {
        proof {
            assert(p =~= p.take(success_payload().len() as int));
        }
        return Some(Outcome::Success);
    }
    proof {
        if p.len() == success_payload().len() {
            assert(p.take(success_payload().len() as int) =~= p);
        }
        assert(p != success_payload());
    }
    let head = err_head_vec();
    if !starts_with_at(buf, 4, &head) {
        return None;
    }
    let mut pm = stage_ref_vec(Stage::ParsingInput);
    let mut mid1 = err_mid_vec();
    pm.append(&mut mid1);
    let mut sm = stage_ref_vec(Stage::SendingNotification);
    let mut mid2 = err_mid_vec();
    sm.append(&mut mid2);
    let ghost rest = p.skip(err_head().len() as int);
    proof {
        assert(rest =~= buf@.skip(4 + err_head().len() as int));
        assert(forall|q: Seq<u8>| starts_with(rest, q) == starts_with(
            buf@.skip((4 + err_head().len()) as int),
            q,
        ));
    }
    let (stage, tail_off): (Stage, usize) = if starts_with_at(buf, 4 + 24, &pm) {
        (Stage::ParsingInput, 4 + 24 + 26)
    } else if starts_with_at(buf, 4 + 24, &sm) {
        (Stage::SendingNotification, 4 + 24 + 33)
    } else {
        return None;
    };
    let ghost t = rest.skip((tail_off - 4 - 24) as int);
    proof {
        assert(t =~= buf@.subrange(tail_off as int, buf@.len() as int));
    }
    if buf.len() < tail_off + 2 {
        return None;
    }
    if buf[buf.len() - 2] != QUOTE || buf[buf.len() - 1] != 125 {
        proof {
            assert(t[t.len() - 2] == buf@[buf@.len() - 2]);
            assert(t[t.len() - 1] == buf@[buf@.len() - 1]);
        }
        return None;
    }
    proof {
        assert(t[t.len() - 2] == buf@[buf@.len() - 2]);
        assert(t[t.len() - 1] == buf@[buf@.len() - 1]);
        assert(t.take(t.len() - 2) =~= buf@.subrange(tail_off as int, (buf@.len() - 2) as int));
    }
    match unescape_slice(buf, tail_off, buf.len() - 2) {
        Some(m) => Some(Outcome::Failure { stage, message: m }),
        None => None,
    }
}

/// Reads a `u32` from four big-endian bytes.
pub fn be32_val_exec(b0: u8, b1: u8, b2: u8, b3: u8) -> (r: u32)
    ensures
        r == be32_val(b0, b1, b2, b3),
{
    ((b0 as u32) << 24) | ((b1 as u32) << 16) | ((b2 as u32) << 8) | (b3 as u32)
}

/// Unescaping recovers exactly the message that escaping embedded.
pub proof fn lemma_unescape_escape(m: Seq<u8>, acc: Seq<u8>)
    ensures
        unescape_region(escape_bytes(m), acc) == Some(acc + m),
    decreases m.len(),
{
    if m.len() == 0 {
        assert(acc + m =~= acc);
    } else {
        let rest = m.drop_first();
        lemma_unescape_escape(rest, acc + seq![m[0]]);
        let e = escape_bytes(m);
        if m[0] == QUOTE || m[0] == BACKSLASH {
            assert(e == seq![BACKSLASH, m[0]] + escape_bytes(rest));
            assert(e[0] == BACKSLASH && e[1] == m[0]);
            assert(e.skip(2) =~= escape_bytes(rest));
        } else {
            assert(e == seq![m[0]] + escape_bytes(rest));
            assert(e[0] == m[0]);
            assert(e.skip(1) =~= escape_bytes(rest));
        }
        assert((acc + seq![m[0]]) + rest =~= acc + m);
    }
}

/// Round trip of the tagged mode: decoding an encoded outcome yields
/// exactly that outcome, with any quotes and backslashes of the message
/// escaped on the way out and recovered on the way back.
#[verifier::rlimit(50)]
pub proof fn lemma_tagged_round_trip(o: OutcomeModel)
    requires
        o matches OutcomeModel::Failure { message, .. } ==> message.len() <= 0x7FFF_0000,
    ensures
        spec_decode_tagged(spec_encode_tagged(o)) == Some(o),
{
    let p = tagged_payload(o);
    match o {
        OutcomeModel::Failure { stage, message } => lemma_escape_len(message),
        OutcomeModel::Success => (),
    }
    assert(p.len() <= 0xFFFF_FFFF);
    let n = p.len() as u32;
    let s = spec_encode_tagged(o);
    assert(s == be32(n) + p);
    assert(s.len() == 4 + p.len());
    assert(s[0] == be32(n)[0] && s[1] == be32(n)[1] && s[2] == be32(n)[2] && s[3] == be32(n)[3]);
    lemma_be32_round_trip(n);
    assert(s.len() - 4 == be32_val(s[0], s[1], s[2], s[3]) as int);
    assert(s.skip(4) =~= p);
    match o {
        OutcomeModel::Success => {
            assert(spec_decode_payload(p) == Some(OutcomeModel::Success));
        },
        OutcomeModel::Failure { stage, message } => {
            let e = escape_bytes(message);
            assert(p == err_head() + stage_ref(stage) + err_mid() + e + err_tail());
            assert(p.len() >= 39);
            assert(p != success_payload()) by {
                assert(success_payload().len() == 18);
            }
            assert(p.take(err_head().len() as int) =~= err_head());
            let rest = p.skip(err_head().len() as int);
            assert(rest =~= stage_ref(stage) + err_mid() + e + err_tail());
            let pm = stage_parsing() + err_mid();
            let sm = stage_sending() + err_mid();
            let t = rest.skip((stage_ref(stage) + err_mid()).len() as int);
            assert(t =~= e + err_tail());
            assert(t.len() == e.len() + 2);
            assert(t[t.len() - 2] == QUOTE && t[t.len() - 1] == 125);
            assert(t.take(t.len() - 2) =~= e);
            lemma_unescape_escape(message, Seq::empty());
            assert(Seq::empty() + message =~= message);
            match stage {
                Stage::ParsingInput => {
                    assert(rest.take(pm.len() as int) =~= pm);
                    assert(spec_decode_err_msg(rest.skip(pm.len() as int), Stage::ParsingInput)
                        == Some(o));
                },
                Stage::SendingNotification => {
                    assert(!starts_with(rest, pm)) by {
                        assert(rest[0] == 115 && pm[0] == 112);
                        if starts_with(rest, pm) {
                            assert(rest.take(pm.len() as int)[0] == pm[0]);
                        }
                    }
                    assert(rest.take(sm.len() as int) =~= sm);
                    assert(spec_decode_err_msg(
                        rest.skip(sm.len() as int),
                        Stage::SendingNotification,
                    ) == Some(o));
                },
            }
        },
    }
}

} // verus!
