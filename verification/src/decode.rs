//! The request decoder: raw bytes to a typed [`NotificationRequest`].
//!
//! The input is a JSON object with the fields `title` (string,
//! required, non-empty), `subtitle` (string), `body` or its alias
//! `message` (string), `icon` (a plain string, or a tagged object
//! `{"type":"app"|"path"|"name","value":...}`), `sound` (string) and
//! `timeout` (`{"type":"Never"}` or
//! `{"type":"Milliseconds","value":n}` with `n` an unsigned 32-bit
//! number).  Unrecognized fields are tolerated and skipped with a
//! bracket-counting scan that does not validate their content in
//! depth; a duplicated field, an unrecognized tag discriminant, or a
//! missing or empty title is rejected.  String escapes cover `\"`,
//! `\\`, `\/`, `\b`, `\f`, `\n`, `\r` and `\t`; bytes outside the
//! ASCII range pass through unchanged.
//!
//! Every executable parser is proved equal to a specification-level
//! parser over the byte sequence, and the public decoder returns a
//! request exactly when the specification-level decoder does.

use vstd::prelude::*;
use crate::request::{
    IconModel, IconSpec, NotificationRequest, ParseError, RequestModel, TimeoutPolicy, request_wf,
};
use crate::encode::{BACKSLASH, QUOTE};

verus! {

pub const LBRACE: u8 = 123;

pub const RBRACE: u8 = 125;

pub const LBRACK: u8 = 91;

pub const RBRACK: u8 = 93;

pub const COLON: u8 = 58;

pub const COMMA: u8 = 44;

/// The bytes of `title`.
pub open spec fn key_title() -> Seq<u8> {
    seq![116u8, 105u8, 116u8, 108u8, 101u8]
}

/// Builds the bytes of `title`.
fn key_title_vec() -> (r: Vec<u8>)
    ensures
        r@ == key_title(),
{
    let v: Vec<u8> = vec![116u8, 105u8, 116u8, 108u8, 101u8];
    proof {
        assert(v@ =~= key_title());
    }
    v
}

/// The bytes of `subtitle`.
pub open spec fn key_subtitle() -> Seq<u8> {
    seq![115u8, 117u8, 98u8, 116u8, 105u8, 116u8, 108u8, 101u8]
}

/// Builds the bytes of `subtitle`.
fn key_subtitle_vec() -> (r: Vec<u8>)
    ensures
        r@ == key_subtitle(),
{
    let v: Vec<u8> = vec![115u8, 117u8, 98u8, 116u8, 105u8, 116u8, 108u8, 101u8];
    proof {
        assert(v@ =~= key_subtitle());
    }
    v
}

/// The bytes of `body`.
pub open spec fn key_body() -> Seq<u8> {
    seq![98u8, 111u8, 100u8, 121u8]
}

/// Builds the bytes of `body`.
fn key_body_vec() -> (r: Vec<u8>)
    ensures
        r@ == key_body(),
{
    let v: Vec<u8> = vec![98u8, 111u8, 100u8, 121u8];
    proof {
        assert(v@ =~= key_body());
    }
    v
}

/// The bytes of `message`.
pub open spec fn key_message() -> Seq<u8> {
    seq![109u8, 101u8, 115u8, 115u8, 97u8, 103u8, 101u8]
}

/// Builds the bytes of `message`.
fn key_message_vec() -> (r: Vec<u8>)
    ensures
        r@ == key_message(),
{
    let v: Vec<u8> = vec![109u8, 101u8, 115u8, 115u8, 97u8, 103u8, 101u8];
    proof {
        assert(v@ =~= key_message());
    }
    v
}

/// The bytes of `icon`.
pub open spec fn key_icon() -> Seq<u8> {
    seq![105u8, 99u8, 111u8, 110u8]
}

/// Builds the bytes of `icon`.
fn key_icon_vec() -> (r: Vec<u8>)
    ensures
        r@ == key_icon(),
{
    let v: Vec<u8> = vec![105u8, 99u8, 111u8, 110u8];
    proof {
        assert(v@ =~= key_icon());
    }
    v
}

/// The bytes of `sound`.
pub open spec fn key_sound() -> Seq<u8> {
    seq![115u8, 111u8, 117u8, 110u8, 100u8]
}

/// Builds the bytes of `sound`.
fn key_sound_vec() -> (r: Vec<u8>)
    ensures
        r@ == key_sound(),
{
    let v: Vec<u8> = vec![115u8, 111u8, 117u8, 110u8, 100u8];
    proof {
        assert(v@ =~= key_sound());
    }
    v
}

/// The bytes of `timeout`.
pub open spec fn key_timeout() -> Seq<u8> {
    seq![116u8, 105u8, 109u8, 101u8, 111u8, 117u8, 116u8]
}

/// Builds the bytes of `timeout`.
fn key_timeout_vec() -> (r: Vec<u8>)
    ensures
        r@ == key_timeout(),
{
    let v: Vec<u8> = vec![116u8, 105u8, 109u8, 101u8, 111u8, 117u8, 116u8];
    proof {
        assert(v@ =~= key_timeout());
    }
    v
}

/// The bytes of `type`.
pub open spec fn key_type() -> Seq<u8> {
    seq![116u8, 121u8, 112u8, 101u8]
}

/// Builds the bytes of `type`.
fn key_type_vec() -> (r: Vec<u8>)
    ensures
        r@ == key_type(),
{
    let v: Vec<u8> = vec![116u8, 121u8, 112u8, 101u8];
    proof {
        assert(v@ =~= key_type());
    }
    v
}

/// The bytes of `value`.
pub open spec fn key_value() -> Seq<u8> {
    seq![118u8, 97u8, 108u8, 117u8, 101u8]
}

/// Builds the bytes of `value`.
fn key_value_vec() -> (r: Vec<u8>)
    ensures
        r@ == key_value(),
{
    let v: Vec<u8> = vec![118u8, 97u8, 108u8, 117u8, 101u8];
    proof {
        assert(v@ =~= key_value());
    }
    v
}

/// The bytes of `app`.
pub open spec fn tag_app() -> Seq<u8> {
    seq![97u8, 112u8, 112u8]
}

/// Builds the bytes of `app`.
fn tag_app_vec() -> (r: Vec<u8>)
    ensures
        r@ == tag_app(),
{
    let v: Vec<u8> = vec![97u8, 112u8, 112u8];
    proof {
        assert(v@ =~= tag_app());
    }
    v
}

/// The bytes of `path`.
pub open spec fn tag_path() -> Seq<u8> {
    seq![112u8, 97u8, 116u8, 104u8]
}

/// Builds the bytes of `path`.
fn tag_path_vec() -> (r: Vec<u8>)
    ensures
        r@ == tag_path(),
{
    let v: Vec<u8> = vec![112u8, 97u8, 116u8, 104u8];
    proof {
        assert(v@ =~= tag_path());
    }
    v
}

/// The bytes of `name`.
pub open spec fn tag_name() -> Seq<u8> {
    seq![110u8, 97u8, 109u8, 101u8]
}

/// Builds the bytes of `name`.
fn tag_name_vec() -> (r: Vec<u8>)
    ensures
        r@ == tag_name(),
{
    let v: Vec<u8> = vec![110u8, 97u8, 109u8, 101u8];
    proof {
        assert(v@ =~= tag_name());
    }
    v
}

/// The bytes of `Never`.
pub open spec fn tag_never() -> Seq<u8> {
    seq![78u8, 101u8, 118u8, 101u8, 114u8]
}

/// Builds the bytes of `Never`.
fn tag_never_vec() -> (r: Vec<u8>)
    ensures
        r@ == tag_never(),
{
    let v: Vec<u8> = vec![78u8, 101u8, 118u8, 101u8, 114u8];
    proof {
        assert(v@ =~= tag_never());
    }
    v
}

/// The bytes of `Milliseconds`.
pub open spec fn tag_ms() -> Seq<u8> {
    seq![77u8, 105u8, 108u8, 108u8, 105u8, 115u8, 101u8, 99u8, 111u8, 110u8, 100u8, 115u8]
}

/// Builds the bytes of `Milliseconds`.
fn tag_ms_vec() -> (r: Vec<u8>)
    ensures
        r@ == tag_ms(),
{
    let v: Vec<u8> = vec![77u8, 105u8, 108u8, 108u8, 105u8, 115u8, 101u8, 99u8, 111u8, 110u8, 100u8, 115u8];
    proof {
        assert(v@ =~= tag_ms());
    }
    v
}


/// JSON insignificant whitespace.
pub open spec fn is_ws(b: u8) -> bool {
    b == 32 || b == 9 || b == 10 || b == 13
}

/// An ASCII decimal digit.
pub open spec fn is_digit(b: u8) -> bool {
    48 <= b <= 57
}

/// A byte that ends a value in its surrounding context: a comma or a
/// closing brace or bracket.
pub open spec fn is_value_end(b: u8) -> bool {
    b == COMMA || b == RBRACE || b == RBRACK
}

/// The byte that a backslash escape stands for, if the escape is
/// recognized.
pub open spec fn json_unescape_byte(b: u8) -> Option<u8> {
    if b == 34 {
        Some(34u8)
    } else if b == 92 {
        Some(92u8)
    } else if b == 47 {
        Some(47u8)
    } else if b == 98 {
        Some(8u8)
    } else if b == 102 {
        Some(12u8)
    } else if b == 110 {
        Some(10u8)
    } else if b == 114 {
        Some(13u8)
    } else if b == 116 {
        Some(9u8)
    } else {
        None
    }
}

/// The first position at or after `i` that does not hold whitespace.
pub open spec fn sp_ws(s: Seq<u8>, i: int) -> int
    decreases s.len() - i,
{
    if 0 <= i < s.len() && is_ws(s[i]) {
        sp_ws(s, i + 1)
    } else {
        i
    }
}

/// The body of a string literal from position `i` (just after the
/// opening quote): the decoded content together with the position just
/// after the closing quote.  `acc` carries the content decoded so far.
pub open spec fn sp_string_body(s: Seq<u8>, i: int, acc: Seq<u8>) -> Option<(Seq<u8>, int)>
    decreases s.len() - i,
{
    if i < 0 || i >= s.len() {
        None
    } else if s[i] == QUOTE {
        Some((acc, i + 1))
    } else if s[i] == BACKSLASH {
        if i + 1 < s.len() {
            match json_unescape_byte(s[i + 1]) {
                Some(b) => sp_string_body(s, i + 2, acc.push(b)),
                None => None,
            }
        } else {
            None
        }
    } else if s[i] < 32 {
        None
    } else {
        sp_string_body(s, i + 1, acc.push(s[i]))
    }
}

pub proof fn lemma_string_body_bounds(s: Seq<u8>, i: int, acc: Seq<u8>)
    ensures
        sp_string_body(s, i, acc) matches Some(p) ==> i < p.1 <= s.len(),
    decreases s.len() - i,
{
    if 0 <= i < s.len() {
        if s[i] == BACKSLASH {
            if i + 1 < s.len() {
                match json_unescape_byte(s[i + 1]) {
                    Some(b) => lemma_string_body_bounds(s, i + 2, acc.push(b)),
                    None => (),
                }
            }
        } else if s[i] != QUOTE && s[i] >= 32 {
            lemma_string_body_bounds(s, i + 1, acc.push(s[i]));
        }
    }
}

/// A whole string literal at position `i`: the decoded content and the
/// position just after the closing quote.
pub open spec fn sp_string(s: Seq<u8>, i: int) -> Option<(Seq<u8>, int)> {
    if 0 <= i < s.len() && s[i] == QUOTE {
        sp_string_body(s, i + 1, Seq::empty())
    } else {
        None
    }
}

/// The value and end position of the digit run beginning at `i`, with
/// `acc` the value of the digits already read.
pub open spec fn sp_digits(s: Seq<u8>, i: int, acc: nat) -> (nat, int)
    decreases s.len() - i,
{
    if 0 <= i < s.len() && is_digit(s[i]) {
        sp_digits(s, i + 1, acc * 10 + (s[i] - 48) as nat)
    } else {
        (acc, i)
    }
}

pub proof fn lemma_digits_bounds(s: Seq<u8>, i: int, acc: nat)
    requires
        0 <= i <= s.len(),
    ensures
        i <= sp_digits(s, i, acc).1 <= s.len(),
        sp_digits(s, i, acc).0 >= acc,
    decreases s.len() - i,
{
    if i < s.len() && is_digit(s[i]) {
        lemma_digits_bounds(s, i + 1, acc * 10 + (s[i] - 48) as nat);
    }
}

/// An unsigned 32-bit number at position `i`: a run of one or more
/// digits whose value fits in 32 bits.
pub open spec fn sp_u32(s: Seq<u8>, i: int) -> Option<(u32, int)> {
    if 0 <= i < s.len() && is_digit(s[i]) {
        let (v, j) = sp_digits(s, i, 0);
        if v <= 0xFFFF_FFFF {
            Some((v as u32, j))
        } else {
            None
        }
    } else {
        None
    }
}

/// The bracket-counting scan that skips the value of an unrecognized
/// field: it tracks brace and bracket depth and string context and
/// stops just before the comma, brace or bracket that ends the value in
/// its surrounding object.
pub open spec fn sp_skip_scan(s: Seq<u8>, i: int, depth: int, in_str: bool, esc: bool) -> Option<
    int,
>
    decreases s.len() - i,
{
    if i < 0 || i >= s.len() {
        None
    } else {
        let b = s[i];
        if esc {
            if json_unescape_byte(b) is Some {
                sp_skip_scan(s, i + 1, depth, true, false)
            } else {
                None
            }
        } else if in_str {
            if b == BACKSLASH {
                sp_skip_scan(s, i + 1, depth, true, true)
            } else if b == QUOTE {
                sp_skip_scan(s, i + 1, depth, false, false)
            } else if b < 32 {
                None
            } else {
                sp_skip_scan(s, i + 1, depth, true, false)
            }
        } else if depth == 0 && is_value_end(b) {
            Some(i)
        } else if b == LBRACE || b == LBRACK {
            sp_skip_scan(s, i + 1, depth + 1, false, false)
        } else if b == RBRACE || b == RBRACK {
            if depth >= 1 {
                sp_skip_scan(s, i + 1, depth - 1, false, false)
            } else {
                None
            }
        } else if b == QUOTE {
            sp_skip_scan(s, i + 1, depth, true, false)
        } else {
            sp_skip_scan(s, i + 1, depth, false, false)
        }
    }
}

/// Skips one value of an unrecognized field, beginning at `i`.
pub open spec fn sp_skip_value(s: Seq<u8>, i: int) -> Option<int> {
    if 0 <= i < s.len() && !is_value_end(s[i]) {
        sp_skip_scan(s, i, 0, false, false)
    } else {
        None
    }
}

/// A member's key and the position of its value: a string key, then
/// optional whitespace, a colon and optional whitespace.
pub open spec fn sp_kv_raw(s: Seq<u8>, i: int) -> Option<(Seq<u8>, int)> {
    match sp_string(s, i) {
        None => None,
        Some((k, j1)) => {
            let j2 = sp_ws(s, j1);
            if j2 < s.len() && s[j2] == COLON {
                Some((k, sp_ws(s, j2 + 1)))
            } else {
                None
            }
        },
    }
}

/// Skips whitespace from `i` on.
fn ws_from(buf: &Vec<u8>, i: usize) -> (j: usize)
    requires
        i <= buf@.len(),
    ensures
        j as int == sp_ws(buf@, i as int),
        i <= j <= buf@.len(),
{
    let mut j: usize = i;
    while j < buf.len() && (buf[j] == 32 || buf[j] == 9 || buf[j] == 10 || buf[j] == 13)
        invariant
            i <= j <= buf@.len(),
            sp_ws(buf@, i as int) == sp_ws(buf@, j as int),
        decreases buf@.len() - j,
    {
        j = j + 1;
    }
    j
}

/// The byte a backslash escape stands for, if recognized.
fn unescape_json_byte(b: u8) -> (r: Option<u8>)
    ensures
        r == json_unescape_byte(b),
{
    if b == 34 {
        Some(34u8)
    } else if b == 92 {
        Some(92u8)
    } else if b == 47 {
        Some(47u8)
    } else if b == 98 {
        Some(8u8)
    } else if b == 102 {
        Some(12u8)
    } else if b == 110 {
        Some(10u8)
    } else if b == 114 {
        Some(13u8)
    } else if b == 116 {
        Some(9u8)
    } else {
        None
    }
}

/// Parses a string literal at `i`: its decoded content and the position
/// after the closing quote.
fn parse_string(buf: &Vec<u8>, i: usize) -> (r: Option<(Vec<u8>, usize)>)
    requires
        i <= buf@.len(),
    ensures
        match r {
            Some(p) => sp_string(buf@, i as int) == Some((p.0@, p.1 as int)) && i < p.1
                <= buf@.len(),
            None => sp_string(buf@, i as int) is None,
        },
{
    if i >= buf.len() || buf[i] != QUOTE {
        return None;
    }
    let mut acc: Vec<u8> = Vec::new();
    let mut cur: usize = i + 1;
    loop
        invariant
            i < buf@.len(),
            buf@[i as int] == QUOTE,
            i + 1 <= cur <= buf@.len(),
            sp_string_body(buf@, (i + 1) as int, Seq::empty()) == sp_string_body(
                buf@,
                cur as int,
                acc@,
            ),
        decreases buf@.len() - cur,
    {
        if cur >= buf.len() {
            return None;
        }
        let b = buf[cur];
        if b == QUOTE {
            proof {
                lemma_string_body_bounds(buf@, (i + 1) as int, Seq::empty());
            }
            return Some((acc, cur + 1));
        } else if b == BACKSLASH {
            if cur + 1 >= buf.len() {
                return None;
            }
            match unescape_json_byte(buf[cur + 1]) {
                Some(u) => {
                    acc.push(u);
                    cur = cur + 2;
                },
                None => {
                    return None;
                },
            }
        } else if b < 32 {
            return None;
        } else {
            acc.push(b);
            cur = cur + 1;
        }
    }
}

/// Parses an unsigned 32-bit number at `i`.
fn parse_u32(buf: &Vec<u8>, i: usize) -> (r: Option<(u32, usize)>)
    requires
        i <= buf@.len(),
    ensures
        match r {
            Some(p) => sp_u32(buf@, i as int) == Some((p.0, p.1 as int)) && i < p.1 <= buf@.len(),
            None => sp_u32(buf@, i as int) is None,
        },
{
    if i >= buf.len() || buf[i] < 48 || buf[i] > 57 {
        return None;
    }
    let mut acc: u64 = (buf[i] - 48) as u64;
    let mut cur: usize = i + 1;
    proof {
        lemma_digits_bounds(buf@, i as int, 0);
    }
    loop
        invariant
            i < cur <= buf@.len(),
            acc <= 0xFFFF_FFFF,
            sp_digits(buf@, i as int, 0) == sp_digits(buf@, cur as int, acc as nat),
        decreases buf@.len() - cur,
    {
        if cur >= buf.len() || buf[cur] < 48 || buf[cur] > 57 {
            proof {
                assert(sp_digits(buf@, cur as int, acc as nat) == ((acc as nat), cur as int));
            }
            return Some((acc as u32, cur));
        }
        let d = (buf[cur] - 48) as u64;
        let next = acc * 10 + d;
        if next > 0xFFFF_FFFF {
            proof {
                lemma_digits_bounds(buf@, (cur + 1) as int, next as nat);
                assert(sp_digits(buf@, i as int, 0).0 >= next as nat);
            }
            return None;
        }
        acc = next;
        cur = cur + 1;
    }
}

/// Skips the value of an unrecognized field, beginning at `i`; yields
/// the position of the comma, brace or bracket that ends it.
fn skip_value(buf: &Vec<u8>, i: usize) -> (r: Option<usize>)
    requires
        i <= buf@.len(),
    ensures
        match r {
            Some(j) => sp_skip_value(buf@, i as int) == Some(j as int) && i < j < buf@.len(),
            None => sp_skip_value(buf@, i as int) is None,
        },
{
    if i >= buf.len() || buf[i] == COMMA || buf[i] == RBRACE || buf[i] == RBRACK {
        return None;
    }
    let mut cur: usize = i;
    let mut depth: usize = 0;
    let mut in_str: bool = false;
    let mut esc: bool = false;
    loop
        invariant
            i < buf@.len(),
            i <= cur <= buf@.len(),
            depth <= cur - i,
            !is_value_end(buf@[i as int]),
            esc ==> in_str,
            cur == i ==> depth == 0 && !in_str && !esc,
            sp_skip_scan(buf@, i as int, 0, false, false) == sp_skip_scan(
                buf@,
                cur as int,
                depth as int,
                in_str,
                esc,
            ),
        decreases buf@.len() - cur,
    {
        if cur >= buf.len() {
            return None;
        }
        let b = buf[cur];
        if esc {
            match unescape_json_byte(b) {
                Some(_) => {
                    esc = false;
                    cur = cur + 1;
                },
                None => {
                    return None;
                },
            }
        } else if in_str {
            if b == BACKSLASH {
                esc = true;
                cur = cur + 1;
            } else if b == QUOTE {
                in_str = false;
                cur = cur + 1;
            } else if b < 32 {
                return None;
            } else {
                cur = cur + 1;
            }
        } else if depth == 0 && (b == COMMA || b == RBRACE || b == RBRACK) {
            return Some(cur);
        } else if b == LBRACE || b == LBRACK {
            depth = depth + 1;
            cur = cur + 1;
        } else if b == RBRACE || b == RBRACK {
            if depth >= 1 {
                depth = depth - 1;
                cur = cur + 1;
            } else {
                return None;
            }
        } else if b == QUOTE {
            in_str = true;
            cur = cur + 1;
        } else {
            cur = cur + 1;
        }
    }
}

/// Compares two byte vectors for equality of content.
fn bytes_eq(a: &Vec<u8>, b: &Vec<u8>) -> (r: bool)
    ensures
        r == (a@ == b@),
{
    if a.len() != b.len() {
        return false;
    }
    let mut i: usize = 0;
    while i < a.len()
        invariant
            i <= a@.len(),
            a@.len() == b@.len(),
            forall|k: int| 0 <= k < i ==> a@[k] == b@[k],
        decreases a@.len() - i,
    {
        if a[i] != b[i] {
            return false;
        }
        i = i + 1;
    }
    proof {
        assert(a@ =~= b@);
    }
    true
}

/// Parses a member's key and finds its value: the decoded key and the
/// position where the value begins.
fn parse_kv_raw(buf: &Vec<u8>, i: usize) -> (r: Option<(Vec<u8>, usize)>)
    requires
        i <= buf@.len(),
    ensures
        match r {
            Some(p) => sp_kv_raw(buf@, i as int) == Some((p.0@, p.1 as int)) && i < p.1
                <= buf@.len(),
            None => sp_kv_raw(buf@, i as int) is None,
        },
{
    match parse_string(buf, i) {
        None => None,
        Some((k, j1)) => {
            let j2 = ws_from(buf, j1);
            if j2 < buf.len() && buf[j2] == COLON {
                let v = ws_from(buf, j2 + 1);
                Some((k, v))
            } else {
                None
            }
        },
    }
}

/// One member of a tagged icon object, merged into the `type` and
/// `value` fields seen so far; a repeated or unrecognized key is
/// rejected.
pub open spec fn sp_icon_member(
    s: Seq<u8>,
    i: int,
    ty: Option<Seq<u8>>,
    val: Option<Seq<u8>>,
) -> Option<((Option<Seq<u8>>, Option<Seq<u8>>), int)> {
    match sp_kv_raw(s, i) {
        None => None,
        Some((k, v)) => {
            if k == key_type() {
                if ty is None {
                    match sp_string(s, v) {
                        Some((t, j)) => Some(((Some(t), val), j)),
                        None => None,
                    }
                } else {
                    None
                }
            } else if k == key_value() {
                if val is None {
                    match sp_string(s, v) {
                        Some((w, j)) => Some(((ty, Some(w)), j)),
                        None => None,
                    }
                } else {
                    None
                }
            } else {
                None
            }
        },
    }
}

/// The icon specification named by a complete tagged object: both
/// `type` and `value` must be present, and the discriminant must be
/// `app`, `path` or `name`.
pub open spec fn sp_finish_icon(ty: Option<Seq<u8>>, val: Option<Seq<u8>>) -> Option<IconModel> {
    match ty {
        None => None,
        Some(t) => match val {
            None => None,
            Some(w) => {
                if t == tag_app() {
                    Some(IconModel::AppIdentity(w))
                } else if t == tag_path() {
                    Some(IconModel::FilePath(w))
                } else if t == tag_name() {
                    Some(IconModel::ThemeName(w))
                } else {
                    None
                }
            },
        },
    }
}

/// A tagged icon object at `i`: `{"type":...,"value":...}` with the
/// two members in either order.
pub open spec fn sp_icon_object(s: Seq<u8>, i: int) -> Option<(IconModel, int)> {
    if 0 <= i < s.len() && s[i] == LBRACE {
        let j0 = sp_ws(s, i + 1);
        match sp_icon_member(s, j0, None, None) {
            None => None,
            Some(((ty1, val1), j1)) => {
                let j2 = sp_ws(s, j1);
                if j2 < s.len() && s[j2] == RBRACE {
                    match sp_finish_icon(ty1, val1) {
                        Some(m) => Some((m, j2 + 1)),
                        None => None,
                    }
                } else if j2 < s.len() && s[j2] == COMMA {
                    let j3 = sp_ws(s, j2 + 1);
                    match sp_icon_member(s, j3, ty1, val1) {
                        None => None,
                        Some(((ty2, val2), j4)) => {
                            let j5 = sp_ws(s, j4);
                            if j5 < s.len() && s[j5] == RBRACE {
                                match sp_finish_icon(ty2, val2) {
                                    Some(m) => Some((m, j5 + 1)),
                                    None => None,
                                }
                            } else {
                                None
                            }
                        },
                    }
                } else {
                    None
                }
            },
        }
    } else {
        None
    }
}

/// An icon field's value: a plain string is a theme name, and a tagged
/// object chooses its variant by discriminant.
pub open spec fn sp_icon_value(s: Seq<u8>, i: int) -> Option<(IconModel, int)> {
    if 0 <= i < s.len() && s[i] == QUOTE {
        match sp_string(s, i) {
            Some((c, j)) => Some((IconModel::ThemeName(c), j)),
            None => None,
        }
    } else {
        sp_icon_object(s, i)
    }
}

/// One member of a tagged timeout object: `type` holds a string tag,
/// `value` an unsigned 32-bit number.
pub open spec fn sp_timeout_member(
    s: Seq<u8>,
    i: int,
    ty: Option<Seq<u8>>,
    val: Option<u32>,
) -> Option<((Option<Seq<u8>>, Option<u32>), int)> {
    match sp_kv_raw(s, i) {
        None => None,
        Some((k, v)) => {
            if k == key_type() {
                if ty is None {
                    match sp_string(s, v) {
                        Some((t, j)) => Some(((Some(t), val), j)),
                        None => None,
                    }
                } else {
                    None
                }
            } else if k == key_value() {
                if val is None {
                    match sp_u32(s, v) {
                        Some((n, j)) => Some(((ty, Some(n)), j)),
                        None => None,
                    }
                } else {
                    None
                }
            } else {
                None
            }
        },
    }
}

/// The timeout policy named by a complete tagged object: `Never` takes
/// no value, `Milliseconds` requires one, and any other discriminant is
/// rejected.
pub open spec fn sp_finish_timeout(ty: Option<Seq<u8>>, val: Option<u32>) -> Option<
    TimeoutPolicy,
> {
    match ty {
        None => None,
        Some(t) => {
            if t == tag_never() {
                if val is None {
                    Some(TimeoutPolicy::Never)
                } else {
                    None
                }
            } else if t == tag_ms() {
                match val {
                    Some(n) => Some(TimeoutPolicy::ExpireAfter(n)),
                    None => None,
                }
            } else {
                None
            }
        },
    }
}

/// A timeout field's value: a tagged object, with its one or two
/// members in either order.
pub open spec fn sp_timeout_value(s: Seq<u8>, i: int) -> Option<(TimeoutPolicy, int)> {
    if 0 <= i < s.len() && s[i] == LBRACE {
        let j0 = sp_ws(s, i + 1);
        match sp_timeout_member(s, j0, None, None) {
            None => None,
            Some(((ty1, val1), j1)) => {
                let j2 = sp_ws(s, j1);
                if j2 < s.len() && s[j2] == RBRACE {
                    match sp_finish_timeout(ty1, val1) {
                        Some(t) => Some((t, j2 + 1)),
                        None => None,
                    }
                } else if j2 < s.len() && s[j2] == COMMA {
                    let j3 = sp_ws(s, j2 + 1);
                    match sp_timeout_member(s, j3, ty1, val1) {
                        None => None,
                        Some(((ty2, val2), j4)) => {
                            let j5 = sp_ws(s, j4);
                            if j5 < s.len() && s[j5] == RBRACE {
                                match sp_finish_timeout(ty2, val2) {
                                    Some(t) => Some((t, j5 + 1)),
                                    None => None,
                                }
                            } else {
                                None
                            }
                        },
                    }
                } else {
                    None
                }
            },
        }
    } else {
        None
    }
}

/// The fields collected while walking the members of the top-level
/// object.
pub struct PartialModel {
    pub title: Option<Seq<u8>>,
    pub subtitle: Option<Seq<u8>>,
    pub body: Option<Seq<u8>>,
    pub icon: Option<IconModel>,
    pub sound: Option<Seq<u8>>,
    pub timeout: Option<TimeoutPolicy>,
}

/// No field seen yet.
pub open spec fn empty_partial() -> PartialModel {
    PartialModel {
        title: None,
        subtitle: None,
        body: None,
        icon: None,
        sound: None,
        timeout: None,
    }
}

/// One member's value, parsed according to its key and merged into the
/// fields seen so far.  A known key already seen is a duplicate and is
/// rejected; `message` is an alias of `body`; an unknown key has its
/// value skipped and changes nothing.
pub open spec fn sp_member_value(s: Seq<u8>, v: int, key: Seq<u8>, acc: PartialModel) -> Option<
    (PartialModel, int),
> {
    if key == key_title() {
        if acc.title is None {
            match sp_string(s, v) {
                Some((c, j)) => Some((PartialModel { title: Some(c), ..acc }, j)),
                None => None,
            }
        } else {
            None
        }
    } else if key == key_subtitle() {
        if acc.subtitle is None {
            match sp_string(s, v) {
                Some((c, j)) => Some((PartialModel { subtitle: Some(c), ..acc }, j)),
                None => None,
            }
        } else {
            None
        }
    } else if key == key_body() || key == key_message() {
        if acc.body is None {
            match sp_string(s, v) {
                Some((c, j)) => Some((PartialModel { body: Some(c), ..acc }, j)),
                None => None,
            }
        } else {
            None
        }
    } else if key == key_sound() {
        if acc.sound is None {
            match sp_string(s, v) {
                Some((c, j)) => Some((PartialModel { sound: Some(c), ..acc }, j)),
                None => None,
            }
        } else {
            None
        }
    } else if key == key_icon() {
        if acc.icon is None {
            match sp_icon_value(s, v) {
                Some((m, j)) => Some((PartialModel { icon: Some(m), ..acc }, j)),
                None => None,
            }
        } else {
            None
        }
    } else if key == key_timeout() {
        if acc.timeout is None {
            match sp_timeout_value(s, v) {
                Some((t, j)) => Some((PartialModel { timeout: Some(t), ..acc }, j)),
                None => None,
            }
        } else {
            None
        }
    } else {
        match sp_skip_value(s, v) {
            Some(j) => Some((acc, j)),
            None => None,
        }
    }
}

/// The members of the top-level object from `i` on, merged into `acc`.
/// `first` says whether a closing brace may come directly (the empty
/// object) rather than after a member.
pub open spec fn sp_members(s: Seq<u8>, i: int, acc: PartialModel, first: bool) -> Option<
    (PartialModel, int),
>
    decreases s.len() - i,
{
    let j = sp_ws(s, i);
    if j < s.len() && s[j] == RBRACE {
        if first {
            Some((acc, j + 1))
        } else {
            None
        }
    } else {
        match sp_kv_raw(s, j) {
            None => None,
            Some((key, v)) => match sp_member_value(s, v, key, acc) {
                None => None,
                Some((acc2, j4)) => {
                    let j5 = sp_ws(s, j4);
                    if j5 < s.len() && s[j5] == COMMA {
                        if i < j5 + 1 && j5 + 1 <= s.len() {
                            sp_members(s, j5 + 1, acc2, false)
                        } else {
                            None
                        }
                    } else if j5 < s.len() && s[j5] == RBRACE {
                        Some((acc2, j5 + 1))
                    } else {
                        None
                    }
                },
            },
        }
    }
}

/// The request named by the collected fields: the title must have been
/// seen and be non-empty; every absent optional field stays absent.
pub open spec fn sp_finalize(p: PartialModel) -> Option<RequestModel> {
    match p.title {
        Some(t) => {
            if t.len() > 0 {
                Some(
                    RequestModel {
                        title: t,
                        subtitle: p.subtitle,
                        body: p.body,
                        icon: p.icon,
                        sound: p.sound,
                        timeout: p.timeout,
                    },
                )
            } else {
                None
            }
        },
        None => None,
    }
}

/// The request decoded from a whole byte sequence: one top-level
/// object, with nothing but whitespace around it.
pub open spec fn sp_decode(s: Seq<u8>) -> Option<RequestModel> {
    let i0 = sp_ws(s, 0);
    if i0 < s.len() && s[i0] == LBRACE {
        match sp_members(s, i0 + 1, empty_partial(), true) {
            None => None,
            Some((acc, j)) => {
                if sp_ws(s, j) == s.len() {
                    sp_finalize(acc)
                } else {
                    None
                }
            },
        }
    } else {
        None
    }
}

/// Parses one member of a tagged icon object and merges it into the
/// `type` and `value` fields seen so far.
fn parse_icon_member(buf: &Vec<u8>, i: usize, ty: Option<Vec<u8>>, val: Option<Vec<u8>>) -> (r:
    Option<((Option<Vec<u8>>, Option<Vec<u8>>), usize)>)
    requires
        i <= buf@.len(),
    ensures
        match r {
            Some(p) => sp_icon_member(
                buf@,
                i as int,
                crate::request::opt_bytes_view(ty),
                crate::request::opt_bytes_view(val),
            ) == Some(
                ((crate::request::opt_bytes_view(p.0.0), crate::request::opt_bytes_view(p.0.1)),
                p.1 as int),
            ) && i < p.1 <= buf@.len(),
            None => sp_icon_member(
                buf@,
                i as int,
                crate::request::opt_bytes_view(ty),
                crate::request::opt_bytes_view(val),
            ) is None,
        },
{
    match parse_kv_raw(buf, i) {
        None => None,
        Some((k, v)) => {
            let tyk = key_type_vec();
            let valk = key_value_vec();
            if bytes_eq(&k, &tyk) {
                if ty.is_some() {
                    return None;
                }
                match parse_string(buf, v) {
                    Some((t, j)) => Some(((Some(t), val), j)),
                    None => None,
                }
            } else if bytes_eq(&k, &valk) {
                if val.is_some() {
                    return None;
                }
                match parse_string(buf, v) {
                    Some((w, j)) => Some(((ty, Some(w)), j)),
                    None => None,
                }
            } else {
                None
            }
        },
    }
}

/// Builds the icon specification named by a complete tagged object.
fn finish_icon(ty: Option<Vec<u8>>, val: Option<Vec<u8>>) -> (r: Option<IconSpec>)
    ensures
        match r {
            Some(m) => sp_finish_icon(
                crate::request::opt_bytes_view(ty),
                crate::request::opt_bytes_view(val),
            ) == Some(m@),
            None => sp_finish_icon(
                crate::request::opt_bytes_view(ty),
                crate::request::opt_bytes_view(val),
            ) is None,
        },
{
    match (ty, val) {
        (Some(t), Some(w)) => {
            let app = tag_app_vec();
            let path = tag_path_vec();
            let name = tag_name_vec();
            if bytes_eq(&t, &app) {
                Some(IconSpec::AppIdentity(w))
            } else if bytes_eq(&t, &path) {
                Some(IconSpec::FilePath(w))
            } else if bytes_eq(&t, &name) {
                Some(IconSpec::ThemeName(w))
            } else {
                None
            }
        },
        _ => None,
    }
}

/// Parses an icon field's value at `i`.
fn parse_icon_value(buf: &Vec<u8>, i: usize) -> (r: Option<(IconSpec, usize)>)
    requires
        i <= buf@.len(),
    ensures
        match r {
            Some(p) => sp_icon_value(buf@, i as int) == Some((p.0@, p.1 as int)) && i < p.1
                <= buf@.len(),
            None => sp_icon_value(buf@, i as int) is None,
        },
{
    if i < buf.len() && buf[i] == QUOTE {
        return match parse_string(buf, i) {
            Some((c, j)) => Some((IconSpec::ThemeName(c), j)),
            None => None,
        };
    }
    if i >= buf.len() || buf[i] != LBRACE {
        return None;
    }
    let j0 = ws_from(buf, i + 1);
    match parse_icon_member(buf, j0, None, None) {
        None => None,
        Some(((ty1, val1), j1)) => {
            let j2 = ws_from(buf, j1);
            if j2 < buf.len() && buf[j2] == RBRACE {
                match finish_icon(ty1, val1) {
                    Some(m) => Some((m, j2 + 1)),
                    None => None,
                }
            } else if j2 < buf.len() && buf[j2] == COMMA {
                let j3 = ws_from(buf, j2 + 1);
                match parse_icon_member(buf, j3, ty1, val1) {
                    None => None,
                    Some(((ty2, val2), j4)) => {
                        let j5 = ws_from(buf, j4);
                        if j5 < buf.len() && buf[j5] == RBRACE {
                            match finish_icon(ty2, val2) {
                                Some(m) => Some((m, j5 + 1)),
                                None => None,
                            }
                        } else {
                            None
                        }
                    },
                }
            } else {
                None
            }
        },
    }
}

/// Parses one member of a tagged timeout object and merges it into the
/// `type` and `value` fields seen so far.
fn parse_timeout_member(buf: &Vec<u8>, i: usize, ty: Option<Vec<u8>>, val: Option<u32>) -> (r:
    Option<((Option<Vec<u8>>, Option<u32>), usize)>)
    requires
        i <= buf@.len(),
    ensures
        match r {
            Some(p) => sp_timeout_member(
                buf@,
                i as int,
                crate::request::opt_bytes_view(ty),
                val,
            ) == Some(
                ((crate::request::opt_bytes_view(p.0.0), p.0.1), p.1 as int),
            ) && i < p.1 <= buf@.len(),
            None => sp_timeout_member(
                buf@,
                i as int,
                crate::request::opt_bytes_view(ty),
                val,
            ) is None,
        },
{
    match parse_kv_raw(buf, i) {
        None => None,
        Some((k, v)) => {
            let tyk = key_type_vec();
            let valk = key_value_vec();
            if bytes_eq(&k, &tyk) {
                if ty.is_some() {
                    return None;
                }
                match parse_string(buf, v) {
                    Some((t, j)) => Some(((Some(t), val), j)),
                    None => None,
                }
            } else if bytes_eq(&k, &valk) {
                if val.is_some() {
                    return None;
                }
                match parse_u32(buf, v) {
                    Some((n, j)) => Some(((ty, Some(n)), j)),
                    None => None,
                }
            } else {
                None
            }
        },
    }
}

/// Builds the timeout policy named by a complete tagged object.
fn finish_timeout(ty: Option<Vec<u8>>, val: Option<u32>) -> (r: Option<TimeoutPolicy>)
    ensures
        match r {
            Some(t) => sp_finish_timeout(crate::request::opt_bytes_view(ty), val) == Some(t),
            None => sp_finish_timeout(crate::request::opt_bytes_view(ty), val) is None,
        },
{
    match ty {
        None => None,
        Some(t) => {
            let never = tag_never_vec();
            let ms = tag_ms_vec();
            if bytes_eq(&t, &never) {
                match val {
                    None => Some(TimeoutPolicy::Never),
                    Some(_) => None,
                }
            } else if bytes_eq(&t, &ms) {
                match val {
                    Some(n) => Some(TimeoutPolicy::ExpireAfter(n)),
                    None => None,
                }
            } else {
                None
            }
        },
    }
}

/// Parses a timeout field's value at `i`.
fn parse_timeout_value(buf: &Vec<u8>, i: usize) -> (r: Option<(TimeoutPolicy, usize)>)
    requires
        i <= buf@.len(),
    ensures
        match r {
            Some(p) => sp_timeout_value(buf@, i as int) == Some((p.0, p.1 as int)) && i < p.1
                <= buf@.len(),
            None => sp_timeout_value(buf@, i as int) is None,
        },
{
    if i >= buf.len() || buf[i] != LBRACE {
        return None;
    }
    let j0 = ws_from(buf, i + 1);
    match parse_timeout_member(buf, j0, None, None) {
        None => None,
        Some(((ty1, val1), j1)) => {
            let j2 = ws_from(buf, j1);
            if j2 < buf.len() && buf[j2] == RBRACE {
                match finish_timeout(ty1, val1) {
                    Some(t) => Some((t, j2 + 1)),
                    None => None,
                }
            } else if j2 < buf.len() && buf[j2] == COMMA {
                let j3 = ws_from(buf, j2 + 1);
                match parse_timeout_member(buf, j3, ty1, val1) {
                    None => None,
                    Some(((ty2, val2), j4)) => {
                        let j5 = ws_from(buf, j4);
                        if j5 < buf.len() && buf[j5] == RBRACE {
                            match finish_timeout(ty2, val2) {
                                Some(t) => Some((t, j5 + 1)),
                                None => None,
                            }
                        } else {
                            None
                        }
                    },
                }
            } else {
                None
            }
        },
    }
}

/// The fields collected so far while decoding the top-level object.
pub struct PartialReq {
    pub title: Option<Vec<u8>>,
    pub subtitle: Option<Vec<u8>>,
    pub body: Option<Vec<u8>>,
    pub icon: Option<IconSpec>,
    pub sound: Option<Vec<u8>>,
    pub timeout: Option<TimeoutPolicy>,
}

impl View for PartialReq {
    type V = PartialModel;

    open spec fn view(&self) -> PartialModel {
        PartialModel {
            title: crate::request::opt_bytes_view(self.title),
            subtitle: crate::request::opt_bytes_view(self.subtitle),
            body: crate::request::opt_bytes_view(self.body),
            icon: crate::request::opt_icon_view(self.icon),
            sound: crate::request::opt_bytes_view(self.sound),
            timeout: self.timeout,
        }
    }
}

/// Parses one member's value according to its key and merges it into
/// the fields seen so far.
fn parse_member_value(buf: &Vec<u8>, v: usize, key: &Vec<u8>, acc: PartialReq) -> (r: Option<
    (PartialReq, usize)>)
    requires
        v <= buf@.len(),
    ensures
        match r {
            Some(p) => sp_member_value(buf@, v as int, key@, acc@) == Some((p.0@, p.1 as int))
                && v < p.1 <= buf@.len(),
            None => sp_member_value(buf@, v as int, key@, acc@) is None,
        },
{
    let mut acc = acc;
    let title_k = key_title_vec();
    let subtitle_k = key_subtitle_vec();
    let body_k = key_body_vec();
    let message_k = key_message_vec();
    let sound_k = key_sound_vec();
    let icon_k = key_icon_vec();
    let timeout_k = key_timeout_vec();
    if bytes_eq(key, &title_k) {
        if acc.title.is_some() {
            return None;
        }
        match parse_string(buf, v) {
            Some((c, j)) => {
                acc.title = Some(c);
                Some((acc, j))
            },
            None => None,
        }
    } else if bytes_eq(key, &subtitle_k) {
        if acc.subtitle.is_some() {
            return None;
        }
        match parse_string(buf, v) {
            Some((c, j)) => {
                acc.subtitle = Some(c);
                Some((acc, j))
            },
            None => None,
        }
    } else if bytes_eq(key, &body_k) || bytes_eq(key, &message_k) {
        if acc.body.is_some() {
            return None;
        }
        match parse_string(buf, v) {
            Some((c, j)) => {
                acc.body = Some(c);
                Some((acc, j))
            },
            None => None,
        }
    } else if bytes_eq(key, &sound_k) {
        if acc.sound.is_some() {
            return None;
        }
        match parse_string(buf, v) {
            Some((c, j)) => {
                acc.sound = Some(c);
                Some((acc, j))
            },
            None => None,
        }
    } else if bytes_eq(key, &icon_k) {
        if acc.icon.is_some() {
            return None;
        }
        match parse_icon_value(buf, v) {
            Some((m, j)) => {
                acc.icon = Some(m);
                Some((acc, j))
            },
            None => None,
        }
    } else if bytes_eq(key, &timeout_k) {
        if acc.timeout.is_some() {
            return None;
        }
        match parse_timeout_value(buf, v) {
            Some((t, j)) => {
                acc.timeout = Some(t);
                Some((acc, j))
            },
            None => None,
        }
    } else {
        match skip_value(buf, v) {
            Some(j) => Some((acc, j)),
            None => None,
        }
    }
}

/// A decoder failure for input that is not a well-formed object.
fn malformed_error() -> (e: ParseError)
    ensures
        e@.len() > 0,
{
    let m: Vec<u8> = vec![109u8, 97u8, 108u8, 102u8, 111u8, 114u8, 109u8, 101u8, 100u8, 32u8,
        110u8, 111u8, 116u8, 105u8, 102u8, 105u8, 99u8, 97u8, 116u8, 105u8, 111u8, 110u8, 32u8,
        112u8, 97u8, 121u8, 108u8, 111u8, 97u8, 100u8];
    ParseError { message: m }
}

/// A decoder failure for a well-formed object without a usable title.
fn title_error() -> (e: ParseError)
    ensures
        e@.len() > 0,
{
    let m: Vec<u8> = vec![109u8, 105u8, 115u8, 115u8, 105u8, 110u8, 103u8, 32u8, 111u8, 114u8,
        32u8, 101u8, 109u8, 112u8, 116u8, 121u8, 32u8, 116u8, 105u8, 116u8, 108u8, 101u8];
    ParseError { message: m }
}

/// A payload whose members left the title unseen is rejected: the
/// decoder never invents a title.
pub proof fn lemma_missing_title_rejected(p: PartialModel)
    requires
        p.title is None,
    ensures
        sp_finalize(p) is None,
{
}

/// A decoded request always carries a non-empty title: whenever the
/// decoder succeeds, the title was present in the input and non-empty.
pub proof fn lemma_decoded_title_nonempty(s: Seq<u8>)
    ensures
        sp_decode(s) matches Some(m) ==> m.title.len() > 0,
{
}

/// A request whose members set only the title decodes to a request
/// with every optional field absent, and its absent icon resolves to
/// the default `"terminal"` reference.
pub proof fn lemma_title_only_defaults(t: Seq<u8>, path_exists: bool)
    requires
        t.len() > 0,
    ensures
        sp_finalize(PartialModel { title: Some(t), ..empty_partial() }) == Some(
            RequestModel {
                title: t,
                subtitle: None,
                body: None,
                icon: None,
                sound: None,
                timeout: None,
            },
        ),
        crate::icon::spec_resolve_icon(None, path_exists) == crate::terminal_ref(),
{
}

/// A byte that may stand in a string literal without escaping.
pub open spec fn plain_byte(b: u8) -> bool {
    b != QUOTE && b != BACKSLASH && b >= 32
}

/// The canonical payload that sets only the title: `{"title":"<t>"}`.
pub open spec fn title_only_payload(t: Seq<u8>) -> Seq<u8> {
    seq![LBRACE, QUOTE] + key_title() + seq![QUOTE, COLON, QUOTE] + t + seq![QUOTE, RBRACE]
}

/// A run of unescaped bytes closed by a quote parses to exactly those
/// bytes.
proof fn lemma_string_body_plain(s: Seq<u8>, i: int, end: int, acc: Seq<u8>)
    requires
        0 <= i <= end < s.len(),
        forall|k: int| i <= k < end ==> plain_byte(#[trigger] s[k]),
        s[end] == QUOTE,
    ensures
        sp_string_body(s, i, acc) == Some((acc + s.subrange(i, end), end + 1)),
    decreases end - i,
{
    if i == end {
        assert(acc + s.subrange(i, end) =~= acc);
    } else {
        lemma_string_body_plain(s, i + 1, end, acc.push(s[i]));
        assert(acc.push(s[i]) + s.subrange(i + 1, end) =~= acc + s.subrange(i, end));
    }
}

/// Decoding the canonical title-only payload succeeds for every
/// non-empty title of unescaped bytes, and every optional field of the
/// decoded request is absent.  Together with the resolver's policy on
/// an absent icon, such a request reaches the builder with the default
/// `"terminal"` icon reference.
pub proof fn lemma_title_only_payload_decodes(t: Seq<u8>)
    requires
        t.len() > 0,
        forall|k: int| 0 <= k < t.len() ==> plain_byte(#[trigger] t[k]),
    ensures
        sp_decode(title_only_payload(t)) == Some(
            RequestModel {
                title: t,
                subtitle: None,
                body: None,
                icon: None,
                sound: None,
                timeout: None,
            },
        ),
{
    let s = title_only_payload(t);
    let n = t.len() as int;
    assert(s.len() == 12 + n);
    assert(s[0] == LBRACE);
    assert(s[1] == QUOTE);
    assert(forall|k: int| 0 <= k < 5 ==> s[2 + k] == #[trigger] key_title()[k]);
    assert(s[7] == QUOTE);
    assert(s[8] == COLON);
    assert(s[9] == QUOTE);
    assert(forall|k: int| 0 <= k < n ==> s[10 + k] == #[trigger] t[k]);
    assert(s[10 + n] == QUOTE);
    assert(s[11 + n] == RBRACE);
    assert(s.subrange(2, 7) =~= key_title());
    assert(s.subrange(10, 10 + n) =~= t);
    // The key string.
    assert(forall|k: int| 2 <= k < 7 ==> plain_byte(#[trigger] s[k])) by {
        assert(forall|k: int| 2 <= k < 7 ==> #[trigger] s[k] == key_title()[k - 2]);
    }
    lemma_string_body_plain(s, 2, 7, Seq::empty());
    assert(Seq::empty() + s.subrange(2, 7) =~= key_title());
    assert(sp_string(s, 1) == Some((key_title(), 8int)));
    // Whitespace is absent everywhere it could occur.
    assert(sp_ws(s, 0) == 0);
    assert(sp_ws(s, 8) == 8);
    assert(sp_ws(s, 9) == 9);
    assert(sp_kv_raw(s, 1) == Some((key_title(), 9int)));
    // The title string.
    assert(forall|k: int| 10 <= k < 10 + n ==> plain_byte(#[trigger] s[k])) by {
        assert(forall|k: int| 10 <= k < 10 + n ==> #[trigger] s[k] == t[k - 10]);
    }
    lemma_string_body_plain(s, 10, 10 + n, Seq::empty());
    assert(Seq::empty() + s.subrange(10, 10 + n) =~= t);
    assert(sp_string(s, 9) == Some((t, 11 + n)));
    let filled = PartialModel { title: Some(t), ..empty_partial() };
    assert(sp_member_value(s, 9, key_title(), empty_partial()) == Some((filled, 11 + n)));
    assert(sp_ws(s, 1) == 1);
    assert(sp_ws(s, 11 + n) == 11 + n);
    assert(sp_members(s, 1, empty_partial(), true) == Some((filled, 12 + n)));
    assert(sp_ws(s, 12 + n) == 12 + n);
    assert(sp_finalize(filled) == Some(
        RequestModel {
            title: t,
            subtitle: None,
            body: None,
            icon: None,
            sound: None,
            timeout: None,
        },
    ));
}

/// Walks the members of the top-level object, starting just after its
/// opening brace.
fn parse_members(buf: &Vec<u8>, start: usize) -> (r: Option<(PartialReq, usize)>)
    requires
        start <= buf@.len(),
    ensures
        match r {
            Some(p) => sp_members(buf@, start as int, empty_partial(), true) == Some(
                (p.0@, p.1 as int),
            ) && p.1 <= buf@.len(),
            None => sp_members(buf@, start as int, empty_partial(), true) is None,
        },
{
    let mut acc = PartialReq {
        title: None,
        subtitle: None,
        body: None,
        icon: None,
        sound: None,
        timeout: None,
    };
    proof {
        assert(acc@ == empty_partial());
    }
    let mut pos: usize = start;
    let mut first: bool = true;
    loop
        invariant
            pos <= buf@.len(),
            sp_members(buf@, start as int, empty_partial(), true) == sp_members(
                buf@,
                pos as int,
                acc@,
                first,
            ),
        decreases buf@.len() - pos,
    {
        let j = ws_from(buf, pos);
        if j < buf.len() && buf[j] == RBRACE {
            if first {
                return Some((acc, j + 1));
            } else {
                return None;
            }
        }
        match parse_kv_raw(buf, j) {
            None => {
                return None;
            },
            Some((k, v)) => {
                match parse_member_value(buf, v, &k, acc) {
                    None => {
                        return None;
                    },
                    Some((acc2, j4)) => {
                        let j5 = ws_from(buf, j4);
                        if j5 < buf.len() && buf[j5] == COMMA {
                            acc = acc2;
                            pos = j5 + 1;
                            first = false;
                        } else if j5 < buf.len() && buf[j5] == RBRACE {
                            return Some((acc2, j5 + 1));
                        } else {
                            return None;
                        }
                    },
                }
            },
        }
    }
}

/// Decodes raw input bytes into a notification request.
///
/// The decoder succeeds exactly when the specification-level decoder
/// does, and then returns exactly the request it names — in
/// particular, the title is present and non-empty, and every field
/// absent from the input is absent from the request.  On any other
/// input it returns a parse error with a non-empty message.
pub fn decode_request(input: &Vec<u8>) -> (r: Result<NotificationRequest, ParseError>)
    ensures
        match r {
            Ok(req) => sp_decode(input@) == Some(req@) && request_wf(req@),
            Err(e) => sp_decode(input@) is None && e@.len() > 0,
        },
{
    let i0 = ws_from(input, 0);
    if i0 >= input.len() || input[i0] != LBRACE {
        return Err(malformed_error());
    }
    let (acc, end) = match parse_members(input, i0 + 1) {
        None => {
            return Err(malformed_error());
        },
        Some(p) => p,
    };
    let j2 = ws_from(input, end);
    if j2 != input.len() {
        return Err(malformed_error());
    }
    match acc.title {
        None => Err(title_error()),
        Some(title) => {
            if title.len() == 0 {
                Err(title_error())
            } else {
                Ok(
                    NotificationRequest {
                        title,
                        subtitle: acc.subtitle,
                        body: acc.body,
                        icon: acc.icon,
                        sound: acc.sound,
                        timeout: acc.timeout,
                    },
                )
            }
        },
    }
}

} // verus!
