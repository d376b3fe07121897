//! Wire codec: framing and classification of CDP JSON envelopes.
//!
//! Outbound frames are built by verified byte concatenation; inbound frames
//! are scanned by a verified single-pass object scanner and classified as
//! responses or events.  Payloads (`params`, `result`) travel as raw JSON
//! byte spans; the codec never interprets them.

use vstd::prelude::*;
use vstd::arithmetic::div_mod::lemma_fundamental_div_mod;
use vstd::arithmetic::mul::lemma_mul_inequality;
use vstd::string::StringSliceAdditionalSpecFns;

verus! {

// ---------------------------------------------------------------------------
// byte helpers
// ---------------------------------------------------------------------------

/// JSON insignificant whitespace.
pub open spec fn is_ws(b: u8) -> bool {
    b == 32 || b == 9 || b == 10 || b == 13
}

pub open spec fn is_digit(b: u8) -> bool {
    48 <= b && b <= 57
}

fn ws_byte(b: u8) -> (r: bool)
    ensures
        r == is_ws(b),
{
    b == 32 || b == 9 || b == 10 || b == 13
}

fn digit_byte(b: u8) -> (r: bool)
    ensures
        r == is_digit(b),
{
    48 <= b && b <= 57
}

/// Byte-for-byte equality of two slices.
pub fn bytes_eq(a: &[u8], b: &[u8]) -> (r: bool)
    ensures
        r == (a@ == b@),
{
    if a.len() != b.len() {
        assert(a@ != b@) by {
            assert(a@.len() != b@.len());
        }
        return false;
    }
    let mut i: usize = 0;
    while i < a.len()
        invariant
            i <= a.len(),
            a.len() == b.len(),
            forall|j: int| 0 <= j < i ==> a@[j] == b@[j],
        decreases a.len() - i,
    {
        if a[i] != b[i] {
            assert(a@ != b@) by {
                assert(a@[i as int] != b@[i as int]);
            }
            return false;
        }
        i = i + 1;
    }
    assert(a@ =~= b@);
    true
}

/// A fresh copy of `s[a..b]`.
pub fn copy_range(s: &[u8], a: usize, b: usize) -> (r: Vec<u8>)
    requires
        a <= b <= s.len(),
    ensures
        r@ == s@.subrange(a as int, b as int),
{
    let mut r: Vec<u8> = Vec::new();
    let mut i: usize = a;
    while i < b
        invariant
            a <= i <= b <= s.len(),
            r@ == s@.subrange(a as int, i as int),
        decreases b - i,
    {
        r.push(s[i]);
        assert(r@ =~= s@.subrange(a as int, i + 1 as int));
        i = i + 1;
    }
    r
}

/// A fresh copy of a byte vector.
pub fn clone_bytes(s: &Vec<u8>) -> (r: Vec<u8>)
    ensures
        r@ == s@,
{
    let mut r: Vec<u8> = Vec::new();
    let mut i: usize = 0;
    while i < s.len()
        invariant
            i <= s.len(),
            r@ == s@.subrange(0, i as int),
        decreases s.len() - i,
    {
        r.push(s[i]);
        assert(r@ =~= s@.subrange(0, i + 1 as int));
        i = i + 1;
    }
    assert(r@ =~= s@);
    r
}

// ---------------------------------------------------------------------------
// decimal numerals
// ---------------------------------------------------------------------------

/// The decimal numeral of `n`, most significant digit first.
pub open spec fn spec_dec(n: u64) -> Seq<u8>
    decreases n,
{
    if n < 10 {
        seq![(48 + n) as u8]
    } else {
        spec_dec(n / 10) + seq![(48 + n % 10) as u8]
    }
}

/// Render `n` in decimal.
pub fn dec_of_u64(n: u64) -> (r: Vec<u8>)
    ensures
        r@ == spec_dec(n),
    decreases n,
{
    if n < 10 {
        let mut v: Vec<u8> = Vec::new();
        v.push((48 + n) as u8);
        assert(v@ =~= spec_dec(n));
        v
    } else {
        let mut v = dec_of_u64(n / 10);
        v.push((48 + n % 10) as u8);
        assert(v@ =~= spec_dec(n));
        v
    }
}

proof fn lemma_mul10_no_overflow(acc: u64, d: u64)
    requires
        d <= 9,
        acc <= (u64::MAX - d) / 10,
    ensures
        acc as int * 10 + d as int <= u64::MAX as int,
{
    let m = u64::MAX as int - d as int;
    lemma_fundamental_div_mod(m, 10);
    lemma_mul_inequality(acc as int, m / 10, 10);
}

/// Reading a decimal numeral left to right with accumulator `acc`.
/// `None` on a non-digit byte or when the value exceeds `u64::MAX`.
pub open spec fn spec_parse_u64_from(s: Seq<u8>, i: int, acc: u64) -> Option<u64>
    decreases s.len() - i,
{
    if i < 0 || i >= s.len() {
        Some(acc)
    } else if !is_digit(s[i]) {
        None
    } else {
        let d = (s[i] - 48) as u64;
        if acc > (u64::MAX - d) / 10 {
            None
        } else {
            spec_parse_u64_from(s, i + 1, (acc * 10 + d) as u64)
        }
    }
}

/// The value of a decimal numeral: every byte a digit, at least one digit,
/// and the value fits in `u64`.
pub open spec fn spec_parse_u64(s: Seq<u8>) -> Option<u64> {
    if s.len() == 0 {
        None
    } else {
        spec_parse_u64_from(s, 0, 0)
    }
}

fn parse_u64_from(s: &[u8], i: usize, acc: u64) -> (r: Option<u64>)
    requires
        i <= s.len(),
    ensures
        r == spec_parse_u64_from(s@, i as int, acc),
    decreases s.len() - i,
{
    if i >= s.len() {
        Some(acc)
    } else if !digit_byte(s[i]) {
        None
    } else {
        let d = (s[i] - 48) as u64;
        if acc > (u64::MAX - d) / 10 {
            None
        } else {
            proof {
                lemma_mul10_no_overflow(acc, d);
            }
            parse_u64_from(s, i + 1, acc * 10 + d)
        }
    }
}

/// Parse a decimal numeral.
pub fn parse_u64(s: &[u8]) -> (r: Option<u64>)
    ensures
        r == spec_parse_u64(s@),
{
    if s.len() == 0 {
        None
    } else {
        parse_u64_from(s, 0, 0)
    }
}

/// The value of an optionally `-`-signed decimal numeral, within `i64`.
pub open spec fn spec_parse_i64(s: Seq<u8>) -> Option<i64> {
    if s.len() >= 1 && s[0] == 45 {
        match spec_parse_u64(s.skip(1)) {
            Some(m) => if m <= i64::MAX as u64 {
                Some((-(m as int)) as i64)
            } else if m == i64::MAX as u64 + 1 {
                Some(i64::MIN)
            } else {
                None
            },
            None => None,
        }
    } else {
        match spec_parse_u64(s) {
            Some(m) => if m <= i64::MAX as u64 {
                Some(m as i64)
            } else {
                None
            },
            None => None,
        }
    }
}

/// Parse an optionally signed decimal numeral.
pub fn parse_i64(s: &[u8]) -> (r: Option<i64>)
    ensures
        r == spec_parse_i64(s@),
{
    if s.len() >= 1 && s[0] == 45 {
        let rest = copy_range(s, 1, s.len());
        assert(rest@ =~= s@.skip(1));
        match parse_u64(rest.as_slice()) {
            Some(m) => {
                if m <= i64::MAX as u64 {
                    Some(-(m as i64))
                } else if m == i64::MAX as u64 + 1 {
                    Some(i64::MIN)
                } else {
                    None
                }
            },
            None => None,
        }
    } else {
        match parse_u64(s) {
            Some(m) => if m <= i64::MAX as u64 {
                Some(m as i64)
            } else {
                None
            },
            None => None,
        }
    }
}

// ---------------------------------------------------------------------------
// JSON string escaping
// ---------------------------------------------------------------------------

/// How one byte is written inside a JSON string literal.
pub open spec fn esc_byte(b: u8) -> Seq<u8> {
    if b == 34 {
        seq![92u8, 34u8]
    } else if b == 92 {
        seq![92u8, 92u8]
    } else if b == 10 {
        seq![92u8, 110u8]
    } else if b == 13 {
        seq![92u8, 114u8]
    } else if b == 9 {
        seq![92u8, 116u8]
    } else {
        seq![b]
    }
}

/// The body of the JSON string literal that denotes `s`.
pub open spec fn spec_escape(s: Seq<u8>) -> Seq<u8>
    decreases s.len(),
{
    if s.len() == 0 {
        Seq::empty()
    } else {
        spec_escape(s.drop_last()) + esc_byte(s.last())
    }
}

/// Escape a byte string for inclusion inside JSON quotes.
pub fn escape(s: &[u8]) -> (r: Vec<u8>)
    ensures
        r@ == spec_escape(s@),
{
    let mut r: Vec<u8> = Vec::new();
    let mut i: usize = 0;
    while i < s.len()
        invariant
            i <= s.len(),
            r@ == spec_escape(s@.take(i as int)),
        decreases s.len() - i,
    {
        let b = s[i];
        if b == 34 {
            r.push(92);
            r.push(34);
        } else if b == 92 {
            r.push(92);
            r.push(92);
        } else if b == 10 {
            r.push(92);
            r.push(110);
        } else if b == 13 {
            r.push(92);
            r.push(114);
        } else if b == 9 {
            r.push(92);
            r.push(116);
        } else {
            r.push(b);
        }
        proof {
            let t1 = s@.take(i + 1 as int);
            assert(t1.drop_last() =~= s@.take(i as int));
            assert(t1.last() == s@[i as int]);
            assert(r@ =~= spec_escape(s@.take(i as int)) + esc_byte(s@[i as int]));
        }
        i = i + 1;
    }
    assert(s@.take(s@.len() as int) =~= s@);
    r
}

/// What one escape pair denotes; an unknown escape is kept verbatim.
pub open spec fn unesc_pair(b: u8) -> Seq<u8> {
    if b == 110 {
        seq![10u8]
    } else if b == 116 {
        seq![9u8]
    } else if b == 114 {
        seq![13u8]
    } else if b == 98 {
        seq![8u8]
    } else if b == 102 {
        seq![12u8]
    } else if b == 34 || b == 92 || b == 47 {
        seq![b]
    } else {
        seq![92u8, b]
    }
}

/// The byte string denoted by the body of a JSON string literal.
pub open spec fn spec_unescape(s: Seq<u8>) -> Seq<u8>
    decreases s.len(),
{
    if s.len() == 0 {
        Seq::empty()
    } else if s[0] == 92 && s.len() >= 2 {
        unesc_pair(s[1]) + spec_unescape(s.skip(2))
    } else {
        seq![s[0]] + spec_unescape(s.skip(1))
    }
}

/// Undo `escape`.
pub fn unescape(s: &[u8]) -> (r: Vec<u8>)
    ensures
        r@ == spec_unescape(s@),
{
    let mut r: Vec<u8> = Vec::new();
    let mut i: usize = 0;
    proof {
        assert(s@.skip(0) =~= s@);
        assert(r@ + spec_unescape(s@) =~= spec_unescape(s@));
    }
    while i < s.len()
        invariant
            i <= s.len(),
            spec_unescape(s@) == r@ + spec_unescape(s@.skip(i as int)),
        decreases s.len() - i,
    {
        let ghost pre = s@.skip(i as int);
        let b = s[i];
        if b == 92 && i + 1 < s.len() {
            let e = s[i + 1];
            if e == 110 {
                r.push(10);
            } else if e == 116 {
                r.push(9);
            } else if e == 114 {
                r.push(13);
            } else if e == 98 {
                r.push(8);
            } else if e == 102 {
                r.push(12);
            } else if e == 34 || e == 92 || e == 47 {
                r.push(e);
            } else {
                r.push(92);
                r.push(e);
            }
            proof {
                assert(pre[0] == 92 && pre.len() >= 2);
                assert(pre[1] == s@[i + 1]);
                assert(pre.skip(2) =~= s@.skip(i + 2));
                assert(spec_unescape(pre) == unesc_pair(s@[i + 1]) + spec_unescape(
                    s@.skip(i + 2),
                ));
            }
            i = i + 2;
        } else {
            r.push(b);
            proof {
                assert(pre[0] == s@[i as int]);
                assert(pre.skip(1) =~= s@.skip(i + 1));
                assert(spec_unescape(pre) == seq![s@[i as int]] + spec_unescape(s@.skip(i + 1)));
            }
            i = i + 1;
        }
    }
    proof {
        assert(s@.skip(s@.len() as int) =~= Seq::<u8>::empty());
        assert(r@ =~= spec_unescape(s@));
    }
    r
}

// ---------------------------------------------------------------------------
// object scanner
// ---------------------------------------------------------------------------

/// One member of a scanned JSON object: the raw key span (between its quotes,
/// escapes untouched) and the raw value span (a string literal with its
/// quotes, a balanced object or array, or a primitive token).
pub struct Member {
    pub key: Vec<u8>,
    pub val: Vec<u8>,
}

impl View for Member {
    type V = (Seq<u8>, Seq<u8>);

    open spec fn view(&self) -> (Seq<u8>, Seq<u8>) {
        (self.key@, self.val@)
    }
}

pub open spec fn members_view(ms: Seq<Member>) -> Seq<(Seq<u8>, Seq<u8>)> {
    ms.map_values(|m: Member| m@)
}

/// The scanner's position in the member grammar.
#[derive(Clone, Copy)]
pub enum ObjPhase {
    BeforeObj,
    BeforeFirstKey,
    BeforeKey,
    InKey,
    InKeyEsc,
    AfterKey,
    BeforeVal,
    InStrVal,
    InStrValEsc,
    InNested,
    InNestedStr,
    InNestedStrEsc,
    InPrim,
    AfterVal,
    AfterObj,
}

/// The single-pass object scanner, one byte per step.  `i` is the cursor,
/// `ks..ke` the current key span, `vs` the start of the current value span,
/// `depth` the bracket depth inside a nested value, `acc` the members seen.
/// The scan succeeds only if the whole input is one object with trailing
/// whitespace at most.
pub open spec fn spec_obj_step(
    s: Seq<u8>,
    i: int,
    ph: ObjPhase,
    ks: int,
    ke: int,
    vs: int,
    depth: int,
    acc: Seq<(Seq<u8>, Seq<u8>)>,
) -> Option<Seq<(Seq<u8>, Seq<u8>)>>
    decreases s.len() - i,
{
    if i < 0 || i >= s.len() {
        match ph {
            ObjPhase::AfterObj => Some(acc),
            _ => None,
        }
    } else {
        let b = s[i];
        match ph {
            ObjPhase::BeforeObj => if is_ws(b) {
                spec_obj_step(s, i + 1, ph, ks, ke, vs, depth, acc)
            } else if b == 123 {
                spec_obj_step(s, i + 1, ObjPhase::BeforeFirstKey, ks, ke, vs, depth, acc)
            } else {
                None
            },
            ObjPhase::BeforeFirstKey => if is_ws(b) {
                spec_obj_step(s, i + 1, ph, ks, ke, vs, depth, acc)
            } else if b == 34 {
                spec_obj_step(s, i + 1, ObjPhase::InKey, i + 1, ke, vs, depth, acc)
            } else if b == 125 {
                spec_obj_step(s, i + 1, ObjPhase::AfterObj, ks, ke, vs, depth, acc)
            } else {
                None
            },
            ObjPhase::BeforeKey => if is_ws(b) {
                spec_obj_step(s, i + 1, ph, ks, ke, vs, depth, acc)
            } else if b == 34 {
                spec_obj_step(s, i + 1, ObjPhase::InKey, i + 1, ke, vs, depth, acc)
            } else {
                None
            },
            ObjPhase::InKey => if b == 34 {
                spec_obj_step(s, i + 1, ObjPhase::AfterKey, ks, i, vs, depth, acc)
            } else if b == 92 {
                spec_obj_step(s, i + 1, ObjPhase::InKeyEsc, ks, ke, vs, depth, acc)
            } else {
                spec_obj_step(s, i + 1, ph, ks, ke, vs, depth, acc)
            },
            ObjPhase::InKeyEsc => spec_obj_step(s, i + 1, ObjPhase::InKey, ks, ke, vs, depth, acc),
            ObjPhase::AfterKey => if is_ws(b) {
                spec_obj_step(s, i + 1, ph, ks, ke, vs, depth, acc)
            } else if b == 58 {
                spec_obj_step(s, i + 1, ObjPhase::BeforeVal, ks, ke, vs, depth, acc)
            } else {
                None
            },
            ObjPhase::BeforeVal => if is_ws(b) {
                spec_obj_step(s, i + 1, ph, ks, ke, vs, depth, acc)
            } else if b == 34 {
                spec_obj_step(s, i + 1, ObjPhase::InStrVal, ks, ke, i, depth, acc)
            } else if b == 123 || b == 91 {
                spec_obj_step(s, i + 1, ObjPhase::InNested, ks, ke, i, 1, acc)
            } else if b == 44 || b == 125 || b == 93 || b == 58 {
                None
            } else {
                spec_obj_step(s, i + 1, ObjPhase::InPrim, ks, ke, i, depth, acc)
            },
            ObjPhase::InStrVal => if b == 34 {
                spec_obj_step(
                    s,
                    i + 1,
                    ObjPhase::AfterVal,
                    ks,
                    ke,
                    vs,
                    depth,
                    acc.push((s.subrange(ks, ke), s.subrange(vs, i + 1))),
                )
            } else if b == 92 {
                spec_obj_step(s, i + 1, ObjPhase::InStrValEsc, ks, ke, vs, depth, acc)
            } else {
                spec_obj_step(s, i + 1, ph, ks, ke, vs, depth, acc)
            },
            ObjPhase::InStrValEsc => spec_obj_step(
                s,
                i + 1,
                ObjPhase::InStrVal,
                ks,
                ke,
                vs,
                depth,
                acc,
            ),
            ObjPhase::InNested => if b == 34 {
                spec_obj_step(s, i + 1, ObjPhase::InNestedStr, ks, ke, vs, depth, acc)
            } else if b == 123 || b == 91 {
                spec_obj_step(s, i + 1, ph, ks, ke, vs, depth + 1, acc)
            } else if b == 125 || b == 93 {
                if depth == 1 {
                    spec_obj_step(
                        s,
                        i + 1,
                        ObjPhase::AfterVal,
                        ks,
                        ke,
                        vs,
                        0,
                        acc.push((s.subrange(ks, ke), s.subrange(vs, i + 1))),
                    )
                } else {
                    spec_obj_step(s, i + 1, ph, ks, ke, vs, depth - 1, acc)
                }
            } else {
                spec_obj_step(s, i + 1, ph, ks, ke, vs, depth, acc)
            },
            ObjPhase::InNestedStr => if b == 34 {
                spec_obj_step(s, i + 1, ObjPhase::InNested, ks, ke, vs, depth, acc)
            } else if b == 92 {
                spec_obj_step(s, i + 1, ObjPhase::InNestedStrEsc, ks, ke, vs, depth, acc)
            } else {
                spec_obj_step(s, i + 1, ph, ks, ke, vs, depth, acc)
            },
            ObjPhase::InNestedStrEsc => spec_obj_step(
                s,
                i + 1,
                ObjPhase::InNestedStr,
                ks,
                ke,
                vs,
                depth,
                acc,
            ),
            ObjPhase::InPrim => if is_ws(b) {
                spec_obj_step(
                    s,
                    i + 1,
                    ObjPhase::AfterVal,
                    ks,
                    ke,
                    vs,
                    depth,
                    acc.push((s.subrange(ks, ke), s.subrange(vs, i))),
                )
            } else if b == 44 {
                spec_obj_step(
                    s,
                    i + 1,
                    ObjPhase::BeforeKey,
                    ks,
                    ke,
                    vs,
                    depth,
                    acc.push((s.subrange(ks, ke), s.subrange(vs, i))),
                )
            } else if b == 125 {
                spec_obj_step(
                    s,
                    i + 1,
                    ObjPhase::AfterObj,
                    ks,
                    ke,
                    vs,
                    depth,
                    acc.push((s.subrange(ks, ke), s.subrange(vs, i))),
                )
            } else if b == 93 || b == 34 || b == 58 {
                None
            } else {
                spec_obj_step(s, i + 1, ph, ks, ke, vs, depth, acc)
            },
            ObjPhase::AfterVal => if is_ws(b) {
                spec_obj_step(s, i + 1, ph, ks, ke, vs, depth, acc)
            } else if b == 44 {
                spec_obj_step(s, i + 1, ObjPhase::BeforeKey, ks, ke, vs, depth, acc)
            } else if b == 125 {
                spec_obj_step(s, i + 1, ObjPhase::AfterObj, ks, ke, vs, depth, acc)
            } else {
                None
            },
            ObjPhase::AfterObj => if is_ws(b) {
                spec_obj_step(s, i + 1, ph, ks, ke, vs, depth, acc)
            } else {
                None
            },
        }
    }
}

/// The members of the JSON object that `s` consists of, in textual order;
/// `None` when `s` is not a single object with trailing whitespace at most.
pub open spec fn spec_obj(s: Seq<u8>) -> Option<Seq<(Seq<u8>, Seq<u8>)>> {
    spec_obj_step(s, 0, ObjPhase::BeforeObj, 0, 0, 0, 0, Seq::empty())
}

/// Scan `s` as one JSON object and return its raw members.
pub fn parse_members(s: &[u8]) -> (r: Option<Vec<Member>>)
    ensures
        match r {
            Some(ms) => spec_obj(s@) == Some(members_view(ms@)),
            None => spec_obj(s@) is None,
        },
{
    let mut i: usize = 0;
    let mut ph = ObjPhase::BeforeObj;
    let mut ks: usize = 0;
    let mut ke: usize = 0;
    let mut vs: usize = 0;
    let mut depth: usize = 0;
    let mut acc: Vec<Member> = Vec::new();
    proof {
        assert(members_view(acc@) =~= Seq::<(Seq<u8>, Seq<u8>)>::empty());
    }
    while i < s.len()
        invariant
            i <= s.len(),
            ks <= s.len(),
            ke <= s.len(),
            vs <= s.len(),
            ph is InKey || ph is InKeyEsc ==> ks <= i,
            ph is AfterKey || ph is BeforeVal || ph is InStrVal || ph is InStrValEsc || ph
                is InNested || ph is InNestedStr || ph is InNestedStrEsc || ph is InPrim ==> ks
                <= ke <= i,
            ph is InStrVal || ph is InStrValEsc || ph is InNested || ph is InNestedStr || ph
                is InNestedStrEsc || ph is InPrim ==> vs <= i,
            ph is InNested || ph is InNestedStr || ph is InNestedStrEsc ==> 1 <= depth <= i,
            spec_obj(s@) == spec_obj_step(
                s@,
                i as int,
                ph,
                ks as int,
                ke as int,
                vs as int,
                depth as int,
                members_view(acc@),
            ),
        decreases s.len() - i,
    {
        let b = s[i];
        match ph {
            ObjPhase::BeforeObj => {
                if ws_byte(b) {
                } else if b == 123 {
                    ph = ObjPhase::BeforeFirstKey;
                } else {
                    return None;
                }
                i = i + 1;
            },
            ObjPhase::BeforeFirstKey => {
                if ws_byte(b) {
                } else if b == 34 {
                    ph = ObjPhase::InKey;
                    ks = i + 1;
                } else if b == 125 {
                    ph = ObjPhase::AfterObj;
                } else {
                    return None;
                }
                i = i + 1;
            },
            ObjPhase::BeforeKey => {
                if ws_byte(b) {
                } else if b == 34 {
                    ph = ObjPhase::InKey;
                    ks = i + 1;
                } else {
                    return None;
                }
                i = i + 1;
            },
            ObjPhase::InKey => {
                if b == 34 {
                    ph = ObjPhase::AfterKey;
                    ke = i;
                } else if b == 92 {
                    ph = ObjPhase::InKeyEsc;
                }
                i = i + 1;
            },
            ObjPhase::InKeyEsc => {
                ph = ObjPhase::InKey;
                i = i + 1;
            },
            ObjPhase::AfterKey => {
                if ws_byte(b) {
                } else if b == 58 {
                    ph = ObjPhase::BeforeVal;
                } else {
                    return None;
                }
                i = i + 1;
            },
            ObjPhase::BeforeVal => {
                if ws_byte(b) {
                } else if b == 34 {
                    ph = ObjPhase::InStrVal;
                    vs = i;
                } else if b == 123 || b == 91 {
                    ph = ObjPhase::InNested;
                    vs = i;
                    depth = 1;
                } else if b == 44 || b == 125 || b == 93 || b == 58 {
                    return None;
                } else {
                    ph = ObjPhase::InPrim;
                    vs = i;
                }
                i = i + 1;
            },
            ObjPhase::InStrVal => {
                if b == 34 {
                    let m = Member { key: copy_range(s, ks, ke), val: copy_range(s, vs, i + 1) };
                    let ghost old_acc = members_view(acc@);
                    acc.push(m);
                    proof {
                        assert(members_view(acc@) =~= old_acc.push(
                            (s@.subrange(ks as int, ke as int), s@.subrange(vs as int, i + 1)),
                        ));
                    }
                    ph = ObjPhase::AfterVal;
                } else if b == 92 {
                    ph = ObjPhase::InStrValEsc;
                }
                i = i + 1;
            },
            ObjPhase::InStrValEsc => {
                ph = ObjPhase::InStrVal;
                i = i + 1;
            },
            ObjPhase::InNested => {
                if b == 34 {
                    ph = ObjPhase::InNestedStr;
                } else if b == 123 || b == 91 {
                    depth = depth + 1;
                } else if b == 125 || b == 93 {
                    if depth == 1 {
                        let m = Member {
                            key: copy_range(s, ks, ke),
                            val: copy_range(s, vs, i + 1),
                        };
                        let ghost old_acc = members_view(acc@);
                        acc.push(m);
                        proof {
                            assert(members_view(acc@) =~= old_acc.push(
                                (s@.subrange(ks as int, ke as int), s@.subrange(vs as int, i + 1)),
                            ));
                        }
                        ph = ObjPhase::AfterVal;
                        depth = 0;
                    } else {
                        depth = depth - 1;
                    }
                }
                i = i + 1;
            },
            ObjPhase::InNestedStr => {
                if b == 34 {
                    ph = ObjPhase::InNested;
                } else if b == 92 {
                    ph = ObjPhase::InNestedStrEsc;
                }
                i = i + 1;
            },
            ObjPhase::InNestedStrEsc => {
                ph = ObjPhase::InNestedStr;
                i = i + 1;
            },
            ObjPhase::InPrim => {
                if ws_byte(b) || b == 44 || b == 125 {
                    let m = Member { key: copy_range(s, ks, ke), val: copy_range(s, vs, i) };
                    let ghost old_acc = members_view(acc@);
                    acc.push(m);
                    proof {
                        assert(members_view(acc@) =~= old_acc.push(
                            (s@.subrange(ks as int, ke as int), s@.subrange(vs as int, i as int)),
                        ));
                    }
                    if b == 44 {
                        ph = ObjPhase::BeforeKey;
                    } else if b == 125 {
                        ph = ObjPhase::AfterObj;
                    } else {
                        ph = ObjPhase::AfterVal;
                    }
                } else if b == 93 || b == 34 || b == 58 {
                    return None;
                }
                i = i + 1;
            },
            ObjPhase::AfterVal => {
                if ws_byte(b) {
                } else if b == 44 {
                    ph = ObjPhase::BeforeKey;
                } else if b == 125 {
                    ph = ObjPhase::AfterObj;
                } else {
                    return None;
                }
                i = i + 1;
            },
            ObjPhase::AfterObj => {
                if ws_byte(b) {
                } else {
                    return None;
                }
                i = i + 1;
            },
        }
    }
    match ph {
        ObjPhase::AfterObj => Some(acc),
        _ => None,
    }
}

// ---------------------------------------------------------------------------
// member lookup and field decoding
// ---------------------------------------------------------------------------

/// The raw value of the first member whose raw key equals `key`.
pub open spec fn spec_lookup(ms: Seq<(Seq<u8>, Seq<u8>)>, key: Seq<u8>) -> Option<Seq<u8>>
    decreases ms.len(),
{
    if ms.len() == 0 {
        None
    } else if ms[0].0 == key {
        Some(ms[0].1)
    } else {
        spec_lookup(ms.drop_first(), key)
    }
}

/// Find the first member with the given raw key; returns its index.
pub fn find_member(ms: &Vec<Member>, key: &[u8]) -> (r: Option<usize>)
    ensures
        match r {
            Some(j) => j < ms.len() && spec_lookup(members_view(ms@), key@) == Some(
                ms@[j as int].val@,
            ),
            None => spec_lookup(members_view(ms@), key@) is None,
        },
{
    let ghost mv = members_view(ms@);
    let mut i: usize = 0;
    proof {
        assert(mv.skip(0) =~= mv);
    }
    while i < ms.len()
        invariant
            i <= ms.len(),
            mv == members_view(ms@),
            mv.len() == ms@.len(),
            spec_lookup(mv, key@) == spec_lookup(mv.skip(i as int), key@),
        decreases ms.len() - i,
    {
        proof {
            assert(mv.skip(i as int)[0] == mv[i as int]);
            assert(mv[i as int] == ms@[i as int]@);
            assert(mv.skip(i as int).drop_first() =~= mv.skip(i + 1));
        }
        if bytes_eq(ms[i].key.as_slice(), key) {
            return Some(i);
        }
        i = i + 1;
    }
    proof {
        assert(mv.skip(ms@.len() as int) =~= Seq::<(Seq<u8>, Seq<u8>)>::empty());
    }
    None
}

/// The byte string denoted by a raw string-literal value span.
pub open spec fn spec_decode_string(v: Seq<u8>) -> Option<Seq<u8>> {
    if v.len() >= 2 && v[0] == 34 && v[v.len() - 1] == 34 {
        Some(spec_unescape(v.subrange(1, v.len() - 1)))
    } else {
        None
    }
}

/// Decode a raw string-literal value span.
pub fn decode_string_val(v: &[u8]) -> (r: Option<Vec<u8>>)
    ensures
        match r {
            Some(b) => spec_decode_string(v@) == Some(b@),
            None => spec_decode_string(v@) is None,
        },
{
    if v.len() >= 2 && v[0] == 34 && v[v.len() - 1] == 34 {
        let mid = copy_range(v, 1, v.len() - 1);
        Some(unescape(mid.as_slice()))
    } else {
        None
    }
}

// ---------------------------------------------------------------------------
// envelopes
// ---------------------------------------------------------------------------

/// What a response carries: the raw `result` span on success, or the peer's
/// error object.
pub enum CallOutcome {
    Success(Vec<u8>),
    Failure { code: i64, message: Vec<u8> },
}

/// A classified inbound message: a response to a call, or an event.  The
/// session is the root session (`None`) or the embedding session of a
/// `Target.receivedMessageFromTarget` wrapper.
pub enum Envelope {
    Response { id: u64, session_id: Option<Vec<u8>>, outcome: CallOutcome },
    Event { name: Vec<u8>, params: Vec<u8>, session_id: Option<Vec<u8>> },
}

/// Mathematical model of `CallOutcome`.
pub enum OutcomeModel {
    Success(Seq<u8>),
    Failure { code: i64, message: Seq<u8> },
}

/// Mathematical model of `Envelope`.
pub enum EnvelopeModel {
    Response { id: u64, session_id: Option<Seq<u8>>, outcome: OutcomeModel },
    Event { name: Seq<u8>, params: Seq<u8>, session_id: Option<Seq<u8>> },
}

pub open spec fn opt_bytes_view(o: Option<Vec<u8>>) -> Option<Seq<u8>> {
    match o {
        Some(v) => Some(v@),
        None => None,
    }
}

impl View for CallOutcome {
    type V = OutcomeModel;

    open spec fn view(&self) -> OutcomeModel {
        match self {
            CallOutcome::Success(v) => OutcomeModel::Success(v@),
            CallOutcome::Failure { code, message } => OutcomeModel::Failure {
                code: *code,
                message: message@,
            },
        }
    }
}

impl View for Envelope {
    type V = EnvelopeModel;

    open spec fn view(&self) -> EnvelopeModel {
        match self {
            Envelope::Response { id, session_id, outcome } => EnvelopeModel::Response {
                id: *id,
                session_id: opt_bytes_view(*session_id),
                outcome: outcome@,
            },
            Envelope::Event { name, params, session_id } => EnvelopeModel::Event {
                name: name@,
                params: params@,
                session_id: opt_bytes_view(*session_id),
            },
        }
    }
}

pub open spec fn env_opt_view(r: Option<Envelope>) -> Option<EnvelopeModel> {
    match r {
        Some(e) => Some(e@),
        None => None,
    }
}

pub open spec fn key_id() -> Seq<u8> {
    "id".spec_bytes()
}

pub open spec fn key_method() -> Seq<u8> {
    "method".spec_bytes()
}

pub open spec fn key_params() -> Seq<u8> {
    "params".spec_bytes()
}

pub open spec fn key_result() -> Seq<u8> {
    "result".spec_bytes()
}

pub open spec fn key_error() -> Seq<u8> {
    "error".spec_bytes()
}

pub open spec fn key_session() -> Seq<u8> {
    "sessionId".spec_bytes()
}

pub open spec fn key_message() -> Seq<u8> {
    "message".spec_bytes()
}

pub open spec fn key_code() -> Seq<u8> {
    "code".spec_bytes()
}

/// The event that embeds a session-scoped message.
pub open spec fn wrapper_name() -> Seq<u8> {
    "Target.receivedMessageFromTarget".spec_bytes()
}

pub open spec fn empty_obj() -> Seq<u8> {
    seq![123u8, 125u8]
}

/// The session field of a frame: absent, present, or malformed (`None`).
pub open spec fn spec_session_of(ms: Seq<(Seq<u8>, Seq<u8>)>) -> Option<Option<Seq<u8>>> {
    match spec_lookup(ms, key_session()) {
        None => Some(None),
        Some(v) => match spec_decode_string(v) {
            Some(s) => Some(Some(s)),
            None => None,
        },
    }
}

/// The `(code, message)` of a raw `error` object span.
pub open spec fn spec_error_of(v: Seq<u8>) -> Option<(i64, Seq<u8>)> {
    match spec_obj(v) {
        None => None,
        Some(ems) => match spec_lookup(ems, key_code()) {
            None => None,
            Some(cv) => match spec_parse_i64(cv) {
                None => None,
                Some(code) => match spec_lookup(ems, key_message()) {
                    None => None,
                    Some(mv) => match spec_decode_string(mv) {
                        None => None,
                        Some(msg) => Some((code, msg)),
                    },
                },
            },
        },
    }
}

pub open spec fn spec_params_of(ms: Seq<(Seq<u8>, Seq<u8>)>) -> Seq<u8> {
    match spec_lookup(ms, key_params()) {
        Some(p) => p,
        None => empty_obj(),
    }
}

/// Classify a scanned frame without unwrapping session wrappers.
/// A frame with a (numeric) `id` is a response; it must carry `result` or a
/// well-formed `error`.  A frame with a `method` is an event.  Anything else
/// is malformed.
pub open spec fn spec_classify_basic(ms: Seq<(Seq<u8>, Seq<u8>)>) -> Option<EnvelopeModel> {
    match spec_session_of(ms) {
        None => None,
        Some(sid) => match spec_lookup(ms, key_id()) {
            Some(idv) => match spec_parse_u64(idv) {
                None => None,
                Some(id) => match spec_lookup(ms, key_result()) {
                    Some(rv) => Some(
                        EnvelopeModel::Response {
                            id,
                            session_id: sid,
                            outcome: OutcomeModel::Success(rv),
                        },
                    ),
                    None => match spec_lookup(ms, key_error()) {
                        Some(ev) => match spec_error_of(ev) {
                            Some((code, msg)) => Some(
                                EnvelopeModel::Response {
                                    id,
                                    session_id: sid,
                                    outcome: OutcomeModel::Failure { code, message: msg },
                                },
                            ),
                            None => None,
                        },
                        None => None,
                    },
                },
            },
            None => match spec_lookup(ms, key_method()) {
                Some(mv) => match spec_decode_string(mv) {
                    Some(name) => Some(
                        EnvelopeModel::Event {
                            name,
                            params: spec_params_of(ms),
                            session_id: sid,
                        },
                    ),
                    None => None,
                },
                None => None,
            },
        },
    }
}

/// Re-tag an envelope with the session that embedded it.
pub open spec fn spec_retag(e: EnvelopeModel, sid: Seq<u8>) -> EnvelopeModel {
    match e {
        EnvelopeModel::Response { id, session_id, outcome } => EnvelopeModel::Response {
            id,
            session_id: Some(sid),
            outcome,
        },
        EnvelopeModel::Event { name, params, session_id } => EnvelopeModel::Event {
            name,
            params,
            session_id: Some(sid),
        },
    }
}

/// Classify a scanned frame; a `Target.receivedMessageFromTarget` event is
/// unwrapped one level: its embedded message is parsed as a frame of its own
/// and re-tagged with the embedding session.
pub open spec fn spec_classify(ms: Seq<(Seq<u8>, Seq<u8>)>) -> Option<EnvelopeModel> {
    match spec_classify_basic(ms) {
        Some(EnvelopeModel::Event { name, params, session_id }) => if name == wrapper_name() {
            match spec_obj(params) {
                None => None,
                Some(pms) => match spec_lookup(pms, key_session()) {
                    None => None,
                    Some(sv) => match spec_decode_string(sv) {
                        None => None,
                        Some(sid2) => match spec_lookup(pms, key_message()) {
                            None => None,
                            Some(mv) => match spec_decode_string(mv) {
                                None => None,
                                Some(msg) => match spec_obj(msg) {
                                    None => None,
                                    Some(ims) => match spec_classify_basic(ims) {
                                        None => None,
                                        Some(inner) => Some(spec_retag(inner, sid2)),
                                    },
                                },
                            },
                        },
                    },
                },
            }
        } else {
            Some(EnvelopeModel::Event { name, params, session_id })
        },
        other => other,
    }
}

/// Parse and classify one inbound frame.
pub open spec fn spec_parse_envelope(s: Seq<u8>) -> Option<EnvelopeModel> {
    match spec_obj(s) {
        None => None,
        Some(ms) => spec_classify(ms),
    }
}

fn get_params(ms: &Vec<Member>) -> (r: Vec<u8>)
    ensures
        r@ == spec_params_of(members_view(ms@)),
{
    match find_member(ms, "params".as_bytes()) {
        Some(j) => clone_bytes(&ms[j].val),
        None => {
            let mut v: Vec<u8> = Vec::new();
            v.push(123);
            v.push(125);
            proof {
                assert(v@ =~= empty_obj());
            }
            v
        },
    }
}

fn decode_error(v: &[u8]) -> (r: Option<(i64, Vec<u8>)>)
    ensures
        match r {
            Some(p) => spec_error_of(v@) == Some((p.0, p.1@)),
            None => spec_error_of(v@) is None,
        },
{
    match parse_members(v) {
        None => None,
        Some(ems) => match find_member(&ems, "code".as_bytes()) {
            None => None,
            Some(j) => match parse_i64(ems[j].val.as_slice()) {
                None => None,
                Some(code) => match find_member(&ems, "message".as_bytes()) {
                    None => None,
                    Some(k) => match decode_string_val(ems[k].val.as_slice()) {
                        None => None,
                        Some(msg) => Some((code, msg)),
                    },
                },
            },
        },
    }
}

/// Classify a scanned frame without unwrapping session wrappers.
pub fn classify_basic(ms: &Vec<Member>) -> (r: Option<Envelope>)
    ensures
        env_opt_view(r) == spec_classify_basic(members_view(ms@)),
{
    let sid: Option<Vec<u8>>;
    match find_member(ms, "sessionId".as_bytes()) {
        None => {
            sid = None;
        },
        Some(j) => match decode_string_val(ms[j].val.as_slice()) {
            Some(s) => {
                sid = Some(s);
            },
            None => {
                return None;
            },
        },
    }
    match find_member(ms, "id".as_bytes()) {
        Some(j) => match parse_u64(ms[j].val.as_slice()) {
            None => None,
            Some(id) => match find_member(ms, "result".as_bytes()) {
                Some(k) => Some(
                    Envelope::Response {
                        id,
                        session_id: sid,
                        outcome: CallOutcome::Success(clone_bytes(&ms[k].val)),
                    },
                ),
                None => match find_member(ms, "error".as_bytes()) {
                    Some(k) => match decode_error(ms[k].val.as_slice()) {
                        Some(cm) => Some(
                            Envelope::Response {
                                id,
                                session_id: sid,
                                outcome: CallOutcome::Failure { code: cm.0, message: cm.1 },
                            },
                        ),
                        None => None,
                    },
                    None => None,
                },
            },
        },
        None => match find_member(ms, "method".as_bytes()) {
            Some(j) => match decode_string_val(ms[j].val.as_slice()) {
                Some(name) => Some(
                    Envelope::Event { name, params: get_params(ms), session_id: sid },
                ),
                None => None,
            },
            None => None,
        },
    }
}

/// Classify a scanned frame, unwrapping a session wrapper one level.
pub fn classify(ms: &Vec<Member>) -> (r: Option<Envelope>)
    ensures
        env_opt_view(r) == spec_classify(members_view(ms@)),
{
    match classify_basic(ms) {
        Some(Envelope::Event { name, params, session_id }) => {
            if bytes_eq(name.as_slice(), "Target.receivedMessageFromTarget".as_bytes()) {
                match parse_members(params.as_slice()) {
                    None => None,
                    Some(pms) => match find_member(&pms, "sessionId".as_bytes()) {
                        None => None,
                        Some(j) => match decode_string_val(pms[j].val.as_slice()) {
                            None => None,
                            Some(sid2) => match find_member(&pms, "message".as_bytes()) {
                                None => None,
                                Some(k) => match decode_string_val(pms[k].val.as_slice()) {
                                    None => None,
                                    Some(msg) => match parse_members(msg.as_slice()) {
                                        None => None,
                                        Some(ims) => match classify_basic(&ims) {
                                            None => None,
                                            Some(inner) => Some(retag(inner, sid2)),
                                        },
                                    },
                                },
                            },
                        },
                    },
                }
            } else {
                Some(Envelope::Event { name, params, session_id })
            }
        },
        other => other,
    }
}

fn retag(e: Envelope, sid: Vec<u8>) -> (r: Envelope)
    ensures
        r@ == spec_retag(e@, sid@),
{
    match e {
        Envelope::Response { id, session_id: _, outcome } => Envelope::Response {
            id,
            session_id: Some(sid),
            outcome,
        },
        Envelope::Event { name, params, session_id: _ } => Envelope::Event {
            name,
            params,
            session_id: Some(sid),
        },
    }
}

/// Parse and classify one inbound frame.
pub fn parse_envelope(s: &[u8]) -> (r: Option<Envelope>)
    ensures
        env_opt_view(r) == spec_parse_envelope(s@),
{
    match parse_members(s) {
        None => None,
        Some(ms) => classify(&ms),
    }
}

// ---------------------------------------------------------------------------
// outbound framing
// ---------------------------------------------------------------------------

/// Append `src` to `dst`.
pub fn append_bytes(dst: &mut Vec<u8>, src: &[u8])
    ensures
        final(dst)@ == old(dst)@ + src@,
{
    let mut i: usize = 0;
    proof {
        assert(dst@ =~= old(dst)@ + src@.take(0));
    }
    while i < src.len()
        invariant
            i <= src.len(),
            dst@ == old(dst)@ + src@.take(i as int),
        decreases src.len() - i,
    {
        dst.push(src[i]);
        proof {
            assert(old(dst)@ + src@.take(i + 1) =~= (old(dst)@ + src@.take(i as int)).push(
                src@[i as int],
            ));
        }
        i = i + 1;
    }
    proof {
        assert(src@.take(src@.len() as int) =~= src@);
    }
}

/// The outbound frame `{"id":<id>,"method":"<method>","params":<params>}`.
pub open spec fn spec_call_frame(id: u64, method: Seq<u8>, params: Seq<u8>) -> Seq<u8> {
    "{\"id\":".spec_bytes() + spec_dec(id) + ",\"method\":\"".spec_bytes() + spec_escape(method)
        + "\",\"params\":".spec_bytes() + params + "}".spec_bytes()
}

/// Build one outbound call frame.
pub fn build_call_frame(id: u64, method: &[u8], params: &[u8]) -> (r: Vec<u8>)
    ensures
        r@ == spec_call_frame(id, method@, params@),
{
    let mut r: Vec<u8> = Vec::new();
    append_bytes(&mut r, "{\"id\":".as_bytes());
    let dec = dec_of_u64(id);
    append_bytes(&mut r, dec.as_slice());
    append_bytes(&mut r, ",\"method\":\"".as_bytes());
    let esc = escape(method);
    append_bytes(&mut r, esc.as_slice());
    append_bytes(&mut r, "\",\"params\":".as_bytes());
    append_bytes(&mut r, params);
    append_bytes(&mut r, "}".as_bytes());
    proof {
        assert(r@ =~= spec_call_frame(id, method@, params@));
    }
    r
}

/// The `params` of a `Target.sendMessageToTarget` wrapper: the session and
/// the inner frame as an escaped JSON string.
pub open spec fn spec_wrapper_params(session: Seq<u8>, inner: Seq<u8>) -> Seq<u8> {
    "{\"sessionId\":\"".spec_bytes() + spec_escape(session) + "\",\"message\":\"".spec_bytes()
        + spec_escape(inner) + "\"}".spec_bytes()
}

/// Build the wrapper params for a session-scoped call.
pub fn build_wrapper_params(session: &[u8], inner: &[u8]) -> (r: Vec<u8>)
    ensures
        r@ == spec_wrapper_params(session@, inner@),
{
    let mut r: Vec<u8> = Vec::new();
    append_bytes(&mut r, "{\"sessionId\":\"".as_bytes());
    let se = escape(session);
    append_bytes(&mut r, se.as_slice());
    append_bytes(&mut r, "\",\"message\":\"".as_bytes());
    let ie = escape(inner);
    append_bytes(&mut r, ie.as_slice());
    append_bytes(&mut r, "\"}".as_bytes());
    proof {
        assert(r@ =~= spec_wrapper_params(session@, inner@));
    }
    r
}

// ---------------------------------------------------------------------------
// WebSocket URL discovery
// ---------------------------------------------------------------------------

pub open spec fn ws_prefix() -> Seq<u8> {
    seq![119u8, 115u8, 58u8, 47u8, 47u8]
}

/// The first index at or after `i` where `ws://` begins.
pub open spec fn spec_find_ws(s: Seq<u8>, i: int) -> Option<int>
    decreases s.len() - i,
{
    if i < 0 || i + 5 > s.len() {
        None
    } else if s.subrange(i, i + 5) == ws_prefix() {
        Some(i)
    } else {
        spec_find_ws(s, i + 1)
    }
}

/// The end of the whitespace-delimited token starting at `j`.
pub open spec fn spec_token_end(s: Seq<u8>, j: int) -> int
    decreases s.len() - j,
{
    if j < 0 || j >= s.len() || is_ws(s[j]) {
        j
    } else {
        spec_token_end(s, j + 1)
    }
}

/// The first whitespace-delimited `ws://...` token of a line, if any.
pub open spec fn spec_extract_ws_url(s: Seq<u8>) -> Option<Seq<u8>> {
    match spec_find_ws(s, 0) {
        Some(j) => Some(s.subrange(j, spec_token_end(s, j))),
        None => None,
    }
}

/// Extract the WebSocket URL a browser advertises on its error stream:
/// the first whitespace-delimited token beginning with `ws://`.
pub fn extract_ws_url(line: &[u8]) -> (r: Option<Vec<u8>>)
    ensures
        match r {
            Some(u) => spec_extract_ws_url(line@) == Some(u@),
            None => spec_extract_ws_url(line@) is None,
        },
{
    let mut i: usize = 0;
    while line.len() >= 5 && i <= line.len() - 5
        invariant
            i <= line.len(),
            spec_find_ws(line@, 0) == spec_find_ws(line@, i as int),
        decreases line.len() - i,
    {
        let hit = line[i] == 119 && line[i + 1] == 115 && line[i + 2] == 58 && line[i + 3] == 47
            && line[i + 4] == 47;
        proof {
            let sub = line@.subrange(i as int, i as int + 5);
            assert(sub[0] == line@[i as int]);
            assert(sub[1] == line@[i as int + 1]);
            assert(sub[2] == line@[i as int + 2]);
            assert(sub[3] == line@[i as int + 3]);
            assert(sub[4] == line@[i as int + 4]);
            if hit {
                assert(sub =~= ws_prefix());
            } else {
                assert(sub != ws_prefix());
            }
        }
        if hit {
            let mut j: usize = i;
            while j < line.len() && !(line[j] == 32 || line[j] == 9 || line[j] == 10 || line[j]
                == 13)
                invariant
                    i <= j <= line.len(),
                    spec_token_end(line@, i as int) == spec_token_end(line@, j as int),
                decreases line.len() - j,
            {
                j = j + 1;
            }
            return Some(copy_range(line, i, j));
        }
        i = i + 1;
    }
    None
}

} // verus!
