use vstd::prelude::*;
use vstd::string::StringSliceAdditionalSpecFns;
use crate::ids::UserId;

verus! {

// The inbound wire grammar: a JSON object of scalar fields, as the
// clients of the duplex channel send it. Values are strings (with the
// standard escapes, `\u` limited to code points outside the surrogate
// range), booleans and `null`; nested objects and arrays do not occur
// in any client message and are rejected. The decoder is total: every
// byte sequence either parses to exactly the value the specification
// functions below describe, or is refused.

/// JSON insignificant whitespace.
pub open spec fn is_json_ws(b: u8) -> bool {
    b == 0x20 || b == 0x09 || b == 0x0a || b == 0x0d
}

/// The first position at or after `i` holding something other than
/// whitespace.
pub open spec fn skip_ws(s: Seq<u8>, i: int) -> int
    decreases s.len() - i when 0 <= i <= s.len()
{
    if i >= s.len() {
        i
    } else if is_json_ws(s[i]) {
        skip_ws(s, i + 1)
    } else {
        i
    }
}

/// The byte a short escape stands for.
pub open spec fn short_escape(e: u8) -> Option<u8> {
    if e == 0x22 {
        Some(0x22u8)
    } else if e == 0x5c {
        Some(0x5cu8)
    } else if e == 0x2f {
        Some(0x2fu8)
    } else if e == 0x62 {
        Some(0x08u8)
    } else if e == 0x66 {
        Some(0x0cu8)
    } else if e == 0x6e {
        Some(0x0au8)
    } else if e == 0x72 {
        Some(0x0du8)
    } else if e == 0x74 {
        Some(0x09u8)
    } else {
        None
    }
}

/// The value of a hex digit character, or -1.
pub open spec fn hex_val(b: u8) -> int {
    if 0x30 <= b && b <= 0x39 {
        b - 0x30
    } else if 0x61 <= b && b <= 0x66 {
        b - 0x57
    } else if 0x41 <= b && b <= 0x46 {
        b - 0x37
    } else {
        -1
    }
}

/// The UTF-8 encoding of a code point below 0x10000.
pub open spec fn utf8_of(c: int) -> Seq<u8> {
    if c < 0x80 {
        seq![c as u8]
    } else if c < 0x800 {
        seq![(0xc0 + c / 64) as u8, (0x80 + c % 64) as u8]
    } else {
        seq![(0xe0 + c / 4096) as u8, (0x80 + (c / 64) % 64) as u8, (0x80 + c % 64) as u8]
    }
}

/// The body of a JSON string starting just after the opening quote at
/// position `i`: the unescaped bytes and the position just after the
/// closing quote. Unescaped control characters, bad escapes, `\u`
/// surrogates and a missing closing quote are refused.
pub open spec fn parse_string_body(s: Seq<u8>, i: int) -> Option<(Seq<u8>, int)>
    decreases s.len() - i when 0 <= i <= s.len()
{
    if i >= s.len() {
        None
    } else if s[i] == 0x22 {
        Some((Seq::empty(), i + 1))
    } else if s[i] == 0x5c {
        if i + 1 >= s.len() {
            None
        } else if s[i + 1] == 0x75 {
            if i + 6 <= s.len() && hex_val(s[i + 2]) >= 0 && hex_val(s[i + 3]) >= 0 && hex_val(
                s[i + 4],
            ) >= 0 && hex_val(s[i + 5]) >= 0 {
                let c = hex_val(s[i + 2]) * 4096 + hex_val(s[i + 3]) * 256 + hex_val(s[i + 4]) * 16
                    + hex_val(s[i + 5]);
                if 0xd800 <= c && c <= 0xdfff {
                    None
                } else {
                    match parse_string_body(s, i + 6) {
                        Some((rest, j)) => Some((utf8_of(c) + rest, j)),
                        None => None,
                    }
                }
            } else {
                None
            }
        } else {
            match short_escape(s[i + 1]) {
                Some(b) => match parse_string_body(s, i + 2) {
                    Some((rest, j)) => Some((seq![b] + rest, j)),
                    None => None,
                },
                None => None,
            }
        }
    } else if s[i] < 0x20 {
        None
    } else {
        match parse_string_body(s, i + 1) {
            Some((rest, j)) => Some((seq![s[i]] + rest, j)),
            None => None,
        }
    }
}

/// A complete JSON string at position `i`.
pub open spec fn parse_string(s: Seq<u8>, i: int) -> Option<(Seq<u8>, int)> {
    if 0 <= i < s.len() && s[i] == 0x22 {
        parse_string_body(s, i + 1)
    } else {
        None
    }
}

/// One scalar value of the inbound grammar.
pub enum JsonScalarView {
    Str(Seq<u8>),
    Bool(bool),
    Null,
}

/// A scalar at position `i`: a string, `true`, `false` or `null`.
pub open spec fn parse_scalar(s: Seq<u8>, i: int) -> Option<(JsonScalarView, int)> {
    if 0 <= i < s.len() && s[i] == 0x22 {
        match parse_string(s, i) {
            Some((v, j)) => Some((JsonScalarView::Str(v), j)),
            None => None,
        }
    } else if 0 <= i && i + 4 <= s.len() && s.subrange(i, i + 4) == "true".spec_bytes() {
        Some((JsonScalarView::Bool(true), i + 4))
    } else if 0 <= i && i + 5 <= s.len() && s.subrange(i, i + 5) == "false".spec_bytes() {
        Some((JsonScalarView::Bool(false), i + 5))
    } else if 0 <= i && i + 4 <= s.len() && s.subrange(i, i + 4) == "null".spec_bytes() {
        Some((JsonScalarView::Null, i + 4))
    } else {
        None
    }
}

/// The members of a JSON object, starting at the first key's opening
/// quote, up to and including the closing brace: the key–value pairs in
/// textual order and the position just after the brace. The fuel only
/// bounds the recursion; every member consumes at least one byte, so
/// the top-level call's fuel of one more than the input's length never
/// runs out on an input that parses at all.
pub open spec fn parse_members(s: Seq<u8>, i: int, fuel: nat) -> Option<
    (Seq<(Seq<u8>, JsonScalarView)>, int),
>
    decreases fuel,
{
    if fuel == 0 {
        None
    } else {
        match parse_string(s, i) {
            Some((key, j1)) => {
                let j2 = skip_ws(s, j1);
                if 0 <= j2 < s.len() && s[j2] == 0x3a {
                    let j3 = skip_ws(s, j2 + 1);
                    match parse_scalar(s, j3) {
                        Some((v, j4)) => {
                            let j5 = skip_ws(s, j4);
                            if 0 <= j5 < s.len() && s[j5] == 0x2c {
                                let j6 = skip_ws(s, j5 + 1);
                                match parse_members(s, j6, (fuel - 1) as nat) {
                                    Some((rest, e)) => Some((seq![(key, v)] + rest, e)),
                                    None => None,
                                }
                            } else if 0 <= j5 < s.len() && s[j5] == 0x7d {
                                Some((seq![(key, v)], j5 + 1))
                            } else {
                                None
                            }
                        },
                        None => None,
                    }
                } else {
                    None
                }
            },
            None => None,
        }
    }
}

/// A whole inbound frame: one JSON object of scalar members and
/// nothing but whitespace around it.
pub open spec fn parse_object(s: Seq<u8>) -> Option<Seq<(Seq<u8>, JsonScalarView)>> {
    let i = skip_ws(s, 0);
    if 0 <= i < s.len() && s[i] == 0x7b {
        let j = skip_ws(s, i + 1);
        if 0 <= j < s.len() && s[j] == 0x7d {
            if skip_ws(s, j + 1) == s.len() {
                Some(Seq::empty())
            } else {
                None
            }
        } else {
            match parse_members(s, j, s.len() + 1) {
                Some((pairs, e)) => if skip_ws(s, e) == s.len() {
                    Some(pairs)
                } else {
                    None
                },
                None => None,
            }
        }
    } else {
        None
    }
}

/// Whitespace test, executable.
fn is_ws_byte(b: u8) -> (r: bool)
    ensures
        r == is_json_ws(b),
{
    b == 0x20 || b == 0x09 || b == 0x0a || b == 0x0d
}

/// Skips whitespace, executable.
#[verifier::loop_isolation(false)]
fn skip_ws_exec(s: &[u8], i: usize) -> (r: usize)
    requires
        i <= s@.len(),
    ensures
        r == skip_ws(s@, i as int),
        i <= r <= s@.len(),
{
    let mut cur = i;
    let n = s.len();
    while cur < n && is_ws_byte(s[cur])
        invariant
            i <= cur <= n,
            n == s@.len(),
            skip_ws(s@, i as int) == skip_ws(s@, cur as int),
        decreases n - cur,
    {
        cur += 1;
    }
    cur
}

/// Unescaped string body, executable: mirrors `parse_string_body`.
fn parse_string_body_exec(s: &[u8], i: usize) -> (r: Option<(Vec<u8>, usize)>)
    requires
        i <= s@.len(),
    ensures
        match r {
            Some(p) => parse_string_body(s@, i as int) == Some((p.0@, p.1 as int)) && i < p.1
                <= s@.len(),
            None => parse_string_body(s@, i as int) is None,
        },
    decreases s@.len() - i,
{
    let n = s.len();
    if i >= n {
        return None;
    }
    let b = s[i];
    if b == 0x22 {
        return Some((Vec::new(), i + 1));
    }
    if b == 0x5c {
        if i + 1 >= n {
            return None;
        }
        let e = s[i + 1];
        if e == 0x75 {
            if n - i >= 6 {
                let h1 = hex_val_exec(s[i + 2]);
                let h2 = hex_val_exec(s[i + 3]);
                let h3 = hex_val_exec(s[i + 4]);
                let h4 = hex_val_exec(s[i + 5]);
                if h1 >= 0 && h2 >= 0 && h3 >= 0 && h4 >= 0 {
                    let c: i32 = h1 * 4096 + h2 * 256 + h3 * 16 + h4;
                    if 0xd800 <= c && c <= 0xdfff {
                        return None;
                    }
                    match parse_string_body_exec(s, i + 6) {
                        Some((rest, j)) => {
                            let mut out = encode_utf8_exec(c);
                            let mut tail = rest;
                            out.append(&mut tail);
                            proof {
                                assert(out@ =~= utf8_of(c as int) + rest@);
                            }
                            return Some((out, j));
                        },
                        None => {
                            return None;
                        },
                    }
                }
            }
            return None;
        }
        let mapped = if e == 0x22 {
            Some(0x22u8)
        } else if e == 0x5c {
            Some(0x5cu8)
        } else if e == 0x2f {
            Some(0x2fu8)
        } else if e == 0x62 {
            Some(0x08u8)
        } else if e == 0x66 {
            Some(0x0cu8)
        } else if e == 0x6e {
            Some(0x0au8)
        } else if e == 0x72 {
            Some(0x0du8)
        } else if e == 0x74 {
            Some(0x09u8)
        } else {
            None
        };
        proof {
            assert(mapped == short_escape(e));
        }
        match mapped {
            Some(mb) => {
                match parse_string_body_exec(s, i + 2) {
                    Some((rest, j)) => {
                        let mut out: Vec<u8> = Vec::new();
                        out.push(mb);
                        let mut tail = rest;
                        out.append(&mut tail);
                        proof {
                            assert(out@ =~= seq![mb] + rest@);
                        }
                        Some((out, j))
                    },
                    None => None,
                }
            },
            None => None,
        }
    } else if b < 0x20 {
        None
    } else {
        match parse_string_body_exec(s, i + 1) {
            Some((rest, j)) => {
                let mut out: Vec<u8> = Vec::new();
                out.push(b);
                let mut tail = rest;
                out.append(&mut tail);
                proof {
                    assert(out@ =~= seq![b] + rest@);
                }
                Some((out, j))
            },
            None => None,
        }
    }
}

/// Hex digit value, executable.
fn hex_val_exec(b: u8) -> (r: i32)
    ensures
        r == hex_val(b),
{
    if 0x30 <= b && b <= 0x39 {
        (b - 0x30) as i32
    } else if 0x61 <= b && b <= 0x66 {
        (b - 0x57) as i32
    } else if 0x41 <= b && b <= 0x46 {
        (b - 0x37) as i32
    } else {
        -1
    }
}

/// One scalar value, executable.
#[derive(Debug)]
pub enum JsonScalar {
    Str(Vec<u8>),
    Bool(bool),
    Null,
}

impl JsonScalar {
    /// The scalar's abstract value.
    pub open spec fn view_of(self) -> JsonScalarView {
        match self {
            JsonScalar::Str(v) => JsonScalarView::Str(v@),
            JsonScalar::Bool(b) => JsonScalarView::Bool(b),
            JsonScalar::Null => JsonScalarView::Null,
        }
    }
}

/// The abstract value of a parsed member list.
pub open spec fn members_view(v: Seq<(Vec<u8>, JsonScalar)>) -> Seq<(Seq<u8>, JsonScalarView)> {
    Seq::new(v.len(), |k: int| (v[k].0@, v[k].1.view_of()))
}

/// Whether the literal `lit` stands at position `i` of `s`.
#[verifier::loop_isolation(false)]
fn match_at(s: &[u8], i: usize, lit: &[u8]) -> (r: bool)
    requires
        i <= s@.len(),
    ensures
        r == (i + lit@.len() <= s@.len() && s@.subrange(i as int, i + lit@.len()) == lit@),
{
    let m = lit.len();
    if m > s.len() - i {
        return false;
    }
    let mut k: usize = 0;
    while k < m
        invariant
            k <= m,
            m == lit@.len(),
            i + m <= s@.len(),
            forall|j: int| 0 <= j < k ==> s@[i + j] == lit@[j],
        decreases m - k,
    {
        if s[i + k] != lit[k] {
            proof {
                assert(s@.subrange(i as int, i + lit@.len())[k as int] != lit@[k as int]);
            }
            return false;
        }
        k += 1;
    }
    proof {
        assert(s@.subrange(i as int, i + lit@.len()) =~= lit@);
    }
    true
}

/// The exact bytes of the three value keywords.
proof fn lemma_keyword_bytes()
    ensures
        "true".spec_bytes() =~= seq![0x74u8, 0x72, 0x75, 0x65],
        "false".spec_bytes() =~= seq![0x66u8, 0x61, 0x6c, 0x73, 0x65],
        "null".spec_bytes() =~= seq![0x6eu8, 0x75, 0x6c, 0x6c],
{
    broadcast use vstd::string::is_ascii_spec_bytes;

    reveal_strlit("true");
    reveal_strlit("false");
    reveal_strlit("null");
    assert(vstd::string::is_ascii("true"));
    assert(vstd::string::is_ascii("false"));
    assert(vstd::string::is_ascii("null"));
}

/// A scalar, executable: mirrors `parse_scalar`.
fn parse_scalar_exec(s: &[u8], i: usize) -> (r: Option<(JsonScalar, usize)>)
    requires
        i <= s@.len(),
    ensures
        match r {
            Some(p) => parse_scalar(s@, i as int) == Some((p.0.view_of(), p.1 as int)) && i < p.1
                <= s@.len(),
            None => parse_scalar(s@, i as int) is None,
        },
{
    proof {
        lemma_keyword_bytes();
    }
    let n = s.len();
    if i < n && s[i] == 0x22 {
        match parse_string_body_exec(s, i + 1) {
            Some((v, j)) => Some((JsonScalar::Str(v), j)),
            None => None,
        }
    } else if match_at(s, i, "true".as_bytes()) {
        Some((JsonScalar::Bool(true), i + 4))
    } else if match_at(s, i, "false".as_bytes()) {
        Some((JsonScalar::Bool(false), i + 5))
    } else if match_at(s, i, "null".as_bytes()) {
        Some((JsonScalar::Null, i + 4))
    } else {
        None
    }
}

/// Object members, executable: mirrors `parse_members`.
fn parse_members_exec(s: &[u8], i: usize, fuel: usize) -> (r: Option<
    (Vec<(Vec<u8>, JsonScalar)>, usize),
>)
    requires
        i <= s@.len(),
    ensures
        match r {
            Some(p) => parse_members(s@, i as int, fuel as nat) == Some(
                (members_view(p.0@), p.1 as int),
            ) && p.1 <= s@.len(),
            None => parse_members(s@, i as int, fuel as nat) is None,
        },
    decreases fuel,
{
    if fuel == 0 {
        return None;
    }
    let n = s.len();
    if !(i < n && s[i] == 0x22) {
        return None;
    }
    let (key, j1) = match parse_string_body_exec(s, i + 1) {
        Some(p) => p,
        None => {
            return None;
        },
    };
    let j2 = skip_ws_exec(s, j1);
    if !(j2 < n && s[j2] == 0x3a) {
        return None;
    }
    let j3 = skip_ws_exec(s, j2 + 1);
    let (v, j4) = match parse_scalar_exec(s, j3) {
        Some(p) => p,
        None => {
            return None;
        },
    };
    let j5 = skip_ws_exec(s, j4);
    if j5 < n && s[j5] == 0x2c {
        let j6 = skip_ws_exec(s, j5 + 1);
        match parse_members_exec(s, j6, fuel - 1) {
            Some((rest, e)) => {
                let ghost kv = (key@, v.view_of());
                let ghost rest_view = rest@;
                let mut out: Vec<(Vec<u8>, JsonScalar)> = Vec::new();
                out.push((key, v));
                let mut tail = rest;
                out.append(&mut tail);
                proof {
                    assert(members_view(out@) =~= seq![kv] + members_view(rest_view));
                }
                Some((out, e))
            },
            None => None,
        }
    } else if j5 < n && s[j5] == 0x7d {
        let ghost kv = (key@, v.view_of());
        let mut out: Vec<(Vec<u8>, JsonScalar)> = Vec::new();
        out.push((key, v));
        proof {
            assert(members_view(out@) =~= seq![kv]);
        }
        Some((out, j5 + 1))
    } else {
        None
    }
}

/// A whole frame, executable: mirrors `parse_object`.
pub fn parse_object_exec(s: &[u8]) -> (r: Option<Vec<(Vec<u8>, JsonScalar)>>)
    requires
        s@.len() < usize::MAX,
    ensures
        match r {
            Some(p) => parse_object(s@) == Some(members_view(p@)),
            None => parse_object(s@) is None,
        },
{
    let n = s.len();
    let i = skip_ws_exec(s, 0);
    if !(i < n && s[i] == 0x7b) {
        return None;
    }
    let j = skip_ws_exec(s, i + 1);
    if j < n && s[j] == 0x7d {
        if skip_ws_exec(s, j + 1) == n {
            let out: Vec<(Vec<u8>, JsonScalar)> = Vec::new();
            proof {
                assert(members_view(out@) =~= Seq::<(Seq<u8>, JsonScalarView)>::empty());
            }
            Some(out)
        } else {
            None
        }
    } else {
        match parse_members_exec(s, j, n + 1) {
            Some((pairs, e)) => {
                if skip_ws_exec(s, e) == n {
                    Some(pairs)
                } else {
                    None
                }
            },
            None => None,
        }
    }
}

/// UTF-8 encoding of a code point below 0x10000, executable.
fn encode_utf8_exec(c: i32) -> (r: Vec<u8>)
    requires
        0 <= c < 0x10000,
    ensures
        r@ == utf8_of(c as int),
{
    let mut out: Vec<u8> = Vec::new();
    if c < 0x80 {
        out.push(c as u8);
        proof {
            assert(out@ =~= utf8_of(c as int));
        }
    } else if c < 0x800 {
        out.push((0xc0 + c / 64) as u8);
        out.push((0x80 + c % 64) as u8);
        proof {
            assert(out@ =~= utf8_of(c as int));
        }
    } else {
        out.push((0xe0 + c / 4096) as u8);
        out.push((0x80 + (c / 64) % 64) as u8);
        out.push((0x80 + c % 64) as u8);
        proof {
            assert(out@ =~= utf8_of(c as int));
        }
    }
    out
}

/// Position of the `k`-th hex digit inside a hyphenated id.
pub open spec fn uuid_nibble_pos(k: int) -> int {
    k + if k < 8 {
        0int
    } else if k < 12 {
        1
    } else if k < 16 {
        2
    } else if k < 20 {
        3
    } else {
        4
    }
}

/// The 32 hex digit characters of a hyphenated id, in order.
pub open spec fn uuid_chars(b: Seq<u8>) -> Seq<u8> {
    Seq::new(32, |k: int| b[uuid_nibble_pos(k)])
}

/// The value of a big-endian string of hex digits.
pub open spec fn nibbles_val(ds: Seq<u8>) -> int
    decreases ds.len(),
{
    if ds.len() == 0 {
        0
    } else {
        nibbles_val(ds.drop_last()) * 16 + hex_val(ds.last())
    }
}

/// The id a hyphenated string of 36 bytes denotes: 32 hex digits with
/// hyphens after positions 8, 12, 16 and 20, upper or lower case.
/// Anything else is refused.
pub open spec fn parse_uuid(b: Seq<u8>) -> Option<u128> {
    if b.len() == 36 && b[8] == 0x2d && b[13] == 0x2d && b[18] == 0x2d && b[23] == 0x2d && (forall|
        k: int,
    |
        0 <= k < 32 ==> hex_val(#[trigger] uuid_chars(b)[k]) >= 0) {
        Some(nibbles_val(uuid_chars(b)) as u128)
    } else {
        None
    }
}

/// Sixteen to the `k`-th.
spec fn pow16(k: nat) -> int
    decreases k,
{
    if k == 0 {
        1
    } else {
        16 * pow16((k - 1) as nat)
    }
}

/// A hex digit string's value is bounded by the digit count.
proof fn lemma_nibbles_val_bound(ds: Seq<u8>)
    requires
        forall|k: int| 0 <= k < ds.len() ==> hex_val(#[trigger] ds[k]) >= 0,
    ensures
        0 <= nibbles_val(ds) < pow16(ds.len() as nat),
    decreases ds.len(),
{
    if ds.len() > 0 {
        lemma_nibbles_val_bound(ds.drop_last());
    }
}

/// Thirty-two hex digits fit a 128-bit id.
proof fn lemma_pow16_32()
    ensures
        pow16(32) == 0x100000000000000000000000000000000,
{
    reveal_with_fuel(pow16, 33);
}

/// Parses a hyphenated id, executable.
#[verifier::loop_isolation(false)]
pub fn parse_uuid_exec(b: &[u8]) -> (r: Option<u128>)
    ensures
        r == parse_uuid(b@),
{
    if b.len() != 36 {
        return None;
    }
    if !(b[8] == 0x2d && b[13] == 0x2d && b[18] == 0x2d && b[23] == 0x2d) {
        return None;
    }
    proof {
        lemma_pow16_32();
    }
    let mut acc: u128 = 0;
    let mut k: usize = 0;
    while k < 32
        invariant
            k <= 32,
            forall|j: int| 0 <= j < k ==> hex_val(#[trigger] uuid_chars(b@)[j]) >= 0,
            acc == nibbles_val(uuid_chars(b@).take(k as int)),
            acc < pow16(k as nat),
            pow16(32) == 0x100000000000000000000000000000000,
        decreases 32 - k,
    {
        let pos = k + if k < 8 {
            0usize
        } else if k < 12 {
            1
        } else if k < 16 {
            2
        } else if k < 20 {
            3
        } else {
            4
        };
        proof {
            assert(pos == uuid_nibble_pos(k as int));
            assert(uuid_chars(b@)[k as int] == b@[pos as int]);
        }
        let h = hex_val_exec(b[pos]);
        if h < 0 {
            proof {
                assert(hex_val(uuid_chars(b@)[k as int]) < 0);
            }
            return None;
        }
        proof {
            assert(uuid_chars(b@).take(k + 1).drop_last() =~= uuid_chars(b@).take(k as int));
            assert(uuid_chars(b@).take(k + 1).last() == uuid_chars(b@)[k as int]);
            assert(pow16((k + 1) as nat) == 16 * pow16(k as nat));
            assert(pow16(k as nat) <= pow16(31)) by {
                lemma_pow16_mono(k as nat, 31);
            }
            assert(pow16(32) == 16 * pow16(31));
        }
        acc = acc * 16 + (h as u128);
        k += 1;
    }
    proof {
        assert(uuid_chars(b@).take(32) =~= uuid_chars(b@));
        lemma_nibbles_val_bound(uuid_chars(b@));
    }
    Some(acc)
}

/// Sixteen's powers grow.
proof fn lemma_pow16_mono(a: nat, b: nat)
    requires
        a <= b,
    ensures
        pow16(a) <= pow16(b),
        pow16(a) >= 1,
    decreases b,
{
    if a < b {
        lemma_pow16_mono(a, (b - 1) as nat);
    } else if b > 0 {
        lemma_pow16_mono((a - 1) as nat, (b - 1) as nat);
    }
}

/// An inbound client message as decoded from the wire, text fields
/// still as their unescaped bytes: the transport layer checks them as
/// character data when it builds the `ClientMessage` it dispatches.
#[derive(Debug)]
pub enum RawClientMessage {
    SendMessage { receiver_id: UserId, content: Vec<u8>, image_url: Option<Vec<u8>> },
    TypingIndicator { conversation_with: UserId, is_typing: bool },
    MarkMessageDelivered { message_id: u128 },
}

/// The abstract value of a decoded client message.
pub enum ClientMessageView {
    SendMessage { receiver_id: u128, content: Seq<u8>, image_url: Option<Seq<u8>> },
    TypingIndicator { conversation_with: u128, is_typing: bool },
    MarkMessageDelivered { message_id: u128 },
}

impl RawClientMessage {
    /// The message's abstract value.
    pub open spec fn view_of(self) -> ClientMessageView {
        match self {
            RawClientMessage::SendMessage { receiver_id, content, image_url } => {
                ClientMessageView::SendMessage {
                    receiver_id: receiver_id.value,
                    content: content@,
                    image_url: match image_url {
                        Some(u) => Some(u@),
                        None => None,
                    },
                }
            },
            RawClientMessage::TypingIndicator { conversation_with, is_typing } => {
                ClientMessageView::TypingIndicator {
                    conversation_with: conversation_with.value,
                    is_typing,
                }
            },
            RawClientMessage::MarkMessageDelivered { message_id } => {
                ClientMessageView::MarkMessageDelivered { message_id }
            },
        }
    }
}

/// The first value under `key`, if any.
pub open spec fn lookup(pairs: Seq<(Seq<u8>, JsonScalarView)>, key: Seq<u8>) -> Option<
    JsonScalarView,
>
    decreases pairs.len(),
{
    if pairs.len() == 0 {
        None
    } else if pairs[0].0 == key {
        Some(pairs[0].1)
    } else {
        lookup(pairs.drop_first(), key)
    }
}

/// How often `key` occurs.
pub open spec fn key_count(pairs: Seq<(Seq<u8>, JsonScalarView)>, key: Seq<u8>) -> nat
    decreases pairs.len(),
{
    if pairs.len() == 0 {
        0
    } else {
        (if pairs[0].0 == key {
            1nat
        } else {
            0nat
        }) + key_count(pairs.drop_first(), key)
    }
}

/// A nibble string has as many characters as nibbles, every one a hex
/// digit.
proof fn lemma_hex_digits_rev_shape(x: u128, n: nat)
    ensures
        crate::wire::hex_digits_rev(x, n).len() == n,
        forall|k: int|
            0 <= k < n ==> 0 <= hex_val(#[trigger] crate::wire::hex_digits_rev(x, n)[k]) < 16,
    decreases n,
{
    if n > 0 {
        lemma_hex_digits_rev_shape(x / 16, (n - 1) as nat);
        lemma_hex_char_round_trip((x % 16) as u8);
    }
}

/// Reading a hex digit back gives the nibble it was written from.
proof fn lemma_hex_char_round_trip(d: u8)
    requires
        d < 16,
    ensures
        hex_val(crate::wire::hex_char(d)) == d,
{
}

/// The value of the big-endian digit string of `x` is `x` again.
proof fn lemma_nibbles_val_round_trip(x: u128, n: nat)
    requires
        x < pow16(n),
    ensures
        nibbles_val(crate::wire::hex_digits_rev(x, n).reverse()) == x,
    decreases n,
{
    lemma_hex_digits_rev_shape(x, n);
    let ds = crate::wire::hex_digits_rev(x, n).reverse();
    if n == 0 {
        assert(ds =~= Seq::<u8>::empty());
    } else {
        let rest = crate::wire::hex_digits_rev(x / 16, (n - 1) as nat);
        lemma_hex_digits_rev_shape(x / 16, (n - 1) as nat);
        assert(crate::wire::hex_digits_rev(x, n) == seq![
            crate::wire::hex_char((x % 16) as u8),
        ] + rest);
        assert(ds.len() == n);
        assert(ds.last() == crate::wire::hex_digits_rev(x, n)[0]);
        assert(ds.drop_last() =~= rest.reverse());
        assert(pow16(n) == 16 * pow16((n - 1) as nat));
        assert(x / 16 < pow16((n - 1) as nat));
        lemma_nibbles_val_round_trip(x / 16, (n - 1) as nat);
        lemma_hex_char_round_trip((x % 16) as u8);
        assert(nibbles_val(ds) == nibbles_val(ds.drop_last()) * 16 + hex_val(ds.last()));
    }
}

/// Law: the hyphenated form the wire writes for an id parses back to
/// exactly that id — the two transports and the inbound path agree on
/// how ids read.
pub proof fn law_uuid_round_trip(x: u128)
    ensures
        parse_uuid(crate::wire::uuid_hyphenated(x)) == Some(x),
{
    let b = crate::wire::uuid_hyphenated(x);
    lemma_hex_digits_rev_shape(x, 32);
    assert(crate::wire::uuid_digits(x).len() == 32);
    assert forall|k: int| 0 <= k < 32 implies #[trigger] uuid_chars(b)[k]
        == crate::wire::uuid_digits(x)[k] by {
        assert(uuid_chars(b)[k] == b[uuid_nibble_pos(k)]);
    }
    assert(uuid_chars(b) =~= crate::wire::uuid_digits(x));
    assert forall|k: int| 0 <= k < 32 implies hex_val(#[trigger] uuid_chars(b)[k]) >= 0 by {
        assert(crate::wire::uuid_digits(x)[k] == crate::wire::hex_digits_rev(x, 32)[31 - k]);
    }
    lemma_pow16_32();
    lemma_nibbles_val_round_trip(x, 32);
    assert(b.len() == 36 && b[8] == 0x2d && b[13] == 0x2d && b[18] == 0x2d && b[23] == 0x2d);
}

/// Assembles a chat send from the object's fields: the receiver id and
/// the content are required exactly once, the image is optional —
/// absent or `null` means none. Any other shape is refused.
pub open spec fn assemble_send(pairs: Seq<(Seq<u8>, JsonScalarView)>) -> Option<
    ClientMessageView,
> {
    if key_count(pairs, "receiver_id".spec_bytes()) == 1 && key_count(
        pairs,
        "content".spec_bytes(),
    ) == 1 && key_count(pairs, "image_url".spec_bytes()) <= 1 {
        match (lookup(pairs, "receiver_id".spec_bytes()), lookup(pairs, "content".spec_bytes())) {
            (Some(JsonScalarView::Str(rb)), Some(JsonScalarView::Str(c))) => match parse_uuid(rb) {
                Some(x) => match lookup(pairs, "image_url".spec_bytes()) {
                    None => Some(
                        ClientMessageView::SendMessage {
                            receiver_id: x,
                            content: c,
                            image_url: None,
                        },
                    ),
                    Some(JsonScalarView::Null) => Some(
                        ClientMessageView::SendMessage {
                            receiver_id: x,
                            content: c,
                            image_url: None,
                        },
                    ),
                    Some(JsonScalarView::Str(u)) => Some(
                        ClientMessageView::SendMessage {
                            receiver_id: x,
                            content: c,
                            image_url: Some(u),
                        },
                    ),
                    Some(JsonScalarView::Bool(_)) => None,
                },
                None => None,
            },
            _ => None,
        }
    } else {
        None
    }
}

/// Assembles a typing indicator: the conversation peer and the flag,
/// each exactly once.
pub open spec fn assemble_typing(pairs: Seq<(Seq<u8>, JsonScalarView)>) -> Option<
    ClientMessageView,
> {
    if key_count(pairs, "conversation_with".spec_bytes()) == 1 && key_count(
        pairs,
        "is_typing".spec_bytes(),
    ) == 1 {
        match (
            lookup(pairs, "conversation_with".spec_bytes()),
            lookup(pairs, "is_typing".spec_bytes()),
        ) {
            (Some(JsonScalarView::Str(cb)), Some(JsonScalarView::Bool(t))) => match parse_uuid(
                cb,
            ) {
                Some(x) => Some(
                    ClientMessageView::TypingIndicator { conversation_with: x, is_typing: t },
                ),
                None => None,
            },
            _ => None,
        }
    } else {
        None
    }
}

/// Assembles a delivery mark: the message id, exactly once.
pub open spec fn assemble_mark(pairs: Seq<(Seq<u8>, JsonScalarView)>) -> Option<
    ClientMessageView,
> {
    if key_count(pairs, "message_id".spec_bytes()) == 1 {
        match lookup(pairs, "message_id".spec_bytes()) {
            Some(JsonScalarView::Str(mb)) => match parse_uuid(mb) {
                Some(x) => Some(ClientMessageView::MarkMessageDelivered { message_id: x }),
                None => None,
            },
            _ => None,
        }
    } else {
        None
    }
}

/// Assembles a client message from the object's fields, dispatching on
/// the `type` discriminator. Fields no variant asks for are ignored; a
/// discriminator that is missing, repeated, not a string or unknown is
/// refused.
pub open spec fn assemble_client_message(pairs: Seq<(Seq<u8>, JsonScalarView)>) -> Option<
    ClientMessageView,
> {
    if key_count(pairs, "type".spec_bytes()) == 1 {
        match lookup(pairs, "type".spec_bytes()) {
            Some(JsonScalarView::Str(t)) => if t == "send_message".spec_bytes() {
                assemble_send(pairs)
            } else if t == "typing_indicator".spec_bytes() {
                assemble_typing(pairs)
            } else if t == "mark_message_delivered".spec_bytes() {
                assemble_mark(pairs)
            } else {
                None
            },
            _ => None,
        }
    } else {
        None
    }
}

/// What an inbound frame decodes to, if anything: the grammar and the
/// assembly in one statement.
pub open spec fn decoded_client_message(s: Seq<u8>) -> Option<ClientMessageView> {
    match parse_object(s) {
        Some(pairs) => assemble_client_message(pairs),
        None => None,
    }
}

/// A key occurs exactly as often as it can be found.
proof fn lemma_lookup_count(pairs: Seq<(Seq<u8>, JsonScalarView)>, key: Seq<u8>)
    ensures
        (key_count(pairs, key) > 0) <==> (lookup(pairs, key) is Some),
    decreases pairs.len(),
{
    if pairs.len() > 0 {
        lemma_lookup_count(pairs.drop_first(), key);
    }
}

/// Byte-string equality, executable.
#[verifier::loop_isolation(false)]
fn bytes_eq(a: &[u8], b: &[u8]) -> (r: bool)
    ensures
        r == (a@ == b@),
{
    let n = a.len();
    if n != b.len() {
        return false;
    }
    let mut k: usize = 0;
    while k < n
        invariant
            k <= n,
            n == a@.len() == b@.len(),
            forall|j: int| 0 <= j < k ==> a@[j] == b@[j],
        decreases n - k,
    {
        if a[k] != b[k] {
            return false;
        }
        k += 1;
    }
    proof {
        assert(a@ =~= b@);
    }
    true
}

/// A copy of a byte string.
#[verifier::loop_isolation(false)]
fn clone_bytes(v: &Vec<u8>) -> (r: Vec<u8>)
    ensures
        r@ == v@,
{
    let mut out: Vec<u8> = Vec::new();
    let n = v.len();
    let mut k: usize = 0;
    while k < n
        invariant
            k <= n,
            n == v@.len(),
            out@ == v@.take(k as int),
        decreases n - k,
    {
        out.push(v[k]);
        proof {
            assert(out@ =~= v@.take(k + 1));
        }
        k += 1;
    }
    proof {
        assert(v@.take(n as int) =~= v@);
    }
    out
}

/// The position of the first member under `key`, executable.
#[verifier::loop_isolation(false)]
fn find_first(pairs: &Vec<(Vec<u8>, JsonScalar)>, key: &[u8]) -> (r: Option<usize>)
    ensures
        match r {
            Some(idx) => idx < pairs@.len() && pairs@[idx as int].0@ == key@ && lookup(
                members_view(pairs@),
                key@,
            ) == Some(pairs@[idx as int].1.view_of()),
            None => lookup(members_view(pairs@), key@) is None,
        },
{
    let n = pairs.len();
    let mut k: usize = 0;
    proof {
        assert(members_view(pairs@).skip(0) =~= members_view(pairs@));
    }
    while k < n
        invariant
            k <= n,
            n == pairs@.len(),
            lookup(members_view(pairs@), key@) == lookup(
                members_view(pairs@).skip(k as int),
                key@,
            ),
            forall|j: int| 0 <= j < k ==> (#[trigger] pairs@[j].0@) != key@,
        decreases n - k,
    {
        proof {
            assert(members_view(pairs@).skip(k as int)[0] == members_view(pairs@)[k as int]);
        }
        if bytes_eq(pairs[k].0.as_slice(), key) {
            return Some(k);
        }
        proof {
            assert(members_view(pairs@).skip(k as int).drop_first() =~= members_view(
                pairs@,
            ).skip(k + 1));
        }
        k += 1;
    }
    proof {
        assert(members_view(pairs@).skip(n as int) =~= Seq::<(Seq<u8>, JsonScalarView)>::empty());
    }
    None
}

/// How often `key` occurs, executable.
#[verifier::loop_isolation(false)]
fn count_key(pairs: &Vec<(Vec<u8>, JsonScalar)>, key: &[u8]) -> (r: usize)
    ensures
        r == key_count(members_view(pairs@), key@),
{
    let n = pairs.len();
    let mut found: usize = 0;
    let mut k: usize = 0;
    proof {
        assert(members_view(pairs@).skip(0) =~= members_view(pairs@));
    }
    while k < n
        invariant
            k <= n,
            n == pairs@.len(),
            found <= k,
            key_count(members_view(pairs@), key@) == found + key_count(
                members_view(pairs@).skip(k as int),
                key@,
            ),
        decreases n - k,
    {
        proof {
            assert(members_view(pairs@).skip(k as int)[0] == members_view(pairs@)[k as int]);
            assert(members_view(pairs@).skip(k as int).drop_first() =~= members_view(
                pairs@,
            ).skip(k + 1));
        }
        if bytes_eq(pairs[k].0.as_slice(), key) {
            found += 1;
        }
        k += 1;
    }
    proof {
        assert(members_view(pairs@).skip(n as int) =~= Seq::<(Seq<u8>, JsonScalarView)>::empty());
    }
    found
}

/// Decodes one inbound frame, or refuses it: the result is exactly
/// what `decoded_client_message` says of the bytes, so a frame is
/// either understood one way or reported back to its session as
/// malformed.
pub fn decode_client_message(input: &[u8]) -> (r: Option<RawClientMessage>)
    requires
        input@.len() < usize::MAX,
    ensures
        match r {
            Some(m) => decoded_client_message(input@) == Some(m.view_of()),
            None => decoded_client_message(input@) is None,
        },
{
    let pairs = match parse_object_exec(input) {
        Some(p) => p,
        None => {
            return None;
        },
    };
    proof {
        lemma_lookup_count(members_view(pairs@), "type".spec_bytes());
    }
    if count_key(&pairs, "type".as_bytes()) != 1 {
        return None;
    }
    let t_idx = match find_first(&pairs, "type".as_bytes()) {
        Some(i) => i,
        None => {
            return None;
        },
    };
    let t_bytes = match &pairs[t_idx].1 {
        JsonScalar::Str(tb) => tb,
        _ => {
            return None;
        },
    };
    if bytes_eq(t_bytes.as_slice(), "send_message".as_bytes()) {
        proof {
            lemma_lookup_count(members_view(pairs@), "receiver_id".spec_bytes());
            lemma_lookup_count(members_view(pairs@), "content".spec_bytes());
            lemma_lookup_count(members_view(pairs@), "image_url".spec_bytes());
        }
        if count_key(&pairs, "receiver_id".as_bytes()) != 1 {
            return None;
        }
        if count_key(&pairs, "content".as_bytes()) != 1 {
            return None;
        }
        if count_key(&pairs, "image_url".as_bytes()) > 1 {
            return None;
        }
        let r_idx = find_first(&pairs, "receiver_id".as_bytes()).unwrap();
        let c_idx = find_first(&pairs, "content".as_bytes()).unwrap();
        let rb = match &pairs[r_idx].1 {
            JsonScalar::Str(v) => v,
            _ => {
                return None;
            },
        };
        let cb = match &pairs[c_idx].1 {
            JsonScalar::Str(v) => v,
            _ => {
                return None;
            },
        };
        let x = match parse_uuid_exec(rb.as_slice()) {
            Some(x) => x,
            None => {
                return None;
            },
        };
        let image_url = match find_first(&pairs, "image_url".as_bytes()) {
            None => None,
            Some(i_idx) => match &pairs[i_idx].1 {
                JsonScalar::Null => None,
                JsonScalar::Str(u) => Some(clone_bytes(u)),
                JsonScalar::Bool(_) => {
                    return None;
                },
            },
        };
        Some(
            RawClientMessage::SendMessage {
                receiver_id: UserId::new(x),
                content: clone_bytes(cb),
                image_url,
            },
        )
    } else if bytes_eq(t_bytes.as_slice(), "typing_indicator".as_bytes()) {
        proof {
            lemma_lookup_count(members_view(pairs@), "conversation_with".spec_bytes());
            lemma_lookup_count(members_view(pairs@), "is_typing".spec_bytes());
        }
        if count_key(&pairs, "conversation_with".as_bytes()) != 1 {
            return None;
        }
        if count_key(&pairs, "is_typing".as_bytes()) != 1 {
            return None;
        }
        let c_idx = find_first(&pairs, "conversation_with".as_bytes()).unwrap();
        let b_idx = find_first(&pairs, "is_typing".as_bytes()).unwrap();
        let cb = match &pairs[c_idx].1 {
            JsonScalar::Str(v) => v,
            _ => {
                return None;
            },
        };
        let is_typing = match &pairs[b_idx].1 {
            JsonScalar::Bool(t) => *t,
            _ => {
                return None;
            },
        };
        match parse_uuid_exec(cb.as_slice()) {
            Some(x) => Some(
                RawClientMessage::TypingIndicator {
                    conversation_with: UserId::new(x),
                    is_typing,
                },
            ),
            None => None,
        }
    } else if bytes_eq(t_bytes.as_slice(), "mark_message_delivered".as_bytes()) {
        proof {
            lemma_lookup_count(members_view(pairs@), "message_id".spec_bytes());
        }
        if count_key(&pairs, "message_id".as_bytes()) != 1 {
            return None;
        }
        let m_idx = find_first(&pairs, "message_id".as_bytes()).unwrap();
        let mb = match &pairs[m_idx].1 {
            JsonScalar::Str(v) => v,
            _ => {
                return None;
            },
        };
        match parse_uuid_exec(mb.as_slice()) {
            Some(x) => Some(RawClientMessage::MarkMessageDelivered { message_id: x }),
            None => None,
        }
    } else {
        None
    }
}

} // verus!
