//! Wire protocol of the intent bus: JSON-RPC-shaped text frames.
//!
//! Inbound frames are classified by an explicit tagged decode: after the
//! common `jsonrpc` prefix the discriminant field is inspected (`method`
//! for subscription-style envelopes, `id` for request acknowledgments)
//! before committing to a shape. Insignificant whitespace outside quoted
//! strings is ignored; what remains must match the bus's canonical form:
//! the field order shown in the grammar below and no escape sequences
//! inside strings. Anything else is classified as malformed, which is
//! never fatal.
//!
//! Shapes:
//! - envelope: `{"jsonrpc":JR,"method":M,"params":{"subscription":S}}`
//!   optionally with a flattened intent after the subscription id:
//!   `,"id":I,"from_token":T,"to_token":T,"amount":A,"min_amount_out":O,"deadline":D`
//!   where a token `T` is `{"symbol":SY,"address":AD,"decimals":DC}`;
//! - acknowledgment: `{"jsonrpc":JR,"id":N,"result":R}`.

use vstd::prelude::*;

use crate::decimal::{dec_str, digits_val, is_digit, num_end, scan_u64};
use crate::types::{
    JsonRpcRequest, JsonRpcRequestView, JsonRpcResponse, JsonRpcResponseView, SolverBusMessage,
    SolverBusMessageView, SolverBusParams, SolverBusParamsView, SwapIntent, SwapIntentView, Token,
    TokenView,
};

verus! {

/// True when `lit` occurs in `s` at position `i`.
pub open spec fn lit_at(s: Seq<char>, i: int, lit: Seq<char>) -> bool {
    &&& 0 <= i
    &&& i + lit.len() <= s.len()
    &&& s.subrange(i, i + lit.len() as int) == lit
}

/// First position at or after `i` in `s` holding a double quote, or the
/// length of `s` when there is none.
pub open spec fn str_end(s: Seq<char>, i: int) -> int
    decreases s.len() - i,
{
    if 0 <= i < s.len() {
        if s[i] == '"' {
            i
        } else {
            str_end(s, i + 1)
        }
    } else {
        s.len() as int
    }
}

/// The scan for a closing quote stays within bounds and skips no quote.
pub proof fn lemma_str_end_bounds(s: Seq<char>, i: int)
    requires
        0 <= i <= s.len(),
    ensures
        i <= str_end(s, i) <= s.len(),
        forall|k: int| i <= k < str_end(s, i) ==> s[k] != '"',
        str_end(s, i) < s.len() ==> s[str_end(s, i)] == '"',
    decreases s.len() - i,
{
    if 0 <= i < s.len() && s[i] != '"' {
        lemma_str_end_bounds(s, i + 1);
    }
}

/// A quoted string at position `i`: its contents and the position after
/// the closing quote.
pub open spec fn qstr_at(s: Seq<char>, i: int) -> Option<(Seq<char>, int)> {
    if 0 <= i < s.len() && s[i] == '"' {
        let e = str_end(s, i + 1);
        if e < s.len() {
            Some((s.subrange(i + 1, e), e + 1))
        } else {
            None
        }
    } else {
        None
    }
}

/// An unsigned decimal number at position `i` that fits in `u64`: its
/// value and the position after its last digit.
pub open spec fn u64_at(s: Seq<char>, i: int) -> Option<(u64, int)> {
    let e = num_end(s, i);
    if i < e && digits_val(s.subrange(i, e)) <= u64::MAX {
        Some((digits_val(s.subrange(i, e)) as u64, e))
    } else {
        None
    }
}

/// A token object at position `i`.
pub open spec fn token_at(s: Seq<char>, i: int) -> Option<(TokenView, int)> {
    if lit_at(s, i, "{\"symbol\":"@) {
        match qstr_at(s, i + "{\"symbol\":"@.len()) {
            Some((symbol, i1)) => if lit_at(s, i1, ",\"address\":"@) {
                match qstr_at(s, i1 + ",\"address\":"@.len()) {
                    Some((address, i2)) => if lit_at(s, i2, ",\"decimals\":"@) {
                        match u64_at(s, i2 + ",\"decimals\":"@.len()) {
                            Some((d, i3)) => if d <= 255 && lit_at(s, i3, "}"@) {
                                Some(
                                    (
                                        TokenView { symbol, address, decimals: d as u8 },
                                        i3 + "}"@.len(),
                                    ),
                                )
                            } else {
                                None
                            },
                            None => None,
                        }
                    } else {
                        None
                    },
                    None => None,
                }
            } else {
                None
            },
            None => None,
        }
    } else {
        None
    }
}

/// A flattened intent at position `i`, as embedded in an envelope's
/// parameters after the subscription id.
pub open spec fn intent_at(s: Seq<char>, i: int) -> Option<(SwapIntentView, int)> {
    if lit_at(s, i, ",\"id\":"@) {
        match qstr_at(s, i + ",\"id\":"@.len()) {
            Some((id, i1)) => if lit_at(s, i1, ",\"from_token\":"@) {
                match token_at(s, i1 + ",\"from_token\":"@.len()) {
                    Some((from_token, i2)) => if lit_at(s, i2, ",\"to_token\":"@) {
                        match token_at(s, i2 + ",\"to_token\":"@.len()) {
                            Some((to_token, i3)) => if lit_at(s, i3, ",\"amount\":"@) {
                                match qstr_at(s, i3 + ",\"amount\":"@.len()) {
                                    Some((amount, i4)) => if lit_at(s, i4, ",\"min_amount_out\":"@) {
                                        match qstr_at(s, i4 + ",\"min_amount_out\":"@.len()) {
                                            Some((min_amount_out, i5)) => if lit_at(
                                                s,
                                                i5,
                                                ",\"deadline\":"@,
                                            ) {
                                                match u64_at(s, i5 + ",\"deadline\":"@.len()) {
                                                    Some((deadline, i6)) => Some(
                                                        (
                                                            SwapIntentView {
                                                                id,
                                                                from_token,
                                                                to_token,
                                                                amount,
                                                                min_amount_out,
                                                                deadline,
                                                            },
                                                            i6,
                                                        ),
                                                    ),
                                                    None => None,
                                                }
                                            } else {
                                                None
                                            },
                                            None => None,
                                        }
                                    } else {
                                        None
                                    },
                                    None => None,
                                }
                            } else {
                                None
                            },
                            None => None,
                        }
                    } else {
                        None
                    },
                    None => None,
                }
            } else {
                None
            },
            None => None,
        }
    } else {
        None
    }
}

/// Classification of one inbound text frame.
pub enum FrameClassView {
    Envelope(SolverBusMessageView),
    Confirmation(JsonRpcResponseView),
    Malformed,
}

/// A subscription-style envelope after its `method` discriminant, with the
/// `jsonrpc` value already read.
pub open spec fn method_frame_at(s: Seq<char>, jsonrpc: Seq<char>, i: int) -> FrameClassView {
    match qstr_at(s, i) {
        Some((method, i1)) => if lit_at(s, i1, ",\"params\":{\"subscription\":"@) {
            match qstr_at(s, i1 + ",\"params\":{\"subscription\":"@.len()) {
                Some((subscription, i2)) => if lit_at(s, i2, "}}"@) && i2 + 2 == s.len() {
                    FrameClassView::Envelope(
                        SolverBusMessageView {
                            jsonrpc,
                            method,
                            params: SolverBusParamsView { subscription, intent: None },
                        },
                    )
                } else {
                    match intent_at(s, i2) {
                        Some((intent, i3)) => if lit_at(s, i3, "}}"@) && i3 + 2 == s.len() {
                            FrameClassView::Envelope(
                                SolverBusMessageView {
                                    jsonrpc,
                                    method,
                                    params: SolverBusParamsView {
                                        subscription,
                                        intent: Some(intent),
                                    },
                                },
                            )
                        } else {
                            FrameClassView::Malformed
                        },
                        None => FrameClassView::Malformed,
                    }
                },
                None => FrameClassView::Malformed,
            }
        } else {
            FrameClassView::Malformed
        },
        None => FrameClassView::Malformed,
    }
}

/// A request acknowledgment after its `id` discriminant, with the
/// `jsonrpc` value already read.
pub open spec fn confirm_frame_at(s: Seq<char>, jsonrpc: Seq<char>, i: int) -> FrameClassView {
    match u64_at(s, i) {
        Some((id, i1)) => if lit_at(s, i1, ",\"result\":"@) {
            match qstr_at(s, i1 + ",\"result\":"@.len()) {
                Some((result, i2)) => if lit_at(s, i2, "}"@) && i2 + 1 == s.len() {
                    FrameClassView::Confirmation(JsonRpcResponseView { jsonrpc, id, result })
                } else {
                    FrameClassView::Malformed
                },
                None => FrameClassView::Malformed,
            }
        } else {
            FrameClassView::Malformed
        },
        None => FrameClassView::Malformed,
    }
}

/// Whether `lit` occurs in `s` at position `i`.
pub fn lit_at_exec(s: &str, i: usize, lit: &str) -> (r: bool)
    ensures
        r == lit_at(s@, i as int, lit@),
{
    let n: usize = s.unicode_len();
    let m: usize = lit.unicode_len();
    if i > n || m > n - i {
        proof {
            assert(!lit_at(s@, i as int, lit@));
        }
        return false;
    }
    let mut k: usize = 0;
    while k < m
        invariant
            0 <= k <= m,
            i + m <= n,
            n == s@.len(),
            m == lit@.len(),
            forall|l: int| 0 <= l < k ==> s@[i + l] == lit@[l],
        decreases m - k,
    {
        if s.get_char(i + k) != lit.get_char(k) {
            proof {
                assert(s@.subrange(i as int, i + lit@.len() as int) != lit@) by {
                    if s@.subrange(i as int, i + lit@.len() as int) == lit@ {
                        assert(s@.subrange(i as int, i + lit@.len() as int)[k as int] == s@[i
                            + k]);
                    }
                }
            }
            return false;
        }
        k = k + 1;
    }
    proof {
        assert(s@.subrange(i as int, i + lit@.len() as int) =~= lit@);
    }
    true
}

/// Whether `s` holds exactly the characters of `lit`.
pub fn str_is(s: &str, lit: &str) -> (r: bool)
    ensures
        r == (s@ == lit@),
{
    let n: usize = s.unicode_len();
    let m: usize = lit.unicode_len();
    if n != m {
        return false;
    }
    let r = lit_at_exec(s, 0, lit);
    proof {
        assert(s@.subrange(0, s@.len() as int) =~= s@);
    }
    r
}

/// Position of the next double quote at or after `i`, or the length of
/// `s` when there is none.
fn find_quote(s: &str, i: usize) -> (j: usize)
    requires
        i <= s@.len(),
        s@.len() <= usize::MAX,
    ensures
        j == str_end(s@, i as int),
{
    let len: usize = s.unicode_len();
    let mut j: usize = i;
    while j < len && s.get_char(j) != '"'
        invariant
            i <= j <= len,
            len == s@.len(),
            str_end(s@, i as int) == str_end(s@, j as int),
        decreases len - j,
    {
        proof {
            assert(str_end(s@, j as int) == str_end(s@, j as int + 1));
        }
        j = j + 1;
    }
    j
}

/// Reads the quoted string at position `i`, mirroring [`qstr_at`].
fn qstr_exec(s: &str, i: usize) -> (r: Option<(String, usize)>)
    requires
        i <= s@.len(),
        s@.len() <= usize::MAX,
    ensures
        match r {
            Some(p) => qstr_at(s@, i as int) == Some((p.0@, p.1 as int)),
            None => qstr_at(s@, i as int) is None,
        },
{
    let len: usize = s.unicode_len();
    if i < len && s.get_char(i) == '"' {
        let e = find_quote(s, i + 1);
        proof {
            lemma_str_end_bounds(s@, i as int + 1);
        }
        if e < len {
            let content = String::from_str(s.substring_char(i + 1, e));
            Some((content, e + 1))
        } else {
            None
        }
    } else {
        None
    }
}

/// Reads the `u64` number at position `i`, mirroring [`u64_at`].
fn u64_exec(s: &str, i: usize) -> (r: Option<(u64, usize)>)
    requires
        i <= s@.len(),
        s@.len() <= usize::MAX,
    ensures
        match r {
            Some(p) => u64_at(s@, i as int) == Some((p.0, p.1 as int)),
            None => u64_at(s@, i as int) is None,
        },
{
    let (e, v) = scan_u64(s, i);
    proof {
        crate::decimal::lemma_num_end_bounds(s@, i as int);
    }
    if e == i {
        None
    } else {
        match v {
            Some(value) => Some((value, e)),
            None => None,
        }
    }
}

/// Reads the token object at position `i`, mirroring [`token_at`].
fn token_exec(s: &str, i: usize) -> (r: Option<(Token, usize)>)
    requires
        i <= s@.len(),
        s@.len() <= usize::MAX,
    ensures
        match r {
            Some(p) => token_at(s@, i as int) == Some((p.0@, p.1 as int)),
            None => token_at(s@, i as int) is None,
        },
{
    if !lit_at_exec(s, i, "{\"symbol\":") {
        return None;
    }
    let i0 = i + "{\"symbol\":".unicode_len();
    let (symbol, i1) = match qstr_exec(s, i0) {
        Some(p) => p,
        None => {
            return None;
        },
    };
    proof {
        lemma_str_end_bounds(s@, i0 as int + 1);
    }
    if !lit_at_exec(s, i1, ",\"address\":") {
        return None;
    }
    let i1b = i1 + ",\"address\":".unicode_len();
    let (address, i2) = match qstr_exec(s, i1b) {
        Some(p) => p,
        None => {
            return None;
        },
    };
    proof {
        lemma_str_end_bounds(s@, i1b as int + 1);
    }
    if !lit_at_exec(s, i2, ",\"decimals\":") {
        return None;
    }
    let i2b = i2 + ",\"decimals\":".unicode_len();
    let (d, i3) = match u64_exec(s, i2b) {
        Some(p) => p,
        None => {
            return None;
        },
    };
    proof {
        crate::decimal::lemma_num_end_bounds(s@, i2b as int);
    }
    if !(d <= 255 && lit_at_exec(s, i3, "}")) {
        return None;
    }
    let i4 = i3 + "}".unicode_len();
    Some((Token { symbol, address, decimals: d as u8 }, i4))
}

/// Reads the flattened intent at position `i`, mirroring [`intent_at`].
fn intent_exec(s: &str, i: usize) -> (r: Option<(SwapIntent, usize)>)
    requires
        i <= s@.len(),
        s@.len() <= usize::MAX,
    ensures
        match r {
            Some(p) => intent_at(s@, i as int) == Some((p.0@, p.1 as int)) && p.1 <= s@.len(),
            None => intent_at(s@, i as int) is None,
        },
{
    if !lit_at_exec(s, i, ",\"id\":") {
        return None;
    }
    let i0 = i + ",\"id\":".unicode_len();
    let (id, i1) = match qstr_exec(s, i0) {
        Some(p) => p,
        None => {
            return None;
        },
    };
    proof {
        lemma_str_end_bounds(s@, i0 as int + 1);
    }
    if !lit_at_exec(s, i1, ",\"from_token\":") {
        return None;
    }
    let i1b = i1 + ",\"from_token\":".unicode_len();
    let (from_token, i2) = match token_exec(s, i1b) {
        Some(p) => p,
        None => {
            return None;
        },
    };
    proof {
        lemma_token_at_bounds(s@, i1b as int);
    }
    if !lit_at_exec(s, i2, ",\"to_token\":") {
        return None;
    }
    let i2b = i2 + ",\"to_token\":".unicode_len();
    let (to_token, i3) = match token_exec(s, i2b) {
        Some(p) => p,
        None => {
            return None;
        },
    };
    proof {
        lemma_token_at_bounds(s@, i2b as int);
    }
    if !lit_at_exec(s, i3, ",\"amount\":") {
        return None;
    }
    let i3b = i3 + ",\"amount\":".unicode_len();
    let (amount, i4) = match qstr_exec(s, i3b) {
        Some(p) => p,
        None => {
            return None;
        },
    };
    proof {
        lemma_str_end_bounds(s@, i3b as int + 1);
    }
    if !lit_at_exec(s, i4, ",\"min_amount_out\":") {
        return None;
    }
    let i4b = i4 + ",\"min_amount_out\":".unicode_len();
    let (min_amount_out, i5) = match qstr_exec(s, i4b) {
        Some(p) => p,
        None => {
            return None;
        },
    };
    proof {
        lemma_str_end_bounds(s@, i4b as int + 1);
    }
    if !lit_at_exec(s, i5, ",\"deadline\":") {
        return None;
    }
    let i5b = i5 + ",\"deadline\":".unicode_len();
    let (deadline, i6) = match u64_exec(s, i5b) {
        Some(p) => p,
        None => {
            return None;
        },
    };
    proof {
        crate::decimal::lemma_num_end_bounds(s@, i5b as int);
    }
    Some((SwapIntent { id, from_token, to_token, amount, min_amount_out, deadline }, i6))
}

/// A parsed token object ends within the frame.
pub proof fn lemma_token_at_bounds(s: Seq<char>, i: int)
    requires
        0 <= i,
        token_at(s, i) is Some,
    ensures
        i <= token_at(s, i)->Some_0.1 <= s.len(),
{
    lemma_str_end_bounds(s, i + "{\"symbol\":"@.len() + 1);
    match qstr_at(s, i + "{\"symbol\":"@.len()) {
        Some(p1) => {
            lemma_str_end_bounds(s, p1.1 + ",\"address\":"@.len() + 1);
            match qstr_at(s, p1.1 + ",\"address\":"@.len()) {
                Some(p2) => {
                    crate::decimal::lemma_num_end_bounds(s, p2.1 + ",\"decimals\":"@.len());
                },
                None => {},
            }
        },
        None => {},
    }
}

/// Classification of one text frame against the canonical grammar.
pub open spec fn canonical_classify(s: Seq<char>) -> FrameClassView {
    if lit_at(s, 0, "{\"jsonrpc\":"@) {
        match qstr_at(s, "{\"jsonrpc\":"@.len() as int) {
            Some((jsonrpc, i1)) => if lit_at(s, i1, ",\"method\":"@) {
                method_frame_at(s, jsonrpc, i1 + ",\"method\":"@.len())
            } else if lit_at(s, i1, ",\"id\":"@) {
                confirm_frame_at(s, jsonrpc, i1 + ",\"id\":"@.len())
            } else {
                FrameClassView::Malformed
            },
            None => FrameClassView::Malformed,
        }
    } else {
        FrameClassView::Malformed
    }
}

/// True of JSON's insignificant whitespace.
pub open spec fn is_ws(c: char) -> bool {
    c as int == 32 || c as int == 9 || c as int == 10 || c as int == 13
}

/// `s` from position `i` on, with insignificant whitespace removed.
/// Whitespace inside a quoted string (`in_str`) is part of the value and
/// is kept; a double quote toggles the state.
pub open spec fn strip_ws_from(s: Seq<char>, i: int, in_str: bool) -> Seq<char>
    decreases s.len() - i,
{
    if 0 <= i < s.len() {
        let c = s[i];
        let next = if c == '"' {
            !in_str
        } else {
            in_str
        };
        if in_str || !is_ws(c) {
            seq![c] + strip_ws_from(s, i + 1, next)
        } else {
            strip_ws_from(s, i + 1, next)
        }
    } else {
        Seq::empty()
    }
}

/// `s` with insignificant whitespace outside quoted strings removed.
pub open spec fn strip_ws(s: Seq<char>) -> Seq<char> {
    strip_ws_from(s, 0, false)
}

/// Classification of one inbound text frame: insignificant whitespace
/// outside strings is ignored, and what remains must match the canonical
/// grammar.
pub open spec fn spec_classify(s: Seq<char>) -> FrameClassView {
    canonical_classify(strip_ws(s))
}

/// Classification of one inbound text frame.
#[derive(Debug)]
pub enum FrameClass {
    /// A subscription-style envelope, with or without an embedded intent.
    Envelope(SolverBusMessage),
    /// A request acknowledgment carrying the subscription identifier.
    Confirmation(JsonRpcResponse),
    /// A frame matching no known shape; skipped, never fatal.
    Malformed,
}

impl View for FrameClass {
    type V = FrameClassView;

    open spec fn view(&self) -> FrameClassView {
        match self {
            FrameClass::Envelope(m) => FrameClassView::Envelope(m@),
            FrameClass::Confirmation(r) => FrameClassView::Confirmation(r@),
            FrameClass::Malformed => FrameClassView::Malformed,
        }
    }
}

/// Removes insignificant whitespace outside quoted strings.
fn strip_ws_exec(text: &str) -> (r: String)
    ensures
        r@ == strip_ws(text@),
{
    let len: usize = text.unicode_len();
    let mut out = String::new();
    let mut in_str: bool = false;
    let mut j: usize = 0;
    while j < len
        invariant
            0 <= j <= len,
            len == text@.len(),
            strip_ws(text@) == out@ + strip_ws_from(text@, j as int, in_str),
        decreases len - j,
    {
        let c = text.get_char(j);
        let u = c as u32;
        let ghost old_out = out@;
        let ghost rest = strip_ws_from(
            text@,
            j as int + 1,
            if c == '"' {
                !in_str
            } else {
                in_str
            },
        );
        if in_str || !(u == 32 || u == 9 || u == 10 || u == 13) {
            out.append(text.substring_char(j, j + 1));
            proof {
                assert(text@.subrange(j as int, j as int + 1) =~= seq![text@[j as int]]);
                assert(old_out + (seq![text@[j as int]] + rest) =~= (old_out + seq![
                    text@[j as int],
                ]) + rest);
            }
        }
        if c == '"' {
            in_str = !in_str;
        }
        j = j + 1;
    }
    proof {
        assert(out@ + Seq::<char>::empty() =~= out@);
    }
    out
}

/// Classifies one inbound text frame: insignificant whitespace outside
/// strings is removed first, then the frame is decoded by inspecting its
/// discriminant field before committing to a shape; anything unrecognized
/// is malformed, which is never fatal.
pub fn classify(text: &str) -> (r: FrameClass)
    ensures
        r@ == spec_classify(text@),
{
    let stripped = strip_ws_exec(text);
    classify_canonical(stripped.as_str())
}

/// Classifies one whitespace-free text frame by the explicit tagged
/// decode of the canonical grammar: the `method` and `id` discriminants
/// are inspected before committing to a shape, and anything unrecognized
/// is malformed.
fn classify_canonical(text: &str) -> (r: FrameClass)
    ensures
        r@ == canonical_classify(text@),
{
    let len: usize = text.unicode_len();
    if !lit_at_exec(text, 0, "{\"jsonrpc\":") {
        return FrameClass::Malformed;
    }
    let i0 = "{\"jsonrpc\":".unicode_len();
    let (jsonrpc, i1) = match qstr_exec(text, i0) {
        Some(p) => p,
        None => {
            return FrameClass::Malformed;
        },
    };
    proof {
        lemma_str_end_bounds(text@, i0 as int + 1);
    }
    if lit_at_exec(text, i1, ",\"method\":") {
        let i2 = i1 + ",\"method\":".unicode_len();
        classify_method_frame(text, jsonrpc, i2)
    } else if lit_at_exec(text, i1, ",\"id\":") {
        let i2 = i1 + ",\"id\":".unicode_len();
        classify_confirm_frame(text, jsonrpc, i2)
    } else {
        FrameClass::Malformed
    }
}

/// Reads a subscription-style envelope, mirroring [`method_frame_at`].
fn classify_method_frame(text: &str, jsonrpc: String, i: usize) -> (r: FrameClass)
    requires
        i <= text@.len(),
        text@.len() <= usize::MAX,
    ensures
        r@ == method_frame_at(text@, jsonrpc@, i as int),
{
    let len: usize = text.unicode_len();
    let (method, i1) = match qstr_exec(text, i) {
        Some(p) => p,
        None => {
            return FrameClass::Malformed;
        },
    };
    proof {
        lemma_str_end_bounds(text@, i as int + 1);
    }
    if !lit_at_exec(text, i1, ",\"params\":{\"subscription\":") {
        return FrameClass::Malformed;
    }
    let i1b = i1 + ",\"params\":{\"subscription\":".unicode_len();
    let (subscription, i2) = match qstr_exec(text, i1b) {
        Some(p) => p,
        None => {
            return FrameClass::Malformed;
        },
    };
    proof {
        lemma_str_end_bounds(text@, i1b as int + 1);
    }
    if lit_at_exec(text, i2, "}}") && len - i2 == 2 {
        return FrameClass::Envelope(
            SolverBusMessage {
                jsonrpc,
                method,
                params: SolverBusParams { subscription, intent: None },
            },
        );
    }
    let (intent, i3) = match intent_exec(text, i2) {
        Some(p) => p,
        None => {
            return FrameClass::Malformed;
        },
    };
    if lit_at_exec(text, i3, "}}") && len - i3 == 2 {
        FrameClass::Envelope(
            SolverBusMessage {
                jsonrpc,
                method,
                params: SolverBusParams { subscription, intent: Some(intent) },
            },
        )
    } else {
        FrameClass::Malformed
    }
}

/// Reads a request acknowledgment, mirroring [`confirm_frame_at`].
fn classify_confirm_frame(text: &str, jsonrpc: String, i: usize) -> (r: FrameClass)
    requires
        i <= text@.len(),
        text@.len() <= usize::MAX,
    ensures
        r@ == confirm_frame_at(text@, jsonrpc@, i as int),
{
    let len: usize = text.unicode_len();
    let (id, i1) = match u64_exec(text, i) {
        Some(p) => p,
        None => {
            return FrameClass::Malformed;
        },
    };
    proof {
        crate::decimal::lemma_num_end_bounds(text@, i as int);
    }
    if !lit_at_exec(text, i1, ",\"result\":") {
        return FrameClass::Malformed;
    }
    let i1b = i1 + ",\"result\":".unicode_len();
    let (result, i2) = match qstr_exec(text, i1b) {
        Some(p) => p,
        None => {
            return FrameClass::Malformed;
        },
    };
    proof {
        lemma_str_end_bounds(text@, i1b as int + 1);
    }
    if lit_at_exec(text, i2, "}") && len - i2 == 1 {
        FrameClass::Confirmation(JsonRpcResponse { jsonrpc, id, result })
    } else {
        FrameClass::Malformed
    }
}


/// A string in its JSON quotes.
pub open spec fn enc_quoted(s: Seq<char>) -> Seq<char> {
    seq!['"'] + s + seq!['"']
}

/// A comma-separated list of quoted strings.
pub open spec fn enc_str_list(l: Seq<Seq<char>>) -> Seq<char>
    decreases l.len(),
{
    if l.len() == 0 {
        Seq::empty()
    } else if l.len() == 1 {
        enc_quoted(l[0])
    } else {
        enc_str_list(l.drop_last()) + seq![','] + enc_quoted(l.last())
    }
}

/// The canonical frame of an outbound JSON-RPC request: `jsonrpc`, `id`,
/// `method` and, when present, the `params` list, in that order, with no
/// whitespace. The `params` key is left out entirely when there are none.
pub open spec fn enc_request(r: JsonRpcRequestView) -> Seq<char> {
    "{\"jsonrpc\":"@ + enc_quoted(r.jsonrpc) + ",\"id\":"@ + dec_str(r.id as nat)
        + ",\"method\":"@ + enc_quoted(r.method) + (match r.params {
        Some(ps) => ",\"params\":["@ + enc_str_list(ps) + "]"@,
        None => Seq::<char>::empty(),
    }) + "}"@
}

/// Appends `s` in JSON quotes.
fn push_quoted(out: &mut String, s: &str)
    ensures
        final(out)@ == old(out)@ + enc_quoted(s@),
{
    out.append("\"");
    out.append(s);
    out.append("\"");
    proof {
        reveal_strlit("\"");
        assert(out@ =~= old(out)@ + enc_quoted(s@));
    }
}

/// Extending a list by one element extends its encoding by the element in
/// quotes, after a comma when it is not the first.
proof fn lemma_enc_str_list_step(l: Seq<Seq<char>>, k: int)
    requires
        0 <= k < l.len(),
    ensures
        k == 0 ==> enc_str_list(l.take(1)) == enc_quoted(l[0]),
        k > 0 ==> enc_str_list(l.take(k + 1)) == enc_str_list(l.take(k)) + seq![','] + enc_quoted(
            l[k],
        ),
{
    assert(l.take(k + 1).drop_last() =~= l.take(k));
    assert(l.take(k + 1).last() == l[k]);
    if k == 0 {
        assert(l.take(1)[0] == l[0]);
    }
}

impl JsonRpcRequest {
    /// Serializes the request into its canonical frame.
    pub fn to_frame(&self) -> (r: String)
        ensures
            r@ == enc_request(self@),
    {
        let mut out = String::from_str("{\"jsonrpc\":");
        push_quoted(&mut out, self.jsonrpc.as_str());
        out.append(",\"id\":");
        let id_digits = crate::decimal::u64_to_dec(self.id);
        out.append(id_digits.as_str());
        out.append(",\"method\":");
        push_quoted(&mut out, self.method.as_str());
        match &self.params {
            Some(ps) => {
                out.append(",\"params\":[");
                let ghost base = out@;
                let ghost list = ps.deep_view();
                proof {
                    assert(list.take(0) =~= Seq::<Seq<char>>::empty());
                    assert(out@ =~= base + enc_str_list(list.take(0)));
                }
                let mut k: usize = 0;
                while k < ps.len()
                    invariant
                        0 <= k <= ps@.len(),
                        list == ps.deep_view(),
                        list.len() == ps@.len(),
                        out@ == base + enc_str_list(list.take(k as int)),
                    decreases ps@.len() - k,
                {
                    if k > 0 {
                        out.append(",");
                        proof {
                            reveal_strlit(",");
                        }
                    }
                    push_quoted(&mut out, ps[k].as_str());
                    proof {
                        lemma_enc_str_list_step(list, k as int);
                        assert(list[k as int] == ps@[k as int]@);
                        assert(out@ =~= base + enc_str_list(list.take(k as int + 1)));
                    }
                    k = k + 1;
                }
                out.append("]");
                proof {
                    assert(list.take(ps@.len() as int) =~= list);
                }
            },
            None => {},
        }
        out.append("}");
        proof {
            assert(out@ =~= enc_request(self@));
        }
        out
    }
}

/// The subscribe request sent right after connecting: protocol version
/// `2.0`, the given request id, method `subscribe`, and the `intents`
/// topic.
pub fn subscribe_frame(id: u64) -> (r: String)
    ensures
        r@ == enc_request(
            JsonRpcRequestView {
                jsonrpc: "2.0"@,
                id,
                method: "subscribe"@,
                params: Some(seq!["intents"@]),
            },
        ),
{
    let mut params: Vec<String> = Vec::new();
    params.push(String::from_str("intents"));
    let req = JsonRpcRequest {
        jsonrpc: String::from_str("2.0"),
        id,
        method: String::from_str("subscribe"),
        params: Some(params),
    };
    proof {
        assert(req@.params->Some_0 =~= seq!["intents"@]);
    }
    req.to_frame()
}


/// True when `s` holds no double quote, so it can stand inside a JSON
/// string without escaping.
pub open spec fn plain_str(s: Seq<char>) -> bool {
    forall|i: int| 0 <= i < s.len() ==> #[trigger] s[i] != '"'
}

/// True when `s` holds no insignificant whitespace, so stripping leaves
/// it unchanged.
pub open spec fn ws_free(s: Seq<char>) -> bool {
    forall|i: int| 0 <= i < s.len() ==> !is_ws(#[trigger] s[i])
}

/// True when `s` can stand between the quotes of a canonical frame: no
/// double quote and no insignificant whitespace.
pub open spec fn field_str(s: Seq<char>) -> bool {
    plain_str(s) && ws_free(s)
}

/// Stripping leaves a whitespace-free text unchanged, from any position
/// and in either state.
proof fn lemma_strip_ws_free_from(s: Seq<char>, i: int, in_str: bool)
    requires
        0 <= i <= s.len(),
        ws_free(s),
    ensures
        strip_ws_from(s, i, in_str) == s.subrange(i, s.len() as int),
    decreases s.len() - i,
{
    if i < s.len() {
        let next = if s[i] == '"' {
            !in_str
        } else {
            in_str
        };
        lemma_strip_ws_free_from(s, i + 1, next);
        assert(seq![s[i]] + s.subrange(i + 1, s.len() as int) =~= s.subrange(i, s.len() as int));
    } else {
        assert(s.subrange(i, s.len() as int) =~= Seq::<char>::empty());
    }
}

/// Stripping leaves a whitespace-free text unchanged.
pub proof fn lemma_strip_ws_free(s: Seq<char>)
    requires
        ws_free(s),
    ensures
        strip_ws(s) == s,
{
    lemma_strip_ws_free_from(s, 0, false);
    assert(s.subrange(0, s.len() as int) =~= s);
}

/// Whitespace-freeness is preserved by concatenation.
proof fn lemma_ws_free_concat(a: Seq<char>, b: Seq<char>)
    requires
        ws_free(a),
        ws_free(b),
    ensures
        ws_free(a + b),
{
    assert forall|i: int| 0 <= i < (a + b).len() implies !is_ws(#[trigger] (a + b)[i]) by {
        if i < a.len() {
            assert((a + b)[i] == a[i]);
        } else {
            assert((a + b)[i] == b[i - a.len()]);
        }
    }
}

/// A whitespace-free content in quotes is whitespace-free.
proof fn lemma_ws_free_quoted(f: Seq<char>)
    requires
        ws_free(f),
    ensures
        ws_free(enc_quoted(f)),
{
    assert forall|i: int|
        0 <= i < enc_quoted(f).len() implies !is_ws(#[trigger] enc_quoted(f)[i]) by {
        if 1 <= i < f.len() + 1 {
            assert(enc_quoted(f)[i] == f[i - 1]);
        }
    }
}

/// A rendered number is whitespace-free: it holds digits alone.
proof fn lemma_ws_free_dec(n: nat)
    ensures
        ws_free(dec_str(n)),
{
    lemma_dec_str_val(n);
    assert forall|i: int| 0 <= i < dec_str(n).len() implies !is_ws(#[trigger] dec_str(n)[i]) by {
        assert(is_digit(dec_str(n)[i]));
    }
}

/// The scan for a closing quote stops at the first one.
proof fn lemma_str_end_value(s: Seq<char>, i: int, j: int)
    requires
        0 <= i <= j < s.len(),
        s[j] == '"',
        forall|k: int| i <= k < j ==> #[trigger] s[k] != '"',
    ensures
        str_end(s, i) == j,
    decreases j - i,
{
    if i < j {
        lemma_str_end_value(s, i + 1, j);
    }
}

/// A quote-free content between two quotes is read back exactly.
proof fn lemma_qstr_at_value(s: Seq<char>, i: int, content: Seq<char>)
    requires
        0 <= i,
        i + content.len() + 2 <= s.len(),
        s[i] == '"',
        s[i + content.len() + 1] == '"',
        forall|k: int| 0 <= k < content.len() ==> s[i + 1 + k] == #[trigger] content[k],
        plain_str(content),
    ensures
        qstr_at(s, i) == Some((content, i + content.len() + 2)),
{
    assert forall|k: int| i + 1 <= k < i + content.len() + 1 implies s[k] != '"' by {
        assert(s[k] == content[k - i - 1]);
    }
    lemma_str_end_value(s, i + 1, i + content.len() + 1);
    assert(s.subrange(i + 1, i + content.len() + 1) =~= content);
}

/// The scan for the end of a digit run stops at the first non-digit.
proof fn lemma_num_end_value(s: Seq<char>, i: int, j: int)
    requires
        0 <= i <= j <= s.len(),
        forall|k: int| i <= k < j ==> is_digit(#[trigger] s[k]),
        j == s.len() || !is_digit(s[j]),
    ensures
        num_end(s, i) == j,
    decreases j - i,
{
    if i < j {
        lemma_num_end_value(s, i + 1, j);
    }
}

/// A digit character carries its digit's value.
proof fn lemma_digit_char_val(d: nat)
    requires
        d < 10,
    ensures
        is_digit(crate::decimal::digit_char(d)),
        crate::decimal::digit_val(crate::decimal::digit_char(d)) == d,
{
    assert(((48 + d) as u8) as int == 48 + d);
    assert((((48 + d) as u8) as char) as int == 48 + d);
}

/// A rendered number reads back to its value.
pub proof fn lemma_dec_str_val(n: nat)
    ensures
        dec_str(n).len() >= 1,
        crate::decimal::all_digits(dec_str(n)),
        digits_val(dec_str(n)) == n,
    decreases n,
{
    if n < 10 {
        lemma_digit_char_val(n);
        let s = dec_str(n);
        assert(s == seq![crate::decimal::digit_char(n)]);
        assert(s.len() == 1);
        assert(s.drop_last() =~= Seq::<char>::empty());
        assert(s.last() == crate::decimal::digit_char(n));
        assert(digits_val(s.drop_last()) == 0);
        assert(digits_val(s) == digits_val(s.drop_last()) * 10 + crate::decimal::digit_val(
            s.last(),
        ));
        assert(digits_val(s) == n);
    } else {
        lemma_dec_str_val(n / 10);
        lemma_digit_char_val(n % 10);
        assert(dec_str(n).drop_last() =~= dec_str(n / 10));
        assert(dec_str(n).last() == crate::decimal::digit_char(n % 10));
        assert(digits_val(dec_str(n)) == digits_val(dec_str(n / 10)) * 10 + crate::decimal::digit_val(
            dec_str(n).last(),
        ));
        assert(digits_val(dec_str(n)) == (n / 10) * 10 + (n % 10));
        assert((n / 10) * 10 + (n % 10) == n);
    }
}

/// A rendered number followed by a non-digit is read back exactly.
proof fn lemma_u64_at_value(s: Seq<char>, i: int, v: u64)
    requires
        0 <= i,
        i + dec_str(v as nat).len() <= s.len(),
        forall|k: int| 0 <= k < dec_str(v as nat).len() ==> s[i + k] == #[trigger] dec_str(
            v as nat,
        )[k],
        i + dec_str(v as nat).len() == s.len() || !is_digit(s[i + dec_str(v as nat).len()]),
    ensures
        u64_at(s, i) == Some((v, i + dec_str(v as nat).len())),
{
    lemma_dec_str_val(v as nat);
    let j = i + dec_str(v as nat).len();
    assert forall|k: int| i <= k < j implies is_digit(#[trigger] s[k]) by {
        assert(s[k] == dec_str(v as nat)[k - i]);
    }
    lemma_num_end_value(s, i, j);
    assert(s.subrange(i, j) =~= dec_str(v as nat));
}

/// The canonical frame of a subscription confirmation.
pub open spec fn enc_confirmation(r: JsonRpcResponseView) -> Seq<char> {
    "{\"jsonrpc\":"@ + enc_quoted(r.jsonrpc) + ",\"id\":"@ + dec_str(r.id as nat)
        + ",\"result\":"@ + enc_quoted(r.result) + "}"@
}

/// The opening of a canonical confirmation: the `jsonrpc` prefix, its
/// value, and the `id` discriminant, with the `method` one refuted.
proof fn lemma_conf_prefix(r: JsonRpcResponseView)
    requires
        plain_str(r.jsonrpc),
    ensures
        ({
            let s = enc_confirmation(r);
            let i0 = "{\"jsonrpc\":"@.len() as int;
            let i1 = i0 + r.jsonrpc.len() + 2;
            &&& lit_at(s, 0, "{\"jsonrpc\":"@)
            &&& qstr_at(s, i0) == Some((r.jsonrpc, i1))
            &&& !lit_at(s, i1, ",\"method\":"@)
            &&& lit_at(s, i1, ",\"id\":"@)
        }),
{
    let s = enc_confirmation(r);
    let p0 = "{\"jsonrpc\":"@;
    let q = enc_quoted(r.jsonrpc);
    let i0 = p0.len() as int;
    let i1 = i0 + r.jsonrpc.len() + 2;
    assert(s.subrange(0, i0) =~= p0);
    assert(s.subrange(i0, i0 + q.len()) =~= q);
    assert forall|k: int| 0 <= k < r.jsonrpc.len() implies s[i0 + 1 + k] == #[trigger] r.jsonrpc[k] by {
        assert(s[i0 + 1 + k] == q[1 + k]);
    }
    assert(s[i0] == q[0]);
    assert(s[i0 + r.jsonrpc.len() + 1] == q[r.jsonrpc.len() as int + 1]);
    lemma_qstr_at_value(s, i0, r.jsonrpc);
    let pid = ",\"id\":"@;
    assert(s.subrange(i1, i1 + pid.len()) =~= pid);
    assert(!lit_at(s, i1, ",\"method\":"@)) by {
        reveal_strlit(",\"method\":");
        reveal_strlit(",\"id\":");
        if lit_at(s, i1, ",\"method\":"@) {
            assert(s.subrange(i1, i1 + ",\"method\":"@.len() as int)[2] == s[i1 + 2]);
            assert(s.subrange(i1, i1 + pid.len())[2] == s[i1 + 2]);
        }
    }
}

/// The number of a canonical confirmation reads back to its id.
proof fn lemma_conf_number(r: JsonRpcResponseView)
    ensures
        ({
            let s = enc_confirmation(r);
            let d0 = "{\"jsonrpc\":"@.len() as int + r.jsonrpc.len() + 2 + ",\"id\":"@.len();
            let d1 = d0 + dec_str(r.id as nat).len();
            u64_at(s, d0) == Some((r.id, d1))
        }),
{
    let s = enc_confirmation(r);
    let d = dec_str(r.id as nat);
    let d0 = "{\"jsonrpc\":"@.len() as int + r.jsonrpc.len() + 2 + ",\"id\":"@.len();
    let d1 = d0 + d.len();
    lemma_dec_str_val(r.id as nat);
    assert(s.subrange(d0 as int, d1 as int) =~= d);
    assert forall|k: int| 0 <= k < d.len() implies s[d0 + k] == #[trigger] d[k] by {
        assert(s.subrange(d0 as int, d1 as int)[k] == s[d0 + k]);
    }
    let pres = ",\"result\":"@;
    reveal_strlit(",\"result\":");
    assert(s.subrange(d1 as int, d1 + pres.len()) =~= pres);
    assert(s[d1 as int] == pres[0]);
    assert(!is_digit(s[d1 as int]));
    lemma_u64_at_value(s, d0 as int, r.id);
}

/// The tail of a canonical confirmation: the `result` field and the
/// closing brace ending the frame.
proof fn lemma_conf_tail(r: JsonRpcResponseView)
    requires
        plain_str(r.result),
    ensures
        ({
            let s = enc_confirmation(r);
            let d1 = "{\"jsonrpc\":"@.len() as int + r.jsonrpc.len() + 2 + ",\"id\":"@.len()
                + dec_str(r.id as nat).len();
            let r0 = d1 + ",\"result\":"@.len();
            let i3 = r0 + r.result.len() + 2;
            &&& lit_at(s, d1 as int, ",\"result\":"@)
            &&& qstr_at(s, r0 as int) == Some((r.result, i3 as int))
            &&& lit_at(s, i3 as int, "}"@)
            &&& i3 + 1 == s.len()
        }),
{
    let s = enc_confirmation(r);
    let d1 = "{\"jsonrpc\":"@.len() as int + r.jsonrpc.len() + 2 + ",\"id\":"@.len() + dec_str(
        r.id as nat,
    ).len();
    let pres = ",\"result\":"@;
    let r0 = d1 + pres.len();
    let q = enc_quoted(r.result);
    let i3 = r0 + r.result.len() + 2;
    assert(s.subrange(d1 as int, r0 as int) =~= pres);
    assert(s.subrange(r0 as int, r0 + q.len()) =~= q);
    assert forall|k: int| 0 <= k < r.result.len() implies s[r0 + 1 + k] == #[trigger] r.result[k] by {
        assert(s[r0 + 1 + k] == q[1 + k]);
    }
    assert(s[r0 as int] == q[0]);
    assert(s[r0 + r.result.len() + 1] == q[r.result.len() as int + 1]);
    lemma_qstr_at_value(s, r0 as int, r.result);
    assert(s.subrange(i3 as int, i3 + "}"@.len()) =~= "}"@);
    reveal_strlit("}");
}

/// The canonical decode of a canonical confirmation.
#[verifier::rlimit(100)]
proof fn lemma_canonical_confirmation(r: JsonRpcResponseView)
    requires
        field_str(r.jsonrpc),
        field_str(r.result),
    ensures
        canonical_classify(enc_confirmation(r)) == FrameClassView::Confirmation(r),
{
    let s = enc_confirmation(r);
    let d0 = "{\"jsonrpc\":"@.len() as int + r.jsonrpc.len() + 2 + ",\"id\":"@.len();
    lemma_conf_prefix(r);
    lemma_conf_number(r);
    lemma_conf_tail(r);
    reveal_strlit("}");
    assert(canonical_classify(s) == confirm_frame_at(s, r.jsonrpc, d0 as int));
}

/// Decoding inverts encoding for confirmation frames: a canonical
/// confirmation whose string fields are quote-free and whitespace-free
/// classifies back as exactly that confirmation. In particular, a valid
/// confirmation is never taken for a malformed frame.
pub proof fn lemma_classify_confirmation(r: JsonRpcResponseView)
    requires
        field_str(r.jsonrpc),
        field_str(r.result),
    ensures
        spec_classify(enc_confirmation(r)) == FrameClassView::Confirmation(r),
{
    lemma_canonical_confirmation(r);
    lemma_ws_free_enc_confirmation(r);
    lemma_classify_ws_free(enc_confirmation(r));
}

/// A canonical confirmation of whitespace-free fields holds no
/// insignificant whitespace.
proof fn lemma_ws_free_enc_confirmation(r: JsonRpcResponseView)
    requires
        ws_free(r.jsonrpc),
        ws_free(r.result),
    ensures
        ws_free(enc_confirmation(r)),
{
    reveal_strlit("{\"jsonrpc\":");
    reveal_strlit(",\"id\":");
    reveal_strlit(",\"result\":");
    reveal_strlit("}");
    assert(ws_free("{\"jsonrpc\":"@));
    assert(ws_free(",\"id\":"@));
    assert(ws_free(",\"result\":"@));
    assert(ws_free("}"@));
    lemma_ws_free_quoted(r.jsonrpc);
    lemma_ws_free_quoted(r.result);
    lemma_ws_free_dec(r.id as nat);
    let p1 = "{\"jsonrpc\":"@ + enc_quoted(r.jsonrpc);
    lemma_ws_free_concat("{\"jsonrpc\":"@, enc_quoted(r.jsonrpc));
    let p2 = p1 + ",\"id\":"@;
    lemma_ws_free_concat(p1, ",\"id\":"@);
    let p3 = p2 + dec_str(r.id as nat);
    lemma_ws_free_concat(p2, dec_str(r.id as nat));
    let p4 = p3 + ",\"result\":"@;
    lemma_ws_free_concat(p3, ",\"result\":"@);
    let p5 = p4 + enc_quoted(r.result);
    lemma_ws_free_concat(p4, enc_quoted(r.result));
    lemma_ws_free_concat(p5, "}"@);
}


/// A subscription-style frame up to its subscription id, followed by an
/// arbitrary tail.
pub open spec fn enc_method_frame(
    jsonrpc: Seq<char>,
    method: Seq<char>,
    subscription: Seq<char>,
    tail: Seq<char>,
) -> Seq<char> {
    "{\"jsonrpc\":"@ + enc_quoted(jsonrpc) + ",\"method\":"@ + enc_quoted(method)
        + ",\"params\":{\"subscription\":"@ + enc_quoted(subscription) + tail
}

/// The canonical frame of a subscription-style envelope that carries no
/// intent.
pub open spec fn enc_envelope(jsonrpc: Seq<char>, method: Seq<char>, subscription: Seq<char>) -> Seq<
    char,
> {
    enc_method_frame(jsonrpc, method, subscription, "}}"@)
}

/// The opening of a canonical method frame: the `jsonrpc` prefix, its
/// value, and the `method` discriminant.
proof fn lemma_env_prefix(jr: Seq<char>, m: Seq<char>, sub: Seq<char>, tail: Seq<char>)
    requires
        plain_str(jr),
    ensures
        ({
            let s = enc_method_frame(jr, m, sub, tail);
            let i0 = "{\"jsonrpc\":"@.len() as int;
            let i1 = i0 + jr.len() + 2;
            &&& lit_at(s, 0, "{\"jsonrpc\":"@)
            &&& qstr_at(s, i0) == Some((jr, i1))
            &&& lit_at(s, i1, ",\"method\":"@)
        }),
{
    let s = enc_method_frame(jr, m, sub, tail);
    let p0 = "{\"jsonrpc\":"@;
    let q = enc_quoted(jr);
    let i0 = p0.len() as int;
    let i1 = i0 + jr.len() + 2;
    assert(s.subrange(0, i0) =~= p0);
    assert(s.subrange(i0, i0 + q.len()) =~= q);
    assert forall|k: int| 0 <= k < jr.len() implies s[i0 + 1 + k] == #[trigger] jr[k] by {
        assert(s[i0 + 1 + k] == q[1 + k]);
    }
    assert(s[i0] == q[0]);
    assert(s[i0 + jr.len() + 1] == q[jr.len() as int + 1]);
    lemma_qstr_at_value(s, i0, jr);
    assert(s.subrange(i1, i1 + ",\"method\":"@.len()) =~= ",\"method\":"@);
}

/// The middle of a canonical method frame: the method name and the
/// subscription key.
proof fn lemma_env_method(jr: Seq<char>, m: Seq<char>, sub: Seq<char>, tail: Seq<char>)
    requires
        plain_str(m),
    ensures
        ({
            let s = enc_method_frame(jr, m, sub, tail);
            let m0 = "{\"jsonrpc\":"@.len() as int + jr.len() + 2 + ",\"method\":"@.len();
            let i2 = m0 + m.len() + 2;
            &&& qstr_at(s, m0) == Some((m, i2))
            &&& lit_at(s, i2, ",\"params\":{\"subscription\":"@)
        }),
{
    let s = enc_method_frame(jr, m, sub, tail);
    let q = enc_quoted(m);
    let m0 = "{\"jsonrpc\":"@.len() as int + jr.len() + 2 + ",\"method\":"@.len();
    let i2 = m0 + m.len() + 2;
    assert(s.subrange(m0, m0 + q.len()) =~= q);
    assert forall|k: int| 0 <= k < m.len() implies s[m0 + 1 + k] == #[trigger] m[k] by {
        assert(s[m0 + 1 + k] == q[1 + k]);
    }
    assert(s[m0] == q[0]);
    assert(s[m0 + m.len() + 1] == q[m.len() as int + 1]);
    lemma_qstr_at_value(s, m0, m);
    let psub = ",\"params\":{\"subscription\":"@;
    assert(s.subrange(i2, i2 + psub.len()) =~= psub);
}

/// The subscription id of a canonical method frame, and what stands
/// after it.
proof fn lemma_env_sub(jr: Seq<char>, m: Seq<char>, sub: Seq<char>, tail: Seq<char>)
    requires
        plain_str(sub),
    ensures
        ({
            let s = enc_method_frame(jr, m, sub, tail);
            let s0 = "{\"jsonrpc\":"@.len() as int + jr.len() + 2 + ",\"method\":"@.len()
                + m.len() + 2 + ",\"params\":{\"subscription\":"@.len();
            let i4 = s0 + sub.len() + 2;
            &&& qstr_at(s, s0) == Some((sub, i4))
            &&& s.subrange(i4, s.len() as int) =~= tail
            &&& s.len() == i4 + tail.len()
        }),
{
    let s = enc_method_frame(jr, m, sub, tail);
    let q = enc_quoted(sub);
    let s0 = "{\"jsonrpc\":"@.len() as int + jr.len() + 2 + ",\"method\":"@.len() + m.len() + 2
        + ",\"params\":{\"subscription\":"@.len();
    let i4 = s0 + sub.len() + 2;
    assert(s.subrange(s0, s0 + q.len()) =~= q);
    assert forall|k: int| 0 <= k < sub.len() implies s[s0 + 1 + k] == #[trigger] sub[k] by {
        assert(s[s0 + 1 + k] == q[1 + k]);
    }
    assert(s[s0] == q[0]);
    assert(s[s0 + sub.len() + 1] == q[sub.len() as int + 1]);
    lemma_qstr_at_value(s, s0, sub);
    assert(s.subrange(i4, s.len() as int) =~= tail);
}

/// The canonical decode of a canonical envelope.
#[verifier::rlimit(100)]
proof fn lemma_canonical_envelope(jr: Seq<char>, m: Seq<char>, sub: Seq<char>)
    requires
        field_str(jr),
        field_str(m),
        field_str(sub),
    ensures
        canonical_classify(enc_envelope(jr, m, sub)) == FrameClassView::Envelope(
            SolverBusMessageView {
                jsonrpc: jr,
                method: m,
                params: SolverBusParamsView { subscription: sub, intent: None },
            },
        ),
{
    let s = enc_envelope(jr, m, sub);
    let i1 = "{\"jsonrpc\":"@.len() as int + jr.len() + 2;
    let m0 = i1 + ",\"method\":"@.len();
    let i4 = m0 + m.len() + 2 + ",\"params\":{\"subscription\":"@.len() + sub.len() + 2;
    lemma_env_prefix(jr, m, sub, "}}"@);
    lemma_env_method(jr, m, sub, "}}"@);
    lemma_env_sub(jr, m, sub, "}}"@);
    reveal_strlit("}}");
    assert(lit_at(s, i4, "}}"@)) by {
        assert(s.subrange(i4, s.len() as int) == "}}"@);
    }
    assert(canonical_classify(s) == method_frame_at(s, jr, m0));
}

/// A canonical envelope of whitespace-free fields holds no insignificant
/// whitespace.
proof fn lemma_ws_free_enc_envelope(jr: Seq<char>, m: Seq<char>, sub: Seq<char>)
    requires
        ws_free(jr),
        ws_free(m),
        ws_free(sub),
    ensures
        ws_free(enc_envelope(jr, m, sub)),
{
    reveal_strlit("}}");
    assert(ws_free("}}"@));
    lemma_ws_free_enc_method_frame(jr, m, sub, "}}"@);
}

/// Decoding inverts encoding for subscription-style envelopes without an
/// embedded intent: a canonical envelope whose string fields are
/// quote-free and whitespace-free classifies back as exactly that
/// envelope.
pub proof fn lemma_classify_envelope(jr: Seq<char>, m: Seq<char>, sub: Seq<char>)
    requires
        field_str(jr),
        field_str(m),
        field_str(sub),
    ensures
        spec_classify(enc_envelope(jr, m, sub)) == FrameClassView::Envelope(
            SolverBusMessageView {
                jsonrpc: jr,
                method: m,
                params: SolverBusParamsView { subscription: sub, intent: None },
            },
        ),
{
    lemma_canonical_envelope(jr, m, sub);
    lemma_ws_free_enc_envelope(jr, m, sub);
    lemma_classify_ws_free(enc_envelope(jr, m, sub));
}

/// A canonical method frame of whitespace-free fields over a
/// whitespace-free tail holds no insignificant whitespace.
proof fn lemma_ws_free_enc_method_frame(
    jr: Seq<char>,
    m: Seq<char>,
    sub: Seq<char>,
    tail: Seq<char>,
)
    requires
        ws_free(jr),
        ws_free(m),
        ws_free(sub),
        ws_free(tail),
    ensures
        ws_free(enc_method_frame(jr, m, sub, tail)),
{
    reveal_strlit("{\"jsonrpc\":");
    reveal_strlit(",\"method\":");
    reveal_strlit(",\"params\":{\"subscription\":");
    assert(ws_free("{\"jsonrpc\":"@));
    assert(ws_free(",\"method\":"@));
    assert(ws_free(",\"params\":{\"subscription\":"@));
    lemma_ws_free_quoted(jr);
    lemma_ws_free_quoted(m);
    lemma_ws_free_quoted(sub);
    let p1 = "{\"jsonrpc\":"@ + enc_quoted(jr);
    lemma_ws_free_concat("{\"jsonrpc\":"@, enc_quoted(jr));
    let p2 = p1 + ",\"method\":"@;
    lemma_ws_free_concat(p1, ",\"method\":"@);
    let p3 = p2 + enc_quoted(m);
    lemma_ws_free_concat(p2, enc_quoted(m));
    let p4 = p3 + ",\"params\":{\"subscription\":"@;
    lemma_ws_free_concat(p3, ",\"params\":{\"subscription\":"@);
    let p5 = p4 + enc_quoted(sub);
    lemma_ws_free_concat(p4, enc_quoted(sub));
    lemma_ws_free_concat(p5, tail);
}

/// A canonical token object of whitespace-free fields holds no
/// insignificant whitespace.
proof fn lemma_ws_free_enc_token(t: TokenView)
    requires
        ws_free(t.symbol),
        ws_free(t.address),
    ensures
        ws_free(enc_token(t)),
{
    reveal_strlit("{\"symbol\":");
    reveal_strlit(",\"address\":");
    reveal_strlit(",\"decimals\":");
    reveal_strlit("}");
    assert(ws_free("{\"symbol\":"@));
    assert(ws_free(",\"address\":"@));
    assert(ws_free(",\"decimals\":"@));
    assert(ws_free("}"@));
    lemma_ws_free_quoted(t.symbol);
    lemma_ws_free_quoted(t.address);
    lemma_ws_free_dec(t.decimals as nat);
    let p1 = "{\"symbol\":"@ + enc_quoted(t.symbol);
    lemma_ws_free_concat("{\"symbol\":"@, enc_quoted(t.symbol));
    let p2 = p1 + ",\"address\":"@;
    lemma_ws_free_concat(p1, ",\"address\":"@);
    let p3 = p2 + enc_quoted(t.address);
    lemma_ws_free_concat(p2, enc_quoted(t.address));
    let p4 = p3 + ",\"decimals\":"@;
    lemma_ws_free_concat(p3, ",\"decimals\":"@);
    let p5 = p4 + dec_str(t.decimals as nat);
    lemma_ws_free_concat(p4, dec_str(t.decimals as nat));
    lemma_ws_free_concat(p5, "}"@);
}

/// Canonical intent fields of whitespace-free values hold no
/// insignificant whitespace.
proof fn lemma_ws_free_enc_intent(iv: SwapIntentView)
    requires
        plain_intent(iv),
    ensures
        ws_free(enc_intent_fields(iv)),
{
    reveal_strlit(",\"id\":");
    reveal_strlit(",\"from_token\":");
    reveal_strlit(",\"to_token\":");
    reveal_strlit(",\"amount\":");
    reveal_strlit(",\"min_amount_out\":");
    reveal_strlit(",\"deadline\":");
    assert(ws_free(",\"id\":"@));
    assert(ws_free(",\"from_token\":"@));
    assert(ws_free(",\"to_token\":"@));
    assert(ws_free(",\"amount\":"@));
    assert(ws_free(",\"min_amount_out\":"@));
    assert(ws_free(",\"deadline\":"@));
    lemma_ws_free_quoted(iv.id);
    lemma_ws_free_quoted(iv.amount);
    lemma_ws_free_quoted(iv.min_amount_out);
    lemma_ws_free_enc_token(iv.from_token);
    lemma_ws_free_enc_token(iv.to_token);
    lemma_ws_free_dec(iv.deadline as nat);
    let p1 = ",\"id\":"@ + enc_quoted(iv.id);
    lemma_ws_free_concat(",\"id\":"@, enc_quoted(iv.id));
    let p2 = p1 + ",\"from_token\":"@;
    lemma_ws_free_concat(p1, ",\"from_token\":"@);
    let p3 = p2 + enc_token(iv.from_token);
    lemma_ws_free_concat(p2, enc_token(iv.from_token));
    let p4 = p3 + ",\"to_token\":"@;
    lemma_ws_free_concat(p3, ",\"to_token\":"@);
    let p5 = p4 + enc_token(iv.to_token);
    lemma_ws_free_concat(p4, enc_token(iv.to_token));
    let p6 = p5 + ",\"amount\":"@;
    lemma_ws_free_concat(p5, ",\"amount\":"@);
    let p7 = p6 + enc_quoted(iv.amount);
    lemma_ws_free_concat(p6, enc_quoted(iv.amount));
    let p8 = p7 + ",\"min_amount_out\":"@;
    lemma_ws_free_concat(p7, ",\"min_amount_out\":"@);
    let p9 = p8 + enc_quoted(iv.min_amount_out);
    lemma_ws_free_concat(p8, enc_quoted(iv.min_amount_out));
    let p10 = p9 + ",\"deadline\":"@;
    lemma_ws_free_concat(p9, ",\"deadline\":"@);
    lemma_ws_free_concat(p10, dec_str(iv.deadline as nat));
}


/// The canonical encoding of a token object.
pub open spec fn enc_token(t: TokenView) -> Seq<char> {
    "{\"symbol\":"@ + enc_quoted(t.symbol) + ",\"address\":"@ + enc_quoted(t.address)
        + ",\"decimals\":"@ + dec_str(t.decimals as nat) + "}"@
}

/// The canonical encoding of the flattened intent fields, as they follow
/// the subscription id inside an envelope's parameters.
pub open spec fn enc_intent_fields(iv: SwapIntentView) -> Seq<char> {
    ",\"id\":"@ + enc_quoted(iv.id) + ",\"from_token\":"@ + enc_token(iv.from_token)
        + ",\"to_token\":"@ + enc_token(iv.to_token) + ",\"amount\":"@ + enc_quoted(iv.amount)
        + ",\"min_amount_out\":"@ + enc_quoted(iv.min_amount_out) + ",\"deadline\":"@ + dec_str(
        iv.deadline as nat,
    )
}

/// True when every string field of the token is quote-free and
/// whitespace-free.
pub open spec fn plain_token(t: TokenView) -> bool {
    field_str(t.symbol) && field_str(t.address)
}

/// True when every string field of the intent is quote-free and
/// whitespace-free.
pub open spec fn plain_intent(iv: SwapIntentView) -> bool {
    &&& field_str(iv.id)
    &&& plain_token(iv.from_token)
    &&& plain_token(iv.to_token)
    &&& field_str(iv.amount)
    &&& field_str(iv.min_amount_out)
}

/// A canonical token object laid down at a position reads back exactly.
#[verifier::rlimit(100)]
proof fn lemma_token_at_enc(s: Seq<char>, i: int, t: TokenView)
    requires
        0 <= i,
        i + enc_token(t).len() <= s.len(),
        s.subrange(i, i + enc_token(t).len() as int) == enc_token(t),
        plain_token(t),
    ensures
        token_at(s, i) == Some((t, i + enc_token(t).len())),
{
    let e = enc_token(t);
    let d = dec_str(t.decimals as nat);
    lemma_dec_str_val(t.decimals as nat);
    let a0 = "{\"symbol\":"@.len() as int;
    let a1 = a0 + t.symbol.len() + 2;
    let a2 = a1 + ",\"address\":"@.len();
    let a3 = a2 + t.address.len() + 2;
    let a4 = a3 + ",\"decimals\":"@.len();
    let a5 = a4 + d.len();
    reveal_strlit("}");
    assert(e.len() == a5 + 1);
    assert forall|k: int| 0 <= k < e.len() implies s[i + k] == #[trigger] e[k] by {
        assert(s.subrange(i, i + e.len() as int)[k] == s[i + k]);
    }
    assert(s.subrange(i + 0, i + a0) =~= "{\"symbol\":"@) by {
        assert forall|k: int| 0 <= k < "{\"symbol\":"@.len() implies s.subrange(i + 0, i + a0)[k]
            == #[trigger] "{\"symbol\":"@[k] by {
            assert(s[i + 0 + k] == e[0 + k]);
        }
    }
    let qs = enc_quoted(t.symbol);
    assert forall|k: int| 0 <= k < t.symbol.len() implies s[i + a0 + 1 + k] == #[trigger] t.symbol[k] by {
        assert(e[a0 + 1 + k] == qs[1 + k]);
    }
    assert(s[i + a0] == e[a0]);
    assert(e[a0] == qs[0]);
    assert(s[i + a0 + t.symbol.len() + 1] == e[a0 + t.symbol.len() + 1]);
    assert(e[a0 + t.symbol.len() + 1] == qs[t.symbol.len() as int + 1]);
    lemma_qstr_at_value(s, i + a0, t.symbol);
    assert(s.subrange(i + a1, i + a2) =~= ",\"address\":"@) by {
        assert forall|k: int| 0 <= k < ",\"address\":"@.len() implies s.subrange(i + a1, i + a2)[k]
            == #[trigger] ",\"address\":"@[k] by {
            assert(s[i + a1 + k] == e[a1 + k]);
        }
    }
    let qa = enc_quoted(t.address);
    assert forall|k: int| 0 <= k < t.address.len() implies s[i + a2 + 1 + k] == #[trigger] t.address[k]
        by {
        assert(e[a2 + 1 + k] == qa[1 + k]);
    }
    assert(s[i + a2] == e[a2]);
    assert(e[a2] == qa[0]);
    assert(s[i + a2 + t.address.len() + 1] == e[a2 + t.address.len() + 1]);
    assert(e[a2 + t.address.len() + 1] == qa[t.address.len() as int + 1]);
    lemma_qstr_at_value(s, i + a2, t.address);
    assert(s.subrange(i + a3, i + a4) =~= ",\"decimals\":"@) by {
        assert forall|k: int| 0 <= k < ",\"decimals\":"@.len() implies s.subrange(i + a3, i + a4)[k]
            == #[trigger] ",\"decimals\":"@[k] by {
            assert(s[i + a3 + k] == e[a3 + k]);
        }
    }
    assert forall|k: int| 0 <= k < d.len() implies s[i + a4 + k] == #[trigger] d[k] by {
        assert(e[a4 + k] == d[k]);
    }
    assert(s[i + a5] == e[a5]);
    assert(e[a5] == '}');
    assert(!is_digit(s[i + a5]));
    lemma_u64_at_value(s, i + a4, t.decimals as u64);
    assert(s.subrange(i + a5, i + a5 + 1) =~= "}"@) by {
        assert forall|k: int| 0 <= k < "}"@.len() implies s.subrange(i + a5, i + a5 + 1)[k]
            == #[trigger] "}"@[k] by {
            assert(s[i + a5 + k] == e[a5 + k]);
        }
    }
    assert(token_at(s, i) == Some((t, i + e.len())));
}

/// Canonical intent fields laid down at a position, followed by a
/// non-digit, read back exactly.
#[verifier::rlimit(100)]
proof fn lemma_intent_at_enc(s: Seq<char>, i: int, iv: SwapIntentView)
    requires
        0 <= i,
        i + enc_intent_fields(iv).len() <= s.len(),
        s.subrange(i, i + enc_intent_fields(iv).len() as int) == enc_intent_fields(iv),
        i + enc_intent_fields(iv).len() == s.len() || !is_digit(
            s[i + enc_intent_fields(iv).len()],
        ),
        plain_intent(iv),
    ensures
        intent_at(s, i) == Some((iv, i + enc_intent_fields(iv).len())),
{
    let e = enc_intent_fields(iv);
    let d = dec_str(iv.deadline as nat);
    lemma_dec_str_val(iv.deadline as nat);
    let b0 = ",\"id\":"@.len() as int;
    let b1 = b0 + iv.id.len() + 2;
    let b2 = b1 + ",\"from_token\":"@.len();
    let b3 = b2 + enc_token(iv.from_token).len();
    let b4 = b3 + ",\"to_token\":"@.len();
    let b5 = b4 + enc_token(iv.to_token).len();
    let b6 = b5 + ",\"amount\":"@.len();
    let b7 = b6 + iv.amount.len() + 2;
    let b8 = b7 + ",\"min_amount_out\":"@.len();
    let b9 = b8 + iv.min_amount_out.len() + 2;
    let b10 = b9 + ",\"deadline\":"@.len();
    let b11 = b10 + d.len();
    assert(e.len() == b11);
    assert forall|k: int| 0 <= k < e.len() implies s[i + k] == #[trigger] e[k] by {
        assert(s.subrange(i, i + e.len() as int)[k] == s[i + k]);
    }
    assert(s.subrange(i + 0, i + b0) =~= ",\"id\":"@) by {
        assert forall|k: int| 0 <= k < ",\"id\":"@.len() implies s.subrange(i + 0, i + b0)[k]
            == #[trigger] ",\"id\":"@[k] by {
            assert(s[i + 0 + k] == e[0 + k]);
        }
    }
    let qi = enc_quoted(iv.id);
    assert forall|k: int| 0 <= k < iv.id.len() implies s[i + b0 + 1 + k] == #[trigger] iv.id[k] by {
        assert(e[b0 + 1 + k] == qi[1 + k]);
    }
    assert(s[i + b0] == e[b0]);
    assert(e[b0] == qi[0]);
    assert(s[i + b0 + iv.id.len() + 1] == e[b0 + iv.id.len() + 1]);
    assert(e[b0 + iv.id.len() + 1] == qi[iv.id.len() as int + 1]);
    lemma_qstr_at_value(s, i + b0, iv.id);
    assert(s.subrange(i + b1, i + b2) =~= ",\"from_token\":"@) by {
        assert forall|k: int| 0 <= k < ",\"from_token\":"@.len() implies s.subrange(i + b1, i + b2)[k]
            == #[trigger] ",\"from_token\":"@[k] by {
            assert(s[i + b1 + k] == e[b1 + k]);
        }
    }
    assert(s.subrange(i + b2, i + b3) =~= enc_token(iv.from_token)) by {
        assert forall|k: int| 0 <= k < enc_token(iv.from_token).len() implies s.subrange(i + b2, i + b3)[k]
            == #[trigger] enc_token(iv.from_token)[k] by {
            assert(s[i + b2 + k] == e[b2 + k]);
        }
    }
    lemma_token_at_enc(s, i + b2, iv.from_token);
    assert(s.subrange(i + b3, i + b4) =~= ",\"to_token\":"@) by {
        assert forall|k: int| 0 <= k < ",\"to_token\":"@.len() implies s.subrange(i + b3, i + b4)[k]
            == #[trigger] ",\"to_token\":"@[k] by {
            assert(s[i + b3 + k] == e[b3 + k]);
        }
    }
    assert(s.subrange(i + b4, i + b5) =~= enc_token(iv.to_token)) by {
        assert forall|k: int| 0 <= k < enc_token(iv.to_token).len() implies s.subrange(i + b4, i + b5)[k]
            == #[trigger] enc_token(iv.to_token)[k] by {
            assert(s[i + b4 + k] == e[b4 + k]);
        }
    }
    lemma_token_at_enc(s, i + b4, iv.to_token);
    assert(s.subrange(i + b5, i + b6) =~= ",\"amount\":"@) by {
        assert forall|k: int| 0 <= k < ",\"amount\":"@.len() implies s.subrange(i + b5, i + b6)[k]
            == #[trigger] ",\"amount\":"@[k] by {
            assert(s[i + b5 + k] == e[b5 + k]);
        }
    }
    let qa = enc_quoted(iv.amount);
    assert forall|k: int| 0 <= k < iv.amount.len() implies s[i + b6 + 1 + k] == #[trigger] iv.amount[k]
        by {
        assert(e[b6 + 1 + k] == qa[1 + k]);
    }
    assert(s[i + b6] == e[b6]);
    assert(e[b6] == qa[0]);
    assert(s[i + b6 + iv.amount.len() + 1] == e[b6 + iv.amount.len() + 1]);
    assert(e[b6 + iv.amount.len() + 1] == qa[iv.amount.len() as int + 1]);
    lemma_qstr_at_value(s, i + b6, iv.amount);
    assert(s.subrange(i + b7, i + b8) =~= ",\"min_amount_out\":"@) by {
        assert forall|k: int| 0 <= k < ",\"min_amount_out\":"@.len() implies s.subrange(i + b7, i + b8)[k]
            == #[trigger] ",\"min_amount_out\":"@[k] by {
            assert(s[i + b7 + k] == e[b7 + k]);
        }
    }
    let qm = enc_quoted(iv.min_amount_out);
    assert forall|k: int|
        0 <= k < iv.min_amount_out.len() implies s[i + b8 + 1 + k] == #[trigger] iv.min_amount_out[k]
        by {
        assert(e[b8 + 1 + k] == qm[1 + k]);
    }
    assert(s[i + b8] == e[b8]);
    assert(e[b8] == qm[0]);
    assert(s[i + b8 + iv.min_amount_out.len() + 1] == e[b8 + iv.min_amount_out.len() + 1]);
    assert(e[b8 + iv.min_amount_out.len() + 1] == qm[iv.min_amount_out.len() as int + 1]);
    lemma_qstr_at_value(s, i + b8, iv.min_amount_out);
    assert(s.subrange(i + b9, i + b10) =~= ",\"deadline\":"@) by {
        assert forall|k: int| 0 <= k < ",\"deadline\":"@.len() implies s.subrange(i + b9, i + b10)[k]
            == #[trigger] ",\"deadline\":"@[k] by {
            assert(s[i + b9 + k] == e[b9 + k]);
        }
    }
    assert forall|k: int| 0 <= k < d.len() implies s[i + b10 + k] == #[trigger] d[k] by {
        assert(e[b10 + k] == d[k]);
    }
    lemma_u64_at_value(s, i + b10, iv.deadline);
    assert(intent_at(s, i) == Some((iv, i + e.len())));
}

/// The canonical frame of an intent notification.
pub open spec fn enc_notification(
    jsonrpc: Seq<char>,
    method: Seq<char>,
    subscription: Seq<char>,
    iv: SwapIntentView,
) -> Seq<char> {
    enc_method_frame(jsonrpc, method, subscription, enc_intent_fields(iv) + "}}"@)
}

/// The canonical decode of a canonical notification.
#[verifier::rlimit(100)]
proof fn lemma_canonical_notification(
    jr: Seq<char>,
    m: Seq<char>,
    sub: Seq<char>,
    iv: SwapIntentView,
)
    requires
        field_str(jr),
        field_str(m),
        field_str(sub),
        plain_intent(iv),
    ensures
        canonical_classify(enc_notification(jr, m, sub, iv)) == FrameClassView::Envelope(
            SolverBusMessageView {
                jsonrpc: jr,
                method: m,
                params: SolverBusParamsView { subscription: sub, intent: Some(iv) },
            },
        ),
{
    let tail = enc_intent_fields(iv) + "}}"@;
    let s = enc_notification(jr, m, sub, iv);
    let i1 = "{\"jsonrpc\":"@.len() as int + jr.len() + 2;
    let m0 = i1 + ",\"method\":"@.len();
    lemma_env_prefix(jr, m, sub, tail);
    lemma_env_method(jr, m, sub, tail);
    lemma_env_sub(jr, m, sub, tail);
    lemma_notification_tail(jr, m, sub, iv);
    assert(canonical_classify(s) == method_frame_at(s, jr, m0));
}

/// The intent tail of a canonical notification reads back exactly: it is
/// no empty-parameter close, and its fields decode to the intent.
#[verifier::rlimit(100)]
proof fn lemma_notification_tail(jr: Seq<char>, m: Seq<char>, sub: Seq<char>, iv: SwapIntentView)
    requires
        field_str(jr),
        field_str(m),
        field_str(sub),
        plain_intent(iv),
    ensures
        ({
            let s = enc_notification(jr, m, sub, iv);
            let e = enc_intent_fields(iv);
            let i4 = "{\"jsonrpc\":"@.len() as int + jr.len() + 2 + ",\"method\":"@.len()
                + m.len() + 2 + ",\"params\":{\"subscription\":"@.len() + sub.len() + 2;
            &&& !lit_at(s, i4, "}}"@)
            &&& intent_at(s, i4) == Some((iv, i4 + e.len()))
            &&& lit_at(s, i4 + e.len(), "}}"@)
            &&& i4 + e.len() + 2 == s.len()
        }),
{
    let tail = enc_intent_fields(iv) + "}}"@;
    let s = enc_notification(jr, m, sub, iv);
    let e = enc_intent_fields(iv);
    let i1 = "{\"jsonrpc\":"@.len() as int + jr.len() + 2;
    let m0 = i1 + ",\"method\":"@.len();
    let i4 = m0 + m.len() + 2 + ",\"params\":{\"subscription\":"@.len() + sub.len() + 2;
    lemma_env_sub(jr, m, sub, tail);
    reveal_strlit("}}");
    reveal_strlit(",\"id\":");
    assert forall|k: int| 0 <= k < tail.len() implies s[i4 + k] == #[trigger] tail[k] by {
        assert(s.subrange(i4, s.len() as int)[k] == s[i4 + k]);
    }
    assert(e.len() >= 1) by {
        assert(e[0] == ",\"id\":"@[0]);
    }
    assert(s[i4] == ',');
    assert(!lit_at(s, i4, "}}"@)) by {
        if lit_at(s, i4, "}}"@) {
            assert(s.subrange(i4, i4 + "}}"@.len() as int)[0] == s[i4]);
        }
    }
    assert(s.subrange(i4, i4 + e.len() as int) =~= e) by {
        assert forall|k: int| 0 <= k < e.len() implies s.subrange(i4, i4 + e.len() as int)[k]
            == #[trigger] e[k] by {
            assert(s[i4 + k] == tail[k]);
        }
    }
    assert(s[i4 + e.len()] == tail[e.len() as int]);
    assert(!is_digit(s[i4 + e.len()]));
    lemma_intent_at_enc(s, i4, iv);
    assert(lit_at(s, i4 + e.len(), "}}"@)) by {
        assert(s.subrange(i4 + e.len(), i4 + e.len() + 2) =~= "}}"@) by {
            assert(s[i4 + e.len()] == tail[e.len() as int]);
            assert(s[i4 + e.len() + 1] == tail[e.len() as int + 1]);
            assert(s.subrange(i4 + e.len(), i4 + e.len() + 2)[0] == s[i4 + e.len()]);
            assert(s.subrange(i4 + e.len(), i4 + e.len() + 2)[1] == s[i4 + e.len() + 1]);
        }
    }
}

/// Decoding inverts encoding for intent notifications: a canonical
/// envelope with a flattened intent, all string fields quote-free and
/// whitespace-free, classifies back as exactly that envelope carrying
/// that intent. So a valid notification is never taken for malformed,
/// and the router dispatches exactly the intent the bus sent.
#[verifier::rlimit(100)]
pub proof fn lemma_classify_notification(
    jr: Seq<char>,
    m: Seq<char>,
    sub: Seq<char>,
    iv: SwapIntentView,
)
    requires
        field_str(jr),
        field_str(m),
        field_str(sub),
        plain_intent(iv),
    ensures
        spec_classify(enc_notification(jr, m, sub, iv)) == FrameClassView::Envelope(
            SolverBusMessageView {
                jsonrpc: jr,
                method: m,
                params: SolverBusParamsView { subscription: sub, intent: Some(iv) },
            },
        ),
{
    lemma_canonical_notification(jr, m, sub, iv);
    lemma_ws_free_enc_notification(jr, m, sub, iv);
    lemma_classify_ws_free(enc_notification(jr, m, sub, iv));
}

/// On a whitespace-free text the lenient and the canonical decode agree.
pub proof fn lemma_classify_ws_free(s: Seq<char>)
    requires
        ws_free(s),
    ensures
        spec_classify(s) == canonical_classify(s),
{
    lemma_strip_ws_free(s);
}

/// A canonical notification of whitespace-free fields holds no
/// insignificant whitespace.
proof fn lemma_ws_free_enc_notification(
    jr: Seq<char>,
    m: Seq<char>,
    sub: Seq<char>,
    iv: SwapIntentView,
)
    requires
        ws_free(jr),
        ws_free(m),
        ws_free(sub),
        plain_intent(iv),
    ensures
        ws_free(enc_notification(jr, m, sub, iv)),
{
    let tail = enc_intent_fields(iv) + "}}"@;
    reveal_strlit("}}");
    assert(ws_free("}}"@));
    lemma_ws_free_enc_intent(iv);
    lemma_ws_free_concat(enc_intent_fields(iv), "}}"@);
    lemma_ws_free_enc_method_frame(jr, m, sub, tail);
}

} // verus!
