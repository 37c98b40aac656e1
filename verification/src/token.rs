//! The editor's access token: base64url without padding, and the `sub` claim of its JWT payload.

use vstd::prelude::*;
use vstd::string::StringSliceAdditionalSpecFns;
use crate::json::{Json, JsonView};

verus! {

/// The 6-bit value of a base64url alphabet byte (`A-Z a-z 0-9 - _`).
pub open spec fn b64url_value(b: u8) -> Option<u8> {
    if 65 <= b <= 90 {
        Some((b - 65) as u8)
    } else if 97 <= b <= 122 {
        Some((b - 97 + 26) as u8)
    } else if 48 <= b <= 57 {
        Some((b - 48 + 52) as u8)
    } else if b == 45 {
        Some(62u8)
    } else if b == 95 {
        Some(63u8)
    } else {
        None
    }
}

/// `s` without its trailing `=` bytes.
pub open spec fn trim_padding(s: Seq<u8>) -> Seq<u8>
    decreases s.len(),
{
    if s.len() > 0 && s[s.len() - 1] == 61 {
        trim_padding(s.subrange(0, s.len() - 1))
    } else {
        s
    }
}

pub open spec fn all_in_alphabet(g: Seq<u8>) -> bool {
    forall|j: int| 0 <= j < g.len() ==> (#[trigger] b64url_value(g[j])) is Some
}

pub open spec fn sextet(g: Seq<u8>, j: int) -> int {
    if 0 <= j < g.len() {
        b64url_value(g[j])->0 as int
    } else {
        0
    }
}

/// The bytes that a group of 2 to 4 alphabet characters carries: one byte for two
/// characters, two for three, three for four.
pub open spec fn group_bytes(g: Seq<u8>) -> Seq<u8> {
    let v0 = sextet(g, 0);
    let v1 = sextet(g, 1);
    let v2 = sextet(g, 2);
    let v3 = sextet(g, 3);
    let b0 = (v0 * 4 + v1 / 16) as u8;
    let b1 = ((v1 % 16) * 16 + v2 / 4) as u8;
    let b2 = ((v2 % 4) * 64 + v3) as u8;
    if g.len() == 2 {
        seq![b0]
    } else if g.len() == 3 {
        seq![b0, b1]
    } else {
        seq![b0, b1, b2]
    }
}

/// Decodes groups of four characters, the last of which may hold two or three;
/// nothing when a lone character is left over or a byte is outside the alphabet.
pub open spec fn b64url_groups(s: Seq<u8>) -> Option<Seq<u8>>
    decreases s.len(),
{
    if s.len() == 0 {
        Some(Seq::empty())
    } else if s.len() < 2 {
        None
    } else {
        let n: int = if s.len() < 4 { s.len() as int } else { 4 };
        let g = s.subrange(0, n);
        if !all_in_alphabet(g) {
            None
        } else {
            match b64url_groups(s.subrange(n, s.len() as int)) {
                Some(rest) => Some(group_bytes(g) + rest),
                None => None,
            }
        }
    }
}

/// Base64url decoding of the text whose UTF-8 bytes are `s`, after dropping trailing `=`.
pub open spec fn b64url_decoded(s: Seq<u8>) -> Option<Seq<u8>> {
    b64url_groups(trim_padding(s))
}

fn sextet_of(b: u8) -> (r: Option<u8>)
    ensures
        r == b64url_value(b),
{
    if 65 <= b && b <= 90 {
        Some(b - 65)
    } else if 97 <= b && b <= 122 {
        Some(b - 97 + 26)
    } else if 48 <= b && b <= 57 {
        Some(b - 48 + 52)
    } else if b == 45 {
        Some(62)
    } else if b == 95 {
        Some(63)
    } else {
        None
    }
}

pub open spec fn then_prefix(p: Seq<u8>, o: Option<Seq<u8>>) -> Option<Seq<u8>> {
    match o {
        Some(r) => Some(p + r),
        None => None,
    }
}

proof fn lemma_trim_prefix(s: Seq<u8>, end: int)
    requires
        0 <= end <= s.len(),
        forall|k: int| end <= k < s.len() ==> s[k] == 61,
    ensures
        trim_padding(s) == trim_padding(s.subrange(0, end)),
    decreases s.len() - end,
{
    if end < s.len() {
        let t = s.subrange(0, s.len() - 1);
        assert(t.subrange(0, end) =~= s.subrange(0, end));
        lemma_trim_prefix(t, end);
    } else {
        assert(s.subrange(0, end) =~= s);
    }
}

/// Base64url without padding, enough to open a JWT payload: decodes the bytes of `s`
/// once trailing `=` are dropped.
pub fn b64url_decode_bytes(s: &[u8]) -> (r: Option<Vec<u8>>)
    ensures
        match r {
            Some(v) => b64url_decoded(s@) == Some(v@),
            None => b64url_decoded(s@) is None,
        },
{
    let mut end: usize = s.len();
    while end > 0 && s[end - 1] == 61
        invariant
            end <= s@.len(),
            forall|k: int| end <= k < s@.len() ==> s@[k] == 61,
        decreases end,
    {
        end = end - 1;
    }
    proof {
        lemma_trim_prefix(s@, end as int);
        let t = s@.subrange(0, end as int);
        if t.len() > 0 {
            assert(t[t.len() - 1] != 61);
        }
        assert(trim_padding(t) == t);
    }
    let ghost t = s@.subrange(0, end as int);
    let mut out: Vec<u8> = Vec::new();
    let mut i: usize = 0;
    assert(t.subrange(0, t.len() as int) =~= t);
    while i < end
        invariant
            end <= s@.len(),
            t == s@.subrange(0, end as int),
            b64url_decoded(s@) == b64url_groups(t),
            i <= end,
            b64url_groups(t) == then_prefix(out@, b64url_groups(t.subrange(i as int, end as int))),
        decreases end - i,
    {
        let ghost rest = t.subrange(i as int, end as int);
        let rem = end - i;
        if rem < 2 {
            return None;
        }
        let n: usize = if rem < 4 { rem } else { 4 };
        let ghost g = rest.subrange(0, n as int);
        let mut vals: Vec<u8> = Vec::new();
        let mut j: usize = 0;
        while j < n
            invariant
                end <= s@.len(),
                t == s@.subrange(0, end as int),
                rest == t.subrange(i as int, end as int),
                i + n <= end,
                n <= 4,
                g == rest.subrange(0, n as int),
                b64url_decoded(s@) == b64url_groups(t),
                b64url_groups(t) == then_prefix(out@, b64url_groups(rest)),
                rest.len() == end - i,
                rest.len() >= 2,
                n == (if rest.len() < 4 { rest.len() as int } else { 4 }),
                j <= n,
                vals@.len() == j,
                forall|k: int| 0 <= k < j ==> (#[trigger] b64url_value(g[k])) == Some(vals@[k]),
                forall|k: int| 0 <= k < j ==> #[trigger] vals@[k] < 64,
            decreases n - j,
        {
            match sextet_of(s[i + j]) {
                Some(v) => {
                    assert(g[j as int] == s@[i + j]);
                    assert(v < 64);
                    vals.push(v);
                },
                None => {
                    assert(g[j as int] == s@[i + j]);
                    assert(!all_in_alphabet(g));
                    return None;
                },
            }
            j = j + 1;
        }
        assert(all_in_alphabet(g));
        let b0: u8 = vals[0] * 4 + vals[1] / 16;
        out.push(b0);
        if n > 2 {
            let b1: u8 = (vals[1] % 16) * 16 + vals[2] / 4;
            out.push(b1);
        }
        if n > 3 {
            let b2: u8 = (vals[2] % 4) * 64 + vals[3];
            out.push(b2);
        }
        proof {
            assert(rest.subrange(n as int, rest.len() as int) =~= t.subrange(i + n, end as int));
            assert(sextet(g, 0) == vals@[0]);
            assert(sextet(g, 1) == vals@[1]);
            if n > 2 {
                assert(sextet(g, 2) == vals@[2]);
            }
            if n > 3 {
                assert(sextet(g, 3) == vals@[3]);
            }
        }
        i = i + n;
    }
    assert(t.subrange(end as int, end as int) =~= Seq::<u8>::empty());
    assert(out@ + Seq::<u8>::empty() =~= out@);
    Some(out)
}

/// Base64url without padding, decoding the text `s`.
pub fn b64url_decode(s: &str) -> (r: Option<Vec<u8>>)
    ensures
        match r {
            Some(v) => b64url_decoded(s.spec_bytes()) == Some(v@),
            None => b64url_decoded(s.spec_bytes()) is None,
        },
{
    b64url_decode_bytes(s.as_bytes())
}

/// The bytes of `b` before its first `.` (all of `b` when there is none).
pub open spec fn before_dot(b: Seq<u8>) -> Seq<u8>
    decreases b.len(),
{
    if b.len() == 0 {
        b
    } else if b[0] == 46 {
        Seq::empty()
    } else {
        seq![b[0]] + before_dot(b.subrange(1, b.len() as int))
    }
}

/// The bytes of `b` after its first `.`, if it has one.
pub open spec fn after_dot(b: Seq<u8>) -> Option<Seq<u8>>
    decreases b.len(),
{
    if b.len() == 0 {
        None
    } else if b[0] == 46 {
        Some(b.subrange(1, b.len() as int))
    } else {
        after_dot(b.subrange(1, b.len() as int))
    }
}

/// The second `.`-separated segment of `b` (`split('.').nth(1)`).
pub open spec fn second_segment(b: Seq<u8>) -> Option<Seq<u8>> {
    match after_dot(b) {
        Some(r) => Some(before_dot(r)),
        None => None,
    }
}

/// Member `sub` of a parsed payload, when it is a non-empty string.
pub open spec fn subject_of(payload: Option<JsonView>) -> Option<Seq<char>> {
    match payload {
        Some(j) => match crate::json::as_text(crate::json::json_get(j, "sub"@)) {
            Some(s) => if s.len() > 0 { Some(s) } else { None },
            None => None,
        },
        None => None,
    }
}

/// The `sub` claim of a JWT with UTF-8 bytes `token`: its payload segment, base64url-decoded,
/// parsed as JSON, member `sub` when that is a non-empty string.
pub open spec fn jwt_subject(token: Seq<u8>) -> Option<Seq<char>> {
    match second_segment(token) {
        None => None,
        Some(p) => match b64url_decoded(p) {
            None => None,
            Some(raw) => subject_of(crate::json::parsed_json(raw)),
        },
    }
}

/// The `sub` claim of a parsed payload (or of a payload that did not parse).
pub fn sub_claim(payload: Result<Json, String>) -> (r: Option<String>)
    ensures
        crate::text::opt_text(r) == subject_of(match payload {
            Ok(j) => Some(j@),
            Err(_) => None,
        }),
{
    let v = match payload {
        Ok(v) => v,
        Err(_) => return None,
    };
    let sub = match crate::json::text_of_value(v.get("sub")) {
        Some(s) => s,
        None => return None,
    };
    if sub.as_str().is_empty() {
        return None;
    }
    Some(sub.clone())
}

/// The `sub` claim of the access token: sign-ins without a membership auth id carry the
/// cookie's account id there.
pub fn jwt_sub(token: &str) -> (r: Option<String>)
    ensures
        crate::text::opt_text(r) == jwt_subject(token.spec_bytes()),
{
    let b = token.as_bytes();
    let len = b.len();
    let mut p: usize = 0;
    assert(b@.subrange(0, len as int) =~= b@);
    while p < len && b[p] != 46
        invariant
            len == b@.len(),
            p <= len,
            after_dot(b@) == after_dot(b@.subrange(p as int, len as int)),
        decreases len - p,
    {
        assert(b@.subrange(p as int, len as int).subrange(1, len - p) =~= b@.subrange(p + 1, len as int));
        p = p + 1;
    }
    if p == len {
        return None;
    }
    let start = p + 1;
    assert(b@.subrange(p as int, len as int).subrange(1, len - p) =~= b@.subrange(start as int, len as int));
    let ghost r = b@.subrange(start as int, len as int);
    let mut q: usize = start;
    assert(b@.subrange(start as int, start as int) =~= Seq::<u8>::empty());
    assert(Seq::<u8>::empty() + r =~= r);
    while q < len && b[q] != 46
        invariant
            len == b@.len(),
            start <= q <= len,
            r == b@.subrange(start as int, len as int),
            before_dot(r) == b@.subrange(start as int, q as int) + before_dot(b@.subrange(q as int, len as int)),
        decreases len - q,
    {
        let ghost tail = b@.subrange(q as int, len as int);
        assert(tail.subrange(1, tail.len() as int) =~= b@.subrange(q + 1, len as int));
        assert(b@.subrange(start as int, q + 1) =~= b@.subrange(start as int, q as int) + seq![b@[q as int]]);
        q = q + 1;
    }
    assert(before_dot(b@.subrange(q as int, len as int)) =~= Seq::<u8>::empty());
    assert(before_dot(r) =~= b@.subrange(start as int, q as int));
    let seg = &b[start..q];
    let raw = match b64url_decode_bytes(seg) {
        Some(raw) => raw,
        None => return None,
    };
    sub_claim(crate::json::parse_json(raw.as_slice()))
}

/// The alphabet byte of a 6-bit value.
pub open spec fn b64url_char(v: int) -> u8 {
    if v < 26 {
        (65 + v) as u8
    } else if v < 52 {
        (97 + v - 26) as u8
    } else if v < 62 {
        (48 + v - 52) as u8
    } else if v == 62 {
        45u8
    } else {
        95u8
    }
}

/// Base64url without padding: each group of three bytes (the last may hold one or two)
/// becomes one character more than it has bytes.
pub open spec fn b64url_encoded(b: Seq<u8>) -> Seq<u8>
    decreases b.len(),
{
    if b.len() == 0 {
        Seq::empty()
    } else {
        let n: int = if b.len() < 3 { b.len() as int } else { 3 };
        let x0 = b[0] as int;
        let x1 = if n > 1 { b[1] as int } else { 0 };
        let x2 = if n > 2 { b[2] as int } else { 0 };
        let c0 = b64url_char(x0 / 4);
        let c1 = b64url_char((x0 % 4) * 16 + x1 / 16);
        let c2 = b64url_char((x1 % 16) * 4 + x2 / 64);
        let c3 = b64url_char(x2 % 64);
        let g = if n == 1 {
            seq![c0, c1]
        } else if n == 2 {
            seq![c0, c1, c2]
        } else {
            seq![c0, c1, c2, c3]
        };
        g + b64url_encoded(b.subrange(n, b.len() as int))
    }
}

proof fn lemma_char_value(v: int)
    requires
        0 <= v < 64,
    ensures
        b64url_value(b64url_char(v)) == Some(v as u8),
        b64url_char(v) != 61,
{
}

proof fn lemma_sextets(x0: int, x1: int, x2: int)
    requires
        0 <= x0 < 256,
        0 <= x1 < 256,
        0 <= x2 < 256,
    ensures
        0 <= x0 / 4 < 64,
        0 <= (x0 % 4) * 16 + x1 / 16 < 64,
        0 <= (x1 % 16) * 4 + x2 / 64 < 64,
        0 <= x2 % 64 < 64,
        (x0 / 4) * 4 + ((x0 % 4) * 16 + x1 / 16) / 16 == x0,
        (((x0 % 4) * 16 + x1 / 16) % 16) * 16 + ((x1 % 16) * 4 + x2 / 64) / 4 == x1,
        (((x1 % 16) * 4 + x2 / 64) % 4) * 64 + x2 % 64 == x2,
{
}

proof fn lemma_groups_roundtrip(b: Seq<u8>)
    ensures
        b64url_groups(b64url_encoded(b)) == Some(b),
        b64url_encoded(b).len() == 0 || b64url_encoded(b)[b64url_encoded(b).len() - 1] != 61,
    decreases b.len(),
{
    if b.len() > 0 {
        let n: int = if b.len() < 3 { b.len() as int } else { 3 };
        let x0 = b[0] as int;
        let x1 = if n > 1 { b[1] as int } else { 0 };
        let x2 = if n > 2 { b[2] as int } else { 0 };
        lemma_sextets(x0, x1, x2);
        let s0 = x0 / 4;
        let s1 = (x0 % 4) * 16 + x1 / 16;
        let s2 = (x1 % 16) * 4 + x2 / 64;
        let s3 = x2 % 64;
        lemma_char_value(s0);
        lemma_char_value(s1);
        lemma_char_value(s2);
        lemma_char_value(s3);
        let rest = b.subrange(n, b.len() as int);
        lemma_groups_roundtrip(rest);
        let e = b64url_encoded(b);
        let er = b64url_encoded(rest);
        let g: Seq<u8> = if n == 1 {
            seq![b64url_char(s0), b64url_char(s1)]
        } else if n == 2 {
            seq![b64url_char(s0), b64url_char(s1), b64url_char(s2)]
        } else {
            seq![b64url_char(s0), b64url_char(s1), b64url_char(s2), b64url_char(s3)]
        };
        assert(e == g + er);
        if n < 3 {
            assert(rest.len() == 0);
            assert(er.len() == 0);
        }
        let m: int = if e.len() < 4 { e.len() as int } else { 4 };
        assert(m == g.len());
        assert(e.subrange(0, m) =~= g);
        assert(e.subrange(m, e.len() as int) =~= er);
        assert(all_in_alphabet(g));
        assert(sextet(g, 0) == s0);
        assert(sextet(g, 1) == s1);
        if n > 1 {
            assert(sextet(g, 2) == s2);
        }
        if n > 2 {
            assert(sextet(g, 3) == s3);
        }
        let chunk = b.subrange(0, n);
        assert(group_bytes(g) =~= chunk);
        assert(chunk + rest =~= b);
        if er.len() == 0 {
            assert(e[e.len() - 1] == g[g.len() - 1]);
        } else {
            assert(e[e.len() - 1] == er[er.len() - 1]);
        }
    }
}

/// Decoding undoes encoding: base64url without padding gives back every byte string.
pub proof fn lemma_b64url_roundtrip(b: Seq<u8>)
    ensures
        b64url_decoded(b64url_encoded(b)) == Some(b),
{
    lemma_groups_roundtrip(b);
    let e = b64url_encoded(b);
    assert(trim_padding(e) == e);
}

proof fn lemma_groups_shape(t: Seq<u8>)
    ensures
        b64url_groups(t) is None <==> (t.len() % 4 == 1 || !all_in_alphabet(t)),
        match b64url_groups(t) {
            Some(o) => o.len() == t.len() * 3 / 4,
            None => true,
        },
    decreases t.len(),
{
    if t.len() >= 2 {
        let n: int = if t.len() < 4 { t.len() as int } else { 4 };
        let g = t.subrange(0, n);
        let rest = t.subrange(n, t.len() as int);
        lemma_groups_shape(rest);
        assert(all_in_alphabet(t) <==> all_in_alphabet(g) && all_in_alphabet(rest)) by {
            if all_in_alphabet(t) {
                assert forall|j: int| 0 <= j < g.len() implies (#[trigger] b64url_value(g[j])) is Some by {
                    assert(g[j] == t[j]);
                }
                assert forall|j: int| 0 <= j < rest.len() implies (#[trigger] b64url_value(rest[j])) is Some by {
                    assert(rest[j] == t[j + n]);
                }
            }
            if all_in_alphabet(g) && all_in_alphabet(rest) {
                assert forall|j: int| 0 <= j < t.len() implies (#[trigger] b64url_value(t[j])) is Some by {
                    if j < n {
                        assert(t[j] == g[j]);
                    } else {
                        assert(t[j] == rest[j - n]);
                    }
                }
            }
        }
        if n < 4 {
            assert(rest.len() == 0);
        }
    } else if t.len() == 1 {
    }
}

/// When decoding fails, and how long its result is: after the trailing `=` are dropped,
/// decoding fails exactly when one character is left over past the groups of four or a byte
/// is outside the alphabet; otherwise it gives three bytes for every four characters (one for
/// a two-character tail, two for a three-character one).
pub proof fn lemma_b64url_decode_shape(s: Seq<u8>)
    ensures
        b64url_decoded(s) is None
            <==> (trim_padding(s).len() % 4 == 1 || !all_in_alphabet(trim_padding(s))),
        match b64url_decoded(s) {
            Some(o) => o.len() == trim_padding(s).len() * 3 / 4,
            None => true,
        },
{
    lemma_groups_shape(trim_padding(s));
}

proof fn lemma_encoded_has_no_dot(b: Seq<u8>)
    ensures
        forall|i: int| 0 <= i < b64url_encoded(b).len() ==> #[trigger] b64url_encoded(b)[i] != 46,
    decreases b.len(),
{
    if b.len() > 0 {
        let n: int = if b.len() < 3 { b.len() as int } else { 3 };
        let rest = b.subrange(n, b.len() as int);
        lemma_encoded_has_no_dot(rest);
        let x0 = b[0] as int;
        let x1 = if n > 1 { b[1] as int } else { 0 };
        let x2 = if n > 2 { b[2] as int } else { 0 };
        lemma_sextets(x0, x1, x2);
        let e = b64url_encoded(b);
        let er = b64url_encoded(rest);
        let k = e.len() - er.len();
        assert forall|i: int| 0 <= i < e.len() implies #[trigger] e[i] != 46 by {
            if i >= k {
                assert(e[i] == er[i - k]);
            }
        }
    }
}

proof fn lemma_after_first_dot(h: Seq<u8>, r: Seq<u8>)
    requires
        forall|i: int| 0 <= i < h.len() ==> #[trigger] h[i] != 46,
    ensures
        after_dot(h + seq![46u8] + r) == Some(r),
    decreases h.len(),
{
    let whole = h + seq![46u8] + r;
    if h.len() == 0 {
        assert(whole.subrange(1, whole.len() as int) =~= r);
    } else {
        let t = h.subrange(1, h.len() as int);
        assert(whole.subrange(1, whole.len() as int) =~= t + seq![46u8] + r);
        lemma_after_first_dot(t, r);
    }
}

proof fn lemma_before_first_dot(x: Seq<u8>, s: Seq<u8>)
    requires
        forall|i: int| 0 <= i < x.len() ==> #[trigger] x[i] != 46,
    ensures
        before_dot(x + seq![46u8] + s) == x,
    decreases x.len(),
{
    let whole = x + seq![46u8] + s;
    if x.len() > 0 {
        let t = x.subrange(1, x.len() as int);
        assert(whole.subrange(1, whole.len() as int) =~= t + seq![46u8] + s);
        lemma_before_first_dot(t, s);
        assert(seq![x[0]] + t =~= x);
    }
}

/// What a token carries is read back: for a header without `.`, a JSON payload and any
/// signature, `jwt_sub` of `header.base64url(payload).signature` is the payload's
/// non-empty `sub` string.
pub proof fn lemma_jwt_reads_back_sub(header: Seq<u8>, payload: Seq<u8>, signature: Seq<u8>)
    requires
        forall|i: int| 0 <= i < header.len() ==> #[trigger] header[i] != 46,
    ensures
        jwt_subject(header + seq![46u8] + b64url_encoded(payload) + seq![46u8] + signature)
            == subject_of(crate::json::parsed_json(payload)),
{
    let e = b64url_encoded(payload);
    let r = e + seq![46u8] + signature;
    let token = header + seq![46u8] + e + seq![46u8] + signature;
    assert(token =~= header + seq![46u8] + r);
    lemma_after_first_dot(header, r);
    lemma_encoded_has_no_dot(payload);
    lemma_before_first_dot(e, signature);
    lemma_b64url_roundtrip(payload);
}

} // verus!
