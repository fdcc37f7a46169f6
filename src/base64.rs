use vstd::prelude::*;

verus! {

/// Whether `c` is a character of the standard base64 alphabet (`A-Z a-z 0-9 + /`).
pub open spec fn is_b64_char(c: u8) -> bool {
    (65 <= c && c <= 90) || (97 <= c && c <= 122) || (48 <= c && c <= 57) || c == 43 || c == 47
}

/// Whether `c` is the padding character `=`.
pub open spec fn is_pad(c: u8) -> bool {
    c == 61
}

/// The six-bit value of an alphabet character; zero for any other byte.
pub open spec fn sextet_of(c: u8) -> int {
    if 65 <= c && c <= 90 {
        c - 65
    } else if 97 <= c && c <= 122 {
        c - 97 + 26
    } else if 48 <= c && c <= 57 {
        c - 48 + 52
    } else if c == 43 {
        62
    } else if c == 47 {
        63
    } else {
        0
    }
}

/// Whether `s` is standard padded base64: whole groups of four, every character
/// from the alphabet but for one or two `=` that close the last group.
pub open spec fn valid_b64(s: Seq<u8>) -> bool {
    let n = s.len();
    &&& n % 4 == 0
    &&& forall|j: int| 0 <= j < n - 2 ==> is_b64_char(#[trigger] s[j])
    &&& n >= 4 ==> last_group_ok(s[n - 2], s[n - 1])
}

/// Whether the last two characters of a text may close it: two of the alphabet,
/// one of the alphabet and a `=`, or two `=`.
pub open spec fn last_group_ok(c2: u8, c3: u8) -> bool {
    (is_b64_char(c2) && (is_b64_char(c3) || is_pad(c3))) || (is_pad(c2) && is_pad(c3))
}

/// The bytes that one group of four characters stands for: three, or fewer
/// where the group ends in padding.
pub open spec fn group_bytes(g: Seq<u8>) -> Seq<u8> {
    let v0 = sextet_of(g[0]);
    let v1 = sextet_of(g[1]);
    let v2 = sextet_of(g[2]);
    let v3 = sextet_of(g[3]);
    let b0 = (v0 * 4 + v1 / 16) as u8;
    let b1 = ((v1 % 16) * 16 + v2 / 4) as u8;
    let b2 = ((v2 % 4) * 64 + v3) as u8;
    if is_pad(g[2]) {
        seq![b0]
    } else if is_pad(g[3]) {
        seq![b0, b1]
    } else {
        seq![b0, b1, b2]
    }
}

/// The bytes that a base64 text stands for, group by group.
pub open spec fn b64_decode(s: Seq<u8>) -> Seq<u8>
    decreases s.len(),
{
    if s.len() < 4 {
        Seq::empty()
    } else {
        b64_decode(s.take(s.len() - 4)) + group_bytes(s.skip(s.len() - 4))
    }
}

/// The alphabet character of a six-bit value.
pub open spec fn b64_char_of(v: int) -> u8 {
    if v < 26 {
        (65 + v) as u8
    } else if v < 52 {
        (97 + v - 26) as u8
    } else if v < 62 {
        (48 + v - 52) as u8
    } else if v == 62 {
        43
    } else {
        47
    }
}

/// The four characters of a group of one to three bytes, padded with `=`.
pub open spec fn encode_group(g: Seq<u8>) -> Seq<u8> {
    let b0 = g[0] as int;
    let b1 = if g.len() > 1 { g[1] as int } else { 0 };
    let b2 = if g.len() > 2 { g[2] as int } else { 0 };
    let c0 = b64_char_of(b0 / 4);
    let c1 = b64_char_of((b0 % 4) * 16 + b1 / 16);
    let c2 = if g.len() > 1 { b64_char_of((b1 % 16) * 4 + b2 / 64) } else { 61u8 };
    let c3 = if g.len() > 2 { b64_char_of(b2 % 64) } else { 61u8 };
    seq![c0, c1, c2, c3]
}

/// The standard padded base64 text of `b`, three bytes to a group.
pub open spec fn b64_encode(b: Seq<u8>) -> Seq<u8>
    decreases b.len(),
{
    if b.len() == 0 {
        Seq::empty()
    } else {
        let k = if b.len() % 3 == 0 { 3 } else { b.len() % 3 };
        b64_encode(b.take(b.len() - k)) + encode_group(b.skip(b.len() - k))
    }
}

/// The alphabet character of a six-bit value.
pub fn b64_char(v: u8) -> (c: u8)
    requires
        v < 64,
    ensures
        c == b64_char_of(v as int),
{
    if v < 26 {
        65 + v
    } else if v < 52 {
        97 + v - 26
    } else if v < 62 {
        48 + v - 52
    } else if v == 62 {
        43
    } else {
        47
    }
}

proof fn lemma_encode_step(b: Seq<u8>, i: int)
    requires
        0 <= i,
        i + 3 <= b.len(),
        i % 3 == 0,
    ensures
        b64_encode(b.take(i + 3)) == b64_encode(b.take(i)) + encode_group(b.subrange(i, i + 3)),
{
    let t = b.take(i + 3);
    assert(t.take(i) =~= b.take(i));
    assert(t.skip(i) =~= b.subrange(i, i + 3));
}

/// The standard padded base64 text of `bytes`.
pub fn encode_base64(bytes: &[u8]) -> (r: Vec<u8>)
    ensures
        r@ == b64_encode(bytes@),
{
    let n = bytes.len();
    let mut out: Vec<u8> = Vec::new();
    let mut i: usize = 0;
    while n - i >= 3
        invariant
            n == bytes@.len(),
            i % 3 == 0,
            i <= n,
            out@ == b64_encode(bytes@.take(i as int)),
        decreases n - i,
    {
        let b0 = bytes[i];
        let b1 = bytes[i + 1];
        let b2 = bytes[i + 2];
        let ghost prev = out@;
        let s0: u8 = b0 / 4;
        let s1: u8 = (b0 % 4) * 16 + b1 / 16;
        let s2: u8 = (b1 % 16) * 4 + b2 / 64;
        let s3: u8 = b2 % 64;
        out.push(b64_char(s0));
        out.push(b64_char(s1));
        out.push(b64_char(s2));
        out.push(b64_char(s3));
        proof {
            lemma_encode_step(bytes@, i as int);
            assert(out@ =~= prev + encode_group(bytes@.subrange(i as int, i + 3)));
        }
        i = i + 3;
    }
    let ghost prev = out@;
    if i < n {
        let b0 = bytes[i];
        let b1: u8 = if i + 1 < n { bytes[i + 1] } else { 0 };
        out.push(b64_char(b0 / 4));
        out.push(b64_char((b0 % 4) * 16 + b1 / 16));
        if i + 1 < n {
            out.push(b64_char((b1 % 16) * 4));
        } else {
            out.push(61);
        }
        out.push(61);
        proof {
            assert(bytes@.take(i as int) =~= bytes@.take(n - (n - i)));
            assert(bytes@.skip(i as int) =~= bytes@.subrange(i as int, n as int));
            assert(out@ =~= prev + encode_group(bytes@.skip(i as int)));
        }
    } else {
        proof {
            assert(bytes@.take(i as int) =~= bytes@);
        }
    }
    out
}

/// The six-bit value of `c`, or `None` where `c` is not of the alphabet.
pub fn sextet(c: u8) -> (r: Option<u8>)
    ensures
        r is Some <==> is_b64_char(c),
        r matches Some(v) ==> v < 64 && v as int == sextet_of(c),
{
    if 65 <= c && c <= 90 {
        Some(c - 65)
    } else if 97 <= c && c <= 122 {
        Some(c - 97 + 26)
    } else if 48 <= c && c <= 57 {
        Some(c - 48 + 52)
    } else if c == 43 {
        Some(62)
    } else if c == 47 {
        Some(63)
    } else {
        None
    }
}

/// Decodes standard padded base64; `None` exactly where the text is not valid.
pub fn decode_base64(text: &[u8]) -> (r: Option<Vec<u8>>)
    ensures
        r is Some <==> valid_b64(text@),
        r matches Some(v) ==> v@ == b64_decode(text@),
{
    let n = text.len();
    if n % 4 != 0 {
        return None;
    }
    let mut out: Vec<u8> = Vec::new();
    let mut i: usize = 0;
    while i < n
        invariant
            n == text@.len(),
            n % 4 == 0,
            i % 4 == 0,
            i <= n,
            out@ == b64_decode(text@.take(i as int)),
            forall|j: int| 0 <= j < i && j < n - 2 ==> is_b64_char(#[trigger] text@[j]),
            i == n && n >= 4 ==> last_group_ok(text@[n - 2], text@[n - 1]),
        decreases n - i,
    {
        let last = i + 4 == n;
        let o0 = sextet(text[i]);
        let o1 = sextet(text[i + 1]);
        let o2 = sextet(text[i + 2]);
        let o3 = sextet(text[i + 3]);
        let c2 = text[i + 2];
        let c3 = text[i + 3];
        let (v0, v1) = match (o0, o1) {
            (Some(a), Some(b)) => (a, b),
            _ => {
                proof {
                    if o0.is_none() {
                        assert(!is_b64_char(text@[i as int]));
                    } else {
                        assert(!is_b64_char(text@[i + 1]));
                    }
                }
                return None;
            },
        };
        let pad2 = o2.is_none() && c2 == 61;
        let pad3 = o3.is_none() && c3 == 61;
        let ok2 = o2.is_some() || (last && pad2 && pad3);
        let ok3 = o3.is_some() || (last && pad3);
        if !ok2 || !ok3 {
            proof {
                if last {
                    assert(!valid_b64(text@));
                } else {
                    assert(i + 3 < n - 2);
                    if o2.is_none() {
                        assert(!is_b64_char(text@[i + 2]));
                    } else {
                        assert(!is_b64_char(text@[i + 3]));
                    }
                }
            }
            return None;
        }
        let v2: u8 = match o2 {
            Some(v) => v,
            None => 0,
        };
        let v3: u8 = match o3 {
            Some(v) => v,
            None => 0,
        };
        let b0: u8 = v0 * 4 + v1 / 16;
        let b1: u8 = (v1 % 16) * 16 + v2 / 4;
        let b2: u8 = (v2 % 4) * 64 + v3;
        let ghost prev = out@;
        out.push(b0);
        if !pad2 {
            out.push(b1);
            if !pad3 {
                out.push(b2);
            }
        }
        proof {
            let t = text@.take(i + 4);
            assert(t.take(i as int) =~= text@.take(i as int));
            assert(t.skip(i as int) =~= text@.subrange(i as int, i + 4));
            assert(out@ =~= prev + group_bytes(t.skip(i as int)));
        }
        i = i + 4;
    }
    proof {
        assert(text@.take(n as int) =~= text@);
    }
    Some(out)
}

proof fn lemma_char_round_trip(v: int)
    requires
        0 <= v < 64,
    ensures
        is_b64_char(b64_char_of(v)),
        sextet_of(b64_char_of(v)) == v,
{
}

proof fn lemma_group_round_trip(g: Seq<u8>)
    requires
        1 <= g.len() <= 3,
    ensures
        is_b64_char(encode_group(g)[0]),
        is_b64_char(encode_group(g)[1]),
        g.len() > 1 ==> is_b64_char(encode_group(g)[2]),
        g.len() > 2 ==> is_b64_char(encode_group(g)[3]),
        g.len() <= 1 ==> is_pad(encode_group(g)[2]),
        g.len() <= 2 ==> is_pad(encode_group(g)[3]),
        group_bytes(encode_group(g)) == g,
{
    let b0 = g[0] as int;
    let b1 = if g.len() > 1 { g[1] as int } else { 0 };
    let b2 = if g.len() > 2 { g[2] as int } else { 0 };
    let v0 = b0 / 4;
    let v1 = (b0 % 4) * 16 + b1 / 16;
    let v2 = (b1 % 16) * 4 + b2 / 64;
    let v3 = b2 % 64;
    assert(0 <= v0 < 64 && 0 <= v1 < 64 && 0 <= v2 < 64 && 0 <= v3 < 64);
    lemma_char_round_trip(v0);
    lemma_char_round_trip(v1);
    lemma_char_round_trip(v2);
    lemma_char_round_trip(v3);
    let e = encode_group(g);
    let w2 = sextet_of(e[2]);
    let w3 = sextet_of(e[3]);
    assert(v0 * 4 + v1 / 16 == b0) by (nonlinear_arith)
        requires
            0 <= b0 < 256,
            0 <= b1 < 256,
            v0 == b0 / 4,
            v1 == (b0 % 4) * 16 + b1 / 16,
    ;
    if g.len() > 1 {
        assert((v1 % 16) * 16 + v2 / 4 == b1) by (nonlinear_arith)
            requires
                0 <= b0 < 256,
                0 <= b1 < 256,
                0 <= b2 < 256,
                v1 == (b0 % 4) * 16 + b1 / 16,
                v2 == (b1 % 16) * 4 + b2 / 64,
        ;
    }
    if g.len() > 2 {
        assert((v2 % 4) * 64 + v3 == b2) by (nonlinear_arith)
            requires
                0 <= b1 < 256,
                0 <= b2 < 256,
                v2 == (b1 % 16) * 4 + b2 / 64,
                v3 == b2 % 64,
        ;
    }
    assert(group_bytes(e) =~= g);
}

proof fn lemma_decode_append(s: Seq<u8>, t: Seq<u8>)
    requires
        s.len() % 4 == 0,
        t.len() == 4,
    ensures
        b64_decode(s + t) == b64_decode(s) + group_bytes(t),
{
    let u = s + t;
    assert(u.take(u.len() - 4) =~= s);
    assert(u.skip(u.len() - 4) =~= t);
}

proof fn lemma_encode_split(b: Seq<u8>)
    requires
        b.len() > 0,
    ensures
        ({
            let k = if b.len() % 3 == 0 { 3 } else { b.len() % 3 };
            &&& 1 <= k <= 3
            &&& b.take(b.len() - k).len() % 3 == 0
            &&& b64_encode(b) == b64_encode(b.take(b.len() - k)) + encode_group(b.skip(b.len() - k))
            &&& b.take(b.len() - k) + b.skip(b.len() - k) == b
        }),
{
    let k = if b.len() % 3 == 0 { 3 } else { b.len() % 3 };
    assert(b.take(b.len() - k) + b.skip(b.len() - k) =~= b);
}

proof fn lemma_encode_decodes(b: Seq<u8>)
    ensures
        b64_encode(b).len() % 4 == 0,
        b64_decode(b64_encode(b)) == b,
    decreases b.len(),
{
    if b.len() > 0 {
        lemma_encode_split(b);
        let k = if b.len() % 3 == 0 { 3 } else { b.len() % 3 };
        let p = b.take(b.len() - k);
        let g = b.skip(b.len() - k);
        lemma_encode_decodes(p);
        lemma_group_round_trip(g);
        lemma_decode_append(b64_encode(p), encode_group(g));
    }
}

#[verifier::rlimit(40)]
proof fn lemma_encode_full_groups(b: Seq<u8>)
    requires
        b.len() % 3 == 0,
    ensures
        forall|j: int| 0 <= j < b64_encode(b).len() ==> is_b64_char(#[trigger] b64_encode(b)[j]),
    decreases b.len(),
{
    if b.len() > 0 {
        lemma_encode_split(b);
        let p = b.take(b.len() - 3);
        let g = b.skip(b.len() - 3);
        lemma_encode_full_groups(p);
        lemma_group_round_trip(g);
        let ep = b64_encode(p);
        let e = encode_group(g);
        let whole = ep + e;
        assert forall|j: int| 0 <= j < whole.len() implies is_b64_char(#[trigger] whole[j]) by {
            if j < ep.len() {
                assert(whole[j] == ep[j]);
            } else {
                assert(whole[j] == e[j - ep.len()]);
            }
        }
    }
}

#[verifier::rlimit(40)]
proof fn lemma_encode_valid(b: Seq<u8>)
    ensures
        valid_b64(b64_encode(b)),
{
    lemma_encode_decodes(b);
    if b.len() > 0 {
        lemma_encode_split(b);
        let k = if b.len() % 3 == 0 { 3 } else { b.len() % 3 };
        let p = b.take(b.len() - k);
        let g = b.skip(b.len() - k);
        lemma_encode_full_groups(p);
        lemma_group_round_trip(g);
        let ep = b64_encode(p);
        let e = encode_group(g);
        let whole = ep + e;
        let n = whole.len();
        assert forall|j: int| 0 <= j < n - 2 implies is_b64_char(#[trigger] whole[j]) by {
            if j < ep.len() {
                assert(whole[j] == ep[j]);
            } else {
                assert(whole[j] == e[j - ep.len()]);
            }
        }
        assert(whole[n - 2] == e[2]);
        assert(whole[n - 1] == e[3]);
    }
}

/// Encoding never loses anything: the text that `encode_base64` writes is
/// valid base64, and decoding it gives back the bytes that were encoded.
pub proof fn lemma_base64_round_trip(b: Seq<u8>)
    ensures
        valid_b64(b64_encode(b)),
        b64_decode(b64_encode(b)) == b,
{
    lemma_encode_decodes(b);
    lemma_encode_valid(b);
}

} // verus!
