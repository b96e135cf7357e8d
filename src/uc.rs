use vstd::prelude::*;
use vstd::utf8::is_scalar;
use vstd::string::StrSliceExecFns;
use crate::error::RfcError;

verus! {

/// First code unit of the high surrogate range.
pub const HIGH_SURROGATE_START: u16 = 0xD800;

/// First code unit of the low surrogate range.
pub const LOW_SURROGATE_START: u16 = 0xDC00;

pub open spec fn is_high_surrogate(u: u16) -> bool {
    0xD800 <= u && u < 0xDC00
}

pub open spec fn is_low_surrogate(u: u16) -> bool {
    0xDC00 <= u && u <= 0xDFFF
}

pub open spec fn is_surrogate(u: u16) -> bool {
    0xD800 <= u && u <= 0xDFFF
}

/// The code units that stand for one character in the native wide-string form.
pub open spec fn units_of_char(c: char) -> Seq<u16> {
    let v = c as u32;
    if v < 0x10000 {
        seq![v as u16]
    } else {
        let w = (v - 0x10000) as int;
        seq![(0xD800 + w / 0x400) as u16, (0xDC00 + w % 0x400) as u16]
    }
}

/// The code units of a whole text, without terminator.
pub open spec fn units_of(s: Seq<char>) -> Seq<u16>
    decreases s.len(),
{
    if s.len() == 0 {
        Seq::empty()
    } else {
        units_of(s.drop_last()) + units_of_char(s.last())
    }
}

/// The null-terminated native buffer for a text.
pub open spec fn sap_uc_of(s: Seq<char>) -> Seq<u16> {
    units_of(s).push(0u16)
}

/// Character that a surrogate pair stands for.
pub open spec fn pair_value(hi: u16, lo: u16) -> u32 {
    (0x10000 + (hi - 0xD800) * 0x400 + (lo - 0xDC00)) as u32
}

/// Decodes code units into characters; `None` when a surrogate is unpaired.
pub open spec fn decode_units(u: Seq<u16>) -> Option<Seq<char>>
    decreases u.len(),
{
    if u.len() == 0 {
        Some(Seq::empty())
    } else if u.len() >= 2 && is_high_surrogate(u[0]) && is_low_surrogate(u[1]) {
        match decode_units(u.subrange(2, u.len() as int)) {
            Some(rest) => Some(seq![pair_value(u[0], u[1]) as char] + rest),
            None => None,
        }
    } else if is_surrogate(u[0]) {
        None
    } else {
        match decode_units(u.subrange(1, u.len() as int)) {
            Some(rest) => Some(seq![(u[0] as u32) as char] + rest),
            None => None,
        }
    }
}

/// Encodes a text as a null-terminated native wide-string buffer.
pub fn from_str(s: &str) -> (r: Vec<u16>)
    ensures
        r@ == sap_uc_of(s@),
{
    let n = s.unicode_len();
    let mut out: Vec<u16> = Vec::new();
    let mut i: usize = 0;
    while i < n
        invariant
            n == s@.len(),
            i <= n,
            out@ == units_of(s@.subrange(0, i as int)),
        decreases n - i,
    {
        let c = s.get_char(i);
        let v = c as u32;
        proof {
            vstd::utf8::char_is_scalar(c);
        }
        if v < 0x10000 {
            out.push(v as u16);
        } else {
            let w = v - 0x10000;
            out.push(HIGH_SURROGATE_START + (w / 0x400) as u16);
            out.push(LOW_SURROGATE_START + (w % 0x400) as u16);
        }
        proof {
            let p = s@.subrange(0, i + 1);
            assert(p.drop_last() =~= s@.subrange(0, i as int));
        }
        i = i + 1;
    }
    out.push(0);
    proof {
        assert(s@.subrange(0, n as int) =~= s@);
    }
    out
}

/// Number of code units before the first null unit, or all of them.
pub open spec fn nul_pos(u: Seq<u16>) -> nat
    decreases u.len(),
{
    if u.len() == 0 || u[0] == 0 {
        0
    } else {
        1 + nul_pos(u.subrange(1, u.len() as int))
    }
}

/// The text part of a native buffer: everything before the first null unit.
pub open spec fn text_units(u: Seq<u16>) -> Seq<u16> {
    u.subrange(0, nul_pos(u) as int)
}

proof fn lemma_nul_pos(u: Seq<u16>, n: int)
    requires
        0 <= n <= u.len(),
        forall|j: int| 0 <= j < n ==> u[j] != 0,
        n == u.len() || u[n] == 0,
    ensures
        nul_pos(u) == n,
    decreases n,
{
    if n > 0 {
        lemma_nul_pos(u.subrange(1, u.len() as int), n - 1);
    }
}

/// Relies on char::from_u32: `Some` exactly for a Unicode scalar value.
#[verifier::external_body]
fn char_from_u32(v: u32) -> (r: Option<char>)
    ensures
        r is Some <==> is_scalar(v),
        r matches Some(c) ==> c as u32 == v,
{
    char::from_u32(v)
}

/// Relies on String::push: appends one character.
#[verifier::external_body]
fn push_char(s: &mut String, c: char)
    ensures
        final(s)@ == old(s)@.push(c),
{
    s.push(c)
}

/// Decodes a native wide-string buffer, stopping at the first null unit or at its end.
pub fn to_string(units: &[u16]) -> (r: Result<String, RfcError>)
    ensures
        r is Ok <==> decode_units(text_units(units@)) is Some,
        r matches Ok(s) ==> decode_units(text_units(units@)) == Some(s@),
        r matches Err(e) ==> e is Encoding,
{
    let len = units.len();
    let mut n: usize = 0;
    while n < len && units[n] != 0
        invariant
            len == units@.len(),
            n <= len,
            forall|j: int| 0 <= j < n ==> units@[j] != 0,
        decreases len - n,
    {
        n = n + 1;
    }
    proof {
        lemma_nul_pos(units@, n as int);
    }
    let ghost p = text_units(units@);
    let mut out = String::new();
    let mut i: usize = 0;
    proof {
        assert(p.subrange(0, n as int) =~= p);
        assert forall|t: Seq<char>| #[trigger] (out@ + t) == t by {
            assert(out@ + t =~= t);
        }
    }
    while i < n
        invariant
            n == p.len(),
            n <= len,
            len == units@.len(),
            p == units@.subrange(0, n as int),
            p == text_units(units@),
            i <= n,
            decode_units(p) == (match decode_units(p.subrange(i as int, n as int)) {
                Some(rest) => Some(out@ + rest),
                None => None::<Seq<char>>,
            }),
        decreases n - i,
    {
        let u0 = units[i];
        let ghost q = p.subrange(i as int, n as int);
        if i + 1 < n && HIGH_SURROGATE_START <= u0 && u0 < LOW_SURROGATE_START
            && LOW_SURROGATE_START <= units[i + 1] && units[i + 1] <= 0xDFFF
        {
            let u1 = units[i + 1];
            let v: u32 = 0x10000 + ((u0 - HIGH_SURROGATE_START) as u32) * 0x400 + ((u1
                - LOW_SURROGATE_START) as u32);
            match char_from_u32(v) {
                Some(c) => {
                    proof {
                        assert(v == pair_value(u0, u1));
                        vstd::utf8::char_u32_cast(c, v);
                        assert(q.subrange(2, q.len() as int) =~= p.subrange(i + 2, n as int));
                        let o = out@;
                        assert forall|t: Seq<char>|
                            #[trigger] (o + (seq![c] + t)) == o.push(c) + t by {
                            assert(o + (seq![c] + t) =~= o.push(c) + t);
                        }
                    }
                    push_char(&mut out, c);
                    i = i + 2;
                },
                None => {
                    return Err(RfcError::Encoding);
                },
            }
        } else if HIGH_SURROGATE_START <= u0 && u0 <= 0xDFFF {
            proof {
                assert(q[0] == u0);
                assert(q.len() >= 2 ==> q[1] == units@[i + 1]);
                assert(decode_units(q) is None);
            }
            return Err(RfcError::Encoding);
        } else {
            match char_from_u32(u0 as u32) {
                Some(c) => {
                    proof {
                        vstd::utf8::char_u32_cast(c, u0 as u32);
                        assert(q.subrange(1, q.len() as int) =~= p.subrange(i + 1, n as int));
                        let o = out@;
                        assert forall|t: Seq<char>|
                            #[trigger] (o + (seq![c] + t)) == o.push(c) + t by {
                            assert(o + (seq![c] + t) =~= o.push(c) + t);
                        }
                    }
                    push_char(&mut out, c);
                    i = i + 1;
                },
                None => {
                    return Err(RfcError::Encoding);
                },
            }
        }
    }
    proof {
        assert(p.subrange(n as int, n as int) =~= Seq::<u16>::empty());
        assert(out@ + Seq::<char>::empty() =~= out@);
    }
    Ok(out)
}

proof fn lemma_units_of_front(s: Seq<char>)
    requires
        s.len() > 0,
    ensures
        units_of(s) == units_of_char(s[0]) + units_of(s.subrange(1, s.len() as int)),
    decreases s.len(),
{
    let t = s.subrange(1, s.len() as int);
    if s.len() == 1 {
        assert(t =~= Seq::<char>::empty());
        assert(s.drop_last() =~= Seq::<char>::empty());
        assert(units_of(s.drop_last()) =~= Seq::<u16>::empty());
        assert(units_of(s) =~= units_of_char(s[0]) + units_of(t));
    } else {
        lemma_units_of_front(s.drop_last());
        assert(s.drop_last().subrange(1, s.len() - 1) =~= t.drop_last());
        assert(t.last() == s.last());
        assert(units_of(s) =~= units_of_char(s[0]) + units_of(t));
    }
}

proof fn lemma_units_of_char(c: char)
    ensures
        forall|j: int| 0 <= j < units_of_char(c).len() ==> units_of_char(c)[j] != 0 || c == '\0',
        decode_units(units_of_char(c)) == Some(seq![c]),
{
    let v = c as u32;
    vstd::utf8::char_is_scalar(c);
    vstd::utf8::char_u32_cast(c, v);
    let u = units_of_char(c);
    if v < 0x10000 {
        assert(u.subrange(1, 1) =~= Seq::<u16>::empty());
        assert(decode_units(Seq::<u16>::empty()) == Some(Seq::<char>::empty()));
        assert(((u[0] as u32) as char) == c);
        assert(seq![c] + Seq::<char>::empty() =~= seq![c]);
    } else {
        let w = (v - 0x10000) as int;
        assert(0 <= w < 0x100000);
        assert(w / 0x400 < 0x400) by (nonlinear_arith)
            requires
                0 <= w < 0x100000,
        ;
        assert(w == (w / 0x400) * 0x400 + w % 0x400) by (nonlinear_arith);
        assert(0 <= w % 0x400 < 0x400) by (nonlinear_arith);
        assert(0 <= w / 0x400) by (nonlinear_arith)
            requires
                0 <= w,
        ;
        assert(pair_value(u[0], u[1]) == v);
        assert(u.subrange(2, 2) =~= Seq::<u16>::empty());
        assert(decode_units(Seq::<u16>::empty()) == Some(Seq::<char>::empty()));
        assert(seq![c] + Seq::<char>::empty() =~= seq![c]);
    }
}

proof fn lemma_decode_prefix(a: Seq<u16>, b: Seq<u16>, x: Seq<char>)
    requires
        decode_units(a) == Some(x),
        a.len() >= 1,
        a.len() <= 2,
        a.len() == 2 ==> is_high_surrogate(a[0]) && is_low_surrogate(a[1]),
        a.len() == 1 ==> !is_surrogate(a[0]),
    ensures
        decode_units(a + b) == (match decode_units(b) {
            Some(y) => Some(x + y),
            None => None::<Seq<char>>,
        }),
{
    let ab = a + b;
    if a.len() == 2 {
        assert(a.subrange(2, 2) =~= Seq::<u16>::empty());
        assert(decode_units(Seq::<u16>::empty()) == Some(Seq::<char>::empty()));
        assert(ab.subrange(2, ab.len() as int) =~= b);
        assert(x =~= seq![pair_value(a[0], a[1]) as char]);
    } else {
        assert(a.subrange(1, 1) =~= Seq::<u16>::empty());
        assert(decode_units(Seq::<u16>::empty()) == Some(Seq::<char>::empty()));
        assert(ab.subrange(1, ab.len() as int) =~= b);
        assert(x =~= seq![(a[0] as u32) as char]);
    }
}

proof fn lemma_decode_units_of(s: Seq<char>)
    ensures
        decode_units(units_of(s)) == Some(s),
        !s.contains('\0') ==> forall|j: int| 0 <= j < units_of(s).len() ==> units_of(s)[j] != 0,
    decreases s.len(),
{
    if s.len() == 0 {
        assert(s =~= Seq::<char>::empty());
    } else {
        let c = s[0];
        let t = s.subrange(1, s.len() as int);
        lemma_units_of_front(s);
        lemma_decode_units_of(t);
        lemma_units_of_char(c);
        let v = c as u32;
        vstd::utf8::char_is_scalar(c);
        if v >= 0x10000 {
            let w = (v - 0x10000) as int;
            assert(w / 0x400 < 0x400) by (nonlinear_arith)
                requires
                    0 <= w < 0x100000,
            ;
            assert(0 <= w / 0x400) by (nonlinear_arith)
                requires
                    0 <= w,
            ;
            assert(0 <= w % 0x400 < 0x400) by (nonlinear_arith);
        }
        lemma_decode_prefix(units_of_char(c), units_of(t), seq![c]);
        assert(seq![c] + t =~= s);
        if !s.contains('\0') {
            assert(c != '\0') by {
                assert(s[0] == c);
            }
            assert forall|k: int| 0 <= k < t.len() implies t[k] != '\0' by {
                assert(t[k] == s[k + 1]);
            }
            assert(!t.contains('\0'));
        }
    }
}

/// Decoding the encoded form of a text without null characters gives the text back.
pub proof fn lemma_round_trip(s: Seq<char>)
    requires
        !s.contains('\0'),
    ensures
        nul_pos(sap_uc_of(s)) == units_of(s).len(),
        decode_units(text_units(sap_uc_of(s))) == Some(s),
{
    lemma_decode_units_of(s);
    let b = sap_uc_of(s);
    let n = units_of(s).len() as int;
    assert forall|j: int| 0 <= j < n implies b[j] != 0 by {
        assert(b[j] == units_of(s)[j]);
    }
    lemma_nul_pos(b, n);
    assert(text_units(b) =~= units_of(s));
}

} // verus!
