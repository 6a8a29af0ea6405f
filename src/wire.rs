//! The protocol-buffer wire format that application messages travel in:
//! base-128 varints, and fields keyed by number and wire type.
use vstd::prelude::*;

verus! {

/// The base-128 varint of `v`: seven bits per byte, least significant first,
/// with the high bit set on every byte but the last.
pub open spec fn varint(v: nat) -> Seq<u8>
    decreases v,
{
    if v < 128 {
        seq![v as u8]
    } else {
        seq![(v % 128 + 128) as u8] + varint(v / 128)
    }
}

/// The varint that starts at `pos` and ends before `end`, read over at most
/// `limit` bytes: its value and the position after it.
pub open spec fn varint_at(s: Seq<u8>, pos: int, end: int, limit: nat) -> Option<(nat, int)>
    decreases limit,
{
    if limit == 0 || pos < 0 || pos >= end || end > s.len() {
        None
    } else if s[pos] < 128 {
        Some((s[pos] as nat, pos + 1))
    } else {
        match varint_at(s, pos + 1, end, (limit - 1) as nat) {
            Some((v, e)) => Some((((s[pos] - 128) + 128 * v) as nat, e)),
            None => None,
        }
    }
}

/// A varint of at most ten bytes whose value fits in 64 bits.
pub open spec fn varint64_at(s: Seq<u8>, pos: int, end: int) -> Option<(u64, int)> {
    match varint_at(s, pos, end, 10) {
        Some((v, e)) => if v <= u64::MAX {
            Some((v as u64, e))
        } else {
            None
        },
        None => None,
    }
}

/// `128` to the power `k`.
pub open spec fn bound(k: nat) -> nat
    decreases k,
{
    if k == 0 {
        1
    } else {
        128 * bound((k - 1) as nat)
    }
}

/// Appends the varint of `v` to `out`.
pub fn put_varint(out: &mut Vec<u8>, v: u64)
    ensures
        final(out)@ == old(out)@ + varint(v as nat),
{
    let mut x: u64 = v;
    while x >= 128
        invariant
            old(out)@ + varint(v as nat) == out@ + varint(x as nat),
        decreases x,
    {
        let ghost before = out@;
        out.push(((x % 128) + 128) as u8);
        assert(varint(x as nat) == seq![((x % 128) + 128) as u8] + varint((x / 128) as nat));
        assert(out@ + varint((x / 128) as nat) =~= before + varint(x as nat));
        x = x / 128;
    }
    out.push(x as u8);
    assert(varint(x as nat) == seq![x as u8]);
    assert(out@ =~= old(out)@ + varint(v as nat));
}

/// Reads the varint that starts at `pos` and ends before `end`, over at most
/// `limit` bytes.
fn read_varint_limited(b: &[u8], pos: usize, end: usize, limit: usize) -> (r: Option<(u64, usize)>)
    requires
        end <= b@.len(),
        limit <= 10,
    ensures
        match varint_at(b@, pos as int, end as int, limit as nat) {
            Some((v, e)) => if v <= u64::MAX {
                r == Some((v as u64, e as usize))
            } else {
                r is None
            },
            None => r is None,
        },
        r matches Some((_, e)) ==> pos < e <= end,
    decreases limit,
{
    if limit == 0 || pos >= end {
        return None;
    }
    let byte = b[pos];
    if byte < 128 {
        return Some((byte as u64, pos + 1));
    }
    match read_varint_limited(b, pos + 1, end, limit - 1) {
        Some((v, e)) => {
            if v > (u64::MAX - 127) / 128 {
                proof {
                    let inner = varint_at(b@, pos + 1, end as int, (limit - 1) as nat);
                    assert(inner is Some);
                    let iv = inner->Some_0.0;
                    assert(iv as u64 == v);
                    assert((byte - 128) + 128 * iv > u64::MAX) by (nonlinear_arith)
                        requires
                            iv as u64 > (u64::MAX - 127) / 128,
                            iv <= u64::MAX,
                            byte >= 128,
                    ;
                }
                None
            } else {
                let w = (byte - 128) as u64 + 128 * v;
                Some((w, e))
            }
        },
        None => {
            proof {
                let inner = varint_at(b@, pos + 1, end as int, (limit - 1) as nat);
                if let Some((iv, ie)) = inner {
                    assert(iv > u64::MAX);
                    assert((b@[pos as int] - 128) + 128 * iv > u64::MAX) by (nonlinear_arith)
                        requires
                            iv > u64::MAX,
                            b@[pos as int] >= 128,
                    ;
                }
            }
            None
        },
    }
}

/// A varint that reads ends after its start and by `end`.
pub proof fn lemma_varint_at_bounds(s: Seq<u8>, pos: int, end: int, limit: nat)
    ensures
        varint_at(s, pos, end, limit) matches Some((_, e)) ==> pos < e <= end,
    decreases limit,
{
    if limit > 0 && 0 <= pos < end <= s.len() && s[pos] >= 128 {
        lemma_varint_at_bounds(s, pos + 1, end, (limit - 1) as nat);
    }
}

/// Reads a varint of at most ten bytes and 64 bits that starts at `pos` and
/// ends before `end`.
pub fn read_varint(b: &[u8], pos: usize, end: usize) -> (r: Option<(u64, usize)>)
    requires
        end <= b@.len(),
    ensures
        r == match varint64_at(b@, pos as int, end as int) {
            Some((v, e)) => Some((v, e as usize)),
            None => None::<(u64, usize)>,
        },
        r matches Some((_, e)) ==> pos < e <= end,
        varint64_at(b@, pos as int, end as int) matches Some((_, e)) ==> pos < e <= end,
{
    proof {
        lemma_varint_at_bounds(b@, pos as int, end as int, 10);
    }
    read_varint_limited(b, pos, end, 10)
}

/// The varint of `v` reads back as `v`, from wherever it stands.
pub proof fn lemma_varint_reads_back(s: Seq<u8>, pos: int, end: int, v: nat, limit: nat)
    requires
        0 <= pos,
        pos + varint(v).len() <= end <= s.len(),
        s.subrange(pos, pos + varint(v).len()) == varint(v),
        0 < limit,
        v < bound(limit),
    ensures
        varint_at(s, pos, end, limit) == Some((v, pos + varint(v).len())),
    decreases v,
{
    let w = varint(v);
    assert(s[pos] == s.subrange(pos, pos + w.len())[0]);
    if v >= 128 {
        let t = varint(v / 128);
        assert(w == seq![(v % 128 + 128) as u8] + t);
        let l1 = (limit - 1) as nat;
        assert(v / 128 < bound(l1)) by (nonlinear_arith)
            requires
                v < bound(limit),
                bound(limit) == 128 * bound(l1),
        ;
        if l1 == 0 {
            assert(bound(l1) == 1);
        }
        assert(s.subrange(pos + 1, pos + 1 + t.len()) =~= t) by {
            assert forall|k: int| 0 <= k < t.len() implies s.subrange(pos + 1, pos + 1 + t.len())[k]
                == t[k] by {
                assert(s.subrange(pos, pos + w.len())[k + 1] == w[k + 1]);
            }
        }
        lemma_varint_reads_back(s, pos + 1, end, v / 128, l1);
        assert(s[pos] == (v % 128 + 128) as u8);
    }
}

/// No varint of a 64-bit value is longer than ten bytes, and each reads back.
pub proof fn lemma_varint64_reads_back(s: Seq<u8>, pos: int, end: int, v: u64)
    requires
        0 <= pos,
        pos + varint(v as nat).len() <= end <= s.len(),
        s.subrange(pos, pos + varint(v as nat).len()) == varint(v as nat),
    ensures
        varint64_at(s, pos, end) == Some((v, pos + varint(v as nat).len())),
{
    reveal_with_fuel(bound, 11);
    assert(bound(10) == 1180591620717411303424nat);
    lemma_varint_reads_back(s, pos, end, v as nat, 10);
}

/// One field of a message as it stands on the wire: its number, its wire
/// type, its varint value or content length, and where its content lies.
#[derive(Clone, Copy, Debug, PartialEq, Eq, Structural)]
pub struct RawField {
    pub number: u64,
    pub wire_type: u64,
    pub value: u64,
    pub start: usize,
    pub end: usize,
}

/// The field that starts at `pos` and ends by `end`. Varint, 64-bit,
/// length-delimited and 32-bit fields are read; field number zero and group
/// wire types are not.
pub open spec fn field_at(s: Seq<u8>, pos: int, end: int) -> Option<RawField> {
    match varint64_at(s, pos, end) {
        None => None,
        Some((key, p1)) => {
            let number = key / 8;
            let wt = key % 8;
            if number == 0 {
                None
            } else if wt == 0 {
                match varint64_at(s, p1, end) {
                    Some((v, p2)) => Some(
                        RawField { number, wire_type: 0, value: v, start: p1 as usize, end: p2 as usize },
                    ),
                    None => None,
                }
            } else if wt == 1 {
                if p1 + 8 <= end {
                    Some(RawField { number, wire_type: 1, value: 0, start: p1 as usize, end: (p1 + 8) as usize })
                } else {
                    None
                }
            } else if wt == 2 {
                match varint64_at(s, p1, end) {
                    Some((l, p2)) => if p2 + l <= end {
                        Some(RawField { number, wire_type: 2, value: l, start: p2 as usize, end: (p2 + l) as usize })
                    } else {
                        None
                    },
                    None => None,
                }
            } else if wt == 5 {
                if p1 + 4 <= end {
                    Some(RawField { number, wire_type: 5, value: 0, start: p1 as usize, end: (p1 + 4) as usize })
                } else {
                    None
                }
            } else {
                None
            }
        },
    }
}

/// Reads the field that starts at `pos` and ends by `end`.
pub fn read_field(b: &[u8], pos: usize, end: usize) -> (r: Option<RawField>)
    requires
        end <= b@.len(),
    ensures
        r == field_at(b@, pos as int, end as int),
        r matches Some(f) ==> pos < f.end <= end && f.start <= f.end,
{
    let (key, p1) = match read_varint(b, pos, end) {
        Some(x) => x,
        None => return None,
    };
    let number = key / 8;
    let wt = key % 8;
    if number == 0 {
        None
    } else if wt == 0 {
        match read_varint(b, p1, end) {
            Some((v, p2)) => Some(RawField { number, wire_type: 0, value: v, start: p1, end: p2 }),
            None => None,
        }
    } else if wt == 1 {
        if end - p1 >= 8 {
            Some(RawField { number, wire_type: 1, value: 0, start: p1, end: p1 + 8 })
        } else {
            None
        }
    } else if wt == 2 {
        match read_varint(b, p1, end) {
            Some((l, p2)) => if l <= (end - p2) as u64 {
                Some(RawField { number, wire_type: 2, value: l, start: p2, end: p2 + l as usize })
            } else {
                None
            },
            None => None,
        }
    } else if wt == 5 {
        if end - p1 >= 4 {
            Some(RawField { number, wire_type: 5, value: 0, start: p1, end: p1 + 4 })
        } else {
            None
        }
    } else {
        None
    }
}

/// A length-delimited field: key, length, content.
pub open spec fn len_field(number: u64, payload: Seq<u8>) -> Seq<u8> {
    varint((number * 8 + 2) as nat) + varint(payload.len()) + payload
}

/// A varint field: key, value.
pub open spec fn varint_field(number: u64, v: u64) -> Seq<u8> {
    varint((number * 8) as nat) + varint(v as nat)
}

/// Appends a length-delimited field.
pub fn put_len_field(out: &mut Vec<u8>, number: u64, payload: &[u8])
    requires
        1 <= number <= 1000,
    ensures
        final(out)@ == old(out)@ + len_field(number, payload@),
{
    put_varint(out, number * 8 + 2);
    put_varint(out, payload.len() as u64);
    let mut i: usize = 0;
    let ghost mid = out@;
    while i < payload.len()
        invariant
            i <= payload@.len(),
            out@ == mid + payload@.subrange(0, i as int),
        decreases payload@.len() - i,
    {
        out.push(payload[i]);
        assert(out@ =~= mid + payload@.subrange(0, i as int + 1));
        i = i + 1;
    }
    assert(payload@.subrange(0, payload@.len() as int) =~= payload@);
    assert(out@ =~= old(out)@ + len_field(number, payload@));
}

/// Appends a varint field.
pub fn put_varint_field(out: &mut Vec<u8>, number: u64, v: u64)
    requires
        1 <= number <= 1000,
    ensures
        final(out)@ == old(out)@ + varint_field(number, v),
{
    put_varint(out, number * 8);
    put_varint(out, v);
    assert(out@ =~= old(out)@ + varint_field(number, v));
}

/// A length-delimited field reads back with its number and content.
pub proof fn lemma_len_field_reads_back(s: Seq<u8>, pos: int, end: int, number: u64, payload: Seq<u8>)
    requires
        1 <= number <= 1000,
        payload.len() <= u64::MAX,
        s.len() <= usize::MAX,
        0 <= pos,
        pos + len_field(number, payload).len() <= end <= s.len(),
        s.subrange(pos, pos + len_field(number, payload).len()) == len_field(number, payload),
    ensures
        field_at(s, pos, end) matches Some(f) && f.number == number && f.wire_type == 2
            && f.end == pos + len_field(number, payload).len() && f.start + payload.len() == f.end
            && s.subrange(f.start as int, f.end as int) == payload,
{
    let k = varint((number * 8 + 2) as nat);
    let l = varint(payload.len());
    let w = len_field(number, payload);
    assert(w == k + l + payload);
    assert(s.subrange(pos, pos + k.len()) =~= k) by {
        assert forall|j: int| 0 <= j < k.len() implies s.subrange(pos, pos + k.len())[j] == k[j] by {
            assert(s.subrange(pos, pos + w.len())[j] == w[j]);
        }
    }
    lemma_varint64_reads_back(s, pos, end, (number * 8 + 2) as u64);
    let p1 = pos + k.len();
    assert(s.subrange(p1, p1 + l.len()) =~= l) by {
        assert forall|j: int| 0 <= j < l.len() implies s.subrange(p1, p1 + l.len())[j] == l[j] by {
            assert(s.subrange(pos, pos + w.len())[k.len() + j] == w[k.len() + j]);
        }
    }
    lemma_varint64_reads_back(s, p1, end, payload.len() as u64);
    let p2 = p1 + l.len();
    assert(p2 + payload.len() == pos + w.len());
    assert(((number * 8 + 2) as u64) / 8 == number);
    assert(((number * 8 + 2) as u64) % 8 == 2);
    assert(s.subrange(p2, p2 + payload.len()) =~= payload) by {
        assert forall|j: int| 0 <= j < payload.len() implies s.subrange(p2, p2 + payload.len())[j]
            == payload[j] by {
            assert(s.subrange(pos, pos + w.len())[k.len() + l.len() + j] == w[k.len() + l.len() + j]);
        }
    }
}

/// A varint field reads back with its number and value.
pub proof fn lemma_varint_field_reads_back(s: Seq<u8>, pos: int, end: int, number: u64, v: u64)
    requires
        1 <= number <= 1000,
        s.len() <= usize::MAX,
        0 <= pos,
        pos + varint_field(number, v).len() <= end <= s.len(),
        s.subrange(pos, pos + varint_field(number, v).len()) == varint_field(number, v),
    ensures
        field_at(s, pos, end) == Some(
            RawField {
                number,
                wire_type: 0,
                value: v,
                start: (pos + varint((number * 8) as nat).len()) as usize,
                end: (pos + varint_field(number, v).len()) as usize,
            },
        ),
{
    let k = varint((number * 8) as nat);
    let l = varint(v as nat);
    let w = varint_field(number, v);
    assert(w == k + l);
    assert(s.subrange(pos, pos + k.len()) =~= k) by {
        assert forall|j: int| 0 <= j < k.len() implies s.subrange(pos, pos + k.len())[j] == k[j] by {
            assert(s.subrange(pos, pos + w.len())[j] == w[j]);
        }
    }
    lemma_varint64_reads_back(s, pos, end, (number * 8) as u64);
    let p1 = pos + k.len();
    assert(s.subrange(p1, p1 + l.len()) =~= l) by {
        assert forall|j: int| 0 <= j < l.len() implies s.subrange(p1, p1 + l.len())[j] == l[j] by {
            assert(s.subrange(pos, pos + w.len())[k.len() + j] == w[k.len() + j]);
        }
    }
    lemma_varint64_reads_back(s, p1, end, v);
    assert(((number * 8) as u64) / 8 == number);
    assert(((number * 8) as u64) % 8 == 0);
}

} // verus!
