use vstd::prelude::*;
use crate::document::Glyph;

verus! {

/// The scalar value of a character.
pub open spec fn scalar_of(c: char) -> u32 {
    c as u32
}

/// The four little-endian bytes of `v`.
pub open spec fn le_bytes(v: u32) -> Seq<u8> {
    seq![(v & 0xff) as u8, ((v >> 8u32) & 0xff) as u8, ((v >> 16u32) & 0xff) as u8, ((v >> 24u32) & 0xff) as u8]
}

/// A glyph on the wire: its character's scalar value, then its style, each in
/// four little-endian bytes.
pub open spec fn glyph_bytes(g: Glyph) -> Seq<u8> {
    le_bytes(g.ch as u32) + le_bytes(g.style)
}

/// A document state on the wire: its glyphs, eight bytes each.
pub open spec fn encode(s: Seq<Glyph>) -> Seq<u8> {
    Seq::new(8 * s.len(), |i: int| glyph_bytes(s[i / 8])[i % 8])
}

proof fn lemma_le_bytes_of(b0: u8, b1: u8, b2: u8, b3: u8, v: u32)
    requires
        v == (b0 as u32) | ((b1 as u32) << 8u32) | ((b2 as u32) << 16u32) | ((b3 as u32) << 24u32),
    ensures
        le_bytes(v) == seq![b0, b1, b2, b3],
{
    assert((v & 0xff) as u8 == b0 && ((v >> 8u32) & 0xff) as u8 == b1 && ((v >> 16u32) & 0xff) as u8 == b2
        && ((v >> 24u32) & 0xff) as u8 == b3) by (bit_vector)
        requires
            v == (b0 as u32) | ((b1 as u32) << 8u32) | ((b2 as u32) << 16u32) | ((b3 as u32) << 24u32),
    ;
}

proof fn lemma_le_bytes_injective(x: u32, y: u32)
    requires
        le_bytes(x) == le_bytes(y),
    ensures
        x == y,
{
    assert(le_bytes(x)[0] == le_bytes(y)[0]);
    assert(le_bytes(x)[1] == le_bytes(y)[1]);
    assert(le_bytes(x)[2] == le_bytes(y)[2]);
    assert(le_bytes(x)[3] == le_bytes(y)[3]);
    assert(x == y) by (bit_vector)
        requires
            (x & 0xff) as u8 == (y & 0xff) as u8,
            ((x >> 8u32) & 0xff) as u8 == ((y >> 8u32) & 0xff) as u8,
            ((x >> 16u32) & 0xff) as u8 == ((y >> 16u32) & 0xff) as u8,
            ((x >> 24u32) & 0xff) as u8 == ((y >> 24u32) & 0xff) as u8,
    ;
}

proof fn lemma_encode_index(s: Seq<Glyph>, k: int, j: int)
    requires
        0 <= k < s.len(),
        0 <= j < 8,
    ensures
        encode(s).len() == 8 * s.len(),
        encode(s)[8 * k + j] == glyph_bytes(s[k])[j],
{
    assert((8 * k + j) / 8 == k);
    assert((8 * k + j) % 8 == j);
}

/// Two document states with the same encoding are the same: decoding gives
/// back exactly the state that was encoded.
pub proof fn lemma_encode_injective(a: Seq<Glyph>, b: Seq<Glyph>)
    requires
        encode(a) == encode(b),
    ensures
        a == b,
{
    assert(encode(a).len() == 8 * a.len());
    assert(encode(b).len() == 8 * b.len());
    assert forall|k: int| 0 <= k < a.len() implies a[k] == b[k] by {
        assert forall|j: int| 0 <= j < 8 implies glyph_bytes(a[k])[j] == glyph_bytes(b[k])[j] by {
            lemma_encode_index(a, k, j);
            lemma_encode_index(b, k, j);
        }
        let ga = glyph_bytes(a[k]);
        let gb = glyph_bytes(b[k]);
        assert(le_bytes(a[k].ch as u32) =~= ga.subrange(0, 4));
        assert(le_bytes(b[k].ch as u32) =~= gb.subrange(0, 4));
        assert(le_bytes(a[k].style) =~= ga.subrange(4, 8));
        assert(le_bytes(b[k].style) =~= gb.subrange(4, 8));
        assert(ga.subrange(0, 4) =~= gb.subrange(0, 4));
        assert(ga.subrange(4, 8) =~= gb.subrange(4, 8));
        lemma_le_bytes_injective(a[k].ch as u32, b[k].ch as u32);
        lemma_le_bytes_injective(a[k].style, b[k].style);
    }
    assert(a =~= b);
}

/// Relies on `char::from_u32`: it returns the character whose scalar value is
/// `v`, and `None` exactly when no character has that value.
#[verifier::external_body]
fn char_from_u32(v: u32) -> (r: Option<char>)
    ensures
        r matches Some(c) ==> c as u32 == v,
        r is None ==> forall|c: char| #[trigger] scalar_of(c) != v,
{
    char::from_u32(v)
}

fn push_le(v: u32, out: &mut Vec<u8>)
    ensures
        final(out)@ == old(out)@ + le_bytes(v),
{
    out.push((v & 0xff) as u8);
    out.push(((v >> 8u32) & 0xff) as u8);
    out.push(((v >> 16u32) & 0xff) as u8);
    out.push(((v >> 24u32) & 0xff) as u8);
    assert(final(out)@ =~= old(out)@ + le_bytes(v));
}

proof fn lemma_decode_step(prev: Seq<Glyph>, g: Glyph, b: Seq<u8>, k: int)
    requires
        prev.len() == k,
        0 <= k,
        8 * k + 8 <= b.len(),
        forall|i: int| 0 <= i < 8 * k ==> #[trigger] encode(prev)[i] == b[i],
        glyph_bytes(g) == b.subrange(8 * k, 8 * k + 8),
    ensures
        prev.push(g).len() == k + 1,
        forall|i: int| 0 <= i < 8 * k + 8 ==> #[trigger] encode(prev.push(g))[i] == b[i],
{
    let next = prev.push(g);
    assert forall|i: int| 0 <= i < 8 * k + 8 implies #[trigger] encode(next)[i] == b[i] by {
        if i < 8 * k {
            assert(i / 8 < k) by (nonlinear_arith)
                requires
                    0 <= i < 8 * k,
            ;
            assert(encode(prev)[i] == b[i]);
        } else {
            assert(i / 8 == k);
            assert(b.subrange(8 * k, 8 * k + 8)[i % 8] == b[i]);
        }
    }
}

/// The bytes of a document state.
pub fn to_bytes(glyphs: &Vec<Glyph>) -> (r: Vec<u8>)
    ensures
        r@ == encode(glyphs@),
{
    let mut out: Vec<u8> = Vec::new();
    let mut k: usize = 0;
    while k < glyphs.len()
        invariant
            k <= glyphs.len(),
            out@ == encode(glyphs@.subrange(0, k as int)),
        decreases glyphs.len() - k,
    {
        let g = glyphs[k];
        let ghost before = out@;
        push_le(g.ch as u32, &mut out);
        push_le(g.style, &mut out);
        k += 1;
        let ghost pre = glyphs@.subrange(0, k - 1);
        let ghost cur = glyphs@.subrange(0, k as int);
        assert forall|i: int| 0 <= i < 8 * cur.len() implies #[trigger] out@[i] == encode(cur)[i] by {
            if i < 8 * pre.len() {
                assert(i / 8 < pre.len()) by (nonlinear_arith)
                    requires 0 <= i < 8 * pre.len();
                assert(cur[i / 8] == pre[i / 8]);
            } else {
                assert(i / 8 == k - 1);
                assert(glyph_bytes(g) =~= le_bytes(g.ch as u32) + le_bytes(g.style));
            }
        }
        assert(out@ =~= encode(cur));
    }
    assert(glyphs@.subrange(0, glyphs.len() as int) =~= glyphs@);
    out
}

/// Reads back a document state: `Some` exactly when the bytes are the
/// encoding of one, and then that one.
#[verifier::spinoff_prover]
pub fn from_bytes(b: &Vec<u8>) -> (r: Option<Vec<Glyph>>)
    ensures
        r matches Some(g) ==> encode(g@) == b@,
        r is None ==> forall|g: Seq<Glyph>| encode(g) != b@,
{
    if b.len() % 8 != 0 {
        assert forall|g: Seq<Glyph>| encode(g) != b@ by {
            assert(encode(g).len() == 8 * g.len());
        }
        return None;
    }
    let n = b.len() / 8;
    let mut out: Vec<Glyph> = Vec::new();
    let mut k: usize = 0;
    while k < n
        invariant
            n * 8 == b.len(),
            k <= n,
            out@.len() == k,
            forall|i: int| 0 <= i < 8 * k ==> #[trigger] encode(out@)[i] == b@[i],
        decreases n - k,
    {
        let p = 8 * k;
        let c = (b[p] as u32) | ((b[p + 1] as u32) << 8u32) | ((b[p + 2] as u32) << 16u32) | ((b[p + 3] as u32) << 24u32);
        let s = (b[p + 4] as u32) | ((b[p + 5] as u32) << 8u32) | ((b[p + 6] as u32) << 16u32) | ((b[p + 7] as u32) << 24u32);
        proof {
            lemma_le_bytes_of(b@[p as int], b@[p + 1], b@[p + 2], b@[p + 3], c);
            lemma_le_bytes_of(b@[p + 4], b@[p + 5], b@[p + 6], b@[p + 7], s);
        }
        match char_from_u32(c) {
            None => {
                assert forall|g: Seq<Glyph>| encode(g) != b@ by {
                    if encode(g) == b@ {
                        assert(g.len() == n);
                        assert forall|j: int| 0 <= j < 4 implies glyph_bytes(g[k as int])[j] == b@[p + j] by {
                            lemma_encode_index(g, k as int, j);
                        }
                        assert(le_bytes(g[k as int].ch as u32) =~= le_bytes(c));
                        lemma_le_bytes_injective(g[k as int].ch as u32, c);
                        assert(scalar_of(g[k as int].ch) == c);
                    }
                }
                return None;
            },
            Some(ch) => {
                let ghost prev = out@;
                let ghost g = Glyph { ch, style: s };
                assert(glyph_bytes(g) =~= b@.subrange(p as int, p + 8));
                out.push(Glyph { ch, style: s });
                proof {
                    lemma_decode_step(prev, g, b@, k as int);
                }
                k += 1;
            },
        }
    }
    assert(encode(out@) =~= b@);
    Some(out)
}

} // verus!
