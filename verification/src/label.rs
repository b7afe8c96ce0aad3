//! Labels: the deterministically encodable values that seed a generator and
//! address its forks.
//!
//! A label is encoded to bytes by one fixed, structural scheme: a one-byte
//! variant tag, then the payload in little-endian form, with text and byte
//! payloads length-prefixed.  The scheme is injective — distinct label
//! values never encode to the same bytes — which is what makes forks
//! addressed by distinct labels reach distinct generator states.

use vstd::bytes::*;
use vstd::prelude::*;

verus! {

/// The mathematical value of a [`Label`]: the same four variants over the
/// views of the payloads.
pub enum LabelVal {
    Unsigned(u64),
    Signed(i64),
    Text(Seq<char>),
    Bytes(Seq<u8>),
}

/// A value that can address a fork of a generator: an integer, a piece of
/// text, or raw bytes.  Structured labels are built by encoding each part to
/// bytes, or by forking once per part.
#[derive(Debug, Clone, PartialEq, Eq)]
pub enum Label {
    Unsigned(u64),
    Signed(i64),
    Text(String),
    Bytes(Vec<u8>),
}

impl View for Label {
    type V = LabelVal;

    open spec fn view(&self) -> LabelVal {
        match self {
            Label::Unsigned(v) => LabelVal::Unsigned(*v),
            Label::Signed(v) => LabelVal::Signed(*v),
            Label::Text(s) => LabelVal::Text(s@),
            Label::Bytes(b) => LabelVal::Bytes(b@),
        }
    }
}

/// Each character as four little-endian bytes of its code point.
pub open spec fn chars_to_bytes(s: Seq<char>) -> Seq<u8>
    decreases s.len(),
{
    if s.len() == 0 {
        Seq::empty()
    } else {
        spec_u32_to_le_bytes(s[0] as u32) + chars_to_bytes(s.drop_first())
    }
}

/// The fixed structural encoding of a label: a variant tag byte, then the
/// payload — integers as eight little-endian bytes, text and bytes prefixed
/// with their length as eight little-endian bytes.
pub open spec fn enc_val(v: LabelVal) -> Seq<u8> {
    match v {
        LabelVal::Unsigned(x) => seq![0u8] + spec_u64_to_le_bytes(x),
        LabelVal::Signed(x) => seq![1u8] + spec_u64_to_le_bytes(x as u64),
        LabelVal::Text(s) => seq![2u8] + spec_u64_to_le_bytes(s.len() as u64) + chars_to_bytes(s),
        LabelVal::Bytes(b) => seq![3u8] + spec_u64_to_le_bytes(b.len() as u64) + b,
    }
}

impl Label {
    /// The bytes this label absorbs into a forked generator.
    pub open spec fn enc(&self) -> Seq<u8> {
        enc_val(self@)
    }

    /// Encode the label with the fixed structural scheme.
    pub fn encode(&self) -> (r: Vec<u8>)
        ensures
            r@ == self.enc(),
    {
        match self {
            Label::Unsigned(v) => {
                let mut r: Vec<u8> = Vec::new();
                r.push(0u8);
                let mut tail = u64_to_le_bytes(*v);
                r.append(&mut tail);
                proof {
                    assert(r@ =~= self.enc());
                }
                r
            },
            Label::Signed(v) => {
                let mut r: Vec<u8> = Vec::new();
                r.push(1u8);
                let mut tail = u64_to_le_bytes(*v as u64);
                r.append(&mut tail);
                proof {
                    assert(r@ =~= self.enc());
                }
                r
            },
            Label::Text(s) => {
                let mut r: Vec<u8> = Vec::new();
                r.push(2u8);
                let n = s.as_str().unicode_len();
                let mut len_bytes = u64_to_le_bytes(n as u64);
                r.append(&mut len_bytes);
                let ghost header = r@;
                let mut i: usize = 0;
                while i < n
                    invariant
                        i <= n,
                        n == s@.len(),
                        r@ == header + chars_to_bytes(s@.take(i as int)),
                    decreases n - i,
                {
                    let c = s.as_str().get_char(i);
                    let mut char_bytes = u32_to_le_bytes(c as u32);
                    r.append(&mut char_bytes);
                    proof {
                        lemma_chars_to_bytes_push(s@.take(i as int), s@[i as int]);
                        assert(s@.take(i + 1 as int) =~= s@.take(i as int).push(s@[i as int]));
                    }
                    i += 1;
                }
                proof {
                    assert(s@.take(n as int) =~= s@);
                    assert(r@ =~= self.enc());
                }
                r
            },
            Label::Bytes(b) => {
                let mut r: Vec<u8> = Vec::new();
                r.push(3u8);
                let mut len_bytes = u64_to_le_bytes(b.len() as u64);
                r.append(&mut len_bytes);
                let mut tail = b.clone();
                r.append(&mut tail);
                proof {
                    assert(r@ =~= self.enc());
                }
                r
            },
        }
    }
}

/// Appending one character extends the character encoding by that
/// character's four bytes.
pub proof fn lemma_chars_to_bytes_push(s: Seq<char>, c: char)
    ensures
        chars_to_bytes(s.push(c)) == chars_to_bytes(s) + spec_u32_to_le_bytes(c as u32),
    decreases s.len(),
{
    let t = s.push(c);
    if s.len() == 0 {
        assert(t[0] == c);
        assert(t.drop_first() =~= Seq::<char>::empty());
        assert(chars_to_bytes(t.drop_first()) == Seq::<u8>::empty());
        assert(chars_to_bytes(t) == spec_u32_to_le_bytes(c as u32) + Seq::<u8>::empty());
        assert(chars_to_bytes(t) =~= chars_to_bytes(s) + spec_u32_to_le_bytes(c as u32));
    } else {
        assert(t.drop_first() =~= s.drop_first().push(c));
        lemma_chars_to_bytes_push(s.drop_first(), c);
        assert(t.len() != 0 && t[0] == s[0]);
        assert(chars_to_bytes(t) == spec_u32_to_le_bytes(s[0] as u32) + (chars_to_bytes(
            s.drop_first(),
        ) + spec_u32_to_le_bytes(c as u32)));
        assert(chars_to_bytes(s) == spec_u32_to_le_bytes(s[0] as u32) + chars_to_bytes(
            s.drop_first(),
        ));
        assert(chars_to_bytes(t) =~= chars_to_bytes(s) + spec_u32_to_le_bytes(c as u32));
    }
}

/// The character encoding is four bytes per character.
pub proof fn lemma_chars_to_bytes_len(s: Seq<char>)
    ensures
        chars_to_bytes(s).len() == 4 * s.len(),
    decreases s.len(),
{
    lemma_auto_spec_u32_to_from_le_bytes();
    if s.len() != 0 {
        lemma_chars_to_bytes_len(s.drop_first());
    }
}

/// Character sequences of equal length with equal encodings are equal.
pub proof fn lemma_chars_to_bytes_injective(a: Seq<char>, b: Seq<char>)
    requires
        a.len() == b.len(),
        chars_to_bytes(a) == chars_to_bytes(b),
    ensures
        a == b,
    decreases a.len(),
{
    lemma_auto_spec_u32_to_from_le_bytes();
    if a.len() == 0 {
        assert(a =~= b);
    } else {
        let ea = chars_to_bytes(a);
        assert(spec_u32_to_le_bytes(a[0] as u32) =~= ea.subrange(0, 4));
        assert(spec_u32_to_le_bytes(b[0] as u32) =~= ea.subrange(0, 4));
        assert(a[0] as u32 == b[0] as u32);
        vstd::utf8::char_u32_cast(a[0], a[0] as u32);
        vstd::utf8::char_u32_cast(b[0], b[0] as u32);
        assert(a[0] == b[0]);
        assert(chars_to_bytes(a.drop_first()) =~= ea.subrange(4, ea.len() as int));
        assert(chars_to_bytes(b.drop_first()) =~= ea.subrange(4, ea.len() as int));
        lemma_chars_to_bytes_injective(a.drop_first(), b.drop_first());
        assert forall|i: int| 0 <= i < a.len() implies a[i] == b[i] by {
            if i > 0 {
                assert(a[i] == a.drop_first()[i - 1]);
                assert(b[i] == b.drop_first()[i - 1]);
            }
        }
        assert(a =~= b);
    }
}

/// The tag byte that opens each variant's encoding.
pub open spec fn tag_of(v: LabelVal) -> u8 {
    match v {
        LabelVal::Unsigned(_) => 0u8,
        LabelVal::Signed(_) => 1u8,
        LabelVal::Text(_) => 2u8,
        LabelVal::Bytes(_) => 3u8,
    }
}

/// Every encoding is at least nine bytes and starts with the variant tag.
pub proof fn lemma_enc_shape(v: LabelVal)
    ensures
        enc_val(v).len() >= 9,
        enc_val(v)[0] == tag_of(v),
{
    lemma_auto_spec_u64_to_from_le_bytes();
    match v {
        LabelVal::Text(s) => lemma_chars_to_bytes_len(s),
        _ => {},
    }
}

/// The label encoding is injective: distinct label values never encode to
/// the same byte sequence.
pub proof fn lemma_enc_val_injective(a: LabelVal, b: LabelVal)
    requires
        enc_val(a) == enc_val(b),
    ensures
        a == b,
{
    lemma_auto_spec_u64_to_from_le_bytes();
    lemma_enc_shape(a);
    lemma_enc_shape(b);
    assert(tag_of(a) == tag_of(b));
    let e = enc_val(a);
    match (a, b) {
        (LabelVal::Unsigned(x), LabelVal::Unsigned(y)) => {
            assert(spec_u64_to_le_bytes(x) =~= e.subrange(1, 9));
            assert(spec_u64_to_le_bytes(y) =~= e.subrange(1, 9));
            assert(x == y);
        },
        (LabelVal::Signed(x), LabelVal::Signed(y)) => {
            assert(spec_u64_to_le_bytes(x as u64) =~= e.subrange(1, 9));
            assert(spec_u64_to_le_bytes(y as u64) =~= e.subrange(1, 9));
            assert(x as u64 == y as u64);
            assert(x == y) by (bit_vector)
                requires
                    x as u64 == y as u64,
            ;
        },
        (LabelVal::Text(s1), LabelVal::Text(s2)) => {
            lemma_chars_to_bytes_len(s1);
            lemma_chars_to_bytes_len(s2);
            assert(s1.len() == s2.len());
            assert(chars_to_bytes(s1) =~= e.subrange(9, e.len() as int));
            assert(chars_to_bytes(s2) =~= e.subrange(9, e.len() as int));
            lemma_chars_to_bytes_injective(s1, s2);
        },
        (LabelVal::Bytes(b1), LabelVal::Bytes(b2)) => {
            assert(b1 =~= e.subrange(9, e.len() as int));
            assert(b2 =~= e.subrange(9, e.len() as int));
        },
        _ => {},
    }
}

/// Seed sensitivity: distinct labels encode differently, so generators
/// created from distinct seed labels start in distinct states.  (That their
/// digests also differ is a statistical property of the mixing function, not
/// claimed here.)
pub proof fn lemma_enc_val_distinct(a: LabelVal, b: LabelVal)
    requires
        a != b,
    ensures
        enc_val(a) != enc_val(b),
{
    if enc_val(a) == enc_val(b) {
        lemma_enc_val_injective(a, b);
    }
}

} // verus!
