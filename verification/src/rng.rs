//! The forkable generator and its draw protocol.

use crate::hashing::absorbed;
use crate::hashing::digest_of;
use crate::hashing::hasher_finish;
use crate::hashing::hasher_new;
use crate::hashing::hasher_write;
use crate::label::enc_val;
use crate::label::lemma_enc_val_injective;
use crate::label::Label;
use crate::label::LabelVal;
use vstd::bytes::*;
use vstd::prelude::*;

verus! {

/// One draw-and-advance step on the abstract state: the state grows by one
/// chunk holding the eight little-endian bytes of its own digest.
pub open spec fn advance1(s: Seq<Seq<u8>>) -> Seq<Seq<u8>> {
    s.push(spec_u64_to_le_bytes(digest_of(s)))
}

/// The abstract state after `k` draw-and-advance steps.
pub open spec fn advance_n(s: Seq<Seq<u8>>, k: nat) -> Seq<Seq<u8>>
    decreases k,
{
    if k == 0 {
        s
    } else {
        advance1(advance_n(s, (k - 1) as nat))
    }
}

/// Byte `i` of the raw byte stream a generator in state `s` produces:
/// successive digests, each laid out as eight little-endian bytes.
pub open spec fn stream_byte(s: Seq<Seq<u8>>, i: nat) -> u8 {
    spec_u64_to_le_bytes(digest_of(advance_n(s, i / 8)))[(i % 8) as int]
}

/// The first `n` bytes of the raw byte stream from state `s`.
pub open spec fn digest_stream(s: Seq<Seq<u8>>, n: nat) -> Seq<u8> {
    Seq::new(n, |i: int| stream_byte(s, i as nat))
}

/// The forkable pseudo-random generator: a value type around one rapidhash
/// accumulator.  Its mathematical state, `self@`, is the sequence of byte
/// chunks the accumulator has absorbed — one chunk per seed or fork label,
/// one per draw — and every operation below is specified as a pure function
/// of that sequence.
#[derive(Clone, Copy)]
pub struct PureRandomGenerator {
    hasher: rapidhash::RapidHasher,
}

impl View for PureRandomGenerator {
    type V = Seq<Seq<u8>>;

    closed spec fn view(&self) -> Seq<Seq<u8>> {
        absorbed(self.hasher)
    }
}

impl Default for PureRandomGenerator {
    /// A generator over an accumulator in its defined initial state; any two
    /// such generators behave identically.
    fn default() -> (r: Self)
        ensures
            r@ == Seq::<Seq<u8>>::empty(),
    {
        PureRandomGenerator { hasher: hasher_new() }
    }
}

impl PureRandomGenerator {
    /// Creates a new generator seeded with the given label: the default
    /// generator forked once by the seed.
    pub fn new(label: &Label) -> (r: Self)
        ensures
            r@ == seq![label.enc()],
    {
        let root = Self::default();
        let r = root.seed(label);
        proof {
            assert(r@ =~= seq![label.enc()]);
        }
        r
    }

    /// Forks the generator: copies the receiver, absorbs the encoded label
    /// into the copy as one chunk, and returns the copy.  The receiver is
    /// not touched, so any number of independent children can be forked from
    /// one parent in any order.
    pub fn seed(&self, label: &Label) -> (r: Self)
        ensures
            r@ == self@.push(label.enc()),
    {
        let mut fork = *self;
        let bytes = label.encode();
        hasher_write(&mut fork.hasher, bytes.as_slice());
        fork
    }

    /// Draws a 64-bit value: the digest of the current state.  The state
    /// then advances by absorbing the drawn value's eight little-endian
    /// bytes as one chunk, so the state strictly grows and a following draw
    /// reads a different state.
    pub fn next_u64(&mut self) -> (v: u64)
        ensures
            v == digest_of(old(self)@),
            final(self)@ == old(self)@.push(spec_u64_to_le_bytes(v)),
            final(self)@.len() == old(self)@.len() + 1,
    {
        let v = hasher_finish(&self.hasher);
        let bytes = u64_to_le_bytes(v);
        hasher_write(&mut self.hasher, bytes.as_slice());
        v
    }

    /// Draws a 32-bit value: the low half of the next 64-bit draw, with the
    /// same single state advance.
    pub fn next_u32(&mut self) -> (v: u32)
        ensures
            v == digest_of(old(self)@) as u32,
            final(self)@ == old(self)@.push(spec_u64_to_le_bytes(digest_of(old(self)@))),
    {
        let wide = self.next_u64();
        #[verifier::truncate] (wide as u32)
    }

    /// Overwrites every byte of `dest` with the generator's raw byte stream:
    /// successive digests in little-endian order, drawing and advancing once
    /// per eight bytes (and once more for a final partial chunk).
    pub fn fill_bytes(&mut self, dest: &mut Vec<u8>)
        ensures
            final(dest)@.len() == old(dest)@.len(),
            final(dest)@ == digest_stream(old(self)@, old(dest)@.len() as nat),
            final(self)@ == advance_n(old(self)@, ((old(dest)@.len() + 7) / 8) as nat),
    {
        let n = dest.len();
        let ghost s0 = self@;
        let mut g = *self;
        let mut out: Vec<u8> = Vec::new();
        let mut k: usize = 0;
        while out.len() < n
            invariant
                out@.len() <= n,
                out@.len() % 8 == 0 || out@.len() == n,
                k == ((out@.len() + 7) / 8) as usize,
                g@ == advance_n(s0, k as nat),
                forall|t: int| 0 <= t < out@.len() ==> out@[t] == stream_byte(s0, t as nat),
            decreases n - out@.len(),
        {
            let ghost base = out@.len() as int;
            proof {
                assert(base == 8 * (k as int)) by (nonlinear_arith)
                    requires
                        base % 8 == 0,
                        base >= 0,
                        k as int == (base + 7) / 8,
                ;
            }
            let v = g.next_u64();
            let bytes = u64_to_le_bytes(v);
            proof {
                lemma_auto_spec_u64_to_from_le_bytes();
            }
            let mut j: usize = 0;
            while j < 8
                invariant
                    j <= 8,
                    base == 8 * (k as int),
                    0 <= base < n,
                    out@.len() == (if base + j <= n {
                        base + j
                    } else {
                        n as int
                    }),
                    bytes@.len() == 8,
                    bytes@ == spec_u64_to_le_bytes(digest_of(advance_n(s0, k as nat))),
                    g@ == advance_n(s0, (k + 1) as nat),
                    forall|t: int| 0 <= t < out@.len() ==> out@[t] == stream_byte(s0, t as nat),
                decreases 8 - j,
            {
                if out.len() < n {
                    proof {
                        let t = base + j as int;
                        assert(t / 8 == k as int && t % 8 == j as int) by (nonlinear_arith)
                            requires
                                0 <= j < 8,
                                0 <= k,
                                t == 8 * (k as int) + j as int,
                        ;
                        assert(bytes@[j as int] == stream_byte(s0, t as nat));
                    }
                    out.push(bytes[j]);
                }
                j += 1;
            }
            k += 1;
            proof {
                let m = out@.len() as int;
                assert(k as int == (m + 7) / 8) by (nonlinear_arith)
                    requires
                        base == 8 * ((k - 1) as int),
                        base < n,
                        m == (if base + 8 <= n {
                            base + 8
                        } else {
                            n as int
                        }),
                        m <= n,
                ;
            }
        }
        proof {
            assert(out@ =~= digest_stream(s0, n as nat));
        }
        *dest = out;
        *self = g;
    }
}

/// The abstract state reached from a root state by a chain of forks, one
/// chunk per label.
pub open spec fn fork_chain(root: Seq<Seq<u8>>, labels: Seq<LabelVal>) -> Seq<Seq<u8>>
    decreases labels.len(),
{
    if labels.len() == 0 {
        root
    } else {
        fork_chain(root.push(enc_val(labels[0])), labels.drop_first())
    }
}

/// One more fork extends the chain: appending a label to the chain pushes
/// its encoding onto the state, exactly as `seed`'s contract does.
pub proof fn lemma_fork_chain_push(root: Seq<Seq<u8>>, labels: Seq<LabelVal>, l: LabelVal)
    ensures
        fork_chain(root, labels.push(l)) == fork_chain(root, labels).push(enc_val(l)),
    decreases labels.len(),
{
    let t = labels.push(l);
    if labels.len() == 0 {
        assert(t[0] == l);
        assert(t.drop_first() =~= Seq::<LabelVal>::empty());
        assert(fork_chain(root, t) == fork_chain(root.push(enc_val(l)), t.drop_first()));
        assert(fork_chain(root.push(enc_val(l)), t.drop_first()) == root.push(enc_val(l)));
    } else {
        assert(t[0] == labels[0]);
        assert(t.drop_first() =~= labels.drop_first().push(l));
        lemma_fork_chain_push(root.push(enc_val(labels[0])), labels.drop_first(), l);
    }
}

/// Determinism: the state reached by seeding with a label and forking down a
/// chain of labels is a function of those labels alone, so two generators
/// built the same way are in the same state and produce the same stream.
pub proof fn lemma_replay_deterministic(
    seed: LabelVal,
    labels: Seq<LabelVal>,
    v1: Seq<Seq<u8>>,
    v2: Seq<Seq<u8>>,
    n: nat,
)
    requires
        v1 == fork_chain(seq![enc_val(seed)], labels),
        v2 == fork_chain(seq![enc_val(seed)], labels),
    ensures
        v1 == v2,
        digest_stream(v1, n) == digest_stream(v2, n),
{
}

/// Label sensitivity: forks of one parent addressed by distinct labels are
/// in distinct states.  (That their digests also differ is a statistical
/// property of the mixing function, not claimed here.)
pub proof fn lemma_distinct_labels_distinct_forks(parent: Seq<Seq<u8>>, a: LabelVal, b: LabelVal)
    requires
        a != b,
    ensures
        parent.push(enc_val(a)) != parent.push(enc_val(b)),
{
    if parent.push(enc_val(a)) == parent.push(enc_val(b)) {
        assert(parent.push(enc_val(a))[parent.len() as int] == enc_val(a));
        assert(parent.push(enc_val(b))[parent.len() as int] == enc_val(b));
        lemma_enc_val_injective(a, b);
    }
}

/// After `k` draws the state has grown by exactly one chunk per draw.
pub proof fn lemma_advance_n_len(s: Seq<Seq<u8>>, k: nat)
    ensures
        advance_n(s, k).len() == s.len() + k,
    decreases k,
{
    if k != 0 {
        lemma_advance_n_len(s, (k - 1) as nat);
    }
}

/// Advance-on-draw: each draw strictly extends the state, so the states a
/// single evolving generator passes through never repeat.  (That the drawn
/// values themselves differ is a statistical property of the mixing
/// function, not claimed here.)
pub proof fn lemma_draw_states_distinct(s: Seq<Seq<u8>>, k1: nat, k2: nat)
    requires
        k1 < k2,
    ensures
        advance_n(s, k1) != advance_n(s, k2),
{
    lemma_advance_n_len(s, k1);
    lemma_advance_n_len(s, k2);
}

} // verus!
