//! Fixed-size byte strings: hashes, addresses, curve points and signatures.

use vstd::prelude::*;

verus! {

/// A byte string of exactly `N` bytes. Two values are equal when they hold the
/// same bytes, and they are ordered lexicographically.
#[derive(Clone, Copy, Debug, Eq, Hash)]
pub struct FixedBytes<const N: usize>(pub [u8; N]);

/// 20-byte account address.
pub type H160 = FixedBytes<20>;

/// 32-byte hash.
pub type H256 = FixedBytes<32>;

/// 64-byte value.
pub type H512 = FixedBytes<64>;

/// Account address: the last 20 bytes of the hash of a public key.
pub type Address = H160;

/// Uncompressed curve point, without the leading tag byte.
pub type Public = H512;

/// Scalar of the curve's field.
pub type Secret = H256;

/// Recoverable signature: `r`, `s` and the recovery byte.
pub type Signature = FixedBytes<65>;

/// `a` comes before `b` in lexicographic byte order: they agree on a prefix,
/// after which either `a` ends first or `a` holds the smaller byte.
pub open spec fn bytes_less(a: Seq<u8>, b: Seq<u8>) -> bool {
    exists|k: int| #[trigger] differ_at(a, b, k) && (k == a.len() || a[k] < b[k])
}

/// `k` is the first position at which `a` and `b` differ, where `a` running
/// out before `b` counts as a difference.
pub open spec fn differ_at(a: Seq<u8>, b: Seq<u8>, k: int) -> bool {
    &&& 0 <= k <= a.len()
    &&& k < b.len()
    &&& a.subrange(0, k) == b.subrange(0, k)
    &&& k < a.len() ==> a[k] != b[k]
}

/// The first position at which two strings differ is unique.
pub proof fn lemma_differ_at_unique(a: Seq<u8>, b: Seq<u8>, j: int, k: int)
    requires
        differ_at(a, b, j),
        differ_at(a, b, k),
    ensures
        j == k,
{
    if j < k {
        assert(a.subrange(0, k)[j] == b.subrange(0, k)[j]);
    } else if k < j {
        assert(a.subrange(0, j)[k] == b.subrange(0, j)[k]);
    }
}

/// Lexicographic order is irreflexive.
pub proof fn lemma_bytes_less_irreflexive(a: Seq<u8>)
    ensures
        !bytes_less(a, a),
{
}

/// Of two strings of one length, exactly one of three holds: the first comes
/// before the second, they are equal, or the second comes before the first.
pub proof fn lemma_bytes_less_total(a: Seq<u8>, b: Seq<u8>)
    requires
        a.len() == b.len(),
    ensures
        bytes_less(a, b) || a == b || bytes_less(b, a),
        !(bytes_less(a, b) && bytes_less(b, a)),
        !(bytes_less(a, b) && a == b),
{
    if bytes_less(a, b) && bytes_less(b, a) {
        let j = choose|k: int| #[trigger] differ_at(a, b, k) && (k == a.len() || a[k] < b[k]);
        let k = choose|k: int| #[trigger] differ_at(b, a, k) && (k == b.len() || b[k] < a[k]);
        assert(differ_at(a, b, k)) by {
            assert(a.subrange(0, k) == b.subrange(0, k));
        }
        lemma_differ_at_unique(a, b, j, k);
    }
    if a != b {
        assert(a.subrange(0, 0) =~= b.subrange(0, 0));
        lemma_first_difference(a, b, 0);
    }
}

/// Two distinct strings of one length that agree before `from` differ at some
/// first position at or after it.
proof fn lemma_first_difference(a: Seq<u8>, b: Seq<u8>, from: int)
    requires
        a.len() == b.len(),
        0 <= from <= a.len(),
        a.subrange(0, from) == b.subrange(0, from),
        a != b,
    ensures
        bytes_less(a, b) || bytes_less(b, a),
    decreases a.len() - from,
{
    if from == a.len() {
        assert(a.subrange(0, from) == a);
        assert(b.subrange(0, from) == b);
    } else if a[from] == b[from] {
        assert(a.subrange(0, from + 1) =~= a.subrange(0, from).push(a[from]));
        assert(b.subrange(0, from + 1) =~= b.subrange(0, from).push(b[from]));
        lemma_first_difference(a, b, from + 1);
    } else {
        assert(differ_at(a, b, from));
        assert(differ_at(b, a, from));
    }
}

/// Lexicographic order is transitive.
pub proof fn lemma_bytes_less_transitive(a: Seq<u8>, b: Seq<u8>, c: Seq<u8>)
    requires
        bytes_less(a, b),
        bytes_less(b, c),
    ensures
        bytes_less(a, c),
{
    let j = choose|k: int| #[trigger] differ_at(a, b, k) && (k == a.len() || a[k] < b[k]);
    let k = choose|k: int| #[trigger] differ_at(b, c, k) && (k == b.len() || b[k] < c[k]);
    let m = if j <= k { j } else { k };
    assert(a.subrange(0, m) == c.subrange(0, m)) by {
        assert forall|i: int| 0 <= i < m implies a.subrange(0, m)[i] == c.subrange(0, m)[i] by {
            assert(a.subrange(0, j)[i] == b.subrange(0, j)[i]);
            assert(b.subrange(0, k)[i] == c.subrange(0, k)[i]);
        }
    }
    if j < k {
        assert(b.subrange(0, k)[j] == c.subrange(0, k)[j]);
    } else if k < j {
        assert(a.subrange(0, j)[k] == b.subrange(0, j)[k]);
    }
    assert(differ_at(a, c, m));
}

impl<const N: usize> View for FixedBytes<N> {
    type V = Seq<u8>;

    open spec fn view(&self) -> Seq<u8> {
        self.0@
    }
}

impl<const N: usize> FixedBytes<N> {
    /// Values that hold the same bytes are the same value.
    pub proof fn lemma_view_injective(self, other: Self)
        requires
            self@ == other@,
        ensures
            self == other,
    {
        assert forall|i: int| 0 <= i < N implies self.0[i] == other.0[i] by {
            assert(self.0@[i] == other.0@[i]);
        }
        assert(self.0 =~= other.0);
    }

    /// Two values are the same exactly when they hold the same bytes.
    pub proof fn lemma_same_bytes(self, other: Self)
        ensures
            (self@ == other@) == (self == other),
    {
        if self@ == other@ {
            self.lemma_view_injective(other);
        }
    }

    /// The string of `N` zero bytes.
    pub open spec fn zero_spec() -> Self {
        FixedBytes([0u8; N])
    }

    /// The string of `N` zero bytes.
    pub fn zero() -> (r: Self)
        ensures
            r == Self::zero_spec(),
            r@ == Seq::new(N as nat, |i: int| 0u8),
    {
        let r = FixedBytes([0u8; N]);
        assert(r@ =~= Seq::new(N as nat, |i: int| 0u8));
        r
    }

    /// Whether `self` comes strictly before `other` in lexicographic order.
    pub fn precedes(&self, other: &Self) -> (r: bool)
        ensures
            r == bytes_less(self@, other@),
    {
        let mut i: usize = 0;
        while i < N
            invariant
                i <= N,
                self@.subrange(0, i as int) == other@.subrange(0, i as int),
            decreases N - i,
        {
            if self.0[i] != other.0[i] {
                proof {
                    assert(differ_at(self@, other@, i as int));
                    assert(differ_at(other@, self@, i as int));
                    if self.0[i as int] < other.0[i as int] {
                    } else if bytes_less(self@, other@) {
                        let k = choose|k: int| #[trigger]
                            differ_at(self@, other@, k) && (k == self@.len() || self@[k]
                                < other@[k]);
                        lemma_differ_at_unique(self@, other@, k, i as int);
                    }
                }
                return self.0[i] < other.0[i];
            }
            proof {
                assert(self@.subrange(0, i + 1) =~= self@.subrange(0, i as int).push(self@[i as int]));
                assert(other@.subrange(0, i + 1) =~= other@.subrange(0, i as int).push(
                    other@[i as int],
                ));
            }
            i += 1;
        }
        proof {
            assert(self@.subrange(0, N as int) == self@);
            assert(other@.subrange(0, N as int) == other@);
            lemma_bytes_less_irreflexive(self@);
        }
        false
    }
}

impl<const N: usize> Default for FixedBytes<N> {
    /// The string of `N` zero bytes.
    fn default() -> (r: Self)
        ensures
            r == Self::zero_spec(),
    {
        FixedBytes::zero()
    }
}

impl<const N: usize> PartialEq for FixedBytes<N> {
    fn eq(&self, other: &Self) -> (r: bool) {
        let mut i: usize = 0;
        while i < N
            invariant
                i <= N,
                forall|j: int| 0 <= j < i ==> self.0@[j] == other.0@[j],
            decreases N - i,
        {
            if self.0[i] != other.0[i] {
                return false;
            }
            i += 1;
        }
        assert(self.0@ =~= other.0@);
        true
    }
}

impl<const N: usize> vstd::std_specs::cmp::PartialEqSpecImpl for FixedBytes<N> {
    open spec fn obeys_eq_spec() -> bool {
        true
    }

    open spec fn eq_spec(&self, other: &Self) -> bool {
        self@ == other@
    }
}

} // verus!
