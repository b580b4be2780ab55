//! Type-erased enum variant identities.
//!
//! A [`Discriminant`] records which variant of some enum-like type a value
//! occupies, with the originating type erased: discriminants built from
//! different enums can live together in one collection, yet a discriminant
//! from one type never compares equal to a discriminant from another.
//!
//! Each originating type is represented by a [`TypeToken`], issued by a
//! [`TokenSource`]; the token gates every cross-type comparison. The variant
//! identity itself is a short byte string produced by a per-type
//! variant-identity function supplied by the caller, which must depend only
//! on the variant a value occupies, never on the fields the variant carries.
//! Identities of at most [`INLINE_BYTES`] bytes are stored inline in the
//! discriminant; longer identities live in one owned heap allocation. Both
//! representations satisfy the same equality, hashing and cloning laws.

use vstd::prelude::*;

verus! {

use vstd::std_specs::cmp::PartialEqSpec;

/// How many identity bytes are stored inline rather than behind a heap
/// allocation: the size of one machine word on the supported targets.
pub const INLINE_BYTES: usize = 8;

/// An opaque identity for one originating type.
///
/// Tokens issued by one [`TokenSource`] are pairwise distinct, so giving
/// each concrete type its own token makes discriminants of different types
/// compare unequal regardless of their identity bytes.
#[derive(Clone, Copy, Debug, PartialEq, Eq, Hash, Structural)]
pub struct TypeToken {
    value: u64,
}

impl View for TypeToken {
    type V = u64;

    closed spec fn view(&self) -> u64 {
        self.value
    }
}

/// Issues type-identity tokens, one per originating type.
///
/// Tokens are handed out in sequence, so every token differs from every
/// token the same source issued before it.
pub struct TokenSource {
    next: u64,
}

impl TokenSource {
    /// The tokens this source has issued so far.
    pub closed spec fn issued(self) -> Set<u64> {
        Set::new(|t: u64| t < self.next)
    }

    /// How many tokens this source has issued so far.
    pub closed spec fn count(self) -> u64 {
        self.next
    }

    /// A source that has issued no tokens yet.
    pub fn new() -> (source: TokenSource)
        ensures
            source.count() == 0,
            source.issued() == Set::<u64>::empty(),
    {
        let source = TokenSource { next: 0 };
        proof {
            assert(source.issued() =~= Set::<u64>::empty());
        }
        source
    }

    /// Issue a token that differs from every token issued before.
    pub fn fresh(&mut self) -> (token: TypeToken)
        requires
            old(self).count() < u64::MAX,
        ensures
            token@ == old(self).count(),
            !old(self).issued().contains(token@),
            final(self).count() == old(self).count() + 1,
            final(self).issued() == old(self).issued().insert(token@),
    {
        let token = TypeToken { value: self.next };
        self.next = self.next + 1;
        proof {
            assert(self.issued() =~= old(self).issued().insert(token@));
        }
        token
    }
}

/// Ghost description of a discriminant: the originating type's token and
/// the bytes of the variant identity.
pub ghost struct TagView {
    pub token: u64,
    pub identity: Seq<u8>,
}

/// The two payload representations: an identity of at most `INLINE_BYTES`
/// bytes lives in a fixed inline buffer whose unused tail is zero; a longer
/// identity lives in one owned heap allocation.
#[derive(Debug, Hash)]
enum Repr {
    Inline { len: usize, buf: [u8; INLINE_BYTES] },
    Heap(Vec<u8>),
}

/// A type-erased variant identity.
///
/// A discriminant compares equal exactly to discriminants that carry the
/// same [`TypeToken`] and the same identity bytes; see [`Discriminant::of`].
#[derive(Debug, Hash)]
pub struct Discriminant {
    token: TypeToken,
    repr: Repr,
}

/// Whether an identity value of `identity_len` bytes is small enough for
/// the inline representation.
pub fn small_discriminant(identity_len: usize) -> (small: bool)
    ensures
        small == (identity_len <= INLINE_BYTES),
{
    identity_len <= INLINE_BYTES
}

impl View for Discriminant {
    type V = TagView;

    closed spec fn view(&self) -> TagView {
        TagView {
            token: self.token@,
            identity: match self.repr {
                Repr::Inline { len, buf } => buf@.subrange(0, len as int),
                Repr::Heap(bytes) => bytes@,
            },
        }
    }
}

impl Discriminant {
    /// The representation invariant: the inline buffer is used only for
    /// identities of at most `INLINE_BYTES` bytes and its unused tail is
    /// zero, while a heap allocation holds only longer identities. Every
    /// discriminant satisfies it at all times; exec code obtains it through
    /// `use_type_invariant`.
    #[verifier::type_invariant]
    pub closed spec fn wf(self) -> bool {
        match self.repr {
            Repr::Inline { len, buf } => {
                &&& len <= INLINE_BYTES
                &&& forall|i: int| len <= i < INLINE_BYTES ==> buf@[i] == 0u8
            },
            Repr::Heap(bytes) => bytes@.len() > INLINE_BYTES,
        }
    }

    /// Whether the identity bytes are stored in the inline buffer rather
    /// than behind a heap allocation.
    pub closed spec fn stores_inline(self) -> bool {
        self.repr is Inline
    }

    /// The bytes the stored representation holds: the whole inline buffer,
    /// or the contents of the heap allocation.
    pub closed spec fn stored_bytes(self) -> Seq<u8> {
        match self.repr {
            Repr::Inline { len: _, buf } => buf@,
            Repr::Heap(bytes) => bytes@,
        }
    }

    /// Erase a variant identity: wrap the identity bytes computed for a
    /// value by its type's variant-identity function, together with that
    /// type's token. The identity is captured by value, so the resulting
    /// discriminant is independent of the value it was computed from.
    ///
    /// The representation is chosen here, once, from the identity's size
    /// alone: at most `INLINE_BYTES` bytes are stored inline, anything
    /// longer goes to the heap. Construction cannot fail.
    pub fn of(token: TypeToken, identity: Vec<u8>) -> (tag: Discriminant)
        ensures
            tag@.token == token@,
            tag@.identity == identity@,
            tag.stores_inline() == (identity@.len() <= INLINE_BYTES),
    {
        let len: usize = identity.len();
        if small_discriminant(len) {
            let mut buf: [u8; INLINE_BYTES] = [0u8; INLINE_BYTES];
            let mut i: usize = 0;
            while i < len
                invariant
                    i <= len,
                    len <= INLINE_BYTES,
                    len == identity@.len(),
                    forall|j: int| 0 <= j < i ==> buf@[j] == identity@[j],
                    forall|j: int| i <= j < INLINE_BYTES ==> buf@[j] == 0u8,
                decreases len - i,
            {
                buf[i] = identity[i];
                i += 1;
            }
            let tag = Discriminant { token, repr: Repr::Inline { len, buf } };
            proof {
                assert(tag@.identity =~= identity@);
            }
            tag
        } else {
            Discriminant { token, repr: Repr::Heap(identity) }
        }
    }

    /// Whether this discriminant uses the inline representation. Both
    /// representations obey the same equality, hashing and cloning
    /// contracts; this is observable only so that callers can see which
    /// path a given identity took.
    pub fn is_inline(&self) -> (inline: bool)
        ensures
            inline == self.stores_inline(),
    {
        match &self.repr {
            Repr::Inline { .. } => true,
            Repr::Heap(..) => false,
        }
    }
}

/// Whether two inline buffers agree on their first `len` bytes.
fn prefix_eq(a: &[u8; INLINE_BYTES], b: &[u8; INLINE_BYTES], len: usize) -> (eq: bool)
    requires
        len <= INLINE_BYTES,
    ensures
        eq == (a@.subrange(0, len as int) == b@.subrange(0, len as int)),
{
    let mut i: usize = 0;
    while i < len
        invariant
            i <= len,
            len <= INLINE_BYTES,
            forall|j: int| 0 <= j < i ==> a@[j] == b@[j],
        decreases len - i,
    {
        if a[i] != b[i] {
            proof {
                assert(a@.subrange(0, len as int)[i as int] != b@.subrange(0, len as int)[i as int]);
            }
            return false;
        }
        i += 1;
    }
    proof {
        assert(a@.subrange(0, len as int) =~= b@.subrange(0, len as int));
    }
    true
}

/// Whether two heap-held identities hold the same bytes.
fn bytes_eq(a: &Vec<u8>, b: &Vec<u8>) -> (eq: bool)
    ensures
        eq == (a@ == b@),
{
    if a.len() != b.len() {
        return false;
    }
    let mut i: usize = 0;
    while i < a.len()
        invariant
            i <= a@.len(),
            a@.len() == b@.len(),
            forall|j: int| 0 <= j < i ==> a@[j] == b@[j],
        decreases a@.len() - i,
    {
        if a[i] != b[i] {
            return false;
        }
        i += 1;
    }
    proof {
        assert(a@ =~= b@);
    }
    true
}

impl PartialEq for Discriminant {
    /// Two discriminants are equal exactly when their type tokens agree and
    /// their identity bytes agree. The token is checked first, so a
    /// discriminant of one type never equals a discriminant of another,
    /// whatever bytes the two store; representations are never mixed up,
    /// because the representation mode is a function of the identity's size.
    fn eq(&self, other: &Discriminant) -> (eq: bool) {
        proof {
            use_type_invariant(self);
            use_type_invariant(other);
        }
        if self.token != other.token {
            return false;
        }
        match (&self.repr, &other.repr) {
            (
                Repr::Inline { len: len_a, buf: buf_a },
                Repr::Inline { len: len_b, buf: buf_b },
            ) => {
                if *len_a != *len_b {
                    proof {
                        assert(self@.identity.len() != other@.identity.len());
                    }
                    false
                } else {
                    prefix_eq(buf_a, buf_b, *len_a)
                }
            },
            (Repr::Heap(bytes_a), Repr::Heap(bytes_b)) => bytes_eq(bytes_a, bytes_b),
            (Repr::Inline { .. }, Repr::Heap(..)) => {
                proof {
                    assert(self@.identity.len() != other@.identity.len());
                }
                false
            },
            (Repr::Heap(..), Repr::Inline { .. }) => {
                proof {
                    assert(self@.identity.len() != other@.identity.len());
                }
                false
            },
        }
    }
}

impl vstd::std_specs::cmp::PartialEqSpecImpl for Discriminant {
    open spec fn obeys_eq_spec() -> bool {
        true
    }

    open spec fn eq_spec(&self, other: &Discriminant) -> bool {
        self@.token == other@.token && self@.identity == other@.identity
    }
}

impl Eq for Discriminant {}

/// A byte-for-byte copy of a heap-held identity, in a fresh allocation.
fn clone_bytes(bytes: &Vec<u8>) -> (copy: Vec<u8>)
    ensures
        copy@ == bytes@,
{
    let mut copy: Vec<u8> = Vec::new();
    let mut i: usize = 0;
    while i < bytes.len()
        invariant
            i <= bytes@.len(),
            copy@ == bytes@.subrange(0, i as int),
        decreases bytes@.len() - i,
    {
        copy.push(bytes[i]);
        i += 1;
        proof {
            assert(copy@ =~= bytes@.subrange(0, i as int));
        }
    }
    proof {
        assert(copy@ =~= bytes@);
    }
    copy
}

impl Clone for Discriminant {
    /// An independent discriminant with the same token and the same identity
    /// bytes: the inline buffer is copied byte for byte, a heap-held
    /// identity is copied into a fresh allocation that the new discriminant
    /// owns on its own.
    fn clone(&self) -> (tag: Discriminant)
        ensures
            tag@ == self@,
            tag.stores_inline() == self.stores_inline(),
    {
        proof {
            use_type_invariant(self);
        }
        match &self.repr {
            Repr::Inline { len, buf } => Discriminant {
                token: self.token,
                repr: Repr::Inline { len: *len, buf: *buf },
            },
            Repr::Heap(bytes) => Discriminant {
                token: self.token,
                repr: Repr::Heap(clone_bytes(bytes)),
            },
        }
    }
}

/// Reflexivity: every discriminant equals itself.
pub proof fn lemma_eq_reflexive(tag: &Discriminant)
    ensures
        tag.eq_spec(tag),
{
}

/// Symmetry: equality does not depend on which side dispatches the
/// comparison.
pub proof fn lemma_eq_symmetric(a: &Discriminant, b: &Discriminant)
    ensures
        a.eq_spec(b) == b.eq_spec(a),
{
}

/// Transitivity: together with reflexivity and symmetry, discriminant
/// equality is an equivalence relation, which is what the `Eq` marker
/// promises.
pub proof fn lemma_eq_transitive(a: &Discriminant, b: &Discriminant, c: &Discriminant)
    requires
        a.eq_spec(b),
        b.eq_spec(c),
    ensures
        a.eq_spec(c),
{
}

/// Cross-type inequality: discriminants whose type tokens differ are never
/// equal, whatever identity bytes the two carry — even if the byte patterns
/// coincide exactly.
pub proof fn lemma_cross_type_unequal(a: &Discriminant, b: &Discriminant)
    requires
        a@.token != b@.token,
    ensures
        !a.eq_spec(b),
        !b.eq_spec(a),
{
}

/// A discriminant's behaviour under equality is determined by its type
/// token and its identity bytes alone. Since the identity bytes depend only
/// on which variant a value occupies, two values of the same variant erase
/// to equal discriminants no matter what payload the variant carries.
pub proof fn lemma_identity_determines_eq(a: &Discriminant, b: &Discriminant)
    requires
        a@.token == b@.token,
        a@.identity == b@.identity,
    ensures
        a.eq_spec(b),
{
}

/// Hash/equality consistency: equal discriminants agree on everything the
/// derived `Hash` implementation reads — the type token, the representation
/// mode, the stored bytes, and the stored identity length — so equal
/// discriminants feed identical data to any hasher.
pub proof fn lemma_hash_consistent_with_eq(a: &Discriminant, b: &Discriminant)
    requires
        a.wf(),
        b.wf(),
        a.eq_spec(b),
    ensures
        a@ == b@,
        a.stores_inline() == b.stores_inline(),
        a.stored_bytes() == b.stored_bytes(),
{
    assert(a@.identity.len() == b@.identity.len());
    match (a.repr, b.repr) {
        (Repr::Inline { len: len_a, buf: buf_a }, Repr::Inline { len: len_b, buf: buf_b }) => {
            assert(len_a == len_b);
            assert forall|i: int| 0 <= i < INLINE_BYTES implies buf_a@[i] == buf_b@[i] by {
                if i < len_a {
                    assert(buf_a@[i] == a@.identity[i]);
                    assert(buf_b@[i] == b@.identity[i]);
                }
            }
            assert(buf_a@ =~= buf_b@);
        },
        _ => {},
    }
}

/// Both representation paths serve one contract: the inline buffer is used
/// exactly for identities of at most `INLINE_BYTES` bytes, the heap
/// allocation exactly for longer ones, so the representation mode is a
/// function of the identity and never influences equality, hashing or
/// cloning, whose contracts all speak of the identity bytes alone.
pub proof fn lemma_mode_from_identity(tag: &Discriminant)
    requires
        tag.wf(),
    ensures
        tag.stores_inline() == (tag@.identity.len() <= INLINE_BYTES),
{
}

} // verus!
