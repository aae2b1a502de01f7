//! Validator identities.

use vstd::prelude::*;

verus! {

/// The public key that identifies a validator.
#[derive(Debug, Clone, Copy, PartialOrd, Ord, Hash)]
pub struct Pubkey {
    pub bytes: [u8; 32],
}

/// The 32 bytes that `solana_pubkey::Pubkey::from_str` reads out of the base58 text `text`,
/// or `None` where it rejects the text.
pub uninterp spec fn pubkey_from_base58(text: Seq<char>) -> Option<Seq<u8>>;

/// Calls `solana_pubkey::Pubkey::from_str` and takes the bytes of the key.
///
/// Trusted: the answer depends on the text alone. How base58 is decoded is not stated.
#[verifier::external_body]
fn decode_base58(text: &str) -> (r: Option<[u8; 32]>)
    ensures
        match r {
            Some(bytes) => pubkey_from_base58(text@) == Some(bytes@),
            None => pubkey_from_base58(text@) is None,
        },
{
    let decoded: Result<solana_pubkey::Pubkey, solana_pubkey::ParsePubkeyError> = text.parse();
    decoded.ok().map(|key| key.to_bytes())
}

impl Pubkey {
    /// The key with the given bytes.
    pub fn new_from_array(bytes: [u8; 32]) -> (r: Self)
        ensures
            r.bytes == bytes,
    {
        Pubkey { bytes }
    }

    /// The bytes of the key.
    pub fn to_bytes(&self) -> (r: [u8; 32])
        ensures
            r == self.bytes,
    {
        self.bytes
    }

    /// Reads a key from its base58 text; `None` where the text is not a key.
    pub fn from_base58(text: &str) -> (r: Option<Self>)
        ensures
            r == Self::parsed(text@),
            r matches Some(key) ==> pubkey_from_base58(text@) == Some(key.bytes@),
    {
        match decode_base58(text) {
            Some(bytes) => {
                proof {
                    Self::lemma_of_bytes(Pubkey { bytes });
                }
                Some(Pubkey { bytes })
            },
            None => None,
        }
    }

    /// The key with the given bytes.
    pub open spec fn of_bytes(bytes: Seq<u8>) -> Pubkey {
        choose|key: Pubkey| key.bytes@ == bytes
    }

    /// The key that a base58 text stands for.
    pub open spec fn parsed(text: Seq<char>) -> Option<Pubkey> {
        match pubkey_from_base58(text) {
            Some(bytes) => Some(Self::of_bytes(bytes)),
            None => None,
        }
    }

    /// The default key: thirty-two zero bytes.
    pub open spec fn zero() -> Pubkey {
        Self::of_bytes(Seq::new(32, |i: int| 0u8))
    }

    /// A key is determined by its bytes.
    pub proof fn lemma_of_bytes(key: Pubkey)
        ensures
            Self::of_bytes(key.bytes@) == key,
    {
        assert(Self::of_bytes(key.bytes@).bytes =~= key.bytes);
    }
}

impl Default for Pubkey {
    fn default() -> (r: Self)
        ensures
            r == Self::zero(),
            forall|i: int| 0 <= i < 32 ==> r.bytes@[i] == 0,
    {
        let key = Pubkey { bytes: [0u8; 32] };
        proof {
            assert(key.bytes@ =~= Seq::new(32, |i: int| 0u8));
            Self::lemma_of_bytes(key);
        }
        key
    }
}

impl PartialEq for Pubkey {
    fn eq(&self, other: &Self) -> (r: bool) {
        let mut i: usize = 0;
        while i < 32
            invariant
                i <= 32,
                forall|j: int| 0 <= j < i ==> self.bytes@[j] == other.bytes@[j],
            decreases 32 - i,
        {
            if self.bytes[i] != other.bytes[i] {
                assert(self.bytes@[i as int] != other.bytes@[i as int]);
                return false;
            }
            i = i + 1;
        }
        assert(self.bytes =~= other.bytes);
        true
    }
}

impl Eq for Pubkey {

}

impl vstd::std_specs::cmp::PartialEqSpecImpl for Pubkey {
    open spec fn obeys_eq_spec() -> bool {
        true
    }

    open spec fn eq_spec(&self, other: &Self) -> bool {
        *self == *other
    }
}

/// A text is read as the key that it is a name of, and as none exactly where it is the name of
/// none.
pub proof fn law_a_text_is_read_as_the_key_that_it_names(text: &str, answer: Option<Pubkey>)
    requires
        call_ensures(Pubkey::from_base58, (text,), answer),
    ensures
        answer is Some <==> pubkey_from_base58(text@) is Some,
        answer matches Some(key) ==> pubkey_from_base58(text@) == Some(key.bytes@),
{
}

/// Taking the bytes of a key and making a key of them gives the key back, and the other way
/// round. Keys are equal exactly where their bytes are.
pub proof fn law_a_key_is_its_bytes(key: Pubkey, bytes: [u8; 32], again: Pubkey, other: Pubkey)
    requires
        call_ensures(Pubkey::to_bytes, (&key,), bytes),
        call_ensures(Pubkey::new_from_array, (bytes,), again),
    ensures
        again == key,
        bytes == key.bytes,
        key.bytes@ == other.bytes@ <==> key == other,
{
    if key.bytes@ == other.bytes@ {
        Pubkey::lemma_of_bytes(key);
        Pubkey::lemma_of_bytes(other);
    }
}

/// Comparing two keys compares their bytes, all of them.
pub proof fn law_keys_are_compared_by_their_bytes(key: Pubkey, other: Pubkey, equal: bool)
    requires
        call_ensures(Pubkey::eq, (&key, &other), equal),
    ensures
        equal <==> forall|i: int|
            0 <= i < 32 ==> #[trigger] key.bytes@[i] == other.bytes@[i],
{
    if forall|i: int| 0 <= i < 32 ==> #[trigger] key.bytes@[i] == other.bytes@[i] {
        assert(key.bytes@ =~= other.bytes@);
        Pubkey::lemma_of_bytes(key);
        Pubkey::lemma_of_bytes(other);
    }
}

/// The default key has zero bytes only.
pub proof fn law_the_default_key_is_zero(key: Pubkey, i: int)
    requires
        call_ensures(Pubkey::default, (), key),
        0 <= i < 32,
    ensures
        key.bytes@[i] == 0,
{
}

} // verus!
