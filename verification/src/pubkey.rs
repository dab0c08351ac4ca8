use vstd::prelude::*;

verus! {

/// Length in bytes of an account address.
pub const PUBKEY_BYTES: usize = 32;

/// Longest base58 text that encodes an address.
pub const MAX_BASE58_LEN: usize = 44;

/// The base58 alphabet (Bitcoin ordering) in which addresses are written.
pub open spec fn is_base58_char(c: char) -> bool {
    ('1' <= c <= '9') || ('A' <= c <= 'H') || ('J' <= c <= 'N') || ('P' <= c <= 'Z')
        || ('a' <= c <= 'k') || ('m' <= c <= 'z')
}

/// The base58 text of the 32 address bytes `bytes`, as the Solana SDK prints an address.
pub uninterp spec fn base58_of_address(bytes: Seq<u8>) -> Seq<char>;

/// The address bytes that the Solana SDK reads from `text`, or `None` where it refuses the text.
pub uninterp spec fn address_from_base58(text: Seq<char>) -> Option<Seq<u8>>;

/// The base58 text of the all-zero address: thirty-two digits `1`.
pub open spec fn zero_address_base58() -> Seq<char> {
    Seq::new(32, |_i: int| '1')
}

/// An account address, held as its 32 bytes.
#[derive(Clone, Copy, Debug, PartialEq, Eq, Hash)]
pub struct Pubkey {
    pub bytes: [u8; 32],
}

/// Prints an address through `Display` of `solana_sdk::pubkey::Pubkey`.
/// Claimed: the text is `base58_of_address` of the bytes, made of base58
/// characters only and at most 44 long (the source encodes into a 44-byte
/// buffer with the base58 alphabet); reading it back through `FromStr`
/// gives the same bytes (five8's encoder and decoder are inverse, which its
/// tests check against `bs58`); the all-zero address prints as thirty-two
/// `1`s (each leading zero byte is one `1`, as five8's tests show).
#[verifier::external_body]
fn display_address(bytes: &[u8; 32]) -> (text: String)
    ensures
        text@ == base58_of_address(bytes@),
        text@.len() <= MAX_BASE58_LEN,
        forall|i: int| 0 <= i < text@.len() ==> is_base58_char(#[trigger] text@[i]),
        address_from_base58(text@) == Some(bytes@),
        (forall|i: int| 0 <= i < 32 ==> #[trigger] bytes@[i] == 0u8) ==> text@ == zero_address_base58(),
{
    solana_sdk::pubkey::Pubkey::new_from_array(*bytes).to_string()
}

/// Reads an address through `FromStr` of `solana_sdk::pubkey::Pubkey`.
/// Claimed: the result is `address_from_base58` of the text; the source
/// refuses every text longer than 44 bytes before decoding.
#[verifier::external_body]
fn parse_address(text: &str) -> (bytes: Option<[u8; 32]>)
    ensures
        match bytes {
            Some(b) => address_from_base58(text@) == Some(b@),
            None => address_from_base58(text@) is None,
        },
        text@.len() > MAX_BASE58_LEN ==> bytes is None,
{
    <solana_sdk::pubkey::Pubkey as std::str::FromStr>::from_str(text).ok().map(|p| p.to_bytes())
}

/// The address of the system program, `solana_sdk::system_program::ID`.
/// Claimed: its bytes are all zero (the source declares it as thirty-two
/// base58 digits `1`, each a zero byte).
#[verifier::external_body]
fn system_program_address() -> (bytes: [u8; 32])
    ensures
        forall|i: int| 0 <= i < 32 ==> #[trigger] bytes@[i] == 0u8,
{
    solana_sdk::system_program::ID.to_bytes()
}

impl Pubkey {
    /// The address made of `bytes`.
    pub fn new_from_array(bytes: [u8; 32]) -> (key: Self)
        ensures
            key.bytes == bytes,
    {
        Pubkey { bytes }
    }

    /// The base58 text of the address; it reads back as the same address,
    /// and the all-zero address prints as thirty-two `1`s.
    pub fn to_string(&self) -> (text: String)
        ensures
            text@ == base58_of_address(self.bytes@),
            text@.len() <= MAX_BASE58_LEN,
            forall|i: int| 0 <= i < text@.len() ==> is_base58_char(#[trigger] text@[i]),
            address_from_base58(text@) == Some(self.bytes@),
            (forall|i: int| 0 <= i < 32 ==> #[trigger] self.bytes@[i] == 0u8) ==> text@ == zero_address_base58(),
    {
        display_address(&self.bytes)
    }

    /// Reads an address from its base58 text; `None` where the text is no address.
    pub fn from_str(text: &str) -> (key: Option<Self>)
        ensures
            match key {
                Some(k) => address_from_base58(text@) == Some(k.bytes@),
                None => address_from_base58(text@) is None,
            },
    {
        match parse_address(text) {
            Some(bytes) => Some(Pubkey { bytes }),
            None => None,
        }
    }

    /// The system program's address.
    pub fn system_program() -> (key: Self)
        ensures
            forall|i: int| 0 <= i < 32 ==> #[trigger] key.bytes@[i] == 0u8,
    {
        Pubkey { bytes: system_program_address() }
    }
}

} // verus!
