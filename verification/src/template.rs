//! A single stored number, and the keys and values under which numbers are
//! put in the off-chain index.

use crate::randomness::le_bytes;
use crate::system::{ensure_signed, AccountId, BlockNumber, ErrorKind, Origin};
use parity_scale_codec::Encode;
use vstd::prelude::*;
use vstd::slice::slice_to_vec;
use vstd::string::StringSliceAdditionalSpecFns;

verus! {

/// What a call that went through reports.
#[derive(Clone, Copy, PartialEq, Eq, Debug, Structural)]
pub enum Event {
    /// An account stored a number.
    SomethingStored(u32, AccountId),
}

/// Why a call was rejected. A rejected call changes nothing.
#[derive(Clone, Copy, PartialEq, Eq, Debug, Structural)]
pub enum Error {
    /// No number is stored.
    NoneValue,
    /// The stored number cannot be counted up any further.
    StorageOverflow,
    /// The call did not come from an authenticated account.
    BadOrigin,
}

impl Error {
    /// The class of the error.
    pub open spec fn spec_kind(self) -> ErrorKind {
        match self {
            Error::NoneValue => ErrorKind::NotFound,
            Error::StorageOverflow => ErrorKind::Capacity,
            Error::BadOrigin => ErrorKind::Authorization,
        }
    }

    /// The class of the error.
    #[verifier::when_used_as_spec(spec_kind)]
    pub fn kind(self) -> (kind: ErrorKind)
        ensures
            kind == self.spec_kind(),
    {
        match self {
            Error::NoneValue => ErrorKind::NotFound,
            Error::StorageOverflow => ErrorKind::Capacity,
            Error::BadOrigin => ErrorKind::Authorization,
        }
    }
}

/// The bytes with which every key of the off-chain index starts.
pub open spec fn key_prefix() -> Seq<u8> {
    "node-template::indexing::".spec_bytes()
}

/// The name under which numbers are indexed.
pub open spec fn indexing_name() -> Seq<u8> {
    "my_offchain_storage".spec_bytes()
}

/// The key of the off-chain index for a height: the prefix, then the eight
/// bytes of the height.
pub open spec fn key_bytes(block_number: BlockNumber) -> Seq<u8> {
    key_prefix() + le_bytes(block_number as nat, 8)
}

/// How a name of fewer than 64 bytes and a number are laid out: a byte with
/// four times the length of the name, then the name, then the four bytes of
/// the number.
pub open spec fn indexing_bytes(name: Seq<u8>, number: u32) -> Seq<u8> {
    seq![(4 * name.len()) as u8] + name + le_bytes(number as nat, 4)
}

/// `parity_scale_codec::Encode::encode` on a height: its eight bytes, least
/// significant first.
#[verifier::external_body]
fn encode_block_number(block_number: BlockNumber) -> (bytes: Vec<u8>)
    ensures
        bytes@ == le_bytes(block_number as nat, 8),
{
    block_number.encode()
}

/// `parity_scale_codec::Encode::encode` on the pair of a name and a number:
/// the length of the name in compact form, which for fewer than 64 bytes is
/// one byte holding four times the length, then the name, then the four bytes
/// of the number, least significant first.
#[verifier::external_body]
fn encode_indexing_data(name: Vec<u8>, number: u32) -> (bytes: Vec<u8>)
    requires
        name@.len() < 64,
    ensures
        bytes@ == indexing_bytes(name@, number),
{
    (name, number).encode()
}

/// The bytes of a string.
pub fn de_string_to_bytes(s: &str) -> (bytes: Vec<u8>)
    ensures
        bytes@ == s.spec_bytes(),
{
    slice_to_vec(s.as_bytes())
}

/// The key under which the off-chain index keeps the entry for a height.
pub fn derived_key(block_number: BlockNumber) -> (key: Vec<u8>)
    ensures
        key@ == key_bytes(block_number),
{
    let mut key = de_string_to_bytes("node-template::indexing::");
    let mut encoded = encode_block_number(block_number);
    key.append(&mut encoded);
    key
}

/// The key under which the off-chain worker running at a height looks: that
/// of the height before.
pub fn offchain_worker_key(block_number: BlockNumber) -> (key: Vec<u8>)
    requires
        block_number >= 1,
    ensures
        key@ == key_bytes((block_number - 1) as BlockNumber),
{
    derived_key(block_number - 1)
}

/// The stored number.
pub struct Pallet {
    something: Option<u32>,
}

impl View for Pallet {
    type V = Option<u32>;

    closed spec fn view(&self) -> Option<u32> {
        self.something
    }
}

impl Pallet {
    /// A store without a number.
    pub fn new() -> (pallet: Pallet)
        ensures
            pallet@ is None,
    {
        Pallet { something: None }
    }

    /// The stored number, if there is one.
    pub fn something(&self) -> (stored: Option<u32>)
        ensures
            stored == self@,
    {
        self.something
    }

    /// Stores `something` on behalf of the caller. Rejected when the origin
    /// is not an account.
    pub fn do_something(&mut self, origin: Origin, something: u32) -> (res: Result<Event, Error>)
        ensures
            match origin.signer() {
                None => res == Err::<Event, Error>(Error::BadOrigin) && final(self)@ == old(self)@,
                Some(who) => res == Ok::<Event, Error>(Event::SomethingStored(something, who))
                    && final(self)@ == Some(something),
            },
    {
        let who = match ensure_signed(origin) {
            Ok(who) => who,
            Err(_) => {
                return Err(Error::BadOrigin);
            },
        };
        self.something = Some(something);
        Ok(Event::SomethingStored(something, who))
    }

    /// Counts the stored number up by one. Rejected when the origin is not
    /// an account, when no number is stored, or when the stored number is the
    /// largest there is, in that order.
    pub fn cause_error(&mut self, origin: Origin) -> (res: Result<(), Error>)
        ensures
            match (origin.signer(), old(self)@) {
                (None, _) => res == Err::<(), Error>(Error::BadOrigin) && final(self)@ == old(self)@,
                (Some(_), None) => res == Err::<(), Error>(Error::NoneValue) && final(self)@
                    == old(self)@,
                (Some(_), Some(stored)) => if stored == u32::MAX {
                    res == Err::<(), Error>(Error::StorageOverflow) && final(self)@ == old(self)@
                } else {
                    res == Ok::<(), Error>(()) && final(self)@ == Some((stored + 1) as u32)
                },
            },
    {
        match ensure_signed(origin) {
            Ok(_) => {},
            Err(_) => {
                return Err(Error::BadOrigin);
            },
        }
        match self.something {
            None => Err(Error::NoneValue),
            Some(stored) => {
                let new = match stored.checked_add(1) {
                    Some(new) => new,
                    None => {
                        return Err(Error::StorageOverflow);
                    },
                };
                self.something = Some(new);
                Ok(())
            },
        }
    }

    /// The entry that indexes `number` at height `block_number`: the key and
    /// the value to put in the off-chain index. Rejected when the origin is
    /// not an account.
    pub fn extrinsic(origin: Origin, number: u32, block_number: BlockNumber) -> (res: Result<
        (Vec<u8>, Vec<u8>),
        Error,
    >)
        ensures
            match origin.signer() {
                None => res == Err::<(Vec<u8>, Vec<u8>), Error>(Error::BadOrigin),
                Some(_) => {
                    &&& res matches Ok((key, data))
                    &&& key@ == key_bytes(block_number)
                    &&& data@ == indexing_bytes(indexing_name(), number)
                },
            },
    {
        match ensure_signed(origin) {
            Ok(_) => {},
            Err(_) => {
                return Err(Error::BadOrigin);
            },
        }
        let key = derived_key(block_number);
        let name = de_string_to_bytes("my_offchain_storage");
        proof {
            reveal_strlit("my_offchain_storage");
            vstd::string::is_ascii_spec_bytes("my_offchain_storage");
        }
        let data = encode_indexing_data(name, number);
        Ok((key, data))
    }
}

} // verus!
