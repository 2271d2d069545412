//! Account addresses: a coinbase, a chain and a shard, written as one
//! hexadecimal text.

use crate::encoding::{
    be_bytes, digit_value, hex_bytes, hex_decode, hex_encode, hex_text, is_hex_text,
    lemma_hex_round_trip, lemma_hex_text_is_ascii, to_be_bytes,
};
use vstd::prelude::*;
use vstd::slice::slice_subrange;
use vstd::string::{StringExecFns, StringSliceAdditionalSpecFns};
use vstd::utf8::{encode_utf8, is_ascii_chars_encode_utf8};

verus! {

/// The three byte strings of an address.
pub struct AddressView {
    pub coinbase: Seq<u8>,
    pub chain_id: Seq<u8>,
    pub shard_id: Seq<u8>,
}

/// Why a text is not an address.
#[derive(Debug, Clone, Copy, PartialEq, Eq, Structural)]
pub enum AddressError {
    /// The text ends before the last byte that the address is read from.
    TooShort,
    /// Where digits are expected stands something else, or an odd number of them.
    InvalidHex,
}

/// An address on the ledger. An address that is read from a full text
/// has twenty bytes of coinbase and two each of chain and shard.
#[derive(Debug, Clone, PartialEq)]
pub struct QkcAddress {
    pub coinbase: Vec<u8>,
    shard_id: Vec<u8>,
    chain_id: Vec<u8>,
}

/// The marker that every rendered address and key begins with.
pub open spec fn marker() -> Seq<char> {
    seq!['0', 'x']
}

/// The text of a key: the marker, then chain and shard.
pub open spec fn key_text(a: AddressView) -> Seq<char> {
    marker() + hex_text(a.chain_id) + hex_text(a.shard_id)
}

/// The text of a coinbase: the marker, then its digits.
pub open spec fn coinbase_text(a: AddressView) -> Seq<char> {
    marker() + hex_text(a.coinbase)
}

/// The text of a whole address: coinbase, chain, shard.
pub open spec fn address_text(a: AddressView) -> Seq<char> {
    coinbase_text(a) + hex_text(a.chain_id) + hex_text(a.shard_id)
}

/// What `new_full` reads from the bytes of a text, if it is long enough
/// and holds digits where they are expected.
pub open spec fn parsed_full(text: Seq<u8>) -> Result<AddressView, AddressError> {
    if text.len() < 50 {
        Err(AddressError::TooShort)
    } else if !is_hex_text(text.subrange(2, 50)) {
        Err(AddressError::InvalidHex)
    } else {
        Ok(
            AddressView {
                coinbase: hex_bytes(text.subrange(2, 42)),
                chain_id: hex_bytes(text.subrange(42, 46)),
                shard_id: hex_bytes(text.subrange(46, 50)),
            },
        )
    }
}

/// What `new` and `new_from_coinbase` read as the coinbase: the digits
/// after the first two bytes of the text.
pub open spec fn parsed_coinbase(text: Seq<u8>) -> Result<Seq<u8>, AddressError> {
    if text.len() < 2 {
        Err(AddressError::TooShort)
    } else if !is_hex_text(text.skip(2)) {
        Err(AddressError::InvalidHex)
    } else {
        Ok(hex_bytes(text.skip(2)))
    }
}

fn decode_coinbase(coinbase: &str) -> (r: Result<Vec<u8>, AddressError>)
    ensures
        r matches Ok(v) ==> parsed_coinbase(coinbase.spec_bytes()) == Ok::<Seq<u8>, AddressError>(v@),
        r matches Err(e) ==> parsed_coinbase(coinbase.spec_bytes()) == Err::<Seq<u8>, AddressError>(e),
{
    let bytes = coinbase.as_bytes();
    if bytes.len() < 2 {
        return Err(AddressError::TooShort);
    }
    let digits = slice_subrange(bytes, 2, bytes.len());
    assert(digits@ =~= bytes@.skip(2));
    match hex_decode(digits) {
        Ok(v) => Ok(v),
        Err(_) => Err(AddressError::InvalidHex),
    }
}

impl View for QkcAddress {
    type V = AddressView;

    closed spec fn view(&self) -> AddressView {
        AddressView { coinbase: self.coinbase@, chain_id: self.chain_id@, shard_id: self.shard_id@ }
    }
}

impl QkcAddress {
    /// The bytes of the coinbase.
    pub fn coinbase_bytes(&self) -> (bytes: &[u8])
        ensures
            bytes@ == self@.coinbase,
    {
        self.coinbase.as_slice()
    }

    /// The coinbase as text: the marker and two digits per byte.
    pub fn coinbase(&self) -> (text: String)
        ensures
            text@ == coinbase_text(self@),
    {
        let digits = hex_encode(self.coinbase.as_slice());
        let mut text = String::from_str("0x");
        proof {
            reveal_strlit("0x");
            assert("0x"@ =~= marker());
        }
        text.append(digits.as_str());
        text
    }

    /// The key of the shard: the marker, the chain, the shard.
    pub fn full_shard_key(&self) -> (text: String)
        ensures
            text@ == key_text(self@),
    {
        let shard_id = hex_encode(self.shard_id.as_slice());
        let chain_id = hex_encode(self.chain_id.as_slice());
        let mut text = String::from_str("0x");
        proof {
            reveal_strlit("0x");
            assert("0x"@ =~= marker());
        }
        text.append(chain_id.as_str());
        text.append(shard_id.as_str());
        text
    }

    /// Whether the chain is written in two bytes, as a number is.
    pub fn has_chain(&self) -> (yes: bool)
        ensures
            yes == (self@.chain_id.len() == 2),
    {
        self.chain_id.len() == 2
    }

    /// The chain as a number, its first byte the high one.
    pub fn chain_id(&self) -> (id: u16)
        requires
            self@.chain_id.len() == 2,
        ensures
            id == 256 * self@.chain_id[0] + self@.chain_id[1],
    {
        let high: u16 = self.chain_id[0] as u16;
        let low: u16 = self.chain_id[1] as u16;
        high * 256 + low
    }

    /// The whole address as text: coinbase, chain, shard.
    pub fn to_string(&self) -> (text: String)
        ensures
            text@ == address_text(self@),
    {
        let shard_id = hex_encode(self.shard_id.as_slice());
        let chain_id = hex_encode(self.chain_id.as_slice());
        let mut text = self.coinbase();
        text.append(chain_id.as_str());
        text.append(shard_id.as_str());
        text
    }

    /// An address on chain and shard zero, each written as a single byte.
    pub fn new_from_coinbase(coinbase: &str) -> (r: Result<Self, AddressError>)
        ensures
            match parsed_coinbase(coinbase.spec_bytes()) {
                Ok(c) => r matches Ok(a) && a@ == (AddressView {
                    coinbase: c,
                    chain_id: seq![0u8],
                    shard_id: seq![0u8],
                }),
                Err(e) => r == Err::<Self, AddressError>(e),
            },
    {
        match decode_coinbase(coinbase) {
            Ok(c) => {
                let mut shard_id: Vec<u8> = Vec::new();
                shard_id.push(0);
                let mut chain_id: Vec<u8> = Vec::new();
                chain_id.push(0);
                assert(shard_id@ =~= seq![0u8]);
                assert(chain_id@ =~= seq![0u8]);
                Ok(Self { coinbase: c, shard_id, chain_id })
            },
            Err(e) => Err(e),
        }
    }

    /// An address from the text of a coinbase and the numbers of chain and shard.
    pub fn new(coinbase: &str, chain_id: u16, shard_id: u16) -> (r: Result<QkcAddress, AddressError>)
        ensures
            match parsed_coinbase(coinbase.spec_bytes()) {
                Ok(c) => r matches Ok(a) && a@ == (AddressView {
                    coinbase: c,
                    chain_id: be_bytes(chain_id as nat, 2),
                    shard_id: be_bytes(shard_id as nat, 2),
                }),
                Err(e) => r == Err::<QkcAddress, AddressError>(e),
            },
    {
        match decode_coinbase(coinbase) {
            Ok(c) => Ok(
                Self {
                    coinbase: c,
                    shard_id: to_be_bytes(shard_id as u64, 2),
                    chain_id: to_be_bytes(chain_id as u64, 2),
                },
            ),
            Err(e) => Err(e),
        }
    }

    /// An address from its text: after two bytes that are not read, forty
    /// digits of coinbase, four of chain and four of shard.
    pub fn new_full(address: &str) -> (r: Result<QkcAddress, AddressError>)
        ensures
            match parsed_full(address.spec_bytes()) {
                Ok(v) => r matches Ok(a) && a@ == v,
                Err(e) => r == Err::<QkcAddress, AddressError>(e),
            },
    {
        let bytes = address.as_bytes();
        if bytes.len() < 50 {
            return Err(AddressError::TooShort);
        }
        let ghost all = bytes@.subrange(2, 50);
        let coinbase_digits = slice_subrange(bytes, 2, 42);
        let shard_digits = slice_subrange(bytes, 46, 50);
        let chain_digits = slice_subrange(bytes, 42, 46);
        proof {
            assert forall|i: int| 0 <= i < 40 implies coinbase_digits@[i] == all[i] by {}
            assert forall|i: int| 0 <= i < 4 implies chain_digits@[i] == all[40 + i] by {}
            assert forall|i: int| 0 <= i < 4 implies shard_digits@[i] == all[44 + i] by {}
            if is_hex_text(coinbase_digits@) && is_hex_text(chain_digits@) && is_hex_text(shard_digits@) {
                assert forall|i: int| 0 <= i < all.len() implies (#[trigger] crate::encoding::digit_value(all[i])) is Some by {
                    if i < 40 {
                        assert(all[i] == coinbase_digits@[i]);
                    } else if i < 44 {
                        assert(all[i] == chain_digits@[i - 40]);
                    } else {
                        assert(all[i] == shard_digits@[i - 44]);
                    }
                }
            }
        }
        let coinbase = match hex_decode(coinbase_digits) {
            Ok(v) => v,
            Err(_) => { return Err(AddressError::InvalidHex); },
        };
        let shard_id = match hex_decode(shard_digits) {
            Ok(v) => v,
            Err(_) => { return Err(AddressError::InvalidHex); },
        };
        let chain_id = match hex_decode(chain_digits) {
            Ok(v) => v,
            Err(_) => { return Err(AddressError::InvalidHex); },
        };
        Ok(Self { coinbase, shard_id, chain_id })
    }
}

/// The text of an address has only characters of one byte: its bytes
/// are its characters.
pub proof fn lemma_address_text_is_ascii(a: AddressView)
    ensures
        encode_utf8(coinbase_text(a)).len() == coinbase_text(a).len(),
        encode_utf8(address_text(a)).len() == address_text(a).len(),
        forall|i: int|
            0 <= i < coinbase_text(a).len() ==> #[trigger] encode_utf8(coinbase_text(a))[i]
                == coinbase_text(a)[i] as u8,
        forall|i: int|
            0 <= i < address_text(a).len() ==> #[trigger] encode_utf8(address_text(a))[i]
                == address_text(a)[i] as u8,
{
    lemma_hex_text_is_ascii(a.coinbase);
    lemma_hex_text_is_ascii(a.chain_id);
    lemma_hex_text_is_ascii(a.shard_id);
    let short = coinbase_text(a);
    let long = address_text(a);
    assert forall|i: int| 0 <= i < short.len() implies '\0' <= #[trigger] short[i] <= '\u{7f}' by {
        if i >= 2 {
            assert(short[i] == hex_text(a.coinbase)[i - 2]);
        }
    }
    assert forall|i: int| 0 <= i < long.len() implies '\0' <= #[trigger] long[i] <= '\u{7f}' by {
        let c = 2 + 2 * a.coinbase.len();
        let d = c + 2 * a.chain_id.len();
        if i < 2 {
        } else if i < c {
            assert(long[i] == hex_text(a.coinbase)[i - 2]);
        } else if i < d {
            assert(long[i] == hex_text(a.chain_id)[i - c]);
        } else {
            assert(long[i] == hex_text(a.shard_id)[i - d]);
        }
    }
    is_ascii_chars_encode_utf8(short);
    is_ascii_chars_encode_utf8(long);
}

/// The text of an address begins with the text of its coinbase, byte for
/// byte.
pub proof fn lemma_address_begins_with_coinbase(a: AddressView)
    ensures
        encode_utf8(coinbase_text(a)).is_prefix_of(encode_utf8(address_text(a))),
{
    lemma_address_text_is_ascii(a);
    let short = encode_utf8(coinbase_text(a));
    let long = encode_utf8(address_text(a));
    assert forall|i: int| 0 <= i < short.len() implies short[i] == long[i] by {
        assert(coinbase_text(a)[i] == address_text(a)[i]);
    }
    assert(short =~= long.subrange(0, short.len() as int));
}

/// An address of twenty bytes of coinbase and two each of chain and
/// shard is read back from its own text.
pub proof fn lemma_address_round_trip(a: AddressView)
    requires
        a.coinbase.len() == 20,
        a.chain_id.len() == 2,
        a.shard_id.len() == 2,
    ensures
        parsed_full(encode_utf8(address_text(a))) == Ok::<AddressView, AddressError>(a),
{
    lemma_address_text_is_ascii(a);
    lemma_hex_text_is_ascii(a.coinbase);
    lemma_hex_text_is_ascii(a.chain_id);
    lemma_hex_text_is_ascii(a.shard_id);
    lemma_hex_round_trip(a.coinbase);
    lemma_hex_round_trip(a.chain_id);
    lemma_hex_round_trip(a.shard_id);
    let text = address_text(a);
    let bytes = encode_utf8(text);
    let coinbase = encode_utf8(hex_text(a.coinbase));
    let chain = encode_utf8(hex_text(a.chain_id));
    let shard = encode_utf8(hex_text(a.shard_id));
    assert forall|i: int| 0 <= i < 40 implies bytes.subrange(2, 42)[i] == coinbase[i] by {
        assert(text[2 + i] == hex_text(a.coinbase)[i]);
    }
    assert forall|i: int| 0 <= i < 4 implies bytes.subrange(42, 46)[i] == chain[i] by {
        assert(text[42 + i] == hex_text(a.chain_id)[i]);
    }
    assert forall|i: int| 0 <= i < 4 implies bytes.subrange(46, 50)[i] == shard[i] by {
        assert(text[46 + i] == hex_text(a.shard_id)[i]);
    }
    assert(bytes.subrange(2, 42) =~= coinbase);
    assert(bytes.subrange(42, 46) =~= chain);
    assert(bytes.subrange(46, 50) =~= shard);
    let all = bytes.subrange(2, 50);
    assert forall|i: int| 0 <= i < all.len() implies (#[trigger] digit_value(all[i])) is Some by {
        if i < 40 {
            assert(all[i] == coinbase[i]);
        } else if i < 44 {
            assert(all[i] == chain[i - 40]);
        } else {
            assert(all[i] == shard[i - 44]);
        }
    }
}

/// The chain of an address that was made with a number is that number.
pub proof fn lemma_chain_is_kept(chain_id: u16)
    ensures
        be_bytes(chain_id as nat, 2).len() == 2,
        256 * be_bytes(chain_id as nat, 2)[0] + be_bytes(chain_id as nat, 2)[1] == chain_id,
{
    reveal_with_fuel(be_bytes, 3);
}

} // verus!
