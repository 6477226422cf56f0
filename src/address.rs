//! The account address type: construction, derivation from a public key,
//! canonical text, parsing and constant-time equality.

use crate::hex::{
    ascii_lower, decode_lower_hex, decode_upper_hex, hex_decoded, hex_upper, is_hex_text,
    lemma_hex_upper_decodes, lemma_lower_of_upper_hex, push_hex_upper,
};
use vstd::prelude::*;
use vstd::string::StringExecFns;

verus! {

/// Size of an account address in bytes.
pub const LENGTH: usize = 20;

/// Why a string is not an account address.
#[derive(Clone, Copy, Debug, PartialEq, Eq, Structural)]
pub enum ParseError {
    /// Neither an upper-case nor a lower-case hex string.
    InvalidEncoding,
    /// Well-formed hex, but not of exactly `LENGTH` bytes.
    InvalidLength,
}

/// What hex text decodes to, trying upper case first and lower case second;
/// `None` where neither accepts it.
pub open spec fn decode_text(s: Seq<char>) -> Option<Seq<u8>> {
    if is_hex_text(s, true) || is_hex_text(s, false) {
        Some(hex_decoded(s))
    } else {
        None
    }
}

/// The bytes of the address that `s` denotes, or the reason it denotes none.
pub open spec fn parse_text(s: Seq<char>) -> Result<Seq<u8>, ParseError> {
    match decode_text(s) {
        None => Err(ParseError::InvalidEncoding),
        Some(b) => if b.len() == LENGTH {
            Ok(b)
        } else {
            Err(ParseError::InvalidLength)
        },
    }
}

/// An account address: exactly `LENGTH` opaque bytes.
#[derive(Clone, Copy, Debug, Hash, Eq, PartialOrd, Ord)]
pub struct Address([u8; LENGTH]);

impl View for Address {
    type V = Seq<u8>;

    closed spec fn view(&self) -> Seq<u8> {
        self.0@
    }
}

/// Relies on `subtle::ConstantTimeEq` for byte slices, read out through
/// `bool: From<subtle::Choice>`: true exactly when the slices have the same
/// length and the same bytes. Equal-length slices are compared in full,
/// with no early exit at the first difference.
#[verifier::external_body]
fn ct_eq_bytes(a: &[u8], b: &[u8]) -> (r: bool)
    ensures
        r == (a@ == b@),
{
    bool::from(subtle::ConstantTimeEq::ct_eq(a, b))
}

/// The first `LENGTH` bytes of BLAKE3's extendable output over `input`.
pub uninterp spec fn blake3_xof_prefix(input: Seq<u8>) -> Seq<u8>;

/// Relies on `blake3::Hasher` (`new`, `update`, `finalize_xof`, and
/// `OutputReader::fill`): the bytes read from the extendable output depend
/// on the hashed input alone.
#[verifier::external_body]
fn blake3_xof(input: &[u8]) -> (r: [u8; LENGTH])
    ensures
        r@ == blake3_xof_prefix(input@),
{
    let mut hasher = blake3::Hasher::new();
    hasher.update(input);
    let mut out = [0u8; LENGTH];
    hasher.finalize_xof().fill(&mut out);
    out
}

/// The address derived from the bytes of a public key.
pub open spec fn derived_address(public_key: Seq<u8>) -> Seq<u8> {
    blake3_xof_prefix(public_key)
}

/// The label around the hex digits in the diagnostic form.
pub open spec fn debug_prefix() -> Seq<char> {
    seq!['a', 'c', 'c', 'o', 'u', 'n', 't', ':', ':', 'a', 'd', 'd', 'r', 'e', 's', 's', '(']
}

/// The view of a parse result: the address's bytes, or the error.
pub open spec fn result_bytes(r: Result<Address, ParseError>) -> Result<Seq<u8>, ParseError> {
    match r {
        Ok(a) => Ok(a@),
        Err(e) => Err(e),
    }
}

impl Address {
    /// Wraps the bytes as they are.
    pub fn new(bytes: [u8; LENGTH]) -> (r: Address)
        ensures
            r@ == bytes@,
    {
        Address(bytes)
    }

    /// The address's bytes.
    pub fn as_bytes(&self) -> (r: &[u8])
        ensures
            r@ == self@,
    {
        self.0.as_slice()
    }

    /// Derives the address of a public key from its 32 raw bytes: the first
    /// `LENGTH` bytes that BLAKE3's extendable output yields over them.
    pub fn from_public_key(public_key: &[u8; 32]) -> (r: Address)
        ensures
            r@ == derived_address(public_key@),
    {
        Address(blake3_xof(public_key.as_slice()))
    }

    /// Builds the address from decoded bytes, failing where there are not
    /// exactly `LENGTH` of them.
    pub fn from_decoded(bytes: &Vec<u8>) -> (r: Result<Address, ParseError>)
        ensures
            result_bytes(r) == (if bytes@.len() == LENGTH {
                Ok(bytes@)
            } else {
                Err(ParseError::InvalidLength)
            }),
    {
        if bytes.len() != LENGTH {
            return Err(ParseError::InvalidLength);
        }
        let mut out = [0u8; LENGTH];
        let mut i: usize = 0;
        while i < LENGTH
            invariant
                bytes@.len() == LENGTH,
                i <= LENGTH,
                forall|j: int| 0 <= j < i ==> out@[j] == bytes@[j],
            decreases LENGTH - i,
        {
            out[i] = bytes[i];
            i = i + 1;
        }
        assert(out@ =~= bytes@);
        Ok(Address(out))
    }

    /// Reads an address from hex text of either case: upper case is tried
    /// first, then lower case.
    pub fn parse(s: &str) -> (r: Result<Address, ParseError>)
        ensures
            result_bytes(r) == parse_text(s@),
    {
        let decoded = match decode_upper_hex(s) {
            Ok(b) => b,
            Err(_) => match decode_lower_hex(s) {
                Ok(b) => b,
                Err(_) => return Err(ParseError::InvalidEncoding),
            },
        };
        Address::from_decoded(&decoded)
    }

    /// Constant-time equality: every byte is compared, whatever the
    /// position of the first difference.
    pub fn ct_eq(&self, other: &Address) -> (r: bool)
        ensures
            r == (self@ == other@),
    {
        ct_eq_bytes(self.as_bytes(), other.as_bytes())
    }

    /// The canonical text: two upper-case hex digits per byte.
    pub fn to_display_string(&self) -> (r: String)
        ensures
            r@ == hex_upper(self@),
    {
        let mut out = String::new();
        push_hex_upper(&mut out, self.as_bytes());
        assert(out@ =~= hex_upper(self@));
        out
    }

    /// The diagnostic form, `account::address(` and the canonical text and
    /// `)`; meant for logs, not for exchange.
    pub fn debug_form(&self) -> (r: String)
        ensures
            r@ == debug_prefix() + hex_upper(self@) + seq![')'],
    {
        let mut out = String::new();
        out.append("account::address(");
        push_hex_upper(&mut out, self.as_bytes());
        out.append(")");
        proof {
            reveal_strlit("account::address(");
            reveal_strlit(")");
        }
        assert(out@ =~= debug_prefix() + hex_upper(self@) + seq![')']);
        out
    }
}

impl PartialEq for Address {
    /// Equality goes through the constant-time comparison.
    fn eq(&self, other: &Address) -> (r: bool) {
        self.ct_eq(other)
    }
}

impl vstd::std_specs::cmp::PartialEqSpecImpl for Address {
    open spec fn obeys_eq_spec() -> bool {
        true
    }

    open spec fn eq_spec(&self, other: &Address) -> bool {
        self@ == other@
    }
}

/// Every address holds exactly `LENGTH` bytes.
pub proof fn lemma_address_length(a: Address)
    ensures
        a@.len() == LENGTH,
{
}

/// Parsing the canonical text of an address gives that address back:
/// `parse(new(b).to_display_string())` is `Ok(new(b))` for every `b`.
pub proof fn lemma_display_parse_round_trip(bytes: [u8; LENGTH])
    ensures
        parse_text(hex_upper(bytes@)) == Ok::<Seq<u8>, ParseError>(bytes@),
{
    lemma_hex_upper_decodes(bytes@);
}

/// Parsing does not depend on case: the lower-case form of upper-case hex
/// text parses to the same address, or fails with the same error.
pub proof fn lemma_parse_case_insensitive(s: Seq<char>)
    requires
        is_hex_text(s, true),
    ensures
        parse_text(ascii_lower(s)) == parse_text(s),
{
    lemma_lower_of_upper_hex(s);
}

/// Well-formed hex text of any byte count but `LENGTH` is rejected for
/// its length, whichever case it is written in.
pub proof fn lemma_parse_rejects_length(s: Seq<char>)
    requires
        is_hex_text(s, true) || is_hex_text(s, false),
        hex_decoded(s).len() != LENGTH,
    ensures
        parse_text(s) == Err::<Seq<u8>, ParseError>(ParseError::InvalidLength),
{
}

/// Derivation is a function of the key's bytes: equal keys give equal
/// addresses.
pub proof fn lemma_derivation_deterministic(a: [u8; 32], b: [u8; 32])
    requires
        a@ == b@,
    ensures
        derived_address(a@) == derived_address(b@),
{
}

impl AsRef<[u8]> for Address {
    fn as_ref(&self) -> &[u8] {
        self.as_bytes()
    }
}

} // verus!
