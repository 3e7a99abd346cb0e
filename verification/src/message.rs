//! Chain messages and their signed wrapper. Signing and signature
//! verification belong to the cryptographic collaborator; here the message
//! data itself is modeled, with the accessors the rest of the node uses.

use vstd::prelude::*;

use crate::vm::{TokenAmount};

verus! {

/// The signature schemes the chain accepts.
#[derive(Clone, Copy, Debug, PartialEq, Eq, Structural)]
pub enum SignatureType {
    BLS,
    Secp256k1,
}

/// A signature: its scheme and its raw bytes.
#[derive(Clone, Debug)]
pub struct Signature {
    pub sig_type: SignatureType,
    pub bytes: Vec<u8>,
}

/// An unsigned chain message between two ID addresses.
#[derive(Clone, Debug)]
pub struct UnsignedMessage {
    pub from: u64,
    pub to: u64,
    pub sequence: u64,
    pub value: TokenAmount,
    pub method_num: u64,
    pub params: Vec<u8>,
    pub gas_price: TokenAmount,
    pub gas_limit: i64,
}

/// A message together with the signature over its encoding.
#[derive(Clone, Debug)]
pub struct SignedMessage {
    pub message: UnsignedMessage,
    pub signature: Signature,
}

impl SignedMessage {
    /// The wrapped unsigned message.
    pub fn message(&self) -> (r: &UnsignedMessage)
        ensures
            *r == self.message,
    {
        &self.message
    }

    /// The signature over the message.
    pub fn signature(&self) -> (r: &Signature)
        ensures
            *r == self.signature,
    {
        &self.signature
    }

    /// Consumes the wrapper and returns the unsigned message.
    pub fn into_message(self) -> (r: UnsignedMessage)
        ensures
            r == self.message,
    {
        self.message
    }

    /// Whether the message is signed with a BLS signature.
    pub fn is_bls(&self) -> (r: bool)
        ensures
            r == (self.signature.sig_type == SignatureType::BLS),
    {
        self.signature.sig_type == SignatureType::BLS
    }

    /// Whether the message is signed with a secp256k1 signature.
    pub fn is_secp256k1(&self) -> (r: bool)
        ensures
            r == (self.signature.sig_type == SignatureType::Secp256k1),
    {
        self.signature.sig_type == SignatureType::Secp256k1
    }

    /// Sender address.
    pub fn from(&self) -> (r: u64)
        ensures
            r == self.message.from,
    {
        self.message.from
    }

    /// Recipient address.
    pub fn to(&self) -> (r: u64)
        ensures
            r == self.message.to,
    {
        self.message.to
    }

    /// Sender's message sequence number.
    pub fn sequence(&self) -> (r: u64)
        ensures
            r == self.message.sequence,
    {
        self.message.sequence
    }

    /// Tokens transferred by the message.
    pub fn value(&self) -> (r: TokenAmount)
        ensures
            r == self.message.value,
    {
        self.message.value
    }

    /// Method number invoked on the recipient.
    pub fn method_num(&self) -> (r: u64)
        ensures
            r == self.message.method_num,
    {
        self.message.method_num
    }

    /// Encoded method parameters.
    pub fn params(&self) -> (r: &Vec<u8>)
        ensures
            r@ == self.message.params@,
    {
        &self.message.params
    }

    /// Price per unit of gas the sender offers.
    pub fn gas_price(&self) -> (r: TokenAmount)
        ensures
            r == self.message.gas_price,
    {
        self.message.gas_price
    }

    /// Sets the gas price.
    pub fn set_gas_price(&mut self, token_amount: TokenAmount)
        ensures
            *final(self) == (SignedMessage {
                message: UnsignedMessage { gas_price: token_amount, ..old(self).message },
                ..*old(self)
            }),
    {
        self.message.gas_price = token_amount;
    }

    /// Most gas the message may burn.
    pub fn gas_limit(&self) -> (r: i64)
        ensures
            r == self.message.gas_limit,
    {
        self.message.gas_limit
    }

    /// Sets the gas limit.
    pub fn set_gas_limit(&mut self, limit: i64)
        ensures
            *final(self) == (SignedMessage {
                message: UnsignedMessage { gas_limit: limit, ..old(self).message },
                ..*old(self)
            }),
    {
        self.message.gas_limit = limit;
    }

    /// Sets the sequence number.
    pub fn set_sequence(&mut self, new_sequence: u64)
        ensures
            *final(self) == (SignedMessage {
                message: UnsignedMessage { sequence: new_sequence, ..old(self).message },
                ..*old(self)
            }),
    {
        self.message.sequence = new_sequence;
    }

    /// The funds the message requires up front: the full gas budget plus
    /// the value transferred.
    pub fn required_funds(&self) -> (r: TokenAmount)
        requires
            i128::MIN <= self.message.gas_price * self.message.gas_limit <= i128::MAX,
            i128::MIN <= self.message.gas_price * self.message.gas_limit + self.message.value
                <= i128::MAX,
        ensures
            r == self.message.gas_price * self.message.gas_limit + self.message.value,
    {
        self.message.gas_price * (self.message.gas_limit as i128) + self.message.value
    }
}

} // verus!
