//! What a wallet stores about its accounts and its standalone keys.

use vstd::prelude::*;
use crate::primitives::{BlockHeight, BlockId};

verus! {

/// An unsigned number of 31 bits: the index of a non-hardened child key.
#[derive(Debug, Clone, Copy, PartialEq, Eq, PartialOrd, Ord)]
pub struct U31 {
    value: u32,
}

/// The first number that is no `U31`.
pub open spec fn u31_limit() -> u32 {
    0x8000_0000
}

impl U31 {
    pub closed spec fn spec_into_u32(&self) -> u32 {
        self.value
    }

    /// Every `U31` is below the limit.
    pub closed spec fn wf(&self) -> bool {
        self.value < u31_limit()
    }

    /// The number `value`, if it has no more than 31 bits.
    pub fn from_u32(value: u32) -> (number: Option<U31>)
        ensures
            number.is_some() == (value < u31_limit()),
            number matches Some(n) ==> n.spec_into_u32() == value && n.wf(),
    {
        if value < 0x8000_0000 {
            Some(U31 { value })
        } else {
            None
        }
    }

    #[verifier::when_used_as_spec(spec_into_u32)]
    pub fn into_u32(&self) -> (value: u32)
        ensures
            value == self.spec_into_u32(),
    {
        self.value
    }
}

/// The index of the account that every wallet starts with.
pub fn default_account_index() -> (index: U31)
    ensures
        index.spec_into_u32() == 0,
        index.wf(),
{
    U31 { value: 0 }
}

/// A public key with its chain code, as bytes.
#[derive(Debug, Clone, PartialEq, Eq)]
pub struct ExtendedPublicKey {
    pub bytes: Vec<u8>,
}

/// A public key for verifiable random functions with its chain code, as bytes.
#[derive(Debug, Clone, PartialEq, Eq)]
pub struct ExtendedVRFPublicKey {
    pub bytes: Vec<u8>,
}

/// What an account holds, as mathematics.
pub struct AccountInfoView {
    pub account_index: U31,
    pub account_key: ExtendedPublicKey,
    pub lookahead_size: u32,
    pub best_block_height: BlockHeight,
    pub best_block_id: BlockId,
    pub name: Option<String>,
}

/// Data of a deterministic account: the key it was derived with, how far
/// ahead addresses are generated, and the block up to which the account has
/// seen the chain.
#[derive(Debug, Clone)]
pub struct AccountInfo {
    account_index: U31,
    account_key: ExtendedPublicKey,
    lookahead_size: u32,
    best_block_height: BlockHeight,
    best_block_id: BlockId,
    name: Option<String>,
}

impl View for AccountInfo {
    type V = AccountInfoView;

    closed spec fn view(&self) -> AccountInfoView {
        AccountInfoView {
            account_index: self.account_index,
            account_key: self.account_key,
            lookahead_size: self.lookahead_size,
            best_block_height: self.best_block_height,
            best_block_id: self.best_block_id,
            name: self.name,
        }
    }
}

impl AccountInfo {
    /// A new account, which has seen nothing of the chain but its genesis.
    pub fn new(
        genesis_block_id: BlockId,
        account_index: U31,
        account_key: ExtendedPublicKey,
        lookahead_size: u32,
        name: Option<String>,
    ) -> (account: Self)
        ensures
            account@ == (AccountInfoView {
                account_index,
                account_key,
                lookahead_size,
                best_block_height: BlockHeight { height: 0 },
                best_block_id: genesis_block_id,
                name,
            }),
    {
        Self {
            account_index,
            account_key,
            lookahead_size,
            best_block_height: BlockHeight::zero(),
            best_block_id: genesis_block_id,
            name,
        }
    }

    pub fn account_index(&self) -> (index: U31)
        ensures
            index == self@.account_index,
    {
        self.account_index
    }

    pub fn account_key(&self) -> (key: &ExtendedPublicKey)
        ensures
            *key == self@.account_key,
    {
        &self.account_key
    }

    pub fn lookahead_size(&self) -> (size: u32)
        ensures
            size == self@.lookahead_size,
    {
        self.lookahead_size
    }

    pub fn set_lookahead_size(&mut self, lookahead_size: u32)
        ensures
            final(self)@ == (AccountInfoView { lookahead_size, ..old(self)@ }),
    {
        self.lookahead_size = lookahead_size
    }

    pub fn best_block_height(&self) -> (height: BlockHeight)
        ensures
            height == self@.best_block_height,
    {
        self.best_block_height
    }

    pub fn best_block_id(&self) -> (id: BlockId)
        ensures
            id == self@.best_block_id,
    {
        self.best_block_id
    }

    pub fn name(&self) -> (name: &Option<String>)
        ensures
            *name == self@.name,
    {
        &self.name
    }

    pub fn set_name(&mut self, new_name: Option<String>)
        ensures
            final(self)@ == (AccountInfoView { name: new_name, ..old(self)@ }),
    {
        self.name = new_name;
    }

    /// Records the block up to which the account has seen the chain.
    pub fn update_best_block(&mut self, best_block_height: BlockHeight, best_block_id: BlockId)
        ensures
            final(self)@ == (AccountInfoView { best_block_height, best_block_id, ..old(self)@ }),
    {
        self.best_block_height = best_block_height;
        self.best_block_id = best_block_id;
    }
}

/// The keys of an account for verifiable random functions.
#[derive(Debug, Clone)]
pub struct AccountVrfKeys {
    pub account_vrf_key: ExtendedVRFPublicKey,
    pub legacy_vrf_key: ExtendedVRFPublicKey,
}

/// An address that the wallet watches without holding its key.
#[derive(Debug, Clone)]
pub struct StandaloneWatchOnlyKey {
    pub label: Option<String>,
}

impl StandaloneWatchOnlyKey {
    /// The same key under another label.
    pub fn with_new_label(&self, label: Option<String>) -> (key: Self)
        ensures
            key.label == label,
    {
        Self { label }
    }
}

/// The rule of a multisignature address: how many of which keys must sign.
#[derive(Debug, Clone, PartialEq, Eq)]
pub struct ClassicMultisigChallenge {
    pub min_required_signatures: u8,
    pub public_keys: Vec<Vec<u8>>,
}

impl ClassicMultisigChallenge {
    /// The keys as sequences of bytes.
    pub open spec fn keys(&self) -> Seq<Seq<u8>> {
        self.public_keys@.map_values(|key: Vec<u8>| key@)
    }

    /// A copy of this rule.
    pub fn duplicate(&self) -> (copy: Self)
        ensures
            copy.min_required_signatures == self.min_required_signatures,
            copy.keys() == self.keys(),
    {
        let mut public_keys: Vec<Vec<u8>> = Vec::new();
        let mut i: usize = 0;
        while i < self.public_keys.len()
            invariant
                i <= self.public_keys.len(),
                public_keys@.len() == i,
                forall|j: int| 0 <= j < i ==> public_keys@[j]@ == self.public_keys@[j]@,
            decreases self.public_keys.len() - i,
        {
            let key = self.public_keys[i].clone();
            public_keys.push(key);
            i += 1;
        }
        let copy = ClassicMultisigChallenge { min_required_signatures: self.min_required_signatures, public_keys };
        assert(copy.keys() =~= self.keys());
        copy
    }
}

/// A multisignature address that the wallet takes part in.
#[derive(Debug, Clone)]
pub struct StandaloneMultisig {
    pub label: Option<String>,
    pub challenge: ClassicMultisigChallenge,
}

impl StandaloneMultisig {
    /// The same address under another label.
    pub fn with_new_label(&self, label: Option<String>) -> (multisig: Self)
        ensures
            multisig.label == label,
            multisig.challenge.min_required_signatures == self.challenge.min_required_signatures,
            multisig.challenge.keys() == self.challenge.keys(),
    {
        Self { label, challenge: self.challenge.duplicate() }
    }
}

/// A value that is stored either as it is or encrypted.
#[derive(Debug, Clone, PartialEq, Eq)]
pub enum MaybeEncrypted {
    Plain(Vec<u8>),
    Encrypted(Vec<u8>),
}

/// A private key that belongs to no account.
pub struct StandalonePrivateKey {
    pub label: Option<String>,
    pub private_key: MaybeEncrypted,
}

/// What the wallet knows of one standalone address.
#[derive(Debug, Clone)]
pub enum StandaloneAddressDetails {
    WatchOnly(StandaloneWatchOnlyKey),
    Multisig(StandaloneMultisig),
    PrivateKey(Option<String>),
}

/// A destination of funds, as bytes.
#[derive(Debug, Clone, PartialEq, Eq)]
pub struct Destination {
    pub bytes: Vec<u8>,
}

/// All standalone addresses of a wallet.
pub struct StandaloneAddresses {
    pub watch_only_addresses: Vec<(Destination, StandaloneWatchOnlyKey)>,
    pub multisig_addresses: Vec<(Destination, StandaloneMultisig)>,
    pub private_keys: Vec<(Vec<u8>, Option<String>)>,
}

} // verus!
