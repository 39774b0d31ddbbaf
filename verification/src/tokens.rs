//! Token issuances for use in tests.
//!
//! Tests need issuances of tokens with arbitrary but admissible contents.
//! The arbitrary part is drawn by the caller; the functions here check that
//! what was drawn is admissible under the limits of the chain and put the
//! issuance together.

use vstd::prelude::*;
use crate::primitives::Amount;
use crate::wallet_types::Destination;

verus! {

/// The limits that the chain sets on the texts of a token.
#[derive(Debug, Clone, Copy, PartialEq, Eq, Structural)]
pub struct TokenLimits {
    pub max_ticker_len: usize,
    pub max_dec_count: u8,
    pub max_uri_len: usize,
    pub max_name_len: usize,
    pub max_description_len: usize,
}

/// How many units of a token can ever exist.
#[derive(Debug, Clone, Copy, PartialEq, Eq, Structural)]
pub enum TokenTotalSupply {
    /// No more than the given amount.
    Fixed(Amount),
    /// As many as are issued before the supply is locked.
    Lockable,
    /// Any number.
    Unlimited,
}

/// Whether the authority of a token can freeze it.
#[derive(Debug, Clone, Copy, PartialEq, Eq, Structural)]
pub enum IsTokenFreezable {
    No,
    Yes,
}

/// The first form of a token issuance.
#[derive(Debug, Clone, PartialEq, Eq)]
pub struct TokenIssuanceV0 {
    pub token_ticker: Vec<u8>,
    pub amount_to_issue: Amount,
    pub number_of_decimals: u8,
    pub metadata_uri: Vec<u8>,
}

/// The second form of a token issuance.
#[derive(Debug, Clone, PartialEq, Eq)]
pub struct TokenIssuanceV1 {
    pub token_ticker: Vec<u8>,
    pub number_of_decimals: u8,
    pub metadata_uri: Vec<u8>,
    pub total_supply: TokenTotalSupply,
    pub is_freezable: IsTokenFreezable,
    pub authority: Destination,
}

/// Who made a token: a public key, as bytes.
#[derive(Debug, Clone, PartialEq, Eq)]
pub struct TokenCreator {
    pub public_key: Vec<u8>,
}

/// What an NFT says of itself.
#[derive(Debug, Clone, PartialEq, Eq)]
pub struct Metadata {
    pub creator: Option<TokenCreator>,
    pub name: Vec<u8>,
    pub description: Vec<u8>,
    pub ticker: Vec<u8>,
    pub icon_uri: Option<Vec<u8>>,
    pub additional_metadata_uri: Option<Vec<u8>>,
    pub media_uri: Option<Vec<u8>>,
    pub media_hash: Vec<u8>,
}

/// The issuance of an NFT.
#[derive(Debug, Clone, PartialEq, Eq)]
pub struct NftIssuanceV0 {
    pub metadata: Metadata,
}

/// Whether a byte is an ASCII letter or digit.
pub open spec fn is_alphanumeric(b: u8) -> bool {
    (0x30 <= b <= 0x39) || (0x41 <= b <= 0x5a) || (0x61 <= b <= 0x7a)
}

/// Whether a text made up for a test is admissible under a limit: it is not
/// empty, shorter than the limit, and made of ASCII letters and digits.
pub open spec fn admissible_text(text: Seq<u8>, limit: usize) -> bool {
    &&& 1 <= text.len() < limit
    &&& forall|i: int| 0 <= i < text.len() ==> is_alphanumeric(#[trigger] text[i])
}

/// The first fixed supply that is not made up for tests.
pub open spec fn test_fixed_supply_limit() -> u128 {
    1_000_000
}

/// The total supply that a drawn kind and a drawn amount stand for, if they
/// are admissible: kind 0 is a fixed supply of the amount, which must be at
/// least one atom and below the limit for tests; kind 1 is a lockable and
/// kind 2 an unlimited supply.
pub open spec fn supply_drawn(kind: u32, fixed_atoms: u128) -> Option<TokenTotalSupply> {
    if kind == 0 {
        if 1 <= fixed_atoms < test_fixed_supply_limit() {
            Some(TokenTotalSupply::Fixed(Amount { atoms: fixed_atoms }))
        } else {
            None
        }
    } else if kind == 1 {
        Some(TokenTotalSupply::Lockable)
    } else if kind == 2 {
        Some(TokenTotalSupply::Unlimited)
    } else {
        None
    }
}

/// Tells whether a text made up for a test is admissible under a limit.
pub fn check_admissible_text(text: &Vec<u8>, limit: usize) -> (ok: bool)
    ensures
        ok == admissible_text(text@, limit),
{
    if text.len() < 1 || text.len() >= limit {
        return false;
    }
    let mut i: usize = 0;
    while i < text.len()
        invariant
            i <= text.len(),
            1 <= text@.len() < limit,
            forall|k: int| 0 <= k < i ==> is_alphanumeric(#[trigger] text@[k]),
        decreases text.len() - i,
    {
        let b = text[i];
        if !((0x30 <= b && b <= 0x39) || (0x41 <= b && b <= 0x5a) || (0x61 <= b && b <= 0x7a)) {
            return false;
        }
        i += 1;
    }
    true
}

/// The total supply that a drawn kind and a drawn amount stand for.
pub fn total_supply_from_draw(kind: u32, fixed_atoms: u128) -> (supply: Option<TokenTotalSupply>)
    ensures
        supply == supply_drawn(kind, fixed_atoms),
{
    if kind == 0 {
        if 1 <= fixed_atoms && fixed_atoms < 1_000_000 {
            Some(TokenTotalSupply::Fixed(Amount::from_atoms(fixed_atoms)))
        } else {
            None
        }
    } else if kind == 1 {
        Some(TokenTotalSupply::Lockable)
    } else if kind == 2 {
        Some(TokenTotalSupply::Unlimited)
    } else {
        None
    }
}

/// What is drawn for a token issuance.
#[derive(Debug, Clone)]
pub struct TokenDraws {
    pub ticker: Vec<u8>,
    pub decimals: u8,
    pub uri: Vec<u8>,
    /// For the first form of an issuance: the amount to issue, in atoms.
    pub amount_to_issue: u128,
    /// For the second form: the kind of the total supply.
    pub supply_kind: u32,
    /// For the second form: the fixed supply, in atoms, if the kind asks for one.
    pub fixed_supply: u128,
    /// For the second form: whether the token can be frozen.
    pub freezable: bool,
}

impl TokenDraws {
    /// Whether the parts that every issuance has are admissible under `limits`.
    pub open spec fn common_parts_admissible(&self, limits: TokenLimits) -> bool {
        &&& admissible_text(self.ticker@, limits.max_ticker_len)
        &&& admissible_text(self.uri@, limits.max_uri_len)
        &&& 1 <= self.decimals < limits.max_dec_count
    }

    /// Tells whether the parts that every issuance has are admissible.
    pub fn check_common_parts(&self, limits: &TokenLimits) -> (ok: bool)
        ensures
            ok == self.common_parts_admissible(*limits),
    {
        check_admissible_text(&self.ticker, limits.max_ticker_len) && check_admissible_text(
            &self.uri,
            limits.max_uri_len,
        ) && 1 <= self.decimals && self.decimals < limits.max_dec_count
    }
}

/// Puts together a token issuance of the first form from what was drawn.
/// The amount to issue must be at least one atom and not the largest amount.
pub fn token_issuance_from_draws(limits: &TokenLimits, draws: TokenDraws) -> (issuance: Option<TokenIssuanceV0>)
    ensures
        issuance.is_some() == (draws.common_parts_admissible(*limits) && 1 <= draws.amount_to_issue < u128::MAX),
        issuance matches Some(token) ==> {
            &&& token.token_ticker == draws.ticker
            &&& token.amount_to_issue.atoms == draws.amount_to_issue
            &&& token.number_of_decimals == draws.decimals
            &&& token.metadata_uri == draws.uri
        },
{
    if !draws.check_common_parts(limits) {
        return None;
    }
    if draws.amount_to_issue < 1 || draws.amount_to_issue == u128::MAX {
        return None;
    }
    Some(
        TokenIssuanceV0 {
            token_ticker: draws.ticker,
            amount_to_issue: Amount::from_atoms(draws.amount_to_issue),
            number_of_decimals: draws.decimals,
            metadata_uri: draws.uri,
        },
    )
}

/// Puts together a token issuance of the second form from what was drawn.
pub fn token_issuance_v1_from_draws(limits: &TokenLimits, authority: Destination, draws: TokenDraws) -> (issuance:
    Option<TokenIssuanceV1>)
    ensures
        issuance.is_some() == (draws.common_parts_admissible(*limits) && supply_drawn(
            draws.supply_kind,
            draws.fixed_supply,
        ).is_some()),
        issuance matches Some(token) ==> {
            &&& token.token_ticker == draws.ticker
            &&& token.number_of_decimals == draws.decimals
            &&& token.metadata_uri == draws.uri
            &&& Some(token.total_supply) == supply_drawn(draws.supply_kind, draws.fixed_supply)
            &&& token.is_freezable == if draws.freezable {
                IsTokenFreezable::Yes
            } else {
                IsTokenFreezable::No
            }
            &&& token.authority == authority
        },
{
    if !draws.check_common_parts(limits) {
        return None;
    }
    let total_supply = match total_supply_from_draw(draws.supply_kind, draws.fixed_supply) {
        Some(supply) => supply,
        None => {
            return None;
        },
    };
    let is_freezable = if draws.freezable {
        IsTokenFreezable::Yes
    } else {
        IsTokenFreezable::No
    };
    Some(
        TokenIssuanceV1 {
            token_ticker: draws.ticker,
            number_of_decimals: draws.decimals,
            metadata_uri: draws.uri,
            total_supply,
            is_freezable,
            authority,
        },
    )
}

/// The media hash of every NFT that is made up for a test.
pub open spec fn test_media_hash() -> Seq<u8> {
    seq![1u8, 2u8, 3u8, 4u8, 5u8, 6u8, 7u8, 8u8, 9u8, 0u8]
}

/// Puts together the issuance of an NFT from what was drawn: the creator and
/// the three texts.  The NFT has no links, and its media hash is the same in
/// every test.
pub fn nft_issuance_from_draws(
    limits: &TokenLimits,
    creator: TokenCreator,
    name: Vec<u8>,
    description: Vec<u8>,
    ticker: Vec<u8>,
) -> (issuance: Option<NftIssuanceV0>)
    ensures
        issuance.is_some() == (admissible_text(name@, limits.max_name_len) && admissible_text(
            description@,
            limits.max_description_len,
        ) && admissible_text(ticker@, limits.max_ticker_len)),
        issuance matches Some(nft) ==> {
            &&& nft.metadata.creator == Some(creator)
            &&& nft.metadata.name == name
            &&& nft.metadata.description == description
            &&& nft.metadata.ticker == ticker
            &&& nft.metadata.icon_uri.is_none()
            &&& nft.metadata.additional_metadata_uri.is_none()
            &&& nft.metadata.media_uri.is_none()
            &&& nft.metadata.media_hash@ == test_media_hash()
        },
{
    if !(check_admissible_text(&name, limits.max_name_len) && check_admissible_text(
        &description,
        limits.max_description_len,
    ) && check_admissible_text(&ticker, limits.max_ticker_len)) {
        return None;
    }
    let mut media_hash: Vec<u8> = Vec::new();
    let mut digit: u8 = 1;
    while digit < 10
        invariant
            1 <= digit <= 10,
            media_hash@.len() == digit - 1,
            forall|k: int| 0 <= k < media_hash@.len() ==> media_hash@[k] == k + 1,
        decreases 10 - digit,
    {
        media_hash.push(digit);
        digit += 1;
    }
    media_hash.push(0);
    assert(media_hash@ =~= test_media_hash());
    Some(
        NftIssuanceV0 {
            metadata: Metadata {
                creator: Some(creator),
                name,
                description,
                ticker,
                icon_uri: None,
                additional_metadata_uri: None,
                media_uri: None,
                media_hash,
            },
        },
    )
}

} // verus!
