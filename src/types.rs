use vstd::prelude::*;

verus! {

/// Identifier of an asset class in the registry.
pub type ClassId = u32;

/// Identifier of a token within its class.
pub type TokenId = u64;

/// Reference to one non-fungible asset: `(class, token)`.
pub type Asset = (ClassId, TokenId);

/// The key under which an asset is stored in keyed maps.
pub open spec fn asset_key(a: Asset) -> u128 {
    (a.0 * 0x1_0000_0000_0000_0000 + a.1) as u128
}

/// Computes `asset_key`.
pub fn key_of(a: Asset) -> (r: u128)
    ensures
        r == asset_key(a),
{
    proof {
        assert((a.0 as u128) * 0x1_0000_0000_0000_0000u128 <= 0xffff_ffff_0000_0000_0000_0000u128)
            by (nonlinear_arith);
    }
    (a.0 as u128) * 0x1_0000_0000_0000_0000u128 + (a.1 as u128)
}

/// Distinct assets have distinct keys.
pub proof fn lemma_asset_key_injective(a: Asset, b: Asset)
    ensures
        asset_key(a) == asset_key(b) <==> a == b,
{
    let m: int = 0x1_0000_0000_0000_0000;
    if asset_key(a) == asset_key(b) {
        let x: int = a.0 as int;
        let y: int = b.0 as int;
        assert(x * m + a.1 as int == y * m + b.1 as int);
        if x < y {
            assert(x * m + m <= y * m) by (nonlinear_arith)
                requires x < y, m > 0;
        } else if y < x {
            assert(y * m + m <= x * m) by (nonlinear_arith)
                requires y < x, m > 0;
        }
    }
}

} // verus!

verus! {

/// An account.
pub type AccountId = u64;

/// An amount of currency.
pub type Balance = u128;

/// Identifier of a listing.
pub type ListingId = u64;

/// Identifier of a claim.
pub type ClaimId = u128;

/// A block number, used to date orders.
pub type BlockNumber = u64;

/// An active sell offer for one asset at a fixed price.
#[derive(Clone, Copy, Debug, PartialEq, Eq)]
pub struct Listing {
    pub id: ListingId,
    pub seller: AccountId,
    pub asset: Asset,
    pub price: Balance,
}

/// A pledge of an asset to a designated receiver.
#[derive(Clone, Copy, Debug, PartialEq, Eq)]
pub struct Claim {
    pub receiver: AccountId,
    pub asset: Asset,
}

/// The record of the last sale of an asset.
#[derive(Clone, Copy, Debug, PartialEq, Eq)]
pub struct Order {
    pub listing: Listing,
    pub buyer: AccountId,
    pub block: BlockNumber,
}

/// What the wallet reports of each operation that took place.
#[derive(Clone, Copy, Debug, PartialEq, Eq, Structural)]
pub enum Event {
    /// An asset moved between holders: from, to, class, token.
    WalletAssetTransferred(AccountId, AccountId, ClassId, TokenId),
    /// An asset was destroyed: holder, class, token.
    WalletAssetBurned(AccountId, ClassId, TokenId),
    /// An asset went on the market: seller, price, listing id, class, token.
    WalletAssetListed(AccountId, Balance, ListingId, ClassId, TokenId),
    /// A listing ended and its asset went back: seller, listing id, class, token.
    WalletAssetUnlisted(AccountId, ListingId, ClassId, TokenId),
    /// An asset was sold: seller, buyer, class, token.
    WalletAssetPurchased(AccountId, AccountId, ClassId, TokenId),
    /// A claim was taken: receiver, class, token.
    WalletAssetClaimed(AccountId, ClassId, TokenId),
    /// An asset was pledged: creator, receiver, class, token.
    WalletClaimCreated(AccountId, AccountId, ClassId, TokenId),
    /// A sale was paid: seller, buyer, listing id, price.
    WalletAssetBuySuccess(AccountId, AccountId, ListingId, Balance),
}

/// Why an operation was refused. A refused operation changes nothing.
#[derive(Clone, Copy, Debug, PartialEq, Eq, Structural)]
pub enum Error {
    /// Transfers through the wallet are disabled.
    TransfersNotAllowed,
    /// Burning through the wallet is disabled.
    BurningNotAllowed,
    /// Listing on the market is disabled.
    EscrowNotAllowed,
    /// Claims are disabled.
    ClaimingNotAllowed,
    /// The asset is listed or claimed.
    AssetLocked,
    /// The claim hook vetoed the claim.
    ClaimCancelled,
    /// The asset or its class does not exist.
    AssetNotFound,
    /// No such listing.
    ListingNotFound,
    /// No such claim for this receiver.
    ClaimNotFound,
    /// The listing id space is exhausted.
    NoAvailableListingId,
    /// The claim id space is exhausted.
    NoAvailableClaimId,
    /// The order counter is exhausted.
    NoAvailableOrderId,
    /// The emote names no known emoji.
    InvalidEmote,
    /// The caller is not allowed to act on the asset or listing.
    NoPermission,
    /// A custody account cannot receive, buy or be pledged an asset: it holds only
    /// listed or claimed assets.
    CustodyAccount,
    /// The registry has no class of that id.
    ClassNotFound,
    /// The registry has no token of that id.
    TokenNotFound,
    /// The class id space is exhausted.
    NoAvailableClassId,
    /// The token id space of the class is exhausted.
    NoAvailableTokenId,
    /// The payer's balance is below the amount.
    InsufficientBalance,
    /// The payment would leave the payer below the existential deposit.
    KeepAlive,
    /// The payment would leave the payee with a balance below the existential deposit.
    ExistentialDeposit,
    /// The payee's balance would overflow.
    BalanceOverflow,
}

} // verus!
