//! Types that describe things on the Ethereum chain.
use vstd::prelude::*;

verus! {

/// The height of a block
pub type BlockHeight = u64;

/// The hash of a block: 32 bytes.
#[derive(Clone, Debug, PartialEq)]
pub struct Hash(pub Vec<u8>);

/// An address on the Ethereum chain, as raw bytes.
#[derive(Clone, Debug, PartialEq)]
pub struct Address(pub Vec<u8>);

/// Any Ethereum fungible asset
#[derive(Clone, Debug, PartialEq)]
pub enum FungibleAsset {
    /// Native ETH
    Eth,
    /// ERC20 tokens
    Erc20(Address),
}

/// Represents a block
#[derive(Clone, Debug, PartialEq)]
pub struct Block {
    /// Height of the block
    pub height: BlockHeight,
    /// Hash of the block
    pub hash: Hash,
}

/// What a `FungibleAsset` is, over plain values.
pub enum AssetView {
    Eth,
    Erc20(Seq<u8>),
}

/// What a `Block` is, over plain values.
pub struct BlockView {
    pub height: u64,
    pub hash: Seq<u8>,
}

impl View for Hash {
    type V = Seq<u8>;

    open spec fn view(&self) -> Seq<u8> {
        self.0@
    }
}

impl View for Address {
    type V = Seq<u8>;

    open spec fn view(&self) -> Seq<u8> {
        self.0@
    }
}

impl View for FungibleAsset {
    type V = AssetView;

    open spec fn view(&self) -> AssetView {
        match self {
            FungibleAsset::Eth => AssetView::Eth,
            FungibleAsset::Erc20(a) => AssetView::Erc20(a@),
        }
    }
}

impl View for Block {
    type V = BlockView;

    open spec fn view(&self) -> BlockView {
        BlockView { height: self.height, hash: self.hash@ }
    }
}

} // verus!
