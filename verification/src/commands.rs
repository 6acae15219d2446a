//! The tool's commands, as plain data. Argument parsing, the ledger client
//! and file writing live outside the library; each command's decoded inputs
//! are computed here.

use vstd::prelude::*;
use crate::RecoveryError;
use crate::codec::{bech32_payload, coin_id_from_string, coin_id_of_text, nft_launcher_id};

verus! {

/// Find the key coins of a collection, starting from one of its NFTs.
pub struct LocateNFTData {
    /// The NFT id to start searching from.
    pub nft_id: String,
}

impl LocateNFTData {
    /// The 32-byte launcher id the NFT id denotes.
    pub fn launcher_id(&self) -> (r: Result<Vec<u8>, RecoveryError>)
        ensures
            r matches Ok(v) ==> bech32_payload(self.nft_id@) == Some(v@) && v@.len() == 32,
            r matches Err(e) ==> e == RecoveryError::Decode,
    {
        nft_launcher_id(self.nft_id.as_str())
    }
}

/// Recover a single image.
pub struct RecoverImage {
    /// The coin id at the start of the image, as text.
    pub coin: String,
}

impl RecoverImage {
    /// The 32-byte coin id the text denotes.
    pub fn coin_id(&self) -> (r: Result<Vec<u8>, RecoveryError>)
        ensures
            r matches Ok(v) ==> coin_id_of_text(vstd::utf8::encode_utf8(self.coin@)) == Some(v@)
                && v@.len() == 32,
            r matches Err(e) ==> e == RecoveryError::Decode,
    {
        coin_id_from_string(self.coin.as_str())
    }
}

/// Recover a collection of images.
pub struct RecoverCollection {
    /// The coin id at the start of the collection, as text.
    pub coin: String,
}

impl RecoverCollection {
    /// The 32-byte coin id the text denotes.
    pub fn coin_id(&self) -> (r: Result<Vec<u8>, RecoveryError>)
        ensures
            r matches Ok(v) ==> coin_id_of_text(vstd::utf8::encode_utf8(self.coin@)) == Some(v@)
                && v@.len() == 32,
            r matches Err(e) ==> e == RecoveryError::Decode,
    {
        coin_id_from_string(self.coin.as_str())
    }
}

/// Recover the metadata blobs of a collection.
pub struct RecoverMetadata {
    /// The coin id that carries the metadata, as text.
    pub coin: String,
}

impl RecoverMetadata {
    /// The 32-byte coin id the text denotes.
    pub fn coin_id(&self) -> (r: Result<Vec<u8>, RecoveryError>)
        ensures
            r matches Ok(v) ==> coin_id_of_text(vstd::utf8::encode_utf8(self.coin@)) == Some(v@)
                && v@.len() == 32,
            r matches Err(e) ==> e == RecoveryError::Decode,
    {
        coin_id_from_string(self.coin.as_str())
    }
}

} // verus!
