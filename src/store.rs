use vstd::prelude::*;
use sha2::Digest;

use crate::error::Error;

verus! {

/// The SHA-256 digest of a byte sequence.
pub uninterp spec fn sha256_of(data: Seq<u8>) -> Seq<u8>;

/// The lowercase hexadecimal digit of a value below sixteen.
pub open spec fn hex_digit(d: u8) -> char {
    if d < 10 {
        ((d + 48) as u8) as char
    } else {
        ((d + 87) as u8) as char
    }
}

/// Two lowercase hexadecimal digits per byte, high half first.
pub open spec fn hex_text(b: Seq<u8>) -> Seq<char>
    decreases b.len(),
{
    if b.len() == 0 {
        Seq::empty()
    } else {
        hex_text(b.drop_last()) + seq![hex_digit(b.last() / 16), hex_digit(b.last() % 16)]
    }
}

/// The text of the checksum that the store records for an artifact.
pub open spec fn checksum_of(data: Seq<u8>) -> Seq<char> {
    hex_text(sha256_of(data))
}

/// Relies on `sha2::Sha256::digest`: the 32-byte SHA-256 digest of the data.
#[verifier::external_body]
fn sha256(data: &Vec<u8>) -> (r: Vec<u8>)
    ensures
        r@ == sha256_of(data@),
        r@.len() == 32,
{
    sha2::Sha256::digest(data.as_slice()).to_vec()
}

/// Relies on `hex::encode`: each byte as two lowercase hexadecimal digits.
#[verifier::external_body]
fn hex_encode(data: &Vec<u8>) -> (r: String)
    ensures
        r@ == hex_text(data@),
{
    hex::encode(data)
}

/// The text of a commit id given as its bytes.
pub fn commit_hash_text(id: &Vec<u8>) -> (r: String)
    ensures
        r@ == hex_text(id@),
{
    hex_encode(id)
}

/// The checksum text of an artifact's bytes.
pub fn checksum(data: &Vec<u8>) -> (r: String)
    ensures
        r@ == checksum_of(data@),
        r@.len() == 64,
{
    let digest = sha256(data);
    proof {
        lemma_hex_len(digest@);
    }
    hex_encode(&digest)
}

proof fn lemma_hex_len(b: Seq<u8>)
    ensures
        hex_text(b).len() == 2 * b.len(),
    decreases b.len(),
{
    if b.len() > 0 {
        lemma_hex_len(b.drop_last());
    }
}

/// Where a stored artifact can be fetched, and the checksum it must have.
#[derive(Debug, PartialEq, Eq)]
pub struct Location {
    pub url: String,
    pub checksum: String,
}

impl Clone for Location {
    fn clone(&self) -> (r: Self)
        ensures
            r == *self,
    {
        Location { url: self.url.clone(), checksum: self.checksum.clone() }
    }
}

/// Refuses an artifact of `size` bytes above the ceiling `limit`.
pub fn check_size(size: u64, limit: u64) -> (r: Result<(), Error>)
    ensures
        size <= limit ==> r is Ok,
        size > limit ==> r == Err::<(), Error>(Error::PackageOversize { size, limit }),
{
    if size > limit {
        Err(Error::PackageOversize { size, limit })
    } else {
        Ok(())
    }
}

/// Compares the checksum computed before the push with that of the bytes
/// fetched back from `url` after it; the location is handed out only where
/// they agree.
pub fn verify_download(local_cksum: String, downloaded: &Vec<u8>, url: String) -> (r: Result<
    Location,
    Error,
>)
    ensures
        local_cksum@ == checksum_of(downloaded@) ==> r == Ok::<Location, Error>(
            Location { url, checksum: local_cksum },
        ),
        local_cksum@ != checksum_of(downloaded@) ==> (r matches Err(
            Error::DownloadVerification { local_cksum: l, download_cksum: d },
        ) && l == local_cksum && d@ == checksum_of(downloaded@)),
{
    let download_cksum = checksum(downloaded);
    if download_cksum != local_cksum {
        Err(Error::DownloadVerification { local_cksum, download_cksum })
    } else {
        Ok(Location { url, checksum: local_cksum })
    }
}

} // verus!
