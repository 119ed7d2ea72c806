use vstd::prelude::*;

use crate::error::Error;
use crate::manifest::Manifest;
use crate::store::{checksum, checksum_of, commit_hash_text, hex_text, verify_download, Location};
use crate::text::{push_str, string_from_chars};
use crate::version::version_text;

verus! {

/// The file name of a package's artifact: `<group>_<name>_<version>.tar.gz`.
pub open spec fn tarball_text(m: Manifest) -> Seq<char> {
    m.name.group@ + seq!['_'] + m.name.name@ + seq!['_'] + version_text(m.version@)
        + ".tar.gz"@
}

/// The file name of a package's artifact.
pub fn tarball_name(manifest: &Manifest) -> (r: String)
    ensures
        r@ == tarball_text(*manifest),
{
    let mut v: Vec<char> = Vec::new();
    push_str(&mut v, manifest.name.group.as_str());
    v.push('_');
    push_str(&mut v, manifest.name.name.as_str());
    v.push('_');
    manifest.version.write_to(&mut v);
    push_str(&mut v, ".tar.gz");
    assert(v@ =~= tarball_text(*manifest));
    string_from_chars(&v)
}

/// Where the store serves an artifact at commit `head_hash`.
pub fn github_raw_url(store_repo_name: &str, head_hash: &str, manifest: &Manifest) -> (r: String)
    ensures
        r@ == "https://github.com/"@ + store_repo_name@ + "/blob/"@ + head_hash@ + seq!['/']
            + manifest.name.group@ + seq!['/'] + manifest.name.name@ + seq!['/'] + tarball_text(
            *manifest,
        ) + "?raw=true"@,
{
    let tarball = tarball_name(manifest);
    let mut v: Vec<char> = Vec::new();
    push_str(&mut v, "https://github.com/");
    push_str(&mut v, store_repo_name);
    push_str(&mut v, "/blob/");
    push_str(&mut v, head_hash);
    v.push('/');
    push_str(&mut v, manifest.name.group.as_str());
    v.push('/');
    push_str(&mut v, manifest.name.name.as_str());
    v.push('/');
    push_str(&mut v, tarball.as_str());
    push_str(&mut v, "?raw=true");
    assert(v@ =~= "https://github.com/"@ + store_repo_name@ + "/blob/"@ + head_hash@ + seq!['/']
        + manifest.name.group@ + seq!['/'] + manifest.name.name@ + seq!['/'] + tarball_text(
        *manifest,
    ) + "?raw=true"@);
    string_from_chars(&v)
}

/// The clone address of a repository.
pub fn github_repo_url(repo_name: &str) -> (r: String)
    ensures
        r@ == "https://github.com/"@ + repo_name@ + ".git"@,
{
    let mut v: Vec<char> = Vec::new();
    push_str(&mut v, "https://github.com/");
    push_str(&mut v, repo_name);
    push_str(&mut v, ".git");
    string_from_chars(&v)
}

} // verus!

verus! {

/// The last step of an upload, once the push is done: the artifact's
/// address at the new head commit, and the checksum of the bytes fetched
/// back from it compared with that of the bytes pushed.
pub fn verify_upload(
    store_repo_name: &str,
    head_id: &Vec<u8>,
    manifest: &Manifest,
    pushed: &Vec<u8>,
    downloaded: &Vec<u8>,
) -> (r: Result<Location, Error>)
    ensures
        checksum_of(pushed@) == checksum_of(downloaded@) ==> (r matches Ok(l) && l.checksum@
            == checksum_of(downloaded@) && l.url@ == "https://github.com/"@ + store_repo_name@
            + "/blob/"@ + hex_text(head_id@) + seq!['/'] + manifest.name.group@ + seq!['/']
            + manifest.name.name@ + seq!['/'] + tarball_text(*manifest) + "?raw=true"@),
        checksum_of(pushed@) != checksum_of(downloaded@) ==> (r matches Err(
            Error::DownloadVerification { local_cksum: a, download_cksum: b },
        ) && a@ == checksum_of(pushed@) && b@ == checksum_of(downloaded@)),
{
    let local = checksum(pushed);
    let head = commit_hash_text(head_id);
    let url = github_raw_url(store_repo_name, head.as_str(), manifest);
    verify_download(local, downloaded, url)
}

} // verus!
