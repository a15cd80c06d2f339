//! The release index: where to ask for the latest release, and which of its
//! assets are package artifacts.

use vstd::prelude::*;
use vstd::string::*;
use crate::artifact::{artifact_views, ArtifactView};
use crate::text::ends_with;

verus! {

/// One file of a release.
#[derive(Debug, Clone, PartialEq, Eq)]
pub struct GithubAsset {
    pub name: String,
    pub browser_download_url: String,
}

/// A release: its tag and its files.
#[derive(Debug, Clone, PartialEq, Eq)]
pub struct GithubRelease {
    pub tag_name: String,
    pub assets: Vec<GithubAsset>,
}

/// Whether a release asset of this name is a package artifact.
pub open spec fn is_deb(name: Seq<char>) -> bool {
    ".deb"@.is_suffix_of(name)
}

/// The package artifacts among the first `n` assets, in order.
pub open spec fn deb_artifacts(assets: Seq<GithubAsset>, n: nat) -> Seq<ArtifactView>
    decreases n,
{
    if n == 0 || n > assets.len() {
        Seq::empty()
    } else {
        let asset = assets[n - 1];
        let before = deb_artifacts(assets, (n - 1) as nat);
        if is_deb(asset.name@) {
            before.push(
                ArtifactView { filename: asset.name@, source_url: asset.browser_download_url@ },
            )
        } else {
            before
        }
    }
}

/// The address of the latest release of the repository `repo`.
pub open spec fn latest_release_url(repo: Seq<char>) -> Seq<char> {
    "https://api.github.com/repos/"@ + repo + "/releases/latest"@
}

/// The value of the authorization header for the access token `token`.
pub open spec fn bearer(token: Seq<char>) -> Seq<char> {
    "Bearer "@ + token
}

/// The address to ask for the latest release of `repo`.
pub fn release_url(repo: &str) -> (r: String)
    ensures
        r@ == latest_release_url(repo@),
{
    String::from_str("https://api.github.com/repos/").concat(repo).concat("/releases/latest")
}

/// The authorization header that carries `token`.
pub fn authorization(token: &str) -> (r: String)
    ensures
        r@ == bearer(token@),
{
    String::from_str("Bearer ").concat(token)
}

impl GithubRelease {
    /// The package artifacts of the release: each asset whose name ends in
    /// `.deb`, as its name and its address, in the order of the release.
    pub fn deb_assets(&self) -> (r: Vec<(String, String)>)
        ensures
            artifact_views(r@) == deb_artifacts(self.assets@, self.assets@.len()),
    {
        let mut out: Vec<(String, String)> = Vec::new();
        let mut i: usize = 0;
        assert(artifact_views(out@) =~= deb_artifacts(self.assets@, 0));
        while i < self.assets.len()
            invariant
                i <= self.assets@.len(),
                artifact_views(out@) == deb_artifacts(self.assets@, i as nat),
            decreases self.assets@.len() - i,
        {
            let asset = &self.assets[i];
            if ends_with(asset.name.as_str(), ".deb") {
                let ghost before = artifact_views(out@);
                out.push((asset.name.clone(), asset.browser_download_url.clone()));
                assert(artifact_views(out@) =~= before.push(
                    ArtifactView { filename: asset.name@, source_url: asset.browser_download_url@ },
                ));
            }
            i += 1;
        }
        out
    }
}

} // verus!
