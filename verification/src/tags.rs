//! Picking the latest version among the tags of an image registry.

use vstd::prelude::*;
use vstd::string::*;
use crate::text::{opt_text, same_text, strip_leading, trim_leading};
use crate::version::{semver_parse, version_order, SemVer, SemVerView};

verus! {

/// A tag of an image, as the registry lists it.
#[derive(Debug, Clone, PartialEq, Eq)]
pub struct DockerTag {
    pub name: String,
    pub last_updated: String,
    pub tag_status: String,
}

/// The version that a tag stands for: that of its name without leading
/// `v`s, where the tag is active and is not the moving tag `latest`.
pub open spec fn tag_version(tag: DockerTag) -> Option<SemVerView> {
    if tag.name@ != "latest"@ && tag.tag_status@ == "active"@ {
        semver_parse(strip_leading(tag.name@, 'v'))
    } else {
        None
    }
}

/// The place of the tag that is picked among the first `n`: the tags that
/// stand for a version are taken in order, and the one in hand is given up
/// for the next unless it is the strictly newer of the two.
pub open spec fn newest_tag(tags: Seq<DockerTag>, n: nat) -> Option<int>
    decreases n,
{
    if n == 0 || n > tags.len() {
        None
    } else {
        let before = newest_tag(tags, (n - 1) as nat);
        match tag_version(tags[n - 1]) {
            None => before,
            Some(v) => match before {
                None => Some(n - 1),
                Some(b) => if version_order(tag_version(tags[b]).unwrap(), v) == Some(1i8) {
                    Some(b)
                } else {
                    Some(n - 1)
                },
            },
        }
    }
}

/// The pick is one of the tags looked at, and stands for a version.
pub proof fn lemma_newest_tag(tags: Seq<DockerTag>, n: nat)
    requires
        n <= tags.len(),
    ensures
        newest_tag(tags, n) matches Some(i) ==> 0 <= i < n && tag_version(tags[i]) is Some,
        newest_tag(tags, n) is None <==> forall|i: int|
            0 <= i < n ==> tag_version(#[trigger] tags[i]) is None,
    decreases n,
{
    if n > 0 {
        lemma_newest_tag(tags, (n - 1) as nat);
    }
}

/// The pick is strictly newer than every tag that comes after it and stands
/// for a version. Of the tags before it no more is said than that the pick
/// took the place of the one in hand, which was not the strictly newer of
/// the two.
pub proof fn lemma_newest_tag_beats_later(tags: Seq<DockerTag>, n: nat, j: int)
    requires
        n <= tags.len(),
        newest_tag(tags, n) is Some,
        newest_tag(tags, n).unwrap() < j < n,
        tag_version(tags[j]) is Some,
    ensures
        version_order(
            tag_version(tags[newest_tag(tags, n).unwrap()]).unwrap(),
            tag_version(tags[j]).unwrap(),
        ) == Some(1i8),
    decreases n,
{
    if n > 0 {
        lemma_newest_tag(tags, (n - 1) as nat);
        if j < n - 1 {
            lemma_newest_tag_beats_later(tags, (n - 1) as nat, j);
        }
    }
}

/// The version that `tag` stands for.
fn version_of_tag(tag: &DockerTag) -> (r: Option<SemVer>)
    ensures
        r is Some == tag_version(*tag) is Some,
        r matches Some(v) ==> tag_version(*tag) == Some(v@),
{
    if same_text(tag.name.as_str(), "latest") || !same_text(tag.tag_status.as_str(), "active") {
        return None;
    }
    let bare = trim_leading(tag.name.as_str(), 'v');
    SemVer::parse(bare.as_str())
}

/// The name of the tag that is picked as the latest: the active tags whose
/// name is a semantic version are taken in order, and the one in hand gives
/// way to the next unless it is the strictly newer of the two. The pick is
/// thus strictly newer than every such tag after it; of several that are
/// equally new it is the last. `None` where no tag stands for a version.
pub fn latest_tag(tags: &Vec<DockerTag>) -> (r: Option<String>)
    ensures
        opt_text(r) == (match newest_tag(tags@, tags@.len()) {
            Some(i) => Some(tags@[i].name@),
            None => None,
        }),
{
    let mut best: Option<(usize, SemVer)> = None;
    let mut i: usize = 0;
    while i < tags.len()
        invariant
            i <= tags@.len(),
            best is Some == newest_tag(tags@, i as nat) is Some,
            best matches Some(b) ==> newest_tag(tags@, i as nat) == Some(b.0 as int) && b.0 < i
                && tag_version(tags@[b.0 as int]) == Some(b.1@),
        decreases tags@.len() - i,
    {
        match version_of_tag(&tags[i]) {
            None => {},
            Some(v) => {
                let keep = match &best {
                    None => false,
                    Some(b) => match b.1.compare(&v) {
                        Some(o) => o == 1,
                        None => false,
                    },
                };
                if !keep {
                    best = Some((i, v));
                }
            },
        }
        i += 1;
    }
    match best {
        Some(b) => Some(tags[b.0].name.clone()),
        None => None,
    }
}

} // verus!
