//! Release assets and the score that says how well one fits the platform.

use vstd::prelude::*;
use crate::text::{contains, occurs_in};

verus! {

/// The file name names the Linux kernel family.
pub open spec fn has_os_signal(file_name: Seq<char>) -> bool {
    occurs_in(file_name, "linux"@)
}

/// The file name names the 64-bit x86 architecture.
pub open spec fn has_arch_signal(file_name: Seq<char>) -> bool {
    occurs_in(file_name, "x86_64"@)
}

/// The file name names a C runtime: GNU libc or musl.
pub open spec fn has_libc_signal(file_name: Seq<char>) -> bool {
    occurs_in(file_name, "gnu"@) || occurs_in(file_name, "musl"@)
}

/// One point for each signal category that the file name matches.
pub open spec fn score_of(file_name: Seq<char>) -> nat {
    let os: nat = if has_os_signal(file_name) { 1 } else { 0 };
    let arch: nat = if has_arch_signal(file_name) { 1 } else { 0 };
    let libc: nat = if has_libc_signal(file_name) { 1 } else { 0 };
    os + arch + libc
}

/// Counts the platform signals in `file_name`: the operating system, the
/// architecture and the C runtime, one point each.
pub fn score(file_name: &str) -> (points: u8)
    ensures
        points == score_of(file_name@),
{
    let mut points: u8 = 0;
    if contains(file_name, "linux") {
        points += 1;
    }
    if contains(file_name, "x86_64") {
        points += 1;
    }
    if contains(file_name, "gnu") || contains(file_name, "musl") {
        points += 1;
    }
    points
}

/// A file name that names the operating system, the architecture and a C
/// runtime scores exactly three.
pub proof fn full_match_scores_three(file_name: Seq<char>)
    requires
        has_os_signal(file_name),
        has_arch_signal(file_name),
        has_libc_signal(file_name),
    ensures
        score_of(file_name) == 3,
{
}

/// A file name scores zero exactly when it names none of the three.
pub proof fn no_match_scores_zero(file_name: Seq<char>)
    ensures
        score_of(file_name) == 0 <==> !has_os_signal(file_name) && !has_arch_signal(file_name)
            && !has_libc_signal(file_name),
{
}

/// A file name that names both C runtimes has one point for them, not two:
/// its score is one more than what the other two categories give.
pub proof fn both_runtimes_count_once(file_name: Seq<char>)
    requires
        occurs_in(file_name, "gnu"@),
        occurs_in(file_name, "musl"@),
    ensures
        has_libc_signal(file_name),
        score_of(file_name) == (if has_os_signal(file_name) {
            1nat
        } else {
            0nat
        }) + (if has_arch_signal(file_name) {
            1nat
        } else {
            0nat
        }) + 1,
{
}

/// No file name scores more than three.
pub proof fn score_is_at_most_three(file_name: Seq<char>)
    ensures
        score_of(file_name) <= 3,
{
}

/// A downloadable file of a release, as the release metadata describes it.
#[derive(Debug)]
pub struct AssetCandidate {
    pub download_url: String,
    pub file_name: String,
    pub content_type: String,
}

/// What an `AssetCandidate` holds, as plain text.
pub struct CandidateView {
    pub download_url: Seq<char>,
    pub file_name: Seq<char>,
    pub content_type: Seq<char>,
}

impl View for AssetCandidate {
    type V = CandidateView;

    open spec fn view(&self) -> CandidateView {
        CandidateView {
            download_url: self.download_url@,
            file_name: self.file_name@,
            content_type: self.content_type@,
        }
    }
}

/// What an `AssetInfo` holds, as plain values.
pub struct AssetView {
    pub download_url: Seq<char>,
    pub file_name: Seq<char>,
    pub content_type: Seq<char>,
    pub matches: nat,
}

/// The scored form of a candidate: the same texts, with the score of its file name.
pub open spec fn scored(c: CandidateView) -> AssetView {
    AssetView {
        download_url: c.download_url,
        file_name: c.file_name,
        content_type: c.content_type,
        matches: score_of(c.file_name),
    }
}

/// A release asset together with its score. The score is fixed when the
/// value is made and always is that of the file name.
#[derive(Debug)]
pub struct AssetInfo {
    download_url: String,
    file_name: String,
    content_type: String,
    matches: u8,
}

impl View for AssetInfo {
    type V = AssetView;

    closed spec fn view(&self) -> AssetView {
        AssetView {
            download_url: self.download_url@,
            file_name: self.file_name@,
            content_type: self.content_type@,
            matches: self.matches as nat,
        }
    }
}

impl Clone for AssetCandidate {
    fn clone(&self) -> (copy: Self)
        ensures
            copy@ == self@,
    {
        AssetCandidate {
            download_url: self.download_url.clone(),
            file_name: self.file_name.clone(),
            content_type: self.content_type.clone(),
        }
    }
}

impl Clone for AssetInfo {
    fn clone(&self) -> (copy: Self)
        ensures
            copy@ == self@,
    {
        proof {
            use_type_invariant(self);
        }
        AssetInfo {
            download_url: self.download_url.clone(),
            file_name: self.file_name.clone(),
            content_type: self.content_type.clone(),
            matches: self.matches,
        }
    }
}

impl AssetInfo {
    #[verifier::type_invariant]
    closed spec fn scored_by_name(&self) -> bool {
        self.matches as nat == score_of(self.file_name@)
    }

    /// The score is that of the file name. Every value that `new` or `clone`
    /// makes is of this kind, and the library can make no other.
    pub open spec fn wf(&self) -> bool {
        self@.matches == score_of(self@.file_name)
    }

    /// Scores an asset by its file name.
    pub fn new(download_url: String, file_name: String, content_type: String) -> (info: AssetInfo)
        ensures
            info.wf(),
            info@.download_url == download_url@,
            info@.file_name == file_name@,
            info@.content_type == content_type@,
            info@.matches == score_of(file_name@),
    {
        let matches: u8 = score(file_name.as_str());
        AssetInfo { download_url, file_name, content_type, matches }
    }

    /// Where the asset is downloaded from.
    pub fn download_url(&self) -> (url: &str)
        ensures
            url@ == self@.download_url,
    {
        self.download_url.as_str()
    }

    /// The asset's file name.
    pub fn file_name(&self) -> (name: &str)
        ensures
            name@ == self@.file_name,
    {
        self.file_name.as_str()
    }

    /// The content type that the release declares for the asset.
    pub fn content_type(&self) -> (content_type: &str)
        ensures
            content_type@ == self@.content_type,
    {
        self.content_type.as_str()
    }

    /// The asset's score.
    pub fn matches(&self) -> (points: u8)
        ensures
            points == self@.matches,
            points <= 3,
            self.wf(),
    {
        proof {
            use_type_invariant(self);
        }
        self.matches
    }
}

} // verus!
