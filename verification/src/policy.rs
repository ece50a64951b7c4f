//! Version-constraint policy: a semantic-version range expression plus an
//! optional required prerelease tag.
//!
//! Range evaluation is the semver crate's own; it enters the crate through
//! trusted wrappers whose results are named by uninterpreted functions.
//! Everything else — the fail-open reading of a missing or unparseable
//! expression and the prerelease-tag substring test — is verified here.

use vstd::prelude::*;

use crate::version::{SemVer, SemVerView};

verus! {

/// Whether `semver::VersionReq::parse` accepts the expression `req`.
pub uninterp spec fn req_parseable(req: Seq<char>) -> bool;

/// What `semver::VersionReq::matches` returns for the range parsed from
/// `req` and the version `v`; meaningful only when `req_parseable(req)`.
pub uninterp spec fn req_accepts(req: Seq<char>, v: SemVerView) -> bool;

/// What `semver::Version::parse` returns for `s`: the parsed version
/// (build metadata discarded, which semver precedence ignores), or `None`
/// when `s` is not a valid semantic version.
pub uninterp spec fn version_of(s: Seq<char>) -> Option<SemVerView>;

/// Relies on `semver::VersionReq::parse` and `semver::VersionReq::matches`:
/// whether a version satisfies a range expression is a deterministic
/// function of the expression and the version alone. Returns `None` when
/// the expression does not parse. The well-formedness precondition makes
/// the prerelease bytes a valid `semver::Prerelease`, so the conversion in
/// the body cannot fail.
#[verifier::external_body]
pub(crate) fn eval_constraint(req: &str, v: &SemVer) -> (r: Option<bool>)
    requires
        v.wf(),
    ensures
        r is Some <==> req_parseable(req@),
        r is Some ==> r->0 == req_accepts(req@, v@),
{
    let parsed = match semver::VersionReq::parse(req) {
        Ok(p) => p,
        Err(_) => return None,
    };
    let mut sv = semver::Version::new(v.major, v.minor, v.patch);
    if let Ok(text) = core::str::from_utf8(&v.pre) {
        if let Ok(pre) = semver::Prerelease::new(text) {
            sv.pre = pre;
        }
    }
    Some(parsed.matches(&sv))
}

/// Relies on `semver::Version::parse`: parsing is a deterministic function
/// of the text, and a parsed prerelease is a nonempty dot-separated list of
/// ASCII alphanumeric or hyphen identifiers with no numeric leading zeros —
/// exactly [`crate::version::pre_wf`].
#[verifier::external_body]
pub(crate) fn parse_version(s: &str) -> (r: Option<SemVer>)
    ensures
        r is Some <==> version_of(s@) is Some,
        r is Some ==> r->0@ == version_of(s@)->0 && r->0.wf(),
{
    match semver::Version::parse(s) {
        Ok(v) => Some(
            SemVer {
                major: v.major,
                minor: v.minor,
                patch: v.patch,
                pre: v.pre.as_str().as_bytes().to_vec(),
            },
        ),
        Err(_) => None,
    }
}

/// Whether `needle` occurs in `hay` as a contiguous substring.
pub open spec fn bytes_contains(hay: Seq<u8>, needle: Seq<u8>) -> bool {
    exists|i: int|
        0 <= i <= hay.len() - needle.len() && #[trigger] hay.subrange(i, i + needle.len())
            == needle
}

/// Decides [`bytes_contains`].
pub fn bytes_contains_exec(hay: &Vec<u8>, needle: &Vec<u8>) -> (r: bool)
    ensures
        r == bytes_contains(hay@, needle@),
{
    let n = needle.len();
    if n > hay.len() {
        return false;
    }
    if n == 0 {
        proof {
            assert(hay@.subrange(0, 0 + needle@.len() as int) =~= needle@);
        }
        return true;
    }
    let mut i: usize = 0;
    while i <= hay.len() - n
        invariant
            0 < n == needle@.len() <= hay@.len(),
            i <= hay@.len() - n + 1,
            forall|k: int|
                0 <= k < i ==> #[trigger] hay@.subrange(k, k + needle@.len()) != needle@,
        decreases hay@.len() - n - i + 1,
    {
        let mut j: usize = 0;
        let mut matched = true;
        while j < n
            invariant
                0 < n == needle@.len() <= hay@.len(),
                hay@.len() <= usize::MAX,
                i <= hay@.len() - n,
                j <= n,
                matched <==> (forall|t: int| 0 <= t < j ==> hay@[i + t] == needle@[t]),
            decreases n - j,
        {
            assert(i + j < hay@.len());
            if hay[i + j] != needle[j] {
                matched = false;
                j = n;
            } else {
                j = j + 1;
            }
        }
        if matched {
            proof {
                assert(hay@.subrange(i as int, i + needle@.len()) =~= needle@);
            }
            return true;
        }
        proof {
            assert(hay@.subrange(i as int, i + needle@.len()) != needle@) by {
                let t = choose|t: int| 0 <= t < n && hay@[i + t] != needle@[t];
                assert(hay@.subrange(i as int, i + needle@.len())[t] == hay@[i + t]);
            }
        }
        i = i + 1;
    }
    false
}

/// Fail-open range evaluation: a version is in range when the policy holds
/// no expression, when the expression does not parse (availability over
/// strictness: a malformed policy must not stop the application), or when
/// the parsed range accepts it.
pub open spec fn range_accepts(req: Option<Seq<char>>, v: SemVerView) -> bool {
    match req {
        Option::None => true,
        Option::Some(r) => !req_parseable(r) || req_accepts(r, v),
    }
}

/// Whether the prerelease component satisfies an optional required tag:
/// no tag required, or the tag occurs in the prerelease bytes.
pub open spec fn pre_tag_ok(tag: Option<Seq<u8>>, pre: Seq<u8>) -> bool {
    match tag {
        Option::None => true,
        Option::Some(t) => bytes_contains(pre, t),
    }
}

/// The whole policy: the version is in range and carries the required
/// prerelease tag.
pub open spec fn policy_accepts(req: Option<Seq<char>>, tag: Option<Seq<u8>>, v: SemVerView) -> bool {
    range_accepts(req, v) && pre_tag_ok(tag, v.pre)
}

/// Policy matching agrees with direct range evaluation: without a required
/// prerelease tag the two coincide, a policy match always implies a range
/// match, and a version whose prerelease lacks the required tag is rejected
/// even when the range accepts it.
pub proof fn lemma_policy_consistent_with_range(
    req: Option<Seq<char>>,
    tag: Option<Seq<u8>>,
    v: SemVerView,
)
    ensures
        tag is None ==> policy_accepts(req, tag, v) == range_accepts(req, v),
        policy_accepts(req, tag, v) ==> range_accepts(req, v),
        tag is Some && !bytes_contains(v.pre, tag->0) ==> !policy_accepts(req, tag, v),
{
}

} // verus!
