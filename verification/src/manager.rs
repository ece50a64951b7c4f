//! The per-component facade: policy, online and local version lists,
//! selection, and the entry point into the download session.
//!
//! The manager owns no I/O. The host fetches the release list and scans
//! the installation root, then hands the results in as plain values; the
//! manager filters them under the policy, keeps both lists sorted by
//! descending precedence, and selects the version to run.

use vstd::prelude::*;
use vstd::string::StrSliceExecFns;
use vstd::utf8::encode_utf8;

use crate::pipeline::{DownloadError, DownloadSession, RemoteVersionEntry};
use crate::policy::{
    bytes_contains_exec, eval_constraint, parse_version, policy_accepts, version_of,
};
use crate::version::{
    canon_chars, lemma_ver_lt_irrefl, lemma_ver_lt_total, lemma_ver_lt_trans, ver_lt, SemVer,
    SemVerView,
};

verus! {

/// The configuration document: one version-constraint expression per
/// logical component name.
#[derive(Debug, Default)]
pub struct BinaryVersionsJsonContent {
    pub binaries: Vec<(String, String)>,
}

/// The constraint expression the document holds for `name`: the first
/// entry with that name, if any.
pub open spec fn lookup_constraint(entries: Seq<(String, String)>, name: Seq<char>) -> Option<
    Seq<char>,
>
    decreases entries.len(),
{
    if entries.len() == 0 {
        None
    } else if entries[0].0@ == name {
        Some(entries[0].1@)
    } else {
        lookup_constraint(entries.skip(1), name)
    }
}

/// A descending chain under semver precedence: no element strictly
/// precedes a later one.
pub open spec fn versions_sorted_desc(s: Seq<SemVer>) -> bool {
    forall|i: int, j: int| 0 <= i < j < s.len() ==> !ver_lt(s[i]@, s[j]@)
}

/// The same, over catalog entries.
pub open spec fn entries_sorted_desc(s: Seq<RemoteVersionEntry>) -> bool {
    forall|i: int, j: int| 0 <= i < j < s.len() ==> !ver_lt(s[i].version@, s[j].version@)
}

/// Whether some element of `s` has the mathematical value `v`.
pub open spec fn view_in(s: Seq<SemVer>, v: SemVerView) -> bool {
    exists|i: int| 0 <= i < s.len() && s[i]@ == v
}

/// Whether two catalog entries carry the same version and the same assets.
pub open spec fn entry_like(a: RemoteVersionEntry, b: RemoteVersionEntry) -> bool {
    a.version@ == b.version@ && a.assets@ == b.assets@
}

/// Whether element `i` of `list` is one of the first `upto` entries of
/// `fetched`, up to [`entry_like`].
pub open spec fn came_from(
    list: Seq<RemoteVersionEntry>,
    i: int,
    fetched: Seq<RemoteVersionEntry>,
    upto: int,
) -> bool {
    exists|j: int| 0 <= j < upto && entry_like(list[i], #[trigger] fetched[j])
}

/// Whether entry `j` of `fetched` is present in `list`, up to
/// [`entry_like`].
pub open spec fn kept_in(
    list: Seq<RemoteVersionEntry>,
    fetched: Seq<RemoteVersionEntry>,
    j: int,
) -> bool {
    exists|i: int| 0 <= i < list.len() && entry_like(#[trigger] list[i], fetched[j])
}

/// Whether one scanned subdirectory contributes a local version under
/// manager `m`: it is a directory, its name parses as a version the
/// policy accepts, and its probe shows a runnable artifact.
pub open spec fn entry_qualifies(m: BinaryManager, e: LocalDirEntry) -> bool {
    &&& e.is_dir
    &&& version_of(e.name@) is Some
    &&& m.accepts(version_of(e.name@)->0)
    &&& probe_shows_files(e.probe)
}

/// Whether one of the first `upto` scanned entries contributes the
/// version value `v`.
pub open spec fn local_adds(
    m: BinaryManager,
    entries: Seq<LocalDirEntry>,
    upto: int,
    v: SemVerView,
) -> bool {
    exists|j: int|
        0 <= j < upto && entry_qualifies(m, #[trigger] entries[j]) && version_of(entries[j].name@)
            == Some(v)
}

/// What one inventory scan does to the manager: the policy, the online
/// list and the used version are untouched; the local list stays sorted
/// and holds exactly the values it had before plus the qualifying scanned
/// versions.
pub open spec fn scan_post(
    pre: BinaryManager,
    post: BinaryManager,
    entries: Seq<LocalDirEntry>,
) -> bool {
    &&& post.same_policy(pre)
    &&& post.online_versions_list == pre.online_versions_list
    &&& post.used_version == pre.used_version
    &&& versions_sorted_desc(post.local_available_versions_list@)
    &&& forall|v: SemVerView|
        #[trigger] view_in(post.local_available_versions_list@, v) <==> view_in(
            pre.local_available_versions_list@,
            v,
        ) || local_adds(pre, entries, entries.len() as int, v)
}

/// What the host found on disk for one immediate subdirectory of the
/// component's installation root.
#[derive(Debug)]
pub struct LocalDirEntry {
    /// The subdirectory's name, to be read as a version string.
    pub name: String,
    pub is_dir: bool,
    /// What exists inside it for the selected version.
    pub probe: FileProbe,
}

/// The host's answers to the on-disk completeness checks for one version
/// directory: whether the installation root could be resolved at all, and
/// which of the three runnable-artifact forms is present — the platform
/// binary under its exact name, its executable-suffixed variant, or the
/// index marker of a web-bundle component.
#[derive(Clone, Copy, Debug)]
pub struct FileProbe {
    pub folder_resolved: bool,
    pub binary_present: bool,
    pub exe_variant_present: bool,
    pub marker_present: bool,
}

/// Whether a probe shows a runnable artifact.
pub open spec fn probe_shows_files(p: FileProbe) -> bool {
    p.folder_resolved && (p.binary_present || p.exe_variant_present || p.marker_present)
}

/// The outcome of asking for a download session.
#[derive(Debug)]
pub enum SessionStart {
    /// The session is running its first attempt: resolve the platform
    /// asset of `session.entry` and feed the answer to `session.step`.
    Begun(DownloadSession),
    /// Every attempt failed before any outside work could begin (no
    /// version selected, or the selected version has no catalog entry).
    /// The host must emit one error-telemetry event, as after any
    /// exhausted session.
    Refused(DownloadError),
}

/// The facade owning one logical component's version state.
#[derive(Debug)]
pub struct BinaryManager {
    pub binary_name: String,
    pub binary_subfolder: Option<String>,
    /// The range expression the configuration document held for this
    /// component, if any; evaluated fail-open.
    pub version_requirements: Option<String>,
    /// The UTF-8 bytes of the required prerelease tag, if any.
    pub network_prerelease_prefix: Option<Vec<u8>>,
    pub should_validate_checksum: bool,
    /// Versions advertised remotely that pass the policy, descending.
    pub online_versions_list: Vec<RemoteVersionEntry>,
    /// Versions installed locally that pass the policy, descending.
    pub local_available_versions_list: Vec<SemVer>,
    /// The version confirmed for use; set only by `set_used_version`.
    pub used_version: Option<SemVer>,
}

impl BinaryManager {
    /// The policy's range expression, as a mathematical value.
    pub open spec fn req_spec(self) -> Option<Seq<char>> {
        match self.version_requirements {
            Some(s) => Some(s@),
            None => None,
        }
    }

    /// The policy's required prerelease tag, as a mathematical value.
    pub open spec fn tag_spec(self) -> Option<Seq<u8>> {
        match self.network_prerelease_prefix {
            Some(t) => Some(t@),
            None => None,
        }
    }

    /// Whether the policy accepts `v`.
    pub open spec fn accepts(self, v: SemVerView) -> bool {
        policy_accepts(self.req_spec(), self.tag_spec(), v)
    }

    /// Both lists sorted descending, holding only well-formed versions
    /// the policy accepts.
    pub open spec fn wf(self) -> bool {
        &&& entries_sorted_desc(self.online_versions_list@)
        &&& forall|i: int|
            0 <= i < self.online_versions_list@.len() ==> (
            #[trigger] self.online_versions_list@[i].version@).wf() && self.accepts(
                self.online_versions_list@[i].version@,
            )
        &&& versions_sorted_desc(self.local_available_versions_list@)
        &&& forall|i: int|
            0 <= i < self.local_available_versions_list@.len() ==> (
            #[trigger] self.local_available_versions_list@[i]@).wf() && self.accepts(
                self.local_available_versions_list@[i]@,
            )
        &&& self.used_version is Some ==> self.used_version->0@.wf()
    }

    /// The policy-relevant fields, for stating that a call leaves the
    /// policy untouched.
    pub open spec fn same_policy(self, other: BinaryManager) -> bool {
        &&& self.binary_name == other.binary_name
        &&& self.binary_subfolder == other.binary_subfolder
        &&& self.version_requirements == other.version_requirements
        &&& self.network_prerelease_prefix == other.network_prerelease_prefix
        &&& self.should_validate_checksum == other.should_validate_checksum
    }

    /// Builds the manager for one component: looks the component's
    /// constraint expression up in the configuration document (a missing
    /// or later-unparseable expression degrades to "accept everything")
    /// and starts with empty version lists and no used version.
    pub fn new(
        binary_name: String,
        binary_subfolder: Option<String>,
        requirements: &BinaryVersionsJsonContent,
        network_prerelease_prefix: Option<String>,
        should_validate_checksum: bool,
    ) -> (r: BinaryManager)
        ensures
            r.wf(),
            r.binary_name == binary_name,
            r.binary_subfolder == binary_subfolder,
            r.should_validate_checksum == should_validate_checksum,
            r.req_spec() == lookup_constraint(requirements.binaries@, binary_name@),
            (match network_prerelease_prefix {
                Some(p) => r.tag_spec() == Some(encode_utf8(p@)),
                None => r.tag_spec() is None,
            }),
            r.online_versions_list@.len() == 0,
            r.local_available_versions_list@.len() == 0,
            r.used_version is None,
    {
        let version_requirements = BinaryManager::read_version_requirements(
            &binary_name,
            requirements,
        );
        let network_prerelease_prefix = match network_prerelease_prefix {
            Some(p) => Some(p.as_str().as_bytes_vec()),
            None => None,
        };
        BinaryManager {
            binary_name,
            binary_subfolder,
            version_requirements,
            network_prerelease_prefix,
            should_validate_checksum,
            online_versions_list: Vec::new(),
            local_available_versions_list: Vec::new(),
            used_version: None,
        }
    }

    /// The constraint expression the document holds for this component.
    pub fn read_version_requirements(
        binary_name: &String,
        requirements: &BinaryVersionsJsonContent,
    ) -> (r: Option<String>)
        ensures
            r is Some <==> lookup_constraint(requirements.binaries@, binary_name@) is Some,
            r is Some ==> r->0@ == lookup_constraint(requirements.binaries@, binary_name@)->0,
    {
        let n = requirements.binaries.len();
        let mut i: usize = 0;
        proof {
            assert(requirements.binaries@.skip(0) =~= requirements.binaries@);
        }
        while i < n
            invariant
                i <= n == requirements.binaries@.len(),
                lookup_constraint(requirements.binaries@, binary_name@) == lookup_constraint(
                    requirements.binaries@.skip(i as int),
                    binary_name@,
                ),
            decreases n - i,
        {
            let ghost rest = requirements.binaries@.skip(i as int);
            if requirements.binaries[i].0.eq(binary_name) {
                assert(rest[0].0@ == binary_name@);
                return Some(requirements.binaries[i].1.clone());
            }
            proof {
                assert(rest.skip(1) =~= requirements.binaries@.skip(i + 1));
            }
            i = i + 1;
        }
        assert(requirements.binaries@.skip(n as int).len() == 0);
        None
    }

    /// The component's dedicated subdirectory, if it has one.
    pub fn binary_subfolder(&self) -> (r: Option<&String>)
        ensures
            r is Some <==> self.binary_subfolder is Some,
            r is Some ==> *r->0 == self.binary_subfolder->0,
    {
        self.binary_subfolder.as_ref()
    }

    /// Whether `version` passes the policy: the range accepts it (or the
    /// range is absent or unparseable — fail open) and its prerelease
    /// carries the required tag.
    pub fn check_if_version_meet_requirements(&self, version: &SemVer) -> (r: bool)
        requires
            version.wf(),
        ensures
            r == self.accepts(version@),
    {
        let in_range = match &self.version_requirements {
            None => true,
            Some(req) => match eval_constraint(req.as_str(), version) {
                Some(b) => b,
                None => true,
            },
        };
        let tag_ok = match &self.network_prerelease_prefix {
            None => true,
            Some(tag) => bytes_contains_exec(&version.pre, tag),
        };
        in_range && tag_ok
    }

    /// Diagnostic: whether no advertised version exceeds `version` — used
    /// by hosts to warn that a rejected version lies above the policy's
    /// upper bound. It never affects selection.
    pub fn check_if_version_exceeds_requirements(&self, version: &SemVer) -> (r: bool)
        ensures
            r == !exists|i: int|
                0 <= i < self.online_versions_list@.len() && ver_lt(
                    version@,
                    #[trigger] self.online_versions_list@[i].version@,
                ),
    {
        let mut i: usize = 0;
        let n = self.online_versions_list.len();
        while i < n
            invariant
                i <= n == self.online_versions_list@.len(),
                forall|j: int|
                    0 <= j < i ==> !ver_lt(
                        version@,
                        #[trigger] self.online_versions_list@[j].version@,
                    ),
            decreases n - i,
        {
            if version.lt(&self.online_versions_list[i].version) {
                return false;
            }
            i = i + 1;
        }
        true
    }
}

/// Inserts `e` into a descending entry list, keeping it descending. The
/// new list holds exactly the old elements and `e`.
fn insert_entry_sorted(list: &mut Vec<RemoteVersionEntry>, e: RemoteVersionEntry)
    requires
        entries_sorted_desc(old(list)@),
    ensures
        entries_sorted_desc(final(list)@),
        final(list)@.len() == old(list)@.len() + 1,
        forall|i: int|
            0 <= i < final(list)@.len() ==> #[trigger] final(list)@[i] == e || exists|j: int|
                0 <= j < old(list)@.len() && final(list)@[i] == old(list)@[j],
        exists|i: int| 0 <= i < final(list)@.len() && #[trigger] final(list)@[i] == e,
        forall|j: int|
            #![trigger old(list)@[j]]
            0 <= j < old(list)@.len() ==> exists|i: int|
                0 <= i < final(list)@.len() && #[trigger] final(list)@[i] == old(list)@[j],
{
    let n = list.len();
    let mut k: usize = 0;
    while k < n && !list[k].version.lt(&e.version)
        invariant
            n == list@.len(),
            k <= n,
            forall|i: int| 0 <= i < k ==> !ver_lt(#[trigger] list@[i].version@, e.version@),
        decreases n - k,
    {
        k = k + 1;
    }
    let ghost pre = list@;
    let ghost kk = k as int;
    let ghost ev = e.version@;
    proof {
        if kk < pre.len() {
            assert(ver_lt(pre[kk].version@, ev));
        }
    }
    list.insert(k, e);
    proof {
        assert(list@ == pre.insert(kk, e));
        assert forall|i: int, j: int| 0 <= i < j < list@.len() implies !ver_lt(
            #[trigger] list@[i].version@,
            #[trigger] list@[j].version@,
        ) by {
            if i < kk && j == kk {
                // prefix versus the new element: the scan passed it.
            } else if i == kk && j > kk {
                // new element versus suffix: the scan stopped because the
                // suffix head precedes it; transitivity carries it on.
                assert(list@[j] == pre[j - 1]);
                assert(ver_lt(pre[kk].version@, ev));
                if ver_lt(ev, pre[j - 1].version@) {
                    lemma_ver_lt_trans(pre[kk].version@, ev, pre[j - 1].version@);
                    if kk == j - 1 {
                        lemma_ver_lt_irrefl(pre[kk].version@);
                    } else {
                        assert(!ver_lt(pre[kk].version@, pre[j - 1].version@));
                    }
                }
            } else if i < kk && j > kk {
                assert(list@[i] == pre[i]);
                assert(list@[j] == pre[j - 1]);
            } else if j < kk {
                assert(list@[i] == pre[i]);
                assert(list@[j] == pre[j]);
            } else if i > kk {
                assert(list@[i] == pre[i - 1]);
                assert(list@[j] == pre[j - 1]);
            }
        }
        assert(list@[kk] == e);
        assert forall|j: int| #![trigger pre[j]] 0 <= j < pre.len() implies exists|i: int|
            0 <= i < list@.len() && #[trigger] list@[i] == pre[j] by {
            if j < kk {
                assert(list@[j] == pre[j]);
            } else {
                assert(list@[j + 1] == pre[j]);
            }
        }
        assert forall|i: int|
            0 <= i < list@.len() && i != kk implies #[trigger] list@[i] == e || exists|j: int|
            0 <= j < pre.len() && list@[i] == pre[j] by {
            if i < kk {
                assert(list@[i] == pre[i]);
            } else {
                assert(list@[i] == pre[i - 1]);
            }
        }
    }
}

/// Inserts `v` into a descending version list, keeping it descending.
fn insert_version_sorted(list: &mut Vec<SemVer>, v: SemVer)
    requires
        versions_sorted_desc(old(list)@),
    ensures
        versions_sorted_desc(final(list)@),
        final(list)@.len() == old(list)@.len() + 1,
        forall|i: int|
            0 <= i < final(list)@.len() ==> #[trigger] final(list)@[i] == v || exists|j: int|
                0 <= j < old(list)@.len() && final(list)@[i] == old(list)@[j],
        exists|i: int| 0 <= i < final(list)@.len() && #[trigger] final(list)@[i] == v,
        forall|j: int|
            #![trigger old(list)@[j]]
            0 <= j < old(list)@.len() ==> exists|i: int|
                0 <= i < final(list)@.len() && #[trigger] final(list)@[i] == old(list)@[j],
{
    let n = list.len();
    let mut k: usize = 0;
    while k < n && !list[k].lt(&v)
        invariant
            n == list@.len(),
            k <= n,
            forall|i: int| 0 <= i < k ==> !ver_lt(#[trigger] list@[i]@, v@),
        decreases n - k,
    {
        k = k + 1;
    }
    let ghost pre = list@;
    let ghost kk = k as int;
    let ghost vv = v@;
    proof {
        if kk < pre.len() {
            assert(ver_lt(pre[kk]@, vv));
        }
    }
    list.insert(k, v);
    proof {
        assert(list@ == pre.insert(kk, v));
        assert forall|i: int, j: int| 0 <= i < j < list@.len() implies !ver_lt(
            #[trigger] list@[i]@,
            #[trigger] list@[j]@,
        ) by {
            if i < kk && j == kk {
            } else if i == kk && j > kk {
                assert(list@[j] == pre[j - 1]);
                assert(ver_lt(pre[kk]@, vv));
                if ver_lt(vv, pre[j - 1]@) {
                    lemma_ver_lt_trans(pre[kk]@, vv, pre[j - 1]@);
                    if kk == j - 1 {
                        lemma_ver_lt_irrefl(pre[kk]@);
                    } else {
                        assert(!ver_lt(pre[kk]@, pre[j - 1]@));
                    }
                }
            } else if i < kk && j > kk {
                assert(list@[i] == pre[i]);
                assert(list@[j] == pre[j - 1]);
            } else if j < kk {
                assert(list@[i] == pre[i]);
                assert(list@[j] == pre[j]);
            } else if i > kk {
                assert(list@[i] == pre[i - 1]);
                assert(list@[j] == pre[j - 1]);
            }
        }
        assert(list@[kk] == v);
        assert forall|j: int| #![trigger pre[j]] 0 <= j < pre.len() implies exists|i: int|
            0 <= i < list@.len() && #[trigger] list@[i] == pre[j] by {
            if j < kk {
                assert(list@[j] == pre[j]);
            } else {
                assert(list@[j + 1] == pre[j]);
            }
        }
        assert forall|i: int|
            0 <= i < list@.len() && i != kk implies #[trigger] list@[i] == v || exists|j: int|
            0 <= j < pre.len() && list@[i] == pre[j] by {
            if i < kk {
                assert(list@[i] == pre[i]);
            } else {
                assert(list@[i] == pre[i - 1]);
            }
        }
    }
}

impl BinaryManager {
    /// Pure completeness check: a version's files count as present when a
    /// version was named at all and the host's probe of its directory
    /// found any runnable artifact. Independent of the manager's state
    /// and safe to call at any time.
    pub fn check_if_files_for_version_exist(&self, version: Option<&SemVer>, probe: &FileProbe) -> (r:
        bool)
        ensures
            r == (version is Some && probe_shows_files(*probe)),
    {
        match version {
            None => false,
            Some(_) => probe.folder_resolved && (probe.binary_present || probe.exe_variant_present
                || probe.marker_present),
        }
    }

    /// Refreshes the online list from a freshly fetched release list: the
    /// new list holds exactly those entries whose version passes the
    /// policy, in descending precedence, fully replacing the old list.
    /// The local list, the used version, and the policy are untouched.
    /// A host that wants to warn about rejected versions lying above the
    /// policy's upper bound can ask
    /// [`Self::check_if_version_exceeds_requirements`] afterwards; the
    /// answer never affects the list.
    #[verifier::rlimit(60)]
    pub fn check_for_updates(&mut self, fetched: &Vec<RemoteVersionEntry>)
        requires
            old(self).wf(),
            forall|i: int| 0 <= i < fetched@.len() ==> (#[trigger] fetched@[i].version@).wf(),
        ensures
            final(self).wf(),
            final(self).same_policy(*old(self)),
            final(self).local_available_versions_list == old(self).local_available_versions_list,
            final(self).used_version == old(self).used_version,
            entries_sorted_desc(final(self).online_versions_list@),
            forall|i: int|
                0 <= i < final(self).online_versions_list@.len() ==> #[trigger] came_from(
                    final(self).online_versions_list@,
                    i,
                    fetched@,
                    fetched@.len() as int,
                ),
            forall|j: int|
                0 <= j < fetched@.len() && old(self).accepts(fetched@[j].version@)
                    ==> #[trigger] kept_in(final(self).online_versions_list@, fetched@, j),
    {
        let ghost old_self = *old(self);
        self.online_versions_list = Vec::new();
        let n = fetched.len();
        let mut done: usize = 0;
        while done < n
            invariant
                done <= n == fetched@.len(),
                forall|i: int| 0 <= i < fetched@.len() ==> (#[trigger] fetched@[i].version@).wf(),
                self.binary_name == old_self.binary_name,
                self.binary_subfolder == old_self.binary_subfolder,
                self.version_requirements == old_self.version_requirements,
                self.network_prerelease_prefix == old_self.network_prerelease_prefix,
                self.should_validate_checksum == old_self.should_validate_checksum,
                self.local_available_versions_list == old_self.local_available_versions_list,
                self.used_version == old_self.used_version,
                versions_sorted_desc(self.local_available_versions_list@),
                forall|i: int|
                    0 <= i < self.local_available_versions_list@.len() ==> (
                    #[trigger] self.local_available_versions_list@[i]@).wf() && old_self.accepts(
                        self.local_available_versions_list@[i]@,
                    ),
                old_self.used_version is Some ==> old_self.used_version->0@.wf(),
                entries_sorted_desc(self.online_versions_list@),
                forall|i: int|
                    0 <= i < self.online_versions_list@.len() ==> (
                    #[trigger] self.online_versions_list@[i].version@).wf() && old_self.accepts(
                        self.online_versions_list@[i].version@,
                    ),
                forall|i: int|
                    0 <= i < self.online_versions_list@.len() ==> #[trigger] came_from(
                        self.online_versions_list@,
                        i,
                        fetched@,
                        done as int,
                    ),
                forall|j: int|
                    0 <= j < done && old_self.accepts(fetched@[j].version@)
                        ==> #[trigger] kept_in(self.online_versions_list@, fetched@, j),
            decreases n - done,
        {
            let e = fetched[done].duplicate();
            proof {
                assert(entry_like(e, fetched@[done as int]));
            }
            let keep = self.check_if_version_meet_requirements(&e.version);
            let ghost before = self.online_versions_list@;
            if keep {
                insert_entry_sorted(&mut self.online_versions_list, e);
            }
            proof {
                let cur = self.online_versions_list@;
                let dd = done as int;
                if keep {
                    assert forall|j: int|
                        0 <= j < dd + 1 && old_self.accepts(fetched@[j].version@) implies
                        #[trigger] kept_in(cur, fetched@, j) by {
                        if j == dd {
                            let i = choose|i: int| 0 <= i < cur.len() && #[trigger] cur[i] == e;
                            assert(entry_like(cur[i], fetched@[j]));
                        } else {
                            assert(kept_in(before, fetched@, j));
                            let i0 = choose|i0: int|
                                0 <= i0 < before.len() && entry_like(
                                    #[trigger] before[i0],
                                    fetched@[j],
                                );
                            let i = choose|i: int|
                                0 <= i < cur.len() && #[trigger] cur[i] == before[i0];
                            assert(entry_like(cur[i], fetched@[j]));
                        }
                    }
                    assert forall|i: int| 0 <= i < cur.len() implies #[trigger] came_from(
                        cur,
                        i,
                        fetched@,
                        dd + 1,
                    ) by {
                        if cur[i] == e {
                            assert(entry_like(cur[i], fetched@[dd]));
                        } else {
                            let j0 = choose|j0: int|
                                0 <= j0 < before.len() && #[trigger] cur[i] == before[j0];
                            assert(came_from(before, j0, fetched@, dd));
                            let j = choose|j: int|
                                0 <= j < dd && entry_like(before[j0], #[trigger] fetched@[j]);
                            assert(entry_like(cur[i], fetched@[j]));
                        }
                    }
                } else {
                    assert forall|j: int|
                        0 <= j < dd + 1 && old_self.accepts(fetched@[j].version@) implies
                        #[trigger] kept_in(cur, fetched@, j) by {
                        assert(j != dd);
                        assert(kept_in(before, fetched@, j));
                    }
                    assert forall|i: int| 0 <= i < cur.len() implies #[trigger] came_from(
                        cur,
                        i,
                        fetched@,
                        dd + 1,
                    ) by {
                        assert(came_from(cur, i, fetched@, dd));
                        let j = choose|j: int|
                            0 <= j < dd && entry_like(cur[i], #[trigger] fetched@[j]);
                        assert(entry_like(cur[i], fetched@[j]));
                    }
                }
            }
            done = done + 1;
        }
    }

    /// Merges the host's scan of the installation root into the local
    /// list: every immediate subdirectory whose name parses as a version,
    /// passes the policy, and shows a runnable artifact is added, keeping
    /// the list descending. Nothing is removed (rescans may duplicate
    /// entries; selection is unaffected). The online list, the used
    /// version, and the policy are untouched.
    #[verifier::rlimit(60)]
    pub fn read_local_versions(&mut self, entries: &Vec<LocalDirEntry>)
        requires
            old(self).wf(),
        ensures
            final(self).wf(),
            scan_post(*old(self), *final(self), entries@),
    {
        let ghost old_self = *old(self);
        let ghost old_local = old(self).local_available_versions_list@;
        let n = entries.len();
        let mut idx: usize = 0;
        while idx < n
            invariant
                idx <= n == entries@.len(),
                self.binary_name == old_self.binary_name,
                self.binary_subfolder == old_self.binary_subfolder,
                self.version_requirements == old_self.version_requirements,
                self.network_prerelease_prefix == old_self.network_prerelease_prefix,
                self.should_validate_checksum == old_self.should_validate_checksum,
                self.online_versions_list == old_self.online_versions_list,
                self.used_version == old_self.used_version,
                old_local == old_self.local_available_versions_list@,
                old_self.wf(),
                versions_sorted_desc(self.local_available_versions_list@),
                forall|i: int|
                    0 <= i < self.local_available_versions_list@.len() ==> (
                    #[trigger] self.local_available_versions_list@[i]@).wf() && old_self.accepts(
                        self.local_available_versions_list@[i]@,
                    ),
                forall|v: SemVerView|
                    #[trigger] view_in(self.local_available_versions_list@, v) <==> view_in(
                        old_local,
                        v,
                    ) || local_adds(old_self, entries@, idx as int, v),
            decreases n - idx,
        {
            let e = &entries[idx];
            let ghost before = self.local_available_versions_list@;
            let ghost ii = idx as int;
            let ghost mut added_view: Option<SemVerView> = None;
            if e.is_dir {
                if let Some(ver) = parse_version(e.name.as_str()) {
                    let meets = self.check_if_version_meet_requirements(&ver);
                    let files = self.check_if_files_for_version_exist(Some(&ver), &e.probe);
                    if meets && files {
                        proof {
                            added_view = Some(ver@);
                        }
                        insert_version_sorted(&mut self.local_available_versions_list, ver);
                    }
                }
            }
            proof {
                let cur = self.local_available_versions_list@;
                match added_view {
                    Some(av) => {
                        assert(entry_qualifies(old_self, entries@[ii]));
                        assert(version_of(entries@[ii].name@) == Some(av));
                        assert forall|v: SemVerView| #[trigger] view_in(cur, v) implies view_in(
                            old_local,
                            v,
                        ) || local_adds(old_self, entries@, ii + 1, v) by {
                            let i = choose|i: int| 0 <= i < cur.len() && #[trigger] cur[i]@ == v;
                            if cur[i]@ == av {
                                assert(local_adds(old_self, entries@, ii + 1, v));
                            } else {
                                let j0 = choose|j0: int|
                                    0 <= j0 < before.len() && #[trigger] cur[i] == before[j0];
                                assert(view_in(before, v));
                                if !view_in(old_local, v) {
                                    let j = choose|j: int|
                                        0 <= j < ii && entry_qualifies(
                                            old_self,
                                            #[trigger] entries@[j],
                                        ) && version_of(entries@[j].name@) == Some(v);
                                    assert(local_adds(old_self, entries@, ii + 1, v));
                                }
                            }
                        }
                        assert forall|v: SemVerView|
                            view_in(old_local, v) || local_adds(
                                old_self,
                                entries@,
                                ii + 1,
                                v,
                            ) implies #[trigger] view_in(cur, v) by {
                            if view_in(old_local, v) || local_adds(old_self, entries@, ii, v) {
                                assert(view_in(before, v));
                                let i0 = choose|i0: int|
                                    0 <= i0 < before.len() && #[trigger] before[i0]@ == v;
                                let i = choose|i: int|
                                    0 <= i < cur.len() && #[trigger] cur[i] == before[i0];
                                assert(cur[i]@ == v);
                            } else {
                                let j = choose|j: int|
                                    0 <= j < ii + 1 && entry_qualifies(
                                        old_self,
                                        #[trigger] entries@[j],
                                    ) && version_of(entries@[j].name@) == Some(v);
                                assert(j == ii);
                                assert(v == av);
                                let i = choose|i: int|
                                    0 <= i < cur.len() && #[trigger] cur[i]@ == av;
                                assert(view_in(cur, v));
                            }
                        }
                    },
                    None => {
                        assert(cur == before);
                        assert(!entry_qualifies(old_self, entries@[ii]));
                        assert forall|v: SemVerView| #[trigger] local_adds(
                            old_self,
                            entries@,
                            ii + 1,
                            v,
                        ) implies local_adds(old_self, entries@, ii, v) by {
                            let j = choose|j: int|
                                0 <= j < ii + 1 && entry_qualifies(
                                    old_self,
                                    #[trigger] entries@[j],
                                ) && version_of(entries@[j].name@) == Some(v);
                            assert(j != ii);
                        }
                        assert forall|v: SemVerView| #[trigger] local_adds(
                            old_self,
                            entries@,
                            ii,
                            v,
                        ) implies local_adds(old_self, entries@, ii + 1, v) by {
                            let j = choose|j: int|
                                0 <= j < ii && entry_qualifies(
                                    old_self,
                                    #[trigger] entries@[j],
                                ) && version_of(entries@[j].name@) == Some(v);
                        }
                    },
                }
            }
            idx = idx + 1;
        }
    }

    /// The highest version installed locally: the head of the descending
    /// local list. Leaves the manager unchanged.
    pub fn select_highest_local_version(&mut self) -> (r: Option<SemVer>)
        requires
            old(self).wf(),
        ensures
            *final(self) == *old(self),
            r is Some <==> old(self).local_available_versions_list@.len() > 0,
            r is Some ==> r->0@ == old(self).local_available_versions_list@[0]@,
    {
        if self.local_available_versions_list.len() == 0 {
            None
        } else {
            Some(self.local_available_versions_list[0].duplicate())
        }
    }

    /// The highest version advertised remotely: the head of the
    /// descending online list. Leaves the manager unchanged.
    pub fn select_highest_online_version(&mut self) -> (r: Option<SemVer>)
        requires
            old(self).wf(),
        ensures
            *final(self) == *old(self),
            r is Some <==> old(self).online_versions_list@.len() > 0,
            r is Some ==> r->0@ == old(self).online_versions_list@[0].version@,
    {
        if self.online_versions_list.len() == 0 {
            None
        } else {
            Some(self.online_versions_list[0].version.duplicate())
        }
    }

    /// Picks the version to run: the precedence maximum of the highest
    /// online and the highest local version, an empty list contributing a
    /// sentinel zero version; no version is selected when that maximum is
    /// the zero sentinel itself (in particular when both lists are
    /// empty). Does not touch `used_version`.
    pub fn select_highest_version(&mut self) -> (r: Option<SemVer>)
        requires
            old(self).wf(),
        ensures
            *final(self) == *old(self),
            r is Some <==> selected_version_spec(*old(self)) is Some,
            r is Some ==> r->0@ == selected_version_spec(*old(self))->0 && r->0@.wf(),
            r is Some ==> forall|i: int|
                0 <= i < old(self).online_versions_list@.len() ==> !ver_lt(
                    r->0@,
                    #[trigger] old(self).online_versions_list@[i].version@,
                ),
            r is Some ==> forall|i: int|
                0 <= i < old(self).local_available_versions_list@.len() ==> !ver_lt(
                    r->0@,
                    #[trigger] old(self).local_available_versions_list@[i]@,
                ),
    {
        let online_selected = self.select_highest_online_version();
        let local_selected = self.select_highest_local_version();
        let on = match online_selected {
            Some(v) => v,
            None => SemVer::new(0, 0, 0),
        };
        let lo = match local_selected {
            Some(v) => v,
            None => SemVer::new(0, 0, 0),
        };
        let best = if on.lt(&lo) {
            lo
        } else {
            on
        };
        if best.major == 0 && best.minor == 0 && best.patch == 0 && best.pre.len() == 0 {
            proof {
                assert(best@ =~= zero_version());
            }
            None
        } else {
            proof {
                assert(!(best@ =~= zero_version()));
                let online = self.online_versions_list@;
                let local = self.local_available_versions_list@;
                assert forall|i: int| 0 <= i < online.len() implies !ver_lt(
                    best@,
                    #[trigger] online[i].version@,
                ) by {
                    let x = online[i].version@;
                    if ver_lt(best@, x) {
                        if ver_lt(on@, lo@) {
                            lemma_ver_lt_trans(on@, best@, x);
                        }
                        // now ver_lt(on@, x) either way, and on@ == online[0].version@
                        if i == 0 {
                            lemma_ver_lt_irrefl(x);
                        } else {
                            assert(!ver_lt(online[0].version@, online[i].version@));
                        }
                    }
                }
                assert forall|i: int| 0 <= i < local.len() implies !ver_lt(
                    best@,
                    #[trigger] local[i]@,
                ) by {
                    let x = local[i]@;
                    if ver_lt(best@, x) {
                        if ver_lt(on@, lo@) {
                            // best is the local head
                            if i == 0 {
                                lemma_ver_lt_irrefl(x);
                            } else {
                                assert(!ver_lt(local[0]@, local[i]@));
                            }
                        } else {
                            // best is the online head; chain through the
                            // local head, which tops its list
                            if ver_lt(lo@, x) {
                                if i == 0 {
                                    lemma_ver_lt_irrefl(x);
                                } else {
                                    assert(!ver_lt(local[0]@, local[i]@));
                                }
                            } else if ver_lt(x, lo@) {
                                lemma_ver_lt_trans(best@, x, lo@);
                            } else {
                                lemma_ver_lt_total(lo@, x);
                            }
                        }
                    }
                }
            }
            Some(best)
        }
    }

    /// Records the version confirmed for use. This is the only method
    /// that changes `used_version`.
    pub fn set_used_version(&mut self, version: SemVer)
        requires
            old(self).wf(),
            version.wf(),
        ensures
            final(self).wf(),
            final(self).used_version == Some(version),
            final(self).same_policy(*old(self)),
            final(self).online_versions_list == old(self).online_versions_list,
            final(self).local_available_versions_list == old(
                self,
            ).local_available_versions_list,
    {
        self.used_version = Some(version);
    }

    /// The version currently in use, if one was confirmed.
    pub fn get_used_version(&self) -> (r: Option<SemVer>)
        ensures
            r is Some <==> self.used_version is Some,
            r is Some ==> r->0@ == self.used_version->0@,
    {
        match &self.used_version {
            Some(v) => Some(v.duplicate()),
            None => None,
        }
    }

    /// The name of the used version's directory under the component's
    /// installation root — its canonical version string — or
    /// `NoVersionSelected` when no version is in use.
    pub fn get_base_dir(&self) -> (r: Result<String, DownloadError>)
        requires
            self.wf(),
        ensures
            self.used_version is None <==> r == Err::<String, DownloadError>(
                DownloadError::NoVersionSelected,
            ),
            self.used_version is Some ==> r is Ok && r->Ok_0@ == canon_chars(
                self.used_version->0@,
            ),
    {
        match &self.used_version {
            Some(v) => Ok(v.canonical_string()),
            None => Err(DownloadError::NoVersionSelected),
        }
    }

    /// Starts a bounded-retry download session for the selected version.
    /// With no version selected, or none advertised under that version,
    /// the session is refused outright — the attempts would fail before
    /// any outside work — with the error the retries would end in.
    pub fn download_version_with_retries(&self, selected_version: Option<&SemVer>) -> (r:
        SessionStart)
        requires
            self.wf(),
        ensures
            selected_version is None ==> r == SessionStart::Refused(
                DownloadError::NoVersionSelected,
            ),
            selected_version is Some && !online_has(*self, selected_version->0@) ==> r
                == SessionStart::Refused(DownloadError::AssetNotFound),
            selected_version is Some && online_has(*self, selected_version->0@) ==> ({
                &&& r matches SessionStart::Begun(s)
                &&& s.wf()
                &&& s.phase is Running
                &&& s.attempts_started == 1
                &&& s.telemetry_events == 0
                &&& s.pipeline.phase is ResolvingAsset
                &&& s.pipeline.version@ == selected_version->0@
                &&& s.pipeline.validate_checksum == self.should_validate_checksum
                &&& s.entry.version@ == selected_version->0@
                &&& from_online(*self, s.entry)
            }),
    {
        if selected_version.is_none() {
            return SessionStart::Refused(DownloadError::NoVersionSelected);
        }
        let version = selected_version.unwrap();
        let n = self.online_versions_list.len();
        let mut i: usize = 0;
        while i < n
            invariant
                self.wf(),
                selected_version is Some,
                version == selected_version->0,
                i <= n == self.online_versions_list@.len(),
                forall|j: int|
                    0 <= j < i ==> #[trigger] self.online_versions_list@[j].version@ != version@,
            decreases n - i,
        {
            if self.online_versions_list[i].version.same(version) {
                let entry = self.online_versions_list[i].duplicate();
                proof {
                    assert(entry_like(entry, self.online_versions_list@[i as int]));
                }
                let session = DownloadSession::begin(entry, self.should_validate_checksum);
                proof {
                    assert(online_has(*self, version@));
                }
                return SessionStart::Begun(session);
            }
            i = i + 1;
        }
        proof {
            assert(!online_has(*self, version@));
        }
        SessionStart::Refused(DownloadError::AssetNotFound)
    }
}

/// The zero sentinel an empty list contributes to selection.
pub open spec fn zero_version() -> SemVerView {
    SemVerView { major: 0, minor: 0, patch: 0, pre: Seq::empty() }
}

/// What `select_highest_version` returns: the precedence maximum of the
/// two list heads, empty lists contributing the zero sentinel, and no
/// selection when the maximum is the sentinel itself.
pub open spec fn selected_version_spec(m: BinaryManager) -> Option<SemVerView> {
    let on = if m.online_versions_list@.len() > 0 {
        m.online_versions_list@[0].version@
    } else {
        zero_version()
    };
    let lo = if m.local_available_versions_list@.len() > 0 {
        m.local_available_versions_list@[0]@
    } else {
        zero_version()
    };
    let best = if ver_lt(on, lo) {
        lo
    } else {
        on
    };
    if best == zero_version() {
        None
    } else {
        Some(best)
    }
}

/// Whether the online list advertises version `v`.
pub open spec fn online_has(m: BinaryManager, v: SemVerView) -> bool {
    exists|i: int|
        0 <= i < m.online_versions_list@.len() && #[trigger] m.online_versions_list@[i].version@
            == v
}

/// Idempotence of inventory scanning: reading the local versions twice
/// from the same directory listing can only add values the list already
/// holds, so the head of the local list — and with it the selection —
/// is the same after the second scan as after the first.
pub proof fn lemma_read_local_versions_idempotent(
    m0: BinaryManager,
    m1: BinaryManager,
    m2: BinaryManager,
    entries: Seq<LocalDirEntry>,
)
    requires
        m0.wf(),
        m1.wf(),
        m2.wf(),
        scan_post(m0, m1, entries),
        scan_post(m1, m2, entries),
    ensures
        m1.local_available_versions_list@.len() == 0
            <==> m2.local_available_versions_list@.len() == 0,
        m1.local_available_versions_list@.len() > 0 ==> m2.local_available_versions_list@[0]@
            == m1.local_available_versions_list@[0]@,
        selected_version_spec(m2) == selected_version_spec(m1),
{
    let l1 = m1.local_available_versions_list@;
    let l2 = m2.local_available_versions_list@;
    // the second scan adds nothing new: every qualifying entry's version
    // is already in the first scan's list (the policies agree, since a
    // scan leaves the policy untouched)
    assert forall|v: SemVerView| #[trigger] view_in(l2, v) implies view_in(l1, v) by {
        if local_adds(m1, entries, entries.len() as int, v) {
            let j = choose|j: int|
                0 <= j < entries.len() && entry_qualifies(m1, #[trigger] entries[j]) && version_of(
                    entries[j].name@,
                ) == Some(v);
            assert(m1.accepts(version_of(entries[j].name@)->0) == m0.accepts(
                version_of(entries[j].name@)->0,
            ));
            assert(entry_qualifies(m0, entries[j]));
            assert(local_adds(m0, entries, entries.len() as int, v));
            assert(view_in(l1, v));
        }
    }
    if l2.len() > 0 {
        assert(view_in(l2, l2[0]@));
        assert(view_in(l1, l2[0]@));
    }
    if l1.len() > 0 {
        assert(view_in(l1, l1[0]@));
        assert(view_in(l2, l1[0]@));
        let h2 = l2[0]@;
        let h1 = l1[0]@;
        // each head's value occurs in the other list, which its own head
        // tops; by totality the heads are equal
        let k1 = choose|k: int| 0 <= k < l1.len() && l1[k]@ == h2;
        let k2 = choose|k: int| 0 <= k < l2.len() && l2[k]@ == h1;
        if ver_lt(h1, h2) {
            if k1 == 0 {
                lemma_ver_lt_irrefl(h1);
            } else {
                assert(!ver_lt(l1[0]@, l1[k1]@));
            }
        }
        if ver_lt(h2, h1) {
            if k2 == 0 {
                lemma_ver_lt_irrefl(h2);
            } else {
                assert(!ver_lt(l2[0]@, l2[k2]@));
            }
        }
        lemma_ver_lt_total(h1, h2);
    }
    assert(m2.online_versions_list@ == m1.online_versions_list@);
    if l1.len() > 0 {
        assert(selected_version_spec(m2) == selected_version_spec(m1));
    }
}

/// Whether `e` equals one of the online entries.
pub open spec fn from_online(m: BinaryManager, e: RemoteVersionEntry) -> bool {
    exists|i: int|
        0 <= i < m.online_versions_list@.len() && entry_like(
            e,
            #[trigger] m.online_versions_list@[i],
        )
}

} // verus!
