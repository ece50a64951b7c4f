//! Semantic versions and their precedence order.
//!
//! A [`SemVer`] holds the numeric triple and the prerelease component of a
//! semantic version (build metadata carries no precedence and is not kept).
//! The precedence order of semver — numeric triple first, then prerelease,
//! where a release outranks every prerelease of the same triple and
//! prerelease identifiers are compared dot-by-dot, numeric identifiers
//! numerically and alphanumeric ones lexically — is defined here as a spec
//! and implemented by verified comparison functions.

use vstd::prelude::*;

verus! {

/// The byte value of `'.'`, the separator between prerelease identifiers.
pub const DOT: u8 = 46;

/// The byte value of `'0'`.
pub const ZERO: u8 = 48;

/// A semantic version: `major.minor.patch` plus an optional prerelease
/// component, stored as the joined ASCII identifier string (empty when the
/// version is a release).
#[derive(Debug, PartialEq, Eq)]
pub struct SemVer {
    pub major: u64,
    pub minor: u64,
    pub patch: u64,
    pub pre: Vec<u8>,
}

/// The mathematical value of a [`SemVer`].
#[verifier::ext_equal]
pub ghost struct SemVerView {
    pub major: int,
    pub minor: int,
    pub patch: int,
    pub pre: Seq<u8>,
}

impl View for SemVer {
    type V = SemVerView;

    open spec fn view(&self) -> SemVerView {
        SemVerView {
            major: self.major as int,
            minor: self.minor as int,
            patch: self.patch as int,
            pre: self.pre@,
        }
    }
}

/// Whether `b` may appear inside a prerelease identifier:
/// an ASCII digit, letter, or hyphen.
pub open spec fn pre_char_ok(b: u8) -> bool {
    (48 <= b <= 57) || (65 <= b <= 90) || (97 <= b <= 122) || b == 45
}

/// Whether `s` is a well-formed joined prerelease string: every byte is an
/// identifier character or a dot, the dots cut it into nonempty
/// identifiers (no leading, trailing, or doubled dot), and no numeric
/// identifier has a leading zero. This is exactly the semver prerelease
/// grammar. The empty string is well formed and means "release".
pub open spec fn pre_wf(s: Seq<u8>) -> bool {
    &&& forall|i: int| 0 <= i < s.len() ==> pre_char_ok(#[trigger] s[i]) || s[i] == DOT
    &&& s.len() > 0 ==> s[0] != DOT && s[s.len() - 1] != DOT
    &&& forall|i: int| 0 <= i < s.len() - 1 ==> !(#[trigger] s[i] == DOT && s[i + 1] == DOT)
    &&& no_leading_zero_ids(s)
}

/// Whether a single identifier avoids the forbidden leading zero: it is not
/// a multi-digit all-numeric identifier starting with `0`.
pub open spec fn id_no_leading_zero(id: Seq<u8>) -> bool {
    !(id.len() > 1 && id_is_num(id) && id[0] == ZERO)
}

/// [`id_no_leading_zero`], identifier by identifier over a joined string.
pub open spec fn no_leading_zero_ids(s: Seq<u8>) -> bool
    decreases s.len(),
    via no_leading_zero_ids_decreases
{
    if s.len() == 0 {
        true
    } else {
        id_no_leading_zero(take_id(s)) && no_leading_zero_ids(drop_id(s))
    }
}

#[via_fn]
proof fn no_leading_zero_ids_decreases(s: Seq<u8>) {
    if s.len() > 0 {
        lemma_drop_id_len(s);
    }
}

impl SemVerView {
    /// Well-formedness of the mathematical value.
    pub open spec fn wf(self) -> bool {
        &&& 0 <= self.major <= u64::MAX
        &&& 0 <= self.minor <= u64::MAX
        &&& 0 <= self.patch <= u64::MAX
        &&& pre_wf(self.pre)
    }

    /// Whether this is a release (no prerelease component).
    pub open spec fn is_release(self) -> bool {
        self.pre.len() == 0
    }
}

impl SemVer {
    /// Well-formedness: the prerelease bytes form a valid joined identifier
    /// string.
    pub open spec fn wf(&self) -> bool {
        self@.wf()
    }

    /// A release version `major.minor.patch`.
    pub fn new(major: u64, minor: u64, patch: u64) -> (r: SemVer)
        ensures
            r@ == (SemVerView { major: major as int, minor: minor as int, patch: patch as int, pre: Seq::<u8>::empty() }),
            r.wf(),
    {
        let r = SemVer { major, minor, patch, pre: Vec::new() };
        proof {
            assert(r@ =~= SemVerView { major: major as int, minor: minor as int, patch: patch as int, pre: Seq::<u8>::empty() });
        }
        r
    }

    /// A version with the given prerelease bytes, or `None` when the bytes do
    /// not form a well-formed prerelease string.
    pub fn with_pre(major: u64, minor: u64, patch: u64, pre: Vec<u8>) -> (r: Option<SemVer>)
        ensures
            r is Some <==> pre_wf(pre@),
            r is Some ==> r->0@ == (SemVerView { major: major as int, minor: minor as int, patch: patch as int, pre: pre@ }),
            r is Some ==> r->0.wf(),
    {
        if check_pre_wf(&pre) {
            Some(SemVer { major, minor, patch, pre })
        } else {
            None
        }
    }
}

/// Decides [`pre_wf`] on a byte vector.
pub fn check_pre_wf(pre: &Vec<u8>) -> (r: bool)
    ensures
        r == pre_wf(pre@),
{
    let n = pre.len();
    if n == 0 {
        return true;
    }
    if pre[0] == DOT || pre[n - 1] == DOT {
        return false;
    }
    let mut i: usize = 0;
    while i < n
        invariant
            0 < n == pre@.len(),
            0 <= i <= n,
            forall|j: int| 0 <= j < i ==> pre_char_ok(#[trigger] pre@[j]) || pre@[j] == DOT,
            forall|j: int| 0 <= j < i ==> !(#[trigger] pre@[j] == DOT && j + 1 < n && pre@[j + 1] == DOT),
            pre@[0] != DOT,
            pre@[n - 1] != DOT,
        decreases n - i,
    {
        let b = pre[i];
        let ok = (48 <= b && b <= 57) || (65 <= b && b <= 90) || (97 <= b && b <= 122) || b == 45;
        if !ok && b != DOT {
            return false;
        }
        if b == DOT && i + 1 < n && pre[i + 1] == DOT {
            return false;
        }
        i = i + 1;
    }
    check_no_leading_zeros(pre)
}

/// Decides [`no_leading_zero_ids`] on a byte vector.
fn check_no_leading_zeros(v: &Vec<u8>) -> (r: bool)
    ensures
        r == no_leading_zero_ids(v@),
{
    let mut o: usize = 0;
    proof {
        assert(v@.skip(0) =~= v@);
    }
    loop
        invariant
            o <= v@.len(),
            no_leading_zero_ids(v@) == no_leading_zero_ids(v@.skip(o as int)),
        decreases v@.len() - o,
    {
        let ghost rv = v@.skip(o as int);
        if o == v.len() {
            assert(rv.len() == 0);
            return true;
        }
        let e = find_dot(v, o);
        proof {
            lemma_id_split(rv, e - o);
            assert(rv.take(e - o) =~= v@.subrange(o as int, e as int));
        }
        if e - o > 1 && v[o] == ZERO && id_is_num_range(v, o, e) {
            assert(!id_no_leading_zero(take_id(rv)));
            return false;
        }
        proof {
            if e < v@.len() {
                assert(rv.skip(e - o + 1) =~= v@.skip(e + 1));
            }
            assert(v@.skip(v@.len() as int) =~= Seq::<u8>::empty());
        }
        o = if e < v.len() { e + 1 } else { e };
    }
}

/// The longest dot-free prefix of `s`: the first prerelease identifier.
pub open spec fn take_id(s: Seq<u8>) -> Seq<u8>
    decreases s.len(),
{
    if s.len() == 0 || s[0] == DOT {
        Seq::empty()
    } else {
        seq![s[0]] + take_id(s.skip(1))
    }
}

/// What remains of `s` after the first identifier and the dot that follows
/// it; empty when `s` holds a single identifier.
pub open spec fn drop_id(s: Seq<u8>) -> Seq<u8>
    decreases s.len(),
{
    if s.len() == 0 {
        s
    } else if s[0] == DOT {
        s.skip(1)
    } else {
        drop_id(s.skip(1))
    }
}

pub proof fn lemma_drop_id_len(s: Seq<u8>)
    requires
        s.len() > 0,
    ensures
        drop_id(s).len() < s.len(),
    decreases s.len(),
{
    if s[0] != DOT {
        if s.skip(1).len() > 0 {
            lemma_drop_id_len(s.skip(1));
        } else {
            assert(drop_id(s) == drop_id(s.skip(1)));
            assert(drop_id(s.skip(1)).len() == 0);
        }
    }
}

/// Locates the first identifier of `s` by its cut point `k`: the identifier
/// is `s.take(k)` and the rest starts beyond the dot at `k`.
pub proof fn lemma_id_split(s: Seq<u8>, k: int)
    requires
        0 <= k <= s.len(),
        forall|i: int| 0 <= i < k ==> s[i] != DOT,
        k == s.len() || s[k] == DOT,
    ensures
        take_id(s) == s.take(k),
        drop_id(s) == if k == s.len() { Seq::<u8>::empty() } else { s.skip(k + 1) },
    decreases s.len(),
{
    if k == 0 {
        assert(take_id(s) =~= s.take(0));
        if s.len() > 0 {
            assert(drop_id(s) =~= s.skip(1));
        }
    } else {
        lemma_id_split(s.skip(1), k - 1);
        assert(take_id(s) =~= seq![s[0]] + s.skip(1).take(k - 1));
        assert(seq![s[0]] + s.skip(1).take(k - 1) =~= s.take(k));
        if k < s.len() {
            assert(s.skip(1).skip(k) =~= s.skip(k + 1));
        }
    }
}

/// Strict lexicographic order on byte strings, a proper prefix ranking
/// below its extensions.
pub open spec fn lex_lt(a: Seq<u8>, b: Seq<u8>) -> bool
    decreases a.len(),
{
    if b.len() == 0 {
        false
    } else if a.len() == 0 {
        true
    } else if a[0] < b[0] {
        true
    } else if a[0] > b[0] {
        false
    } else {
        lex_lt(a.skip(1), b.skip(1))
    }
}

/// A lexicographic comparison is unchanged by removing an equal prefix.
pub proof fn lemma_lex_lt_prefix(a: Seq<u8>, b: Seq<u8>, i: int)
    requires
        0 <= i <= a.len(),
        i <= b.len(),
        forall|j: int| 0 <= j < i ==> a[j] == b[j],
    ensures
        lex_lt(a, b) == lex_lt(a.skip(i), b.skip(i)),
    decreases i,
{
    if i > 0 {
        assert(a.skip(1).skip(i - 1) =~= a.skip(i));
        assert(b.skip(1).skip(i - 1) =~= b.skip(i));
        lemma_lex_lt_prefix(a.skip(1), b.skip(1), i - 1);
    } else {
        assert(a.skip(0) =~= a);
        assert(b.skip(0) =~= b);
    }
}

/// Whether every byte of `id` is an ASCII digit.
pub open spec fn id_is_num(id: Seq<u8>) -> bool {
    forall|i: int| 0 <= i < id.len() ==> 48 <= #[trigger] id[i] <= 57
}

/// Numeric identifier order: by digit count, then lexically. On identifiers
/// without leading zeros — all the semver grammar admits — this is the
/// numeric order of their values.
pub open spec fn num_lt(a: Seq<u8>, b: Seq<u8>) -> bool {
    a.len() < b.len() || (a.len() == b.len() && lex_lt(a, b))
}

/// Order on single prerelease identifiers: numeric identifiers compare
/// numerically and rank below alphanumeric ones, which compare lexically.
pub open spec fn id_lt(a: Seq<u8>, b: Seq<u8>) -> bool {
    if id_is_num(a) && id_is_num(b) {
        num_lt(a, b)
    } else if id_is_num(a) {
        true
    } else if id_is_num(b) {
        false
    } else {
        lex_lt(a, b)
    }
}

/// Order on joined identifier strings, identifier by identifier; a string
/// that runs out of identifiers first ranks below.
pub open spec fn ids_lt(a: Seq<u8>, b: Seq<u8>) -> bool
    decreases a.len(),
    via ids_lt_decreases
{
    if b.len() == 0 {
        false
    } else if a.len() == 0 {
        true
    } else if id_lt(take_id(a), take_id(b)) {
        true
    } else if id_lt(take_id(b), take_id(a)) {
        false
    } else {
        ids_lt(drop_id(a), drop_id(b))
    }
}

#[via_fn]
proof fn ids_lt_decreases(a: Seq<u8>, b: Seq<u8>) {
    if a.len() > 0 {
        lemma_drop_id_len(a);
    }
}

/// Prerelease precedence: a release (empty string) outranks every
/// prerelease; two prereleases compare identifier by identifier.
pub open spec fn pre_lt(a: Seq<u8>, b: Seq<u8>) -> bool {
    a.len() > 0 && (b.len() == 0 || ids_lt(a, b))
}

/// Semantic-version precedence: the numeric triple first, then the
/// prerelease component.
pub open spec fn ver_lt(a: SemVerView, b: SemVerView) -> bool {
    ||| a.major < b.major
    ||| (a.major == b.major && a.minor < b.minor)
    ||| (a.major == b.major && a.minor == b.minor && a.patch < b.patch)
    ||| (a.major == b.major && a.minor == b.minor && a.patch == b.patch && pre_lt(a.pre, b.pre))
}

/// The index of `s`'s first dot, or `s.len()` when there is none.
pub open spec fn first_dot(s: Seq<u8>) -> int
    decreases s.len(),
{
    if s.len() == 0 || s[0] == DOT {
        0
    } else {
        1 + first_dot(s.skip(1))
    }
}

pub proof fn lemma_first_dot(s: Seq<u8>)
    ensures
        0 <= first_dot(s) <= s.len(),
        forall|i: int| 0 <= i < first_dot(s) ==> s[i] != DOT,
        first_dot(s) == s.len() || s[first_dot(s)] == DOT,
    decreases s.len(),
{
    if s.len() > 0 && s[0] != DOT {
        lemma_first_dot(s.skip(1));
        assert forall|i: int| 0 <= i < first_dot(s) implies s[i] != DOT by {
            if i > 0 {
                assert(s.skip(1)[i - 1] != DOT);
            }
        }
    }
}

/// Under well-formedness, the first identifier is nonempty, the rest is
/// well formed, and the string is the identifier, a dot, and the rest.
pub proof fn lemma_id_recompose(s: Seq<u8>)
    requires
        pre_wf(s),
        s.len() > 0,
    ensures
        take_id(s).len() > 0,
        pre_wf(drop_id(s)),
        drop_id(s).len() == 0 ==> s == take_id(s),
        drop_id(s).len() > 0 ==> s == take_id(s) + seq![DOT] + drop_id(s),
{
    let k = first_dot(s);
    lemma_first_dot(s);
    lemma_id_split(s, k);
    if k == s.len() {
        assert(s.take(k) =~= s);
    } else {
        assert(k < s.len() - 1) by {
            assert(s[s.len() - 1] != DOT);
        }
        assert(drop_id(s) =~= s.skip(k + 1));
        assert(s =~= s.take(k) + seq![DOT] + s.skip(k + 1));
        assert forall|i: int| 0 <= i < drop_id(s).len() - 1 implies !(#[trigger] drop_id(s)[i]
            == DOT && drop_id(s)[i + 1] == DOT) by {
            assert(drop_id(s)[i] == s[k + 1 + i]);
            assert(drop_id(s)[i + 1] == s[k + 1 + i + 1]);
        }
        assert(drop_id(s)[0] == s[k + 1]);
    }
}

pub proof fn lemma_lex_lt_irrefl(a: Seq<u8>)
    ensures
        !lex_lt(a, a),
    decreases a.len(),
{
    if a.len() > 0 {
        lemma_lex_lt_irrefl(a.skip(1));
    }
}

pub proof fn lemma_lex_lt_trans(a: Seq<u8>, b: Seq<u8>, c: Seq<u8>)
    requires
        lex_lt(a, b),
        lex_lt(b, c),
    ensures
        lex_lt(a, c),
    decreases a.len() + b.len() + c.len(),
{
    if a.len() > 0 && b.len() > 0 && c.len() > 0 {
        if a[0] == b[0] && b[0] == c[0] {
            lemma_lex_lt_trans(a.skip(1), b.skip(1), c.skip(1));
        }
    }
}

pub proof fn lemma_lex_lt_total(a: Seq<u8>, b: Seq<u8>)
    requires
        !lex_lt(a, b),
        !lex_lt(b, a),
    ensures
        a == b,
    decreases a.len(),
{
    if a.len() > 0 && b.len() > 0 {
        lemma_lex_lt_total(a.skip(1), b.skip(1));
        assert(a =~= seq![a[0]] + a.skip(1));
        assert(b =~= seq![b[0]] + b.skip(1));
    }
}

pub proof fn lemma_id_lt_irrefl(a: Seq<u8>)
    ensures
        !id_lt(a, a),
{
    lemma_lex_lt_irrefl(a);
}

pub proof fn lemma_id_lt_trans(a: Seq<u8>, b: Seq<u8>, c: Seq<u8>)
    requires
        id_lt(a, b),
        id_lt(b, c),
    ensures
        id_lt(a, c),
{
    if id_is_num(a) && id_is_num(b) && id_is_num(c) {
        if a.len() == b.len() && b.len() == c.len() {
            lemma_lex_lt_trans(a, b, c);
        }
    } else if !id_is_num(a) && !id_is_num(b) && !id_is_num(c) {
        lemma_lex_lt_trans(a, b, c);
    }
}

pub proof fn lemma_id_lt_total(a: Seq<u8>, b: Seq<u8>)
    requires
        !id_lt(a, b),
        !id_lt(b, a),
    ensures
        a == b,
{
    if id_is_num(a) == id_is_num(b) {
        lemma_lex_lt_total(a, b);
    }
}

pub proof fn lemma_ids_lt_irrefl(a: Seq<u8>)
    ensures
        !ids_lt(a, a),
    decreases a.len(),
{
    if a.len() > 0 {
        lemma_id_lt_irrefl(take_id(a));
        lemma_drop_id_len(a);
        lemma_ids_lt_irrefl(drop_id(a));
    }
}

pub proof fn lemma_ids_lt_trans(a: Seq<u8>, b: Seq<u8>, c: Seq<u8>)
    requires
        ids_lt(a, b),
        ids_lt(b, c),
    ensures
        ids_lt(a, c),
    decreases a.len(),
{
    if a.len() == 0 {
        // c cannot be empty, else ids_lt(b, c) would be false.
    } else {
        // b and c are nonempty, else one premise would be false.
        let ia = take_id(a);
        let ib = take_id(b);
        let ic = take_id(c);
        if id_lt(ia, ib) {
            if id_lt(ib, ic) {
                lemma_id_lt_trans(ia, ib, ic);
            } else {
                lemma_id_lt_total(ib, ic);
            }
        } else {
            lemma_id_lt_total(ia, ib);
            if !id_lt(ib, ic) {
                lemma_id_lt_total(ib, ic);
                lemma_drop_id_len(a);
                lemma_ids_lt_trans(drop_id(a), drop_id(b), drop_id(c));
            }
        }
    }
}

pub proof fn lemma_ids_lt_total(a: Seq<u8>, b: Seq<u8>)
    requires
        pre_wf(a),
        pre_wf(b),
        !ids_lt(a, b),
        !ids_lt(b, a),
    ensures
        a == b,
    decreases a.len(),
{
    if a.len() > 0 && b.len() > 0 {
        lemma_id_lt_total(take_id(a), take_id(b));
        lemma_id_recompose(a);
        lemma_id_recompose(b);
        lemma_drop_id_len(a);
        lemma_ids_lt_total(drop_id(a), drop_id(b));
    }
}

pub proof fn lemma_pre_lt_trans(a: Seq<u8>, b: Seq<u8>, c: Seq<u8>)
    requires
        pre_lt(a, b),
        pre_lt(b, c),
    ensures
        pre_lt(a, c),
{
    if b.len() > 0 && c.len() > 0 {
        lemma_ids_lt_trans(a, b, c);
    }
}

pub proof fn lemma_pre_lt_total(a: Seq<u8>, b: Seq<u8>)
    requires
        pre_wf(a),
        pre_wf(b),
        !pre_lt(a, b),
        !pre_lt(b, a),
    ensures
        a == b,
{
    if a.len() > 0 && b.len() > 0 {
        lemma_ids_lt_total(a, b);
    }
}

/// No version strictly precedes itself.
pub proof fn lemma_ver_lt_irrefl(a: SemVerView)
    ensures
        !ver_lt(a, a),
{
    if a.pre.len() > 0 {
        lemma_ids_lt_irrefl(a.pre);
    }
}

/// Strict precedence is transitive.
pub proof fn lemma_ver_lt_trans(a: SemVerView, b: SemVerView, c: SemVerView)
    requires
        ver_lt(a, b),
        ver_lt(b, c),
    ensures
        ver_lt(a, c),
{
    if a.major == c.major && a.minor == c.minor && a.patch == c.patch {
        lemma_pre_lt_trans(a.pre, b.pre, c.pre);
    }
}

/// Precedence is total on well-formed versions: two versions neither of
/// which precedes the other are equal.
pub proof fn lemma_ver_lt_total(a: SemVerView, b: SemVerView)
    requires
        a.wf(),
        b.wf(),
        !ver_lt(a, b),
        !ver_lt(b, a),
    ensures
        a == b,
{
    lemma_pre_lt_total(a.pre, b.pre);
    assert(a =~= b);
}

/// The index of the first dot of `v` at or after `from`, or `v.len()` when
/// there is none.
fn find_dot(v: &Vec<u8>, from: usize) -> (r: usize)
    requires
        from <= v@.len(),
    ensures
        from <= r <= v@.len(),
        forall|j: int| from <= j < r ==> v@[j] != DOT,
        r == v@.len() || v@[r as int] == DOT,
{
    let mut i = from;
    while i < v.len()
        invariant
            from <= i <= v@.len(),
            forall|j: int| from <= j < i ==> v@[j] != DOT,
        decreases v@.len() - i,
    {
        if v[i] == DOT {
            return i;
        }
        i = i + 1;
    }
    i
}

/// Compares `a[sa..ea]` and `b[sb..eb]` lexically.
fn lex_lt_range(a: &Vec<u8>, sa: usize, ea: usize, b: &Vec<u8>, sb: usize, eb: usize) -> (r: bool)
    requires
        sa <= ea <= a@.len(),
        sb <= eb <= b@.len(),
    ensures
        r == lex_lt(a@.subrange(sa as int, ea as int), b@.subrange(sb as int, eb as int)),
{
    let ghost av = a@.subrange(sa as int, ea as int);
    let ghost bv = b@.subrange(sb as int, eb as int);
    let mut i: usize = 0;
    while sa + i < ea && sb + i < eb
        invariant
            sa <= ea <= a@.len(),
            sb <= eb <= b@.len(),
            i <= ea - sa,
            i <= eb - sb,
            av == a@.subrange(sa as int, ea as int),
            bv == b@.subrange(sb as int, eb as int),
            forall|j: int| 0 <= j < i ==> av[j] == bv[j],
        decreases ea - sa - i,
    {
        let ca = a[sa + i];
        let cb = b[sb + i];
        if ca != cb {
            proof {
                lemma_lex_lt_prefix(av, bv, i as int);
            }
            return ca < cb;
        }
        i = i + 1;
    }
    proof {
        lemma_lex_lt_prefix(av, bv, i as int);
    }
    ea - sa < eb - sb
}

/// Decides [`id_is_num`] on `a[s..e]`.
fn id_is_num_range(a: &Vec<u8>, s: usize, e: usize) -> (r: bool)
    requires
        s <= e <= a@.len(),
    ensures
        r == id_is_num(a@.subrange(s as int, e as int)),
{
    let ghost av = a@.subrange(s as int, e as int);
    let mut i = s;
    while i < e
        invariant
            s <= i <= e <= a@.len(),
            av == a@.subrange(s as int, e as int),
            forall|j: int| 0 <= j < i - s ==> 48 <= #[trigger] av[j] <= 57,
        decreases e - i,
    {
        let c = a[i];
        if c < 48 || c > 57 {
            assert(av[i - s] == a@[i as int]);
            return false;
        }
        i = i + 1;
    }
    true
}

/// Compares the identifiers `a[sa..ea]` and `b[sb..eb]` under [`id_lt`].
fn id_lt_range(a: &Vec<u8>, sa: usize, ea: usize, b: &Vec<u8>, sb: usize, eb: usize) -> (r: bool)
    requires
        sa <= ea <= a@.len(),
        sb <= eb <= b@.len(),
    ensures
        r == id_lt(a@.subrange(sa as int, ea as int), b@.subrange(sb as int, eb as int)),
{
    let na = id_is_num_range(a, sa, ea);
    let nb = id_is_num_range(b, sb, eb);
    if na && nb {
        if ea - sa != eb - sb {
            ea - sa < eb - sb
        } else {
            lex_lt_range(a, sa, ea, b, sb, eb)
        }
    } else if na {
        true
    } else if nb {
        false
    } else {
        lex_lt_range(a, sa, ea, b, sb, eb)
    }
}

/// Compares two joined identifier strings under [`ids_lt`].
fn ids_lt_exec(a: &Vec<u8>, b: &Vec<u8>) -> (r: bool)
    ensures
        r == ids_lt(a@, b@),
{
    let mut oa: usize = 0;
    let mut ob: usize = 0;
    proof {
        assert(a@.skip(0) =~= a@);
        assert(b@.skip(0) =~= b@);
    }
    loop
        invariant
            oa <= a@.len(),
            ob <= b@.len(),
            ids_lt(a@, b@) == ids_lt(a@.skip(oa as int), b@.skip(ob as int)),
        decreases a@.len() - oa,
    {
        let ghost ra = a@.skip(oa as int);
        let ghost rb = b@.skip(ob as int);
        if ob == b.len() {
            assert(rb.len() == 0);
            return false;
        }
        if oa == a.len() {
            assert(ra.len() == 0);
            return true;
        }
        let ea = find_dot(a, oa);
        let eb = find_dot(b, ob);
        proof {
            lemma_id_split(ra, ea - oa);
            lemma_id_split(rb, eb - ob);
            assert(ra.take(ea - oa) =~= a@.subrange(oa as int, ea as int));
            assert(rb.take(eb - ob) =~= b@.subrange(ob as int, eb as int));
        }
        if id_lt_range(a, oa, ea, b, ob, eb) {
            return true;
        }
        if id_lt_range(b, ob, eb, a, oa, ea) {
            return false;
        }
        proof {
            if ea < a@.len() {
                assert(ra.skip(ea - oa + 1) =~= a@.skip(ea + 1));
            }
            if eb < b@.len() {
                assert(rb.skip(eb - ob + 1) =~= b@.skip(eb + 1));
            }
            assert(a@.skip(a@.len() as int) =~= Seq::<u8>::empty());
            assert(b@.skip(b@.len() as int) =~= Seq::<u8>::empty());
        }
        oa = if ea < a.len() { ea + 1 } else { ea };
        ob = if eb < b.len() { eb + 1 } else { eb };
    }
}

/// Compares two prerelease strings under [`pre_lt`].
fn pre_lt_exec(a: &Vec<u8>, b: &Vec<u8>) -> (r: bool)
    ensures
        r == pre_lt(a@, b@),
{
    if a.len() == 0 {
        false
    } else if b.len() == 0 {
        true
    } else {
        ids_lt_exec(a, b)
    }
}

/// Byte-string equality.
pub fn bytes_eq(a: &Vec<u8>, b: &Vec<u8>) -> (r: bool)
    ensures
        r == (a@ =~= b@),
{
    if a.len() != b.len() {
        return false;
    }
    let mut i: usize = 0;
    while i < a.len()
        invariant
            a@.len() == b@.len(),
            i <= a@.len(),
            forall|j: int| 0 <= j < i ==> a@[j] == b@[j],
        decreases a@.len() - i,
    {
        if a[i] != b[i] {
            return false;
        }
        i = i + 1;
    }
    true
}

/// The decimal digits of `n`, most significant first, as ASCII bytes.
pub open spec fn dec_bytes(n: nat) -> Seq<u8>
    decreases n,
{
    if n < 10 {
        seq![(48 + n) as u8]
    } else {
        dec_bytes(n / 10).push((48 + n % 10) as u8)
    }
}

/// The canonical rendering of a version as ASCII bytes:
/// `major.minor.patch`, then `-` and the prerelease string when present.
pub open spec fn canon_bytes(v: SemVerView) -> Seq<u8> {
    dec_bytes(v.major as nat) + seq![DOT] + dec_bytes(v.minor as nat) + seq![DOT] + dec_bytes(
        v.patch as nat,
    ) + if v.pre.len() == 0 {
        Seq::<u8>::empty()
    } else {
        seq![45u8] + v.pre
    }
}

/// The canonical rendering of a version as characters.
pub open spec fn canon_chars(v: SemVerView) -> Seq<char> {
    canon_bytes(v).map_values(|b: u8| b as char)
}

/// Renders `n` in decimal.
fn u64_dec(n: u64) -> (r: Vec<u8>)
    ensures
        r@ == dec_bytes(n as nat),
{
    let mut digits: Vec<u8> = Vec::new();
    digits.push((n % 10) as u8 + 48);
    let mut m = n / 10;
    while m > 0
        invariant
            dec_bytes(n as nat) =~= if m > 0 {
                dec_bytes(m as nat) + digits@.reverse()
            } else {
                digits@.reverse()
            },
        decreases m,
    {
        let ghost pred = digits@;
        digits.push((m % 10) as u8 + 48);
        proof {
            assert(digits@.reverse() =~= seq![(48 + (m as nat) % 10) as u8] + pred.reverse());
            if m >= 10 {
                assert(dec_bytes(m as nat) == dec_bytes((m as nat) / 10).push(
                    (48 + (m as nat) % 10) as u8,
                ));
                assert(dec_bytes((m as nat) / 10) + digits@.reverse() =~= dec_bytes(m as nat)
                    + pred.reverse());
            } else {
                assert(dec_bytes(m as nat) + pred.reverse() =~= digits@.reverse());
            }
        }
        m = m / 10;
    }
    let mut out: Vec<u8> = Vec::new();
    let n_digits = digits.len();
    let mut i = n_digits;
    while i > 0
        invariant
            i <= n_digits == digits@.len(),
            out@.len() == n_digits - i,
            forall|j: int| 0 <= j < out@.len() ==> out@[j] == digits@[n_digits - 1 - j],
        decreases i,
    {
        i = i - 1;
        out.push(digits[i]);
    }
    proof {
        assert(out@ =~= digits@.reverse());
    }
    out
}

/// Every byte of a decimal rendering is an ASCII digit.
pub proof fn lemma_dec_bytes_ascii(n: nat)
    ensures
        forall|i: int| 0 <= i < dec_bytes(n).len() ==> 48 <= #[trigger] dec_bytes(n)[i] <= 57,
    decreases n,
{
    if n >= 10 {
        lemma_dec_bytes_ascii(n / 10);
        assert forall|i: int| 0 <= i < dec_bytes(n).len() implies 48 <= #[trigger] dec_bytes(
            n,
        )[i] <= 57 by {
            if i < dec_bytes(n / 10).len() {
                assert(dec_bytes(n)[i] == dec_bytes(n / 10)[i]);
            } else {
                assert(dec_bytes(n)[i] == (48 + n % 10) as u8);
            }
        }
    }
}

/// Relies on `alloc::string::String::from_utf8`: a vector of ASCII bytes
/// decodes to the string of exactly those characters.
#[verifier::external_body]
fn string_from_ascii(bytes: Vec<u8>) -> (r: String)
    requires
        forall|i: int| 0 <= i < bytes@.len() ==> bytes@[i] < 128,
    ensures
        r@ == bytes@.map_values(|b: u8| b as char),
{
    String::from_utf8(bytes).unwrap_or_default()
}

impl SemVer {
    /// A copy with the same mathematical value.
    pub fn duplicate(&self) -> (r: SemVer)
        ensures
            r@ == self@,
    {
        let mut pre: Vec<u8> = Vec::new();
        let mut i: usize = 0;
        while i < self.pre.len()
            invariant
                i <= self.pre@.len(),
                pre@ =~= self.pre@.take(i as int),
            decreases self.pre@.len() - i,
        {
            pre.push(self.pre[i]);
            i = i + 1;
        }
        proof {
            assert(pre@ =~= self.pre@);
        }
        let r = SemVer { major: self.major, minor: self.minor, patch: self.patch, pre };
        proof {
            assert(r@ =~= self@);
        }
        r
    }

    /// The canonical string of the version, e.g. `1.4.0` or `1.5.0-rc.2`.
    pub fn canonical_string(&self) -> (r: String)
        requires
            self.wf(),
        ensures
            r@ == canon_chars(self@),
    {
        let mut bytes = u64_dec(self.major);
        bytes.push(DOT);
        let minor = u64_dec(self.minor);
        let mut i: usize = 0;
        while i < minor.len()
            invariant
                i <= minor@.len(),
                bytes@ =~= dec_bytes(self.major as nat) + seq![DOT] + minor@.take(i as int),
                minor@ == dec_bytes(self.minor as nat),
            decreases minor@.len() - i,
        {
            bytes.push(minor[i]);
            i = i + 1;
        }
        bytes.push(DOT);
        let patch = u64_dec(self.patch);
        let mut j: usize = 0;
        while j < patch.len()
            invariant
                j <= patch@.len(),
                bytes@ =~= dec_bytes(self.major as nat) + seq![DOT] + dec_bytes(
                    self.minor as nat,
                ) + seq![DOT] + patch@.take(j as int),
                patch@ == dec_bytes(self.patch as nat),
            decreases patch@.len() - j,
        {
            bytes.push(patch[j]);
            j = j + 1;
        }
        if self.pre.len() > 0 {
            bytes.push(45);
            let mut k: usize = 0;
            while k < self.pre.len()
                invariant
                    k <= self.pre@.len(),
                    bytes@ =~= dec_bytes(self.major as nat) + seq![DOT] + dec_bytes(
                        self.minor as nat,
                    ) + seq![DOT] + dec_bytes(self.patch as nat) + seq![45u8] + self.pre@.take(
                        k as int,
                    ),
                decreases self.pre@.len() - k,
            {
                bytes.push(self.pre[k]);
                k = k + 1;
            }
        }
        proof {
            assert(bytes@ =~= canon_bytes(self@));
            lemma_dec_bytes_ascii(self.major as nat);
            lemma_dec_bytes_ascii(self.minor as nat);
            lemma_dec_bytes_ascii(self.patch as nat);
        }
        string_from_ascii(bytes)
    }

    /// Whether `self` precedes `other` in semver precedence.
    pub fn lt(&self, other: &SemVer) -> (r: bool)
        ensures
            r == ver_lt(self@, other@),
    {
        if self.major != other.major {
            self.major < other.major
        } else if self.minor != other.minor {
            self.minor < other.minor
        } else if self.patch != other.patch {
            self.patch < other.patch
        } else {
            pre_lt_exec(&self.pre, &other.pre)
        }
    }

    /// Whether the two versions denote the same semantic version.
    pub fn same(&self, other: &SemVer) -> (r: bool)
        ensures
            r == (self@ =~= other@),
    {
        self.major == other.major && self.minor == other.minor && self.patch == other.patch
            && bytes_eq(&self.pre, &other.pre)
    }
}

} // verus!
