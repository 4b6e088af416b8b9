//! Release versions and update checks.
use vstd::prelude::*;
use std::cmp::Ordering;
use crate::error::WardenError;
use crate::text::{
    append_str, chars_of, contains_chars, contains_seq, lex_sign, lex_sign_chars, spec_decimal,
    decimal, lemma_lex_antisymmetric, lemma_lex_transitive, lemma_lex_zero_iff_equal, find_char, first_index, parse_unsigned, spec_parse_unsigned, spec_split,
    spec_trim, split_chars, string_from, string_of, trim_bounds, views,
};

verus! {

/// The version of this build.
pub const LOCAL_VERSION: &'static str = "0.1.0";

/// The version of this build.
pub fn local_version() -> (v: &'static str)
    ensures
        v@ == "0.1.0"@,
{
    LOCAL_VERSION
}

/// A semantic version `major.minor.patch`, with an optional pre-release tag.
#[derive(Debug, Clone, PartialEq, Eq)]
pub struct Version {
    pub major: u64,
    pub minor: u64,
    pub patch: u64,
    pub pre: Option<String>,
}

pub open spec fn opt_view(o: Option<String>) -> Option<Seq<char>> {
    match o {
        Some(s) => Some(s@),
        None => None,
    }
}

impl View for Version {
    type V = (u64, u64, u64, Option<Seq<char>>);

    open spec fn view(&self) -> (u64, u64, u64, Option<Seq<char>>) {
        (self.major, self.minor, self.patch, opt_view(self.pre))
    }
}

/// `s` without its leading `'v'` and `'V'` characters.
pub open spec fn strip_vs(s: Seq<char>) -> Seq<char>
    decreases s.len(),
{
    if s.len() > 0 && (s[0] == 'v' || s[0] == 'V') {
        strip_vs(s.subrange(1, s.len() as int))
    } else {
        s
    }
}

/// The error text for a version piece that is not a number.
pub open spec fn bad_number(piece: Seq<char>) -> Seq<char> {
    "invalid version number: "@ + piece
}

/// What `Version::parse` gives for `s`: the version, or the text of the
/// `Update` error.
pub open spec fn spec_parse_version(s: Seq<char>) -> Result<
    (u64, u64, u64, Option<Seq<char>>),
    Seq<char>,
> {
    let t = strip_vs(spec_trim(s));
    let numeric = match first_index(t, '-') {
        Some(i) => t.subrange(0, i),
        None => t,
    };
    let pre = match first_index(t, '-') {
        Some(i) => if i + 1 == t.len() {
            None
        } else {
            Some(t.subrange(i + 1, t.len() as int))
        },
        None => None,
    };
    let nums = spec_split(numeric, '.');
    if nums.len() < 3 {
        Err("invalid version: "@ + t)
    } else {
        match spec_parse_unsigned(nums[0], u64::MAX as nat) {
            None => Err(bad_number(nums[0])),
            Some(major) => match spec_parse_unsigned(nums[1], u64::MAX as nat) {
                None => Err(bad_number(nums[1])),
                Some(minor) => match spec_parse_unsigned(nums[2], u64::MAX as nat) {
                    None => Err(bad_number(nums[2])),
                    Some(patch) => Ok((major as u64, minor as u64, patch as u64, pre)),
                },
            },
        }
    }
}

/// Reads one numeric piece of a version.
fn parse_number(piece: &String) -> (r: Result<u64, WardenError>)
    ensures
        match spec_parse_unsigned(piece@, u64::MAX as nat) {
            Some(x) => r == Ok::<u64, WardenError>(x as u64),
            None => r matches Err(WardenError::Update(m)) && m@ == bad_number(piece@),
        },
{
    let v = chars_of(piece.as_str());
    assert(v@.subrange(0, v@.len() as int) =~= v@);
    match parse_unsigned(&v, 0, v.len(), u64::MAX) {
        Some(x) => Ok(x),
        None => Err(WardenError::Update(append_str(string_from("invalid version number: "), piece.as_str()))),
    }
}

impl Version {
    /// Reads a version such as `"v1.2.3-beta"`: surrounding whitespace and
    /// leading `v`/`V` are ignored, the text after the first `-` is the
    /// pre-release tag (none when empty), and the part before it must hold
    /// at least three `.`-separated numbers, of which the first three are
    /// used.
    pub fn parse(s: &str) -> (r: Result<Version, WardenError>)
        ensures
            match spec_parse_version(s@) {
                Ok(m) => r matches Ok(v) && v@ == m,
                Err(msg) => r matches Err(WardenError::Update(e)) && e@ == msg,
            },
    {
        let v = chars_of(s);
        let (a0, b) = trim_bounds(&v, 0, v.len());
        assert(v@.subrange(0, v@.len() as int) =~= s@);
        let mut a = a0;
        while a < b && (v[a] == 'v' || v[a] == 'V')
            invariant
                a0 <= a <= b <= v@.len(),
                strip_vs(v@.subrange(a as int, b as int)) == strip_vs(v@.subrange(a0 as int, b as int)),
            decreases b - a,
        {
            assert(v@.subrange(a as int, b as int).subrange(1, (b - a) as int) =~= v@.subrange(
                a + 1,
                b as int,
            ));
            a += 1;
        }
        let ghost t = v@.subrange(a as int, b as int);
        assert(strip_vs(spec_trim(s@)) == t);
        let (e, pre) = match find_char(&v, a, b, '-') {
            Some(i) => {
                if i + 1 == b {
                    (i, None)
                } else {
                    (i, Some(string_of(&v, i + 1, b)))
                }
            },
            None => (b, None),
        };
        proof {
            match first_index(t, '-') {
                Some(i) => {
                    assert(t.subrange(0, i) =~= v@.subrange(a as int, e as int));
                    assert(t.subrange(i + 1, t.len() as int) =~= v@.subrange(e + 1, b as int));
                },
                None => {},
            }
        }
        let nums = split_chars(&v, a, e, '.');
        if nums.len() < 3 {
            let t_text = string_of(&v, a, b);
            return Err(WardenError::Update(append_str(string_from("invalid version: "), t_text.as_str())));
        }
        assert(views(nums@)[0] == nums@[0]@);
        assert(views(nums@)[1] == nums@[1]@);
        assert(views(nums@)[2] == nums@[2]@);
        let major = match parse_number(&nums[0]) {
            Ok(x) => x,
            Err(e) => return Err(e),
        };
        let minor = match parse_number(&nums[1]) {
            Ok(x) => x,
            Err(e) => return Err(e),
        };
        let patch = match parse_number(&nums[2]) {
            Ok(x) => x,
            Err(e) => return Err(e),
        };
        Ok(Version { major, minor, patch, pre })
    }
}


/// The `Ordering` that a comparison sign stands for.
pub open spec fn ordering_of(sign: int) -> Ordering {
    if sign < 0 {
        Ordering::Less
    } else if sign == 0 {
        Ordering::Equal
    } else {
        Ordering::Greater
    }
}

/// How two pre-release tags compare: no tag ranks above any tag, and two
/// tags compare lexicographically.
pub open spec fn pre_sign(a: Option<Seq<char>>, b: Option<Seq<char>>) -> int {
    match (a, b) {
        (None, None) => 0,
        (None, Some(_)) => 1,
        (Some(_), None) => -1,
        (Some(x), Some(y)) => lex_sign(x, y),
    }
}

pub open spec fn num_sign(x: u64, y: u64) -> int {
    if x < y {
        -1
    } else if x == y {
        0
    } else {
        1
    }
}

/// How two versions compare: by major, minor and patch, then by the
/// pre-release tag.
pub open spec fn version_sign(
    a: (u64, u64, u64, Option<Seq<char>>),
    b: (u64, u64, u64, Option<Seq<char>>),
) -> int {
    if a.0 != b.0 {
        num_sign(a.0, b.0)
    } else if a.1 != b.1 {
        num_sign(a.1, b.1)
    } else if a.2 != b.2 {
        num_sign(a.2, b.2)
    } else {
        pre_sign(a.3, b.3)
    }
}

impl Version {
    /// Compares two pre-release tags.
    pub fn cmp_pre(a: &Option<String>, b: &Option<String>) -> (r: Ordering)
        ensures
            r == ordering_of(pre_sign(opt_view(*a), opt_view(*b))),
    {
        match (a, b) {
            (None, None) => Ordering::Equal,
            (None, Some(_)) => Ordering::Greater,
            (Some(_), None) => Ordering::Less,
            (Some(x), Some(y)) => {
                let cx = chars_of(x.as_str());
                let cy = chars_of(y.as_str());
                let sign = lex_sign_chars(&cx, &cy);
                if sign < 0 {
                    Ordering::Less
                } else if sign == 0 {
                    Ordering::Equal
                } else {
                    Ordering::Greater
                }
            },
        }
    }

    /// Compares two versions.
    pub fn compare(&self, other: &Version) -> (r: Ordering)
        ensures
            r == ordering_of(version_sign(self@, other@)),
    {
        if self.major != other.major {
            if self.major < other.major {
                Ordering::Less
            } else {
                Ordering::Greater
            }
        } else if self.minor != other.minor {
            if self.minor < other.minor {
                Ordering::Less
            } else {
                Ordering::Greater
            }
        } else if self.patch != other.patch {
            if self.patch < other.patch {
                Ordering::Less
            } else {
                Ordering::Greater
            }
        } else {
            Self::cmp_pre(&self.pre, &other.pre)
        }
    }
}

/// Two versions compare equal exactly when they are the same version.
pub proof fn law_version_equal_iff_same(
    a: (u64, u64, u64, Option<Seq<char>>),
    b: (u64, u64, u64, Option<Seq<char>>),
)
    ensures
        (version_sign(a, b) == 0) == (a == b),
{
    match (a.3, b.3) {
        (Some(x), Some(y)) => lemma_lex_zero_iff_equal(x, y),
        _ => {},
    }
}

/// Swapping the operands reverses the comparison.
pub proof fn law_version_antisymmetric(
    a: (u64, u64, u64, Option<Seq<char>>),
    b: (u64, u64, u64, Option<Seq<char>>),
)
    ensures
        version_sign(a, b) == -version_sign(b, a),
{
    match (a.3, b.3) {
        (Some(x), Some(y)) => lemma_lex_antisymmetric(x, y),
        _ => {},
    }
}

/// If `a` is older than `b` and `b` older than `c`, `a` is older than `c`.
pub proof fn law_version_transitive(
    a: (u64, u64, u64, Option<Seq<char>>),
    b: (u64, u64, u64, Option<Seq<char>>),
    c: (u64, u64, u64, Option<Seq<char>>),
)
    requires
        version_sign(a, b) < 0,
        version_sign(b, c) < 0,
    ensures
        version_sign(a, c) < 0,
{
    if a.0 == b.0 && b.0 == c.0 && a.1 == b.1 && b.1 == c.1 && a.2 == b.2 && b.2 == c.2 {
        match (a.3, b.3, c.3) {
            (Some(x), Some(y), Some(z)) => lemma_lex_transitive(x, y, z),
            _ => {},
        }
    }
}

/// Versions are ordered by their numbers first: a smaller major number is
/// older whatever follows; with equal majors a smaller minor number is
/// older; with equal majors and minors a smaller patch number is older. An
/// older version compares `Less`, and a newer release counts as an update.
pub proof fn law_version_numbers_order(
    a: (u64, u64, u64, Option<Seq<char>>),
    b: (u64, u64, u64, Option<Seq<char>>),
)
    ensures
        a.0 < b.0 ==> version_sign(a, b) < 0,
        a.0 == b.0 && a.1 < b.1 ==> version_sign(a, b) < 0,
        a.0 == b.0 && a.1 == b.1 && a.2 < b.2 ==> version_sign(a, b) < 0,
        a.0 > b.0 ==> version_sign(a, b) > 0,
        (a.0 < b.0 || (a.0 == b.0 && a.1 < b.1) || (a.0 == b.0 && a.1 == b.1 && a.2 < b.2))
            ==> ordering_of(version_sign(a, b)) == Ordering::Less,
{
}

/// A running version that parses and has a smaller major, minor or patch
/// number (in that order of importance) than the release has an update
/// available.
pub proof fn law_newer_release_is_update(local: Seq<char>, remote: (u64, u64, u64, Option<Seq<char>>))
    requires
        spec_parse_version(local) is Ok,
        ({
            let l = spec_parse_version(local)->Ok_0;
            l.0 < remote.0 || (l.0 == remote.0 && l.1 < remote.1) || (l.0 == remote.0 && l.1 == remote.1
                && l.2 < remote.2)
        }),
    ensures
        update_available(local, Some(remote)),
{
}

/// A release ranks above every pre-release of the same numbers.
pub proof fn law_release_above_prerelease(major: u64, minor: u64, patch: u64, tag: Seq<char>)
    ensures
        version_sign((major, minor, patch, None), (major, minor, patch, Some(tag))) > 0,
{
}

/// A downloadable file of a release.
#[derive(Debug, Clone)]
pub struct Asset {
    pub name: String,
    pub url: String,
}

/// A published release.
#[derive(Debug, Clone)]
pub struct ReleaseInfo {
    pub tag_name: String,
    pub name: String,
    pub prerelease: bool,
    pub assets: Vec<Asset>,
}

/// `i` is the first asset whose name contains `target`.
pub open spec fn first_containing(assets: Seq<Asset>, target: Seq<char>, i: int) -> bool {
    &&& 0 <= i < assets.len()
    &&& contains_seq(assets[i].name@, target)
    &&& forall|j: int| 0 <= j < i ==> !contains_seq(#[trigger] assets[j].name@, target)
}

/// `i` is the first asset whose name is `name`.
pub open spec fn first_named(assets: Seq<Asset>, name: Seq<char>, i: int) -> bool {
    &&& 0 <= i < assets.len()
    &&& assets[i].name@ == name
    &&& forall|j: int| 0 <= j < i ==> #[trigger] assets[j].name@ != name
}

impl ReleaseInfo {
    /// The version named by the release tag.
    pub fn version(&self) -> (r: Result<Version, WardenError>)
        ensures
            match spec_parse_version(self.tag_name@) {
                Ok(m) => r matches Ok(v) && v@ == m,
                Err(msg) => r matches Err(WardenError::Update(e)) && e@ == msg,
            },
    {
        Version::parse(self.tag_name.as_str())
    }

    /// The asset for the build target `target`: the first whose name
    /// contains `target`, or else the first named `warden-{target}`.
    pub fn asset_for(&self, target: &str) -> (r: Option<&Asset>)
        ensures
            match r {
                Some(a) => exists|i: int|
                    (first_containing(self.assets@, target@, i) || ((forall|j: int|
                        0 <= j < self.assets@.len() ==> !contains_seq(
                            #[trigger] self.assets@[j].name@,
                            target@,
                        )) && first_named(self.assets@, "warden-"@ + target@, i))) && *a
                        == self.assets@[i],
                None => (forall|j: int|
                    0 <= j < self.assets@.len() ==> !contains_seq(
                        #[trigger] self.assets@[j].name@,
                        target@,
                    )) && (forall|j: int|
                    0 <= j < self.assets@.len() ==> #[trigger] self.assets@[j].name@ != "warden-"@
                        + target@),
            },
    {
        let t = chars_of(target);
        let mut i: usize = 0;
        while i < self.assets.len()
            invariant
                0 <= i <= self.assets@.len(),
                t@ == target@,
                forall|j: int| 0 <= j < i ==> !contains_seq(#[trigger] self.assets@[j].name@, target@),
            decreases self.assets.len() - i,
        {
            let n = chars_of(self.assets[i].name.as_str());
            if contains_chars(&n, &t) {
                assert(first_containing(self.assets@, target@, i as int));
                return Some(&self.assets[i]);
            }
            i += 1;
        }
        let want = append_str(string_from("warden-"), target);
        let mut k: usize = 0;
        while k < self.assets.len()
            invariant
                0 <= k <= self.assets@.len(),
                want@ == "warden-"@ + target@,
                forall|j: int| 0 <= j < self.assets@.len() ==> !contains_seq(#[trigger] self.assets@[j].name@, target@),
                forall|j: int| 0 <= j < k ==> #[trigger] self.assets@[j].name@ != want@,
            decreases self.assets.len() - k,
        {
            if self.assets[k].name == want {
                assert(first_named(self.assets@, "warden-"@ + target@, k as int));
                return Some(&self.assets[k]);
            }
            k += 1;
        }
        None
    }
}

/// The text `major.minor.patch` of a version.
pub open spec fn version_text(m: (u64, u64, u64, Option<Seq<char>>)) -> Seq<char> {
    spec_decimal(m.0 as nat) + "."@ + spec_decimal(m.1 as nat) + "."@ + spec_decimal(m.2 as nat)
}

/// Whether a newer release exists than the running one.
#[derive(Debug, Clone)]
pub struct UpdateCheck {
    pub local: String,
    pub remote: Option<String>,
    pub available: bool,
}

/// `local` parses and is older than `remote`.
pub open spec fn update_available(
    local: Seq<char>,
    remote: Option<(u64, u64, u64, Option<Seq<char>>)>,
) -> bool {
    match remote {
        Some(r) => match spec_parse_version(local) {
            Ok(l) => version_sign(l, r) < 0,
            Err(_) => false,
        },
        None => false,
    }
}

/// The `major.minor.patch` text of `v`.
pub fn version_string(v: &Version) -> (s: String)
    ensures
        s@ == version_text(v@),
{
    let s = decimal(v.major);
    let s = append_str(s, ".");
    let m = decimal(v.minor);
    let s = append_str(s, m.as_str());
    let s = append_str(s, ".");
    let p = decimal(v.patch);
    append_str(s, p.as_str())
}

impl UpdateCheck {
    /// Compares the running version `local` with the release version
    /// `remote`.
    pub fn from(local: &str, remote: Option<&Version>) -> (r: UpdateCheck)
        ensures
            r.local@ == local@,
            match remote {
                Some(v) => r.remote matches Some(t) && t@ == version_text(v@),
                None => r.remote is None,
            },
            r.available == update_available(
                local@,
                match remote {
                    Some(v) => Some(v@),
                    None => None,
                },
            ),
    {
        let remote_str = match remote {
            Some(v) => Some(version_string(v)),
            None => None,
        };
        let available = match remote {
            Some(r) => match Version::parse(local) {
                Ok(l) => match l.compare(r) {
                    Ordering::Less => true,
                    _ => false,
                },
                Err(_) => false,
            },
            None => false,
        };
        UpdateCheck { local: string_from(local), remote: remote_str, available }
    }
}

} // verus!
