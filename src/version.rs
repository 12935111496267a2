//! Version matching: extracting a best-effort semantic version from a tag
//! and choosing the greatest tag that satisfies a requirement.
use vstd::prelude::*;
use vstd::string::*;
use std::cmp::Ordering;
use crate::records::opt_view;

verus! {

#[verifier::external_type_specification]
#[verifier::external_body]
pub struct ExRegex(regex::Regex);

#[verifier::external_type_specification]
#[verifier::external_body]
pub struct ExRegexError(regex::Error);

/// Whether `regex::Regex::new` accepts the pattern.
pub uninterp spec fn pattern_valid(pattern: Seq<char>) -> bool;

/// The capture groups, by index, of the leftmost-first match of `pattern`
/// in `text`, as `regex::Regex::captures` finds it; `None` when there is no
/// match.
pub uninterp spec fn captures_of(pattern: Seq<char>, text: Seq<char>) -> Option<Seq<Option<Seq<char>>>>;

/// Relies on regex::Regex::new: compiles the pattern, failing exactly on
/// patterns that the crate rejects.
#[verifier::external_body]
fn compile_regex(pattern: &str) -> (r: Result<regex::Regex, regex::Error>)
    ensures
        r is Ok <==> pattern_valid(pattern@),
{
    regex::Regex::new(pattern)
}

/// A compiled regular expression together with the text it was compiled
/// from. Only `Pattern::new` builds one, so `compiled` is always the
/// compilation of `source`.
pub struct Pattern {
    source: String,
    compiled: regex::Regex,
}

/// Relies on regex::Regex::captures: the groups of the first match, group 0
/// being the whole match, which always takes part.
#[verifier::external_body]
fn regex_captures(p: &Pattern, text: &str) -> (r: Option<Vec<Option<String>>>)
    ensures
        match r {
            None => captures_of(p.source(), text@) is None,
            Some(groups) => {
                &&& captures_of(p.source(), text@) == Some(groups@.map_values(|g: Option<String>| opt_view(g)))
                &&& groups@.len() >= 1
                &&& groups@[0] is Some
            },
        },
{
    p.compiled.captures(text).map(|c| c.iter().map(|m| m.map(|m| m.as_str().to_string())).collect())
}

impl Pattern {
    /// The text the pattern was compiled from.
    pub closed spec fn source(&self) -> Seq<char> {
        self.source@
    }

    /// Compiles `source`; `None` when the regex crate rejects it.
    pub fn new(source: &str) -> (r: Option<Pattern>)
        ensures
            r is Some <==> pattern_valid(source@),
            r matches Some(p) ==> p.source() == source@,
    {
        match compile_regex(source) {
            Ok(compiled) => Some(Pattern { source: String::from_str(source), compiled }),
            Err(_) => None,
        }
    }

    /// The capture groups of the first match in `text`.
    pub fn captures(&self, text: &str) -> (r: Option<Vec<Option<String>>>)
        ensures
            r matches Some(g) ==> captures_of(self.source(), text@) == Some(g@.map_values(|x: Option<String>| opt_view(x))) && g@.len() >= 1,
            r is None <==> captures_of(self.source(), text@) is None,
    {
        regex_captures(self, text)
    }
}

pub open spec fn zero() -> Seq<char> {
    seq!['0']
}

/// The version text synthesised from the groups `major`, `minor`, `patch`
/// and `suffix`: a lone `major` is read as a build number, that is as the
/// patch of `0.0`, and missing `minor` or `patch` count as `0`.
pub open spec fn best_effort_text(
    major: Option<Seq<char>>,
    minor: Option<Seq<char>>,
    patch: Option<Seq<char>>,
    suffix: Option<Seq<char>>,
) -> Seq<char> {
    let (a, b, c) = match (major, minor, patch) {
        (Some(a), Some(b), Some(c)) => (a, b, c),
        (Some(a), Some(b), None) => (a, b, zero()),
        (Some(a), None, Some(c)) => (a, zero(), c),
        (Some(a), None, None) => (zero(), zero(), a),
        _ => (zero(), zero(), zero()),
    };
    let s = match suffix {
        Some(s) => s,
        None => Seq::empty(),
    };
    a + seq!['.'] + b + seq!['.'] + c + s
}

pub open spec fn opt_str_view(s: Option<&str>) -> Option<Seq<char>> {
    match s {
        Some(t) => Some(t@),
        None => None,
    }
}

/// Builds `major.minor.patch` followed by the suffix, filling in what the
/// tag did not give.
pub fn best_effort_version(
    major: Option<&str>,
    minor: Option<&str>,
    patch: Option<&str>,
    suffix: Option<&str>,
) -> (r: String)
    ensures
        r@ == best_effort_text(
            opt_str_view(major),
            opt_str_view(minor),
            opt_str_view(patch),
            opt_str_view(suffix),
        ),
{
    let (a, b, c) = match (major, minor, patch) {
        (Some(a), Some(b), Some(c)) => (a, b, c),
        (Some(a), Some(b), None) => (a, b, "0"),
        (Some(a), None, Some(c)) => (a, "0", c),
        (Some(a), None, None) => ("0", "0", a),
        _ => ("0", "0", "0"),
    };
    proof {
        reveal_strlit("0");
        reveal_strlit(".");
    }
    let mut r = String::from_str(a);
    r.append(".");
    r.append(b);
    r.append(".");
    r.append(c);
    match suffix {
        Some(s) => r.append(s),
        None => {},
    }
    proof {
        assert(zero() =~= "0"@);
        assert(seq!['.'] =~= "."@);
    }
    r
}


#[verifier::external_type_specification]
#[verifier::external_body]
pub struct ExVersion(semver::Version);

#[verifier::external_type_specification]
#[verifier::external_body]
pub struct ExVersionReq(semver::VersionReq);

#[verifier::external_type_specification]
#[verifier::external_body]
pub struct ExSemverError(semver::Error);

/// The parts `(major, minor, patch, pre-release, build)` of a version.
pub type VersionView = (u64, u64, u64, Seq<char>, Seq<char>);

/// What `semver::Version::parse` reads from a text, or `None` where it
/// rejects it.
pub uninterp spec fn semver_of(text: Seq<char>) -> Option<VersionView>;

/// Whether `semver::VersionReq::parse` accepts a requirement text.
pub uninterp spec fn req_valid(req: Seq<char>) -> bool;

/// Whether the requirement parsed from `req` matches the version, as
/// `semver::VersionReq::matches` decides.
pub uninterp spec fn req_matches(req: Seq<char>, v: VersionView) -> bool;

/// `semver::Version::cmp` on two versions.
pub uninterp spec fn semver_cmp(a: VersionView, b: VersionView) -> Ordering;

pub open spec fn cmp_u64(a: u64, b: u64) -> Ordering {
    if a < b {
        Ordering::Less
    } else if a > b {
        Ordering::Greater
    } else {
        Ordering::Equal
    }
}

/// The order of versions. `semver::Version` derives `Ord`, so it compares
/// major, minor and patch numerically before anything else, and equal
/// versions compare equal; only the order of pre-release and build parts is
/// left to the crate.
pub open spec fn version_order(a: VersionView, b: VersionView) -> Ordering {
    if a.0 != b.0 {
        cmp_u64(a.0, b.0)
    } else if a.1 != b.1 {
        cmp_u64(a.1, b.1)
    } else if a.2 != b.2 {
        cmp_u64(a.2, b.2)
    } else if a == b {
        Ordering::Equal
    } else {
        semver_cmp(a, b)
    }
}

/// A parsed semantic version. Only `Release::parse` builds one, and it sets
/// the plain parts from `version` itself.
pub struct Release {
    major: u64,
    minor: u64,
    patch: u64,
    pre: String,
    build: String,
    version: semver::Version,
}

impl View for Release {
    type V = VersionView;

    closed spec fn view(&self) -> VersionView {
        (self.major, self.minor, self.patch, self.pre@, self.build@)
    }
}

/// Relies on semver::Version::parse, and on its public fields and the
/// `as_str` of its pre-release and build parts to read the result.
#[verifier::external_body]
fn parse_semver(text: &str) -> (r: Result<Release, semver::Error>)
    ensures
        match r {
            Ok(v) => semver_of(text@) == Some(v@),
            Err(_) => semver_of(text@) is None,
        },
{
    semver::Version::parse(text).map(|v| Release {
        major: v.major,
        minor: v.minor,
        patch: v.patch,
        pre: v.pre.as_str().to_string(),
        build: v.build.as_str().to_string(),
        version: v,
    })
}

/// Relies on semver::Version::cmp, the order that `Version` derives.
#[verifier::external_body]
fn semver_compare(a: &Release, b: &Release) -> (r: Ordering)
    ensures
        r == semver_cmp(a@, b@),
        r == version_order(a@, b@),
{
    a.version.cmp(&b.version)
}

impl Release {
    /// Parses a semantic version; `None` where semver rejects the text.
    pub fn parse(text: &str) -> (r: Option<Release>)
        ensures
            match r {
                Some(v) => semver_of(text@) == Some(v@),
                None => semver_of(text@) is None,
            },
    {
        match parse_semver(text) {
            Ok(v) => Some(v),
            Err(_) => None,
        }
    }

    /// Compares two versions by semantic-version precedence.
    pub fn compare(&self, other: &Release) -> (r: Ordering)
        ensures
            r == version_order(self@, other@),
    {
        semver_compare(self, other)
    }

    /// The major version.
    pub fn major(&self) -> (r: u64)
        ensures
            r == self@.0,
    {
        self.major
    }

    /// The minor version.
    pub fn minor(&self) -> (r: u64)
        ensures
            r == self@.1,
    {
        self.minor
    }

    /// The patch version.
    pub fn patch(&self) -> (r: u64)
        ensures
            r == self@.2,
    {
        self.patch
    }
}

/// A version requirement together with the text it was parsed from. Only
/// `Requirement::parse` builds one.
pub struct Requirement {
    source: String,
    req: semver::VersionReq,
}

/// Relies on semver::VersionReq::parse.
#[verifier::external_body]
fn parse_version_req(text: &str) -> (r: Result<semver::VersionReq, semver::Error>)
    ensures
        r is Ok <==> req_valid(text@),
{
    semver::VersionReq::parse(text)
}

/// Relies on semver::VersionReq::matches.
#[verifier::external_body]
fn version_req_matches(req: &Requirement, v: &Release) -> (r: bool)
    ensures
        r == req_matches(req.source(), v@),
{
    req.req.matches(&v.version)
}

impl Requirement {
    /// The text the requirement was parsed from.
    pub closed spec fn source(&self) -> Seq<char> {
        self.source@
    }

    /// Parses a requirement such as `*`, `^1.2` or `>=1.0, <2.0`.
    pub fn parse(text: &str) -> (r: Option<Requirement>)
        ensures
            r is Some <==> req_valid(text@),
            r matches Some(q) ==> q.source() == text@,
    {
        match parse_version_req(text) {
            Ok(req) => Some(Requirement { source: String::from_str(text), req }),
            Err(_) => None,
        }
    }

    /// Whether `v` satisfies the requirement.
    pub fn matches(&self, v: &Release) -> (r: bool)
        ensures
            r == req_matches(self.source(), v@),
    {
        version_req_matches(self, v)
    }
}


/// The pattern that splits a version-like text into `major`, `minor`,
/// `patch` and `suffix` (groups 1 to 4), skipping a leading `v` and leading
/// zeros of `minor` and `patch`.
pub const VERSION_REGEX: &'static str = r#"^[vV]?(?<major>0|[0-9]\d*)(?:\.0*(?<minor>0|[0-9]\d*))?(?:\.0*(?<patch>0|[0-9]\d*))?(?<suffix>.*)$"#;

pub open spec fn groups_view(g: Seq<Option<String>>) -> Seq<Option<Seq<char>>> {
    g.map_values(|x: Option<String>| opt_view(x))
}

/// Group `i` of a match, `None` where the pattern has no such group or it
/// did not take part.
pub open spec fn group(c: Seq<Option<Seq<char>>>, i: int) -> Option<Seq<char>> {
    if 0 <= i < c.len() {
        c[i]
    } else {
        None
    }
}

/// The version text synthesised from a tag, where the version pattern
/// matches it.
pub open spec fn normalized_text(text: Seq<char>) -> Option<Seq<char>> {
    match captures_of(VERSION_REGEX@, text) {
        None => None,
        Some(c) => Some(best_effort_text(group(c, 1), group(c, 2), group(c, 3), group(c, 4))),
    }
}

/// The version read from `text` if it parses and satisfies `req`.
pub open spec fn parsed_version(req: Seq<char>, text: Seq<char>) -> Option<VersionView> {
    match normalized_text(text) {
        None => None,
        Some(t) => match semver_of(t) {
            Some(v) => if req_matches(req, v) {
                Some(v)
            } else {
                None
            },
            None => None,
        },
    }
}

pub open spec fn opt_release_view(r: Option<Release>) -> Option<VersionView> {
    match r {
        Some(v) => Some(v@),
        None => None,
    }
}

fn group_str(c: &Vec<Option<String>>, i: usize) -> (r: Option<&str>)
    ensures
        opt_str_view(r) == group(groups_view(c@), i as int),
{
    if i < c.len() {
        match &c[i] {
            Some(s) => Some(s.as_str()),
            None => None,
        }
    } else {
        None
    }
}

/// Reads best-effort versions out of tags and keeps those that satisfy a
/// requirement.
pub struct VersionParser {
    version_formatter_regex: Pattern,
    version_req: Requirement,
}

impl VersionParser {
    /// The requirement text that parsed versions must satisfy.
    pub closed spec fn req(&self) -> Seq<char> {
        self.version_req.source()
    }

    /// The parser holds the version pattern.
    pub closed spec fn wf(&self) -> bool {
        self.version_formatter_regex.source() == VERSION_REGEX@
    }

    /// A parser for `version_req`; `None` only where the regex crate
    /// rejects the version pattern.
    pub fn new(version_req: Requirement) -> (r: Option<VersionParser>)
        ensures
            r is Some <==> pattern_valid(VERSION_REGEX@),
            r matches Some(vp) ==> vp.wf() && vp.req() == version_req.source(),
    {
        match Pattern::new(VERSION_REGEX) {
            Some(version_formatter_regex) => Some(VersionParser { version_formatter_regex, version_req }),
            None => None,
        }
    }

    /// The version that `version` stands for, if the version pattern
    /// matches it, the synthesised text parses and the requirement holds.
    pub fn parse(&self, version: &str) -> (r: Option<Release>)
        requires
            self.wf(),
        ensures
            opt_release_view(r) == parsed_version(self.req(), version@),
    {
        match self.version_formatter_regex.captures(version) {
            None => None,
            Some(caps) => {
                let major = group_str(&caps, 1);
                let minor = group_str(&caps, 2);
                let patch = group_str(&caps, 3);
                let suffix = group_str(&caps, 4);
                let text = best_effort_version(major, minor, patch, suffix);
                match Release::parse(text.as_str()) {
                    Some(v) => {
                        if self.version_req.matches(&v) {
                            Some(v)
                        } else {
                            None
                        }
                    },
                    None => None,
                }
            },
        }
    }
}

/// The part of a tag that a selector pattern extracts: its first group if
/// it has groups, else the whole match.
pub open spec fn extracted(selector: Seq<char>, tag: Seq<char>) -> Option<Seq<char>> {
    match captures_of(selector, tag) {
        None => None,
        Some(c) => if c.len() >= 2 {
            c[1]
        } else if c.len() == 1 {
            c[0]
        } else {
            None
        },
    }
}

/// The version a tag stands for, if any.
pub open spec fn candidate(selector: Seq<char>, req: Seq<char>, tag: Seq<char>) -> Option<VersionView> {
    match extracted(selector, tag) {
        None => None,
        Some(s) => parsed_version(req, s),
    }
}

pub open spec fn tags_view(tags: Seq<String>) -> Seq<Seq<char>> {
    tags.map_values(|t: String| t@)
}

/// The index of the latest tag: the greatest candidate, the first of equal
/// ones winning, since a later one replaces the best only when greater.
pub open spec fn latest_index(selector: Seq<char>, req: Seq<char>, tags: Seq<Seq<char>>) -> Option<int>
    decreases tags.len(),
{
    if tags.len() == 0 {
        None
    } else {
        let prev = latest_index(selector, req, tags.drop_last());
        match candidate(selector, req, tags.last()) {
            None => prev,
            Some(v) => match prev {
                None => Some(tags.len() - 1),
                Some(b) => if version_order(v, candidate(selector, req, tags[b]).unwrap()) == Ordering::Greater {
                    Some(tags.len() - 1)
                } else {
                    prev
                },
            },
        }
    }
}

/// The latest index is a tag with a candidate, and there is one exactly when
/// some tag has a candidate.
pub proof fn lemma_latest_index(selector: Seq<char>, req: Seq<char>, tags: Seq<Seq<char>>)
    ensures
        latest_index(selector, req, tags) matches Some(i) ==> 0 <= i < tags.len() && candidate(selector, req, tags[i]) is Some,
        latest_index(selector, req, tags) is Some <==> exists|j: int| 0 <= j < tags.len() && (#[trigger] candidate(selector, req, tags[j])) is Some,
    decreases tags.len(),
{
    if tags.len() > 0 {
        let init = tags.drop_last();
        lemma_latest_index(selector, req, init);
        assert forall|j: int| 0 <= j < init.len() implies init[j] == tags[j] by {}
        if latest_index(selector, req, tags) is None {
            assert forall|j: int| 0 <= j < tags.len() implies (#[trigger] candidate(selector, req, tags[j])) is None by {
                if j < init.len() {
                    assert(init[j] == tags[j]);
                }
            }
        } else {
            let j = choose|j: int| 0 <= j < tags.len() && latest_index(selector, req, tags) == Some(j);
        }
    }
}

/// Chooses, among `tags`, the one whose version is greatest; tags without a
/// version take no part and the first of equal versions wins. The result is
/// the tag itself, not its version.
pub fn select_latest(tags: &Vec<String>, selector: &Pattern, vp: &VersionParser) -> (r: Option<String>)
    requires
        vp.wf(),
    ensures
        match latest_index(selector.source(), vp.req(), tags_view(tags@)) {
            None => r is None,
            Some(i) => r matches Some(t) && t@ == tags@[i]@,
        },
        r is Some <==> exists|j: int| 0 <= j < tags@.len() && (#[trigger] candidate(selector.source(), vp.req(), tags@[j]@)) is Some,
{
    let ghost sel = selector.source();
    let ghost req = vp.req();
    let ghost tv = tags_view(tags@);
    let mut best: Option<(usize, Release)> = None;
    let mut i: usize = 0;
    while i < tags.len()
        invariant
            vp.wf(),
            sel == selector.source(),
            req == vp.req(),
            tv == tags_view(tags@),
            i <= tags.len(),
            match best {
                None => latest_index(sel, req, tv.take(i as int)) is None,
                Some((b, v)) => {
                    &&& latest_index(sel, req, tv.take(i as int)) == Some(b as int)
                    &&& b < i
                    &&& candidate(sel, req, tv[b as int]) == Some(v@)
                },
            },
        decreases tags.len() - i,
    {
        let tag = tags[i].as_str();
        let found = match selector.captures(tag) {
            None => None,
            Some(c) => if c.len() >= 2 {
                match &c[1] {
                    Some(g) => vp.parse(g.as_str()),
                    None => None,
                }
            } else {
                match &c[0] {
                    Some(g) => vp.parse(g.as_str()),
                    None => None,
                }
            },
        };
        proof {
            let pre = tv.take(i as int + 1);
            assert(pre.drop_last() =~= tv.take(i as int));
            assert(pre.last() == tv[i as int]);
            assert(tv[i as int] == tags@[i as int]@);
            assert(opt_release_view(found) == candidate(sel, req, tv[i as int]));
            if best is Some {
                let b = best.unwrap().0;
                assert(pre[b as int] == tv[b as int]);
            }
        }
        match found {
            None => {},
            Some(v) => {
                match best {
                    None => {
                        best = Some((i, v));
                    },
                    Some((b, w)) => {
                        match v.compare(&w) {
                            Ordering::Greater => {
                                best = Some((i, v));
                            },
                            _ => {
                                best = Some((b, w));
                            },
                        }
                    },
                }
            },
        }
        i = i + 1;
    }
    proof {
        assert(tv.take(i as int) =~= tv);
        lemma_latest_index(sel, req, tv);
        assert forall|j: int| 0 <= j < tags@.len() implies tv[j] == tags@[j]@ by {}
        if exists|j: int| 0 <= j < tags@.len() && (#[trigger] candidate(sel, req, tags@[j]@)) is Some {
            let j = choose|j: int| 0 <= j < tags@.len() && (#[trigger] candidate(sel, req, tags@[j]@)) is Some;
            assert(candidate(sel, req, tv[j]) is Some);
        }
        if latest_index(sel, req, tv) is Some {
            let j = choose|j: int| 0 <= j < tv.len() && (#[trigger] candidate(sel, req, tv[j])) is Some;
            assert(candidate(sel, req, tags@[j]@) is Some);
        }
    }
    match best {
        None => None,
        Some((b, _)) => Some(tags[b].clone()),
    }
}


/// A tag whose version equals that of the current latest tag never replaces
/// it: of two tags with equal versions the first one encountered wins.
pub proof fn lemma_equal_version_keeps_first(
    selector: Seq<char>,
    req: Seq<char>,
    tags: Seq<Seq<char>>,
    later: Seq<char>,
)
    requires
        latest_index(selector, req, tags) is Some,
        candidate(selector, req, later) == candidate(selector, req, tags[latest_index(selector, req, tags).unwrap()]),
    ensures
        latest_index(selector, req, tags.push(later)) == latest_index(selector, req, tags),
{
    let all = tags.push(later);
    assert(all.drop_last() =~= tags);
    lemma_latest_index(selector, req, tags);
    let b = latest_index(selector, req, tags).unwrap();
    assert(all[b] == tags[b]);
}

/// The laws of a total order, which `Ord` asks of `semver::Version`:
/// `a > b` exactly when `b < a`, and `a <= b < c` gives `a < c`.
pub open spec fn order_is_total() -> bool {
    &&& forall|a: VersionView, b: VersionView| #[trigger] version_order(a, b) == Ordering::Greater <==> version_order(b, a) == Ordering::Less
    &&& forall|a: VersionView, b: VersionView, c: VersionView|
        #![trigger version_order(a, b), version_order(b, c)]
        version_order(a, b) != Ordering::Greater && version_order(b, c) == Ordering::Less
            ==> version_order(a, c) == Ordering::Less
}

/// Under the laws of a total order the latest tag is a greatest one: no
/// tag has a greater version, and every tag before it has a smaller one.
pub proof fn lemma_latest_is_greatest(selector: Seq<char>, req: Seq<char>, tags: Seq<Seq<char>>)
    requires
        order_is_total(),
    ensures
        latest_index(selector, req, tags) matches Some(i) ==> {
            &&& forall|j: int| 0 <= j < tags.len() && (#[trigger] candidate(selector, req, tags[j])) is Some
                ==> version_order(candidate(selector, req, tags[j]).unwrap(), candidate(selector, req, tags[i]).unwrap()) != Ordering::Greater
            &&& forall|j: int| 0 <= j < i && (#[trigger] candidate(selector, req, tags[j])) is Some
                ==> version_order(candidate(selector, req, tags[j]).unwrap(), candidate(selector, req, tags[i]).unwrap()) == Ordering::Less
        },
    decreases tags.len(),
{
    if tags.len() > 0 {
        let init = tags.drop_last();
        let n = tags.len() - 1;
        lemma_latest_index(selector, req, init);
        lemma_latest_index(selector, req, tags);
        lemma_latest_is_greatest(selector, req, init);
        assert forall|j: int| 0 <= j < init.len() implies init[j] == tags[j] by {}
        let c = candidate(selector, req, tags[n]);
        match latest_index(selector, req, init) {
            None => {
                if c is Some {
                    assert forall|j: int| 0 <= j < n implies (#[trigger] candidate(selector, req, tags[j])) is None by {
                        assert(init[j] == tags[j]);
                    }
                    assert(version_order(c.unwrap(), c.unwrap()) == Ordering::Equal);
                }
            },
            Some(b) => {
                let w = candidate(selector, req, tags[b]).unwrap();
                assert(init[b] == tags[b]);
                if c is Some && version_order(c.unwrap(), w) == Ordering::Greater {
                    let v = c.unwrap();
                    assert(version_order(w, v) == Ordering::Less);
                    assert forall|j: int| 0 <= j < n && (#[trigger] candidate(selector, req, tags[j])) is Some
                        implies version_order(candidate(selector, req, tags[j]).unwrap(), v) == Ordering::Less by {
                        assert(init[j] == tags[j]);
                        let x = candidate(selector, req, tags[j]).unwrap();
                        assert(version_order(x, w) != Ordering::Greater);
                        assert(version_order(x, v) == Ordering::Less);
                    }
                    assert(version_order(v, v) == Ordering::Equal);
                } else {
                    assert forall|j: int| 0 <= j < b && (#[trigger] candidate(selector, req, tags[j])) is Some
                        implies version_order(candidate(selector, req, tags[j]).unwrap(), w) == Ordering::Less by {
                        assert(init[j] == tags[j]);
                    }
                    assert forall|j: int| 0 <= j < tags.len() && (#[trigger] candidate(selector, req, tags[j])) is Some
                        implies version_order(candidate(selector, req, tags[j]).unwrap(), w) != Ordering::Greater by {
                        if j < n {
                            assert(init[j] == tags[j]);
                        }
                    }
                }
            },
        }
    }
}

/// Of two tags with equal versions the second never wins, whatever comes
/// between or after them.
pub proof fn lemma_second_of_equal_never_wins(selector: Seq<char>, req: Seq<char>, tags: Seq<Seq<char>>, first: int, second: int)
    requires
        order_is_total(),
        0 <= first < second < tags.len(),
        candidate(selector, req, tags[first]) is Some,
        candidate(selector, req, tags[first]) == candidate(selector, req, tags[second]),
    ensures
        latest_index(selector, req, tags) != Some(second),
{
    lemma_latest_is_greatest(selector, req, tags);
    let v = candidate(selector, req, tags[first]).unwrap();
    assert(version_order(v, v) == Ordering::Equal);
}

/// The latest tag itself, where there is one.
pub open spec fn latest_tag(selector: Seq<char>, req: Seq<char>, tags: Seq<Seq<char>>) -> Option<Seq<char>> {
    match latest_index(selector, req, tags) {
        Some(i) => Some(tags[i]),
        None => None,
    }
}

pub open spec fn has_candidate(selector: Seq<char>, req: Seq<char>) -> spec_fn(Seq<char>) -> bool {
    |t: Seq<char>| candidate(selector, req, t) is Some
}

/// The latest tag after one more tag depends on the latest tag before it
/// and the new tag alone.
pub proof fn lemma_latest_tag_step(selector: Seq<char>, req: Seq<char>, tags: Seq<Seq<char>>, x: Seq<char>)
    ensures
        latest_tag(selector, req, tags.push(x)) == match candidate(selector, req, x) {
            None => latest_tag(selector, req, tags),
            Some(v) => match latest_tag(selector, req, tags) {
                None => Some(x),
                Some(t) => if version_order(v, candidate(selector, req, t).unwrap()) == Ordering::Greater {
                    Some(x)
                } else {
                    Some(t)
                },
            },
        },
{
    let all = tags.push(x);
    assert(all.drop_last() =~= tags);
    lemma_latest_index(selector, req, tags);
    if let Some(b) = latest_index(selector, req, tags) {
        assert(all[b] == tags[b]);
    }
}

/// Tags that yield no version take no part in the choice, wherever they
/// stand: leaving all of them out gives the same latest tag.
pub proof fn lemma_unmatched_tags_removed(selector: Seq<char>, req: Seq<char>, tags: Seq<Seq<char>>)
    ensures
        latest_tag(selector, req, tags.filter(has_candidate(selector, req))) == latest_tag(selector, req, tags),
    decreases tags.len(),
{
    reveal(Seq::filter);
    let p = has_candidate(selector, req);
    if tags.len() == 0 {
        assert(tags.filter(p) =~= tags);
    } else {
        let init = tags.drop_last();
        let x = tags.last();
        lemma_unmatched_tags_removed(selector, req, init);
        assert(init.push(x) =~= tags);
        lemma_latest_tag_step(selector, req, init, x);
        if p(x) {
            lemma_latest_tag_step(selector, req, init.filter(p), x);
        }
    }
}

} // verus!
