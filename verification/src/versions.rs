//! Version strings of the update path: semantic-version comparison of the
//! latest release against the running build, the `v` prefix of release tags,
//! the `0.0.0` marker of source builds, and the version printed by
//! `codex-akram --version`.

use vstd::prelude::*;
use crate::text::{
    all_ws, chars_of, is_ws, lemma_skip_word_concat, lemma_trim_ignores_surrounding_whitespace,
    lemma_trim_start_ws_prefix, no_ws, skip_word, skip_ws_from,
    slice_chars, string_from_chars, take_word, trim, trim_chars, trim_start, word_at,
};

verus! {

/// A version as the parser of the `semver` crate reads it: major, minor, patch,
/// and the pre-release and build-metadata texts.
pub type SemverParts = (u64, u64, u64, Seq<char>, Seq<char>);

/// `semver::Version`, held opaque.
#[verifier::external_type_specification]
#[verifier::external_body]
pub struct ExSemverVersion(semver::Version);

/// What `semver::Version::parse` gives for a text: `None` where it reports an
/// error, else the parts of the version.
pub uninterp spec fn semver_parse(text: Seq<char>) -> Option<SemverParts>;

/// Whether `semver::Version`'s ordering puts the version with parts `a` after
/// the one with parts `b`.
pub uninterp spec fn semver_greater(a: SemverParts, b: SemverParts) -> bool;

/// The decimal numeral of `n`, without leading zeros.
pub open spec fn decimal(n: nat) -> Seq<char>
    decreases n,
{
    if n < 10 {
        seq![((n + 48) as u32) as char]
    } else {
        decimal(n / 10).push((((n % 10) + 48) as u32) as char)
    }
}

/// The text `a.b.c` of a release version without pre-release or build
/// metadata, each number in plain decimal.
pub open spec fn release_text(a: u64, b: u64, c: u64) -> Seq<char> {
    decimal(a as nat) + seq!['.'] + decimal(b as nat) + seq!['.'] + decimal(c as nat)
}

/// Lexicographic order on (major, minor, patch).
pub open spec fn core_greater(a: SemverParts, b: SemverParts) -> bool {
    ||| a.0 > b.0
    ||| a.0 == b.0 && a.1 > b.1
    ||| a.0 == b.0 && a.1 == b.1 && a.2 > b.2
}

/// A parsed semantic version. It is only built from the result of
/// `semver::Version::parse`, and keeps that result beside its parts.
pub struct SemVer {
    major: u64,
    minor: u64,
    patch: u64,
    pre: String,
    build: String,
    inner: semver::Version,
}

impl View for SemVer {
    type V = SemverParts;

    closed spec fn view(&self) -> SemverParts {
        (self.major, self.minor, self.patch, self.pre@, self.build@)
    }
}

impl SemVer {
    /// The (major, minor, patch) triple.
    pub fn triple(&self) -> (r: (u64, u64, u64))
        ensures
            r == (self@.0, self@.1, self@.2),
    {
        (self.major, self.minor, self.patch)
    }
}

/// The parts of a parsed version, if any.
pub open spec fn parts_of(v: Option<SemVer>) -> Option<SemverParts> {
    match v {
        Some(v) => Some(v@),
        None => None,
    }
}

/// Calls `semver::Version::parse` on `text`. The contract claims that the
/// result is the parser's answer, named `semver_parse`; that an empty text is
/// refused (the parser's first check); and that a plain release `a.b.c`, three
/// decimal numbers without leading zeros, parses to those numbers with no
/// pre-release or build metadata. What else the grammar accepts is left to
/// the name.
#[verifier::external_body]
fn parse_semver(text: &str) -> (r: Option<SemVer>)
    ensures
        parts_of(r) == semver_parse(text@),
        text@.len() == 0 ==> r is None,
        forall|a: u64, b: u64, c: u64|
            #[trigger] release_text(a, b, c) == text@ ==> parts_of(r) == Some(
                (a, b, c, Seq::<char>::empty(), Seq::<char>::empty()),
            ),
{
    match semver::Version::parse(text) {
        Ok(v) => Some(SemVer {
            major: v.major,
            minor: v.minor,
            patch: v.patch,
            pre: v.pre.as_str().to_string(),
            build: v.build.as_str().to_string(),
            inner: v,
        }),
        Err(_) => None,
    }
}

/// Calls `>` on two `semver::Version`s, whose ordering is derived field by
/// field over major, minor, patch, pre-release and build metadata. The contract
/// claims: the answer is the name `semver_greater` of the two versions' parts;
/// where (major, minor, patch) differ it is their lexicographic order; where
/// they agree, a release (empty pre-release) is greater than a pre-release and
/// not the other way round; no version is greater than itself, and the order
/// is asymmetric. How two pre-release or build texts compare is left to the name.
#[verifier::external_body]
fn semver_is_greater(a: &SemVer, b: &SemVer) -> (r: bool)
    ensures
        r == semver_greater(a@, b@),
        (a@.0, a@.1, a@.2) != (b@.0, b@.1, b@.2) ==> r == core_greater(a@, b@),
        (a@.0, a@.1, a@.2) == (b@.0, b@.1, b@.2) && a@.3.len() == 0 && b@.3.len() > 0 ==> r,
        (a@.0, a@.1, a@.2) == (b@.0, b@.1, b@.2) && a@.3.len() > 0 && b@.3.len() == 0 ==> !r,
        a@ == b@ ==> !r,
        r ==> !semver_greater(b@, a@),
{
    a.inner > b.inner
}

/// Parses `text` after trimming surrounding whitespace.
fn parse_trimmed(text: &str) -> (r: Option<SemVer>)
    ensures
        parts_of(r) == semver_parse(trim(text@)),
        forall|a: u64, b: u64, c: u64|
            #[trigger] release_text(a, b, c) == trim(text@) ==> parts_of(r) == Some(
                (a, b, c, Seq::<char>::empty(), Seq::<char>::empty()),
            ),
{
    let chars = chars_of(text);
    let trimmed = trim_chars(&chars);
    let s = string_from_chars(&trimmed);
    parse_semver(s.as_str())
}

/// What `is_newer` answers: `None` unless both texts parse as versions once
/// trimmed, else whether `latest` orders after `current`.
pub open spec fn spec_is_newer(latest: Seq<char>, current: Seq<char>) -> Option<bool> {
    match (semver_parse(trim(latest)), semver_parse(trim(current))) {
        (Some(l), Some(c)) => Some(semver_greater(l, c)),
        _ => None,
    }
}

/// Whether the release `latest` is newer than the running `current` version,
/// by semantic-version ordering; `None` when either does not parse.
pub fn is_newer(latest: &str, current: &str) -> (r: Option<bool>)
    ensures
        r == spec_is_newer(latest@, current@),
        forall|l: SemverParts, c: SemverParts|
            semver_parse(trim(latest@)) == Some(l) && semver_parse(trim(current@)) == Some(c) ==> r
                == Some(#[trigger] semver_greater(l, c)),
        semver_parse(trim(latest@)) is None || semver_parse(trim(current@)) is None ==> r is None,
        r == Some(true) ==> spec_is_newer(current@, latest@) == Some(false),
        forall|a1: u64, b1: u64, c1: u64, a2: u64, b2: u64, c2: u64|
            #![trigger release_text(a1, b1, c1), release_text(a2, b2, c2)]
            release_text(a1, b1, c1) == trim(latest@) && release_text(a2, b2, c2) == trim(current@)
                ==> r == Some(
                core_greater(
                    (a1, b1, c1, Seq::<char>::empty(), Seq::<char>::empty()),
                    (a2, b2, c2, Seq::<char>::empty(), Seq::<char>::empty()),
                ),
            ),
{
    let l = parse_trimmed(latest);
    let c = parse_trimmed(current);
    match (l, c) {
        (Some(l), Some(c)) => Some(semver_is_greater(&l, &c)),
        _ => None,
    }
}

/// When both texts parse once trimmed, `is_newer` answers semver's ordering
/// of the two parsed versions, for every pair: pre-releases of the same
/// major.minor.patch included, which semver orders identifier by identifier.
/// When either does not parse there is no answer.
pub proof fn lemma_is_newer_is_semver_order(latest: Seq<char>, current: Seq<char>)
    ensures
        forall|l: SemverParts, c: SemverParts|
            semver_parse(trim(latest)) == Some(l) && semver_parse(trim(current)) == Some(c)
                ==> spec_is_newer(latest, current) == Some(#[trigger] semver_greater(l, c)),
        semver_parse(trim(latest)) is None || semver_parse(trim(current)) is None ==> spec_is_newer(
            latest,
            current,
        ) is None,
{
}

/// Whitespace around the versions changes neither what `is_newer` answers
/// nor the numbers that `parse_version` reads.
pub proof fn lemma_is_newer_ignores_whitespace(
    latest: Seq<char>,
    current: Seq<char>,
    p1: Seq<char>,
    q1: Seq<char>,
    p2: Seq<char>,
    q2: Seq<char>,
)
    requires
        all_ws(p1),
        all_ws(q1),
        all_ws(p2),
        all_ws(q2),
    ensures
        spec_is_newer(p1 + latest + q1, p2 + current + q2) == spec_is_newer(latest, current),
        triple_of(semver_parse(trim(p1 + latest + q1))) == triple_of(semver_parse(trim(latest))),
{
    lemma_trim_ignores_surrounding_whitespace(p1, latest, q1);
    lemma_trim_ignores_surrounding_whitespace(p2, current, q2);
}

/// The (major, minor, patch) triple of some parsed parts.
pub open spec fn triple_of(p: Option<SemverParts>) -> Option<(u64, u64, u64)> {
    match p {
        Some(v) => Some((v.0, v.1, v.2)),
        None => None,
    }
}

/// The (major, minor, patch) of `v` once trimmed, if it parses.
pub fn parse_version(v: &str) -> (r: Option<(u64, u64, u64)>)
    ensures
        r == triple_of(semver_parse(trim(v@))),
        forall|a: u64, b: u64, c: u64| #[trigger] release_text(a, b, c) == trim(v@) ==> r == Some((a, b, c)),
{
    match parse_trimmed(v) {
        Some(ver) => Some(ver.triple()),
        None => None,
    }
}

/// Whether a parsed triple marks a source build, `0.0.0`.
pub fn is_source_build_triple(t: Option<(u64, u64, u64)>) -> (r: bool)
    ensures
        r == (t == Some((0u64, 0u64, 0u64))),
{
    match t {
        Some((a, b, c)) => a == 0 && b == 0 && c == 0,
        None => false,
    }
}

/// Whether `version` is the `0.0.0` of a build from source, which update
/// checks skip.
pub fn is_source_build_version(version: &str) -> (r: bool)
    ensures
        r == (triple_of(semver_parse(trim(version@))) == Some((0u64, 0u64, 0u64))),
        forall|a: u64, b: u64, c: u64| #[trigger] release_text(a, b, c) == trim(version@) ==> r == (a
            == 0 && b == 0 && c == 0),
{
    is_source_build_triple(parse_version(version))
}

/// A release tag that does not start with `v`.
#[derive(Debug)]
pub struct LatestTagError {
    pub tag: String,
}

impl LatestTagError {
    /// "Failed to parse latest tag name '<tag>'".
    pub fn message(&self) -> (r: String)
        ensures
            r@ == "Failed to parse latest tag name '"@ + self.tag@ + "'"@,
    {
        let mut s = String::from_str("Failed to parse latest tag name '");
        s.append(self.tag.as_str());
        s.append("'");
        s
    }
}

/// The version that a release tag names: the tag without its leading `v`.
/// A tag that does not start with `v` is refused.
pub fn extract_version_from_latest_tag(latest_tag_name: &str) -> (r: Result<String, LatestTagError>)
    ensures
        latest_tag_name@.len() > 0 && latest_tag_name@[0] == 'v' ==> (r matches Ok(v) && v@
            == latest_tag_name@.drop_first()),
        !(latest_tag_name@.len() > 0 && latest_tag_name@[0] == 'v') ==> (r matches Err(e)
            && e.tag@ == latest_tag_name@),
{
    let chars = chars_of(latest_tag_name);
    if chars.len() > 0 && chars[0] == 'v' {
        let rest = slice_chars(&chars, 1, chars.len());
        assert(rest@ =~= latest_tag_name@.drop_first());
        Ok(string_from_chars(&rest))
    } else {
        Err(LatestTagError { tag: String::from_str(latest_tag_name) })
    }
}

/// The second whitespace-separated word of `s`, as `split_whitespace().nth(1)`
/// finds it (empty where there is none).
pub open spec fn second_word(s: Seq<char>) -> Seq<char> {
    take_word(trim_start(skip_word(trim_start(s))))
}

/// Output in the form `<name><space><version><end>`, with a name and a
/// version that are nonempty words and whitespace between and after them,
/// reads back as that version: what `parse_codex_version` returns on it.
pub proof fn lemma_version_output_reads_back(
    name: Seq<char>,
    space: Seq<char>,
    version: Seq<char>,
    end: Seq<char>,
)
    requires
        name.len() > 0,
        version.len() > 0,
        no_ws(name),
        no_ws(version),
        space.len() > 0,
        all_ws(space),
        all_ws(end),
    ensures
        second_word(name + space + version + end) == version,
{
    let s = name + space + version + end;
    let rest = space + version + end;
    assert(s =~= name + rest);
    assert(s[0] == name[0]);
    assert(!is_ws(name[0]));
    assert(trim_start(s) == s);
    assert(rest[0] == space[0]);
    lemma_skip_word_concat(name, rest);
    assert(rest =~= space + (version + end));
    lemma_trim_start_ws_prefix(space, version + end);
    assert((version + end)[0] == version[0]);
    assert(!is_ws(version[0]));
    assert(trim_start(version + end) == version + end);
    if end.len() > 0 {
        assert(is_ws(end[0]));
    }
    lemma_skip_word_concat(version, end);
}

/// Output of `codex-akram --version` that names no version.
#[derive(Debug)]
pub struct VersionOutputError {
    pub output: String,
}

/// The version in the output of `codex-akram --version`, `<name> <version>`:
/// its second whitespace-separated word. Output with fewer than two words is
/// refused.
pub fn parse_codex_version(output: &str) -> (r: Result<String, VersionOutputError>)
    ensures
        second_word(output@).len() > 0 ==> (r matches Ok(v) && v@ == second_word(output@)),
        second_word(output@).len() == 0 ==> (r matches Err(e) && e.output@ == output@),
{
    let chars = chars_of(output);
    let start = skip_ws_from(&chars, 0);
    assert(chars@.skip(0) =~= chars@);
    let (_, after_name) = word_at(&chars, start);
    let version_start = skip_ws_from(&chars, after_name);
    let (version, _) = word_at(&chars, version_start);
    if version.len() > 0 {
        Ok(string_from_chars(&version))
    } else {
        Err(VersionOutputError { output: String::from_str(output) })
    }
}

} // verus!
