//! Whether a newer build is published, and getting it: the nightly's `latest.json`, compared
//! by build number with the one this binary was made as; the two addresses every file is at,
//! in the order to try them; and whether a build found is news worth telling.

pub mod install;

use vstd::prelude::*;
use crate::identity::{APPLICATION, REPOSITORY};
use crate::text::{
    begins_with, chars_from, chars_of, parse_unsigned, split_char, split_pieces,
    starts_with_chars, string_from_chars, trim, trim_bounds, unsigned_of,
};

verus! {

/// The channels a build can follow. One for now; the daily comes when it is cut.
#[derive(Clone, Copy, Debug, Default, PartialEq, Eq, Structural)]
pub enum Channel {
    #[default]
    Nightly,
}

impl Channel {
    pub fn name(self) -> (r: &'static str)
        ensures
            r@ == "Nightly"@,
    {
        match self {
            Channel::Nightly => "Nightly",
        }
    }

    /// The release's tag on GitHub, which both routes address the files by.
    pub fn tag(self) -> (r: &'static str)
        ensures
            r@ == self.tag_spec(),
    {
        match self {
            Channel::Nightly => "nightly",
        }
    }

    pub open spec fn tag_spec(self) -> Seq<char> {
        match self {
            Channel::Nightly => "nightly"@,
        }
    }
}

/// What the automatic update does with a newer build once the check has found one.
#[derive(Clone, Copy, Debug, Default, PartialEq, Eq, Structural)]
pub enum Policy {
    /// Fetch it and put it in place; the card then offers the restart.
    #[default]
    Install,
    /// Fetch it and keep it; the card then offers the install, which is instant.
    Download,
    /// Say so and do nothing; the card offers the install, which fetches first.
    Notify,
}

impl Policy {
    pub const ALL: [Policy; 3] = [Policy::Install, Policy::Download, Policy::Notify];

    pub fn name(self) -> (r: &'static str)
        ensures
            r@ == self.name_spec(),
    {
        match self {
            Policy::Install => "Download and install",
            Policy::Download => "Download only",
            Policy::Notify => "Notify only",
        }
    }

    pub open spec fn name_spec(self) -> Seq<char> {
        match self {
            Policy::Install => "Download and install"@,
            Policy::Download => "Download only"@,
            Policy::Notify => "Notify only"@,
        }
    }
}

/// Where the reader is, as far as choosing a route goes.
#[derive(Clone, Copy, Debug, PartialEq, Eq, Structural)]
pub enum Region {
    China,
    Elsewhere,
}

/// GitHub's address of a file of the channel's release.
pub open spec fn github_route(tag: Seq<char>, file: Seq<char>) -> Seq<char> {
    "https://github.com/"@ + REPOSITORY@ + "/releases/download/"@ + tag + "/"@ + file
}

/// The author's CDN's address of the same file.
pub open spec fn cdn_route(tag: Seq<char>, file: Seq<char>) -> Seq<char> {
    "https://cdn.ffoni.com/github/release/"@ + APPLICATION@ + "/"@ + tag + "/"@ + file
}

/// The two addresses of a file, in the order to try them: the CDN first in China, GitHub
/// first everywhere else.
pub open spec fn routes_of(channel: Channel, region: Region, file: Seq<char>) -> Seq<Seq<char>> {
    let (github, cdn) = (github_route(channel.tag_spec(), file), cdn_route(channel.tag_spec(), file));
    match region {
        Region::China => seq![cdn, github],
        Region::Elsewhere => seq![github, cdn],
    }
}

/// Wherever the reader is, the same two addresses are tried, only in another order: China's
/// are everywhere else's the other way round; and each is the file's name under the channel's
/// tag.
pub proof fn law_the_routes_are_the_same_two_in_either_order(channel: Channel, file: Seq<char>)
    ensures
        routes_of(channel, Region::China, file) == routes_of(channel, Region::Elsewhere, file).reverse(),
        forall|region: Region, i: int|
            0 <= i < 2 ==> (#[trigger] routes_of(channel, region, file)[i]).len() >= file.len() + 1
                && routes_of(channel, region, file)[i].subrange(
                routes_of(channel, region, file)[i].len() - file.len() - 1,
                routes_of(channel, region, file)[i].len() as int,
            ) == "/"@ + file,
{
    let (github, cdn) = (github_route(channel.tag_spec(), file), cdn_route(channel.tag_spec(), file));
    assert(routes_of(channel, Region::China, file) =~= routes_of(channel, Region::Elsewhere, file).reverse());
    reveal_strlit("/");
    let tail = "/"@ + file;
    assert(github.subrange(github.len() - file.len() - 1, github.len() as int) =~= tail);
    assert(cdn.subrange(cdn.len() - file.len() - 1, cdn.len() as int) =~= tail);
}

/// The two places every file is, in the order to try them: GitHub's own address first except
/// in China, where the author's CDN goes first; the other is the fallback either way, since
/// GitHub has its outages and a CDN its gaps.
pub fn routes(channel: Channel, region: Region, file: &str) -> (r: [String; 2])
    ensures
        seq![r[0]@, r[1]@] == routes_of(channel, region, file@),
{
    let tag = channel.tag();
    let mut github = String::from_str("https://github.com/");
    github.append(REPOSITORY);
    github.append("/releases/download/");
    github.append(tag);
    github.append("/");
    github.append(file);
    let mut cdn = String::from_str("https://cdn.ffoni.com/github/release/");
    cdn.append(APPLICATION);
    cdn.append("/");
    cdn.append(tag);
    cdn.append("/");
    cdn.append(file);
    let r = match region {
        Region::China => [cdn, github],
        Region::Elsewhere => [github, cdn],
    };
    assert(seq![r[0]@, r[1]@] =~= routes_of(channel, region, file@));
    r
}

/// What follows `loc=` on the first line that starts with it, if a line does.
pub open spec fn location(lines: Seq<Seq<char>>) -> Option<Seq<char>>
    decreases lines.len(),
{
    if lines.len() == 0 {
        None
    } else if begins_with(lines[0], "loc="@) {
        Some(lines[0].skip(4))
    } else {
        location(lines.drop_first())
    }
}

/// The region a trace says the reader is in: China when its location, trimmed, is `CN`;
/// elsewhere otherwise, including a trace with no location in it.
pub open spec fn region_of(text: Seq<char>) -> Region {
    match location(split_char(text, '\n')) {
        Some(loc) => if trim(loc) == "CN"@ {
            Region::China
        } else {
            Region::Elsewhere
        },
        None => Region::Elsewhere,
    }
}

/// Reads `loc=XX` out of a trace. Anything that is not China is elsewhere, including a trace
/// with no location in it.
pub fn region_of_trace(text: &str) -> (r: Region)
    ensures
        r == region_of(text@),
{
    let all = chars_of(text);
    let lines = split_pieces(all.as_slice(), '\n');
    let ghost seen = lines@.map_values(|x: Vec<char>| x@);
    let prefix = chars_of("loc=");
    proof {
        reveal_strlit("loc=");
    }
    let mut i: usize = 0;
    assert(seen.skip(0) =~= seen);
    while i < lines.len()
        invariant
            i <= lines@.len(),
            prefix@.len() == 4,
            seen == lines@.map_values(|x: Vec<char>| x@),
            seen == split_char(text@, '\n'),
            prefix@ == "loc="@,
            location(seen) == location(seen.skip(i as int)),
        decreases lines.len() - i,
    {
        assert(seen.skip(i as int).drop_first() =~= seen.skip(i + 1));
        assert(seen.skip(i as int)[0] == lines@[i as int]@);
        if starts_with_chars(lines[i].as_slice(), prefix.as_slice()) {
            let line = &lines[i];
            let rest = chars_from(line.as_slice(), 4);
            let (a, b) = trim_bounds(rest.as_slice());
            let cn = chars_of("CN");
            proof {
                reveal_strlit("CN");
            }
            let same = b - a == 2 && rest[a] == cn[0] && rest[b - 1] == cn[1];
            proof {
                let t = rest@.subrange(a as int, b as int);
                assert(t == trim(line@.skip(4)));
                if same {
                    assert(t =~= "CN"@);
                } else if b - a == 2 {
                    assert(t[0] == rest@[a as int] && t[1] == rest@[b - 1]);
                    assert(t != "CN"@);
                }
            }
            return if same {
                Region::China
            } else {
                Region::Elsewhere
            };
        }
        i = i + 1;
    }
    assert(seen.skip(i as int) =~= Seq::<Seq<char>>::empty());
    Region::Elsewhere
}

/// The number this binary was built as, from the text its build was stamped with: the run
/// number, which only grows; None for a build made by hand, which carries none, or one that
/// does not read as a `u64`.
pub fn this_build(build: Option<&str>) -> (r: Option<u64>)
    ensures
        match build {
            Some(b) => match unsigned_of(b@, u64::MAX as nat) {
                Some(n) => r == Some(n as u64),
                None => r is None,
            },
            None => r is None,
        },
{
    match build {
        Some(b) => {
            let c = chars_of(b);
            parse_unsigned(c.as_slice(), u64::MAX)
        },
        None => None,
    }
}

/// One part of a version as a number: `from_str` of a `u64`, or nothing -- zero -- for a part
/// that is no number.
pub open spec fn part_value(part: Seq<char>) -> u64 {
    match unsigned_of(part, u64::MAX as nat) {
        Some(n) => n as u64,
        None => 0,
    }
}

/// A version as its numbers: its parts between dots, each read as a number.
pub open spec fn ordinal_of(version: Seq<char>) -> Seq<u64> {
    split_char(version, '.').map_values(|p: Seq<char>| part_value(p))
}

/// Whether one list of numbers sorts before another, as `Vec<u64>` compares: by the first
/// number they differ at, and a list that runs out first is the smaller.
pub open spec fn lex_less(a: Seq<u64>, b: Seq<u64>) -> bool
    decreases a.len(),
{
    if a.len() == 0 {
        b.len() > 0
    } else if b.len() == 0 {
        false
    } else if a[0] != b[0] {
        a[0] < b[0]
    } else {
        lex_less(a.drop_first(), b.drop_first())
    }
}

/// A version as its numbers. Versions here are the day they were made, `YYYY.M.D` without
/// leading zeros, so read as text 2026.10.1 would sort before 2026.9.6; read as numbers it does
/// not. A part that is no number counts as nothing.
pub fn ordinal(version: &str) -> (r: Vec<u64>)
    ensures
        r@ == ordinal_of(version@),
{
    let all = chars_of(version);
    let parts = split_pieces(all.as_slice(), '.');
    let ghost pieces = parts@.map_values(|x: Vec<char>| x@);
    let mut r: Vec<u64> = Vec::new();
    let mut i: usize = 0;
    while i < parts.len()
        invariant
            i <= parts@.len(),
            pieces == parts@.map_values(|x: Vec<char>| x@),
            pieces == split_char(version@, '.'),
            r@ == pieces.take(i as int).map_values(|p: Seq<char>| part_value(p)),
        decreases parts.len() - i,
    {
        let n = match parse_unsigned(parts[i].as_slice(), u64::MAX) {
            Some(n) => n,
            None => 0,
        };
        assert(pieces[i as int] == parts@[i as int]@);
        r.push(n);
        assert(r@ =~= pieces.take(i + 1).map_values(|p: Seq<char>| part_value(p)));
        i = i + 1;
    }
    assert(pieces.take(parts@.len() as int) =~= pieces);
    r
}

/// Whether `a` sorts before `b`.
fn ordinal_before(a: &[u64], b: &[u64]) -> (r: bool)
    ensures
        r == lex_less(a@, b@),
{
    let mut i: usize = 0;
    assert(a@.skip(0) =~= a@ && b@.skip(0) =~= b@);
    while i < a.len() && i < b.len() && a[i] == b[i]
        invariant
            i <= a@.len() && i <= b@.len(),
            lex_less(a@, b@) == lex_less(a@.skip(i as int), b@.skip(i as int)),
        decreases a.len() - i,
    {
        assert(a@.skip(i as int).drop_first() =~= a@.skip(i + 1));
        assert(b@.skip(i as int).drop_first() =~= b@.skip(i + 1));
        i = i + 1;
    }
    if i == a.len() {
        i < b.len()
    } else if i == b.len() {
        false
    } else {
        a[i] < b[i]
    }
}

/// Whether two lists of numbers are the same.
fn ordinal_same(a: &[u64], b: &[u64]) -> (r: bool)
    ensures
        r == (a@ == b@),
{
    if a.len() != b.len() {
        return false;
    }
    let mut i: usize = 0;
    while i < a.len()
        invariant
            a@.len() == b@.len(),
            i <= a@.len(),
            forall|j: int| 0 <= j < i ==> a@[j] == b@[j],
        decreases a.len() - i,
    {
        if a[i] != b[i] {
            return false;
        }
        i = i + 1;
    }
    assert(a@ =~= b@);
    true
}

/// Whether a build is news, given what was last told: nothing told yet is news; otherwise a
/// higher version, or the same version built again with a higher number.
pub open spec fn news(version: Seq<char>, build: u64, told: Option<(Seq<char>, u64)>) -> bool {
    match told {
        None => true,
        Some((last, last_build)) => lex_less(ordinal_of(last), ordinal_of(version)) || (
        ordinal_of(version) == ordinal_of(last) && build > last_build),
    }
}

/// Whether an update is worth telling the system about, given what it was last told. Only news
/// is: a higher version, or the same version built again with a higher number. The same build
/// found again by the next check, or by the next run of the application, is the same news and
/// is not repeated.
pub fn worth_telling(version: &str, build: u64, told: Option<(&str, u64)>) -> (r: bool)
    ensures
        r == news(
            version@,
            build,
            match told {
                Some((last, last_build)) => Some((last@, last_build)),
                None => None,
            },
        ),
{
    match told {
        None => true,
        Some((last, last_build)) => {
            let a = ordinal(version);
            let b = ordinal(last);
            if ordinal_before(b.as_slice(), a.as_slice()) {
                true
            } else if ordinal_same(a.as_slice(), b.as_slice()) {
                build > last_build
            } else {
                false
            }
        },
    }
}

proof fn lemma_lex_irreflexive(a: Seq<u64>)
    ensures
        !lex_less(a, a),
    decreases a.len(),
{
    if a.len() > 0 {
        lemma_lex_irreflexive(a.drop_first());
    }
}

proof fn lemma_lex_asymmetric(a: Seq<u64>, b: Seq<u64>)
    ensures
        !(lex_less(a, b) && lex_less(b, a)),
    decreases a.len(),
{
    if a.len() > 0 && b.len() > 0 && a[0] == b[0] {
        lemma_lex_asymmetric(a.drop_first(), b.drop_first());
    }
}

proof fn lemma_lex_transitive(a: Seq<u64>, b: Seq<u64>, c: Seq<u64>)
    requires
        lex_less(a, b),
        lex_less(b, c),
    ensures
        lex_less(a, c),
    decreases a.len(),
{
    if a.len() > 0 && b.len() > 0 && c.len() > 0 && a[0] == b[0] && b[0] == c[0] {
        lemma_lex_transitive(a.drop_first(), b.drop_first(), c.drop_first());
    }
}

/// The same news is told once: a build is never news against itself as what was told.
pub proof fn law_same_build_is_told_once(version: Seq<char>, build: u64)
    ensures
        !news(version, build, Some((version, build))),
{
    lemma_lex_irreflexive(ordinal_of(version));
}

/// News runs one way: if one build is news after another, the other is not news after it.
pub proof fn law_news_is_one_way(v1: Seq<char>, b1: u64, v2: Seq<char>, b2: u64)
    requires
        news(v1, b1, Some((v2, b2))),
    ensures
        !news(v2, b2, Some((v1, b1))),
{
    lemma_lex_asymmetric(ordinal_of(v1), ordinal_of(v2));
    lemma_lex_irreflexive(ordinal_of(v1));
}

/// News carries over: a build that is news after one that was news after a third is news after
/// the third as well, so telling only what is news never tells an older build after a newer.
pub proof fn law_news_carries_over(
    v1: Seq<char>,
    b1: u64,
    v2: Seq<char>,
    b2: u64,
    v3: Seq<char>,
    b3: u64,
)
    requires
        news(v2, b2, Some((v1, b1))),
        news(v3, b3, Some((v2, b2))),
    ensures
        news(v3, b3, Some((v1, b1))),
{
    let (o1, o2, o3) = (ordinal_of(v1), ordinal_of(v2), ordinal_of(v3));
    if lex_less(o1, o2) && lex_less(o2, o3) {
        lemma_lex_transitive(o1, o2, o3);
    }
}

/// What `latest.json` says: the build it names and the files it holds.
#[derive(Clone, Debug, PartialEq, Eq)]
pub struct Manifest {
    pub channel: String,
    pub version: String,
    pub build: u64,
    pub sha: String,
    pub assets: Vec<Asset>,
}

/// One file of a build: the system it is for, the kind of file it is, its name, its size and
/// its sha256 in lowercase hex.
#[derive(Clone, Debug, PartialEq, Eq)]
pub struct Asset {
    pub target: String,
    pub kind: String,
    pub file: String,
    pub size: u64,
    pub sha256: String,
}

impl Asset {
    /// A copy of the asset, field for field.
    pub fn duplicate(&self) -> (r: Asset)
        ensures
            r == *self,
    {
        Asset {
            target: self.target.clone(),
            kind: self.kind.clone(),
            file: self.file.clone(),
            size: self.size,
            sha256: self.sha256.clone(),
        }
    }
}

/// The first asset for the target, in the manifest's order.
pub open spec fn first_for_target(assets: Seq<Asset>, target: Seq<char>) -> Option<Asset>
    decreases assets.len(),
{
    if assets.len() == 0 {
        None
    } else if assets[0].target@ == target {
        Some(assets[0])
    } else {
        first_for_target(assets.drop_first(), target)
    }
}

/// The first asset of the kind, in the manifest's order.
pub open spec fn first_of_kind(assets: Seq<Asset>, kind: Seq<char>) -> Option<Asset>
    decreases assets.len(),
{
    if assets.len() == 0 {
        None
    } else if assets[0].kind@ == kind {
        Some(assets[0])
    } else {
        first_of_kind(assets.drop_first(), kind)
    }
}

/// The assets for the target, in the manifest's order.
pub open spec fn for_target(assets: Seq<Asset>, target: Seq<char>) -> Seq<Asset>
    decreases assets.len(),
{
    if assets.len() == 0 {
        Seq::<Asset>::empty()
    } else {
        let rest = for_target(assets.drop_last(), target);
        if assets.last().target@ == target {
            rest.push(assets.last())
        } else {
            rest
        }
    }
}

impl Manifest {
    /// The file for a system, the first named for it: the dmg, the zip, the AppImage. The Linux
    /// tarball is listed after the AppImage, so the AppImage is what a Linux build gets.
    pub fn asset_for(&self, target: &str) -> (r: Option<&Asset>)
        ensures
            match r {
                Some(a) => first_for_target(self.assets@, target@) == Some(*a),
                None => first_for_target(self.assets@, target@) is None,
            },
    {
        let wanted = String::from_str(target);
        let mut i: usize = 0;
        assert(self.assets@.skip(0) =~= self.assets@);
        while i < self.assets.len()
            invariant
                i <= self.assets@.len(),
                wanted@ == target@,
                first_for_target(self.assets@, target@) == first_for_target(
                    self.assets@.skip(i as int),
                    target@,
                ),
            decreases self.assets.len() - i,
        {
            assert(self.assets@.skip(i as int).drop_first() =~= self.assets@.skip(i + 1));
            if self.assets[i].target == wanted {
                return Some(&self.assets[i]);
            }
            i = i + 1;
        }
        None
    }
}

/// A build newer than this one, and its files for this system.
#[derive(Clone, Debug, PartialEq, Eq)]
pub struct Available {
    pub build: u64,
    pub version: String,
    pub assets: Vec<Asset>,
}

impl Available {
    /// The file of one kind, the one the place this runs from is replaced with.
    pub fn asset(&self, kind: &str) -> (r: Option<&Asset>)
        ensures
            match r {
                Some(a) => first_of_kind(self.assets@, kind@) == Some(*a),
                None => first_of_kind(self.assets@, kind@) is None,
            },
    {
        let wanted = String::from_str(kind);
        let mut i: usize = 0;
        assert(self.assets@.skip(0) =~= self.assets@);
        while i < self.assets.len()
            invariant
                i <= self.assets@.len(),
                wanted@ == kind@,
                first_of_kind(self.assets@, kind@) == first_of_kind(
                    self.assets@.skip(i as int),
                    kind@,
                ),
            decreases self.assets.len() - i,
        {
            assert(self.assets@.skip(i as int).drop_first() =~= self.assets@.skip(i + 1));
            if self.assets[i].kind == wanted {
                return Some(&self.assets[i]);
            }
            i = i + 1;
        }
        None
    }
}

/// What a manifest means for a binary built as `this` for `target`: a newer build and its
/// files for the target, in the manifest's order; or nothing to do, when the manifest's build
/// is not newer or it has no file for the target. A hand build has no number, so anything
/// published is newer than it.
pub fn compare(manifest: &Manifest, this: Option<u64>, target: &str) -> (r: Option<Available>)
    ensures
        r is Some <==> manifest.build > (match this {
            Some(n) => n,
            None => 0,
        }) && for_target(manifest.assets@, target@).len() > 0,
        match r {
            Some(a) => a.build == manifest.build && a.version == manifest.version && a.assets@
                == for_target(manifest.assets@, target@),
            None => true,
        },
{
    let floor = match this {
        Some(n) => n,
        None => 0,
    };
    if manifest.build <= floor {
        return None;
    }
    let wanted = String::from_str(target);
    let mut assets: Vec<Asset> = Vec::new();
    let mut i: usize = 0;
    assert(manifest.assets@.take(0) =~= Seq::<Asset>::empty());
    while i < manifest.assets.len()
        invariant
            i <= manifest.assets@.len(),
            wanted@ == target@,
            assets@ == for_target(manifest.assets@.take(i as int), target@),
        decreases manifest.assets.len() - i,
    {
        assert(manifest.assets@.take(i + 1).drop_last() =~= manifest.assets@.take(i as int));
        if manifest.assets[i].target == wanted {
            assets.push(manifest.assets[i].duplicate());
        }
        i = i + 1;
    }
    assert(manifest.assets@.take(manifest.assets@.len() as int) =~= manifest.assets@);
    if assets.len() == 0 {
        return None;
    }
    Some(Available { build: manifest.build, version: manifest.version.clone(), assets })
}

/// The SHA-256 digest of some bytes, as the `sha2` crate computes it.
pub uninterp spec fn sha256_of(data: Seq<u8>) -> Seq<u8>;

/// `sha2::Sha256::digest`. Claimed: the digest is a function of the bytes alone, named
/// `sha256_of`, and is 32 bytes long, which is SHA-256's output size.
#[verifier::external_body]
fn sha256(data: &[u8]) -> (r: Vec<u8>)
    ensures
        r@ == sha256_of(data@),
        r@.len() == 32,
{
    <sha2::Sha256 as sha2::Digest>::digest(data).to_vec()
}

/// A hexadecimal digit in lowercase.
pub open spec fn hex_digit(n: nat) -> char {
    if n < 10 {
        (n + 48) as char
    } else {
        (n + 87) as char
    }
}

/// Bytes written as lowercase hexadecimal, two digits a byte, as `{:02x}` writes each.
pub open spec fn hex_of(bytes: Seq<u8>) -> Seq<char>
    decreases bytes.len(),
{
    if bytes.len() == 0 {
        Seq::<char>::empty()
    } else {
        hex_of(bytes.drop_last()).push(hex_digit((bytes.last() / 16) as nat)).push(
            hex_digit((bytes.last() % 16) as nat),
        )
    }
}

fn hex_char(n: u8) -> (c: char)
    requires
        n < 16,
    ensures
        c == hex_digit(n as nat),
{
    if n < 10 {
        (n + 48) as char
    } else {
        (n + 87) as char
    }
}

/// Bytes in lowercase hexadecimal.
pub fn hex(bytes: &[u8]) -> (s: String)
    ensures
        s@ == hex_of(bytes@),
{
    let mut v: Vec<char> = Vec::new();
    let mut i: usize = 0;
    assert(bytes@.take(0) =~= Seq::<u8>::empty());
    while i < bytes.len()
        invariant
            i <= bytes@.len(),
            v@ == hex_of(bytes@.take(i as int)),
        decreases bytes.len() - i,
    {
        assert(bytes@.take(i + 1).drop_last() =~= bytes@.take(i as int));
        let b = bytes[i];
        v.push(hex_char(b / 16));
        v.push(hex_char(b % 16));
        i = i + 1;
    }
    assert(bytes@.take(bytes@.len() as int) =~= bytes@);
    string_from_chars(v.as_slice())
}

/// Whether a file's bytes are the file a manifest names by its sha256: their digest, in
/// lowercase hexadecimal, is the text given.
pub fn matches_digest(data: &[u8], sha256_hex: &str) -> (r: bool)
    ensures
        r == (hex_of(sha256_of(data@)) == sha256_hex@),
{
    let digest = sha256(data);
    let written = hex(digest.as_slice());
    let expected = String::from_str(sha256_hex);
    written == expected
}


/// Where fetching a file by its addresses stands: the address to try next, by its place among
/// them, or the end -- the file delivered, or every address failed, with the last failure.
pub enum Attempt {
    Next(usize),
    Delivered,
    Failed(String),
}

/// The first step of fetching a file by `count` addresses: the first of them, or, with none,
/// the failure `nothing` says.
pub fn first_attempt(count: usize, nothing: &str) -> (r: Attempt)
    ensures
        count == 0 ==> (r matches Attempt::Failed(why) && why@ == nothing@),
        count > 0 ==> (r matches Attempt::Next(at) && at == 0),
{
    if count == 0 {
        Attempt::Failed(String::from_str(nothing))
    } else {
        Attempt::Next(0)
    }
}

/// What follows the attempt at the address at `at` of `count`: a delivered file ends the fetch;
/// a failure -- the file, if any, already removed, since a mirror can be stale -- goes on to
/// the next address, or after the last ends with that failure.
pub fn after_attempt(at: usize, count: usize, outcome: Result<(), String>) -> (r: Attempt)
    requires
        at < count,
    ensures
        match outcome {
            Ok(()) => r is Delivered,
            Err(why) => if at + 1 < count {
                r matches Attempt::Next(next) && next == at + 1
            } else {
                r matches Attempt::Failed(last) && last == why
            },
        },
{
    match outcome {
        Ok(()) => Attempt::Delivered,
        Err(why) => if at + 1 < count {
            Attempt::Next(at + 1)
        } else {
            Attempt::Failed(why)
        },
    }
}


proof fn lemma_first_difference(a: Seq<u64>, b: Seq<u64>, k: int)
    requires
        0 <= k < a.len(),
        k < b.len(),
        forall|i: int| 0 <= i < k ==> a[i] == b[i],
        a[k] < b[k],
    ensures
        lex_less(a, b),
        !lex_less(b, a),
    decreases k,
{
    if k > 0 {
        assert forall|i: int| 0 <= i < k - 1 implies a.drop_first()[i] == b.drop_first()[i] by {
            assert(a[i + 1] == b[i + 1]);
        }
        assert(a[0] == b[0]);
        lemma_first_difference(a.drop_first(), b.drop_first(), k - 1);
    }
}

proof fn lemma_longer_after(a: Seq<u64>, b: Seq<u64>)
    requires
        a.len() < b.len(),
        forall|i: int| 0 <= i < a.len() ==> a[i] == b[i],
    ensures
        lex_less(a, b),
        !lex_less(b, a),
    decreases a.len(),
{
    if a.len() > 0 {
        assert forall|i: int| 0 <= i < a.len() - 1 implies a.drop_first()[i] == b.drop_first()[i] by {
            assert(a[i + 1] == b[i + 1]);
        }
        assert(a[0] == b[0]);
        lemma_longer_after(a.drop_first(), b.drop_first());
    }
}

/// Numbers sort as numbers: of two lists the same up to a place, the one with the smaller
/// number there comes first; and a list that is the start of a longer one comes before it.
pub proof fn law_the_first_difference_decides(a: Seq<u64>, b: Seq<u64>, k: int)
    requires
        0 <= k <= a.len(),
        k <= b.len(),
        forall|i: int| 0 <= i < k ==> a[i] == b[i],
    ensures
        k < a.len() && k < b.len() && a[k] < b[k] ==> lex_less(a, b) && !lex_less(b, a),
        k == a.len() && k < b.len() ==> lex_less(a, b) && !lex_less(b, a),
{
    if k < a.len() && k < b.len() && a[k] < b[k] {
        lemma_first_difference(a, b, k);
    }
    if k == a.len() && k < b.len() {
        lemma_longer_after(a, b);
    }
}

/// A higher version is news, whatever its build number, and the lower one is not news after
/// it: the versions' numbers the same up to a part, and the new one's number there the larger.
pub proof fn law_a_higher_version_is_news(
    version: Seq<char>,
    build: u64,
    last: Seq<char>,
    last_build: u64,
    k: int,
)
    requires
        0 <= k < ordinal_of(last).len(),
        k < ordinal_of(version).len(),
        forall|i: int| 0 <= i < k ==> ordinal_of(last)[i] == ordinal_of(version)[i],
        ordinal_of(last)[k] < ordinal_of(version)[k],
    ensures
        news(version, build, Some((last, last_build))),
        !news(last, last_build, Some((version, build))),
{
    lemma_first_difference(ordinal_of(last), ordinal_of(version), k);
}


/// What a hex digit stands for: `0`-`9` for none to nine, `a`-`f` for ten to fifteen; None for
/// anything else, capitals included.
pub open spec fn digit_worth(c: char) -> Option<nat> {
    if '0' <= c <= '9' {
        Some((c as nat - 48) as nat)
    } else if 'a' <= c <= 'f' {
        Some((c as nat - 87) as nat)
    } else {
        None
    }
}

/// Two hex digits that stand for the byte, the high half first.
pub open spec fn written_as(high: char, low: char, byte: u8) -> bool {
    match (digit_worth(high), digit_worth(low)) {
        (Some(h), Some(l)) => 16 * h + l == byte,
        _ => false,
    }
}

/// A byte written in hex is two lowercase digits, the high half first: reading the two back
/// gives the byte, for every byte of every run of bytes.
pub proof fn law_hex_reads_back(bytes: Seq<u8>)
    ensures
        hex_of(bytes).len() == 2 * bytes.len(),
        forall|i: int|
            #![trigger bytes[i]]
            0 <= i < bytes.len() ==> written_as(hex_of(bytes)[2 * i], hex_of(bytes)[2 * i + 1], bytes[i]),
    decreases bytes.len(),
{
    if bytes.len() > 0 {
        let rest = bytes.drop_last();
        law_hex_reads_back(rest);
        let n = bytes.len() - 1;
        let b = bytes.last();
        assert forall|i: int| #![trigger bytes[i]] 0 <= i < bytes.len() implies written_as(
            hex_of(bytes)[2 * i],
            hex_of(bytes)[2 * i + 1],
            bytes[i],
        ) by {
            if i < n {
                assert(rest[i] == bytes[i]);
                assert(hex_of(bytes)[2 * i] == hex_of(rest)[2 * i]);
                assert(hex_of(bytes)[2 * i + 1] == hex_of(rest)[2 * i + 1]);
            } else {
                let (h, l) = ((b / 16) as nat, (b % 16) as nat);
                assert(hex_of(bytes)[2 * i] == hex_digit(h));
                assert(hex_of(bytes)[2 * i + 1] == hex_digit(l));
                assert(16 * h + l == b);
            }
        }
    }
}

/// A file is tried at GitHub first everywhere but in China, where the author's CDN goes first.
pub proof fn law_github_first_but_in_china(channel: Channel, file: Seq<char>)
    ensures
        begins_with(routes_of(channel, Region::Elsewhere, file)[0], "https://github.com/"@),
        begins_with(routes_of(channel, Region::China, file)[0], "https://cdn.ffoni.com/"@),
        begins_with(routes_of(channel, Region::Elsewhere, file)[1], "https://cdn.ffoni.com/"@),
        begins_with(routes_of(channel, Region::China, file)[1], "https://github.com/"@),
{
    reveal_strlit("https://github.com/");
    reveal_strlit("https://cdn.ffoni.com/");
    reveal_strlit("https://cdn.ffoni.com/github/release/");
    let tag = channel.tag_spec();
    let g = github_route(tag, file);
    let c = cdn_route(tag, file);
    assert(g.take(19) =~= "https://github.com/"@);
    assert(c.take(22) =~= "https://cdn.ffoni.com/"@);
}


/// A one-line trace says China exactly when its location, trimmed, is `CN`; a line that gives
/// no location says elsewhere.
pub proof fn law_china_is_cn(loc: Seq<char>, line: Seq<char>)
    requires
        !loc.contains('\n'),
        !line.contains('\n'),
    ensures
        region_of("loc="@ + loc) == (if trim(loc) == "CN"@ {
            Region::China
        } else {
            Region::Elsewhere
        }),
        !begins_with(line, "loc="@) ==> region_of(line) == Region::Elsewhere,
{
    reveal_strlit("loc=");
    let t = "loc="@ + loc;
    assert(!t.contains('\n')) by {
        if t.contains('\n') {
            let j = choose|j: int| 0 <= j < t.len() && t[j] == '\n';
            if j >= 4 {
                assert(loc[j - 4] == '\n');
            }
        }
    }
    crate::text::lemma_split_whole_char(t, '\n');
    crate::text::lemma_split_whole_char(line, '\n');
    assert(t.take(4) =~= "loc="@);
    assert(t.skip(4) =~= loc);
    assert(seq![t].drop_first() =~= Seq::<Seq<char>>::empty());
    assert(seq![line].drop_first() =~= Seq::<Seq<char>>::empty());
    assert(seq![line][0] == line);
    assert(location(Seq::<Seq<char>>::empty()) is None);
    assert(!begins_with(line, "loc="@) ==> location(seq![line]) is None);
}

} // verus!
