//! Box versions and the box cache: parsing versions, matching them against
//! constraints, choosing the latest match, and the names and paths under
//! which boxes are kept.

use vstd::prelude::*;
use crate::error::MigratoryError;
use crate::text::{
    chars_of, trim, trim_chars, skip_leading, skip_leading_chars, first_index, first_index_of,
    slice_chars, parse_uint, parse_uint_chars, has_prefix, split_by, split_chars, views,
    starts_with, push_char,
};

verus! {

/// Semantic version components (major, minor, patch).
#[derive(Debug, Clone, Copy, PartialEq, Eq, Structural, PartialOrd, Ord)]
pub struct Version {
    /// Major version number.
    pub major: u64,
    /// Minor version number.
    pub minor: u64,
    /// Patch version number.
    pub patch: u64,
}

/// The order of versions: by major, then minor, then patch number.
pub open spec fn version_lt(a: Version, b: Version) -> bool {
    ||| a.major < b.major
    ||| a.major == b.major && a.minor < b.minor
    ||| a.major == b.major && a.minor == b.minor && a.patch < b.patch
}

/// `a` comes no later than `b`.
pub open spec fn version_le(a: Version, b: Version) -> bool {
    version_lt(a, b) || a == b
}

/// The number that `s` spells, or 0 where it spells none that fits in a `u64`.
pub open spec fn number_or_zero(s: Seq<char>) -> u64 {
    match parse_uint(s, u64::MAX as int) {
        Some(n) => n as u64,
        None => 0,
    }
}

/// The minor and patch numbers that follow the first `.` of a version.
pub open spec fn minor_patch(rest: Seq<char>) -> (u64, u64) {
    let e = first_index(rest, seq!['.']);
    if e >= rest.len() {
        (number_or_zero(rest), 0)
    } else {
        (number_or_zero(rest.take(e)), number_or_zero(rest.skip(e + 1)))
    }
}

/// The version that a string spells: surrounding whitespace and leading `v`s
/// are dropped, and so is everything from the first `-` or `+` on; the major
/// number must parse, and a minor or patch number that does not counts as 0.
pub open spec fn version_of(s: Seq<char>) -> Option<Version> {
    let clean = skip_leading(trim(s), 'v');
    let base = clean.take(first_index(clean, seq!['-', '+']));
    let d = first_index(base, seq!['.']);
    if clean.len() == 0 {
        None
    } else {
        match parse_uint(base.take(d), u64::MAX as int) {
            None => None,
            Some(major) => if d >= base.len() {
                Some(Version { major: major as u64, minor: 0, patch: 0 })
            } else {
                let (minor, patch) = minor_patch(base.skip(d + 1));
                Some(Version { major: major as u64, minor, patch })
            },
        }
    }
}

fn number_or_zero_of(v: &Vec<char>) -> (n: u64)
    ensures
        n == number_or_zero(v@),
{
    match parse_uint_chars(v, u64::MAX) {
        Some(n) => n,
        None => 0,
    }
}

impl Version {
    /// Parses a version string (e.g. "1.2.3", "v1.2", "2").
    pub fn parse(s: &str) -> (r: Option<Version>)
        ensures
            r == version_of(s@),
    {
        let chars = chars_of(s);
        Version::parse_chars(&chars)
    }

    /// Parses the version that the characters `chars` spell.
    pub fn parse_chars(chars: &Vec<char>) -> (r: Option<Version>)
        ensures
            r == version_of(chars@),
    {
        let trimmed = trim_chars(chars);
        let clean = skip_leading_chars(&trimmed, 'v');
        let cut_stops: Vec<char> = vec!['-', '+'];
        assert(cut_stops@ =~= seq!['-', '+']);
        let cut = first_index_of(&clean, &cut_stops);
        let base = slice_chars(&clean, 0, cut);
        assert(base@ =~= clean@.take(cut as int));
        let dot: Vec<char> = vec!['.'];
        assert(dot@ =~= seq!['.']);
        let d = first_index_of(&base, &dot);
        if clean.len() == 0 {
            return None;
        }
        let major_str = slice_chars(&base, 0, d);
        assert(major_str@ =~= base@.take(d as int));
        let major = match parse_uint_chars(&major_str, u64::MAX) {
            Some(n) => n,
            None => return None,
        };
        if d >= base.len() {
            return Some(Version { major, minor: 0, patch: 0 });
        }
        let rest = slice_chars(&base, d + 1, base.len());
        assert(rest@ =~= base@.skip(d + 1));
        let e = first_index_of(&rest, &dot);
        if e >= rest.len() {
            let minor = number_or_zero_of(&rest);
            Some(Version { major, minor, patch: 0 })
        } else {
            let min_str = slice_chars(&rest, 0, e);
            assert(min_str@ =~= rest@.take(e as int));
            let pat_str = slice_chars(&rest, e + 1, rest.len());
            assert(pat_str@ =~= rest@.skip(e + 1));
            let minor = number_or_zero_of(&min_str);
            let patch = number_or_zero_of(&pat_str);
            Some(Version { major, minor, patch })
        }
    }
}

/// Whether `a` comes before `b`.
fn less_than(a: &Version, b: &Version) -> (r: bool)
    ensures
        r == version_lt(*a, *b),
{
    a.major < b.major || (a.major == b.major && a.minor < b.minor) || (a.major == b.major
        && a.minor == b.minor && a.patch < b.patch)
}

/// A version's numbers as a triple of integers.
pub open spec fn triple(v: Version) -> (int, int, int) {
    (v.major as int, v.minor as int, v.patch as int)
}

/// The order of integer triples: by the first, then second, then third.
pub open spec fn triple_lt(a: (int, int, int), b: (int, int, int)) -> bool {
    ||| a.0 < b.0
    ||| a.0 == b.0 && a.1 < b.1
    ||| a.0 == b.0 && a.1 == b.1 && a.2 < b.2
}

/// The first version that a pessimistic constraint `~> t` excludes: the
/// next major version where `t` names at most two parts, and the next minor
/// version otherwise.
pub open spec fn tilde_upper(t: Seq<char>, tv: Version) -> (int, int, int) {
    if split_by(t, seq!['.']).len() <= 2 {
        (tv.major + 1, 0, 0)
    } else {
        (tv.major as int, tv.minor + 1, 0)
    }
}

/// The version that follows the operator of length `n` in `p`.
pub open spec fn target_after(p: Seq<char>, n: int) -> Option<Version> {
    version_of(trim(p.skip(n)))
}

/// Whether `ver` meets one comma-separated piece of a constraint. An empty
/// piece is met; a piece whose version does not parse is not.
pub open spec fn piece_holds(ver: Version, piece: Seq<char>) -> bool {
    let p = trim(piece);
    if p.len() == 0 {
        true
    } else if has_prefix(p, seq!['~', '>']) {
        let t = trim(p.skip(2));
        match version_of(t) {
            None => false,
            Some(tv) => version_le(tv, ver) && triple_lt(triple(ver), tilde_upper(t, tv)),
        }
    } else if has_prefix(p, seq!['>', '=']) {
        match target_after(p, 2) {
            None => false,
            Some(tv) => version_le(tv, ver),
        }
    } else if has_prefix(p, seq!['<', '=']) {
        match target_after(p, 2) {
            None => false,
            Some(tv) => version_le(ver, tv),
        }
    } else if has_prefix(p, seq!['>']) {
        match target_after(p, 1) {
            None => false,
            Some(tv) => version_lt(tv, ver),
        }
    } else if has_prefix(p, seq!['<']) {
        match target_after(p, 1) {
            None => false,
            Some(tv) => version_lt(ver, tv),
        }
    } else if has_prefix(p, seq!['!', '=']) {
        match target_after(p, 2) {
            None => false,
            Some(tv) => ver != tv,
        }
    } else {
        let t = if has_prefix(p, seq!['=']) {
            trim(p.skip(1))
        } else {
            trim(p)
        };
        match version_of(t) {
            None => false,
            Some(tv) => ver == tv,
        }
    }
}

/// Whether the version that `version` spells meets every comma-separated
/// piece of `constraint`; a version that does not parse meets none.
pub open spec fn satisfies(version: Seq<char>, constraint: Seq<char>) -> bool {
    match version_of(version) {
        None => false,
        Some(v) => forall|i: int|
            0 <= i < split_by(constraint, seq![',']).len() ==> piece_holds(
                v,
                #[trigger] split_by(constraint, seq![','])[i],
            ),
    }
}

/// Returns the characters of `v` after its first `n`, trimmed.
fn trimmed_after(v: &Vec<char>, n: usize) -> (r: Vec<char>)
    requires
        n <= v.len(),
    ensures
        r@ == trim(v@.skip(n as int)),
{
    let rest = slice_chars(v, n, v.len());
    assert(rest@ =~= v@.skip(n as int));
    trim_chars(&rest)
}

/// Whether `ver` meets the constraint piece `piece`.
fn piece_ok(ver: &Version, piece: &Vec<char>) -> (b: bool)
    ensures
        b == piece_holds(*ver, piece@),
{
    let p = trim_chars(piece);
    if p.len() == 0 {
        return true;
    }
    let tilde: Vec<char> = vec!['~', '>'];
    assert(tilde@ =~= seq!['~', '>']);
    let ge: Vec<char> = vec!['>', '='];
    assert(ge@ =~= seq!['>', '=']);
    let le: Vec<char> = vec!['<', '='];
    assert(le@ =~= seq!['<', '=']);
    let gt: Vec<char> = vec!['>'];
    assert(gt@ =~= seq!['>']);
    let lt: Vec<char> = vec!['<'];
    assert(lt@ =~= seq!['<']);
    let ne: Vec<char> = vec!['!', '='];
    assert(ne@ =~= seq!['!', '=']);
    let eq: Vec<char> = vec!['='];
    assert(eq@ =~= seq!['=']);
    if starts_with(&p, &tilde) {
        let t = trimmed_after(&p, 2);
        match Version::parse_chars(&t) {
            None => false,
            Some(tv) => {
                let dot: Vec<char> = vec!['.'];
                assert(dot@ =~= seq!['.']);
                let parts = split_chars(&t, &dot);
                assert(views(parts@).len() == parts@.len());
                let below = if parts.len() <= 2 {
                    ver.major <= tv.major
                } else {
                    ver.major < tv.major || (ver.major == tv.major && ver.minor <= tv.minor)
                };
                !less_than(ver, &tv) && below
            },
        }
    } else if starts_with(&p, &ge) {
        match Version::parse_chars(&trimmed_after(&p, 2)) {
            None => false,
            Some(tv) => !less_than(ver, &tv),
        }
    } else if starts_with(&p, &le) {
        match Version::parse_chars(&trimmed_after(&p, 2)) {
            None => false,
            Some(tv) => !less_than(&tv, ver),
        }
    } else if starts_with(&p, &gt) {
        match Version::parse_chars(&trimmed_after(&p, 1)) {
            None => false,
            Some(tv) => less_than(&tv, ver),
        }
    } else if starts_with(&p, &lt) {
        match Version::parse_chars(&trimmed_after(&p, 1)) {
            None => false,
            Some(tv) => less_than(ver, &tv),
        }
    } else if starts_with(&p, &ne) {
        match Version::parse_chars(&trimmed_after(&p, 2)) {
            None => false,
            Some(tv) => *ver != tv,
        }
    } else {
        let t = if starts_with(&p, &eq) {
            trimmed_after(&p, 1)
        } else {
            trim_chars(&p)
        };
        match Version::parse_chars(&t) {
            None => false,
            Some(tv) => *ver == tv,
        }
    }
}

/// Evaluates if a version matches a given constraint string.
/// Supports `~>`, `>=`, `<=`, `>`, `<`, `=`, `!=`, and compound `,` separated
/// constraints.
pub fn matches_version_constraint(version_str: &str, constraint_str: &str) -> (b: bool)
    ensures
        b == satisfies(version_str@, constraint_str@),
{
    let ver = match Version::parse(version_str) {
        Some(v) => v,
        None => return false,
    };
    let cs = chars_of(constraint_str);
    let comma: Vec<char> = vec![','];
    assert(comma@ =~= seq![',']);
    let pieces = split_chars(&cs, &comma);
    let ghost all = split_by(constraint_str@, seq![',']);
    assert(views(pieces@) == all);
    let mut i: usize = 0;
    while i < pieces.len()
        invariant
            i <= pieces.len(),
            views(pieces@) == all,
            all == split_by(constraint_str@, seq![',']),
            version_of(version_str@) == Some(ver),
            forall|k: int| 0 <= k < i ==> piece_holds(ver, #[trigger] all[k]),
        decreases pieces.len() - i,
    {
        assert(all[i as int] == pieces@[i as int]@);
        if !piece_ok(&ver, &pieces[i]) {
            return false;
        }
        i = i + 1;
    }
    true
}

/// The version that a string which meets a constraint spells.
pub open spec fn version_in(s: Seq<char>) -> Version {
    version_of(s).unwrap()
}

/// The character views of a list of strings.
pub open spec fn str_views(vs: Seq<&str>) -> Seq<Seq<char>> {
    vs.map_values(|v: &str| v@)
}

/// Whether `vs[i]` is the latest version in `vs` that meets `c`: it meets
/// `c`, none that meets `c` is later, and every later position that meets
/// `c` holds an earlier version.
pub open spec fn is_latest_match(vs: Seq<Seq<char>>, c: Seq<char>, i: int) -> bool {
    &&& 0 <= i < vs.len()
    &&& satisfies(vs[i], c)
    &&& forall|j: int|
        0 <= j < vs.len() && satisfies(#[trigger] vs[j], c) ==> version_le(
            version_in(vs[j]),
            version_in(vs[i]),
        )
    &&& forall|j: int|
        i < j < vs.len() && satisfies(#[trigger] vs[j], c) ==> version_lt(
            version_in(vs[j]),
            version_in(vs[i]),
        )
}

/// Finds the highest version satisfying the given version constraint; of
/// equal versions, the one listed last.
pub fn resolve_latest_matching_version<'a>(versions: &[&'a str], constraint: &str) -> (r: Option<
    &'a str,
>)
    ensures
        r is None <==> forall|j: int|
            0 <= j < versions@.len() ==> !satisfies(#[trigger] str_views(versions@)[j], constraint@),
        r matches Some(v) ==> exists|i: int|
            is_latest_match(str_views(versions@), constraint@, i) && v@ == str_views(
                versions@,
            )[i],
{
    let ghost vs = str_views(versions@);
    let mut best: Option<(usize, Version)> = None;
    let mut i: usize = 0;
    while i < versions.len()
        invariant
            i <= versions.len(),
            vs == str_views(versions@),
            vs.len() == versions@.len(),
            match best {
                None => forall|j: int| 0 <= j < i ==> !satisfies(#[trigger] vs[j], constraint@),
                Some((b, bv)) => {
                    &&& b < i
                    &&& satisfies(vs[b as int], constraint@)
                    &&& version_in(vs[b as int]) == bv
                    &&& forall|j: int|
                        0 <= j < i && satisfies(#[trigger] vs[j], constraint@) ==> version_le(
                            version_in(vs[j]),
                            bv,
                        )
                    &&& forall|j: int|
                        b < j < i && satisfies(#[trigger] vs[j], constraint@) ==> version_lt(
                            version_in(vs[j]),
                            bv,
                        )
                },
            },
        decreases versions.len() - i,
    {
        let v: &str = versions[i];
        assert(vs[i as int] == v@);
        if matches_version_constraint(v, constraint) {
            match Version::parse(v) {
                Some(pv) => {
                    let take = match best {
                        None => true,
                        Some((_, bv)) => !less_than(&pv, &bv),
                    };
                    if take {
                        best = Some((i, pv));
                    }
                },
                None => {},
            }
        }
        i = i + 1;
    }
    match best {
        None => None,
        Some((b, _)) => {
            assert(is_latest_match(vs, constraint@, b as int));
            Some(versions[b])
        },
    }
}

/// A path with `child` appended (std `Path::join` on Unix): an absolute
/// `child` replaces the path, and a separator is put between the two unless
/// the path is empty or already ends with one.
pub open spec fn join_path(base: Seq<char>, child: Seq<char>) -> Seq<char> {
    if child.len() > 0 && child[0] == '/' {
        child
    } else if base.len() == 0 || base.last() == '/' {
        base + child
    } else {
        base + seq!['/'] + child
    }
}

/// Returns `base` with `child` appended as a path.
pub fn path_join(base: &str, child: &str) -> (r: String)
    ensures
        r@ == join_path(base@, child@),
{
    let b = chars_of(base);
    let c = chars_of(child);
    if c.len() > 0 && c[0] == '/' {
        return child.to_owned();
    }
    let mut r = base.to_owned();
    if !(b.len() == 0 || b[b.len() - 1] == '/') {
        push_char(&mut r, '/');
    }
    r.append(child);
    r
}

/// `s` with every `c` replaced by `rep` (std `str::replace` with a character).
pub open spec fn replace_char(s: Seq<char>, c: char, rep: Seq<char>) -> Seq<char>
    decreases s.len(),
{
    if s.len() == 0 {
        s
    } else {
        replace_char(s.drop_last(), c, rep) + if s.last() == c {
            rep
        } else {
            seq![s.last()]
        }
    }
}

/// The directory name under which a box is cached: every `/` of a
/// namespaced name becomes `-VAGRANTSLASH-`.
pub open spec fn safe_box_name(name: Seq<char>) -> Seq<char> {
    replace_char(name, '/', "-VAGRANTSLASH-"@)
}

/// Returns the directory name under which the box `name` is cached.
pub fn safe_name(name: &str) -> (r: String)
    ensures
        r@ == safe_box_name(name@),
{
    let v = chars_of(name);
    let mut r = String::new();
    let mut i: usize = 0;
    while i < v.len()
        invariant
            i <= v.len(),
            v@ == name@,
            r@ == replace_char(v@.take(i as int), '/', "-VAGRANTSLASH-"@),
        decreases v.len() - i,
    {
        assert(v@.take(i + 1).drop_last() =~= v@.take(i as int));
        if v[i] == '/' {
            r.append("-VAGRANTSLASH-");
        } else {
            push_char(&mut r, v[i]);
        }
        i = i + 1;
    }
    assert(v@.take(v.len() as int) =~= v@);
    r
}

/// Box manager: the global cache of boxes.
pub struct BoxManager {
    /// The global directory where boxes are cached (e.g. `~/.vagrant.d/boxes`).
    pub global_boxes_dir: String,
}

impl BoxManager {
    /// Creates a new `BoxManager` for the global vagrant directory
    /// `global_dir` (e.g. `~/.vagrant.d`): boxes live under its `boxes`.
    pub fn new(global_dir: &str) -> (m: BoxManager)
        ensures
            m.global_boxes_dir@ == join_path(global_dir@, "boxes"@),
    {
        BoxManager { global_boxes_dir: path_join(global_dir, "boxes") }
    }

    /// The directory that holds every cached version of the box `name`.
    pub fn box_dir(&self, name: &str) -> (r: String)
        ensures
            r@ == join_path(self.global_boxes_dir@, safe_box_name(name@)),
    {
        let safe = safe_name(name);
        path_join(self.global_boxes_dir.as_str(), safe.as_str())
    }

    /// The directory into which `add_box` unpacks the box `name` at
    /// `version` for `provider`.
    pub fn install_dir(&self, name: &str, version: &str, provider: &str) -> (r: String)
        ensures
            r@ == join_path(
                join_path(join_path(self.global_boxes_dir@, safe_box_name(name@)), version@),
                provider@,
            ),
    {
        let d = self.box_dir(name);
        let v = path_join(d.as_str(), version);
        path_join(v.as_str(), provider)
    }
}

/// The lowercase hexadecimal digit of `d` (below 16).
pub open spec fn hex_digit(d: int) -> char {
    if d < 10 {
        ('0' as int + d) as char
    } else {
        ('a' as int + d - 10) as char
    }
}

/// Two lowercase hexadecimal digits for each byte (`{:02x}` per byte).
pub open spec fn hex_of(bytes: Seq<u8>) -> Seq<char>
    decreases bytes.len(),
{
    if bytes.len() == 0 {
        Seq::empty()
    } else {
        hex_of(bytes.drop_last()) + seq![
            hex_digit(bytes.last() as int / 16),
            hex_digit(bytes.last() as int % 16),
        ]
    }
}

fn hex_char(d: u8) -> (c: char)
    requires
        d < 16,
    ensures
        c == hex_digit(d as int),
{
    if d < 10 {
        (('0' as u8) + d) as char
    } else {
        (('a' as u8) + d - 10) as char
    }
}

/// Returns the lowercase hexadecimal spelling of `bytes`.
pub fn to_hex(bytes: &[u8]) -> (s: String)
    ensures
        s@ == hex_of(bytes@),
        s@.len() == 2 * bytes@.len(),
{
    let mut s = String::new();
    let mut i: usize = 0;
    while i < bytes.len()
        invariant
            i <= bytes.len(),
            s@ == hex_of(bytes@.take(i as int)),
            s@.len() == 2 * i,
        decreases bytes.len() - i,
    {
        let b = bytes[i];
        assert(bytes@.take(i + 1).drop_last() =~= bytes@.take(i as int));
        push_char(&mut s, hex_char(b / 16));
        push_char(&mut s, hex_char(b % 16));
        i = i + 1;
    }
    assert(bytes@.take(bytes.len() as int) =~= bytes@);
    s
}

/// The SHA-256 digest of `data`.
pub uninterp spec fn sha256_digest(data: Seq<u8>) -> Seq<u8>;

/// The SHA-512 digest of `data`.
pub uninterp spec fn sha512_digest(data: Seq<u8>) -> Seq<u8>;

/// The SHA-1 digest of `data`.
pub uninterp spec fn sha1_digest(data: Seq<u8>) -> Seq<u8>;

/// The MD5 digest of `data`.
pub uninterp spec fn md5_digest(data: Seq<u8>) -> Seq<u8>;

/// sha2's `Sha256::digest`: the 32-byte SHA-256 digest of `data`.
#[verifier::external_body]
fn sha256(data: &[u8]) -> (d: Vec<u8>)
    ensures
        d@ == sha256_digest(data@),
        d@.len() == 32,
{
    <sha2::Sha256 as sha2::Digest>::digest(data).to_vec()
}

/// sha2's `Sha512::digest`: the 64-byte SHA-512 digest of `data`.
#[verifier::external_body]
fn sha512(data: &[u8]) -> (d: Vec<u8>)
    ensures
        d@ == sha512_digest(data@),
        d@.len() == 64,
{
    <sha2::Sha512 as sha2::Digest>::digest(data).to_vec()
}

/// sha1's `Sha1::digest`: the 20-byte SHA-1 digest of `data`.
#[verifier::external_body]
fn sha1(data: &[u8]) -> (d: Vec<u8>)
    ensures
        d@ == sha1_digest(data@),
        d@.len() == 20,
{
    <sha1::Sha1 as sha1::Digest>::digest(data).to_vec()
}

/// md-5's `Md5::digest`: the 16-byte MD5 digest of `data`.
#[verifier::external_body]
fn md5(data: &[u8]) -> (d: Vec<u8>)
    ensures
        d@ == md5_digest(data@),
        d@.len() == 16,
{
    <md5::Md5 as md5::Digest>::digest(data).to_vec()
}

/// The hexadecimal digest of `data` under the named checksum type
/// (`sha256`, `sha512`, `sha1` or `md5`); `None` for any other name.
pub open spec fn checksum_of(checksum_type: Seq<char>, data: Seq<u8>) -> Option<Seq<char>> {
    if checksum_type == "sha256"@ {
        Some(hex_of(sha256_digest(data)))
    } else if checksum_type == "sha512"@ {
        Some(hex_of(sha512_digest(data)))
    } else if checksum_type == "sha1"@ {
        Some(hex_of(sha1_digest(data)))
    } else if checksum_type == "md5"@ {
        Some(hex_of(md5_digest(data)))
    } else {
        None
    }
}

/// Returns the hexadecimal digest of `data` under the named checksum type,
/// or `None` where the type is not one that is known.
pub fn compute_checksum(checksum_type: &str, data: &[u8]) -> (r: Option<String>)
    ensures
        r matches Some(h) ==> checksum_of(checksum_type@, data@) == Some(h@),
        r is None ==> checksum_of(checksum_type@, data@) is None,
{
    if crate::text::str_eq(checksum_type, "sha256") {
        Some(to_hex(&sha256(data)))
    } else if crate::text::str_eq(checksum_type, "sha512") {
        Some(to_hex(&sha512(data)))
    } else if crate::text::str_eq(checksum_type, "sha1") {
        Some(to_hex(&sha1(data)))
    } else if crate::text::str_eq(checksum_type, "md5") {
        Some(to_hex(&md5(data)))
    } else {
        None
    }
}

/// The message of a checksum mismatch.
pub open spec fn mismatch_message(expected: Seq<char>, actual: Seq<char>) -> Seq<char> {
    "Checksum mismatch: expected "@ + expected + ", got "@ + actual
}

/// Compares a computed digest with the expected one: a mismatch is an error
/// that names both.
pub fn checksum_verdict(actual: &str, expected: &str) -> (r: Result<(), MigratoryError>)
    ensures
        r is Ok <==> actual@ == expected@,
        r matches Err(e) ==> e matches MigratoryError::Generic(m) && m@ == mismatch_message(
            expected@,
            actual@,
        ),
{
    if crate::text::str_eq(actual, expected) {
        Ok(())
    } else {
        let mut m = "Checksum mismatch: expected ".to_owned();
        m.append(expected);
        m.append(", got ");
        m.append(actual);
        Err(MigratoryError::Generic(m))
    }
}

/// Verifies that downloaded or copied contents match an expected checksum.
/// Nothing is checked unless both the type and the expected value are
/// given, nor where the type is unknown.
pub fn verify_checksum(
    data: &[u8],
    checksum_type: Option<&str>,
    expected_checksum: Option<&str>,
) -> (r: Result<(), MigratoryError>)
    ensures
        r is Err <==> (checksum_type matches Some(t) && expected_checksum matches Some(x)
            && checksum_of(t@, data@) matches Some(h) && h != x@),
        r matches Err(e) ==> e matches MigratoryError::Generic(m) && m@ == mismatch_message(
            expected_checksum->0@,
            checksum_of(checksum_type->0@, data@)->0,
        ),
{
    match (checksum_type, expected_checksum) {
        (Some(ctype), Some(expected)) => {
            match compute_checksum(ctype, data) {
                Some(actual) => checksum_verdict(actual.as_str(), expected),
                None => Ok(()),
            }
        },
        _ => Ok(()),
    }
}

/// The character views of a list of strings.
pub open spec fn string_views(v: Seq<String>) -> Seq<Seq<char>> {
    v.map_values(|s: String| s@)
}

/// The latest version that the names spell, starting from 0.0.0; names that
/// spell no version are passed over.
pub open spec fn latest_local(names: Seq<Seq<char>>) -> Version
    decreases names.len(),
{
    if names.len() == 0 {
        Version { major: 0, minor: 0, patch: 0 }
    } else {
        let prev = latest_local(names.drop_last());
        match version_of(names.last()) {
            Some(v) => if version_lt(prev, v) {
                v
            } else {
                prev
            },
            None => prev,
        }
    }
}

/// Returns the latest version that the names of a box's version
/// directories spell (0.0.0 where none does).
pub fn latest_local_version(names: &Vec<String>) -> (v: Version)
    ensures
        v == latest_local(string_views(names@)),
{
    let ghost all = string_views(names@);
    let mut best = Version { major: 0, minor: 0, patch: 0 };
    let mut i: usize = 0;
    while i < names.len()
        invariant
            i <= names.len(),
            all == string_views(names@),
            best == latest_local(all.take(i as int)),
        decreases names.len() - i,
    {
        assert(all.take(i + 1).drop_last() =~= all.take(i as int));
        assert(all.take(i + 1).last() == names@[i as int]@);
        match Version::parse(names[i].as_str()) {
            Some(v) => {
                if less_than(&best, &v) {
                    best = v;
                }
            },
            None => {},
        }
        i = i + 1;
    }
    assert(all.take(names.len() as int) =~= all);
    best
}

/// Whether one of the remote version strings spells a version later than
/// `latest`.
pub open spec fn newer_exists(latest: Version, remote: Seq<Seq<char>>) -> bool {
    exists|i: int|
        0 <= i < remote.len() && (version_of(#[trigger] remote[i]) matches Some(v) && version_lt(
            latest,
            v,
        ))
}

/// Returns whether one of the remote version strings spells a version later
/// than `latest`.
pub fn has_newer_version(latest: &Version, remote: &Vec<String>) -> (b: bool)
    ensures
        b == newer_exists(*latest, string_views(remote@)),
{
    let ghost all = string_views(remote@);
    let mut i: usize = 0;
    while i < remote.len()
        invariant
            i <= remote.len(),
            all == string_views(remote@),
            forall|k: int|
                0 <= k < i ==> !(version_of(#[trigger] all[k]) matches Some(v) && version_lt(
                    *latest,
                    v,
                )),
        decreases remote.len() - i,
    {
        assert(all[i as int] == remote@[i as int]@);
        match Version::parse(remote[i].as_str()) {
            Some(v) => {
                if less_than(latest, &v) {
                    return true;
                }
            },
            None => {},
        }
        i = i + 1;
    }
    false
}

/// The message of the error for an empty box name.
pub open spec fn empty_name_message() -> Seq<char> {
    "Name cannot be empty"@
}

impl BoxManager {
    /// Checks whether the local box `name` is outdated: `local_versions`
    /// holds the entry names of its cache directory (`None` where it has
    /// none), `remote_versions` the versions that the cloud lists (`None`
    /// where they could not be had).
    pub fn outdated(
        &self,
        name: &str,
        local_versions: Option<&Vec<String>>,
        remote_versions: Option<&Vec<String>>,
    ) -> (r: Result<bool, MigratoryError>)
        ensures
            r is Err <==> name@.len() == 0,
            r matches Err(e) ==> e matches MigratoryError::Generic(m) && m@ == empty_name_message(),
            r matches Ok(b) ==> b == (local_versions matches Some(l) && remote_versions matches Some(
                rv,
            ) && newer_exists(latest_local(string_views(l@)), string_views(rv@))),
    {
        if name.is_empty() {
            return Err(MigratoryError::Generic("Name cannot be empty".to_owned()));
        }
        match (local_versions, remote_versions) {
            (Some(l), Some(rv)) => {
                let latest = latest_local_version(l);
                Ok(has_newer_version(&latest, rv))
            },
            _ => Ok(false),
        }
    }
}

/// The order of strings (std `String` ordering: by character code, and a
/// proper prefix first).
pub open spec fn str_lt(a: Seq<char>, b: Seq<char>) -> bool
    decreases a.len(),
{
    if b.len() == 0 {
        false
    } else if a.len() == 0 {
        true
    } else if a[0] != b[0] {
        a[0] < b[0]
    } else {
        str_lt(a.drop_first(), b.drop_first())
    }
}

/// Returns whether `a` comes before `b` in the order of strings.
pub fn str_less(a: &str, b: &str) -> (r: bool)
    ensures
        r == str_lt(a@, b@),
{
    let x = chars_of(a);
    let y = chars_of(b);
    let mut i: usize = 0;
    assert(x@.skip(0) =~= x@);
    assert(y@.skip(0) =~= y@);
    while i < x.len() && i < y.len() && x[i] == y[i]
        invariant
            i <= x.len(),
            i <= y.len(),
            str_lt(x@, y@) == str_lt(x@.skip(i as int), y@.skip(i as int)),
        decreases x.len() - i,
    {
        assert(x@.skip(i as int).drop_first() =~= x@.skip(i + 1));
        assert(y@.skip(i as int).drop_first() =~= y@.skip(i + 1));
        i = i + 1;
    }
    if i >= y.len() {
        false
    } else if i >= x.len() {
        true
    } else {
        x[i] < y[i]
    }
}

/// The greatest of the names in the order of strings, starting from the
/// empty string.
pub open spec fn newest_name(names: Seq<Seq<char>>) -> Seq<char>
    decreases names.len(),
{
    if names.len() == 0 {
        Seq::empty()
    } else {
        let prev = newest_name(names.drop_last());
        if str_lt(prev, names.last()) {
            names.last()
        } else {
            prev
        }
    }
}

/// Returns the greatest of the names in the order of strings (the empty
/// string where there is none).
pub fn newest_entry(names: &Vec<String>) -> (r: String)
    ensures
        r@ == newest_name(string_views(names@)),
{
    let ghost all = string_views(names@);
    let mut best = String::new();
    let mut i: usize = 0;
    while i < names.len()
        invariant
            i <= names.len(),
            all == string_views(names@),
            best@ == newest_name(all.take(i as int)),
        decreases names.len() - i,
    {
        assert(all.take(i + 1).drop_last() =~= all.take(i as int));
        assert(all.take(i + 1).last() == names@[i as int]@);
        if str_less(best.as_str(), names[i].as_str()) {
            best = names[i].clone();
        }
        i = i + 1;
    }
    assert(all.take(names.len() as int) =~= all);
    best
}

/// The message of the error for a box that is not cached.
pub open spec fn missing_box_message(name: Seq<char>) -> Seq<char> {
    "Box '"@ + name + "'"@
}

/// The message of the error for a box without versions.
pub open spec fn no_versions_message(name: Seq<char>) -> Seq<char> {
    "No versions found for box '"@ + name + "'"@
}

/// The message of the error for a provider that a box version lacks.
pub open spec fn missing_provider_message(
    provider: Seq<char>,
    name: Seq<char>,
    version: Seq<char>,
) -> Seq<char> {
    "Provider '"@ + provider + "' not found for box '"@ + name + "' version '"@ + version + "'"@
}

/// The file name of a repackaged box.
pub open spec fn package_name_of(name: Seq<char>, version: Seq<char>, provider: Seq<char>) -> Seq<
    char,
> {
    "package-"@ + safe_box_name(name) + "-"@ + version + "-"@ + provider + ".box"@
}

impl BoxManager {
    /// Chooses the version of the box `name` to repackage: the greatest
    /// entry name of its cache directory (`entries`, `None` where it has no
    /// directory).
    pub fn repackage_version(&self, name: &str, entries: Option<&Vec<String>>) -> (r: Result<
        String,
        MigratoryError,
    >)
        ensures
            name@.len() == 0 ==> (r matches Err(e) && e matches MigratoryError::Generic(m) && m@
                == empty_name_message()),
            name@.len() > 0 && entries is None ==> (r matches Err(e)
                && e matches MigratoryError::NotFound(m) && m@ == missing_box_message(name@)),
            name@.len() > 0 ==> (entries matches Some(es) ==> {
                let v = newest_name(string_views(es@));
                &&& v.len() == 0 ==> (r matches Err(e) && e matches MigratoryError::NotFound(m)
                    && m@ == no_versions_message(name@))
                &&& v.len() > 0 ==> (r matches Ok(s) && s@ == v)
            }),
    {
        if name.is_empty() {
            return Err(MigratoryError::Generic("Name cannot be empty".to_owned()));
        }
        match entries {
            None => {
                let mut m = "Box '".to_owned();
                m.append(name);
                m.append("'");
                Err(MigratoryError::NotFound(m))
            },
            Some(es) => {
                let v = newest_entry(es);
                if v.as_str().is_empty() {
                    let mut m = "No versions found for box '".to_owned();
                    m.append(name);
                    m.append("'");
                    Err(MigratoryError::NotFound(m))
                } else {
                    Ok(v)
                }
            },
        }
    }
}

/// The error for a provider that the chosen box version lacks.
pub fn missing_provider_error(provider: &str, name: &str, version: &str) -> (e: MigratoryError)
    ensures
        e matches MigratoryError::NotFound(m) && m@ == missing_provider_message(
            provider@,
            name@,
            version@,
        ),
{
    let mut m = "Provider '".to_owned();
    m.append(provider);
    m.append("' not found for box '");
    m.append(name);
    m.append("' version '");
    m.append(version);
    m.append("'");
    MigratoryError::NotFound(m)
}

/// Returns the file name of the repackaged box `name` at `version` for
/// `provider`.
pub fn package_name(name: &str, version: &str, provider: &str) -> (r: String)
    ensures
        r@ == package_name_of(name@, version@, provider@),
{
    let safe = safe_name(name);
    let mut r = "package-".to_owned();
    r.append(safe.as_str());
    r.append("-");
    r.append(version);
    r.append("-");
    r.append(provider);
    r.append(".box");
    r
}

/// Where a box is fetched from.
#[derive(Debug, Clone, PartialEq, Eq)]
pub enum BoxSource {
    /// Downloaded over HTTP(S) from the URL itself.
    Http,
    /// Copied from a local path.
    Local(String),
}

/// `s` without every leading repetition of the non-empty `p` (std
/// `str::trim_start_matches` with a string).
pub open spec fn strip_repeated(s: Seq<char>, p: Seq<char>) -> Seq<char>
    decreases s.len(),
{
    if p.len() > 0 && has_prefix(s, p) {
        strip_repeated(s.skip(p.len() as int), p)
    } else {
        s
    }
}

/// Decides where the box at `url` comes from: `http://` and `https://` URLs
/// are downloaded, anything else is a local path, `file://` prefixes removed.
pub fn box_source(url: &str) -> (r: BoxSource)
    ensures
        (has_prefix(url@, "http://"@) || has_prefix(url@, "https://"@)) ==> r is Http,
        !(has_prefix(url@, "http://"@) || has_prefix(url@, "https://"@)) ==> (r matches BoxSource::Local(
            p,
        ) && p@ == strip_repeated(url@, "file://"@)),
{
    let u = chars_of(url);
    let http = chars_of("http://");
    let https = chars_of("https://");
    if starts_with(&u, &http) || starts_with(&u, &https) {
        return BoxSource::Http;
    }
    let file = chars_of("file://");
    let mut rest = u;
    assert(rest@ == url@);
    while file.len() > 0 && starts_with(&rest, &file)
        invariant
            file@ == "file://"@,
            strip_repeated(url@, file@) == strip_repeated(rest@, file@),
        decreases rest.len(),
    {
        let next = slice_chars(&rest, file.len(), rest.len());
        assert(next@ =~= rest@.skip(file@.len() as int));
        rest = next;
    }
    BoxSource::Local(crate::text::string_of(&rest))
}

/// The message of the error for a local box file that does not exist.
pub open spec fn missing_box_file_message(path: Seq<char>) -> Seq<char> {
    "Box file not found at: "@ + path
}

/// The error for a local box file that does not exist.
pub fn missing_box_file_error(path: &str) -> (e: MigratoryError)
    ensures
        e matches MigratoryError::NotFound(m) && m@ == missing_box_file_message(path@),
{
    let mut m = "Box file not found at: ".to_owned();
    m.append(path);
    MigratoryError::NotFound(m)
}

/// A provider under which the cloud offers a box version.
#[derive(Debug, Clone, PartialEq, Eq)]
pub struct RemoteProvider {
    /// The provider name.
    pub name: String,
    /// Where the box file is downloaded from.
    pub url: String,
    /// The expected checksum, if the cloud gives one.
    pub checksum: Option<String>,
    /// The checksum type, if the cloud gives one.
    pub checksum_type: Option<String>,
}

/// A box version that the cloud lists.
#[derive(Debug, Clone, PartialEq, Eq)]
pub struct RemoteVersion {
    /// The version string.
    pub version: String,
    /// The providers it is offered for.
    pub providers: Vec<RemoteProvider>,
}

/// Whether `versions[i]` is the update target: its version parses, none
/// that parses is later, and none before it that parses is as late.
pub open spec fn is_update_target(versions: Seq<RemoteVersion>, i: int) -> bool {
    &&& 0 <= i < versions.len()
    &&& version_of(versions[i].version@) is Some
    &&& forall|j: int|
        0 <= j < versions.len() && version_of(#[trigger] versions[j].version@) is Some
            ==> version_le(version_in(versions[j].version@), version_in(versions[i].version@))
    &&& forall|j: int|
        0 <= j < i && version_of(#[trigger] versions[j].version@) is Some ==> version_lt(
            version_in(versions[j].version@),
            version_in(versions[i].version@),
        )
}

/// Whether a provider passes the optional provider filter.
pub open spec fn provider_passes(p: RemoteProvider, filter: Option<Seq<char>>) -> bool {
    match filter {
        None => true,
        Some(f) => p.name@ == f,
    }
}

/// Whether `k` is the first provider of `providers` that passes `filter`.
pub open spec fn is_first_passing(providers: Seq<RemoteProvider>, filter: Option<Seq<char>>, k: int) -> bool {
    &&& 0 <= k < providers.len()
    &&& provider_passes(providers[k], filter)
    &&& forall|j: int| 0 <= j < k ==> !provider_passes(#[trigger] providers[j], filter)
}

/// Chooses what `update` installs: the latest version that the cloud lists
/// (the first of equal ones) and its first provider that passes the filter;
/// `None` where there is no such pair.
pub fn select_update(versions: &Vec<RemoteVersion>, provider: Option<&str>) -> (r: Option<(usize, usize)>)
    ensures
        r matches Some((i, k)) ==> is_update_target(versions@, i as int) && is_first_passing(
            versions@[i as int].providers@,
            match provider { Some(f) => Some(f@), None => None },
            k as int,
        ),
        r is None ==> forall|i: int| #[trigger] is_update_target(versions@, i) ==> forall|k: int|
            0 <= k < versions@[i].providers@.len() ==> !provider_passes(
                #[trigger] versions@[i].providers@[k],
                match provider { Some(f) => Some(f@), None => None },
            ),
{
    let ghost vs = versions@;
    let mut best: Option<(usize, Version)> = None;
    let mut i: usize = 0;
    while i < versions.len()
        invariant
            i <= versions.len(),
            vs == versions@,
            match best {
                None => forall|j: int| 0 <= j < i ==> version_of(#[trigger] vs[j].version@) is None,
                Some((b, bv)) => {
                    &&& b < i
                    &&& version_of(vs[b as int].version@) == Some(bv)
                    &&& forall|j: int|
                        0 <= j < i && version_of(#[trigger] vs[j].version@) is Some ==> version_le(
                            version_in(vs[j].version@),
                            bv,
                        )
                    &&& forall|j: int|
                        0 <= j < b && version_of(#[trigger] vs[j].version@) is Some ==> version_lt(
                            version_in(vs[j].version@),
                            bv,
                        )
                },
            },
        decreases versions.len() - i,
    {
        match Version::parse(versions[i].version.as_str()) {
            Some(pv) => {
                let take = match best {
                    None => true,
                    Some((_, bv)) => less_than(&bv, &pv),
                };
                if take {
                    best = Some((i, pv));
                }
            },
            None => {},
        }
        i = i + 1;
    }
    let ghost filter = match provider { Some(f) => Some(f@), None => None::<Seq<char>> };
    match best {
        None => None,
        Some((b, _)) => {
            assert(is_update_target(vs, b as int));
            let provs = &versions[b].providers;
            let mut k: usize = 0;
            while k < provs.len()
                invariant
                    k <= provs.len(),
                    vs == versions@,
                    b < vs.len(),
                    is_update_target(vs, b as int),
                    provs@ == vs[b as int].providers@,
                    filter == match provider { Some(f) => Some(f@), None => None::<Seq<char>> },
                    forall|j: int| 0 <= j < k ==> !provider_passes(#[trigger] provs@[j], filter),
                decreases provs.len() - k,
            {
                let passes = match provider {
                    None => true,
                    Some(f) => crate::text::str_eq(provs[k].name.as_str(), f),
                };
                if passes {
                    return Some((b, k));
                }
                k = k + 1;
            }
            proof {
                assert forall|i2: int| #[trigger] is_update_target(vs, i2) implies i2 == b by {
                    if i2 < b {
                        assert(version_lt(version_in(vs[i2].version@), version_in(vs[b as int].version@)));
                    } else if i2 > b {
                        assert(version_lt(version_in(vs[b as int].version@), version_in(vs[i2].version@)));
                    }
                }
            }
            None
        },
    }
}

/// The order of strings is irreflexive.
pub proof fn lemma_str_lt_irreflexive(a: Seq<char>)
    ensures
        !str_lt(a, a),
    decreases a.len(),
{
    if a.len() > 0 {
        lemma_str_lt_irreflexive(a.drop_first());
    }
}

/// The order of strings is transitive.
pub proof fn lemma_str_lt_transitive(a: Seq<char>, b: Seq<char>, c: Seq<char>)
    requires
        str_lt(a, b),
        str_lt(b, c),
    ensures
        str_lt(a, c),
    decreases a.len(),
{
    if a.len() > 0 && b.len() > 0 && c.len() > 0 && a[0] == b[0] && b[0] == c[0] {
        lemma_str_lt_transitive(a.drop_first(), b.drop_first(), c.drop_first());
    }
}

/// Two different strings are ordered one way or the other.
pub proof fn lemma_str_lt_total(a: Seq<char>, b: Seq<char>)
    requires
        a != b,
    ensures
        str_lt(a, b) || str_lt(b, a),
    decreases a.len(),
{
    if a.len() > 0 && b.len() > 0 && a[0] == b[0] {
        if a.drop_first() == b.drop_first() {
            assert(a =~= seq![a[0]] + a.drop_first());
            assert(b =~= seq![b[0]] + b.drop_first());
        }
        lemma_str_lt_total(a.drop_first(), b.drop_first());
    } else if a.len() == 0 && b.len() == 0 {
        assert(a =~= b);
    }
}

/// The order of version directory names that pruning keeps the last of:
/// names that do not spell a version come first (in the order of strings),
/// then names by the version they spell, and names that spell the same
/// version in the order of strings.
pub open spec fn version_name_lt(a: Seq<char>, b: Seq<char>) -> bool {
    match (version_of(a), version_of(b)) {
        (None, None) => str_lt(a, b),
        (None, Some(_)) => true,
        (Some(_), None) => false,
        (Some(x), Some(y)) => version_lt(x, y) || (x == y && str_lt(a, b)),
    }
}

/// No name comes before itself.
pub proof fn lemma_version_name_lt_irreflexive(a: Seq<char>)
    ensures
        !version_name_lt(a, a),
{
    lemma_str_lt_irreflexive(a);
}

/// The order of version names is transitive.
pub proof fn lemma_version_name_lt_transitive(a: Seq<char>, b: Seq<char>, c: Seq<char>)
    requires
        version_name_lt(a, b),
        version_name_lt(b, c),
    ensures
        version_name_lt(a, c),
{
    if str_lt(a, b) && str_lt(b, c) {
        lemma_str_lt_transitive(a, b, c);
    }
}

/// Whether `a` comes before `b` in the order of version names.
pub fn version_name_less(a: &str, b: &str) -> (r: bool)
    ensures
        r == version_name_lt(a@, b@),
{
    match (Version::parse(a), Version::parse(b)) {
        (None, None) => str_less(a, b),
        (None, Some(_)) => true,
        (Some(_), None) => false,
        (Some(x), Some(y)) => less_than(&x, &y) || (x.major == y.major && x.minor == y.minor
            && x.patch == y.patch && str_less(a, b)),
    }
}

/// Whether version directory names come in the order of
/// `version_name_lt` (equal ones may be next to each other).
pub open spec fn versions_sorted(v: Seq<Seq<char>>) -> bool {
    forall|i: int, j: int| 0 <= i < j < v.len() ==> !version_name_lt(#[trigger] v[j], #[trigger] v[i])
}

/// Returns version directory names in the order of `version_name_lt`
/// (equal names keep their order).
pub fn sort_versions(names: &Vec<String>) -> (r: Vec<String>)
    ensures
        versions_sorted(string_views(r@)),
        string_views(r@).to_multiset() == string_views(names@).to_multiset(),
        r@.len() == names@.len(),
{
    let ghost all = string_views(names@);
    let mut r: Vec<String> = Vec::new();
    let mut i: usize = 0;
    assert(all.take(0) =~= Seq::<Seq<char>>::empty());
    assert(string_views(r@) =~= Seq::<Seq<char>>::empty());
    while i < names.len()
        invariant
            i <= names.len(),
            all == string_views(names@),
            versions_sorted(string_views(r@)),
            string_views(r@).to_multiset() == all.take(i as int).to_multiset(),
            r@.len() == i,
        decreases names.len() - i,
    {
        let x = &names[i];
        let ghost rv = string_views(r@);
        let mut k: usize = 0;
        while k < r.len() && !version_name_less(x.as_str(), r[k].as_str())
            invariant
                k <= r.len(),
                rv == string_views(r@),
                forall|j: int| 0 <= j < k ==> !version_name_lt(x@, #[trigger] rv[j]),
            decreases r.len() - k,
        {
            k = k + 1;
        }
        let ghost xv = x@;
        r.insert(k, x.clone());
        proof {
            let nv = string_views(r@);
            assert(nv =~= rv.insert(k as int, xv));
            assert(all.take(i + 1) =~= all.take(i as int).push(xv));
            vstd::seq_lib::to_multiset_build(all.take(i as int), xv);
            vstd::seq_lib::to_multiset_insert(rv, k as int, xv);
            assert forall|a: int, b: int| 0 <= a < b < nv.len() implies !version_name_lt(
                #[trigger] nv[b],
                #[trigger] nv[a],
            ) by {
                if a < k && b == k {
                    // rv[a] <= x
                    assert(nv[a] == rv[a] && nv[b] == xv);
                    if version_name_lt(xv, rv[a]) {
                        assert(!version_name_lt(xv, rv[a]));
                    }
                } else if a == k && b > k {
                    // x < rv[k] <= rv[b - 1]
                    assert(nv[a] == xv && nv[b] == rv[b - 1]);
                    assert(version_name_lt(xv, rv[k as int]));
                    if version_name_lt(rv[b - 1], xv) {
                        if b - 1 > k {
                            assert(!version_name_lt(rv[b - 1], rv[k as int]));
                            lemma_version_name_lt_transitive(rv[b - 1], xv, rv[k as int]);
                        } else {
                            lemma_version_name_lt_transitive(xv, rv[k as int], xv);
                            lemma_version_name_lt_irreflexive(xv);
                        }
                    }
                } else if a < k && b > k {
                    assert(nv[a] == rv[a] && nv[b] == rv[b - 1]);
                } else if b < k {
                    assert(nv[a] == rv[a] && nv[b] == rv[b]);
                } else {
                    assert(nv[a] == rv[a - 1] && nv[b] == rv[b - 1]);
                }
            }
        }
        i = i + 1;
    }
    assert(all.take(names.len() as int) =~= all);
    r
}

/// What pruning one box does: keep its latest version (in the order of
/// `version_name_lt`) and remove the others, oldest first.
pub struct PrunePlan {
    /// The version that stays.
    pub keep: String,
    /// The versions to remove, oldest first.
    pub remove: Vec<String>,
}

/// Plans the pruning of one box from the names of its version directories:
/// nothing where it has at most one; otherwise the latest stays and every
/// other name is removed, oldest first.
pub fn prune_versions(versions: &Vec<String>) -> (r: Option<PrunePlan>)
    ensures
        versions@.len() <= 1 ==> r is None,
        versions@.len() > 1 ==> (r matches Some(p) && {
            let all = string_views(p.remove@).push(p.keep@);
            &&& versions_sorted(all)
            &&& all.to_multiset() == string_views(versions@).to_multiset()
            &&& forall|i: int|
                0 <= i < versions@.len() ==> !version_name_lt(p.keep@, #[trigger] versions@[i]@)
        }),
{
    if versions.len() <= 1 {
        return None;
    }
    let mut sorted = sort_versions(versions);
    let ghost sv = string_views(sorted@);
    let keep = sorted.pop().unwrap();
    proof {
        let all = string_views(sorted@).push(keep@);
        assert(all =~= sv);
        let vs = string_views(versions@);
        assert forall|i: int| 0 <= i < versions@.len() implies !version_name_lt(
            keep@,
            #[trigger] versions@[i]@,
        ) by {
            let x = vs[i];
            assert(vs.contains(x));
            vstd::seq_lib::to_multiset_contains(vs, x);
            vstd::seq_lib::to_multiset_contains(all, x);
            let j = choose|j: int| 0 <= j < all.len() && all[j] == x;
            if j < all.len() - 1 {
                assert(!version_name_lt(all[all.len() - 1], all[j]));
            } else {
                lemma_version_name_lt_irreflexive(x);
            }
        }
    }
    Some(PrunePlan { keep, remove: sorted })
}

/// Whether pruning touches a provider: where no filter is given, or it
/// names the provider.
pub fn provider_selected(filter: Option<&str>, provider: &str) -> (b: bool)
    ensures
        b == match filter {
            None => true,
            Some(f) => f@ == provider@,
        },
{
    match filter {
        None => true,
        Some(f) => crate::text::str_eq(f, provider),
    }
}

/// The line that names the version pruning keeps.
pub open spec fn keeping_line_of(version: Seq<char>, box_name: Seq<char>) -> Seq<char> {
    "Keeping latest version "@ + version + " for box "@ + box_name
}

/// Returns the line that names the version pruning keeps.
pub fn keeping_line(version: &str, box_name: &str) -> (r: String)
    ensures
        r@ == keeping_line_of(version@, box_name@),
{
    let mut r = "Keeping latest version ".to_owned();
    r.append(version);
    r.append(" for box ");
    r.append(box_name);
    r
}

/// The line for a provider directory that pruning removes, or in a dry run
/// would remove.
pub open spec fn pruning_line_of(
    dry_run: bool,
    box_name: Seq<char>,
    version: Seq<char>,
    provider: Seq<char>,
) -> Seq<char> {
    (if dry_run {
        "Would remove: "@
    } else {
        "Removing: "@
    }) + box_name + " (v"@ + version + ") provider: "@ + provider
}

/// Returns the line for a provider directory that pruning removes (or in a
/// dry run would remove); a dry run removes nothing.
pub fn pruning_line(dry_run: bool, box_name: &str, version: &str, provider: &str) -> (r: String)
    ensures
        r@ == pruning_line_of(dry_run, box_name@, version@, provider@),
{
    let mut r = if dry_run {
        "Would remove: ".to_owned()
    } else {
        "Removing: ".to_owned()
    };
    r.append(box_name);
    r.append(" (v");
    r.append(version);
    r.append(") provider: ");
    r.append(provider);
    r
}

/// One step of pruning a box.
pub enum PruneStep {
    /// Report this line.
    Report(String),
    /// Remove the directory of this provider (second) under this version
    /// (first).
    RemoveProvider(String, String),
    /// Remove the directory of this version, emptied of its pruned providers.
    RemoveVersion(String),
}

/// A step of pruning, over plain text.
pub enum PruneStepView {
    /// Report this line.
    Report(Seq<char>),
    /// Remove the directory of this provider (second) under this version
    /// (first).
    RemoveProvider(Seq<char>, Seq<char>),
    /// Remove the directory of this version.
    RemoveVersion(Seq<char>),
}

impl View for PruneStep {
    type V = PruneStepView;

    open spec fn view(&self) -> PruneStepView {
        match self {
            PruneStep::Report(l) => PruneStepView::Report(l@),
            PruneStep::RemoveProvider(v, p) => PruneStepView::RemoveProvider(v@, p@),
            PruneStep::RemoveVersion(v) => PruneStepView::RemoveVersion(v@),
        }
    }
}

/// The views of a sequence of steps.
pub open spec fn step_views(s: Seq<PruneStep>) -> Seq<PruneStepView> {
    s.map_values(|x: PruneStep| x@)
}

/// The views of the provider names listed under each version.
pub open spec fn listing_views(s: Seq<Vec<String>>) -> Seq<Seq<Seq<char>>> {
    s.map_values(|v: Vec<String>| string_views(v@))
}

/// A provider filter over plain text.
pub open spec fn filter_view(filter: Option<&str>) -> Option<Seq<char>> {
    match filter {
        Some(f) => Some(f@),
        None => None,
    }
}

/// Whether pruning takes `provider`: every provider without a filter, else
/// the one it names.
pub open spec fn selected_by(filter: Option<Seq<char>>, provider: Seq<char>) -> bool {
    match filter {
        None => true,
        Some(f) => f == provider,
    }
}

/// The steps for the providers of one removed version: for each one
/// selected, in order, its line, then (outside a dry run) its removal.
pub open spec fn provider_steps(
    box_name: Seq<char>,
    version: Seq<char>,
    providers: Seq<Seq<char>>,
    filter: Option<Seq<char>>,
    dry_run: bool,
) -> Seq<PruneStepView>
    decreases providers.len(),
{
    if providers.len() == 0 {
        Seq::empty()
    } else {
        let p = providers.last();
        let before = provider_steps(box_name, version, providers.drop_last(), filter, dry_run);
        if !selected_by(filter, p) {
            before
        } else if dry_run {
            before.push(PruneStepView::Report(pruning_line_of(true, box_name, version, p)))
        } else {
            before.push(PruneStepView::Report(pruning_line_of(false, box_name, version, p))).push(
                PruneStepView::RemoveProvider(version, p),
            )
        }
    }
}

/// The steps for one removed version: those of its providers, then
/// (outside a dry run) the removal of its directory.
pub open spec fn version_steps(
    box_name: Seq<char>,
    version: Seq<char>,
    providers: Seq<Seq<char>>,
    filter: Option<Seq<char>>,
    dry_run: bool,
) -> Seq<PruneStepView> {
    let s = provider_steps(box_name, version, providers, filter, dry_run);
    if dry_run {
        s
    } else {
        s.push(PruneStepView::RemoveVersion(version))
    }
}

/// The steps for the removed versions, in order, each with the providers
/// listed under it.
pub open spec fn removal_steps(
    box_name: Seq<char>,
    versions: Seq<Seq<char>>,
    listings: Seq<Seq<Seq<char>>>,
    filter: Option<Seq<char>>,
    dry_run: bool,
) -> Seq<PruneStepView>
    decreases versions.len(),
{
    if versions.len() == 0 {
        Seq::empty()
    } else {
        removal_steps(box_name, versions.drop_last(), listings.drop_last(), filter, dry_run)
            + version_steps(box_name, versions.last(), listings.last(), filter, dry_run)
    }
}

/// The steps of pruning a box: the line naming the version kept, then the
/// steps for each removed version.
pub open spec fn prune_steps_of(
    box_name: Seq<char>,
    keep: Seq<char>,
    versions: Seq<Seq<char>>,
    listings: Seq<Seq<Seq<char>>>,
    filter: Option<Seq<char>>,
    dry_run: bool,
) -> Seq<PruneStepView> {
    seq![PruneStepView::Report(keeping_line_of(keep, box_name))] + removal_steps(
        box_name,
        versions,
        listings,
        filter,
        dry_run,
    )
}

/// Returns the steps of pruning the box `box_name` by `plan`, where
/// `providers[i]` lists the provider directories under `plan.remove[i]`: the
/// line naming the version kept; for each removed version, for each provider
/// that `filter` selects, the line that reports it and, outside a dry run,
/// its removal; and, outside a dry run, the removal of the version's
/// directory. A dry run removes nothing.
pub fn prune_steps(
    box_name: &str,
    plan: &PrunePlan,
    providers: &Vec<Vec<String>>,
    filter: Option<&str>,
    dry_run: bool,
) -> (r: Vec<PruneStep>)
    requires
        providers@.len() == plan.remove@.len(),
    ensures
        step_views(r@) == prune_steps_of(
            box_name@,
            plan.keep@,
            string_views(plan.remove@),
            listing_views(providers@),
            filter_view(filter),
            dry_run,
        ),
{
    let ghost bn = box_name@;
    let ghost fv = filter_view(filter);
    let ghost vs = string_views(plan.remove@);
    let ghost ls = listing_views(providers@);
    let mut steps: Vec<PruneStep> = Vec::new();
    steps.push(PruneStep::Report(keeping_line(plan.keep.as_str(), box_name)));
    let ghost head = seq![PruneStepView::Report(keeping_line_of(plan.keep@, bn))];
    assert(step_views(steps@) =~= head);
    assert(vs.take(0) =~= Seq::<Seq<char>>::empty());
    let mut i: usize = 0;
    while i < plan.remove.len()
        invariant
            i <= plan.remove@.len(),
            providers@.len() == plan.remove@.len(),
            bn == box_name@,
            fv == filter_view(filter),
            vs == string_views(plan.remove@),
            ls == listing_views(providers@),
            step_views(steps@) == head + removal_steps(bn, vs.take(i as int), ls.take(i as int), fv, dry_run),
        decreases plan.remove@.len() - i,
    {
        let version = &plan.remove[i];
        let provs = &providers[i];
        let ghost base = step_views(steps@);
        let ghost pv = string_views(provs@);
        assert(pv.take(0) =~= Seq::<Seq<char>>::empty());
        let mut j: usize = 0;
        while j < provs.len()
            invariant
                j <= provs@.len(),
                bn == box_name@,
                fv == filter_view(filter),
                pv == string_views(provs@),
                step_views(steps@) == base + provider_steps(bn, version@, pv.take(j as int), fv, dry_run),
            decreases provs@.len() - j,
        {
            let p = &provs[j];
            let ghost before = step_views(steps@);
            assert(pv.take(j as int + 1).drop_last() =~= pv.take(j as int));
            assert(pv.take(j as int + 1).last() == p@);
            if provider_selected(filter, p.as_str()) {
                let line = pruning_line(dry_run, box_name, version.as_str(), p.as_str());
                steps.push(PruneStep::Report(line));
                assert(step_views(steps@) =~= before.push(steps@.last()@));
                if !dry_run {
                    let ghost mid = step_views(steps@);
                    steps.push(PruneStep::RemoveProvider(version.clone(), p.clone()));
                    assert(step_views(steps@) =~= mid.push(steps@.last()@));
                }
            }
            assert(step_views(steps@) =~= base + provider_steps(
                bn,
                version@,
                pv.take(j as int + 1),
                fv,
                dry_run,
            ));
            j = j + 1;
        }
        assert(pv.take(provs@.len() as int) =~= pv);
        if !dry_run {
            let ghost mid = step_views(steps@);
            steps.push(PruneStep::RemoveVersion(version.clone()));
            assert(step_views(steps@) =~= mid.push(steps@.last()@));
        }
        assert(vs.take(i as int + 1).drop_last() =~= vs.take(i as int));
        assert(ls.take(i as int + 1).drop_last() =~= ls.take(i as int));
        assert(vs.take(i as int + 1).last() == version@);
        assert(ls.take(i as int + 1).last() == pv);
        assert(step_views(steps@) =~= head + removal_steps(
            bn,
            vs.take(i as int + 1),
            ls.take(i as int + 1),
            fv,
            dry_run,
        ));
        i = i + 1;
    }
    assert(vs.take(plan.remove@.len() as int) =~= vs);
    assert(ls.take(plan.remove@.len() as int) =~= ls);
    steps
}

} // verus!
