//! The `box` command: where `box add` downloads from, how `box list` names
//! a cached box, and what `box outdated` and `box update` decide.

use vstd::prelude::*;
use crate::box_manager::{RemoteVersion, RemoteProvider, str_lt, str_less, string_views, newest_name, newest_entry};
use crate::error::MigratoryError;
use crate::text::{chars_of, find_sub, find_sub_from, has_suffix, ends_with, replace_all, replace_str, str_eq};

verus! {

/// The view of an optional string slice.
pub open spec fn opt_view(o: Option<&str>) -> Option<Seq<char>> {
    match o {
        Some(s) => Some(s@),
        None => None,
    }
}

/// Whether a name given to `box add` is a URL or a path rather than a cloud
/// name: it holds `://` or ends with `.box`.
pub open spec fn is_url_or_path_of(name: Seq<char>) -> bool {
    find_sub(name, "://"@) is Some || has_suffix(name, ".box"@)
}

/// Returns whether `name` is a URL or a path rather than a cloud name.
pub fn is_url_or_path(name: &str) -> (b: bool)
    ensures
        b == is_url_or_path_of(name@),
{
    let n = chars_of(name);
    let sep = chars_of("://");
    let ext = chars_of(".box");
    let has_sep = match find_sub_from(&n, &sep, 0) {
        Some(_) => true,
        None => false,
    };
    has_sep || ends_with(&n, &ext)
}

/// Whether a cloud version and provider pass the optional filters.
pub open spec fn passes(filter: Option<Seq<char>>, value: Seq<char>) -> bool {
    match filter {
        None => true,
        Some(f) => f == value,
    }
}

/// Whether `(i, k)` is the first version (in the cloud's order) that passes
/// the version filter and has a provider that passes the provider filter,
/// and `k` its first such provider.
pub open spec fn is_add_source(
    versions: Seq<RemoteVersion>,
    version: Option<Seq<char>>,
    provider: Option<Seq<char>>,
    i: int,
    k: int,
) -> bool {
    &&& 0 <= i < versions.len()
    &&& 0 <= k < versions[i].providers@.len()
    &&& passes(version, versions[i].version@)
    &&& passes(provider, versions[i].providers@[k].name@)
    &&& forall|j: int| 0 <= j < k ==> !passes(provider, #[trigger] versions[i].providers@[j].name@)
    &&& forall|v: int, j: int|
        0 <= v < i && passes(version, versions[v].version@) && 0 <= j
            < versions[v].providers@.len() ==> !passes(
            provider,
            #[trigger] versions[v].providers@[j].name@,
        )
}

fn passes_filter(filter: Option<&str>, value: &str) -> (b: bool)
    ensures
        b == passes(opt_view(filter), value@),
{
    match filter {
        None => true,
        Some(f) => str_eq(f, value),
    }
}

/// Chooses where `box add` downloads a cloud box from: the first version
/// that passes the version filter and has a provider that passes the
/// provider filter, and that provider; `None` where there is none.
pub fn select_add_source(
    versions: &Vec<RemoteVersion>,
    version: Option<&str>,
    provider: Option<&str>,
) -> (r: Option<(usize, usize)>)
    ensures
        r matches Some((i, k)) ==> is_add_source(
            versions@,
            opt_view(version),
            opt_view(provider),
            i as int,
            k as int,
        ),
        r is None ==> forall|v: int, j: int|
            0 <= v < versions@.len() && passes(opt_view(version), versions@[v].version@) && 0 <= j
                < versions@[v].providers@.len() ==> !passes(
                opt_view(provider),
                #[trigger] versions@[v].providers@[j].name@,
            ),
{
    let mut i: usize = 0;
    while i < versions.len()
        invariant
            i <= versions.len(),
            forall|v: int, j: int|
                0 <= v < i && passes(opt_view(version), versions@[v].version@) && 0 <= j
                    < versions@[v].providers@.len() ==> !passes(
                    opt_view(provider),
                    #[trigger] versions@[v].providers@[j].name@,
                ),
        decreases versions.len() - i,
    {
        if passes_filter(version, versions[i].version.as_str()) {
            let provs = &versions[i].providers;
            let mut k: usize = 0;
            while k < provs.len()
                invariant
                    k <= provs.len(),
                    i < versions.len(),
                    provs@ == versions@[i as int].providers@,
                    passes(opt_view(version), versions@[i as int].version@),
                    forall|v: int, j: int|
                        0 <= v < i && passes(opt_view(version), versions@[v].version@) && 0 <= j
                            < versions@[v].providers@.len() ==> !passes(
                            opt_view(provider),
                            #[trigger] versions@[v].providers@[j].name@,
                        ),
                    forall|j: int| 0 <= j < k ==> !passes(opt_view(provider), #[trigger] provs@[j].name@),
                decreases provs.len() - k,
            {
                if passes_filter(provider, provs[k].name.as_str()) {
                    return Some((i, k));
                }
                k = k + 1;
            }
        }
        i = i + 1;
    }
    None
}

/// The message of the error for a cloud box without a matching provider.
pub open spec fn no_provider_message(provider: Seq<char>, name: Seq<char>) -> Seq<char> {
    "Could not find a matching provider '"@ + provider + "' for box '"@ + name + "'"@
}

/// The error for a cloud box without a matching provider.
pub fn no_provider_error(provider: &str, name: &str) -> (e: MigratoryError)
    ensures
        e matches MigratoryError::Generic(m) && m@ == no_provider_message(provider@, name@),
{
    let mut m = "Could not find a matching provider '".to_owned();
    m.append(provider);
    m.append("' for box '");
    m.append(name);
    m.append("'");
    MigratoryError::Generic(m)
}

/// The box name that a cache directory name stands for: every
/// `-VAGRANTSLASH-` becomes `/`.
pub open spec fn box_name_of_dir(dir: Seq<char>) -> Seq<char> {
    replace_all(dir, "-VAGRANTSLASH-"@, "/"@)
}

/// Returns the box name that the cache directory name `dir` stands for.
pub fn box_name_from_dir(dir: &str) -> (r: String)
    ensures
        r@ == box_name_of_dir(dir@),
{
    proof {
        reveal_strlit("-VAGRANTSLASH-");
    }
    replace_str(dir, "-VAGRANTSLASH-", "/")
}

/// The line of `box list` for one cached box.
pub open spec fn list_line_of(name: Seq<char>, provider: Seq<char>, version: Seq<char>) -> Seq<char> {
    name + " ("@ + provider + ", "@ + version + ")"@
}

/// Returns the line of `box list` for a cached box.
pub fn list_line(name: &str, provider: &str, version: &str) -> (s: String)
    ensures
        s@ == list_line_of(name@, provider@, version@),
{
    let mut s = name.to_owned();
    s.append(" (");
    s.append(provider);
    s.append(", ");
    s.append(version);
    s.append(")");
    s
}

/// What `box outdated --global` reports of one box, given its local
/// version names and the cloud's version strings: outdated where the
/// greatest remote version string is non-empty and comes after the greatest
/// local one (in the order of strings).
pub open spec fn is_outdated(local: Seq<Seq<char>>, remote: Seq<Seq<char>>) -> bool {
    let l = newest_name(local);
    let r = newest_name(remote);
    r.len() > 0 && str_lt(l, r)
}

/// Returns whether a box is outdated, given its local version names and the
/// cloud's version strings.
pub fn box_is_outdated(local: &Vec<String>, remote: &Vec<String>) -> (b: bool)
    ensures
        b == is_outdated(string_views(local@), string_views(remote@)),
{
    let l = newest_entry(local);
    let r = newest_entry(remote);
    !r.as_str().is_empty() && str_less(l.as_str(), r.as_str())
}

/// Whether a provider passes the optional provider filter of `box update`.
pub open spec fn provider_ok(p: RemoteProvider, filter: Option<Seq<char>>) -> bool {
    passes(filter, p.name@)
}

/// The index of the first provider of `ps` that passes the filter.
pub open spec fn first_passing(ps: Seq<RemoteProvider>, filter: Option<Seq<char>>, k: int) -> Option<int>
    decreases ps.len() - k,
{
    if k < 0 || k >= ps.len() {
        None
    } else if provider_ok(ps[k], filter) {
        Some(k)
    } else {
        first_passing(ps, filter, k + 1)
    }
}

/// The choice of `box update` over the cloud's versions in order: a version
/// whose string comes after the best so far and that has a provider passing
/// the filter becomes the best, with its first such provider.
pub open spec fn update_choice(
    versions: Seq<RemoteVersion>,
    filter: Option<Seq<char>>,
) -> Option<(int, int)>
    decreases versions.len(),
{
    if versions.len() == 0 {
        None
    } else {
        let prev = update_choice(versions.drop_last(), filter);
        let best: Seq<char> = match prev {
            Some((i, _)) => versions[i].version@,
            None => Seq::empty(),
        };
        let last = versions.len() - 1;
        if str_lt(best, versions[last].version@) {
            match first_passing(versions[last].providers@, filter, 0) {
                Some(k) => Some((last, k)),
                None => prev,
            }
        } else {
            prev
        }
    }
}

proof fn lemma_update_choice_range(versions: Seq<RemoteVersion>, filter: Option<Seq<char>>)
    ensures
        update_choice(versions, filter) matches Some((i, k)) ==> 0 <= i < versions.len() && 0 <= k
            < versions[i].providers@.len(),
    decreases versions.len(),
{
    if versions.len() > 0 {
        lemma_update_choice_range(versions.drop_last(), filter);
        let last = versions.len() - 1;
        lemma_first_passing(versions[last].providers@, filter, 0);
    }
}

proof fn lemma_first_passing(ps: Seq<RemoteProvider>, filter: Option<Seq<char>>, k: int)
    requires
        0 <= k,
    ensures
        first_passing(ps, filter, k) matches Some(j) ==> k <= j < ps.len(),
    decreases ps.len() - k,
{
    if k < ps.len() && !provider_ok(ps[k], filter) {
        lemma_first_passing(ps, filter, k + 1);
    }
}

fn first_passing_index(ps: &Vec<RemoteProvider>, filter: Option<&str>) -> (r: Option<usize>)
    ensures
        r matches Some(k) ==> first_passing(ps@, opt_view(filter), 0) == Some(k as int),
        r is None ==> first_passing(ps@, opt_view(filter), 0) is None,
{
    let mut k: usize = 0;
    while k < ps.len()
        invariant
            k <= ps.len(),
            first_passing(ps@, opt_view(filter), 0) == first_passing(ps@, opt_view(filter), k as int),
        decreases ps.len() - k,
    {
        if passes_filter(filter, ps[k].name.as_str()) {
            return Some(k);
        }
        k = k + 1;
    }
    None
}

/// Chooses what `box update` installs for one box: the version and provider
/// indices of the best remote version (see `update_choice`).
pub fn select_box_update(versions: &Vec<RemoteVersion>, provider: Option<&str>) -> (r: Option<(usize, usize)>)
    ensures
        match update_choice(versions@, opt_view(provider)) {
            Some((i, k)) => r == Some((i as usize, k as usize)),
            None => r is None,
        },
{
    let ghost vs = versions@;
    let mut best: Option<(usize, usize)> = None;
    let mut i: usize = 0;
    while i < versions.len()
        invariant
            i <= versions.len(),
            vs == versions@,
            match update_choice(vs.take(i as int), opt_view(provider)) {
                Some((a, b)) => best == Some((a as usize, b as usize)) && 0 <= a < i,
                None => best is None,
            },
        decreases versions.len() - i,
    {
        let ghost pre = vs.take(i as int);
        assert(vs.take(i + 1).drop_last() =~= pre);
        proof {
            lemma_update_choice_range(pre, opt_view(provider));
        }
        let better = match best {
            Some((b, _)) => str_less(versions[b].version.as_str(), versions[i].version.as_str()),
            None => str_less("", versions[i].version.as_str()),
        };
        proof {
            match best {
                Some((b, _)) => {
                    assert(pre[b as int] == vs[b as int]);
                },
                None => {
                    reveal_strlit("");
                },
            }
        }
        if better {
            match first_passing_index(&versions[i].providers, provider) {
                Some(k) => {
                    best = Some((i, k));
                },
                None => {},
            }
        }
        assert(vs.take(i + 1)[i as int] == vs[i as int]);
        i = i + 1;
    }
    assert(vs.take(versions.len() as int) =~= vs);
    best
}

} // verus!
