//! The `cloud` command: the defaults it fills in and the lines it prints
//! for what the cloud answers.

use vstd::prelude::*;
use crate::box_manager::RemoteVersion;

verus! {

/// The view of an optional string slice.
pub open spec fn opt_view(o: Option<&str>) -> Option<Seq<char>> {
    match o {
        Some(s) => Some(s@),
        None => None,
    }
}

/// A value or its default.
pub open spec fn or_default(o: Option<Seq<char>>, d: Seq<char>) -> Seq<char> {
    match o {
        Some(v) => v,
        None => d,
    }
}

fn value_or(o: Option<&str>, d: &str) -> (r: String)
    ensures
        r@ == or_default(opt_view(o), d@),
{
    match o {
        Some(v) => v.to_owned(),
        None => d.to_owned(),
    }
}

/// What `cloud publish` publishes: the box, version and provider given,
/// `test/box`, `1.0.0` and `virtualbox` by default.
pub fn publish_target(name: Option<&str>, version: Option<&str>, provider: Option<&str>) -> (r: (
    String,
    String,
    String,
))
    ensures
        r.0@ == or_default(opt_view(name), "test/box"@),
        r.1@ == or_default(opt_view(version), "1.0.0"@),
        r.2@ == or_default(opt_view(provider), "virtualbox"@),
{
    (value_or(name, "test/box"), value_or(version, "1.0.0"), value_or(provider, "virtualbox"))
}

/// The line that announces a publication.
pub open spec fn publishing_line_of(name: Seq<char>, version: Seq<char>, provider: Seq<char>) -> Seq<
    char,
> {
    "Publishing box "@ + name + " v"@ + version + " for provider "@ + provider + "..."@
}

/// Returns the line that announces a publication.
pub fn publishing_line(name: &str, version: &str, provider: &str) -> (s: String)
    ensures
        s@ == publishing_line_of(name@, version@, provider@),
{
    let mut s = "Publishing box ".to_owned();
    s.append(name);
    s.append(" v");
    s.append(version);
    s.append(" for provider ");
    s.append(provider);
    s.append("...");
    s
}

/// The line that announces a search.
pub open spec fn searching_line_of(query: Seq<char>) -> Seq<char> {
    "Searching for boxes matching '"@ + query + "'..."@
}

/// Returns the line that announces a search for `query` (empty by default).
pub fn searching_line(query: Option<&str>) -> (s: String)
    ensures
        s@ == searching_line_of(or_default(opt_view(query), Seq::empty())),
{
    let mut s = "Searching for boxes matching '".to_owned();
    match query {
        Some(q) => s.append(q),
        None => {},
    }
    s.append("'...");
    s
}

/// The character views of a list of strings.
pub open spec fn str_views(v: Seq<String>) -> Seq<Seq<char>> {
    v.map_values(|s: String| s@)
}

/// The line of one search result.
pub open spec fn result_line_of(name: Seq<char>, short: Seq<char>) -> Seq<char> {
    name + " - "@ + short
}

/// The lines that report search results (name and short description of
/// each): at most `limit` result lines, or one line saying that none was
/// found.
pub open spec fn search_lines_of(results: Seq<(String, String)>, limit: Option<usize>) -> Seq<Seq<char>> {
    if results.len() == 0 {
        seq!["No boxes found."@]
    } else {
        let n = match limit {
            Some(l) => if l < results.len() {
                l as int
            } else {
                results.len() as int
            },
            None => results.len() as int,
        };
        Seq::new(n as nat, |i: int| result_line_of(results[i].0@, results[i].1@))
    }
}

/// Returns the lines that report search results.
pub fn search_lines(results: &Vec<(String, String)>, limit: Option<usize>) -> (r: Vec<String>)
    ensures
        str_views(r@) == search_lines_of(results@, limit),
{
    let mut r: Vec<String> = Vec::new();
    if results.len() == 0 {
        r.push("No boxes found.".to_owned());
        assert(str_views(r@) =~= seq!["No boxes found."@]);
        return r;
    }
    let n: usize = match limit {
        Some(l) => if l < results.len() {
            l
        } else {
            results.len()
        },
        None => results.len(),
    };
    let mut i: usize = 0;
    while i < n
        invariant
            i <= n <= results.len(),
            str_views(r@) =~= Seq::new(i as nat, |k: int| result_line_of(results@[k].0@, results@[k].1@)),
        decreases n - i,
    {
        let mut line = results[i].0.clone();
        line.append(" - ");
        line.append(results[i].1.as_str());
        let ghost prev = str_views(r@);
        let ghost lv = line@;
        assert(lv == result_line_of(results@[i as int].0@, results@[i as int].1@));
        r.push(line);
        assert(str_views(r@) =~= prev.push(lv));
        assert(Seq::new((i + 1) as nat, |k: int| result_line_of(results@[k].0@, results@[k].1@))
            =~= Seq::new(i as nat, |k: int| result_line_of(results@[k].0@, results@[k].1@)).push(lv));
        i = i + 1;
    }
    r
}

/// The lines of `cloud box show`: the box, its description, then each
/// version with its providers.
pub open spec fn show_lines_of(name: Seq<char>, short: Seq<char>, versions: Seq<RemoteVersion>) -> Seq<
    Seq<char>,
>
    decreases versions.len(),
{
    if versions.len() == 0 {
        seq!["Box: "@ + name, "Description: "@ + short]
    } else {
        let v = versions.last();
        show_lines_of(name, short, versions.drop_last()) + seq!["  Version: "@ + v.version@]
            + v.providers@.map_values(|p: crate::box_manager::RemoteProvider| "    Provider: "@ + p.name@)
    }
}

/// Returns the lines of `cloud box show` for a box's metadata.
pub fn show_lines(name: &str, short: &str, versions: &Vec<RemoteVersion>) -> (r: Vec<String>)
    ensures
        str_views(r@) == show_lines_of(name@, short@, versions@),
{
    let mut r: Vec<String> = Vec::new();
    let mut a = "Box: ".to_owned();
    a.append(name);
    r.push(a);
    let mut b = "Description: ".to_owned();
    b.append(short);
    r.push(b);
    assert(str_views(r@) =~= show_lines_of(name@, short@, versions@.take(0)));
    let mut i: usize = 0;
    while i < versions.len()
        invariant
            i <= versions.len(),
            str_views(r@) == show_lines_of(name@, short@, versions@.take(i as int)),
        decreases versions.len() - i,
    {
        assert(versions@.take(i + 1).drop_last() =~= versions@.take(i as int));
        let v = &versions[i];
        let mut line = "  Version: ".to_owned();
        line.append(v.version.as_str());
        let ghost before = str_views(r@);
        let ghost lv = line@;
        r.push(line);
        assert(str_views(r@) =~= before.push(lv));
        assert(v.providers@.take(0).map_values(
            |p: crate::box_manager::RemoteProvider| "    Provider: "@ + p.name@,
        ) =~= Seq::<Seq<char>>::empty());
        let mut k: usize = 0;
        while k < v.providers.len()
            invariant
                k <= v.providers.len(),
                str_views(r@) == before + seq!["  Version: "@ + v.version@]
                    + v.providers@.take(k as int).map_values(
                    |p: crate::box_manager::RemoteProvider| "    Provider: "@ + p.name@,
                ),
            decreases v.providers.len() - k,
        {
            let mut pl = "    Provider: ".to_owned();
            pl.append(v.providers[k].name.as_str());
            let ghost prev = str_views(r@);
            let ghost pv = pl@;
            r.push(pl);
            assert(str_views(r@) =~= prev.push(pv));
            assert(v.providers@.take(k + 1).map_values(
                |p: crate::box_manager::RemoteProvider| "    Provider: "@ + p.name@,
            ) =~= v.providers@.take(k as int).map_values(
                |p: crate::box_manager::RemoteProvider| "    Provider: "@ + p.name@,
            ).push("    Provider: "@ + v.providers@[k as int].name@));
            k = k + 1;
        }
        assert(v.providers@.take(v.providers.len() as int) =~= v.providers@);
        i = i + 1;
    }
    assert(versions@.take(versions.len() as int) =~= versions@);
    r
}

/// What a `cloud` sub-command asks of the box cloud.
pub enum CloudAction {
    /// `auth login`: answered with a hint, nothing is asked.
    AuthLogin,
    /// `auth logout`: forget the token.
    AuthLogout,
    /// `auth whoami`: who the token belongs to.
    AuthWhoami,
    /// `box create`.
    BoxCreate,
    /// `box delete`.
    BoxDelete,
    /// `box show`.
    BoxShow,
    /// `box update`.
    BoxUpdate,
    /// `provider create`.
    ProviderCreate,
    /// `provider delete`.
    ProviderDelete,
    /// `provider update`.
    ProviderUpdate,
    /// `provider upload`: an upload address, and the upload where a file is given.
    ProviderUpload,
    /// `version create`.
    VersionCreate,
    /// `version delete`.
    VersionDelete,
    /// `version release`.
    VersionRelease,
    /// `version revoke`.
    VersionRevoke,
    /// `version update`.
    VersionUpdate,
}

/// The arguments of a `cloud` sub-command; each takes those it needs.
pub struct CloudArgs {
    /// The box (`user/name`).
    pub name: Option<String>,
    /// The version of the box.
    pub version: Option<String>,
    /// The provider of the version.
    pub provider: Option<String>,
    /// The description.
    pub description: Option<String>,
    /// The short description.
    pub short_description: Option<String>,
    /// The checksum of the provider's file.
    pub checksum: Option<String>,
    /// The type of that checksum.
    pub checksum_type: Option<String>,
    /// The file to upload.
    pub file_path: Option<String>,
}

/// A request to the box cloud: the box, version and provider it is about
/// (empty where not given) and what else was given.
pub struct CloudRequest {
    /// What is asked.
    pub action: CloudAction,
    /// The box.
    pub name: String,
    /// The version.
    pub version: String,
    /// The provider.
    pub provider: String,
    /// The description.
    pub description: Option<String>,
    /// The short description.
    pub short_description: Option<String>,
    /// The checksum.
    pub checksum: Option<String>,
    /// The checksum's type.
    pub checksum_type: Option<String>,
    /// The file to upload.
    pub file_path: Option<String>,
}

/// The view of an optional string.
pub open spec fn string_opt(o: Option<String>) -> Option<Seq<char>> {
    match o {
        Some(s) => Some(s@),
        None => None,
    }
}

fn string_or_empty(o: Option<String>) -> (r: String)
    ensures
        r@ == or_default(string_opt(o), Seq::empty()),
{
    match o {
        Some(v) => v,
        None => String::new(),
    }
}

/// Returns the request of a `cloud` sub-command: the box, version and
/// provider are empty where not given; the rest is passed on as given.
pub fn cloud_request(action: CloudAction, args: CloudArgs) -> (r: CloudRequest)
    ensures
        r.action == action,
        r.name@ == or_default(string_opt(args.name), Seq::empty()),
        r.version@ == or_default(string_opt(args.version), Seq::empty()),
        r.provider@ == or_default(string_opt(args.provider), Seq::empty()),
        r.description == args.description,
        r.short_description == args.short_description,
        r.checksum == args.checksum,
        r.checksum_type == args.checksum_type,
        r.file_path == args.file_path,
{
    CloudRequest {
        action,
        name: string_or_empty(args.name),
        version: string_or_empty(args.version),
        provider: string_or_empty(args.provider),
        description: args.description,
        short_description: args.short_description,
        checksum: args.checksum,
        checksum_type: args.checksum_type,
        file_path: args.file_path,
    }
}

/// The line a `cloud` sub-command prints once the cloud has answered,
/// where it does not depend on the answer; for an upload, on whether a file
/// was given.
pub open spec fn done_line_of(action: CloudAction, file_given: bool) -> Option<Seq<char>> {
    match action {
        CloudAction::AuthLogin => Some(
            "Please use `migratory login` for interactive authentication."@,
        ),
        CloudAction::AuthLogout => Some("Logged out successfully."@),
        CloudAction::AuthWhoami => None,
        CloudAction::BoxCreate => Some("Box created successfully."@),
        CloudAction::BoxDelete => Some("Box deleted successfully."@),
        CloudAction::BoxShow => None,
        CloudAction::BoxUpdate => Some("Box updated successfully."@),
        CloudAction::ProviderCreate => Some("Provider created successfully."@),
        CloudAction::ProviderDelete => Some("Provider deleted successfully."@),
        CloudAction::ProviderUpdate => Some("Provider updated successfully."@),
        CloudAction::ProviderUpload => if file_given {
            Some("Provider upload successful."@)
        } else {
            Some("No file path provided for upload."@)
        },
        CloudAction::VersionCreate => Some("Version created successfully."@),
        CloudAction::VersionDelete => Some("Version deleted successfully."@),
        CloudAction::VersionRelease => Some("Version released successfully."@),
        CloudAction::VersionRevoke => Some("Version revoked successfully."@),
        CloudAction::VersionUpdate => Some("Version updated successfully."@),
    }
}

/// Returns the line a `cloud` sub-command prints once the cloud has
/// answered, where it does not depend on the answer.
pub fn done_line(action: &CloudAction, file_given: bool) -> (r: Option<String>)
    ensures
        match done_line_of(*action, file_given) {
            Some(l) => r matches Some(s) && s@ == l,
            None => r is None,
        },
{
    let l = match action {
        CloudAction::AuthLogin => "Please use `migratory login` for interactive authentication.",
        CloudAction::AuthLogout => "Logged out successfully.",
        CloudAction::AuthWhoami => return None,
        CloudAction::BoxCreate => "Box created successfully.",
        CloudAction::BoxDelete => "Box deleted successfully.",
        CloudAction::BoxShow => return None,
        CloudAction::BoxUpdate => "Box updated successfully.",
        CloudAction::ProviderCreate => "Provider created successfully.",
        CloudAction::ProviderDelete => "Provider deleted successfully.",
        CloudAction::ProviderUpdate => "Provider updated successfully.",
        CloudAction::ProviderUpload => if file_given {
            "Provider upload successful."
        } else {
            "No file path provided for upload."
        },
        CloudAction::VersionCreate => "Version created successfully.",
        CloudAction::VersionDelete => "Version deleted successfully.",
        CloudAction::VersionRelease => "Version released successfully.",
        CloudAction::VersionRevoke => "Version revoked successfully.",
        CloudAction::VersionUpdate => "Version updated successfully.",
    };
    Some(l.to_owned())
}

/// The line that reports who is logged in.
pub open spec fn whoami_line_of(user: Seq<char>) -> Seq<char> {
    "Currently logged in as: "@ + user
}

/// Returns the line that reports who is logged in.
pub fn whoami_line(user: &str) -> (r: String)
    ensures
        r@ == whoami_line_of(user@),
{
    let mut r = "Currently logged in as: ".to_owned();
    r.append(user);
    r
}

} // verus!
