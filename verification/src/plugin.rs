//! The `plugin` command: where plugins live and the `gem` invocations that
//! manage them.

use vstd::prelude::*;

verus! {

/// The Vagrant home directory: `VAGRANT_HOME` where set, else `.vagrant.d`
/// under `HOME`, else `.vagrant.d` in the current directory.
pub open spec fn vagrant_home_of(vagrant_home: Option<Seq<char>>, home: Option<Seq<char>>) -> Seq<
    char,
> {
    match vagrant_home {
        Some(v) => v,
        None => match home {
            Some(h) => h + "/.vagrant.d"@,
            None => ".vagrant.d"@,
        },
    }
}

/// The view of an optional string slice.
pub open spec fn opt_view(o: Option<&str>) -> Option<Seq<char>> {
    match o {
        Some(s) => Some(s@),
        None => None,
    }
}

/// Resolves the Vagrant home directory from the values of `VAGRANT_HOME`
/// and `HOME`.
pub fn resolve_vagrant_home(vagrant_home: Option<&str>, home: Option<&str>) -> (r: String)
    ensures
        r@ == vagrant_home_of(opt_view(vagrant_home), opt_view(home)),
{
    match vagrant_home {
        Some(v) => v.to_owned(),
        None => match home {
            Some(h) => {
                let mut r = h.to_owned();
                r.append("/.vagrant.d");
                r
            },
            None => ".vagrant.d".to_owned(),
        },
    }
}

/// The directory where `gem` installs plugins.
pub open spec fn gem_home_of(home: Seq<char>) -> Seq<char> {
    home + "/gems"@
}

/// Returns the directory where `gem` installs plugins under the Vagrant
/// home `home`.
pub fn gem_home(home: &str) -> (r: String)
    ensures
        r@ == gem_home_of(home@),
{
    let mut r = home.to_owned();
    r.append("/gems");
    r
}

/// The character views of a list of strings.
pub open spec fn str_views(v: Seq<String>) -> Seq<Seq<char>> {
    v.map_values(|s: String| s@)
}

/// The `gem` arguments that remove every plugin.
pub open spec fn expunge_args_of(local: bool, global_only: bool) -> Seq<Seq<char>> {
    seq!["uninstall"@, "--all"@, "-x"@, "-I"@] + (if local {
        seq!["--local"@]
    } else {
        Seq::empty()
    }) + (if global_only {
        seq!["--user-install"@]
    } else {
        Seq::empty()
    })
}

/// Returns the `gem` arguments that remove every plugin.
pub fn expunge_args(local: bool, global_only: bool) -> (r: Vec<String>)
    ensures
        str_views(r@) == expunge_args_of(local, global_only),
{
    let mut r: Vec<String> = Vec::new();
    r.push("uninstall".to_owned());
    r.push("--all".to_owned());
    r.push("-x".to_owned());
    r.push("-I".to_owned());
    let ghost a = str_views(r@);
    if local {
        r.push("--local".to_owned());
    }
    let ghost b = str_views(r@);
    assert(b =~= a + (if local {
        seq!["--local"@]
    } else {
        Seq::<Seq<char>>::empty()
    }));
    if global_only {
        r.push("--user-install".to_owned());
    }
    assert(str_views(r@) =~= b + (if global_only {
        seq!["--user-install"@]
    } else {
        Seq::<Seq<char>>::empty()
    }));
    r
}

/// The `gem` arguments that install the plugin `name`, at `version` and
/// from `source` where given, locally where asked.
pub open spec fn install_args_of(
    name: Seq<char>,
    version: Option<Seq<char>>,
    source: Option<Seq<char>>,
    local: bool,
) -> Seq<Seq<char>> {
    seq!["install"@, name] + match version {
        Some(v) => seq!["-v"@, v],
        None => Seq::empty(),
    } + match source {
        Some(s) => seq!["--source"@, s],
        None => Seq::empty(),
    } + if local {
        seq!["--local"@]
    } else {
        Seq::empty()
    }
}

/// Returns the `gem` arguments that install the plugin `name`.
pub fn install_args(name: &str, version: Option<&str>, source: Option<&str>, local: bool) -> (r:
    Vec<String>)
    ensures
        str_views(r@) == install_args_of(name@, opt_view(version), opt_view(source), local),
{
    let mut r: Vec<String> = Vec::new();
    r.push("install".to_owned());
    r.push(name.to_owned());
    let ghost a = str_views(r@);
    match version {
        Some(v) => {
            r.push("-v".to_owned());
            r.push(v.to_owned());
        },
        None => {},
    }
    let ghost b = str_views(r@);
    assert(b =~= a + match opt_view(version) {
        Some(v) => seq!["-v"@, v],
        None => Seq::<Seq<char>>::empty(),
    });
    match source {
        Some(s) => {
            r.push("--source".to_owned());
            r.push(s.to_owned());
        },
        None => {},
    }
    let ghost c = str_views(r@);
    assert(c =~= b + match opt_view(source) {
        Some(s) => seq!["--source"@, s],
        None => Seq::<Seq<char>>::empty(),
    });
    if local {
        r.push("--local".to_owned());
    }
    assert(str_views(r@) =~= c + (if local {
        seq!["--local"@]
    } else {
        Seq::<Seq<char>>::empty()
    }));
    r
}

} // verus!
