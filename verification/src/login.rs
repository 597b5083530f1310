//! The `login` command: where the token is kept and what is asked and said.

use vstd::prelude::*;
use crate::box_manager::{join_path, path_join};
use crate::text::{chars_of, string_of, trim, trim_chars};

verus! {

/// The file of the cloud token: `data/token` under `VAGRANT_HOME`, or under
/// `.vagrant.d` where it is not set.
pub open spec fn token_path_of(vagrant_home: Option<Seq<char>>) -> Seq<char> {
    let home = match vagrant_home {
        Some(h) => h,
        None => ".vagrant.d"@,
    };
    join_path(join_path(home, "data"@), "token"@)
}

/// Returns the file of the cloud token, given the value of `VAGRANT_HOME`.
pub fn token_path(vagrant_home: Option<&str>) -> (r: String)
    ensures
        r@ == token_path_of(match vagrant_home { Some(h) => Some(h@), None => None }),
{
    let data = match vagrant_home {
        Some(h) => path_join(h, "data"),
        None => path_join(".vagrant.d", "data"),
    };
    path_join(data.as_str(), "token")
}

/// The answer of `login --check`.
pub open spec fn check_line_of(logged_in: bool) -> Seq<char> {
    if logged_in {
        "You are already logged in."@
    } else {
        "You are not currently logged in."@
    }
}

/// Returns the answer of `login --check`, given whether a token is saved.
pub fn check_line(logged_in: bool) -> (r: String)
    ensures
        r@ == check_line_of(logged_in),
{
    if logged_in {
        "You are already logged in.".to_owned()
    } else {
        "You are not currently logged in.".to_owned()
    }
}

/// The lines said before the credentials are asked for.
pub open spec fn intro_lines_of() -> Seq<Seq<char>> {
    seq![
        "In a moment we will ask for your username and password to HashiCorp's"@,
        "Vagrant Cloud. This credential will be used to authenticate you with"@,
        "the Vagrant Cloud for things like box downloads."@,
    ]
}

/// Returns the lines said before the credentials are asked for.
pub fn intro_lines() -> (r: Vec<String>)
    ensures
        r@.map_values(|s: String| s@) == intro_lines_of(),
{
    let mut r: Vec<String> = Vec::new();
    r.push("In a moment we will ask for your username and password to HashiCorp's".to_owned());
    r.push("Vagrant Cloud. This credential will be used to authenticate you with".to_owned());
    r.push("the Vagrant Cloud for things like box downloads.".to_owned());
    assert(r@.map_values(|s: String| s@) =~= intro_lines_of());
    r
}

/// Returns the username given on the command line where it is not empty;
/// `None` where it is to be asked for.
pub fn given_username(username: Option<&str>) -> (r: Option<String>)
    ensures
        match username {
            Some(u) => if u@.len() > 0 {
                r matches Some(s) && s@ == u@
            } else {
                r is None
            },
            None => r is None,
        },
{
    match username {
        Some(u) => if u.is_empty() {
            None
        } else {
            Some(u.to_owned())
        },
        None => None,
    }
}

/// Returns the description of the token: the one given, else
/// `Migratory login from CLI`.
pub fn token_description(description: Option<&str>) -> (r: String)
    ensures
        r@ == match description {
            Some(d) => d@,
            None => "Migratory login from CLI"@,
        },
{
    match description {
        Some(d) => d.to_owned(),
        None => "Migratory login from CLI".to_owned(),
    }
}

/// Returns the answer to a prompt: the line read, without surrounding
/// whitespace.
pub fn prompt_answer(line: &str) -> (r: String)
    ensures
        r@ == trim(line@),
{
    let chars = chars_of(line);
    let t = trim_chars(&chars);
    string_of(&t)
}

} // verus!
