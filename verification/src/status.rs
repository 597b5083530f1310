//! The `global-status` command: where the machine index lives and how the
//! machines it lists are reported.

use vstd::prelude::*;
use vstd::string::StringSliceAdditionalSpecFns;
use crate::box_manager::{join_path, path_join};
use crate::error::MigratoryError;
use crate::list_commands::spaces;
use crate::text::{chars_of, decimal, push_char, u64_to_decimal};

verus! {

/// The directory of the global state: `VAGRANT_HOME`, else `.vagrant.d` in
/// the home directory.
pub open spec fn data_dir_of(vagrant_home: Option<Seq<char>>, home: Option<Seq<char>>) -> Option<
    Seq<char>,
> {
    match vagrant_home {
        Some(v) => Some(v),
        None => match home {
            Some(h) => Some(join_path(h, ".vagrant.d"@)),
            None => None,
        },
    }
}

/// Returns the directory of the global state, given the values of
/// `VAGRANT_HOME` and `HOME`; an error where neither is set.
pub fn global_data_dir(vagrant_home: Option<&str>, home: Option<&str>) -> (r: Result<
    String,
    MigratoryError,
>)
    ensures
        match data_dir_of(
            match vagrant_home { Some(v) => Some(v@), None => None },
            match home { Some(h) => Some(h@), None => None },
        ) {
            Some(d) => r matches Ok(s) && s@ == d,
            None => r matches Err(MigratoryError::Generic(m)) && m@
                == "Could not determine VAGRANT_HOME or HOME"@,
        },
{
    match vagrant_home {
        Some(v) => Ok(v.to_owned()),
        None => match home {
            Some(h) => Ok(path_join(h, ".vagrant.d")),
            None => Err(MigratoryError::Generic("Could not determine VAGRANT_HOME or HOME".to_owned())),
        },
    }
}

/// Returns the id shown for a machine: its first 7 bytes where it has as
/// many, else all of it. The cut must fall between two characters.
pub fn short_id(id: &str) -> (r: &str)
    requires
        id.len() >= 7 ==> vstd::utf8::is_char_boundary(id.spec_bytes(), 7),
    ensures
        r.spec_bytes() == if id.len() >= 7 {
            id.spec_bytes().subrange(0, 7)
        } else {
            id.spec_bytes()
        },
{
    if id.len() >= 7 {
        let parts = id.split_at(7);
        assert(parts.0.spec_bytes() =~= id.spec_bytes().subrange(0, 7));
        parts.0
    } else {
        id
    }
}

/// `s` left-aligned in `width` columns (`{:<width}`).
pub open spec fn padded(s: Seq<char>, width: nat) -> Seq<char> {
    s + if s.len() < width {
        spaces((width - s.len()) as nat)
    } else {
        Seq::empty()
    }
}

/// Appends `s` to `out`, left-aligned in `width` columns.
fn push_padded(out: &mut String, s: &str, width: usize)
    ensures
        final(out)@ == old(out)@ + padded(s@, width as nat),
{
    let n: usize = chars_of(s).len();
    out.append(s);
    let ghost start = out@;
    let mut k: usize = n;
    assert(spaces(0) =~= Seq::<char>::empty());
    while k < width
        invariant
            n == s@.len(),
            n <= k <= width || (k == n && n >= width),
            out@ == start + spaces((k - n) as nat),
        decreases width - k,
    {
        push_char(out, ' ');
        assert(spaces((k + 1 - n) as nat) =~= spaces((k - n) as nat).push(' '));
        k = k + 1;
    }
    assert(start == old(out)@ + s@);
}

/// The line of one machine: id, name, provider and state in columns of 8,
/// 7, 10 and 8, then the directory of its data.
pub open spec fn status_row_of(
    id: Seq<char>,
    name: Seq<char>,
    provider: Seq<char>,
    state: Seq<char>,
    dir: Seq<char>,
) -> Seq<char> {
    padded(id, 8) + " "@ + padded(name, 7) + " "@ + padded(provider, 10) + " "@ + padded(state, 8)
        + " "@ + dir
}

/// Returns the line of one machine of the index.
pub fn status_row(id: &str, name: &str, provider: &str, state: &str, dir: &str) -> (r: String)
    ensures
        r@ == status_row_of(id@, name@, provider@, state@, dir@),
{
    let mut r = String::new();
    push_padded(&mut r, id, 8);
    r.append(" ");
    push_padded(&mut r, name, 7);
    r.append(" ");
    push_padded(&mut r, provider, 10);
    r.append(" ");
    push_padded(&mut r, state, 8);
    r.append(" ");
    r.append(dir);
    assert(r@ =~= status_row_of(id@, name@, provider@, state@, dir@));
    r
}

/// The lines above the machines.
pub open spec fn status_header_of() -> Seq<Seq<char>> {
    seq![
        "id       name    provider   state    directory"@,
        "-------------------------------------------------------------------------"@,
    ]
}

/// The lines that stand for an empty index.
pub open spec fn no_machines_of() -> Seq<Seq<char>> {
    seq![
        "There are no active Vagrant environments on this computer! Or,"@,
        "you haven't destroyed and recreated vagrant environments that were"@,
        "started with an older version of Vagrant."@,
    ]
}

/// The lines below the machines.
pub open spec fn status_footer_of() -> Seq<Seq<char>> {
    seq![
        "\nThe above shows information about all known Vagrant environments"@,
        "on this machine. This data is cached and may not be completely"@,
        "up-to-date (use \"migratory global-status --prune\" to prune invalid"@,
        "entries). To send a command to a specific machine, use the 7-character"@,
        "ID that is shown in the first column of each entry:\n"@,
        "  migratory <command> <id>"@,
    ]
}

/// The views of a list of strings.
pub open spec fn line_views(v: Seq<String>) -> Seq<Seq<char>> {
    v.map_values(|s: String| s@)
}

/// Returns the report of an index, given the line of each machine: the
/// header, then the lines of the machines and the footer, or the lines that
/// stand for an empty index.
pub fn status_report(rows: Vec<String>) -> (r: Vec<String>)
    ensures
        line_views(r@) == status_header_of() + if rows@.len() == 0 {
            no_machines_of()
        } else {
            line_views(rows@) + status_footer_of()
        },
{
    let mut r: Vec<String> = Vec::new();
    r.push("id       name    provider   state    directory".to_owned());
    r.push("-------------------------------------------------------------------------".to_owned());
    if rows.len() == 0 {
        r.push("There are no active Vagrant environments on this computer! Or,".to_owned());
        r.push("you haven't destroyed and recreated vagrant environments that were".to_owned());
        r.push("started with an older version of Vagrant.".to_owned());
        assert(line_views(r@) =~= status_header_of() + no_machines_of());
        return r;
    }
    let ghost head = line_views(r@);
    assert(head =~= status_header_of());
    let mut rows = rows;
    let ghost given = line_views(rows@);
    r.append(&mut rows);
    assert(line_views(r@) =~= head + given);
    let ghost mid = line_views(r@);
    r.push("\nThe above shows information about all known Vagrant environments".to_owned());
    r.push("on this machine. This data is cached and may not be completely".to_owned());
    r.push("up-to-date (use \"migratory global-status --prune\" to prune invalid".to_owned());
    r.push("entries). To send a command to a specific machine, use the 7-character".to_owned());
    r.push("ID that is shown in the first column of each entry:\n".to_owned());
    r.push("  migratory <command> <id>".to_owned());
    assert(line_views(r@) =~= mid + status_footer_of());
    r
}

/// The line that reports a pruning: none where nothing was pruned.
pub open spec fn pruned_line_of(pruned: nat) -> Option<Seq<char>> {
    if pruned > 0 {
        Some("Pruned "@ + decimal(pruned) + " invalid entries."@)
    } else {
        None
    }
}

/// Returns the line that reports how many entries were pruned.
pub fn pruned_line(pruned: u64) -> (r: Option<String>)
    ensures
        match pruned_line_of(pruned as nat) {
            Some(l) => r matches Some(s) && s@ == l,
            None => r is None,
        },
{
    if pruned > 0 {
        let mut s = "Pruned ".to_owned();
        let n = u64_to_decimal(pruned);
        s.append(n.as_str());
        s.append(" invalid entries.");
        Some(s)
    } else {
        None
    }
}

} // verus!
