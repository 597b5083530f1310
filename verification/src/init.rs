//! The `init` command: the Vagrantfile it writes.

use vstd::prelude::*;
use crate::text::{replace_all, replace_str};

verus! {

/// The view of an optional string slice.
pub open spec fn opt_view(o: Option<&str>) -> Option<Seq<char>> {
    match o {
        Some(s) => Some(s@),
        None => None,
    }
}

/// The file that `init` writes: the given name, `Vagrantfile` by default.
pub open spec fn output_name_of(output: Option<Seq<char>>) -> Seq<char> {
    match output {
        Some(o) => o,
        None => "Vagrantfile"@,
    }
}

/// Returns the name of the file that `init` writes.
pub fn output_name(output: Option<&str>) -> (r: String)
    ensures
        r@ == output_name_of(opt_view(output)),
{
    match output {
        Some(o) => o.to_owned(),
        None => "Vagrantfile".to_owned(),
    }
}

/// The box of a new Vagrantfile: the given one, `base` by default.
pub open spec fn box_of(box_name: Option<Seq<char>>) -> Seq<char> {
    match box_name {
        Some(b) => b,
        None => "base"@,
    }
}

/// The Vagrantfile that `init` writes: a template with every
/// `{{box_name}}` replaced by the box, or the default configuration of the
/// box (with its version where one is given).
pub open spec fn vagrantfile_of(
    box_name: Seq<char>,
    box_version: Option<Seq<char>>,
    template: Option<Seq<char>>,
) -> Seq<char> {
    match template {
        Some(t) => replace_all(t, "{{box_name}}"@, box_name),
        None => "# -*- mode: ruby -*-\n# vi: set ft=ruby :\n\nVagrant.configure(\"2\") do |config|\n  config.vm.box = \""@
            + box_name + "\"\n"@ + match box_version {
            Some(v) => "  config.vm.box_version = \""@ + v + "\"\n"@,
            None => Seq::empty(),
        } + "end\n"@,
    }
}

/// Returns the Vagrantfile that `init` writes for `box_name` (`base` where
/// none is given), from the contents of a template where one is given.
pub fn vagrantfile(box_name: Option<&str>, box_version: Option<&str>, template: Option<&str>) -> (r:
    String)
    ensures
        r@ == vagrantfile_of(box_of(opt_view(box_name)), opt_view(box_version), opt_view(template)),
{
    let name = match box_name {
        Some(b) => b,
        None => "base",
    };
    match template {
        Some(t) => {
            proof {
                reveal_strlit("{{box_name}}");
            }
            replace_str(t, "{{box_name}}", name)
        },
        None => {
            let mut s =
                "# -*- mode: ruby -*-\n# vi: set ft=ruby :\n\nVagrant.configure(\"2\") do |config|\n  config.vm.box = \"".to_owned();
            s.append(name);
            s.append("\"\n");
            let ghost head = s@;
            match box_version {
                Some(v) => {
                    s.append("  config.vm.box_version = \"");
                    s.append(v);
                    s.append("\"\n");
                },
                None => {},
            }
            assert(s@ =~= head + match opt_view(box_version) {
                Some(v) => "  config.vm.box_version = \""@ + v + "\"\n"@,
                None => Seq::<char>::empty(),
            });
            s.append("end\n");
            s
        },
    }
}

} // verus!
