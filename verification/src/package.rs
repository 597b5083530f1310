//! The `package` command: which machine it packs, where to, and the box
//! metadata it writes.

use vstd::prelude::*;
use crate::error::MigratoryError;
use crate::text::str_eq;
use crate::box_manager::hex_digit;

verus! {

/// The character views of a list of strings.
pub open spec fn str_views(v: Seq<String>) -> Seq<Seq<char>> {
    v.map_values(|s: String| s@)
}

/// The message of the error for a machine that the configuration lacks.
pub open spec fn machine_missing_message(name: Seq<char>) -> Seq<char> {
    "Machine '"@ + name + "' not found"@
}

/// The message of the error for an unnamed machine of several.
pub open spec fn name_required_message() -> Seq<char> {
    "A name is required when packaging a multi-machine environment."@
}

/// Chooses the machine to package among the configured `machines`: the
/// named one (which must be configured unless a base machine is given), the
/// only one, or `default` where none is configured; several without a name
/// are an error.
pub fn package_target(name: Option<&str>, machines: &Vec<String>, has_base: bool) -> (r: Result<
    String,
    MigratoryError,
>)
    ensures
        name matches Some(t) ==> if str_views(machines@).contains(t@) || has_base {
            r matches Ok(s) && s@ == t@
        } else {
            r matches Err(e) && e matches MigratoryError::NotFound(m) && m@
                == machine_missing_message(t@)
        },
        name is None ==> if machines@.len() == 1 {
            r matches Ok(s) && s@ == machines@[0]@
        } else if machines@.len() == 0 {
            r matches Ok(s) && s@ == "default"@
        } else {
            r matches Err(e) && e matches MigratoryError::Generic(m) && m@
                == name_required_message()
        },
{
    match name {
        Some(t) => {
            let mut found = false;
            let mut i: usize = 0;
            while i < machines.len()
                invariant
                    i <= machines.len(),
                    found == exists|k: int| 0 <= k < i && machines@[k]@ == t@,
                decreases machines.len() - i,
            {
                if str_eq(machines[i].as_str(), t) {
                    found = true;
                }
                i = i + 1;
            }
            proof {
                if found {
                    let k = choose|k: int| 0 <= k < machines@.len() && machines@[k]@ == t@;
                    assert(str_views(machines@)[k] == t@);
                }
                if str_views(machines@).contains(t@) {
                    let k = choose|k: int| 0 <= k < str_views(machines@).len() && str_views(machines@)[k] == t@;
                    assert(machines@[k]@ == t@);
                }
            }
            if !found && !has_base {
                let mut m = "Machine '".to_owned();
                m.append(t);
                m.append("' not found");
                return Err(MigratoryError::NotFound(m));
            }
            Ok(t.to_owned())
        },
        None => {
            if machines.len() == 1 {
                Ok(machines[0].clone())
            } else if machines.len() == 0 {
                Ok("default".to_owned())
            } else {
                Err(
                    MigratoryError::Generic(
                        "A name is required when packaging a multi-machine environment.".to_owned(),
                    ),
                )
            }
        },
    }
}

/// The package file: the given one, `package.box` by default.
pub fn package_output(output: Option<&str>) -> (r: String)
    ensures
        r@ == match output {
            Some(o) => o@,
            None => "package.box"@,
        },
{
    match output {
        Some(o) => o.to_owned(),
        None => "package.box".to_owned(),
    }
}

/// Whether a machine in `state` is halted before it is packaged: unless it
/// is powered off or saved.
pub fn halt_before_packaging(state: &str) -> (b: bool)
    ensures
        b == (state@ != "poweroff"@ && state@ != "saved"@),
{
    !str_eq(state, "poweroff") && !str_eq(state, "saved")
}

/// How a JSON string spells the character `c`: a quote, a backslash and
/// the control characters are escaped (`\b`, `\t`, `\n`, `\f`, `\r`, or
/// `\u00` and two lowercase hexadecimal digits); any other stands for itself.
pub open spec fn json_escaped(c: char) -> Seq<char> {
    let u = c as u32;
    if c == '"' {
        seq!['\\', '"']
    } else if c == '\\' {
        seq!['\\', '\\']
    } else if u == 0x08 {
        seq!['\\', 'b']
    } else if u == 0x09 {
        seq!['\\', 't']
    } else if u == 0x0A {
        seq!['\\', 'n']
    } else if u == 0x0C {
        seq!['\\', 'f']
    } else if u == 0x0D {
        seq!['\\', 'r']
    } else if u < 0x20 {
        seq!['\\', 'u', '0', '0', hex_digit(u as int / 16), hex_digit(u as int % 16)]
    } else {
        seq![c]
    }
}

/// The characters of `s`, each as a JSON string spells it.
pub open spec fn json_escaped_all(s: Seq<char>) -> Seq<char>
    decreases s.len(),
{
    if s.len() == 0 {
        Seq::empty()
    } else {
        json_escaped_all(s.drop_last()) + json_escaped(s.last())
    }
}

/// The JSON string literal of `s`.
pub open spec fn json_quoted(s: Seq<char>) -> Seq<char> {
    seq!['"'] + json_escaped_all(s) + seq!['"']
}

/// The pretty-printed JSON object with the one string field `key` (two
/// spaces of indent, as serde_json's pretty printer writes it).
pub open spec fn pretty_json_field(key: Seq<char>, value: Seq<char>) -> Seq<char> {
    "{\n  "@ + json_quoted(key) + ": "@ + json_quoted(value) + "\n}"@
}

/// serde_json `to_string_pretty` of the object `{key: value}`.
#[verifier::external_body]
fn json_object_text(key: &str, value: &str) -> (r: String)
    ensures
        r@ == pretty_json_field(key@, value@),
{
    let mut object = serde_json::Map::new();
    object.insert(key.to_owned(), serde_json::Value::String(value.to_owned()));
    serde_json::to_string_pretty(&serde_json::Value::Object(object)).unwrap_or_default()
}

/// Returns the `metadata.json` of a package for `provider`.
pub fn package_metadata(provider: &str) -> (r: String)
    ensures
        r@ == pretty_json_field("provider"@, provider@),
{
    json_object_text("provider", provider)
}

} // verus!
