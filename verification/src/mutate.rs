//! The `mutate` command: converting a cached box from one provider to
//! another — which disk format and file it gets, and its new metadata and
//! Vagrantfile.

use vstd::prelude::*;
use crate::error::MigratoryError;
use crate::text::{str_eq, lowercase, to_lower, replace_all, replace_str};

verus! {

/// The arguments of the `mutate` command.
pub struct MutateArgs {
    /// The box to convert.
    pub box_name: Option<String>,
    /// The provider to convert it to.
    pub destination_provider: Option<String>,
    /// The provider to convert it from, where the box has several.
    pub input_provider: Option<String>,
    /// Force virtio drivers on the converted box.
    pub force_virtio: bool,
}

/// A conversion whose arguments are complete.
#[derive(Debug)]
pub struct MutatePlan {
    /// The box to convert.
    pub box_name: String,
    /// The provider to convert it to.
    pub destination_provider: String,
}

/// Checks the arguments of the `mutate` command: the box name and the
/// destination provider are required, in that order.
pub fn execute(args: &MutateArgs) -> (r: Result<MutatePlan, MigratoryError>)
    ensures
        args.box_name is None ==> (r matches Err(e) && e matches MigratoryError::Generic(m) && m@
            == "Box name required"@),
        args.box_name is Some && args.destination_provider is None ==> (r matches Err(e)
            && e matches MigratoryError::Generic(m) && m@ == "Destination provider required"@),
        args.box_name matches Some(b) ==> (args.destination_provider matches Some(d) ==> (r matches Ok(p)
            && p.box_name@ == b@ && p.destination_provider@ == d@)),
{
    let box_name = match &args.box_name {
        Some(name) => name.clone(),
        None => return Err(MigratoryError::Generic("Box name required".to_owned())),
    };
    let dest = match &args.destination_provider {
        Some(name) => name.clone(),
        None => return Err(MigratoryError::Generic("Destination provider required".to_owned())),
    };
    Ok(MutatePlan { box_name, destination_provider: dest })
}

/// Whether the provider takes qcow2 disks (`libvirt` and `qemu`).
pub open spec fn takes_qcow2(dest: Seq<char>) -> bool {
    dest == "libvirt"@ || dest == "qemu"@
}

/// The disk format for a provider: qcow2 for `libvirt` and `qemu`, vmdk
/// for the others.
pub open spec fn format_for(dest: Seq<char>) -> Seq<char> {
    if takes_qcow2(dest) {
        "qcow2"@
    } else {
        "vmdk"@
    }
}

/// Returns the disk format for the provider `dest`.
pub fn target_format(dest: &str) -> (f: &'static str)
    ensures
        f@ == format_for(dest@),
{
    if str_eq(dest, "libvirt") || str_eq(dest, "qemu") {
        "qcow2"
    } else {
        "vmdk"
    }
}

/// The file name of the converted disk for a format.
pub open spec fn disk_name_for(format: Seq<char>) -> Seq<char> {
    if format == "qcow2"@ {
        "box.img"@
    } else {
        "box-disk1.vmdk"@
    }
}

/// Returns the file name of the converted disk for `format`.
pub fn target_disk_name(format: &str) -> (n: &'static str)
    ensures
        n@ == disk_name_for(format@),
{
    if str_eq(format, "qcow2") {
        "box.img"
    } else {
        "box-disk1.vmdk"
    }
}

/// Whether a file extension, in any case, is that of a disk image.
pub open spec fn is_disk_ext(ext: Seq<char>) -> bool {
    let l = lowercase(ext);
    l == "vmdk"@ || l == "qcow2"@ || l == "img"@ || l == "vdi"@ || l == "raw"@
}

/// Returns whether `ext` is the extension of a disk image.
pub fn is_disk_extension(ext: &str) -> (b: bool)
    ensures
        b == is_disk_ext(ext@),
{
    let l = to_lower(ext);
    let s = l.as_str();
    str_eq(s, "vmdk") || str_eq(s, "qcow2") || str_eq(s, "img") || str_eq(s, "vdi") || str_eq(
        s,
        "raw",
    )
}

/// The `metadata.json` of the converted box.
pub open spec fn metadata_of(dest: Seq<char>, format: Seq<char>) -> Seq<char> {
    "{\n  \"provider\": \""@ + dest + "\",\n  \"format\": \""@ + format + "\"\n}\n"@
}

/// Returns the `metadata.json` of the converted box.
pub fn metadata_json(dest: &str, format: &str) -> (s: String)
    ensures
        s@ == metadata_of(dest@, format@),
{
    let mut s = "{\n  \"provider\": \"".to_owned();
    s.append(dest);
    s.append("\",\n  \"format\": \"");
    s.append(format);
    s.append("\"\n}\n");
    s
}

/// The Vagrantfile of the converted box: the original with `virtualbox`
/// replaced by the destination provider (and a virtio note where forced
/// for a qcow2 provider), or a minimal one where the box has none.
pub open spec fn vagrantfile_of(original: Option<Seq<char>>, dest: Seq<char>, force_virtio: bool) -> Seq<char> {
    match original {
        Some(orig) => replace_all(orig, "virtualbox"@, dest) + if force_virtio && takes_qcow2(dest) {
            "\n# Forcing virtio driver\n"@
        } else {
            Seq::empty()
        },
        None => "Vagrant.configure(\"2\") do |config|\n  config.vm.provider :"@ + dest
            + " do |p|\n  end\nend\n"@,
    }
}

/// Returns the Vagrantfile of the converted box.
pub fn adapt_vagrantfile(original: Option<&str>, dest: &str, force_virtio: bool) -> (s: String)
    ensures
        s@ == vagrantfile_of(
            match original { Some(o) => Some(o@), None => None },
            dest@,
            force_virtio,
        ),
{
    match original {
        Some(orig) => {
            let pat = "virtualbox";
            proof {
                reveal_strlit("virtualbox");
            }
            let mut s = replace_str(orig, pat, dest);
            if force_virtio && (str_eq(dest, "libvirt") || str_eq(dest, "qemu")) {
                s.append("\n# Forcing virtio driver\n");
            } else {
                assert(s@ =~= s@ + Seq::<char>::empty());
            }
            s
        },
        None => {
            let mut s = "Vagrant.configure(\"2\") do |config|\n  config.vm.provider :".to_owned();
            s.append(dest);
            s.append(" do |p|\n  end\nend\n");
            s
        },
    }
}

/// Whether a provider directory named `provider` can be the source: any
/// one where no input provider is asked for, else the one asked for.
pub open spec fn source_passes(requested: Option<Seq<char>>, provider: Seq<char>) -> bool {
    match requested {
        Some(q) => q == provider,
        None => true,
    }
}

/// Whether `(i, k)` picks the source among the box's version directories
/// and their provider directories (`tree`, in the order they are listed):
/// it is the first pair, version by version, whose provider can be the
/// source.
pub open spec fn is_first_source(
    tree: Seq<(String, Vec<String>)>,
    requested: Option<Seq<char>>,
    i: int,
    k: int,
) -> bool {
    &&& 0 <= i < tree.len()
    &&& 0 <= k < tree[i].1@.len()
    &&& source_passes(requested, tree[i].1@[k]@)
    &&& forall|a: int, b: int|
        0 <= a < tree.len() && 0 <= b < tree[a].1@.len() && (a < i || (a == i && b < k))
            ==> !source_passes(requested, #[trigger] tree[a].1@[b]@)
}

/// Picks the provider directory to convert from: the first, version by
/// version, that is the input provider asked for (or any, where none is);
/// `None` where there is none.
pub fn pick_source(tree: &Vec<(String, Vec<String>)>, requested: Option<&str>) -> (r: Option<
    (usize, usize),
>)
    ensures
        r matches Some((i, k)) ==> is_first_source(
            tree@,
            match requested { Some(q) => Some(q@), None => None },
            i as int,
            k as int,
        ),
        r is None ==> forall|a: int, b: int|
            0 <= a < tree@.len() && 0 <= b < tree@[a].1@.len() ==> !source_passes(
                match requested { Some(q) => Some(q@), None => None },
                #[trigger] tree@[a].1@[b]@,
            ),
{
    let ghost req = match requested {
        Some(q) => Some(q@),
        None => None,
    };
    let mut i: usize = 0;
    while i < tree.len()
        invariant
            i <= tree.len(),
            req == match requested { Some(q) => Some(q@), None => None },
            forall|a: int, b: int|
                0 <= a < i && 0 <= b < tree@[a].1@.len() ==> !source_passes(
                    req,
                    #[trigger] tree@[a].1@[b]@,
                ),
        decreases tree.len() - i,
    {
        let provs = &tree[i].1;
        let mut k: usize = 0;
        while k < provs.len()
            invariant
                i < tree.len(),
                k <= provs.len(),
                provs@ == tree@[i as int].1@,
                req == match requested { Some(q) => Some(q@), None => None },
                forall|a: int, b: int|
                    0 <= a < i && 0 <= b < tree@[a].1@.len() ==> !source_passes(
                        req,
                        #[trigger] tree@[a].1@[b]@,
                    ),
                forall|b: int| 0 <= b < k ==> !source_passes(req, #[trigger] tree@[i as int].1@[b]@),
            decreases provs.len() - k,
        {
            let ok = match requested {
                Some(q) => str_eq(q, provs[k].as_str()),
                None => true,
            };
            if ok {
                return Some((i, k));
            }
            k = k + 1;
        }
        i = i + 1;
    }
    None
}

} // verus!
