//! The Docker commands: which container a machine runs in, and the
//! `docker exec`, `docker logs` and `docker run` argument lists.

use vstd::prelude::*;
use crate::error::MigratoryError;
use crate::text::{chars_of, trim, trim_chars};

verus! {

/// The character views of a list of strings.
pub open spec fn str_views(v: Seq<String>) -> Seq<Seq<char>> {
    v.map_values(|s: String| s@)
}

/// The view of an optional string.
pub open spec fn opt_view(o: Option<String>) -> Option<Seq<char>> {
    match o {
        Some(s) => Some(s@),
        None => None,
    }
}

/// The words that a flag adds: `w` where it is set.
pub open spec fn flag(set: bool, w: Seq<Seq<char>>) -> Seq<Seq<char>> {
    if set {
        w
    } else {
        Seq::empty()
    }
}

/// The message of the error for a machine without a running container.
pub open spec fn missing_container_message(machine: Seq<char>) -> Seq<char> {
    "Docker container ID for machine '"@ + machine + "' not found. Is the container running?"@
}

/// Checks the container id recorded for `machine`: it must exist and hold
/// more than whitespace.
pub fn container_id(machine: &str, recorded: Option<String>) -> (r: Result<String, MigratoryError>)
    ensures
        match recorded {
            Some(id) => if trim(id@).len() > 0 {
                r matches Ok(s) && s@ == id@
            } else {
                r matches Err(e) && e matches MigratoryError::NotFound(m) && m@
                    == missing_container_message(machine@)
            },
            None => r matches Err(e) && e matches MigratoryError::NotFound(m) && m@
                == missing_container_message(machine@),
        },
{
    match recorded {
        Some(id) => {
            let chars = chars_of(id.as_str());
            if trim_chars(&chars).len() > 0 {
                return Ok(id);
            }
        },
        None => {},
    }
    let mut m = "Docker container ID for machine '".to_owned();
    m.append(machine);
    m.append("' not found. Is the container running?");
    Err(MigratoryError::NotFound(m))
}

/// The views of a list of optional strings.
pub open spec fn opt_views(v: Seq<Option<String>>) -> Seq<Option<Seq<char>>> {
    v.map_values(|o: Option<String>| opt_view(o))
}

/// The image `docker-run` starts: the first box name that holds more than
/// whitespace, `alpine:latest` where there is none.
pub open spec fn image_of(boxes: Seq<Option<Seq<char>>>) -> Seq<char>
    decreases boxes.len(),
{
    if boxes.len() == 0 {
        "alpine:latest"@
    } else if boxes[0] is Some && trim(boxes[0]->0).len() > 0 {
        boxes[0]->0
    } else {
        image_of(boxes.drop_first())
    }
}

/// Returns the image `docker-run` starts, from the box names of the
/// machines in the order given.
pub fn resolve_docker_image(boxes: &Vec<Option<String>>) -> (r: String)
    ensures
        r@ == image_of(opt_views(boxes@)),
{
    let ghost all = opt_views(boxes@);
    let mut i: usize = 0;
    assert(all.subrange(0, all.len() as int) =~= all);
    while i < boxes.len()
        invariant
            0 <= i <= boxes.len(),
            all == opt_views(boxes@),
            image_of(all) == image_of(all.subrange(i as int, all.len() as int)),
        decreases boxes.len() - i,
    {
        let ghost rest = all.subrange(i as int, all.len() as int);
        assert(rest[0] == opt_view(boxes@[i as int]));
        match &boxes[i] {
            Some(b) => {
                let chars = chars_of(b.as_str());
                if trim_chars(&chars).len() > 0 {
                    return b.clone();
                }
            },
            None => {},
        }
        assert(rest.drop_first() =~= all.subrange(i + 1, all.len() as int));
        i += 1;
    }
    "alpine:latest".to_owned()
}

/// The arguments of `docker-exec`.
pub struct DockerExecArgs {
    /// The machine, `default` where not given.
    pub name: Option<String>,
    /// Keep standard input open.
    pub interactive: bool,
    /// Allocate a terminal.
    pub tty: bool,
    /// Run in the background.
    pub detach: bool,
    /// The user to run as.
    pub user: Option<String>,
    /// The command.
    pub command: Option<String>,
    /// The command's arguments.
    pub args: Vec<String>,
}

/// The machine that `docker-exec` targets.
pub fn exec_target(args: &DockerExecArgs) -> (r: String)
    ensures
        r@ == match opt_view(args.name) {
            Some(n) => n,
            None => "default"@,
        },
{
    match &args.name {
        Some(n) => n.clone(),
        None => "default".to_owned(),
    }
}

/// The `docker` arguments of `docker-exec`: the flags, the user, the
/// container, then the command and its arguments (`sh` where no command is
/// given).
pub open spec fn exec_args_of(args: DockerExecArgs, id: Seq<char>) -> Seq<Seq<char>> {
    seq!["exec"@] + flag(args.interactive, seq!["-i"@]) + flag(args.tty, seq!["-t"@]) + flag(
        args.detach,
        seq!["-d"@],
    ) + match opt_view(args.user) {
        Some(u) => seq!["-u"@, u],
        None => Seq::empty(),
    } + seq![id] + match opt_view(args.command) {
        Some(c) => seq![c],
        None => Seq::empty(),
    } + str_views(args.args@) + match args.command {
        Some(_) => Seq::empty(),
        None => seq!["sh"@],
    }
}

/// Appends a copy of each of `items` to `out`.
fn push_all(out: &mut Vec<String>, items: &Vec<String>)
    ensures
        str_views(final(out)@) == str_views(old(out)@) + str_views(items@),
{
    let ghost start = str_views(out@);
    let mut i: usize = 0;
    while i < items.len()
        invariant
            i <= items.len(),
            str_views(out@) == start + str_views(items@).take(i as int),
        decreases items.len() - i,
    {
        let ghost before = str_views(out@);
        out.push(items[i].clone());
        assert(str_views(out@) =~= before.push(items@[i as int]@));
        assert(str_views(items@).take(i + 1) =~= str_views(items@).take(i as int).push(
            items@[i as int]@,
        ));
        i = i + 1;
    }
    assert(str_views(items@).take(items.len() as int) =~= str_views(items@));
}

/// Returns the `docker` arguments of `docker-exec` on the container `id`.
pub fn exec_args(args: &DockerExecArgs, id: &str) -> (r: Vec<String>)
    ensures
        str_views(r@) == exec_args_of(*args, id@),
{
    let mut r: Vec<String> = Vec::new();
    r.push("exec".to_owned());
    let ghost s0 = str_views(r@);
    if args.interactive {
        r.push("-i".to_owned());
    }
    let ghost s1 = str_views(r@);
    assert(s1 =~= s0 + flag(args.interactive, seq!["-i"@]));
    if args.tty {
        r.push("-t".to_owned());
    }
    let ghost s2 = str_views(r@);
    assert(s2 =~= s1 + flag(args.tty, seq!["-t"@]));
    if args.detach {
        r.push("-d".to_owned());
    }
    let ghost s3 = str_views(r@);
    assert(s3 =~= s2 + flag(args.detach, seq!["-d"@]));
    match &args.user {
        Some(u) => {
            r.push("-u".to_owned());
            r.push(u.clone());
        },
        None => {},
    }
    let ghost s4 = str_views(r@);
    assert(s4 =~= s3 + match opt_view(args.user) {
        Some(u) => seq!["-u"@, u],
        None => Seq::<Seq<char>>::empty(),
    });
    r.push(id.to_owned());
    let ghost s5 = str_views(r@);
    assert(s5 =~= s4 + seq![id@]);
    match &args.command {
        Some(c) => r.push(c.clone()),
        None => {},
    }
    let ghost s6 = str_views(r@);
    assert(s6 =~= s5 + match opt_view(args.command) {
        Some(c) => seq![c],
        None => Seq::<Seq<char>>::empty(),
    });
    push_all(&mut r, &args.args);
    let ghost s7 = str_views(r@);
    if args.command.is_none() {
        r.push("sh".to_owned());
    }
    assert(str_views(r@) =~= s7 + match args.command {
        Some(_) => Seq::<Seq<char>>::empty(),
        None => seq!["sh"@],
    });
    r
}

/// The arguments of `docker-logs`.
pub struct DockerLogsArgs {
    /// Follow the output.
    pub follow: bool,
    /// How many lines from the end to show.
    pub tail: Option<String>,
    /// Show timestamps.
    pub timestamps: bool,
}

/// The `docker` arguments of `docker-logs`.
pub open spec fn logs_args_of(args: DockerLogsArgs, id: Seq<char>) -> Seq<Seq<char>> {
    seq!["logs"@] + flag(args.follow, seq!["-f"@]) + match opt_view(args.tail) {
        Some(t) => seq!["--tail"@, t],
        None => Seq::empty(),
    } + flag(args.timestamps, seq!["-t"@]) + seq![id]
}

/// Returns the `docker` arguments of `docker-logs` on the container `id`.
pub fn logs_args(args: &DockerLogsArgs, id: &str) -> (r: Vec<String>)
    ensures
        str_views(r@) == logs_args_of(*args, id@),
{
    let mut r: Vec<String> = Vec::new();
    r.push("logs".to_owned());
    let ghost s0 = str_views(r@);
    if args.follow {
        r.push("-f".to_owned());
    }
    let ghost s1 = str_views(r@);
    assert(s1 =~= s0 + flag(args.follow, seq!["-f"@]));
    match &args.tail {
        Some(t) => {
            r.push("--tail".to_owned());
            r.push(t.clone());
        },
        None => {},
    }
    let ghost s2 = str_views(r@);
    assert(s2 =~= s1 + match opt_view(args.tail) {
        Some(t) => seq!["--tail"@, t],
        None => Seq::<Seq<char>>::empty(),
    });
    if args.timestamps {
        r.push("-t".to_owned());
    }
    let ghost s3 = str_views(r@);
    assert(s3 =~= s2 + flag(args.timestamps, seq!["-t"@]));
    r.push(id.to_owned());
    assert(str_views(r@) =~= s3 + seq![id@]);
    r
}

/// The arguments of `docker-run`.
pub struct DockerRunArgs {
    /// The command to run.
    pub command: Option<String>,
    /// The command's arguments.
    pub args: Vec<String>,
    /// Keep the container afterwards.
    pub no_rm: bool,
    /// Run in the background.
    pub detach: bool,
    /// Do not run in the background, whatever `detach` says.
    pub no_detach: bool,
    /// Allocate an interactive terminal.
    pub tty: bool,
}

/// The `docker` arguments of `docker-run` from `image`.
pub open spec fn run_args_of(args: DockerRunArgs, image: Seq<char>) -> Seq<Seq<char>> {
    seq!["run"@] + flag(!args.no_rm, seq!["--rm"@]) + flag(
        args.detach && !args.no_detach,
        seq!["-d"@],
    ) + flag(args.tty, seq!["-t"@, "-i"@]) + seq![image] + match opt_view(args.command) {
        Some(c) => seq![c],
        None => Seq::empty(),
    } + str_views(args.args@)
}

/// Returns the `docker` arguments of `docker-run` from `image`.
pub fn run_args(args: &DockerRunArgs, image: &str) -> (r: Vec<String>)
    ensures
        str_views(r@) == run_args_of(*args, image@),
{
    let mut r: Vec<String> = Vec::new();
    r.push("run".to_owned());
    let ghost s0 = str_views(r@);
    if !args.no_rm {
        r.push("--rm".to_owned());
    }
    let ghost s1 = str_views(r@);
    assert(s1 =~= s0 + flag(!args.no_rm, seq!["--rm"@]));
    if args.detach && !args.no_detach {
        r.push("-d".to_owned());
    }
    let ghost s2 = str_views(r@);
    assert(s2 =~= s1 + flag(args.detach && !args.no_detach, seq!["-d"@]));
    if args.tty {
        r.push("-t".to_owned());
        r.push("-i".to_owned());
    }
    let ghost s3 = str_views(r@);
    assert(s3 =~= s2 + flag(args.tty, seq!["-t"@, "-i"@]));
    r.push(image.to_owned());
    let ghost s4 = str_views(r@);
    assert(s4 =~= s3 + seq![image@]);
    match &args.command {
        Some(c) => r.push(c.clone()),
        None => {},
    }
    let ghost s5 = str_views(r@);
    assert(s5 =~= s4 + match opt_view(args.command) {
        Some(c) => seq![c],
        None => Seq::<Seq<char>>::empty(),
    });
    push_all(&mut r, &args.args);
    r
}

} // verus!
