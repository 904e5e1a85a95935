//! How a configuration is checked against a project: the `cargo` command line
//! that runs cargo-pup, and the decisions about the project path.
use vstd::prelude::*;
use vstd::string::*;
use crate::text::{seq_contains, str_contains};

verus! {

/// The arguments that point cargo-pup at a project: `--manifest-path` and the
/// path when one is given, none for the current directory.
pub fn check_args(project_path: Option<&str>) -> (r: Vec<String>)
    ensures
        r@.map_values(|s: String| s@) == match project_path {
            Some(p) => seq!["--manifest-path"@, p@],
            None => Seq::<Seq<char>>::empty(),
        },
{
    let mut out: Vec<String> = Vec::new();
    if let Some(p) = project_path {
        out.push(String::from_str("--manifest-path"));
        out.push(String::from_str(p));
    }
    assert(out@.map_values(|s: String| s@) =~= match project_path {
        Some(p) => seq!["--manifest-path"@, p@],
        None => Seq::<Seq<char>>::empty(),
    });
    out
}

/// The arguments of the `cargo` invocation that runs cargo-pup's `command`
/// with configuration file `config_path`, followed by `args`: through
/// `cargo run` on the cargo-pup workspace manifest when one is found, else
/// through the installed `cargo pup`.
pub open spec fn pup_invocation_args(
    workspace_manifest: Option<Seq<char>>,
    command: Seq<char>,
    config_path: Seq<char>,
    args: Seq<Seq<char>>,
) -> Seq<Seq<char>> {
    match workspace_manifest {
        Some(m) => seq![
            "run"@,
            "--manifest-path"@,
            m,
            "--bin"@,
            "cargo-pup"@,
            "--"@,
            command,
            "--pup-config"@,
            config_path,
        ] + args,
        None => seq!["pup"@, command, "--pup-config"@, config_path] + args,
    }
}

fn push_str(out: &mut Vec<String>, s: &str)
    ensures
        final(out)@.map_values(|x: String| x@) == old(out)@.map_values(|x: String| x@).push(s@),
{
    out.push(String::from_str(s));
    assert(out@.map_values(|x: String| x@) =~= old(out)@.map_values(|x: String| x@).push(s@));
}

/// The arguments of the `cargo` invocation that runs cargo-pup (see
/// `pup_invocation_args`).
pub fn pup_invocation(
    workspace_manifest: Option<&str>,
    command: &str,
    config_path: &str,
    args: &Vec<String>,
) -> (r: Vec<String>)
    ensures
        r@.map_values(|s: String| s@) == pup_invocation_args(
            match workspace_manifest {
                Some(m) => Some(m@),
                None => None,
            },
            command@,
            config_path@,
            args@.map_values(|s: String| s@),
        ),
{
    let mut out: Vec<String> = Vec::new();
    match workspace_manifest {
        Some(m) => {
            push_str(&mut out, "run");
            push_str(&mut out, "--manifest-path");
            push_str(&mut out, m);
            push_str(&mut out, "--bin");
            push_str(&mut out, "cargo-pup");
            push_str(&mut out, "--");
        },
        None => {
            push_str(&mut out, "pup");
        },
    }
    push_str(&mut out, command);
    push_str(&mut out, "--pup-config");
    push_str(&mut out, config_path);
    let ghost head = out@.map_values(|s: String| s@);
    let mut i: usize = 0;
    while i < args.len()
        invariant
            i <= args@.len(),
            out@.map_values(|s: String| s@) == head + args@.map_values(|s: String| s@).take(i as int),
        decreases args.len() - i,
    {
        push_str(&mut out, args[i].as_str());
        assert(args@.map_values(|s: String| s@).take(i + 1) =~= args@.map_values(|s: String| s@).take(
            i as int,
        ).push(args@[i as int]@));
        i = i + 1;
    }
    assert(args@.map_values(|s: String| s@).take(args@.len() as int) =~= args@.map_values(|s: String| s@));
    out
}

/// Whether a manifest is that of cargo-pup, or of a workspace that holds it.
pub open spec fn is_pup_manifest(contents: Seq<char>) -> bool {
    seq_contains(contents, "name = \"cargo-pup\""@) || (seq_contains(contents, "[workspace]"@) && seq_contains(
        contents,
        "cargo_pup"@,
    ))
}

/// Whether a manifest is that of cargo-pup, or of a workspace that holds it.
pub fn is_pup_workspace_manifest(contents: &str) -> (r: bool)
    ensures
        r == is_pup_manifest(contents@),
{
    str_contains(contents, "name = \"cargo-pup\"") || (str_contains(contents, "[workspace]") && str_contains(
        contents,
        "cargo_pup",
    ))
}

/// How cargo-pup is invoked: through `cargo run` on the workspace manifest
/// (binary `cargo-pup`) when one is known, else through `cargo pup`; then the
/// command, `--pup-config` and the configuration path, and last the given
/// arguments, unchanged and in order.
pub proof fn lemma_pup_invocation(
    workspace_manifest: Option<Seq<char>>,
    command: Seq<char>,
    config_path: Seq<char>,
    args: Seq<Seq<char>>,
)
    ensures
        ({
            let r = pup_invocation_args(workspace_manifest, command, config_path, args);
            let n = r.len() - args.len();
            &&& n == (if workspace_manifest is Some {
                9int
            } else {
                4int
            })
            &&& r.skip(n) == args
            &&& r[n - 1] == config_path
            &&& r[n - 2] == "--pup-config"@
            &&& r[n - 3] == command
            &&& workspace_manifest is None ==> r[0] == "pup"@
            &&& workspace_manifest matches Some(m) ==> r[0] == "run"@ && r[1] == "--manifest-path"@ && r[2] == m
                && r[3] == "--bin"@ && r[4] == "cargo-pup"@ && r[5] == "--"@
        }),
{
    let r = pup_invocation_args(workspace_manifest, command, config_path, args);
    let n = r.len() - args.len();
    assert(r.skip(n) =~= args);
}

/// A manifest that names the package `cargo-pup`, or a workspace manifest that
/// mentions `cargo_pup`, is cargo-pup's.
pub proof fn lemma_pup_manifest(pre: Seq<char>, post: Seq<char>, a: Seq<char>, b: Seq<char>, c: Seq<char>)
    ensures
        is_pup_manifest(pre + "name = \"cargo-pup\""@ + post),
        is_pup_manifest(a + "[workspace]"@ + b + "cargo_pup"@ + c),
{
    crate::text::lemma_contains_concat(pre, "name = \"cargo-pup\""@, post);
    let w = a + "[workspace]"@ + b + "cargo_pup"@ + c;
    assert(w =~= a + "[workspace]"@ + (b + "cargo_pup"@ + c));
    crate::text::lemma_contains_concat(a, "[workspace]"@, b + "cargo_pup"@ + c);
    crate::text::lemma_contains_concat(a + "[workspace]"@ + b, "cargo_pup"@, c);
}

/// What a project path turned out to be.
#[derive(Debug)]
pub enum PathKind {
    /// A file, with its name when it has one.
    File(Option<String>),
    Dir,
    Other,
}

/// The directory of the project at (canonical) path `path` of the given kind:
/// a `Cargo.toml` file stands for its directory `parent`, a directory for
/// itself; anything else is refused with a message naming `shown`, the path as
/// it was given.
pub fn project_dir_of(path: &str, parent: Option<&str>, kind: &PathKind, shown: &str) -> (r: Result<String, String>)
    ensures
        match kind {
            PathKind::File(name) => if name matches Some(n) && n@ == "Cargo.toml"@ {
                match parent {
                    Some(p) => r matches Ok(d) && d@ == p@,
                    None => r matches Err(m) && m@ == "Cargo.toml file has no parent directory"@,
                }
            } else {
                r matches Err(m) && m@ == "Path "@ + shown@ + " exists but is not a Cargo.toml file"@
            },
            PathKind::Dir => r matches Ok(d) && d@ == path@,
            PathKind::Other => r matches Err(m) && m@ == "Path "@ + shown@
                + " exists but is neither a file nor directory"@,
        },
{
    match kind {
        PathKind::File(name) => {
            let is_manifest = match name {
                Some(n) => crate::text::str_eq(n.as_str(), "Cargo.toml"),
                None => false,
            };
            if is_manifest {
                match parent {
                    Some(p) => Ok(String::from_str(p)),
                    None => Err(String::from_str("Cargo.toml file has no parent directory")),
                }
            } else {
                let mut m = String::from_str("Path ");
                m.append(shown);
                m.append(" exists but is not a Cargo.toml file");
                Err(m)
            }
        },
        PathKind::Dir => Ok(String::from_str(path)),
        PathKind::Other => {
            let mut m = String::from_str("Path ");
            m.append(shown);
            m.append(" exists but is neither a file nor directory");
            Err(m)
        },
    }
}

/// The message when the project directory `dir` has no `Cargo.toml`.
pub fn missing_manifest_message(dir: &str) -> (r: String)
    ensures
        r@ == "No Cargo.toml found in directory: "@ + dir@,
{
    let mut m = String::from_str("No Cargo.toml found in directory: ");
    m.append(dir);
    m
}

/// The message when the project to check is not valid: it names the path
/// given, or says that the current directory is not a project.
pub fn invalid_project_message(explicit: bool, path: &str) -> (r: String)
    ensures
        r@ == if explicit {
            "Invalid manifest path: "@ + path@
        } else {
            "Current working directory is not a valid Cargo project: "@ + path@
        },
{
    let mut m = if explicit {
        String::from_str("Invalid manifest path: ")
    } else {
        String::from_str("Current working directory is not a valid Cargo project: ")
    };
    m.append(path);
    m
}

} // verus!
