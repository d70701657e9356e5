//! Reaching other machines over SSH.

use crate::paths::{PathsView, ViaPaths};
use crate::process;
use crate::process::{program2, Run, RunView};
use crate::text;
use crate::text::{next_word, same, split_char};
use vstd::prelude::*;

verus! {

/// What installs a release of Via on a machine.
pub open spec fn install_line(version: Seq<char>) -> Seq<char> {
    "if command -v curl >/dev/null 2>&1; then curl -fsSL https://raw.githubusercontent.com/pompeii-labs/via/main/install.sh | bash -s -- "@
        + version
        + "; elif command -v wget >/dev/null 2>&1; then wget -q https://raw.githubusercontent.com/pompeii-labs/via/main/install.sh -O - | bash -s -- "@
        + version
        + "; else echo 'Via bootstrap needs curl or wget on the remote node.' >&2; exit 127; fi"@
}

/// A command to run on a machine.
pub open spec fn ssh_run(host: Seq<char>, command: Seq<char>) -> RunView {
    RunView::Program { program: "ssh"@, args: seq![host, command] }
}

/// What initializes and starts Via on a machine where it is installed.
pub open spec fn start_line(slug: Seq<char>, mesh_id: Seq<char>, node_id: Seq<char>) -> Seq<char> {
    "chmod +x ~/.via/bin/via && ~/.via/bin/via init --name "@ + slug + " --mesh-id "@ + mesh_id
        + " --node-id "@ + node_id
        + " && (pkill -x via 2>/dev/null || true) && (nohup ~/.via/bin/via daemon --bind 0.0.0.0:47819 > ~/.via/daemon.log 2>&1 & echo $! > ~/.via/daemon.pid)"@
}

/// What is run to make a machine a node of the mesh.
pub open spec fn bootstrap_runs(
    host: Seq<char>,
    paths: PathsView,
    slug: Seq<char>,
    mesh_id: Seq<char>,
    node_id: Seq<char>,
    version: Seq<char>,
) -> Seq<RunView> {
    seq![
        ssh_run(host, "mkdir -p ~/.via ~/.via/lux ~/.via/logs"@),
        ssh_run(host, install_line(version)),
        RunView::Program {
            program: "scp"@,
            args: seq![paths.mesh_key, host + ":~/.via/mesh.key"@],
        },
        ssh_run(host, "chmod 600 ~/.via/mesh.key"@),
        ssh_run(host, start_line(slug, mesh_id, node_id)),
    ]
}

/// What is run to copy a directory to a machine.
pub open spec fn copy_runs(host: Seq<char>, local: Seq<char>, remote: Seq<char>) -> Seq<RunView> {
    seq![
        ssh_run(host, "mkdir -p "@ + remote),
        RunView::Program {
            program: "rsync"@,
            args: seq![
                "-az"@,
                "--delete"@,
                "--exclude"@,
                "target"@,
                "--exclude"@,
                ".git"@,
                local + "/"@,
                host + ":"@ + remote + "/"@,
            ],
        },
    ]
}

/// The host name that a line of SSH's configuration gives.
pub open spec fn named_in(line: Seq<char>) -> Option<Seq<char>> {
    if text::first_word(line) == "hostname"@ && text::first_word(text::after_word(line)).len()
        > 0 {
        Some(text::first_word(text::after_word(line)))
    } else {
        None
    }
}

/// The first host name that these lines of SSH's configuration give, or `host`.
pub open spec fn hostname_in(lines: Seq<Seq<char>>, host: Seq<char>) -> Seq<char>
    decreases lines.len(),
{
    if lines.len() == 0 {
        host
    } else {
        match named_in(lines[0]) {
            Some(name) => name,
            None => hostname_in(lines.skip(1), host),
        }
    }
}

/// What installs a release of Via on a machine.
pub fn remote_install_command(version: &str) -> (r: String)
    ensures
        r@ == install_line(version@),
{
    "if command -v curl >/dev/null 2>&1; then curl -fsSL https://raw.githubusercontent.com/pompeii-labs/via/main/install.sh | bash -s -- ".to_owned().concat(
        version,
    ).concat(
        "; elif command -v wget >/dev/null 2>&1; then wget -q https://raw.githubusercontent.com/pompeii-labs/via/main/install.sh -O - | bash -s -- ",
    ).concat(version).concat(
        "; else echo 'Via bootstrap needs curl or wget on the remote node.' >&2; exit 127; fi",
    )
}

/// Runs a command on a machine.
pub fn remote(host: &str, command: &str) -> (r: Run)
    ensures
        r@ == ssh_run(host@, command@),
{
    program2("ssh", host, command)
}

/// Makes a machine a node of the mesh: installs Via there, hands over the mesh key,
/// and starts the daemon. `process::next_run` says in which order.
pub fn bootstrap(
    host: &str,
    paths: &ViaPaths,
    slug: &str,
    mesh_id: &str,
    node_id: &str,
    version: &str,
) -> (r: Vec<Run>)
    ensures
        process::runs(r@) == bootstrap_runs(host@, paths@, slug@, mesh_id@, node_id@, version@),
{
    let key_target = host.to_owned().concat(":~/.via/mesh.key");
    let start =
        "chmod +x ~/.via/bin/via && ~/.via/bin/via init --name ".to_owned().concat(
        slug,
    ).concat(" --mesh-id ").concat(mesh_id).concat(" --node-id ").concat(node_id).concat(
        " && (pkill -x via 2>/dev/null || true) && (nohup ~/.via/bin/via daemon --bind 0.0.0.0:47819 > ~/.via/daemon.log 2>&1 & echo $! > ~/.via/daemon.pid)",
    );
    let v = vec![
        remote(host, "mkdir -p ~/.via ~/.via/lux ~/.via/logs"),
        remote(host, remote_install_command(version).as_str()),
        program2("scp", paths.mesh_key.as_str(), key_target.as_str()),
        remote(host, "chmod 600 ~/.via/mesh.key"),
        remote(host, start.as_str()),
    ];
    proof {
        assert(process::runs(v@) =~= bootstrap_runs(
            host@,
            paths@,
            slug@,
            mesh_id@,
            node_id@,
            version@,
        ));
    }
    v
}

/// Copies a directory to a machine, without what can be built again.
/// `process::next_run` says in which order.
pub fn copy_dir(host: &str, local: &str, remote_dir: &str) -> (r: Vec<Run>)
    ensures
        process::runs(r@) == copy_runs(host@, local@, remote_dir@),
{
    let make = "mkdir -p ".to_owned().concat(remote_dir);
    let args = vec![
        "-az".to_owned(),
        "--delete".to_owned(),
        "--exclude".to_owned(),
        "target".to_owned(),
        "--exclude".to_owned(),
        ".git".to_owned(),
        local.to_owned().concat("/"),
        host.to_owned().concat(":").concat(remote_dir).concat("/"),
    ];
    proof {
        assert(text::texts(args@) == copy_runs(host@, local@, remote_dir@)[1]->args);
    }
    let v = vec![
        remote(host, make.as_str()),
        Run::Program { program: "rsync".to_owned(), args },
    ];
    proof {
        assert(process::runs(v@) =~= copy_runs(host@, local@, remote_dir@));
    }
    v
}

/// Copying a directory: nothing is copied unless the place for it could be made, and
/// all is well exactly where both succeed.
pub proof fn law_nothing_is_copied_to_nowhere(
    host: Seq<char>,
    local: Seq<char>,
    remote_dir: Seq<char>,
    ran: Seq<process::Ran>,
)
    requires
        ran.len() <= 2,
    ensures
        ({
            let runs = copy_runs(host, local, remote_dir);
            let made = process::run_outcome(runs[0], ran[0]);
            let copied = process::run_outcome(runs[1], ran[1]);
            process::next_of(process::all_must(runs), ran) == (if ran.len() == 0 {
                process::NextView::Run(0)
            } else if made is Err {
                process::NextView::Failed(made->Err_0)
            } else if ran.len() == 1 {
                process::NextView::Run(1)
            } else if copied is Err {
                process::NextView::Failed(copied->Err_0)
            } else {
                process::NextView::Finished
            })
        }),
{
    let steps = process::all_must(copy_runs(host, local, remote_dir));
    if ran.len() > 0 && process::step_outcome(steps[0], ran[0]) is Err {
        process::law_a_failed_step_ends_it(steps, ran, 0);
    } else if ran.len() == 2 && process::step_outcome(steps[1], ran[1]) is Err {
        process::law_a_failed_step_ends_it(steps, ran, 1);
    } else {
        process::law_steps_are_run_in_order(steps, ran);
    }
}

/// Asks SSH how it would reach `host`.
pub fn ask_hostname(host: &str) -> (r: Run)
    ensures
        r@ == (RunView::Program { program: "ssh"@, args: seq!["-G"@, host@] }),
{
    program2("ssh", "-G", host)
}

/// The host name behind `host`, where `answer` is what SSH printed when it was
/// asked, if it succeeded.
pub fn resolved_hostname(host: &str, answer: Option<&str>) -> (r: Result<String, String>)
    ensures
        text::text_outcome(r) == (match answer {
            Some(config) => Ok::<Seq<char>, Seq<char>>(
                hostname_in(text::pieces(config@, '\n'), host@),
            ),
            None => Err("ssh -G failed for "@ + host@),
        }),
{
    let config = match answer {
        Some(config) => config,
        None => return Err("ssh -G failed for ".to_owned().concat(host)),
    };
    let lines = split_char(config, '\n');
    let ghost all = text::texts(lines@);
    let mut i: usize = 0;
    proof {
        assert(all.skip(0) == all);
    }
    while i < lines.len()
        invariant
            i <= lines.len(),
            all == text::texts(lines@),
            answer matches Some(c) && all == text::pieces(c@, '\n'),
            hostname_in(all, host@) == hostname_in(all.skip(i as int), host@),
        decreases lines.len() - i,
    {
        proof {
            assert(all.skip(i as int)[0] == lines@[i as int]@);
            assert(all.skip(i as int).skip(1) == all.skip(i + 1));
        }
        let (word, rest) = next_word(lines[i].as_str());
        if same(word, "hostname") {
            let (name, _) = next_word(rest);
            if !name.is_empty() {
                return Ok(name.to_owned());
            }
        }
        i += 1;
    }
    Ok(host.to_owned())
}

} // verus!
