//! What shells make of the lines that Via gives them.

use crate::commands;
use crate::moves;
use crate::paths::PathsView;
use crate::process;
use crate::process::RunView;
use crate::release;
use crate::shell;
use crate::ssh;
use crate::text;
use vstd::prelude::*;

verus! {

/// The command that starts Via on a machine that is added, as a shell reads it, initializes
/// the machine with the slug, the identifier of the mesh and that of the node, each behind
/// its own flag, and then starts the daemon.
pub proof fn law_added_machine_is_given_its_identity(
    slug: Seq<char>,
    mesh_id: Seq<char>,
    node_id: Seq<char>,
)
    requires
        shell::is_plain(slug),
        shell::is_plain(mesh_id),
        shell::is_plain(node_id),
    ensures
        shell::words(ssh::start_line(slug, mesh_id, node_id)).len() >= 13,
        shell::words(ssh::start_line(slug, mesh_id, node_id)).take(13) == seq![
            "chmod"@,
            "+x"@,
            "~/.via/bin/via"@,
            "&&"@,
            "~/.via/bin/via"@,
            "init"@,
            "--name"@,
            slug,
            "--mesh-id"@,
            mesh_id,
            "--node-id"@,
            node_id,
            "&&"@,
        ],
        text::holds(
            ssh::start_line(slug, mesh_id, node_id),
            "~/.via/bin/via daemon --bind 0.0.0.0:47819"@,
        ),
{
    let l1 = "chmod +x ~/.via/bin/via && ~/.via/bin/via init --name "@;
    let l2 = " --mesh-id "@;
    let l3 = " --node-id "@;
    let l4 = " && (pkill -x via 2>/dev/null || true) && (nohup ~/.via/bin/via daemon --bind 0.0.0.0:47819 > ~/.via/daemon.log 2>&1 & echo $! > ~/.via/daemon.pid)"@;
    let line = ssh::start_line(slug, mesh_id, node_id);
    lemma_start_literals();
    reveal_strlit(" ");
    reveal_strlit("&&");
    let tail = l4.skip(3);
    let e6 = " "@ + "&&"@ + tail;
    assert(l4 =~= e6);
    let e5 = " "@ + node_id + e6;
    let e4 = " "@ + "--node-id"@ + e5;
    let e3 = " "@ + mesh_id + e4;
    let e2 = " "@ + "--mesh-id"@ + e3;
    let e1 = " "@ + slug + e2;
    let d7 = " "@ + "--name"@ + e1;
    let d6 = " "@ + "init"@ + d7;
    let d5 = " "@ + "~/.via/bin/via"@ + d6;
    let d4 = " "@ + "&&"@ + d5;
    let d3 = " "@ + "~/.via/bin/via"@ + d4;
    let d2 = " "@ + "+x"@ + d3;
    assert(line =~= "chmod"@ + d2);
    shell::lemma_plain_next("&&"@, tail);
    shell::lemma_plain_next(node_id, e6);
    shell::lemma_plain_next("--node-id"@, e5);
    shell::lemma_plain_next(mesh_id, e4);
    shell::lemma_plain_next("--mesh-id"@, e3);
    shell::lemma_plain_next(slug, e2);
    shell::lemma_plain_next("--name"@, e1);
    shell::lemma_plain_next("init"@, d7);
    shell::lemma_plain_next("~/.via/bin/via"@, d6);
    shell::lemma_plain_next("&&"@, d5);
    shell::lemma_plain_next("~/.via/bin/via"@, d4);
    shell::lemma_plain_next("+x"@, d3);
    shell::lemma_plain_first("chmod"@, d2);
    assert(shell::words(line).take(13) =~= seq![
        "chmod"@,
        "+x"@,
        "~/.via/bin/via"@,
        "&&"@,
        "~/.via/bin/via"@,
        "init"@,
        "--name"@,
        slug,
        "--mesh-id"@,
        mesh_id,
        "--node-id"@,
        node_id,
        "&&"@,
    ]);
    let at = line.len() - l4.len() + lemma_daemon_stands();
    let daemon = "~/.via/bin/via daemon --bind 0.0.0.0:47819"@;
    assert(line.subrange(at, at + daemon.len()) =~= daemon) by {
        assert forall|i: int| 0 <= i < daemon.len() implies #[trigger] line.subrange(
            at,
            at + daemon.len(),
        )[i] == daemon[i] by {
            assert(line[at + i] == l4[at + i - (line.len() - l4.len())]);
            assert(l4.subrange(at - (line.len() - l4.len()), at - (line.len() - l4.len())
                + daemon.len())[i] == daemon[i]);
        }
    }
}

proof fn lemma_start_literals()
    ensures
        "chmod +x ~/.via/bin/via && ~/.via/bin/via init --name "@ == "chmod"@ + (" "@ + "+x"@ + (
        " "@ + "~/.via/bin/via"@ + (" "@ + "&&"@ + (" "@ + "~/.via/bin/via"@ + (" "@ + "init"@ + (
        " "@ + "--name"@ + " "@)))))),
        " --mesh-id "@ == " "@ + "--mesh-id"@ + " "@,
        " --node-id "@ == " "@ + "--node-id"@ + " "@,
        shell::is_plain("chmod"@),
        shell::is_plain("+x"@),
        shell::is_plain("~/.via/bin/via"@),
        shell::is_plain("&&"@),
        shell::is_plain("init"@),
        shell::is_plain("--name"@),
        shell::is_plain("--mesh-id"@),
        shell::is_plain("--node-id"@),
        ({
            let l4 = " && (pkill -x via 2>/dev/null || true) && (nohup ~/.via/bin/via daemon --bind 0.0.0.0:47819 > ~/.via/daemon.log 2>&1 & echo $! > ~/.via/daemon.pid)"@;
            l4.len() > 4 && l4[0] == ' ' && l4[1] == '&' && l4[2] == '&' && l4[3] == ' '
        }),
{
    reveal_strlit("chmod +x ~/.via/bin/via && ~/.via/bin/via init --name ");
    reveal_strlit(" --mesh-id ");
    reveal_strlit(" --node-id ");
    reveal_strlit(
        " && (pkill -x via 2>/dev/null || true) && (nohup ~/.via/bin/via daemon --bind 0.0.0.0:47819 > ~/.via/daemon.log 2>&1 & echo $! > ~/.via/daemon.pid)",
    );
    reveal_strlit("chmod");
    reveal_strlit(" ");
    reveal_strlit("+x");
    reveal_strlit("~/.via/bin/via");
    reveal_strlit("&&");
    reveal_strlit("init");
    reveal_strlit("--name");
    reveal_strlit("--mesh-id");
    reveal_strlit("--node-id");
}

proof fn lemma_daemon_stands() -> (at: int)
    ensures
        ({
            let l4 = " && (pkill -x via 2>/dev/null || true) && (nohup ~/.via/bin/via daemon --bind 0.0.0.0:47819 > ~/.via/daemon.log 2>&1 & echo $! > ~/.via/daemon.pid)"@;
            let daemon = "~/.via/bin/via daemon --bind 0.0.0.0:47819"@;
            0 <= at <= l4.len() - daemon.len() && l4.subrange(at, at + daemon.len()) == daemon
        }),
{
    reveal_strlit(
        " && (pkill -x via 2>/dev/null || true) && (nohup ~/.via/bin/via daemon --bind 0.0.0.0:47819 > ~/.via/daemon.log 2>&1 & echo $! > ~/.via/daemon.pid)",
    );
    reveal_strlit("~/.via/bin/via daemon --bind 0.0.0.0:47819");
    let l4 = " && (pkill -x via 2>/dev/null || true) && (nohup ~/.via/bin/via daemon --bind 0.0.0.0:47819 > ~/.via/daemon.log 2>&1 & echo $! > ~/.via/daemon.pid)"@;
    let daemon = "~/.via/bin/via daemon --bind 0.0.0.0:47819"@;
    let at: int = 49;
    assert(l4.subrange(at, at + daemon.len()) =~= daemon);
    at
}

/// What is run with `curl` to install a release, up to the release.
pub open spec fn curl_words() -> Seq<Seq<char>> {
    seq![
        "command"@,
        "-v"@,
        "curl"@,
        ">/dev/null"@,
        "2>&1;"@,
        "then"@,
        "curl"@,
        "-fsSL"@,
        "https://raw.githubusercontent.com/pompeii-labs/via/main/install.sh"@,
        "|"@,
        "bash"@,
        "-s"@,
        "--"@,
    ]
}

/// What is run with `wget` to install a release, up to the release.
pub open spec fn wget_words() -> Seq<Seq<char>> {
    seq![
        "elif"@,
        "command"@,
        "-v"@,
        "wget"@,
        ">/dev/null"@,
        "2>&1;"@,
        "then"@,
        "wget"@,
        "-q"@,
        "https://raw.githubusercontent.com/pompeii-labs/via/main/install.sh"@,
        "-O"@,
        "-"@,
        "|"@,
        "bash"@,
        "-s"@,
        "--"@,
    ]
}

/// The words of the lines that install a release, as far as the release goes: it is the last
/// argument of the installer, whichever of the two programs downloads that.
pub open spec fn install_words(version: Seq<char>) -> Seq<Seq<char>> {
    seq!["if"@] + curl_words() + seq![version + ";"@] + wget_words() + seq![version + ";"@]
}

proof fn lemma_install_plain()
    ensures
        shell::is_plain("if"@),
        forall|i: int| 0 <= i < curl_words().len() ==> shell::is_plain(#[trigger] curl_words()[i]),
        forall|i: int| 0 <= i < wget_words().len() ==> shell::is_plain(#[trigger] wget_words()[i]),
{
    reveal_strlit("if");
    reveal_strlit("command");
    reveal_strlit("-v");
    reveal_strlit("curl");
    reveal_strlit(">/dev/null");
    reveal_strlit("2>&1;");
    reveal_strlit("then");
    reveal_strlit("-fsSL");
    reveal_strlit("https://raw.githubusercontent.com/pompeii-labs/via/main/install.sh");
    reveal_strlit("|");
    reveal_strlit("bash");
    reveal_strlit("-s");
    reveal_strlit("--");
    reveal_strlit("elif");
    reveal_strlit("wget");
    reveal_strlit("-q");
    reveal_strlit("-O");
    reveal_strlit("-");
}

proof fn lemma_curl_literal()
    ensures
        "if command -v curl >/dev/null 2>&1; then curl -fsSL https://raw.githubusercontent.com/pompeii-labs/via/main/install.sh | bash -s -- "@ == "if"@ + shell::spread(curl_words(), " "@),
{
    reveal_strlit(" ");
    reveal_strlit("if");
    reveal_strlit("if command -v curl >/dev/null 2>&1; then curl -fsSL https://raw.githubusercontent.com/pompeii-labs/via/main/install.sh | bash -s -- ");
    reveal_strlit("command");
    reveal_strlit("-v");
    reveal_strlit("curl");
    reveal_strlit(">/dev/null");
    reveal_strlit("2>&1;");
    reveal_strlit("then");
    reveal_strlit("-fsSL");
    reveal_strlit("https://raw.githubusercontent.com/pompeii-labs/via/main/install.sh");
    reveal_strlit("|");
    reveal_strlit("bash");
    reveal_strlit("-s");
    reveal_strlit("--");
    assert("if command -v curl >/dev/null 2>&1; then curl -fsSL https://raw.githubusercontent.com/pompeii-labs/via/main/install.sh | bash -s -- "@ =~= "if"@ + (" "@ + "command"@ + (" "@ + "-v"@ + (" "@ + "curl"@ + (" "@ + ">/dev/null"@ + (" "@ + "2>&1;"@ + (" "@ + "then"@ + (" "@ + "curl"@ + (" "@ + "-fsSL"@ + (" "@ + "https://raw.githubusercontent.com/pompeii-labs/via/main/install.sh"@ + (" "@ + "|"@ + (" "@ + "bash"@ + (" "@ + "-s"@ + (" "@ + "--"@ + (" "@)))))))))))))));
    let w0 = curl_words();
    let w1 = w0.skip(1);
    let w2 = w1.skip(1);
    let w3 = w2.skip(1);
    let w4 = w3.skip(1);
    let w5 = w4.skip(1);
    let w6 = w5.skip(1);
    let w7 = w6.skip(1);
    let w8 = w7.skip(1);
    let w9 = w8.skip(1);
    let w10 = w9.skip(1);
    let w11 = w10.skip(1);
    let w12 = w11.skip(1);
    let w13 = w12.skip(1);
    let x13 = " "@;
    assert(shell::spread(w13, " "@) == x13);
    let x12 = " "@ + "--"@ + x13;
    assert(w12[0] == "--"@);
    assert(shell::spread(w12, " "@) == x12);
    let x11 = " "@ + "-s"@ + x12;
    assert(w11[0] == "-s"@);
    assert(shell::spread(w11, " "@) == x11);
    let x10 = " "@ + "bash"@ + x11;
    assert(w10[0] == "bash"@);
    assert(shell::spread(w10, " "@) == x10);
    let x9 = " "@ + "|"@ + x10;
    assert(w9[0] == "|"@);
    assert(shell::spread(w9, " "@) == x9);
    let x8 = " "@ + "https://raw.githubusercontent.com/pompeii-labs/via/main/install.sh"@ + x9;
    assert(w8[0] == "https://raw.githubusercontent.com/pompeii-labs/via/main/install.sh"@);
    assert(shell::spread(w8, " "@) == x8);
    let x7 = " "@ + "-fsSL"@ + x8;
    assert(w7[0] == "-fsSL"@);
    assert(shell::spread(w7, " "@) == x7);
    let x6 = " "@ + "curl"@ + x7;
    assert(w6[0] == "curl"@);
    assert(shell::spread(w6, " "@) == x6);
    let x5 = " "@ + "then"@ + x6;
    assert(w5[0] == "then"@);
    assert(shell::spread(w5, " "@) == x5);
    let x4 = " "@ + "2>&1;"@ + x5;
    assert(w4[0] == "2>&1;"@);
    assert(shell::spread(w4, " "@) == x4);
    let x3 = " "@ + ">/dev/null"@ + x4;
    assert(w3[0] == ">/dev/null"@);
    assert(shell::spread(w3, " "@) == x3);
    let x2 = " "@ + "curl"@ + x3;
    assert(w2[0] == "curl"@);
    assert(shell::spread(w2, " "@) == x2);
    let x1 = " "@ + "-v"@ + x2;
    assert(w1[0] == "-v"@);
    assert(shell::spread(w1, " "@) == x1);
    let x0 = " "@ + "command"@ + x1;
    assert(w0[0] == "command"@);
    assert(shell::spread(w0, " "@) == x0);
}

proof fn lemma_wget_literal()
    ensures
        "; elif command -v wget >/dev/null 2>&1; then wget -q https://raw.githubusercontent.com/pompeii-labs/via/main/install.sh -O - | bash -s -- "@ == ";"@ + shell::spread(wget_words(), " "@),
{
    reveal_strlit(" ");
    reveal_strlit(";");
    reveal_strlit("; elif command -v wget >/dev/null 2>&1; then wget -q https://raw.githubusercontent.com/pompeii-labs/via/main/install.sh -O - | bash -s -- ");
    reveal_strlit("elif");
    reveal_strlit("command");
    reveal_strlit("-v");
    reveal_strlit("wget");
    reveal_strlit(">/dev/null");
    reveal_strlit("2>&1;");
    reveal_strlit("then");
    reveal_strlit("-q");
    reveal_strlit("https://raw.githubusercontent.com/pompeii-labs/via/main/install.sh");
    reveal_strlit("-O");
    reveal_strlit("-");
    reveal_strlit("|");
    reveal_strlit("bash");
    reveal_strlit("-s");
    reveal_strlit("--");
    assert("; elif command -v wget >/dev/null 2>&1; then wget -q https://raw.githubusercontent.com/pompeii-labs/via/main/install.sh -O - | bash -s -- "@ =~= ";"@ + (" "@ + "elif"@ + (" "@ + "command"@ + (" "@ + "-v"@ + (" "@ + "wget"@ + (" "@ + ">/dev/null"@ + (" "@ + "2>&1;"@ + (" "@ + "then"@ + (" "@ + "wget"@ + (" "@ + "-q"@ + (" "@ + "https://raw.githubusercontent.com/pompeii-labs/via/main/install.sh"@ + (" "@ + "-O"@ + (" "@ + "-"@ + (" "@ + "|"@ + (" "@ + "bash"@ + (" "@ + "-s"@ + (" "@ + "--"@ + (" "@))))))))))))))))));
    let w0 = wget_words();
    let w1 = w0.skip(1);
    let w2 = w1.skip(1);
    let w3 = w2.skip(1);
    let w4 = w3.skip(1);
    let w5 = w4.skip(1);
    let w6 = w5.skip(1);
    let w7 = w6.skip(1);
    let w8 = w7.skip(1);
    let w9 = w8.skip(1);
    let w10 = w9.skip(1);
    let w11 = w10.skip(1);
    let w12 = w11.skip(1);
    let w13 = w12.skip(1);
    let w14 = w13.skip(1);
    let w15 = w14.skip(1);
    let w16 = w15.skip(1);
    let x16 = " "@;
    assert(shell::spread(w16, " "@) == x16);
    let x15 = " "@ + "--"@ + x16;
    assert(w15[0] == "--"@);
    assert(shell::spread(w15, " "@) == x15);
    let x14 = " "@ + "-s"@ + x15;
    assert(w14[0] == "-s"@);
    assert(shell::spread(w14, " "@) == x14);
    let x13 = " "@ + "bash"@ + x14;
    assert(w13[0] == "bash"@);
    assert(shell::spread(w13, " "@) == x13);
    let x12 = " "@ + "|"@ + x13;
    assert(w12[0] == "|"@);
    assert(shell::spread(w12, " "@) == x12);
    let x11 = " "@ + "-"@ + x12;
    assert(w11[0] == "-"@);
    assert(shell::spread(w11, " "@) == x11);
    let x10 = " "@ + "-O"@ + x11;
    assert(w10[0] == "-O"@);
    assert(shell::spread(w10, " "@) == x10);
    let x9 = " "@ + "https://raw.githubusercontent.com/pompeii-labs/via/main/install.sh"@ + x10;
    assert(w9[0] == "https://raw.githubusercontent.com/pompeii-labs/via/main/install.sh"@);
    assert(shell::spread(w9, " "@) == x9);
    let x8 = " "@ + "-q"@ + x9;
    assert(w8[0] == "-q"@);
    assert(shell::spread(w8, " "@) == x8);
    let x7 = " "@ + "wget"@ + x8;
    assert(w7[0] == "wget"@);
    assert(shell::spread(w7, " "@) == x7);
    let x6 = " "@ + "then"@ + x7;
    assert(w6[0] == "then"@);
    assert(shell::spread(w6, " "@) == x6);
    let x5 = " "@ + "2>&1;"@ + x6;
    assert(w5[0] == "2>&1;"@);
    assert(shell::spread(w5, " "@) == x5);
    let x4 = " "@ + ">/dev/null"@ + x5;
    assert(w4[0] == ">/dev/null"@);
    assert(shell::spread(w4, " "@) == x4);
    let x3 = " "@ + "wget"@ + x4;
    assert(w3[0] == "wget"@);
    assert(shell::spread(w3, " "@) == x3);
    let x2 = " "@ + "-v"@ + x3;
    assert(w2[0] == "-v"@);
    assert(shell::spread(w2, " "@) == x2);
    let x1 = " "@ + "command"@ + x2;
    assert(w1[0] == "command"@);
    assert(shell::spread(w1, " "@) == x1);
    let x0 = " "@ + "elif"@ + x1;
    assert(w0[0] == "elif"@);
    assert(shell::spread(w0, " "@) == x0);
}

proof fn lemma_install_words(version: Seq<char>, end: Seq<char>)
    requires
        shell::is_plain(version),
        shell::ends_word(end),
    ensures
        shell::words(
            "if command -v curl >/dev/null 2>&1; then curl -fsSL https://raw.githubusercontent.com/pompeii-labs/via/main/install.sh | bash -s -- "@
                + version
                + "; elif command -v wget >/dev/null 2>&1; then wget -q https://raw.githubusercontent.com/pompeii-labs/via/main/install.sh -O - | bash -s -- "@
                + version + (";"@ + end),
        ) == install_words(version) + shell::words(end),
{
    lemma_install_plain();
    lemma_curl_literal();
    lemma_wget_literal();
    reveal_strlit(";");
    reveal_strlit(" ");
    let v = version + ";"@;
    assert(shell::is_plain(v)) by {
        assert forall|i: int| 0 <= i < v.len() implies shell::is_plain_char(#[trigger] v[i]) by {
            if i < version.len() {
                assert(v[i] == version[i]);
            }
        }
    }
    let d = " "@ + v + end;
    let c = shell::spread(wget_words(), d);
    let b = " "@ + v + c;
    let a = shell::spread(curl_words(), b);
    shell::lemma_plain_next(v, end);
    shell::lemma_spread_words(wget_words(), d);
    shell::lemma_plain_next(v, c);
    shell::lemma_spread_words(curl_words(), b);
    shell::lemma_plain_first("if"@, a);
    shell::lemma_spread_end(wget_words(), " "@, v + end);
    shell::lemma_spread_end(curl_words(), " "@, v + c);
    assert(d =~= " "@ + (v + end));
    assert(b =~= " "@ + (v + c));
    let line = "if command -v curl >/dev/null 2>&1; then curl -fsSL https://raw.githubusercontent.com/pompeii-labs/via/main/install.sh | bash -s -- "@
        + version
        + "; elif command -v wget >/dev/null 2>&1; then wget -q https://raw.githubusercontent.com/pompeii-labs/via/main/install.sh -O - | bash -s -- "@
        + version + (";"@ + end);
    assert(line =~= "if"@ + a);
    assert(shell::words(line) =~= install_words(version) + shell::words(end));
}

/// What installs a release, on an added machine or where Via is updated, hands the installer
/// that very release, whichever program downloads the installer.
pub proof fn law_the_wanted_release_is_installed(version: Seq<char>)
    requires
        shell::is_plain(version),
    ensures
        install_words(version).is_prefix_of(shell::words(ssh::install_line(version))),
        install_words(version).is_prefix_of(shell::words(release::update_line(version))),
        install_words(version)[13] == "--"@,
        install_words(version)[14] == version + ";"@,
        install_words(version)[install_words(version).len() - 2] == "--"@,
        install_words(version).last() == version + ";"@,
{
    let c1 = "; else echo 'Via bootstrap needs curl or wget on the remote node.' >&2; exit 127; fi"@;
    let c2 = "; else echo 'update needs curl or wget' >&2; exit 1; fi"@;
    reveal_strlit("; else echo 'Via bootstrap needs curl or wget on the remote node.' >&2; exit 127; fi");
    reveal_strlit("; else echo 'update needs curl or wget' >&2; exit 1; fi");
    reveal_strlit(";");
    assert(c1 =~= ";"@ + c1.skip(1));
    assert(c2 =~= ";"@ + c2.skip(1));
    lemma_install_words(version, c1.skip(1));
    lemma_install_words(version, c2.skip(1));
    let w = install_words(version);
    assert((w + shell::words(c1.skip(1))).take(w.len() as int) =~= w);
    assert((w + shell::words(c2.skip(1))).take(w.len() as int) =~= w);
}

/// A machine is made a node in this order: the directories, the release, the key of the mesh
/// from where this node has it, its protection, and last the start with the machine's
/// identity.
pub proof fn law_bootstrap_hands_over_the_mesh(
    host: Seq<char>,
    paths: PathsView,
    slug: Seq<char>,
    mesh_id: Seq<char>,
    node_id: Seq<char>,
    version: Seq<char>,
)
    requires
        shell::is_plain(slug),
        shell::is_plain(mesh_id),
        shell::is_plain(node_id),
        shell::is_plain(version),
    ensures
        ({
            let runs = ssh::bootstrap_runs(host, paths, slug, mesh_id, node_id, version);
            let line = |i: int| runs[i]->Program_args[1];
            &&& runs.len() == 5
            &&& forall|i: int|
                0 <= i < 5 && i != 2 ==> (#[trigger] runs[i]) is Program
                    && runs[i]->Program_program == "ssh"@ && runs[i]->Program_args.len() == 2
                    && runs[i]->Program_args[0] == host
            &&& runs[2] == RunView::Program {
                program: "scp"@,
                args: seq![paths.mesh_key, host + ":~/.via/mesh.key"@],
            }
            &&& line(0) == "mkdir -p ~/.via ~/.via/lux ~/.via/logs"@
            &&& install_words(version).is_prefix_of(shell::words(line(1)))
            &&& line(3) == "chmod 600 ~/.via/mesh.key"@
            &&& shell::words(line(4))[7] == slug
            &&& shell::words(line(4))[9] == mesh_id
            &&& shell::words(line(4))[11] == node_id
            &&& shell::words(line(4)).subrange(4, 7) == seq![
                "~/.via/bin/via"@,
                "init"@,
                "--name"@,
            ]
            &&& shell::words(line(4))[8] == "--mesh-id"@
            &&& shell::words(line(4))[10] == "--node-id"@
        }),
{
    law_added_machine_is_given_its_identity(slug, mesh_id, node_id);
    law_the_wanted_release_is_installed(version);
    let w = shell::words(ssh::start_line(slug, mesh_id, node_id));
    let t = w.take(13);
    assert(w.subrange(4, 7) =~= t.subrange(4, 7));
    assert(w.subrange(4, 7) =~= seq!["~/.via/bin/via"@, "init"@, "--name"@]);
    assert(w[7] == t[7] && w[8] == t[8] && w[9] == t[9] && w[10] == t[10] && w[11] == t[11]);
}

proof fn lemma_scp_literal()
    ensures
        "scp -o BatchMode=yes -r "@ == "scp"@ + (" "@ + "-o"@ + (" "@ + "BatchMode=yes"@ + (" "@
            + "-r"@ + " "@))),
        shell::is_plain("scp"@),
        shell::is_plain("-o"@),
        shell::is_plain("BatchMode=yes"@),
        shell::is_plain("-r"@),
{
    reveal_strlit("scp -o BatchMode=yes -r ");
    reveal_strlit("scp");
    reveal_strlit(" ");
    reveal_strlit("-o");
    reveal_strlit("BatchMode=yes");
    reveal_strlit("-r");
}

/// A shell copies what it is told from the one place to the other, whatever their names hold.
pub proof fn law_copies_go_from_source_to_destination(src: Seq<char>, dst: Seq<char>)
    ensures
        shell::words(moves::scp_line(src, dst)) == seq![
            "scp"@,
            "-o"@,
            "BatchMode=yes"@,
            "-r"@,
            src,
            dst,
        ],
{
    reveal_strlit(" ");
    lemma_scp_literal();
    let none = Seq::<char>::empty();
    let e = " "@ + process::quoted(dst) + none;
    let d = " "@ + process::quoted(src) + e;
    let c = " "@ + "-r"@ + d;
    let b = " "@ + "BatchMode=yes"@ + c;
    let a = " "@ + "-o"@ + b;
    shell::lemma_quoted_next(dst, none);
    shell::lemma_quoted_next(src, e);
    shell::lemma_plain_next("-r"@, d);
    shell::lemma_plain_next("BatchMode=yes"@, c);
    shell::lemma_plain_next("-o"@, b);
    shell::lemma_plain_first("scp"@, a);
    assert(shell::words(none) =~= Seq::empty());
    assert(moves::scp_line(src, dst) =~= "scp"@ + a);
    assert(shell::words(moves::scp_line(src, dst)) =~= seq![
        "scp"@,
        "-o"@,
        "BatchMode=yes"@,
        "-r"@,
        src,
        dst,
    ]);
}

proof fn lemma_hub_literals()
    ensures
        " ~/.via/bin/via hub use "@ == " "@ + "~/.via/bin/via"@ + (" "@ + "hub"@ + (" "@ + "use"@
            + " "@)),
        shell::is_plain("VIA_HUB_ADMIN_TOKEN="@),
        shell::is_plain("~/.via/bin/via"@),
        shell::is_plain("hub"@),
        shell::is_plain("use"@),
{
    reveal_strlit(" ~/.via/bin/via hub use ");
    reveal_strlit("VIA_HUB_ADMIN_TOKEN=");
    reveal_strlit("~/.via/bin/via");
    reveal_strlit("hub");
    reveal_strlit("use");
    reveal_strlit(" ");
}

/// An added machine is told to use this node's hub, with the token of the hub's
/// administrator in its environment, whatever the two hold.
pub proof fn law_added_machines_use_the_same_hub(
    s: commands::HubSetup,
    config: crate::hub::ConfigView,
    token: Seq<char>,
    host: Seq<char>,
)
    requires
        token.len() > 0,
        commands::is_hub_setup(s, Some(config), Some(token), host),
    ensures
        ({
            let run = s->Do_0@;
            &&& s is Do
            &&& run is Program
            &&& run->Program_program == "ssh"@
            &&& run->Program_args.len() == 2
            &&& run->Program_args[0] == host
            &&& shell::words(" "@ + run->Program_args[1]) == seq![
                "VIA_HUB_ADMIN_TOKEN="@ + token,
                "~/.via/bin/via"@,
                "hub"@,
                "use"@,
                config.url,
            ]
        }),
{
    reveal_strlit(" ");
    lemma_hub_literals();
    let none = Seq::<char>::empty();
    let d = " "@ + process::quoted(config.url) + none;
    let c = " "@ + "use"@ + d;
    let b = " "@ + "hub"@ + c;
    let a = " "@ + "~/.via/bin/via"@ + b;
    let line = s->Do_0@->Program_args[1];
    shell::lemma_quoted_next(config.url, none);
    shell::lemma_plain_next("use"@, d);
    shell::lemma_plain_next("hub"@, c);
    shell::lemma_plain_next("~/.via/bin/via"@, b);
    shell::lemma_mixed_next("VIA_HUB_ADMIN_TOKEN="@, token, a);
    assert(shell::words(none) =~= Seq::empty());
    assert(" "@ + line =~= " "@ + "VIA_HUB_ADMIN_TOKEN="@ + process::quoted(token) + a);
    assert(shell::words(" "@ + line) =~= seq![
        "VIA_HUB_ADMIN_TOKEN="@ + token,
        "~/.via/bin/via"@,
        "hub"@,
        "use"@,
        config.url,
    ]);
}

proof fn lemma_quoted_plain(s: Seq<char>)
    requires
        !s.contains('\''),
    ensures
        process::quoted(s) == "'"@ + s + "'"@,
{
    lemma_replaced_none(s);
}

proof fn lemma_replaced_none(s: Seq<char>)
    requires
        !s.contains('\''),
    ensures
        text::replaced(s, '\'', "'\\''"@) == s,
    decreases s.len(),
{
    if s.len() > 0 {
        let p = s.drop_last();
        assert(s.contains(s[s.len() - 1]));
        if p.contains('\'') {
            let i = choose|i: int| 0 <= i < p.len() && p[i] == '\'';
            assert(s[i] == '\'');
        }
        lemma_replaced_none(p);
        assert(p + seq![s.last()] =~= s);
    } else {
        assert(text::replaced(s, '\'', "'\\''"@) =~= s);
    }
}

proof fn lemma_launch_literals()
    ensures
        "nohup '"@ == "nohup"@ + (" "@ + "'"@),
        "' daemon --bind '"@ == "'"@ + (" "@ + "daemon"@ + (" "@ + "--bind"@ + (" "@ + "'"@))),
        "' > '"@ == "'"@ + (" "@ + ">"@ + (" "@ + "'"@)),
        "' 2>&1 &"@ == "'"@ + (" "@ + "2>&1"@ + (" "@ + "&"@)),
        shell::is_plain("nohup"@),
        shell::is_plain("daemon"@),
        shell::is_plain("--bind"@),
        shell::is_plain(">"@),
        shell::is_plain("2>&1"@),
        shell::is_plain("&"@),
{
    reveal_strlit("nohup '");
    reveal_strlit("' daemon --bind '");
    reveal_strlit("' > '");
    reveal_strlit("' 2>&1 &");
    reveal_strlit("'");
    reveal_strlit(" ");
    reveal_strlit("nohup");
    reveal_strlit("daemon");
    reveal_strlit("--bind");
    reveal_strlit(">");
    reveal_strlit("2>&1");
    reveal_strlit("&");
}

/// The line that starts the daemon starts this program's daemon at the address that was
/// asked for, and writes what it says to the log.
pub proof fn law_daemon_is_started_at_its_address(
    exe: Seq<char>,
    bind: Seq<char>,
    log: Seq<char>,
)
    requires
        !exe.contains('\''),
        !bind.contains('\''),
        !log.contains('\''),
    ensures
        shell::words(commands::launch_line(exe, bind, log)) == seq![
            "nohup"@,
            exe,
            "daemon"@,
            "--bind"@,
            bind,
            ">"@,
            log,
            "2>&1"@,
            "&"@,
        ],
{
    reveal_strlit(" ");
    reveal_strlit("'");
    lemma_launch_literals();
    lemma_quoted_plain(exe);
    lemma_quoted_plain(bind);
    lemma_quoted_plain(log);
    let none = Seq::<char>::empty();
    let h = " "@ + "&"@ + none;
    let g = " "@ + "2>&1"@ + h;
    let f = " "@ + process::quoted(log) + g;
    let e = " "@ + ">"@ + f;
    let d = " "@ + process::quoted(bind) + e;
    let c = " "@ + "--bind"@ + d;
    let b = " "@ + "daemon"@ + c;
    let a = " "@ + process::quoted(exe) + b;
    shell::lemma_plain_next("&"@, none);
    shell::lemma_plain_next("2>&1"@, h);
    shell::lemma_quoted_next(log, g);
    shell::lemma_plain_next(">"@, f);
    shell::lemma_quoted_next(bind, e);
    shell::lemma_plain_next("--bind"@, d);
    shell::lemma_plain_next("daemon"@, c);
    shell::lemma_quoted_next(exe, b);
    shell::lemma_plain_first("nohup"@, a);
    assert(shell::words(none) =~= Seq::empty());
    assert(commands::launch_line(exe, bind, log) =~= "nohup"@ + a);
    assert(shell::words(commands::launch_line(exe, bind, log)) =~= seq![
        "nohup"@,
        exe,
        "daemon"@,
        "--bind"@,
        bind,
        ">"@,
        log,
        "2>&1"@,
        "&"@,
    ]);
}

/// A directory is copied to the place that was made for it: what is in it comes to be in
/// that place on the machine, without the files that can be built again and the history.
pub proof fn law_directories_are_copied_to_their_place(
    host: Seq<char>,
    local: Seq<char>,
    remote: Seq<char>,
)
    requires
        shell::is_plain(remote),
    ensures
        ({
            let runs = ssh::copy_runs(host, local, remote);
            let made = runs[0]->Program_args;
            let sent = runs[1]->Program_args;
            &&& runs.len() == 2
            &&& runs[0] is Program && runs[0]->Program_program == "ssh"@ && made.len() == 2
                && made[0] == host
            &&& shell::words(made[1]) == seq!["mkdir"@, "-p"@, remote]
            &&& runs[1] is Program && runs[1]->Program_program == "rsync"@
            &&& sent.last() == host + ":"@ + remote + "/"@
            &&& sent[sent.len() - 2] == local + "/"@
            &&& sent.take(sent.len() - 2) == seq![
                "-az"@,
                "--delete"@,
                "--exclude"@,
                "target"@,
                "--exclude"@,
                ".git"@,
            ]
        }),
{
    reveal_strlit("mkdir -p ");
    reveal_strlit("mkdir");
    reveal_strlit("-p");
    reveal_strlit(" ");
    let none = Seq::<char>::empty();
    let b = " "@ + remote + none;
    let a = " "@ + "-p"@ + b;
    assert("mkdir -p "@ =~= "mkdir"@ + (" "@ + "-p"@ + " "@));
    shell::lemma_plain_next(remote, none);
    shell::lemma_plain_next("-p"@, b);
    shell::lemma_plain_first("mkdir"@, a);
    assert("mkdir -p "@ + remote =~= "mkdir"@ + a);
    assert(shell::words(none) =~= Seq::empty());
    assert(shell::words("mkdir -p "@ + remote) =~= seq!["mkdir"@, "-p"@, remote]);
    let sent = ssh::copy_runs(host, local, remote)[1]->Program_args;
    assert(sent.take(6) =~= seq![
        "-az"@,
        "--delete"@,
        "--exclude"@,
        "target"@,
        "--exclude"@,
        ".git"@,
    ]);
}

} // verus!
