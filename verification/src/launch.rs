//! How other programs start the server, and where they are told so.
use crate::json;
use crate::json::{list_value, member, text_value, Json, Member, Value};
use crate::order::listed;
use crate::paths;
use crate::paths::{join_path, parent};
use crate::scan;
use crate::scan::split_on;
use crate::text;
use crate::text::join;
use vstd::prelude::*;
use vstd::string::*;

verus! {

/// The system that the server runs on, as far as it matters here.
#[derive(Clone, Copy, Debug, PartialEq, Eq, Structural)]
pub enum Platform {
    MacOs,
    Windows,
    Linux,
    Other,
}

// ── Launch entries ───────────────────────────────────────────────────────────

/// An entry that runs a command with arguments.
pub open spec fn command_value(command: Seq<char>, args: Seq<Seq<char>>) -> Seq<
    (Seq<char>, Value),
> {
    seq![("command"@, Value::Text(command)), ("args"@, json::text_list(args))]
}

/// A list of texts as a value.
pub open spec fn one_arg() -> Seq<Seq<char>> {
    seq!["mcp"@]
}

/// The arguments that make a login shell start the server.
pub open spec fn shell_args(platform: Platform) -> Seq<Seq<char>> {
    match platform {
        Platform::Windows => seq![
            "-NoProfile"@,
            "-NonInteractive"@,
            "-Command"@,
            "marrow mcp"@,
        ],
        _ => seq!["-lc"@, "marrow mcp"@],
    }
}

/// The shell that starts the server. `has_zsh` says whether there is a `/bin/zsh`.
pub open spec fn shell_command(platform: Platform, has_zsh: bool) -> Seq<char> {
    match platform {
        Platform::MacOs => "/bin/zsh"@,
        Platform::Windows => "powershell.exe"@,
        Platform::Linux => if has_zsh {
            "/bin/zsh"@
        } else {
            "/bin/bash"@
        },
        Platform::Other => "/bin/sh"@,
    }
}

fn command_members(command: &str, args: Vec<Json>) -> (r: Vec<Member>)
    ensures
        json::members(r@) == seq![
            ("command"@, Value::Text(command@)),
            ("args"@, Value::List(json::values(args@))),
        ],
{
    let mut out: Vec<Member> = Vec::new();
    let first = member("command", text_value(command));
    let second = member("args", list_value(args));
    out.push(first);
    out.push(second);
    assert(json::members(out@) =~= seq![
        ("command"@, Value::Text(command@)),
        ("args"@, Value::List(json::values(args@))),
    ]);
    out
}

/// The entry that runs the server by its name.
pub fn mcp_launch_spec() -> (r: Vec<Member>)
    ensures
        json::members(r@) == command_value("marrow"@, one_arg()),
{
    let mut args: Vec<Json> = Vec::new();
    args.push(text_value("mcp"));
    assert(json::values(args@) =~= json::text_list(one_arg())->List_0);
    command_members("marrow", args)
}

/// The entry that runs the server through a login shell, whose path is the user's own.
pub fn mcp_shell_launch_spec(platform: Platform, has_zsh: bool) -> (r: Vec<Member>)
    ensures
        json::members(r@) == command_value(
            shell_command(platform, has_zsh),
            shell_args(platform),
        ),
{
    let command: &str = match platform {
        Platform::MacOs => "/bin/zsh",
        Platform::Windows => "powershell.exe",
        Platform::Linux => if has_zsh {
            "/bin/zsh"
        } else {
            "/bin/bash"
        },
        Platform::Other => "/bin/sh",
    };
    let mut args: Vec<Json> = Vec::new();
    match platform {
        Platform::Windows => {
            args.push(text_value("-NoProfile"));
            args.push(text_value("-NonInteractive"));
            args.push(text_value("-Command"));
        },
        _ => {
            args.push(text_value("-lc"));
        },
    }
    args.push(text_value("marrow mcp"));
    assert(json::values(args@) =~= json::text_list(shell_args(platform))->List_0);
    command_members(command, args)
}

// ── The path ─────────────────────────────────────────────────────────────────

/// The first occurrences in a list, in order.
pub open spec fn distinct(v: Seq<Seq<char>>) -> Seq<Seq<char>>
    decreases v.len(),
{
    if v.len() == 0 {
        v
    } else {
        let head = distinct(v.drop_last());
        if head.contains(v.last()) {
            head
        } else {
            head.push(v.last())
        }
    }
}

/// The pieces that are not empty.
pub open spec fn written(pieces: Seq<Seq<char>>) -> Seq<Seq<char>>
    decreases pieces.len(),
{
    if pieces.len() == 0 {
        pieces
    } else {
        let head = written(pieces.drop_last());
        if pieces.last().len() == 0 {
            head
        } else {
            head.push(pieces.last())
        }
    }
}

/// The written pieces are all but the empty ones, in order.
pub proof fn law_all_but_empty_pieces_are_kept(pieces: Seq<Seq<char>>)
    ensures
        written(pieces) == pieces.filter(|s: Seq<char>| s.len() > 0),
{
    let keep = |s: Seq<char>| s.len() > 0;
    lemma_written(pieces, keep);
}

proof fn lemma_written(pieces: Seq<Seq<char>>, keep: spec_fn(Seq<char>) -> bool)
    requires
        forall|s: Seq<char>| #[trigger] keep(s) == (s.len() > 0),
    ensures
        written(pieces) == pieces.filter(keep),
    decreases pieces.len(),
{
    reveal(Seq::filter);
    if pieces.len() > 0 {
        lemma_written(pieces.drop_last(), keep);
    }
}

/// The directory of a program, where it has one that is written.
pub open spec fn program_dir(binary: Seq<char>) -> Seq<Seq<char>> {
    match paths::parent_path(binary) {
        Some(dir) => if dir.len() > 0 {
            seq![dir]
        } else {
            Seq::empty()
        },
        None => Seq::empty(),
    }
}

/// Where package managers put programs.
pub open spec fn install_dirs(home: Seq<char>) -> Seq<Seq<char>> {
    seq![
        home + "/.cargo/bin"@,
        home + "/.local/bin"@,
        "/opt/homebrew/bin"@,
        "/opt/homebrew/sbin"@,
        "/usr/local/bin"@,
        "/usr/bin"@,
        "/bin"@,
    ]
}

/// The directories of a search path.
pub open spec fn search_dirs(path: Option<Seq<char>>) -> Seq<Seq<char>> {
    match path {
        Some(p) => written(scan::pieces(p, ':')),
        None => Seq::empty(),
    }
}

/// All directories in which the server may be found, the likeliest first.
pub open spec fn safe_dirs(binary: Seq<char>, home: Seq<char>, path: Option<Seq<char>>) -> Seq<
    Seq<char>,
> {
    program_dir(binary) + install_dirs(home) + search_dirs(path)
}

/// The search path under which the server is found.
pub open spec fn safe_path(binary: Seq<char>, home: Seq<char>, path: Option<Seq<char>>) -> Seq<
    char,
> {
    text::joined(distinct(safe_dirs(binary, home, path)), ":"@)
}

fn push_distinct(out: &mut Vec<String>, s: String, Ghost(before): Ghost<Seq<Seq<char>>>)
    requires
        text::texts(old(out)@) == distinct(before),
    ensures
        text::texts(final(out)@) == distinct(before.push(s@)),
{
    assert(before.push(s@).drop_last() =~= before);
    if !listed(out, &s) {
        let ghost was = out@;
        out.push(s);
        proof {
            text::lemma_texts_push(was, s);
        }
    }
}

/// The search path under which a program that was not started from a shell finds the
/// server: its own directory first, then where package managers put programs, then the
/// path that there is, each directory once.
pub fn gui_safe_path(binary_path: &str, home: &str, path: Option<&str>) -> (r: String)
    ensures
        r@ == safe_path(binary_path@, home@, text::opt_str(path)),
{
    let mut out: Vec<String> = Vec::new();
    let ghost mut all: Seq<Seq<char>> = Seq::empty();
    assert(text::texts(out@) =~= distinct(all));
    match parent(binary_path) {
        Some(dir) => {
            if !dir.as_str().is_empty() {
                let ghost one = dir@;
                push_distinct(&mut out, dir, Ghost(all));
                proof {
                    all = all.push(one);
                }
            }
        },
        None => {},
    }
    assert(all =~= program_dir(binary_path@));
    push_distinct(&mut out, home.to_owned().concat("/.cargo/bin"), Ghost(all));
    proof {
        all = all.push(home@ + "/.cargo/bin"@);
    }
    push_distinct(&mut out, home.to_owned().concat("/.local/bin"), Ghost(all));
    proof {
        all = all.push(home@ + "/.local/bin"@);
    }
    push_distinct(&mut out, "/opt/homebrew/bin".to_owned(), Ghost(all));
    proof {
        all = all.push("/opt/homebrew/bin"@);
    }
    push_distinct(&mut out, "/opt/homebrew/sbin".to_owned(), Ghost(all));
    proof {
        all = all.push("/opt/homebrew/sbin"@);
    }
    push_distinct(&mut out, "/usr/local/bin".to_owned(), Ghost(all));
    proof {
        all = all.push("/usr/local/bin"@);
    }
    push_distinct(&mut out, "/usr/bin".to_owned(), Ghost(all));
    proof {
        all = all.push("/usr/bin"@);
    }
    push_distinct(&mut out, "/bin".to_owned(), Ghost(all));
    proof {
        all = all.push("/bin"@);
    }
    assert(all =~= program_dir(binary_path@) + install_dirs(home@));
    match path {
        Some(p) => {
            let pieces = split_on(p, ':');
            let ghost parts = scan::pieces(p@, ':');
            let ghost start = all;
            let mut i: usize = 0;
            assert(parts.take(0) =~= Seq::empty());
            assert(all =~= start + written(parts.take(0)));
            while i < pieces.len()
                invariant
                    i <= pieces.len(),
                    parts == text::texts(pieces@),
                    all == start + written(parts.take(i as int)),
                    text::texts(out@) == distinct(all),
                decreases pieces.len() - i,
            {
                assert(parts[i as int] == pieces@[i as int]@);
                assert(parts.take(i + 1).drop_last() =~= parts.take(i as int));
                if !pieces[i].as_str().is_empty() {
                    push_distinct(&mut out, pieces[i].clone(), Ghost(all));
                    proof {
                        all = all.push(parts[i as int]);
                        assert(all =~= start + written(parts.take(i + 1)));
                    }
                }
                i += 1;
            }
            assert(parts.take(parts.len() as int) =~= parts);
        },
        None => {},
    }
    assert(all =~= safe_dirs(binary_path@, home@, text::opt_str(path)));
    join(&out, ":")
}

/// The first occurrences of a list hold what the list holds, each once, and the first of
/// them is the first of the list.
pub proof fn law_distinct_keeps_first_occurrences(v: Seq<Seq<char>>)
    ensures
        forall|s: Seq<char>| #[trigger] distinct(v).contains(s) <==> v.contains(s),
        distinct(v).no_duplicates(),
        v.len() > 0 ==> distinct(v).len() > 0 && distinct(v)[0] == v[0],
    decreases v.len(),
{
    if v.len() > 0 {
        let rest = v.drop_last();
        let head = distinct(rest);
        law_distinct_keeps_first_occurrences(rest);
        assert forall|s: Seq<char>| #[trigger] distinct(v).contains(s) <==> v.contains(s) by {
            if v.contains(s) {
                let i = choose|i: int| 0 <= i < v.len() && v[i] == s;
                if i < rest.len() {
                    assert(rest[i] == s);
                    assert(head.contains(s));
                    let j = choose|j: int| 0 <= j < head.len() && head[j] == s;
                    assert(distinct(v)[j] == s);
                } else {
                    if !head.contains(s) {
                        assert(distinct(v)[head.len() as int] == s);
                    }
                }
            }
            if distinct(v).contains(s) {
                let j = choose|j: int| 0 <= j < distinct(v).len() && distinct(v)[j] == s;
                if j < head.len() {
                    assert(head[j] == s);
                    assert(head.contains(s));
                    let i = choose|i: int| 0 <= i < rest.len() && rest[i] == s;
                    assert(v[i] == s);
                } else {
                    assert(v[v.len() - 1] == s);
                }
            }
        }
        if rest.len() > 0 {
            assert(rest[0] == v[0]);
        } else {
            assert(head =~= Seq::empty());
        }
    }
}

/// The directories keep their order: each one that did not come before is put behind those
/// that did.
pub proof fn law_distinct_keeps_the_order(v: Seq<Seq<char>>, s: Seq<char>)
    ensures
        v.contains(s) ==> distinct(v.push(s)) == distinct(v),
        !v.contains(s) ==> distinct(v.push(s)) == distinct(v).push(s),
{
    law_distinct_keeps_first_occurrences(v);
    assert(v.push(s).drop_last() =~= v);
    assert(distinct(v).contains(s) <==> v.contains(s));
}

/// The directory of the program itself comes first in the path, and none comes twice.
pub proof fn law_program_is_found_first(binary: Seq<char>, home: Seq<char>, path: Option<Seq<char>>)
    ensures
        distinct(safe_dirs(binary, home, path)).no_duplicates(),
        program_dir(binary).len() > 0 ==> distinct(safe_dirs(binary, home, path))[0]
            == program_dir(binary)[0],
{
    law_distinct_keeps_first_occurrences(safe_dirs(binary, home, path));
}

/// What is said where the server is in none of a path's directories: all of them are named.
pub open spec fn command_missing(path: Seq<char>) -> Seq<char> {
    "`marrow` binary not found on the generated PATH.\nSearched: "@ + text::joined(
        scan::pieces(path, ':'),
        ", "@,
    )
        + "\nFix: ensure `marrow` is installed (e.g. `cargo install marrow`) and is in one of the directories above."@
}

/// Where the server is looked for on a path.
pub fn command_candidates(env_path: &str) -> (r: Vec<String>)
    ensures
        r.len() == scan::pieces(env_path@, ':').len(),
        forall|i: int|
            0 <= i < r.len() ==> (#[trigger] r@[i])@ == paths::joined_path(
                scan::pieces(env_path@, ':')[i],
                "marrow"@,
            ),
{
    let dirs = split_on(env_path, ':');
    let ghost parts = scan::pieces(env_path@, ':');
    let mut out: Vec<String> = Vec::new();
    let mut i: usize = 0;
    while i < dirs.len()
        invariant
            i <= dirs.len(),
            parts == text::texts(dirs@),
            out.len() == i,
            forall|k: int|
                0 <= k < i ==> (#[trigger] out@[k])@ == paths::joined_path(parts[k], "marrow"@),
        decreases dirs.len() - i,
    {
        assert(parts[i as int] == dirs@[i as int]@);
        out.push(join_path(&dirs[i], "marrow"));
        i += 1;
    }
    out
}

/// Whether the server is found on a path. `runnable` says of each candidate whether it is
/// a program that can be run.
pub fn validate_marrow_command(env_path: &str, runnable: &Vec<bool>) -> (r: Result<(), String>)
    ensures
        r is Ok <==> runnable@.contains(true),
        r matches Err(m) ==> m@ == command_missing(env_path@),
{
    let mut i: usize = 0;
    while i < runnable.len()
        invariant
            i <= runnable.len(),
            forall|k: int| 0 <= k < i ==> !runnable@[k],
        decreases runnable.len() - i,
    {
        if runnable[i] {
            assert(runnable@[i as int]);
            return Ok(());
        }
        i += 1;
    }
    let dirs = split_on(env_path, ':');
    Err(
        "`marrow` binary not found on the generated PATH.\nSearched: ".to_owned().concat(
            &join(&dirs, ", "),
        ).concat(
            "\nFix: ensure `marrow` is installed (e.g. `cargo install marrow`) and is in one of the directories above.",
        ),
    )
}

} // verus!
