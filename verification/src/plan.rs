//! How sing-box is launched with the privileges TUN mode needs, and the
//! exact command line each platform's elevation route runs.
use vstd::prelude::*;

use crate::text::push_str;

verus! {

broadcast use vstd::slice::group_slice_axioms;

/// The desktop OS to plan an elevated launch for.
#[derive(Debug, Clone, Copy, PartialEq, Eq, Structural)]
pub enum TargetOs {
    Windows,
    MacOs,
    Linux,
}

/// How to launch sing-box so that it can create a TUN device.
#[derive(Debug, Clone, PartialEq)]
pub enum LaunchPlan {
    /// Already privileged (Linux with `CAP_NET_ADMIN` on the binary).
    Direct { program: String, args: Vec<String> },
    /// Windows: PowerShell's `Start-Process -Verb RunAs`, the UAC prompt.
    WindowsRunAs { program: String, args: Vec<String> },
    /// macOS: `osascript ... with administrator privileges`.
    MacOsAdminPrompt { program: String, args: Vec<String> },
    /// Linux without the capability: `pkexec`, a polkit prompt.
    LinuxPolkit { program: String, args: Vec<String> },
}

/// A program and its arguments, ready to spawn.
#[derive(Debug, Clone, PartialEq)]
pub struct CommandLine {
    pub program: String,
    pub args: Vec<String>,
}

pub open spec fn views(v: Seq<String>) -> Seq<Seq<char>> {
    v.map_values(|s: String| s@)
}

/// Which kind of plan `plan_launch` picks: 0 direct, 1 UAC, 2 macOS admin
/// prompt, 3 polkit.
pub open spec fn plan_kind(os: TargetOs, has_cap: bool) -> int {
    match os {
        TargetOs::Windows => 1,
        TargetOs::MacOs => 2,
        TargetOs::Linux => if has_cap {
            0
        } else {
            3
        },
    }
}

impl LaunchPlan {
    pub open spec fn kind(&self) -> int {
        match self {
            LaunchPlan::Direct { .. } => 0,
            LaunchPlan::WindowsRunAs { .. } => 1,
            LaunchPlan::MacOsAdminPrompt { .. } => 2,
            LaunchPlan::LinuxPolkit { .. } => 3,
        }
    }

    pub open spec fn program_view(&self) -> Seq<char> {
        match self {
            LaunchPlan::Direct { program, .. } => program@,
            LaunchPlan::WindowsRunAs { program, .. } => program@,
            LaunchPlan::MacOsAdminPrompt { program, .. } => program@,
            LaunchPlan::LinuxPolkit { program, .. } => program@,
        }
    }

    pub open spec fn args_view(&self) -> Seq<Seq<char>> {
        match self {
            LaunchPlan::Direct { args, .. } => views(args@),
            LaunchPlan::WindowsRunAs { args, .. } => views(args@),
            LaunchPlan::MacOsAdminPrompt { args, .. } => views(args@),
            LaunchPlan::LinuxPolkit { args, .. } => views(args@),
        }
    }
}

fn clone_strings(v: &Vec<String>) -> (r: Vec<String>)
    ensures
        views(r@) == views(v@),
{
    let mut r: Vec<String> = Vec::new();
    let mut i: usize = 0;
    while i < v.len()
        invariant
            i <= v@.len(),
            r@.len() == i,
            forall|k: int| 0 <= k < i ==> r@[k]@ == v@[k]@,
        decreases v.len() - i,
    {
        r.push(v[i].clone());
        i = i + 1;
    }
    assert(views(r@) =~= views(v@));
    r
}

/// Windows always needs the UAC prompt and macOS its admin prompt; Linux
/// runs the binary directly when it already has `CAP_NET_ADMIN`, and goes
/// through polkit otherwise. The binary and its arguments are kept as given.
pub fn plan_launch(os: TargetOs, binary: &str, args: &Vec<String>, linux_has_cap_net_admin: bool) -> (p: LaunchPlan)
    ensures
        p.kind() == plan_kind(os, linux_has_cap_net_admin),
        p.program_view() == binary@,
        p.args_view() == views(args@),
{
    let mut program = String::new();
    push_str(&mut program, binary);
    let args = clone_strings(args);
    match os {
        TargetOs::Windows => LaunchPlan::WindowsRunAs { program, args },
        TargetOs::MacOs => LaunchPlan::MacOsAdminPrompt { program, args },
        TargetOs::Linux => {
            if linux_has_cap_net_admin {
                LaunchPlan::Direct { program, args }
            } else {
                LaunchPlan::LinuxPolkit { program, args }
            }
        },
    }
}

/// `s` with every `c` replaced by `r`, as `str::replace` does.
pub open spec fn replace_char(s: Seq<char>, c: char, r: Seq<char>) -> Seq<char>
    decreases s.len(),
{
    if s.len() == 0 {
        Seq::empty()
    } else {
        replace_char(s.drop_last(), c, r) + (if s.last() == c {
            r
        } else {
            seq![s.last()]
        })
    }
}

fn push_replaced(out: &mut String, s: &str, c: char, r: &str)
    ensures
        final(out)@ == old(out)@ + replace_char(s@, c, r@),
{
    let v = crate::text::to_chars(s);
    let mut i: usize = 0;
    while i < v.len()
        invariant
            i <= v@.len(),
            v@ == s@,
            out@ == old(out)@ + replace_char(v@.subrange(0, i as int), c, r@),
        decreases v.len() - i,
    {
        proof {
            assert(v@.subrange(0, i + 1).drop_last() == v@.subrange(0, i as int));
        }
        if v[i] == c {
            push_str(out, r);
        } else {
            out.push(v[i]);
        }
        i = i + 1;
    }
    proof {
        assert(v@.subrange(0, v@.len() as int) == v@);
    }
}

/// A PowerShell single-quoted string: an embedded `'` is doubled.
pub open spec fn powershell_quoted(s: Seq<char>) -> Seq<char> {
    seq!['\''] + replace_char(s, '\'', "''"@) + seq!['\'']
}

/// Text safe inside an AppleScript double-quoted string.
pub open spec fn applescript_escaped(s: Seq<char>) -> Seq<char> {
    replace_char(replace_char(s, '\\', "\\\\"@), '"', "\\\""@)
}

/// A single POSIX `sh` token: single-quoted, an embedded `'` written `'\''`.
pub open spec fn posix_quoted(s: Seq<char>) -> Seq<char> {
    seq!['\''] + replace_char(s, '\'', "'\\''"@) + seq!['\'']
}

pub fn powershell_single_quote(s: &str) -> (q: String)
    ensures
        q@ == powershell_quoted(s@),
{
    let mut q = String::new();
    q.push('\'');
    push_replaced(&mut q, s, '\'', "''");
    q.push('\'');
    q
}

pub fn applescript_double_quote_escape(s: &str) -> (e: String)
    ensures
        e@ == applescript_escaped(s@),
{
    let mut first = String::new();
    push_replaced(&mut first, s, '\\', "\\\\");
    let mut e = String::new();
    push_replaced(&mut e, first.as_str(), '"', "\\\"");
    e
}

pub fn posix_shell_quote(s: &str) -> (q: String)
    ensures
        q@ == posix_quoted(s@),
{
    let mut q = String::new();
    q.push('\'');
    push_replaced(&mut q, s, '\'', "'\\''");
    q.push('\'');
    q
}

/// The items of `parts`, each quoted by `quote`, separated by `sep`.
pub open spec fn join_quoted(parts: Seq<Seq<char>>, sep: Seq<char>, quote: spec_fn(Seq<char>) -> Seq<char>) -> Seq<char>
    decreases parts.len(),
{
    if parts.len() == 0 {
        Seq::empty()
    } else if parts.len() == 1 {
        quote(parts[0])
    } else {
        join_quoted(parts.drop_last(), sep, quote) + sep + quote(parts.last())
    }
}

pub open spec fn posix_quote_fn() -> spec_fn(Seq<char>) -> Seq<char> {
    |s: Seq<char>| posix_quoted(s)
}

pub open spec fn powershell_quote_fn() -> spec_fn(Seq<char>) -> Seq<char> {
    |s: Seq<char>| powershell_quoted(s)
}

/// The `sh` program that runs sing-box and outlives it only while
/// `run_file` exists: deleting the file is the stop signal an unprivileged
/// app can still give an elevated process.
pub open spec fn watchdog_script(program: Seq<char>, args: Seq<Seq<char>>, run_file: Seq<char>) -> Seq<char> {
    join_quoted(seq![program] + args, " "@, posix_quote_fn()) + " & child=$!; while [ -e "@
        + posix_quoted(run_file)
        + " ] && kill -0 $child 2>/dev/null; do sleep 1; done; kill $child 2>/dev/null; wait $child 2>/dev/null"@
}

/// Appends the strings of `parts`, each quoted for POSIX `sh` when
/// `posix` and for PowerShell otherwise, separated by `sep`.
fn push_joined(out: &mut String, parts: &Vec<String>, sep: &str, posix: bool)
    ensures
        final(out)@ == old(out)@ + join_quoted(
            views(parts@),
            sep@,
            if posix {
                posix_quote_fn()
            } else {
                powershell_quote_fn()
            },
        ),
{
    let ghost quote = if posix {
        posix_quote_fn()
    } else {
        powershell_quote_fn()
    };
    let mut i: usize = 0;
    while i < parts.len()
        invariant
            i <= parts@.len(),
            quote == (if posix {
                posix_quote_fn()
            } else {
                powershell_quote_fn()
            }),
            out@ == old(out)@ + join_quoted(views(parts@.subrange(0, i as int)), sep@, quote),
        decreases parts.len() - i,
    {
        let q = if posix {
            posix_shell_quote(parts[i].as_str())
        } else {
            powershell_single_quote(parts[i].as_str())
        };
        assert(q@ == quote(parts@[i as int]@));
        if i > 0 {
            push_str(out, sep);
        }
        push_str(out, q.as_str());
        proof {
            let next = views(parts@.subrange(0, i + 1));
            assert(next.drop_last() =~= views(parts@.subrange(0, i as int)));
            assert(next.last() == parts@[i as int]@);
            if i == 0 {
                assert(views(parts@.subrange(0, 0)).len() == 0);
                assert(next.len() == 1);
            }
        }
        i = i + 1;
    }
    proof {
        assert(parts@.subrange(0, parts@.len() as int) == parts@);
    }
}

pub fn posix_watchdog(program: &str, args: &Vec<String>, run_file: &str) -> (s: String)
    ensures
        s@ == watchdog_script(program@, views(args@), run_file@),
{
    let mut parts: Vec<String> = Vec::new();
    let mut p = String::new();
    push_str(&mut p, program);
    parts.push(p);
    let mut i: usize = 0;
    while i < args.len()
        invariant
            i <= args@.len(),
            parts@.len() == i + 1,
            parts@[0]@ == program@,
            forall|k: int| 0 <= k < i ==> parts@[k + 1]@ == args@[k]@,
        decreases args.len() - i,
    {
        parts.push(args[i].clone());
        i = i + 1;
    }
    assert(views(parts@) =~= seq![program@] + views(args@));
    let mut s = String::new();
    push_joined(&mut s, &parts, " ", true);
    push_str(&mut s, " & child=$!; while [ -e ");
    let q = posix_shell_quote(run_file);
    push_str(&mut s, q.as_str());
    push_str(&mut s, " ] && kill -0 $child 2>/dev/null; do sleep 1; done; kill $child 2>/dev/null; wait $child 2>/dev/null");
    s
}

/// The PowerShell that runs elevated on Windows: it starts sing-box hidden
/// and stops it once `run_file` is gone.
pub open spec fn windows_inner_script(program: Seq<char>, args: Seq<Seq<char>>, run_file: Seq<char>) -> Seq<char> {
    "$p = Start-Process -FilePath "@ + powershell_quoted(program) + " -ArgumentList "@
        + join_quoted(args, ","@, powershell_quote_fn())
        + " -WindowStyle Hidden -PassThru; while ((Test-Path "@ + powershell_quoted(run_file)
        + ") -and !$p.HasExited) { Start-Sleep -Seconds 1 }; if (!$p.HasExited) { Stop-Process -Id $p.Id -Force }"@
}

/// The command line each plan runs, `run_file` being the liveness sentinel
/// of an elevated launch.
pub open spec fn command_of(plan_kind: int, program: Seq<char>, args: Seq<Seq<char>>, run_file: Seq<char>) -> (Seq<char>, Seq<Seq<char>>) {
    if plan_kind == 0 {
        (program, args)
    } else if plan_kind == 1 {
        (
            "powershell"@,
            seq![
                "-NoProfile"@,
                "-NonInteractive"@,
                "-Command"@,
                "Start-Process -FilePath 'powershell' -ArgumentList '-NoProfile','-WindowStyle','Hidden','-Command',"@
                    + powershell_quoted(windows_inner_script(program, args, run_file))
                    + " -Verb RunAs -WindowStyle Hidden"@,
            ],
        )
    } else if plan_kind == 2 {
        (
            "osascript"@,
            seq![
                "-e"@,
                "do shell script \""@ + applescript_escaped(watchdog_script(program, args, run_file))
                    + "\" with administrator privileges"@,
            ],
        )
    } else {
        ("pkexec"@, seq!["/bin/sh"@, "-c"@, watchdog_script(program, args, run_file)])
    }
}

fn owned(s: &str) -> (r: String)
    ensures
        r@ == s@,
{
    let mut r = String::new();
    push_str(&mut r, s);
    r
}

/// The program and arguments to spawn for `plan`.
pub fn to_command(plan: &LaunchPlan, run_file: &str) -> (c: CommandLine)
    ensures
        (c.program@, views(c.args@)) == command_of(
            plan.kind(),
            plan.program_view(),
            plan.args_view(),
            run_file@,
        ),
{
    match plan {
        LaunchPlan::Direct { program, args } => {
            CommandLine { program: program.clone(), args: clone_strings(args) }
        },
        LaunchPlan::WindowsRunAs { program, args } => {
            let mut inner = String::new();
            push_str(&mut inner, "$p = Start-Process -FilePath ");
            let qp = powershell_single_quote(program.as_str());
            push_str(&mut inner, qp.as_str());
            push_str(&mut inner, " -ArgumentList ");
            push_joined(&mut inner, args, ",", false);
            push_str(&mut inner, " -WindowStyle Hidden -PassThru; while ((Test-Path ");
            let qr = powershell_single_quote(run_file);
            push_str(&mut inner, qr.as_str());
            push_str(&mut inner, ") -and !$p.HasExited) { Start-Sleep -Seconds 1 }; if (!$p.HasExited) { Stop-Process -Id $p.Id -Force }");
            let mut ps = String::new();
            push_str(&mut ps, "Start-Process -FilePath 'powershell' -ArgumentList '-NoProfile','-WindowStyle','Hidden','-Command',");
            let qi = powershell_single_quote(inner.as_str());
            push_str(&mut ps, qi.as_str());
            push_str(&mut ps, " -Verb RunAs -WindowStyle Hidden");
            let mut cargs: Vec<String> = Vec::new();
            cargs.push(owned("-NoProfile"));
            cargs.push(owned("-NonInteractive"));
            cargs.push(owned("-Command"));
            cargs.push(ps);
            let c = CommandLine { program: owned("powershell"), args: cargs };
            assert(views(c.args@) =~= command_of(1, program@, views(args@), run_file@).1);
            c
        },
        LaunchPlan::MacOsAdminPrompt { program, args } => {
            let w = posix_watchdog(program.as_str(), args, run_file);
            let e = applescript_double_quote_escape(w.as_str());
            let mut script = String::new();
            push_str(&mut script, "do shell script \"");
            push_str(&mut script, e.as_str());
            push_str(&mut script, "\" with administrator privileges");
            let mut cargs: Vec<String> = Vec::new();
            cargs.push(owned("-e"));
            cargs.push(script);
            let c = CommandLine { program: owned("osascript"), args: cargs };
            assert(views(c.args@) =~= command_of(2, program@, views(args@), run_file@).1);
            c
        },
        LaunchPlan::LinuxPolkit { program, args } => {
            let w = posix_watchdog(program.as_str(), args, run_file);
            let mut cargs: Vec<String> = Vec::new();
            cargs.push(owned("/bin/sh"));
            cargs.push(owned("-c"));
            cargs.push(w);
            let c = CommandLine { program: owned("pkexec"), args: cargs };
            assert(views(c.args@) =~= command_of(3, program@, views(args@), run_file@).1);
            c
        },
    }
}

/// The arguments sing-box is run with for `config_path`.
pub open spec fn run_args(config_path: Seq<char>) -> Seq<Seq<char>> {
    seq!["run"@, "-c"@, config_path]
}

/// What the sidecar launcher spawns: the binary itself without a run file
/// (no TUN, or no known OS to escalate on), and otherwise the OS's elevation
/// route around it.
pub open spec fn launch_command(binary: Seq<char>, config_path: Seq<char>, run_file: Option<Seq<char>>, os: Option<TargetOs>, has_cap: bool) -> (Seq<char>, Seq<Seq<char>>) {
    match (run_file, os) {
        (Some(rf), Some(os)) => command_of(plan_kind(os, has_cap), binary, run_args(config_path), rf),
        _ => (binary, run_args(config_path)),
    }
}

/// Without TUN the binary runs as it is. With TUN it runs itself only on
/// Linux with `CAP_NET_ADMIN` already held; everywhere else the program
/// started is the platform's elevation command, which runs the binary
/// under a watchdog of the run file.
pub proof fn lemma_tun_launch_is_elevated(
    binary: Seq<char>,
    config_path: Seq<char>,
    run_file: Seq<char>,
    os: TargetOs,
    has_cap: bool,
)
    ensures
        launch_command(binary, config_path, None, Some(os), has_cap) == (binary, run_args(config_path)),
        launch_command(binary, config_path, Some(run_file), Some(os), has_cap).0 == match os {
            TargetOs::Windows => "powershell"@,
            TargetOs::MacOs => "osascript"@,
            TargetOs::Linux => if has_cap {
                binary
            } else {
                "pkexec"@
            },
        },
{
}

/// Replacing a character that does not occur changes nothing.
proof fn lemma_replace_absent(s: Seq<char>, c: char, r: Seq<char>)
    requires
        forall|i: int| 0 <= i < s.len() ==> s[i] != c,
    ensures
        replace_char(s, c, r) == s,
    decreases s.len(),
{
    if s.len() > 0 {
        lemma_replace_absent(s.drop_last(), c, r);
        assert(s.drop_last().push(s.last()) =~= s);
    }
}

/// Replacing in two joined texts is replacing in each.
proof fn lemma_replace_concat(a: Seq<char>, b: Seq<char>, c: char, r: Seq<char>)
    ensures
        replace_char(a + b, c, r) == replace_char(a, c, r) + replace_char(b, c, r),
    decreases b.len(),
{
    if b.len() == 0 {
        assert(a + b =~= a);
        assert(replace_char(b, c, r) =~= Seq::<char>::empty());
        assert(replace_char(a, c, r) + Seq::<char>::empty() =~= replace_char(a, c, r));
    } else {
        lemma_replace_concat(a, b.drop_last(), c, r);
        assert((a + b).drop_last() =~= a + b.drop_last());
        assert((a + b).last() == b.last());
    }
}

/// PowerShell single quoting: text without `'` is wrapped in `'` as it
/// is, and each `'` inside is written twice, so PowerShell reads back the
/// original text.
pub proof fn lemma_powershell_quoting(s: Seq<char>, a: Seq<char>, b: Seq<char>)
    ensures
        (forall|i: int| 0 <= i < s.len() ==> s[i] != '\'') ==> powershell_quoted(s) == seq!['\'']
            + s + seq!['\''],
        powershell_quoted(a + seq!['\''] + b) == seq!['\''] + replace_char(a, '\'', "''"@) + "''"@
            + replace_char(b, '\'', "''"@) + seq!['\''],
{
    reveal_strlit("''");
    if forall|i: int| 0 <= i < s.len() ==> s[i] != '\'' {
        lemma_replace_absent(s, '\'', "''"@);
    }
    lemma_replace_concat(a, seq!['\''], '\'', "''"@);
    lemma_replace_concat(a + seq!['\''], b, '\'', "''"@);
    assert(seq!['\''].drop_last() =~= Seq::<char>::empty());
    assert(replace_char(Seq::<char>::empty(), '\'', "''"@) =~= Seq::<char>::empty());
    assert(replace_char(seq!['\''], '\'', "''"@) =~= "''"@);
    assert(powershell_quoted(a + seq!['\''] + b) =~= seq!['\''] + replace_char(a, '\'', "''"@)
        + "''"@ + replace_char(b, '\'', "''"@) + seq!['\'']);
}

/// POSIX single quoting: text without `'` is wrapped in `'` as it is, and
/// each `'` inside is written `'\''` (close, an escaped quote, reopen), so
/// the shell reads back the original text as one word.
pub proof fn lemma_posix_quoting(s: Seq<char>, a: Seq<char>, b: Seq<char>)
    ensures
        (forall|i: int| 0 <= i < s.len() ==> s[i] != '\'') ==> posix_quoted(s) == seq!['\''] + s
            + seq!['\''],
        posix_quoted(a + seq!['\''] + b) == seq!['\''] + replace_char(a, '\'', "'\\''"@)
            + "'\\''"@ + replace_char(b, '\'', "'\\''"@) + seq!['\''],
{
    reveal_strlit("'\\''");
    if forall|i: int| 0 <= i < s.len() ==> s[i] != '\'' {
        lemma_replace_absent(s, '\'', "'\\''"@);
    }
    lemma_replace_concat(a, seq!['\''], '\'', "'\\''"@);
    lemma_replace_concat(a + seq!['\''], b, '\'', "'\\''"@);
    assert(seq!['\''].drop_last() =~= Seq::<char>::empty());
    assert(replace_char(Seq::<char>::empty(), '\'', "'\\''"@) =~= Seq::<char>::empty());
    assert(replace_char(seq!['\''], '\'', "'\\''"@) =~= "'\\''"@);
    assert(posix_quoted(a + seq!['\''] + b) =~= seq!['\''] + replace_char(a, '\'', "'\\''"@)
        + "'\\''"@ + replace_char(b, '\'', "'\\''"@) + seq!['\'']);
}

/// On Windows a TUN launch runs sing-box through `Start-Process`, whose
/// `-ArgumentList` is a PowerShell array: `run`, `-c` and the config path,
/// each single-quoted and separated by commas, so sing-box receives them
/// as three arguments. The elevated PowerShell is handed that script,
/// quoted once more, as the last argument of the launch.
pub proof fn lemma_windows_arguments_form_an_array(
    binary: Seq<char>,
    config_path: Seq<char>,
    run_file: Seq<char>,
    has_cap: bool,
)
    ensures
        exists|rest: Seq<char>|
            windows_inner_script(binary, run_args(config_path), run_file) == "$p = Start-Process -FilePath "@
                + powershell_quoted(binary) + " -ArgumentList 'run','-c',"@ + powershell_quoted(
                config_path,
            ) + " -WindowStyle Hidden -PassThru"@ + rest,
        launch_command(binary, config_path, Some(run_file), Some(TargetOs::Windows), has_cap).0
            == "powershell"@,
        launch_command(binary, config_path, Some(run_file), Some(TargetOs::Windows), has_cap).1.len()
            == 4,
        launch_command(binary, config_path, Some(run_file), Some(TargetOs::Windows), has_cap).1[3]
            == "Start-Process -FilePath 'powershell' -ArgumentList '-NoProfile','-WindowStyle','Hidden','-Command',"@
            + powershell_quoted(windows_inner_script(binary, run_args(config_path), run_file))
            + " -Verb RunAs -WindowStyle Hidden"@,
{
    reveal_strlit("run");
    reveal_strlit("-c");
    reveal_strlit("'run','-c',");
    reveal_strlit(",");
    reveal_strlit(" -WindowStyle Hidden -PassThru");
    reveal_strlit(" -WindowStyle Hidden -PassThru; while ((Test-Path ");
    let args = run_args(config_path);
    let q = powershell_quote_fn();
    lemma_replace_absent("run"@, '\'', "''"@);
    lemma_replace_absent("-c"@, '\'', "''"@);
    assert(q("run"@) =~= seq!['\'', 'r', 'u', 'n', '\'']);
    assert(q("-c"@) =~= seq!['\'', '-', 'c', '\'']);
    assert(args.drop_last() =~= seq!["run"@, "-c"@]);
    assert(args.last() == config_path);
    assert(seq!["run"@, "-c"@].drop_last() =~= seq!["run"@]);
    assert(join_quoted(seq!["run"@], ","@, q) == q("run"@));
    assert(join_quoted(seq!["run"@, "-c"@], ","@, q) == q("run"@) + ","@ + q("-c"@));
    assert(join_quoted(args, ","@, q) == join_quoted(seq!["run"@, "-c"@], ","@, q) + ","@ + q(
        config_path,
    ));
    assert(join_quoted(args, ","@, q) =~= "'run','-c',"@ + powershell_quoted(config_path));
    reveal_strlit(" -ArgumentList ");
    reveal_strlit(" -ArgumentList 'run','-c',");
    assert(" -ArgumentList "@ + "'run','-c',"@ =~= " -ArgumentList 'run','-c',"@);
    let tail = " -WindowStyle Hidden -PassThru; while ((Test-Path "@ + powershell_quoted(run_file)
        + ") -and !$p.HasExited) { Start-Sleep -Seconds 1 }; if (!$p.HasExited) { Stop-Process -Id $p.Id -Force }"@;
    let rest = tail.subrange(" -WindowStyle Hidden -PassThru"@.len() as int, tail.len() as int);
    assert(tail =~= " -WindowStyle Hidden -PassThru"@ + rest);
    assert(windows_inner_script(binary, args, run_file) =~= "$p = Start-Process -FilePath "@
        + powershell_quoted(binary) + " -ArgumentList 'run','-c',"@ + powershell_quoted(config_path)
        + " -WindowStyle Hidden -PassThru"@ + rest);
}

/// Where elevation goes through `sh` (the macOS prompt, polkit), sing-box
/// is started as `binary run -c config_path`, each word single-quoted and
/// separated by spaces, in the background, and the script then watches the
/// run file. On Linux without `CAP_NET_ADMIN` that script is what `pkexec`
/// runs; with it, the binary is run as it is.
pub proof fn lemma_watchdog_runs_sing_box_then_watches(
    binary: Seq<char>,
    config_path: Seq<char>,
    run_file: Seq<char>,
)
    ensures
        exists|rest: Seq<char>|
            watchdog_script(binary, run_args(config_path), run_file) == posix_quoted(binary)
                + " 'run' '-c' "@ + posix_quoted(config_path) + " & child=$!; while [ -e "@
                + posix_quoted(run_file) + rest,
        launch_command(binary, config_path, Some(run_file), Some(TargetOs::Linux), false) == (
            "pkexec"@,
            seq!["/bin/sh"@, "-c"@, watchdog_script(binary, run_args(config_path), run_file)],
        ),
        launch_command(binary, config_path, Some(run_file), Some(TargetOs::Linux), true) == (
            binary,
            run_args(config_path),
        ),
{
    reveal_strlit("run");
    reveal_strlit("-c");
    reveal_strlit(" ");
    reveal_strlit(" 'run' '-c' ");
    let q = posix_quote_fn();
    let words = seq![binary] + run_args(config_path);
    lemma_replace_absent("run"@, '\'', "'\\''"@);
    lemma_replace_absent("-c"@, '\'', "'\\''"@);
    assert(q("run"@) =~= seq!['\'', 'r', 'u', 'n', '\'']);
    assert(q("-c"@) =~= seq!['\'', '-', 'c', '\'']);
    let w1 = seq![binary];
    let w2 = seq![binary, "run"@];
    let w3 = seq![binary, "run"@, "-c"@];
    assert(words =~= seq![binary, "run"@, "-c"@, config_path]);
    assert(words.drop_last() =~= w3);
    assert(w3.drop_last() =~= w2);
    assert(w2.drop_last() =~= w1);
    assert(join_quoted(w1, " "@, q) == q(binary));
    assert(join_quoted(w2, " "@, q) == q(binary) + " "@ + q("run"@));
    assert(join_quoted(w3, " "@, q) == join_quoted(w2, " "@, q) + " "@ + q("-c"@));
    assert(join_quoted(words, " "@, q) == join_quoted(w3, " "@, q) + " "@ + q(config_path));
    assert(join_quoted(words, " "@, q) =~= posix_quoted(binary) + " 'run' '-c' "@ + posix_quoted(
        config_path,
    ));
    let rest = " ] && kill -0 $child 2>/dev/null; do sleep 1; done; kill $child 2>/dev/null; wait $child 2>/dev/null"@;
    assert(watchdog_script(binary, run_args(config_path), run_file) =~= posix_quoted(binary)
        + " 'run' '-c' "@ + posix_quoted(config_path) + " & child=$!; while [ -e "@ + posix_quoted(
        run_file,
    ) + rest);
}

/// The command line for launching `binary` on `config_path`.
pub fn command_for(binary: &str, config_path: &str, run_file: Option<&str>, os: Option<TargetOs>, has_cap: bool) -> (c: CommandLine)
    ensures
        (c.program@, views(c.args@)) == launch_command(
            binary@,
            config_path@,
            match run_file {
                Some(rf) => Some(rf@),
                None => None,
            },
            os,
            has_cap,
        ),
{
    let mut args: Vec<String> = Vec::new();
    args.push(owned("run"));
    args.push(owned("-c"));
    args.push(owned(config_path));
    assert(views(args@) =~= run_args(config_path@));
    match (run_file, os) {
        (Some(rf), Some(os)) => {
            let plan = plan_launch(os, binary, &args, has_cap);
            to_command(&plan, rf)
        },
        _ => CommandLine { program: owned(binary), args },
    }
}

} // verus!
