//! Which shell a session runs, with which arguments and environment.
//!
//! Everything here is a pure function of a runtime platform value and of
//! what the host reports (its environment, whether `/bin/bash` exists), so
//! each platform's policy can be exercised on any machine.

use vstd::prelude::*;
use crate::text::{
    contains_run, entries_map, occurs_in, pair_view, pairs_view, strings_view, to_chars,
};

verus! {

/// The operating systems with a policy of their own.
#[derive(Clone, Copy, Debug, PartialEq, Eq, Structural)]
pub enum Platform {
    Windows,
    MacOs,
    Linux,
}

/// Rows of a freshly opened pseudo-terminal.
pub const DEFAULT_ROWS: u16 = 30;

/// Columns of a freshly opened pseudo-terminal.
pub const DEFAULT_COLS: u16 = 120;

/// The shell executable: PowerShell on Windows; `$SHELL` elsewhere, else
/// `/bin/zsh` on macOS, and `/bin/bash` (when present) or `/bin/sh` on Linux.
pub open spec fn shell_path(platform: Platform, shell_var: Option<Seq<char>>, bash_exists: bool) -> Seq<char> {
    match platform {
        Platform::Windows => "powershell.exe"@,
        Platform::MacOs => match shell_var {
            Some(s) => s,
            None => "/bin/zsh"@,
        },
        Platform::Linux => match shell_var {
            Some(s) => s,
            None => if bash_exists {
                "/bin/bash"@
            } else {
                "/bin/sh"@
            },
        },
    }
}

/// The shell's startup arguments: non-interactive policy flags for
/// PowerShell, a login shell on macOS, none on Linux.
pub open spec fn shell_args(platform: Platform) -> Seq<Seq<char>> {
    match platform {
        Platform::Windows => seq!["-ExecutionPolicy"@, "Bypass"@, "-NoLogo"@],
        Platform::MacOs => seq!["-l"@],
        Platform::Linux => seq![],
    }
}

pub open spec fn opt_view(o: Option<String>) -> Option<Seq<char>> {
    match o {
        Some(s) => Some(s@),
        None => None,
    }
}

/// Chooses the shell and its arguments. `shell_var` is the host's `$SHELL`
/// when it is set; `bash_exists` whether `/bin/bash` exists.
pub fn default_shell(platform: Platform, shell_var: Option<String>, bash_exists: bool) -> (r: (
    String,
    Vec<String>,
))
    ensures
        r.0@ == shell_path(platform, opt_view(shell_var), bash_exists),
        strings_view(r.1@) == shell_args(platform),
{
    let mut args: Vec<String> = Vec::new();
    let shell = match platform {
        Platform::Windows => {
            args.push("-ExecutionPolicy".to_string());
            args.push("Bypass".to_string());
            args.push("-NoLogo".to_string());
            "powershell.exe".to_string()
        },
        Platform::MacOs => {
            args.push("-l".to_string());
            match shell_var {
                Some(s) => s,
                None => "/bin/zsh".to_string(),
            }
        },
        Platform::Linux => match shell_var {
            Some(s) => s,
            None => if bash_exists {
                "/bin/bash".to_string()
            } else {
                "/bin/sh".to_string()
            },
        },
    };
    proof {
        assert(strings_view(args@) =~= shell_args(platform));
    }
    (shell, args)
}

/// Package-manager directories that a GUI-launched process on macOS misses.
pub open spec fn homebrew_dirs() -> Seq<char> {
    "/opt/homebrew/bin:/opt/homebrew/sbin:/usr/local/bin:/usr/local/sbin"@
}

/// `PATH` on macOS: the package-manager directories first, then the
/// inherited value, if any.
pub open spec fn augmented_path(current: Seq<char>) -> Seq<char> {
    if current.len() == 0 {
        homebrew_dirs()
    } else {
        homebrew_dirs() + ":"@ + current
    }
}

/// The value under `k`, or the empty text.
pub open spec fn value_or_empty(m: Map<Seq<char>, Seq<char>>, k: Seq<char>) -> Seq<char> {
    if m.contains_key(k) {
        m[k]
    } else {
        seq![]
    }
}

/// The child's environment: the host's, with terminal capability and
/// UTF-8 locale variables overridden, and on macOS `PATH` augmented.
pub open spec fn child_env(platform: Platform, host: Map<Seq<char>, Seq<char>>) -> Map<
    Seq<char>,
    Seq<char>,
> {
    let term = host.insert("TERM"@, "xterm-256color"@).insert("COLORTERM"@, "truecolor"@);
    let with_path = if platform == Platform::MacOs {
        term.insert("PATH"@, augmented_path(value_or_empty(term, "PATH"@)))
    } else {
        term
    };
    with_path.insert("LANG"@, "en_US.UTF-8"@).insert("LC_ALL"@, "en_US.UTF-8"@).insert(
        "PYTHONIOENCODING"@,
        "utf-8"@,
    ).insert("PYTHONUTF8"@, "1"@)
}

/// `e` without the assignments to `k`.
pub open spec fn without_key(e: Seq<(Seq<char>, Seq<char>)>, k: Seq<char>) -> Seq<
    (Seq<char>, Seq<char>),
>
    decreases e.len(),
{
    if e.len() == 0 {
        e
    } else if e.last().0 == k {
        without_key(e.drop_last(), k)
    } else {
        without_key(e.drop_last(), k).push(e.last())
    }
}

proof fn lemma_without_key(e: Seq<(Seq<char>, Seq<char>)>, k: Seq<char>)
    ensures
        entries_map(without_key(e, k)) == entries_map(e).remove(k),
    decreases e.len(),
{
    if e.len() == 0 {
        assert(entries_map(e).remove(k) =~= entries_map(e));
    } else {
        lemma_without_key(e.drop_last(), k);
        let w = without_key(e.drop_last(), k);
        if e.last().0 == k {
            assert(entries_map(e).remove(k) =~= entries_map(e.drop_last()).remove(k));
        } else {
            assert(w.push(e.last()).drop_last() =~= w);
            assert(entries_map(w.push(e.last())) =~= entries_map(e).remove(k));
        }
    }
}

/// Sets `key` to `value`: earlier assignments to `key` are dropped and the
/// new one is added at the end.
fn set_var(env: &mut Vec<(String, String)>, key: &str, value: String)
    ensures
        entries_map(pairs_view(final(env)@)) == entries_map(pairs_view(old(env)@)).insert(
            key@,
            value@,
        ),
{
    let k = key.to_string();
    let n = env.len();
    let mut kept: Vec<(String, String)> = Vec::new();
    let mut i: usize = 0;
    while i < n
        invariant
            n == env@.len(),
            i <= n,
            k@ == key@,
            pairs_view(kept@) == without_key(pairs_view(env@.subrange(0, i as int)), key@),
        decreases n - i,
    {
        let ghost before = kept@;
        proof {
            assert(pairs_view(env@.subrange(0, i + 1)).drop_last() =~= pairs_view(
                env@.subrange(0, i as int),
            ));
        }
        if !env[i].0.eq(&k) {
            let name = env[i].0.clone();
            let val = env[i].1.clone();
            kept.push((name, val));
            proof {
                assert(pairs_view(kept@) =~= pairs_view(before).push(pair_view(env@[i as int])));
            }
        }
        i = i + 1;
    }
    proof {
        assert(env@.subrange(0, n as int) =~= env@);
        lemma_without_key(pairs_view(env@), key@);
    }
    let ghost stripped = kept@;
    kept.push((k, value));
    proof {
        assert(pairs_view(kept@).drop_last() =~= pairs_view(stripped));
        assert(entries_map(pairs_view(kept@)) =~= entries_map(pairs_view(env@)).insert(key@, value@));
    }
    *env = kept;
}

/// The current value of `key`, if set.
fn get_var(env: &Vec<(String, String)>, key: &str) -> (r: Option<String>)
    ensures
        match r {
            Some(v) => entries_map(pairs_view(env@)).contains_key(key@) && v@ == entries_map(
                pairs_view(env@),
            )[key@],
            None => !entries_map(pairs_view(env@)).contains_key(key@),
        },
{
    let k = key.to_string();
    let n = env.len();
    let mut found: Option<String> = None;
    let mut i: usize = 0;
    while i < n
        invariant
            n == env@.len(),
            i <= n,
            k@ == key@,
            match found {
                Some(v) => entries_map(pairs_view(env@.subrange(0, i as int))).contains_key(key@)
                    && v@ == entries_map(pairs_view(env@.subrange(0, i as int)))[key@],
                None => !entries_map(pairs_view(env@.subrange(0, i as int))).contains_key(key@),
            },
        decreases n - i,
    {
        proof {
            assert(pairs_view(env@.subrange(0, i + 1)).drop_last() =~= pairs_view(
                env@.subrange(0, i as int),
            ));
        }
        if env[i].0.eq(&k) {
            found = Some(env[i].1.clone());
        }
        i = i + 1;
    }
    proof {
        assert(env@.subrange(0, n as int) =~= env@);
    }
    found
}

/// Builds the child process's environment from the host's variables.
pub fn child_environment(platform: Platform, host: Vec<(String, String)>) -> (r: Vec<
    (String, String),
>)
    ensures
        entries_map(pairs_view(r@)) == child_env(platform, entries_map(pairs_view(host@))),
{
    let mut env = host;
    set_var(&mut env, "TERM", "xterm-256color".to_string());
    set_var(&mut env, "COLORTERM", "truecolor".to_string());
    match platform {
        Platform::MacOs => {
            let current = match get_var(&env, "PATH") {
                Some(p) => p,
                None => String::new(),
            };
            let dirs = "/opt/homebrew/bin:/opt/homebrew/sbin:/usr/local/bin:/usr/local/sbin".to_string();
            let path = if current.as_str().is_empty() {
                dirs
            } else {
                dirs.concat(":").concat(current.as_str())
            };
            set_var(&mut env, "PATH", path);
        },
        _ => {},
    }
    set_var(&mut env, "LANG", "en_US.UTF-8".to_string());
    set_var(&mut env, "LC_ALL", "en_US.UTF-8".to_string());
    set_var(&mut env, "PYTHONIOENCODING", "utf-8".to_string());
    set_var(&mut env, "PYTHONUTF8", "1".to_string());
    env
}

/// The PowerShell prelude that switches the console to UTF-8.
pub open spec fn utf8_console_script() -> Seq<char> {
    "[Console]::OutputEncoding = [System.Text.Encoding]::UTF8; [Console]::InputEncoding = [System.Text.Encoding]::UTF8; $OutputEncoding = [System.Text.Encoding]::UTF8"@
}

/// Arguments for a shell started on plain pipes: on Windows a PowerShell
/// is also told to stay open after switching its console to UTF-8.
pub open spec fn pipe_args(platform: Platform, shell: Seq<char>, args: Seq<Seq<char>>) -> Seq<Seq<char>> {
    if platform == Platform::Windows && occurs_in("powershell"@, shell) {
        args + seq!["-NoExit"@, "-Command"@, utf8_console_script()]
    } else {
        args
    }
}

/// The arguments for a shell started without a pseudo-terminal.
pub fn fallback_args(platform: Platform, shell: &str, args: &Vec<String>) -> (r: Vec<String>)
    ensures
        strings_view(r@) == pipe_args(platform, shell@, strings_view(args@)),
{
    let n = args.len();
    let mut r: Vec<String> = Vec::new();
    let mut i: usize = 0;
    while i < n
        invariant
            n == args@.len(),
            i <= n,
            strings_view(r@) == strings_view(args@.subrange(0, i as int)),
        decreases n - i,
    {
        let ghost before = r@;
        let a = args[i].clone();
        r.push(a);
        proof {
            assert(a@ == args@[i as int]@);
            assert(strings_view(r@) =~= strings_view(before).push(a@));
            assert(strings_view(args@.subrange(0, i + 1)) =~= strings_view(
                args@.subrange(0, i as int),
            ).push(a@));
        }
        i = i + 1;
    }
    proof {
        assert(args@.subrange(0, n as int) =~= args@);
    }
    let is_windows = match platform {
        Platform::Windows => true,
        _ => false,
    };
    if is_windows && contains_run(&to_chars(shell), &to_chars("powershell")) {
        let ghost before = r@;
        r.push("-NoExit".to_string());
        r.push("-Command".to_string());
        r.push(
            "[Console]::OutputEncoding = [System.Text.Encoding]::UTF8; [Console]::InputEncoding = [System.Text.Encoding]::UTF8; $OutputEncoding = [System.Text.Encoding]::UTF8".to_string(),
        );
        proof {
            assert(strings_view(r@) =~= strings_view(before) + seq![
                "-NoExit"@,
                "-Command"@,
                utf8_console_script(),
            ]);
        }
    }
    r
}

} // verus!
