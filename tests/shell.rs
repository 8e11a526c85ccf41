use std::collections::HashMap;
use termhub::shell::{child_environment, default_shell, fallback_args, Platform, DEFAULT_COLS, DEFAULT_ROWS};

fn strings(v: &[&str]) -> Vec<String> {
    v.iter().map(|s| s.to_string()).collect()
}

#[test]
fn windows_uses_powershell() {
    let (shell, args) = default_shell(Platform::Windows, Some("/bin/fish".to_string()), true);
    assert_eq!(shell, "powershell.exe");
    assert_eq!(args, strings(&["-ExecutionPolicy", "Bypass", "-NoLogo"]));
}

#[test]
fn macos_uses_login_shell() {
    assert_eq!(default_shell(Platform::MacOs, None, true), ("/bin/zsh".to_string(), strings(&["-l"])));
    assert_eq!(
        default_shell(Platform::MacOs, Some("/bin/fish".to_string()), false),
        ("/bin/fish".to_string(), strings(&["-l"]))
    );
}

#[test]
fn linux_falls_back_to_bash_then_sh() {
    assert_eq!(default_shell(Platform::Linux, Some("/usr/bin/zsh".to_string()), true).0, "/usr/bin/zsh");
    assert_eq!(default_shell(Platform::Linux, None, true), ("/bin/bash".to_string(), vec![]));
    assert_eq!(default_shell(Platform::Linux, None, false), ("/bin/sh".to_string(), vec![]));
}

fn as_map(v: Vec<(String, String)>) -> HashMap<String, String> {
    v.into_iter().collect()
}

#[test]
fn environment_overrides_terminal_and_locale() {
    let host = vec![
        ("HOME".to_string(), "/home/u".to_string()),
        ("TERM".to_string(), "dumb".to_string()),
        ("PATH".to_string(), "/usr/bin".to_string()),
    ];
    let env = as_map(child_environment(Platform::Linux, host));
    assert_eq!(env["HOME"], "/home/u");
    assert_eq!(env["TERM"], "xterm-256color");
    assert_eq!(env["COLORTERM"], "truecolor");
    assert_eq!(env["LANG"], "en_US.UTF-8");
    assert_eq!(env["LC_ALL"], "en_US.UTF-8");
    assert_eq!(env["PYTHONIOENCODING"], "utf-8");
    assert_eq!(env["PYTHONUTF8"], "1");
    assert_eq!(env["PATH"], "/usr/bin");
    assert_eq!(env.len(), 8);
}

#[test]
fn environment_keeps_one_entry_per_name() {
    let host = vec![("TERM".to_string(), "dumb".to_string()), ("TERM".to_string(), "vt100".to_string())];
    let env = child_environment(Platform::Windows, host);
    assert_eq!(env.iter().filter(|p| p.0 == "TERM").count(), 1);
}

#[test]
fn macos_path_gets_package_manager_dirs() {
    let host = vec![("PATH".to_string(), "/usr/bin:/bin".to_string())];
    let env = as_map(child_environment(Platform::MacOs, host));
    assert_eq!(
        env["PATH"],
        "/opt/homebrew/bin:/opt/homebrew/sbin:/usr/local/bin:/usr/local/sbin:/usr/bin:/bin"
    );
    let env = as_map(child_environment(Platform::MacOs, vec![]));
    assert_eq!(env["PATH"], "/opt/homebrew/bin:/opt/homebrew/sbin:/usr/local/bin:/usr/local/sbin");
}

#[test]
fn fallback_args_for_powershell_on_windows() {
    let base = strings(&["-NoLogo"]);
    let r = fallback_args(Platform::Windows, "C:\\powershell.exe", &base);
    assert_eq!(r.len(), 4);
    assert_eq!(r[1], "-NoExit");
    assert_eq!(r[2], "-Command");
    assert_eq!(
        r[3],
        "[Console]::OutputEncoding = [System.Text.Encoding]::UTF8; [Console]::InputEncoding = [System.Text.Encoding]::UTF8; $OutputEncoding = [System.Text.Encoding]::UTF8"
    );
    assert_eq!(fallback_args(Platform::Windows, "cmd.exe", &base), base);
    assert_eq!(fallback_args(Platform::Linux, "powershell", &base), base);
}

#[test]
fn default_geometry() {
    assert_eq!((DEFAULT_ROWS, DEFAULT_COLS), (30, 120));
}
