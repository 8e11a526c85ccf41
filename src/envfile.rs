//! Parsers for `.env` files and for the `export KEY=value` subset of
//! `.envrc` files, and the result record handed to the host.

use std::collections::HashMap;
use vstd::prelude::*;
use crate::text::{
    entries_map, pairs_view, strings_view, Entry,
    first_from, from_chars, has_prefix, occurs_in, slice, starts_with, to_chars, trim, trim_chars,
    contains_run, find_char,
};

verus! {

/// What reading one environment file gave.
pub struct EnvParseResult {
    pub env_vars: HashMap<String, String>,
    /// The file name, `.env` or `.envrc`.
    pub source: String,
    /// Non-fatal problems met on the way.
    pub errors: Vec<String>,
}

/// The lines of `s`, split at each `'\n'`, each handed to `f`, the results
/// joined; the scan has begun a line at `line_start` and reached `i`.
pub open spec fn scan_lines<X>(
    s: Seq<char>,
    line_start: int,
    i: int,
    f: spec_fn(Seq<char>) -> Seq<X>,
) -> Seq<X>
    decreases s.len() - i,
{
    if i >= s.len() {
        f(s.subrange(line_start, s.len() as int))
    } else if s[i] == '\n' {
        f(s.subrange(line_start, i)) + scan_lines(s, i + 1, i + 1, f)
    } else {
        scan_lines(s, line_start, i + 1, f)
    }
}

/// `v` without one pair of matching surrounding quotes, single or double.
pub open spec fn unquote(v: Seq<char>) -> Seq<char> {
    if v.len() >= 2 && ((v[0] == '"' && v.last() == '"') || (v[0] == '\'' && v.last() == '\'')) {
        v.subrange(1, v.len() - 1)
    } else {
        v
    }
}

/// `s` with each backslash followed by `x` replaced by `rep`, scanning
/// from the left.
pub open spec fn replace_escape(s: Seq<char>, x: char, rep: char) -> Seq<char>
    decreases s.len(),
{
    if s.len() == 0 {
        s
    } else if s.len() >= 2 && s[0] == '\\' && s[1] == x {
        seq![rep] + replace_escape(s.subrange(2, s.len() as int), x, rep)
    } else {
        seq![s[0]] + replace_escape(s.drop_first(), x, rep)
    }
}

/// The `\n` and `\t` escapes of a `.env` value, turned into the
/// characters they name.
pub open spec fn unescape(v: Seq<char>) -> Seq<char> {
    replace_escape(replace_escape(v, 'n', '\n'), 't', '\t')
}

/// `KEY=value` split at the first `=`: the trimmed key and the trimmed,
/// unquoted value; nothing without an `=` or with an empty key.
pub open spec fn assignment(t: Seq<char>) -> Option<Entry> {
    let p = first_from(t, 0, '=');
    if p >= t.len() {
        None
    } else {
        let key = trim(t.subrange(0, p));
        if key.len() == 0 {
            None
        } else {
            Some((key, unquote(trim(t.subrange(p + 1, t.len() as int)))))
        }
    }
}

/// Whether a trimmed line says nothing: empty or a comment.
pub open spec fn is_blank_or_comment(t: Seq<char>) -> bool {
    t.len() == 0 || t[0] == '#'
}

/// What one line of a `.env` file contributes.
pub open spec fn dotenv_line(line: Seq<char>) -> Seq<Entry> {
    let t = trim(line);
    if is_blank_or_comment(t) {
        seq![]
    } else {
        match assignment(t) {
            Some(e) => seq![(e.0, unescape(e.1))],
            None => seq![],
        }
    }
}

pub open spec fn dotenv_rule() -> spec_fn(Seq<char>) -> Seq<Entry> {
    |line: Seq<char>| dotenv_line(line)
}

/// The assignments of a `.env` file, in order.
pub open spec fn dotenv_entries(s: Seq<char>) -> Seq<Entry> {
    scan_lines(s, 0, 0, dotenv_rule())
}

/// Relies on `HashMap::new` and `HashMap::extend`, which inserts the pairs
/// in order, a later pair replacing the value of an earlier one with the
/// same key.
#[verifier::external_body]
fn into_map(pairs: Vec<(String, String)>) -> (r: HashMap<String, String>)
    ensures
        forall|k: String| #[trigger]
            r@.contains_key(k) <==> entries_map(pairs_view(pairs@)).contains_key(k@),
        forall|k: String| #[trigger]
            r@.contains_key(k) ==> r@[k]@ == entries_map(pairs_view(pairs@))[k@],
{
    let mut m = HashMap::new();
    m.extend(pairs);
    m
}

/// `v` without one pair of matching surrounding quotes.
fn unquote_chars(v: &Vec<char>) -> (r: Vec<char>)
    ensures
        r@ == unquote(v@),
{
    let n = v.len();
    if n >= 2 && ((v[0] == '"' && v[n - 1] == '"') || (v[0] == '\'' && v[n - 1] == '\'')) {
        slice(v, 1, n - 1)
    } else {
        slice(v, 0, n)
    }
}

/// `v` with each backslash followed by `x` replaced by `rep`.
fn replace_escape_chars(v: &Vec<char>, x: char, rep: char) -> (r: Vec<char>)
    ensures
        r@ == replace_escape(v@, x, rep),
{
    let n = v.len();
    let mut r: Vec<char> = Vec::new();
    let mut i: usize = 0;
    proof {
        assert(v@.subrange(0, n as int) =~= v@);
    }
    while i < n
        invariant
            n == v@.len(),
            i <= n,
            replace_escape(v@, x, rep) == r@ + replace_escape(v@.subrange(i as int, n as int), x, rep),
        decreases n - i,
    {
        let ghost rest = v@.subrange(i as int, n as int);
        let ghost before = r@;
        if i + 1 < n && v[i] == '\\' && v[i + 1] == x {
            r.push(rep);
            proof {
                assert(rest.subrange(2, rest.len() as int) =~= v@.subrange(i + 2, n as int));
                assert(r@ =~= before + seq![rep]);
            }
            i = i + 2;
        } else {
            r.push(v[i]);
            proof {
                assert(rest.drop_first() =~= v@.subrange(i + 1, n as int));
                assert(rest[0] == v@[i as int]);
                assert(r@ =~= before + seq![v@[i as int]]);
            }
            i = i + 1;
        }
        proof {
            assert(replace_escape(v@, x, rep) =~= r@ + replace_escape(v@.subrange(i as int, n as int), x, rep));
        }
    }
    proof {
        assert(replace_escape(v@.subrange(i as int, n as int), x, rep) =~= Seq::<char>::empty());
        assert(r@ + Seq::<char>::empty() =~= r@);
    }
    r
}

/// Splits a trimmed line at its first `=`.
fn split_assignment(t: &Vec<char>) -> (r: Option<(Vec<char>, Vec<char>)>)
    ensures
        match r {
            Some(kv) => assignment(t@) == Some((kv.0@, kv.1@)),
            None => assignment(t@) is None,
        },
{
    let n = t.len();
    let p = find_char(t, '=');
    if p >= n {
        return None;
    }
    let key = trim_chars(&slice(t, 0, p));
    if key.len() == 0 {
        return None;
    }
    let value = unquote_chars(&trim_chars(&slice(t, p + 1, n)));
    Some((key, value))
}

/// Adds what one `.env` line contributes.
fn push_dotenv_line(line: &Vec<char>, out: &mut Vec<(String, String)>)
    ensures
        pairs_view(final(out)@) == pairs_view(old(out)@) + dotenv_line(line@),
{
    let ghost before = out@;
    let t = trim_chars(line);
    if t.len() == 0 || t[0] == '#' {
        proof {
            assert(pairs_view(out@) + dotenv_line(line@) =~= pairs_view(out@));
        }
        return;
    }
    match split_assignment(&t) {
        Some(kv) => {
            let v1 = replace_escape_chars(&kv.1, 'n', '\n');
            let v2 = replace_escape_chars(&v1, 't', '\t');
            let k = from_chars(&kv.0);
            let v = from_chars(&v2);
            out.push((k, v));
            proof {
                assert(pairs_view(out@) =~= pairs_view(before) + dotenv_line(line@));
            }
        },
        None => {
            proof {
                assert(pairs_view(out@) + dotenv_line(line@) =~= pairs_view(out@));
            }
        },
    }
}

/// The assignments of a `.env` file, in the order they appear.
pub fn parse_env_pairs(content: &str) -> (r: Vec<(String, String)>)
    ensures
        pairs_view(r@) == dotenv_entries(content@),
{
    let cs = to_chars(content);
    let n = cs.len();
    let mut out: Vec<(String, String)> = Vec::new();
    let mut ls: usize = 0;
    let mut i: usize = 0;
    proof {
        assert(pairs_view(out@) =~= Seq::<Entry>::empty());
        assert(dotenv_entries(cs@) =~= pairs_view(out@) + scan_lines(cs@, 0, 0, dotenv_rule()));
    }
    while i < n
        invariant
            n == cs@.len(),
            ls <= i <= n,
            dotenv_entries(cs@) == pairs_view(out@) + scan_lines(cs@, ls as int, i as int, dotenv_rule()),
        decreases n - i,
    {
        if cs[i] == '\n' {
            let ghost before = pairs_view(out@);
            let line = slice(&cs, ls, i);
            push_dotenv_line(&line, &mut out);
            proof {
                let f = dotenv_rule();
                assert(scan_lines(cs@, ls as int, i as int, f) == f(line@) + scan_lines(
                    cs@,
                    i + 1,
                    i + 1,
                    f,
                ));
                assert(before + (f(line@) + scan_lines(cs@, i + 1, i + 1, f)) =~= (before + f(
                    line@,
                )) + scan_lines(cs@, i + 1, i + 1, f));
            }
            ls = i + 1;
        }
        i = i + 1;
    }
    let line = slice(&cs, ls, n);
    push_dotenv_line(&line, &mut out);
    out
}

/// Parses the text of a `.env` file: `KEY=value` lines, optionally quoted
/// with `"` or `'`, with `\n` and `\t` escapes; blank lines, comments and
/// lines without `=` or without a key are skipped; a later key wins.
pub fn parse_env_file(content: &str) -> (r: HashMap<String, String>)
    ensures
        forall|k: String| #[trigger]
            r@.contains_key(k) <==> entries_map(dotenv_entries(content@)).contains_key(k@),
        forall|k: String| #[trigger]
            r@.contains_key(k) ==> r@[k]@ == entries_map(dotenv_entries(content@))[k@],
{
    into_map(parse_env_pairs(content))
}

/// What one line of an `.envrc` file contributes as an assignment: only
/// `export KEY=value` lines count.
pub open spec fn envrc_line_entries(line: Seq<char>) -> Seq<Entry> {
    let t = trim(line);
    if is_blank_or_comment(t) || !has_prefix(t, "export "@) {
        seq![]
    } else {
        match assignment(t.subrange("export "@.len() as int, t.len() as int)) {
            Some(e) => seq![e],
            None => seq![],
        }
    }
}

/// What one line of an `.envrc` file contributes as a warning: a line
/// that uses a direnv directive this parser does not support.
pub open spec fn envrc_line_errors(line: Seq<char>) -> Seq<Seq<char>> {
    let t = trim(line);
    if is_blank_or_comment(t) || has_prefix(t, "export "@) {
        seq![]
    } else if occurs_in("source_env"@, t) || occurs_in("use "@, t) {
        seq!["Unsupported direnv directive: "@ + t]
    } else {
        seq![]
    }
}

pub open spec fn envrc_entry_rule() -> spec_fn(Seq<char>) -> Seq<Entry> {
    |line: Seq<char>| envrc_line_entries(line)
}

pub open spec fn envrc_error_rule() -> spec_fn(Seq<char>) -> Seq<Seq<char>> {
    |line: Seq<char>| envrc_line_errors(line)
}

/// The assignments of an `.envrc` file, in order.
pub open spec fn envrc_entries(s: Seq<char>) -> Seq<Entry> {
    scan_lines(s, 0, 0, envrc_entry_rule())
}

/// The warnings of an `.envrc` file, in order.
pub open spec fn envrc_errors(s: Seq<char>) -> Seq<Seq<char>> {
    scan_lines(s, 0, 0, envrc_error_rule())
}

/// Adds what one `.envrc` line contributes.
fn push_envrc_line(line: &Vec<char>, out: &mut Vec<(String, String)>, errs: &mut Vec<String>)
    ensures
        pairs_view(final(out)@) == pairs_view(old(out)@) + envrc_line_entries(line@),
        strings_view(final(errs)@) == strings_view(old(errs)@) + envrc_line_errors(line@),
{
    let ghost out0 = out@;
    let ghost errs0 = errs@;
    let t = trim_chars(line);
    let export = to_chars("export ");
    if t.len() == 0 || t[0] == '#' {
        proof {
            assert(pairs_view(out@) + envrc_line_entries(line@) =~= pairs_view(out@));
            assert(strings_view(errs@) + envrc_line_errors(line@) =~= strings_view(errs@));
        }
        return;
    }
    if starts_with(&t, &export) {
        let rest = slice(&t, export.len(), t.len());
        match split_assignment(&rest) {
            Some(kv) => {
                let k = from_chars(&kv.0);
                let v = from_chars(&kv.1);
                out.push((k, v));
                proof {
                    assert(pairs_view(out@) =~= pairs_view(out0) + envrc_line_entries(line@));
                }
            },
            None => {
                proof {
                    assert(pairs_view(out@) + envrc_line_entries(line@) =~= pairs_view(out@));
                }
            },
        }
        proof {
            assert(strings_view(errs@) + envrc_line_errors(line@) =~= strings_view(errs@));
        }
        return;
    }
    proof {
        assert(pairs_view(out@) + envrc_line_entries(line@) =~= pairs_view(out@));
    }
    let source_env = to_chars("source_env");
    let use_word = to_chars("use ");
    if contains_run(&t, &source_env) || contains_run(&t, &use_word) {
        let directive = from_chars(&t);
        let message = "Unsupported direnv directive: ".to_string().concat(directive.as_str());
        errs.push(message);
        proof {
            assert(strings_view(errs@) =~= strings_view(errs0) + envrc_line_errors(line@));
        }
    } else {
        proof {
            assert(strings_view(errs@) + envrc_line_errors(line@) =~= strings_view(errs@));
        }
    }
}

/// Parses the text of an `.envrc` file: only `export KEY=value` lines are
/// read (values optionally quoted); lines using `source_env` or `use ` are
/// reported as unsupported; everything else is skipped.
pub fn parse_envrc_content(content: &str) -> (r: (Vec<(String, String)>, Vec<String>))
    ensures
        pairs_view(r.0@) == envrc_entries(content@),
        strings_view(r.1@) == envrc_errors(content@),
{
    let cs = to_chars(content);
    let n = cs.len();
    let mut out: Vec<(String, String)> = Vec::new();
    let mut errs: Vec<String> = Vec::new();
    let mut ls: usize = 0;
    let mut i: usize = 0;
    proof {
        assert(pairs_view(out@) =~= Seq::<Entry>::empty());
        assert(strings_view(errs@) =~= Seq::<Seq<char>>::empty());
        assert(envrc_entries(cs@) =~= pairs_view(out@) + scan_lines(cs@, 0, 0, envrc_entry_rule()));
        assert(envrc_errors(cs@) =~= strings_view(errs@) + scan_lines(cs@, 0, 0, envrc_error_rule()));
    }
    while i < n
        invariant
            n == cs@.len(),
            ls <= i <= n,
            envrc_entries(cs@) == pairs_view(out@) + scan_lines(cs@, ls as int, i as int, envrc_entry_rule()),
            envrc_errors(cs@) == strings_view(errs@) + scan_lines(cs@, ls as int, i as int, envrc_error_rule()),
        decreases n - i,
    {
        if cs[i] == '\n' {
            let ghost before = pairs_view(out@);
            let ghost before_errs = strings_view(errs@);
            let line = slice(&cs, ls, i);
            push_envrc_line(&line, &mut out, &mut errs);
            proof {
                let f = envrc_entry_rule();
                let g = envrc_error_rule();
                assert(scan_lines(cs@, ls as int, i as int, f) == f(line@) + scan_lines(
                    cs@,
                    i + 1,
                    i + 1,
                    f,
                ));
                assert(scan_lines(cs@, ls as int, i as int, g) == g(line@) + scan_lines(
                    cs@,
                    i + 1,
                    i + 1,
                    g,
                ));
                assert(before + (f(line@) + scan_lines(cs@, i + 1, i + 1, f)) =~= (before + f(
                    line@,
                )) + scan_lines(cs@, i + 1, i + 1, f));
                assert(before_errs + (g(line@) + scan_lines(cs@, i + 1, i + 1, g)) =~= (
                before_errs + g(line@)) + scan_lines(cs@, i + 1, i + 1, g));
            }
            ls = i + 1;
        }
        i = i + 1;
    }
    let line = slice(&cs, ls, n);
    push_envrc_line(&line, &mut out, &mut errs);
    (out, errs)
}

/// Which of the two environment files is meant.
#[derive(Clone, Copy, Debug, PartialEq, Eq, Structural)]
pub enum EnvFileKind {
    /// `.env`: plain `KEY=value` lines.
    Dotenv,
    /// `.envrc`: direnv's format, of which `export KEY=value` is read.
    Envrc,
}

/// The file name of each kind.
pub open spec fn file_name(kind: EnvFileKind) -> Seq<char> {
    match kind {
        EnvFileKind::Dotenv => ".env"@,
        EnvFileKind::Envrc => ".envrc"@,
    }
}

/// The assignments that a file of this kind with this text holds.
pub open spec fn kind_entries(kind: EnvFileKind, content: Seq<char>) -> Seq<Entry> {
    match kind {
        EnvFileKind::Dotenv => dotenv_entries(content),
        EnvFileKind::Envrc => envrc_entries(content),
    }
}

/// The warnings that a file of this kind with this text gives.
pub open spec fn kind_errors(kind: EnvFileKind, content: Seq<char>) -> Seq<Seq<char>> {
    match kind {
        EnvFileKind::Dotenv => seq![],
        EnvFileKind::Envrc => envrc_errors(content),
    }
}

/// The file name of `kind`.
pub fn env_file_name(kind: EnvFileKind) -> (r: &'static str)
    ensures
        r@ == file_name(kind),
{
    match kind {
        EnvFileKind::Dotenv => ".env",
        EnvFileKind::Envrc => ".envrc",
    }
}

/// The result of reading one environment file. `read` is what the read
/// gave: `None` when the file does not exist, else its text or the read
/// error's message. A missing file gives an empty result; a failed read
/// gives an empty table and one warning.
pub fn env_parse_result(kind: EnvFileKind, read: Option<Result<String, String>>) -> (r:
    EnvParseResult)
    ensures
        r.source@ == file_name(kind),
        match read {
            None => r.env_vars@ == Map::<String, String>::empty() && r.errors@.len() == 0,
            Some(Err(e)) => r.env_vars@ == Map::<String, String>::empty() && strings_view(r.errors@)
                == seq!["Failed to read "@ + file_name(kind) + ": "@ + e@],
            Some(Ok(c)) => {
                &&& forall|k: String| #[trigger]
                    r.env_vars@.contains_key(k) <==> entries_map(kind_entries(kind, c@)).contains_key(k@)
                &&& forall|k: String| #[trigger]
                    r.env_vars@.contains_key(k) ==> r.env_vars@[k]@ == entries_map(
                        kind_entries(kind, c@),
                    )[k@]
                &&& strings_view(r.errors@) == kind_errors(kind, c@)
            },
        },
{
    let name = env_file_name(kind);
    let source = name.to_string();
    match read {
        None => EnvParseResult { env_vars: HashMap::new(), source, errors: Vec::new() },
        Some(Err(e)) => {
            let message = "Failed to read ".to_string().concat(name).concat(": ").concat(
                e.as_str(),
            );
            let mut errors: Vec<String> = Vec::new();
            errors.push(message);
            proof {
                assert(strings_view(errors@) =~= seq![
                    "Failed to read "@ + file_name(kind) + ": "@ + e@
                ]);
            }
            EnvParseResult { env_vars: HashMap::new(), source, errors }
        },
        Some(Ok(c)) => match kind {
            EnvFileKind::Dotenv => {
                let errors: Vec<String> = Vec::new();
                proof {
                    assert(strings_view(errors@) =~= Seq::<Seq<char>>::empty());
                }
                EnvParseResult { env_vars: into_map(parse_env_pairs(c.as_str())), source, errors }
            },
            EnvFileKind::Envrc => {
                let (pairs, errors) = parse_envrc_content(c.as_str());
                EnvParseResult { env_vars: into_map(pairs), source, errors }
            },
        },
    }
}

/// A name for what `Path::join` gives for a directory and a file name.
pub uninterp spec fn joined_path(dir: Seq<char>, name: Seq<char>) -> Seq<char>;

/// Relies on `Path::join`: the path of `name` inside `dir`.
#[verifier::external_body]
fn join_path(dir: &str, name: &str) -> (r: String)
    ensures
        r@ == joined_path(dir@, name@),
{
    std::path::Path::new(dir).join(name).to_string_lossy().into_owned()
}

/// Relies on `Path::exists`: whether something is at `path` now. What is
/// on disk is not known here, so nothing is stated of the answer.
#[verifier::external_body]
fn path_exists(path: &str) -> bool {
    std::path::Path::new(path).exists()
}

/// The path of the environment file of `kind` inside `dir_path`.
pub fn env_file_path(dir_path: &str, kind: EnvFileKind) -> (r: String)
    ensures
        r@ == joined_path(dir_path@, file_name(kind)),
{
    join_path(dir_path, env_file_name(kind))
}

/// Whether `dir_path` holds a `.env` file.
pub fn has_env_file(dir_path: &str) -> bool {
    path_exists(env_file_path(dir_path, EnvFileKind::Dotenv).as_str())
}

/// Whether `dir_path` holds an `.envrc` file.
pub fn has_envrc_file(dir_path: &str) -> bool {
    path_exists(env_file_path(dir_path, EnvFileKind::Envrc).as_str())
}

} // verus!
