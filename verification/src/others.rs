//! Heuristics over pane state for the "Others" dimension: what a pane's
//! foreground command is (shell, editor, ssh session), whether its title
//! looks like a shell prompt, and excerpts of its terminal buffer.

use vstd::prelude::*;
use crate::text::{
    after_last, after_last_char, chars_of, eq_str, find, find_chars, find_from, has_whitespace, has_ws,
    matches_at, split_words, sub_chars, trim, trim_chars, trim_start, trim_start_chars, views, words,
    byte_len, char_at_byte, char_index_at_byte, digits_value, is_ctrl, is_control, is_digit, lowercase_str,
    parse_u32, prefix_bytes, string_of, to_lowercase_str,
};

verus! {

// ── Command-line words ──

/// The first word of a command line, or the empty sequence.
pub open spec fn first_word(cmd: Seq<char>) -> Seq<char> {
    if words(cmd).len() > 0 {
        words(cmd)[0]
    } else {
        seq![]
    }
}

/// `s` without one leading `-` (`str::strip_prefix('-')`, or `s` itself).
pub open spec fn strip_dash(s: Seq<char>) -> Seq<char> {
    if s.len() > 0 && s[0] == '-' {
        s.drop_first()
    } else {
        s
    }
}

/// The program name a command line starts with: its first word, without a
/// login-shell `-` prefix, without leading directories.
pub open spec fn program_name(cmd: Seq<char>) -> Seq<char> {
    after_last(strip_dash(first_word(cmd)), '/')
}

/// The first word of `cmd`, or an empty vector.
fn first_word_of(cmd: &[char]) -> (res: Vec<char>)
    ensures
        res@ == first_word(cmd@),
{
    let mut ws = split_words(cmd);
    proof {
        assert(views(ws@).len() == ws@.len());
    }
    if ws.len() > 0 {
        let ghost before = ws@;
        let w = ws.swap_remove(0);
        proof {
            assert(words(cmd@)[0] == views(before)[0]);
        }
        w
    } else {
        Vec::new()
    }
}

/// Login shells by program name.
pub open spec fn is_shell_name(b: Seq<char>) -> bool {
    ||| b == "zsh"@
    ||| b == "bash"@
    ||| b == "sh"@
    ||| b == "dash"@
    ||| b == "ksh"@
    ||| b == "tcsh"@
    ||| b == "fish"@
    ||| b == "csh"@
    ||| b == "ash"@
    ||| b == "nu"@
    ||| b == "elvish"@
    ||| b == "xonsh"@
    ||| b == "pwsh"@
    ||| b == "powershell"@
}

/// File editors by program name.
pub open spec fn is_editor_name(b: Seq<char>) -> bool {
    ||| b == "nvim"@
    ||| b == "vim"@
    ||| b == "vi"@
    ||| b == "code"@
    ||| b == "cursor"@
    ||| b == "neovim"@
    ||| b == "emacs"@
    ||| b == "helix"@
    ||| b == "hx"@
    ||| b == "nano"@
    ||| b == "micro"@
    ||| b == "sublime"@
    ||| b == "kak"@
    ||| b == "lvim"@
    ||| b == "zed"@
}

/// SSH-family binaries whose first positional argument is a login target.
pub open spec fn is_ssh_bin(b: Seq<char>) -> bool {
    ||| b == "ssh"@
    ||| b == "mosh"@
    ||| b == "rsh"@
    ||| b == "rlogin"@
    ||| b == "tssh"@
}

fn shell_name(b: &[char]) -> (res: bool)
    ensures
        res == is_shell_name(b@),
{
    eq_str(b, "zsh") || eq_str(b, "bash") || eq_str(b, "sh") || eq_str(b, "dash") || eq_str(b, "ksh")
        || eq_str(b, "tcsh") || eq_str(b, "fish") || eq_str(b, "csh") || eq_str(b, "ash") || eq_str(
        b,
        "nu",
    ) || eq_str(b, "elvish") || eq_str(b, "xonsh") || eq_str(b, "pwsh") || eq_str(b, "powershell")
}

fn editor_name(b: &[char]) -> (res: bool)
    ensures
        res == is_editor_name(b@),
{
    eq_str(b, "nvim") || eq_str(b, "vim") || eq_str(b, "vi") || eq_str(b, "code") || eq_str(
        b,
        "cursor",
    ) || eq_str(b, "neovim") || eq_str(b, "emacs") || eq_str(b, "helix") || eq_str(b, "hx")
        || eq_str(b, "nano") || eq_str(b, "micro") || eq_str(b, "sublime") || eq_str(b, "kak")
        || eq_str(b, "lvim") || eq_str(b, "zed")
}

fn bin_is_ssh(b: &[char]) -> (res: bool)
    ensures
        res == is_ssh_bin(b@),
{
    eq_str(b, "ssh") || eq_str(b, "mosh") || eq_str(b, "rsh") || eq_str(b, "rlogin") || eq_str(
        b,
        "tssh",
    )
}

/// The program name of a command line (see [`program_name`]).
fn program_name_of(cmd: &[char]) -> (res: Vec<char>)
    ensures
        res@ == program_name(cmd@),
{
    let first = first_word_of(cmd);
    let stripped = if first.len() > 0 && first[0] == '-' {
        sub_chars(first.as_slice(), 1, first.len())
    } else {
        first
    };
    proof {
        if first_word(cmd@).len() > 0 && first_word(cmd@)[0] == '-' {
            assert(stripped@ =~= first_word(cmd@).drop_first());
        }
    }
    after_last_char(stripped.as_slice(), '/')
}

/// Whether the foreground command is (just) a login shell. Foreground
/// commands like `-zsh` / `-bash` carry a leading dash.
pub fn command_is_shell(cmd: &str) -> (res: bool)
    ensures
        res == is_shell_name(program_name(cmd@)),
{
    let c = chars_of(cmd);
    let name = program_name_of(c.as_slice());
    shell_name(name.as_slice())
}

/// Whether the foreground command is a file editor. Used to split
/// content-search rows into `file` (the excerpt is the edited file's
/// content) and `term` (plain terminal or command output).
pub fn command_is_editor(cmd: &str) -> (res: bool)
    ensures
        res == is_editor_name(program_name(cmd@)),
{
    let c = chars_of(cmd);
    let name = program_name_of(c.as_slice());
    editor_name(name.as_slice())
}


// ── ssh targets ──

/// Letters of the short ssh options that take a value (`-p`, `-l`, `-o`, ...).
pub open spec fn ssh_value_letter(c: char) -> bool {
    ||| c == 'p' || c == 'l' || c == 'b' || c == 'E' || c == 'e' || c == 'F' || c == 'G'
    ||| c == 'J' || c == 'W' || c == 'Q' || c == 'S' || c == 'D' || c == 'L' || c == 'R'
    ||| c == 'O' || c == 'o' || c == 'c' || c == 'i' || c == 'I' || c == 'w' || c == 'B'
    ||| c == 'K' || c == 'M' || c == 'P' || c == 'U'
}

fn ssh_value_letter_exec(c: char) -> (res: bool)
    ensures
        res == ssh_value_letter(c),
{
    c == 'p' || c == 'l' || c == 'b' || c == 'E' || c == 'e' || c == 'F' || c == 'G' || c == 'J'
        || c == 'W' || c == 'Q' || c == 'S' || c == 'D' || c == 'L' || c == 'R' || c == 'O' || c
        == 'o' || c == 'c' || c == 'i' || c == 'I' || c == 'w' || c == 'B' || c == 'K' || c == 'M'
        || c == 'P' || c == 'U'
}

/// The login user and port after applying option `-<letter> <val>`.
pub open spec fn apply_ssh_opt(
    letter: char,
    val: Seq<char>,
    user: Option<Seq<char>>,
    port: Option<Seq<char>>,
) -> (Option<Seq<char>>, Option<Seq<char>>) {
    if letter == 'p' {
        (user, Some(val))
    } else if letter == 'l' {
        (Some(val), port)
    } else {
        (user, port)
    }
}

/// Scans ssh arguments from word `i` on, with the login user and port seen
/// so far: the destination (the first positional argument, or the word
/// after `--`) with the final user and port, or `None` when there is none.
pub open spec fn ssh_scan(
    t: Seq<Seq<char>>,
    i: int,
    user: Option<Seq<char>>,
    port: Option<Seq<char>>,
) -> Option<(Seq<char>, Option<Seq<char>>, Option<Seq<char>>)>
    decreases t.len() - i,
{
    if i < 0 || i >= t.len() {
        None
    } else {
        let tok = t[i];
        if tok == "--"@ {
            if i + 1 < t.len() {
                Some((t[i + 1], user, port))
            } else {
                None
            }
        } else if tok.len() > 1 && tok[0] == '-' {
            if tok.len() > 2 && ssh_value_letter(tok[1]) {
                let up = apply_ssh_opt(tok[1], tok.skip(2), user, port);
                ssh_scan(t, i + 1, up.0, up.1)
            } else if tok.len() == 2 && ssh_value_letter(tok[1]) {
                if i + 1 < t.len() {
                    let up = apply_ssh_opt(tok[1], t[i + 1], user, port);
                    ssh_scan(t, i + 2, up.0, up.1)
                } else {
                    None
                }
            } else {
                ssh_scan(t, i + 1, user, port)
            }
        } else {
            Some((tok, user, port))
        }
    }
}

/// `user@dest:port`, leaving out the user when `dest` already names one and
/// the port when the host already carries a `:` (e.g. IPv6 `[::1]`).
pub open spec fn ssh_join(dest: Seq<char>, user: Option<Seq<char>>, port: Option<Seq<char>>) -> Seq<
    char,
> {
    let target = match user {
        Some(u) => if dest.contains('@') {
            dest
        } else {
            u + seq!['@'] + dest
        },
        None => dest,
    };
    match port {
        Some(p) => if target.contains(':') {
            target
        } else {
            target + seq![':'] + p
        },
        None => target,
    }
}

/// The ssh/mosh login target of a foreground command line.
pub open spec fn ssh_target(cmd: Seq<char>) -> Option<Seq<char>> {
    let t = words(cmd);
    if !is_ssh_bin(after_last(first_word(cmd), '/')) || t.len() < 2 {
        None
    } else {
        match ssh_scan(t, 1, None, None) {
            Some(r) => Some(ssh_join(r.0, r.1, r.2)),
            None => None,
        }
    }
}

/// The view of an optional character vector.
pub open spec fn opt_chars(o: Option<Vec<char>>) -> Option<Seq<char>> {
    match o {
        Some(v) => Some(v@),
        None => None,
    }
}

/// Whether `c` occurs in `v`.
pub fn contains_char(v: &[char], c: char) -> (res: bool)
    ensures
        res == v@.contains(c),
{
    let mut i: usize = 0;
    while i < v.len()
        invariant
            i <= v.len(),
            forall|k: int| 0 <= k < i ==> v@[k] != c,
        decreases v.len() - i,
    {
        if v[i] == c {
            assert(v@[i as int] == c);
            return true;
        }
        i = i + 1;
    }
    false
}

fn ssh_join_exec(dest: Vec<char>, user: Option<Vec<char>>, port: Option<Vec<char>>) -> (res: Vec<
    char,
>)
    ensures
        res@ == ssh_join(dest@, opt_chars(user), opt_chars(port)),
{
    let target = match user {
        Some(u) => if contains_char(dest.as_slice(), '@') {
            dest
        } else {
            let mut t = u;
            let ghost u0 = t@;
            t.push('@');
            crate::text::extend_chars(&mut t, dest.as_slice());
            assert(t@ =~= u0 + seq!['@'] + dest@);
            t
        },
        None => dest,
    };
    match port {
        Some(p) => if contains_char(target.as_slice(), ':') {
            target
        } else {
            let mut t = target;
            let ghost t0 = t@;
            t.push(':');
            crate::text::extend_chars(&mut t, p.as_slice());
            assert(t@ =~= t0 + seq![':'] + p@);
            t
        },
        None => target,
    }
}

/// Extracts the ssh/mosh login target from a foreground command line.
///
/// Handles separate `-p PORT` / `-o VALUE` / `-l USER` forms, combined short
/// forms (`-p2200`, `-oOption=Value`), the `--` terminator, and jump hosts
/// (`-J`), which are not the destination. The first non-option argument is
/// the destination; what follows it is the remote command and is ignored.
///
/// Returns something like `lex@192.168.1.50`, `host`, or `host:2200`.
pub fn parse_ssh_target(cmd: &str) -> (res: Option<String>)
    ensures
        match res {
            Some(s) => ssh_target(cmd@) == Some(s@),
            None => ssh_target(cmd@) is None,
        },
{
    let c = chars_of(cmd);
    let first = first_word_of(c.as_slice());
    let base = after_last_char(first.as_slice(), '/');
    if !bin_is_ssh(base.as_slice()) {
        return None;
    }
    let tokens = split_words(c.as_slice());
    let ghost t = views(tokens@);
    assert(t.len() == tokens@.len());
    if tokens.len() < 2 {
        return None;
    }
    let mut user: Option<Vec<char>> = None;
    let mut port: Option<Vec<char>> = None;
    let mut i: usize = 1;
    while i < tokens.len()
        invariant
            t == views(tokens@),
            t.len() == tokens@.len(),
            t == words(cmd@),
            t.len() >= 2,
            is_ssh_bin(after_last(first_word(cmd@), '/')),
            1 <= i,
            ssh_scan(t, 1, None, None) == ssh_scan(t, i as int, opt_chars(user), opt_chars(port)),
        decreases tokens.len() - i,
    {
        let tok = &tokens[i];
        assert(tok@ == t[i as int]);
        if eq_str(tok.as_slice(), "--") {
            assert(t[i as int] == "--"@);
            assert(ssh_scan(t, i as int, opt_chars(user), opt_chars(port)) == if i + 1 < t.len() {
                Some((t[i + 1], opt_chars(user), opt_chars(port)))
            } else {
                None
            });
            if i + 1 < tokens.len() {
                let dest = sub_chars(tokens[i + 1].as_slice(), 0, tokens[i + 1].len());
                assert(dest@ =~= t[i + 1]);
                let r = ssh_join_exec(dest, user, port);
                return Some(string_of_vec(&r));
            } else {
                return None;
            }
        }
        if tok.len() > 1 && tok[0] == '-' {
            if tok.len() > 2 && ssh_value_letter_exec(tok[1]) {
                let val = sub_chars(tok.as_slice(), 2, tok.len());
                assert(val@ =~= tok@.skip(2));
                if tok[1] == 'p' {
                    port = Some(val);
                } else if tok[1] == 'l' {
                    user = Some(val);
                }
                i = i + 1;
                continue ;
            }
            if tok.len() == 2 && ssh_value_letter_exec(tok[1]) {
                if i + 1 < tokens.len() {
                    let val = sub_chars(tokens[i + 1].as_slice(), 0, tokens[i + 1].len());
                    assert(val@ =~= t[i + 1]);
                    if tok[1] == 'p' {
                        port = Some(val);
                    } else if tok[1] == 'l' {
                        user = Some(val);
                    }
                    i = i + 2;
                    continue ;
                } else {
                    return None;
                }
            }
            i = i + 1;
            continue ;
        }
        let dest = sub_chars(tok.as_slice(), 0, tok.len());
        assert(dest@ =~= tok@);
        let r = ssh_join_exec(dest, user, port);
        return Some(string_of_vec(&r));
    }
    None
}

fn string_of_vec(v: &Vec<char>) -> (res: String)
    ensures
        res@ == v@,
{
    crate::text::string_of(v.as_slice())
}


// ── Pane titles ──

/// A pane title shaped like a shell prompt: `user@host: cwd`, with no white
/// space in `user` or `host` and a cwd starting with `~`, `/` or `.`.
pub open spec fn is_prompt_title(title: Seq<char>) -> bool {
    let t = trim(title);
    match find(t, seq!['@']) {
        None => false,
        Some(at) => at > 0 && !has_ws(t.take(at)) && {
            let rest = t.skip(at + 1);
            match find(rest, seq![':']) {
                None => false,
                Some(colon) => colon > 0 && !has_ws(rest.take(colon)) && {
                    let after = trim_start(rest.skip(colon + 1));
                    after.len() > 0 && (after[0] == '~' || after[0] == '/' || after[0] == '.')
                },
            }
        },
    }
}

proof fn lemma_find_bounds(hay: Seq<char>, needle: Seq<char>, i: int)
    requires
        0 <= i,
    ensures
        find_from(hay, needle, i) matches Some(k) ==> i <= k && k + needle.len() <= hay.len()
            && matches_at(hay, needle, k),
    decreases hay.len() + 1 - i,
{
    if i + needle.len() <= hay.len() && !matches_at(hay, needle, i) {
        lemma_find_bounds(hay, needle, i + 1);
    }
}

/// True when a pane title looks like a shell prompt (`user@host: cwd`),
/// the title shells set by default (e.g. `you@work-host: ~/repo`,
/// `deploy@10.0.0.5:/opt/app`). Such a title is a strong sign the pane is a
/// shell, so content matched in it is terminal output, never a file.
pub fn is_shell_prompt_title(title: &str) -> (res: bool)
    ensures
        res == is_prompt_title(title@),
{
    let raw = chars_of(title);
    let t = trim_chars(raw.as_slice());
    let at_needle = vec!['@'];
    assert(at_needle@ =~= seq!['@']);
    let at = match find_chars(t.as_slice(), at_needle.as_slice()) {
        None => return false,
        Some(a) => a,
    };
    proof {
        lemma_find_bounds(t@, seq!['@'], 0);
        assert(find(t@, seq!['@']) == find_from(t@, seq!['@'], 0));
        assert(at + 1 <= t@.len());
    }
    if at == 0 || has_whitespace(t.as_slice(), 0, at) {
        assert(t@.subrange(0, at as int) =~= t@.take(at as int));
        return false;
    }
    assert(t@.subrange(0, at as int) =~= t@.take(at as int));
    let tl = t.len();
    assert(at < tl);
    let rest = sub_chars(t.as_slice(), at + 1, tl);
    assert(rest@ =~= t@.skip(at + 1));
    let colon_needle = vec![':'];
    assert(colon_needle@ =~= seq![':']);
    let colon = match find_chars(rest.as_slice(), colon_needle.as_slice()) {
        None => return false,
        Some(c) => c,
    };
    proof {
        lemma_find_bounds(rest@, seq![':'], 0);
        assert(find(rest@, seq![':']) == find_from(rest@, seq![':'], 0));
        assert(colon + 1 <= rest@.len());
    }
    if colon == 0 || has_whitespace(rest.as_slice(), 0, colon) {
        assert(rest@.subrange(0, colon as int) =~= rest@.take(colon as int));
        return false;
    }
    assert(rest@.subrange(0, colon as int) =~= rest@.take(colon as int));
    let tail = sub_chars(rest.as_slice(), colon + 1, rest.len());
    assert(tail@ =~= rest@.skip(colon + 1));
    let after = trim_start_chars(tail.as_slice());
    after.len() > 0 && (after[0] == '~' || after[0] == '/' || after[0] == '.')
}


// ── Terminal buffer content ──

/// The escape character that starts every ANSI control sequence.
pub open spec fn esc() -> char {
    '\u{1b}'
}

/// The first index at or after `j` that is not a CSI parameter or
/// intermediate byte (0x20..=0x3F).
pub open spec fn csi_params_end(s: Seq<char>, j: int) -> int
    decreases s.len() - j,
{
    if j < 0 || j >= s.len() {
        j
    } else if 0x20 <= (s[j] as u32) <= 0x3F {
        csi_params_end(s, j + 1)
    } else {
        j
    }
}

/// Where text resumes after a CSI sequence whose parameters start at `j`:
/// after the final byte (0x40..=0x7E) when there is one; a malformed
/// sequence stops before the offending character.
pub open spec fn csi_end(s: Seq<char>, j: int) -> int {
    let k = csi_params_end(s, j);
    if 0 <= k < s.len() && 0x40 <= (s[k] as u32) <= 0x7E {
        k + 1
    } else {
        k
    }
}

/// Where text resumes after an OSC sequence whose body starts at `j`: after
/// the BEL, or after the ESC and the character following it (`ESC \`), or at
/// the end of the input.
pub open spec fn osc_end(s: Seq<char>, j: int) -> int
    decreases s.len() - j,
{
    if j < 0 || j >= s.len() {
        s.len() as int
    } else if s[j] == '\u{07}' {
        j + 1
    } else if s[j] == esc() {
        if j + 1 < s.len() {
            j + 2
        } else {
            j + 1
        }
    } else {
        osc_end(s, j + 1)
    }
}

/// Whether `c` introduces a charset selection after ESC (`ESC ( B` etc.).
pub open spec fn is_charset_intro(c: char) -> bool {
    c == '(' || c == ')' || c == '*' || c == '+'
}

pub proof fn lemma_csi_bounds(s: Seq<char>, j: int)
    requires
        0 <= j <= s.len(),
    ensures
        j <= csi_params_end(s, j) <= s.len(),
        j <= csi_end(s, j) <= s.len(),
    decreases s.len() - j,
{
    if j < s.len() && 0x20 <= (s[j] as u32) <= 0x3F {
        lemma_csi_bounds(s, j + 1);
    }
}

pub proof fn lemma_osc_bounds(s: Seq<char>, j: int)
    requires
        0 <= j <= s.len(),
    ensures
        j <= osc_end(s, j) <= s.len(),
    decreases s.len() - j,
{
    if j < s.len() && s[j] != '\u{07}' && s[j] != esc() {
        lemma_osc_bounds(s, j + 1);
    }
}

/// Where scanning resumes after the ESC at index `i`.
pub open spec fn escape_end(s: Seq<char>, i: int) -> int {
    if i + 1 < s.len() && s[i + 1] == '[' {
        csi_end(s, i + 2)
    } else if i + 1 < s.len() && s[i + 1] == ']' {
        osc_end(s, i + 2)
    } else if i + 1 < s.len() && is_charset_intro(s[i + 1]) {
        if i + 3 <= s.len() {
            i + 3
        } else {
            s.len() as int
        }
    } else {
        i + 1
    }
}

pub proof fn lemma_escape_end_bounds(s: Seq<char>, i: int)
    requires
        0 <= i < s.len(),
        s[i] == esc(),
    ensures
        i < escape_end(s, i) <= s.len(),
{
    if i + 1 < s.len() && s[i + 1] == '[' {
        lemma_csi_bounds(s, i + 2);
    } else if i + 1 < s.len() && s[i + 1] == ']' {
        lemma_osc_bounds(s, i + 2);
    }
}

/// `s[i..]` with ANSI escape sequences removed.
pub open spec fn strip_from(s: Seq<char>, i: int) -> Seq<char>
    decreases s.len() - i,
{
    if i < 0 || i >= s.len() {
        seq![]
    } else if s[i] != esc() {
        seq![s[i]] + strip_from(s, i + 1)
    } else {
        let k = escape_end(s, i);
        proof {
            lemma_escape_end_bounds(s, i);
        }
        strip_from(s, k)
    }
}

/// `s` with ANSI escape sequences removed.
pub open spec fn stripped(s: Seq<char>) -> Seq<char> {
    strip_from(s, 0)
}

/// No character of what `strip_from` keeps is an ESC.
pub proof fn lemma_strip_from_has_no_esc(s: Seq<char>, i: int)
    ensures
        !strip_from(s, i).contains(esc()),
    decreases s.len() - i,
{
    if 0 <= i < s.len() {
        if s[i] != esc() {
            lemma_strip_from_has_no_esc(s, i + 1);
            let r = strip_from(s, i + 1);
            assert(!(seq![s[i]] + r).contains(esc())) by {
                if (seq![s[i]] + r).contains(esc()) {
                    let k = choose|k: int| 0 <= k < (seq![s[i]] + r).len() && (seq![s[i]] + r)[k]
                        == esc();
                    if k > 0 {
                        assert(r[k - 1] == esc());
                    }
                }
            }
        } else {
            let k = escape_end(s, i);
            lemma_escape_end_bounds(s, i);
            lemma_strip_from_has_no_esc(s, k);
        }
    }
}

/// Text without an ESC passes through unchanged.
pub proof fn lemma_strip_from_plain(s: Seq<char>, i: int)
    requires
        0 <= i <= s.len(),
        !s.contains(esc()),
    ensures
        strip_from(s, i) == s.skip(i),
    decreases s.len() - i,
{
    if i < s.len() {
        assert(s[i] != esc());
        lemma_strip_from_plain(s, i + 1);
        assert(seq![s[i]] + s.skip(i + 1) =~= s.skip(i));
    } else {
        assert(s.skip(i) =~= Seq::<char>::empty());
    }
}

/// Stripping escape sequences again changes nothing.
pub proof fn lemma_strip_idempotent(s: Seq<char>)
    ensures
        stripped(stripped(s)) == stripped(s),
{
    lemma_strip_from_has_no_esc(s, 0);
    lemma_strip_from_plain(stripped(s), 0);
    assert(stripped(s).skip(0) =~= stripped(s));
}

/// Strips ANSI escape sequences from terminal output: CSI
/// (`ESC [ params final`), OSC (`ESC ] ... BEL` or `ESC ] ... ESC \`) and
/// charset selections (`ESC ( B`). Plain text passes through unchanged.
pub fn strip_ansi(s: &str) -> (res: String)
    ensures
        res@ == stripped(s@),
        !res@.contains(esc()),
        !s@.contains(esc()) ==> res@ == s@,
{
    let c = chars_of(s);
    let n = c.len();
    let mut out: Vec<char> = Vec::new();
    let mut i: usize = 0;
    while i < n
        invariant
            n == c@.len(),
            c@ == s@,
            i <= n,
            stripped(s@) == out@ + strip_from(s@, i as int),
        decreases n - i,
    {
        let ch = c[i];
        if ch != '\u{1b}' {
            out.push(ch);
            proof {
                let ghost prev = out@.drop_last();
                assert(prev + strip_from(s@, i as int) =~= out@ + strip_from(s@, i + 1));
            }
            i = i + 1;
        } else {
            let ghost k = escape_end(s@, i as int);
            proof {
                lemma_escape_end_bounds(s@, i as int);
            }
            if i + 1 < n && c[i + 1] == '[' {
                let mut j = i + 2;
                while j < n && 0x20 <= (c[j] as u32) && (c[j] as u32) <= 0x3F
                    invariant
                        n == c@.len(),
                        c@ == s@,
                        i + 2 <= j <= n,
                        csi_params_end(s@, i + 2) == csi_params_end(s@, j as int),
                    decreases n - j,
                {
                    j = j + 1;
                }
                if j < n && 0x40 <= (c[j] as u32) && (c[j] as u32) <= 0x7E {
                    j = j + 1;
                }
                assert(j == k);
                i = j;
            } else if i + 1 < n && c[i + 1] == ']' {
                let mut j = i + 2;
                while j < n && c[j] != '\u{07}' && c[j] != '\u{1b}'
                    invariant
                        n == c@.len(),
                        c@ == s@,
                        i + 2 <= j <= n,
                        osc_end(s@, i + 2) == osc_end(s@, j as int),
                    decreases n - j,
                {
                    j = j + 1;
                }
                if j < n && c[j] == '\u{07}' {
                    j = j + 1;
                } else if j < n {
                    j = if j + 1 < n {
                        j + 2
                    } else {
                        j + 1
                    };
                }
                assert(j == k);
                i = j;
            } else if i + 1 < n && (c[i + 1] == '(' || c[i + 1] == ')' || c[i + 1] == '*' || c[i
                + 1] == '+') {
                i = if n - i >= 3 {
                    i + 3
                } else {
                    n
                };
            } else {
                i = i + 1;
            }
        }
    }
    proof {
        lemma_strip_from_has_no_esc(s@, 0);
        if !s@.contains(esc()) {
            lemma_strip_from_plain(s@, 0);
            assert(s@.skip(0) =~= s@);
        }
        assert(out@ + Seq::<char>::empty() =~= out@);
    }
    crate::text::string_of(out.as_slice())
}


/// A character of a one-line excerpt: tabs and control characters become spaces.
pub open spec fn sanitize_char(c: char) -> char {
    if c == '\t' || is_ctrl(c) {
        ' '
    } else {
        c
    }
}

/// The last index of `c` in `s`.
pub open spec fn last_index_of(s: Seq<char>, c: char) -> Option<int>
    decreases s.len(),
{
    if s.len() == 0 {
        None
    } else if s.last() == c {
        Some(s.len() - 1)
    } else {
        last_index_of(s.drop_last(), c)
    }
}

/// Characters of context kept before the matched term.
pub const EXCERPT_PRE: usize = 14;

/// Characters kept after the matched term.
pub const EXCERPT_POST: usize = 80;

/// The horizontal ellipsis that marks a cropped excerpt.
pub open spec fn ellipsis() -> char {
    '\u{2026}'
}

/// Where the line holding index `mid` starts.
pub open spec fn line_start_of(content: Seq<char>, mid: int) -> int {
    match last_index_of(content.take(mid), '\n') {
        Some(k) => k + 1,
        None => 0,
    }
}

/// Where the line holding index `mid` ends (its newline, or the end).
pub open spec fn line_end_of(content: Seq<char>, mid: int) -> int {
    match find(content.skip(mid), seq!['\n']) {
        Some(k) => mid + k,
        None => content.len() as int,
    }
}

/// `line` cropped around a match of `nlen` characters at index `rel`:
/// `EXCERPT_PRE` characters before it and `EXCERPT_POST` after it, with an
/// ellipsis on each side that was cropped.
pub open spec fn crop_line(line: Seq<char>, rel: int, nlen: int) -> Seq<char> {
    let start = if rel > EXCERPT_PRE { rel - EXCERPT_PRE } else { 0 };
    let end = if rel + nlen + EXCERPT_POST < line.len() {
        rel + nlen + EXCERPT_POST
    } else {
        line.len() as int
    };
    (if start > 0 { seq![ellipsis()] } else { seq![] }) + line.subrange(start, end) + (if end
        < line.len() {
        seq![ellipsis()]
    } else {
        seq![]
    })
}

/// `line` made printable: tabs and control characters become spaces.
pub open spec fn sanitized(line: Seq<char>) -> Seq<char> {
    line.map_values(|c: char| sanitize_char(c))
}

/// Where a match at index `mid` of `content` falls in its sanitized line:
/// the character of the sanitized line at the byte offset the match has in
/// its own line. A two-byte control character sanitized into a one-byte
/// space shifts the bytes after it, so that character need not be the
/// match's own, and none may start at that offset.
pub open spec fn rel_in_line(content: Seq<char>, mid: int) -> Option<int> {
    let a = line_start_of(content, mid);
    let line = content.subrange(a, line_end_of(content, mid));
    char_at_byte(sanitized(line), byte_len(line.take(mid - a)) as int)
}

/// The one-line excerpt of `content` for a match of `nlen` characters at
/// index `mid`: the match's line, sanitized and cropped so the match sits
/// near the left edge, where a narrow column still shows it; `None` where
/// the match's byte offset starts no character of the sanitized line.
pub open spec fn excerpt(content: Seq<char>, mid: int, nlen: int) -> Option<Seq<char>> {
    let a = line_start_of(content, mid);
    let b = line_end_of(content, mid);
    match rel_in_line(content, mid) {
        Some(r) => Some(crop_line(sanitized(content.subrange(a, b)), r, nlen)),
        None => None,
    }
}

/// Where the search finds `n` in `content`: its first occurrence as
/// written, else the character of `content` at the byte offset of its first
/// occurrence once both are lowercased with `str::to_lowercase` (inner
/// `None` where no character of `content` starts at that offset); `None`
/// when it occurs neither way.
pub open spec fn match_at(content: Seq<char>, n: Seq<char>) -> Option<Option<int>> {
    match find(content, n) {
        Some(p) => Some(Some(p)),
        None => match find(lowercase_str(content), lowercase_str(n)) {
            Some(k) => Some(char_at_byte(content, byte_len(lowercase_str(content).take(k)) as int)),
            None => None,
        },
    }
}

/// The search for the trimmed `needle` in `content` lands on character
/// boundaries throughout: where it finds the needle, the byte offset it
/// finds it at starts a character of `content` and of the match's
/// sanitized line.
pub open spec fn excerpt_safe(content: Seq<char>, needle: Seq<char>) -> bool {
    let n = trim(needle);
    n.len() == 0 || match match_at(content, n) {
        None => true,
        Some(None) => false,
        Some(Some(m)) => rel_in_line(content, m) is Some,
    }
}

/// The excerpt around the first occurrence of the trimmed `needle` in
/// `content` (see [`match_at`]); `None` when the needle is empty or occurs
/// neither as written nor lowercased.
pub open spec fn excerpt_of(content: Seq<char>, needle: Seq<char>) -> Option<Seq<char>> {
    let n = trim(needle);
    if n.len() == 0 {
        None
    } else {
        match match_at(content, n) {
            Some(Some(m)) => excerpt(content, m, n.len() as int),
            _ => None,
        }
    }
}

proof fn lemma_last_index_bounds(s: Seq<char>, c: char)
    ensures
        last_index_of(s, c) matches Some(k) ==> 0 <= k < s.len() && s[k] == c,
    decreases s.len(),
{
    if s.len() > 0 && s.last() != c {
        lemma_last_index_bounds(s.drop_last(), c);
    }
}

fn line_bounds(content: &[char], mid: usize) -> (res: (usize, usize))
    requires
        mid <= content.len(),
    ensures
        res.0 == line_start_of(content@, mid as int),
        res.1 == line_end_of(content@, mid as int),
        res.0 <= mid <= res.1 <= content.len(),
{
    let mut k = mid;
    assert(content@.take(mid as int).take(k as int) =~= content@.take(mid as int));
    while k > 0 && content[k - 1] != '\n'
        invariant
            k <= mid <= content.len(),
            last_index_of(content@.take(mid as int), '\n') == last_index_of(
                content@.take(k as int),
                '\n',
            ),
        decreases k,
    {
        assert(content@.take(k as int).drop_last() =~= content@.take(k - 1));
        k = k - 1;
    }
    proof {
        if k > 0 {
            assert(content@.take(k as int).last() == '\n');
        }
    }
    let tail = sub_chars(content, mid, content.len());
    assert(tail@ =~= content@.skip(mid as int));
    let nl = vec!['\n'];
    assert(nl@ =~= seq!['\n']);
    let line_end = match find_chars(tail.as_slice(), nl.as_slice()) {
        Some(j) => {
            proof {
                lemma_find_bounds(tail@, seq!['\n'], 0);
            }
            mid + j
        },
        None => content.len(),
    };
    (k, line_end)
}

fn sanitize_line(content: &[char], a: usize, b: usize) -> (res: Vec<char>)
    requires
        a <= b <= content.len(),
    ensures
        res@ == content@.subrange(a as int, b as int).map_values(|c: char| sanitize_char(c)),
{
    let mut line: Vec<char> = Vec::new();
    let mut i = a;
    while i < b
        invariant
            a <= i <= b <= content.len(),
            line@ == content@.subrange(a as int, i as int).map_values(|c: char| sanitize_char(c)),
        decreases b - i,
    {
        let c = content[i];
        let d = if c == '\t' || is_control(c) {
            ' '
        } else {
            c
        };
        line.push(d);
        i = i + 1;
        assert(line@ =~= content@.subrange(a as int, i as int).map_values(
            |c: char| sanitize_char(c),
        ));
    }
    line
}

fn crop(line: &[char], rel: usize, nlen: usize) -> (res: Vec<char>)
    requires
        rel <= line.len(),
    ensures
        res@ == crop_line(line@, rel as int, nlen as int),
{
    let line_c = line.len();
    let start = if rel > EXCERPT_PRE {
        rel - EXCERPT_PRE
    } else {
        0
    };
    let room = line_c - rel;
    let end = if room > nlen && room - nlen > EXCERPT_POST {
        rel + nlen + EXCERPT_POST
    } else {
        line_c
    };
    let mut out: Vec<char> = Vec::new();
    if start > 0 {
        out.push('\u{2026}');
    }
    let ghost lead = out@;
    let mid_part = sub_chars(line, start, end);
    let mut m: usize = 0;
    while m < mid_part.len()
        invariant
            m <= mid_part.len(),
            out@ == lead + mid_part@.take(m as int),
        decreases mid_part.len() - m,
    {
        out.push(mid_part[m]);
        m = m + 1;
        assert(out@ =~= lead + mid_part@.take(m as int));
    }
    assert(mid_part@.take(mid_part@.len() as int) =~= mid_part@);
    if end < line_c {
        out.push('\u{2026}');
    }
    proof {
        let trail: Seq<char> = if end < line_c { seq!['\u{2026}'] } else { seq![] };
        assert(out@ =~= lead + mid_part@ + trail);
    }
    out
}

fn excerpt_around(content: &[char], mid: usize, nlen: usize) -> (res: Option<Vec<char>>)
    requires
        mid <= content.len(),
    ensures
        match res {
            Some(v) => excerpt(content@, mid as int, nlen as int) == Some(v@),
            None => excerpt(content@, mid as int, nlen as int) is None,
        },
{
    let (a, b) = line_bounds(content, mid);
    let line = sanitize_line(content, a, b);
    let own = sub_chars(content, a, b);
    let rel_bytes = prefix_bytes(own.as_slice(), mid - a);
    match char_index_at_byte(line.as_slice(), rel_bytes) {
        Some(r) => Some(crop(line.as_slice(), r, nlen)),
        None => None,
    }
}

/// The search of [`content_excerpt`], with `None` where it would not land
/// on a character boundary.
fn excerpt_search(content: &str, needle: &str) -> (res: Option<Option<String>>)
    ensures
        res is None <==> !excerpt_safe(content@, needle@),
        res matches Some(r) ==> match r {
            Some(s) => excerpt_of(content@, needle@) == Some(s@),
            None => excerpt_of(content@, needle@) is None,
        },
{
    let raw_needle = chars_of(needle);
    let n = trim_chars(raw_needle.as_slice());
    if n.len() == 0 {
        return Some(None);
    }
    let c = chars_of(content);
    let m: usize = match find_chars(c.as_slice(), n.as_slice()) {
        Some(p) => {
            proof {
                lemma_find_bounds(c@, n@, 0);
            }
            p
        },
        None => {
            let lower_content = to_lowercase_str(content);
            let lc = chars_of(lower_content.as_str());
            let trimmed = string_of(n.as_slice());
            let lower_needle = to_lowercase_str(trimmed.as_str());
            let ln = chars_of(lower_needle.as_str());
            match find_chars(lc.as_slice(), ln.as_slice()) {
                None => {
                    return Some(None);
                },
                Some(k) => {
                    proof {
                        lemma_find_bounds(lc@, ln@, 0);
                    }
                    let at = prefix_bytes(lc.as_slice(), k);
                    match char_index_at_byte(c.as_slice(), at) {
                        Some(j) => j,
                        None => {
                            return None;
                        },
                    }
                },
            }
        },
    };
    match excerpt_around(c.as_slice(), m, n.len()) {
        Some(ex) => Some(Some(string_of(ex.as_slice()))),
        None => None,
    }
}

/// Finds the first case-insensitive occurrence of `needle` in `content` and
/// returns a one-line excerpt around it (the `detail` of a content-search
/// row). The search is exact first, then falls back to the byte offset of
/// the first occurrence in the `str::to_lowercase` forms of both, taken as
/// a byte offset of `content`. `content` should already be ANSI-stripped.
/// The search must land on character boundaries (see [`excerpt_safe`];
/// [`try_content_excerpt`] tests it).
pub fn content_excerpt(content: &str, needle: &str) -> (res: Option<String>)
    requires
        excerpt_safe(content@, needle@),
    ensures
        match res {
            Some(s) => excerpt_of(content@, needle@) == Some(s@),
            None => excerpt_of(content@, needle@) is None,
        },
{
    match excerpt_search(content, needle) {
        Some(r) => r,
        None => None,
    }
}

/// Searches `content` for the trimmed `needle` as [`content_excerpt`]
/// does where that search lands on character boundaries (see
/// [`excerpt_safe`]), giving `Some` of its result; `None` where it would
/// not.
pub fn try_content_excerpt(content: &str, needle: &str) -> (res: Option<Option<String>>)
    ensures
        res is None <==> !excerpt_safe(content@, needle@),
        res matches Some(r) ==> match r {
            Some(s) => excerpt_of(content@, needle@) == Some(s@),
            None => excerpt_of(content@, needle@) is None,
        },
{
    match excerpt_search(content, needle) {
        None => None,
        Some(_) => Some(content_excerpt(content, needle)),
    }
}

// ── Editor command lines ──

/// Whether `d` is a line number argument: ASCII digits whose value fits a `u32`.
pub open spec fn is_line_arg(d: Seq<char>) -> bool {
    d.len() > 0 && (forall|i: int| 0 <= i < d.len() ==> is_digit(#[trigger] d[i]))
        && digits_value(d) <= u32::MAX
}

/// Scans editor arguments from word `i` on: skips options (`-...`), takes
/// `+LINE` as the line to open at, and stops at the first other word, the file.
pub open spec fn editor_scan(t: Seq<Seq<char>>, i: int, line: Option<u32>) -> Option<
    (Seq<char>, Option<u32>),
>
    decreases t.len() - i,
{
    if i < 0 || i >= t.len() {
        None
    } else {
        let tok = t[i];
        if tok.len() > 0 && tok[0] == '+' {
            if is_line_arg(tok.skip(1)) {
                editor_scan(t, i + 1, Some(digits_value(tok.skip(1)) as u32))
            } else {
                editor_scan(t, i + 1, line)
            }
        } else if tok.len() > 0 && tok[0] == '-' {
            editor_scan(t, i + 1, line)
        } else {
            Some((tok, line))
        }
    }
}

/// The file an editor command line opens, with the `+LINE` it opens at.
pub open spec fn editor_target(cmd: Seq<char>) -> Option<(Seq<char>, Option<u32>)> {
    editor_scan(words(cmd), 1, None)
}

/// The file an editor command line opens (`nvim +328 src/main.rs` gives
/// `src/main.rs` at line 328), or `None` when it names no file (`hx`).
/// Options and a `+LINE` argument may come before the file.
pub fn parse_editor_target(cmd: &str) -> (res: Option<(String, Option<u32>)>)
    ensures
        match res {
            Some(r) => editor_target(cmd@) == Some((r.0@, r.1)),
            None => editor_target(cmd@) is None,
        },
{
    let c = chars_of(cmd);
    let tokens = split_words(c.as_slice());
    let ghost t = views(tokens@);
    assert(t.len() == tokens@.len());
    let mut line: Option<u32> = None;
    let mut i: usize = 1;
    while i < tokens.len()
        invariant
            t == views(tokens@),
            t.len() == tokens@.len(),
            t == words(cmd@),
            1 <= i,
            editor_target(cmd@) == editor_scan(t, i as int, line),
        decreases tokens.len() - i,
    {
        let tok = &tokens[i];
        assert(tok@ == t[i as int]);
        if tok.len() > 0 && tok[0] == '+' {
            let d = sub_chars(tok.as_slice(), 1, tok.len());
            assert(d@ =~= tok@.skip(1));
            match parse_u32(d.as_slice()) {
                Some(v) => {
                    line = Some(v);
                },
                None => {},
            }
        } else if tok.len() == 0 || tok[0] != '-' {
            let path = string_of_vec(tok);
            return Some((path, line));
        }
        i = i + 1;
    }
    None
}

} // verus!
