//! Path normalization for action targets.
//!
//! Targets may arrive as absolute paths (drag-and-drop always supplies
//! them) or as paths relative to the process's current directory. An
//! absolute target is passed through byte for byte; a relative one is
//! joined onto the current directory. Launching the wrong file silently
//! would be unacceptable, so the absolute-path round trip is stated as a
//! law and proved.
//!
//! Both separator conventions are recognized: a path is absolute when it
//! starts with a separator (`/` or `\`) or with a drive-letter prefix such
//! as `C:\`.

use vstd::prelude::*;
use crate::text::str_chars;
use crate::text::chars_to_string;
use crate::text::str_starts_with;
use crate::text::replace_all;
use crate::text::replace_chars;
use crate::text::starts_with;

verus! {

pub open spec fn is_sep(c: char) -> bool {
    c == '/' || c == '\\'
}

pub open spec fn is_drive_letter(c: char) -> bool {
    ('A' <= c && c <= 'Z') || ('a' <= c && c <= 'z')
}

/// Whether `s` is an absolute path: rooted at a separator, or at a
/// drive-letter prefix followed by a separator.
pub open spec fn is_absolute(s: Seq<char>) -> bool {
    (s.len() >= 1 && is_sep(s[0])) || (s.len() >= 3 && is_drive_letter(s[0]) && s[1] == ':'
        && is_sep(s[2]))
}

pub fn path_is_absolute(s: &str) -> (r: bool)
    ensures
        r == is_absolute(s@),
{
    let n = s.unicode_len();
    if n >= 1 {
        let c0 = s.get_char(0);
        if c0 == '/' || c0 == '\\' {
            return true;
        }
        if n >= 3 {
            let c1 = s.get_char(1);
            let c2 = s.get_char(2);
            return (('A' <= c0 && c0 <= 'Z') || ('a' <= c0 && c0 <= 'z')) && c1 == ':' && (c2
                == '/' || c2 == '\\');
        }
    }
    false
}

/// The separator used when joining onto `d`: backslash for paths that
/// already use backslashes or carry a drive letter, slash otherwise.
pub open spec fn path_sep(d: Seq<char>) -> char {
    if d.contains('\\') || (d.len() >= 2 && is_drive_letter(d[0]) && d[1] == ':') {
        '\\'
    } else {
        '/'
    }
}

/// `t` appended onto the directory `d`, with a separator between them
/// unless `d` already ends in one.
pub open spec fn join_path(d: Seq<char>, t: Seq<char>) -> Seq<char> {
    if d.len() >= 1 && is_sep(d.last()) {
        d + t
    } else {
        d + seq![path_sep(d)] + t
    }
}

/// The effective target: an absolute path unchanged, a relative one
/// resolved against the current directory `cwd`.
pub open spec fn normalize_target(t: Seq<char>, cwd: Seq<char>) -> Seq<char> {
    if is_absolute(t) {
        t
    } else {
        join_path(cwd, t)
    }
}

pub fn normalize_path(target: &str, cwd: &str) -> (r: String)
    ensures
        r@ == normalize_target(target@, cwd@),
{
    if path_is_absolute(target) {
        let mut r = String::new();
        r.append(target);
        r
    } else {
        let d = str_chars(cwd);
        let mut out = String::new();
        out.append(cwd);
        let n = cwd.unicode_len();
        let ends_in_sep = if n >= 1 {
            let c = cwd.get_char(n - 1);
            c == '/' || c == '\\'
        } else {
            false
        };
        if !ends_in_sep {
            let has_backslash = crate::text::chars_contain(&d, '\\');
            let drive = if d.len() >= 2 {
                let c0 = d[0];
                (('A' <= c0 && c0 <= 'Z') || ('a' <= c0 && c0 <= 'z')) && d[1] == ':'
            } else {
                false
            };
            if has_backslash || drive {
                out.append("\\");
            } else {
                out.append("/");
            }
            proof {
                reveal_strlit("\\");
                reveal_strlit("/");
                assert("\\"@ =~= seq![path_sep(cwd@)] || "/"@ =~= seq![path_sep(cwd@)]);
            }
        }
        out.append(target);
        out
    }
}

/// Absolute-path invariance: normalizing an absolute target returns it
/// exactly, whatever the current directory.
pub proof fn lemma_normalize_absolute(t: Seq<char>, cwd: Seq<char>)
    requires
        is_absolute(t),
    ensures
        normalize_target(t, cwd) == t,
{
}

/// Relative-path resolution: a non-absolute target resolves to the join
/// with the current directory, and the result is absolute whenever the
/// current directory is.
pub proof fn lemma_normalize_relative(t: Seq<char>, cwd: Seq<char>)
    requires
        !is_absolute(t),
        is_absolute(cwd),
    ensures
        normalize_target(t, cwd) == join_path(cwd, t),
        is_absolute(join_path(cwd, t)),
{
    let j = join_path(cwd, t);
    if cwd.len() >= 1 && is_sep(cwd.last()) {
        assert(j[0] == cwd[0]);
        if cwd.len() >= 3 {
            assert(j[1] == cwd[1] && j[2] == cwd[2]);
        }
    } else {
        assert(j[0] == cwd[0]);
        if cwd.len() >= 3 {
            assert(j[1] == cwd[1] && j[2] == cwd[2]);
        } else if cwd.len() == 2 {
            assert(j[1] == cwd[1]);
            assert(j[2] == path_sep(cwd));
        }
    }
}

/// Whether handing `s` to a shell invocation requires quoting it.
pub open spec fn needs_quoting(s: Seq<char>) -> bool {
    s.contains(' ') || s.contains('(') || s.contains(')')
}

/// `s` wrapped in double quotes.
pub open spec fn quoted(s: Seq<char>) -> Seq<char> {
    seq!['"'] + s + seq!['"']
}

/// The form of `s` handed to the shell: quoted when it holds whitespace
/// or parentheses, unchanged otherwise.
pub open spec fn shell_form(s: Seq<char>) -> Seq<char> {
    if needs_quoting(s) {
        quoted(s)
    } else {
        s
    }
}

pub fn quote_if_needed(s: &str) -> (r: String)
    ensures
        r@ == shell_form(s@),
{
    let v = str_chars(s);
    let needs = crate::text::chars_contain(&v, ' ') || crate::text::chars_contain(&v, '(')
        || crate::text::chars_contain(&v, ')');
    if needs {
        let mut r = String::new();
        r.append("\"");
        r.append(s);
        r.append("\"");
        proof {
            reveal_strlit("\"");
            assert(r@ =~= quoted(s@));
        }
        r
    } else {
        let mut r = String::new();
        r.append(s);
        r
    }
}

/// A Windows working directory translated to the WSL mount convention:
/// a path on drive C has its `C:` occurrences replaced by `/mnt/c` and its
/// backslashes by slashes; any other path is passed through.
pub open spec fn wsl_path(s: Seq<char>) -> Seq<char> {
    if starts_with(s, "C:"@) {
        replace_all(replace_all(s, "C:"@, "/mnt/c"@), "\\"@, "/"@)
    } else {
        s
    }
}

pub fn to_wsl_path(s: &str) -> (r: String)
    ensures
        r@ == wsl_path(s@),
{
    if str_starts_with(s, "C:") {
        let v = str_chars(s);
        let pat1 = str_chars("C:");
        let rep1 = str_chars("/mnt/c");
        proof {
            reveal_strlit("C:");
            assert(pat1@.len() >= 1);
        }
        let step1 = replace_chars(&v, &pat1, &rep1);
        let pat2 = str_chars("\\");
        let rep2 = str_chars("/");
        proof {
            reveal_strlit("\\");
            assert(pat2@.len() >= 1);
        }
        let step2 = replace_chars(&step1, &pat2, &rep2);
        chars_to_string(&step2)
    } else {
        let mut r = String::new();
        r.append(s);
        r
    }
}

} // verus!
