//! Tool-runtime state and rules: the file-path lock registry, the persistent
//! shell state with its `cd` and `export` handling, and the formatting of
//! search and todo results.

use vstd::prelude::*;
use crate::text::{
    append_chars, append_str, chars_eq, chars_of, dec, decimal_chars, occurs_at, slice,
    starts_with, str_eq, string_of,
};

verus! {

/// The set of canonical paths currently locked.
pub struct LockRegistry {
    pub paths: Vec<String>,
}

/// A held lock on one canonical path; releasing it gives the path back to the registry.
pub struct FileLockGuard {
    pub path: String,
}

/// The paths of a registry, as a set.
pub open spec fn path_set(paths: Seq<String>) -> Set<Seq<char>> {
    Set::new(|p: Seq<char>| exists|i: int| 0 <= i < paths.len() && paths[i]@ == p)
}

impl LockRegistry {
    /// Each path appears at most once.
    pub open spec fn wf(&self) -> bool {
        forall|i: int, j: int| 0 <= i < j < self.paths@.len() ==> self.paths@[i]@ != self.paths@[j]@
    }

    pub open spec fn locked(&self) -> Set<Seq<char>> {
        path_set(self.paths@)
    }

    /// An empty registry.
    pub fn new() -> (r: Self)
        ensures
            r.wf(),
            r.locked() == Set::<Seq<char>>::empty(),
    {
        let r = LockRegistry { paths: Vec::new() };
        assert(r.locked() =~= Set::<Seq<char>>::empty());
        r
    }

    fn index_of(&self, path: &str) -> (r: Option<usize>)
        ensures
            match r {
                Some(i) => i < self.paths@.len() && self.paths@[i as int]@ == path@,
                None => !self.locked().contains(path@),
            },
    {
        let p = chars_of(path);
        let mut i: usize = 0;
        while i < self.paths.len()
            invariant
                i <= self.paths@.len(),
                p@ == path@,
                forall|j: int| 0 <= j < i ==> self.paths@[j]@ != path@,
            decreases self.paths@.len() - i,
        {
            let q = chars_of(self.paths[i].as_str());
            if chars_eq(&q, &p) {
                return Some(i);
            }
            i += 1;
        }
        None
    }

    /// Locks `path` when no one holds it. `None` when it is held: the caller
    /// waits and tries again.
    pub fn try_acquire(&mut self, path: &str) -> (r: Option<FileLockGuard>)
        requires
            old(self).wf(),
        ensures
            final(self).wf(),
            old(self).locked().contains(path@) ==> r is None && final(self).locked() == old(
                self,
            ).locked(),
            !old(self).locked().contains(path@) ==> (r matches Some(g) && g.path@ == path@)
                && final(self).locked() == old(self).locked().insert(path@),
    {
        match self.index_of(path) {
            Some(_) => None,
            None => {
                let ghost before = self.paths@;
                self.paths.push(String::from_str(path));
                assert(self.locked() =~= path_set(before).insert(path@)) by {
                    assert forall|q: Seq<char>| self.locked().contains(q) <==> path_set(before).insert(path@).contains(q) by {
                        if path_set(before).contains(q) {
                            let k = choose|k: int| 0 <= k < before.len() && before[k]@ == q;
                            assert(self.paths@[k] == before[k]);
                        }
                        if q == path@ {
                            assert(self.paths@[before.len() as int]@ == path@);
                        }
                        if self.locked().contains(q) {
                            let k = choose|k: int| 0 <= k < self.paths@.len() && self.paths@[k]@ == q;
                            if k < before.len() {
                                assert(self.paths@[k] == before[k]);
                            }
                        }
                    }
                }
                assert forall|i: int, j: int| 0 <= i < j < self.paths@.len() implies self.paths@[i]@
                    != self.paths@[j]@ by {
                    if j == before.len() {
                        assert(self.paths@[i] == before[i]);
                    } else {
                        assert(self.paths@[i] == before[i]);
                        assert(self.paths@[j] == before[j]);
                    }
                }
                Some(FileLockGuard { path: String::from_str(path) })
            },
        }
    }

    /// Gives the guard's path back.
    pub fn release(&mut self, guard: FileLockGuard)
        requires
            old(self).wf(),
        ensures
            final(self).wf(),
            final(self).locked() == old(self).locked().remove(guard.path@),
    {
        match self.index_of(guard.path.as_str()) {
            None => {
                assert(self.locked() =~= self.locked().remove(guard.path@));
            },
            Some(i) => {
                let ghost before = self.paths@;
                let ghost p = guard.path@;
                let _ = self.paths.remove(i);
                assert(self.locked() =~= path_set(before).remove(p)) by {
                    assert forall|q: Seq<char>| self.locked().contains(q) <==> path_set(before).remove(p).contains(q) by {
                        if path_set(before).remove(p).contains(q) {
                            let k = choose|k: int| 0 <= k < before.len() && before[k]@ == q;
                            assert(k != i);
                            if k < i {
                                assert(self.paths@[k] == before[k]);
                            } else {
                                assert(self.paths@[k - 1] == before[k]);
                            }
                        }
                        if self.locked().contains(q) {
                            let k = choose|k: int| 0 <= k < self.paths@.len() && self.paths@[k]@ == q;
                            if k < i {
                                assert(self.paths@[k] == before[k]);
                                assert(k != i);
                            } else {
                                assert(self.paths@[k] == before[k + 1]);
                            }
                        }
                    }
                }
                assert forall|a: int, b: int| 0 <= a < b < self.paths@.len() implies self.paths@[a]@
                    != self.paths@[b]@ by {
                    let a2 = if a < i { a } else { a + 1 };
                    let b2 = if b < i { b } else { b + 1 };
                    assert(self.paths@[a] == before[a2]);
                    assert(self.paths@[b] == before[b2]);
                }
            },
        }
    }
}

/// Acquiring a free path and then releasing its guard leaves the registry
/// holding exactly the paths it held before: `r1` is the registry after
/// `try_acquire(path)` on `r0`, `r2` the registry after releasing that guard.
pub proof fn law_acquire_release_restores(r0: LockRegistry, r1: LockRegistry, r2: LockRegistry, path: Seq<char>)
    requires
        !r0.locked().contains(path),
        r1.locked() == r0.locked().insert(path),
        r2.locked() == r1.locked().remove(path),
    ensures
        r2.locked() == r0.locked(),
{
    assert(r2.locked() =~= r0.locked());
}

/// Whether `c` is white space as `char::is_whitespace` defines it (the
/// Unicode `White_Space` property).
pub open spec fn is_space(c: char) -> bool {
    ('\u{9}' <= c && c <= '\u{d}') || c == ' ' || c == '\u{85}' || c == '\u{a0}' || c
        == '\u{1680}' || ('\u{2000}' <= c && c <= '\u{200a}') || c == '\u{2028}' || c
        == '\u{2029}' || c == '\u{202f}' || c == '\u{205f}' || c == '\u{3000}'
}

fn is_space_char(c: char) -> (r: bool)
    ensures
        r == is_space(c),
{
    ('\u{9}' <= c && c <= '\u{d}') || c == ' ' || c == '\u{85}' || c == '\u{a0}' || c
        == '\u{1680}' || ('\u{2000}' <= c && c <= '\u{200a}') || c == '\u{2028}' || c
        == '\u{2029}' || c == '\u{202f}' || c == '\u{205f}' || c == '\u{3000}'
}

pub open spec fn trim_start_ws(s: Seq<char>) -> Seq<char>
    decreases s.len(),
{
    if s.len() > 0 && is_space(s[0]) {
        trim_start_ws(s.drop_first())
    } else {
        s
    }
}

pub open spec fn trim_end_ws(s: Seq<char>) -> Seq<char>
    decreases s.len(),
{
    if s.len() > 0 && is_space(s.last()) {
        trim_end_ws(s.drop_last())
    } else {
        s
    }
}

/// `s` without leading and trailing white space, as `str::trim` gives it.
pub open spec fn trim_ws(s: Seq<char>) -> Seq<char> {
    trim_end_ws(trim_start_ws(s))
}

/// `s` with white space trimmed from both ends.
pub fn trim_chars(s: &Vec<char>) -> (r: Vec<char>)
    ensures
        r@ == trim_ws(s@),
{
    let n = s.len();
    let mut a: usize = 0;
    assert(s@.subrange(0, n as int) =~= s@);
    while a < n && is_space_char(s[a])
        invariant
            a <= n == s@.len(),
            trim_start_ws(s@) == trim_start_ws(s@.subrange(a as int, n as int)),
        decreases n - a,
    {
        assert(s@.subrange(a as int, n as int).drop_first() =~= s@.subrange(a + 1, n as int));
        a += 1;
    }
    let mut z: usize = n;
    while z > a && is_space_char(s[z - 1])
        invariant
            a <= z <= n == s@.len(),
            trim_end_ws(s@.subrange(a as int, n as int)) == trim_end_ws(
                s@.subrange(a as int, z as int),
            ),
        decreases z,
    {
        assert(s@.subrange(a as int, z as int).drop_last() =~= s@.subrange(a as int, z - 1));
        z -= 1;
    }
    slice(s, a, z)
}

/// `s` with every leading copy of `p` removed, as `str::trim_start_matches` gives it.
pub open spec fn strip_prefix_all(s: Seq<char>, p: Seq<char>) -> Seq<char>
    decreases s.len(),
{
    if p.len() > 0 && occurs_at(s, p, 0) {
        strip_prefix_all(s.subrange(p.len() as int, s.len() as int), p)
    } else {
        s
    }
}

/// How the shell tool treats a command line.
pub enum ShellCommand {
    /// A standalone `cd`: the target as written (`~` when none is given).
    ChangeDir(String),
    /// Anything else runs through the OS shell.
    Run,
}

/// The target of a standalone `cd` in a command line, trimmed: `~` for a bare `cd`.
pub open spec fn cd_target(cmd: Seq<char>) -> Option<Seq<char>> {
    let t = trim_ws(cmd);
    if t == "cd"@ {
        Some("~"@)
    } else if occurs_at(t, "cd "@, 0) {
        Some(trim_ws(t.subrange(3, t.len() as int)))
    } else {
        None
    }
}

/// Sorts a command line into a standalone `cd` or a command to run. A `cd`
/// chained with other commands runs in the shell and does not persist.
pub fn classify_command(command: &str) -> (r: ShellCommand)
    ensures
        match cd_target(command@) {
            Some(t) => r matches ShellCommand::ChangeDir(x) && x@ == t,
            None => r is Run,
        },
{
    proof {
        reveal_strlit("cd");
        reveal_strlit("cd ");
        reveal_strlit("~");
    }
    let raw = chars_of(command);
    let t = trim_chars(&raw);
    let cd = chars_of("cd");
    let cd_space = chars_of("cd ");
    if chars_eq(&t, &cd) {
        return ShellCommand::ChangeDir(String::from_str("~"));
    }
    if starts_with(&t, &cd_space) {
        let rest = slice(&t, 3, t.len());
        let target = trim_chars(&rest);
        return ShellCommand::ChangeDir(string_of(&target));
    }
    ShellCommand::Run
}

/// The directory a `cd` asks for, before canonicalization: the home
/// directory for `~`, an absolute target as is, else the target joined onto
/// the current directory.
pub open spec fn cd_path(cwd: Seq<char>, target: Seq<char>, home: Option<Seq<char>>) -> Option<Seq<char>> {
    if target == "~"@ {
        home
    } else if target.len() > 0 && target[0] == '/' {
        Some(target)
    } else if cwd.len() > 0 && cwd.last() == '/' {
        Some(cwd + target)
    } else {
        Some(cwd + "/"@ + target)
    }
}

pub open spec fn no_home_text() -> Seq<char> {
    "Could not determine home directory"@
}

/// The directory to canonicalize for `cd target` from `cwd`.
pub fn resolve_cd_path(cwd: &str, target: &str, home: Option<String>) -> (r: Result<String, String>)
    ensures
        match cd_path(cwd@, target@, match home {
            Some(h) => Some(h@),
            None => None,
        }) {
            Some(p) => r matches Ok(x) && x@ == p,
            None => r matches Err(m) && m@ == no_home_text(),
        },
{
    proof {
        reveal_strlit("~");
        reveal_strlit("/");
    }
    if str_eq(target, "~") {
        return match home {
            Some(h) => Ok(h),
            None => Err(String::from_str("Could not determine home directory")),
        };
    }
    let t = chars_of(target);
    if t.len() > 0 && t[0] == '/' {
        return Ok(String::from_str(target));
    }
    let mut p = chars_of(cwd);
    if !(p.len() > 0 && p[p.len() - 1] == '/') {
        p.push('/');
    }
    append_chars(&mut p, &t);
    Ok(string_of(&p))
}

/// The persistent shell session: working directory and environment.
pub struct ShellState {
    pub cwd: String,
    pub env_vars: Vec<(String, String)>,
}

/// What canonicalizing the directory a `cd` asks for gave.
pub enum CdOutcome {
    /// The canonical path, and whether it is a directory.
    Resolved { path: String, is_dir: bool },
    /// Canonicalization failed with this error text.
    Missing(String),
}

/// Ends a `cd`: the working directory becomes the canonical path when it is
/// a directory; any failure leaves it unchanged.
pub fn finish_cd(state: &mut ShellState, wanted: &str, outcome: CdOutcome) -> (r: Result<String, String>)
    ensures
        final(state).env_vars == old(state).env_vars,
        match outcome {
            CdOutcome::Resolved { path, is_dir } => if is_dir {
                final(state).cwd@ == path@ && (r matches Ok(m) && m@ == "Changed directory to: "@
                    + path@)
            } else {
                final(state).cwd == old(state).cwd && (r matches Err(m) && m@
                    == "Path is not a directory: "@ + wanted@)
            },
            CdOutcome::Missing(e) => final(state).cwd == old(state).cwd && (r matches Err(m) && m@
                == "Directory not found: "@ + wanted@ + " ("@ + e@ + ")"@),
        },
{
    match outcome {
        CdOutcome::Resolved { path, is_dir } => {
            if is_dir {
                let message = crate::text::concat2("Changed directory to: ", path.as_str());
                state.cwd = path;
                Ok(message)
            } else {
                Err(crate::text::concat2("Path is not a directory: ", wanted))
            }
        },
        CdOutcome::Missing(e) => {
            let mut m = chars_of("Directory not found: ");
            append_str(&mut m, wanted);
            append_str(&mut m, " (");
            append_str(&mut m, e.as_str());
            append_str(&mut m, ")");
            Err(string_of(&m))
        },
    }
}

/// The value `env` gives `key`: the first entry for it.
pub open spec fn env_get(env: Seq<(String, String)>, key: Seq<char>) -> Option<Seq<char>>
    decreases env.len(),
{
    if env.len() == 0 {
        None
    } else if env[0].0@ == key {
        Some(env[0].1@)
    } else {
        env_get(env.drop_first(), key)
    }
}

/// The assignment a standalone `export K=V` (or, on Windows, `set K=V`) makes:
/// the key and value trimmed, and, for `export`, the value stripped of one
/// pair of matching surrounding quotes.
pub open spec fn export_assignment(cmd: Seq<char>, on_windows: bool) -> Option<(Seq<char>, Seq<char>)> {
    if occurs_at(cmd, "export "@, 0) {
        let rest = trim_ws(strip_prefix_all(cmd, "export "@));
        match first_char_index(rest, '=') {
            Some(k) => Some((
                trim_ws(rest.subrange(0, k)),
                unquote(trim_ws(rest.subrange(k + 1, rest.len() as int))),
            )),
            None => None,
        }
    } else if on_windows && cmd.len() >= 4 && ascii_lower_seq(cmd.subrange(0, 4)) == "set "@ {
        let rest = trim_ws(cmd.subrange(4, cmd.len() as int));
        match first_char_index(rest, '=') {
            Some(k) => Some((trim_ws(rest.subrange(0, k)), trim_ws(rest.subrange(k + 1, rest.len() as int)))),
            None => None,
        }
    } else {
        None
    }
}

pub open spec fn ascii_lower_seq(s: Seq<char>) -> Seq<char> {
    Seq::new(s.len(), |i: int| lower_char(s[i]))
}

pub open spec fn lower_char(c: char) -> char {
    if 'A' <= c && c <= 'Z' {
        (((c as u8) + 32) as u8) as char
    } else {
        c
    }
}

fn lower_char_exec(c: char) -> (r: char)
    ensures
        r == lower_char(c),
{
    if 'A' <= c && c <= 'Z' {
        (((c as u8) + 32) as u8) as char
    } else {
        c
    }
}

/// Index of the first `c` in `s`.
pub open spec fn first_char_index(s: Seq<char>, c: char) -> Option<int> {
    if exists|i: int| 0 <= i < s.len() && s[i] == c {
        Some(choose|i: int| 0 <= i < s.len() && s[i] == c && forall|j: int| 0 <= j < i ==> s[j] != c)
    } else {
        None
    }
}

/// `v` without one pair of matching surrounding double or single quotes.
pub open spec fn unquote(v: Seq<char>) -> Seq<char> {
    if v.len() >= 2 && ((v[0] == '"' && v.last() == '"') || (v[0] == '\'' && v.last() == '\'')) {
        v.subrange(1, v.len() - 1)
    } else {
        v
    }
}

proof fn lemma_env_get_first(env: Seq<(String, String)>, key: Seq<char>)
    ensures
        match env_get(env, key) {
            Some(v) => exists|i: int|
                0 <= i < env.len() && env[i].0@ == key && env[i].1@ == v && forall|j: int|
                    0 <= j < i ==> env[j].0@ != key,
            None => forall|i: int| 0 <= i < env.len() ==> env[i].0@ != key,
        },
    decreases env.len(),
{
    if env.len() > 0 && env[0].0@ != key {
        lemma_env_get_first(env.drop_first(), key);
        match env_get(env.drop_first(), key) {
            Some(v) => {
                let i = choose|i: int|
                    0 <= i < env.len() - 1 && env.drop_first()[i].0@ == key && env.drop_first()[i].1@
                        == v && forall|j: int| 0 <= j < i ==> env.drop_first()[j].0@ != key;
                assert(env[i + 1] == env.drop_first()[i]);
                assert forall|j: int| 0 <= j < i + 1 implies env[j].0@ != key by {
                    if j > 0 {
                        assert(env[j] == env.drop_first()[j - 1]);
                    }
                }
            },
            None => {
                assert forall|i: int| 0 <= i < env.len() implies env[i].0@ != key by {
                    if i > 0 {
                        assert(env[i] == env.drop_first()[i - 1]);
                    }
                }
            },
        }
    }
}

proof fn lemma_env_get_at(env: Seq<(String, String)>, key: Seq<char>, i: int)
    requires
        0 <= i < env.len(),
        env[i].0@ == key,
        forall|j: int| 0 <= j < i ==> env[j].0@ != key,
    ensures
        env_get(env, key) == Some(env[i].1@),
{
    lemma_env_get_first(env, key);
    if let Some(v) = env_get(env, key) {
        let k = choose|k: int|
            0 <= k < env.len() && env[k].0@ == key && env[k].1@ == v && forall|j: int|
                0 <= j < k ==> env[j].0@ != key;
        assert(k == i);
    }
}

/// Sets `key` to `value`: replaces the first entry for `key`, or appends one.
pub fn env_set(env: &mut Vec<(String, String)>, key: String, value: String)
    ensures
        env_get(final(env)@, key@) == Some(value@),
        forall|k: Seq<char>| k != key@ ==> env_get(final(env)@, k) == env_get(old(env)@, k),
{
    let kc = chars_of(key.as_str());
    let mut i: usize = 0;
    while i < env.len()
        invariant
            i <= env@.len(),
            kc@ == key@,
            *env == *old(env),
            forall|j: int| 0 <= j < i ==> env@[j].0@ != key@,
        decreases env@.len() - i,
    {
        let name = chars_of(env[i].0.as_str());
        if chars_eq(&name, &kc) {
            let ghost before = env@;
            env.set(i, (key, value));
            proof {
                lemma_env_get_at(env@, env@[i as int].0@, i as int);
                assert forall|k: Seq<char>| k != env@[i as int].0@ implies env_get(env@, k) == env_get(before, k) by {
                    lemma_env_get_first(before, k);
                    lemma_env_get_first(env@, k);
                    match env_get(before, k) {
                        Some(v) => {
                            let a = choose|a: int|
                                0 <= a < before.len() && before[a].0@ == k && before[a].1@ == v
                                    && forall|j: int| 0 <= j < a ==> before[j].0@ != k;
                            assert(a != i);
                            assert forall|j: int| 0 <= j < a implies env@[j].0@ != k by {
                                if j != i { assert(env@[j] == before[j]); }
                            }
                            assert(env@[a] == before[a]);
                            lemma_env_get_at(env@, k, a);
                        },
                        None => {
                            assert forall|j: int| 0 <= j < env@.len() implies env@[j].0@ != k by {
                                if j != i { assert(env@[j] == before[j]); }
                            }
                            lemma_env_get_first(env@, k);
                        },
                    }
                }
            }
            return;
        }
        i += 1;
    }
    let ghost before = env@;
    env.push((key, value));
    proof {
        let n = before.len() as int;
        assert(env@[n] == (key, value));
        assert forall|j: int| 0 <= j < n implies env@[j].0@ != key@ by {
            assert(env@[j] == before[j]);
        }
        lemma_env_get_at(env@, key@, n);
        assert forall|k: Seq<char>| k != key@ implies env_get(env@, k) == env_get(before, k) by {
            lemma_env_get_first(before, k);
            match env_get(before, k) {
                Some(v) => {
                    let a = choose|a: int|
                        0 <= a < before.len() && before[a].0@ == k && before[a].1@ == v && forall|j: int|
                            0 <= j < a ==> before[j].0@ != k;
                    assert forall|j: int| 0 <= j < a implies env@[j].0@ != k by {
                        assert(env@[j] == before[j]);
                    }
                    assert(env@[a] == before[a]);
                    lemma_env_get_at(env@, k, a);
                },
                None => {
                    assert forall|j: int| 0 <= j < env@.len() implies env@[j].0@ != k by {
                        if j < n { assert(env@[j] == before[j]); }
                    }
                    lemma_env_get_first(env@, k);
                },
            }
        }
    }
}

fn index_of_char(s: &Vec<char>, c: char) -> (r: Option<usize>)
    ensures
        match r {
            Some(i) => i < s@.len() && first_char_index(s@, c) == Some(i as int),
            None => first_char_index(s@, c) is None,
        },
{
    let mut i: usize = 0;
    while i < s.len()
        invariant
            i <= s@.len(),
            forall|j: int| 0 <= j < i ==> s@[j] != c,
        decreases s@.len() - i,
    {
        if s[i] == c {
            proof {
                let k = choose|k: int| 0 <= k < s@.len() && s@[k] == c && forall|j: int| 0 <= j < k ==> s@[j] != c;
                assert(k == i);
            }
            return Some(i);
        }
        i += 1;
    }
    None
}

fn unquote_chars(v: &Vec<char>) -> (r: Vec<char>)
    ensures
        r@ == unquote(v@),
{
    let n = v.len();
    if n >= 2 && ((v[0] == '"' && v[n - 1] == '"') || (v[0] == '\'' && v[n - 1] == '\'')) {
        slice(v, 1, n - 1)
    } else {
        slice(v, 0, n)
    }
}

fn strip_prefix_all_chars(s: &Vec<char>, p: &Vec<char>) -> (r: Vec<char>)
    ensures
        r@ == strip_prefix_all(s@, p@),
{
    let n = s.len();
    let mut a: usize = 0;
    assert(s@.subrange(0, n as int) =~= s@);
    if p.len() == 0 {
        return slice(s, 0, n);
    }
    while crate::text::matches_at(s, p, a)
        invariant
            a <= n == s@.len(),
            p@.len() > 0,
            strip_prefix_all(s@, p@) == strip_prefix_all(s@.subrange(a as int, n as int), p@),
        decreases n - a,
    {
        let ghost rest = s@.subrange(a as int, n as int);
        assert(rest.subrange(0, p@.len() as int) =~= s@.subrange(a as int, a + p@.len()));
        assert(rest.subrange(p@.len() as int, rest.len() as int) =~= s@.subrange(a + p@.len(), n as int));
        a = a + p.len();
    }
    assert(!occurs_at(s@.subrange(a as int, n as int), p@, 0)) by {
        if occurs_at(s@.subrange(a as int, n as int), p@, 0) {
            assert(s@.subrange(a as int, n as int).subrange(0, p@.len() as int) =~= s@.subrange(a as int, a + p@.len()));
        }
    }
    slice(s, a, n)
}

fn lower_ascii(s: &Vec<char>) -> (r: Vec<char>)
    ensures
        r@ == ascii_lower_seq(s@),
{
    let mut out: Vec<char> = Vec::new();
    let mut i: usize = 0;
    while i < s.len()
        invariant
            i <= s@.len(),
            out@.len() == i,
            forall|j: int| 0 <= j < i ==> out@[j] == ascii_lower_seq(s@)[j],
        decreases s@.len() - i,
    {
        let c = s[i];
        let l = lower_char_exec(c);
        out.push(l);
        i += 1;
    }
    assert(out@ =~= ascii_lower_seq(s@));
    out
}

/// Applies a standalone `export K=V` (or, with `on_windows`, `set K=V`) to the
/// session environment; any other command leaves it as it is. The caller
/// applies it only after the command succeeded.
pub fn update_env_from_command(command: &str, state: &mut ShellState, on_windows: bool)
    ensures
        final(state).cwd == old(state).cwd,
        match export_assignment(command@, on_windows) {
            Some((k, v)) => env_get(final(state).env_vars@, k) == Some(v) && forall|other: Seq<char>|
                other != k ==> env_get(final(state).env_vars@, other) == env_get(
                    old(state).env_vars@,
                    other,
                ),
            None => final(state).env_vars@ == old(state).env_vars@,
        },
{
    proof {
        reveal_strlit("export ");
        reveal_strlit("set ");
    }
    let cmd = chars_of(command);
    let export = chars_of("export ");
    if starts_with(&cmd, &export) {
        let stripped = strip_prefix_all_chars(&cmd, &export);
        let rest = trim_chars(&stripped);
        match index_of_char(&rest, '=') {
            Some(k) => {
                let key_part = slice(&rest, 0, k);
                let key = trim_chars(&key_part);
                let value_part = slice(&rest, k + 1, rest.len());
                let value_trimmed = trim_chars(&value_part);
                let value = unquote_chars(&value_trimmed);
                env_set(&mut state.env_vars, string_of(&key), string_of(&value));
            },
            None => {},
        }
        return;
    }
    if on_windows && cmd.len() >= 4 {
        let head = slice(&cmd, 0, 4);
        let lowered = lower_ascii(&head);
        let set = chars_of("set ");
        if chars_eq(&lowered, &set) {
            let tail = slice(&cmd, 4, cmd.len());
            let rest = trim_chars(&tail);
            match index_of_char(&rest, '=') {
                Some(k) => {
                    let key_part = slice(&rest, 0, k);
                    let key = trim_chars(&key_part);
                    let len = rest.len();
                    let value_part = slice(&rest, k + 1, len);
                    let value = trim_chars(&value_part);
                    env_set(&mut state.env_vars, string_of(&key), string_of(&value));
                },
                None => {},
            }
        }
    }
}

/// The most paths a search reports.
pub const GLOB_LIMIT: usize = 50;

pub open spec fn join_lines(paths: Seq<String>) -> Seq<char>
    decreases paths.len(),
{
    if paths.len() == 0 {
        Seq::empty()
    } else if paths.len() == 1 {
        paths[0]@
    } else {
        join_lines(paths.drop_last()) + "\n"@ + paths.last()@
    }
}

/// The report of a file search: up to `GLOB_LIMIT` paths, one per line, with
/// a truncation notice when there are more; a friendly message when there are none.
pub open spec fn glob_report(paths: Seq<String>) -> Seq<char> {
    if paths.len() == 0 {
        "No files found matching the pattern."@
    } else if paths.len() > GLOB_LIMIT {
        join_lines(paths.subrange(0, GLOB_LIMIT as int)) + "\n\n(Truncated. Showing 50 of "@ + dec(
            paths.len(),
        ) + " results. Refine your pattern.)"@
    } else {
        join_lines(paths)
    }
}

/// Formats the paths a search found.
pub fn format_glob_results(paths: &Vec<String>) -> (r: String)
    ensures
        r@ == glob_report(paths@),
{
    let count = paths.len();
    if count == 0 {
        return String::from_str("No files found matching the pattern.");
    }
    let shown = if count > GLOB_LIMIT { GLOB_LIMIT } else { count };
    let mut out: Vec<char> = Vec::new();
    let mut i: usize = 0;
    while i < shown
        invariant
            i <= shown <= count == paths@.len(),
            shown <= GLOB_LIMIT,
            out@ == join_lines(paths@.subrange(0, i as int)),
        decreases shown - i,
    {
        if i > 0 {
            append_str(&mut out, "\n");
        }
        append_str(&mut out, paths[i].as_str());
        proof {
            let s = paths@.subrange(0, i + 1);
            assert(s.drop_last() =~= paths@.subrange(0, i as int));
            assert(s.last() == paths@[i as int]);
            if i == 0 {
                assert(out@ =~= join_lines(s));
            }
        }
        i += 1;
    }
    if count > GLOB_LIMIT {
        append_str(&mut out, "\n\n(Truncated. Showing 50 of ");
        let d = decimal_chars(count as u64);
        append_chars(&mut out, &d);
        append_str(&mut out, " results. Refine your pattern.)");
    } else {
        assert(paths@.subrange(0, count as int) =~= paths@);
    }
    string_of(&out)
}

/// One todo entry.
pub struct TodoItem {
    pub id: String,
    pub content: String,
    /// One of `pending`, `in_progress`, `completed`, `cancelled`.
    pub status: String,
    /// One of `high`, `medium`, `low`.
    pub priority: String,
}

/// An item still to be done: neither completed nor cancelled.
pub open spec fn is_active(t: TodoItem) -> bool {
    t.status@ != "completed"@ && t.status@ != "cancelled"@
}

pub open spec fn active_count(todos: Seq<TodoItem>) -> nat
    decreases todos.len(),
{
    if todos.len() == 0 {
        0
    } else {
        active_count(todos.drop_last()) + if is_active(todos.last()) {
            1nat
        } else {
            0nat
        }
    }
}

/// How many items are still to be done.
pub fn count_active(todos: &Vec<TodoItem>) -> (r: usize)
    ensures
        r == active_count(todos@),
{
    let mut n: usize = 0;
    let mut i: usize = 0;
    while i < todos.len()
        invariant
            i <= todos@.len(),
            n == active_count(todos@.subrange(0, i as int)),
            n <= i,
        decreases todos@.len() - i,
    {
        let t = &todos[i];
        assert(todos@.subrange(0, i + 1).drop_last() =~= todos@.subrange(0, i as int));
        if !str_eq(t.status.as_str(), "completed") && !str_eq(t.status.as_str(), "cancelled") {
            n += 1;
        }
        i += 1;
    }
    assert(todos@.subrange(0, todos@.len() as int) =~= todos@);
    n
}

/// The report after the todo list was written.
pub fn todo_write_report(todos: &Vec<TodoItem>) -> (r: String)
    ensures
        r@ == "Todo list updated. "@ + dec(active_count(todos@)) + " active tasks remaining."@,
{
    let n = count_active(todos);
    let mut m = chars_of("Todo list updated. ");
    let d = decimal_chars(n as u64);
    append_chars(&mut m, &d);
    append_str(&mut m, " active tasks remaining.");
    string_of(&m)
}

} // verus!
