//! The script workstation: which files of the script workspace are scripts,
//! how a workspace path is resolved, and the commands that run a script on
//! this machine or inline in a remote shell.
//!
//! Paths are held as text. Those that the file system hands back are
//! canonical (absolute, with no `.`, `..` or repeated `/`), which is what
//! the path rules of `paths` assume.
use vstd::prelude::*;
use vstd::multiset::Multiset;
use crate::text::{
    chars_of, push_chars, push_str, string_from_chars, chars_eq_str, replace_char,
    replace_char_chars, trim_end_char, trim_end_char_chars, copy_range, last_index_of,
    lemma_last_index_of,
};
use crate::paths::{
    join_path, join_str, file_name, extension, path_starts_with, strip_root, file_name_chars,
    extension_chars, path_starts_with_chars, strip_root_chars,
};
use crate::order::{Keyed, lex_le, keys_sorted, sort_by_key, into_items, stable_sort_by};
use crate::fresh::{timestamp_of, timestamp_from_seconds};
use crate::models::{ScriptEntrySummary, ScriptEntryDetail, ScriptExecutionResult};

verus! {

broadcast use vstd::seq_lib::group_to_multiset_ensures;

/// The kind of script a path names, by its extension: `python` for `.py`,
/// `shell` for `.sh`, else `unknown`.
pub open spec fn kind_of(p: Seq<char>) -> Seq<char> {
    if extension(p) == Some("py"@) {
        "python"@
    } else if extension(p) == Some("sh"@) {
        "shell"@
    } else {
        "unknown"@
    }
}

/// The workspace runs `.py` and `.sh` files.
pub open spec fn is_supported(p: Seq<char>) -> bool {
    extension(p) == Some("py"@) || extension(p) == Some("sh"@)
}

/// Whether `path` names a script the workspace runs.
pub fn is_supported_script(path: &str) -> (res: bool)
    ensures
        res == is_supported(path@),
{
    let p = chars_of(path);
    match extension_chars(&p) {
        Some(e) => chars_eq_str(&e, "py") || chars_eq_str(&e, "sh"),
        None => false,
    }
}

/// The kind of script `path` names.
pub fn script_kind(path: &str) -> (res: &'static str)
    ensures
        res@ == kind_of(path@),
{
    let p = chars_of(path);
    match extension_chars(&p) {
        Some(e) => {
            if chars_eq_str(&e, "py") {
                "python"
            } else if chars_eq_str(&e, "sh") {
                "shell"
            } else {
                "unknown"
            }
        },
        None => "unknown",
    }
}

/// Why a script request was refused.
#[derive(Debug)]
pub enum ScriptError {
    /// The requested path does not exist; it holds the path as resolved
    /// against the workspace root.
    NotFound(String),
    /// The workspace root could not be resolved; it holds the root.
    RootUnavailable(String),
    /// The path lies outside the workspace root.
    EscapesRoot,
    /// The path is not a `.py` or `.sh` file.
    UnsupportedType,
}

impl ScriptError {
    /// The message that the error is reported with.
    pub fn message(&self) -> (res: String)
        ensures
            res@ == self.spec_message(),
    {
        match self {
            ScriptError::NotFound(p) => {
                let mut out: Vec<char> = Vec::new();
                push_str(&mut out, "script path not found: ");
                push_str(&mut out, p.as_str());
                string_from_chars(&out)
            },
            ScriptError::RootUnavailable(r) => {
                let mut out: Vec<char> = Vec::new();
                push_str(&mut out, "failed to canonicalize script workspace root: ");
                push_str(&mut out, r.as_str());
                string_from_chars(&out)
            },
            ScriptError::EscapesRoot => "script path escapes workspace root".to_owned(),
            ScriptError::UnsupportedType => "unsupported script type".to_owned(),
        }
    }

    /// The message text of each error.
    pub open spec fn spec_message(&self) -> Seq<char> {
        match self {
            ScriptError::NotFound(p) => "script path not found: "@ + p@,
            ScriptError::RootUnavailable(r) => "failed to canonicalize script workspace root: "@
                + r@,
            ScriptError::EscapesRoot => "script path escapes workspace root"@,
            ScriptError::UnsupportedType => "unsupported script type"@,
        }
    }
}

/// The interpreter that runs a script of the given kind, with no extra
/// arguments before the script; `None` for an unknown kind.
pub open spec fn interpreter_for(p: Seq<char>) -> Option<Seq<char>> {
    if kind_of(p) == "python"@ {
        Some("python3"@)
    } else if kind_of(p) == "shell"@ {
        Some("bash"@)
    } else {
        None
    }
}

/// The program and leading arguments that run the script at `path`.
pub fn command_for_script(path: &str) -> (res: Result<(&'static str, Vec<String>), ScriptError>)
    ensures
        match res {
            Ok((program, base)) => interpreter_for(path@) == Some(program@) && base@.len() == 0,
            Err(e) => interpreter_for(path@) is None && e == ScriptError::UnsupportedType,
        },
{
    let kind = script_kind(path);
    proof {
        reveal_strlit("python");
        reveal_strlit("shell");
        reveal_strlit("unknown");
    }
    let k = chars_of(kind);
    if chars_eq_str(&k, "python") {
        Ok(("python3", Vec::new()))
    } else if chars_eq_str(&k, "shell") {
        Ok(("bash", Vec::new()))
    } else {
        Err(ScriptError::UnsupportedType)
    }
}

/// The command that runs `content` inline in a remote shell: a here-document
/// fed to `python3 -` or `bash -s`, with the trailing newlines of the content
/// dropped; any other kind gives the content itself.
pub open spec fn remote_command(kind: Seq<char>, content: Seq<char>) -> Seq<char> {
    if kind == "python"@ {
        "python3 - <<'PY'\n"@ + trim_end_char(content, '\n') + "\nPY"@
    } else if kind == "shell"@ {
        "bash -s <<'SH'\n"@ + trim_end_char(content, '\n') + "\nSH"@
    } else {
        content
    }
}

/// The command that runs a script's content inline in a remote shell.
pub fn build_remote_command(kind: &str, content: &str) -> (res: String)
    ensures
        res@ == remote_command(kind@, content@),
{
    let k = chars_of(kind);
    let c = chars_of(content);
    if chars_eq_str(&k, "python") {
        let body = trim_end_char_chars(&c, '\n');
        let mut out: Vec<char> = Vec::new();
        push_str(&mut out, "python3 - <<'PY'\n");
        push_chars(&mut out, &body);
        push_str(&mut out, "\nPY");
        string_from_chars(&out)
    } else if chars_eq_str(&k, "shell") {
        let body = trim_end_char_chars(&c, '\n');
        let mut out: Vec<char> = Vec::new();
        push_str(&mut out, "bash -s <<'SH'\n");
        push_chars(&mut out, &body);
        push_str(&mut out, "\nSH");
        string_from_chars(&out)
    } else {
        string_from_chars(&c)
    }
}

/// A character that a POSIX shell reads literally outside quotes: an ASCII
/// letter or digit, or one of `/ . _ - :`.
pub open spec fn is_shell_safe(c: char) -> bool {
    let u = c as u32;
    ||| 97 <= u <= 122
    ||| 65 <= u <= 90
    ||| 48 <= u <= 57
    ||| c == '/'
    ||| c == '.'
    ||| c == '_'
    ||| c == '-'
    ||| c == ':'
}

/// Tests `is_shell_safe`.
pub fn char_is_shell_safe(c: char) -> (res: bool)
    ensures
        res == is_shell_safe(c),
{
    let u = c as u32;
    (97 <= u && u <= 122) || (65 <= u && u <= 90) || (48 <= u && u <= 57) || c == '/' || c
        == '.' || c == '_' || c == '-' || c == ':'
}

/// Every character of `v` is read literally by a shell.
pub open spec fn all_shell_safe(v: Seq<char>) -> bool {
    forall|i: int| 0 <= i < v.len() ==> is_shell_safe(#[trigger] v[i])
}

/// The single shell word for `v`: `''` for the empty text, `v` itself where
/// every character is safe, else `v` in single quotes with each `'`
/// written as `'"'"'`.
pub open spec fn shell_quoted(v: Seq<char>) -> Seq<char> {
    if v.len() == 0 {
        "''"@
    } else if all_shell_safe(v) {
        v
    } else {
        quote_wrapped(v)
    }
}

/// The characters that write a `'` inside single quotes: close the quotes,
/// a double-quoted `'`, and open them again.
pub open spec fn quote_escape() -> Seq<char> {
    seq!['\'', '"', '\'', '"', '\'']
}

/// `v` in single quotes, each `'` written as `'"'"'`.
pub open spec fn quote_wrapped(v: Seq<char>) -> Seq<char> {
    seq!['\''] + replace_char(v, '\'', quote_escape()) + seq!['\'']
}

/// Quotes `value` as one shell word.
pub fn shell_quote(value: &str) -> (res: String)
    ensures
        res@ == shell_quoted(value@),
{
    let v = chars_of(value);
    if v.len() == 0 {
        return "''".to_owned();
    }
    let mut i: usize = 0;
    let mut safe = true;
    while i < v.len()
        invariant
            i <= v@.len(),
            safe == (forall|k: int| 0 <= k < i ==> is_shell_safe(#[trigger] v@[k])),
        decreases v@.len() - i,
    {
        if !char_is_shell_safe(v[i]) {
            safe = false;
        }
        i = i + 1;
    }
    if safe {
        string_from_chars(&v)
    } else {
        let pattern = chars_of("'\"'\"'");
        proof {
            reveal_strlit("'\"'\"'");
            assert(pattern@ =~= quote_escape());
        }
        let inner = replace_char_chars(&v, '\'', &pattern);
        let mut out: Vec<char> = Vec::new();
        out.push('\'');
        push_chars(&mut out, &inner);
        out.push('\'');
        assert(out@ =~= quote_wrapped(v@));
        string_from_chars(&out)
    }
}

/// The command line that runs the script at `path` on this machine.
pub open spec fn local_runner(path: Seq<char>) -> Seq<char> {
    if kind_of(path) == "python"@ {
        "python3 "@ + shell_quoted(path)
    } else if kind_of(path) == "shell"@ {
        "bash "@ + shell_quoted(path)
    } else {
        shell_quoted(path)
    }
}

/// The command line that runs the script at `path` on this machine.
pub fn build_local_runner(path: &str) -> (res: String)
    ensures
        res@ == local_runner(path@),
{
    let quoted = shell_quote(path);
    let kind = script_kind(path);
    let k = chars_of(kind);
    if chars_eq_str(&k, "python") {
        let mut out: Vec<char> = Vec::new();
        push_str(&mut out, "python3 ");
        push_str(&mut out, quoted.as_str());
        string_from_chars(&out)
    } else if chars_eq_str(&k, "shell") {
        let mut out: Vec<char> = Vec::new();
        push_str(&mut out, "bash ");
        push_str(&mut out, quoted.as_str());
        string_from_chars(&out)
    } else {
        quoted
    }
}

/// The texts of a sequence of strings.
pub open spec fn texts(v: Seq<String>) -> Seq<Seq<char>> {
    v.map_values(|s: String| s@)
}

/// Words joined with single spaces.
pub open spec fn join_words(words: Seq<Seq<char>>) -> Seq<char>
    decreases words.len(),
{
    if words.len() == 0 {
        Seq::empty()
    } else if words.len() == 1 {
        words[0]
    } else {
        join_words(words.drop_last()) + " "@ + words.last()
    }
}

/// The words of a local run as it is shown: the program, its leading
/// arguments as they are, the quoted script path and the quoted arguments.
pub open spec fn command_words(
    program: Seq<char>,
    base_args: Seq<Seq<char>>,
    target: Seq<char>,
    args: Seq<Seq<char>>,
) -> Seq<Seq<char>> {
    seq![program] + base_args + seq![shell_quoted(target)] + args.map_values(
        |a: Seq<char>| shell_quoted(a),
    )
}

/// Joins words with single spaces.
pub fn join_words_exec(words: &Vec<Vec<char>>) -> (res: Vec<char>)
    ensures
        res@ == join_words(words@.map_values(|w: Vec<char>| w@)),
{
    let ghost ws = words@.map_values(|w: Vec<char>| w@);
    let mut out: Vec<char> = Vec::new();
    let mut i: usize = 0;
    while i < words.len()
        invariant
            i <= words@.len(),
            ws == words@.map_values(|w: Vec<char>| w@),
            out@ == join_words(ws.take(i as int)),
        decreases words@.len() - i,
    {
        proof {
            reveal_strlit(" ");
            assert(ws.take(i + 1).drop_last() =~= ws.take(i as int));
        }
        if i > 0 {
            out.push(' ');
        }
        push_chars(&mut out, &words[i]);
        proof {
            if i == 0 {
                assert(out@ =~= ws.take(1)[0]);
            } else {
                assert(out@ =~= join_words(ws.take(i as int)) + " "@ + ws.take(i + 1).last());
            }
        }
        i = i + 1;
    }
    assert(ws.take(i as int) =~= ws);
    out
}

/// The command line shown for a local run.
pub fn render_command(program: &str, base_args: &Vec<String>, target: &str, args: &Vec<String>) -> (res: String)
    ensures
        res@ == join_words(command_words(program@, texts(base_args@), target@, texts(args@))),
{
    let ghost expected = command_words(program@, texts(base_args@), target@, texts(args@));
    let ghost nb = base_args@.len() as int;
    assert(expected.len() == 2 + nb + args@.len());
    let mut words: Vec<Vec<char>> = Vec::new();
    words.push(chars_of(program));
    let mut i: usize = 0;
    while i < base_args.len()
        invariant
            expected == command_words(program@, texts(base_args@), target@, texts(args@)),
            nb == base_args@.len(),
            i <= nb,
            words@.len() == 1 + i,
            forall|k: int| 0 <= k < words@.len() ==> #[trigger] words@[k]@ == expected[k],
        decreases base_args@.len() - i,
    {
        words.push(chars_of(base_args[i].as_str()));
        assert(expected[1 + i as int] == base_args@[i as int]@);
        i = i + 1;
    }
    let quoted_target = shell_quote(target);
    words.push(chars_of(quoted_target.as_str()));
    assert(expected[1 + nb] == shell_quoted(target@));
    let mut j: usize = 0;
    while j < args.len()
        invariant
            expected == command_words(program@, texts(base_args@), target@, texts(args@)),
            nb == base_args@.len(),
            j <= args@.len(),
            words@.len() == 2 + nb + j,
            forall|k: int| 0 <= k < words@.len() ==> #[trigger] words@[k]@ == expected[k],
        decreases args@.len() - j,
    {
        let q = shell_quote(args[j].as_str());
        words.push(chars_of(q.as_str()));
        assert(expected[2 + nb + j] == shell_quoted(args@[j as int]@));
        j = j + 1;
    }
    assert(words@.map_values(|w: Vec<char>| w@) =~= expected);
    let joined = join_words_exec(&words);
    string_from_chars(&joined)
}

/// A script summary as plain values.
pub struct ScriptEntryView {
    pub id: Seq<char>,
    pub name: Seq<char>,
    pub path: Seq<char>,
    pub kind: Seq<char>,
    pub relative_path: Seq<char>,
    pub size_bytes: u64,
    pub modified_at: i64,
}

/// The plain values of a script summary.
pub open spec fn entry_view(s: ScriptEntrySummary) -> ScriptEntryView {
    ScriptEntryView {
        id: s.id@,
        name: s.name@,
        path: s.path@,
        kind: s.kind@,
        relative_path: s.relative_path@,
        size_bytes: s.size_bytes,
        modified_at: s.modified_at,
    }
}

/// A file that the workspace walk found, with what its metadata says.
pub struct ScriptFile {
    pub path: String,
    pub size_bytes: u64,
    pub modified_secs: Option<u64>,
}

/// A path relative to the workspace root, or the path itself where it does
/// not lie below the root.
pub open spec fn relative_to(root: Seq<char>, p: Seq<char>) -> Seq<char> {
    match strip_root(p, root) {
        Some(r) => r,
        None => p,
    }
}

/// The summary of the script at `p` in the workspace rooted at `root`: it
/// is identified by its path relative to the root, named by its file name
/// (or that relative path), and keeps its size and modification time.
pub open spec fn summary_for(root: Seq<char>, p: Seq<char>, size_bytes: u64, modified_secs: Option<u64>) -> ScriptEntryView {
    let rel = relative_to(root, p);
    ScriptEntryView {
        id: rel,
        name: match file_name(p) {
            Some(n) => n,
            None => rel,
        },
        path: p,
        kind: kind_of(p),
        relative_path: rel,
        size_bytes,
        modified_at: timestamp_of(modified_secs),
    }
}

/// What a request for `path` resolves to, given what canonicalizing the
/// requested path and the root gave: not found, root unavailable, outside
/// the root, not a script, or the canonical path.
pub open spec fn resolved_script(
    root: Seq<char>,
    path: Seq<char>,
    canonical_target: Option<Seq<char>>,
    canonical_root: Option<Seq<char>>,
) -> Result<Seq<char>, ScriptErrorView> {
    match canonical_target {
        None => Err(ScriptErrorView::NotFound(join_path(root, path))),
        Some(t) => match canonical_root {
            None => Err(ScriptErrorView::RootUnavailable(root)),
            Some(r) => if !path_starts_with(t, r) {
                Err(ScriptErrorView::EscapesRoot)
            } else if !is_supported(t) {
                Err(ScriptErrorView::UnsupportedType)
            } else {
                Ok(t)
            },
        },
    }
}

/// A script error as plain values.
pub enum ScriptErrorView {
    NotFound(Seq<char>),
    RootUnavailable(Seq<char>),
    EscapesRoot,
    UnsupportedType,
}

/// The plain values of a script error.
pub open spec fn error_view(e: ScriptError) -> ScriptErrorView {
    match e {
        ScriptError::NotFound(p) => ScriptErrorView::NotFound(p@),
        ScriptError::RootUnavailable(r) => ScriptErrorView::RootUnavailable(r@),
        ScriptError::EscapesRoot => ScriptErrorView::EscapesRoot,
        ScriptError::UnsupportedType => ScriptErrorView::UnsupportedType,
    }
}

/// The characters of an optional string.
pub open spec fn opt_text(s: Option<String>) -> Option<Seq<char>> {
    match s {
        Some(v) => Some(v@),
        None => None,
    }
}

/// How a script is run on this machine: the program, its arguments, the
/// directory it runs in, and the command line shown for the run.
pub struct LocalRunPlan {
    pub program: String,
    pub args: Vec<String>,
    pub current_dir: String,
    pub command: String,
}

/// The script workspace: a directory whose `.py` and `.sh` files are
/// offered as scripts.
pub struct ScriptWorkspace {
    root_dir: String,
}

impl ScriptWorkspace {
    /// The workspace root.
    pub closed spec fn root_view(&self) -> Seq<char> {
        self.root_dir@
    }

    /// A workspace rooted at `root_dir`.
    pub fn new(root_dir: String) -> (res: ScriptWorkspace)
        ensures
            res.root_view() == root_dir@,
    {
        ScriptWorkspace { root_dir }
    }

    /// The workspace root.
    pub fn root_dir(&self) -> (res: &str)
        ensures
            res@ == self.root_view(),
    {
        self.root_dir.as_str()
    }

    /// The path a request for `path` names before it is canonicalized: an
    /// absolute path as it is, a relative one below the root.
    pub fn candidate_path(&self, path: &str) -> (res: String)
        ensures
            res@ == join_path(self.root_view(), path@),
    {
        join_str(self.root_dir.as_str(), path)
    }

    /// Resolves a request for `path`, given the canonical forms of its
    /// candidate path and of the root (`None` where canonicalizing failed):
    /// the canonical path of a `.py` or `.sh` file at or below the root.
    pub fn resolve_script_path(
        &self,
        path: &str,
        canonical_target: Option<String>,
        canonical_root: Option<String>,
    ) -> (res: Result<String, ScriptError>)
        ensures
            match res {
                Ok(t) => resolved_script(self.root_view(), path@, opt_text(canonical_target), opt_text(canonical_root)) == Ok::<Seq<char>, ScriptErrorView>(t@),
                Err(e) => resolved_script(self.root_view(), path@, opt_text(canonical_target), opt_text(canonical_root)) == Err::<Seq<char>, ScriptErrorView>(error_view(e)),
            },
            (canonical_target is Some && canonical_root is Some && path_starts_with(
                canonical_target->Some_0@,
                canonical_root->Some_0@,
            ) && is_supported(canonical_target->Some_0@)) ==> (res is Ok && res->Ok_0@
                == canonical_target->Some_0@),
            res is Ok ==> (canonical_target is Some && canonical_root is Some && path_starts_with(
                res->Ok_0@,
                canonical_root->Some_0@,
            ) && is_supported(res->Ok_0@) && res->Ok_0@ == canonical_target->Some_0@),
    {
        let target = match canonical_target {
            None => {
                return Err(ScriptError::NotFound(self.candidate_path(path)));
            },
            Some(t) => t,
        };
        let root = match canonical_root {
            None => {
                return Err(ScriptError::RootUnavailable(self.root_dir.clone()));
            },
            Some(r) => r,
        };
        let tc = chars_of(target.as_str());
        let rc = chars_of(root.as_str());
        if !path_starts_with_chars(&tc, &rc) {
            return Err(ScriptError::EscapesRoot);
        }
        if !is_supported_script(target.as_str()) {
            return Err(ScriptError::UnsupportedType);
        }
        Ok(target)
    }

    /// The summary of the script at `path`, given its size and modification
    /// time.
    pub fn build_summary(&self, path: &str, size_bytes: u64, modified_secs: Option<u64>) -> (res: ScriptEntrySummary)
        ensures
            entry_view(res) == summary_for(self.root_view(), path@, size_bytes, modified_secs),
    {
        let p = chars_of(path);
        let root = chars_of(self.root_dir.as_str());
        let rel = match strip_root_chars(&p, &root) {
            Some(r) => r,
            None => copy_all(&p),
        };
        let name = match file_name_chars(&p) {
            Some(n) => n,
            None => copy_all(&rel),
        };
        ScriptEntrySummary {
            id: string_from_chars(&rel),
            name: string_from_chars(&name),
            path: path.to_owned(),
            kind: script_kind(path).to_owned(),
            relative_path: string_from_chars(&rel),
            size_bytes,
            modified_at: timestamp_from_seconds(modified_secs),
        }
    }

    /// The scripts among the files the walk found, summarized and ordered by
    /// relative path: the summaries of the `.py` and `.sh` files, stably
    /// sorted in lexicographic order of their relative paths.
    pub fn list_scripts(&self, files: Vec<ScriptFile>) -> (res: Vec<ScriptEntrySummary>)
        ensures
            res@.map_values(|s: ScriptEntrySummary| entry_view(s)) == stable_sort_by(
                listed_scripts(self.root_view(), files@),
                |v: ScriptEntryView| v.relative_path,
            ),
            forall|i: int, j: int|
                0 <= i < j < res@.len() ==> lex_le(
                    #[trigger] res@[i].relative_path@,
                    #[trigger] res@[j].relative_path@,
                ),
            forall|k: int|
                0 <= k < res@.len() ==> from_walked_script(self.root_view(), files@, #[trigger] entry_view(res@[k])),
            forall|j: int|
                0 <= j < files@.len() && is_supported(#[trigger] files@[j].path@) ==> lists_file(
                    self.root_view(),
                    res@.map_values(|s: ScriptEntrySummary| entry_view(s)),
                    files@[j],
                ),
    {
        let ghost root = self.root_view();
        let ghost f = |k: Keyed<ScriptEntrySummary>| entry_view(k.item);
        let mut keyed: Vec<Keyed<ScriptEntrySummary>> = Vec::new();
        let mut i: usize = 0;
        while i < files.len()
            invariant
                i <= files@.len(),
                root == self.root_view(),
                f == (|k: Keyed<ScriptEntrySummary>| entry_view(k.item)),
                keyed@.map_values(f) =~= listed_scripts(root, files@.take(i as int)),
                forall|k: int| 0 <= k < keyed@.len() ==> (#[trigger] keyed@[k]).key@ == keyed@[k].item.relative_path@,
            decreases files@.len() - i,
        {
            let file = &files[i];
            proof {
                assert(files@.take(i + 1).drop_last() =~= files@.take(i as int));
            }
            if is_supported_script(file.path.as_str()) {
                let summary = self.build_summary(file.path.as_str(), file.size_bytes, file.modified_secs);
                let key = chars_of(summary.relative_path.as_str());
                keyed.push(Keyed { key, item: summary });
            }
            i = i + 1;
        }
        proof {
            assert(files@.take(files@.len() as int) =~= files@);
        }
        let ghost unsorted = keyed@;
        let ghost key_of = |v: ScriptEntryView| v.relative_path;
        let sorted = sort_by_key::<ScriptEntrySummary, ScriptEntryView>(keyed, Ghost(f), Ghost(key_of));
        let ghost all = sorted@;
        let res = into_items(sorted);
        proof {
            assert(res@.map_values(|s: ScriptEntrySummary| entry_view(s)) =~= all.map_values(f));
            assert forall|i: int, j: int| 0 <= i < j < res@.len() implies lex_le(
                #[trigger] res@[i].relative_path@,
                #[trigger] res@[j].relative_path@,
            ) by {
                assert(lex_le(all[i].key@, all[j].key@));
                assert(all.contains(all[i]));
                assert(all.contains(all[j]));
                assert(all.to_multiset().count(all[i]) > 0);
                assert(unsorted.to_multiset().count(all[i]) > 0);
                assert(unsorted.to_multiset().count(all[j]) > 0);
                assert(unsorted.contains(all[i]));
                assert(unsorted.contains(all[j]));
            }
            crate::listing_laws::listed_scripts_are_the_walked_scripts(self.root_view(), files@);
            let out = script_listing(self.root_view(), files@);
            assert(res@.map_values(|s: ScriptEntrySummary| entry_view(s)) == out);
            assert forall|k: int| 0 <= k < res@.len() implies from_walked_script(
                self.root_view(),
                files@,
                #[trigger] entry_view(res@[k]),
            ) by {
                assert(entry_view(res@[k]) == out[k]);
            }
        }
        res
    }

    /// A script with its content and the commands that run it: inline in a
    /// remote shell, and on this machine.
    pub fn script_detail(
        &self,
        target: &str,
        size_bytes: u64,
        modified_secs: Option<u64>,
        content: String,
    ) -> (res: ScriptEntryDetail)
        ensures
            entry_view(res.summary) == summary_for(self.root_view(), target@, size_bytes, modified_secs),
            res.content@ == content@,
            res.suggested_remote_command@ == remote_command(kind_of(target@), content@),
            res.local_runner@ == local_runner(target@),
    {
        let summary = self.build_summary(target, size_bytes, modified_secs);
        let kind = script_kind(target);
        let remote = build_remote_command(kind, content.as_str());
        let runner = build_local_runner(target);
        ScriptEntryDetail { summary, content, suggested_remote_command: remote, local_runner: runner }
    }

    /// How to run the resolved script `target` with the given arguments:
    /// its interpreter, the script path then the arguments, in the workspace
    /// root. Refused for a path that is not a script.
    pub fn local_run_plan(&self, target: &str, args: Option<Vec<String>>) -> (res: Result<LocalRunPlan, ScriptError>)
        ensures
            match res {
                Ok(plan) => {
                    let a = match args {
                        Some(v) => texts(v@),
                        None => Seq::<Seq<char>>::empty(),
                    };
                    &&& interpreter_for(target@) == Some(plan.program@)
                    &&& texts(plan.args@) == seq![target@] + a
                    &&& plan.current_dir@ == self.root_view()
                    &&& plan.command@ == join_words(command_words(plan.program@, Seq::empty(), target@, a))
                },
                Err(e) => interpreter_for(target@) is None && e == ScriptError::UnsupportedType,
            },
    {
        let args = match args {
            Some(v) => v,
            None => Vec::new(),
        };
        let (program, base) = match command_for_script(target) {
            Ok(pb) => pb,
            Err(e) => {
                return Err(e);
            },
        };
        let command = render_command(program, &base, target, &args);
        assert(texts(base@) =~= Seq::<Seq<char>>::empty());
        let mut argv: Vec<String> = Vec::new();
        argv.push(target.to_owned());
        let mut i: usize = 0;
        while i < args.len()
            invariant
                i <= args@.len(),
                argv@.len() == 1 + i,
                argv@[0]@ == target@,
                forall|k: int| 0 <= k < i ==> #[trigger] argv@[1 + k]@ == args@[k]@,
            decreases args@.len() - i,
        {
            argv.push(args[i].clone());
            i = i + 1;
        }
        assert(texts(argv@) =~= seq![target@] + texts(args@)) by {
            assert forall|k: int| 0 <= k < argv@.len() implies #[trigger] texts(argv@)[k] == (seq![target@] + texts(args@))[k] by {
                if k > 0 {
                    assert(argv@[1 + (k - 1)]@ == args@[k - 1]@);
                }
            }
        }
        Ok(LocalRunPlan { program: program.to_owned(), args: argv, current_dir: self.root_dir.clone(), command })
    }
}

/// The summaries the workspace lists for the files a walk found, in walk
/// order: one for each `.py` or `.sh` file.
pub open spec fn listed_scripts(root: Seq<char>, files: Seq<ScriptFile>) -> Seq<ScriptEntryView>
    decreases files.len(),
{
    if files.len() == 0 {
        Seq::empty()
    } else {
        let f = files.last();
        let before = listed_scripts(root, files.drop_last());
        if is_supported(f.path@) {
            before.push(summary_for(root, f.path@, f.size_bytes, f.modified_secs))
        } else {
            before
        }
    }
}

/// The script listing of the walked files: their script summaries in
/// stable order of relative path.
pub open spec fn script_listing(root: Seq<char>, files: Seq<ScriptFile>) -> Seq<ScriptEntryView> {
    stable_sort_by(listed_scripts(root, files), |v: ScriptEntryView| v.relative_path)
}

/// `v` is the summary of walked file `f`: its path, size and modification
/// time as the walk reported them, its path relative to the root and its
/// kind, as `build_summary` makes it.
pub open spec fn walked_summary(root: Seq<char>, f: ScriptFile, v: ScriptEntryView) -> bool {
    &&& v.path == f.path@
    &&& v.size_bytes == f.size_bytes
    &&& v.modified_at == timestamp_of(f.modified_secs)
    &&& v.relative_path == relative_to(root, f.path@)
    &&& v.kind == kind_of(f.path@)
    &&& v == summary_for(root, f.path@, f.size_bytes, f.modified_secs)
}

/// `v` is the summary of some walked `.py` or `.sh` file.
pub open spec fn from_walked_script(root: Seq<char>, files: Seq<ScriptFile>, v: ScriptEntryView) -> bool {
    exists|j: int| 0 <= j < files.len() && is_supported(files[j].path@) && #[trigger] walked_summary(root, files[j], v)
}

/// Some entry of `out` is the summary of walked file `f`.
pub open spec fn lists_file(root: Seq<char>, out: Seq<ScriptEntryView>, f: ScriptFile) -> bool {
    exists|k: int| 0 <= k < out.len() && #[trigger] walked_summary(root, f, out[k])
}

/// Each listed script is the summary of a walked `.py` or `.sh` file, and
/// each such file's summary is listed.
pub proof fn lemma_listed_scripts_sources(root: Seq<char>, files: Seq<ScriptFile>)
    ensures
        forall|k: int|
            #![trigger listed_scripts(root, files)[k]]
            0 <= k < listed_scripts(root, files).len() ==> exists|j: int|
                0 <= j < files.len() && is_supported(files[j].path@) && #[trigger] listed_scripts(root, files)[k]
                    == summary_for(root, files[j].path@, files[j].size_bytes, files[j].modified_secs),
        forall|j: int|
            0 <= j < files.len() && is_supported(#[trigger] files[j].path@) ==> listed_scripts(root, files).contains(
                summary_for(root, files[j].path@, files[j].size_bytes, files[j].modified_secs),
            ),
    decreases files.len(),
{
    if files.len() > 0 {
        let rest = files.drop_last();
        lemma_listed_scripts_sources(root, rest);
        let before = listed_scripts(root, rest);
        let all = listed_scripts(root, files);
        let n = files.len() - 1;
        assert forall|k: int| #![trigger all[k]] 0 <= k < all.len() implies exists|j: int|
            0 <= j < files.len() && is_supported(files[j].path@) && #[trigger] all[k]
                == summary_for(root, files[j].path@, files[j].size_bytes, files[j].modified_secs) by {
            if k < before.len() {
                assert(all[k] == before[k]);
                let j = choose|j: int| 0 <= j < rest.len() && is_supported(rest[j].path@) && #[trigger] before[k]
                    == summary_for(root, rest[j].path@, rest[j].size_bytes, rest[j].modified_secs);
                assert(rest[j] == files[j]);
            } else {
                assert(files[n] == files.last());
            }
        }
        assert forall|j: int| 0 <= j < files.len() && is_supported(#[trigger] files[j].path@) implies all.contains(
            summary_for(root, files[j].path@, files[j].size_bytes, files[j].modified_secs),
        ) by {
            let v = summary_for(root, files[j].path@, files[j].size_bytes, files[j].modified_secs);
            if j < n {
                assert(rest[j] == files[j]);
                assert(is_supported(rest[j].path@));
                assert(before.contains(v));
                let k = choose|k: int| 0 <= k < before.len() && before[k] == v;
                assert(all[k] == v);
            } else {
                assert(files[j] == files.last());
                assert(all[all.len() - 1] == v);
            }
        }
    }
}

/// What a run produced: its command line, the exit code (`-1` where the
/// process gave none, as when a signal ended it), and its output.
pub fn execution_result(command: String, exit_code: Option<i32>, stdout: String, stderr: String) -> (res: ScriptExecutionResult)
    ensures
        res.command@ == command@,
        res.exit_code == match exit_code {
            Some(c) => c,
            None => -1i32,
        },
        res.stdout@ == stdout@,
        res.stderr@ == stderr@,
{
    let code = match exit_code {
        Some(c) => c,
        None => -1,
    };
    ScriptExecutionResult { command, exit_code: code, stdout, stderr }
}

/// A copy of a character vector.
fn copy_all(v: &Vec<char>) -> (res: Vec<char>)
    ensures
        res@ == v@,
{
    copy_range(v, 0, v.len())
}

/// A character that keeps a special meaning inside double quotes.
pub open spec fn is_double_quote_special(c: char) -> bool {
    c == '"' || c == '\\' || c == '$' || c == '`'
}

/// The value a POSIX shell gives a word made of unquoted safe characters,
/// single-quoted parts and double-quoted parts without special characters;
/// `None` for any other word. The word is read from its end: a closing
/// quote is matched with the nearest quote of its kind before it.
pub open spec fn shell_word_value(w: Seq<char>) -> Option<Seq<char>>
    decreases w.len(),
{
    if w.len() == 0 {
        Some(Seq::empty())
    } else {
        let c = w.last();
        let body = w.drop_last();
        if c == '\'' || c == '"' {
            let j = last_index_of(body, c);
            proof {
                lemma_last_index_of(body, c);
            }
            let inner = body.skip(j + 1);
            if j < 0 {
                None
            } else if c == '"' && exists|i: int| 0 <= i < inner.len() && is_double_quote_special(#[trigger] inner[i]) {
                None
            } else {
                match shell_word_value(w.take(j)) {
                    Some(v) => Some(v + inner),
                    None => None,
                }
            }
        } else if is_shell_safe(c) {
            match shell_word_value(body) {
                Some(v) => Some(v.push(c)),
                None => None,
            }
        } else {
            None
        }
    }
}

} // verus!
