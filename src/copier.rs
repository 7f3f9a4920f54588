//! Which files a directory copy takes, where each one goes, and how the results of
//! the single-file copies are counted.
//!
//! Paths are `/`-separated text. Development files are left out unless asked for:
//! anything under a development directory, files with a development file name, and
//! files with a development extension, compared without regard to ASCII case.

use vstd::prelude::*;

use crate::error::DeployError;
use crate::text::{chars_eq, chars_of, join_path, occurs_at, occurs_at_exec, path_join, starts_with};
use crate::theme::is_upper;

verus! {

/// Directory names whose contents are development files.
pub open spec fn dev_directories() -> Seq<Seq<char>> {
    seq!["node_modules"@, ".git"@, ".svn"@, ".hg"@]
}

/// File names of development files: package manifests and locks, licences, read-me and
/// change logs, and configuration of linters and build tools.
pub open spec fn dev_files() -> Seq<Seq<char>> {
    seq![
        "package.json"@,
        "package-lock.json"@,
        "yarn.lock"@,
        "pnpm-lock.yaml"@,
        "composer.json"@,
        "composer.lock"@,
        "tsconfig.json"@,
        "tsconfig.base.json"@,
        "tsconfig.build.json"@,
        "LICENSE"@,
        "LICENSE.md"@,
        "LICENSE.txt"@,
        "MIT-LICENSE"@,
        "README"@,
        "README.md"@,
        "README.txt"@,
        "CHANGELOG"@,
        "CHANGELOG.md"@,
        "HISTORY.md"@,
        "CONTRIBUTING.md"@,
        ".gitignore"@,
        ".npmignore"@,
        ".npmrc"@,
        ".yarnrc"@,
        ".eslintrc"@,
        ".eslintrc.js"@,
        ".eslintrc.json"@,
        ".eslintrc.cjs"@,
        ".prettierrc"@,
        ".prettierrc.js"@,
        ".prettierrc.json"@,
        ".editorconfig"@,
        ".jshintrc"@,
        ".babelrc"@,
        ".babelrc.js"@,
        ".babelrc.json"@,
        "babel.config.js"@,
        "babel.config.json"@,
        ".nycrc"@,
        ".nycrc.json"@,
        "jest.config.js"@,
        "jest.config.json"@,
        "karma.conf.js"@,
        "webpack.config.js"@,
        "rollup.config.js"@,
        "vite.config.js"@,
        "vite.config.ts"@,
        ".browserslistrc"@,
        ".stylelintrc"@,
        ".stylelintrc.json"@,
        "Makefile"@,
        "Gruntfile.js"@,
        "Gulpfile.js"@,
    ]
}

/// Extensions of development files: script and style sources, documentation, YAML,
/// lock files and tool configuration.
pub open spec fn dev_extensions() -> Seq<Seq<char>> {
    seq![
        "ts"@,
        "tsx"@,
        "mts"@,
        "cts"@,
        "less"@,
        "scss"@,
        "sass"@,
        "md"@,
        "markdown"@,
        "yml"@,
        "yaml"@,
        "lock"@,
        "npmignore"@,
        "gitignore"@,
        "eslintrc"@,
        "prettierrc"@,
        "editorconfig"@,
        "jshintrc"@,
        "nycrc"@,
        "babelrc"@,
        "flowconfig"@,
    ]
}

fn dev_directory_list() -> (r: Vec<&'static str>)
    ensures
        r@.len() == dev_directories().len(),
        forall|i: int| 0 <= i < r@.len() ==> (#[trigger] r@[i])@ == dev_directories()[i],
{
    vec!["node_modules", ".git", ".svn", ".hg"]
}

fn dev_file_list() -> (r: Vec<&'static str>)
    ensures
        r@.len() == dev_files().len(),
        forall|i: int| 0 <= i < r@.len() ==> (#[trigger] r@[i])@ == dev_files()[i],
{
    vec![
        "package.json",
        "package-lock.json",
        "yarn.lock",
        "pnpm-lock.yaml",
        "composer.json",
        "composer.lock",
        "tsconfig.json",
        "tsconfig.base.json",
        "tsconfig.build.json",
        "LICENSE",
        "LICENSE.md",
        "LICENSE.txt",
        "MIT-LICENSE",
        "README",
        "README.md",
        "README.txt",
        "CHANGELOG",
        "CHANGELOG.md",
        "HISTORY.md",
        "CONTRIBUTING.md",
        ".gitignore",
        ".npmignore",
        ".npmrc",
        ".yarnrc",
        ".eslintrc",
        ".eslintrc.js",
        ".eslintrc.json",
        ".eslintrc.cjs",
        ".prettierrc",
        ".prettierrc.js",
        ".prettierrc.json",
        ".editorconfig",
        ".jshintrc",
        ".babelrc",
        ".babelrc.js",
        ".babelrc.json",
        "babel.config.js",
        "babel.config.json",
        ".nycrc",
        ".nycrc.json",
        "jest.config.js",
        "jest.config.json",
        "karma.conf.js",
        "webpack.config.js",
        "rollup.config.js",
        "vite.config.js",
        "vite.config.ts",
        ".browserslistrc",
        ".stylelintrc",
        ".stylelintrc.json",
        "Makefile",
        "Gruntfile.js",
        "Gulpfile.js",
    ]
}

fn dev_extension_list() -> (r: Vec<&'static str>)
    ensures
        r@.len() == dev_extensions().len(),
        forall|i: int| 0 <= i < r@.len() ==> (#[trigger] r@[i])@ == dev_extensions()[i],
{
    vec![
        "ts",
        "tsx",
        "mts",
        "cts",
        "less",
        "scss",
        "sass",
        "md",
        "markdown",
        "yml",
        "yaml",
        "lock",
        "npmignore",
        "gitignore",
        "eslintrc",
        "prettierrc",
        "editorconfig",
        "jshintrc",
        "nycrc",
        "babelrc",
        "flowconfig",
    ]
}

/// Index of the last `c` in `s`, or -1 when there is none.
pub open spec fn rindex_of(s: Seq<char>, c: char) -> int
    decreases s.len(),
{
    if s.len() == 0 {
        -1
    } else if s.last() == c {
        s.len() - 1
    } else {
        rindex_of(s.drop_last(), c)
    }
}

/// The last component of the path `p`: what follows its last `/`.
pub open spec fn file_name(p: Seq<char>) -> Seq<char> {
    p.subrange(rindex_of(p, '/') + 1, p.len() as int)
}

/// The extension of a file name: what follows its last `.`; a name without a `.`, or
/// whose only `.` comes first, has none.
pub open spec fn extension_of(name: Seq<char>) -> Option<Seq<char>> {
    let d = rindex_of(name, '.');
    if d <= 0 {
        None
    } else {
        Some(name.subrange(d + 1, name.len() as int))
    }
}

/// `a` and `b` are the same character, ASCII letters compared without regard to case.
pub open spec fn same_letter(a: char, b: char) -> bool {
    a == b || (is_upper(a) && (a as u32) + 32 == (b as u32)) || (is_upper(b) && (b as u32) + 32
        == (a as u32))
}

/// `a` and `b` are equal, ASCII letters compared without regard to case.
pub open spec fn eq_ignore_case(a: Seq<char>, b: Seq<char>) -> bool {
    a.len() == b.len() && forall|i: int| 0 <= i < a.len() ==> same_letter(#[trigger] a[i], b[i])
}

/// `name` is a whole component of the path `p`, starting at position `i`.
pub open spec fn component_at(p: Seq<char>, name: Seq<char>, i: int) -> bool {
    occurs_at(p, name, i) && (i == 0 || p[i - 1] == '/') && (i + name.len() == p.len() || p[i
        + name.len()] == '/')
}

/// `name` is a whole component of the path `p`.
pub open spec fn has_component(p: Seq<char>, name: Seq<char>) -> bool {
    exists|i: int| component_at(p, name, i)
}

/// Some component of `p` names a development directory.
pub open spec fn in_dev_directory(p: Seq<char>) -> bool {
    exists|k: int| 0 <= k < dev_directories().len() && has_component(p, #[trigger] dev_directories()[k])
}

/// `e` is a development extension.
pub open spec fn is_dev_extension(e: Seq<char>) -> bool {
    exists|k: int| 0 <= k < dev_extensions().len() && eq_ignore_case(e, #[trigger] dev_extensions()[k])
}

/// The file name `name` has a development extension.
pub open spec fn has_dev_extension(name: Seq<char>) -> bool {
    match extension_of(name) {
        Some(e) => is_dev_extension(e),
        None => false,
    }
}

/// The path `p` is left out of a copy: development files are, unless `include_dev`.
pub open spec fn excluded(p: Seq<char>, include_dev: bool) -> bool {
    !include_dev && (in_dev_directory(p) || dev_files().contains(file_name(p)) || has_dev_extension(
        file_name(p),
    ))
}

/// `rindex_of` is the position of the last `c`, given that none comes after it.
pub proof fn lemma_rindex_of(s: Seq<char>, c: char, i: int)
    requires
        -1 <= i < s.len(),
        forall|j: int| i < j < s.len() ==> s[j] != c,
        i >= 0 ==> s[i] == c,
    ensures
        rindex_of(s, c) == i,
    decreases s.len(),
{
    if s.len() > 0 && s.last() != c {
        assert forall|j: int| i < j < s.len() - 1 implies s.drop_last()[j] != c by {
            assert(s.drop_last()[j] == s[j]);
        }
        lemma_rindex_of(s.drop_last(), c, i);
    }
}

/// Index of the last `c` in `s`.
fn rfind_char(s: &Vec<char>, c: char) -> (r: Option<usize>)
    ensures
        r matches Some(i) ==> i == rindex_of(s@, c) && i < s@.len(),
        r is None ==> rindex_of(s@, c) == -1,
{
    let mut j: usize = s.len();
    while j > 0
        invariant
            j <= s@.len(),
            forall|k: int| j <= k < s@.len() ==> s@[k] != c,
        decreases j,
    {
        if s[j - 1] == c {
            proof {
                lemma_rindex_of(s@, c, j - 1);
            }
            return Some(j - 1);
        }
        j = j - 1;
    }
    proof {
        lemma_rindex_of(s@, c, -1);
    }
    None
}

/// The characters of `s` from `from` up to `to`.
fn sub_chars(s: &Vec<char>, from: usize, to: usize) -> (r: Vec<char>)
    requires
        from <= to <= s@.len(),
    ensures
        r@ == s@.subrange(from as int, to as int),
{
    let mut out: Vec<char> = Vec::new();
    let mut i: usize = from;
    while i < to
        invariant
            from <= i <= to,
            to <= s@.len(),
            out@ == s@.subrange(from as int, i as int),
        decreases to - i,
    {
        out.push(s[i]);
        i = i + 1;
        assert(out@ =~= s@.subrange(from as int, i as int));
    }
    out
}

/// Whether `name` is a whole component of the path `p` at position `i`.
fn component_at_exec(p: &Vec<char>, name: &Vec<char>, i: usize) -> (r: bool)
    ensures
        r == component_at(p@, name@, i as int),
{
    let plen = p.len();
    if !occurs_at_exec(p, name, i) {
        return false;
    }
    let before = i == 0 || p[i - 1] == '/';
    let end = i + name.len();
    let after = end == plen || p[end] == '/';
    before && after
}

/// Whether `name` is a whole component of the path `p`.
fn has_component_exec(p: &Vec<char>, name: &Vec<char>) -> (r: bool)
    ensures
        r == has_component(p@, name@),
{
    if name.len() > p.len() {
        return false;
    }
    let last = p.len() - name.len();
    let mut i: usize = 0;
    loop
        invariant
            i <= last,
            last == p@.len() - name@.len(),
            forall|j: int| 0 <= j < i ==> !component_at(p@, name@, j),
        decreases last - i,
    {
        if component_at_exec(p, name, i) {
            return true;
        }
        if i == last {
            assert forall|j: int| !component_at(p@, name@, j) by {
                if 0 <= j && j < i {
                }
            }
            return false;
        }
        i = i + 1;
    }
}

/// Whether some component of `p` names a development directory.
fn in_dev_directory_exec(p: &Vec<char>) -> (r: bool)
    ensures
        r == in_dev_directory(p@),
{
    let dirs = dev_directory_list();
    let mut k: usize = 0;
    while k < dirs.len()
        invariant
            k <= dirs@.len(),
            dirs@.len() == dev_directories().len(),
            forall|i: int| 0 <= i < dirs@.len() ==> (#[trigger] dirs@[i])@ == dev_directories()[i],
            forall|j: int| 0 <= j < k ==> !has_component(p@, #[trigger] dev_directories()[j]),
        decreases dirs@.len() - k,
    {
        let d = chars_of(dirs[k]);
        if has_component_exec(p, &d) {
            assert(dirs@[k as int]@ == dev_directories()[k as int]);
            return true;
        }
        k = k + 1;
    }
    false
}

/// Whether `name` is one of the development file names.
fn is_dev_file_exec(name: &Vec<char>) -> (r: bool)
    ensures
        r == dev_files().contains(name@),
{
    let files = dev_file_list();
    let mut k: usize = 0;
    while k < files.len()
        invariant
            k <= files@.len(),
            files@.len() == dev_files().len(),
            forall|i: int| 0 <= i < files@.len() ==> (#[trigger] files@[i])@ == dev_files()[i],
            forall|j: int| 0 <= j < k ==> dev_files()[j] != name@,
        decreases files@.len() - k,
    {
        let lit = files[k];
        assert(lit@ == dev_files()[k as int]);
        if lit.unicode_len() == name.len() {
            let lc = chars_of(lit);
            if chars_eq(&lc, name) {
                return true;
            }
        }
        k = k + 1;
    }
    false
}

/// Whether `a` and `b` are equal, ASCII letters compared without regard to case.
fn eq_ignore_case_exec(a: &Vec<char>, b: &Vec<char>) -> (r: bool)
    ensures
        r == eq_ignore_case(a@, b@),
{
    if a.len() != b.len() {
        return false;
    }
    let mut i: usize = 0;
    while i < a.len()
        invariant
            a@.len() == b@.len(),
            i <= a@.len(),
            forall|j: int| 0 <= j < i ==> same_letter(#[trigger] a@[j], b@[j]),
        decreases a@.len() - i,
    {
        let x = a[i];
        let y = b[i];
        let same = x == y || ('A' <= x && x <= 'Z' && (x as u32) + 32 == (y as u32)) || ('A' <= y
            && y <= 'Z' && (y as u32) + 32 == (x as u32));
        if !same {
            return false;
        }
        i = i + 1;
    }
    true
}

/// Whether `e` is a development extension.
fn is_dev_extension_exec(e: &Vec<char>) -> (r: bool)
    ensures
        r == is_dev_extension(e@),
{
    let exts = dev_extension_list();
    let mut k: usize = 0;
    while k < exts.len()
        invariant
            k <= exts@.len(),
            exts@.len() == dev_extensions().len(),
            forall|i: int| 0 <= i < exts@.len() ==> (#[trigger] exts@[i])@ == dev_extensions()[i],
            forall|j: int| 0 <= j < k ==> !eq_ignore_case(e@, #[trigger] dev_extensions()[j]),
        decreases exts@.len() - k,
    {
        let lc = chars_of(exts[k]);
        if eq_ignore_case_exec(e, &lc) {
            return true;
        }
        k = k + 1;
    }
    false
}

/// Whether the file at `path` is left out of a copy: with `include_dev` nothing is;
/// otherwise a file under a development directory, with a development file name, or
/// with a development extension is.
pub fn should_exclude_file(path: &str, include_dev: bool) -> (r: bool)
    ensures
        r == excluded(path@, include_dev),
{
    if include_dev {
        return false;
    }
    let p = chars_of(path);
    let plen = p.len();
    if in_dev_directory_exec(&p) {
        return true;
    }
    let start = match rfind_char(&p, '/') {
        Some(i) => i + 1,
        None => 0,
    };
    let name = sub_chars(&p, start, plen);
    if is_dev_file_exec(&name) {
        return true;
    }
    match rfind_char(&name, '.') {
        Some(d) => {
            if d > 0 {
                let ext = sub_chars(&name, d + 1, name.len());
                return is_dev_extension_exec(&ext);
            }
            false
        },
        None => false,
    }
}

/// With development files included nothing is left out. Otherwise a file named
/// `package.json`, any file under a `node_modules` component, and any file whose
/// extension is `ts` in whatever case are left out.
pub proof fn lemma_exclusion_rules(p: Seq<char>)
    ensures
        !excluded(p, true),
        file_name(p) == "package.json"@ ==> excluded(p, false),
        has_component(p, "node_modules"@) ==> excluded(p, false),
        (extension_of(file_name(p)) matches Some(e) && eq_ignore_case(e, "ts"@)) ==> excluded(
            p,
            false,
        ),
{
    assert(dev_files()[0] == "package.json"@);
    assert(dev_directories()[0] == "node_modules"@);
    assert(dev_extensions()[0] == "ts"@);
}

/// `file` relative to `root`: what follows `root` and a separator, or `file` itself
/// when it does not lie under `root`.
pub open spec fn relative_to(file: Seq<char>, root: Seq<char>) -> Seq<char> {
    let prefix = path_join(root, Seq::empty());
    if starts_with(file, prefix) {
        file.subrange(prefix.len() as int, file.len() as int)
    } else {
        file
    }
}

/// Where a copy of the tree `src_root` onto `dst_root` puts the file `file`.
pub open spec fn destination(src_root: Seq<char>, dst_root: Seq<char>, file: Seq<char>) -> Seq<
    char,
> {
    path_join(dst_root, relative_to(file, src_root))
}

/// The path of `file` relative to `root`.
pub fn relative_path(file: &str, root: &str) -> (r: String)
    ensures
        r@ == relative_to(file@, root@),
{
    proof {
        reveal_strlit("");
    }
    let prefix = join_path(root, "");
    let pc = chars_of(prefix.as_str());
    let fc = chars_of(file);
    if occurs_at_exec(&fc, &pc, 0) {
        String::from_str(file.substring_char(pc.len(), fc.len()))
    } else {
        String::from_str(file)
    }
}

/// One file to copy.
#[derive(Debug)]
pub struct CopyItem {
    /// The file to read.
    pub src: String,
    /// Where its copy goes.
    pub dst: String,
}

/// The source and destination of each item, as text.
pub open spec fn items_view(items: Seq<CopyItem>) -> Seq<(Seq<char>, Seq<char>)> {
    items.map_values(|it: CopyItem| (it.src@, it.dst@))
}

/// The files that a copy of `src_root` onto `dst_root` takes from `files`, in order,
/// each with its destination.
pub open spec fn copy_plan(
    files: Seq<String>,
    src_root: Seq<char>,
    dst_root: Seq<char>,
    include_dev: bool,
) -> Seq<(Seq<char>, Seq<char>)>
    decreases files.len(),
{
    if files.len() == 0 {
        seq![]
    } else {
        let rest = copy_plan(files.drop_last(), src_root, dst_root, include_dev);
        let f = files.last()@;
        if excluded(f, include_dev) {
            rest
        } else {
            rest.push((f, destination(src_root, dst_root, f)))
        }
    }
}

/// The files of a walk of `src_root` that a copy onto `dst_root` takes, each paired
/// with its destination; development files are left out unless `include_dev`.
pub fn plan_copy(src_root: &str, dst_root: &str, files: &Vec<String>, include_dev: bool) -> (r: Vec<
    CopyItem,
>)
    ensures
        items_view(r@) == copy_plan(files@, src_root@, dst_root@, include_dev),
{
    let mut out: Vec<CopyItem> = Vec::new();
    let mut i: usize = 0;
    while i < files.len()
        invariant
            i <= files@.len(),
            items_view(out@) == copy_plan(files@.subrange(0, i as int), src_root@, dst_root@, include_dev),
        decreases files@.len() - i,
    {
        let f = files[i].as_str();
        assert(files@.subrange(0, i + 1).drop_last() =~= files@.subrange(0, i as int));
        if !should_exclude_file(f, include_dev) {
            let rel = relative_path(f, src_root);
            let dst = join_path(dst_root, rel.as_str());
            let item = CopyItem { src: String::from_str(f), dst };
            let ghost before = out@;
            out.push(item);
            assert(items_view(out@) =~= items_view(before).push((f@, destination(src_root@, dst_root@, f@))));
        }
        i = i + 1;
    }
    assert(files@.subrange(0, i as int) =~= files@);
    out
}

/// `Err(Cancelled)` when the run was cancelled, `Ok` otherwise.
pub fn check_cancelled(cancelled: bool) -> (r: Result<(), DeployError>)
    ensures
        r is Ok <==> !cancelled,
        r matches Err(e) ==> e is Cancelled,
{
    if cancelled {
        Err(DeployError::Cancelled)
    } else {
        Ok(())
    }
}

/// What became of one file of a copy.
#[derive(Debug)]
pub enum FileOutcome {
    /// The file was copied; so many bytes were written.
    Copied { bytes: u64 },
    /// The destination already existed and was left as it was.
    AlreadyPresent,
    /// The copy failed.
    Failed(DeployError),
}

/// Number of files copied.
pub open spec fn copied_count(os: Seq<FileOutcome>) -> nat
    decreases os.len(),
{
    if os.len() == 0 {
        0
    } else {
        (if os[0] is Copied {
            1nat
        } else {
            0nat
        }) + copied_count(os.drop_first())
    }
}

/// Number of bytes copied.
pub open spec fn copied_bytes(os: Seq<FileOutcome>) -> nat
    decreases os.len(),
{
    if os.len() == 0 {
        0
    } else {
        (match os[0] {
            FileOutcome::Copied { bytes } => bytes as nat,
            _ => 0nat,
        }) + copied_bytes(os.drop_first())
    }
}

/// The first failure among the outcomes.
pub open spec fn first_failure(os: Seq<FileOutcome>) -> Option<DeployError>
    decreases os.len(),
{
    if os.len() == 0 {
        None
    } else {
        match os[0] {
            FileOutcome::Failed(e) => Some(e),
            _ => first_failure(os.drop_first()),
        }
    }
}

/// `n`, or the largest `u64` when `n` does not fit.
pub open spec fn saturated(n: nat) -> u64 {
    if n > u64::MAX {
        u64::MAX
    } else {
        n as u64
    }
}

/// The result of a copy from the outcomes of its files: the first failure, or else the
/// number of files copied and of bytes written (saturating at the largest `u64`).
/// Files whose destination was already present are not counted.
pub fn tally_outcomes(outcomes: Vec<FileOutcome>) -> (r: Result<(u64, u64), DeployError>)
    ensures
        r == (match first_failure(outcomes@) {
            Some(e) => Err(e),
            None => Ok((copied_count(outcomes@) as u64, saturated(copied_bytes(outcomes@)))),
        }),
{
    let ghost orig = outcomes@;
    proof {
        assert(orig.len() == outcomes.len());
    }
    let mut os = outcomes;
    let mut files: u64 = 0;
    let mut bytes: u64 = 0;
    let mut failure: Option<DeployError> = None;
    while os.len() > 0
        invariant
            os@.len() <= orig.len(),
            os@ == orig.subrange(0, os@.len() as int),
            files == copied_count(orig.subrange(os@.len() as int, orig.len() as int)),
            files <= orig.len() - os@.len(),
            orig.len() <= usize::MAX,
            bytes == saturated(copied_bytes(orig.subrange(os@.len() as int, orig.len() as int))),
            failure == first_failure(orig.subrange(os@.len() as int, orig.len() as int)),
        decreases os@.len(),
    {
        let ghost k = os@.len() as int;
        let o = match os.pop() {
            Some(o) => o,
            None => {
                return Ok((files, bytes));
            },
        };
        assert(orig.subrange(k - 1, orig.len() as int).drop_first() =~= orig.subrange(k, orig.len() as int));
        assert(orig.subrange(k - 1, orig.len() as int)[0] == orig[k - 1]);
        assert(os@ =~= orig.subrange(0, k - 1));
        match o {
            FileOutcome::Copied { bytes: b } => {
                files = files + 1;
                bytes = if bytes > u64::MAX - b {
                    u64::MAX
                } else {
                    bytes + b
                };
            },
            FileOutcome::AlreadyPresent => {},
            FileOutcome::Failed(e) => {
                failure = Some(e);
            },
        }
    }
    assert(orig.subrange(0, orig.len() as int) =~= orig);
    match failure {
        Some(e) => Err(e),
        None => Ok((files, bytes)),
    }
}

/// A file whose destination was already present adds nothing to what a copy counts;
/// a file that was copied adds one file and its bytes.
pub proof fn lemma_present_files_not_counted(os: Seq<FileOutcome>, bytes: u64)
    ensures
        copied_count(os.push(FileOutcome::AlreadyPresent)) == copied_count(os),
        copied_bytes(os.push(FileOutcome::AlreadyPresent)) == copied_bytes(os),
        copied_count(os.push(FileOutcome::Copied { bytes })) == copied_count(os) + 1,
        copied_bytes(os.push(FileOutcome::Copied { bytes })) == copied_bytes(os) + bytes,
    decreases os.len(),
{
    if os.len() > 0 {
        lemma_present_files_not_counted(os.drop_first(), bytes);
        assert(os.push(FileOutcome::AlreadyPresent).drop_first() =~= os.drop_first().push(
            FileOutcome::AlreadyPresent,
        ));
        assert(os.push(FileOutcome::Copied { bytes }).drop_first() =~= os.drop_first().push(
            FileOutcome::Copied { bytes },
        ));
    } else {
        assert(os.push(FileOutcome::AlreadyPresent).drop_first() =~= os);
        assert(os.push(FileOutcome::Copied { bytes }).drop_first() =~= os);
    }
}

} // verus!
