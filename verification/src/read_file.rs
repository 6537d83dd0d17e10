//! The file-read capability: syntactic traversal rejection, confinement of a
//! canonicalized path to the base directory, and rendering of a 1-indexed
//! inclusive line window under line-count and byte ceilings.

use vstd::prelude::*;

use crate::text::{
    byte_len, byte_len_from, byte_len_of, contains_substr, has_substr, lemma_byte_len_from_nonneg,
    str_eq,
};

verus! {

/// Ceiling on the bytes of file content returned by one read.
pub const MAX_BYTES: usize = 50 * 1024;

/// Ceiling on the number of lines returned by one read.
pub const MAX_LINES: usize = 1000;

/// Arguments of one file-read call.
pub struct ReadFileArgs {
    /// The path to the file to read, relative to the base directory.
    pub path: String,
    /// Optional starting line number (1-indexed).
    pub start_line: Option<usize>,
    /// Optional ending line number (1-indexed, inclusive).
    pub end_line: Option<usize>,
}

/// Everything that can go wrong in one file-read call.
#[derive(Debug, PartialEq)]
pub enum ReadFileError {
    /// The requested path, which contained the parent-directory token.
    PathTraversal(String),
    /// Description of a filesystem failure.
    Io(String),
    /// The resolved path escapes the base directory.
    OutsideBaseDir,
}

/// `rel` joined onto `base` as `Path::join` does: an absolute `rel` replaces
/// the base, otherwise the two are joined with a single separator.
pub open spec fn join_path(base: Seq<char>, rel: Seq<char>) -> Seq<char> {
    if rel.len() > 0 && rel[0] == '/' {
        rel
    } else if base.len() == 0 {
        rel
    } else if base[base.len() - 1] == '/' {
        base + rel
    } else {
        base + "/"@ + rel
    }
}

/// `p` names the directory `base` itself or a path below it, judged on
/// canonicalized path text as `Path::starts_with` judges components.
pub open spec fn path_within(base: Seq<char>, p: Seq<char>) -> bool {
    p == base || (p.len() > base.len() && p.subrange(0, base.len() as int) == base && ((base.len()
        > 0 && base[base.len() - 1] == '/') || p[base.len() as int] == '/'))
}

/// An absolute, canonicalized path that has been proven to stay inside the
/// base directory. No other code path constructs one, so holding a
/// `ConfinedPath` is itself the evidence of confinement.
pub struct ConfinedPath {
    base: String,
    path: String,
}

impl ConfinedPath {
    /// The base directory the path was confined to.
    pub closed spec fn spec_base(&self) -> Seq<char> {
        self.base@
    }

    /// The confined path itself.
    pub closed spec fn spec_path(&self) -> Seq<char> {
        self.path@
    }

    /// The invariant every value of this type carries.
    pub open spec fn wf(&self) -> bool {
        path_within(self.spec_base(), self.spec_path())
    }

    pub fn as_path(&self) -> (r: &str)
        ensures
            r@ == self.spec_path(),
    {
        self.path.as_str()
    }
}

/// The file-read capability, confined to one base directory.
pub struct ReadFile {
    base_dir: String,
}

impl ReadFile {
    /// The directory every read is confined to.
    pub closed spec fn base(&self) -> Seq<char> {
        self.base_dir@
    }

    pub fn new(base_dir: String) -> (r: ReadFile)
        ensures
            r.base() == base_dir@,
    {
        ReadFile { base_dir }
    }

    pub fn base_dir(&self) -> (r: &str)
        ensures
            r@ == self.base(),
    {
        self.base_dir.as_str()
    }

    /// Reject any path containing the parent-directory token `..` — a purely
    /// syntactic check made before anything touches the filesystem — and
    /// otherwise join the path onto the base directory.
    pub fn resolve_path(&self, path: &str) -> (r: Result<String, ReadFileError>)
        ensures
            has_substr(path@, ".."@) ==> (r matches Err(ReadFileError::PathTraversal(p)) && p@
                == path@),
            !has_substr(path@, ".."@) ==> (r matches Ok(joined) && joined@ == join_path(
                self.base(),
                path@,
            )),
    {
        if contains_substr(path, "..") {
            return Err(ReadFileError::PathTraversal(String::from_str(path)));
        }
        let n: usize = path.unicode_len();
        if n > 0 && path.get_char(0) == '/' {
            return Ok(String::from_str(path));
        }
        let base = self.base_dir.as_str();
        let m: usize = base.unicode_len();
        if m == 0 {
            return Ok(String::from_str(path));
        }
        let mut joined = self.base_dir.clone();
        if base.get_char(m - 1) != '/' {
            joined.append("/");
        }
        joined.append(path);
        proof {
            assert(joined@ =~= join_path(self.base(), path@));
        }
        Ok(joined)
    }

    /// Require the canonicalized candidate path to lie within the
    /// canonicalized base directory; only this check produces a
    /// [`ConfinedPath`].
    pub fn confine(&self, canonical_base: &str, canonical: &str) -> (r: Result<
        ConfinedPath,
        ReadFileError,
    >)
        ensures
            r is Ok <==> path_within(canonical_base@, canonical@),
            r matches Ok(c) ==> c.wf() && c.spec_base() == canonical_base@ && c.spec_path()
                == canonical@,
            r is Err ==> r == Err::<ConfinedPath, ReadFileError>(ReadFileError::OutsideBaseDir),
    {
        let confined = if str_eq(canonical, canonical_base) {
            true
        } else {
            let bn: usize = canonical_base.unicode_len();
            let pn: usize = canonical.unicode_len();
            if pn > bn && str_prefix(canonical, canonical_base) {
                if bn > 0 && canonical_base.get_char(bn - 1) == '/' {
                    true
                } else {
                    canonical.get_char(bn) == '/'
                }
            } else {
                false
            }
        };
        if confined {
            Ok(
                ConfinedPath {
                    base: String::from_str(canonical_base),
                    path: String::from_str(canonical),
                },
            )
        } else {
            Err(ReadFileError::OutsideBaseDir)
        }
    }
}

/// Whether `pre@` is a prefix of `s@`.
fn str_prefix(s: &str, pre: &str) -> (r: bool)
    ensures
        r == (pre@.len() <= s@.len() && s@.subrange(0, pre@.len() as int) == pre@),
{
    let n: usize = s.unicode_len();
    let m: usize = pre.unicode_len();
    if m > n {
        proof {
            if pre@.len() <= s@.len() {
                assert(false);
            }
        }
        return false;
    }
    let mut i: usize = 0;
    while i < m
        invariant
            i <= m,
            m == pre@.len(),
            n == s@.len(),
            m <= n,
            forall|k: int| 0 <= k < i ==> s@[k] == pre@[k],
        decreases m - i,
    {
        if s.get_char(i) != pre.get_char(i) {
            proof {
                if s@.subrange(0, m as int) == pre@ {
                    assert(s@.subrange(0, m as int)[i as int] == pre@[i as int]);
                }
            }
            return false;
        }
        i = i + 1;
    }
    proof {
        assert(s@.subrange(0, m as int) =~= pre@);
    }
    true
}

/// Index of the first `'\n'` at or after `i`, or the length of `s`.
pub open spec fn first_nl(s: Seq<char>, i: int) -> int
    recommends
        0 <= i <= s.len(),
    decreases s.len() - i,
{
    if i < 0 || i >= s.len() {
        s.len() as int
    } else if s[i] == '\n' {
        i
    } else {
        first_nl(s, i + 1)
    }
}

proof fn lemma_first_nl_bounds(s: Seq<char>, i: int)
    requires
        0 <= i <= s.len(),
    ensures
        i <= first_nl(s, i) <= s.len(),
        forall|k: int| i <= k < first_nl(s, i) ==> s[k] != '\n',
        first_nl(s, i) < s.len() ==> s[first_nl(s, i)] == '\n',
    decreases s.len() - i,
{
    if i < s.len() && s[i] != '\n' {
        lemma_first_nl_bounds(s, i + 1);
    }
}

proof fn lemma_first_nl_unique(s: Seq<char>, i: int, e: int)
    requires
        0 <= i <= e <= s.len(),
        forall|k: int| i <= k < e ==> s[k] != '\n',
        e == s.len() || s[e] == '\n',
    ensures
        first_nl(s, i) == e,
{
    lemma_first_nl_bounds(s, i);
    if first_nl(s, i) < e {
        assert(s[first_nl(s, i)] != '\n');
        assert(false);
    }
    if e < first_nl(s, i) {
        assert(s[e] != '\n');
        assert(false);
    }
}

/// A line terminated by `'\n'` sheds one trailing `'\r'`, as `str::lines`
/// treats a `"\r\n"` ending.
pub open spec fn strip_cr(l: Seq<char>) -> Seq<char> {
    if l.len() > 0 && l[l.len() - 1] == '\r' {
        l.drop_last()
    } else {
        l
    }
}

/// The lines of `s[i..]`, split as `str::lines` splits them: at `'\n'`, with
/// a `'\r'` immediately before the `'\n'` removed, and no empty final line
/// after a trailing line ending.
pub open spec fn lines_from(s: Seq<char>, i: int) -> Seq<Seq<char>>
    recommends
        0 <= i <= s.len(),
    decreases s.len() - i,
    via lines_from_decreases
{
    if i < 0 || i >= s.len() {
        Seq::empty()
    } else {
        let e = first_nl(s, i);
        if e == s.len() {
            seq![s.subrange(i, e)]
        } else {
            seq![strip_cr(s.subrange(i, e))] + lines_from(s, e + 1)
        }
    }
}

#[via_fn]
proof fn lines_from_decreases(s: Seq<char>, i: int) {
    if 0 <= i < s.len() {
        lemma_first_nl_bounds(s, i);
    }
}

/// The lines of `s`.
pub open spec fn lines_of(s: Seq<char>) -> Seq<Seq<char>> {
    lines_from(s, 0)
}

/// Split `content` into its lines, as `str::lines` collects them.
pub fn lines_vec(content: &str) -> (r: Vec<String>)
    ensures
        r.deep_view() == lines_of(content@),
{
    let n: usize = content.unicode_len();
    let mut result: Vec<String> = Vec::new();
    let mut i: usize = 0;
    while i < n
        invariant
            i <= n,
            n == content@.len(),
            result.deep_view() + lines_from(content@, i as int) == lines_of(content@),
        decreases n - i,
    {
        let mut e: usize = i;
        loop
            invariant_except_break
                e <= n,
            invariant
                i <= e,
                n == content@.len(),
                forall|k: int| i <= k < e ==> content@[k] != '\n',
            ensures
                i <= e <= n,
                e == n || content@[e as int] == '\n',
                forall|k: int| i <= k < e ==> content@[k] != '\n',
            decreases n - e,
        {
            if e == n {
                break ;
            }
            if content.get_char(e) == '\n' {
                break ;
            }
            e = e + 1;
        }
        proof {
            lemma_first_nl_unique(content@, i as int, e as int);
        }
        let ghost old_result = result.deep_view();
        if e == n {
            result.push(String::from_str(content.substring_char(i, e)));
            proof {
                assert(result.deep_view() =~= old_result + seq![content@.subrange(
                    i as int,
                    e as int,
                )]);
                assert(result.deep_view() + lines_from(content@, n as int) =~= lines_of(content@));
            }
            i = n;
        } else {
            let line = if e > i && content.get_char(e - 1) == '\r' {
                content.substring_char(i, e - 1)
            } else {
                content.substring_char(i, e)
            };
            proof {
                assert(line@ =~= strip_cr(content@.subrange(i as int, e as int)));
            }
            result.push(String::from_str(line));
            proof {
                assert(result.deep_view() =~= old_result + seq![strip_cr(content@.subrange(
                    i as int,
                    e as int,
                ))]);
                assert(result.deep_view() + lines_from(content@, e + 1) =~= lines_of(content@));
            }
            i = e + 1;
        }
    }
    proof {
        assert(result.deep_view() =~= lines_of(content@));
    }
    result
}

/// The slice of `total` selected by the optional 1-indexed inclusive window:
/// a missing or zero start saturates to the first line, a missing or
/// oversized end to the last.
pub open spec fn selected_window(
    total: Seq<Seq<char>>,
    start_line: Option<usize>,
    end_line: Option<usize>,
) -> Seq<Seq<char>> {
    let start: int = match start_line {
        Some(s) => if s > 0 {
            s - 1
        } else {
            0
        },
        None => 0,
    };
    let wanted_end: int = match end_line {
        Some(e) => e as int,
        None => total.len() as int,
    };
    let end: int = if wanted_end > total.len() {
        total.len() as int
    } else {
        wanted_end
    };
    if start < end {
        total.subrange(start, end)
    } else {
        Seq::empty()
    }
}

/// One pass of the copying loop: lines are appended, separated by `'\n'`,
/// until the line-count or byte ceiling would be crossed; the flag records
/// whether copying stopped early.
pub open spec fn render_step(ls: Seq<Seq<char>>, j: int, acc: Seq<char>, bytes: int) -> (
    Seq<char>,
    bool,
)
    decreases ls.len() - j,
{
    if j < 0 || j >= ls.len() {
        (acc, false)
    } else if j >= MAX_LINES as int || bytes + byte_len(ls[j]) + 1 > MAX_BYTES as int {
        (acc, true)
    } else if acc.len() > 0 {
        render_step(ls, j + 1, acc + seq!['\n'] + ls[j], bytes + 1 + byte_len(ls[j]))
    } else {
        render_step(ls, j + 1, acc + ls[j], bytes + byte_len(ls[j]))
    }
}

/// The notice appended whenever the selected range was cut off.
pub open spec fn truncation_marker() -> Seq<char> {
    "\n\n[truncated - file exceeds 50KB or 1000 lines limit]"@
}

/// What one file-read call returns for this content and window.
pub open spec fn rendered_output(
    content: Seq<char>,
    start_line: Option<usize>,
    end_line: Option<usize>,
) -> Seq<char> {
    let sel = selected_window(lines_of(content), start_line, end_line);
    let step = render_step(sel, 0, Seq::empty(), 0);
    if step.1 {
        step.0 + truncation_marker()
    } else {
        step.0
    }
}

impl ReadFile {
    /// Select the requested line window of `content` and copy it under the
    /// line-count and byte ceilings, appending an explicit truncation notice
    /// whenever the selection was cut off.
    pub fn render_contents(
        &self,
        content: &str,
        start_line: Option<usize>,
        end_line: Option<usize>,
    ) -> (r: String)
        ensures
            r@ == rendered_output(content@, start_line, end_line),
    {
        let all_lines = lines_vec(content);
        let total: usize = all_lines.len();
        let start: usize = match start_line {
            Some(s) => if s > 0 {
                s - 1
            } else {
                0
            },
            None => 0,
        };
        let end: usize = match end_line {
            Some(e) => if e > total {
                total
            } else {
                e
            },
            None => total,
        };
        let ghost sel = selected_window(lines_of(content@), start_line, end_line);
        let count: usize = if start < end {
            proof {
                assert(sel =~= all_lines.deep_view().subrange(start as int, end as int));
            }
            end - start
        } else {
            proof {
                assert(sel =~= Seq::<Seq<char>>::empty());
            }
            0
        };
        let mut out = String::new();
        let mut bytes: u128 = 0;
        let mut truncated: bool = false;
        let mut j: usize = 0;
        loop
            invariant_except_break
                !truncated,
                j <= count,
            invariant
                count <= total == all_lines.len(),
                count > 0 ==> start + count <= total,
                sel.len() == count,
                forall|k: int| 0 <= k < count ==> sel[k] == all_lines.deep_view()[start + k],
                all_lines.deep_view() == lines_of(content@),
                bytes <= MAX_BYTES as u128,
                render_step(sel, j as int, out@, bytes as int) == render_step(
                    sel,
                    0,
                    Seq::<char>::empty(),
                    0,
                ),
            ensures
                render_step(sel, 0, Seq::<char>::empty(), 0) == (out@, truncated),
            decreases count - j,
        {
            if j == count {
                break ;
            }
            let line = &all_lines[start + j];
            proof {
                assert(all_lines.deep_view()[start + j] == all_lines@[(start + j) as int]@);
                assert(line@ == sel[j as int]);
            }
            let line_bytes: u128 = byte_len_of(line.as_str());
            if j >= MAX_LINES || bytes + line_bytes + 1 > (MAX_BYTES as u128) {
                truncated = true;
                break ;
            }
            let ghost prior_acc = out@;
            let ghost prior_bytes = bytes as int;
            if !out.as_str().is_empty() {
                out.append("\n");
                bytes = bytes + 1;
            }
            out.append(line.as_str());
            bytes = bytes + line_bytes;
            proof {
                reveal_strlit("\n");
                if prior_acc.len() > 0 {
                    assert(out@ =~= prior_acc + seq!['\n'] + sel[j as int]);
                } else {
                    assert(out@ =~= prior_acc + sel[j as int]);
                }
                assert(render_step(sel, j + 1, out@, bytes as int) == render_step(
                    sel,
                    j as int,
                    prior_acc,
                    prior_bytes,
                ));
            }
            j = j + 1;
        }
        if truncated {
            out.append("\n\n[truncated - file exceeds 50KB or 1000 lines limit]");
        }
        proof {
            assert(out@ =~= rendered_output(content@, start_line, end_line));
        }
        out
    }
}

/// Total UTF-8 byte length of the lines at indices `>= j`.
pub open spec fn bytes_from(ls: Seq<Seq<char>>, j: int) -> int
    decreases ls.len() - j,
{
    if j < 0 || j >= ls.len() {
        0
    } else {
        byte_len(ls[j]) + bytes_from(ls, j + 1)
    }
}

/// Total UTF-8 byte length of a selected window.
pub open spec fn window_bytes(ls: Seq<Seq<char>>) -> int {
    bytes_from(ls, 0)
}

proof fn lemma_bytes_from_nonneg(ls: Seq<Seq<char>>, j: int)
    ensures
        bytes_from(ls, j) >= 0,
    decreases ls.len() - j,
{
    if 0 <= j < ls.len() {
        lemma_byte_len_from_nonneg(ls[j], 0);
        lemma_bytes_from_nonneg(ls, j + 1);
    }
}

proof fn lemma_line_ceiling_truncates(ls: Seq<Seq<char>>, j: int, acc: Seq<char>, bytes: int)
    requires
        0 <= j <= MAX_LINES as int,
        ls.len() > MAX_LINES as int,
    ensures
        render_step(ls, j, acc, bytes).1,
    decreases ls.len() - j,
{
    if j < MAX_LINES as int && !(bytes + byte_len(ls[j]) + 1 > MAX_BYTES as int) {
        if acc.len() > 0 {
            lemma_line_ceiling_truncates(ls, j + 1, acc + seq!['\n'] + ls[j], bytes + 1 + byte_len(
                ls[j],
            ));
        } else {
            lemma_line_ceiling_truncates(ls, j + 1, acc + ls[j], bytes + byte_len(ls[j]));
        }
    }
}

proof fn lemma_byte_ceiling_truncates(ls: Seq<Seq<char>>, j: int, acc: Seq<char>, bytes: int)
    requires
        0 <= j < ls.len(),
        !render_step(ls, j, acc, bytes).1,
    ensures
        bytes + bytes_from(ls, j) + 1 <= MAX_BYTES as int,
    decreases ls.len() - j,
{
    lemma_bytes_from_nonneg(ls, j + 1);
    if j + 1 < ls.len() {
        if acc.len() > 0 {
            lemma_byte_ceiling_truncates(ls, j + 1, acc + seq!['\n'] + ls[j], bytes + 1 + byte_len(
                ls[j],
            ));
        } else {
            lemma_byte_ceiling_truncates(ls, j + 1, acc + ls[j], bytes + byte_len(ls[j]));
        }
    }
}

/// A selected range over either ceiling — more lines than the line limit, or
/// at least the byte limit of content — is never cut silently: the rendered
/// output always ends with the explicit truncation marker.
pub proof fn lemma_oversize_output_is_marked(
    content: Seq<char>,
    start_line: Option<usize>,
    end_line: Option<usize>,
)
    requires
        ({
            let sel = selected_window(lines_of(content), start_line, end_line);
            sel.len() > MAX_LINES as int || window_bytes(sel) >= MAX_BYTES as int
        }),
    ensures
        ({
            let out = rendered_output(content, start_line, end_line);
            out.len() >= truncation_marker().len() && out.subrange(
                out.len() - truncation_marker().len(),
                out.len() as int,
            ) == truncation_marker()
        }),
{
    let sel = selected_window(lines_of(content), start_line, end_line);
    let step = render_step(sel, 0, Seq::<char>::empty(), 0);
    if sel.len() > MAX_LINES as int {
        lemma_line_ceiling_truncates(sel, 0, Seq::<char>::empty(), 0);
    } else {
        assert(window_bytes(sel) >= MAX_BYTES as int);
        assert(sel.len() > 0) by {
            if sel.len() == 0 {
                assert(bytes_from(sel, 0) == 0);
            }
        }
        if !step.1 {
            lemma_byte_ceiling_truncates(sel, 0, Seq::<char>::empty(), 0);
            assert(false);
        }
    }
    let out = rendered_output(content, start_line, end_line);
    assert(out == step.0 + truncation_marker());
    assert(out.subrange(out.len() - truncation_marker().len(), out.len() as int)
        =~= truncation_marker());
}

} // verus!
