//! Layout arithmetic the session depends on: how many rows a wrapped diff
//! takes, how tall the file list is, and how a file row is fitted to a width.

use crate::decimal::decimal;
use crate::decimal::decimal_len;
use crate::decimal::decimal_text;
use crate::flash::FlashMessage;
use crate::types::BranchInfo;
use crate::types::ConfirmPrompt;
use crate::types::DiffContent;
use crate::types::DiffLine;
use vstd::prelude::*;

verus! {

/// The screen rows one diff line of `n` characters takes when its content
/// column is `cw` wide: the first row holds one character less (room for the
/// `+`/`-` prefix), and an empty line or a zero-width column takes one row.
pub open spec fn rows_for(n: nat, cw: nat) -> nat {
    if cw == 0 || n == 0 {
        1
    } else if n <= cw - 1 {
        1
    } else {
        1 + (((n - (cw - 1)) + cw - 1) / cw as int) as nat
    }
}

/// The largest new-file line number among `lines`, or 0.
pub open spec fn max_number(lines: Seq<DiffLine>) -> nat
    decreases lines.len(),
{
    if lines.len() == 0 {
        0
    } else {
        let rest = max_number(lines.drop_last());
        match lines.last().new_line_number {
            Some(n) => if n > rest {
                n as nat
            } else {
                rest
            },
            None => rest,
        }
    }
}

/// The content column's width: the viewport less a gutter of the line-number
/// width (at least three digits) and three more cells.
pub open spec fn content_width(lines: Seq<DiffLine>, width: nat) -> nat {
    let digits = decimal(max_number(lines)).len();
    let gutter = (if digits < 3 { 3 } else { digits }) + 3;
    if width > gutter {
        (width - gutter) as nat
    } else {
        0
    }
}

pub open spec fn total_rows(lines: Seq<DiffLine>, cw: nat) -> nat
    decreases lines.len(),
{
    if lines.len() == 0 {
        0
    } else {
        total_rows(lines.drop_last(), cw) + rows_for(lines.last().content@.len(), cw)
    }
}

/// The rows the diff takes at `width`, or the largest `usize` if more.
pub open spec fn rendered_rows(diff: DiffContent, width: nat) -> nat {
    match diff {
        DiffContent::Text(lines) => {
            let t = total_rows(lines@, content_width(lines@, width));
            if t > usize::MAX {
                usize::MAX as nat
            } else {
                t
            }
        },
        _ => 0,
    }
}

/// The largest diff scroll offset: the rows after wrapping less the viewport
/// height, and at least 0.
pub open spec fn spec_max_scroll(diff: DiffContent, height: nat, width: nat) -> nat {
    let t = rendered_rows(diff, width);
    if t > height {
        (t - height) as nat
    } else {
        0
    }
}

fn max_line_number(lines: &Vec<DiffLine>) -> (r: usize)
    ensures
        r == max_number(lines@),
{
    let mut m: usize = 0;
    let mut i: usize = 0;
    assert(lines@.subrange(0, 0) =~= Seq::<DiffLine>::empty());
    while i < lines.len()
        invariant
            i <= lines@.len(),
            m == max_number(lines@.subrange(0, i as int)),
        decreases lines@.len() - i,
    {
        assert(lines@.subrange(0, i + 1).drop_last() =~= lines@.subrange(0, i as int));
        match lines[i].new_line_number {
            Some(n) => {
                if n > m {
                    m = n;
                }
            },
            None => {},
        }
        i = i + 1;
    }
    assert(lines@.subrange(0, lines@.len() as int) =~= lines@);
    m
}

fn rows_for_exec(n: usize, cw: usize) -> (r: usize)
    ensures
        r == if rows_for(n as nat, cw as nat) > usize::MAX {
            usize::MAX as nat
        } else {
            rows_for(n as nat, cw as nat)
        },
{
    if cw == 0 || n == 0 {
        1
    } else if n <= cw - 1 {
        1
    } else {
        let rest = n - (cw - 1);
        let chunks = rest / cw + if rest % cw == 0 { 0 } else { 1 };
        proof {
            assert(chunks == (rest + cw - 1) / cw as int) by (nonlinear_arith)
                requires
                    cw > 0,
                    chunks == rest / cw + if rest % cw == 0 { 0int } else { 1int },
            ;
            assert(chunks <= rest) by (nonlinear_arith)
                requires
                    cw > 0,
                    rest > 0,
                    chunks == (rest + cw - 1) / cw as int,
            ;
        }
        if chunks == usize::MAX {
            usize::MAX
        } else {
            1 + chunks
        }
    }
}

/// The largest diff scroll offset for a viewport of the given size.
pub fn max_scroll(diff: &DiffContent, viewport_height: usize, viewport_width: usize) -> (r: usize)
    ensures
        r == spec_max_scroll(*diff, viewport_height as nat, viewport_width as nat),
{
    let total: usize = match diff {
        DiffContent::Text(lines) => {
            let digits = decimal_len(max_line_number(lines));
            let gutter: usize = if digits < 3 { 3 } else { digits } + 3;
            let cw: usize = if viewport_width > gutter { viewport_width - gutter } else { 0 };
            let ghost wanted = total_rows(lines@, cw as nat);
            let mut t: usize = 0;
            let mut i: usize = 0;
            assert(lines@.subrange(0, 0) =~= Seq::<DiffLine>::empty());
            while i < lines.len()
                invariant
                    i <= lines@.len(),
                    t == if total_rows(lines@.subrange(0, i as int), cw as nat) > usize::MAX {
                        usize::MAX as nat
                    } else {
                        total_rows(lines@.subrange(0, i as int), cw as nat)
                    },
                decreases lines@.len() - i,
            {
                assert(lines@.subrange(0, i + 1).drop_last() =~= lines@.subrange(0, i as int));
                let n = lines[i].content.as_str().unicode_len();
                let rows = rows_for_exec(n, cw);
                t = if t > usize::MAX - rows { usize::MAX } else { t + rows };
                i = i + 1;
            }
            assert(lines@.subrange(0, lines@.len() as int) =~= lines@);
            t
        },
        _ => 0,
    };
    if total > viewport_height {
        total - viewport_height
    } else {
        0
    }
}

/// The file list's height: a header row and one row per file for each
/// non-empty section, plus two border rows, at most `max_height`.
pub open spec fn spec_calculate_height(staged_count: nat, unstaged_count: nat, max_height: nat) -> nat {
    let total = (if staged_count > 0 { 1 + staged_count } else { 0 }) + (if unstaged_count > 0 {
        1 + unstaged_count
    } else {
        0
    }) + 2;
    let capped = if total > u16::MAX { u16::MAX as nat } else { total };
    if capped < max_height {
        capped
    } else {
        max_height
    }
}

/// Calculate the height of the file list widget.
pub fn calculate_height(staged_count: usize, unstaged_count: usize, max_height: u16) -> (r: u16)
    ensures
        r == spec_calculate_height(staged_count as nat, unstaged_count as nat, max_height as nat),
{
    let mut total: u128 = 2;
    if staged_count > 0 {
        total = total + 1 + staged_count as u128;
    }
    if unstaged_count > 0 {
        total = total + 1 + unstaged_count as u128;
    }
    let capped: u16 = if total > u16::MAX as u128 { u16::MAX } else { total as u16 };
    if capped < max_height {
        capped
    } else {
        max_height
    }
}

/// How many times `c` occurs in `s`.
pub open spec fn count_char(s: Seq<char>, c: char) -> nat
    decreases s.len(),
{
    if s.len() == 0 {
        0
    } else {
        count_char(s.drop_last(), c) + if s.last() == c {
            1nat
        } else {
            0nat
        }
    }
}

/// The nesting depth of a path: how many `/` it holds.
pub fn compute_indent(path: &str) -> (r: usize)
    ensures
        r == count_char(path@, '/'),
{
    let n = path.unicode_len();
    let mut count: usize = 0;
    let mut i: usize = 0;
    assert(path@.subrange(0, 0) =~= Seq::<char>::empty());
    while i < n
        invariant
            n == path@.len(),
            i <= n,
            count == count_char(path@.subrange(0, i as int), '/'),
            count <= i,
        decreases n - i,
    {
        assert(path@.subrange(0, i + 1).drop_last() =~= path@.subrange(0, i as int));
        if path.get_char(i) == '/' {
            count = count + 1;
        }
        i = i + 1;
    }
    assert(path@.subrange(0, n as int) =~= path@);
    count
}

/// The line counts shown beside a file: `-/-` for a binary file, `+a/-d`
/// when both counts are known, nothing otherwise.
pub open spec fn spec_line_counts_text(added: Option<usize>, deleted: Option<usize>, is_binary: bool) -> Seq<char> {
    if is_binary {
        "-/-"@
    } else {
        match (added, deleted) {
            (Some(a), Some(d)) => "+"@ + decimal(a as nat) + "/-"@ + decimal(d as nat),
            _ => Seq::empty(),
        }
    }
}

/// Formats a file's line counts.
pub fn format_line_counts(added: Option<usize>, deleted: Option<usize>, is_binary: bool) -> (r: String)
    ensures
        r@ == spec_line_counts_text(added, deleted, is_binary),
{
    if is_binary {
        return String::from_str("-/-");
    }
    match (added, deleted) {
        (Some(a), Some(d)) => {
            let da = decimal_text(a);
            let dd = decimal_text(d);
            String::from_str("+").concat(da.as_str()).concat("/-").concat(dd.as_str())
        },
        _ => String::new(),
    }
}

/// The index just past the last `/` of `s`, or 0.
pub open spec fn name_start(s: Seq<char>) -> nat
    decreases s.len(),
{
    if s.len() == 0 {
        0
    } else if s.last() == '/' {
        s.len()
    } else {
        name_start(s.drop_last())
    }
}

/// The file name: what follows the last `/`.
pub open spec fn file_name(s: Seq<char>) -> Seq<char> {
    s.subrange(name_start(s) as int, s.len() as int)
}

proof fn lemma_name_start_le(s: Seq<char>)
    ensures
        name_start(s) <= s.len(),
    decreases s.len(),
{
    if s.len() > 0 {
        lemma_name_start_le(s.drop_last());
    }
}

fn name_start_exec(s: &str) -> (r: usize)
    ensures
        r == name_start(s@),
        r <= s@.len(),
{
    let n = s.unicode_len();
    let mut i: usize = n;
    assert(s@.subrange(0, n as int) =~= s@);
    while i > 0 && s.get_char(i - 1) != '/'
        invariant
            n == s@.len(),
            i <= n,
            name_start(s@) == name_start(s@.subrange(0, i as int)),
        decreases i,
    {
        assert(s@.subrange(0, i as int).drop_last() =~= s@.subrange(0, i - 1));
        i = i - 1;
    }
    i
}

/// A path fitted to `w` characters, and whether its counts still fit beside
/// it: the whole path with its counts; else the whole path; else, when the
/// file name fits with room to spare, `…` and the path's last `w - 1`
/// characters; else the file name; else the file name's first `w` characters.
pub open spec fn spec_fit_path(path: Seq<char>, counts: Seq<char>, w: nat) -> (Seq<char>, bool) {
    let counts_len = if counts.len() == 0 { 0 } else { counts.len() + 1 };
    let name = file_name(path);
    if path.len() + counts_len <= w {
        (path, true)
    } else if path.len() <= w {
        (path, false)
    } else if name.len() < w {
        (seq!['\u{2026}'] + path.subrange(path.len() - (w - 1), path.len() as int), false)
    } else if name.len() <= w {
        (name, false)
    } else {
        (name.subrange(0, w as int), false)
    }
}

/// Fits a path into `available_width` characters, giving up the counts first.
pub fn format_path_with_priority(path: &str, counts: &str, available_width: usize) -> (r: (String, bool))
    ensures
        (r.0@, r.1) == spec_fit_path(path@, counts@, available_width as nat),
{
    let w = available_width;
    let counts_chars = counts.unicode_len();
    let counts_len: usize = if counts_chars == 0 { 0 } else { counts_chars };
    let path_chars = path.unicode_len();
    if counts_chars == 0 && path_chars <= w {
        return (String::from_str(path), true);
    }
    if counts_chars > 0 && path_chars <= w && counts_len < w - path_chars {
        return (String::from_str(path), true);
    }
    if path_chars <= w {
        return (String::from_str(path), false);
    }
    let start = name_start_exec(path);
    let name = path.substring_char(start, path_chars);
    let name_chars = path_chars - start;
    if name_chars < w {
        proof { reveal_strlit("\u{2026}"); }
        let tail = path.substring_char(path_chars - (w - 1), path_chars);
        return (String::from_str("\u{2026}").concat(tail), false);
    }
    if name_chars <= w {
        return (String::from_str(name), false);
    }
    (String::from_str(name.substring_char(0, w)), false)
}

/// What the status bar shows.
pub struct StatusBarState<'a> {
    pub branch: &'a BranchInfo,
    pub staged_count: usize,
    pub unstaged_count: usize,
    pub untracked_count: usize,
    pub confirm_prompt: Option<&'a ConfirmPrompt>,
    pub flash_message: Option<&'a FlashMessage>,
}

/// Which line the status bar shows.
#[derive(Debug, Clone, Copy, PartialEq, Eq, Structural)]
pub enum StatusLine {
    Prompt,
    Flash,
    Summary,
}

/// A pending prompt takes the bar; else a notification; else the branch and
/// the counts.
pub fn status_line(state: &StatusBarState) -> (r: StatusLine)
    ensures
        r == if state.confirm_prompt is Some {
            StatusLine::Prompt
        } else if state.flash_message is Some {
            StatusLine::Flash
        } else {
            StatusLine::Summary
        },
{
    if state.confirm_prompt.is_some() {
        StatusLine::Prompt
    } else if state.flash_message.is_some() {
        StatusLine::Flash
    } else {
        StatusLine::Summary
    }
}

/// The marker before a file row: `>` when highlighted, a dot when selected.
pub open spec fn spec_row_prefix(highlighted: bool, selected: bool) -> Seq<char> {
    if highlighted && selected {
        ">\u{25cf} "@
    } else if highlighted {
        ">  "@
    } else if selected {
        " \u{25cf} "@
    } else {
        "   "@
    }
}

pub fn row_prefix(highlighted: bool, selected: bool) -> (r: &'static str)
    ensures
        r@ == spec_row_prefix(highlighted, selected),
{
    if highlighted && selected {
        ">\u{25cf} "
    } else if highlighted {
        ">  "
    } else if selected {
        " \u{25cf} "
    } else {
        "   "
    }
}

/// Nesting shown for a row: two spaces per level, at most four levels.
pub open spec fn indent_cells(level: nat) -> nat {
    2 * if level < 4 { level } else { 4 }
}

/// The cells a file row has for its path: the width less the prefix (its
/// byte length), the status symbol and a space, the indent, the counts and
/// two more cells; at least 0.
pub open spec fn spec_path_room(width: nat, prefix_len: nat, level: nat, counts_len: nat) -> nat {
    let fixed = prefix_len + 2 + indent_cells(level) + counts_len + 2;
    if width > fixed {
        (width - fixed) as nat
    } else {
        0
    }
}

pub fn path_room(width: u16, prefix_len: usize, level: usize, counts_len: usize) -> (r: usize)
    ensures
        r == spec_path_room(width as nat, prefix_len as nat, level as nat, counts_len as nat),
{
    let indent: u128 = 2 * if level < 4 { level as u128 } else { 4 };
    let fixed: u128 = prefix_len as u128 + 2 + indent + counts_len as u128 + 2;
    if (width as u128) > fixed {
        (width as u128 - fixed) as usize
    } else {
        0
    }
}

/// `s` cut into pieces of `cw` characters, the last one shorter.
pub open spec fn chunks(s: Seq<char>, cw: nat) -> Seq<Seq<char>>
    decreases s.len(),
{
    if cw == 0 || s.len() == 0 {
        Seq::empty()
    } else if s.len() <= cw {
        seq![s]
    } else {
        seq![s.take(cw as int)] + chunks(s.skip(cw as int), cw)
    }
}

/// The screen pieces of a diff line's content in a column `cw` wide: the
/// whole content when the column has no width or the content is empty;
/// else a first piece of up to `cw - 1` characters (the prefix takes one
/// cell), then pieces of `cw`.
pub open spec fn wrap_pieces(s: Seq<char>, cw: nat) -> Seq<Seq<char>> {
    if cw == 0 || s.len() == 0 {
        seq![s]
    } else {
        let first: int = if s.len() < cw - 1 { s.len() as int } else { cw - 1 };
        seq![s.take(first)] + chunks(s.skip(first), cw)
    }
}

proof fn lemma_chunks_len(s: Seq<char>, cw: nat)
    requires
        cw > 0,
    ensures
        chunks(s, cw).len() == (s.len() + cw - 1) / cw as int,
    decreases s.len(),
{
    if s.len() == 0 {
        assert((cw - 1) / cw as int == 0) by (nonlinear_arith)
            requires
                cw > 0,
        ;
    } else if s.len() <= cw {
        assert((s.len() + cw - 1) / cw as int == 1) by (nonlinear_arith)
            requires
                cw > 0,
                0 < s.len() <= cw,
        ;
    } else {
        lemma_chunks_len(s.skip(cw as int), cw);
        let n = s.len() as int;
        assert((n + cw - 1) / cw as int == (n - cw + cw - 1) / cw as int + 1) by (nonlinear_arith)
            requires
                cw > 0,
                n > cw,
        ;
    }
}

/// A line takes as many screen rows as it has pieces.
pub proof fn lemma_wrap_rows(s: Seq<char>, cw: nat)
    ensures
        wrap_pieces(s, cw).len() == rows_for(s.len(), cw),
{
    if cw > 0 && s.len() > 0 {
        let first: int = if s.len() < cw - 1 { s.len() as int } else { cw - 1 };
        lemma_chunks_len(s.skip(first), cw);
        if s.len() <= cw - 1 {
            assert((cw - 1) / cw as int == 0) by (nonlinear_arith)
                requires
                    cw > 0,
            ;
        }
    }
}

/// Cuts a diff line's content into screen pieces (see `wrap_pieces`).
pub fn wrap_line(content: &str, cw: usize) -> (r: Vec<String>)
    ensures
        r@.len() == wrap_pieces(content@, cw as nat).len(),
        forall|k: int| 0 <= k < r@.len() ==> #[trigger] r@[k]@ == wrap_pieces(content@, cw as nat)[k],
{
    let n = content.unicode_len();
    let mut out: Vec<String> = Vec::new();
    if cw == 0 || n == 0 {
        out.push(String::from_str(content));
        return out;
    }
    let first = if n < cw - 1 { n } else { cw - 1 };
    out.push(String::from_str(content.substring_char(0, first)));
    let ghost s = content@;
    let mut pos = first;
    proof {
        assert(s.skip(first as int).skip(0) =~= s.skip(first as int));
    }
    while pos < n
        invariant
            s == content@,
            n == s.len(),
            0 < cw,
            first <= pos <= n,
            out@.len() >= 1,
            out@[0]@ == s.take(first as int),
            chunks(s.skip(first as int), cw as nat) =~= Seq::new(
                (out@.len() - 1) as nat,
                |k: int| out@[k + 1]@,
            ) + chunks(s.skip(pos as int), cw as nat),
        decreases n - pos,
    {
        let end = if n - pos <= cw { n } else { pos + cw };
        let piece = String::from_str(content.substring_char(pos, end));
        proof {
            let rest = s.skip(pos as int);
            if rest.len() <= cw {
                assert(piece@ =~= rest);
                assert(s.skip(end as int) =~= Seq::<char>::empty());
            } else {
                assert(piece@ =~= rest.take(cw as int));
                assert(rest.skip(cw as int) =~= s.skip(end as int));
            }
        }
        let ghost before = out@;
        out.push(piece);
        proof {
            assert(Seq::new((out@.len() - 1) as nat, |k: int| out@[k + 1]@) =~= Seq::new(
                (before.len() - 1) as nat,
                |k: int| before[k + 1]@,
            ).push(piece@));
        }
        pos = end;
    }
    proof {
        assert(s.skip(n as int) =~= Seq::<char>::empty());
        let w = wrap_pieces(s, cw as nat);
        assert(w =~= seq![s.take(first as int)] + chunks(s.skip(first as int), cw as nat));
    }
    out
}

/// The width of the line-number column: the digits of the largest number,
/// at least three.
pub fn number_column_width(lines: &Vec<DiffLine>) -> (r: usize)
    ensures
        r == if decimal(max_number(lines@)).len() < 3 { 3 } else { decimal(max_number(lines@)).len() },
        r <= 20,
{
    let digits = decimal_len(max_line_number(lines));
    if digits < 3 { 3 } else { digits }
}

/// The width left for diff content in a viewport `width` cells wide.
pub fn diff_content_width(lines: &Vec<DiffLine>, width: usize) -> (r: usize)
    ensures
        r == content_width(lines@, width as nat),
{
    let gutter = number_column_width(lines) + 3;
    if width > gutter { width - gutter } else { 0 }
}

} // verus!
