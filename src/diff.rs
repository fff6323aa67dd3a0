//! The diff materializer: the engine's patch output for one path becomes a
//! structured, line-addressable diff, or a sentinel for binary, unreadable or
//! empty content.

use crate::decimal::decimal;
use crate::decimal::decimal_text;
use crate::status::any_true;
use crate::status::bytes_view;
use crate::text::decode_utf8_bytes;
use crate::text::lemma_text_lines_valid;
use crate::text::split_lines;
use crate::text::text_lines;
use crate::text::NEWLINE;
use crate::types::lines_view;
use crate::types::DiffContent;
use crate::types::DiffLine;
use crate::types::DiffLineKind;
use crate::types::DiffModel;
use crate::types::LineModel;
use vstd::prelude::*;
use vstd::utf8::decode_utf8;
use vstd::utf8::valid_utf8;

verus! {

/// One line of the engine's patch output: its origin marker (`F` file
/// header, `H` hunk header, `+`, `-`, ` `, or another), its raw bytes, and
/// the new-file start line of its hunk when the engine gave one.
#[derive(Debug, Clone)]
pub struct RawPatchLine {
    pub origin: char,
    pub content: Vec<u8>,
    pub hunk_new_start: Option<u32>,
}

/// The engine's single-path patch: the binary flag of each delta, the lines it
/// printed, and whether printing ran to the end.
#[derive(Debug, Clone)]
pub struct PatchOutput {
    pub delta_binary: Vec<bool>,
    pub lines: Vec<RawPatchLine>,
    pub printed: bool,
}

/// A row before its bytes are decoded.
pub ghost struct RawRow {
    pub kind: DiffLineKind,
    pub bytes: Seq<u8>,
    pub number: Option<usize>,
}

pub const AT_SIGN: u8 = 64;

/// `b` without its trailing newlines.
pub open spec fn trim_newlines(b: Seq<u8>) -> Seq<u8>
    decreases b.len(),
{
    if b.len() > 0 && b.last() == NEWLINE {
        trim_newlines(b.drop_last())
    } else {
        b
    }
}

/// `b` begins with the hunk marker `@@`.
pub open spec fn starts_hunk(b: Seq<u8>) -> bool {
    b.len() >= 2 && b[0] == AT_SIGN && b[1] == AT_SIGN
}

/// The running new-file line number after a numbered row.
pub open spec fn bump(n: Option<usize>) -> Option<usize> {
    match n {
        Some(v) => Some(if v < usize::MAX { (v + 1) as usize } else { v }),
        None => None,
    }
}

pub open spec fn header_row(p: Seq<u8>) -> RawRow {
    RawRow {
        kind: if starts_hunk(p) {
            DiffLineKind::Hunk
        } else {
            DiffLineKind::Header
        },
        bytes: p,
        number: None,
    }
}

pub open spec fn header_rows(pieces: Seq<Seq<u8>>) -> Seq<RawRow> {
    pieces.map_values(|p: Seq<u8>| header_row(p))
}

/// The rows one patch line yields, and the running new-file line number after
/// it. A file header becomes one row per physical line (hunk rows for those
/// starting with `@@`); a hunk header resets the number to the hunk's start;
/// added and context rows take the number and advance it; deleted rows have
/// none and leave it.
pub open spec fn step(l: RawPatchLine, ctr: Option<usize>) -> (Seq<RawRow>, Option<usize>) {
    let c = trim_newlines(l.content@);
    if l.origin == 'F' {
        (header_rows(text_lines(l.content@)), ctr)
    } else if l.origin == 'H' {
        (
            seq![RawRow { kind: DiffLineKind::Hunk, bytes: c, number: None }],
            match l.hunk_new_start {
                Some(s) => Some(s as usize),
                None => ctr,
            },
        )
    } else if l.origin == '+' {
        (seq![RawRow { kind: DiffLineKind::Added, bytes: c, number: ctr }], bump(ctr))
    } else if l.origin == ' ' {
        (seq![RawRow { kind: DiffLineKind::Context, bytes: c, number: ctr }], bump(ctr))
    } else if l.origin == '-' {
        (seq![RawRow { kind: DiffLineKind::Deleted, bytes: c, number: None }], ctr)
    } else {
        (seq![RawRow { kind: DiffLineKind::Header, bytes: c, number: None }], ctr)
    }
}

/// The rows of a run of patch lines, and the running number after them.
pub open spec fn rows_of(ls: Seq<RawPatchLine>) -> (Seq<RawRow>, Option<usize>)
    decreases ls.len(),
{
    if ls.len() == 0 {
        (Seq::empty(), None)
    } else {
        let prev = rows_of(ls.drop_last());
        let st = step(ls.last(), prev.1);
        (prev.0 + st.0, st.1)
    }
}

/// Only context and added rows carry a new-file line number.
pub proof fn lemma_numbers_only_on_new_side(ls: Seq<RawPatchLine>)
    ensures
        forall|j: int|
            0 <= j < rows_of(ls).0.len() && (#[trigger] rows_of(ls).0[j]).number is Some ==> rows_of(ls).0[j].kind
                == DiffLineKind::Context || rows_of(ls).0[j].kind == DiffLineKind::Added,
    decreases ls.len(),
{
    if ls.len() > 0 {
        lemma_numbers_only_on_new_side(ls.drop_last());
        let prev = rows_of(ls.drop_last());
        let st = step(ls.last(), prev.1);
        assert forall|j: int|
            0 <= j < rows_of(ls).0.len() && (#[trigger] rows_of(ls).0[j]).number is Some implies rows_of(ls).0[j].kind
                == DiffLineKind::Context || rows_of(ls).0[j].kind == DiffLineKind::Added by {
            if j < prev.0.len() {
                assert(rows_of(ls).0[j] == prev.0[j]);
            } else {
                assert(rows_of(ls).0[j] == st.0[j - prev.0.len()]);
            }
        }
    }
}

pub open spec fn row_valid(r: RawRow) -> bool {
    valid_utf8(r.bytes)
}

pub open spec fn decode_row(r: RawRow) -> LineModel {
    LineModel { kind: r.kind, content: decode_utf8(r.bytes), new_line_number: r.number }
}

/// Rows as the diff pane shows them: unreadable if one is not text, empty if
/// there are none.
pub open spec fn rows_model(rows: Seq<RawRow>) -> DiffModel {
    if exists|j: int| 0 <= j < rows.len() && !row_valid(#[trigger] rows[j]) {
        DiffModel::InvalidUtf8
    } else if rows.len() == 0 {
        DiffModel::Empty
    } else {
        DiffModel::Text(rows.map_values(|r: RawRow| decode_row(r)))
    }
}

/// The diff of a tracked path from the engine's patch (`None` when no diff
/// could be made): binary if a delta is; unreadable if a line's bytes are not
/// text; empty if printing failed or yielded nothing; the rows otherwise.
pub open spec fn spec_patch_diff(p: Option<PatchOutput>) -> DiffModel {
    match p {
        None => DiffModel::Empty,
        Some(p) => if p.delta_binary@.contains(true) {
            DiffModel::Binary
        } else if exists|k: int| 0 <= k < p.lines@.len() && !valid_utf8((#[trigger] p.lines@[k]).content@) {
            DiffModel::InvalidUtf8
        } else if !p.printed {
            DiffModel::Empty
        } else {
            rows_model(rows_of(p.lines@).0)
        },
    }
}

/// `b` without its trailing newlines.
fn trim_trailing_newlines(b: &Vec<u8>) -> (r: Vec<u8>)
    ensures
        r@ == trim_newlines(b@),
{
    let mut end = b.len();
    assert(b@.subrange(0, end as int) =~= b@);
    while end > 0 && b[end - 1] == NEWLINE
        invariant
            end <= b@.len(),
            trim_newlines(b@) == trim_newlines(b@.subrange(0, end as int)),
        decreases end,
    {
        assert(b@.subrange(0, end as int).drop_last() =~= b@.subrange(0, end - 1));
        end = end - 1;
    }
    let mut out: Vec<u8> = Vec::new();
    let mut k: usize = 0;
    while k < end
        invariant
            k <= end <= b@.len(),
            out@ =~= b@.subrange(0, k as int),
        decreases end - k,
    {
        out.push(b[k]);
        k = k + 1;
    }
    out
}

fn starts_with_hunk_marker(b: &Vec<u8>) -> (r: bool)
    ensures
        r == starts_hunk(b@),
{
    b.len() >= 2 && b[0] == AT_SIGN && b[1] == AT_SIGN
}

fn next_number(n: Option<usize>) -> (r: Option<usize>)
    ensures
        r == bump(n),
{
    match n {
        Some(v) => Some(if v < usize::MAX { v + 1 } else { v }),
        None => None,
    }
}

proof fn lemma_rows_prefix(ls: Seq<RawPatchLine>, i: int, j: int)
    requires
        0 <= i <= j <= ls.len(),
    ensures
        rows_of(ls.subrange(0, i)).0 =~= rows_of(ls.subrange(0, j)).0.subrange(0, rows_of(ls.subrange(0, i)).0.len() as int),
        rows_of(ls.subrange(0, i)).0.len() <= rows_of(ls.subrange(0, j)).0.len(),
    decreases j - i,
{
    if i < j {
        lemma_rows_prefix(ls, i, j - 1);
        assert(ls.subrange(0, j).drop_last() =~= ls.subrange(0, j - 1));
    }
}

/// Decodes one row; `None` when its bytes are not text.
fn make_row(kind: DiffLineKind, bytes: &Vec<u8>, number: Option<usize>) -> (r: Option<DiffLine>)
    ensures
        r is Some == valid_utf8(bytes@),
        r matches Some(l) ==> l@ == decode_row(RawRow { kind, bytes: bytes@, number }),
{
    match decode_utf8_bytes(bytes.as_slice()) {
        Some(content) => Some(DiffLine { kind, content, new_line_number: number }),
        None => None,
    }
}

/// Materializes the patch of a tracked path (`None` when the engine could not
/// make the diff).
pub fn get_diff(patch: &Option<PatchOutput>) -> (r: DiffContent)
    ensures
        r@ == spec_patch_diff(*patch),
{
    let p = match patch {
        None => return DiffContent::Empty,
        Some(p) => p,
    };
    if any_true(&p.delta_binary) {
        return DiffContent::Binary;
    }
    let mut k: usize = 0;
    while k < p.lines.len()
        invariant
            *patch == Some(*p),
            !p.delta_binary@.contains(true),
            k <= p.lines@.len(),
            forall|q: int| 0 <= q < k ==> valid_utf8((#[trigger] p.lines@[q]).content@),
        decreases p.lines@.len() - k,
    {
        if decode_utf8_bytes(p.lines[k].content.as_slice()).is_none() {
            assert(!valid_utf8(p.lines@[k as int].content@));
            return DiffContent::InvalidUtf8;
        }
        k = k + 1;
    }
    if !p.printed {
        return DiffContent::Empty;
    }
    let ghost ls = p.lines@;
    let mut rows: Vec<DiffLine> = Vec::new();
    let mut ctr: Option<usize> = None;
    let mut i: usize = 0;
    assert(ls.subrange(0, 0) =~= Seq::<RawPatchLine>::empty());
    while i < p.lines.len()
        invariant
            *patch == Some(*p),
            !p.delta_binary@.contains(true),
            p.printed,
            forall|q: int| 0 <= q < p.lines@.len() ==> valid_utf8((#[trigger] p.lines@[q]).content@),
            ls == p.lines@,
            i <= ls.len(),
            ctr == rows_of(ls.subrange(0, i as int)).1,
            forall|j: int| 0 <= j < rows_of(ls.subrange(0, i as int)).0.len()
                ==> row_valid(#[trigger] rows_of(ls.subrange(0, i as int)).0[j]),
            lines_view(rows@) =~= rows_of(ls.subrange(0, i as int)).0.map_values(|r: RawRow| decode_row(r)),
        decreases ls.len() - i,
    {
        let line = &p.lines[i];
        let ghost prev = rows_of(ls.subrange(0, i as int));
        let ghost st = step(*line, ctr);
        proof {
            assert(ls.subrange(0, i + 1).drop_last() =~= ls.subrange(0, i as int));
            assert(rows_of(ls.subrange(0, i + 1)) == (prev.0 + st.0, st.1));
        }
        if line.origin == 'F' {
            let pieces = split_lines(&line.content);
            let mut j: usize = 0;
            while j < pieces.len()
                invariant
                    *patch == Some(*p),
                    !p.delta_binary@.contains(true),
                    p.printed,
                    forall|q: int| 0 <= q < p.lines@.len() ==> valid_utf8((#[trigger] p.lines@[q]).content@),
                    ls == p.lines@,
                    i < ls.len(),
                    *line == ls[i as int],
                    prev == rows_of(ls.subrange(0, i as int)),
                    st == step(*line, ctr),
                    rows_of(ls.subrange(0, i + 1)) == (prev.0 + st.0, st.1),
                    line.origin == 'F',
                    j <= pieces@.len(),
                    pieces@.len() == text_lines(line.content@).len(),
                    forall|q: int| 0 <= q < pieces@.len() ==> #[trigger] pieces@[q]@ == text_lines(line.content@)[q],
                    forall|q: int| 0 <= q < prev.0.len() + j ==> row_valid(#[trigger] (prev.0 + st.0)[q]),
                    st.0 == header_rows(text_lines(line.content@)),
                    lines_view(rows@) =~= (prev.0 + st.0).subrange(0, prev.0.len() + j).map_values(|r: RawRow| decode_row(r)),
                decreases pieces@.len() - j,
            {
                let piece = &pieces[j];
                let kind = if starts_with_hunk_marker(piece) { DiffLineKind::Hunk } else { DiffLineKind::Header };
                let ghost before = lines_view(rows@);
                match make_row(kind, piece, None) {
                    None => {
                        proof {
                            let all = rows_of(ls).0;
                            lemma_rows_prefix(ls, i + 1, ls.len() as int);
                            assert(ls.subrange(0, ls.len() as int) =~= ls);
                            assert((prev.0 + st.0)[prev.0.len() + j] == header_row(piece@));
                            assert(all[prev.0.len() + j] == (prev.0 + st.0)[prev.0.len() + j]);
                            assert(!row_valid(all[prev.0.len() + j]));
                            assert(rows_model(all) == DiffModel::InvalidUtf8);
                        }
                        return DiffContent::InvalidUtf8;
                    },
                    Some(row) => {
                        rows.push(row);
                        proof {
                            assert((prev.0 + st.0)[prev.0.len() + j] == header_row(piece@));
                            assert(lines_view(rows@) =~= before.push(row@));
                        }
                    },
                }
                j = j + 1;
            }
            proof {
                assert((prev.0 + st.0).subrange(0, prev.0.len() + j) =~= prev.0 + st.0);
            }
        } else {
            let kind = if line.origin == 'H' {
                DiffLineKind::Hunk
            } else if line.origin == '+' {
                DiffLineKind::Added
            } else if line.origin == ' ' {
                DiffLineKind::Context
            } else if line.origin == '-' {
                DiffLineKind::Deleted
            } else {
                DiffLineKind::Header
            };
            let number = if line.origin == '+' || line.origin == ' ' { ctr } else { None };
            let bytes = trim_trailing_newlines(&line.content);
            let ghost before = lines_view(rows@);
            match make_row(kind, &bytes, number) {
                None => {
                    proof {
                        let all = rows_of(ls).0;
                        lemma_rows_prefix(ls, i + 1, ls.len() as int);
                        assert(ls.subrange(0, ls.len() as int) =~= ls);
                        assert(all[prev.0.len() as int] == (prev.0 + st.0)[prev.0.len() as int]);
                        assert(!row_valid(all[prev.0.len() as int]));
                        assert(rows_model(all) == DiffModel::InvalidUtf8);
                    }
                    return DiffContent::InvalidUtf8;
                },
                Some(row) => {
                    rows.push(row);
                    proof {
                        assert(lines_view(rows@) =~= before.push(row@));
                    }
                },
            }
            if line.origin == 'H' {
                match line.hunk_new_start {
                    Some(s) => {
                        ctr = Some(s as usize);
                    },
                    None => {},
                }
            } else if line.origin == '+' || line.origin == ' ' {
                ctr = next_number(ctr);
            }
        }
        i = i + 1;
    }
    proof {
        assert(ls.subrange(0, ls.len() as int) =~= ls);
    }
    if rows.len() == 0 {
        DiffContent::Empty
    } else {
        DiffContent::Text(rows)
    }
}

pub open spec fn header_line(content: Seq<char>) -> LineModel {
    LineModel { kind: DiffLineKind::Header, content, new_line_number: None }
}

/// The header rows that present an untracked path as a newly created file.
pub open spec fn untracked_headers(path: Seq<char>) -> Seq<LineModel> {
    seq![
        header_line("diff --git a/"@ + path + " b/"@ + path),
        header_line("new file"@),
        header_line("--- /dev/null"@),
        header_line("+++ b/"@ + path),
    ]
}

/// The hunk header spanning a whole new file of `n` lines.
pub open spec fn whole_file_hunk(n: nat) -> LineModel {
    LineModel { kind: DiffLineKind::Hunk, content: "@@ -0,0 +1,"@ + decimal(n) + " @@"@, new_line_number: None }
}

/// Every line of a new file as an added row, numbered from 1.
pub open spec fn added_rows(lines: Seq<Seq<u8>>) -> Seq<LineModel> {
    Seq::new(
        lines.len(),
        |k: int| LineModel { kind: DiffLineKind::Added, content: decode_utf8(lines[k]), new_line_number: Some((k + 1) as usize) },
    )
}

/// The diff of an untracked path from its contents (`None` when it could not
/// be read): empty when unreadable; unreadable-text when the file is not
/// UTF-8; otherwise the headers, and for a non-empty file one hunk header and
/// every line added.
pub open spec fn spec_untracked_diff(path: Seq<char>, content: Option<Seq<u8>>) -> DiffModel {
    match content {
        None => DiffModel::Empty,
        Some(b) => {
            let lines = text_lines(b);
            if !valid_utf8(b) {
                DiffModel::InvalidUtf8
            } else if lines.len() == 0 {
                DiffModel::Text(untracked_headers(path))
            } else {
                DiffModel::Text(untracked_headers(path) + seq![whole_file_hunk(lines.len())] + added_rows(lines))
            }
        },
    }
}

fn header(content: String) -> (r: DiffLine)
    ensures
        r@ == header_line(content@),
{
    DiffLine { kind: DiffLineKind::Header, content, new_line_number: None }
}

/// Synthesizes the diff of an untracked path from its contents (`None` when
/// the file could not be read).
pub fn get_untracked_diff(path: &String, content: &Option<Vec<u8>>) -> (r: DiffContent)
    ensures
        r@ == spec_untracked_diff(path@, bytes_view(*content)),
{
    let b = match content {
        None => return DiffContent::Empty,
        Some(b) => b,
    };
    if decode_utf8_bytes(b.as_slice()).is_none() {
        return DiffContent::InvalidUtf8;
    }
    let pieces = split_lines(b);
    let ghost lines = text_lines(b@);
    proof {
        lemma_text_lines_valid(b@);
    }
    let mut rows: Vec<DiffLine> = Vec::new();
    rows.push(header(String::from_str("diff --git a/").concat(path.as_str()).concat(" b/").concat(path.as_str())));
    rows.push(header(String::from_str("new file")));
    rows.push(header(String::from_str("--- /dev/null")));
    rows.push(header(String::from_str("+++ b/").concat(path.as_str())));
    assert(lines_view(rows@) =~= untracked_headers(path@));
    let n = pieces.len();
    if n == 0 {
        return DiffContent::Text(rows);
    }
    let count = decimal_text(n);
    rows.push(
        DiffLine {
            kind: DiffLineKind::Hunk,
            content: String::from_str("@@ -0,0 +1,").concat(count.as_str()).concat(" @@"),
            new_line_number: None,
        },
    );
    let ghost head = untracked_headers(path@) + seq![whole_file_hunk(lines.len())];
    assert(lines_view(rows@) =~= head);
    let mut k: usize = 0;
    while k < n
        invariant
            n == pieces@.len(),
            n == lines.len(),
            lines == text_lines(b@),
            forall|q: int| 0 <= q < n ==> #[trigger] pieces@[q]@ == lines[q],
            *content == Some(*b),
            valid_utf8(b@),
            k <= n,
            forall|q: int| 0 <= q < n ==> valid_utf8(#[trigger] lines[q]),
            lines_view(rows@) =~= head + added_rows(lines).subrange(0, k as int),
        decreases n - k,
    {
        let ghost before = lines_view(rows@);
        match decode_utf8_bytes(pieces[k].as_slice()) {
            None => {
                assert(valid_utf8(lines[k as int]));
                return DiffContent::InvalidUtf8;
            },
            Some(text) => {
                rows.push(DiffLine { kind: DiffLineKind::Added, content: text, new_line_number: Some(k + 1) });
                proof {
                    let ar = added_rows(lines);
                    assert(ar[k as int] == LineModel {
                        kind: DiffLineKind::Added,
                        content: decode_utf8(lines[k as int]),
                        new_line_number: Some((k + 1) as usize),
                    });
                    assert(ar.subrange(0, k + 1) =~= ar.subrange(0, k as int).push(ar[k as int]));
                    assert(lines_view(rows@) =~= before.push(ar[k as int]));
                    assert(head + ar.subrange(0, k + 1) =~= (head + ar.subrange(0, k as int)).push(ar[k as int]));
                }
            },
        }
        k = k + 1;
    }
    assert(added_rows(lines).subrange(0, n as int) =~= added_rows(lines));
    DiffContent::Text(rows)
}

} // verus!
