//! Properties that relate several operations of the session.

use crate::actions::conflict_count;
use crate::actions::discard_all_targets;
use crate::actions::inverse_change;
use crate::diff::spec_untracked_diff;
use crate::diff::untracked_headers;
use crate::session::first_entry;
use crate::session::spec_diff_action;
use crate::session::DiffAction;
use crate::session::RequestModel;
use crate::text::text_lines;
use crate::types::DiffLineKind;
use crate::types::DiffModel;
use crate::types::FileStatus;
use vstd::utf8::decode_utf8;
use vstd::utf8::valid_utf8;
use crate::actions::recorded;
use crate::session::clamp;
use crate::session::refresh_diff;
use crate::session::refresh_nav;
use crate::session::scroll_for;
use crate::session::toggled;
use crate::session::Nav;
use crate::status::strings_view;
use crate::types::FileEntry;
use crate::types::Section;
use crate::types::UndoAction;
use vstd::prelude::*;

verus! {

proof fn lemma_scroll_idempotent(v: nat, scroll: nat, height: nat)
    ensures
        scroll_for(v, scroll_for(v, scroll, height), height) == scroll_for(v, scroll, height),
{
}

/// Refreshing twice against the same classification, with nothing in
/// between, leaves the navigation (highlight, selection, multi-select, scroll
/// positions) and the diff outcome as a single refresh left them.
pub proof fn lemma_refresh_idempotent(
    n: Nav,
    rows: Seq<(Section, Seq<char>)>,
    staged_len: nat,
    unstaged_len: nat,
    height: nat,
    staged: Seq<FileEntry>,
    unstaged: Seq<FileEntry>,
)
    ensures
        refresh_nav(refresh_nav(n, rows, staged_len, unstaged_len, height), rows, staged_len, unstaged_len, height)
            == refresh_nav(n, rows, staged_len, unstaged_len, height),
        refresh_diff(refresh_nav(n, rows, staged_len, unstaged_len, height), rows, staged, unstaged)
            == refresh_diff(n, rows, staged, unstaged),
{
    let once = refresh_nav(n, rows, staged_len, unstaged_len, height);
    let twice = refresh_nav(once, rows, staged_len, unstaged_len, height);
    if rows.len() > 0 {
        let p = |k: (Section, Seq<char>)| rows.contains(k);
        assert(once.multi.filter(p) =~= once.multi);
        let h = once.highlight.unwrap();
        let v = crate::session::visual_row(staged_len, unstaged_len, h as nat);
        lemma_scroll_idempotent(v, n.scroll as nat, height);
        assert(twice.scroll == once.scroll);
        assert(twice == once);
    }
}

/// Moving the highlight by at least the list's length lands on the last row;
/// by at least the length backwards, on the first.
pub proof fn lemma_highlight_extremes(len: nat, current: nat, delta: int)
    requires
        len > 0,
        current < len,
    ensures
        delta >= len ==> clamp(current + delta, 0, len - 1) == len - 1,
        delta <= -(len as int) ==> clamp(current + delta, 0, len - 1) == 0,
        0 <= clamp(current + delta, 0, len - 1) < len,
{
}

/// Toggling row A, moving, then toggling row B leaves both in the
/// multi-select set (navigation leaves the set alone); pruning to rows that
/// still list A but no longer B then leaves exactly A.
pub proof fn lemma_multi_select_survives(a: (Section, Seq<char>), b: (Section, Seq<char>), rows: Seq<(Section, Seq<char>)>)
    requires
        a != b,
    ensures
        toggled(toggled(Set::empty(), a), b).contains(a),
        toggled(toggled(Set::empty(), a), b).contains(b),
        rows.contains(a) && !rows.contains(b) ==> toggled(toggled(Set::empty(), a), b).filter(
            |k: (Section, Seq<char>)| rows.contains(k),
        ) == set![a],
{
    let m = toggled(toggled(Set::<(Section, Seq<char>)>::empty(), a), b);
    assert(m =~= set![a, b]);
    if rows.contains(a) && !rows.contains(b) {
        assert(m.filter(|k: (Section, Seq<char>)| rows.contains(k)) =~= set![a]);
    }
}

/// Undoing a recorded staging unstages exactly the paths it staged (and
/// undoing an unstaging restages exactly its paths).
pub proof fn lemma_undo_exact(before: Option<UndoAction>, paths: Vec<String>)
    requires
        paths@.len() > 0,
    ensures
        recorded(before, UndoAction::Stage { paths }) matches Some(a) && inverse_change(a) == (false, strings_view(paths@)),
        recorded(before, UndoAction::Unstage { paths }) matches Some(a) && inverse_change(a) == (true, strings_view(paths@)),
{
}

/// Selecting an untracked, non-binary entry asks for its working-tree
/// contents; for a readable text file of `n` lines the diff then shows, after
/// its headers, exactly `n` added rows numbered 1 to `n`, holding the file's
/// lines in order, and no deleted or context row.
pub proof fn lemma_untracked_selection(
    path: Seq<char>,
    staged: Seq<FileEntry>,
    unstaged: Seq<FileEntry>,
    content: Seq<u8>,
)
    requires
        first_entry(unstaged, path) matches Some(e) && e.status == FileStatus::Untracked && !e.is_binary,
        valid_utf8(content),
    ensures
        spec_diff_action(Some((Section::Unstaged, path)), staged, unstaged) == DiffAction::Request(
            RequestModel::Untracked { path },
        ),
        spec_untracked_diff(path, Some(content)) matches DiffModel::Text(rows) && {
            let lines = text_lines(content);
            let h = untracked_headers(path).len() + if lines.len() > 0 { 1int } else { 0int };
            &&& rows.len() == h + lines.len()
            &&& forall|j: int| 0 <= j < rows.len() ==> ((#[trigger] rows[j]).kind == DiffLineKind::Added <==> j >= h)
            &&& forall|j: int| 0 <= j < rows.len() ==> (#[trigger] rows[j]).kind != DiffLineKind::Deleted && rows[j].kind
                != DiffLineKind::Context
            &&& forall|k: int| 0 <= k < lines.len() ==> (#[trigger] rows[h + k]).new_line_number == Some((k + 1) as usize)
                && rows[h + k].content == decode_utf8(lines[k])
        },
{
}

/// `t` is the discard target of a non-conflicted entry of `list`.
pub open spec fn target_of_entry(list: Seq<FileEntry>, t: (Seq<char>, bool)) -> bool {
    exists|i: int|
        0 <= i < list.len() && (#[trigger] list[i]).status != FileStatus::Conflict && t == (
            list[i].path@,
            list[i].status == FileStatus::Untracked,
        )
}

/// A bulk discard targets unstaged entries other than conflicts, each
/// untracked one for deletion, and counts every conflict as skipped: targets
/// and skipped conflicts together account for each entry once.
pub proof fn lemma_discard_all_accounts(list: Seq<FileEntry>)
    ensures
        discard_all_targets(list).len() + conflict_count(list) == list.len(),
        forall|j: int|
            0 <= j < discard_all_targets(list).len() ==> target_of_entry(list, #[trigger] discard_all_targets(list)[j]),
    decreases list.len(),
{
    if list.len() > 0 {
        let pre = list.drop_last();
        lemma_discard_all_accounts(pre);
        let t = discard_all_targets(list);
        let tp = discard_all_targets(pre);
        assert forall|j: int| 0 <= j < t.len() implies target_of_entry(list, #[trigger] t[j]) by {
            if j < tp.len() {
                assert(t[j] == tp[j]);
                assert(target_of_entry(pre, tp[j]));
                let i = choose|i: int|
                    0 <= i < pre.len() && (#[trigger] pre[i]).status != FileStatus::Conflict && tp[j] == (
                        pre[i].path@,
                        pre[i].status == FileStatus::Untracked,
                    );
                assert(list[i] == pre[i]);
            } else {
                assert(list[list.len() - 1] == list.last());
            }
        }
    }
}

} // verus!
