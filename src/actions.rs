//! Mutating actions of the session: which paths an action touches, the
//! confirmation prompts, the undo slot, discard plans and the notifications
//! that report them.

use crate::decimal::decimal;
use crate::decimal::decimal_text;
use crate::flash::FlashMessage;
use crate::select::key_view;
use crate::select::keys_view;
use crate::session::App;
use crate::session::Nav;
use crate::status::strings_view;
use crate::status::StatusResult;
use crate::types::ConfirmAction;
use crate::types::ConfirmPrompt;
use crate::types::FileEntry;
use crate::types::FileStatus;
use crate::types::Section;
use crate::types::UndoAction;
use vstd::prelude::*;

verus! {

/// How long a notification stays up, in nanoseconds.
pub const FLASH_TIMEOUT_NS: u128 = 3_000_000_000;

pub open spec fn spec_plural(count: nat) -> Seq<char> {
    if count == 1 {
        Seq::empty()
    } else {
        seq!['s']
    }
}

/// The plural ending for `count` things.
pub fn plural_s(count: usize) -> (r: &'static str)
    ensures
        r@ == spec_plural(count as nat),
{
    if count == 1 {
        proof { reveal_strlit(""); }
        ""
    } else {
        proof { reveal_strlit("s"); }
        "s"
    }
}

/// `prefix`, the count, `noun` with its plural ending, then `suffix`.
pub open spec fn counted(prefix: Seq<char>, count: nat, noun: Seq<char>, suffix: Seq<char>) -> Seq<char> {
    prefix + decimal(count) + noun + spec_plural(count) + suffix
}

/// Builds `prefix`, the count, `noun` with its plural ending, then `suffix`.
pub fn counted_text(prefix: &str, count: usize, noun: &str, suffix: &str) -> (r: String)
    ensures
        r@ == counted(prefix@, count as nat, noun@, suffix@),
{
    let n = decimal_text(count);
    String::from_str(prefix).concat(n.as_str()).concat(noun).concat(plural_s(count)).concat(suffix)
}

/// "Staged N file(s)".
pub fn staged_message(count: usize) -> (r: String)
    ensures
        r@ == counted("Staged "@, count as nat, " file"@, ""@),
{
    counted_text("Staged ", count, " file", "")
}

/// "Unstaged N file(s)".
pub fn unstaged_message(count: usize) -> (r: String)
    ensures
        r@ == counted("Unstaged "@, count as nat, " file"@, ""@),
{
    counted_text("Unstaged ", count, " file", "")
}

/// "Discarded N file(s)".
pub fn discarded_message(count: usize) -> (r: String)
    ensures
        r@ == counted("Discarded "@, count as nat, " file"@, ""@),
{
    counted_text("Discarded ", count, " file", "")
}

/// The notification after a bulk discard, and whether it is an error: the
/// files discarded and the conflicts skipped; nothing when neither happened.
pub open spec fn spec_discard_all_message(count: nat, skipped: nat) -> Option<(Seq<char>, bool)> {
    if count > 0 && skipped > 0 {
        Some((counted("Discarded "@, count, " file"@, " ("@) + counted(""@, skipped, " conflict"@, " skipped)"@), false))
    } else if count > 0 {
        Some((counted("Discarded "@, count, " file"@, ""@), false))
    } else if skipped > 0 {
        Some((counted("No files discarded ("@, skipped, " conflict"@, " skipped)"@), true))
    } else {
        None
    }
}

/// The notification after a bulk discard (see `spec_discard_all_message`).
pub fn discard_all_message(count: usize, skipped: usize) -> (r: Option<(String, bool)>)
    ensures
        match r {
            Some((t, e)) => spec_discard_all_message(count as nat, skipped as nat) == Some((t@, e)),
            None => spec_discard_all_message(count as nat, skipped as nat) is None,
        },
{
    if count > 0 && skipped > 0 {
        let a = counted_text("Discarded ", count, " file", " (");
        let b = counted_text("", skipped, " conflict", " skipped)");
        Some((a.concat(b.as_str()), false))
    } else if count > 0 {
        Some((counted_text("Discarded ", count, " file", ""), false))
    } else if skipped > 0 {
        Some((counted_text("No files discarded (", skipped, " conflict", " skipped)"), true))
    } else {
        None
    }
}

/// Some entry of `list` has path `path` and status `status`.
pub open spec fn has_entry(list: Seq<FileEntry>, path: Seq<char>, status: FileStatus) -> bool {
    exists|k: int| 0 <= k < list.len() && (#[trigger] list[k]).path@ == path && list[k].status == status
}

fn has_entry_exec(list: &Vec<FileEntry>, path: &String, status: FileStatus) -> (r: bool)
    ensures
        r == has_entry(list@, path@, status),
{
    let mut i: usize = 0;
    while i < list.len()
        invariant
            i <= list@.len(),
            forall|k: int| 0 <= k < i ==> !((#[trigger] list@[k]).path@ == path@ && list@[k].status == status),
        decreases list@.len() - i,
    {
        if list[i].path == *path && list[i].status == status {
            assert(list@[i as int].path@ == path@);
            return true;
        }
        i = i + 1;
    }
    false
}

/// The paths of the keys of `section`, in order.
pub open spec fn section_paths(keys: Seq<(Section, Seq<char>)>, section: Section) -> Seq<Seq<char>>
    decreases keys.len(),
{
    if keys.len() == 0 {
        Seq::empty()
    } else {
        section_paths(keys.drop_last(), section) + if keys.last().0 == section {
            seq![keys.last().1]
        } else {
            Seq::empty()
        }
    }
}

/// The paths of `keys` in `section`, in order.
pub fn paths_in_section(keys: &Vec<(Section, String)>, section: Section) -> (r: Vec<String>)
    ensures
        strings_view(r@) == section_paths(keys_view(keys@), section),
{
    let mut out: Vec<String> = Vec::new();
    let mut i: usize = 0;
    assert(keys_view(keys@).subrange(0, 0) =~= Seq::<(Section, Seq<char>)>::empty());
    while i < keys.len()
        invariant
            i <= keys@.len(),
            strings_view(out@) == section_paths(keys_view(keys@).subrange(0, i as int), section),
        decreases keys@.len() - i,
    {
        let ghost before = strings_view(out@);
        assert(keys_view(keys@).subrange(0, i + 1).drop_last() =~= keys_view(keys@).subrange(0, i as int));
        if keys[i].0 == section {
            out.push(keys[i].1.clone());
            assert(strings_view(out@) =~= before.push(keys@[i as int].1@));
        }
        assert(strings_view(out@) =~= section_paths(keys_view(keys@).subrange(0, i + 1), section));
        i = i + 1;
    }
    assert(keys_view(keys@).subrange(0, i as int) =~= keys_view(keys@));
    out
}

/// The paths of every entry, in order.
pub fn entry_paths(list: &Vec<FileEntry>) -> (r: Vec<String>)
    ensures
        strings_view(r@) == list@.map_values(|e: FileEntry| e.path@),
{
    let mut out: Vec<String> = Vec::new();
    let mut i: usize = 0;
    while i < list.len()
        invariant
            i <= list@.len(),
            strings_view(out@) =~= list@.subrange(0, i as int).map_values(|e: FileEntry| e.path@),
        decreases list@.len() - i,
    {
        let ghost before = strings_view(out@);
        out.push(list[i].path.clone());
        assert(strings_view(out@) =~= before.push(list@[i as int].path@));
        assert(list@.subrange(0, i + 1) =~= list@.subrange(0, i as int).push(list@[i as int]));
        i = i + 1;
    }
    assert(list@.subrange(0, i as int) =~= list@);
    out
}

fn clone_strings(v: &Vec<String>) -> (r: Vec<String>)
    ensures
        strings_view(r@) == strings_view(v@),
{
    let mut out: Vec<String> = Vec::new();
    let mut i: usize = 0;
    while i < v.len()
        invariant
            i <= v@.len(),
            strings_view(out@) =~= strings_view(v@).subrange(0, i as int),
        decreases v@.len() - i,
    {
        let ghost before = strings_view(out@);
        out.push(v[i].clone());
        assert(strings_view(out@) =~= before.push(v@[i as int]@));
        i = i + 1;
    }
    out
}

/// An index mutation, over mathematical values: stage (`true`) or unstage,
/// and the paths.
pub open spec fn change_view(c: IndexChange) -> (bool, Seq<Seq<char>>) {
    match c {
        IndexChange::Stage(p) => (true, strings_view(p@)),
        IndexChange::Unstage(p) => (false, strings_view(p@)),
    }
}

/// The mutation that undoes `a`: the opposite one on the same paths.
pub open spec fn inverse_change(a: UndoAction) -> (bool, Seq<Seq<char>>) {
    match a {
        UndoAction::Stage { paths } => (false, strings_view(paths@)),
        UndoAction::Unstage { paths } => (true, strings_view(paths@)),
    }
}

/// The undo slot after recording `a` over `before`.
pub open spec fn recorded(before: Option<UndoAction>, a: UndoAction) -> Option<UndoAction> {
    match a {
        UndoAction::Stage { paths } => if paths@.len() > 0 { Some(a) } else { before },
        UndoAction::Unstage { paths } => if paths@.len() > 0 { Some(a) } else { before },
    }
}

/// A mutation of the index handed to the engine.
#[derive(Debug, Clone)]
pub enum IndexChange {
    Stage(Vec<String>),
    Unstage(Vec<String>),
}

/// A working-tree file to discard: an untracked one is deleted, a tracked
/// one restored from the index.
#[derive(Debug, Clone)]
pub struct DiscardTarget {
    pub path: String,
    pub untracked: bool,
}

pub open spec fn target_view(t: DiscardTarget) -> (Seq<char>, bool) {
    (t.path@, t.untracked)
}

pub open spec fn targets_view(v: Seq<DiscardTarget>) -> Seq<(Seq<char>, bool)> {
    v.map_values(|t: DiscardTarget| target_view(t))
}

/// What a bulk discard does with the unstaged entries: every entry but a
/// conflict is a target; conflicts are counted as skipped.
pub open spec fn discard_all_targets(list: Seq<FileEntry>) -> Seq<(Seq<char>, bool)>
    decreases list.len(),
{
    if list.len() == 0 {
        Seq::empty()
    } else {
        let e = list.last();
        discard_all_targets(list.drop_last()) + if e.status == FileStatus::Conflict {
            Seq::empty()
        } else {
            seq![(e.path@, e.status == FileStatus::Untracked)]
        }
    }
}

pub open spec fn conflict_count(list: Seq<FileEntry>) -> nat
    decreases list.len(),
{
    if list.len() == 0 {
        0
    } else {
        conflict_count(list.drop_last()) + if list.last().status == FileStatus::Conflict {
            1nat
        } else {
            0nat
        }
    }
}

proof fn lemma_conflict_count_le(list: Seq<FileEntry>)
    ensures
        conflict_count(list) <= list.len(),
    decreases list.len(),
{
    if list.len() > 0 {
        lemma_conflict_count_le(list.drop_last());
    }
}

/// Plans a bulk discard over a fresh status: the targets, and how many
/// conflicted files are skipped.
pub fn discard_all_plan(status: &StatusResult) -> (r: (Vec<DiscardTarget>, usize))
    ensures
        targets_view(r.0@) == discard_all_targets(status.unstaged_files@),
        r.1 == conflict_count(status.unstaged_files@),
{
    let list = &status.unstaged_files;
    let mut out: Vec<DiscardTarget> = Vec::new();
    let mut skipped: usize = 0;
    let mut i: usize = 0;
    assert(list@.subrange(0, 0) =~= Seq::<FileEntry>::empty());
    while i < list.len()
        invariant
            i <= list@.len(),
            targets_view(out@) == discard_all_targets(list@.subrange(0, i as int)),
            skipped == conflict_count(list@.subrange(0, i as int)),
        decreases list@.len() - i,
    {
        let ghost before = targets_view(out@);
        assert(list@.subrange(0, i + 1).drop_last() =~= list@.subrange(0, i as int));
        proof {
            lemma_conflict_count_le(list@.subrange(0, i as int));
        }
        if list[i].status == FileStatus::Conflict {
            skipped = skipped + 1;
        } else {
            out.push(DiscardTarget { path: list[i].path.clone(), untracked: list[i].status == FileStatus::Untracked });
            assert(targets_view(out@) =~= before.push((list@[i as int].path@, list@[i as int].status == FileStatus::Untracked)));
        }
        assert(targets_view(out@) =~= discard_all_targets(list@.subrange(0, i + 1)));
        i = i + 1;
    }
    assert(list@.subrange(0, i as int) =~= list@);
    (out, skipped)
}

impl App {
    /// The keys bulk actions apply to (see `get_action_targets`).
    pub open spec fn spec_targets(&self) -> Seq<(Section, Seq<char>)> {
        if self.multi_selected@.len() == 0 {
            match self.highlighted() {
                Some(k) => seq![k],
                None => Seq::empty(),
            }
        } else {
            self.multi_selected.spec_keys()
        }
    }

    /// Shows a success notification.
    pub fn show_flash_success(&mut self, text: &str)
        ensures
            final(self).flash_message matches Some(f) && f.text@ == text@ && !f.is_error,
            final(self).same_but_flash(old(self)),
    {
        self.flash_message = Some(FlashMessage::success(text));
    }

    /// Shows an error notification.
    pub fn show_flash_error(&mut self, text: &str)
        ensures
            final(self).flash_message matches Some(f) && f.text@ == text@ && f.is_error,
            final(self).same_but_flash(old(self)),
    {
        self.flash_message = Some(FlashMessage::error(text));
    }

    /// Reports a failed operation: "Error: " and its message.
    pub fn show_error(&mut self, message: &str)
        ensures
            final(self).flash_message matches Some(f) && f.text@ == "Error: "@ + message@ && f.is_error,
            final(self).same_but_flash(old(self)),
    {
        let text = String::from_str("Error: ").concat(message);
        self.show_flash_error(text.as_str());
    }

    /// Removes the notification.
    pub fn clear_flash(&mut self)
        ensures
            final(self).flash_message is None,
            final(self).same_but_flash(old(self)),
    {
        self.flash_message = None;
    }

    /// Removes the notification when it has been up `elapsed_ns`
    /// nanoseconds, at least the timeout.
    pub fn expire_flash(&mut self, elapsed_ns: u128)
        ensures
            final(self).flash_message == if old(self).flash_message is Some && elapsed_ns >= FLASH_TIMEOUT_NS {
                None
            } else {
                old(self).flash_message
            },
            final(self).same_but_flash(old(self)),
    {
        if self.flash_message.is_some() && elapsed_ns >= FLASH_TIMEOUT_NS {
            self.flash_message = None;
        }
    }

    /// Removes the notification once it has been up for the timeout, as the
    /// clock says (see `expire_flash`).
    pub fn check_flash_expiry(&mut self)
        ensures
            final(self).same_but_flash(old(self)),
            old(self).flash_message is None ==> final(self).flash_message is None,
            final(self).flash_message is Some ==> final(self).flash_message == old(self).flash_message,
    {
        let elapsed = match &self.flash_message {
            Some(flash) => flash.shown_at.elapsed().as_nanos(),
            None => 0,
        };
        self.expire_flash(elapsed);
    }

    /// Every field but the notification is as in `o`.
    pub open spec fn same_but_flash(&self, o: &App) -> bool {
        &&& self.same_core(o)
        &&& self.confirm_prompt == o.confirm_prompt
        &&& self.last_action == o.last_action
        &&& self.nav() == o.nav()
        &&& self.current_diff == o.current_diff
        &&& self.multi_selected == o.multi_selected
        &&& self.highlight_index == o.highlight_index
    }

    /// The paths staging applies to: the unstaged action targets, in order;
    /// staged targets are passed over.
    pub fn stage_selected_paths(&self) -> (r: Vec<String>)
        requires
            self.inv(),
        ensures
            strings_view(r@) == section_paths(self.spec_targets(), Section::Unstaged),
    {
        let targets = self.get_action_targets();
        paths_in_section(&targets, Section::Unstaged)
    }

    /// The paths unstaging applies to: the staged action targets, in order;
    /// unstaged targets are passed over.
    pub fn unstage_selected_paths(&self) -> (r: Vec<String>)
        requires
            self.inv(),
        ensures
            strings_view(r@) == section_paths(self.spec_targets(), Section::Staged),
    {
        let targets = self.get_action_targets();
        paths_in_section(&targets, Section::Staged)
    }

    /// Records a completed staging mutation: it becomes the undo action when it
    /// touched any path, and the multi-select set empties.
    pub fn record_staging(&mut self, action: UndoAction)
        requires
            old(self).inv(),
        ensures
            final(self).inv(),
            final(self).last_action == recorded(old(self).last_action, action),
            final(self).same_but_multi_and_undo(old(self)),
            final(self).flash_message == old(self).flash_message,
    {
        let touched = match &action {
            UndoAction::Stage { paths } => paths.len() > 0,
            UndoAction::Unstage { paths } => paths.len() > 0,
        };
        if touched {
            self.last_action = Some(action);
        }
        self.multi_selected.clear();
    }

    /// The mutation that undoes the recorded action: unstage what was staged,
    /// stage what was unstaged, the same paths.
    pub fn undo_change(&self) -> (r: Option<IndexChange>)
        ensures
            match self.last_action {
                None => r is None,
                Some(a) => r matches Some(c) && change_view(c) == inverse_change(a),
            },
    {
        match &self.last_action {
            None => None,
            Some(UndoAction::Stage { paths }) => Some(IndexChange::Unstage(clone_strings(paths))),
            Some(UndoAction::Unstage { paths }) => Some(IndexChange::Stage(clone_strings(paths))),
        }
    }

    /// Clears the undo slot once the inverse mutation succeeded, and gives the
    /// notification that reports it. Undo is single-level: nothing new is
    /// recorded.
    pub fn finish_undo(&mut self) -> (r: String)
        requires
            old(self).inv(),
        ensures
            final(self).inv(),
            final(self).last_action is None,
            final(self).same_but_undo(old(self)),
            match old(self).last_action {
                Some(UndoAction::Stage { paths }) => r@ == counted("Undid stage of "@, paths@.len(), " file"@, ""@),
                Some(UndoAction::Unstage { paths }) => r@ == counted("Undid unstage of "@, paths@.len(), " file"@, ""@),
                None => r@ == Seq::<char>::empty(),
            },
    {
        let message = match &self.last_action {
            Some(UndoAction::Stage { paths }) => counted_text("Undid stage of ", paths.len(), " file", ""),
            Some(UndoAction::Unstage { paths }) => counted_text("Undid unstage of ", paths.len(), " file", ""),
            None => String::new(),
        };
        self.last_action = None;
        message
    }

    /// Every field but the multi-select set, the undo slot and the
    /// notification is as in `o`, and the multi-select set is empty.
    pub open spec fn same_but_multi_and_undo(&self, o: &App) -> bool {
        &&& self.same_core(o)
        &&& self.nav() == (Nav { multi: Set::empty(), ..o.nav() })
        &&& self.current_diff == o.current_diff
        &&& self.confirm_prompt == o.confirm_prompt
    }

    /// Every field but the undo slot is as in `o`.
    pub open spec fn same_but_undo(&self, o: &App) -> bool {
        &&& self.same_core(o)
        &&& self.staged_files == o.staged_files
        &&& self.unstaged_files == o.unstaged_files
        &&& self.visible_rows == o.visible_rows
        &&& self.nav() == o.nav()
        &&& self.multi_selected == o.multi_selected
        &&& self.current_diff == o.current_diff
        &&& self.confirm_prompt == o.confirm_prompt
        &&& self.flash_message == o.flash_message
    }

    /// Records a completed discard: discards cannot be undone, so the undo
    /// slot empties, and so does the multi-select set.
    pub fn record_discard(&mut self)
        requires
            old(self).inv(),
        ensures
            final(self).inv(),
            final(self).last_action is None,
            final(self).same_but_multi_and_undo(old(self)),
            final(self).flash_message == old(self).flash_message,
    {
        self.last_action = None;
        self.multi_selected.clear();
    }

    /// Asks to stage every unstaged file; nothing when there is none.
    pub fn show_stage_all_confirm(&mut self)
        ensures
            old(self).unstaged_files@.len() == 0 ==> final(self).confirm_prompt == old(self).confirm_prompt,
            old(self).unstaged_files@.len() > 0 ==> (final(self).confirm_prompt matches Some(p) && p.action
                == ConfirmAction::StageAll && p.message@ == counted(
                "Stage "@,
                old(self).unstaged_files@.len(),
                " file"@,
                "? [y/N]"@,
            )),
            final(self).same_but_prompt(old(self)),
    {
        let count = self.unstaged_files.len();
        if count == 0 {
            return;
        }
        self.confirm_prompt = Some(
            ConfirmPrompt { message: counted_text("Stage ", count, " file", "? [y/N]"), action: ConfirmAction::StageAll },
        );
    }

    /// Asks to unstage every staged file; nothing when there is none.
    pub fn show_unstage_all_confirm(&mut self)
        ensures
            old(self).staged_files@.len() == 0 ==> final(self).confirm_prompt == old(self).confirm_prompt,
            old(self).staged_files@.len() > 0 ==> (final(self).confirm_prompt matches Some(p) && p.action
                == ConfirmAction::UnstageAll && p.message@ == counted(
                "Unstage "@,
                old(self).staged_files@.len(),
                " file"@,
                "? [y/N]"@,
            )),
            final(self).same_but_prompt(old(self)),
    {
        let count = self.staged_files.len();
        if count == 0 {
            return;
        }
        self.confirm_prompt = Some(
            ConfirmPrompt {
                message: counted_text("Unstage ", count, " file", "? [y/N]"),
                action: ConfirmAction::UnstageAll,
            },
        );
    }

    /// Every field but the prompt and the notification is as in `o`.
    pub open spec fn same_but_prompt(&self, o: &App) -> bool {
        &&& self.same_core(o)
        &&& self.staged_files == o.staged_files
        &&& self.unstaged_files == o.unstaged_files
        &&& self.visible_rows == o.visible_rows
        &&& self.nav() == o.nav()
        &&& self.multi_selected == o.multi_selected
        &&& self.highlight_index == o.highlight_index
        &&& self.current_diff == o.current_diff
        &&& self.last_action == o.last_action
    }

    /// Takes the pending prompt; on `true` hands back the action it stood for.
    pub fn handle_confirm(&mut self, confirmed: bool) -> (r: Option<ConfirmAction>)
        ensures
            final(self).confirm_prompt is None,
            match old(self).confirm_prompt {
                Some(p) => if confirmed { r == Some(p.action) } else { r is None },
                None => r is None,
            },
            final(self).same_but_prompt(old(self)),
            final(self).flash_message == old(self).flash_message,
    {
        match self.confirm_prompt.take() {
            Some(prompt) => if confirmed { Some(prompt.action) } else { None },
            None => None,
        }
    }
}

/// The keys of `section`, in order.
pub open spec fn section_keys(keys: Seq<(Section, Seq<char>)>, section: Section) -> Seq<(Section, Seq<char>)>
    decreases keys.len(),
{
    if keys.len() == 0 {
        Seq::empty()
    } else {
        section_keys(keys.drop_last(), section) + if keys.last().0 == section {
            seq![keys.last()]
        } else {
            Seq::empty()
        }
    }
}

fn keys_in_section(keys: &Vec<(Section, String)>, section: Section) -> (r: Vec<(Section, String)>)
    ensures
        keys_view(r@) == section_keys(keys_view(keys@), section),
{
    let mut out: Vec<(Section, String)> = Vec::new();
    let mut i: usize = 0;
    assert(keys_view(keys@).subrange(0, 0) =~= Seq::<(Section, Seq<char>)>::empty());
    while i < keys.len()
        invariant
            i <= keys@.len(),
            keys_view(out@) == section_keys(keys_view(keys@).subrange(0, i as int), section),
        decreases keys@.len() - i,
    {
        let ghost before = keys_view(out@);
        assert(keys_view(keys@).subrange(0, i + 1).drop_last() =~= keys_view(keys@).subrange(0, i as int));
        if keys[i].0 == section {
            out.push((keys[i].0, keys[i].1.clone()));
            assert(keys_view(out@) =~= before.push(key_view(keys@[i as int])));
        }
        assert(keys_view(out@) =~= section_keys(keys_view(keys@).subrange(0, i + 1), section));
        i = i + 1;
    }
    assert(keys_view(keys@).subrange(0, i as int) =~= keys_view(keys@));
    out
}

/// Some key names an entry of `list` with `status`.
pub open spec fn any_with_status(keys: Seq<(Section, Seq<char>)>, list: Seq<FileEntry>, status: FileStatus) -> bool {
    exists|k: int| 0 <= k < keys.len() && has_entry(list, (#[trigger] keys[k]).1, status)
}

fn any_with_status_exec(keys: &Vec<(Section, String)>, list: &Vec<FileEntry>, status: FileStatus) -> (r: bool)
    ensures
        r == any_with_status(keys_view(keys@), list@, status),
{
    let mut i: usize = 0;
    while i < keys.len()
        invariant
            i <= keys@.len(),
            forall|k: int| 0 <= k < i ==> !has_entry(list@, (#[trigger] keys_view(keys@)[k]).1, status),
        decreases keys@.len() - i,
    {
        if has_entry_exec(list, &keys[i].1, status) {
            assert(keys_view(keys@)[i as int].1 == keys@[i as int].1@);
            return true;
        }
        i = i + 1;
    }
    false
}

/// The prompt for discarding selected files.
pub open spec fn discard_selected_message(count: nat, untracked: bool) -> Seq<char> {
    if count == 1 {
        if untracked {
            "Delete untracked file? [y/N]"@
        } else {
            "Discard changes? [y/N]"@
        }
    } else if untracked {
        "Discard "@ + decimal(count) + " changes (including untracked files)? [y/N]"@
    } else {
        "Discard "@ + decimal(count) + " changes? [y/N]"@
    }
}

/// The prompt for discarding every unstaged file.
pub open spec fn discard_all_prompt(count: nat, untracked: bool) -> Seq<char> {
    if untracked {
        counted("Discard all changes and delete untracked files ("@, count, " file"@, ")? [y/N]"@)
    } else {
        counted("Discard all changes ("@, count, " file"@, ")? [y/N]"@)
    }
}

pub open spec fn any_untracked(list: Seq<FileEntry>) -> bool {
    exists|k: int| 0 <= k < list.len() && (#[trigger] list[k]).status == FileStatus::Untracked
}

impl App {
    /// Asks to discard the unstaged action targets. Nothing happens when there
    /// are none; when one is a conflict, an error is shown instead of a prompt.
    pub fn show_discard_selected_confirm(&mut self)
        requires
            old(self).inv(),
        ensures
            final(self).inv(),
            final(self).same_but_prompt(old(self)),
            ({
                let keys = section_keys(old(self).spec_targets(), Section::Unstaged);
                if keys.len() == 0 {
                    final(self).confirm_prompt == old(self).confirm_prompt
                        && final(self).flash_message == old(self).flash_message
                } else if any_with_status(keys, old(self).unstaged_files@, FileStatus::Conflict) {
                    &&& final(self).confirm_prompt == old(self).confirm_prompt
                    &&& final(self).flash_message matches Some(f)
                    &&& f.is_error
                    &&& f.text@ == "Cannot discard conflicted files. Resolve conflicts first."@
                } else {
                    &&& final(self).flash_message == old(self).flash_message
                    &&& final(self).confirm_prompt matches Some(p)
                    &&& p.message@ == discard_selected_message(
                        keys.len(),
                        any_with_status(keys, old(self).unstaged_files@, FileStatus::Untracked),
                    )
                    &&& p.action matches ConfirmAction::DiscardSelected { paths }
                    &&& keys_view(paths@) == keys
                }
            }),
    {
        let targets = self.get_action_targets();
        let unstaged = keys_in_section(&targets, Section::Unstaged);
        if unstaged.len() == 0 {
            return;
        }
        if any_with_status_exec(&unstaged, &self.unstaged_files, FileStatus::Conflict) {
            self.show_flash_error("Cannot discard conflicted files. Resolve conflicts first.");
            return;
        }
        let has_untracked = any_with_status_exec(&unstaged, &self.unstaged_files, FileStatus::Untracked);
        let count = unstaged.len();
        let message = if count == 1 {
            if has_untracked {
                String::from_str("Delete untracked file? [y/N]")
            } else {
                String::from_str("Discard changes? [y/N]")
            }
        } else {
            let n = decimal_text(count);
            if has_untracked {
                String::from_str("Discard ").concat(n.as_str()).concat(" changes (including untracked files)? [y/N]")
            } else {
                String::from_str("Discard ").concat(n.as_str()).concat(" changes? [y/N]")
            }
        };
        self.confirm_prompt = Some(ConfirmPrompt { message, action: ConfirmAction::DiscardSelected { paths: unstaged } });
    }

    /// Asks to discard every unstaged file; nothing when there is none.
    pub fn show_discard_all_confirm(&mut self)
        ensures
            final(self).same_but_prompt(old(self)),
            final(self).flash_message == old(self).flash_message,
            old(self).unstaged_files@.len() == 0 ==> final(self).confirm_prompt == old(self).confirm_prompt,
            old(self).unstaged_files@.len() > 0 ==> (final(self).confirm_prompt matches Some(p) && p.action
                == ConfirmAction::DiscardAll && p.message@ == discard_all_prompt(
                old(self).unstaged_files@.len(),
                any_untracked(old(self).unstaged_files@),
            )),
    {
        let count = self.unstaged_files.len();
        if count == 0 {
            return;
        }
        let mut has_untracked = false;
        let mut i: usize = 0;
        while i < count
            invariant
                count == self.unstaged_files@.len(),
                i <= count,
                has_untracked == exists|k: int| 0 <= k < i && (#[trigger] self.unstaged_files@[k]).status == FileStatus::Untracked,
            decreases count - i,
        {
            if self.unstaged_files[i].status == FileStatus::Untracked {
                has_untracked = true;
            }
            i = i + 1;
        }
        let message = if has_untracked {
            counted_text("Discard all changes and delete untracked files (", count, " file", ")? [y/N]")
        } else {
            counted_text("Discard all changes (", count, " file", ")? [y/N]")
        };
        self.confirm_prompt = Some(ConfirmPrompt { message, action: ConfirmAction::DiscardAll });
    }

    /// The files a confirmed selective discard works on: the unstaged keys,
    /// each marked untracked when the unstaged list has it as untracked.
    pub fn discard_targets(&self, keys: &Vec<(Section, String)>) -> (r: Vec<DiscardTarget>)
        ensures
            r@.len() == section_paths(keys_view(keys@), Section::Unstaged).len(),
            forall|k: int| 0 <= k < r@.len() ==> #[trigger] target_view(r@[k]) == (
                section_paths(keys_view(keys@), Section::Unstaged)[k],
                has_entry(self.unstaged_files@, section_paths(keys_view(keys@), Section::Unstaged)[k], FileStatus::Untracked),
            ),
    {
        let paths = paths_in_section(keys, Section::Unstaged);
        let mut out: Vec<DiscardTarget> = Vec::new();
        let mut i: usize = 0;
        while i < paths.len()
            invariant
                i <= paths@.len(),
                strings_view(paths@) == section_paths(keys_view(keys@), Section::Unstaged),
                out@.len() == i,
                forall|k: int| 0 <= k < i ==> #[trigger] target_view(out@[k]) == (
                    strings_view(paths@)[k],
                    has_entry(self.unstaged_files@, strings_view(paths@)[k], FileStatus::Untracked),
                ),
            decreases paths@.len() - i,
        {
            let untracked = has_entry_exec(&self.unstaged_files, &paths[i], FileStatus::Untracked);
            out.push(DiscardTarget { path: paths[i].clone(), untracked });
            i = i + 1;
        }
        out
    }
}

/// The undo slot after a confirmed action that touched `touched`: a bulk
/// stage or unstage is recorded when it touched any path; a discard, which
/// cannot be undone, empties the slot.
pub open spec fn spec_confirm_undo(action: ConfirmAction, before: Option<UndoAction>, touched: Vec<String>) -> Option<UndoAction> {
    match action {
        ConfirmAction::StageAll => recorded(before, UndoAction::Stage { paths: touched }),
        ConfirmAction::UnstageAll => recorded(before, UndoAction::Unstage { paths: touched }),
        _ => None,
    }
}

/// The notification after a confirmed action that touched `n` files and
/// skipped `skipped` conflicts, and whether it is an error; none when the
/// action touched nothing (and, for a bulk discard, skipped nothing).
pub open spec fn spec_confirm_flash(action: ConfirmAction, n: nat, skipped: nat) -> Option<(Seq<char>, bool)> {
    match action {
        ConfirmAction::StageAll => if n > 0 { Some((counted("Staged "@, n, " file"@, ""@), false)) } else { None },
        ConfirmAction::UnstageAll => if n > 0 {
            Some((counted("Unstaged "@, n, " file"@, ""@), false))
        } else {
            None
        },
        ConfirmAction::DiscardSelected { .. } => if n > 0 {
            Some((counted("Discarded "@, n, " file"@, ""@), false))
        } else {
            None
        },
        ConfirmAction::DiscardAll => spec_discard_all_message(n, skipped),
    }
}

impl App {
    /// Settles the session once the engine carried out a confirmed action:
    /// `touched` are the paths it staged, unstaged or discarded, `skipped` the
    /// conflicts a bulk discard passed over. The undo slot, the multi-select
    /// set (emptied) and the notification follow the action.
    pub fn finish_confirmed(&mut self, action: &ConfirmAction, touched: Vec<String>, skipped: usize)
        requires
            old(self).inv(),
        ensures
            final(self).inv(),
            final(self).same_but_multi_and_undo(old(self)),
            final(self).last_action == spec_confirm_undo(*action, old(self).last_action, touched),
            match spec_confirm_flash(*action, touched@.len(), skipped as nat) {
                Some((t, e)) => final(self).flash_message matches Some(f) && f.text@ == t && f.is_error == e,
                None => final(self).flash_message == old(self).flash_message,
            },
    {
        let n = touched.len();
        let message: Option<(String, bool)> = match action {
            ConfirmAction::StageAll => {
                self.record_staging(UndoAction::Stage { paths: touched });
                if n > 0 { Some((staged_message(n), false)) } else { None }
            },
            ConfirmAction::UnstageAll => {
                self.record_staging(UndoAction::Unstage { paths: touched });
                if n > 0 { Some((unstaged_message(n), false)) } else { None }
            },
            ConfirmAction::DiscardSelected { .. } => {
                self.record_discard();
                if n > 0 { Some((discarded_message(n), false)) } else { None }
            },
            ConfirmAction::DiscardAll => {
                self.record_discard();
                discard_all_message(n, skipped)
            },
        };
        match message {
            Some((text, true)) => self.show_flash_error(text.as_str()),
            Some((text, false)) => self.show_flash_success(text.as_str()),
            None => {},
        }
    }
}

} // verus!
