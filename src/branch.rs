//! The branch shown in the status bar, from what the repository's head says.

use crate::types::BranchInfo;
use vstd::prelude::*;

verus! {

/// What the engine reports of the head reference.
#[derive(Debug, Clone)]
pub struct HeadInfo {
    /// The head is a branch.
    pub is_branch: bool,
    /// The reference's short name, when it has one.
    pub shorthand: Option<String>,
    /// The full hexadecimal id of the commit it points at, when it points at one.
    pub target: Option<String>,
}

/// Characters of a commit id shown for a detached head.
pub const SHORT_HASH_LEN: usize = 7;

/// The branch for a head (`None` when the head cannot be read): its short
/// name on a branch; else the first seven characters of its commit;
/// else `unknown`.
pub open spec fn spec_branch_info(head: Option<HeadInfo>) -> (bool, Seq<char>) {
    match head {
        Some(h) => if h.is_branch && h.shorthand is Some {
            (true, h.shorthand.unwrap()@)
        } else {
            match h.target {
                Some(t) => (false, t@.subrange(0, if t@.len() < SHORT_HASH_LEN { t@.len() as int } else { SHORT_HASH_LEN as int })),
                None => (false, "unknown"@),
            }
        },
        None => (false, "unknown"@),
    }
}

pub open spec fn branch_view(b: BranchInfo) -> (bool, Seq<char>) {
    match b {
        BranchInfo::Branch(n) => (true, n@),
        BranchInfo::Detached(h) => (false, h@),
    }
}

/// The branch for what the head reports.
pub fn get_branch_info(head: &Option<HeadInfo>) -> (r: BranchInfo)
    ensures
        branch_view(r) == spec_branch_info(*head),
{
    match head {
        Some(h) => {
            if h.is_branch {
                if let Some(name) = &h.shorthand {
                    return BranchInfo::Branch(name.clone());
                }
            }
            match &h.target {
                Some(t) => {
                    let s = t.as_str();
                    let len = s.unicode_len();
                    let end = if len < SHORT_HASH_LEN { len } else { SHORT_HASH_LEN };
                    BranchInfo::Detached(String::from_str(s.substring_char(0, end)))
                },
                None => BranchInfo::Detached(String::from_str("unknown")),
            }
        },
        None => BranchInfo::Detached(String::from_str("unknown")),
    }
}

} // verus!
