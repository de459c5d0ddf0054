//! Named style constants of the standard theme contract.

use vstd::prelude::*;

verus! {

pub const KEYWORD: &'static str = "keyword";

pub const FILE_PATH: &'static str = "file_path";

pub const COMMIT_HASH: &'static str = "commit_hash";

pub const SELECTED: &'static str = "selected";

pub const ACTIVE_SELECTED: &'static str = "active_selected";

pub const FOCUSED_BORDER: &'static str = "focused_border";

pub const UNFOCUSED_BORDER: &'static str = "unfocused_border";

pub const SUCCESS_STYLE: &'static str = "success_style";

pub const ERROR_STYLE: &'static str = "error_style";

pub const WARNING_STYLE: &'static str = "warning_style";

pub const INFO_STYLE: &'static str = "info_style";

pub const DIMMED: &'static str = "dimmed";

pub const MUTED: &'static str = "muted";

pub const INLINE_CODE: &'static str = "inline_code";

pub const GIT_STAGED: &'static str = "git_staged";

pub const GIT_MODIFIED: &'static str = "git_modified";

pub const DIFF_ADDED: &'static str = "diff_added";

pub const DIFF_REMOVED: &'static str = "diff_removed";

pub const DIFF_HUNK: &'static str = "diff_hunk";

pub const DIFF_CONTEXT: &'static str = "diff_context";

pub const LINE_NUMBER: &'static str = "line_number";

pub const TIMESTAMP: &'static str = "timestamp";

pub const AUTHOR: &'static str = "author";

pub const GIT_UNTRACKED: &'static str = "git_untracked";

pub const GIT_DELETED: &'static str = "git_deleted";

pub const MODE_INACTIVE: &'static str = "mode_inactive";

} // verus!
