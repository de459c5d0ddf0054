//! Semantic color token names of the standard theme contract.

use vstd::prelude::*;

verus! {

pub const TEXT_PRIMARY: &'static str = "text.primary";

pub const TEXT_SECONDARY: &'static str = "text.secondary";

pub const TEXT_MUTED: &'static str = "text.muted";

pub const TEXT_DIM: &'static str = "text.dim";

pub const BG_BASE: &'static str = "bg.base";

pub const BG_PANEL: &'static str = "bg.panel";

pub const BG_CODE: &'static str = "bg.code";

pub const BG_HIGHLIGHT: &'static str = "bg.highlight";

pub const ACCENT_PRIMARY: &'static str = "accent.primary";

pub const ACCENT_SECONDARY: &'static str = "accent.secondary";

pub const ACCENT_TERTIARY: &'static str = "accent.tertiary";

pub const ACCENT_DEEP: &'static str = "accent.deep";

pub const SUCCESS: &'static str = "success";

pub const ERROR: &'static str = "error";

pub const WARNING: &'static str = "warning";

pub const INFO: &'static str = "info";

pub const GIT_STAGED: &'static str = "git.staged";

pub const GIT_MODIFIED: &'static str = "git.modified";

pub const GIT_UNTRACKED: &'static str = "git.untracked";

pub const GIT_DELETED: &'static str = "git.deleted";

pub const DIFF_ADDED: &'static str = "diff.added";

pub const DIFF_REMOVED: &'static str = "diff.removed";

pub const DIFF_HUNK: &'static str = "diff.hunk";

pub const DIFF_CONTEXT: &'static str = "diff.context";

pub const BORDER_FOCUSED: &'static str = "border.focused";

pub const BORDER_UNFOCUSED: &'static str = "border.unfocused";

pub const CODE_HASH: &'static str = "code.hash";

pub const CODE_PATH: &'static str = "code.path";

pub const CODE_KEYWORD: &'static str = "code.keyword";

pub const CODE_FUNCTION: &'static str = "code.function";

pub const CODE_STRING: &'static str = "code.string";

pub const CODE_NUMBER: &'static str = "code.number";

pub const CODE_COMMENT: &'static str = "code.comment";

pub const CODE_TYPE: &'static str = "code.type";

pub const CODE_LINE_NUMBER: &'static str = "code.line_number";

pub const MODE_ACTIVE: &'static str = "mode.active";

pub const MODE_INACTIVE: &'static str = "mode.inactive";

pub const MODE_HOVER: &'static str = "mode.hover";

pub const BG_SELECTION: &'static str = "bg.selection";

} // verus!
