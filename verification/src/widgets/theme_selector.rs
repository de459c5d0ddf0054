//! The theme selector: a searchable, scrollable list of themes with a
//! cursor, live-preview hooks, and exact rollback on cancel.
//!
//! This module holds the selector's state machine: list ordering,
//! filtering, cursor and scroll movement, and the action taken for each
//! key. Rendering and the global-theme side effects are performed by the
//! caller around it.

use crate::builtins::{ThemeInfo, ThemeInfoView};
use crate::schema::ThemeVariant;
use vstd::prelude::*;
use vstd::seq_lib::group_to_multiset_ensures;
use vstd::string::StrSliceExecFns;

verus! {

// ── Ordering of the theme list ──────────────────────────────────────────

/// Dark themes sort before light themes.
pub open spec fn variant_rank(v: ThemeVariant) -> int {
    match v {
        ThemeVariant::Dark => 0,
        ThemeVariant::Light => 1,
    }
}

/// Lexicographic order on character sequences, by code point.
pub open spec fn lex_le(a: Seq<char>, b: Seq<char>) -> bool
    decreases a.len(),
{
    if a.len() == 0 {
        true
    } else if b.len() == 0 {
        false
    } else if (a[0] as u32) < (b[0] as u32) {
        true
    } else if (b[0] as u32) < (a[0] as u32) {
        false
    } else {
        lex_le(a.drop_first(), b.drop_first())
    }
}

proof fn lemma_lex_total(a: Seq<char>, b: Seq<char>)
    ensures
        lex_le(a, b) || lex_le(b, a),
    decreases a.len(),
{
    if a.len() > 0 && b.len() > 0 && !((a[0] as u32) < (b[0] as u32)) && !((b[0] as u32) < (
    a[0] as u32)) {
        lemma_lex_total(a.drop_first(), b.drop_first());
    }
}

proof fn lemma_lex_trans(a: Seq<char>, b: Seq<char>, c: Seq<char>)
    requires
        lex_le(a, b),
        lex_le(b, c),
    ensures
        lex_le(a, c),
    decreases a.len(),
{
    if a.len() > 0 {
        assert(b.len() > 0);
        assert(c.len() > 0);
        if !((a[0] as u32) < (c[0] as u32)) && !((c[0] as u32) < (a[0] as u32)) {
            if (a[0] as u32) < (b[0] as u32) || (b[0] as u32) < (c[0] as u32) {
                assert(false);
            }
            lemma_lex_trans(a.drop_first(), b.drop_first(), c.drop_first());
        } else if (c[0] as u32) < (a[0] as u32) {
            assert(false);
        }
    }
}

/// The display order of the selector: dark themes first, then
/// alphabetically by display name.
pub open spec fn spec_info_le(a: ThemeInfoView, b: ThemeInfoView) -> bool {
    variant_rank(a.variant) < variant_rank(b.variant) || (variant_rank(a.variant) == variant_rank(
        b.variant,
    ) && lex_le(a.display_name, b.display_name))
}

proof fn lemma_info_total(a: ThemeInfoView, b: ThemeInfoView)
    ensures
        spec_info_le(a, b) || spec_info_le(b, a),
{
    lemma_lex_total(a.display_name, b.display_name);
}

proof fn lemma_info_trans(a: ThemeInfoView, b: ThemeInfoView, c: ThemeInfoView)
    requires
        spec_info_le(a, b),
        spec_info_le(b, c),
    ensures
        spec_info_le(a, c),
{
    if variant_rank(a.variant) == variant_rank(b.variant) && variant_rank(b.variant)
        == variant_rank(c.variant) {
        lemma_lex_trans(a.display_name, b.display_name, c.display_name);
    }
}

/// The images of a list of theme entries.
pub open spec fn infos_view(v: Seq<ThemeInfo>) -> Seq<ThemeInfoView> {
    v.map_values(|t: ThemeInfo| t@)
}

/// Whether a list of theme entries is in display order.
pub open spec fn sorted_infos(s: Seq<ThemeInfoView>) -> bool {
    forall|i: int, j: int| 0 <= i < j < s.len() ==> spec_info_le(s[i], s[j])
}

fn str_le(a: &str, b: &str) -> (r: bool)
    ensures
        r == lex_le(a@, b@),
{
    let n = a.unicode_len();
    let m = b.unicode_len();
    let mut i: usize = 0;
    proof {
        assert(a@.skip(0) =~= a@);
        assert(b@.skip(0) =~= b@);
    }
    while i < n && i < m
        invariant
            i <= n,
            i <= m,
            n == a@.len(),
            m == b@.len(),
            lex_le(a@, b@) == lex_le(a@.skip(i as int), b@.skip(i as int)),
        decreases n - i,
    {
        let ca = a.get_char(i) as u32;
        let cb = b.get_char(i) as u32;
        proof {
            assert(a@.skip(i as int)[0] == a@[i as int]);
            assert(b@.skip(i as int)[0] == b@[i as int]);
            assert(a@.skip(i as int).drop_first() =~= a@.skip(i + 1));
            assert(b@.skip(i as int).drop_first() =~= b@.skip(i + 1));
        }
        if ca < cb {
            return true;
        }
        if cb < ca {
            return false;
        }
        i += 1;
    }
    i == n
}

fn info_le(a: &ThemeInfo, b: &ThemeInfo) -> (r: bool)
    ensures
        r == spec_info_le(a@, b@),
{
    let ra: u8 = match a.variant {
        ThemeVariant::Dark => 0,
        ThemeVariant::Light => 1,
    };
    let rb: u8 = match b.variant {
        ThemeVariant::Dark => 0,
        ThemeVariant::Light => 1,
    };
    if ra < rb {
        true
    } else if rb < ra {
        false
    } else {
        str_le(a.display_name.as_str(), b.display_name.as_str())
    }
}

/// Sort theme entries into display order: the result is a permutation of
/// the input, in order.
fn sort_infos(v: Vec<ThemeInfo>) -> (r: Vec<ThemeInfo>)
    ensures
        r@.len() == v@.len(),
        sorted_infos(infos_view(r@)),
        infos_view(r@).to_multiset() == infos_view(v@).to_multiset(),
{
    broadcast use group_to_multiset_ensures;

    let mut work = v;
    let mut out: Vec<ThemeInfo> = Vec::new();
    proof {
        assert(infos_view(out@) =~= Seq::<ThemeInfoView>::empty());
        assert(infos_view(out@).to_multiset().add(infos_view(work@).to_multiset()) =~= infos_view(
            work@,
        ).to_multiset());
    }
    while work.len() > 0
        invariant
            out@.len() + work@.len() == v@.len(),
            sorted_infos(infos_view(out@)),
            forall|i: int, j: int|
                0 <= i < out@.len() && 0 <= j < work@.len() ==> spec_info_le(
                    infos_view(out@)[i],
                    infos_view(work@)[j],
                ),
            infos_view(out@).to_multiset().add(infos_view(work@).to_multiset()) == infos_view(
                v@,
            ).to_multiset(),
        decreases work.len(),
    {
        let mut m: usize = 0;
        let mut i: usize = 1;
        let n = work.len();
        proof {
            lemma_info_total(infos_view(work@)[0], infos_view(work@)[0]);
        }
        while i < n
            invariant
                m < i <= n,
                n == work@.len(),
                forall|j: int|
                    0 <= j < i ==> spec_info_le(
                        infos_view(work@)[m as int],
                        #[trigger] infos_view(work@)[j],
                    ),
            decreases n - i,
        {
            if info_le(&work[i], &work[m]) {
                proof {
                    assert forall|j: int|
                        0 <= j < i + 1 implies spec_info_le(
                        infos_view(work@)[i as int],
                        #[trigger] infos_view(work@)[j],
                    ) by {
                        if j < i {
                            lemma_info_trans(
                                infos_view(work@)[i as int],
                                infos_view(work@)[m as int],
                                infos_view(work@)[j],
                            );
                        } else {
                            lemma_info_total(
                                infos_view(work@)[i as int],
                                infos_view(work@)[i as int],
                            );
                        }
                    }
                }
                m = i;
            } else {
                proof {
                    lemma_info_total(infos_view(work@)[i as int], infos_view(work@)[m as int]);
                }
            }
            i += 1;
        }
        let ghost work0 = work@;
        let x = work.remove(m);
        proof {
            infos_view(work0).to_multiset_ensures();
            assert(infos_view(work@) =~= infos_view(work0).remove(m as int));
            assert(infos_view(work0).remove(m as int).to_multiset() =~= infos_view(
                work0,
            ).to_multiset().remove(infos_view(work0)[m as int]));
        }
        let ghost out0 = out@;
        out.push(x);
        proof {
            let xv = x@;
            infos_view(out0).to_multiset_ensures();
            assert(infos_view(out@) =~= infos_view(out0).push(xv));
            assert(infos_view(out@).to_multiset() == infos_view(out0).push(xv).to_multiset());
            assert(infos_view(out0).push(xv).to_multiset() =~= infos_view(
                out0,
            ).to_multiset().insert(xv));
            // the multiset sum is unchanged
            let lhs = infos_view(out@).to_multiset().add(infos_view(work@).to_multiset());
            let rhs = infos_view(out0).to_multiset().add(infos_view(work0).to_multiset());
            assert(infos_view(work0)[m as int] == xv);
            assert(infos_view(work0).contains(xv));
            assert(infos_view(work0).to_multiset().count(xv) > 0);
            assert(lhs =~= rhs);
            // the new last element keeps the output sorted
            assert forall|i2: int, j2: int|
                0 <= i2 < j2 < infos_view(out@).len() implies #[trigger] spec_info_le(
                infos_view(out@)[i2],
                infos_view(out@)[j2],
            ) by {
                if j2 == infos_view(out@).len() - 1 {
                    assert(infos_view(out@)[i2] == infos_view(out0)[i2]);
                }
            }
            // the minimum property carries to the remaining entries
            assert forall|i2: int, j2: int|
                0 <= i2 < out@.len() && 0 <= j2 < work@.len() implies #[trigger] spec_info_le(
                infos_view(out@)[i2],
                infos_view(work@)[j2],
            ) by {
                let old_j = if j2 < m { j2 } else { j2 + 1 };
                assert(infos_view(work@)[j2] == infos_view(work0)[old_j]);
                if i2 < out0.len() {
                    assert(infos_view(out@)[i2] == infos_view(out0)[i2]);
                } else {
                    assert(infos_view(out@)[i2] == xv);
                }
            }
        }
    }
    proof {
        assert(infos_view(work@) =~= Seq::<ThemeInfoView>::empty());
        assert(infos_view(out@).to_multiset().add(infos_view(work@).to_multiset()) =~= infos_view(
            out@,
        ).to_multiset());
    }
    out
}

// ── Case-insensitive filtering ──────────────────────────────────────────

/// ASCII lowercasing of one character.
pub open spec fn spec_lower_char(c: char) -> char {
    match c {
        'A' => 'a',
        'B' => 'b',
        'C' => 'c',
        'D' => 'd',
        'E' => 'e',
        'F' => 'f',
        'G' => 'g',
        'H' => 'h',
        'I' => 'i',
        'J' => 'j',
        'K' => 'k',
        'L' => 'l',
        'M' => 'm',
        'N' => 'n',
        'O' => 'o',
        'P' => 'p',
        'Q' => 'q',
        'R' => 'r',
        'S' => 's',
        'T' => 't',
        'U' => 'u',
        'V' => 'v',
        'W' => 'w',
        'X' => 'x',
        'Y' => 'y',
        'Z' => 'z',
        _ => c,
    }
}

fn lower_char(c: char) -> (r: char)
    ensures
        r == spec_lower_char(c),
{
    match c {
        'A' => 'a',
        'B' => 'b',
        'C' => 'c',
        'D' => 'd',
        'E' => 'e',
        'F' => 'f',
        'G' => 'g',
        'H' => 'h',
        'I' => 'i',
        'J' => 'j',
        'K' => 'k',
        'L' => 'l',
        'M' => 'm',
        'N' => 'n',
        'O' => 'o',
        'P' => 'p',
        'Q' => 'q',
        'R' => 'r',
        'S' => 's',
        'T' => 't',
        'U' => 'u',
        'V' => 'v',
        'W' => 'w',
        'X' => 'x',
        'Y' => 'y',
        'Z' => 'z',
        _ => c,
    }
}

/// ASCII lowercasing of a character sequence.
pub open spec fn lower_seq(s: Seq<char>) -> Seq<char> {
    s.map_values(|c: char| spec_lower_char(c))
}

/// Whether `needle` occurs contiguously inside `hay`.
pub open spec fn is_substring_of(needle: Seq<char>, hay: Seq<char>) -> bool {
    exists|k: int|
        0 <= k && k + needle.len() <= hay.len() && #[trigger] hay.subrange(k, k + needle.len())
            == needle
}

/// Case-insensitive substring test.
fn contains_ci(hay: &str, needle: &str) -> (r: bool)
    ensures
        r == is_substring_of(lower_seq(needle@), lower_seq(hay@)),
{
    let ghost lh = lower_seq(hay@);
    let ghost ln = lower_seq(needle@);
    let n = hay.unicode_len();
    let m = needle.unicode_len();
    if m > n {
        proof {
            if is_substring_of(ln, lh) {
                let k = choose|k: int|
                    0 <= k && k + ln.len() <= lh.len() && #[trigger] lh.subrange(k, k + ln.len())
                        == ln;
                assert(false);
            }
        }
        return false;
    }
    let mut k: usize = 0;
    while k <= n - m
        invariant
            m <= n,
            n == hay@.len(),
            m == needle@.len(),
            lh == lower_seq(hay@),
            ln == lower_seq(needle@),
            k <= n - m + 1,
            forall|k2: int| 0 <= k2 < k ==> #[trigger] lh.subrange(k2, k2 + m) != ln,
        decreases n - k,
    {
        let mut t: usize = 0;
        while t < m && lower_char(hay.get_char(k + t)) == lower_char(needle.get_char(t))
            invariant
                t <= m,
                k + m <= n,
                n == hay@.len(),
                m == needle@.len(),
                lh == lower_seq(hay@),
                ln == lower_seq(needle@),
                forall|t2: int| 0 <= t2 < t ==> lh[k + t2] == ln[t2],
            decreases m - t,
        {
            t += 1;
        }
        if t == m {
            proof {
                assert(lh.subrange(k as int, k + m) =~= ln);
            }
            return true;
        }
        proof {
            assert(lh[k + t] != ln[t as int]);
            assert(lh.subrange(k as int, k + m)[t as int] == lh[k + t]);
            assert(lh.subrange(k as int, k + m) != ln);
        }
        k += 1;
    }
    proof {
        if is_substring_of(ln, lh) {
            let k2 = choose|k2: int|
                0 <= k2 && k2 + ln.len() <= lh.len() && #[trigger] lh.subrange(k2, k2 + ln.len())
                    == ln;
            assert(k2 < k);
        }
    }
    false
}

/// Whether a theme entry matches a filter query: the query occurs in the
/// display name or the author, compared case-insensitively.
pub open spec fn spec_matches_filter(t: ThemeInfoView, q: Seq<char>) -> bool {
    is_substring_of(lower_seq(q), lower_seq(t.display_name)) || is_substring_of(
        lower_seq(q),
        lower_seq(t.author),
    )
}

fn matches_filter(t: &ThemeInfo, q: &str) -> (r: bool)
    ensures
        r == spec_matches_filter(t@, q@),
{
    contains_ci(t.display_name.as_str(), q) || contains_ci(t.author.as_str(), q)
}

proof fn lemma_empty_query_matches(t: ThemeInfoView, q: Seq<char>)
    requires
        q.len() == 0,
    ensures
        spec_matches_filter(t, q),
{
    assert(lower_seq(q).len() == 0);
    let lh = lower_seq(t.display_name);
    assert(lh.subrange(0, 0 + lower_seq(q).len() as int) =~= lower_seq(q));
    assert(is_substring_of(lower_seq(q), lh));
}

// ── Selector state ──────────────────────────────────────────────────────

/// A key press, reduced to what the selector reacts to. Typed characters
/// arrive as text so the filter can grow by whole input events.
#[derive(Debug, Clone, PartialEq, Eq)]
pub enum SelectorKey {
    Up,
    Down,
    Enter,
    Esc,
    Backspace,
    Char(String),
    Other,
}

/// Result of handling a key event in the theme selector.
#[derive(Debug, Clone, PartialEq, Eq)]
pub enum ThemeSelectorAction {
    /// Cursor moved; the caller should apply the live preview.
    Navigate,
    /// Enter pressed: theme confirmed, with the theme's kebab-case ID.
    Select(String),
    /// Esc pressed: the caller should restore the original theme.
    Cancel,
    /// Filter text changed; the list was recomputed.
    FilterChanged,
    /// Key not handled by the selector.
    Noop,
}

/// Mathematical image of a [`ThemeSelectorState`].
pub struct SelectorView {
    pub themes: Seq<ThemeInfoView>,
    pub filter: Seq<char>,
    pub filtered: Seq<int>,
    pub cursor: int,
    pub scroll: int,
}

/// Cursor and index bounds of a selector state.
pub open spec fn sel_bounds_ok(v: SelectorView) -> bool {
    (forall|i: int| 0 <= i < v.filtered.len() ==> 0 <= #[trigger] v.filtered[i] < v.themes.len())
        && (v.filtered.len() == 0 ==> v.cursor == 0) && (v.filtered.len() > 0 ==> 0 <= v.cursor
        < v.filtered.len()) && 0 <= v.scroll
}

/// The filtered list is exactly the entries matching the filter, in
/// ascending position order.
pub open spec fn sel_filtered_ok(v: SelectorView) -> bool {
    (forall|i: int, j: int| 0 <= i < j < v.filtered.len() ==> v.filtered[i] < v.filtered[j]) && (
    forall|i: int|
        0 <= i < v.filtered.len() ==> spec_matches_filter(
            v.themes[#[trigger] v.filtered[i]],
            v.filter,
        )) && (forall|idx: int|
        0 <= idx < v.themes.len() && spec_matches_filter(#[trigger] v.themes[idx], v.filter)
            ==> v.filtered.contains(idx))
}

/// Owned state for the theme selector: the sorted list, the filter, the
/// filtered view of the list, and cursor and scroll positions.
#[derive(Debug, Clone)]
pub struct ThemeSelectorState {
    themes: Vec<ThemeInfo>,
    filter: String,
    filtered_indices: Vec<usize>,
    cursor: usize,
    scroll: usize,
}

impl View for ThemeSelectorState {
    type V = SelectorView;

    closed spec fn view(&self) -> SelectorView {
        SelectorView {
            themes: infos_view(self.themes@),
            filter: self.filter@,
            filtered: self.filtered_indices@.map_values(|u: usize| u as int),
            cursor: self.cursor as int,
            scroll: self.scroll as int,
        }
    }
}

/// Whether a theme entry stands for the named current theme.
pub open spec fn spec_matches_current(t: ThemeInfoView, name: Seq<char>) -> bool {
    t.display_name == name || t.name == name
}

impl ThemeSelectorState {
    /// Well-formedness: bounds hold and the filtered list is exact.
    pub open spec fn wf(&self) -> bool {
        sel_bounds_ok(self@) && sel_filtered_ok(self@)
    }

    /// Create a selector over the given theme entries.
    ///
    /// The entries are sorted dark-first, then alphabetically by display
    /// name; the filter starts empty, so every entry is visible.
    pub fn new(themes: Vec<ThemeInfo>) -> (s: Self)
        ensures
            s.wf(),
            sorted_infos(s@.themes),
            s@.themes.to_multiset() == infos_view(themes@).to_multiset(),
            s@.themes.len() == themes@.len(),
            s@.filter.len() == 0,
            s@.filtered.len() == s@.themes.len(),
            forall|i: int| 0 <= i < s@.filtered.len() ==> #[trigger] s@.filtered[i] == i,
            s@.cursor == 0,
            s@.scroll == 0,
    {
        let sorted = sort_infos(themes);
        let n = sorted.len();
        let mut filtered: Vec<usize> = Vec::new();
        let mut i: usize = 0;
        while i < n
            invariant
                i <= n,
                filtered@.len() == i,
                forall|j: int| 0 <= j < i ==> #[trigger] filtered@[j] == j,
            decreases n - i,
        {
            filtered.push(i);
            i += 1;
        }
        let s = ThemeSelectorState {
            themes: sorted,
            filter: String::new(),
            filtered_indices: filtered,
            cursor: 0,
            scroll: 0,
        };
        proof {
            assert forall|idx: int|
                0 <= idx < s@.themes.len() && spec_matches_filter(
                    #[trigger] s@.themes[idx],
                    s@.filter,
                ) implies s@.filtered.contains(idx) by {
                assert(s@.filtered[idx] == idx);
            }
            assert forall|i2: int|
                0 <= i2 < s@.filtered.len() implies spec_matches_filter(
                s@.themes[#[trigger] s@.filtered[i2]],
                s@.filter,
            ) by {
                lemma_empty_query_matches(s@.themes[s@.filtered[i2]], s@.filter);
            }
        }
        s
    }

    /// Create a selector with the named theme pre-selected and roughly
    /// centered in the viewport.
    #[verifier::loop_isolation(false)]
    pub fn with_current_selected(themes: Vec<ThemeInfo>, current_name: &str) -> (s: Self)
        ensures
            s.wf(),
            sorted_infos(s@.themes),
            s@.themes.to_multiset() == infos_view(themes@).to_multiset(),
            s@.filter.len() == 0,
            s@.filtered.len() == s@.themes.len(),
            (exists|i: int|
                0 <= i < s@.themes.len() && spec_matches_current(
                    #[trigger] s@.themes[i],
                    current_name@,
                )) ==> s@.filtered.len() > 0 && spec_matches_current(
                s@.themes[s@.filtered[s@.cursor]],
                current_name@,
            ),
    {
        let ghost tv = infos_view(themes@);
        let mut s = Self::new(themes);
        let n = s.themes.len();
        let mut i: usize = 0;
        while i < n
            invariant
                i <= n,
                n == s@.themes.len(),
                s.wf(),
                sorted_infos(s@.themes),
                s@.themes.to_multiset() == tv.to_multiset(),
                s@.filter.len() == 0,
                s@.filtered.len() == n,
                forall|k: int| 0 <= k < n ==> #[trigger] s@.filtered[k] == k,
                s@.cursor == 0 && s@.scroll == 0,
                forall|k: int|
                    0 <= k < i ==> !spec_matches_current(#[trigger] s@.themes[k], current_name@),
            decreases n - i,
        {
            let hit = crate::table::str_eq(s.themes[i].display_name.as_str(), current_name)
                || crate::table::str_eq(s.themes[i].name.as_str(), current_name);
            if hit {
                let mut s2 = s;
                s2.cursor = i;
                s2.scroll = if i > 8 {
                    i - 8
                } else {
                    0
                };
                proof {
                    assert(s2@.filtered[i as int] == i);
                }
                return s2;
            }
            i += 1;
        }
        proof {
            if exists|k: int|
                0 <= k < s@.themes.len() && spec_matches_current(
                    #[trigger] s@.themes[k],
                    current_name@,
                ) {
                let k = choose|k: int|
                    0 <= k < s@.themes.len() && spec_matches_current(
                        #[trigger] s@.themes[k],
                        current_name@,
                    );
                assert(false);
            }
        }
        s
    }

    /// Handle a key event; returns the action taken.
    ///
    /// Navigation moves the cursor inside the filtered list and keeps the
    /// scroll window behind it; typing edits the filter and recomputes
    /// the list; Enter confirms the selected entry; Esc cancels.
    pub fn handle_key(&mut self, key: SelectorKey) -> (r: ThemeSelectorAction)
        requires
            old(self).wf(),
        ensures
            final(self).wf(),
            final(self)@.themes == old(self)@.themes,
            match key {
                SelectorKey::Up => {
                    &&& final(self)@.filter == old(self)@.filter
                    &&& final(self)@.filtered == old(self)@.filtered
                    &&& if old(self)@.filtered.len() > 0 && old(self)@.cursor > 0 {
                        &&& r == ThemeSelectorAction::Navigate
                        &&& final(self)@.cursor == old(self)@.cursor - 1
                        &&& final(self)@.scroll == (if old(self)@.cursor - 1 < old(self)@.scroll {
                            old(self)@.cursor - 1
                        } else {
                            old(self)@.scroll
                        })
                    } else {
                        r == ThemeSelectorAction::Noop && final(self)@ == old(self)@
                    }
                },
                SelectorKey::Down => {
                    &&& final(self)@.filter == old(self)@.filter
                    &&& final(self)@.filtered == old(self)@.filtered
                    &&& final(self)@.scroll == old(self)@.scroll
                    &&& if old(self)@.filtered.len() > 0 && old(self)@.cursor + 1 < old(
                        self,
                    )@.filtered.len() {
                        r == ThemeSelectorAction::Navigate && final(self)@.cursor == old(
                            self,
                        )@.cursor + 1
                    } else {
                        r == ThemeSelectorAction::Noop && final(self)@ == old(self)@
                    }
                },
                SelectorKey::Enter => {
                    &&& final(self)@ == old(self)@
                    &&& if old(self)@.filtered.len() > 0 {
                        r matches ThemeSelectorAction::Select(id) && id@ == old(
                            self,
                        )@.themes[old(self)@.filtered[old(self)@.cursor]].name
                    } else {
                        r == ThemeSelectorAction::Noop
                    }
                },
                SelectorKey::Esc => final(self)@ == old(self)@ && r
                    == ThemeSelectorAction::Cancel,
                SelectorKey::Char(cs) => {
                    &&& r == ThemeSelectorAction::FilterChanged
                    &&& final(self)@.filter == old(self)@.filter + cs@
                    &&& final(self)@.cursor == 0
                    &&& final(self)@.scroll == 0
                },
                SelectorKey::Backspace => {
                    if old(self)@.filter.len() == 0 {
                        r == ThemeSelectorAction::Noop && final(self)@ == old(self)@
                    } else {
                        &&& r == ThemeSelectorAction::FilterChanged
                        &&& final(self)@.filter == old(self)@.filter.drop_last()
                        &&& final(self)@.cursor == 0
                        &&& final(self)@.scroll == 0
                    }
                },
                SelectorKey::Other => r == ThemeSelectorAction::Noop && final(self)@ == old(
                    self,
                )@,
            },
    {
        match key {
            SelectorKey::Up => {
                if self.filtered_indices.len() == 0 || self.cursor == 0 {
                    ThemeSelectorAction::Noop
                } else {
                    self.cursor = self.cursor - 1;
                    if self.cursor < self.scroll {
                        self.scroll = self.cursor;
                    }
                    ThemeSelectorAction::Navigate
                }
            },
            SelectorKey::Down => {
                if self.filtered_indices.len() > 0 && self.cursor + 1
                    < self.filtered_indices.len() {
                    self.cursor = self.cursor + 1;
                    ThemeSelectorAction::Navigate
                } else {
                    ThemeSelectorAction::Noop
                }
            },
            SelectorKey::Enter => {
                if self.filtered_indices.len() > 0 {
                    proof {
                        assert(0 <= self@.filtered[self@.cursor] < self@.themes.len());
                    }
                    let idx = self.filtered_indices[self.cursor];
                    let id = self.themes[idx].name.clone();
                    ThemeSelectorAction::Select(id)
                } else {
                    ThemeSelectorAction::Noop
                }
            },
            SelectorKey::Esc => ThemeSelectorAction::Cancel,
            SelectorKey::Char(cs) => {
                self.filter.append(cs.as_str());
                self.recompute_filter();
                ThemeSelectorAction::FilterChanged
            },
            SelectorKey::Backspace => {
                let len = self.filter.as_str().unicode_len();
                if len == 0 {
                    ThemeSelectorAction::Noop
                } else {
                    let shorter = self.filter.as_str().substring_char(0, len - 1).to_owned();
                    proof {
                        assert(shorter@ =~= old(self)@.filter.drop_last());
                    }
                    self.filter = shorter;
                    self.recompute_filter();
                    ThemeSelectorAction::FilterChanged
                }
            },
            SelectorKey::Other => ThemeSelectorAction::Noop,
        }
    }

    /// The currently selected theme entry, if any remains after
    /// filtering.
    pub fn selected_theme(&self) -> (r: Option<&ThemeInfo>)
        requires
            self.wf(),
        ensures
            match r {
                Some(t) => self@.filtered.len() > 0 && t@
                    == self@.themes[self@.filtered[self@.cursor]],
                None => self@.filtered.len() == 0,
            },
    {
        if self.filtered_indices.len() > 0 {
            proof {
                assert(0 <= self@.filtered[self@.cursor] < self@.themes.len());
            }
            let idx = self.filtered_indices[self.cursor];
            Some(&self.themes[idx])
        } else {
            None
        }
    }

    /// Current filter text.
    pub fn filter(&self) -> (r: &str)
        ensures
            r@ == self@.filter,
    {
        self.filter.as_str()
    }

    /// Number of entries that match the current filter.
    pub fn filtered_len(&self) -> (n: usize)
        ensures
            n == self@.filtered.len(),
    {
        self.filtered_indices.len()
    }

    /// Cursor position within the filtered list.
    pub fn cursor(&self) -> (c: usize)
        ensures
            c == self@.cursor,
    {
        self.cursor
    }

    /// Scroll offset of the visible window.
    pub fn scroll(&self) -> (s: usize)
        ensures
            s == self@.scroll,
    {
        self.scroll
    }

    /// Borrow the filtered entry at position `i`.
    pub fn entry_at(&self, i: usize) -> (t: &ThemeInfo)
        requires
            self.wf(),
            i < self@.filtered.len(),
        ensures
            t@ == self@.themes[self@.filtered[i as int]],
    {
        proof {
            assert(0 <= self@.filtered[i as int] < self@.themes.len());
        }
        let idx = self.filtered_indices[i];
        &self.themes[idx]
    }

    /// Recompute the filtered list from the themes and the filter, and
    /// reset the cursor to the first match.
    pub fn recompute_filter(&mut self)
        ensures
            final(self).wf(),
            final(self)@.themes == old(self)@.themes,
            final(self)@.filter == old(self)@.filter,
            final(self)@.cursor == 0,
            final(self)@.scroll == 0,
    {
        let n = self.themes.len();
        let mut filtered: Vec<usize> = Vec::new();
        let mut i: usize = 0;
        while i < n
            invariant
                i <= n,
                n == self@.themes.len(),
                forall|a: int, b: int|
                    0 <= a < b < filtered@.len() ==> filtered@[a] < filtered@[b],
                forall|a: int|
                    0 <= a < filtered@.len() ==> #[trigger] filtered@[a] < i
                        && spec_matches_filter(
                        self@.themes[filtered@[a] as int],
                        self@.filter,
                    ),
                forall|idx: int|
                    0 <= idx < i && spec_matches_filter(#[trigger] self@.themes[idx], self@.filter)
                        ==> exists|pos: int|
                        0 <= pos < filtered@.len() && (#[trigger] filtered@[pos]) as int == idx,
            decreases n - i,
        {
            let ghost f0 = filtered@;
            if matches_filter(&self.themes[i], self.filter.as_str()) {
                filtered.push(i);
                proof {
                    assert forall|idx: int|
                        0 <= idx < i + 1 && spec_matches_filter(
                            #[trigger] self@.themes[idx],
                            self@.filter,
                        ) implies exists|pos: int|
                        0 <= pos < filtered@.len() && (#[trigger] filtered@[pos]) as int
                            == idx by {
                        if idx < i {
                            let pos = choose|pos: int|
                                0 <= pos < f0.len() && (#[trigger] f0[pos]) as int == idx;
                            assert(filtered@[pos] == f0[pos]);
                        } else {
                            assert(filtered@[f0.len() as int] as int == idx);
                        }
                    }
                }
            } else {
                proof {
                    assert forall|idx: int|
                        0 <= idx < i + 1 && spec_matches_filter(
                            #[trigger] self@.themes[idx],
                            self@.filter,
                        ) implies exists|pos: int|
                        0 <= pos < filtered@.len() && (#[trigger] filtered@[pos]) as int
                            == idx by {
                        assert(idx != i);
                    }
                }
            }
            i += 1;
        }
        proof {
            let fv = filtered@.map_values(|u: usize| u as int);
            assert forall|idx: int|
                0 <= idx < n && spec_matches_filter(
                    #[trigger] infos_view(self.themes@)[idx],
                    self.filter@,
                ) implies fv.contains(idx) by {
                let pos = choose|pos: int|
                    0 <= pos < filtered@.len() && (#[trigger] filtered@[pos]) as int == idx;
                assert(fv[pos] == idx);
            }
        }
        self.filtered_indices = filtered;
        self.cursor = 0;
        self.scroll = 0;
    }

    /// Clamp the scroll offset so the cursor stays inside a viewport of
    /// the given height.
    pub fn clamp_scroll(&mut self, visible_items: usize)
        requires
            old(self).wf(),
        ensures
            final(self).wf(),
            final(self)@.themes == old(self)@.themes,
            final(self)@.filter == old(self)@.filter,
            final(self)@.filtered == old(self)@.filtered,
            final(self)@.cursor == old(self)@.cursor,
            final(self)@.scroll == spec_clamp_scroll(
                old(self)@.scroll,
                old(self)@.cursor,
                visible_items as int,
            ),
    {
        if visible_items == 0 {
            return ;
        }
        if self.cursor < self.scroll {
            self.scroll = self.cursor;
        }
        if self.cursor - self.scroll >= visible_items {
            self.scroll = self.cursor - visible_items + 1;
        }
        proof {
            lemma_filtered_ok_ignores_positions(old(self)@, self@);
        }
    }
}

/// The exactness of the filtered list does not depend on the cursor or
/// the scroll position.
proof fn lemma_filtered_ok_ignores_positions(a: SelectorView, b: SelectorView)
    requires
        sel_filtered_ok(a),
        b.themes == a.themes,
        b.filter == a.filter,
        b.filtered == a.filtered,
    ensures
        sel_filtered_ok(b),
{
    assert forall|idx: int|
        0 <= idx < b.themes.len() && spec_matches_filter(
            #[trigger] b.themes[idx],
            b.filter,
        ) implies b.filtered.contains(idx) by {
        assert(a.filtered.contains(idx));
    }
}

/// The scroll offset after clamping the cursor into a viewport.
pub open spec fn spec_clamp_scroll(scroll: int, cursor: int, visible: int) -> int {
    if visible == 0 {
        scroll
    } else {
        let s1 = if cursor < scroll {
            cursor
        } else {
            scroll
        };
        if cursor - s1 >= visible {
            cursor - visible + 1
        } else {
            s1
        }
    }
}

// ── Section headers ─────────────────────────────────────────────────────

/// The variants of the filtered entries, in display order.
pub open spec fn spec_filtered_variants(v: SelectorView) -> Seq<ThemeVariant> {
    Seq::new(v.filtered.len() as nat, |i: int| v.themes[v.filtered[i]].variant)
}

/// The number of section headers a list of variants produces: one at the
/// start and one at every change of variant.
pub open spec fn spec_count_headers(vs: Seq<ThemeVariant>) -> int
    decreases vs.len(),
{
    if vs.len() == 0 {
        0
    } else if vs.len() == 1 {
        1
    } else {
        spec_count_headers(vs.drop_last()) + (if vs[vs.len() - 2] == vs[vs.len() - 1] {
            0int
        } else {
            1int
        })
    }
}

/// Count how many section headers appear in the filtered list.
pub fn count_section_headers(state: &ThemeSelectorState) -> (r: usize)
    requires
        state.wf(),
    ensures
        r == spec_count_headers(spec_filtered_variants(state@)),
{
    let ghost vs = spec_filtered_variants(state@);
    let n = state.filtered_indices.len();
    let mut count: usize = 0;
    let mut i: usize = 0;
    proof {
        assert(vs.take(0) =~= Seq::<ThemeVariant>::empty());
    }
    while i < n
        invariant
            i <= n,
            state.wf(),
            n == state@.filtered.len(),
            vs == spec_filtered_variants(state@),
            count <= i,
            count == spec_count_headers(vs.take(i as int)),
        decreases n - i,
    {
        let idx = state.filtered_indices[i];
        let cur = state.themes[idx].variant;
        proof {
            assert(vs[i as int] == cur);
            assert(vs.take(i + 1).drop_last() =~= vs.take(i as int));
            assert(vs.take(i + 1)[i as int] == vs[i as int]);
            if i > 0 {
                assert(vs.take(i + 1)[i - 1] == vs[i - 1]);
            }
        }
        if i == 0 {
            count += 1;
        } else {
            let prev_idx = state.filtered_indices[i - 1];
            let prev = state.themes[prev_idx].variant;
            proof {
                assert(vs[i - 1] == prev);
            }
            if !(prev == cur) {
                count += 1;
            }
        }
        i += 1;
    }
    proof {
        assert(vs.take(n as int) =~= vs);
    }
    count
}

// ── The widget shell ────────────────────────────────────────────────────

/// The theme selector widget shell: holds the title shown above the
/// list. Pair with [`ThemeSelectorState`]; drawing is performed by a
/// rendering adapter around the library.
#[derive(Debug, Clone)]
pub struct ThemeSelector<'a> {
    title: &'a str,
}

impl<'a> View for ThemeSelector<'a> {
    type V = Seq<char>;

    closed spec fn view(&self) -> Seq<char> {
        self.title@
    }
}

impl<'a> ThemeSelector<'a> {
    /// Create a new theme selector widget with the default title.
    pub fn new() -> (w: Self)
        ensures
            w@ == "Select Theme"@,
    {
        ThemeSelector { title: "Select Theme" }
    }

    /// Override the default title.
    pub fn title(self, title: &'a str) -> (w: Self)
        ensures
            w@ == title@,
    {
        ThemeSelector { title }
    }

    /// The title to draw.
    pub fn title_text(&self) -> (t: &str)
        ensures
            t@ == self@,
    {
        self.title
    }
}

// ── Word wrapping ───────────────────────────────────────────────────────

/// The longest whitespace-free prefix of a character sequence.
pub open spec fn spec_take_word(s: Seq<char>) -> Seq<char>
    decreases s.len(),
{
    if s.len() > 0 && !crate::color::is_space_char(s[0]) {
        seq![s[0]] + spec_take_word(s.drop_first())
    } else {
        Seq::empty()
    }
}

proof fn lemma_take_word_len(s: Seq<char>)
    ensures
        spec_take_word(s).len() <= s.len(),
        s.len() > 0 && !crate::color::is_space_char(s[0]) ==> spec_take_word(s).len() >= 1,
    decreases s.len(),
{
    if s.len() > 0 && !crate::color::is_space_char(s[0]) {
        lemma_take_word_len(s.drop_first());
    }
}

/// The whitespace-separated words of a character sequence, in order.
pub open spec fn spec_words(s: Seq<char>) -> Seq<Seq<char>>
    decreases s.len(),
    via spec_words_dec
{
    if s.len() == 0 {
        Seq::empty()
    } else if crate::color::is_space_char(s[0]) {
        spec_words(s.drop_first())
    } else {
        seq![spec_take_word(s)] + spec_words(s.skip(spec_take_word(s).len() as int))
    }
}

#[via_fn]
proof fn spec_words_dec(s: Seq<char>) {
    if s.len() > 0 && !crate::color::is_space_char(s[0]) {
        lemma_take_word_len(s);
    }
}

/// Greedy wrapping of a word list: words join the current line while the
/// line stays within `width`, and start a new line otherwise. A word
/// longer than `width` stands on a line of its own.
pub open spec fn spec_wrap_words(words: Seq<Seq<char>>, width: int, cur: Seq<char>) -> Seq<
    Seq<char>,
>
    decreases words.len(),
{
    if words.len() == 0 {
        if cur.len() == 0 {
            Seq::empty()
        } else {
            seq![cur]
        }
    } else {
        let w = words[0];
        if cur.len() == 0 {
            spec_wrap_words(words.drop_first(), width, w)
        } else if cur.len() + 1 + w.len() > width {
            seq![cur] + spec_wrap_words(words.drop_first(), width, w)
        } else {
            spec_wrap_words(words.drop_first(), width, cur + seq![' '] + w)
        }
    }
}

/// What word wrapping yields: nothing for width 0, and otherwise the
/// greedy wrapping of the text's words.
pub open spec fn spec_wrap_text(s: Seq<char>, width: int) -> Seq<Seq<char>> {
    if width == 0 {
        Seq::empty()
    } else {
        spec_wrap_words(spec_words(s), width, Seq::empty())
    }
}

proof fn lemma_take_word_window(s: Seq<char>, pos: int, end: int)
    requires
        0 <= pos <= end <= s.len(),
        forall|k: int| pos <= k < end ==> !crate::color::is_space_char(s[k]),
        end == s.len() || crate::color::is_space_char(s[end]),
    ensures
        spec_take_word(s.skip(pos)) == s.subrange(pos, end),
    decreases end - pos,
{
    let t = s.skip(pos);
    if pos == end {
        if t.len() > 0 {
            assert(t[0] == s[pos]);
        }
        assert(s.subrange(pos, end) =~= Seq::<char>::empty());
    } else {
        assert(t[0] == s[pos]);
        assert(t.drop_first() =~= s.skip(pos + 1));
        lemma_take_word_window(s, pos + 1, end);
        assert(seq![s[pos]] + s.subrange(pos + 1, end) =~= s.subrange(pos, end));
    }
}

/// Collect the whitespace-separated words of `text`.
fn split_words(text: &str) -> (r: Vec<String>)
    ensures
        r@.map_values(|w: String| w@) == spec_words(text@),
{
    let ghost s = text@;
    let n = text.unicode_len();
    let mut words: Vec<String> = Vec::new();
    let mut pos: usize = 0;
    proof {
        assert(s.skip(0) =~= s);
        assert(Seq::<Seq<char>>::empty() + spec_words(s) =~= spec_words(s));
    }
    while pos < n
        invariant
            pos <= n,
            n == s.len(),
            s == text@,
            spec_words(s) == words@.map_values(|w: String| w@) + spec_words(s.skip(pos as int)),
        decreases n - pos,
    {
        let c = text.get_char(pos);
        proof {
            assert(s.skip(pos as int)[0] == s[pos as int]);
            assert(s.skip(pos as int).drop_first() =~= s.skip(pos + 1));
        }
        if is_space(c) {
            pos += 1;
        } else {
            // scan to the end of the word
            let mut end: usize = pos + 1;
            while end < n && !is_space(text.get_char(end))
                invariant
                    pos < end <= n,
                    n == s.len(),
                    s == text@,
                    forall|k: int| pos <= k < end ==> !crate::color::is_space_char(s[k]),
                decreases n - end,
            {
                end += 1;
            }
            let w = text.substring_char(pos, end).to_owned();
            let ghost words0 = words@;
            proof {
                lemma_take_word_window(s, pos as int, end as int);
                assert(spec_take_word(s.skip(pos as int)) == w@);
                lemma_take_word_len(s.skip(pos as int));
                assert(s.skip(pos as int).skip(w@.len() as int) =~= s.skip(end as int));
            }
            words.push(w);
            proof {
                assert(words@.map_values(|x: String| x@) =~= words0.map_values(|x: String| x@)
                    + seq![w@]);
                assert((words0.map_values(|x: String| x@) + seq![w@]) + spec_words(
                    s.skip(end as int),
                ) =~= words0.map_values(|x: String| x@) + (seq![w@] + spec_words(
                    s.skip(end as int),
                )));
            }
            pos = end;
        }
    }
    proof {
        assert(s.skip(n as int) =~= Seq::<char>::empty());
        assert(words@.map_values(|w: String| w@) + Seq::<Seq<char>>::empty() =~= words@.map_values(
            |w: String| w@,
        ));
    }
    words
}

fn is_space(c: char) -> (r: bool)
    ensures
        r == crate::color::is_space_char(c),
{
    c == ' ' || c == '\t' || c == '\n' || c == '\r'
}

/// Simple word wrap: greedy filling of lines up to `max_width`
/// characters, with single spaces between words.
pub fn wrap_text(text: &str, max_width: usize) -> (r: Vec<String>)
    ensures
        r@.map_values(|l: String| l@) == spec_wrap_text(text@, max_width as int),
    {
    if max_width == 0 {
        let r: Vec<String> = Vec::new();
        proof {
            assert(r@.map_values(|l: String| l@) =~= spec_wrap_text(text@, max_width as int));
        }
        return r;
    }
    let words = split_words(text);
    let ghost wseq = words@.map_values(|w: String| w@);
    let mut lines: Vec<String> = Vec::new();
    let mut current: String = String::new();
    let nw = words.len();
    let mut j: usize = 0;
    proof {
        assert(wseq.skip(0) =~= wseq);
    }
    while j < nw
        invariant
            j <= nw,
            nw == words@.len(),
            wseq == words@.map_values(|w: String| w@),
            max_width >= 1,
            spec_wrap_text(text@, max_width as int) == lines@.map_values(|l: String| l@)
                + spec_wrap_words(wseq.skip(j as int), max_width as int, current@),
        decreases nw - j,
    {
        let w = &words[j];
        let ghost rest = wseq.skip(j + 1);
        let ghost cur0 = current@;
        let ghost lines0 = lines@;
        proof {
            assert(wseq.skip(j as int)[0] == wseq[j as int]);
            assert(wseq[j as int] == words@[j as int]@);
            assert(wseq.skip(j as int).drop_first() =~= wseq.skip(j + 1));
        }
        let cur_len = current.as_str().unicode_len();
        let w_len = w.as_str().unicode_len();
        if cur_len == 0 {
            current = w.clone();
            proof {
                assert(spec_wrap_words(wseq.skip(j as int), max_width as int, cur0)
                    == spec_wrap_words(rest, max_width as int, current@));
            }
        } else if cur_len > max_width || max_width - cur_len < 1 || max_width - cur_len - 1
            < w_len {
            proof {
                assert(cur0.len() + 1 + wseq[j as int].len() > max_width);
                assert(spec_wrap_words(wseq.skip(j as int), max_width as int, cur0) == seq![cur0]
                    + spec_wrap_words(rest, max_width as int, wseq[j as int]));
            }
            lines.push(current);
            current = w.clone();
            proof {
                assert(lines@.map_values(|l: String| l@) =~= lines0.map_values(|l: String| l@)
                    + seq![cur0]);
                assert((lines0.map_values(|l: String| l@) + seq![cur0]) + spec_wrap_words(
                    rest,
                    max_width as int,
                    current@,
                ) =~= lines0.map_values(|l: String| l@) + (seq![cur0] + spec_wrap_words(
                    rest,
                    max_width as int,
                    current@,
                )));
            }
        } else {
            proof {
                reveal_strlit(" ");
                assert(" "@ =~= seq![' ']);
                assert(cur0.len() + 1 + wseq[j as int].len() <= max_width);
            }
            current.append(" ");
            current.append(w.as_str());
            proof {
                assert(current@ =~= cur0 + seq![' '] + wseq[j as int]);
                assert(spec_wrap_words(wseq.skip(j as int), max_width as int, cur0)
                    == spec_wrap_words(rest, max_width as int, cur0 + seq![' ']
                    + wseq[j as int]));
            }
        }
        j += 1;
    }
    proof {
        assert(wseq.skip(nw as int) =~= Seq::<Seq<char>>::empty());
    }
    if current.as_str().unicode_len() > 0 {
        let ghost lines0 = lines@;
        let ghost curv = current@;
        lines.push(current);
        proof {
            assert(lines@.map_values(|l: String| l@) =~= lines0.map_values(|l: String| l@)
                + seq![curv]);
        }
    } else {
        proof {
            assert(lines@.map_values(|l: String| l@) + Seq::<Seq<char>>::empty()
                =~= lines@.map_values(|l: String| l@));
        }
    }
    lines
}

} // verus!
