//! The resolution pipeline: the algorithmic core of the crate.
//!
//! A structured specification enters the pipeline once and is resolved in
//! four stages — palette, tokens, styles, gradients — each consuming the
//! previous stage's output plus remaining raw input. Resolution is strict
//! and fail-fast: the first error anywhere aborts the whole resolution.
//!
//! Every stage is specified as a total function of its input's view, so
//! resolving the same specification twice yields identical results, and
//! the result never depends on traversal incidentals.

use crate::color::{hex_digit_str, spec_from_hex, spec_hex_digit_char, OpalineColor};
use crate::error::{OpalineError, OpalineErrorView};
use crate::gradient::Gradient;
use crate::schema::{StopList, StyleDef, StyleDefView, ThemeFile};
use crate::style::OpalineStyle;
use crate::table::{
    lemma_table_index_of_first, lemma_table_index_valid, str_eq, table_get, table_has,
    table_keys_unique, Table,
};
use vstd::prelude::*;
use vstd::string::StringExecFns;

verus! {

/// The images of a vector of strings.
pub open spec fn strs_view(v: Seq<String>) -> Seq<Seq<char>> {
    v.map_values(|s: String| s@)
}

// ── Termination measure for the token graph traversal ───────────────────

/// The number of raw token entries whose name is not yet on the traversal
/// chain. Each traversal step pushes a fresh name onto the chain, so this
/// measure shrinks strictly.
pub open spec fn count_unvisited(raw: Seq<(Seq<char>, Seq<char>)>, chain: Seq<Seq<char>>) -> nat
    decreases raw.len(),
{
    if raw.len() == 0 {
        0
    } else {
        (if chain.contains(raw[0].0) {
            0nat
        } else {
            1nat
        }) + count_unvisited(raw.drop_first(), chain)
    }
}

proof fn lemma_count_unvisited_mono(
    raw: Seq<(Seq<char>, Seq<char>)>,
    chain: Seq<Seq<char>>,
    longer: Seq<Seq<char>>,
)
    requires
        forall|k: Seq<char>| chain.contains(k) ==> longer.contains(k),
    ensures
        count_unvisited(raw, longer) <= count_unvisited(raw, chain),
    decreases raw.len(),
{
    if raw.len() > 0 {
        lemma_count_unvisited_mono(raw.drop_first(), chain, longer);
    }
}

proof fn lemma_count_unvisited_push(
    raw: Seq<(Seq<char>, Seq<char>)>,
    chain: Seq<Seq<char>>,
    name: Seq<char>,
)
    requires
        table_has(raw, name),
        !chain.contains(name),
    ensures
        count_unvisited(raw, chain.push(name)) < count_unvisited(raw, chain),
    decreases raw.len(),
{
    let chain2 = chain.push(name);
    assert forall|k: Seq<char>| chain.contains(k) implies chain2.contains(k) by {
        let i = choose|i: int| 0 <= i < chain.len() && chain[i] == k;
        assert(chain2[i] == k);
    }
    assert(chain2[chain.len() as int] == name);
    assert(chain2.contains(name));
    if raw[0].0 == name {
        lemma_count_unvisited_mono(raw.drop_first(), chain, chain2);
    } else {
        let i = choose|i: int| 0 <= i < raw.len() && raw[i].0 == name;
        assert(raw.drop_first()[i - 1].0 == name);
        lemma_count_unvisited_push(raw.drop_first(), chain, name);
    }
}

// ── Stage 1: palette ────────────────────────────────────────────────────

/// A stage result with the already-produced prefix prepended.
pub open spec fn with_prefix<T>(
    prefix: Seq<(Seq<char>, T)>,
    r: Result<Seq<(Seq<char>, T)>, OpalineErrorView>,
) -> Result<Seq<(Seq<char>, T)>, OpalineErrorView> {
    match r {
        Ok(rest) => Ok(prefix + rest),
        Err(e) => Err(e),
    }
}

/// Stage 1: every palette value must be a literal `#rrggbb` hex string.
/// Entries are independent; the first invalid literal aborts resolution.
pub open spec fn spec_resolve_palette(raw: Seq<(Seq<char>, Seq<char>)>) -> Result<
    Seq<(Seq<char>, OpalineColor)>,
    OpalineErrorView,
>
    decreases raw.len(),
{
    if raw.len() == 0 {
        Ok(Seq::empty())
    } else {
        match spec_from_hex(raw[0].1) {
            Ok(c) => with_prefix(
                seq![(raw[0].0, c)],
                spec_resolve_palette(raw.drop_first()),
            ),
            Err(e) => Err(OpalineErrorView::InvalidColor { token: raw[0].0, source: e }),
        }
    }
}

/// Resolve the palette section: parse every entry's hex literal.
pub fn resolve_palette(raw: &Table<String>) -> (r: Result<Table<OpalineColor>, OpalineError>)
    requires
        raw.wf(),
    ensures
        match r {
            Ok(t) => spec_resolve_palette(raw@) == Ok::<_, OpalineErrorView>(t@) && t.wf()
                && t@.len() == raw@.len() && (forall|j: int|
                0 <= j < raw@.len() ==> #[trigger] t@[j].0 == raw@[j].0),
            Err(e) => spec_resolve_palette(raw@) == Err::<Seq<(Seq<char>, OpalineColor)>, _>(e@),
        },
{
    let n = raw.len();
    let mut out: Table<OpalineColor> = Table::new();
    let mut i: usize = 0;
    proof {
        assert(raw@.skip(0) =~= raw@);
        assert(Seq::<(Seq<char>, OpalineColor)>::empty() + Seq::empty()
            =~= Seq::<(Seq<char>, OpalineColor)>::empty());
    }
    while i < n
        invariant
            i <= n,
            n == raw@.len(),
            raw.wf(),
            out.wf(),
            out@.len() == i,
            forall|j: int| 0 <= j < i ==> #[trigger] out@[j].0 == raw@[j].0,
            spec_resolve_palette(raw@) == with_prefix(out@, spec_resolve_palette(raw@.skip(i as int))),
        decreases n - i,
    {
        let key = raw.key_at(i);
        let val = raw.val_at(i);
        proof {
            assert(raw@.skip(i as int).len() > 0);
            assert(raw@.skip(i as int)[0] == raw@[i as int]);
            assert(raw@.skip(i as int).drop_first() =~= raw@.skip(i + 1));
        }
        match OpalineColor::from_hex(val.as_str()) {
            Ok(c) => {
                proof {
                    if table_has(out@, key@) {
                        let j = choose|j: int| 0 <= j < out@.len() && out@[j].0 == key@;
                        assert(raw@[j].0 == raw@[i as int].0);
                        assert(false);
                    }
                }
                let ghost prev = out@;
                let ghost kc = (raw@[i as int].0, c);
                let ghost rest_r = spec_resolve_palette(raw@.skip(i + 1));
                proof {
                    assert(spec_resolve_palette(raw@.skip(i as int)) == with_prefix(
                        seq![kc],
                        rest_r,
                    ));
                }
                out.insert(key.as_str(), c);
                proof {
                    assert(out@ == prev.push(kc));
                    match rest_r {
                        Ok(rest) => {
                            assert(prev + (seq![kc] + rest) =~= out@ + rest);
                        },
                        Err(_) => {},
                    }
                    assert(with_prefix(prev, spec_resolve_palette(raw@.skip(i as int)))
                        == with_prefix(out@, rest_r));
                }
            },
            Err(e) => {
                return Err(OpalineError::InvalidColor { token: key.clone(), source: e });
            },
        }
        i += 1;
    }
    proof {
        assert(raw@.skip(n as int) =~= Seq::<(Seq<char>, Seq<char>)>::empty());
        assert(out@ + Seq::empty() =~= out@);
    }
    Ok(out)
}

// ── Stage 2: tokens ─────────────────────────────────────────────────────

/// Stage 2, one node: resolve the token `name` by following its reference.
///
/// `done` holds the memoized results so far; `chain` is the traversal path
/// from the root of the current walk. A node already on the chain closes a
/// cycle and fails; otherwise its raw value is classified as a hex
/// literal, a palette name, or another token name, in that order, and a
/// value that is none of these is a dangling reference.
pub open spec fn spec_resolve_token(
    raw: Seq<(Seq<char>, Seq<char>)>,
    pal: Seq<(Seq<char>, OpalineColor)>,
    done: Seq<(Seq<char>, OpalineColor)>,
    name: Seq<char>,
    chain: Seq<Seq<char>>,
) -> Result<(Seq<(Seq<char>, OpalineColor)>, OpalineColor), OpalineErrorView>
    decreases count_unvisited(raw, chain),
    via spec_resolve_token_dec
{
    if table_has(done, name) {
        Ok((done, table_get(done, name)))
    } else if chain.contains(name) {
        Err(OpalineErrorView::CircularReference { token: name, chain: chain.push(name) })
    } else if !table_has(raw, name) {
        Err(OpalineErrorView::UnresolvedToken { token: name, reference: name })
    } else {
        let v = table_get(raw, name);
        if v.len() > 0 && v[0] == '#' {
            match spec_from_hex(v) {
                Ok(c) => Ok((done.push((name, c)), c)),
                Err(e) => Err(OpalineErrorView::InvalidColor { token: name, source: e }),
            }
        } else if table_has(pal, v) {
            Ok((done.push((name, table_get(pal, v))), table_get(pal, v)))
        } else if table_has(raw, v) {
            match spec_resolve_token(raw, pal, done, v, chain.push(name)) {
                Ok((d2, c)) => Ok((d2.push((name, c)), c)),
                Err(e) => Err(e),
            }
        } else {
            Err(OpalineErrorView::UnresolvedToken { token: name, reference: v })
        }
    }
}

#[via_fn]
proof fn spec_resolve_token_dec(
    raw: Seq<(Seq<char>, Seq<char>)>,
    pal: Seq<(Seq<char>, OpalineColor)>,
    done: Seq<(Seq<char>, OpalineColor)>,
    name: Seq<char>,
    chain: Seq<Seq<char>>,
) {
    if !table_has(done, name) && !chain.contains(name) && table_has(raw, name) {
        lemma_count_unvisited_push(raw, chain, name);
    }
}

/// What one traversal step guarantees: the memo table only grows, it keeps
/// its keys unique, every new entry is a raw token name that was not on
/// the chain, and the requested name ends up memoized with the returned
/// color.
pub proof fn lemma_resolve_token_props(
    raw: Seq<(Seq<char>, Seq<char>)>,
    pal: Seq<(Seq<char>, OpalineColor)>,
    done: Seq<(Seq<char>, OpalineColor)>,
    name: Seq<char>,
    chain: Seq<Seq<char>>,
)
    requires
        table_keys_unique(raw),
        table_keys_unique(done),
        forall|i: int| 0 <= i < chain.len() ==> table_has(raw, #[trigger] chain[i]) && !table_has(
            done,
            chain[i],
        ),
    ensures
        match spec_resolve_token(raw, pal, done, name, chain) {
            Ok((d2, c)) => d2.len() >= done.len() && d2.subrange(0, done.len() as int) == done
                && table_keys_unique(d2) && (forall|j: int|
                done.len() <= j < d2.len() ==> table_has(raw, #[trigger] d2[j].0)
                    && !chain.contains(d2[j].0)) && table_has(d2, name) && table_get(d2, name)
                == c,
            Err(_) => true,
        },
    decreases count_unvisited(raw, chain),
{
    if table_has(done, name) {
        assert(done.subrange(0, done.len() as int) =~= done);
    } else if chain.contains(name) {
    } else if !table_has(raw, name) {
    } else {
        let v = table_get(raw, name);
        let chain2 = chain.push(name);
        assert forall|k: Seq<char>| chain.contains(k) implies chain2.contains(k) by {
            let i = choose|i: int| 0 <= i < chain.len() && chain[i] == k;
            assert(chain2[i] == k);
        }
        assert(chain2[chain.len() as int] == name);
        assert(chain2.contains(name));
        if v.len() > 0 && v[0] == '#' {
            if spec_from_hex(v) is Ok {
                let c = spec_from_hex(v)->Ok_0;
                lemma_push_props(raw, done, name, c, chain);
            }
        } else if table_has(pal, v) {
            lemma_push_props(raw, done, name, table_get(pal, v), chain);
        } else if table_has(raw, v) {
            lemma_count_unvisited_push(raw, chain, name);
            assert(forall|i: int|
                0 <= i < chain2.len() ==> table_has(raw, #[trigger] chain2[i]) && !table_has(
                    done,
                    chain2[i],
                ));
            lemma_resolve_token_props(raw, pal, done, v, chain2);
            match spec_resolve_token(raw, pal, done, v, chain2) {
                Ok((d2, c)) => {
                    // `name` is nowhere in the grown memo table: not among
                    // the old entries, and every new entry avoids the
                    // chain that holds `name`.
                    assert forall|j: int| 0 <= j < d2.len() implies d2[j].0 != name by {
                        if j < done.len() {
                            assert(d2.subrange(0, done.len() as int)[j] == d2[j]);
                            assert(d2[j] == done[j]);
                            if d2[j].0 == name {
                                assert(table_has(done, name));
                            }
                        } else {
                            assert(!chain2.contains(d2[j].0));
                        }
                    }
                    assert(!table_has(d2, name));
                    let d3 = d2.push((name, c));
                    assert(d3.subrange(0, done.len() as int) =~= d2.subrange(
                        0,
                        done.len() as int,
                    ));
                    assert forall|j: int|
                        done.len() <= j < d3.len() implies table_has(
                        raw,
                        #[trigger] d3[j].0,
                    ) && !chain.contains(d3[j].0) by {
                        if j < d2.len() {
                            assert(d3[j] == d2[j]);
                            if chain.contains(d2[j].0) {
                                assert(chain2.contains(d2[j].0));
                            }
                        } else {
                            assert(d3[j].0 == name);
                        }
                    }
                    assert(d3[d2.len() as int].0 == name);
                    assert(table_has(d3, name));
                    lemma_table_index_of_first(d3, name, d2.len() as int);
                },
                Err(_) => {},
            }
        } else {
        }
    }
}

/// Appending a fresh memo entry keeps all the traversal invariants.
proof fn lemma_push_props(
    raw: Seq<(Seq<char>, Seq<char>)>,
    done: Seq<(Seq<char>, OpalineColor)>,
    name: Seq<char>,
    c: OpalineColor,
    chain: Seq<Seq<char>>,
)
    requires
        table_keys_unique(done),
        !table_has(done, name),
        table_has(raw, name),
        !chain.contains(name),
    ensures
        ({
            let d2 = done.push((name, c));
            d2.len() >= done.len() && d2.subrange(0, done.len() as int) == done
                && table_keys_unique(d2) && (forall|j: int|
                done.len() <= j < d2.len() ==> table_has(raw, #[trigger] d2[j].0)
                    && !chain.contains(d2[j].0)) && table_has(d2, name) && table_get(d2, name)
                == c
        }),
{
    let d2 = done.push((name, c));
    assert(d2.subrange(0, done.len() as int) =~= done);
    assert(d2[done.len() as int].0 == name);
    assert(table_has(d2, name));
    assert(forall|j: int| 0 <= j < done.len() ==> #[trigger] d2[j] == done[j]);
    lemma_table_index_of_first(d2, name, done.len() as int);
}

/// Whether a raw value is a reference to another token: not a hex
/// literal, not a palette name, but a declared token name.
pub open spec fn is_token_ref(
    raw: Seq<(Seq<char>, Seq<char>)>,
    pal: Seq<(Seq<char>, OpalineColor)>,
    v: Seq<char>,
) -> bool {
    !(v.len() > 0 && v[0] == '#') && !table_has(pal, v) && table_has(raw, v)
}

/// Chain consistency of a memo table: every memoized token whose raw
/// value names another token carries exactly that token's memoized
/// color.
pub open spec fn done_consistent(
    raw: Seq<(Seq<char>, Seq<char>)>,
    pal: Seq<(Seq<char>, OpalineColor)>,
    done: Seq<(Seq<char>, OpalineColor)>,
) -> bool {
    forall|i: int|
        0 <= i < done.len() && table_has(raw, (#[trigger] done[i]).0) && is_token_ref(
            raw,
            pal,
            table_get(raw, done[i].0),
        ) ==> table_has(done, table_get(raw, done[i].0)) && table_get(
            done,
            table_get(raw, done[i].0),
        ) == done[i].1
}

/// One traversal step keeps the memo table chain-consistent.
proof fn lemma_resolve_token_consistent(
    raw: Seq<(Seq<char>, Seq<char>)>,
    pal: Seq<(Seq<char>, OpalineColor)>,
    done: Seq<(Seq<char>, OpalineColor)>,
    name: Seq<char>,
    chain: Seq<Seq<char>>,
)
    requires
        table_keys_unique(raw),
        table_keys_unique(done),
        forall|i: int| 0 <= i < chain.len() ==> table_has(raw, #[trigger] chain[i]) && !table_has(
            done,
            chain[i],
        ),
        done_consistent(raw, pal, done),
    ensures
        match spec_resolve_token(raw, pal, done, name, chain) {
            Ok((d2, c)) => done_consistent(raw, pal, d2),
            Err(_) => true,
        },
    decreases count_unvisited(raw, chain),
{
    lemma_resolve_token_props(raw, pal, done, name, chain);
    if table_has(done, name) {
    } else if chain.contains(name) {
    } else if !table_has(raw, name) {
    } else {
        let v = table_get(raw, name);
        let chain2 = chain.push(name);
        assert forall|k: Seq<char>| chain.contains(k) implies chain2.contains(k) by {
            let i = choose|i: int| 0 <= i < chain.len() && chain[i] == k;
            assert(chain2[i] == k);
        }
        assert(chain2[chain.len() as int] == name);
        if v.len() > 0 && v[0] == '#' {
            if spec_from_hex(v) is Ok {
                let c = spec_from_hex(v)->Ok_0;
                lemma_push_consistent(raw, pal, done, name, c);
            }
        } else if table_has(pal, v) {
            lemma_push_consistent(raw, pal, done, name, table_get(pal, v));
        } else if table_has(raw, v) {
            lemma_count_unvisited_push(raw, chain, name);
            lemma_resolve_token_props(raw, pal, done, v, chain2);
            lemma_resolve_token_consistent(raw, pal, done, v, chain2);
            match spec_resolve_token(raw, pal, done, v, chain2) {
                Ok((d2, c)) => {
                    // the referenced token is memoized with the color we
                    // hand back, so the new entry is consistent; existing
                    // entries keep their lookups
                    assert forall|j: int| 0 <= j < d2.len() implies d2[j].0 != name by {
                        if j < done.len() {
                            assert(d2.subrange(0, done.len() as int)[j] == d2[j]);
                            if d2[j].0 == name {
                                assert(table_has(done, name));
                            }
                        } else {
                            assert(chain2.contains(name));
                            assert(!chain2.contains(d2[j].0));
                        }
                    }
                    assert(!table_has(d2, name));
                    let d3 = d2.push((name, c));
                    crate::table::lemma_push_preserves_get(d2, name, c);
                    lemma_table_index_of_first(d3, name, d2.len() as int);
                    assert(table_get(d3, name) == c);
                    assert forall|i: int|
                        0 <= i < d3.len() && table_has(raw, (#[trigger] d3[i]).0) && is_token_ref(
                            raw,
                            pal,
                            table_get(raw, d3[i].0),
                        ) implies table_has(d3, table_get(raw, d3[i].0)) && table_get(
                        d3,
                        table_get(raw, d3[i].0),
                    ) == d3[i].1 by {
                        if i < d2.len() {
                            assert(d3[i] == d2[i]);
                            assert(table_has(d2, table_get(raw, d2[i].0)));
                        } else {
                            assert(d3[i] == (name, c));
                            assert(table_get(raw, name) == v);
                            assert(table_has(d2, v) && table_get(d2, v) == c);
                        }
                    }
                },
                Err(_) => {},
            }
        } else {
        }
    }
}

/// Memoizing a token that resolved directly (hex literal or palette
/// name) keeps the memo table chain-consistent.
proof fn lemma_push_consistent(
    raw: Seq<(Seq<char>, Seq<char>)>,
    pal: Seq<(Seq<char>, OpalineColor)>,
    done: Seq<(Seq<char>, OpalineColor)>,
    name: Seq<char>,
    c: OpalineColor,
)
    requires
        table_keys_unique(raw),
        table_keys_unique(done),
        done_consistent(raw, pal, done),
        table_has(raw, name),
        !table_has(done, name),
        !is_token_ref(raw, pal, table_get(raw, name)),
    ensures
        done_consistent(raw, pal, done.push((name, c))),
{
    let d2 = done.push((name, c));
    crate::table::lemma_push_preserves_get(done, name, c);
    assert forall|i: int|
        0 <= i < d2.len() && table_has(raw, (#[trigger] d2[i]).0) && is_token_ref(
            raw,
            pal,
            table_get(raw, d2[i].0),
        ) implies table_has(d2, table_get(raw, d2[i].0)) && table_get(
        d2,
        table_get(raw, d2[i].0),
    ) == d2[i].1 by {
        if i < done.len() {
            assert(d2[i] == done[i]);
            assert(table_has(done, table_get(raw, done[i].0)));
        } else {
            assert(d2[i] == (name, c));
        }
    }
}

proof fn lemma_resolve_tokens_from_consistent(
    raw: Seq<(Seq<char>, Seq<char>)>,
    pal: Seq<(Seq<char>, OpalineColor)>,
    done: Seq<(Seq<char>, OpalineColor)>,
    i: int,
)
    requires
        0 <= i,
        table_keys_unique(raw),
        table_keys_unique(done),
        done_consistent(raw, pal, done),
        forall|j: int| 0 <= j < i && j < raw.len() ==> table_has(done, (#[trigger] raw[j]).0),
    ensures
        match spec_resolve_tokens_from(raw, pal, done, i) {
            Ok(d2) => done_consistent(raw, pal, d2) && (forall|j: int|
                0 <= j < raw.len() ==> table_has(d2, (#[trigger] raw[j]).0)),
            Err(_) => true,
        },
    decreases raw.len() - i,
{
    if 0 <= i < raw.len() {
        let name = raw[i].0;
        assert(table_has(raw, name));
        if table_has(done, name) {
            lemma_resolve_tokens_from_consistent(raw, pal, done, i + 1);
        } else {
            lemma_resolve_token_props(raw, pal, done, name, Seq::empty());
            lemma_resolve_token_consistent(raw, pal, done, name, Seq::empty());
            match spec_resolve_token(raw, pal, done, name, Seq::empty()) {
                Ok((d2, _c)) => {
                    assert forall|j: int| 0 <= j < i + 1 && j < raw.len() implies table_has(
                        d2,
                        (#[trigger] raw[j]).0,
                    ) by {
                        if j < i {
                            let k = crate::table::table_index(done, raw[j].0);
                            lemma_table_index_valid(done, raw[j].0);
                            assert(d2.subrange(0, done.len() as int)[k] == d2[k]);
                            assert(d2[k].0 == raw[j].0);
                        }
                    }
                    lemma_resolve_tokens_from_consistent(raw, pal, d2, i + 1);
                },
                Err(_) => {},
            }
        }
    }
}

/// Traversal-order irrelevance of token resolution: when the token stage
/// succeeds, every declared token is resolved, and a token whose raw
/// value names another token carries exactly that token's resolved
/// color — wherever in the entry order the two stand, and whichever of
/// them a traversal reached first.
pub proof fn lemma_token_chain_consistency(
    raw: Seq<(Seq<char>, Seq<char>)>,
    pal: Seq<(Seq<char>, OpalineColor)>,
)
    requires
        table_keys_unique(raw),
    ensures
        match spec_resolve_tokens(raw, pal) {
            Ok(done) => (forall|j: int|
                0 <= j < raw.len() ==> table_has(done, (#[trigger] raw[j]).0)) && (forall|i: int|
                0 <= i < done.len() && table_has(raw, (#[trigger] done[i]).0) && is_token_ref(
                    raw,
                    pal,
                    table_get(raw, done[i].0),
                ) ==> table_has(done, table_get(raw, done[i].0)) && table_get(
                    done,
                    table_get(raw, done[i].0),
                ) == done[i].1),
            Err(_) => true,
        },
{
    lemma_resolve_tokens_from_consistent(raw, pal, Seq::empty(), 0);
}

/// Stage 2, whole section: traverse every declared token name once, in
/// entry order, skipping names already memoized by an earlier walk.
pub open spec fn spec_resolve_tokens_from(
    raw: Seq<(Seq<char>, Seq<char>)>,
    pal: Seq<(Seq<char>, OpalineColor)>,
    done: Seq<(Seq<char>, OpalineColor)>,
    i: int,
) -> Result<Seq<(Seq<char>, OpalineColor)>, OpalineErrorView>
    decreases raw.len() - i,
{
    if i < 0 || i >= raw.len() {
        Ok(done)
    } else if table_has(done, raw[i].0) {
        spec_resolve_tokens_from(raw, pal, done, i + 1)
    } else {
        match spec_resolve_token(raw, pal, done, raw[i].0, Seq::empty()) {
            Ok((d2, _c)) => spec_resolve_tokens_from(raw, pal, d2, i + 1),
            Err(e) => Err(e),
        }
    }
}

/// Stage 2: the full token map, resolved from an empty memo table.
pub open spec fn spec_resolve_tokens(
    raw: Seq<(Seq<char>, Seq<char>)>,
    pal: Seq<(Seq<char>, OpalineColor)>,
) -> Result<Seq<(Seq<char>, OpalineColor)>, OpalineErrorView> {
    spec_resolve_tokens_from(raw, pal, Seq::empty(), 0)
}

// ── Executable helpers ──────────────────────────────────────────────────

fn chain_contains(chain: &Vec<String>, name: &str) -> (r: bool)
    ensures
        r == strs_view(chain@).contains(name@),
{
    let n = chain.len();
    let mut i: usize = 0;
    while i < n
        invariant
            i <= n,
            n == chain@.len(),
            forall|j: int| 0 <= j < i ==> chain@[j]@ != name@,
        decreases n - i,
    {
        if str_eq(chain[i].as_str(), name) {
            proof {
                assert(strs_view(chain@)[i as int] == name@);
            }
            return true;
        }
        i += 1;
    }
    proof {
        if strs_view(chain@).contains(name@) {
            let j = choose|j: int|
                0 <= j < strs_view(chain@).len() && strs_view(chain@)[j] == name@;
            assert(chain@[j]@ == name@);
        }
    }
    false
}

fn clone_strings(v: &Vec<String>) -> (r: Vec<String>)
    ensures
        r@ == v@,
{
    let mut out: Vec<String> = Vec::new();
    let n = v.len();
    let mut i: usize = 0;
    while i < n
        invariant
            i <= n,
            n == v@.len(),
            out@.len() == i,
            forall|j: int| 0 <= j < i ==> out@[j] == v@[j],
        decreases n - i,
    {
        out.push(v[i].clone());
        i += 1;
    }
    proof {
        assert(out@ =~= v@);
    }
    out
}

fn starts_with_hash(s: &str) -> (r: bool)
    ensures
        r == (s@.len() > 0 && s@[0] == '#'),
{
    let n = s.unicode_len();
    if n == 0 {
        false
    } else {
        s.get_char(0) == '#'
    }
}

/// Resolve one token by walking its reference chain.
///
/// `resolved` memoizes finished tokens; `chain` is the in-progress path
/// and reports cycles in traversal order.
pub fn resolve_token(
    name: &str,
    raw: &Table<String>,
    palette: &Table<OpalineColor>,
    resolved: &mut Table<OpalineColor>,
    chain: &mut Vec<String>,
) -> (r: Result<OpalineColor, OpalineError>)
    requires
        raw.wf(),
        old(resolved).wf(),
        forall|i: int| 0 <= i < old(chain)@.len() ==> table_has(
            raw@,
            #[trigger] old(chain)@[i]@,
        ) && !table_has(old(resolved)@, old(chain)@[i]@),
    ensures
        match (r, spec_resolve_token(
            raw@,
            palette@,
            old(resolved)@,
            name@,
            strs_view(old(chain)@),
        )) {
            (Ok(c), Ok((d2, c2))) => c == c2 && final(resolved)@ == d2 && final(resolved).wf(),
            (Err(e), Err(e2)) => e@ == e2 && final(resolved)@ == old(resolved)@,
            _ => false,
        },
    decreases count_unvisited(raw@, strs_view(old(chain)@)),
{
    let ghost ch0 = strs_view(old(chain)@);
    if let Some(c) = resolved.get(name) {
        return Ok(*c);
    }
    if chain_contains(chain, name) {
        chain.push(name.to_owned());
        proof {
            assert(strs_view(chain@) =~= ch0.push(name@));
        }
        let chain_copy = clone_strings(chain);
        return Err(
            OpalineError::CircularReference { token: name.to_owned(), chain: chain_copy },
        );
    }
    let value = match raw.get(name) {
        Some(v) => v,
        None => {
            return Err(
                OpalineError::UnresolvedToken {
                    token: name.to_owned(),
                    reference: name.to_owned(),
                },
            );
        },
    };
    chain.push(name.to_owned());
    proof {
        assert(strs_view(chain@) =~= ch0.push(name@));
    }
    if starts_with_hash(value.as_str()) {
        match OpalineColor::from_hex(value.as_str()) {
            Ok(c) => {
                resolved.insert(name, c);
                Ok(c)
            },
            Err(e) => Err(OpalineError::InvalidColor { token: name.to_owned(), source: e }),
        }
    } else if let Some(pc) = palette.get(value.as_str()) {
        let c = *pc;
        resolved.insert(name, c);
        Ok(c)
    } else if raw.contains_key(value.as_str()) {
        let ghost ch2 = strs_view(chain@);
        let ghost done0 = resolved@;
        proof {
            lemma_count_unvisited_push(raw@, ch0, name@);
            assert(forall|i: int|
                0 <= i < chain@.len() ==> table_has(raw@, #[trigger] chain@[i]@) && !table_has(
                    resolved@,
                    chain@[i]@,
                ));
        }
        match resolve_token(value.as_str(), raw, palette, resolved, chain) {
            Ok(c) => {
                proof {
                    lemma_resolve_token_props(raw@, palette@, done0, value@, ch2);
                    assert forall|j: int| 0 <= j < resolved@.len() implies resolved@[j].0
                        != name@ by {
                        if j < done0.len() {
                            assert(resolved@.subrange(0, done0.len() as int)[j] == resolved@[j]);
                            assert(resolved@[j] == done0[j]);
                            if resolved@[j].0 == name@ {
                                assert(table_has(done0, name@));
                            }
                        } else {
                            assert(ch2[ch0.len() as int] == name@);
                            assert(ch2.contains(name@));
                            assert(!ch2.contains(resolved@[j].0));
                        }
                    }
                    assert(!table_has(resolved@, name@));
                }
                resolved.insert(name, c);
                Ok(c)
            },
            Err(e) => Err(e),
        }
    } else {
        Err(
            OpalineError::UnresolvedToken {
                token: name.to_owned(),
                reference: value.clone(),
            },
        )
    }
}

/// Resolve the whole token section against the resolved palette.
pub fn resolve_tokens(raw: &Table<String>, palette: &Table<OpalineColor>) -> (r: Result<
    Table<OpalineColor>,
    OpalineError,
>)
    requires
        raw.wf(),
    ensures
        match r {
            Ok(t) => spec_resolve_tokens(raw@, palette@) == Ok::<_, OpalineErrorView>(t@)
                && t.wf(),
            Err(e) => spec_resolve_tokens(raw@, palette@) == Err::<
                Seq<(Seq<char>, OpalineColor)>,
                _,
            >(e@),
        },
{
    let n = raw.len();
    let mut resolved: Table<OpalineColor> = Table::new();
    let mut i: usize = 0;
    while i < n
        invariant
            i <= n,
            n == raw@.len(),
            raw.wf(),
            resolved.wf(),
            spec_resolve_tokens(raw@, palette@) == spec_resolve_tokens_from(
                raw@,
                palette@,
                resolved@,
                i as int,
            ),
        decreases n - i,
    {
        let name = raw.key_at(i);
        if !resolved.contains_key(name.as_str()) {
            let mut chain: Vec<String> = Vec::new();
            proof {
                assert(strs_view(chain@) =~= Seq::<Seq<char>>::empty());
            }
            match resolve_token(name.as_str(), raw, palette, &mut resolved, &mut chain) {
                Ok(_) => {},
                Err(e) => {
                    return Err(e);
                },
            }
        }
        i += 1;
    }
    Ok(resolved)
}

// ── Combined reference lookup ───────────────────────────────────────────

/// The combined lookup used by styles and gradients: a reference is a hex
/// literal, a resolved token name, or a resolved palette name, in that
/// priority order; anything else is unresolvable.
pub open spec fn spec_resolve_color_ref(
    reference: Seq<char>,
    pal: Seq<(Seq<char>, OpalineColor)>,
    toks: Seq<(Seq<char>, OpalineColor)>,
) -> Option<OpalineColor> {
    if reference.len() > 0 && reference[0] == '#' {
        match spec_from_hex(reference) {
            Ok(c) => Some(c),
            Err(_) => None,
        }
    } else if table_has(toks, reference) {
        Some(table_get(toks, reference))
    } else if table_has(pal, reference) {
        Some(table_get(pal, reference))
    } else {
        None
    }
}

/// Resolve a color reference from the combined token + palette namespace.
/// Lookup order: hex literal, then tokens, then palette, then `None`.
pub fn resolve_color_ref(
    reference: &str,
    palette: &Table<OpalineColor>,
    tokens: &Table<OpalineColor>,
) -> (r: Option<OpalineColor>)
    ensures
        r == spec_resolve_color_ref(reference@, palette@, tokens@),
{
    if starts_with_hash(reference) {
        match OpalineColor::from_hex(reference) {
            Ok(c) => Some(c),
            Err(_) => None,
        }
    } else if let Some(c) = tokens.get(reference) {
        Some(*c)
    } else if let Some(c) = palette.get(reference) {
        Some(*c)
    } else {
        None
    }
}

// ── Stage 3: styles ─────────────────────────────────────────────────────

/// One optional style reference: absent stays absent, present must
/// resolve, and an unresolvable reference reports the owning field.
pub open spec fn spec_style_ref(
    owner: Seq<char>,
    field: Seq<char>,
    refr: Option<Seq<char>>,
    pal: Seq<(Seq<char>, OpalineColor)>,
    toks: Seq<(Seq<char>, OpalineColor)>,
) -> Result<Option<OpalineColor>, OpalineErrorView> {
    match refr {
        Some(r) => match spec_resolve_color_ref(r, pal, toks) {
            Some(c) => Ok(Some(c)),
            None => Err(OpalineErrorView::UnresolvedToken { token: owner + field, reference: r }),
        },
        None => Ok(None),
    }
}

/// Stage 3, one definition: resolve `fg` then `bg`; the four authored
/// modifier flags pass through unchanged and the rest stay off.
pub open spec fn spec_resolve_style_def(
    name: Seq<char>,
    def: StyleDefView,
    pal: Seq<(Seq<char>, OpalineColor)>,
    toks: Seq<(Seq<char>, OpalineColor)>,
) -> Result<OpalineStyle, OpalineErrorView> {
    match spec_style_ref(name, seq!['.', 'f', 'g'], def.fg, pal, toks) {
        Ok(fg) => match spec_style_ref(name, seq!['.', 'b', 'g'], def.bg, pal, toks) {
            Ok(bg) => Ok(
                OpalineStyle {
                    fg,
                    bg,
                    bold: def.bold,
                    dim: def.dim,
                    italic: def.italic,
                    underline: def.underline,
                    slow_blink: false,
                    rapid_blink: false,
                    reversed: false,
                    hidden: false,
                    crossed_out: false,
                },
            ),
            Err(e) => Err(e),
        },
        Err(e) => Err(e),
    }
}

/// Stage 3: resolve every style definition, in entry order.
pub open spec fn spec_resolve_styles(
    raw: Seq<(Seq<char>, StyleDefView)>,
    pal: Seq<(Seq<char>, OpalineColor)>,
    toks: Seq<(Seq<char>, OpalineColor)>,
) -> Result<Seq<(Seq<char>, OpalineStyle)>, OpalineErrorView>
    decreases raw.len(),
{
    if raw.len() == 0 {
        Ok(Seq::empty())
    } else {
        match spec_resolve_style_def(raw[0].0, raw[0].1, pal, toks) {
            Ok(st) => with_prefix(
                seq![(raw[0].0, st)],
                spec_resolve_styles(raw.drop_first(), pal, toks),
            ),
            Err(e) => Err(e),
        }
    }
}

/// Append a literal suffix to a cloned style name, for error reporting.
fn field_token(name: &String, fg: bool) -> (t: String)
    ensures
        fg ==> t@ == name@ + seq!['.', 'f', 'g'],
        !fg ==> t@ == name@ + seq!['.', 'b', 'g'],
{
    let mut t = name.clone();
    if fg {
        proof {
            reveal_strlit(".fg");
            assert(".fg"@ =~= seq!['.', 'f', 'g']);
        }
        t.append(".fg");
    } else {
        proof {
            reveal_strlit(".bg");
            assert(".bg"@ =~= seq!['.', 'b', 'g']);
        }
        t.append(".bg");
    }
    t
}

/// Resolve the style section against the resolved palette and tokens.
pub fn resolve_styles(
    raw: &Table<StyleDef>,
    palette: &Table<OpalineColor>,
    tokens: &Table<OpalineColor>,
) -> (r: Result<Table<OpalineStyle>, OpalineError>)
    requires
        raw.wf(),
    ensures
        match r {
            Ok(t) => spec_resolve_styles(raw@, palette@, tokens@) == Ok::<_, OpalineErrorView>(t@)
                && t.wf(),
            Err(e) => spec_resolve_styles(raw@, palette@, tokens@) == Err::<
                Seq<(Seq<char>, OpalineStyle)>,
                _,
            >(e@),
        },
{
    let n = raw.len();
    let mut out: Table<OpalineStyle> = Table::new();
    let mut i: usize = 0;
    proof {
        assert(raw@.skip(0) =~= raw@);
        assert(Seq::<(Seq<char>, OpalineStyle)>::empty() + Seq::empty()
            =~= Seq::<(Seq<char>, OpalineStyle)>::empty());
    }
    while i < n
        invariant
            i <= n,
            n == raw@.len(),
            raw.wf(),
            out.wf(),
            out@.len() == i,
            forall|j: int| 0 <= j < i ==> #[trigger] out@[j].0 == raw@[j].0,
            spec_resolve_styles(raw@, palette@, tokens@) == with_prefix(
                out@,
                spec_resolve_styles(raw@.skip(i as int), palette@, tokens@),
            ),
        decreases n - i,
    {
        let name = raw.key_at(i);
        let def = raw.val_at(i);
        proof {
            assert(raw@.skip(i as int).len() > 0);
            assert(raw@.skip(i as int)[0] == raw@[i as int]);
            assert(raw@.skip(i as int).drop_first() =~= raw@.skip(i + 1));
        }
        let fg: Option<OpalineColor> = match &def.fg {
            Some(fr) => {
                match resolve_color_ref(fr.as_str(), palette, tokens) {
                    Some(c) => Some(c),
                    None => {
                        return Err(
                            OpalineError::UnresolvedToken {
                                token: field_token(name, true),
                                reference: fr.clone(),
                            },
                        );
                    },
                }
            },
            None => None,
        };
        let bg: Option<OpalineColor> = match &def.bg {
            Some(br) => {
                match resolve_color_ref(br.as_str(), palette, tokens) {
                    Some(c) => Some(c),
                    None => {
                        return Err(
                            OpalineError::UnresolvedToken {
                                token: field_token(name, false),
                                reference: br.clone(),
                            },
                        );
                    },
                }
            },
            None => None,
        };
        let st = OpalineStyle {
            fg,
            bg,
            bold: def.bold,
            dim: def.dim,
            italic: def.italic,
            underline: def.underline,
            slow_blink: false,
            rapid_blink: false,
            reversed: false,
            hidden: false,
            crossed_out: false,
        };
        proof {
            if table_has(out@, name@) {
                let j = choose|j: int| 0 <= j < out@.len() && out@[j].0 == name@;
                assert(raw@[j].0 == raw@[i as int].0);
                assert(false);
            }
        }
        let ghost prev = out@;
        let ghost ks = (raw@[i as int].0, st);
        let ghost rest_r = spec_resolve_styles(raw@.skip(i + 1), palette@, tokens@);
        proof {
            assert(spec_resolve_style_def(raw@[i as int].0, raw@[i as int].1, palette@, tokens@)
                == Ok::<_, OpalineErrorView>(st));
            assert(spec_resolve_styles(raw@.skip(i as int), palette@, tokens@) == with_prefix(
                seq![ks],
                rest_r,
            ));
        }
        out.insert(name.as_str(), st);
        proof {
            assert(out@ == prev.push(ks));
            match rest_r {
                Ok(rest) => {
                    assert(prev + (seq![ks] + rest) =~= out@ + rest);
                },
                Err(_) => {},
            }
        }
        i += 1;
    }
    proof {
        assert(raw@.skip(n as int) =~= Seq::<(Seq<char>, StyleDefView)>::empty());
        assert(out@ + Seq::empty() =~= out@);
    }
    Ok(out)
}

// ── Stage 4: gradients ──────────────────────────────────────────────────

/// The decimal rendering of a non-negative integer.
pub open spec fn spec_dec_nat(n: int) -> Seq<char>
    decreases n,
    via spec_dec_nat_dec
{
    if n < 10 {
        seq![spec_hex_digit_char(n)]
    } else {
        spec_dec_nat(n / 10) + seq![spec_hex_digit_char(n % 10)]
    }
}

#[via_fn]
proof fn spec_dec_nat_dec(n: int) {
    if n >= 10 {
        vstd::arithmetic::div_mod::lemma_div_decreases(n, 10);
    }
}

fn dec_str(n: usize) -> (s: String)
    ensures
        s@ == spec_dec_nat(n as int),
    decreases n,
{
    if n < 10 {
        let s = hex_digit_str(n as u8).to_owned();
        proof {
            assert(s@ =~= spec_dec_nat(n as int));
        }
        s
    } else {
        let mut s = dec_str(n / 10);
        s.append(hex_digit_str((n % 10) as u8));
        proof {
            assert(s@ =~= spec_dec_nat(n as int));
        }
        s
    }
}

/// The token under which an unresolvable gradient stop is reported:
/// the gradient name with the stop position in brackets.
pub open spec fn spec_stop_token(gname: Seq<char>, i: int) -> Seq<char> {
    gname + seq!['['] + spec_dec_nat(i) + seq![']']
}

fn stop_token(name: &String, i: usize) -> (t: String)
    ensures
        t@ == spec_stop_token(name@, i as int),
{
    proof {
        reveal_strlit("[");
        reveal_strlit("]");
        assert("["@ =~= seq!['[']);
        assert("]"@ =~= seq![']']);
    }
    let mut t = name.clone();
    t.append("[");
    let d = dec_str(i);
    t.append(d.as_str());
    t.append("]");
    t
}

/// A stop-list result with the already-resolved prefix prepended.
pub open spec fn with_colors(prefix: Seq<OpalineColor>, r: Result<
    Seq<OpalineColor>,
    OpalineErrorView,
>) -> Result<Seq<OpalineColor>, OpalineErrorView> {
    match r {
        Ok(rest) => Ok(prefix + rest),
        Err(e) => Err(e),
    }
}

/// Stage 4, one gradient's stops from position `i` on: every stop must
/// resolve through the combined lookup.
pub open spec fn spec_resolve_stops(
    gname: Seq<char>,
    stops: Seq<Seq<char>>,
    i: int,
    pal: Seq<(Seq<char>, OpalineColor)>,
    toks: Seq<(Seq<char>, OpalineColor)>,
) -> Result<Seq<OpalineColor>, OpalineErrorView>
    decreases stops.len() - i,
{
    if i < 0 || i >= stops.len() {
        Ok(Seq::empty())
    } else {
        match spec_resolve_color_ref(stops[i], pal, toks) {
            Some(c) => with_colors(seq![c], spec_resolve_stops(gname, stops, i + 1, pal, toks)),
            None => Err(
                OpalineErrorView::UnresolvedToken {
                    token: spec_stop_token(gname, i),
                    reference: stops[i],
                },
            ),
        }
    }
}

/// Stage 4: resolve every gradient, in entry order. A gradient declared
/// with no stops at all is invalid.
pub open spec fn spec_resolve_gradients(
    raw: Seq<(Seq<char>, Seq<Seq<char>>)>,
    pal: Seq<(Seq<char>, OpalineColor)>,
    toks: Seq<(Seq<char>, OpalineColor)>,
) -> Result<Seq<(Seq<char>, Seq<OpalineColor>)>, OpalineErrorView>
    decreases raw.len(),
{
    if raw.len() == 0 {
        Ok(Seq::empty())
    } else if raw[0].1.len() == 0 {
        Err(OpalineErrorView::EmptyGradient)
    } else {
        match spec_resolve_stops(raw[0].0, raw[0].1, 0, pal, toks) {
            Ok(colors) => with_prefix(
                seq![(raw[0].0, colors)],
                spec_resolve_gradients(raw.drop_first(), pal, toks),
            ),
            Err(e) => Err(e),
        }
    }
}

/// Resolve the gradient section against the resolved palette and tokens.
#[verifier::loop_isolation(false)]
pub fn resolve_gradients(
    raw: &Table<StopList>,
    palette: &Table<OpalineColor>,
    tokens: &Table<OpalineColor>,
) -> (r: Result<Table<Gradient>, OpalineError>)
    requires
        raw.wf(),
    ensures
        match r {
            Ok(t) => spec_resolve_gradients(raw@, palette@, tokens@) == Ok::<
                _,
                OpalineErrorView,
            >(t@) && t.wf() && (forall|j: int|
                0 <= j < t@.len() ==> #[trigger] t@[j].1.len() >= 1),
            Err(e) => spec_resolve_gradients(raw@, palette@, tokens@) == Err::<
                Seq<(Seq<char>, Seq<OpalineColor>)>,
                _,
            >(e@),
        },
{
    let n = raw.len();
    let mut out: Table<Gradient> = Table::new();
    let mut i: usize = 0;
    proof {
        assert(raw@.skip(0) =~= raw@);
        assert(Seq::<(Seq<char>, Seq<OpalineColor>)>::empty() + Seq::empty()
            =~= Seq::<(Seq<char>, Seq<OpalineColor>)>::empty());
    }
    while i < n
        invariant
            i <= n,
            n == raw@.len(),
            raw.wf(),
            out.wf(),
            out@.len() == i,
            forall|j: int| 0 <= j < i ==> #[trigger] out@[j].0 == raw@[j].0,
            forall|j: int| 0 <= j < i ==> #[trigger] out@[j].1.len() >= 1,
            spec_resolve_gradients(raw@, palette@, tokens@) == with_prefix(
                out@,
                spec_resolve_gradients(raw@.skip(i as int), palette@, tokens@),
            ),
        decreases n - i,
    {
        let name = raw.key_at(i);
        let stops = raw.val_at(i);
        proof {
            assert(raw@.skip(i as int).len() > 0);
            assert(raw@.skip(i as int)[0] == raw@[i as int]);
            assert(raw@.skip(i as int).drop_first() =~= raw@.skip(i + 1));
        }
        let m = stops.stops.len();
        if m == 0 {
            return Err(OpalineError::EmptyGradient);
        }
        let mut colors: Vec<OpalineColor> = Vec::new();
        let mut j: usize = 0;
        proof {
            assert(Seq::<OpalineColor>::empty() + Seq::empty() =~= Seq::<OpalineColor>::empty());
        }
        while j < m
            invariant
                j <= m,
                m == stops@.len(),
                stops@ == raw@[i as int].1,
                0 <= i < raw@.len(),
                colors@.len() == j,
                spec_resolve_stops(raw@[i as int].0, stops@, 0, palette@, tokens@) == with_colors(
                    colors@,
                    spec_resolve_stops(raw@[i as int].0, stops@, j as int, palette@, tokens@),
                ),
            decreases m - j,
        {
            let stop = &stops.stops[j];
            proof {
                assert(stop@ == stops@[j as int]);
            }
            match resolve_color_ref(stop.as_str(), palette, tokens) {
                Some(c) => {
                    let ghost prev = colors@;
                    let ghost rest_r = spec_resolve_stops(
                        raw@[i as int].0,
                        stops@,
                        j + 1,
                        palette@,
                        tokens@,
                    );
                    proof {
                        assert(spec_resolve_stops(
                            raw@[i as int].0,
                            stops@,
                            j as int,
                            palette@,
                            tokens@,
                        ) == with_colors(seq![c], rest_r));
                    }
                    colors.push(c);
                    proof {
                        match rest_r {
                            Ok(rest) => {
                                assert(prev + (seq![c] + rest) =~= colors@ + rest);
                            },
                            Err(_) => {},
                        }
                    }
                },
                None => {
                    proof {
                        let ghost gname = raw@[i as int].0;
                        let ghost ev = OpalineErrorView::UnresolvedToken {
                            token: spec_stop_token(gname, j as int),
                            reference: stops@[j as int],
                        };
                        assert(spec_resolve_stops(gname, stops@, j as int, palette@, tokens@)
                            == Err::<Seq<OpalineColor>, _>(ev));
                        assert(spec_resolve_stops(gname, stops@, 0, palette@, tokens@) == Err::<
                            Seq<OpalineColor>,
                            _,
                        >(ev));
                        assert(spec_resolve_gradients(raw@.skip(i as int), palette@, tokens@)
                            == Err::<Seq<(Seq<char>, Seq<OpalineColor>)>, _>(ev));
                        assert(spec_resolve_gradients(raw@, palette@, tokens@) == Err::<
                            Seq<(Seq<char>, Seq<OpalineColor>)>,
                            _,
                        >(ev));
                    }
                    let err = OpalineError::UnresolvedToken {
                        token: stop_token(name, j),
                        reference: stop.clone(),
                    };
                    proof {
                        assert(err@ == OpalineErrorView::UnresolvedToken {
                            token: spec_stop_token(raw@[i as int].0, j as int),
                            reference: stops@[j as int],
                        });
                    }
                    return Err(err);
                },
            }
            j += 1;
        }
        proof {
            assert(colors@ + Seq::empty() =~= colors@);
        }
        let g = Gradient::new(colors);
        proof {
            if table_has(out@, name@) {
                let j2 = choose|j2: int| 0 <= j2 < out@.len() && out@[j2].0 == name@;
                assert(raw@[j2].0 == raw@[i as int].0);
                assert(false);
            }
        }
        let ghost prev = out@;
        let ghost kg = (raw@[i as int].0, g@);
        let ghost rest_r = spec_resolve_gradients(raw@.skip(i + 1), palette@, tokens@);
        proof {
            assert(spec_resolve_gradients(raw@.skip(i as int), palette@, tokens@) == with_prefix(
                seq![kg],
                rest_r,
            ));
        }
        out.insert(name.as_str(), g);
        proof {
            assert(out@ == prev.push(kg));
            match rest_r {
                Ok(rest) => {
                    assert(prev + (seq![kg] + rest) =~= out@ + rest);
                },
                Err(_) => {},
            }
        }
        i += 1;
    }
    proof {
        assert(raw@.skip(n as int) =~= Seq::<(Seq<char>, Seq<Seq<char>>)>::empty());
        assert(out@ + Seq::empty() =~= out@);
    }
    Ok(out)
}

// ── The whole pipeline ──────────────────────────────────────────────────

/// Resolved theme data produced by the resolution pipeline: every value
/// is fully concrete, and no unresolved reference remains anywhere.
#[derive(Debug, Clone)]
pub struct ResolvedTheme {
    pub palette: Table<OpalineColor>,
    pub tokens: Table<OpalineColor>,
    pub styles: Table<OpalineStyle>,
    pub gradients: Table<Gradient>,
}

/// Mathematical image of a [`ResolvedTheme`].
pub struct ResolvedThemeView {
    pub palette: Seq<(Seq<char>, OpalineColor)>,
    pub tokens: Seq<(Seq<char>, OpalineColor)>,
    pub styles: Seq<(Seq<char>, OpalineStyle)>,
    pub gradients: Seq<(Seq<char>, Seq<OpalineColor>)>,
}

impl View for ResolvedTheme {
    type V = ResolvedThemeView;

    open spec fn view(&self) -> ResolvedThemeView {
        ResolvedThemeView {
            palette: self.palette@,
            tokens: self.tokens@,
            styles: self.styles@,
            gradients: self.gradients@,
        }
    }
}

impl ResolvedTheme {
    /// Well-formedness: unique keys per section, and every gradient holds
    /// at least one stop.
    pub open spec fn wf(&self) -> bool {
        self.palette.wf() && self.tokens.wf() && self.styles.wf() && self.gradients.wf() && (
        forall|j: int| 0 <= j < self.gradients@.len() ==> #[trigger] self.gradients@[j].1.len()
            >= 1)
    }
}

/// The full pipeline on views: palette, then tokens, then styles, then
/// gradients, failing on the first error.
pub open spec fn spec_resolve(
    palette_raw: Seq<(Seq<char>, Seq<char>)>,
    tokens_raw: Seq<(Seq<char>, Seq<char>)>,
    styles_raw: Seq<(Seq<char>, StyleDefView)>,
    gradients_raw: Seq<(Seq<char>, Seq<Seq<char>>)>,
) -> Result<ResolvedThemeView, OpalineErrorView> {
    match spec_resolve_palette(palette_raw) {
        Err(e) => Err(e),
        Ok(pal) => match spec_resolve_tokens(tokens_raw, pal) {
            Err(e) => Err(e),
            Ok(toks) => match spec_resolve_styles(styles_raw, pal, toks) {
                Err(e) => Err(e),
                Ok(styles) => match spec_resolve_gradients(gradients_raw, pal, toks) {
                    Err(e) => Err(e),
                    Ok(grads) => Ok(
                        ResolvedThemeView {
                            palette: pal,
                            tokens: toks,
                            styles,
                            gradients: grads,
                        },
                    ),
                },
            },
        },
    }
}

/// Resolve a parsed theme specification into concrete colors, styles, and
/// gradients.
///
/// The resolution pipeline:
/// 1. **Palette**: each value must be a literal hex string.
/// 2. **Tokens**: graph resolution over palette names, other tokens, and
///    hex literals, with cycle detection.
/// 3. **Styles**: `fg`/`bg` resolved via hex, tokens, then palette.
/// 4. **Gradients**: each stop resolved the same way.
///
/// The result is a function of the specification alone: resolving the
/// same input twice yields identical themes.
pub fn resolve(theme_file: &ThemeFile) -> (r: Result<ResolvedTheme, OpalineError>)
    requires
        theme_file.wf(),
    ensures
        match r {
            Ok(rt) => spec_resolve(
                theme_file.palette@,
                theme_file.tokens@,
                theme_file.styles@,
                theme_file.gradients@,
            ) == Ok::<_, OpalineErrorView>(rt@) && rt.wf(),
            Err(e) => spec_resolve(
                theme_file.palette@,
                theme_file.tokens@,
                theme_file.styles@,
                theme_file.gradients@,
            ) == Err::<ResolvedThemeView, _>(e@),
        },
{
    let palette = match resolve_palette(&theme_file.palette) {
        Ok(p) => p,
        Err(e) => {
            return Err(e);
        },
    };
    let tokens = match resolve_tokens(&theme_file.tokens, &palette) {
        Ok(t) => t,
        Err(e) => {
            return Err(e);
        },
    };
    let styles = match resolve_styles(&theme_file.styles, &palette, &tokens) {
        Ok(s) => s,
        Err(e) => {
            return Err(e);
        },
    };
    let gradients = match resolve_gradients(&theme_file.gradients, &palette, &tokens) {
        Ok(g) => g,
        Err(e) => {
            return Err(e);
        },
    };
    Ok(ResolvedTheme { palette, tokens, styles, gradients })
}

/// Resolution is deterministic: the resolved theme is a function of the
/// specification's view alone, so two resolutions of equal specifications
/// agree entry for entry.
pub proof fn lemma_resolution_deterministic(
    a: (Seq<(Seq<char>, Seq<char>)>, Seq<(Seq<char>, Seq<char>)>, Seq<(Seq<char>, StyleDefView)>, Seq<(Seq<char>, Seq<Seq<char>>)>),
    b: (Seq<(Seq<char>, Seq<char>)>, Seq<(Seq<char>, Seq<char>)>, Seq<(Seq<char>, StyleDefView)>, Seq<(Seq<char>, Seq<Seq<char>>)>),
)
    requires
        a == b,
    ensures
        spec_resolve(a.0, a.1, a.2, a.3) == spec_resolve(b.0, b.1, b.2, b.3),
{
}

} // verus!
