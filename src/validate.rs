//! Forward validation: a rule table applied to an ancestry position by position.

use vstd::prelude::*;
use crate::codec::ValidationError;
use crate::record::LinkRecord;
use crate::rules::{evaluate, result_view, rule_result, window_view, Outcome, OutcomeView, Rule};
use crate::table::{build, table_of, PrefixIndexConfig, RuleTable};

verus! {

/// The result of the rules `set[j..]` on the record at position `i`; the first
/// rule that does not pass decides.
pub open spec fn set_result(
    set: Seq<Rule>,
    anc: Seq<LinkRecord>,
    i: int,
    root: Seq<u8>,
    window: Option<Seq<LinkRecord>>,
    j: int,
) -> Result<OutcomeView, ValidationError>
    decreases set.len() - j,
{
    if j < 0 || j >= set.len() {
        Ok(OutcomeView::Valid)
    } else {
        match rule_result(set[j], anc, i, root, window) {
            Ok(OutcomeView::Valid) => set_result(set, anc, i, root, window, j + 1),
            other => other,
        }
    }
}

/// The result of the positions `i..` of `table` applied in lockstep to `anc`;
/// positions that only one of them has are not evaluated.
pub open spec fn forward_result(
    table: Seq<Seq<Rule>>,
    anc: Seq<LinkRecord>,
    root: Seq<u8>,
    window: Option<Seq<LinkRecord>>,
    i: int,
) -> Result<OutcomeView, ValidationError>
    decreases table.len() - i,
{
    if i < 0 || i >= table.len() || i >= anc.len() {
        Ok(OutcomeView::Valid)
    } else {
        match set_result(table[i], anc, i, root, window, 0) {
            Ok(OutcomeView::Valid) => forward_result(table, anc, root, window, i + 1),
            other => other,
        }
    }
}

/// Applies `table` to `ancestry` (oldest record first, candidate last). `root`
/// is the root marker; `window` is the activity window of the author that ends
/// at the predecessor of the record checked by the leaf rule, `None` where it
/// could not be fetched.
pub fn validate_create_link_within_path(
    table: &RuleTable,
    ancestry: &Vec<LinkRecord>,
    root: &Vec<u8>,
    window: &Option<Vec<LinkRecord>>,
) -> (r: Result<Outcome, ValidationError>)
    ensures
        result_view(r) == forward_result(table@, ancestry@, root@, window_view(window), 0),
{
    let ghost t = table@;
    let ghost a = ancestry@;
    let ghost w = window_view(window);
    let mut i: usize = 0;
    while i < table.sets.len() && i < ancestry.len()
        invariant
            t == table@,
            a == ancestry@,
            w == window_view(window),
            i <= t.len(),
            forward_result(t, a, root@, w, 0) == forward_result(t, a, root@, w, i as int),
        decreases t.len() - i,
    {
        let set = &table.sets[i];
        assert(set@ == t[i as int]);
        let mut j: usize = 0;
        while j < set.len()
            invariant
                t == table@,
                a == ancestry@,
                w == window_view(window),
                i < t.len(),
                i < a.len(),
                set@ == t[i as int],
                forward_result(t, a, root@, w, 0) == forward_result(t, a, root@, w, i as int),
                j <= set@.len(),
                set_result(set@, a, i as int, root@, w, 0) == set_result(set@, a, i as int, root@, w, j as int),
            decreases set@.len() - j,
        {
            let res = evaluate(&set[j], ancestry, i, root, window);
            match res {
                Ok(Outcome::Valid) => {},
                _ => {
                    assert(set_result(set@, a, i as int, root@, w, j as int) == result_view(res));
                    assert(forward_result(t, a, root@, w, i as int) == result_view(res));
                    return res;
                },
            }
            j = j + 1;
        }
        i = i + 1;
    }
    Ok(Outcome::Valid)
}

/// The position of the ancestry that the leaf rule set of `config` checks, where
/// the ancestry reaches it; the activity window is fetched for that record.
pub fn leaf_position(config: &PrefixIndexConfig, ancestry: &Vec<LinkRecord>) -> (r: Option<usize>)
    ensures
        r == (if config.depth + 1 < ancestry@.len() {
            Some((config.depth + 1) as usize)
        } else {
            None::<usize>
        }),
{
    if config.depth < ancestry.len() as u64 && config.depth + 1 < ancestry.len() as u64 {
        Some((config.depth + 1) as usize)
    } else {
        None
    }
}

/// Builds the rule table of `config` and applies it to `ancestry`.
pub fn validate_candidate(
    config: &PrefixIndexConfig,
    ancestry: &Vec<LinkRecord>,
    root: &Vec<u8>,
    window: &Option<Vec<LinkRecord>>,
) -> (r: Result<Outcome, ValidationError>)
    requires
        config.depth + 3 <= usize::MAX,
    ensures
        result_view(r) == forward_result(table_of(*config), ancestry@, root@, window_view(window), 0),
{
    let table = build(config);
    validate_create_link_within_path(&table, ancestry, root, window)
}

} // verus!
