//! Properties of validation under the rule table of a configuration.

use vstd::prelude::*;
use crate::address::component_hash;
use crate::codec::{decoded_tag, ValidationError};
use crate::record::LinkRecord;
use crate::rules::{check, joined_tags, rule_result, window_tail, OutcomeView, ReasonView, Rule};
use crate::table::{interior_rules, leaf_rules, overflow_rules, root_rules, table_of, PrefixIndexConfig};
use crate::validate::{forward_result, set_result};

verus! {

proof fn lemma_table_positions(c: PrefixIndexConfig)
    ensures
        table_of(c).len() == c.depth + 3,
        table_of(c)[0] == root_rules(c.literal),
        forall|i: int| 1 <= i <= c.depth ==> #[trigger] table_of(c)[i] == interior_rules(c.component_length),
        table_of(c)[c.depth + 1] == leaf_rules(c.depth),
        table_of(c)[c.depth + 2] == overflow_rules(),
{
    let mid = Seq::new(c.depth as nat, |_i: int| interior_rules(c.component_length));
    let t = seq![root_rules(c.literal)] + mid + seq![leaf_rules(c.depth), overflow_rules()];
    assert(t == table_of(c));
    assert forall|i: int| 1 <= i <= c.depth implies #[trigger] t[i] == interior_rules(c.component_length) by {
        assert(t[i] == mid[i - 1]);
    }
}

/// A position whose rule set does not pass keeps the whole validation from being `Valid`.
proof fn lemma_failed_position(
    table: Seq<Seq<Rule>>,
    anc: Seq<LinkRecord>,
    root: Seq<u8>,
    window: Option<Seq<LinkRecord>>,
    i: int,
    k: int,
)
    requires
        0 <= k <= i,
        i < table.len(),
        i < anc.len(),
        set_result(table[i], anc, i, root, window, 0) != Ok::<OutcomeView, ValidationError>(OutcomeView::Valid),
    ensures
        forward_result(table, anc, root, window, k) != Ok::<OutcomeView, ValidationError>(OutcomeView::Valid),
    decreases i - k,
{
    if k < i {
        lemma_failed_position(table, anc, root, window, i, k + 1);
    }
}

/// Every rule of the table can be evaluated on `rec`: its tag decodes, the
/// component address of its string exists, and the activity window was fetched
/// with tags that decode.
pub open spec fn evaluable(rec: LinkRecord, window: Option<Seq<LinkRecord>>, depth: u64) -> bool {
    &&& decoded_tag(rec.tag@) is Some
    &&& component_hash(decoded_tag(rec.tag@)->0) is Some
    &&& window is Some
    &&& joined_tags(window_tail(window->0, depth as nat)) is Some
}

proof fn lemma_set_evaluates(
    set: Seq<Rule>,
    anc: Seq<LinkRecord>,
    k: int,
    root: Seq<u8>,
    window: Option<Seq<LinkRecord>>,
    depth: u64,
    j: int,
)
    requires
        0 <= k < anc.len(),
        0 <= j,
        evaluable(anc[k], window, depth),
        forall|x: int| 0 <= x < set.len() ==> !(#[trigger] set[x] is TagContainsAncestors) || set[x]
            == Rule::TagContainsAncestors(depth),
    ensures
        set_result(set, anc, k, root, window, j) is Ok,
    decreases set.len() - j,
{
    if j < set.len() {
        assert(rule_result(set[j], anc, k, root, window) is Ok);
        lemma_set_evaluates(set, anc, k, root, window, depth, j + 1);
    }
}

proof fn lemma_table_ancestor_counts(c: PrefixIndexConfig, k: int)
    requires
        0 <= k < c.depth + 3,
    ensures
        forall|x: int|
            0 <= x < table_of(c)[k].len() ==> !(#[trigger] table_of(c)[k][x] is TagContainsAncestors)
                || table_of(c)[k][x] == Rule::TagContainsAncestors(c.depth),
{
    lemma_table_positions(c);
    if 1 <= k <= c.depth {
        assert(table_of(c)[k] == interior_rules(c.component_length));
    }
}

proof fn lemma_forward_evaluates(
    c: PrefixIndexConfig,
    anc: Seq<LinkRecord>,
    root: Seq<u8>,
    window: Option<Seq<LinkRecord>>,
    i: int,
    k: int,
)
    requires
        0 <= k <= i,
        i < anc.len(),
        i < c.depth + 3,
        forall|m: int| 0 <= m <= i ==> evaluable(#[trigger] anc[m], window, c.depth),
        set_result(table_of(c)[i], anc, i, root, window, 0) != Ok::<OutcomeView, ValidationError>(
            OutcomeView::Valid,
        ),
    ensures
        forward_result(table_of(c), anc, root, window, k) is Ok,
    decreases i - k,
{
    lemma_table_positions(c);
    lemma_table_ancestor_counts(c, k);
    assert(evaluable(anc[k], window, c.depth));
    lemma_set_evaluates(table_of(c)[k], anc, k, root, window, c.depth, 0);
    if k < i {
        lemma_forward_evaluates(c, anc, root, window, i, k + 1);
    }
}

/// Position 0 rejects a record whose base address is not the root marker,
/// whatever its tag holds.
pub proof fn root_position_requires_root_base(
    c: PrefixIndexConfig,
    anc: Seq<LinkRecord>,
    root: Seq<u8>,
    window: Option<Seq<LinkRecord>>,
)
    requires
        anc.len() > 0,
        anc[0].base_address@ != root,
    ensures
        forward_result(table_of(c), anc, root, window, 0) == Ok::<OutcomeView, ValidationError>(
            OutcomeView::Invalid(ReasonView::BaseNotRoot),
        ),
{
    lemma_table_positions(c);
}

/// A record at position 0 based on the root marker, whose tag holds the
/// configured literal and whose target is that literal's component address,
/// passes its position; as the only record of the ancestry it is valid.
pub proof fn root_record_with_literal_passes(
    c: PrefixIndexConfig,
    anc: Seq<LinkRecord>,
    root: Seq<u8>,
    window: Option<Seq<LinkRecord>>,
)
    requires
        anc.len() > 0,
        anc[0].base_address@ == root,
        decoded_tag(anc[0].tag@) == Some(c.literal@),
        component_hash(c.literal@) == Some(anc[0].target_address@),
    ensures
        set_result(table_of(c)[0], anc, 0, root, window, 0) == Ok::<OutcomeView, ValidationError>(OutcomeView::Valid),
        anc.len() == 1 ==> forward_result(table_of(c), anc, root, window, 0) == Ok::<
            OutcomeView,
            ValidationError,
        >(OutcomeView::Valid),
{
    lemma_table_positions(c);
    let set = table_of(c)[0];
    assert(set_result(set, anc, 0, root, window, 3) == Ok::<OutcomeView, ValidationError>(OutcomeView::Valid));
    assert(set_result(set, anc, 0, root, window, 2) == set_result(set, anc, 0, root, window, 3));
    assert(set_result(set, anc, 0, root, window, 1) == set_result(set, anc, 0, root, window, 2));
    assert(set_result(set, anc, 0, root, window, 0) == set_result(set, anc, 0, root, window, 1));
    if anc.len() == 1 {
        assert(forward_result(table_of(c), anc, root, window, 1) == Ok::<OutcomeView, ValidationError>(OutcomeView::Valid));
    }
}

/// An interior record with the right base and target passes its position
/// exactly when its tag's string has the configured number of characters.
pub proof fn interior_position_checks_length(
    c: PrefixIndexConfig,
    anc: Seq<LinkRecord>,
    root: Seq<u8>,
    window: Option<Seq<LinkRecord>>,
    i: int,
    s: Seq<char>,
)
    requires
        1 <= i <= c.depth,
        i < anc.len(),
        anc[i].base_address@ == anc[i - 1].target_address@,
        decoded_tag(anc[i].tag@) == Some(s),
        component_hash(s) == Some(anc[i].target_address@),
    ensures
        set_result(table_of(c)[i], anc, i, root, window, 0) == Ok::<OutcomeView, ValidationError>(
            check(s.len() == c.component_length, ReasonView::TagLengthMismatch),
        ),
{
    lemma_table_positions(c);
    let set = table_of(c)[i];
    assert(set == interior_rules(c.component_length));
    assert(set_result(set, anc, i, root, window, 3) == Ok::<OutcomeView, ValidationError>(OutcomeView::Valid));
    assert(set_result(set, anc, i, root, window, 2) == Ok::<OutcomeView, ValidationError>(
        check(s.len() == c.component_length, ReasonView::TagLengthMismatch),
    ));
    assert(set_result(set, anc, i, root, window, 1) == set_result(set, anc, i, root, window, 2));
    assert(set_result(set, anc, i, root, window, 0) == set_result(set, anc, i, root, window, 1));
}

/// A record whose target is not the component address of its tag's string is
/// rejected at every position of the table, and the validation is not `Valid`;
/// where every record up to it can be evaluated, the validation is `Invalid`.
pub proof fn wrong_target_is_rejected(
    c: PrefixIndexConfig,
    anc: Seq<LinkRecord>,
    root: Seq<u8>,
    window: Option<Seq<LinkRecord>>,
    i: int,
    s: Seq<char>,
    h: Seq<u8>,
)
    requires
        0 <= i < c.depth + 3,
        i < anc.len(),
        decoded_tag(anc[i].tag@) == Some(s),
        component_hash(s) == Some(h),
        anc[i].target_address@ != h,
    ensures
        set_result(table_of(c)[i], anc, i, root, window, 0) is Ok,
        set_result(table_of(c)[i], anc, i, root, window, 0) != Ok::<OutcomeView, ValidationError>(
            OutcomeView::Valid,
        ),
        forward_result(table_of(c), anc, root, window, 0) != Ok::<OutcomeView, ValidationError>(
            OutcomeView::Valid,
        ),
        (forall|m: int| 0 <= m <= i ==> evaluable(#[trigger] anc[m], window, c.depth)) ==> forward_result(
            table_of(c),
            anc,
            root,
            window,
            0,
        ) is Ok,
{
    lemma_table_positions(c);
    let set = table_of(c)[i];
    if i == c.depth + 2 {
        assert(set_result(set, anc, i, root, window, 0) == Ok::<OutcomeView, ValidationError>(
            OutcomeView::Invalid(ReasonView::TooManyComponents),
        ));
    } else {
        assert(set[1] == Rule::TargetIsComponent);
        assert(set_result(set, anc, i, root, window, 1) == Ok::<OutcomeView, ValidationError>(
            OutcomeView::Invalid(ReasonView::TargetNotComponent),
        ));
        assert(set_result(set, anc, i, root, window, 0) is Ok);
    }
    lemma_failed_position(table_of(c), anc, root, window, i, 0);
    if forall|m: int| 0 <= m <= i ==> evaluable(#[trigger] anc[m], window, c.depth) {
        lemma_forward_evaluates(c, anc, root, window, i, 0);
    }
}

/// The position past the leaf rejects its record unconditionally, so an
/// ancestry that reaches it is never `Valid`.
pub proof fn overflow_position_rejects(
    c: PrefixIndexConfig,
    anc: Seq<LinkRecord>,
    root: Seq<u8>,
    window: Option<Seq<LinkRecord>>,
)
    requires
        anc.len() >= c.depth + 3,
    ensures
        set_result(table_of(c)[c.depth + 2], anc, c.depth + 2, root, window, 0) == Ok::<
            OutcomeView,
            ValidationError,
        >(OutcomeView::Invalid(ReasonView::TooManyComponents)),
        forward_result(table_of(c), anc, root, window, 0) != Ok::<OutcomeView, ValidationError>(
            OutcomeView::Valid,
        ),
{
    lemma_table_positions(c);
    lemma_failed_position(table_of(c), anc, root, window, c.depth + 2, 0);
}

proof fn lemma_prefix_of_table(
    table: Seq<Seq<Rule>>,
    anc: Seq<LinkRecord>,
    root: Seq<u8>,
    window: Option<Seq<LinkRecord>>,
    i: int,
)
    requires
        0 <= i <= anc.len(),
        anc.len() < table.len(),
    ensures
        forward_result(table, anc, root, window, i) == forward_result(
            table.take(anc.len() as int),
            anc,
            root,
            window,
            i,
        ),
    decreases anc.len() - i,
{
    if i < anc.len() {
        assert(table.take(anc.len() as int)[i] == table[i]);
        lemma_prefix_of_table(table, anc, root, window, i + 1);
    }
}

/// Rule sets past the end of the ancestry are never evaluated: validating
/// against the whole table gives what validating against its first
/// `anc.len()` rule sets gives.
pub proof fn unmatched_positions_are_not_evaluated(
    table: Seq<Seq<Rule>>,
    anc: Seq<LinkRecord>,
    root: Seq<u8>,
    window: Option<Seq<LinkRecord>>,
)
    requires
        anc.len() < table.len(),
    ensures
        forward_result(table, anc, root, window, 0) == forward_result(
            table.take(anc.len() as int),
            anc,
            root,
            window,
            0,
        ),
{
    lemma_prefix_of_table(table, anc, root, window, 0);
}

proof fn lemma_all_pass(
    table: Seq<Seq<Rule>>,
    anc: Seq<LinkRecord>,
    root: Seq<u8>,
    window: Option<Seq<LinkRecord>>,
    i: int,
)
    requires
        0 <= i,
        forall|k: int|
            0 <= k < anc.len() && k < table.len() ==> #[trigger] set_result(table[k], anc, k, root, window, 0)
                == Ok::<OutcomeView, ValidationError>(OutcomeView::Valid),
    ensures
        forward_result(table, anc, root, window, i) == Ok::<OutcomeView, ValidationError>(OutcomeView::Valid),
    decreases table.len() - i,
{
    if i < table.len() && i < anc.len() {
        lemma_all_pass(table, anc, root, window, i + 1);
    }
}

/// An ancestry whose every record passes the rule set of its position is
/// `Valid`, however many rule sets the table has past its end.
pub proof fn passing_positions_give_valid(
    table: Seq<Seq<Rule>>,
    anc: Seq<LinkRecord>,
    root: Seq<u8>,
    window: Option<Seq<LinkRecord>>,
)
    requires
        forall|k: int|
            0 <= k < anc.len() && k < table.len() ==> #[trigger] set_result(table[k], anc, k, root, window, 0)
                == Ok::<OutcomeView, ValidationError>(OutcomeView::Valid),
    ensures
        forward_result(table, anc, root, window, 0) == Ok::<OutcomeView, ValidationError>(OutcomeView::Valid),
{
    lemma_all_pass(table, anc, root, window, 0);
}

} // verus!
