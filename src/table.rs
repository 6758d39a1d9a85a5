//! The configuration of a prefix index and the positional rule table it implies.

use vstd::prelude::*;
use holochain_serialized_bytes::SerializedBytesError;
use crate::codec::ValidationError;
use crate::rules::Rule;

verus! {

/// What a prefix index expects of its records.
#[derive(Debug, Clone, PartialEq, Eq)]
pub struct PrefixIndexConfig {
    /// The number of interior components between the root record and the leaf.
    pub depth: u64,
    /// The string the tag of the root record must hold.
    pub literal: String,
    /// The number of characters of every interior component.
    pub component_length: u64,
}

/// One rule set per position: root, `depth` interior positions, leaf, overflow.
#[derive(Debug, Clone, PartialEq, Eq)]
pub struct RuleTable {
    pub sets: Vec<Vec<Rule>>,
}

impl View for RuleTable {
    type V = Seq<Seq<Rule>>;

    open spec fn view(&self) -> Seq<Seq<Rule>> {
        self.sets@.map_values(|s: Vec<Rule>| s@)
    }
}

/// The rule set of position 0.
pub open spec fn root_rules(literal: String) -> Seq<Rule> {
    seq![Rule::BaseIsRoot, Rule::TargetIsComponent, Rule::TagEqualsLiteral(literal)]
}

/// The rule set shared by every interior position.
pub open spec fn interior_rules(length: u64) -> Seq<Rule> {
    seq![Rule::BaseIsPrevTarget, Rule::TargetIsComponent, Rule::TagHasLength(length)]
}

/// The rule set of the leaf position.
pub open spec fn leaf_rules(depth: u64) -> Seq<Rule> {
    seq![Rule::BaseIsPrevTarget, Rule::TargetIsComponent, Rule::TagContainsAncestors(depth)]
}

/// The rule set of the position past the leaf.
pub open spec fn overflow_rules() -> Seq<Rule> {
    seq![Rule::RejectAlways]
}

/// The rule table of a configuration.
pub open spec fn table_of(c: PrefixIndexConfig) -> Seq<Seq<Rule>> {
    seq![root_rules(c.literal)] + Seq::new(c.depth as nat, |_i: int| interior_rules(c.component_length))
        + seq![leaf_rules(c.depth), overflow_rules()]
}

fn rule_set(a: Rule, b: Rule, c: Rule) -> (r: Vec<Rule>)
    ensures
        r@ == seq![a, b, c],
{
    let mut v: Vec<Rule> = Vec::new();
    v.push(a);
    v.push(b);
    v.push(c);
    assert(v@ =~= seq![a, b, c]);
    v
}

/// Builds the rule table of a configuration: `depth + 3` rule sets.
pub fn build(config: &PrefixIndexConfig) -> (r: RuleTable)
    requires
        config.depth + 3 <= usize::MAX,
    ensures
        r@ == table_of(*config),
        r@.len() == config.depth + 3,
{
    let mut sets: Vec<Vec<Rule>> = Vec::new();
    sets.push(rule_set(Rule::BaseIsRoot, Rule::TargetIsComponent, Rule::TagEqualsLiteral(config.literal.clone())));
    let ghost f = |s: Vec<Rule>| s@;
    assert(sets@.map_values(f) =~= seq![root_rules(config.literal)]);
    let mut i: u64 = 0;
    while i < config.depth
        invariant
            i <= config.depth,
            f == (|s: Vec<Rule>| s@),
            sets@.map_values(f) == seq![root_rules(config.literal)] + Seq::new(
                i as nat,
                |_i: int| interior_rules(config.component_length),
            ),
        decreases config.depth - i,
    {
        let set = rule_set(Rule::BaseIsPrevTarget, Rule::TargetIsComponent, Rule::TagHasLength(config.component_length));
        let ghost before = sets@;
        sets.push(set);
        i = i + 1;
        assert(sets@.map_values(f) =~= before.map_values(f).push(set@));
        assert(sets@.map_values(f) =~= seq![root_rules(config.literal)] + Seq::new(
            i as nat,
            |_i: int| interior_rules(config.component_length),
        ));
    }
    let ghost before = sets@;
    let leaf = rule_set(Rule::BaseIsPrevTarget, Rule::TargetIsComponent, Rule::TagContainsAncestors(config.depth));
    sets.push(leaf);
    let mut last: Vec<Rule> = Vec::new();
    last.push(Rule::RejectAlways);
    sets.push(last);
    assert(sets@.map_values(f) =~= before.map_values(f).push(leaf@).push(last@));
    assert(last@ =~= overflow_rules());
    let r = RuleTable { sets };
    assert(r@ =~= table_of(*config));
    r
}

/// The string a configuration payload holds, `None` where it is not a serialized string.
pub uninterp spec fn config_text(b: Seq<u8>) -> Option<Seq<char>>;

/// The count a configuration payload holds, `None` where it is not a serialized integer that fits `u64`.
pub uninterp spec fn config_count(b: Seq<u8>) -> Option<u64>;

/// Relies on `holochain_serialized_bytes::decode::<_, String>`: the result depends on the bytes alone.
#[verifier::external_body]
fn decode_text(b: &Vec<u8>) -> (r: Result<String, SerializedBytesError>)
    ensures
        match r {
            Ok(s) => config_text(b@) == Some(s@),
            Err(_) => config_text(b@) is None,
        },
{
    holochain_serialized_bytes::decode(b)
}

/// Relies on `holochain_serialized_bytes::decode::<_, u64>`: the result depends on the bytes alone.
#[verifier::external_body]
fn decode_count(b: &Vec<u8>) -> (r: Result<u64, SerializedBytesError>)
    ensures
        match r {
            Ok(n) => config_count(b@) == Some(n),
            Err(_) => config_count(b@) is None,
        },
{
    holochain_serialized_bytes::decode(b)
}

impl PrefixIndexConfig {
    /// A configuration from serialized payloads for the root literal and the
    /// interior component length; fails when either payload does not decode.
    pub fn from_payloads(depth: u64, literal: &Vec<u8>, length: &Vec<u8>) -> (r: Result<
        PrefixIndexConfig,
        ValidationError,
    >)
        ensures
            r is Ok <==> (config_text(literal@) is Some && config_count(length@) is Some),
            r is Ok ==> r->Ok_0.depth == depth && r->Ok_0.literal@ == config_text(literal@)->0
                && r->Ok_0.component_length == config_count(length@)->0,
            r is Err ==> r->Err_0 == ValidationError::ConfigDecode,
    {
        let lit = match decode_text(literal) {
            Ok(s) => s,
            Err(_) => {
                return Err(ValidationError::ConfigDecode);
            },
        };
        let n = match decode_count(length) {
            Ok(n) => n,
            Err(_) => {
                return Err(ValidationError::ConfigDecode);
            },
        };
        Ok(PrefixIndexConfig { depth, literal: lit, component_length: n })
    }
}

} // verus!
