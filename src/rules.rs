//! The positional rules and their evaluation against one record of an ancestry.

use vstd::prelude::*;
use vstd::string::StringExecFns;
use crate::address::{component_hash, component_target};
use crate::codec::{decode, decoded_tag, ValidationError};
use crate::record::{same_bytes, LinkRecord};
use crate::text::{contains_chars, is_substring, push_chars};

verus! {

/// Why a record was rejected.
#[derive(Debug, Clone, PartialEq, Eq)]
pub enum Reason {
    BaseNotRoot,
    TargetNotComponent,
    TagNotLiteral,
    BaseNotPrevTarget,
    TagLengthMismatch,
    /// The joined tags of the given number of preceding records do not occur in
    /// the given tag string.
    AncestorsNotInTag(u64, String),
    TooManyComponents,
}

/// The result of a rule, a rule set or a whole validation.
#[derive(Debug, Clone, PartialEq, Eq)]
pub enum Outcome {
    Valid,
    Invalid(Reason),
}

/// A reason with its strings as character sequences.
pub enum ReasonView {
    BaseNotRoot,
    TargetNotComponent,
    TagNotLiteral,
    BaseNotPrevTarget,
    TagLengthMismatch,
    AncestorsNotInTag(u64, Seq<char>),
    TooManyComponents,
}

/// An outcome with its reason as a `ReasonView`.
pub enum OutcomeView {
    Valid,
    Invalid(ReasonView),
}

impl View for Reason {
    type V = ReasonView;

    open spec fn view(&self) -> ReasonView {
        match self {
            Reason::BaseNotRoot => ReasonView::BaseNotRoot,
            Reason::TargetNotComponent => ReasonView::TargetNotComponent,
            Reason::TagNotLiteral => ReasonView::TagNotLiteral,
            Reason::BaseNotPrevTarget => ReasonView::BaseNotPrevTarget,
            Reason::TagLengthMismatch => ReasonView::TagLengthMismatch,
            Reason::AncestorsNotInTag(n, t) => ReasonView::AncestorsNotInTag(*n, t@),
            Reason::TooManyComponents => ReasonView::TooManyComponents,
        }
    }
}

impl View for Outcome {
    type V = OutcomeView;

    open spec fn view(&self) -> OutcomeView {
        match self {
            Outcome::Valid => OutcomeView::Valid,
            Outcome::Invalid(r) => OutcomeView::Invalid(r@),
        }
    }
}

/// A result with its outcome seen through `OutcomeView`.
pub open spec fn result_view(r: Result<Outcome, ValidationError>) -> Result<OutcomeView, ValidationError> {
    match r {
        Ok(o) => Ok(o@),
        Err(e) => Err(e),
    }
}

/// One structural check, with the value it expects.
#[derive(Debug, Clone, PartialEq, Eq)]
pub enum Rule {
    /// The base address is the root marker.
    BaseIsRoot,
    /// The target address is the address of the tag's string as a path component.
    TargetIsComponent,
    /// The tag's string equals the given literal.
    TagEqualsLiteral(String),
    /// The base address is the target address of the previous record of the ancestry.
    BaseIsPrevTarget,
    /// The tag's string has the given number of characters.
    TagHasLength(u64),
    /// The tags of the given number of preceding records of the author, joined in
    /// chain order, occur in the tag's string.
    TagContainsAncestors(u64),
    /// Fails for every record.
    RejectAlways,
}

/// The text of a decimal digit.
pub open spec fn digit_text(d: nat) -> Seq<char> {
    if d == 0 { "0"@ } else if d == 1 { "1"@ } else if d == 2 { "2"@ } else if d == 3 { "3"@ }
    else if d == 4 { "4"@ } else if d == 5 { "5"@ } else if d == 6 { "6"@ } else if d == 7 { "7"@ }
    else if d == 8 { "8"@ } else { "9"@ }
}

/// The decimal text of a number.
pub open spec fn decimal(n: nat) -> Seq<char>
    decreases n,
{
    if n < 10 {
        digit_text(n)
    } else {
        decimal(n / 10) + digit_text(n % 10)
    }
}

/// The human-readable text of a reason.
pub open spec fn reason_text(r: ReasonView) -> Seq<char> {
    match r {
        ReasonView::BaseNotRoot => "base address must be root"@,
        ReasonView::TargetNotComponent => "target must equal tag-as-component"@,
        ReasonView::TagNotLiteral => "tag must equal expected string"@,
        ReasonView::BaseNotPrevTarget => "base must be previous record's target"@,
        ReasonView::TagLengthMismatch => "tag must have expected character count"@,
        ReasonView::AncestorsNotInTag(n, t) => "previous "@ + decimal(n as nat)
            + " records' tags must form a substring of current tag '"@ + t + "'"@,
        ReasonView::TooManyComponents => "path has too many components"@,
    }
}

/// Appends the decimal text of `n` to `out`.
fn append_decimal(out: &mut String, n: u64)
    ensures
        final(out)@ == old(out)@ + decimal(n as nat),
    decreases n,
{
    if n >= 10 {
        append_decimal(out, n / 10);
    }
    let d = n % 10;
    let t = if d == 0 { "0" } else if d == 1 { "1" } else if d == 2 { "2" } else if d == 3 { "3" }
        else if d == 4 { "4" } else if d == 5 { "5" } else if d == 6 { "6" } else if d == 7 { "7" }
        else if d == 8 { "8" } else { "9" };
    out.append(t);
    assert(final(out)@ =~= old(out)@ + decimal(n as nat));
}

impl Reason {
    /// The human-readable text of this reason.
    pub fn message(&self) -> (r: String)
        ensures
            r@ == reason_text(self@),
    {
        match self {
            Reason::BaseNotRoot => "base address must be root".to_owned(),
            Reason::TargetNotComponent => "target must equal tag-as-component".to_owned(),
            Reason::TagNotLiteral => "tag must equal expected string".to_owned(),
            Reason::BaseNotPrevTarget => "base must be previous record's target".to_owned(),
            Reason::TagLengthMismatch => "tag must have expected character count".to_owned(),
            Reason::AncestorsNotInTag(n, t) => {
                let mut out = "previous ".to_owned();
                append_decimal(&mut out, *n);
                out.append(" records' tags must form a substring of current tag '");
                out.append(t.as_str());
                out.append("'");
                out
            },
            Reason::TooManyComponents => "path has too many components".to_owned(),
        }
    }
}

/// `Valid` when `ok` holds, else `Invalid(reason)`.
pub open spec fn check(ok: bool, reason: ReasonView) -> OutcomeView {
    if ok {
        OutcomeView::Valid
    } else {
        OutcomeView::Invalid(reason)
    }
}

/// The last `n` records of an activity window, or all of it where it is shorter.
pub open spec fn window_tail(w: Seq<LinkRecord>, n: nat) -> Seq<LinkRecord> {
    if w.len() <= n {
        w
    } else {
        w.subrange(w.len() - n, w.len() as int)
    }
}

/// The decoded tags of `recs` joined in order, or `None` where one does not decode.
pub open spec fn joined_tags(recs: Seq<LinkRecord>) -> Option<Seq<char>>
    decreases recs.len(),
{
    if recs.len() == 0 {
        Some(Seq::<char>::empty())
    } else {
        match (joined_tags(recs.drop_last()), decoded_tag(recs.last().tag@)) {
            (Some(a), Some(b)) => Some(a + b),
            _ => None,
        }
    }
}

/// The activity window as a sequence, `None` where it could not be fetched.
pub open spec fn window_view(w: &Option<Vec<LinkRecord>>) -> Option<Seq<LinkRecord>> {
    match w {
        Some(v) => Some(v@),
        None => None,
    }
}

/// What `rule` decides for the record at position `i` of `anc`, given the root
/// marker and the author's activity window that ends at the record's predecessor.
pub open spec fn rule_result(
    rule: Rule,
    anc: Seq<LinkRecord>,
    i: int,
    root: Seq<u8>,
    window: Option<Seq<LinkRecord>>,
) -> Result<OutcomeView, ValidationError> {
    let rec = anc[i];
    match rule {
        Rule::BaseIsRoot => Ok(check(rec.base_address@ == root, ReasonView::BaseNotRoot)),
        Rule::TargetIsComponent => match decoded_tag(rec.tag@) {
            None => Err(ValidationError::Decode),
            Some(s) => match component_hash(s) {
                None => Err(ValidationError::Hash),
                Some(h) => Ok(check(rec.target_address@ == h, ReasonView::TargetNotComponent)),
            },
        },
        Rule::TagEqualsLiteral(lit) => match decoded_tag(rec.tag@) {
            None => Err(ValidationError::Decode),
            Some(s) => Ok(check(s == lit@, ReasonView::TagNotLiteral)),
        },
        Rule::BaseIsPrevTarget => Ok(
            check(i > 0 && rec.base_address@ == anc[i - 1].target_address@, ReasonView::BaseNotPrevTarget),
        ),
        Rule::TagHasLength(n) => match decoded_tag(rec.tag@) {
            None => Err(ValidationError::Decode),
            Some(s) => Ok(check(s.len() == n, ReasonView::TagLengthMismatch)),
        },
        Rule::TagContainsAncestors(n) => match window {
            None => Err(ValidationError::Lookup),
            Some(w) => match joined_tags(window_tail(w, n as nat)) {
                None => Err(ValidationError::Decode),
                Some(joined) => match decoded_tag(rec.tag@) {
                    None => Err(ValidationError::Decode),
                    Some(s) => Ok(check(is_substring(joined, s), ReasonView::AncestorsNotInTag(n, s))),
                },
            },
        },
        Rule::RejectAlways => Ok(OutcomeView::Invalid(ReasonView::TooManyComponents)),
    }
}

/// Once a prefix of `s` has a tag that does not decode, so has `s`.
proof fn lemma_joined_prefix_none(s: Seq<LinkRecord>, k: int)
    requires
        0 <= k <= s.len(),
        joined_tags(s.take(k)) is None,
    ensures
        joined_tags(s) is None,
    decreases s.len() - k,
{
    if k < s.len() {
        assert(s.take(k + 1).drop_last() =~= s.take(k));
        lemma_joined_prefix_none(s, k + 1);
    } else {
        assert(s.take(k) =~= s);
    }
}

/// Decodes a tag into its characters.
fn decode_chars(tag: &Vec<u8>) -> (r: Result<Vec<char>, ValidationError>)
    ensures
        match r {
            Ok(c) => decoded_tag(tag@) == Some(c@),
            Err(e) => decoded_tag(tag@) is None && e == ValidationError::Decode,
        },
{
    let s = decode(tag)?;
    let mut out: Vec<char> = Vec::new();
    push_chars(&mut out, &s);
    assert(out@ =~= s@);
    Ok(out)
}

/// Joins the decoded tags of the last `n` records of the window.
fn join_window_tags(w: &Vec<LinkRecord>, n: u64) -> (r: Result<Vec<char>, ValidationError>)
    ensures
        match r {
            Ok(c) => joined_tags(window_tail(w@, n as nat)) == Some(c@),
            Err(e) => joined_tags(window_tail(w@, n as nat)) is None && e == ValidationError::Decode,
        },
{
    let start: usize = if (w.len() as u64) <= n { 0 } else { w.len() - n as usize };
    let ghost tail = window_tail(w@, n as nat);
    assert(tail =~= w@.subrange(start as int, w@.len() as int));
    let mut out: Vec<char> = Vec::new();
    let mut i: usize = start;
    while i < w.len()
        invariant
            start <= i <= w@.len(),
            tail == w@.subrange(start as int, w@.len() as int),
            tail == window_tail(w@, n as nat),
            joined_tags(tail.take(i - start)) == Some(out@),
        decreases w@.len() - i,
    {
        assert(tail.take(i + 1 - start).drop_last() =~= tail.take(i - start));
        assert(tail.take(i + 1 - start).last() == w@[i as int]);
        match decode(&w[i].tag) {
            Ok(s) => {
                push_chars(&mut out, &s);
            },
            Err(_) => {
                proof {
                    lemma_joined_prefix_none(tail, i + 1 - start);
                }
                return Err(ValidationError::Decode);
            },
        }
        i = i + 1;
    }
    assert(tail.take(w@.len() - start) =~= tail);
    Ok(out)
}

/// Applies one rule to the record at position `i` of the ancestry.
pub fn evaluate(
    rule: &Rule,
    anc: &Vec<LinkRecord>,
    i: usize,
    root: &Vec<u8>,
    window: &Option<Vec<LinkRecord>>,
) -> (r: Result<Outcome, ValidationError>)
    requires
        i < anc@.len(),
    ensures
        result_view(r) == rule_result(*rule, anc@, i as int, root@, window_view(window)),
{
    let rec = &anc[i];
    match rule {
        Rule::BaseIsRoot => {
            if same_bytes(&rec.base_address, root) {
                Ok(Outcome::Valid)
            } else {
                Ok(Outcome::Invalid(Reason::BaseNotRoot))
            }
        },
        Rule::TargetIsComponent => {
            let s = decode(&rec.tag)?;
            let h = component_target(&s)?;
            if same_bytes(&rec.target_address, &h) {
                Ok(Outcome::Valid)
            } else {
                Ok(Outcome::Invalid(Reason::TargetNotComponent))
            }
        },
        Rule::TagEqualsLiteral(lit) => {
            let s = decode(&rec.tag)?;
            if s == *lit {
                Ok(Outcome::Valid)
            } else {
                Ok(Outcome::Invalid(Reason::TagNotLiteral))
            }
        },
        Rule::BaseIsPrevTarget => {
            if i > 0 && same_bytes(&rec.base_address, &anc[i - 1].target_address) {
                Ok(Outcome::Valid)
            } else {
                Ok(Outcome::Invalid(Reason::BaseNotPrevTarget))
            }
        },
        Rule::TagHasLength(n) => {
            let c = decode_chars(&rec.tag)?;
            if c.len() as u64 == *n {
                Ok(Outcome::Valid)
            } else {
                Ok(Outcome::Invalid(Reason::TagLengthMismatch))
            }
        },
        Rule::TagContainsAncestors(n) => {
            match window {
                None => Err(ValidationError::Lookup),
                Some(w) => {
                    let joined = join_window_tags(w, *n)?;
                    let s = decode(&rec.tag)?;
                    let mut c: Vec<char> = Vec::new();
                    push_chars(&mut c, &s);
                    assert(c@ =~= s@);
                    if contains_chars(&c, &joined) {
                        Ok(Outcome::Valid)
                    } else {
                        Ok(Outcome::Invalid(Reason::AncestorsNotInTag(*n, s)))
                    }
                },
            }
        },
        Rule::RejectAlways => Ok(Outcome::Invalid(Reason::TooManyComponents)),
    }
}

} // verus!
