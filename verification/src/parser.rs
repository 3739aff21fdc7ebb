//! The deterministic text-to-fact response parser.
//!
//! Turns free-form multi-line text into a non-empty, ordered list of facts in
//! a target category: lines are trimmed, leading list markers (`1.`, `2)`)
//! are stripped, lines at or below a length threshold are discarded, and the
//! survivors become facts numbered in emission order. When nothing survives,
//! a single fallback fact is emitted, so the result is never empty.

use vstd::prelude::*;

use crate::facts::{ContextKey, Fact, FactModel};
use crate::text::{
    chars_to_string, push_decimal, spec_trim, str_to_chars, strip_marker_front, dec_str,
    split_lines, split_lines_chars, strip_markers, trim_chars,
};

verus! {

/// What remains of a line once it is trimmed, its leading list marker is
/// stripped, and it is trimmed again.
pub open spec fn content_of(line: Seq<char>) -> Seq<char> {
    spec_trim(strip_marker_front(spec_trim(line)))
}

/// Exec mirror of [`content_of`].
pub fn content_of_chars(line: &Vec<char>) -> (r: Vec<char>)
    ensures
        r@ == content_of(line@),
{
    let trimmed = trim_chars(line);
    let stripped = strip_markers(&trimmed);
    trim_chars(&stripped)
}

/// Mathematical model of a parser configuration.
pub struct ParseRulesModel {
    pub key: ContextKey,
    pub threshold: nat,
    pub id_prefix: Seq<char>,
    pub fallback_id: Seq<char>,
    pub fallback_content: Seq<char>,
}

/// Per-agent parser configuration: target category, minimum content length,
/// id template and the fallback fact.
pub struct ParseRules {
    pub key: ContextKey,
    pub threshold: usize,
    pub id_prefix: String,
    pub fallback_id: String,
    pub fallback_content: String,
}

impl View for ParseRules {
    type V = ParseRulesModel;

    open spec fn view(&self) -> ParseRulesModel {
        ParseRulesModel {
            key: self.key,
            threshold: self.threshold as nat,
            id_prefix: self.id_prefix@,
            fallback_id: self.fallback_id@,
            fallback_content: self.fallback_content@,
        }
    }
}

/// The fact emitted for surviving content `c` as the `n`-th emission (1-based).
pub open spec fn numbered_fact(rules: ParseRulesModel, n: nat, c: Seq<char>) -> FactModel {
    FactModel { key: rules.key, id: rules.id_prefix + dec_str(n), content: c }
}

/// The fallback fact emitted when no line survives filtering.
pub open spec fn fallback_fact(rules: ParseRulesModel) -> FactModel {
    FactModel { key: rules.key, id: rules.fallback_id, content: rules.fallback_content }
}

/// The facts emitted for `lines` when `count` facts were already emitted:
/// each line whose content exceeds the threshold becomes the next numbered
/// fact, in input order.
pub open spec fn emit_lines(lines: Seq<Seq<char>>, rules: ParseRulesModel, count: nat) -> Seq<
    FactModel,
>
    decreases lines.len(),
{
    if lines.len() == 0 {
        Seq::empty()
    } else {
        let c = content_of(lines[0]);
        if c.len() > rules.threshold {
            seq![numbered_fact(rules, count + 1, c)] + emit_lines(
                lines.drop_first(),
                rules,
                count + 1,
            )
        } else {
            emit_lines(lines.drop_first(), rules, count)
        }
    }
}

/// The full parse of a text: the emitted facts of its lines, or the single
/// fallback fact when none survive.
pub open spec fn spec_parse(text: Seq<char>, rules: ParseRulesModel) -> Seq<FactModel> {
    let emitted = emit_lines(split_lines(text), rules, 0);
    if emitted.len() == 0 {
        seq![fallback_fact(rules)]
    } else {
        emitted
    }
}

/// The parse of any text is non-empty.
pub proof fn lemma_parse_never_empty(text: Seq<char>, rules: ParseRulesModel)
    ensures
        spec_parse(text, rules).len() >= 1,
{
}

/// When no line of the text has content over the threshold, the parse is
/// exactly the single fallback fact.
pub proof fn lemma_parse_all_filtered(text: Seq<char>, rules: ParseRulesModel)
    requires
        forall|i: int|
            0 <= i < split_lines(text).len() ==> content_of(#[trigger] split_lines(text)[i]).len()
                <= rules.threshold,
    ensures
        spec_parse(text, rules) == seq![fallback_fact(rules)],
{
    lemma_emit_all_filtered(split_lines(text), rules, 0);
}

proof fn lemma_emit_all_filtered(lines: Seq<Seq<char>>, rules: ParseRulesModel, count: nat)
    requires
        forall|i: int|
            0 <= i < lines.len() ==> content_of(#[trigger] lines[i]).len() <= rules.threshold,
    ensures
        emit_lines(lines, rules, count).len() == 0,
    decreases lines.len(),
{
    if lines.len() > 0 {
        assert(content_of(lines[0]).len() <= rules.threshold);
        assert(forall|i: int|
            0 <= i < lines.drop_first().len() ==> content_of(
                #[trigger] lines.drop_first()[i],
            ).len() <= rules.threshold);
        lemma_emit_all_filtered(lines.drop_first(), rules, count);
    }
}

/// When every line of the text has content over the threshold, the parse
/// yields exactly one fact per line, in input order, holding that content.
pub proof fn lemma_parse_all_kept(text: Seq<char>, rules: ParseRulesModel)
    requires
        forall|i: int|
            0 <= i < split_lines(text).len() ==> content_of(#[trigger] split_lines(text)[i]).len()
                > rules.threshold,
    ensures
        spec_parse(text, rules).len() == split_lines(text).len(),
        forall|i: int|
            0 <= i < split_lines(text).len() ==> spec_parse(text, rules)[i] == numbered_fact(
                rules,
                (i + 1) as nat,
                content_of(#[trigger] split_lines(text)[i]),
            ),
{
    crate::text::lemma_split_lines_nonempty(text);
    lemma_emit_all_kept(split_lines(text), rules, 0);
}

proof fn lemma_emit_all_kept(lines: Seq<Seq<char>>, rules: ParseRulesModel, count: nat)
    requires
        forall|i: int|
            0 <= i < lines.len() ==> content_of(#[trigger] lines[i]).len() > rules.threshold,
    ensures
        emit_lines(lines, rules, count).len() == lines.len(),
        forall|i: int|
            0 <= i < lines.len() ==> emit_lines(lines, rules, count)[i] == numbered_fact(
                rules,
                (count + i + 1) as nat,
                content_of(#[trigger] lines[i]),
            ),
    decreases lines.len(),
{
    if lines.len() > 0 {
        assert(forall|i: int|
            0 <= i < lines.drop_first().len() ==> content_of(
                #[trigger] lines.drop_first()[i],
            ).len() > rules.threshold);
        lemma_emit_all_kept(lines.drop_first(), rules, count + 1);
        assert(forall|i: int|
            1 <= i < lines.len() ==> emit_lines(lines, rules, count)[i] == emit_lines(
                lines.drop_first(),
                rules,
                count + 1,
            )[i - 1] && lines.drop_first()[i - 1] == lines[i]);
    }
}

/// Every parsed fact lies in the target category and carries a non-empty id.
pub proof fn lemma_parse_wf(text: Seq<char>, rules: ParseRulesModel)
    requires
        rules.fallback_id.len() > 0,
    ensures
        spec_parse(text, rules).len() >= 1,
        forall|i: int|
            0 <= i < spec_parse(text, rules).len() ==> (#[trigger] spec_parse(text, rules)[i]).key
                == rules.key && spec_parse(text, rules)[i].id.len() > 0,
{
    lemma_emit_wf(split_lines(text), rules, 0);
}

proof fn lemma_emit_wf(lines: Seq<Seq<char>>, rules: ParseRulesModel, count: nat)
    ensures
        forall|i: int|
            0 <= i < emit_lines(lines, rules, count).len() ==> (#[trigger] emit_lines(
                lines,
                rules,
                count,
            )[i]).key == rules.key && emit_lines(lines, rules, count)[i].id.len() > 0,
    decreases lines.len(),
{
    if lines.len() > 0 {
        let c = content_of(lines[0]);
        if c.len() > rules.threshold {
            crate::text::lemma_dec_str_nonempty(count + 1);
            lemma_emit_wf(lines.drop_first(), rules, count + 1);
        } else {
            lemma_emit_wf(lines.drop_first(), rules, count);
        }
    }
}

/// Parses a raw response text into facts under the given rules.
pub fn parse_response(text: &str, rules: &ParseRules) -> (facts: Vec<Fact>)
    ensures
        facts.deep_view() == spec_parse(text@, rules@),
        facts@.len() >= 1,
{
    let chars = str_to_chars(text);
    let lines = split_lines_chars(&chars);
    let ghost all_lines = lines.deep_view();
    let mut out: Vec<Fact> = Vec::new();
    let mut i: usize = 0;
    proof {
        assert(all_lines.skip(0) =~= all_lines);
        assert(out.deep_view() + emit_lines(all_lines, rules@, 0) =~= emit_lines(
            all_lines,
            rules@,
            0,
        ));
    }
    while i < lines.len()
        invariant
            i <= lines.len(),
            out@.len() <= i,
            all_lines == lines.deep_view(),
            emit_lines(all_lines, rules@, 0) =~= out.deep_view() + emit_lines(
                all_lines.skip(i as int),
                rules@,
                out@.len() as nat,
            ),
        decreases lines.len() - i,
    {
        let ghost rest = all_lines.skip(i as int);
        let ghost out_before = out.deep_view();
        let ghost cnt = out@.len() as nat;
        proof {
            assert(rest[0] == all_lines[i as int]);
            assert(rest.drop_first() =~= all_lines.skip(i + 1));
            assert(all_lines[i as int] == lines@[i as int]@);
        }
        let content = content_of_chars(&lines[i]);
        if content.len() > rules.threshold {
            let n: u64 = (out.len() as u64) + 1;
            let mut id = rules.id_prefix.clone();
            push_decimal(&mut id, n);
            let content_str = chars_to_string(&content);
            let fact = Fact { key: rules.key, id, content: content_str };
            proof {
                assert(fact@ == numbered_fact(rules@, cnt + 1, content_of(rest[0])));
            }
            out.push(fact);
            proof {
                assert(out.deep_view() =~= out_before.push(fact@));
                assert(emit_lines(rest, rules@, cnt) == seq![
                    numbered_fact(rules@, cnt + 1, content_of(rest[0])),
                ] + emit_lines(rest.drop_first(), rules@, cnt + 1));
                assert(out_before + emit_lines(rest, rules@, cnt) =~= out.deep_view()
                    + emit_lines(all_lines.skip(i + 1), rules@, out@.len() as nat));
            }
        } else {
            proof {
                assert(emit_lines(rest, rules@, cnt) == emit_lines(
                    rest.drop_first(),
                    rules@,
                    cnt,
                ));
            }
        }
        i = i + 1;
    }
    proof {
        assert(all_lines.skip(lines.deep_view().len() as int) =~= Seq::<Seq<char>>::empty());
    }
    if out.len() == 0 {
        let fact = Fact {
            key: rules.key,
            id: rules.fallback_id.clone(),
            content: rules.fallback_content.clone(),
        };
        out.push(fact);
        proof {
            assert(out.deep_view() =~= seq![fallback_fact(rules@)]);
        }
    }
    out
}

} // verus!
