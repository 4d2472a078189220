//! The properties the synchronization engine guarantees, stated and proved
//! over the same specification functions its executable contracts use.

use crate::codec::{
    placeholders, placeholders_from, reinsert_placeholders, render_elements_from,
    render_expression, render_pattern, sentinel, stripped_from, stripped_text,
};
use crate::detect::{comment_has_tag, hand_translated_tag, spec_decide, Verdict};
use crate::model::{spec_find_message, ElementV, EntryV, ExpressionV, MessageV, PatternV,
    ResourceV};
use crate::text::{
    lemma_find_at_finds, lemma_find_at_props, find_at, match_at, replace_first,
};
use crate::orchestrate::{spec_apply, spec_plan, ServiceOutcomeV, TranslationResultV};
use crate::writer::{
    entry_sep, id_value_sep, render_opt_comment, render_opt_pattern, spec_entry_output,
    spec_output, spec_output_from,
};
use vstd::prelude::*;

verus! {

/// One whole synchronization run as a mathematical function: plan the
/// pending units from the three inputs, resolve them against the service
/// outcomes, and reconstruct the output text.
pub open spec fn spec_sync(
    source: ResourceV,
    prior: Option<ResourceV>,
    existing: Option<ResourceV>,
    language: Seq<char>,
    outcomes: Seq<ServiceOutcomeV>,
) -> Seq<char> {
    spec_output(source, existing, spec_apply(spec_plan(source, prior, existing), language, outcomes))
}

/// Idempotence: the output text is a function of the four inputs and the
/// service outcomes alone, so two runs over identical inputs whose service
/// returns the same outcomes produce identical output, byte for byte. Every
/// executable step pins its result to the spec functions composed here.
pub proof fn lemma_sync_deterministic(
    r1: Seq<char>,
    r2: Seq<char>,
    source: ResourceV,
    prior: Option<ResourceV>,
    existing: Option<ResourceV>,
    language: Seq<char>,
    outcomes: Seq<ServiceOutcomeV>,
)
    requires
        r1 == spec_sync(source, prior, existing, language, outcomes),
        r2 == spec_sync(source, prior, existing, language, outcomes),
    ensures
        r1 == r2,
{
}

/// The per-entry output blocks, in source order.
pub open spec fn output_blocks(
    source: ResourceV,
    existing: Option<ResourceV>,
    rs: Seq<TranslationResultV>,
) -> Seq<Seq<char>> {
    source.entries.map_values(|e: EntryV| spec_entry_output(e, existing, rs))
}

proof fn lemma_output_is_flatten_from(
    es: Seq<EntryV>,
    i: int,
    existing: Option<ResourceV>,
    rs: Seq<TranslationResultV>,
)
    requires
        0 <= i <= es.len(),
    ensures
        spec_output_from(es, i, existing, rs) == es.skip(i).map_values(
            |e: EntryV| spec_entry_output(e, existing, rs),
        ).flatten(),
    decreases es.len() - i,
{
    let blocks = es.skip(i).map_values(|e: EntryV| spec_entry_output(e, existing, rs));
    if i == es.len() {
        assert(blocks.len() == 0);
    } else {
        lemma_output_is_flatten_from(es, i + 1, existing, rs);
        let tail = es.skip(i + 1).map_values(|e: EntryV| spec_entry_output(e, existing, rs));
        assert(blocks.first() == spec_entry_output(es[i], existing, rs));
        assert(blocks.drop_first() =~= tail);
    }
}

/// Order preservation: the output text is exactly the concatenation, in
/// source order, of one block per source entry, and the block of a message
/// or term entry embeds that entry's own id between its (possibly empty)
/// comment prefix and its value. No entry is reordered, dropped or
/// duplicated, and no block writes another entry's id.
pub proof fn lemma_order_preservation(
    source: ResourceV,
    existing: Option<ResourceV>,
    rs: Seq<TranslationResultV>,
)
    ensures
        spec_output(source, existing, rs) == output_blocks(source, existing, rs).flatten(),
        output_blocks(source, existing, rs).len() == source.entries.len(),
        forall|i: int|
            0 <= i < source.entries.len() ==> output_blocks(source, existing, rs)[i]
                == spec_entry_output(source.entries[i], existing, rs),
        forall|i: int|
            0 <= i < source.entries.len() ==> match #[trigger] source.entries[i] {
                EntryV::Term(t) => output_blocks(source, existing, rs)[i] == render_opt_comment(
                    t.comment,
                ) + seq!['-'] + t.id + id_value_sep() + render_pattern(t.value) + entry_sep(),
                EntryV::Message(m) => exists|c: Option<crate::model::CommentV>, v: Seq<char>|
                    output_blocks(source, existing, rs)[i] == render_opt_comment(c) + m.id
                        + id_value_sep() + v + entry_sep(),
                EntryV::Comment(_) => true,
            },
{
    lemma_output_is_flatten_from(source.entries, 0, existing, rs);
    assert(source.entries.skip(0) =~= source.entries);
    assert(source.entries.skip(0).map_values(|e: EntryV| spec_entry_output(e, existing, rs))
        =~= output_blocks(source, existing, rs));
    assert forall|i: int| 0 <= i < source.entries.len() implies match #[trigger] source.entries[i] {
        EntryV::Term(t) => output_blocks(source, existing, rs)[i] == render_opt_comment(t.comment)
            + seq!['-'] + t.id + id_value_sep() + render_pattern(t.value) + entry_sep(),
        EntryV::Message(m) => exists|c: Option<crate::model::CommentV>, v: Seq<char>|
            output_blocks(source, existing, rs)[i] == render_opt_comment(c) + m.id
                + id_value_sep() + v + entry_sep(),
        EntryV::Comment(_) => true,
    } by {
        let block = output_blocks(source, existing, rs)[i];
        match source.entries[i] {
            EntryV::Term(_t) => {},
            EntryV::Message(m) => {
                lemma_message_block_shape(m, existing, rs);
            },
            EntryV::Comment(_) => {},
        }
    }
}

/// Every message block has the shape `comment? id = value terminator`, with
/// the message's own id.
proof fn lemma_message_block_shape(
    m: MessageV,
    existing: Option<ResourceV>,
    rs: Seq<TranslationResultV>,
)
    ensures
        exists|c: Option<crate::model::CommentV>, v: Seq<char>|
            spec_entry_output(EntryV::Message(m), existing, rs) == render_opt_comment(c) + m.id
                + id_value_sep() + v + entry_sep(),
{
    let block = spec_entry_output(EntryV::Message(m), existing, rs);
    match crate::writer::spec_lookup(rs, m.id) {
        Some(Some(txt)) => {
            let v = crate::codec::reinsert_placeholders(
                txt,
                crate::writer::opt_placeholders(m.value),
            );
            assert(block == render_opt_comment(None) + m.id + id_value_sep() + v + entry_sep())
                by {
                assert(render_opt_comment(None::<crate::model::CommentV>) =~= Seq::<
                    char,
                >::empty());
                assert(render_opt_comment(None::<crate::model::CommentV>) + m.id =~= m.id);
            }
        },
        Some(None) => {
            let v = Seq::<char>::empty();
            assert(block == render_opt_comment(None) + m.id + id_value_sep() + v + entry_sep())
                by {
                assert(render_opt_comment(None::<crate::model::CommentV>) + m.id =~= m.id);
                assert(m.id + id_value_sep() + v =~= m.id + id_value_sep());
            }
        },
        None => {
            let chosen = match existing {
                Some(ex) => spec_find_message(ex, m.id),
                None => None,
            };
            match chosen {
                Some(em) => {
                    assert(block == render_opt_comment(em.comment) + m.id + id_value_sep()
                        + render_opt_pattern(em.value) + entry_sep());
                },
                None => {
                    assert(block == render_opt_comment(m.comment) + m.id + id_value_sep()
                        + render_opt_pattern(m.value) + entry_sep());
                },
            }
        },
    }
}

/// A message whose existing target entry carries the hand-translated tag is
/// always skipped, whatever the snapshot diff says.
proof fn lemma_decide_tagged_skips(m: MessageV, prior: Option<ResourceV>, ex: ResourceV)
    requires
        spec_find_message(ex, m.id) matches Some(em) && comment_has_tag(
            em.comment,
            hand_translated_tag(),
        ),
    ensures
        spec_decide(m, prior, Some(ex)) == Verdict::Skip,
{
}

/// When the id's existing target entry is tagged hand-translated, no pending
/// unit carries that id.
proof fn lemma_plan_no_unit(
    es: Seq<EntryV>,
    i: int,
    prior: Option<ResourceV>,
    ex: ResourceV,
    id: Seq<char>,
)
    requires
        0 <= i,
        spec_find_message(ex, id) matches Some(em) && comment_has_tag(
            em.comment,
            hand_translated_tag(),
        ),
    ensures
        forall|k: int|
            0 <= k < crate::orchestrate::spec_plan_from(es, i, prior, Some(ex)).len()
                ==> #[trigger] crate::orchestrate::spec_plan_from(es, i, prior, Some(ex))[k].id
                != id,
    decreases es.len() - i,
{
    if i >= es.len() {
    } else {
        lemma_plan_no_unit(es, i + 1, prior, ex, id);
        let rest = crate::orchestrate::spec_plan_from(es, i + 1, prior, Some(ex));
        match es[i] {
            EntryV::Message(m) => {
                if spec_decide(m, prior, Some(ex)) == Verdict::NeedsTranslation {
                    if m.id == id {
                        lemma_decide_tagged_skips(m, prior, ex);
                        assert(false);
                    }
                }
            },
            _ => {},
        }
    }
}

/// A result list none of whose entries carries the id yields no lookup hit.
proof fn lemma_lookup_absent(rs: Seq<TranslationResultV>, id: Seq<char>, i: int)
    requires
        0 <= i,
        forall|k: int| i <= k < rs.len() ==> #[trigger] rs[k].id != id,
    ensures
        crate::writer::lookup_from(rs, id, i) is None,
    decreases rs.len() - i,
{
    if i < rs.len() {
        lemma_lookup_absent(rs, id, i + 1);
    }
}

/// Hand-translation sovereignty: when a source message's id has an existing
/// target entry whose standalone comment carries the hand-translated tag,
/// the output block for that entry is the existing entry verbatim — its
/// comment and its value — whatever the source text, the prior snapshot or
/// the service outcomes were.
pub proof fn lemma_hand_translation_sovereignty(
    source: ResourceV,
    prior: Option<ResourceV>,
    existing: ResourceV,
    language: Seq<char>,
    outcomes: Seq<ServiceOutcomeV>,
    i: int,
    m: MessageV,
    em: MessageV,
)
    requires
        0 <= i < source.entries.len(),
        source.entries[i] == EntryV::Message(m),
        spec_find_message(existing, m.id) == Some(em),
        comment_has_tag(em.comment, hand_translated_tag()),
    ensures
        spec_entry_output(
            source.entries[i],
            Some(existing),
            spec_apply(spec_plan(source, prior, Some(existing)), language, outcomes),
        ) == render_opt_comment(em.comment) + m.id + id_value_sep() + render_opt_pattern(em.value)
            + entry_sep(),
{
    let plan = spec_plan(source, prior, Some(existing));
    let rs = spec_apply(plan, language, outcomes);
    lemma_plan_no_unit(source.entries, 0, prior, existing, m.id);
    assert forall|k: int| 0 <= k < rs.len() implies #[trigger] rs[k].id != m.id by {
        assert(rs[k].id == plan[k].id);
    }
    lemma_lookup_absent(rs, m.id, 0);
}

/// An untagged standalone comment on the existing target entry never blocks
/// retranslation: the verdict is `NeedsTranslation` even when the snapshot
/// diff reports no change.
pub proof fn lemma_untagged_comment_retranslates(
    m: MessageV,
    prior: Option<ResourceV>,
    ex: ResourceV,
)
    requires
        spec_find_message(ex, m.id) matches Some(em) && (em.comment matches Some(c)
            && c matches crate::model::CommentV::Comment { content } && !crate::detect::lines_have_tag(
            content,
            hand_translated_tag(),
        )),
    ensures
        spec_decide(m, prior, Some(ex)) == Verdict::NeedsTranslation,
{
}

/// No two adjacent underscores anywhere in the text.
pub open spec fn no_double_underscore(s: Seq<char>) -> bool {
    forall|i: int| 0 <= i < s.len() - 1 ==> !(#[trigger] s[i] == '_' && s[i + 1] == '_')
}

/// Text that cannot take part in a sentinel occurrence it does not own: no
/// adjacent underscores inside, and no trailing underscore to join one that
/// follows.
pub open spec fn closed_text(s: Seq<char>) -> bool {
    no_double_underscore(s) && (s.len() > 0 ==> s[s.len() - 1] != '_')
}

/// A placeable whose rendering round-trips: a named (non-opaque) expression
/// whose payload has no adjacent underscores. Opaque placeables render as
/// the sentinel itself and are excluded.
pub open spec fn tame_expression(x: ExpressionV) -> bool {
    match x {
        ExpressionV::StringLiteral(v) => no_double_underscore(v),
        ExpressionV::NumberLiteral(v) => no_double_underscore(v),
        ExpressionV::MessageReference(v) => no_double_underscore(v),
        ExpressionV::TermReference(v) => no_double_underscore(v),
        ExpressionV::VariableReference(v) => no_double_underscore(v),
        ExpressionV::FunctionReference => false,
        ExpressionV::SelectExpression => false,
    }
}

/// A pattern element that cannot disturb sentinel positions.
pub open spec fn tame_element(e: ElementV) -> bool {
    match e {
        ElementV::Text(t) => closed_text(t),
        ElementV::Placeable(x) => tame_expression(x),
    }
}

proof fn lemma_ndd_concat(a: Seq<char>, b: Seq<char>)
    requires
        no_double_underscore(a),
        no_double_underscore(b),
        a.len() > 0 && b.len() > 0 ==> !(a[a.len() - 1] == '_' && b[0] == '_'),
    ensures
        no_double_underscore(a + b),
{
    assert forall|i: int| 0 <= i < (a + b).len() - 1 implies !(#[trigger] (a + b)[i] == '_' && (a
        + b)[i + 1] == '_') by {
        if i + 1 < a.len() {
            assert((a + b)[i] == a[i]);
            assert((a + b)[i + 1] == a[i + 1]);
        } else if i >= a.len() {
            assert((a + b)[i] == b[i - a.len()]);
            assert((a + b)[i + 1] == b[i + 1 - a.len()]);
        } else {
            assert((a + b)[i] == a[a.len() - 1]);
            assert((a + b)[i + 1] == b[0]);
        }
    }
}

proof fn lemma_closed_concat(a: Seq<char>, b: Seq<char>)
    requires
        closed_text(a),
        closed_text(b),
    ensures
        closed_text(a + b),
{
    lemma_ndd_concat(a, b);
    if (a + b).len() > 0 {
        if b.len() > 0 {
            assert((a + b)[(a + b).len() - 1] == b[b.len() - 1]);
        } else {
            assert((a + b)[(a + b).len() - 1] == a[a.len() - 1]);
        }
    }
}

/// The rendering of a tame placeable is itself closed text: it is braced,
/// so it neither contains nor borders a sentinel occurrence.
proof fn lemma_render_closed(x: ExpressionV)
    requires
        tame_expression(x),
    ensures
        closed_text(render_expression(x)),
{
    match x {
        ExpressionV::StringLiteral(v) => {
            lemma_ndd_concat(seq!['{', ' '], v);
            lemma_ndd_concat(seq!['{', ' '] + v, seq![' ', '}']);
            assert(render_expression(x)[render_expression(x).len() - 1] == '}');
        },
        ExpressionV::NumberLiteral(v) => {
            lemma_ndd_concat(seq!['{', ' '], v);
            lemma_ndd_concat(seq!['{', ' '] + v, seq![' ', '}']);
            assert(render_expression(x)[render_expression(x).len() - 1] == '}');
        },
        ExpressionV::MessageReference(v) => {
            lemma_ndd_concat(seq!['{', ' '], v);
            lemma_ndd_concat(seq!['{', ' '] + v, seq![' ', '}']);
            assert(render_expression(x)[render_expression(x).len() - 1] == '}');
        },
        ExpressionV::TermReference(v) => {
            lemma_ndd_concat(seq!['{', ' ', '-'], v);
            lemma_ndd_concat(seq!['{', ' ', '-'] + v, seq![' ', '}']);
            assert(render_expression(x)[render_expression(x).len() - 1] == '}');
        },
        ExpressionV::VariableReference(v) => {
            lemma_ndd_concat(seq!['{', ' ', '$'], v);
            lemma_ndd_concat(seq!['{', ' ', '$'] + v, seq![' ', '}']);
            assert(render_expression(x)[render_expression(x).len() - 1] == '}');
        },
        ExpressionV::FunctionReference => {},
        ExpressionV::SelectExpression => {},
    }
}

/// In `done + sentinel + rest` with closed `done`, the first sentinel
/// occurrence is exactly at the junction.
proof fn lemma_first_sentinel_at(done: Seq<char>, rest: Seq<char>)
    requires
        closed_text(done),
    ensures
        find_at(done + sentinel() + rest, sentinel(), 0) == done.len(),
{
    let s = done + sentinel() + rest;
    let d = done.len() as int;
    assert(s.subrange(d, d + 3) =~= sentinel());
    assert(match_at(s, sentinel(), d));
    assert forall|j: int| 0 <= j < d implies !match_at(s, sentinel(), j) by {
        if match_at(s, sentinel(), j) {
            assert(s.subrange(j, j + 3)[0] == '_');
            assert(s.subrange(j, j + 3)[1] == '_');
            assert(s[j] == '_');
            assert(s[j + 1] == '_');
            if j + 1 < d {
                assert(s[j] == done[j]);
                assert(s[j + 1] == done[j + 1]);
            } else {
                assert(j == d - 1);
                assert(s[j] == done[d - 1]);
            }
        }
    }
    lemma_find_at_finds(s, sentinel(), 0, d);
    lemma_find_at_props(s, sentinel(), 0);
    if find_at(s, sentinel(), 0) < d {
        assert(match_at(s, sentinel(), find_at(s, sentinel(), 0)));
        assert(false);
    }
}

/// Replacing the first sentinel of `done + sentinel + rest` splices the
/// replacement exactly at the junction.
proof fn lemma_replace_at_boundary(done: Seq<char>, rest: Seq<char>, r: Seq<char>)
    requires
        closed_text(done),
    ensures
        replace_first(done + sentinel() + rest, sentinel(), r) == done + r + rest,
{
    lemma_first_sentinel_at(done, rest);
    let s = done + sentinel() + rest;
    let d = done.len() as int;
    assert(s.subrange(0, d) =~= done);
    assert(s.subrange(d + 3, s.len() as int) =~= rest);
    assert(replace_first(s, sentinel(), r) =~= done + r + rest);
}

/// Reinsertion walks the stripped suffix of a tame pattern and restores its
/// rendering, whatever closed text has accumulated in front.
proof fn lemma_reinsert_restores_from(done: Seq<char>, es: Seq<ElementV>, i: int)
    requires
        closed_text(done),
        0 <= i <= es.len(),
        forall|k: int| i <= k < es.len() ==> tame_element(#[trigger] es[k]),
    ensures
        reinsert_placeholders(done + stripped_from(es, i), placeholders_from(es, i)) == done
            + render_elements_from(es, i),
    decreases es.len() - i,
{
    if i == es.len() {
        assert(done + stripped_from(es, i) =~= done);
        assert(done + render_elements_from(es, i) =~= done);
    } else {
        match es[i] {
            ElementV::Text(t) => {
                lemma_closed_concat(done, t);
                lemma_reinsert_restores_from(done + t, es, i + 1);
                assert(done + stripped_from(es, i) =~= (done + t) + stripped_from(es, i + 1));
                assert(done + render_elements_from(es, i) =~= (done + t)
                    + render_elements_from(es, i + 1));
            },
            ElementV::Placeable(x) => {
                let r = render_expression(x);
                lemma_render_closed(x);
                lemma_closed_concat(done, r);
                let ps = placeholders_from(es, i);
                assert(ps[0] == r);
                assert(ps.skip(1) =~= placeholders_from(es, i + 1));
                assert(done + stripped_from(es, i) =~= done + sentinel() + stripped_from(
                    es,
                    i + 1,
                ));
                lemma_replace_at_boundary(done, stripped_from(es, i + 1), r);
                lemma_reinsert_restores_from(done + r, es, i + 1);
                assert(done + r + stripped_from(es, i + 1) =~= (done + r) + stripped_from(
                    es,
                    i + 1,
                ));
                assert(done + render_elements_from(es, i) =~= (done + r)
                    + render_elements_from(es, i + 1));
            },
        }
    }
}

/// Placeholder round-trip: for a pattern whose literal runs are closed text
/// and whose placeables are tame, reinserting the stripped placeholders into
/// the untouched stripped text restores the pattern's full surface
/// rendering — every placeholder rendering back in place, in original order.
pub proof fn lemma_placeholder_round_trip(p: PatternV)
    requires
        forall|k: int| 0 <= k < p.elements.len() ==> tame_element(#[trigger] p.elements[k]),
    ensures
        reinsert_placeholders(stripped_text(p), placeholders(p)) == render_pattern(p),
{
    lemma_reinsert_restores_from(Seq::empty(), p.elements, 0);
    assert(Seq::<char>::empty() + stripped_from(p.elements, 0) =~= stripped_from(p.elements, 0));
    assert(Seq::<char>::empty() + render_elements_from(p.elements, 0) =~= render_elements_from(
        p.elements,
        0,
    ));
}

/// New-term forcing: a message absent from the existing target resource (or
/// run without one) always needs translation, whatever the prior snapshot
/// says.
pub proof fn lemma_new_term_forcing(
    m: MessageV,
    prior: Option<ResourceV>,
    existing: Option<ResourceV>,
)
    requires
        match existing {
            None => true,
            Some(ex) => spec_find_message(ex, m.id) is None,
        },
    ensures
        spec_decide(m, prior, existing) == Verdict::NeedsTranslation,
{
}

} // verus!
