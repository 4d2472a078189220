//! Placeholder codec: strips placeables out of a pattern so only prose is
//! sent for translation, and reinserts their original renderings into the
//! translated text afterwards.
//!
//! Every placeable, whatever its kind, appears in the stripped text as the
//! literal sentinel token `___`; its true rendering is kept, in encounter
//! order, in a separate list. Reinsertion replaces sentinel occurrences left
//! to right, one per stored rendering.

use crate::model::{Element, ElementV, Expression, ExpressionV, Pattern, PatternV};
use crate::text::{replace_first, replace_first_exec};
use vstd::prelude::*;
use vstd::string::*;

verus! {

/// The sentinel token standing for one placeable in stripped text.
pub open spec fn sentinel() -> Seq<char> {
    seq!['_', '_', '_']
}

/// The sentinel as a string slice.
pub fn sentinel_str() -> (r: &'static str)
    ensures
        r@ == sentinel(),
{
    let s = "___";
    proof {
        reveal_strlit("___");
        assert(s@ =~= sentinel());
    }
    s
}

/// The surface rendering of a placeable expression: the form written back
/// into the output file. Opaque expressions have no recoverable rendering and
/// render as the bare sentinel.
pub open spec fn render_expression(e: ExpressionV) -> Seq<char> {
    match e {
        ExpressionV::StringLiteral(v) => seq!['{', ' '] + v + seq![' ', '}'],
        ExpressionV::NumberLiteral(v) => seq!['{', ' '] + v + seq![' ', '}'],
        ExpressionV::MessageReference(id) => seq!['{', ' '] + id + seq![' ', '}'],
        ExpressionV::TermReference(id) => seq!['{', ' ', '-'] + id + seq![' ', '}'],
        ExpressionV::VariableReference(id) => seq!['{', ' ', '$'] + id + seq![' ', '}'],
        ExpressionV::FunctionReference => sentinel(),
        ExpressionV::SelectExpression => sentinel(),
    }
}

/// The surface rendering of one pattern element.
pub open spec fn render_element(e: ElementV) -> Seq<char> {
    match e {
        ElementV::Text(t) => t,
        ElementV::Placeable(x) => render_expression(x),
    }
}

/// The stripped form of one pattern element: text verbatim, placeables as the
/// sentinel.
pub open spec fn strip_element(e: ElementV) -> Seq<char> {
    match e {
        ElementV::Text(t) => t,
        ElementV::Placeable(_) => sentinel(),
    }
}

/// Concatenated surface rendering of `es[i..]`.
pub open spec fn render_elements_from(es: Seq<ElementV>, i: int) -> Seq<char>
    decreases es.len() - i,
{
    if i < 0 || i >= es.len() {
        Seq::empty()
    } else {
        render_element(es[i]) + render_elements_from(es, i + 1)
    }
}

/// The full surface rendering of a pattern.
pub open spec fn render_pattern(p: PatternV) -> Seq<char> {
    render_elements_from(p.elements, 0)
}

/// Concatenated stripped text of `es[i..]`.
pub open spec fn stripped_from(es: Seq<ElementV>, i: int) -> Seq<char>
    decreases es.len() - i,
{
    if i < 0 || i >= es.len() {
        Seq::empty()
    } else {
        strip_element(es[i]) + stripped_from(es, i + 1)
    }
}

/// The translatable text of a pattern: literal runs kept, placeables as
/// sentinels.
pub open spec fn stripped_text(p: PatternV) -> Seq<char> {
    stripped_from(p.elements, 0)
}

/// The placeholder renderings of `es[i..]`, in encounter order.
pub open spec fn placeholders_from(es: Seq<ElementV>, i: int) -> Seq<Seq<char>>
    decreases es.len() - i,
{
    if i < 0 || i >= es.len() {
        Seq::empty()
    } else {
        match es[i] {
            ElementV::Text(_) => placeholders_from(es, i + 1),
            ElementV::Placeable(x) => seq![render_expression(x)] + placeholders_from(es, i + 1),
        }
    }
}

/// The placeholder renderings of a pattern, in encounter order.
pub open spec fn placeholders(p: PatternV) -> Seq<Seq<char>> {
    placeholders_from(p.elements, 0)
}

/// `translated` with sentinel occurrences replaced, left to right, one per
/// placeholder. Excess placeholders (fewer sentinels than renderings) are
/// silently not reinserted; surplus sentinels stay verbatim.
pub open spec fn reinsert_placeholders(translated: Seq<char>, ps: Seq<Seq<char>>) -> Seq<char>
    decreases ps.len(),
{
    if ps.len() == 0 {
        translated
    } else {
        reinsert_placeholders(replace_first(translated, sentinel(), ps[0]), ps.skip(1))
    }
}

/// Renders a placeable expression back to its surface form.
pub fn expression_text(e: &Expression) -> (r: String)
    ensures
        r@ == render_expression(e@),
{
    proof {
        reveal_strlit("{ ");
        reveal_strlit(" }");
        reveal_strlit("{ -");
        reveal_strlit("{ $");
        reveal_strlit("___");
    }
    match e {
        Expression::StringLiteral(v) => {
            let mut out = String::from_str("{ ");
            out.append(v.as_str());
            out.append(" }");
            proof {
                assert(out@ =~= render_expression(e@));
            }
            out
        },
        Expression::NumberLiteral(v) => {
            let mut out = String::from_str("{ ");
            out.append(v.as_str());
            out.append(" }");
            proof {
                assert(out@ =~= render_expression(e@));
            }
            out
        },
        Expression::MessageReference(id) => {
            let mut out = String::from_str("{ ");
            out.append(id.as_str());
            out.append(" }");
            proof {
                assert(out@ =~= render_expression(e@));
            }
            out
        },
        Expression::TermReference(id) => {
            let mut out = String::from_str("{ -");
            out.append(id.as_str());
            out.append(" }");
            proof {
                assert(out@ =~= render_expression(e@));
            }
            out
        },
        Expression::VariableReference(id) => {
            let mut out = String::from_str("{ $");
            out.append(id.as_str());
            out.append(" }");
            proof {
                assert(out@ =~= render_expression(e@));
            }
            out
        },
        Expression::FunctionReference => {
            let out = String::from_str("___");
            proof {
                assert(out@ =~= render_expression(e@));
            }
            out
        },
        Expression::SelectExpression => {
            let out = String::from_str("___");
            proof {
                assert(out@ =~= render_expression(e@));
            }
            out
        },
    }
}

/// Renders a whole pattern back to its surface form.
pub fn pattern_text(p: &Pattern) -> (r: String)
    ensures
        r@ == render_pattern(p@),
{
    let n = p.elements.len();
    let mut out = String::new();
    let mut i: usize = 0;
    while i < n
        invariant
            i <= n,
            n == p.elements.len(),
            p@.elements.len() == n,
            render_pattern(p@) == out@ + render_elements_from(p@.elements, i as int),
        decreases n - i,
    {
        let ghost prev = out@;
        match &p.elements[i] {
            Element::Text(t) => {
                out.append(t.as_str());
            },
            Element::Placeable(e) => {
                let t = expression_text(e);
                out.append(t.as_str());
            },
        }
        proof {
            assert(p@.elements[i as int] == p.elements@[i as int]@);
            assert(out@ == prev + render_element(p@.elements[i as int]));
            assert(prev + render_elements_from(p@.elements, i as int) =~= out@
                + render_elements_from(p@.elements, i + 1));
        }
        i += 1;
    }
    out
}

/// Strips a pattern into translatable text plus the placeholder renderings,
/// in encounter order.
pub fn strip(p: &Pattern) -> (r: (String, Vec<String>))
    ensures
        r.0@ == stripped_text(p@),
        r.1.deep_view() == placeholders(p@),
{
    let n = p.elements.len();
    let mut out = String::new();
    let mut ps: Vec<String> = Vec::new();
    let mut i: usize = 0;
    while i < n
        invariant
            i <= n,
            n == p.elements.len(),
            p@.elements.len() == n,
            stripped_text(p@) == out@ + stripped_from(p@.elements, i as int),
            placeholders(p@) == ps.deep_view() + placeholders_from(p@.elements, i as int),
        decreases n - i,
    {
        let ghost prev = out@;
        let ghost prev_ps = ps.deep_view();
        match &p.elements[i] {
            Element::Text(t) => {
                out.append(t.as_str());
            },
            Element::Placeable(e) => {
                out.append(sentinel_str());
                let t = expression_text(e);
                ps.push(t);
            },
        }
        proof {
            assert(p@.elements[i as int] == p.elements@[i as int]@);
            assert(out@ == prev + strip_element(p@.elements[i as int]));
            assert(prev + stripped_from(p@.elements, i as int) =~= out@ + stripped_from(
                p@.elements,
                i + 1,
            ));
            match p@.elements[i as int] {
                ElementV::Text(_) => {
                    assert(ps.deep_view() == prev_ps);
                },
                ElementV::Placeable(x) => {
                    assert(ps.deep_view() =~= prev_ps + seq![render_expression(x)]);
                },
            }
            assert(prev_ps + placeholders_from(p@.elements, i as int) =~= ps.deep_view()
                + placeholders_from(p@.elements, i + 1));
        }
        i += 1;
    }
    (out, ps)
}

/// Reinserts placeholder renderings into translated text: sentinel
/// occurrences are replaced left to right, one per rendering. Excess
/// renderings are dropped; surplus sentinels stay verbatim.
pub fn reinsert(translated: &str, ps: &Vec<String>) -> (r: String)
    ensures
        r@ == reinsert_placeholders(translated@, ps.deep_view()),
{
    let sent = sentinel_str();
    let n = ps.len();
    let mut cur = translated.to_owned();
    let mut k: usize = 0;
    proof {
        assert(ps.deep_view().skip(0) =~= ps.deep_view());
    }
    while k < n
        invariant
            k <= n,
            n == ps.len(),
            ps.deep_view().len() == n,
            reinsert_placeholders(translated@, ps.deep_view()) == reinsert_placeholders(
                cur@,
                ps.deep_view().skip(k as int),
            ),
            sent@ == sentinel(),
        decreases n - k,
    {
        let ghost prev = cur@;
        let next = replace_first_exec(cur.as_str(), sent, ps[k].as_str());
        cur = next;
        proof {
            let ghost tail = ps.deep_view().skip(k as int);
            assert(tail[0] == ps.deep_view()[k as int]);
            assert(ps.deep_view()[k as int] == ps@[k as int]@);
            assert(tail.skip(1) =~= ps.deep_view().skip(k + 1));
            assert(reinsert_placeholders(prev, tail) == reinsert_placeholders(
                cur@,
                ps.deep_view().skip(k + 1),
            ));
        }
        k += 1;
    }
    proof {
        assert(ps.deep_view().skip(n as int) =~= Seq::<Seq<char>>::empty());
    }
    cur
}

} // verus!
