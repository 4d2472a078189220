//! Output reconstruction: emits the synchronized resource text entry by
//! entry, iterating the current source resource in original order, merging
//! freshly translated values with passed-through terms, comments and
//! hand-translated messages.

use crate::codec::{
    placeholders, reinsert, reinsert_placeholders, render_pattern, pattern_text, strip,
};
use crate::detect::opt_resource_view;
use crate::model::{
    find_message, spec_find_message, Comment, CommentV, Entry, EntryV, MessageV, PatternV,
    Resource, ResourceV,
};
use crate::orchestrate::{results_view, TranslationResult, TranslationResultV};
use crate::text::str_eq;
use vstd::prelude::*;
use vstd::string::*;

verus! {

/// The blank-line terminator separating entries in the output.
pub open spec fn entry_sep() -> Seq<char> {
    seq!['\n', '\n']
}

/// The ` = ` between an entry's id and its value.
pub open spec fn id_value_sep() -> Seq<char> {
    seq![' ', '=', ' ']
}

/// The line marker of a comment scope (`# `, `## `, `### `).
pub open spec fn comment_marker(c: CommentV) -> Seq<char> {
    match c {
        CommentV::Comment { .. } => seq!['#', ' '],
        CommentV::GroupComment { .. } => seq!['#', '#', ' '],
        CommentV::ResourceComment { .. } => seq!['#', '#', '#', ' '],
    }
}

/// The line list of a comment, whatever its scope.
pub open spec fn comment_content(c: CommentV) -> Seq<Seq<char>> {
    match c {
        CommentV::Comment { content } => content,
        CommentV::GroupComment { content } => content,
        CommentV::ResourceComment { content } => content,
    }
}

/// The rendering of comment lines `ls[i..]`: one marked line each.
pub open spec fn render_comment_lines(ls: Seq<Seq<char>>, marker: Seq<char>, i: int) -> Seq<char>
    decreases ls.len() - i,
{
    if i < 0 || i >= ls.len() {
        Seq::empty()
    } else {
        marker + ls[i] + seq!['\n'] + render_comment_lines(ls, marker, i + 1)
    }
}

/// The full rendering of one comment.
pub open spec fn render_comment(c: CommentV) -> Seq<char> {
    render_comment_lines(comment_content(c), comment_marker(c), 0)
}

/// The rendering of an optional comment; absent comments render as nothing.
pub open spec fn render_opt_comment(c: Option<CommentV>) -> Seq<char> {
    match c {
        Some(cc) => render_comment(cc),
        None => Seq::empty(),
    }
}

/// The rendering of an optional pattern; an absent value renders as nothing.
pub open spec fn render_opt_pattern(v: Option<PatternV>) -> Seq<char> {
    match v {
        Some(p) => render_pattern(p),
        None => Seq::empty(),
    }
}

/// The placeholder renderings of an optional pattern.
pub open spec fn opt_placeholders(v: Option<PatternV>) -> Seq<Seq<char>> {
    match v {
        Some(p) => placeholders(p),
        None => Seq::empty(),
    }
}

/// The translation recorded for `id`, if any: the first result whose id
/// matches, searched in result order.
pub open spec fn lookup_from(
    rs: Seq<TranslationResultV>,
    id: Seq<char>,
    i: int,
) -> Option<Option<Seq<char>>>
    decreases rs.len() - i,
{
    if i < 0 || i >= rs.len() {
        None
    } else if rs[i].id == id {
        Some(rs[i].text)
    } else {
        lookup_from(rs, id, i + 1)
    }
}

/// The translation recorded for `id`, if any.
pub open spec fn spec_lookup(rs: Seq<TranslationResultV>, id: Seq<char>) -> Option<
    Option<Seq<char>>,
> {
    lookup_from(rs, id, 0)
}

/// The output block of one message entry.
///
/// A fresh translation wins: placeholders are reinserted and the comment is
/// not carried over. A message skipped this run keeps the existing target
/// entry verbatim (comment and value) when one exists, else falls back to the
/// source message itself.
pub open spec fn render_message_output(
    m: MessageV,
    existing: Option<ResourceV>,
    rs: Seq<TranslationResultV>,
) -> Seq<char> {
    match spec_lookup(rs, m.id) {
        Some(Some(txt)) => m.id + id_value_sep() + reinsert_placeholders(
            txt,
            opt_placeholders(m.value),
        ) + entry_sep(),
        Some(None) => m.id + id_value_sep() + entry_sep(),
        None => {
            let chosen = match existing {
                Some(ex) => spec_find_message(ex, m.id),
                None => None,
            };
            match chosen {
                Some(em) => render_opt_comment(em.comment) + m.id + id_value_sep()
                    + render_opt_pattern(em.value) + entry_sep(),
                None => render_opt_comment(m.comment) + m.id + id_value_sep()
                    + render_opt_pattern(m.value) + entry_sep(),
            }
        },
    }
}

/// The output block of one entry.
pub open spec fn spec_entry_output(
    e: EntryV,
    existing: Option<ResourceV>,
    rs: Seq<TranslationResultV>,
) -> Seq<char> {
    match e {
        EntryV::Term(t) => render_opt_comment(t.comment) + seq!['-'] + t.id + id_value_sep()
            + render_pattern(t.value) + entry_sep(),
        EntryV::Message(m) => render_message_output(m, existing, rs),
        EntryV::Comment(c) => render_comment(c) + seq!['\n'],
    }
}

/// The concatenated output of entries `es[i..]`.
pub open spec fn spec_output_from(
    es: Seq<EntryV>,
    i: int,
    existing: Option<ResourceV>,
    rs: Seq<TranslationResultV>,
) -> Seq<char>
    decreases es.len() - i,
{
    if i < 0 || i >= es.len() {
        Seq::empty()
    } else {
        spec_entry_output(es[i], existing, rs) + spec_output_from(es, i + 1, existing, rs)
    }
}

/// The whole output file: one block per source entry, in source order.
pub open spec fn spec_output(
    source: ResourceV,
    existing: Option<ResourceV>,
    rs: Seq<TranslationResultV>,
) -> Seq<char> {
    spec_output_from(source.entries, 0, existing, rs)
}

/// Renders one comment, each line under its scope marker.
pub fn comment_text(c: &Comment) -> (r: String)
    ensures
        r@ == render_comment(c@),
{
    proof {
        reveal_strlit("# ");
        reveal_strlit("## ");
        reveal_strlit("### ");
        reveal_strlit("\n");
    }
    let (marker, content): (&str, &Vec<String>) = match c {
        Comment::Comment { content } => ("# ", content),
        Comment::GroupComment { content } => ("## ", content),
        Comment::ResourceComment { content } => ("### ", content),
    };
    proof {
        assert(marker@ =~= comment_marker(c@));
        assert(content.deep_view() =~= comment_content(c@));
    }
    let n = content.len();
    let mut out = String::new();
    let mut i: usize = 0;
    while i < n
        invariant
            i <= n,
            n == content.len(),
            content.deep_view().len() == n,
            marker@ == comment_marker(c@),
            content.deep_view() == comment_content(c@),
            render_comment(c@) == out@ + render_comment_lines(
                comment_content(c@),
                comment_marker(c@),
                i as int,
            ),
        decreases n - i,
    {
        let ghost prev = out@;
        out.append(marker);
        out.append(content[i].as_str());
        out.append("\n");
        proof {
            reveal_strlit("\n");
            assert(content.deep_view()[i as int] == content@[i as int]@);
            assert(prev + render_comment_lines(comment_content(c@), comment_marker(c@), i as int)
                =~= out@ + render_comment_lines(
                comment_content(c@),
                comment_marker(c@),
                i + 1,
            ));
        }
        i += 1;
    }
    out
}

/// Renders an optional comment.
pub fn opt_comment_text(c: &Option<Comment>) -> (r: String)
    ensures
        r@ == render_opt_comment(
            match c {
                Some(cc) => Some(cc@),
                None => None,
            },
        ),
{
    match c {
        Some(cc) => comment_text(cc),
        None => String::new(),
    }
}

/// Finds the translation recorded for `id`, if any.
pub fn lookup_translation(rs: &Vec<TranslationResult>, id: &str) -> (r: Option<Option<String>>)
    ensures
        r.deep_view() == spec_lookup(results_view(rs@), id@),
{
    let n = rs.len();
    let mut i: usize = 0;
    while i < n
        invariant
            i <= n,
            n == rs.len(),
            results_view(rs@).len() == n,
            spec_lookup(results_view(rs@), id@) == lookup_from(results_view(rs@), id@, i as int),
        decreases n - i,
    {
        proof {
            assert(results_view(rs@)[i as int] == rs@[i as int]@);
        }
        if str_eq(rs[i].id.as_str(), id) {
            let text = match &rs[i].text {
                Some(t) => Some(t.clone()),
                None => None,
            };
            return Some(text);
        }
        i += 1;
    }
    None
}

/// Renders the output block of one entry.
pub fn entry_output(
    e: &Entry,
    existing: Option<&Resource>,
    translations: &Vec<TranslationResult>,
) -> (r: String)
    ensures
        r@ == spec_entry_output(e@, opt_resource_view(existing), results_view(translations@)),
{
    proof {
        reveal_strlit("-");
        reveal_strlit(" = ");
        reveal_strlit("\n");
        reveal_strlit("\n\n");
        assert(" = "@ =~= id_value_sep());
        assert("\n\n"@ =~= entry_sep());
    }
    match e {
        Entry::Term(t) => {
            let mut out = opt_comment_text(&t.comment);
            out.append("-");
            out.append(t.id.as_str());
            out.append(" = ");
            let vt = pattern_text(&t.value);
            out.append(vt.as_str());
            out.append("\n\n");
            proof {
                assert(out@ =~= spec_entry_output(
                    e@,
                    opt_resource_view(existing),
                    results_view(translations@),
                ));
            }
            out
        },
        Entry::Comment(c) => {
            let mut out = comment_text(c);
            out.append("\n");
            proof {
                assert(out@ =~= spec_entry_output(
                    e@,
                    opt_resource_view(existing),
                    results_view(translations@),
                ));
            }
            out
        },
        Entry::Message(m) => {
            match lookup_translation(translations, m.id.as_str()) {
                Some(opt_text) => {
                    let mut out = String::from_str(m.id.as_str());
                    out.append(" = ");
                    match opt_text {
                        Some(txt) => {
                            let ps = match &m.value {
                                Some(p) => {
                                    let (_stripped, ps) = strip(p);
                                    ps
                                },
                                None => Vec::new(),
                            };
                            proof {
                                assert(ps.deep_view() =~= opt_placeholders(m@.value));
                            }
                            let body = reinsert(txt.as_str(), &ps);
                            out.append(body.as_str());
                        },
                        None => {},
                    }
                    out.append("\n\n");
                    proof {
                        assert(out@ =~= spec_entry_output(
                            e@,
                            opt_resource_view(existing),
                            results_view(translations@),
                        ));
                    }
                    out
                },
                None => {
                    let found = match existing {
                        Some(ex) => find_message(ex, m.id.as_str()),
                        None => None,
                    };
                    let mut out: String;
                    match found {
                        Some(em) => {
                            out = opt_comment_text(&em.comment);
                            out.append(m.id.as_str());
                            out.append(" = ");
                            match &em.value {
                                Some(p) => {
                                    let vt = pattern_text(p);
                                    out.append(vt.as_str());
                                },
                                None => {},
                            }
                        },
                        None => {
                            out = opt_comment_text(&m.comment);
                            out.append(m.id.as_str());
                            out.append(" = ");
                            match &m.value {
                                Some(p) => {
                                    let vt = pattern_text(p);
                                    out.append(vt.as_str());
                                },
                                None => {},
                            }
                        },
                    }
                    out.append("\n\n");
                    proof {
                        assert(out@ =~= spec_entry_output(
                            e@,
                            opt_resource_view(existing),
                            results_view(translations@),
                        ));
                    }
                    out
                },
            }
        },
    }
}

/// Reconstructs the whole output file: one block per source entry, in the
/// source resource's original order.
pub fn compose_output(
    source: &Resource,
    existing: Option<&Resource>,
    translations: &Vec<TranslationResult>,
) -> (r: String)
    ensures
        r@ == spec_output(source@, opt_resource_view(existing), results_view(translations@)),
{
    let n = source.entries.len();
    let mut out = String::new();
    let mut i: usize = 0;
    while i < n
        invariant
            i <= n,
            n == source.entries.len(),
            source@.entries.len() == n,
            spec_output(source@, opt_resource_view(existing), results_view(translations@))
                == out@ + spec_output_from(
                source@.entries,
                i as int,
                opt_resource_view(existing),
                results_view(translations@),
            ),
        decreases n - i,
    {
        let ghost prev = out@;
        let block = entry_output(&source.entries[i], existing, translations);
        out.append(block.as_str());
        proof {
            assert(source@.entries[i as int] == source.entries@[i as int]@);
            assert(prev + spec_output_from(
                source@.entries,
                i as int,
                opt_resource_view(existing),
                results_view(translations@),
            ) =~= out@ + spec_output_from(
                source@.entries,
                i + 1,
                opt_resource_view(existing),
                results_view(translations@),
            ));
        }
        i += 1;
    }
    out
}

} // verus!
