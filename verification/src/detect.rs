//! Three-way change detection: decides, per message, whether a fresh machine
//! translation is required, from the current source message, an optional
//! prior source snapshot, and an optional existing target resource.
//!
//! Precedence: a message absent from the existing target always needs
//! translation; a hand-translated tag in the existing target's standalone
//! comment always wins and skips; an untagged standalone comment always
//! retranslates; otherwise the source-against-snapshot diff decides.

use crate::model::{Comment, CommentV, Message, MessageV, Resource, ResourceV};
use crate::model::{find_message, opt_pattern_eq, spec_find_message};
use crate::text::contains_sub;
use vstd::prelude::*;

verus! {

/// The per-message decision of whether translation is required this run.
#[derive(PartialEq, Eq, Structural, Clone, Copy, Debug)]
pub enum Verdict {
    NeedsTranslation,
    Skip,
}

/// The free-text tag that pins an existing target entry as hand-translated.
pub open spec fn hand_translated_tag() -> Seq<char> {
    "tt-hand-translated"@
}

/// The free-text tag marking a message whose value is the target language's
/// own display name.
pub open spec fn lang_name_tag() -> Seq<char> {
    "tt-lang-name"@
}

/// True when some line carries the tag as a substring.
pub open spec fn lines_have_tag(lines: Seq<Seq<char>>, tag: Seq<char>) -> bool {
    exists|i: int| 0 <= i < lines.len() && contains_sub(lines[i], tag)
}

/// True when the comment is standalone and some line carries the tag.
/// Group and resource comments never carry tags.
pub open spec fn comment_has_tag(c: Option<CommentV>, tag: Seq<char>) -> bool {
    match c {
        Some(CommentV::Comment { content }) => lines_have_tag(content, tag),
        _ => false,
    }
}

/// The view of an optional borrowed resource.
pub open spec fn opt_resource_view(r: Option<&Resource>) -> Option<ResourceV> {
    match r {
        Some(x) => Some(x@),
        None => None,
    }
}

/// The prior-snapshot comparison: a message absent from the snapshot, or
/// whose pattern no longer equals the snapshot's, needs translation.
pub open spec fn diff_verdict(m: MessageV, prior: Option<ResourceV>) -> Verdict {
    match prior {
        None => Verdict::NeedsTranslation,
        Some(p) => match spec_find_message(p, m.id) {
            None => Verdict::NeedsTranslation,
            Some(pm) => if pm.value == m.value {
                Verdict::Skip
            } else {
                Verdict::NeedsTranslation
            },
        },
    }
}

/// The final verdict for one message.
pub open spec fn spec_decide(
    m: MessageV,
    prior: Option<ResourceV>,
    existing: Option<ResourceV>,
) -> Verdict {
    match existing {
        None => Verdict::NeedsTranslation,
        Some(ex) => match spec_find_message(ex, m.id) {
            None => Verdict::NeedsTranslation,
            Some(em) => match em.comment {
                Some(CommentV::Comment { content }) => if lines_have_tag(
                    content,
                    hand_translated_tag(),
                ) {
                    Verdict::Skip
                } else {
                    Verdict::NeedsTranslation
                },
                _ => diff_verdict(m, prior),
            },
        },
    }
}

/// True when some line of `lines` contains `tag` as a substring.
pub fn lines_have_tag_exec(lines: &Vec<String>, tag: &str) -> (r: bool)
    ensures
        r == lines_have_tag(lines.deep_view(), tag@),
{
    let n = lines.len();
    let mut i: usize = 0;
    while i < n
        invariant
            i <= n,
            n == lines.len(),
            lines.deep_view().len() == n,
            forall|k: int| 0 <= k < i ==> !contains_sub(lines.deep_view()[k], tag@),
        decreases n - i,
    {
        if crate::text::find_sub(lines[i].as_str(), tag).is_some() {
            proof {
                assert(lines.deep_view()[i as int] == lines@[i as int]@);
                assert(contains_sub(lines.deep_view()[i as int], tag@));
            }
            return true;
        }
        proof {
            assert(lines.deep_view()[i as int] == lines@[i as int]@);
        }
        i += 1;
    }
    false
}

/// True when the optional comment is standalone and carries the tag.
pub fn opt_comment_has_tag(c: &Option<Comment>, tag: &str) -> (r: bool)
    ensures
        r == comment_has_tag(
            match c {
                Some(cc) => Some(cc@),
                None => None,
            },
            tag@,
        ),
{
    match c {
        Some(Comment::Comment { content }) => lines_have_tag_exec(content, tag),
        _ => false,
    }
}

/// Decides whether `m` needs translation, by three-way comparison against the
/// optional prior source snapshot and the optional existing target resource.
pub fn decide(m: &Message, prior: Option<&Resource>, existing: Option<&Resource>) -> (r:
    Verdict)
    ensures
        r == spec_decide(m@, opt_resource_view(prior), opt_resource_view(existing)),
{
    let diff = match prior {
        None => Verdict::NeedsTranslation,
        Some(p) => match find_message(p, m.id.as_str()) {
            None => Verdict::NeedsTranslation,
            Some(pm) => if opt_pattern_eq(&pm.value, &m.value) {
                Verdict::Skip
            } else {
                Verdict::NeedsTranslation
            },
        },
    };
    match existing {
        None => Verdict::NeedsTranslation,
        Some(ex) => match find_message(ex, m.id.as_str()) {
            None => Verdict::NeedsTranslation,
            Some(em) => match &em.comment {
                Some(Comment::Comment { content }) => if lines_have_tag_exec(
                    content,
                    "tt-hand-translated",
                ) {
                    Verdict::Skip
                } else {
                    Verdict::NeedsTranslation
                },
                _ => diff,
            },
        },
    }
}

} // verus!
