//! Rewriting a Markdown document for the destination layout: the parsed
//! frontmatter is serialized back between `---` delimiters, a `# <title>`
//! heading is synthesized from the frontmatter's `title` entry, and the
//! body follows. A document whose frontmatter has no `title` entry is
//! skipped, which is a reported no-op, not an error.

use vstd::prelude::*;
use vstd::string::StringExecFns;

use crate::frontmatter::MarkdownError;
use crate::frontmatter::body_part;
use crate::frontmatter::frontmatter_part;
use crate::frontmatter::parse_frontmatter;
use crate::yaml::mapping_title;
use crate::yaml::mapping_to_yaml;
use crate::yaml::str_of_value;
use crate::yaml::title_value_of;
use crate::yaml::value_as_str;
use crate::yaml::yaml_mapping_of;
use crate::yaml::yaml_emit_of;

verus! {

/// What the rewrite produced for one document.
pub enum RewriteOutcome {
    /// The full text to write to the destination file.
    Rewritten(String),
    /// The frontmatter has no `title` entry: nothing is written.
    Skipped,
}

/// The heading text chosen for a document: the `title` entry where it is
/// a string, the fallback `Untitled` where it is some other YAML value,
/// and `None` where there is no `title` entry at all.
pub open spec fn display_title(m: serde_yaml::Mapping) -> Option<Seq<char>> {
    match title_value_of(m) {
        None => None,
        Some(v) => match str_of_value(v) {
            Some(t) => Some(t),
            None => Some("Untitled"@),
        },
    }
}

/// The rewritten document text: the serialized frontmatter between `---`
/// delimiters, the synthesized heading, then the body.
pub open spec fn composed_document(yaml: Seq<char>, title: Seq<char>, body: Seq<char>) -> Seq<
    char,
> {
    "---\n"@ + yaml + "---\n# "@ + title + "\n"@ + body
}

/// Builds the rewritten document text from its three parts.
pub fn compose_document(yaml: &str, title: &str, body: &str) -> (r: String)
    ensures
        r@ == composed_document(yaml@, title@, body@),
{
    let mut out = String::new();
    out.append("---\n");
    out.append(yaml);
    out.append("---\n# ");
    out.append(title);
    out.append("\n");
    out.append(body);
    out
}

/// Rewrites a parsed document. Skips it where the frontmatter has no
/// `title` entry; otherwise serializes the frontmatter back to YAML and
/// composes the output text: the rewritten text is owed whenever the
/// serializer accepts the mapping, and an `Emit` error comes exactly
/// where it does not.
pub fn rewrite_document(body: &str, data: &serde_yaml::Mapping) -> (r: Result<
    RewriteOutcome,
    MarkdownError,
>)
    ensures
        title_value_of(*data) is None ==> r == Ok::<RewriteOutcome, MarkdownError>(
            RewriteOutcome::Skipped,
        ),
        title_value_of(*data) is Some && yaml_emit_of(*data) is Some ==> (match r {
            Ok(RewriteOutcome::Rewritten(t)) => t@ == composed_document(
                yaml_emit_of(*data)->0,
                display_title(*data)->0,
                body@,
            ),
            _ => false,
        }),
        title_value_of(*data) is Some && yaml_emit_of(*data) is None ==> (match r {
            Err(e) => e is Emit,
            _ => false,
        }),
{
    match mapping_title(data) {
        None => Ok(RewriteOutcome::Skipped),
        Some(v) => {
            let title: String = match value_as_str(v) {
                Some(s) => s,
                None => "Untitled".to_owned(),
            };
            match mapping_to_yaml(data) {
                Ok(yaml) => Ok(
                    RewriteOutcome::Rewritten(
                        compose_document(yaml.as_str(), title.as_str(), body),
                    ),
                ),
                Err(e) => Err(MarkdownError::Emit(e)),
            }
        },
    }
}

/// Everything the Markdown rewrite promises of its result, as a relation
/// between the input text and the outcome.
pub open spec fn rewrite_post(content: Seq<char>, r: Result<RewriteOutcome, MarkdownError>) -> bool {
    let fm = frontmatter_part(content);
    let body = body_part(content);
    &&& (yaml_mapping_of(fm) is None <==> (r matches Err(e) && e is Parse))
    &&& match yaml_mapping_of(fm) {
        None => true,
        Some(m) => {
            &&& (title_value_of(m) is None ==> r == Ok::<RewriteOutcome, MarkdownError>(
                RewriteOutcome::Skipped,
            ))
            &&& (title_value_of(m) is Some && yaml_emit_of(m) is Some ==> (match r {
                Ok(RewriteOutcome::Rewritten(t)) => t@ == composed_document(
                    yaml_emit_of(m)->0,
                    display_title(m)->0,
                    body,
                ),
                _ => false,
            }))
            &&& (title_value_of(m) is Some && yaml_emit_of(m) is None ==> (match r {
                Err(e) => e is Emit,
                _ => false,
            }))
        },
    }
    &&& (fm.len() == 0 ==> r == Ok::<RewriteOutcome, MarkdownError>(RewriteOutcome::Skipped))
}

/// The whole per-document transform: parse the frontmatter, then rewrite.
/// Fails with `Parse` exactly where the frontmatter block is not a YAML
/// mapping; skips exactly where the parsed mapping has no `title` entry;
/// otherwise the output text is pinned by `rewrite_post`.
pub fn rewrite_markdown(content: &str) -> (r: Result<RewriteOutcome, MarkdownError>)
    ensures
        rewrite_post(content@, r),
{
    match parse_frontmatter(content) {
        Err(e) => Err(e),
        Ok((body, m)) => rewrite_document(body.as_str(), &m),
    }
}

/// Running the Markdown copy twice with identical inputs produces the
/// same result: the two runs agree on success, on whether the document is
/// skipped, and on every character of the rewritten text.
pub proof fn lemma_rewrite_deterministic(
    content: Seq<char>,
    r1: Result<RewriteOutcome, MarkdownError>,
    r2: Result<RewriteOutcome, MarkdownError>,
)
    requires
        rewrite_post(content, r1),
        rewrite_post(content, r2),
    ensures
        r1 is Ok <==> r2 is Ok,
        (r1 matches Ok(RewriteOutcome::Skipped)) <==> (r2 matches Ok(RewriteOutcome::Skipped)),
        (r1 is Ok && r2 is Ok && r1->Ok_0 is Rewritten && r2->Ok_0 is Rewritten)
            ==> r1->Ok_0->Rewritten_0@ == r2->Ok_0->Rewritten_0@,
{
}

} // verus!
