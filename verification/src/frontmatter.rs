//! Splitting a Markdown document into its YAML frontmatter block and its
//! body. The document is cut at the literal `---` delimiters: everything
//! before the first delimiter is discarded, the trimmed text up to the
//! second delimiter is the frontmatter, and the trimmed remainder is the
//! body. A document with no delimiter at all has an empty frontmatter
//! block, which parses to the empty mapping, and keeps its whole trimmed
//! text as the body; one with a single delimiter has an empty body.

use vstd::prelude::*;
use vstd::string::StrSliceExecFns;

use crate::text::contains_sub;
use crate::text::find_str;
use crate::text::first_match;
use crate::text::lemma_contains_iff_first_match;
use crate::text::lemma_first_match_is_match;
use crate::text::trim_spec;
use crate::text::trim_str;
use crate::yaml::parse_yaml_mapping;
use crate::yaml::title_value_of;
use crate::yaml::yaml_mapping_of;

verus! {

/// Errors of the Markdown transform. Each carries the underlying
/// `serde_yaml` error.
#[derive(Debug)]
pub enum MarkdownError {
    /// The frontmatter block or a configuration file is not a YAML
    /// mapping.
    Parse(serde_yaml::Error),
    /// The parsed frontmatter could not be serialized back to YAML.
    Emit(serde_yaml::Error),
}

/// The frontmatter delimiter `---`.
pub open spec fn delim() -> Seq<char> {
    seq!['-', '-', '-']
}

/// The trimmed text between the first and second `---` of a document
/// (up to its end where the second is missing); empty where the document
/// holds no delimiter.
pub open spec fn frontmatter_part(content: Seq<char>) -> Seq<char> {
    match first_match(content, delim()) {
        None => Seq::empty(),
        Some(i) => {
            let rest = content.subrange(i + 3, content.len() as int);
            match first_match(rest, delim()) {
                None => trim_spec(rest),
                Some(j) => trim_spec(rest.subrange(0, j)),
            }
        },
    }
}

/// The trimmed text after the second `---` of a document; the whole
/// trimmed document where it holds no delimiter at all; empty where it
/// holds exactly one.
pub open spec fn body_part(content: Seq<char>) -> Seq<char> {
    match first_match(content, delim()) {
        None => trim_spec(content),
        Some(i) => {
            let rest = content.subrange(i + 3, content.len() as int);
            match first_match(rest, delim()) {
                None => Seq::empty(),
                Some(j) => trim_spec(rest.subrange(j + 3, rest.len() as int)),
            }
        },
    }
}

/// A document with no `---` delimiter has an empty frontmatter block,
/// which parses to the empty mapping, and keeps its whole trimmed text as
/// the body.
pub proof fn lemma_no_delimiter(content: Seq<char>)
    requires
        !contains_sub(content, delim()),
    ensures
        frontmatter_part(content) == Seq::<char>::empty(),
        body_part(content) == trim_spec(content),
{
    lemma_contains_iff_first_match(content, delim());
}

/// Cuts a document into its trimmed frontmatter block and trimmed body.
pub fn split_frontmatter<'a>(content: &'a str) -> (r: (&'a str, &'a str))
    ensures
        r.0@ == frontmatter_part(content@),
        r.1@ == body_part(content@),
{
    proof {
        reveal_strlit("---");
        reveal_strlit("");
        assert("---"@ =~= delim());
        assert(""@ =~= Seq::<char>::empty());
    }
    let n: usize = content.unicode_len();
    match find_str(content, "---") {
        None => ("", trim_str(content)),
        Some(i) => {
            proof {
                lemma_first_match_is_match(content@, delim(), 0);
            }
            let rest = content.substring_char(i + 3, n);
            let m: usize = rest.unicode_len();
            match find_str(rest, "---") {
                None => (trim_str(rest), ""),
                Some(j) => {
                    proof {
                        lemma_first_match_is_match(rest@, delim(), 0);
                    }
                    let fm = rest.substring_char(0, j);
                    let body = rest.substring_char(j + 3, m);
                    (trim_str(fm), trim_str(body))
                },
            }
        },
    }
}

/// Parses a Markdown document: cuts it at the `---` delimiters and parses
/// the frontmatter block as a YAML mapping. Returns the trimmed body and
/// the mapping; fails exactly where the block is not a YAML mapping.
pub fn parse_frontmatter(content: &str) -> (r: Result<(String, serde_yaml::Mapping), MarkdownError>)
    ensures
        r is Ok <==> yaml_mapping_of(frontmatter_part(content@)) is Some,
        r matches Ok((body, m)) ==> body@ == body_part(content@) && yaml_mapping_of(
            frontmatter_part(content@),
        ) == Some(m),
        frontmatter_part(content@).len() == 0 ==> r is Ok && title_value_of(r->Ok_0.1) is None,
        r matches Err(e) ==> e is Parse,
{
    let (fm, body) = split_frontmatter(content);
    match parse_yaml_mapping(fm) {
        Ok(m) => Ok((body.to_owned(), m)),
        Err(e) => Err(MarkdownError::Parse(e)),
    }
}

/// Parses the whole text of an external configuration file as a YAML
/// mapping with arbitrary keys. No merge happens here: the mapping is
/// handed unchanged to the rewrite step, which resolves the title from
/// the document's own frontmatter.
pub fn parse_config_file(content: &str) -> (r: Result<serde_yaml::Mapping, MarkdownError>)
    ensures
        r is Ok <==> yaml_mapping_of(content@) is Some,
        r matches Ok(m) ==> yaml_mapping_of(content@) == Some(m),
        r matches Err(e) ==> e is Parse,
{
    match parse_yaml_mapping(content) {
        Ok(m) => Ok(m),
        Err(e) => Err(MarkdownError::Parse(e)),
    }
}

} // verus!
