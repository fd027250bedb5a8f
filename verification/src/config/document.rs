//! Which part of a configuration document holds the daemon's settings.

use vstd::prelude::*;

use crate::config::UNIFIED_SECTION;
use crate::error::ConfigError;
use crate::text::same_text;
use crate::text::texts;

verus! {

/// Where a document keeps the daemon's settings.
#[derive(Debug, Clone, Copy, PartialEq, Eq, Structural)]
pub enum DocumentLayout {
    /// Under the daemon's own table, beside the sections of other programs, which are ignored.
    Unified,
    /// At the top level: the whole document is the daemon's.
    Standalone,
}

/// The top-level keys of a TOML document, or what the parser says is wrong with it.
pub uninterp spec fn toml_keys(text: Seq<char>) -> Result<Seq<Seq<char>>, Seq<char>>;

/// The words of a list of keys, or of what is wrong.
pub open spec fn keys_of(keys: Result<Vec<String>, String>) -> Result<Seq<Seq<char>>, Seq<char>> {
    match keys {
        Ok(names) => Ok(texts(names@)),
        Err(why) => Err(why@),
    }
}

/// `toml::from_str` into a `toml::Value` either gives the document, whose top-level keys are
/// handed out, or the words of its error. Which keys a text has is not spelled out: it is the
/// TOML grammar.
#[verifier::external_body]
fn top_level_keys(text: &str) -> (r: Result<Vec<String>, String>)
    ensures
        keys_of(r) == toml_keys(text@),
{
    match toml::from_str::<toml::Value>(text) {
        Ok(toml::Value::Table(table)) => Ok(table.keys().cloned().collect()),
        Ok(_) => Ok(Vec::new()),
        Err(error) => Err(error.to_string()),
    }
}

/// The layout of a document with the given top-level keys: unified where the daemon's own table
/// is among them, standalone where it is not.
pub open spec fn layout_of(keys: Result<Seq<Seq<char>>, Seq<char>>) -> Result<
    DocumentLayout,
    Seq<char>,
> {
    match keys {
        Ok(names) => Ok(
            if names.contains(UNIFIED_SECTION@) {
                DocumentLayout::Unified
            } else {
                DocumentLayout::Standalone
            },
        ),
        Err(why) => Err(why),
    }
}

/// A layout, or the words of a parse error.
pub open spec fn layout_found(
    r: Result<DocumentLayout, ConfigError>,
    expected: Result<DocumentLayout, Seq<char>>,
) -> bool {
    match (r, expected) {
        (Ok(layout), Ok(wanted)) => layout == wanted,
        (Err(ConfigError::Parse(why)), Err(wanted)) => why@ == wanted,
        _ => false,
    }
}

/// Decide the layout from the top-level keys of a document.
pub fn layout_from_keys(keys: Result<Vec<String>, String>) -> (r: Result<
    DocumentLayout,
    ConfigError,
>)
    ensures
        layout_found(r, layout_of(keys_of(keys))),
{
    match keys {
        Err(why) => Err(ConfigError::Parse(why)),
        Ok(names) => {
            let mut i: usize = 0;
            while i < names.len()
                invariant
                    i <= names.len(),
                    keys == Ok::<Vec<String>, String>(names),
                    forall|j: int| 0 <= j < i ==> (#[trigger] names@[j])@ != UNIFIED_SECTION@,
                decreases names.len() - i,
            {
                if same_text(names[i].as_str(), UNIFIED_SECTION) {
                    proof {
                        assert(texts(names@)[i as int] == UNIFIED_SECTION@);
                    }
                    return Ok(DocumentLayout::Unified);
                }
                i += 1;
            }
            proof {
                assert forall|j: int| 0 <= j < texts(names@).len() implies (#[trigger] texts(
                    names@,
                )[j]) != UNIFIED_SECTION@ by {
                    assert(texts(names@)[j] == names@[j]@);
                }
            }
            Ok(DocumentLayout::Standalone)
        },
    }
}

/// Decide where a TOML document keeps the daemon's settings. A document that does not parse is
/// refused with the parser's words.
pub fn document_layout(text: &str) -> (r: Result<DocumentLayout, ConfigError>)
    ensures
        layout_found(r, layout_of(toml_keys(text@))),
{
    layout_from_keys(top_level_keys(text))
}

/// What a migration to a standalone file does beside writing that file.
#[derive(Debug, Clone, Copy, PartialEq, Eq, Structural)]
pub struct Migration {
    /// The file that is replaced is copied first.
    pub back_up_output: bool,
    /// The daemon's section is taken out of the source, which is copied first.
    pub remove_section: bool,
}

/// Decide what a migration does. A file that exists is replaced only where that is asked for,
/// and then only after a copy is kept; otherwise the migration is refused.
#[must_use]
pub fn plan_migration(output_exists: bool, force: bool, remove_source_section: bool) -> (r: Option<
    Migration,
>)
    ensures
        r == if output_exists && !force {
            None::<Migration>
        } else {
            Some(
                Migration {
                    back_up_output: output_exists,
                    remove_section: remove_source_section,
                },
            )
        },
{
    if output_exists && !force {
        None
    } else {
        Some(Migration { back_up_output: output_exists, remove_section: remove_source_section })
    }
}

} // verus!
