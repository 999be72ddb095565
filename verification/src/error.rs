//! What can go wrong.

use crate::text::append;
use vstd::prelude::*;

verus! {

#[verifier::external_type_specification]
#[verifier::external_body]
pub struct ExTemplateError(tera::Error);

#[verifier::external_type_specification]
#[verifier::external_body]
pub struct ExConfigError(anyhow::Error);

/// Why a catalog cannot be started or brought up to date.
#[derive(Debug)]
pub enum CatalogError {
    /// A catalog that was to be started is there already.
    AlreadyExists { lang_id: String, book: String },
    /// A catalog that was to be brought up to date is not there.
    NotFound { lang_id: String, book: String },
}

/// The message that tells of an existing catalog.
pub open spec fn already_exists_message(lang_id: Seq<char>, book: Seq<char>) -> Seq<char> {
    "Language "@ + lang_id + " for "@ + book + " alreay exists"@
}

/// The message that tells of a missing catalog.
pub open spec fn not_found_message(lang_id: Seq<char>, book: Seq<char>) -> Seq<char> {
    "Language "@ + lang_id + " for "@ + book + " is not found"@
}

impl CatalogError {
    /// The error in words.
    pub fn message(&self) -> (r: String)
        ensures
            self matches CatalogError::AlreadyExists { lang_id, book } ==> r@
                == already_exists_message(lang_id@, book@),
            self matches CatalogError::NotFound { lang_id, book } ==> r@ == not_found_message(
                lang_id@,
                book@,
            ),
    {
        match self {
            CatalogError::AlreadyExists { lang_id, book } => {
                let r = append("Language ", lang_id.as_str());
                let r = append(r.as_str(), " for ");
                let r = append(r.as_str(), book.as_str());
                append(r.as_str(), " alreay exists")
            },
            CatalogError::NotFound { lang_id, book } => {
                let r = append("Language ", lang_id.as_str());
                let r = append(r.as_str(), " for ");
                let r = append(r.as_str(), book.as_str());
                append(r.as_str(), " is not found")
            },
        }
    }
}

/// Why a book cannot be built.
#[derive(Debug)]
pub enum BuildError {
    /// The book's configuration holds, under `key`, something that is no
    /// list, where the build has a file to add to a list.
    NotAList { key: String },
    /// The template engine reported an error while it rendered the language
    /// picker. For the picker's own template it has no cause to; the error
    /// is passed on all the same, should one ever come.
    Template(tera::Error),
    /// The book's configuration reported an error while it took a setting.
    /// For the texts that a build sets it has no cause to; the error is
    /// passed on all the same, should one ever come.
    Config(anyhow::Error),
}

} // verus!
