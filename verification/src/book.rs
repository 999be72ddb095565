//! The build of one book, laid out as steps.
//!
//! A book is built once in its own language and once in every language it
//! is translated into. Each build carries the language picker, which is
//! written into the book's theme before the first build and taken away
//! after the last.
//!
//! The steps are carried out in order on the loaded book, and given up at
//! the first that fails.

use crate::error::BuildError;
use crate::paths::{join_path, joined};
use crate::picker::{rendered, LANG_PICKER_CSS, LANG_PICKER_JS, PICKER_TEMPLATE};
use crate::plan::{BookBuild, BuildView};
use crate::registry::Language;
use vstd::prelude::*;

verus! {

/// The name of the picker's script in the theme directory.
pub const PICKER_JS_FILE: &'static str = "language-picker.js";

/// The name of the picker's style sheet in the theme directory.
pub const PICKER_CSS_FILE: &'static str = "language-picker.css";

/// A step of a book's build, as contracts speak of it.
pub enum BookStepView {
    SetBuildDir { path: Seq<char> },
    CreateThemeDir,
    WriteThemeFile { name: Seq<char>, contents: Seq<char> },
    Configure { po_dir: Seq<char> },
    Build,
    Translate,
    SetLanguage { language: Seq<char> },
    RemoveThemeFile { name: Seq<char> },
}

/// One step of a book's build, to be carried out on the loaded book.
#[derive(Debug)]
pub enum BookStep {
    /// Build into the directory `path` from now on.
    SetBuildDir { path: String },
    /// Create the book's theme directory.
    CreateThemeDir,
    /// Write `contents` to the file `name` in the theme directory.
    WriteThemeFile { name: String, contents: String },
    /// Make the book's configuration ready for builds with the catalogs in
    /// `po_dir`: see [`crate::config::configure`].
    Configure { po_dir: String },
    /// Build the book as it is now configured.
    Build,
    /// Translate the book by its catalogs from now on.
    Translate,
    /// Let the book's language be `language` from now on.
    SetLanguage { language: String },
    /// Remove the file `name` from the theme directory.
    RemoveThemeFile { name: String },
}

impl View for BookStep {
    type V = BookStepView;

    open spec fn view(&self) -> BookStepView {
        match self {
            BookStep::SetBuildDir { path } => BookStepView::SetBuildDir { path: path@ },
            BookStep::CreateThemeDir => BookStepView::CreateThemeDir,
            BookStep::WriteThemeFile { name, contents } => BookStepView::WriteThemeFile {
                name: name@,
                contents: contents@,
            },
            BookStep::Configure { po_dir } => BookStepView::Configure { po_dir: po_dir@ },
            BookStep::Build => BookStepView::Build,
            BookStep::Translate => BookStepView::Translate,
            BookStep::SetLanguage { language } => BookStepView::SetLanguage { language: language@ },
            BookStep::RemoveThemeFile { name } => BookStepView::RemoveThemeFile { name: name@ },
        }
    }
}

/// What a list of steps says.
pub open spec fn book_plan_of(steps: Seq<BookStep>) -> Seq<BookStepView> {
    steps.map_values(|s: BookStep| s@)
}

/// The steps that build a book in the one language `lang`, into the
/// directory of that language's identifier under `dst_path`.
pub open spec fn language_build(dst_path: Seq<char>, lang: Language) -> Seq<BookStepView> {
    seq![
        BookStepView::SetBuildDir { path: joined(dst_path, lang.id) },
        BookStepView::SetLanguage { language: lang.id },
        BookStepView::Build,
    ]
}

/// The steps that build a book in each of `langs`, one language after the
/// other.
pub open spec fn language_builds(dst_path: Seq<char>, langs: Seq<Language>) -> Seq<BookStepView>
    decreases langs.len(),
{
    if langs.len() == 0 {
        Seq::empty()
    } else {
        language_builds(dst_path, langs.drop_last()) + language_build(dst_path, langs.last())
    }
}

/// The steps that come before the builds in other languages: the theme
/// directory is made if it is not there, the picker is written into it, the
/// configuration is made ready, and the book is built in its own language.
pub open spec fn first_build(b: BuildView, theme_dir_exists: bool, script: Seq<char>) -> Seq<
    BookStepView,
> {
    seq![BookStepView::SetBuildDir { path: b.dst_path }] + (if theme_dir_exists {
        Seq::empty()
    } else {
        seq![BookStepView::CreateThemeDir]
    }) + seq![
        BookStepView::WriteThemeFile { name: PICKER_JS_FILE@, contents: script },
        BookStepView::WriteThemeFile { name: PICKER_CSS_FILE@, contents: LANG_PICKER_CSS@ },
        BookStepView::Configure { po_dir: b.po_path },
        BookStepView::Build,
        BookStepView::Translate,
    ]
}

/// The steps that take the picker away again.
pub open spec fn clean_up() -> Seq<BookStepView> {
    seq![
        BookStepView::RemoveThemeFile { name: PICKER_JS_FILE@ },
        BookStepView::RemoveThemeFile { name: PICKER_CSS_FILE@ },
    ]
}

/// All steps of the build `b`, with `script` as the picker's script.
pub open spec fn book_plan(b: BuildView, theme_dir_exists: bool, script: Seq<char>) -> Seq<
    BookStepView,
> {
    first_build(b, theme_dir_exists, script) + language_builds(b.dst_path, b.translations)
        + clean_up()
}

/// One more language means one more build, behind the others.
pub proof fn lemma_language_builds_push(dst_path: Seq<char>, langs: Seq<Language>, lang: Language)
    ensures
        language_builds(dst_path, langs.push(lang)) == language_builds(dst_path, langs)
            + language_build(dst_path, lang),
{
    assert(langs.push(lang).drop_last() =~= langs);
}

impl BookBuild {
    /// The steps of this build, with `script` as the picker's script.
    ///
    /// `theme_dir_exists` says whether the book's theme directory is there.
    pub fn steps_with(&self, theme_dir_exists: bool, script: String) -> (r: Vec<BookStep>)
        ensures
            book_plan_of(r@) == book_plan(self@, theme_dir_exists, script@),
    {
        let mut steps: Vec<BookStep> = Vec::new();
        steps.push(BookStep::SetBuildDir { path: self.dst_path.clone() });
        if !theme_dir_exists {
            steps.push(BookStep::CreateThemeDir);
        }
        steps.push(
            BookStep::WriteThemeFile { name: PICKER_JS_FILE.to_owned(), contents: script },
        );
        steps.push(
            BookStep::WriteThemeFile {
                name: PICKER_CSS_FILE.to_owned(),
                contents: LANG_PICKER_CSS.to_owned(),
            },
        );
        steps.push(BookStep::Configure { po_dir: self.po_path.clone() });
        steps.push(BookStep::Build);
        steps.push(BookStep::Translate);
        let ghost first = first_build(self@, theme_dir_exists, script@);
        let ghost langs = self@.translations;
        proof {
            assert(book_plan_of(steps@) =~= first);
            assert(langs.take(0) =~= Seq::<Language>::empty());
        }
        let mut i: usize = 0;
        while i < self.book.translations.len()
            invariant
                i <= self.book.translations.len(),
                langs == self@.translations,
                book_plan_of(steps@) == first + language_builds(self@.dst_path, langs.take(i as int)),
            decreases self.book.translations.len() - i,
        {
            let lang = &self.book.translations[i];
            let ghost before = book_plan_of(steps@);
            steps.push(BookStep::SetBuildDir { path: join_path(self.dst_path.as_str(), lang.id.as_str()) });
            steps.push(BookStep::SetLanguage { language: lang.id.clone() });
            steps.push(BookStep::Build);
            proof {
                assert(langs.take(i + 1) =~= langs.take(i as int).push(lang@));
                lemma_language_builds_push(self@.dst_path, langs.take(i as int), lang@);
                assert(book_plan_of(steps@) =~= before + language_build(self@.dst_path, lang@));
            }
            i += 1;
        }
        let ghost before = book_plan_of(steps@);
        steps.push(BookStep::RemoveThemeFile { name: PICKER_JS_FILE.to_owned() });
        steps.push(BookStep::RemoveThemeFile { name: PICKER_CSS_FILE.to_owned() });
        proof {
            assert(langs.take(i as int) =~= langs);
            assert(book_plan_of(steps@) =~= before + clean_up());
        }
        steps
    }

    /// The steps of this build.
    ///
    /// `theme_dir_exists` says whether the book's theme directory is there.
    /// The picker's script is rendered for the book's languages first, and
    /// the steps are laid out with it.
    pub fn steps(&self, theme_dir_exists: bool) -> (r: Result<Vec<BookStep>, BuildError>)
        ensures
            r matches Ok(steps) && book_plan_of(steps@) == book_plan(
                self@,
                theme_dir_exists,
                rendered(PICKER_TEMPLATE@, LANG_PICKER_JS@, self@.translations),
            ),
    {
        match self.book.picker_script() {
            Ok(script) => Ok(self.steps_with(theme_dir_exists, script)),
            Err(e) => Err(e),
        }
    }
}

} // verus!
