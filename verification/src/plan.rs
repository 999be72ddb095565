//! Workflows, laid out as the steps that a caller carries out in turn.
//!
//! Building, adding a language and bringing a catalog up to date all touch
//! the disk and run other programs. The library does neither. It decides
//! what is to be done, in which order and on which paths, and hands that
//! out as a list; whoever runs the list reports back the one thing the
//! decisions depend on, whether a catalog is already there.
//!
//! A list is carried out from its first step to its last, and given up at
//! the first step that fails: no step is laid out to make up for another.

use crate::command::{
    msginit, msginit_command, msgmerge, msgmerge_command, submodule_command, update_submodule,
    CommandLine, Invocation,
};
use crate::error::CatalogError;
use crate::paths::{join_path, joined};
use crate::registry::{registered, Book, Language, Registry, Translations};
use crate::text::append;
use vstd::prelude::*;

verus! {

/// Where the sources of the book `name` lie.
pub open spec fn src_of(base: Seq<char>, name: Seq<char>) -> Seq<char> {
    joined(joined(base, "repos"@), name)
}

/// Where the catalogs of the book `name` lie.
pub open spec fn po_of(base: Seq<char>, name: Seq<char>) -> Seq<char> {
    joined(joined(base, "translations"@), name)
}

/// Where the book `name` is built.
pub open spec fn dst_of(name: Seq<char>) -> Seq<char> {
    "../../build/"@ + name
}

/// The template, among the catalogs in `po_path`, from which catalogs are
/// started and brought up to date.
pub open spec fn template_of(po_path: Seq<char>) -> Seq<char> {
    joined(po_path, "messages.pot"@)
}

/// The catalog of the language `lang_id` among the catalogs in `po_path`.
pub open spec fn catalog_of(po_path: Seq<char>, lang_id: Seq<char>) -> Seq<char> {
    joined(po_path, lang_id + ".po"@)
}

/// The file that keeps the registry of the books under `base`.
pub open spec fn registry_file_of(base: Seq<char>) -> Seq<char> {
    joined(base, "translations.toml"@)
}

/// The build of one book, as contracts speak of it.
pub struct BuildView {
    pub name: Seq<char>,
    pub src_path: Seq<char>,
    pub dst_path: Seq<char>,
    pub po_path: Seq<char>,
    pub translations: Seq<Language>,
}

/// The build of one book: where its sources and catalogs lie, where it is
/// built, and the languages to build it in besides its own.
#[derive(Debug)]
pub struct BookBuild {
    pub name: String,
    pub src_path: String,
    pub dst_path: String,
    pub po_path: String,
    pub book: Book,
}

impl View for BookBuild {
    type V = BuildView;

    open spec fn view(&self) -> BuildView {
        BuildView {
            name: self.name@,
            src_path: self.src_path@,
            dst_path: self.dst_path@,
            po_path: self.po_path@,
            translations: self.book@,
        }
    }
}

/// The build of the book `name` of the registry `r`.
pub open spec fn build_of(r: Registry, name: Seq<char>) -> BuildView {
    BuildView {
        name,
        src_path: src_of(r.base, name),
        dst_path: dst_of(name),
        po_path: po_of(r.base, name),
        translations: r.books[name],
    }
}

/// A step, as contracts speak of it.
pub enum StepView {
    Run(CommandLine),
    Extract { src_path: Seq<char>, po_path: Seq<char> },
    BuildBook(BuildView),
    Register { book: Seq<char>, lang: Language },
    Save { path: Seq<char> },
}

/// One step of a workflow.
#[derive(Debug)]
pub enum Step {
    /// Run a program and wait for it to end.
    Run(Invocation),
    /// Extract the messages of the book at `src_path` into the template
    /// among the catalogs in `po_path`.
    Extract { src_path: String, po_path: String },
    /// Build a book, in its own language and in every translation.
    BuildBook(BookBuild),
    /// Count `lang_id`, shown as `lang_name`, among the languages of `book`
    /// from here on. The registry on which the steps were laid out holds
    /// the language already; whoever kept the registry as it was before
    /// takes the new one for it now, and not earlier.
    Register { book: String, lang_id: String, lang_name: String },
    /// Write the registry to the file `path`.
    Save { path: String },
}

impl View for Step {
    type V = StepView;

    open spec fn view(&self) -> StepView {
        match self {
            Step::Run(c) => StepView::Run(c@),
            Step::Extract { src_path, po_path } => StepView::Extract {
                src_path: src_path@,
                po_path: po_path@,
            },
            Step::BuildBook(b) => StepView::BuildBook(b@),
            Step::Register { book, lang_id, lang_name } => StepView::Register {
                book: book@,
                lang: Language { id: lang_id@, name: lang_name@ },
            },
            Step::Save { path } => StepView::Save { path: path@ },
        }
    }
}

/// What a list of steps says.
pub open spec fn plan_of(steps: Seq<Step>) -> Seq<StepView> {
    steps.map_values(|s: Step| s@)
}

/// The steps that build every book of `r`: the sources are brought up to
/// date, then the books are built in the order of their names.
pub open spec fn build_plan(r: Registry) -> Seq<StepView> {
    seq![StepView::Run(submodule_command())] + r.order.map_values(
        |name: Seq<char>| StepView::BuildBook(build_of(r, name)),
    )
}

/// The steps that come before a catalog of `book` is started or brought up
/// to date: the sources are brought up to date, then the book's messages
/// are extracted.
pub open spec fn extract_plan(base: Seq<char>, book: Seq<char>) -> Seq<StepView> {
    seq![
        StepView::Run(submodule_command()),
        StepView::Extract { src_path: src_of(base, book), po_path: po_of(base, book) },
    ]
}

/// The steps that add the language `lang` to `book`: the catalog is made
/// from the template, then the language is counted among those of the
/// book, then the registry is written.
pub open spec fn add_plan(base: Seq<char>, book: Seq<char>, lang: Language) -> Seq<StepView> {
    seq![
        StepView::Run(
            msginit_command(
                template_of(po_of(base, book)),
                lang.id,
                catalog_of(po_of(base, book), lang.id),
            ),
        ),
        StepView::Register { book, lang },
        StepView::Save { path: registry_file_of(base) },
    ]
}

/// The step that brings the catalog of `lang_id` for `book` up to date.
pub open spec fn update_plan(base: Seq<char>, book: Seq<char>, lang_id: Seq<char>) -> Seq<StepView> {
    seq![
        StepView::Run(
            msgmerge_command(
                catalog_of(po_of(base, book), lang_id),
                template_of(po_of(base, book)),
            ),
        ),
    ]
}

/// The file that keeps the registry of the books under `base`.
pub fn registry_file(base: &str) -> (r: String)
    ensures
        r@ == registry_file_of(base@),
{
    join_path(base, "translations.toml")
}

/// Where the book `name` is built.
pub fn dst_path(name: &str) -> (r: String)
    ensures
        r@ == dst_of(name@),
{
    append("../../build/", name)
}

impl Translations {
    /// Where the sources of the book `name` lie.
    pub fn src_path(&self, name: &str) -> (r: String)
        ensures
            r@ == src_of(self@.base, name@),
    {
        let repos = join_path(self.base(), "repos");
        join_path(repos.as_str(), name)
    }

    /// Where the catalogs of the book `name` lie.
    pub fn po_path(&self, name: &str) -> (r: String)
        ensures
            r@ == po_of(self@.base, name@),
    {
        let translations = join_path(self.base(), "translations");
        join_path(translations.as_str(), name)
    }

    /// The template from which the catalogs of `book` are started and
    /// brought up to date.
    pub fn template_path(&self, book: &str) -> (r: String)
        ensures
            r@ == template_of(po_of(self@.base, book@)),
    {
        let po_path = self.po_path(book);
        join_path(po_path.as_str(), "messages.pot")
    }

    /// The catalog of the language `lang_id` for `book`.
    pub fn catalog_path(&self, book: &str, lang_id: &str) -> (r: String)
        ensures
            r@ == catalog_of(po_of(self@.base, book@), lang_id@),
    {
        let po_path = self.po_path(book);
        let file = append(lang_id, ".po");
        join_path(po_path.as_str(), file.as_str())
    }

    /// The steps that build every book.
    pub fn build(&self) -> (r: Vec<Step>)
        ensures
            plan_of(r@) == build_plan(self@),
    {
        let mut steps: Vec<Step> = Vec::new();
        steps.push(Step::Run(update_submodule()));
        let n = self.len();
        let mut i: usize = 0;
        loop
            invariant
                n == self@.order.len(),
                i <= n,
                steps@.len() == i + 1,
                steps@[0]@ == StepView::Run(submodule_command()),
                forall|j: int|
                    1 <= j <= i ==> (#[trigger] steps@[j])@ == StepView::BuildBook(
                        build_of(self@, self@.order[j - 1]),
                    ),
            ensures
                i == self@.order.len(),
            decreases self@.order.len() - i,
        {
            match self.nth(i) {
                Some((name, book)) => {
                    let build = BookBuild {
                        name: name.to_owned(),
                        src_path: self.src_path(name),
                        dst_path: dst_path(name),
                        po_path: self.po_path(name),
                        book: book.clone(),
                    };
                    steps.push(Step::BuildBook(build));
                    i += 1;
                },
                None => {
                    break ;
                },
            }
        }
        proof {
            let plan = build_plan(self@);
            assert(plan.len() == steps@.len());
            assert forall|j: int| 0 <= j < plan.len() implies plan_of(steps@)[j] == plan[j] by {
                if j >= 1 {
                    assert(steps@[j]@ == StepView::BuildBook(build_of(self@, self@.order[j - 1])));
                }
            }
            assert(plan_of(steps@) =~= plan);
        }
        steps
    }

    /// The steps that come before a catalog of `book` is started or brought
    /// up to date. Only when they are done can it be told whether the
    /// catalog is there.
    pub fn extract(&self, book: &str) -> (r: Vec<Step>)
        ensures
            plan_of(r@) == extract_plan(self@.base, book@),
    {
        let steps = vec![
            Step::Run(update_submodule()),
            Step::Extract { src_path: self.src_path(book), po_path: self.po_path(book) },
        ];
        proof {
            assert(plan_of(steps@) =~= extract_plan(self@.base, book@));
        }
        steps
    }

    /// Adds the language `lang_id`, shown as `lang_name`, to `book`.
    ///
    /// `catalog_exists` says whether the catalog of that language is there
    /// already. If it is, nothing is added and the registry stays as it
    /// is. If it is not, the language is recorded, and the steps are
    /// handed back that start the catalog, let the language count, and
    /// write the registry.
    ///
    /// The language is recorded in this registry at once, so that the
    /// steps can be laid out in one go; the step `Register` says when it
    /// is to count. A caller for whom it must not count before the catalog
    /// is there adds it to a copy of its registry, and takes the copy for
    /// its own at that step.
    pub fn add(&mut self, book: &str, lang_id: &str, lang_name: &str, catalog_exists: bool) -> (r:
        Result<Vec<Step>, CatalogError>)
        ensures
            catalog_exists ==> {
                &&& r matches Err(CatalogError::AlreadyExists { lang_id: l, book: b })
                &&& l@ == lang_id@
                &&& b@ == book@
                &&& final(self)@ == old(self)@
            },
            !catalog_exists ==> {
                &&& r matches Ok(steps)
                &&& plan_of(steps@) == add_plan(
                    old(self)@.base,
                    book@,
                    Language { id: lang_id@, name: lang_name@ },
                )
                &&& registered(
                    old(self)@,
                    final(self)@,
                    book@,
                    Language { id: lang_id@, name: lang_name@ },
                )
            },
    {
        if catalog_exists {
            return Err(
                CatalogError::AlreadyExists { lang_id: lang_id.to_owned(), book: book.to_owned() },
            );
        }
        let template = self.template_path(book);
        let catalog = self.catalog_path(book, lang_id);
        let steps = vec![
            Step::Run(msginit(template.as_str(), lang_id, catalog.as_str())),
            Step::Register {
                book: book.to_owned(),
                lang_id: lang_id.to_owned(),
                lang_name: lang_name.to_owned(),
            },
            Step::Save { path: registry_file(self.base()) },
        ];
        proof {
            assert(plan_of(steps@) =~= add_plan(
                self@.base,
                book@,
                Language { id: lang_id@, name: lang_name@ },
            ));
        }
        self.register(book, lang_id, lang_name);
        Ok(steps)
    }

    /// Brings the catalog of the language `lang_id` for `book` up to date.
    ///
    /// `catalog_exists` says whether that catalog is there. If it is, the
    /// step that merges the template into it is handed back.
    pub fn update(&self, book: &str, lang_id: &str, catalog_exists: bool) -> (r: Result<
        Vec<Step>,
        CatalogError,
    >)
        ensures
            !catalog_exists ==> {
                &&& r matches Err(CatalogError::NotFound { lang_id: l, book: b })
                &&& l@ == lang_id@
                &&& b@ == book@
            },
            catalog_exists ==> {
                &&& r matches Ok(steps)
                &&& plan_of(steps@) == update_plan(self@.base, book@, lang_id@)
            },
    {
        if !catalog_exists {
            return Err(
                CatalogError::NotFound { lang_id: lang_id.to_owned(), book: book.to_owned() },
            );
        }
        let template = self.template_path(book);
        let catalog = self.catalog_path(book, lang_id);
        let steps = vec![Step::Run(msgmerge(catalog.as_str(), template.as_str()))];
        proof {
            assert(plan_of(steps@) =~= update_plan(self@.base, book@, lang_id@));
        }
        Ok(steps)
    }
}

} // verus!
