use translations::command::Invocation;
use translations::error::CatalogError;
use translations::plan::{Step, registry_file};
use translations::registry::Translations;

fn run(step: &Step) -> &Invocation {
    match step {
        Step::Run(c) => c,
        other => panic!("not a program to run: {other:?}"),
    }
}

fn sample() -> Translations {
    let mut t = Translations::new("base");
    t.register("veryl", "ja", "Japanese");
    t.register("book", "fr", "French");
    t.register("veryl", "de", "German");
    t
}

#[test]
fn building_nothing_still_updates_the_sources() {
    let t = Translations::new("base");
    let steps = t.build();
    assert_eq!(steps.len(), 1);
    let c = run(&steps[0]);
    assert_eq!(c.program, "git");
    assert_eq!(c.args, vec!["submodule", "update", "--init", "--recursive"]);
}

#[test]
fn books_are_built_in_the_order_of_their_names() {
    let t = sample();
    let steps = t.build();
    assert_eq!(steps.len(), 3);
    assert_eq!(run(&steps[0]).program, "git");
    match &steps[1] {
        Step::BuildBook(b) => {
            assert_eq!(b.name, "book");
            assert_eq!(b.src_path, t.src_path("book"));
            assert_eq!(b.dst_path, "../../build/book");
            assert_eq!(b.po_path, t.po_path("book"));
            assert_eq!(b.book.translations.len(), 1);
            assert_eq!(b.book.translations[0].id, "fr");
            assert_eq!(b.book.translations[0].name, "French");
        }
        other => panic!("not a build: {other:?}"),
    }
    match &steps[2] {
        Step::BuildBook(b) => {
            assert_eq!(b.name, "veryl");
            assert_eq!(b.src_path, t.src_path("veryl"));
            assert_eq!(b.dst_path, "../../build/veryl");
            assert_eq!(b.po_path, t.po_path("veryl"));
            let ids: Vec<&str> = b.book.translations.iter().map(|l| l.id.as_str()).collect();
            assert_eq!(ids, vec!["ja", "de"]);
        }
        other => panic!("not a build: {other:?}"),
    }
}

#[test]
fn messages_are_extracted_after_the_sources_are_updated() {
    let t = sample();
    let steps = t.extract("veryl");
    assert_eq!(steps.len(), 2);
    let c = run(&steps[0]);
    assert_eq!(c.program, "git");
    assert_eq!(c.args, vec!["submodule", "update", "--init", "--recursive"]);
    match &steps[1] {
        Step::Extract { src_path, po_path } => {
            assert_eq!(src_path, &t.src_path("veryl"));
            assert_eq!(po_path, &t.po_path("veryl"));
        }
        other => panic!("not an extraction: {other:?}"),
    }
}

#[test]
fn adding_a_language_starts_its_catalog_then_counts_it_then_saves_the_registry() {
    let mut t = sample();
    let steps = t.add("book", "ja", "Japanese", false).unwrap();
    assert_eq!(steps.len(), 3);
    let c = run(&steps[0]);
    assert_eq!(c.program, "msginit");
    assert_eq!(
        c.args,
        vec![
            "--no-translator".to_string(),
            "-i".to_string(),
            t.template_path("book"),
            "-l".to_string(),
            "ja".to_string(),
            "-o".to_string(),
            t.catalog_path("book", "ja"),
        ]
    );
    match &steps[1] {
        Step::Register { book, lang_id, lang_name } => {
            assert_eq!(book, "book");
            assert_eq!(lang_id, "ja");
            assert_eq!(lang_name, "Japanese");
        }
        other => panic!("not a language to count: {other:?}"),
    }
    match &steps[2] {
        Step::Save { path } => assert_eq!(path, &registry_file("base")),
        other => panic!("not a save: {other:?}"),
    }
    let ids: Vec<&str> =
        t.get("book").unwrap().translations.iter().map(|l| l.id.as_str()).collect();
    assert_eq!(ids, vec!["fr", "ja"]);
    assert_eq!(t.get("book").unwrap().translations[1].name, "Japanese");
    assert_eq!(t.names(), vec!["book", "veryl"]);
}

#[test]
fn a_language_added_to_a_copy_counts_when_the_copy_is_taken_over() {
    let mine = sample();
    let mut next = mine.clone();
    let steps = next.add("book", "ja", "Japanese", false).unwrap();
    assert!(matches!(steps[0], Step::Run(_)));
    assert_eq!(mine.get("book").unwrap().translations.len(), 1);
    assert!(matches!(steps[1], Step::Register { .. }));
    let mine = next;
    assert_eq!(mine.get("book").unwrap().translations.len(), 2);
    assert!(matches!(steps[2], Step::Save { .. }));
}

#[test]
fn adding_a_language_to_a_new_book_registers_the_book() {
    let mut t = sample();
    let steps = t.add("manual", "ja", "Japanese", false).unwrap();
    assert_eq!(steps.len(), 3);
    assert_eq!(t.names(), vec!["book", "manual", "veryl"]);
    let book = t.get("manual").unwrap();
    assert_eq!(book.translations.len(), 1);
    assert_eq!(book.translations[0].id, "ja");
    assert_eq!(book.translations[0].name, "Japanese");
}

#[test]
fn adding_a_language_whose_catalog_exists_is_refused() {
    let mut t = sample();
    let e = t.add("book", "ja", "Japanese", true).unwrap_err();
    match &e {
        CatalogError::AlreadyExists { lang_id, book } => {
            assert_eq!(lang_id, "ja");
            assert_eq!(book, "book");
        }
        other => panic!("another error: {other:?}"),
    }
    assert_eq!(e.message(), "Language ja for book alreay exists");
    assert_eq!(t.names(), vec!["book", "veryl"]);
    assert_eq!(t.get("book").unwrap().translations.len(), 1);
    assert_eq!(t.get("veryl").unwrap().translations.len(), 2);
}

#[test]
fn a_refused_language_for_a_new_book_does_not_register_the_book() {
    let mut t = sample();
    assert!(t.add("manual", "ja", "Japanese", true).is_err());
    assert!(t.get("manual").is_none());
    assert_eq!(t.len(), 2);
}

#[test]
fn updating_merges_the_template_into_the_catalog() {
    let t = sample();
    let steps = t.update("veryl", "ja", true).unwrap();
    assert_eq!(steps.len(), 1);
    let c = run(&steps[0]);
    assert_eq!(c.program, "msgmerge");
    assert_eq!(
        c.args,
        vec!["--update".to_string(), t.catalog_path("veryl", "ja"), t.template_path("veryl")]
    );
}

#[test]
fn updating_a_catalog_that_is_not_there_is_refused() {
    let t = sample();
    let e = t.update("veryl", "it", false).unwrap_err();
    match &e {
        CatalogError::NotFound { lang_id, book } => {
            assert_eq!(lang_id, "it");
            assert_eq!(book, "veryl");
        }
        other => panic!("another error: {other:?}"),
    }
    assert_eq!(e.message(), "Language it for veryl is not found");
}

#[test]
fn updating_asks_only_for_the_catalog_not_for_the_registry() {
    let t = Translations::new("base");
    let steps = t.update("unknown", "ja", true).unwrap();
    assert_eq!(run(&steps[0]).args[1], t.catalog_path("unknown", "ja"));
}

#[test]
fn messages_name_the_language_and_the_book() {
    let e = CatalogError::AlreadyExists { lang_id: "zh-CN".to_string(), book: "my book".to_string() };
    assert_eq!(e.message(), "Language zh-CN for my book alreay exists");
    let e = CatalogError::NotFound { lang_id: String::new(), book: String::new() };
    assert_eq!(e.message(), "Language  for  is not found");
}
