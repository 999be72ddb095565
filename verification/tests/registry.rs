use translations::registry::{Book, Translation, Translations};

fn ids(book: &Book) -> Vec<String> {
    book.translations.iter().map(|t| t.id.clone()).collect()
}

fn one(id: &str, name: &str) -> Book {
    Book { translations: vec![Translation::new(id, name)] }
}

#[test]
fn a_new_registry_is_empty() {
    let t = Translations::new("/base");
    assert_eq!(t.len(), 0);
    assert_eq!(t.base(), "/base");
    assert!(t.names().is_empty());
    assert!(t.get("book").is_none());
    assert!(t.nth(0).is_none());
}

#[test]
fn a_translation_holds_its_id_and_name() {
    let t = Translation::new("ja", "Japanese");
    assert_eq!(t.id, "ja");
    assert_eq!(t.name, "Japanese");
    let c = t.clone();
    assert_eq!(c.id, "ja");
    assert_eq!(c.name, "Japanese");
}

#[test]
fn a_book_is_cloned_with_its_languages_in_order() {
    let book = Book {
        translations: vec![Translation::new("ja", "Japanese"), Translation::new("fr", "French")],
    };
    let copy = book.clone();
    assert_eq!(ids(&copy), vec!["ja", "fr"]);
    assert_eq!(copy.translations[1].name, "French");
}

#[test]
fn registering_a_language_for_a_new_book_registers_the_book() {
    let mut t = Translations::new("/base");
    t.register("book", "ja", "Japanese");
    assert_eq!(t.len(), 1);
    assert_eq!(t.names(), vec!["book"]);
    let book = t.get("book").unwrap();
    assert_eq!(book.translations.len(), 1);
    assert_eq!(book.translations[0].id, "ja");
    assert_eq!(book.translations[0].name, "Japanese");
}

#[test]
fn registering_a_language_for_a_known_book_puts_it_last() {
    let mut t = Translations::new("/base");
    t.register("book", "ja", "Japanese");
    t.register("book", "fr", "French");
    t.register("book", "de", "German");
    assert_eq!(t.len(), 1);
    assert_eq!(ids(t.get("book").unwrap()), vec!["ja", "fr", "de"]);
}

#[test]
fn registering_the_same_language_twice_lists_it_twice() {
    let mut t = Translations::new("/base");
    t.register("book", "ja", "Japanese");
    t.register("book", "ja", "Japanese");
    assert_eq!(ids(t.get("book").unwrap()), vec!["ja", "ja"]);
}

#[test]
fn books_are_kept_in_the_order_of_their_names() {
    let mut t = Translations::new("/base");
    t.register("veryl", "ja", "Japanese");
    t.register("book", "fr", "French");
    t.register("manual", "de", "German");
    t.register("a", "it", "Italian");
    t.register("zeta", "es", "Spanish");
    assert_eq!(t.names(), vec!["a", "book", "manual", "veryl", "zeta"]);
    assert_eq!(t.len(), 5);
    let (name, book) = t.nth(2).unwrap();
    assert_eq!(name, "manual");
    assert_eq!(ids(book), vec!["de"]);
    assert!(t.nth(5).is_none());
}

#[test]
fn registering_leaves_the_other_books_alone() {
    let mut t = Translations::new("/base");
    t.register("b", "ja", "Japanese");
    t.register("a", "fr", "French");
    t.register("c", "de", "German");
    t.register("b", "it", "Italian");
    assert_eq!(ids(t.get("a").unwrap()), vec!["fr"]);
    assert_eq!(ids(t.get("b").unwrap()), vec!["ja", "it"]);
    assert_eq!(ids(t.get("c").unwrap()), vec!["de"]);
    assert_eq!(t.base(), "/base");
}

#[test]
fn inserting_a_new_book_hands_nothing_back() {
    let mut t = Translations::new("/base");
    assert!(t.insert("book", one("ja", "Japanese")).is_none());
    assert_eq!(t.names(), vec!["book"]);
    assert_eq!(ids(t.get("book").unwrap()), vec!["ja"]);
}

#[test]
fn inserting_a_known_book_replaces_it_and_hands_the_old_one_back() {
    let mut t = Translations::new("/base");
    t.insert("a", one("fr", "French"));
    t.insert("book", one("ja", "Japanese"));
    t.insert("c", one("de", "German"));
    let old = t.insert("book", Book { translations: Vec::new() }).unwrap();
    assert_eq!(ids(&old), vec!["ja"]);
    assert_eq!(t.names(), vec!["a", "book", "c"]);
    assert!(t.get("book").unwrap().translations.is_empty());
    assert_eq!(ids(t.get("a").unwrap()), vec!["fr"]);
    assert_eq!(ids(t.get("c").unwrap()), vec!["de"]);
}

#[test]
fn a_book_that_is_not_registered_is_not_found() {
    let mut t = Translations::new("/base");
    t.register("book", "ja", "Japanese");
    assert!(t.get("boo").is_none());
    assert!(t.get("books").is_none());
    assert!(t.get("").is_none());
    assert!(t.get("Book").is_none());
}

#[test]
fn the_order_of_names_is_that_of_a_sorted_map() {
    let names = ["veryl", "é", "book", "", "Zed", "a.b", "a", "日本語", "a-b", "book2"];
    let mut t = Translations::new("");
    let mut map = std::collections::BTreeMap::new();
    for n in names {
        t.register(n, "ja", "Japanese");
        map.insert(n.to_string(), ());
    }
    let expected: Vec<String> = map.keys().cloned().collect();
    assert_eq!(t.names(), expected);
}

#[test]
fn a_cloned_registry_holds_the_same_books() {
    let mut t = Translations::new("/base");
    t.register("b", "ja", "Japanese");
    t.register("a", "fr", "French");
    let mut c = t.clone();
    assert_eq!(c.base(), "/base");
    assert_eq!(c.names(), vec!["a", "b"]);
    assert_eq!(ids(c.get("b").unwrap()), vec!["ja"]);
    c.register("b", "de", "German");
    assert_eq!(ids(c.get("b").unwrap()), vec!["ja", "de"]);
    assert_eq!(ids(t.get("b").unwrap()), vec!["ja"]);
}
