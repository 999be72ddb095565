use translations::picker::{LANG_PICKER_CSS, LANG_PICKER_JS};
use translations::registry::{Book, Translation};

const OPEN: &str = "{% for lang in langs %}";
const CLOSE: &str = "{% endfor %}";

fn entry(id: &str, name: &str) -> String {
    format!(
        "\n  <li role=\"none\"><button role=\"menuitem\" class=\"theme\">\n      <a id=\"{id}\">{name}</a>\n  </button></li>\n  "
    )
}

fn around() -> (&'static str, &'static str) {
    let (head, rest) = LANG_PICKER_JS.split_once(OPEN).unwrap();
    let (_, tail) = rest.split_once(CLOSE).unwrap();
    (head, tail)
}

#[test]
fn the_template_lists_the_languages_once() {
    assert_eq!(LANG_PICKER_JS.matches(OPEN).count(), 1);
    assert_eq!(LANG_PICKER_JS.matches(CLOSE).count(), 1);
    assert_eq!(LANG_PICKER_JS.matches("{{").count(), 2);
    assert!(LANG_PICKER_JS.contains("<a id=\"{{ lang.id }}\">{{ lang.name }}</a>"));
    assert!(LANG_PICKER_JS.contains("<a id=\"en\">English</a>"));
}

#[test]
fn the_style_sheet_places_the_list() {
    assert!(LANG_PICKER_CSS.starts_with("\n#language-list {\n  left: auto;\n  right: 10px;\n}\n"));
    assert!(LANG_PICKER_CSS.ends_with("#language-list a {\n  color: inherit;\n}\n"));
}

#[test]
fn a_book_without_translations_offers_english_only() {
    let book = Book { translations: Vec::new() };
    let script = book.picker_script().unwrap();
    let (head, tail) = around();
    assert_eq!(script, format!("{head}{tail}"));
    assert!(script.contains("<a id=\"en\">English</a>"));
    assert!(!script.contains("{%"));
}

#[test]
fn every_translation_gets_an_entry_in_order() {
    let book = Book {
        translations: vec![Translation::new("ja", "Japanese"), Translation::new("fr", "Français")],
    };
    let script = book.picker_script().unwrap();
    let (head, tail) = around();
    let expected = format!("{head}{}{}{tail}", entry("ja", "Japanese"), entry("fr", "Français"));
    assert_eq!(script, expected);
    assert!(!script.contains("{{"));
    assert!(!script.contains("{%"));
    assert_ne!(script, LANG_PICKER_JS);
}

#[test]
fn names_are_filled_in_as_they_are() {
    let book = Book { translations: vec![Translation::new("x-y", "A & B <C>")] };
    let script = book.picker_script().unwrap();
    assert!(script.contains("<a id=\"x-y\">A & B <C></a>"));
}

#[test]
fn the_script_keeps_what_follows_the_list() {
    let book = Book { translations: vec![Translation::new("ja", "Japanese")] };
    let script = book.picker_script().unwrap();
    assert!(script.starts_with("\nconst right_buttons = document.getElementsByClassName('right-buttons')[0];\n"));
    assert!(script.ends_with("        lang.href = `${full_path_to_root}${lang.id}/${path}`;\n    }\n}\n"));
}

#[test]
fn rendering_succeeds_whatever_the_languages_hold() {
    let odd = ["", "{{ x }}", "{% endfor %}", "\"quoted\"", "`${tick}`", "日本語", "a\nb", "</a>"];
    for id in odd {
        for name in odd {
            let book = Book { translations: vec![Translation::new(id, name)] };
            let script = book.picker_script().unwrap();
            assert!(script.contains(&format!("<a id=\"{id}\">{name}</a>")));
        }
    }
    let many = Book {
        translations: (0..200).map(|i| Translation::new(&format!("l{i}"), "x")).collect(),
    };
    assert_eq!(many.picker_script().unwrap().matches("<a id=\"l").count(), 200);
}
