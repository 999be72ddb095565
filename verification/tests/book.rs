use std::path::Path;
use translations::book::{BookStep, PICKER_CSS_FILE, PICKER_JS_FILE};
use translations::picker::LANG_PICKER_CSS;
use translations::plan::BookBuild;
use translations::registry::{Book, Translation};

fn build(ids: &[(&str, &str)]) -> BookBuild {
    BookBuild {
        name: "book".to_string(),
        src_path: "src".to_string(),
        dst_path: "dst".to_string(),
        po_path: "po".to_string(),
        book: Book { translations: ids.iter().map(|(i, n)| Translation::new(i, n)).collect() },
    }
}

fn under(dir: &str, part: &str) -> String {
    Path::new(dir).join(part).to_string_lossy().into_owned()
}

fn show(steps: &[BookStep]) -> Vec<String> {
    steps
        .iter()
        .map(|s| match s {
            BookStep::SetBuildDir { path } => format!("dir {path}"),
            BookStep::CreateThemeDir => "mkdir".to_string(),
            BookStep::WriteThemeFile { name, contents } => format!("write {name} {contents}"),
            BookStep::Configure { po_dir } => format!("configure {po_dir}"),
            BookStep::Build => "build".to_string(),
            BookStep::Translate => "translate".to_string(),
            BookStep::SetLanguage { language } => format!("language {language}"),
            BookStep::RemoveThemeFile { name } => format!("remove {name}"),
        })
        .collect()
}

#[test]
fn the_picker_files_are_named() {
    assert_eq!(PICKER_JS_FILE, "language-picker.js");
    assert_eq!(PICKER_CSS_FILE, "language-picker.css");
}

#[test]
fn a_book_without_translations_is_built_once() {
    let steps = build(&[]).steps_with(true, "SCRIPT".to_string());
    assert_eq!(
        show(&steps),
        vec![
            "dir dst".to_string(),
            "write language-picker.js SCRIPT".to_string(),
            format!("write language-picker.css {LANG_PICKER_CSS}"),
            "configure po".to_string(),
            "build".to_string(),
            "translate".to_string(),
            "remove language-picker.js".to_string(),
            "remove language-picker.css".to_string(),
        ]
    );
}

#[test]
fn a_missing_theme_directory_is_made_before_anything_is_written() {
    let steps = build(&[]).steps_with(false, "SCRIPT".to_string());
    let shown = show(&steps);
    assert_eq!(shown.len(), 9);
    assert_eq!(shown[0], "dir dst");
    assert_eq!(shown[1], "mkdir");
    assert_eq!(shown[2], "write language-picker.js SCRIPT");
}

#[test]
fn every_translation_is_built_into_its_own_directory_in_order() {
    let steps = build(&[("ja", "Japanese"), ("fr", "French")]).steps_with(true, "S".to_string());
    assert_eq!(
        show(&steps),
        vec![
            "dir dst".to_string(),
            "write language-picker.js S".to_string(),
            format!("write language-picker.css {LANG_PICKER_CSS}"),
            "configure po".to_string(),
            "build".to_string(),
            "translate".to_string(),
            format!("dir {}", under("dst", "ja")),
            "language ja".to_string(),
            "build".to_string(),
            format!("dir {}", under("dst", "fr")),
            "language fr".to_string(),
            "build".to_string(),
            "remove language-picker.js".to_string(),
            "remove language-picker.css".to_string(),
        ]
    );
}

#[test]
fn the_steps_carry_the_rendered_picker() {
    let b = build(&[("ja", "Japanese")]);
    let script = b.book.picker_script().unwrap();
    let steps = b.steps(false).unwrap();
    let with = b.steps_with(false, script.clone());
    assert_eq!(show(&steps), show(&with));
    assert_eq!(steps.len(), 12);
    match &steps[2] {
        BookStep::WriteThemeFile { name, contents } => {
            assert_eq!(name, "language-picker.js");
            assert_eq!(contents, &script);
            assert!(contents.contains("<a id=\"ja\">Japanese</a>"));
        }
        other => panic!("not a file to write: {other:?}"),
    }
}

#[test]
fn there_are_three_steps_for_each_translation() {
    for n in 0..5 {
        let langs: Vec<(String, String)> =
            (0..n).map(|i| (format!("l{i}"), format!("Language {i}"))).collect();
        let refs: Vec<(&str, &str)> = langs.iter().map(|(a, b)| (a.as_str(), b.as_str())).collect();
        assert_eq!(build(&refs).steps_with(true, String::new()).len(), 8 + 3 * n);
        assert_eq!(build(&refs).steps_with(false, String::new()).len(), 9 + 3 * n);
    }
}
