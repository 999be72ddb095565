//! The language picker: a script and a style sheet that each built book
//! carries, and that let a reader change from one language to another.

use crate::error::BuildError;
use crate::registry::{Book, Language, Translation};
use std::collections::BTreeMap;
use tera::{Context, Tera};
use vstd::prelude::*;

verus! {

/// The picker's script, as a template: it lists English and, through
/// `langs`, every language that the book is translated into.
pub const LANG_PICKER_JS: &'static str = r#"
const right_buttons = document.getElementsByClassName('right-buttons')[0];
const language_toggle = `
<button id="language-toggle" class="icon-button" type="button"
        title="Change language" aria-label="Change language"
        aria-haspopup="true" aria-expanded="false"
        aria-controls="language-list">
    <i class="fa fa-globe"></i>
</button>
<ul id="language-list" class="theme-popup" aria-label="Languages" role="menu">
  <li role="none"><button role="menuitem" class="theme">
      <a id="en">English</a>
  </button></li>
  {% for lang in langs %}
  <li role="none"><button role="menuitem" class="theme">
      <a id="{{ lang.id }}">{{ lang.name }}</a>
  </button></li>
  {% endfor %}
</ul>
`;
right_buttons.insertAdjacentHTML('afterbegin', language_toggle);

let langToggle = document.getElementById("language-toggle");
let langList = document.getElementById("language-list");
langToggle.addEventListener("click", (event) => {
    langList.style.display = langList.style.display == "block" ? "none" : "block";
});
let lang = document.documentElement.lang;
let selectedLang = document.getElementById(lang);
if (selectedLang) {
    selectedLang.parentNode.classList.add("theme-selected");
}

// The path to the root, taking the current
// language into account.
var full_path_to_root;
if (lang == "en") {
    full_path_to_root = `${path_to_root}`;
} else {
    full_path_to_root = `${path_to_root}../`;
}
let components = (path_to_root.match(/\//g) ?? []).length + 1;
let path = window.location.pathname.split('/').slice(-components).join('/');
for (let lang of langList.querySelectorAll("a")) {
    if (lang.id == "en") {
        lang.href = `${full_path_to_root}${path}`;
    } else {
        lang.href = `${full_path_to_root}${lang.id}/${path}`;
    }
}
"#;

/// The picker's style sheet.
pub const LANG_PICKER_CSS: &'static str = r#"
#language-list {
  left: auto;
  right: 10px;
}

[dir="rtl"] #language-list {
  left: 10px;
  right: auto;
}

#language-list a {
  color: inherit;
}
"#;

/// The name under which the script's template is rendered. It ends in none
/// of the suffixes for which the template engine escapes what it fills in.
pub const PICKER_TEMPLATE: &'static str = "lang-picker-js";

/// What the template engine makes of the template `template`, held under
/// `name`, when `langs` stands for the languages `langs`, each with its `id`
/// and `name`.
pub uninterp spec fn rendered(name: Seq<char>, template: Seq<char>, langs: Seq<Language>) -> Seq<char>;

/// Renders the picker's script for `langs`.
///
/// Trusted: the body sets up a fresh `Tera` with the one template
/// (`Tera::add_raw_template`), a `Context` in which `langs` is the list of
/// the languages, each an object with the fields `id` and `name`
/// (`Context::insert`), and calls `Tera::render`. The contract is stated of
/// the picker's template only, which calls none of the engine's functions
/// that read the clock, the environment or a random source: for it, what is
/// rendered depends on the arguments alone, and [`rendered`] names it.
/// It also claims that the call succeeds. The template parses, and it has
/// no parent, block or macro for `add_raw_template` to miss; the rows are
/// maps from text to text, which `insert` can always take; and rendering
/// walks the one list and fills in two fields that every row has.
#[verifier::external_body]
fn render(name: &str, template: &str, langs: &Vec<Translation>) -> (r: Result<String, tera::Error>)
    requires
        template@ == LANG_PICKER_JS@,
    ensures
        r is Ok,
        r matches Ok(s) ==> s@ == rendered(name@, template@, langs@.map_values(|t: Translation| t@)),
{
    let mut tera = Tera::default();
    tera.add_raw_template(name, template)?;
    let rows: Vec<BTreeMap<&str, &str>> = langs
        .iter()
        .map(|l| BTreeMap::from([("id", l.id.as_str()), ("name", l.name.as_str())]))
        .collect();
    let mut context = Context::new();
    context.insert("langs", &rows);
    tera.render(name, &context)
}

impl Book {
    /// The picker's script for this book's languages.
    ///
    /// Rendering the picker's own template does not fail. Should the
    /// template engine report an error all the same, it is passed on as
    /// `Template` and no script is made up in its place.
    pub fn picker_script(&self) -> (r: Result<String, BuildError>)
        ensures
            r matches Ok(s) && s@ == rendered(PICKER_TEMPLATE@, LANG_PICKER_JS@, self@),
    {
        match render(PICKER_TEMPLATE, LANG_PICKER_JS, &self.translations) {
            Ok(s) => Ok(s),
            Err(e) => Err(BuildError::Template(e)),
        }
    }
}

} // verus!
