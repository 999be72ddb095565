//! The settings that a build puts into a book's configuration.
//!
//! The configuration itself is mdbook's. The library reads and changes it
//! through a handful of calls, and says what it does in terms of what `get`
//! finds under each dotted key.

use crate::error::BuildError;
use mdbook::config::Config;
use toml::Value;
use vstd::prelude::*;

verus! {

#[verifier::external_type_specification]
#[verifier::external_body]
pub struct ExConfig(Config);

/// What is found under a key, as far as the library looks at it: a text,
/// a list, or something else (a number, a truth value, a date, a table).
pub enum Setting {
    Text(Seq<char>),
    List(Seq<Setting>),
    Other,
}

/// What `Config::get` finds under each dotted key for which it finds
/// anything.
pub uninterp spec fn settings(config: Config) -> Map<Seq<char>, Setting>;

/// What kind of thing a key holds.
#[derive(Clone, Copy, Debug, PartialEq, Eq)]
pub enum Shape {
    Absent,
    List,
    Other,
}

/// The kind of thing that `key` holds among `settings`.
pub open spec fn shape_of(settings: Map<Seq<char>, Setting>, key: Seq<char>) -> Shape {
    if !settings.contains_key(key) {
        Shape::Absent
    } else if settings[key] is List {
        Shape::List
    } else {
        Shape::Other
    }
}

/// The items of the list under `key`; none where there is no list.
pub open spec fn items_of(settings: Map<Seq<char>, Setting>, key: Seq<char>) -> Seq<Setting> {
    if settings.contains_key(key) && settings[key] is List {
        settings[key]->List_0
    } else {
        Seq::empty()
    }
}

/// Whether `inner` names something inside the table that `outer` names.
pub open spec fn nested(outer: Seq<char>, inner: Seq<char>) -> bool {
    &&& outer.len() < inner.len()
    &&& inner.subrange(0, outer.len() as int) == outer
    &&& inner[outer.len() as int] == '.'
}

/// Whether a change under one of the keys can show under the other: they
/// are the same key, or one names something inside the other.
pub open spec fn overlaps(a: Seq<char>, b: Seq<char>) -> bool {
    a == b || nested(a, b) || nested(b, a)
}

/// Whether `key` lies in one of the two tables, `book` and `build`, that the
/// configuration keeps apart from the rest, and that `get` does not read.
pub open spec fn reserved(key: Seq<char>) -> bool {
    ||| key.len() >= 5 && key.subrange(0, 5) == seq!['b', 'o', 'o', 'k', '.']
    ||| key.len() >= 6 && key.subrange(0, 6) == seq!['b', 'u', 'i', 'l', 'd', '.']
}

/// Whether `after` is `before` with `value` put under `key`: the key holds
/// the value, and every key that does not overlap it holds what it held.
pub open spec fn put(
    before: Map<Seq<char>, Setting>,
    after: Map<Seq<char>, Setting>,
    key: Seq<char>,
    value: Setting,
) -> bool {
    &&& after.contains_key(key)
    &&& after[key] == value
    &&& forall|k: Seq<char>|
        !overlaps(k, key) ==> {
            &&& #[trigger] after.contains_key(k) == before.contains_key(k)
            &&& before.contains_key(k) ==> after[k] == before[k]
        }
}

/// Tells what kind of thing `key` holds.
///
/// Trusted: the body calls `Config::get` and looks at the variant of what
/// comes back. The contract restates that in terms of [`settings`].
#[verifier::external_body]
fn shape_at(config: &Config, key: &str) -> (r: Shape)
    ensures
        r == shape_of(settings(*config), key@),
{
    match config.get(key) {
        None => Shape::Absent,
        Some(Value::Array(_)) => Shape::List,
        Some(_) => Shape::Other,
    }
}

/// Appends the text `item` to the list under `key`.
///
/// Trusted: the body calls `Config::get_mut` and pushes onto the array it
/// hands out. The contract claims that the list under `key` has grown by
/// the one item and that `get` finds under every other key what it found
/// before: the array is reached through tables only, which the library
/// sees as `Other` before and after, and nothing is reached through it.
#[verifier::external_body]
fn push_text(config: &mut Config, key: &str, item: &str)
    requires
        shape_of(settings(*old(config)), key@) is List,
    ensures
        settings(*final(config)) == settings(*old(config)).insert(
            key@,
            Setting::List(items_of(settings(*old(config)), key@).push(Setting::Text(item@))),
        ),
{
    if let Some(Value::Array(items)) = config.get_mut(key) {
        items.push(Value::from(item));
    }
}

/// Puts a list of the one text `item` under `key`.
///
/// Trusted: the body calls `Config::set`. The contract claims, of a key
/// outside the two reserved tables, that the call succeeds, that `key` then
/// holds the new list, and that every key that does not overlap it is
/// untouched (tables on the way to `key` are made or replaced, so keys that
/// overlap may change). `set` fails only where its value cannot be turned
/// into a `toml::Value`, and a list of texts always can.
#[verifier::external_body]
fn set_list(config: &mut Config, key: &str, item: &str) -> (r: Result<(), anyhow::Error>)
    requires
        !reserved(key@),
    ensures
        r is Ok,
        put(
            settings(*old(config)),
            settings(*final(config)),
            key@,
            Setting::List(seq![Setting::Text(item@)]),
        ),
{
    config.set(key, vec![Value::from(item)])
}

/// Puts the text `value` under `key`.
///
/// Trusted: the body calls `Config::set`; the contract claims of it what
/// that of [`set_list`] claims, a text being a `toml::Value` as it is.
#[verifier::external_body]
fn set_text(config: &mut Config, key: &str, value: &str) -> (r: Result<(), anyhow::Error>)
    requires
        !reserved(key@),
    ensures
        r is Ok,
        put(settings(*old(config)), settings(*final(config)), key@, Setting::Text(value@)),
{
    config.set(key, Value::from(value))
}

/// The key of the style sheets that a book's pages load besides their own.
pub const ADDITIONAL_CSS: &'static str = "output.html.additional-css";

/// The key of the scripts that a book's pages load besides their own.
pub const ADDITIONAL_JS: &'static str = "output.html.additional-js";

/// The key of the directory in which the gettext preprocessor looks for
/// catalogs.
pub const PO_DIR: &'static str = "preprocessor.gettext.po-dir";

/// The language picker's style sheet, as the configuration names it.
pub const PICKER_CSS: &'static str = "theme/language-picker.css";

/// The language picker's script, as the configuration names it.
pub const PICKER_JS: &'static str = "theme/language-picker.js";

/// Whether a change under one of the three keys that a build sets can show
/// under `k`.
pub open spec fn touched(k: Seq<char>) -> bool {
    overlaps(k, ADDITIONAL_CSS@) || overlaps(k, ADDITIONAL_JS@) || overlaps(k, PO_DIR@)
}

/// Whether every key that a build does not touch holds in `after` what it
/// held in `before`.
pub open spec fn rest_kept(before: Map<Seq<char>, Setting>, after: Map<Seq<char>, Setting>) -> bool {
    forall|k: Seq<char>|
        !touched(k) ==> {
            &&& #[trigger] after.contains_key(k) == before.contains_key(k)
            &&& before.contains_key(k) ==> after[k] == before[k]
        }
}

/// The list under `key` once `file` has been added to it.
pub open spec fn with_file(before: Map<Seq<char>, Setting>, key: Seq<char>, file: Seq<char>) -> Setting {
    Setting::List(items_of(before, key).push(Setting::Text(file)))
}

/// Whether `after` is `before` made ready for a build with the catalogs in
/// `po_dir`: the picker's style sheet and script are added to the lists of
/// additional files, which are started where they were not there, and the
/// gettext preprocessor is pointed at `po_dir`.
pub open spec fn configured(
    before: Map<Seq<char>, Setting>,
    after: Map<Seq<char>, Setting>,
    po_dir: Seq<char>,
) -> bool {
    &&& after.contains_key(ADDITIONAL_CSS@)
    &&& after[ADDITIONAL_CSS@] == with_file(before, ADDITIONAL_CSS@, PICKER_CSS@)
    &&& after.contains_key(ADDITIONAL_JS@)
    &&& after[ADDITIONAL_JS@] == with_file(before, ADDITIONAL_JS@, PICKER_JS@)
    &&& after.contains_key(PO_DIR@)
    &&& after[PO_DIR@] == Setting::Text(po_dir)
    &&& rest_kept(before, after)
}

/// Two keys that differ at a place that both have do not overlap.
pub proof fn lemma_apart(a: Seq<char>, b: Seq<char>, i: int)
    requires
        0 <= i < a.len(),
        i < b.len(),
        a[i] != b[i],
    ensures
        !overlaps(a, b),
        !overlaps(b, a),
{
    if nested(a, b) {
        assert(b.subrange(0, a.len() as int)[i] == b[i]);
    }
    if nested(b, a) {
        assert(a.subrange(0, b.len() as int)[i] == a[i]);
    }
}

/// Putting a value under a key leaves alone what lies under a key that
/// does not overlap it.
pub proof fn lemma_put_keeps(
    before: Map<Seq<char>, Setting>,
    after: Map<Seq<char>, Setting>,
    key: Seq<char>,
    value: Setting,
    k: Seq<char>,
)
    requires
        put(before, after, key, value),
        !overlaps(k, key),
    ensures
        after.contains_key(k) == before.contains_key(k),
        before.contains_key(k) ==> after[k] == before[k],
{
    assert(after.contains_key(k) == before.contains_key(k));
}

/// The three keys that a build sets lie outside the reserved tables, and
/// no two of them overlap.
pub proof fn lemma_build_keys()
    ensures
        !reserved(ADDITIONAL_CSS@),
        !reserved(ADDITIONAL_JS@),
        !reserved(PO_DIR@),
        !overlaps(ADDITIONAL_CSS@, ADDITIONAL_JS@),
        !overlaps(ADDITIONAL_JS@, ADDITIONAL_CSS@),
        !overlaps(ADDITIONAL_CSS@, PO_DIR@),
        !overlaps(PO_DIR@, ADDITIONAL_CSS@),
        !overlaps(ADDITIONAL_JS@, PO_DIR@),
        !overlaps(PO_DIR@, ADDITIONAL_JS@),
{
    reveal_strlit("output.html.additional-css");
    reveal_strlit("output.html.additional-js");
    reveal_strlit("preprocessor.gettext.po-dir");
    let css = ADDITIONAL_CSS@;
    let js = ADDITIONAL_JS@;
    let po = PO_DIR@;
    assert(css.subrange(0, 5)[0] == 'o');
    assert(css.subrange(0, 6)[0] == 'o');
    assert(js.subrange(0, 5)[0] == 'o');
    assert(js.subrange(0, 6)[0] == 'o');
    assert(po.subrange(0, 5)[0] == 'p');
    assert(po.subrange(0, 6)[0] == 'p');
    lemma_apart(css, js, 23);
    lemma_apart(css, po, 0);
    lemma_apart(js, po, 0);
}

/// Adds `file` to the list under `key`, and starts the list where the key
/// holds nothing yet. A key that holds something else is left alone and
/// reported.
fn add_asset(config: &mut Config, key: &str, file: &str) -> (r: Result<(), BuildError>)
    requires
        !reserved(key@),
    ensures
        r is Ok <==> !(shape_of(settings(*old(config)), key@) is Other),
        r is Ok ==> put(
            settings(*old(config)),
            settings(*final(config)),
            key@,
            with_file(settings(*old(config)), key@, file@),
        ),
        r is Err ==> settings(*final(config)) == settings(*old(config)),
        r is Err ==> r->Err_0 is NotAList,
        r matches Err(BuildError::NotAList { key: k }) ==> k@ == key@,
{
    match shape_at(config, key) {
        Shape::List => {
            push_text(config, key, file);
            Ok(())
        },
        Shape::Absent => {
            match set_list(config, key, file) {
                Ok(()) => {
                    proof {
                        assert(with_file(settings(*old(config)), key@, file@) == Setting::List(
                            seq![Setting::Text(file@)],
                        ));
                    }
                    Ok(())
                },
                Err(e) => Err(BuildError::Config(e)),
            }
        },
        Shape::Other => Err(BuildError::NotAList { key: key.to_owned() }),
    }
}

/// Makes a book's configuration ready for a build with the catalogs in
/// `po_dir`.
///
/// The picker's style sheet is added first, then its script, then the
/// catalog directory is set. The work succeeds unless one of the two lists
/// of additional files turns out to be no list, which stops it with
/// `NotAList`: at the style sheets before anything is changed, at the
/// scripts when the style sheet has been added. Whatever happens, the keys
/// that a build does not touch keep what they hold.
pub fn configure(config: &mut Config, po_dir: &str) -> (r: Result<(), BuildError>)
    ensures
        r is Ok <==> {
            &&& !(shape_of(settings(*old(config)), ADDITIONAL_CSS@) is Other)
            &&& !(shape_of(settings(*old(config)), ADDITIONAL_JS@) is Other)
        },
        r is Ok ==> configured(settings(*old(config)), settings(*final(config)), po_dir@),
        rest_kept(settings(*old(config)), settings(*final(config))),
        shape_of(settings(*old(config)), ADDITIONAL_CSS@) is Other ==> {
            &&& r matches Err(BuildError::NotAList { key })
            &&& key@ == ADDITIONAL_CSS@
            &&& settings(*final(config)) == settings(*old(config))
        },
        r is Err && !(shape_of(settings(*old(config)), ADDITIONAL_CSS@) is Other) ==> {
            &&& r matches Err(BuildError::NotAList { key })
            &&& key@ == ADDITIONAL_JS@
            &&& put(
                settings(*old(config)),
                settings(*final(config)),
                ADDITIONAL_CSS@,
                with_file(settings(*old(config)), ADDITIONAL_CSS@, PICKER_CSS@),
            )
        },
{
    proof {
        lemma_build_keys();
    }
    let ghost s0 = settings(*config);
    match add_asset(config, ADDITIONAL_CSS, PICKER_CSS) {
        Ok(()) => {},
        Err(e) => {
            return Err(e);
        },
    }
    let ghost s1 = settings(*config);
    proof {
        lemma_put_keeps(
            s0,
            s1,
            ADDITIONAL_CSS@,
            with_file(s0, ADDITIONAL_CSS@, PICKER_CSS@),
            ADDITIONAL_JS@,
        );
    }
    match add_asset(config, ADDITIONAL_JS, PICKER_JS) {
        Ok(()) => {},
        Err(e) => {
            return Err(e);
        },
    }
    let ghost s2 = settings(*config);
    match set_text(config, PO_DIR, po_dir) {
        Ok(()) => {},
        Err(e) => {
            return Err(BuildError::Config(e));
        },
    }
    proof {
        let s3 = settings(*config);
        let css = ADDITIONAL_CSS@;
        let js = ADDITIONAL_JS@;
        let po = PO_DIR@;
        lemma_put_keeps(s1, s2, js, with_file(s1, js, PICKER_JS@), css);
        lemma_put_keeps(s2, s3, po, Setting::Text(po_dir@), css);
        lemma_put_keeps(s2, s3, po, Setting::Text(po_dir@), js);
        assert(items_of(s1, js) == items_of(s0, js));
    }
    Ok(())
}

} // verus!
