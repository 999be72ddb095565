//! The registry of books and the languages each is translated into.

use crate::names::{
    compare_names, lemma_name_lt_irreflexive, lemma_name_lt_transitive, lemma_name_lt_trichotomy,
    name_lt, strictly_sorted, NameOrder,
};
use vstd::prelude::*;

verus! {

/// A language, as contracts speak of it.
pub struct Language {
    pub id: Seq<char>,
    pub name: Seq<char>,
}

/// One language a book is translated into: its identifier, such as `ja`,
/// and the name shown to readers.
#[derive(Debug)]
pub struct Translation {
    pub id: String,
    pub name: String,
}

impl View for Translation {
    type V = Language;

    open spec fn view(&self) -> Language {
        Language { id: self.id@, name: self.name@ }
    }
}

impl Clone for Translation {
    fn clone(&self) -> (r: Self)
        ensures
            r == *self,
    {
        Translation { id: self.id.clone(), name: self.name.clone() }
    }
}

impl Translation {
    /// The language `id`, shown to readers as `name`.
    pub fn new(id: &str, name: &str) -> (t: Translation)
        ensures
            t@ == (Language { id: id@, name: name@ }),
    {
        Translation { id: id.to_owned(), name: name.to_owned() }
    }
}

/// The languages of one book, in the order in which they were added.
#[derive(Debug)]
pub struct Book {
    pub translations: Vec<Translation>,
}

impl View for Book {
    type V = Seq<Language>;

    open spec fn view(&self) -> Seq<Language> {
        self.translations@.map_values(|t: Translation| t@)
    }
}

impl Clone for Book {
    fn clone(&self) -> (r: Self)
        ensures
            r@ == self@,
    {
        let mut translations: Vec<Translation> = Vec::new();
        let mut i: usize = 0;
        while i < self.translations.len()
            invariant
                i <= self.translations.len(),
                translations@ == self.translations@.take(i as int),
            decreases self.translations.len() - i,
        {
            translations.push(self.translations[i].clone());
            proof {
                assert(self.translations@.take(i + 1) =~= self.translations@.take(i as int).push(
                    self.translations@[i as int],
                ));
            }
            i += 1;
        }
        proof {
            assert(self.translations@.take(i as int) =~= self.translations@);
        }
        Book { translations }
    }
}

/// A registry, as contracts speak of it.
pub struct Registry {
    /// The directory under which sources and catalogs lie.
    pub base: Seq<char>,
    /// The names of the books, in the order in which they are kept.
    pub order: Seq<Seq<char>>,
    /// The languages of each book.
    pub books: Map<Seq<char>, Seq<Language>>,
}

/// What holds of every registry: the books are kept in the order of their
/// names, none twice, and `order` lists exactly the names that `books` has.
pub open spec fn well_formed(r: Registry) -> bool {
    &&& strictly_sorted(r.order)
    &&& forall|k: Seq<char>| r.books.contains_key(k) <==> r.order.contains(k)
}

/// The languages of `book` once `lang` has been added to it.
pub open spec fn with_language(
    books: Map<Seq<char>, Seq<Language>>,
    book: Seq<char>,
    lang: Language,
) -> Seq<Language> {
    if books.contains_key(book) {
        books[book].push(lang)
    } else {
        seq![lang]
    }
}

/// Whether `after` is `before` with `lang` added to `book`: the book has
/// the language behind those it had, a book that was not there has come in
/// at its place in the order, and nothing else has changed.
pub open spec fn registered(before: Registry, after: Registry, book: Seq<char>, lang: Language) -> bool {
    &&& after.base == before.base
    &&& after.books == before.books.insert(book, with_language(before.books, book, lang))
    &&& well_formed(after)
    &&& before.books.contains_key(book) ==> after.order == before.order
    &&& !before.books.contains_key(book) ==> exists|i: int|
        is_slot(before.order, book, i) && after.order == before.order.insert(i, book)
}

/// Where `name` belongs in `order`: behind every name that comes before it
/// and in front of every name that comes after it.
pub open spec fn is_slot(order: Seq<Seq<char>>, name: Seq<char>, i: int) -> bool {
    &&& 0 <= i <= order.len()
    &&& forall|j: int| 0 <= j < i ==> name_lt(#[trigger] order[j], name)
    &&& forall|j: int| i <= j < order.len() ==> name_lt(name, #[trigger] order[j])
}

/// A name has one slot at most: where a new book comes in is decided by
/// its name alone.
pub proof fn lemma_slot_unique(order: Seq<Seq<char>>, name: Seq<char>, i: int, j: int)
    requires
        is_slot(order, name, i),
        is_slot(order, name, j),
    ensures
        i == j,
{
    if i < j {
        assert(name_lt(order[i], name) && name_lt(name, order[i]));
        lemma_name_lt_trichotomy(order[i], name);
    } else if j < i {
        assert(name_lt(order[j], name) && name_lt(name, order[j]));
        lemma_name_lt_trichotomy(order[j], name);
    }
}

/// A book under its name.
#[derive(Debug)]
struct Shelf {
    name: String,
    book: Book,
}

/// The registry: which languages exist for which book, and the directory
/// under which the books' sources and catalogs lie.
#[derive(Debug)]
pub struct Translations {
    shelves: Vec<Shelf>,
    base: String,
}

impl Shelf {
    fn copy(&self) -> (r: Self)
        ensures
            r.name@ == self.name@,
            r.book@ == self.book@,
    {
        Shelf { name: self.name.clone(), book: self.book.clone() }
    }
}

spec fn shelf_names(shelves: Seq<Shelf>) -> Seq<Seq<char>> {
    shelves.map_values(|s: Shelf| s.name@)
}

spec fn shelf_of(shelves: Seq<Shelf>, name: Seq<char>) -> int {
    choose|i: int| 0 <= i < shelves.len() && shelves[i].name@ == name
}

spec fn shelf_books(shelves: Seq<Shelf>) -> Map<Seq<char>, Seq<Language>> {
    Map::new(
        |k: Seq<char>| exists|i: int| 0 <= i < shelves.len() && #[trigger] shelves[i].name@ == k,
        |k: Seq<char>| shelves[shelf_of(shelves, k)].book@,
    )
}

/// In a sorted row of shelves a name is found at one place only.
proof fn lemma_shelf_of(shelves: Seq<Shelf>, i: int)
    requires
        strictly_sorted(shelf_names(shelves)),
        0 <= i < shelves.len(),
    ensures
        shelf_of(shelves, shelves[i].name@) == i,
        shelf_books(shelves).contains_key(shelves[i].name@),
        shelf_books(shelves)[shelves[i].name@] == shelves[i].book@,
{
    let names = shelf_names(shelves);
    let j = shelf_of(shelves, shelves[i].name@);
    assert(0 <= j < shelves.len() && shelves[j].name@ == shelves[i].name@);
    lemma_name_lt_irreflexive(names[i]);
    if j < i {
        assert(name_lt(names[j], names[i]));
    } else if i < j {
        assert(name_lt(names[i], names[j]));
    }
}

/// The view of a sorted row of shelves is well formed.
proof fn lemma_shelves_well_formed(shelves: Seq<Shelf>, base: Seq<char>)
    requires
        strictly_sorted(shelf_names(shelves)),
    ensures
        well_formed(Registry { base, order: shelf_names(shelves), books: shelf_books(shelves) }),
{
    let names = shelf_names(shelves);
    let books = shelf_books(shelves);
    assert forall|k: Seq<char>| books.contains_key(k) <==> names.contains(k) by {
        if books.contains_key(k) {
            let i = choose|i: int| 0 <= i < shelves.len() && #[trigger] shelves[i].name@ == k;
            assert(names[i] == k);
        }
        if names.contains(k) {
            let i = choose|i: int| 0 <= i < names.len() && names[i] == k;
            assert(shelves[i].name@ == k);
        }
    }
}

impl View for Translations {
    type V = Registry;

    closed spec fn view(&self) -> Registry {
        Registry {
            base: self.base@,
            order: shelf_names(self.shelves@),
            books: shelf_books(self.shelves@),
        }
    }
}

impl Clone for Translations {
    fn clone(&self) -> (r: Self)
        ensures
            r@ == self@,
    {
        proof {
            use_type_invariant(self);
        }
        let mut shelves: Vec<Shelf> = Vec::new();
        let mut i: usize = 0;
        while i < self.shelves.len()
            invariant
                i <= self.shelves.len(),
                shelves@.len() == i,
                forall|j: int|
                    0 <= j < i ==> (#[trigger] shelves@[j]).name@ == self.shelves@[j].name@
                        && shelves@[j].book@ == self.shelves@[j].book@,
            decreases self.shelves.len() - i,
        {
            shelves.push(self.shelves[i].copy());
            i += 1;
        }
        proof {
            lemma_same_shelves(self.shelves@, shelves@);
        }
        Translations { shelves, base: self.base.clone() }
    }
}

impl Translations {
    #[verifier::type_invariant]
    spec fn sorted(&self) -> bool {
        strictly_sorted(shelf_names(self.shelves@))
    }

    /// An empty registry for the books under `base`.
    pub fn new(base: &str) -> (r: Translations)
        ensures
            r@.base == base@,
            r@.order == Seq::<Seq<char>>::empty(),
            r@.books == Map::<Seq<char>, Seq<Language>>::empty(),
            well_formed(r@),
    {
        let r = Translations { shelves: Vec::new(), base: base.to_owned() };
        proof {
            assert(shelf_names(r.shelves@) =~= Seq::<Seq<char>>::empty());
            assert(shelf_books(r.shelves@) =~= Map::<Seq<char>, Seq<Language>>::empty());
            lemma_shelves_well_formed(r.shelves@, r.base@);
        }
        r
    }

    /// The directory under which the books' sources and catalogs lie.
    pub fn base(&self) -> (r: &str)
        ensures
            r@ == self@.base,
    {
        self.base.as_str()
    }

    /// How many books the registry holds.
    pub fn len(&self) -> (n: usize)
        ensures
            n == self@.order.len(),
            well_formed(self@),
    {
        proof {
            use_type_invariant(self);
            lemma_shelves_well_formed(self.shelves@, self.base@);
        }
        self.shelves.len()
    }

    /// The names of the books, in the order in which they are kept.
    pub fn names(&self) -> (r: Vec<String>)
        ensures
            r@.map_values(|s: String| s@) == self@.order,
            well_formed(self@),
    {
        proof {
            use_type_invariant(self);
            lemma_shelves_well_formed(self.shelves@, self.base@);
        }
        let mut r: Vec<String> = Vec::new();
        let mut i: usize = 0;
        while i < self.shelves.len()
            invariant
                i <= self.shelves.len(),
                r@.len() == i,
                forall|j: int| 0 <= j < i ==> (#[trigger] r@[j])@ == self.shelves@[j].name@,
            decreases self.shelves.len() - i,
        {
            r.push(self.shelves[i].name.clone());
            i += 1;
        }
        proof {
            assert(r@.map_values(|s: String| s@) =~= shelf_names(self.shelves@));
        }
        r
    }

    /// The `i`-th book in the order of the names, with its name; nothing
    /// where the registry holds `i` books or fewer.
    pub fn nth(&self, i: usize) -> (r: Option<(&str, &Book)>)
        ensures
            r is Some == (i < self@.order.len()),
            r matches Some((name, book)) ==> {
                &&& name@ == self@.order[i as int]
                &&& self@.books.contains_key(name@)
                &&& book@ == self@.books[name@]
            },
            well_formed(self@),
    {
        proof {
            use_type_invariant(self);
            lemma_shelves_well_formed(self.shelves@, self.base@);
        }
        if i < self.shelves.len() {
            proof {
                lemma_shelf_of(self.shelves@, i as int);
            }
            Some((self.shelves[i].name.as_str(), &self.shelves[i].book))
        } else {
            None
        }
    }

    /// The book registered under `name`, if there is one.
    pub fn get(&self, name: &str) -> (r: Option<&Book>)
        ensures
            r is Some == self@.books.contains_key(name@),
            r matches Some(book) ==> book@ == self@.books[name@],
    {
        proof {
            use_type_invariant(self);
        }
        let (i, found) = self.find(name);
        if found {
            proof {
                lemma_shelf_of(self.shelves@, i as int);
            }
            Some(&self.shelves[i].book)
        } else {
            None
        }
    }

    /// Registers `book` under `name`, in place of the book that was there,
    /// which is handed back.
    pub fn insert(&mut self, name: &str, book: Book) -> (r: Option<Book>)
        ensures
            final(self)@.base == old(self)@.base,
            final(self)@.books == old(self)@.books.insert(name@, book@),
            well_formed(final(self)@),
            r is Some == old(self)@.books.contains_key(name@),
            r matches Some(b) ==> b@ == old(self)@.books[name@],
            old(self)@.books.contains_key(name@) ==> final(self)@.order == old(self)@.order,
            !old(self)@.books.contains_key(name@) ==> exists|i: int|
                is_slot(old(self)@.order, name@, i) && final(self)@.order == old(self)@.order.insert(
                    i,
                    name@,
                ),
    {
        proof {
            use_type_invariant(&*self);
        }
        let (i, found) = self.find(name);
        let ghost before = self.shelves@;
        let shelf = Shelf { name: name.to_owned(), book };
        let mut shelves: Vec<Shelf> = Vec::new();
        std::mem::swap(&mut shelves, &mut self.shelves);
        let r = if found {
            let replaced = shelves.remove(i);
            shelves.insert(i, shelf);
            proof {
                lemma_shelf_of(before, i as int);
                lemma_replaced(before, shelves@, i as int);
            }
            Some(replaced.book)
        } else {
            shelves.insert(i, shelf);
            proof {
                lemma_inserted(before, shelves@, i as int, shelf);
                assert(is_slot(old(self)@.order, name@, i as int) && shelf_names(shelves@) == old(
                    self,
                )@.order.insert(i as int, name@));
            }
            None
        };
        self.shelves = shelves;
        proof {
            lemma_shelves_well_formed(self.shelves@, self.base@);
        }
        r
    }

    /// Records that `book` is translated into the language `lang_id`, shown
    /// as `lang_name`. A book that the registry does not hold yet is
    /// registered with this one language.
    pub fn register(&mut self, book: &str, lang_id: &str, lang_name: &str)
        ensures
            registered(
                old(self)@,
                final(self)@,
                book@,
                Language { id: lang_id@, name: lang_name@ },
            ),
    {
        let lang = Translation::new(lang_id, lang_name);
        let mut translations: Vec<Translation> = match self.get(book) {
            Some(b) => b.clone().translations,
            None => Vec::new(),
        };
        translations.push(lang);
        proof {
            assert((Book { translations })@ =~= with_language(
                old(self)@.books,
                book@,
                Language { id: lang_id@, name: lang_name@ },
            ));
        }
        self.insert(book, Book { translations });
    }

    /// Looks for the shelf of `name`: where it is, or where it would go.
    fn find(&self, name: &str) -> (r: (usize, bool))
        ensures
            r.0 <= self.shelves.len(),
            r.1 ==> r.0 < self.shelves.len() && self.shelves[r.0 as int].name@ == name@,
            !r.1 ==> is_slot(shelf_names(self.shelves@), name@, r.0 as int),
            r.1 == shelf_books(self.shelves@).contains_key(name@),
    {
        proof {
            use_type_invariant(self);
        }
        let ghost names = shelf_names(self.shelves@);
        let mut i: usize = 0;
        while i < self.shelves.len()
            invariant
                i <= self.shelves.len(),
                names == shelf_names(self.shelves@),
                strictly_sorted(names),
                forall|j: int| 0 <= j < i ==> name_lt(#[trigger] names[j], name@),
            decreases self.shelves.len() - i,
        {
            match compare_names(self.shelves[i].name.as_str(), name) {
                NameOrder::Before => {
                    i += 1;
                },
                NameOrder::Same => {
                    return (i, true);
                },
                NameOrder::After => {
                    proof {
                        assert forall|j: int| i <= j < names.len() implies name_lt(
                            name@,
                            #[trigger] names[j],
                        ) by {
                            if i < j {
                                assert(name_lt(names[i as int], names[j]));
                                lemma_name_lt_transitive(name@, names[i as int], names[j]);
                            }
                        }
                        lemma_absent(self.shelves@, name@, i as int);
                    }
                    return (i, false);
                },
            }
        }
        proof {
            lemma_absent(self.shelves@, name@, i as int);
        }
        (i, false)
    }
}

/// Shelves that hold the same books under the same names are seen as the
/// same.
proof fn lemma_same_shelves(a: Seq<Shelf>, b: Seq<Shelf>)
    requires
        strictly_sorted(shelf_names(a)),
        a.len() == b.len(),
        forall|j: int|
            0 <= j < a.len() ==> (#[trigger] b[j]).name@ == a[j].name@ && b[j].book@ == a[j].book@,
    ensures
        shelf_names(b) == shelf_names(a),
        shelf_books(b) == shelf_books(a),
{
    assert(shelf_names(b) =~= shelf_names(a));
    assert forall|k: Seq<char>| shelf_books(b).contains_key(k) <==> shelf_books(a).contains_key(
        k,
    ) by {
        if shelf_books(b).contains_key(k) {
            let j = choose|j: int| 0 <= j < b.len() && #[trigger] b[j].name@ == k;
            assert(a[j].name@ == k);
        }
        if shelf_books(a).contains_key(k) {
            let j = choose|j: int| 0 <= j < a.len() && #[trigger] a[j].name@ == k;
            assert(b[j].name@ == k);
        }
    }
    assert forall|k: Seq<char>| shelf_books(b).contains_key(k) implies shelf_books(b)[k]
        == shelf_books(a)[k] by {
        let j = choose|j: int| 0 <= j < b.len() && #[trigger] b[j].name@ == k;
        lemma_shelf_of(b, j);
        lemma_shelf_of(a, j);
    }
    assert(shelf_books(b) =~= shelf_books(a));
}

/// Putting another book on a shelf changes that book and nothing else.
proof fn lemma_replaced(before: Seq<Shelf>, after: Seq<Shelf>, i: int)
    requires
        strictly_sorted(shelf_names(before)),
        0 <= i < before.len(),
        after.len() == before.len(),
        after[i].name@ == before[i].name@,
        forall|j: int| 0 <= j < before.len() && j != i ==> after[j] == before[j],
    ensures
        shelf_names(after) == shelf_names(before),
        shelf_books(after) == shelf_books(before).insert(after[i].name@, after[i].book@),
{
    assert(shelf_names(after) =~= shelf_names(before));
    let m = shelf_books(before).insert(after[i].name@, after[i].book@);
    assert forall|k: Seq<char>| shelf_books(after).contains_key(k) <==> m.contains_key(k) by {
        if shelf_books(after).contains_key(k) {
            let j = choose|j: int| 0 <= j < after.len() && #[trigger] after[j].name@ == k;
            assert(before[j].name@ == k);
        }
        if shelf_books(before).contains_key(k) {
            let j = choose|j: int| 0 <= j < before.len() && #[trigger] before[j].name@ == k;
            assert(after[j].name@ == k);
        }
    }
    assert forall|k: Seq<char>| shelf_books(after).contains_key(k) implies shelf_books(after)[k]
        == m[k] by {
        let j = choose|j: int| 0 <= j < after.len() && #[trigger] after[j].name@ == k;
        lemma_shelf_of(after, j);
        lemma_shelf_of(after, i);
        lemma_shelf_of(before, j);
    }
    assert(shelf_books(after) =~= m);
}

/// Putting up a new shelf at its slot adds that book and changes no other.
proof fn lemma_inserted(before: Seq<Shelf>, after: Seq<Shelf>, i: int, shelf: Shelf)
    requires
        strictly_sorted(shelf_names(before)),
        0 <= i <= before.len(),
        after == before.insert(i, shelf),
        is_slot(shelf_names(before), shelf.name@, i),
    ensures
        strictly_sorted(shelf_names(after)),
        shelf_names(after) == shelf_names(before).insert(i, after[i].name@),
        shelf_books(after) == shelf_books(before).insert(after[i].name@, after[i].book@),
{
    let old_names = shelf_names(before);
    let names = shelf_names(after);
    let name = after[i].name@;
    assert(names =~= old_names.insert(i, name));
    assert forall|a: int, b: int| 0 <= a < b < names.len() implies name_lt(
        #[trigger] names[a],
        #[trigger] names[b],
    ) by {
        let oa = if a < i { a } else { a - 1 };
        let ob = if b < i { b } else { b - 1 };
        if a != i {
            assert(names[a] == old_names[oa]);
        }
        if b != i {
            assert(names[b] == old_names[ob]);
        }
    }
    let m = shelf_books(before).insert(name, after[i].book@);
    assert forall|k: Seq<char>| shelf_books(after).contains_key(k) <==> m.contains_key(k) by {
        if shelf_books(after).contains_key(k) {
            let j = choose|j: int| 0 <= j < after.len() && #[trigger] after[j].name@ == k;
            if j < i {
                assert(before[j].name@ == k);
            } else if j > i {
                assert(before[j - 1].name@ == k);
            }
        }
        if shelf_books(before).contains_key(k) {
            let j = choose|j: int| 0 <= j < before.len() && #[trigger] before[j].name@ == k;
            if j < i {
                assert(after[j].name@ == k);
            } else {
                assert(after[j + 1].name@ == k);
            }
        }
        if k == name {
            assert(after[i].name@ == k);
        }
    }
    assert forall|k: Seq<char>| shelf_books(after).contains_key(k) implies shelf_books(after)[k]
        == m[k] by {
        let j = choose|j: int| 0 <= j < after.len() && #[trigger] after[j].name@ == k;
        lemma_shelf_of(after, j);
        lemma_shelf_of(after, i);
        if j < i {
            lemma_shelf_of(before, j);
        } else if j > i {
            lemma_shelf_of(before, j - 1);
        }
    }
    assert(shelf_books(after) =~= m);
}

/// A name that has a slot among the shelves is on none of them.
proof fn lemma_absent(shelves: Seq<Shelf>, name: Seq<char>, i: int)
    requires
        is_slot(shelf_names(shelves), name, i),
    ensures
        !shelf_books(shelves).contains_key(name),
{
    let names = shelf_names(shelves);
    lemma_name_lt_irreflexive(name);
    if shelf_books(shelves).contains_key(name) {
        let j = choose|j: int| 0 <= j < shelves.len() && #[trigger] shelves[j].name@ == name;
        assert(names[j] == name);
        if j < i {
            assert(name_lt(names[j], name));
        } else {
            assert(name_lt(name, names[j]));
        }
    }
}

} // verus!
