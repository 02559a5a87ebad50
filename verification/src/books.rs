//! An in-memory book catalog keyed by book id, and the HTML replies of the
//! catalog's web handlers: list, show, show-as-form, put, update and delete.
use std::collections::HashMap;
use vstd::prelude::*;

use crate::book_laws::law_listing_unique;
use crate::text::{
    chars_less, chars_lt, chars_of, decimal, lemma_chars_lt_transitive, lemma_chars_lt_trichotomy,
    push_decimal,
};

verus! {

broadcast use vstd::std_specs::hash::group_hash_axioms;

/// A book: its id in the catalog, its title and its author.
#[derive(Clone, Debug, PartialEq, Eq, Hash)]
pub struct Book {
    pub id: u32,
    pub title: String,
    pub author: String,
}

/// The mathematical value of a [`Book`].
pub struct BookView {
    pub id: u32,
    pub title: Seq<char>,
    pub author: Seq<char>,
}

impl View for Book {
    type V = BookView;

    open spec fn view(&self) -> BookView {
        BookView { id: self.id, title: self.title@, author: self.author@ }
    }
}

/// How a book is shown: `{title} by {author}`.
pub open spec fn book_text(b: BookView) -> Seq<char> {
    b.title + " by "@ + b.author
}

/// One book as an HTML paragraph line: `<p>{title} by {author}</p>` and a newline.
pub open spec fn book_paragraph(b: BookView) -> Seq<char> {
    "<p>"@ + book_text(b) + "</p>\n"@
}

/// The paragraphs of a sequence of books, one after the other.
pub open spec fn listing_text(bs: Seq<BookView>) -> Seq<char>
    decreases bs.len(),
{
    if bs.len() == 0 {
        Seq::empty()
    } else {
        listing_text(bs.drop_last()) + book_paragraph(bs.last())
    }
}

/// The order of the catalog listing: by title, and by id between equal titles.
pub open spec fn book_before(a: BookView, b: BookView) -> bool {
    chars_lt(a.title, b.title) || (a.title == b.title && a.id < b.id)
}

/// Every entry of the catalog is stored under its own id.
pub open spec fn ids_match(m: Map<u32, BookView>) -> bool {
    forall|k: u32| #[trigger] m.contains_key(k) ==> m[k].id == k
}

/// A catalog: finitely many books, each stored under its own id.
pub open spec fn is_catalog(m: Map<u32, BookView>) -> bool {
    m.dom().finite() && ids_match(m)
}

/// `bs` lists every book of the catalog `m` exactly once, in listing order.
pub open spec fn is_title_listing(m: Map<u32, BookView>, bs: Seq<BookView>) -> bool {
    &&& bs.len() == m.dom().len()
    &&& forall|i: int| 0 <= i < bs.len() ==> #[trigger] m.contains_key(bs[i].id) && m[bs[i].id] == bs[i]
    &&& forall|i: int, j: int| 0 <= i < j < bs.len() ==> book_before(#[trigger] bs[i], #[trigger] bs[j])
}

/// The views of a sequence of books.
pub open spec fn book_views(v: Seq<Book>) -> Seq<BookView> {
    v.map_values(|b: Book| b@)
}

impl Book {
    /// A copy of this book.
    fn duplicate(&self) -> (r: Book)
        ensures
            r@ == self@,
    {
        Book { id: self.id, title: self.title.clone(), author: self.author.clone() }
    }

    /// How the book is shown: `{title} by {author}`.
    pub fn to_display_string(&self) -> (r: String)
        ensures
            r@ == book_text(self@),
    {
        let mut s = self.title.clone();
        s.append(" by ");
        s.append(self.author.as_str());
        s
    }
}

/// Whether `a` comes before `b` in the catalog listing.
pub fn book_less(a: &Book, b: &Book) -> (r: bool)
    ensures
        r == book_before(a@, b@),
{
    let ta = chars_of(a.title.as_str());
    let tb = chars_of(b.title.as_str());
    proof {
        lemma_chars_lt_trichotomy(a.title@, b.title@);
    }
    if chars_less(&ta, &tb) {
        true
    } else if chars_less(&tb, &ta) {
        false
    } else {
        a.id < b.id
    }
}


/// Two books with different ids are ordered one way or the other.
pub proof fn lemma_book_before_total(a: BookView, b: BookView)
    ensures
        a.id != b.id ==> (book_before(a, b) || book_before(b, a)),
        !(book_before(a, b) && book_before(b, a)),
        !book_before(a, a),
{
    lemma_chars_lt_trichotomy(a.title, b.title);
    lemma_chars_lt_trichotomy(a.title, a.title);
}

/// The listing order is transitive.
pub proof fn lemma_book_before_transitive(a: BookView, b: BookView, c: BookView)
    requires
        book_before(a, b),
        book_before(b, c),
    ensures
        book_before(a, c),
{
    lemma_chars_lt_trichotomy(a.title, b.title);
    lemma_chars_lt_trichotomy(b.title, c.title);
    lemma_chars_lt_trichotomy(a.title, c.title);
    if chars_lt(a.title, b.title) && chars_lt(b.title, c.title) {
        lemma_chars_lt_transitive(a.title, b.title, c.title);
    }
}

/// The reply to a request for the book with id `id`: its paragraph, or a
/// not-found paragraph naming the id.
pub open spec fn show_reply(m: Map<u32, BookView>, id: u32) -> Seq<char> {
    if m.contains_key(id) {
        book_paragraph(m[id])
    } else {
        "<p>Book id: "@ + decimal(id as nat) + " not found</p>"@
    }
}

/// The edit form of a book: it posts to `/gb/{id}/form` and carries the id
/// hidden, the author and the title as inputs, and a Save button.
pub open spec fn edit_form(b: BookView) -> Seq<char> {
    "<form method=\"post\" action=\"/gb/"@ + decimal(b.id as nat) + "/form\">\n"@
        + "<input type=\"hidden\" name=\"id\" value=\""@ + decimal(b.id as nat) + "\">\n"@
        + "<p><input name=\"author\" value=\""@ + b.author + "\"></p>\n"@
        + "<p><input name=\"title\" value=\""@ + b.title + "\"></p>\n"@
        + "<input type=\"submit\" value=\"Save\">\n"@
}

/// The reply to a request for the edit form of the book with id `id`.
pub open spec fn form_reply(m: Map<u32, BookView>, id: u32) -> Seq<char> {
    if m.contains_key(id) {
        edit_form(m[id])
    } else {
        "<p>Book id "@ + decimal(id as nat) + " not found</p>"@
    }
}

/// The reply to placing a book.
pub open spec fn put_reply(b: BookView) -> Seq<char> {
    "Placed book: "@ + book_text(b)
}

/// The catalog after an update through the edit form: the book replaces the
/// one with its id, and nothing changes when there is none.
pub open spec fn post_state(m: Map<u32, BookView>, b: BookView) -> Map<u32, BookView> {
    if m.contains_key(b.id) {
        m.insert(b.id, b)
    } else {
        m
    }
}

/// The reply to an update through the edit form.
pub open spec fn post_reply(m: Map<u32, BookView>, b: BookView) -> Seq<char> {
    if m.contains_key(b.id) {
        "Posted book: "@ + b.title
    } else {
        "Book id not found: "@ + b.title
    }
}

/// The reply to a deletion.
pub open spec fn delete_reply(m: Map<u32, BookView>, id: u32) -> Seq<char> {
    if m.contains_key(id) {
        "Data removed"@
    } else {
        "Data not found"@
    }
}

/// The reply for a path that no route serves.
pub open spec fn fallback_reply(uri: Seq<char>) -> Seq<char> {
    "No route to: "@ + uri
}

/// The catalog the book server starts with.
pub open spec fn seed_catalog() -> Map<u32, BookView> {
    map![
        1u32 => BookView { id: 1, title: "Antigone"@, author: "Sophocles"@ },
        2u32 => BookView { id: 2, title: "Beloved"@, author: "Morrison"@ },
        3u32 => BookView { id: 3, title: "Candide"@, author: "Voltaire"@ },
    ]
}

/// A catalog of books, each stored under its own id.
pub struct BookStore {
    books: HashMap<u32, Book>,
}

impl View for BookStore {
    type V = Map<u32, BookView>;

    closed spec fn view(&self) -> Map<u32, BookView> {
        self.books@.map_values(|b: Book| b@)
    }
}

impl BookStore {
    #[verifier::type_invariant]
    spec fn keys_are_ids(self) -> bool {
        forall|k: u32| #[trigger] self.books@.contains_key(k) ==> self.books@[k].id == k
    }

    proof fn lemma_view_is_catalog(&self)
        requires
            self.keys_are_ids(),
        ensures
            is_catalog(self@),
    {
        assert(self@.dom() =~= self.books@.dom());
    }

    /// An empty catalog.
    pub fn new() -> (r: BookStore)
        ensures
            r@ == Map::<u32, BookView>::empty(),
            is_catalog(r@),
    {
        let r = BookStore { books: HashMap::new() };
        assert(r@ =~= Map::<u32, BookView>::empty());
        proof {
            use_type_invariant(&r);
            r.lemma_view_is_catalog();
        }
        r
    }

    /// The catalog the book server starts with: Antigone by Sophocles,
    /// Beloved by Morrison and Candide by Voltaire, under ids 1, 2 and 3.
    pub fn seeded() -> (r: BookStore)
        ensures
            r@ == seed_catalog(),
            is_catalog(r@),
    {
        let mut r = BookStore::new();
        r.insert(Book { id: 1, title: String::from_str("Antigone"), author: String::from_str("Sophocles") });
        r.insert(Book { id: 2, title: String::from_str("Beloved"), author: String::from_str("Morrison") });
        r.insert(Book { id: 3, title: String::from_str("Candide"), author: String::from_str("Voltaire") });
        assert(r@ =~= seed_catalog());
        r
    }

    /// Whether the catalog holds a book with id `id`.
    fn contains(&self, id: u32) -> (r: bool)
        ensures
            r == self@.contains_key(id),
    {
        self.books.contains_key(&id)
    }

    /// The book with id `id`, if the catalog holds one.
    fn get(&self, id: u32) -> (r: Option<&Book>)
        ensures
            match r {
                Some(b) => self@.contains_key(id) && self@[id] == b@,
                None => !self@.contains_key(id),
            },
    {
        self.books.get(&id)
    }

    /// Stores `b` under its id, replacing any book stored there before.
    fn insert(&mut self, b: Book)
        ensures
            final(self)@ == old(self)@.insert(b.id, b@),
            is_catalog(final(self)@),
    {
        proof {
            use_type_invariant(&*self);
        }
        let ghost old_map = self.books@;
        let mut books = HashMap::new();
        std::mem::swap(&mut books, &mut self.books);
        let id = b.id;
        books.insert(id, b);
        self.books = books;
        assert(self@ =~= old(self)@.insert(b.id, b@));
        proof {
            use_type_invariant(&*self);
            self.lemma_view_is_catalog();
        }
    }

    /// Removes the book with id `id`, if there is one.
    fn remove(&mut self, id: u32)
        ensures
            final(self)@ == old(self)@.remove(id),
            is_catalog(final(self)@),
    {
        proof {
            use_type_invariant(&*self);
        }
        let mut books = HashMap::new();
        std::mem::swap(&mut books, &mut self.books);
        books.remove(&id);
        self.books = books;
        assert(self@ =~= old(self)@.remove(id));
        proof {
            use_type_invariant(&*self);
            self.lemma_view_is_catalog();
        }
    }
    /// Every book of the catalog exactly once, ordered by title, and by id
    /// between books of the same title.
    pub fn list_books(&self) -> (r: Vec<Book>)
        ensures
            is_title_listing(self@, book_views(r@)),
            is_catalog(self@),
    {
        proof {
            use_type_invariant(self);
            self.lemma_view_is_catalog();
        }
        let ghost m = self@;
        let mut sorted: Vec<Book> = Vec::new();
        for k in it: self.books.keys()
            invariant
                m == self@,
                ids_match(m),
                it.seq().unref().to_set() == self.books@.dom(),
                it.seq().unref().no_duplicates(),
                it.seq().len() == self.books@.dom().len(),
                sorted.len() == it.index(),
                forall|i: int| 0 <= i < sorted.len() ==> #[trigger] m.contains_key(sorted@[i].id) && m[sorted@[i].id] == sorted@[i]@,
                forall|i: int, j: int| 0 <= i < j < sorted.len() ==> book_before(#[trigger] sorted@[i]@, #[trigger] sorted@[j]@),
                forall|i: int| 0 <= i < sorted.len() ==> it.seq().unref().take(it.index()).contains(#[trigger] sorted@[i].id),
        {
            let ghost done = it.seq().unref().take(it.index());
            let ghost keys = it.seq().unref();
            let id: u32 = *k;
            proof {
                assert(keys[it.index()] == id);
                assert(keys.to_set().contains(id));
                assert(keys.take(it.index() + 1) =~= done.push(id));
                assert(!done.contains(id)) by {
                    if done.contains(id) {
                        let w = choose|w: int| 0 <= w < done.len() && done[w] == id;
                        assert(keys[w] == keys[it.index() as int]);
                    }
                }
            }
            assert(m.contains_key(id));
            let b = self.get(id).unwrap();
            let mut p: usize = 0;
            while p < sorted.len() && book_less(&sorted[p], b)
                invariant
                    p <= sorted.len(),
                    forall|i: int| 0 <= i < p ==> book_before(#[trigger] sorted@[i]@, b@),
                decreases sorted.len() - p,
            {
                p = p + 1;
            }
            let ghost old_sorted = sorted@;
            let copy = b.duplicate();
            sorted.insert(p, copy);
            proof {
                assert(b@.id == id);
                if (p as int) < old_sorted.len() {
                    assert(!book_before(old_sorted[p as int]@, b@));
                    assert(done.contains(old_sorted[p as int].id));
                    assert(old_sorted[p as int].id != id);
                    lemma_book_before_total(old_sorted[p as int]@, b@);
                    assert(book_before(b@, old_sorted[p as int]@));
                }
                assert forall|i: int, j: int| 0 <= i < j < sorted.len() implies book_before(
                    #[trigger] sorted@[i]@,
                    #[trigger] sorted@[j]@,
                ) by {
                    if j < p {
                        assert(sorted@[i] == old_sorted[i] && sorted@[j] == old_sorted[j]);
                    } else if j == p {
                        assert(sorted@[i] == old_sorted[i]);
                    } else if i == p {
                        assert(sorted@[j] == old_sorted[j - 1]);
                        if j - 1 > p {
                            lemma_book_before_transitive(b@, old_sorted[p as int]@, old_sorted[j - 1]@);
                        }
                    } else if i < p {
                        assert(sorted@[i] == old_sorted[i] && sorted@[j] == old_sorted[j - 1]);
                    } else {
                        assert(sorted@[i] == old_sorted[i - 1] && sorted@[j] == old_sorted[j - 1]);
                    }
                }
                assert forall|i: int| 0 <= i < sorted.len() implies #[trigger] m.contains_key(sorted@[i].id)
                    && m[sorted@[i].id] == sorted@[i]@ by {
                    if i < p {
                        assert(sorted@[i] == old_sorted[i]);
                    } else if i > p {
                        assert(sorted@[i] == old_sorted[i - 1]);
                    }
                }
                assert forall|i: int| 0 <= i < sorted.len() implies keys.take(it.index() + 1).contains(
                    #[trigger] sorted@[i].id,
                ) by {
                    if i < p {
                        assert(sorted@[i] == old_sorted[i]);
                        assert(done.contains(old_sorted[i].id));
                    } else if i > p {
                        assert(sorted@[i] == old_sorted[i - 1]);
                        assert(done.contains(old_sorted[i - 1].id));
                    } else {
                        assert(keys.take(it.index() + 1)[it.index() as int] == id);
                    }
                }
            }
        }
        proof {
            assert(book_views(sorted@).len() == sorted@.len());
            assert forall|i: int| 0 <= i < sorted@.len() implies #[trigger] book_views(sorted@)[i] == sorted@[i]@ by {}
            assert(m.dom() =~= self.books@.dom());
            assert(sorted@.len() == m.dom().len());
            assert(forall|i: int| 0 <= i < sorted@.len() ==> #[trigger] m.contains_key(book_views(sorted@)[i].id) && m[book_views(sorted@)[i].id] == book_views(sorted@)[i]);
        }
        sorted
    }

    /// The whole catalog as HTML paragraphs, one per book, ordered by title
    /// (and by id between books of the same title).
    pub fn get_books(&self) -> (r: String)
        ensures
            exists|bs: Seq<BookView>| is_title_listing(self@, bs) && r@ == listing_text(bs),
            forall|bs: Seq<BookView>| is_title_listing(self@, bs) ==> r@ == listing_text(bs),
            is_catalog(self@),
    {
        let books = self.list_books();
        let ghost views = book_views(books@);
        let mut s = String::new();
        let mut i: usize = 0;
        while i < books.len()
            invariant
                i <= books.len(),
                views == book_views(books@),
                s@ == listing_text(views.take(i as int)),
            decreases books.len() - i,
        {
            let b = &books[i];
            s.append("<p>");
            s.append(b.to_display_string().as_str());
            s.append("</p>\n");
            proof {
                assert(views.take(i + 1).drop_last() =~= views.take(i as int));
                assert(views[i as int] == b@);
            }
            i = i + 1;
        }
        assert(views.take(books.len() as int) =~= views);
        proof {
            assert forall|bs: Seq<BookView>| is_title_listing(self@, bs) implies s@ == listing_text(bs) by {
                law_listing_unique(self@, views, bs);
            }
        }
        s
    }

    /// The HTML paragraph of the book with id `id`, or a not-found paragraph.
    pub fn get_books_id(&self, id: u32) -> (r: String)
        ensures
            r@ == show_reply(self@, id),
    {
        match self.get(id) {
            Some(b) => {
                let mut s = String::from_str("<p>");
                s.append(b.to_display_string().as_str());
                s.append("</p>\n");
                s
            },
            None => {
                let mut s = String::from_str("<p>Book id: ");
                push_decimal(&mut s, id as u64);
                s.append(" not found</p>");
                s
            },
        }
    }

    /// The HTML edit form of the book with id `id`, or a not-found paragraph.
    pub fn get_books_id_form(&self, id: u32) -> (r: String)
        ensures
            r@ == form_reply(self@, id),
    {
        match self.get(id) {
            Some(b) => {
                let mut s = String::from_str("<form method=\"post\" action=\"/gb/");
                push_decimal(&mut s, b.id as u64);
                s.append("/form\">\n");
                s.append("<input type=\"hidden\" name=\"id\" value=\"");
                push_decimal(&mut s, b.id as u64);
                s.append("\">\n");
                s.append("<p><input name=\"author\" value=\"");
                s.append(b.author.as_str());
                s.append("\"></p>\n");
                s.append("<p><input name=\"title\" value=\"");
                s.append(b.title.as_str());
                s.append("\"></p>\n");
                s.append("<input type=\"submit\" value=\"Save\">\n");
                s
            },
            None => {
                let mut s = String::from_str("<p>Book id ");
                push_decimal(&mut s, id as u64);
                s.append(" not found</p>");
                s
            },
        }
    }

    /// Places `b` in the catalog under its id, replacing any book stored
    /// there, and confirms it.
    pub fn put_books(&mut self, b: Book) -> (r: String)
        ensures
            final(self)@ == old(self)@.insert(b.id, b@),
            is_catalog(final(self)@),
            r@ == put_reply(b@),
    {
        let mut s = String::from_str("Placed book: ");
        s.append(b.to_display_string().as_str());
        self.insert(b);
        s
    }

    /// Replaces the book with the id of `b` by `b`, when the catalog holds
    /// one; otherwise leaves the catalog as it is.
    pub fn post_book_id_form(&mut self, b: Book) -> (r: String)
        ensures
            final(self)@ == post_state(old(self)@, b@),
            is_catalog(final(self)@),
            r@ == post_reply(old(self)@, b@),
    {
        proof {
            use_type_invariant(&*self);
        }
        proof {
            self.lemma_view_is_catalog();
        }
        if self.contains(b.id) {
            let mut s = String::from_str("Posted book: ");
            s.append(b.title.as_str());
            self.insert(b);
            s
        } else {
            let mut s = String::from_str("Book id not found: ");
            s.append(b.title.as_str());
            s
        }
    }

    /// Removes the book with id `id`, when the catalog holds one.
    pub fn delete_book(&mut self, id: u32) -> (r: String)
        ensures
            final(self)@ == old(self)@.remove(id),
            is_catalog(final(self)@),
            r@ == delete_reply(old(self)@, id),
    {
        if self.contains(id) {
            self.remove(id);
            String::from_str("Data removed")
        } else {
            proof {
                use_type_invariant(&*self);
                self.lemma_view_is_catalog();
            }
            assert(old(self)@.remove(id) =~= old(self)@);
            String::from_str("Data not found")
        }
    }
}

/// The reply for a path that no route serves: `No route to: {uri}`.
pub fn fallback(uri: &str) -> (r: String)
    ensures
        r@ == fallback_reply(uri@),
{
    let mut s = String::from_str("No route to: ");
    s.append(uri);
    s
}

} // verus!
