use explorer_kit::books::{fallback, Book, BookStore};

fn book(id: u32, title: &str, author: &str) -> Book {
    Book { id, title: title.to_string(), author: author.to_string() }
}

#[test]
fn seeded_catalog_lists_books_by_title() {
    let store = BookStore::seeded();
    assert_eq!(
        store.get_books(),
        "<p>Antigone by Sophocles</p>\n<p>Beloved by Morrison</p>\n<p>Candide by Voltaire</p>\n"
    );
}

#[test]
fn listing_sorts_by_title_then_id() {
    let mut store = BookStore::new();
    store.put_books(book(9, "Zorba", "Kazantzakis"));
    store.put_books(book(5, "Anna", "Tolstoy"));
    store.put_books(book(2, "Anna", "Other"));
    store.put_books(book(7, "anna", "Lower"));
    store.put_books(book(3, "Ann", "Short"));
    let ids: Vec<u32> = store.list_books().iter().map(|b| b.id).collect();
    assert_eq!(ids, vec![3, 2, 5, 9, 7]);
    assert_eq!(
        store.get_books(),
        "<p>Ann by Short</p>\n<p>Anna by Other</p>\n<p>Anna by Tolstoy</p>\n<p>Zorba by Kazantzakis</p>\n<p>anna by Lower</p>\n"
    );
}

#[test]
fn empty_catalog_lists_nothing() {
    let store = BookStore::new();
    assert_eq!(store.get_books(), "");
    assert!(store.list_books().is_empty());
}

#[test]
fn show_book_by_id() {
    let store = BookStore::seeded();
    assert_eq!(store.get_books_id(2), "<p>Beloved by Morrison</p>\n");
    assert_eq!(store.get_books_id(42), "<p>Book id: 42 not found</p>");
    assert_eq!(store.get_books_id(0), "<p>Book id: 0 not found</p>");
    assert_eq!(store.get_books_id(4294967295), "<p>Book id: 4294967295 not found</p>");
}

#[test]
fn put_then_show_gives_the_book() {
    let mut store = BookStore::seeded();
    let reply = store.put_books(book(4, "Booked", "Wroteme"));
    assert_eq!(reply, "Placed book: Booked by Wroteme");
    assert_eq!(store.get_books_id(4), "<p>Booked by Wroteme</p>\n");
    let reply = store.put_books(book(1, "Oedipus", "Sophocles"));
    assert_eq!(reply, "Placed book: Oedipus by Sophocles");
    assert_eq!(store.get_books_id(1), "<p>Oedipus by Sophocles</p>\n");
    assert_eq!(store.list_books().len(), 4);
}

#[test]
fn edit_form_of_a_book() {
    let store = BookStore::seeded();
    assert_eq!(
        store.get_books_id_form(3),
        "<form method=\"post\" action=\"/gb/3/form\">\n<input type=\"hidden\" name=\"id\" value=\"3\">\n<p><input name=\"author\" value=\"Voltaire\"></p>\n<p><input name=\"title\" value=\"Candide\"></p>\n<input type=\"submit\" value=\"Save\">\n"
    );
    assert_eq!(store.get_books_id_form(12), "<p>Book id 12 not found</p>");
}

#[test]
fn post_updates_only_known_ids() {
    let mut store = BookStore::seeded();
    assert_eq!(store.post_book_id_form(book(1, "Another Title", "Someone Else")), "Posted book: Another Title");
    assert_eq!(store.get_books_id(1), "<p>Another Title by Someone Else</p>\n");
    assert_eq!(store.post_book_id_form(book(8, "Ghost", "Nobody")), "Book id not found: Ghost");
    assert_eq!(store.get_books_id(8), "<p>Book id: 8 not found</p>");
    assert_eq!(store.list_books().len(), 3);
}

#[test]
fn delete_then_show_reports_not_found() {
    let mut store = BookStore::seeded();
    assert_eq!(store.delete_book(2), "Data removed");
    assert_eq!(store.get_books_id(2), "<p>Book id: 2 not found</p>");
    assert_eq!(store.delete_book(2), "Data not found");
    assert_eq!(
        store.get_books(),
        "<p>Antigone by Sophocles</p>\n<p>Candide by Voltaire</p>\n"
    );
}

#[test]
fn operations_leave_other_ids_alone() {
    let mut store = BookStore::seeded();
    store.put_books(book(5, "Emma", "Austen"));
    store.delete_book(1);
    store.post_book_id_form(book(5, "Persuasion", "Austen"));
    assert_eq!(store.get_books_id(2), "<p>Beloved by Morrison</p>\n");
    assert_eq!(store.get_books_id(3), "<p>Candide by Voltaire</p>\n");
    assert_eq!(store.get_books_id(5), "<p>Persuasion by Austen</p>\n");
}

#[test]
fn book_display_text() {
    assert_eq!(book(1, "Antigone", "Sophocles").to_display_string(), "Antigone by Sophocles");
    assert_eq!(book(1, "", "").to_display_string(), " by ");
}

#[test]
fn unmatched_route_reply() {
    assert_eq!(fallback("/nowhere"), "No route to: /nowhere");
}

#[test]
fn non_ascii_titles_sort_by_code_point() {
    let mut store = BookStore::new();
    store.put_books(book(1, "Édith", "A"));
    store.put_books(book(2, "Zola", "B"));
    store.put_books(book(3, "Ébène", "C"));
    let titles: Vec<String> = store.list_books().into_iter().map(|b| b.title).collect();
    assert_eq!(titles, vec!["Zola".to_string(), "Ébène".to_string(), "Édith".to_string()]);
}

#[test]
fn placing_twice_is_placing_once() {
    let mut once = BookStore::seeded();
    once.put_books(book(6, "Ulysses", "Joyce"));
    let mut twice = BookStore::seeded();
    twice.put_books(book(6, "Ulysses", "Joyce"));
    twice.put_books(book(6, "Ulysses", "Joyce"));
    assert_eq!(once.get_books(), twice.get_books());
    assert_eq!(twice.list_books().len(), 4);
}
