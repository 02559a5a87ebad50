//! Laws of the book catalog: what a read gives back after a write or a
//! delete, what an update through the edit form may change, and that the
//! title listing of a catalog is one fixed sequence.
use vstd::prelude::*;

use crate::books::{
    book_before, book_paragraph, edit_form, form_reply, is_catalog, is_title_listing,
    lemma_book_before_total, post_state, show_reply, BookView,
};
use crate::text::{chars_lt, decimal, law_chars_lt_first_difference, lemma_chars_lt_trichotomy};

verus! {

/// Two books of a listing never share an id.
pub proof fn law_listing_ids_distinct(m: Map<u32, BookView>, bs: Seq<BookView>, i: int, j: int)
    requires
        is_catalog(m),
        is_title_listing(m, bs),
        0 <= i < bs.len(),
        0 <= j < bs.len(),
        i != j,
    ensures
        bs[i].id != bs[j].id,
{
    lemma_book_before_total(bs[i], bs[i]);
    assert(m.contains_key(bs[i].id));
    assert(m.contains_key(bs[j].id));
    if bs[i].id == bs[j].id {
        if i < j {
            assert(book_before(bs[i], bs[j]));
        } else {
            assert(book_before(bs[j], bs[i]));
        }
    }
}

/// Every book of the catalog appears in its listing.
pub proof fn law_listing_covers(m: Map<u32, BookView>, bs: Seq<BookView>, k: u32)
    requires
        is_catalog(m),
        is_title_listing(m, bs),
        m.contains_key(k),
    ensures
        exists|i: int| 0 <= i < bs.len() && #[trigger] bs[i] == m[k],
{
    let ids = Seq::new(bs.len(), |i: int| bs[i].id);
    assert(ids.no_duplicates()) by {
        assert forall|i: int, j: int| 0 <= i < ids.len() && 0 <= j < ids.len() && i != j implies ids[i]
            != ids[j] by {
            law_listing_ids_distinct(m, bs, i, j);
        }
    }
    ids.unique_seq_to_set();
    assert(ids.to_set().subset_of(m.dom())) by {
        assert forall|x: u32| ids.to_set().contains(x) implies m.dom().contains(x) by {
            let i = choose|i: int| 0 <= i < ids.len() && ids[i] == x;
            assert(m.contains_key(bs[i].id));
        }
    }
    vstd::set_lib::lemma_subset_equality(ids.to_set(), m.dom());
    assert(ids.to_set().contains(k));
    let i = choose|i: int| 0 <= i < ids.len() && ids[i] == k;
    assert(bs[i] == m[k]);
}

/// A catalog has exactly one title listing: the reply of the listing handler
/// is determined by the catalog.
pub proof fn law_listing_unique(m: Map<u32, BookView>, a: Seq<BookView>, b: Seq<BookView>)
    requires
        is_catalog(m),
        is_title_listing(m, a),
        is_title_listing(m, b),
    ensures
        a == b,
    decreases a.len(),
{
    if a.len() == 0 {
        assert(a =~= b);
    } else {
        let x = a[0];
        let y = b[0];
        assert(m.contains_key(x.id));
        assert(m.contains_key(y.id));
        law_listing_covers(m, b, x.id);
        law_listing_covers(m, a, y.id);
        let j = choose|j: int| 0 <= j < b.len() && #[trigger] b[j] == m[x.id];
        let i = choose|i: int| 0 <= i < a.len() && #[trigger] a[i] == m[y.id];
        lemma_book_before_total(x, y);
        if j > 0 {
            assert(book_before(b[0], b[j]));
            if i > 0 {
                assert(book_before(a[0], a[i]));
            }
        }
        assert(x == y);
        let m2 = m.remove(x.id);
        let a2 = a.drop_first();
        let b2 = b.drop_first();
        assert(m2.dom() =~= m.dom().remove(x.id));
        assert forall|t: int| 0 <= t < a2.len() implies #[trigger] m2.contains_key(a2[t].id) && m2[a2[t].id]
            == a2[t] by {
            law_listing_ids_distinct(m, a, 0, t + 1);
        }
        assert forall|t: int| 0 <= t < b2.len() implies #[trigger] m2.contains_key(b2[t].id) && m2[b2[t].id]
            == b2[t] by {
            law_listing_ids_distinct(m, b, 0, t + 1);
        }
        assert forall|s: int, t: int| 0 <= s < t < a2.len() implies book_before(
            #[trigger] a2[s],
            #[trigger] a2[t],
        ) by {
            assert(a2[s] == a[s + 1] && a2[t] == a[t + 1]);
        }
        assert forall|s: int, t: int| 0 <= s < t < b2.len() implies book_before(
            #[trigger] b2[s],
            #[trigger] b2[t],
        ) by {
            assert(b2[s] == b[s + 1] && b2[t] == b[t + 1]);
        }
        law_listing_unique(m2, a2, b2);
        assert(a =~= seq![x] + a2);
        assert(b =~= seq![y] + b2);
    }
}

/// The listing compares whole titles in lexicographic order (the order of
/// `String`, see `law_chars_lt_first_difference`): of two books with
/// different titles, the one whose title is a proper prefix of the other's,
/// or has the smaller character at the first position where the titles
/// differ, comes first; only equal titles fall back to the id.
pub proof fn law_listing_order_is_title_order(a: BookView, b: BookView)
    ensures
        a.title != b.title ==> (book_before(a, b) <==> ((a.title.len() < b.title.len() && a.title
            == b.title.take(a.title.len() as int)) || exists|k: int|
            0 <= k < a.title.len() && k < b.title.len() && #[trigger] a.title.take(k) == b.title.take(k)
                && (a.title[k] as int) < (b.title[k] as int))),
        a.title == b.title ==> (book_before(a, b) <==> a.id < b.id),
{
    law_chars_lt_first_difference(a.title, b.title);
    lemma_chars_lt_trichotomy(a.title, a.title);
}

/// In a listing, a book never has a title that comes after the title of a
/// later book.
pub proof fn law_listing_titles_ascend(m: Map<u32, BookView>, bs: Seq<BookView>, i: int, j: int)
    requires
        is_title_listing(m, bs),
        0 <= i < j < bs.len(),
    ensures
        !chars_lt(bs[j].title, bs[i].title),
        bs[i].title == bs[j].title ==> bs[i].id < bs[j].id,
{
    assert(book_before(bs[i], bs[j]));
    lemma_chars_lt_trichotomy(bs[i].title, bs[j].title);
}

/// After a book is placed, showing its id gives that book, and its edit form
/// carries that book.
pub proof fn law_put_then_show(m: Map<u32, BookView>, b: BookView)
    ensures
        show_reply(m.insert(b.id, b), b.id) == book_paragraph(b),
        form_reply(m.insert(b.id, b), b.id) == edit_form(b),
{
}

/// After a book is deleted, showing its id reports that it is not found.
pub proof fn law_delete_then_show(m: Map<u32, BookView>, id: u32)
    ensures
        show_reply(m.remove(id), id) == "<p>Book id: "@ + decimal(id as nat) + " not found</p>"@,
        !m.remove(id).contains_key(id),
{
}

/// Placing, updating or deleting one id leaves every other id as it was.
pub proof fn law_other_ids_untouched(m: Map<u32, BookView>, b: BookView, id: u32, other: u32)
    requires
        other != b.id,
        other != id,
    ensures
        show_reply(m.insert(b.id, b), other) == show_reply(m, other),
        show_reply(post_state(m, b), other) == show_reply(m, other),
        show_reply(m.remove(id), other) == show_reply(m, other),
{
}

/// An update through the edit form never adds an id; on an id the catalog
/// holds it is the same as placing the book.
pub proof fn law_post_keeps_ids(m: Map<u32, BookView>, b: BookView)
    ensures
        post_state(m, b).dom() == m.dom(),
        m.contains_key(b.id) ==> post_state(m, b) == m.insert(b.id, b),
        !m.contains_key(b.id) ==> post_state(m, b) == m,
{
    if m.contains_key(b.id) {
        assert(m.insert(b.id, b).dom() =~= m.dom());
    }
}

/// Deleting an id the catalog does not hold changes nothing.
pub proof fn law_delete_missing_is_noop(m: Map<u32, BookView>, id: u32)
    requires
        !m.contains_key(id),
    ensures
        m.remove(id) == m,
{
    assert(m.remove(id) =~= m);
}

/// Placing the same book twice is the same as placing it once.
pub proof fn law_put_idempotent(m: Map<u32, BookView>, b: BookView)
    ensures
        m.insert(b.id, b).insert(b.id, b) == m.insert(b.id, b),
{
    assert(m.insert(b.id, b).insert(b.id, b) =~= m.insert(b.id, b));
}

/// Placing, updating and deleting keep a catalog a catalog.
pub proof fn law_operations_keep_catalog(m: Map<u32, BookView>, b: BookView, id: u32)
    requires
        is_catalog(m),
    ensures
        is_catalog(m.insert(b.id, b)),
        is_catalog(post_state(m, b)),
        is_catalog(m.remove(id)),
{
    assert(m.insert(b.id, b).dom() =~= m.dom().insert(b.id));
    assert(m.remove(id).dom() =~= m.dom().remove(id));
}

} // verus!
