//! Text assembled for retrieval-augmented prompts: excerpts of fetched
//! documents cut after a number of space-separated words, and the prompt
//! that puts the nearest documents before the user's question.
use vstd::prelude::*;

use crate::text::chars_of;

verus! {

/// The first `n` pieces of `s` split at single spaces, each followed by one
/// space: the text up to the `n`-th space, then a space. Empty when `n` is
/// zero; all of `s` and a space when `s` has fewer than `n` spaces.
pub open spec fn word_excerpt(s: Seq<char>, n: nat) -> Seq<char>
    decreases s.len(),
{
    if n == 0 {
        Seq::empty()
    } else if s.len() == 0 {
        seq![' ']
    } else if s[0] == ' ' {
        seq![' '] + word_excerpt(s.drop_first(), (n - 1) as nat)
    } else {
        seq![s[0]] + word_excerpt(s.drop_first(), n)
    }
}

/// An excerpt is the start of the text followed by a space: the text is cut
/// at a space or kept whole.
pub proof fn law_excerpt_is_prefix(s: Seq<char>, n: nat)
    requires
        n > 0,
    ensures
        word_excerpt(s, n).is_prefix_of(s.push(' ')),
    decreases s.len(),
{
    if s.len() > 0 {
        if s[0] == ' ' && n == 1 {
            assert(word_excerpt(s.drop_first(), 0) =~= Seq::<char>::empty());
        } else {
            let m: nat = if s[0] == ' ' { (n - 1) as nat } else { n };
            law_excerpt_is_prefix(s.drop_first(), m);
            assert(s.push(' ') =~= seq![s[0]] + s.drop_first().push(' '));
        }
    }
}

/// A text without spaces is kept whole, followed by one space.
pub proof fn law_excerpt_of_one_word(s: Seq<char>, n: nat)
    requires
        n > 0,
        !s.contains(' '),
    ensures
        word_excerpt(s, n) == s.push(' '),
    decreases s.len(),
{
    if s.len() > 0 {
        assert(s[0] != ' ');
        assert(!s.drop_first().contains(' ')) by {
            if s.drop_first().contains(' ') {
                let k = choose|k: int| 0 <= k < s.drop_first().len() && s.drop_first()[k] == ' ';
                assert(s[k + 1] == ' ');
            }
        }
        law_excerpt_of_one_word(s.drop_first(), n);
        assert(s.push(' ') =~= seq![s[0]] + s.drop_first().push(' '));
    } else {
        assert(s.push(' ') =~= seq![' ']);
    }
}

/// The number of spaces in `s`.
pub open spec fn space_count(s: Seq<char>) -> nat
    decreases s.len(),
{
    if s.len() == 0 {
        0
    } else {
        (if s[0] == ' ' { 1nat } else { 0nat }) + space_count(s.drop_first())
    }
}

/// An excerpt after `n > 0` words ends with a space and holds `n` spaces,
/// or one more than the text when the text has fewer than `n` spaces: the
/// words kept are exactly the first `n` pieces of the text split at spaces.
/// With `law_excerpt_is_prefix` this fixes the excerpt.
pub proof fn law_excerpt_spaces(s: Seq<char>, n: nat)
    requires
        n > 0,
    ensures
        word_excerpt(s, n).len() > 0,
        word_excerpt(s, n).last() == ' ',
        space_count(word_excerpt(s, n)) == (if space_count(s) + 1 < n { space_count(s) + 1 } else { n }),
    decreases s.len(),
{
    if s.len() == 0 {
        assert(space_count(seq![' ']) == 1) by {
            assert(seq![' '].drop_first() =~= Seq::<char>::empty());
            assert(space_count(Seq::<char>::empty()) == 0);
            assert(seq![' '][0] == ' ');
        }
    } else {
        let rest = word_excerpt(s.drop_first(), if s[0] == ' ' { (n - 1) as nat } else { n });
        assert(word_excerpt(s, n) == seq![s[0]] + rest);
        assert((seq![s[0]] + rest).drop_first() =~= rest);
        if s[0] == ' ' && n == 1 {
            assert(rest =~= Seq::<char>::empty());
            assert(space_count(seq![' ']) == 1) by {
                assert(seq![' '].drop_first() =~= Seq::<char>::empty());
                assert(space_count(Seq::<char>::empty()) == 0);
                assert(seq![' '][0] == ' ');
            }
        } else {
            law_excerpt_spaces(s.drop_first(), if s[0] == ' ' { (n - 1) as nat } else { n });
        }
    }
}

/// Adding a document adds its excerpt and a newline after the excerpts of
/// the documents before it, each cut after the same number of words; no
/// documents give no text.
pub proof fn law_excerpts_append(bodies: Seq<Seq<char>>, body: Seq<char>, n: nat)
    ensures
        excerpts_text(Seq::empty(), n) == Seq::<char>::empty(),
        excerpts_text(bodies.push(body), n) == excerpts_text(bodies, n) + word_excerpt(body, n) + seq!['\n'],
{
    assert(bodies.push(body).drop_last() =~= bodies);
}

/// The excerpts of several documents, each cut after `n` words and ended
/// by a newline.
pub open spec fn excerpts_text(bodies: Seq<Seq<char>>, n: nat) -> Seq<char>
    decreases bodies.len(),
{
    if bodies.len() == 0 {
        Seq::empty()
    } else {
        excerpts_text(bodies.drop_last(), n) + word_excerpt(bodies.last(), n) + seq!['\n']
    }
}

/// The number of words the document excerpts keep.
pub const EXCERPT_WORDS: usize = 300;

proof fn lemma_excerpt_step(s: Seq<char>, i: int, n: nat)
    requires
        0 <= i < s.len(),
        n > 0,
    ensures
        word_excerpt(s.skip(i), n) == seq![s[i]] + word_excerpt(
            s.skip(i + 1),
            if s[i] == ' ' { (n - 1) as nat } else { n },
        ),
{
    assert(s.skip(i).drop_first() =~= s.skip(i + 1));
}

/// `body` cut after `max_words` space-separated words, each followed by a
/// space.
pub fn word_excerpt_of(body: &str, max_words: usize) -> (r: String)
    ensures
        r@ == word_excerpt(body@, max_words as nat),
{
    let chars = chars_of(body);
    let mut out = String::new();
    let mut i: usize = 0;
    let mut left: usize = max_words;
    assert(chars@.skip(0) =~= chars@);
    while i < chars.len() && left > 0
        invariant
            i <= chars.len(),
            chars@ == body@,
            out@ + word_excerpt(chars@.skip(i as int), left as nat) == word_excerpt(body@, max_words as nat),
        decreases chars.len() - i,
    {
        let c = chars[i];
        proof {
            lemma_excerpt_step(chars@, i as int, left as nat);
        }
        out.push(c);
        if c == ' ' {
            left = left - 1;
        }
        i = i + 1;
        proof {
            assert(out@ + word_excerpt(chars@.skip(i as int), left as nat) =~= word_excerpt(
                body@,
                max_words as nat,
            ));
        }
    }
    if left > 0 {
        assert(chars@.skip(i as int) =~= Seq::<char>::empty());
        out.push(' ');
    }
    proof {
        assert(out@ =~= word_excerpt(body@, max_words as nat));
    }
    out
}

/// The text gathered from fetched documents: each document's body cut
/// after 300 words, then a newline.
pub fn extract_docs_text(bodies: &Vec<String>) -> (r: String)
    ensures
        r@ == excerpts_text(bodies@.map_values(|b: String| b@), EXCERPT_WORDS as nat),
{
    let ghost views = bodies@.map_values(|b: String| b@);
    let mut text = String::new();
    let mut k: usize = 0;
    while k < bodies.len()
        invariant
            k <= bodies.len(),
            views == bodies@.map_values(|b: String| b@),
            text@ == excerpts_text(views.take(k as int), EXCERPT_WORDS as nat),
        decreases bodies.len() - k,
    {
        let piece = word_excerpt_of(bodies[k].as_str(), EXCERPT_WORDS);
        text.append(piece.as_str());
        text.push('\n');
        proof {
            assert(views.take(k + 1).drop_last() =~= views.take(k as int));
            assert(views[k as int] == bodies@[k as int]@);
        }
        k = k + 1;
    }
    assert(views.take(bodies.len() as int) =~= views);
    text
}

/// One retrieved document as it stands in the prompt's context.
pub open spec fn context_entry(title: Seq<char>, body: Seq<char>) -> Seq<char> {
    "Title: "@ + title + "\nBody: "@ + body + "\n"@
}

/// The context entries of the documents, separated by newlines.
pub open spec fn joined_context(docs: Seq<(Seq<char>, Seq<char>)>) -> Seq<char>
    decreases docs.len(),
{
    if docs.len() == 0 {
        Seq::empty()
    } else if docs.len() == 1 {
        context_entry(docs[0].0, docs[0].1)
    } else {
        joined_context(docs.drop_last()) + "\n"@ + context_entry(docs.last().0, docs.last().1)
    }
}

/// The context lists every document in order, each as `Title: {title}`, a
/// newline, `Body: {body}` and a newline, with a blank line between two
/// documents; the prompt is the context, a newline and the question.
pub proof fn law_rag_prompt_shape(
    docs: Seq<(Seq<char>, Seq<char>)>,
    title: Seq<char>,
    body: Seq<char>,
    question: Seq<char>,
)
    ensures
        joined_context(Seq::empty()) == Seq::<char>::empty(),
        joined_context(seq![(title, body)]) == "Title: "@ + title + "\nBody: "@ + body + "\n"@,
        docs.len() > 0 ==> joined_context(docs.push((title, body))) == joined_context(docs) + "\n"@
            + "Title: "@ + title + "\nBody: "@ + body + "\n"@,
        rag_prompt_text(docs, question) == joined_context(docs) + "\n"@ + question,
{
    assert(docs.push((title, body)).drop_last() =~= docs);
    assert(docs.push((title, body)).last() == (title, body));
}

/// The prompt sent to the chat model: the context, a newline, the question.
pub open spec fn rag_prompt_text(docs: Seq<(Seq<char>, Seq<char>)>, question: Seq<char>) -> Seq<char> {
    joined_context(docs) + "\n"@ + question
}

/// The views of (title, body) pairs.
pub open spec fn doc_views(docs: Seq<(String, String)>) -> Seq<(Seq<char>, Seq<char>)> {
    docs.map_values(|d: (String, String)| (d.0@, d.1@))
}

/// The prompt for a question, given the nearest documents as (title, body)
/// pairs.
pub fn rag_prompt(docs: &Vec<(String, String)>, question: &str) -> (r: String)
    ensures
        r@ == rag_prompt_text(doc_views(docs@), question@),
{
    let ghost views = doc_views(docs@);
    let mut context = String::new();
    let mut k: usize = 0;
    while k < docs.len()
        invariant
            k <= docs.len(),
            views == doc_views(docs@),
            context@ == joined_context(views.take(k as int)),
        decreases docs.len() - k,
    {
        if k > 0 {
            context.append("\n");
        }
        context.append("Title: ");
        context.append(docs[k].0.as_str());
        context.append("\nBody: ");
        context.append(docs[k].1.as_str());
        context.append("\n");
        proof {
            assert(views.take(k + 1).drop_last() =~= views.take(k as int));
            assert(views[k as int] == (docs@[k as int].0@, docs@[k as int].1@));
            if k == 0 {
                assert(views.take(1).len() == 1);
            }
        }
        k = k + 1;
    }
    assert(views.take(docs.len() as int) =~= views);
    context.append("\n");
    context.append(question);
    context
}

} // verus!
