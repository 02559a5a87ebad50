//! Choices made around model runs: which repository and revision to fetch,
//! which weights file to load, which sentence pairs a similarity run
//! compares, and how a prompt token is shown.
use vstd::prelude::*;

use crate::text::{chars_of, decimal, push_decimal};

verus! {

/// The sentence-embedding model used when none is named.
pub open spec fn default_model() -> Seq<char> {
    "sentence-transformers/all-MiniLM-L6-v2"@
}

/// The revision of the default model used when none is named.
pub open spec fn default_revision() -> Seq<char> {
    "refs/pr/21"@
}

/// The repository and revision fetched for the given options: a named model
/// without a revision uses `main`; the default model uses its own default
/// revision unless one is named.
pub open spec fn resolved_repo(model_id: Option<Seq<char>>, revision: Option<Seq<char>>) -> (Seq<char>, Seq<char>) {
    match (model_id, revision) {
        (Some(m), Some(r)) => (m, r),
        (Some(m), None) => (m, "main"@),
        (None, Some(r)) => (default_model(), r),
        (None, None) => (default_model(), default_revision()),
    }
}

/// The view of an optional string.
pub open spec fn opt_view(o: Option<String>) -> Option<Seq<char>> {
    match o {
        Some(s) => Some(s@),
        None => None,
    }
}

/// The repository and revision to fetch for the given command-line options.
pub fn resolve_repo(model_id: Option<String>, revision: Option<String>) -> (r: (String, String))
    ensures
        (r.0@, r.1@) == resolved_repo(opt_view(model_id), opt_view(revision)),
{
    match (model_id, revision) {
        (Some(m), Some(r)) => (m, r),
        (Some(m), None) => (m, String::from_str("main")),
        (None, Some(r)) => (String::from_str("sentence-transformers/all-MiniLM-L6-v2"), r),
        (None, None) => (
            String::from_str("sentence-transformers/all-MiniLM-L6-v2"),
            String::from_str("refs/pr/21"),
        ),
    }
}

/// The weights file to fetch: the PyTorch file or the safetensors file.
pub fn weights_file(use_pth: bool) -> (r: String)
    ensures
        r@ == (if use_pth { "pytorch_model.bin"@ } else { "model.safetensors"@ }),
{
    if use_pth {
        String::from_str("pytorch_model.bin")
    } else {
        String::from_str("model.safetensors")
    }
}

/// The pairs `(i, j)` with `i < j < n` whose first member is at least
/// `from`, ordered by `i` and then by `j`.
pub open spec fn pairs_from(n: nat, from: nat) -> Seq<(usize, usize)>
    decreases n - from,
{
    if from >= n {
        Seq::empty()
    } else {
        Seq::new((n - from - 1) as nat, |k: int| (from as usize, (from + 1 + k) as usize))
            + pairs_from(n, from + 1)
    }
}

proof fn lemma_pairs_from(n: nat, from: nat)
    requires
        n <= usize::MAX,
    ensures
        forall|k: int| 0 <= k < pairs_from(n, from).len() ==> from <= #[trigger] pairs_from(n, from)[k].0
            < pairs_from(n, from)[k].1 < n,
        forall|i: nat, j: nat| from <= i < j < n ==> #[trigger] pairs_from(n, from).contains((i as usize, j as usize)),
        pairs_from(n, from).no_duplicates(),
    decreases n - from,
{
    if from < n {
        lemma_pairs_from(n, from + 1);
        let row = Seq::new((n - from - 1) as nat, |k: int| (from as usize, (from + 1 + k) as usize));
        let rest = pairs_from(n, from + 1);
        assert(pairs_from(n, from) == row + rest);
        assert forall|i: nat, j: nat| from <= i < j < n implies #[trigger] pairs_from(n, from).contains(
            (i as usize, j as usize),
        ) by {
            if i == from {
                assert(pairs_from(n, from)[j - from - 1] == (i as usize, j as usize));
            } else {
                assert(rest.contains((i as usize, j as usize)));
                let k = choose|k: int| 0 <= k < rest.len() && rest[k] == (i as usize, j as usize);
                assert(pairs_from(n, from)[row.len() + k] == (i as usize, j as usize));
            }
        }
        assert forall|a: int, b: int| 0 <= a < b < pairs_from(n, from).len() implies pairs_from(n, from)[a]
            != pairs_from(n, from)[b] by {
            if b >= row.len() && a < row.len() {
                assert(pairs_from(n, from)[b] == rest[b - row.len()]);
                assert(from + 1 <= rest[b - row.len()].0);
                assert(pairs_from(n, from)[a] == row[a]);
            } else if a < row.len() {
                assert(pairs_from(n, from)[a] == row[a]);
                assert(pairs_from(n, from)[b] == row[b]);
            } else if a >= row.len() {
                assert(pairs_from(n, from)[a] == rest[a - row.len()]);
                assert(pairs_from(n, from)[b] == rest[b - row.len()]);
            }
        }
    }
}

/// The sentence pairs of a similarity run are exactly the pairs `(i, j)`
/// with `i < j < n`, each listed once.
pub proof fn law_sentence_pairs(n: nat)
    requires
        n <= usize::MAX,
    ensures
        forall|k: int| 0 <= k < pairs_from(n, 0).len() ==> #[trigger] pairs_from(n, 0)[k].0
            < pairs_from(n, 0)[k].1 < n,
        forall|i: nat, j: nat| i < j < n ==> #[trigger] pairs_from(n, 0).contains((i as usize, j as usize)),
        pairs_from(n, 0).no_duplicates(),
{
    lemma_pairs_from(n, 0);
}

/// Every pair of distinct sentences among `n`, each once, the lower index
/// first: `(0, 1), (0, 2), ..., (1, 2), ...`.
pub fn sentence_pairs(n: usize) -> (r: Vec<(usize, usize)>)
    ensures
        r@ == pairs_from(n as nat, 0),
{
    let mut r: Vec<(usize, usize)> = Vec::new();
    let mut i: usize = 0;
    while i < n
        invariant
            i <= n,
            r@ + pairs_from(n as nat, i as nat) == pairs_from(n as nat, 0),
        decreases n - i,
    {
        let ghost before = r@;
        let mut j: usize = i + 1;
        while j < n
            invariant
                i < j <= n,
                r@ == before + Seq::new((j - i - 1) as nat, |k: int| (i, (i + 1 + k) as usize)),
            decreases n - j,
        {
            r.push((i, j));
            proof {
                assert(r@ =~= before + Seq::new((j + 1 - i - 1) as nat, |k: int| (i, (i + 1 + k) as usize)));
            }
            j = j + 1;
        }
        proof {
            assert(r@ + pairs_from(n as nat, (i + 1) as nat) =~= before + pairs_from(n as nat, i as nat));
        }
        i = i + 1;
    }
    assert(pairs_from(n as nat, n as nat) =~= Seq::<(usize, usize)>::empty());
    assert(r@ =~= r@ + pairs_from(n as nat, n as nat));
    r
}

/// Every occurrence of the nonempty pattern `pat` in `s`, from left to right
/// and without overlap, replaced by `rep`, as `str::replace` does.
pub open spec fn replace_all(s: Seq<char>, pat: Seq<char>, rep: Seq<char>) -> Seq<char>
    decreases s.len(),
{
    if s.len() == 0 {
        Seq::empty()
    } else if pat.len() > 0 && pat.len() <= s.len() && s.take(pat.len() as int) == pat {
        rep + replace_all(s.skip(pat.len() as int), pat, rep)
    } else {
        seq![s[0]] + replace_all(s.drop_first(), pat, rep)
    }
}

/// How a prompt token is shown: the word-start mark `▁` becomes a space and
/// the byte token `<0x0A>` a newline.
pub open spec fn shown_token(token: Seq<char>) -> Seq<char> {
    replace_all(replace_all(token, seq!['\u{2581}'], seq![' ']), "<0x0A>"@, seq!['\n'])
}

/// Spaces that pad `n` characters to `width`.
pub open spec fn padding(n: nat, width: nat) -> Seq<char> {
    Seq::new(if n < width { (width - n) as nat } else { 0 }, |k: int| ' ')
}

/// One line of the verbose prompt listing: the token id right-aligned in
/// seven columns, an arrow, and the shown token in single quotes.
pub open spec fn token_line(id: u32, token: Seq<char>) -> Seq<char> {
    padding(decimal(id as nat).len(), 7) + decimal(id as nat) + " -> '"@ + shown_token(token) + "'"@
}

fn starts_at(s: &Vec<char>, i: usize, pat: &Vec<char>) -> (r: bool)
    requires
        i <= s.len(),
    ensures
        r == (pat@.len() <= s@.len() - i && s@.skip(i as int).take(pat@.len() as int) == pat@),
{
    if pat.len() > s.len() - i {
        return false;
    }
    let mut k: usize = 0;
    while k < pat.len()
        invariant
            k <= pat.len(),
            i <= s.len(),
            pat@.len() <= s@.len() - i,
            forall|t: int| 0 <= t < k ==> s@[i + t] == pat@[t],
        decreases pat.len() - k,
    {
        if s[i + k] != pat[k] {
            assert(s@.skip(i as int).take(pat@.len() as int)[k as int] != pat@[k as int]);
            return false;
        }
        k = k + 1;
    }
    assert(s@.skip(i as int).take(pat@.len() as int) =~= pat@);
    true
}

/// `s` with every occurrence of the nonempty pattern `pat` replaced by `rep`.
fn replace_text(s: &str, pat: &str, rep: &str) -> (r: String)
    requires
        pat@.len() > 0,
    ensures
        r@ == replace_all(s@, pat@, rep@),
{
    let cs = chars_of(s);
    let ps = chars_of(pat);
    let mut out = String::new();
    let mut i: usize = 0;
    assert(cs@.skip(0) =~= cs@);
    while i < cs.len()
        invariant
            i <= cs.len(),
            cs@ == s@,
            ps@ == pat@,
            out@ + replace_all(cs@.skip(i as int), pat@, rep@) == replace_all(s@, pat@, rep@),
        decreases cs.len() - i,
    {
        let ghost rest = cs@.skip(i as int);
        if ps.len() > 0 && starts_at(&cs, i, &ps) {
            proof {
                assert(rest.take(pat@.len() as int) =~= cs@.skip(i as int).take(pat@.len() as int));
                assert(rest.skip(pat@.len() as int) =~= cs@.skip(i + pat@.len()));
            }
            out.append(rep);
            i = i + ps.len();
        } else {
            proof {
                assert(rest.drop_first() =~= cs@.skip(i + 1));
            }
            out.push(cs[i]);
            i = i + 1;
        }
    }
    assert(cs@.skip(i as int) =~= Seq::<char>::empty());
    assert(out@ =~= replace_all(s@, pat@, rep@));
    out
}

/// One line of the verbose prompt listing of the phi model runner.
pub fn verbose_token_line(id: u32, token: &str) -> (r: String)
    ensures
        r@ == token_line(id, token@),
{
    let mut digits = String::new();
    push_decimal(&mut digits, id as u64);
    let n = chars_of(digits.as_str()).len();
    let mut out = String::new();
    let mut k: usize = n;
    while k < 7
        invariant
            n <= k <= 7 || (n > 7 && k == n),
            n == decimal(id as nat).len(),
            out@ == Seq::new((k - n) as nat, |t: int| ' '),
        decreases 7 - k,
    {
        out.push(' ');
        proof {
            assert(out@ =~= Seq::new((k + 1 - n) as nat, |t: int| ' '));
        }
        k = k + 1;
    }
    assert(out@ =~= padding(n as nat, 7));
    out.append(digits.as_str());
    out.append(" -> '");
    proof {
        reveal_strlit("\u{2581}");
        reveal_strlit("<0x0A>");
    }
    let spaced = replace_text(token, "\u{2581}", " ");
    let shown = replace_text(spaced.as_str(), "<0x0A>", "\n");
    proof {
        reveal_strlit(" ");
        reveal_strlit("\n");
        assert("\u{2581}"@ =~= seq!['\u{2581}']);
        assert(" "@ =~= seq![' ']);
        assert("\n"@ =~= seq!['\n']);
    }
    out.append(shown.as_str());
    out.append("'");
    out
}

} // verus!
