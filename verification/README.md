# explorer_kit

The verified core of a collection of small programs: web servers built on
axum, clients of a chat-completion service, and runners for language and
embedding models.

- `src/` is the library, verified with Verus:
  - `books` / `book_laws`: the in-memory book catalog behind the book server,
    its HTML replies, and the laws that relate its operations.
  - `generation`: the bookkeeping of token-by-token text generation.
  - `retrieval`: document excerpts and retrieval-augmented prompts.
  - `models`: repository and weights choices, sentence pairs, token display.
  - `llm`: request and reply records of the chat-completion service.
  - `records`: employee and practice-session rows and replies.
  - `pages`: small demo pages (an image, a random number, record ids).
  - `text`: decimal rendering, characters of strings, lexicographic order.
- `app/` holds the programs themselves: servers, clients and model loops,
  which hand plain values to the library.
- `tests/` runs the library on concrete values.
