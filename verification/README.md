# vocab

A terminal tool for capturing the words you don't know as you read: the Word,
the sentence you met it in, the Book, and the date. It searches everything you
have captured, has a short Note written about each Word in its sentence, and
pushes one Anki card per Word.

## Layout

- `src/` is the library, verified with Verus: what each key does and what the
  App asks to have fetched (`app`), what every Screen says (`ui`), search and
  its ranking (`search`), cards, the requests sent to AnkiConnect and what a
  sync came to (`cards`, `anki`), the Note prompt, the request sent to DeepSeek
  and what a reply comes to (`deepseek`, `notes`), how the rows of the
  database group into a corpus and when a Word leaves the sync queue
  (`store`), and the text handling underneath (`text`).
  Contracts are stated over `Seq<char>` views; the laws are public proof
  functions beside the functions they speak of.
- `app/` is the binary around it: the terminal, SQLite, the configuration
  file, and the HTTP exchanges with DeepSeek and AnkiConnect, whose request
  bodies it only serialises from the library's values. It answers each
  `Ask` the App makes with an `Answer`, and draws the lines the library gives it.
- `tests/` drives the library from outside.

The offline dictionary is a read-only `wordnet.db` kept beside the user
database; without one, every Word is shown as one the dictionary lacks.
