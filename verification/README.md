# tweet_vault

Turns an archive of tweets (an SQLite database of tweets, users,
conversations and references between tweets) into a Markdown vault: one note
per tweet, user and conversation, an index note per tag and a calendar note
per day.

- `src/` is the library, verified with Verus:
  - `text`: ASCII case folding, punctuation stripping, whitespace splitting,
    literal replacement and decimal rendering, each against a model over
    `Seq<char>`;
  - `model`: the records of the archive;
  - `terms`: an author's vocabulary, the vault's tags and the counts behind
    the tags of a single tweet;
  - `render`: the text of the notes, filled into their templates;
  - `vault`: conversations, the tag index, the calendar and the paths of the
    notes;
  - `database`: the statements that prepare a database and the retry policy
    for reading a conversation;
  - `outside`: the calls into `regex` and `chrono`.
- `app/` is the program: it reads the database and the templates, computes
  the floating-point tag frequencies, and writes the files.
