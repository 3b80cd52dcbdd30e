# banned_words

A filter for chat messages: it finds banned words in their common disguises,
censors them, and can have what the words miss judged by a language model in a
worker process.

- `src/` is the library, verified with Verus.
  - `text`, `list`: characters, white space, letter case, words, comma lists
  - `detect`: which banned word a message spells, and how
  - `censor`: what is shown of a message
  - `score`, `review`: risk scores and the course of a model review
  - `config`: the settings, their file and the questions for them
  - `prompt`: questions to the operator
  - `message`, `filter`: what the engine sends and what it is answered
  - `json`: JSON text, through `serde_json`
- `tests/` runs the library.
- `app/` is the program around it: the connection to the engine, the settings
  file and the worker process.

The functions named `law_..` state what holds of the library as a whole.
