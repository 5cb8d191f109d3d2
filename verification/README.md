# news_summarizer

A news summarising web service. It mirrors the latest articles of the
newsdata.io feed into a PostgreSQL store, and summarises either the New York
Times' most viewed articles or the day's stored articles with an OpenAI chat
model, cutting long texts into chunks that fit a token budget.

- `src/` is the verified library:
  - `text`: joining and splitting strings, with the law that splitting and
    joining back restores the text;
  - `tokenizer`: token counts of tiktoken's `p50k_base` encoding and the
    greedy packing of chunks into blocks within a token budget;
  - `summarizer`: the summarisation conversation, one chat request per chunk;
  - `calendar`: days and date-times as chrono holds them;
  - `json`: the JSON values read from the news feed;
  - `news`: the latest-news sync, as a step function from state and event to
    state and action;
  - `models`, `nytimes`, `handlers`: the stored rows, the NYT feed, and what
    the routes compute.
- `app/` is the service itself: the Rocket routes, the database, and the
  calls to the NYT, newsdata.io and OpenAI services.
- `tests/` exercises the library.
