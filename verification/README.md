# cinematch

The API server of Cinematch, a movie recommendation platform, with its
logic verified by Verus.

- `src/` is the verified library:
  - `session`: the voting session, as a step function from state and event
    to next state and the messages to send;
  - `recommender`: the window over a recommendation list, which lists are
    stale, the refresh queue and the embeddings debounce;
  - `provider`: provider keys and how TMDB results become content;
  - `params`: recommendation parameters and their fingerprint;
  - `model`: content as stored, shown and received;
  - `api`: input checks, replies of the authentication service, CORS,
    search upserts;
  - `auth`: authentication of requests by a biscuit token;
  - `text`, `order`, `clock`: splitting and joining text, sorting, deadlines.
- `tests/` exercises the library with the real outside crates.
- `app/` is the server around it: HTTP routes, database queries, TMDB calls,
  websockets and background workers.
