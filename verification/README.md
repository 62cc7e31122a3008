# heart

The verified core of Heart, a desktop AI companion that talks through a local
language model, feels emotions and remembers conversations in a tiered memory.

- `src/` is the library, verified with Verus:
  - `text`, `numbers`: character-level text operations (replace, join,
    search, lexicographic order) and decimal integers written and read back;
  - `progress`: cleaning of the model download's progress lines;
  - `prompts`: the prompt templates and their builders;
  - `llm`: the messages exchanged with the model server and its requests;
  - `memory`: memory records, their metadata as JSON, and the policy of the hot, warm and cold tiers
    (capacities, oldest records first, search order, access counting,
    promotion);
  - `brain`, `turn`: the decisions of a conversation turn, as steps between
    which the application does the outside work;
  - `clock`: instants and dates from the calendar crate;
  - `errors`, `api_response`: error types and the answer envelope.
- `app/` is the desktop application around it: the window and its commands,
  the model server client, the embedding and emotion models, and the memory
  database.
- `tests/` exercises the library on concrete values.
