# cstat

A one-line status for a coding session:

```
project │ ⎇ branch │ Model │ Ctx: N% │ ⧖ m:ss │ Usage: N% ▓▓░░┃░░░░░ → HH:MM │ activity │ tasks
```

`src/` is a library verified with Verus. `app/` is the program around it: it reads the
report from standard input, the settings, the transcript and the stored state, and hands
plain values to the library.

| Module | Content |
|--------|---------|
| `transcript` | what the entries of a transcript say about tools, agents, todo items and tasks |
| `cache` | the prompt cache, inferred from token counts and costs |
| `usage` | rate limits, from the report or from memory |
| `state`, `config`, `stdin` | what is kept, set and reported, and where it lies |
| `timeline`, `style`, `render` | the sections of the line |
| `properties` | what holds of every line |
| `text`, `table`, `number`, `clock`, `json` | the ground the rest stands on |
