# enigma

The verified core of the Enigma assistant: an AI orchestrator that routes a
request to chat, analysis, command execution, content creation or Spotify,
and in Brain mode decomposes it into steps, chains each step's context into
the next, rolls back after failures and reviews the result.

- `src/` is the library, checked by Verus: provider selection and daily
  usage limits (`model`), the Brain planner's state machines and prompts
  (`brain`, `steps`), command plans and reports (`cmd_executor`), file
  write plans and JSON array scanning (`hands`, `operations`), path
  normalisation and working-directory resolution (`paths`), fuzzy path
  ranking (`search_model`), Spotify requests, OAuth URLs and response
  formatting (`sport`), Markdown line classification (`styles`), the menu
  and router (`router`), and the text and JSON helpers they share.
- `app/` is the program around it: HTTP and TLS calls, the callback server,
  the file system, processes, the clock and the terminal.
- `tests/` runs the library on concrete inputs.

API keys and Spotify settings are read from environment variables named as
in the assistant's key file (`GROQ_KEY`, `GEMINI_KEY`, `SPOTIFY_CLIENT_ID`,
...).
