# echo_rust_agent_proxy

A command-line agent that talks to an OpenAI-style chat endpoint and lets the model
run tools: one-shot shell commands (`COMMAND:` lines, screened by a safety filter),
JSON tool calls between `<json>` and `</json>` (date and time, web search, page
fetching), and automatic summarization of a conversation that grew too long.

The library under `src/` is verified with Verus:

- `safety` – the four-layer command filter (`is_command_safe`) and its laws;
- `commands` – `COMMAND:` extraction and what happens to a requested command;
- `json` – JSON values, `<json>` extraction, tool-call planning and tool reports;
- `web` – search URL, search-result listing and page text (scraping via `scraper`);
- `summary` – when to summarize, the summary request and the shortened history;
- `agent` – working directory, system prompt, exit words and the per-turn decision;
- `chat`, `config`, `text` – messages, configuration sections, text primitives.

`app/` is the executable: configuration loading, terminal I/O, HTTP calls, process
execution and the interactive loop, each decision delegated to the library.
