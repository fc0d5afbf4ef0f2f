# Jev Game Engine

A desktop engine that lets a model choose bounded goals in a game (Minecraft Java is the
first integration) while a local executor moves, validates and stops. This crate holds
the engine's rules as a library verified with Verus, and the program around it.

## Layout

- `src/` — the verified library. Verus proves every function's contract; the few calls
  into std and serde_json (path parts, whether a directory exists, JSON parsing) are
  trusted items whose contracts say what those calls return:
  - `latency` — the rolling request-latency window, goal duration and answer age limit;
  - `engine` — the session's decisions: connecting, observations, answers, the safety
    reflex, request pacing and budgets, dispatch deadlines, acknowledgements, arrival;
  - `session` — the loop's bookkeeping as one step function (run mode, request in flight,
    dispatch, running goal) and the laws across its steps;
  - `live`, `adapter` — the local guards of the live adapter and the offline fixture;
  - `origin`, `timeline`, `capture` — how events are attributed, paged and captured;
  - `provider` — the request body and the checks on the provider's answer;
  - `recording`, `report`, `sanitize` — validating, summarising and sanitizing recordings;
  - `harness`, `cli` — headless sessions and the command lines of the tools;
  - `model`, `json`, `text`, `survival` — the shared values and their helpers.
  The `law_*` proof functions state what holds across calls and states.
- `app/` — the program: the egui window, the Tokio session loop, the Azalea client,
  HTTP calls, files, and the floating-point geometry (distances, flight cells, the sums of
  a probability distribution), all of which hand plain values to the library.
- `tests/` — tests of the library on concrete values.

Measured floating-point values cross into the library as their IEEE-754 bit patterns;
the library reads them only for finiteness and ranges.
