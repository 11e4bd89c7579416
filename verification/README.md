# civitai_tui

The verified core of a terminal browser for Civitai models, images and
downloads, written in Verus. The library's own functions under `src/` carry
contracts that Verus proves; the public `law_*` proof functions state
properties that hold across calls. The calls into the standard library and
into `time`, `html2text` and `ratatui` go through a few small trusted
wrappers (`#[verifier::external_body]`), whose contracts are believed, not
proved; each one's doc comment says what it claims.

## Layout

- `src/` — the library.
  - `status`, `app`: the status line, its history and the screen state.
  - `downloads`, `active`, `downloadtab`: download history, running downloads,
    resumable sessions and the Downloads tab's actions.
  - `keys`, `tabkeys`, `searchform`, `imageform`, `searchkeys`, `settings`,
    `enterkey`, `pathprompt`, `lists`, `browse`: what keys do in windows, on
    tabs, in the search forms, prompts and the settings editor, and how the
    lists are stepped through.
  - `models`, `results`, `selection`, `picks`, `liked`, `savedmodels`,
    `savedimages`, `image`, `metadata`, `tags`, `catalog`, `templates`,
    `covers`, `media`: search results, saved models and images, what is
    selected and picked, image metadata, tag suggestions, saved search
    templates and the cover and image caches.
  - `screen`, `sidebar`, `popups`, `markup`, `description`, `boxes`,
    `layout`, `render`, `text`, `paths`, `chars`, `sorting`: what the screens
    show and how files are named.
- `tests/` — tests of the library on concrete values.
- `app/` — the unverified glue: files, JSON, terminal events and styles.
