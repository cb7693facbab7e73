# fml9000

A music and YouTube library player: it scans music folders into a SQLite
library, follows YouTube channels and playlists through `yt-dlp`, and plays
both from a terminal player or a web front end.

## Layout

- `src/` is the library, written in Verus and verified. It holds the
  project's rules and data: tracks, videos and playlists and how they are
  shown, settings, what plays next, the scan's counting, the recently played
  and added lists, the queue and playlist positions, the YouTube URL rules
  and how `yt-dlp` records become channels and videos, the terminal player's
  state machine and display text, the web API's answers, and the desktop
  front end's rules. Each public function states its result in its
  contract, and the laws of the library (such as what shuffling can pick,
  that a drop keeps every playlist entry, or that a slug is its own slug)
  are proof functions named `law_*`.
- `tests/` runs the library on concrete values.
- `app/` is the program around it: the database (diesel), file scanning
  (walkdir, lofty), thumbnails (ureq), the `yt-dlp`, `ffmpeg` and `mpv`
  processes, sound (rodio), the terminal (crossterm, ratatui) and the web
  server (axum). It hands plain values to the library and acts on what the
  library decides.

## Use

`fml9000 scan [folders...]`, `fml9000 web [port]`, `fml9000 tui`,
`fml9000 fetch <url>`, `fml9000 thumbnails`, `fml9000 watch`.
