# tg-spotifystatusbot

A private Telegram bot that shares a picture of what its users are playing on Spotify. Cards are
drawn afresh for each request; nothing but the tokens, the pending logins and the allowlist is
kept.

`src/` is the library. Its functions state what they do and are proved to do it by Verus. What the
proofs rest on without proof are the statements on other crates and on the standard library: they
stand in `outside`, `cache` and `text`, and with the lists in `config` and `spotify::answer`, each
with what is claimed of the call.

| module | what it is about |
| --- | --- |
| `text`, `error` | texts as characters, failures and what users are told of them |
| `config` | the settings, read from the environment's variables |
| `db`, `cache`, `db_laws` | linked accounts, pending logins, allowed users |
| `card_url`, `http`, `card_laws` | signed links to cards, the pages of the login, requests for cards |
| `spotify` | the login, what Spotify's answers mean, when tokens are renewed |
| `telegram` | what is done about a message, and what is said |
| `chance` | new ids and random bytes |
| `render` | wrapping and fitting texts, the strokes of a card, pictures |
| `outside` | most of the calls into other crates |

`app/` is the program around it: requests, the database file, fonts and pixels. It reads its fonts
(`GoNotoCurrent-Regular.ttf`, `GoNotoCurrent-Bold.ttf`, `NotoEmoji.ttf`) from `assets/fonts` beside
the program, or else in the working directory, and writes an example card with `render-example [path]`.

Settings: `TELEGRAM_BOT_TOKEN`, `SPOTIFY_CLIENT_ID`, `SPOTIFY_CLIENT_SECRET` and `PUBLIC_BASE_URL`
must be set; `OAUTH_REDIRECT_URI`, `REDB_PATH`, `HTTP_BIND`, `CARD_SIGNING_SECRET` and
`ADMIN_USER_IDS` may be.
