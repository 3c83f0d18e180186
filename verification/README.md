# signal-seerr

The logic of a Signal bot for [Seerr](https://github.com/sct/overseerr):
people ask for films and series in a chat, the bot places their requests, says
how they stand, and speaks up once when one of them is stuck.

`src/` is the library, verified with Verus. It decides everything and does
nothing itself: what has to be asked of a service comes out of it as a value,
and the answer goes back in. `app/` is the program around it: the sockets, the
files and the HTTP calls.

| Module | What it decides |
|---|---|
| `dialog` | what a message means, what is asked for it, and what is answered |
| `watch` | when a wish counts as stuck, when a search may be made for the reason, and who is told |
| `insight` | which state a wish is in, and why a search found nothing suitable |
| `directory`, `state` | who belongs to which Signal account, and what changes when Authentik does |
| `notices` | what has been said about which wish, and how often was searched |
| `seerr`, `arr` | how the answers of Seerr, Radarr and Sonarr are read |
| `signal` | the lines to and from signal-cli |
| `webhook`, `bell` | the news that a wish is there, and where it goes |
| `config`, `startup`, `secret` | the configuration, the credentials and the start |
| `i18n`, `texts` | the messages, in German and English |
| `text`, `json`, `moment`, `table`, `model` | what the others are made of |

The conversations and the watcher's rounds are state machines: each step takes
what came of the last one and says what to do next. Their contracts say exactly
what each step is, and the proof functions whose names begin with `law_` say
what holds of all of them: that nobody is told the same thing twice, that the
searches keep to their budget, that a request is placed only in the name of the
person who asked, that a name has one holder, that everybody is welcomed once.

Trusted without proof are the calls into `serde_json`, `toml`, `time` and
`percent-encoding`, and std's lower case and debug format. Each stands behind a
function of its own that says what is believed of it.
