# Tradscape

The server of a turn-based roguelike multiplayer world in the manner of RuneScape: players
walk, gather, fight, trade and chat on a shared map that advances one tick a second.

The rules of the world, its wire format and its session logic are a library that Verus
verifies (`src/`). The program around it (`app/`) serves the client's files over HTTP,
speaks WebTransport and keeps the players in SQLite.

## The world

- New players start with 50 coins. A bronze axe costs 10 coins, a bronze pickaxe 15.
- An axe is needed to chop, a pickaxe to mine, a rod to fish. Berries heal 3 hit points.
- A hit point comes back every six seconds.
- Everybody is stored every ten seconds and when they leave.

## The library

| Modules | What they hold |
| --- | --- |
| `text`, `search`, `rounding`, `levels`, `curve` | texts, first matches, chances in single precision, the curve of experience |
| `types`, `defs`, `map` | the data of the world and its tables |
| `names`, `inventory`, `ledger`, `belongings` | what items are called, what players carry, and that nothing of it is lost |
| `handle`, `pools`, `reuse` | the entities, their slots and the references to them |
| `sim`, `path`, `actions`, `gather`, `combat`, `trade`, `chat`, `tick`, `cells` | the rules |
| `save` | what is stored of a player |
| `json`, `codec`, `wire`, `views`, `command`, `sync` | the wire format, and what a client knows after a frame |
| `session` | who is connected and what each client is sent |

A contract speaks of the views of the data (`SimV`, `PlayerV`, `ServerV` and so on). Functions
whose names begin with `law_` state what holds of several operations together.

## Running

The program in `app/` is a crate of its own that depends on the library. It reads the map from
the file that `TRADSCAPE_MAP` names (`map.json` without it): a JSON object with `w`, `h`,
`tiles`, `objects`, `mobs` and `player_spawn`. The client is served on port 8081 and
WebTransport on port 8082; `TRADSCAPE_HTTP_BIND`, `TRADSCAPE_WT_BIND`, `TRADSCAPE_ROOT` and
`TRADSCAPE_CERT_HASH_FILE` change where.
