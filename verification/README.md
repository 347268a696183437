# AviaBot

A voice bot for TeamSpeak 3 that relays radio traffic between the players of a flight simulator. It
reads the positions of the players from RabbitMQ, decides who is in reach of whom, and whispers to
each player the voices that the player hears, and no others.

- Lobby and spectators of a coalition are one room: who speaks there is heard by all of it.
- In the game a player is heard by the other active players of the coalition within `max_distance`.
- Whoever speaks hears a click and a squelch tail of themselves, and no mix.
- When the last voice falls silent, those who heard it hear a squelch tail.

## Layout

`src/` is the verified library. It holds no sockets, threads, clocks or floating-point numbers;
numbers that are floating point elsewhere are carried as bit patterns.

| Module | What it decides |
|---|---|
| `position`, `roster_laws` | where each player is filed, message by message |
| `ts3_client_list`, `db` | which TeamSpeak clients are online, and with which UIDs |
| `audio::routing`, `audio::routing_laws` | who hears whom |
| `audio::relay` | what each listener is sent |
| `audio::queue`, `audio::mix` | the frames that wait for each speaker, and their sum |
| `audio::mixer`, `audio::mixer_laws` | what the mixer does on each tick |
| `audio::effects` | when noise, overdrive, clicks and tails start, go on and end |
| `audio::decoder`, `audio::encoder` | what becomes of decoded packets and encoded frames |
| `rabbitmq` | what is done with the messages of the broker |
| `seq_logger` | structured log events, their batches and their JSON |
| `ts3_client` | the identity of the bot, what the mixer is told, the packets that are whispered |
| `test_load` | synthetic speakers |
| `fx_map`, `lists`, `text`, `number`, `config` | dictionaries, lists, text, bit patterns, configuration |

`app/` is the program around it: connections, threads, timing, Opus, and the signal processing.
`tests/` runs the library.

Calls into other crates stand in small functions whose contracts are taken on trust; each says in
its comment which function it calls and what is claimed of it. They are in `fx_map`, `audio::queue`,
`seq_logger` and `ts3_client`.

## Building the program

The program needs libopus (through the `opus` crate) and the `audio` feature of `tsclientlib`. The
manifest leaves that feature off, so that the library builds where libopus is missing; switch it on
for the program. The program reads `config.toml` from the working directory:

```toml
[ts3]
address = "127.0.0.1:9987"
name = "Dispatcher"
channel = "Test"
channel_password = "password"
identity_key = "your-ts3-identity-key-here"

[rabbitmq]
enabled = true
hostname = "localhost"
port = 5672
username = "guest"
password = "guest"
queue = "avia_bot_queue"
# ts3_events_queue = "ts3_events"
# ts3_events_exchange = "ts3_events"

[relay]
max_distance = 42000.0
coalition_check = true
radio_effects_enabled = true

[audio]
output_gain = 5.0
synthetic_speakers = 0

# [seq]
# enabled = true
# url = "http://localhost:5341"
# application_name = "AviaBot"

# [db]
# enabled = true
# url = "postgres://localhost/teamspeak"
```
