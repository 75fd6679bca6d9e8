# Amautum Transcriptor

The agent that transcribes hearings on the machine of whoever recorded them. The audio never
leaves it: what is uploaded to Amautum is the text and its times.

`src/` is the verified library: what the agent decides and computes, with contracts that Verus
proves.

| Module | What it holds |
| --- | --- |
| `text` | Strings as sequences of characters: trimming, splitting, searching, numbers |
| `config` | Fixed configuration, and the links that the agent opens |
| `types` | What the parts of the agent share: events, transcripts, the state of a job |
| `outside` | The outside collections and channels, with what is trusted of them |
| `ws_hub` | The events of each job, towards the pages that listen |
| `state` | The registry of jobs, the log, and the health of the components |
| `progress` | How far a job has come, how long it will take, and when to say so |
| `pipeline` | The steps of a job, from the audio to the upload |
| `process`, `ffmpeg`, `whisper`, `diarize` | The programs that the agent runs |
| `models` | The models that it downloads |
| `delivery` | What leaves the computer: messages to Amautum, and where they go |
| `amautum`, `pending` | The answers of Amautum, and the transcripts that wait for a connection |
| `updates` | New versions, and when they may be installed |
| `server` | What the local server and the menus answer |

`app/` is the rest: the desktop, the network, the disk and the programs. It does what the library
asks for and hands back what came of it. Times of the audio are counted exactly in the library;
`app/` turns them into the seconds that travel.
