# grok-anthropic-bridge

An Anthropic Messages facade in front of Grok: coding clients that speak
`POST /v1/messages` are served from the Responses stream of the Grok sampler.

`src/` is the library, verified with Verus. It holds what the bridge decides and
computes:

| module | what it settles |
|--------|-----------------|
| `translate::request` | the conversation that a request body stands for, or why it is refused |
| `translate::stream`, `translate::lifecycle` | the message stream that a response stream becomes, and what every such stream keeps to |
| `sse`, `stream_session` | the frames of a streamed answer |
| `collector`, `whole_message` | the message of an answer that is not streamed |
| `server`, `upstream`, `epoch` | how requests, sessions and recoveries are handled |
| `reasoning_signature` | signatures that carry encrypted reasoning through the client |
| `credentials`, `live_auth`, `timestamp` | which credentials are used, and how the bridge presents itself |
| `port_file`, `paths`, `launcher`, `serve_config` | ports, files, environment and addresses |
| `traffic`, `monitor` | the traffic record and the monitor that shows it |
| `json`, `json_order`, `text`, `ids` | values and texts that the rest is made of |

Calls into `serde_json`, `base64`, `uuid`, `indexmap` and parts of std stand in
small functions at the end of the module that needs them; their contracts are
what the proofs rest on.

`app/` is the program around it: HTTP, files, processes, the terminal and the
Grok sampler. `tests/` runs the library.
