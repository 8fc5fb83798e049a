# mc_gateway

A gateway in front of Minecraft servers. A client connects and names the
address it was given; the first route whose pattern covers that address
decides what happens. A client that asks for a status gets a fixed one or one
fetched from another server and kept for a while. A client that logs in is
transferred to another server or refused with a message.

`src/` is the library, verified with Verus:

- `text`, `bytes`, `varint`, `wire`: numbers, texts and fields as characters
  and bytes, and that reading undoes writing;
- `packets`, `packet`: the packets and their frames;
- `json`, `notice`: JSON documents, and messages as JSON or NBT;
- `config`: routes, and which of them an address takes;
- `cache`: fetched statuses and how long they live;
- `error`: what can go wrong, and how that reads;
- `session`: one connection as a state machine, from events to actions;
- `conversation`: what holds of whole connections.

`app/` is the program around it. It reads the configuration, accepts
connections and does what their sessions ask for.

```
mc_gateway config.yml
```

```yaml
listen: 0.0.0.0:25565
routes:
  - match: "*.example.com"
    status:
      type: fetch_from
      host: 10.0.0.2
      port: 25565
      rewrite_address: true
      cache_ttl: 30
    destination:
      type: transfer
      host: play.example.com
      port: 25566
  - match: "*"
    status:
      type: static
      json: { version: { name: any, protocol: 0 }, description: { text: Hello } }
      fake_protocol_version: true
    destination:
      type: kick
      message: { text: "Nothing here", color: red }
```
