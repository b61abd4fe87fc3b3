# clnaddress

The decisions of a Lightning Address server for Core Lightning, verified with
Verus, and the plugin around them.

The library (`src/`) decides; it does no input or output:

| Module | What it decides |
| --- | --- |
| `user`, `users` | canonical user names, the settings of an address, the users of a server |
| `value`, `rpc` | the commands that add, remove and list users |
| `base_url`, `lnurl` | what is offered to a payer, and how requests are refused |
| `invoice`, `label` | which invoices are created, what they commit to, and their labels |
| `event`, `zap`, `receipt` | zap requests, and the receipts that are published for them |
| `startup`, `state` | the options that a server is started with, and its state |
| `text` | numbers, separators and white space |

What a function returns is stated in its `ensures`. What holds of several
functions together is stated by the proof functions named `law_..`: for
instance, that an invoice commits to the metadata that was offered before, that
a label tells which user an invoice is for, or that a receipt is only published
after its index was saved, and is one for the very zap request that was paid.

Parsing, checking and signing Nostr events, parsing and joining URLs, UUIDs and
JSON are the work of the crates `nostr`, `url`, `uuid`, `serde_json` and
`cln-rpc`. Each call stands in a function of its own whose doc comment says what
is claimed of it.

The plugin (`app/`) reads options and files, serves HTTP, talks to the node and to
the relays, and leaves the rest to the library.
