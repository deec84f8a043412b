# event_dispatcher

Tells registered observers over HTTP what happens on a chain: processed blocks
with the events they subscribed to, transactions that enter the mempool, and
attachments.

`src/` is the verified library. It decides who is told of what, builds the JSON
payloads and the POST requests, and decides when a request is posted again:

- `dispatcher`: the observers, their subscriptions, and the dispatching;
- `subscriptions`: which observers subscribed to which key;
- `observer`: payloads and requests for one observer;
- `delivery`: requests, and what follows an attempt to post one;
- `json`, `hex`: JSON values and hexadecimal text;
- `types`, `config`: the chain's data, and what an observer asks for;
- `laws`: what holds of the library as a whole.

`app/` opens the connections, posts the requests and waits between attempts. It
is handed the function that writes an event as JSON.
