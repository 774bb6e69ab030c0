# vpn_bot

A Telegram bot that hands out VPN subscriptions from a 3X-UI panel, with its logic verified in Verus.

- `src/` is the library: configuration, access requests, buttons and messages, the Mini App's
  authentication and answers, the health monitor, latency buckets, and the conversations with the
  panel. Every function has a contract; the calls into other crates stand in `src/outside.rs` (and
  two functions of `std` in `src/text/chars.rs`), with what is taken on trust about each.
- `tests/` runs the library on concrete values.
- `app/` is the program around it: Telegram, HTTP, SQLite, the web server, and arithmetic on
  floating-point numbers.

Conversations with the panel are state machines: a function of the library takes an event and says
what to do next, and `app/` does it. `src/panel` drives the client API of current panels,
`src/xui` and `src/handlers` the inbound API with typed commands.

## Configuration

| Variable | Required | Meaning |
|---|---|---|
| `TELOXIDE_TOKEN` | yes | bot token |
| `APPROVER_USER_IDS` | yes | comma-separated Telegram user ids of approvers |
| `ALLOW_USER_IDS` | no | if set, only these users may request access; a list without a valid id lets nobody in |
| `XUI_BASE_URL` | yes | panel root including the secret base path |
| `XUI_API_TOKEN` | one of | panel API token |
| `XUI_USERNAME`, `XUI_PASSWORD` | one of | panel login; used when no API token is set |
| `XUI_INBOUND_IDS` | yes | comma-separated inbound ids every new client is attached to |
| `XUI_SUBSCRIPTION_BASE_URL` | yes | public subscription base |
| `XUI_CLIENT_FLOW` | no | VLESS flow for new clients |
| `XUI_TOTAL_GB` | no | traffic limit per new client, 0 = unlimited |
| `SQLITE_PATH` | no | default `vpn_bot.sqlite3` |
| `WEB_PUBLIC_URL` | no | public HTTPS URL of the Mini App; unset disables it |
| `WEB_LISTEN` | no | local bind address, default `127.0.0.1:8080` |
| `HEALTH_RELAY_ADDR` | no | relay `ip:port`; unset disables health checks |
| `HEALTH_SNIS` | no | Reality SNIs to probe, default `ign.com` |
| `HEALTH_SUBSCRIPTION_URL` | no | subscription server URL to probe |
| `HEALTH_INTERVAL_SECS` | no | default `300` |
| `HEALTH_FAIL_THRESHOLD` | no | consecutive failures before an alert, default `2` |
