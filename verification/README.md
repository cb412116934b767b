# pyielink

Remote access between two devices: accounts and credentials on a host, a login
by challenge and response, a terminal with roles, file transfer with digests,
video and input over a data link, and a file explorer.

`src/` is the library. Every decision of host, client and explorer is a function
from values to values whose contract Verus proves: what is answered to a frame,
who is let in, what is stored, what is sent next. Time comes in as an argument;
random numbers, hashing, encryption and H.264 decoding come from `rand`, `sha2`,
`aes-gcm` and `openh264` behind small wrappers whose contracts are taken on trust.

| part | modules |
|---|---|
| accounts, state file, credentials | `accounts`, `state_file`, `state_cut`, `creds`, `token` |
| wire formats | `proto`, `mux`, `message`, `bytes` |
| host | `host`, `host_session`, `throttle`, `sessions`, `tunnel` |
| client | `client`, `client_session`, `datalink`, `transfer`, `resume`, `bitrate` |
| what both promise each other | `agreement` |
| explorer and viewer | `explorer`, `explorer_round`, `listing`, `browser`, `icons`, `viewer`, `video`, `video_decoder`, `video_window`, `audio`, `input` |
| command line | `cli` |
| groundwork | `text`, `table`, `digest`, `cipher`, `h264`, `random`, `clock` |

Laws that relate several functions are public proof functions next to them, for
instance `host::no_login_without_proof`, `transfer::download_covers_all_bytes`
or `agreement::right_password_logs_in`.

`app/` is the program around the library: sockets, files, prompts, windows.
Started under the name `pyielink-gui`, it is the viewer.
`tests/` runs the library.
