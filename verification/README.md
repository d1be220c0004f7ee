# bear_tv

A terminal video streaming service over QUIC, with its logic verified by Verus.
A server shows each video of a directory as a TV channel, over and over. Viewers
pick a channel by its number and a name, watch it in a player and chat with the
others on it. A viewer may also hand in a link; the server downloads the video
behind it and adds it as a new channel.

## Layout

- `src/proto.rs`: the commands and messages of the wire protocol.
- `src/session.rs`: how the server converses with a viewer.
- `src/viewer.rs`: how a viewer picks a channel or hands in a link.
- `src/chat.rs`: chat messages on the wire, and their way through the server.
- `src/media.rs`: video on its way from a file to a player.
- `src/videos.rs`, `src/download.rs`: which files are channels, the name of a new
  one, and its download.
- `src/channels.rs`: the list of channels.
- `src/startup.rs`: what the server needs before it listens, and what a viewer
  trusts.
- `src/text.rs`, `src/buffer.rs`: text and byte buffers.
- `app/`: the program, with its sockets, files and child processes.
- `tests/`: tests of the library.

The decisions that alternate with input and output are functions from a state
and an event to the next state and an action. The functions named `law_...` state
what holds across several of them.

## Running

The server reads `cert/server.crt` and `cert/server.key`, the viewer
`cert/rootCA.crt`. At least one mp4 file must be in `server/videos`. `ffmpeg` and
`yt-dlp` serve the server, `mpv` the viewer.

The program takes its role from the name under which it is run, or from its first
argument under any other name.

- `server [address:port]` listens on 127.0.0.1:8080 unless told otherwise.
- `client <server_address:port>` connects to a server.
