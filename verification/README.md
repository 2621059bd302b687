# iap2_rs

The protocol logic of an iAP2 (iPod Accessory Protocol 2) accessory, for
MFi accessories that talk to iOS devices over Bluetooth RFCOMM, with its
contracts proved in Verus.

## Layout

- `src/` — the verified library.
  - `wire.rs`: big-endian fields, byte checksums, control message framing
    and parameters.
  - `packet.rs`: link packets, their encoding and decoding; the laws that
    decoding an encoded packet gives it back and that its checksums close.
  - `link.rs`: the link state machine (handshake, in-order delivery with a
    reorder buffer, acknowledgement of our data, EAK retransmission) and the
    framing of the receive buffer.
  - `negotiation.rs`: the order of link setup (iAP1 probe, DETECT, SYN with
    its retries, ACK) as a step function that the transport's owner drives.
  - `auth.rs`, `mfi.rs`: the authentication messages and the coprocessor
    trait with a fixed-answer provider.
  - `connection.rs`: what each message of the device asks of the accessory,
    during authentication and afterwards.
  - `session/`: the control session's messages, external accessory
    sessions, file transfers with the artwork check, the media remote and
    NowPlaying parsing.
  - `buffer.rs`: the `bytes` crate's buffer as the contracts see it.
- `app/` — the asynchronous side: the transport trait, the link's reads and
  writes over a transport, and the connection task built on tokio and bluer.
- `tests/` — tests of the library.
