//! WebSocket framing and the WebSocket-to-subprocess session state machine.
//!
//! A session owns the client's descriptor number, a buffer of not yet parsed
//! wire bytes, and a buffer of the fragments of the message being reassembled.
//! The surrounding process reads the sockets and pipes, feeds the bytes in
//! through `ingest`, drains decisions through `next_message` and
//! `process_ws_message`, and writes out the frames these functions build.

use vstd::prelude::*;

use crate::reactor::Interest;
use crate::wire::be2;
use crate::wire::be8;
use crate::wire::be_val2;
use crate::wire::be_val8;
use crate::wire::dec_i;
use crate::wire::i32_dec;
use crate::wire::read_be_u16;
use crate::wire::read_be_u64;
use crate::wire::append_bytes;
use crate::wire::copy_range;
use crate::wire::clone_strings;
use crate::wire::lemma_be2_round_trip;
use crate::wire::lemma_be8_round_trip;

verus! {

/// Control-protocol opcode: spawn the configured command.
pub const CLIENT_READY: u8 = 0;

/// Control-protocol opcode: kill the running child.
pub const CLIENT_KILL: u8 = 1;

/// Control-protocol opcode: write the payload to the child's stdin.
pub const CLIENT_PUSH: u8 = 2;

/// Server-to-client tag: the spawn failed.
pub const PROCESS_FAIL: u8 = 0;

/// Server-to-client tag: the child exited; payload is its decimal exit code.
pub const PROCESS_EXIT: u8 = 1;

/// Server-to-client tag: raw child stdout bytes follow.
pub const PROCESS_SOUT: u8 = 2;

/// Server-to-client tag: raw child stderr bytes follow.
pub const PROCESS_SERR: u8 = 3;

/// Descriptor numbers of a spawned child's output pipes.
pub struct ChildFds {
    pub stdout_fd: i32,
    pub stderr_fd: i32,
}

/// One WebSocket-to-subprocess bridge session.
pub struct WsSession {
    pub cmd: String,
    pub args: Vec<String>,
    pub stream_fd: i32,
    pub stream_buffer: Vec<u8>,
    pub prev_ws_fragments: Vec<u8>,
    /// The opcode of the first fragment of the message being reassembled;
    /// zero while no fragmented message is in progress. A final continuation
    /// frame (opcode zero) dispatches under this opcode, so a fragmented
    /// text or binary message reaches the control protocol whole.
    pub fragment_opcode: u8,
    pub process: Option<ChildFds>,
    pub dead: bool,
}

/// XOR-unmasking of a payload against a four-byte key.
pub open spec fn unmask(raw: Seq<u8>, key: Seq<u8>) -> Seq<u8>
    recommends
        key.len() == 4,
{
    Seq::new(raw.len(), |i: int| raw[i] ^ key[i % 4])
}

/// Number of extended-length bytes selected by the initial length field.
pub open spec fn ext_len_bytes(len0: int) -> int {
    if len0 == 127 {
        8
    } else if len0 == 126 {
        2
    } else {
        0
    }
}

/// Parses one frame from the front of `buf`.
///
/// Yields `(fin, opcode, payload, consumed)` when a whole frame is buffered;
/// `consumed` is the frame's total wire size: the two header bytes, the
/// extended-length bytes, the masking key, and the payload.
pub open spec fn spec_parse_frame(buf: Seq<u8>) -> Option<(bool, u8, Seq<u8>, int)> {
    if buf.len() < 2 {
        None
    } else {
        let b0 = buf[0] as int;
        let b1 = buf[1] as int;
        let fin = b0 >= 0x80;
        let opcode = (b0 % 16) as u8;
        let mask_len: int = if b1 >= 0x80 {
            4
        } else {
            0
        };
        let len0 = b1 % 128;
        let ext = ext_len_bytes(len0);
        if buf.len() < 2 + ext {
            None
        } else {
            let len: int = if len0 == 127 {
                be_val8(buf.subrange(2, 10)) as int
            } else if len0 == 126 {
                be_val2(buf.subrange(2, 4)) as int
            } else {
                len0
            };
            let total = 2 + ext + mask_len + len;
            if buf.len() < total {
                None
            } else {
                let key = buf.subrange(2 + ext, 2 + ext + mask_len);
                let raw = buf.subrange(2 + ext + mask_len, total);
                let payload = if mask_len == 4 {
                    unmask(raw, key)
                } else {
                    raw
                };
                Some((fin, opcode, payload, total))
            }
        }
    }
}

/// Serialized frame header for a frame of `len` payload bytes, MASK=0,
/// using the smallest length encoding that fits.
pub open spec fn spec_frame_header(fin: bool, opcode: u8, len: nat) -> Seq<u8> {
    let b0 = ((opcode as int % 16) + if fin {
        128int
    } else {
        0int
    }) as u8;
    if len <= 125 {
        seq![b0, len as u8]
    } else if len <= 0xffff {
        seq![b0, 126u8] + be2(len)
    } else {
        seq![b0, 127u8] + be8(len)
    }
}

/// A whole outbound frame: FIN=1, MASK=0, the given opcode and payload.
pub open spec fn spec_message_frame(opcode: u8, data: Seq<u8>) -> Seq<u8> {
    spec_frame_header(true, opcode, data.len()) + data
}

/// Serializes a frame header: FIN bit, opcode, MASK=0, and the smallest
/// length encoding that fits.
pub fn ws_frame_header(fin: bool, opcode: u8, len: usize) -> (h: Vec<u8>)
    ensures
        h@ == spec_frame_header(fin, opcode, len as nat),
{
    let b0: u8 = (opcode % 16) + if fin {
        128
    } else {
        0
    };
    let mut h: Vec<u8> = Vec::new();
    h.push(b0);
    if len <= 125 {
        h.push(len as u8);
        proof {
            assert(h@ =~= spec_frame_header(fin, opcode, len as nat));
        }
    } else if len <= 0xffff {
        h.push(126);
        let l = len as u64;
        h.push((l / 0x100 % 0x100) as u8);
        h.push((l % 0x100) as u8);
        proof {
            assert(h@ =~= spec_frame_header(fin, opcode, len as nat));
        }
    } else {
        h.push(127);
        let l = len as u64;
        h.push((l / 0x100000000000000 % 0x100) as u8);
        h.push((l / 0x1000000000000 % 0x100) as u8);
        h.push((l / 0x10000000000 % 0x100) as u8);
        h.push((l / 0x100000000 % 0x100) as u8);
        h.push((l / 0x1000000 % 0x100) as u8);
        h.push((l / 0x10000 % 0x100) as u8);
        h.push((l / 0x100 % 0x100) as u8);
        h.push((l % 0x100) as u8);
        proof {
            assert(h@ =~= spec_frame_header(fin, opcode, len as nat));
        }
    }
    h
}

/// A complete inbound text or binary message, handed to the control protocol.
pub enum WsOutcome {
    /// No complete frame is buffered; wait for more bytes.
    Pending,
    /// A close frame arrived; the session must be removed.
    Closed,
    /// A ping frame arrived; the built pong frame must be written back.
    Pong(Vec<u8>),
    /// A message was completed by a FIN frame with a text or binary opcode.
    Message(Vec<u8>),
    /// A frame was consumed with nothing for the caller to do: a non-final
    /// fragment, or a final frame with an opcode the session ignores.
    Ignored,
}

/// The action a complete control message asks for.
pub enum WsCommand {
    /// Spawn the configured command; report back through `ws_spawned`.
    Spawn,
    /// Send the running child a kill signal.
    Kill,
    /// Write the carried bytes to the child's stdin.
    Push(Vec<u8>),
    /// An unknown opcode or a message out of precondition: log and ignore.
    BadMessage,
}

impl WsSession {
    /// A fresh session over an upgraded client stream, holding the command
    /// it may later be asked to spawn.
    pub fn new(stream_fd: i32, cmd: &(String, Vec<String>)) -> (s: Self)
        ensures
            s.cmd == cmd.0,
            s.args@ == cmd.1@,
            s.stream_fd == stream_fd,
            s.stream_buffer@ == Seq::<u8>::empty(),
            s.prev_ws_fragments@ == Seq::<u8>::empty(),
            s.fragment_opcode == 0,
            s.process is None,
            s.dead == false,
    {
        WsSession {
            cmd: cmd.0.clone(),
            args: clone_strings(&cmd.1),
            stream_fd,
            stream_buffer: Vec::new(),
            prev_ws_fragments: Vec::new(),
            fragment_opcode: 0,
            process: None,
            dead: false,
        }
    }

    /// The session's declared descriptors: always the client stream; while a
    /// child is alive and the session is not dead, its stdout and stderr too.
    pub open spec fn spec_pollfds(self) -> Seq<(i32, Interest)> {
        match self.process {
            Some(p) => {
                if !self.dead {
                    seq![
                        (self.stream_fd, Interest::Read),
                        (p.stdout_fd, Interest::Read),
                        (p.stderr_fd, Interest::Read),
                    ]
                } else {
                    seq![(self.stream_fd, Interest::Read)]
                }
            },
            None => seq![(self.stream_fd, Interest::Read)],
        }
    }

    /// Enumerates the descriptors to poll, client stream first.
    pub fn pollfds(&self) -> (r: Vec<(i32, Interest)>)
        ensures
            r@ == self.spec_pollfds(),
            r@.len() >= 1,
    {
        let mut fds: Vec<(i32, Interest)> = Vec::new();
        fds.push((self.stream_fd, Interest::Read));
        if !self.dead {
            match &self.process {
                Some(p) => {
                    fds.push((p.stdout_fd, Interest::Read));
                    fds.push((p.stderr_fd, Interest::Read));
                },
                None => {},
            }
        }
        proof {
            assert(fds@ =~= self.spec_pollfds());
        }
        fds
    }

    /// Appends bytes read from the client stream to the frame buffer.
    pub fn ingest(&mut self, data: &[u8])
        ensures
            final(self).stream_buffer@ == old(self).stream_buffer@ + data@,
            final(self).cmd == old(self).cmd,
            final(self).args == old(self).args,
            final(self).stream_fd == old(self).stream_fd,
            final(self).prev_ws_fragments == old(self).prev_ws_fragments,
            final(self).fragment_opcode == old(self).fragment_opcode,
            final(self).process == old(self).process,
            final(self).dead == old(self).dead,
    {
        append_bytes(&mut self.stream_buffer, data);
    }

    /// Parses one frame off the front of the buffer, unmasking the payload
    /// when the MASK flag is set. Returns `(fin, opcode, payload)` and drops
    /// the consumed prefix; returns `None` and leaves the buffer whole when
    /// fewer bytes than one frame are buffered.
    pub fn parse_ws_frame(&mut self) -> (r: Option<(bool, u8, Vec<u8>)>)
        ensures
            final(self).cmd == old(self).cmd,
            final(self).args == old(self).args,
            final(self).stream_fd == old(self).stream_fd,
            final(self).prev_ws_fragments == old(self).prev_ws_fragments,
            final(self).fragment_opcode == old(self).fragment_opcode,
            final(self).process == old(self).process,
            final(self).dead == old(self).dead,
            match spec_parse_frame(old(self).stream_buffer@) {
                None => r is None && final(self).stream_buffer == old(self).stream_buffer,
                Some((fin, opcode, payload, consumed)) => {
                    &&& r matches Some(rr)
                    &&& rr.0 == fin
                    &&& rr.1 == opcode
                    &&& rr.2@ == payload
                    &&& final(self).stream_buffer@ == old(self).stream_buffer@.skip(consumed)
                },
            },
    {
        let n = self.stream_buffer.len();
        if n < 2 {
            return None;
        }
        let b0 = self.stream_buffer[0];
        let b1 = self.stream_buffer[1];
        let fin = b0 >= 0x80;
        let opcode = b0 % 16;
        let mask_length: usize = if b1 >= 0x80 {
            4
        } else {
            0
        };
        let len0 = b1 % 128;
        let ext: usize = if len0 == 127 {
            8
        } else if len0 == 126 {
            2
        } else {
            0
        };
        if n < 2 + ext {
            return None;
        }
        let len: u64 = if len0 == 127 {
            read_be_u64(&self.stream_buffer, 2)
        } else if len0 == 126 {
            read_be_u16(&self.stream_buffer, 2) as u64
        } else {
            len0 as u64
        };
        let to_payload = 2 + ext + mask_length;
        if n < to_payload || ((n - to_payload) as u64) < len {
            return None;
        }
        let len_us = len as usize;
        let total = to_payload + len_us;
        let ghost gbuf = self.stream_buffer@;
        let mut payload: Vec<u8> = Vec::new();
        let mut i: usize = 0;
        while i < len_us
            invariant
                i <= len_us,
                n == gbuf.len(),
                to_payload + len_us <= n,
                to_payload == 2 + ext + mask_length,
                mask_length == 4 || mask_length == 0,
                self.stream_buffer@ == gbuf,
                payload@.len() == i,
                forall|j: int|
                    0 <= j < i ==> payload@[j] == (if mask_length == 4 {
                        gbuf[to_payload + j] ^ gbuf[2 + ext + (j % 4)]
                    } else {
                        gbuf[to_payload + j]
                    }),
            decreases len_us - i,
        {
            let b = self.stream_buffer[to_payload + i];
            let b = if mask_length == 4 {
                b ^ self.stream_buffer[2 + ext + (i % 4)]
            } else {
                b
            };
            payload.push(b);
            i += 1;
        }
        let rest = copy_range(&self.stream_buffer, total, n);
        self.stream_buffer = rest;
        proof {
            let spec_r = spec_parse_frame(gbuf);
            assert(spec_r is Some);
            let (sfin, sop, spay, scons) = spec_r->Some_0;
            assert(scons == total);
            let key = gbuf.subrange(2 + ext, 2 + ext + mask_length as int);
            let raw = gbuf.subrange(2 + ext + mask_length as int, total as int);
            if mask_length == 4 {
                assert(forall|j: int|
                    0 <= j < len_us ==> raw[j] == gbuf[to_payload + j] && key[j % 4] == gbuf[2 + ext
                        + (j % 4)]);
                assert(payload@ =~= unmask(raw, key));
            } else {
                assert(payload@ =~= raw);
            }
            assert(final(self).stream_buffer@ =~= gbuf.skip(total as int));
        }
        Some((fin, opcode, payload))
    }

    /// Builds the outbound frame (FIN=1, MASK=0, opcode 1) that carries one
    /// server-to-client message.
    pub fn send_ws_message(&self, data: &Vec<u8>) -> (frame: Vec<u8>)
        ensures
            frame@ == spec_message_frame(1, data@),
    {
        let mut frame = ws_frame_header(true, 1, data.len());
        append_bytes(&mut frame, data.as_slice());
        frame
    }

    /// Builds the pong frame (FIN=1, MASK=0, opcode 0xA) answering a ping.
    pub fn send_ws_pong(&self, data: &Vec<u8>) -> (frame: Vec<u8>)
        ensures
            frame@ == spec_message_frame(10, data@),
    {
        let mut frame = ws_frame_header(true, 10, data.len());
        append_bytes(&mut frame, data.as_slice());
        frame
    }

    /// Consumes one buffered frame and reassembles fragments: a non-final
    /// frame's payload is queued; a FIN frame completes the queued fragments
    /// into one message, then the opcode decides: close removes the session,
    /// ping is answered with a pong carrying the message, text and binary
    /// yield the message for the control protocol, anything else is ignored.
    pub fn next_message(&mut self) -> (r: WsOutcome)
        ensures
            final(self).cmd == old(self).cmd,
            final(self).args == old(self).args,
            final(self).stream_fd == old(self).stream_fd,
            final(self).process == old(self).process,
            final(self).dead == old(self).dead,
            match spec_parse_frame(old(self).stream_buffer@) {
                None => r is Pending && final(self).stream_buffer == old(self).stream_buffer
                    && final(self).prev_ws_fragments == old(self).prev_ws_fragments
                    && final(self).fragment_opcode == old(self).fragment_opcode,
                Some((fin, opcode, payload, consumed)) => {
                    &&& final(self).stream_buffer@ == old(self).stream_buffer@.skip(consumed)
                    &&& if !fin {
                        &&& final(self).prev_ws_fragments@ == old(self).prev_ws_fragments@ + payload
                        &&& final(self).fragment_opcode == (if opcode != 0 {
                            opcode
                        } else {
                            old(self).fragment_opcode
                        })
                        &&& r is Ignored
                    } else {
                        &&& final(self).prev_ws_fragments@ == Seq::<u8>::empty()
                        &&& final(self).fragment_opcode == 0
                        &&& {
                            let msg = old(self).prev_ws_fragments@ + payload;
                            let op = if opcode == 0 {
                                old(self).fragment_opcode
                            } else {
                                opcode
                            };
                            if op == 8 {
                                r is Closed
                            } else if op == 9 {
                                r matches WsOutcome::Pong(f) && f@ == spec_message_frame(10, msg)
                            } else if op == 1 || op == 2 {
                                r matches WsOutcome::Message(m) && m@ == msg
                            } else {
                                r is Ignored
                            }
                        }
                    }
                },
            },
    {
        match self.parse_ws_frame() {
            None => WsOutcome::Pending,
            Some((fin, opcode, fragment)) => {
                append_bytes(&mut self.prev_ws_fragments, fragment.as_slice());
                if !fin {
                    if opcode != 0 {
                        self.fragment_opcode = opcode;
                    }
                    return WsOutcome::Ignored;
                }
                let op = if opcode == 0 {
                    self.fragment_opcode
                } else {
                    opcode
                };
                self.fragment_opcode = 0;
                let mut data: Vec<u8> = Vec::new();
                core::mem::swap(&mut self.prev_ws_fragments, &mut data);
                if op == 8 {
                    WsOutcome::Closed
                } else if op == 9 {
                    WsOutcome::Pong(self.send_ws_pong(&data))
                } else if op == 1 || op == 2 {
                    WsOutcome::Message(data)
                } else {
                    WsOutcome::Ignored
                }
            },
        }
    }

    /// Routes one complete control message: byte 0 selects the action, and an
    /// action whose precondition on the child's presence fails, an unknown
    /// opcode, or an empty message is a bad message and does nothing.
    pub fn process_ws_message(&self, msg: &Vec<u8>) -> (c: WsCommand)
        ensures
            msg@.len() == 0 ==> c is BadMessage,
            msg@.len() > 0 ==> {
                if msg@[0] == CLIENT_READY && self.process is None {
                    c is Spawn
                } else if msg@[0] == CLIENT_KILL && self.process is Some {
                    c is Kill
                } else if msg@[0] == CLIENT_PUSH && self.process is Some {
                    c matches WsCommand::Push(d) && d@ == msg@.skip(1)
                } else {
                    c is BadMessage
                }
            },
    {
        if msg.len() == 0 {
            return WsCommand::BadMessage;
        }
        let has_child = self.process.is_some();
        let op = msg[0];
        if op == CLIENT_READY && !has_child {
            WsCommand::Spawn
        } else if op == CLIENT_KILL && has_child {
            WsCommand::Kill
        } else if op == CLIENT_PUSH && has_child {
            WsCommand::Push(copy_range(msg, 1, msg.len()))
        } else {
            WsCommand::BadMessage
        }
    }

    /// Records the result of a spawn request: on success the child's pipe
    /// descriptors are adopted; on failure the session stays childless and
    /// the returned `PROCESS_FAIL` message frame must be written back.
    pub fn ws_spawned(&mut self, child: Option<ChildFds>) -> (frame: Option<Vec<u8>>)
        ensures
            final(self).cmd == old(self).cmd,
            final(self).args == old(self).args,
            final(self).stream_fd == old(self).stream_fd,
            final(self).stream_buffer == old(self).stream_buffer,
            final(self).prev_ws_fragments == old(self).prev_ws_fragments,
            final(self).fragment_opcode == old(self).fragment_opcode,
            final(self).dead == old(self).dead,
            match child {
                Some(c) => {
                    &&& final(self).process matches Some(p)
                    &&& p.stdout_fd == c.stdout_fd
                    &&& p.stderr_fd == c.stderr_fd
                    &&& frame is None
                },
                None => {
                    &&& final(self).process == old(self).process
                    &&& frame matches Some(f)
                    &&& f@ == spec_message_frame(1, seq![PROCESS_FAIL])
                },
            },
    {
        match child {
            Some(c) => {
                self.process = Some(c);
                None
            },
            None => {
                let mut msg: Vec<u8> = Vec::new();
                msg.push(PROCESS_FAIL);
                proof {
                    assert(msg@ =~= seq![PROCESS_FAIL]);
                }
                Some(self.send_ws_message(&msg))
            },
        }
    }

    /// Marks the session dead after the child's output signalled EOF and
    /// builds the `PROCESS_EXIT` message frame, carrying the child's decimal
    /// exit code when one is known.
    pub fn process_exit(&mut self, code: Option<i32>) -> (frame: Vec<u8>)
        ensures
            final(self).cmd == old(self).cmd,
            final(self).args == old(self).args,
            final(self).stream_fd == old(self).stream_fd,
            final(self).stream_buffer == old(self).stream_buffer,
            final(self).prev_ws_fragments == old(self).prev_ws_fragments,
            final(self).fragment_opcode == old(self).fragment_opcode,
            final(self).process == old(self).process,
            final(self).dead == true,
            frame@ == spec_message_frame(
                1,
                seq![PROCESS_EXIT] + match code {
                    Some(c) => dec_i(c as int),
                    None => Seq::<u8>::empty(),
                },
            ),
    {
        self.dead = true;
        let mut msg: Vec<u8> = Vec::new();
        msg.push(PROCESS_EXIT);
        match code {
            Some(c) => {
                let digits = i32_dec(c);
                append_bytes(&mut msg, digits.as_slice());
                proof {
                    assert(msg@ =~= seq![PROCESS_EXIT] + dec_i(c as int));
                }
            },
            None => {
                proof {
                    assert(msg@ =~= seq![PROCESS_EXIT] + Seq::<u8>::empty());
                }
            },
        }
        self.send_ws_message(&msg)
    }

    /// Builds the message frame that forwards one read of child output: the
    /// role tag byte, then the bytes read.
    pub fn child_output_frame(&self, tag: u8, data: &Vec<u8>) -> (frame: Vec<u8>)
        ensures
            frame@ == spec_message_frame(1, seq![tag] + data@),
    {
        let mut msg: Vec<u8> = Vec::new();
        msg.push(tag);
        append_bytes(&mut msg, data.as_slice());
        proof {
            assert(msg@ =~= seq![tag] + data@);
        }
        self.send_ws_message(&msg)
    }
}

/// Consuming a parsed frame takes exactly the frame's wire size off the
/// buffer: two header bytes, the extended-length bytes, the masking key, and
/// the payload.
pub proof fn lemma_frame_consumed_size(buf: Seq<u8>)
    requires
        spec_parse_frame(buf) is Some,
    ensures
        ({
            let (fin, opcode, payload, consumed) = spec_parse_frame(buf)->Some_0;
            let len0 = buf[1] as int % 128;
            let mask_len: int = if buf[1] >= 0x80 {
                4
            } else {
                0
            };
            consumed == 2 + ext_len_bytes(len0) + mask_len + payload.len()
        }),
{
}

/// Unmasking XORs each payload byte against the key byte at its index mod 4.
pub proof fn lemma_unmask_xor(raw: Seq<u8>, key: Seq<u8>, i: int)
    requires
        key.len() == 4,
        0 <= i < raw.len(),
    ensures
        unmask(raw, key)[i] == raw[i] ^ key[i % 4],
{
}

/// Serialization then parsing is the identity: a frame built with MASK=0 and
/// any FIN bit parses back to exactly its FIN bit, opcode and payload, and
/// consumes exactly the serialized bytes, whatever follows them.
pub proof fn lemma_frame_round_trip(fin: bool, opcode: u8, payload: Seq<u8>, rest: Seq<u8>)
    requires
        opcode < 16,
        payload.len() < 0x10000000000000000,
    ensures
        ({
            let hdr = spec_frame_header(fin, opcode, payload.len());
            spec_parse_frame(hdr + payload + rest) == Some(
                (fin, opcode, payload, hdr.len() + payload.len() as int),
            )
        }),
{
    let hdr = spec_frame_header(fin, opcode, payload.len());
    let frame = hdr + payload + rest;
    let b0 = ((opcode as int % 16) + if fin {
        128int
    } else {
        0int
    }) as u8;
    assert(opcode as int % 16 == opcode as int);
    assert(frame[0] == b0);
    assert((b0 as int >= 0x80) <==> fin);
    assert(b0 as int % 16 == opcode as int) by {
        if fin {
            assert((opcode as int + 128) % 16 == opcode as int % 16) by {
                vstd::arithmetic::div_mod::lemma_mod_multiples_vanish(
                    8,
                    opcode as int,
                    16,
                );
            }
        }
    }
    let n = payload.len() as int;
    if payload.len() <= 125 {
        assert(frame[1] == n as u8);
        assert(frame[1] as int % 128 == n);
        assert((frame[1] as int) < 0x80);
        assert(frame.subrange(2, 2 + n) =~= payload);
        assert(spec_parse_frame(frame) == Some((fin, opcode, payload, 2 + n)));
        assert(hdr.len() == 2);
    } else if payload.len() <= 0xffff {
        assert(frame[1] == 126u8);
        assert(frame[1] as int % 128 == 126);
        assert(frame.subrange(2, 4) =~= be2(payload.len()));
        lemma_be2_round_trip(payload.len());
        assert(frame.subrange(4, 4 + n) =~= payload);
        assert(spec_parse_frame(frame) == Some((fin, opcode, payload, 4 + n)));
        assert(hdr.len() == 4);
    } else {
        assert(frame[1] == 127u8);
        assert(frame[1] as int % 128 == 127);
        assert(frame.subrange(2, 10) =~= be8(payload.len()));
        lemma_be8_round_trip(payload.len());
        assert(frame.subrange(10, 10 + n) =~= payload);
        assert(spec_parse_frame(frame) == Some((fin, opcode, payload, 10 + n)));
        assert(hdr.len() == 10);
    }
}

} // verus!
