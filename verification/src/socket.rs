//! Tag framing and poll logic for the datagram link to the visualizer.
//!
//! Every message travels as two datagrams: a one-byte type tag, then the
//! payload (payload-less kinds send the tag alone). This module computes
//! outbound datagram contents and folds a drained burst of inbound
//! datagrams into a latest-wins summary; binding, sending, receiving and
//! peer-process launch live with the caller, which hands received
//! datagrams here in arrival order.

use vstd::prelude::*;
use vstd::bytes::*;
use vstd::slice::slice_subrange;

use crate::bytes::{
    FromBytes, GameState, GameStateModel, ToBytes, WireError, F32_ONE_BITS,
};

verus! {

/// The one-byte message-type tags multiplexed over the socket.
///
/// `Quit`, `Connection` and `Render` are outbound-only; receiving them is
/// a protocol violation.
#[derive(Clone, Copy, Debug, PartialEq, Eq)]
pub enum UdpPacketTypes {
    Quit,
    GameState,
    Connection,
    Paused,
    Speed,
    Render,
}

impl View for UdpPacketTypes {
    type V = UdpPacketTypes;

    open spec fn view(&self) -> UdpPacketTypes {
        *self
    }
}

impl UdpPacketTypes {
    /// The fixed tag byte of each message kind. These values are the wire
    /// contract shared with the peer and never change.
    pub open spec fn spec_tag(self) -> u8 {
        match self {
            UdpPacketTypes::Quit => 0,
            UdpPacketTypes::GameState => 1,
            UdpPacketTypes::Connection => 2,
            UdpPacketTypes::Paused => 3,
            UdpPacketTypes::Speed => 4,
            UdpPacketTypes::Render => 5,
        }
    }

    /// The message kind a leading byte names, if any.
    pub open spec fn spec_new(byte: u8) -> Option<UdpPacketTypes> {
        if byte == 0 {
            Some(UdpPacketTypes::Quit)
        } else if byte == 1 {
            Some(UdpPacketTypes::GameState)
        } else if byte == 2 {
            Some(UdpPacketTypes::Connection)
        } else if byte == 3 {
            Some(UdpPacketTypes::Paused)
        } else if byte == 4 {
            Some(UdpPacketTypes::Speed)
        } else if byte == 5 {
            Some(UdpPacketTypes::Render)
        } else {
            None
        }
    }

    /// Classify a leading byte; bytes outside the closed set yield `None`.
    pub fn new(byte: u8) -> (r: Option<Self>)
        ensures
            r == Self::spec_new(byte),
    {
        match byte {
            0 => Some(UdpPacketTypes::Quit),
            1 => Some(UdpPacketTypes::GameState),
            2 => Some(UdpPacketTypes::Connection),
            3 => Some(UdpPacketTypes::Paused),
            4 => Some(UdpPacketTypes::Speed),
            5 => Some(UdpPacketTypes::Render),
            _ => None,
        }
    }

    /// Executable mirror of [`UdpPacketTypes::spec_tag`].
    pub fn tag(self) -> (t: u8)
        ensures
            t == self.spec_tag(),
    {
        match self {
            UdpPacketTypes::Quit => 0,
            UdpPacketTypes::GameState => 1,
            UdpPacketTypes::Connection => 2,
            UdpPacketTypes::Paused => 3,
            UdpPacketTypes::Speed => 4,
            UdpPacketTypes::Render => 5,
        }
    }
}

/// Tag stability: classifying a kind's own tag byte gives that kind back,
/// so each message kind keeps its fixed one-byte tag on the wire.
pub proof fn lemma_tag_round_trip(t: UdpPacketTypes)
    ensures
        UdpPacketTypes::spec_new(t.spec_tag()) == Some(t),
{
}

/// What one poll of the socket returned: the latest snapshot override,
/// playback speed (an IEEE-754 bit pattern), and pause flag seen in the
/// drained burst, each `None` when no datagram of that kind arrived.
#[derive(Clone, Debug, PartialEq)]
pub struct ReturnMessage {
    pub game_state: Option<GameState>,
    pub speed: Option<u32>,
    pub paused: Option<bool>,
}

/// The mathematical content of a [`ReturnMessage`].
#[verifier::ext_equal]
pub struct ReturnMessageModel {
    pub game_state: Option<GameStateModel>,
    pub speed: Option<u32>,
    pub paused: Option<bool>,
}

/// The model of an optional snapshot.
pub open spec fn spec_state_view(o: Option<GameState>) -> Option<GameStateModel> {
    match o {
        Some(gs) => Some(gs@),
        None => None,
    }
}

impl View for ReturnMessage {
    type V = ReturnMessageModel;

    open spec fn view(&self) -> ReturnMessageModel {
        ReturnMessageModel {
            game_state: spec_state_view(self.game_state),
            speed: self.speed,
            paused: self.paused,
        }
    }
}

/// The summary of a poll that received nothing.
pub open spec fn spec_empty_message() -> ReturnMessageModel {
    ReturnMessageModel { game_state: None, speed: None, paused: None }
}

impl ReturnMessage {
    /// A message with nothing in it.
    pub fn none() -> (r: Self)
        ensures
            r@ == spec_empty_message(),
    {
        ReturnMessage { game_state: None, speed: None, paused: None }
    }
}

/// How one poll folds a sequence of received datagrams, oldest first,
/// into a summary, starting from `acc`:
///
/// * an empty datagram is malformed (`FormatError`);
/// * a leading byte outside the tag set stops draining and keeps what was
///   gathered so far (the peer's behaviour is undefined from then on);
/// * `Quit` and `Render` are never valid inbound (`ProtocolError`);
/// * `Connection` carries nothing and is skipped;
/// * `GameState`, `Speed` and `Paused` consume the following datagram as
///   payload — a missing or too-short payload is `FormatError` — and
///   overwrite the summary field of their kind, so the latest datagram of
///   each kind wins.
pub open spec fn spec_drain(ds: Seq<Seq<u8>>, acc: ReturnMessageModel) -> Result<
    ReturnMessageModel,
    WireError,
>
    decreases ds.len(),
{
    if ds.len() == 0 {
        Ok(acc)
    } else if ds[0].len() == 0 {
        Err(WireError::FormatError)
    } else {
        match UdpPacketTypes::spec_new(ds[0][0]) {
            None => Ok(acc),
            Some(UdpPacketTypes::Quit) => Err(WireError::ProtocolError),
            Some(UdpPacketTypes::Render) => Err(WireError::ProtocolError),
            Some(UdpPacketTypes::Connection) => spec_drain(ds.drop_first(), acc),
            Some(UdpPacketTypes::GameState) => if ds.len() < 2 {
                Err(WireError::FormatError)
            } else if !GameState::dec_ok(ds[1]) {
                Err(WireError::FormatError)
            } else {
                spec_drain(
                    ds.skip(2),
                    ReturnMessageModel {
                        game_state: Some(GameState::dec(ds[1])),
                        speed: acc.speed,
                        paused: acc.paused,
                    },
                )
            },
            Some(UdpPacketTypes::Speed) => if ds.len() < 2 || ds[1].len() < 4 {
                Err(WireError::FormatError)
            } else {
                spec_drain(
                    ds.skip(2),
                    ReturnMessageModel {
                        game_state: acc.game_state,
                        speed: Some(spec_u32_from_le_bytes(ds[1].subrange(0, 4))),
                        paused: acc.paused,
                    },
                )
            },
            Some(UdpPacketTypes::Paused) => if ds.len() < 2 || ds[1].len() < 1 {
                Err(WireError::FormatError)
            } else {
                spec_drain(
                    ds.skip(2),
                    ReturnMessageModel {
                        game_state: acc.game_state,
                        speed: acc.speed,
                        paused: Some(ds[1][0] != 0),
                    },
                )
            },
        }
    }
}

/// What one poll over a drained burst returns.
pub open spec fn spec_poll(ds: Seq<Seq<u8>>) -> Result<ReturnMessageModel, WireError> {
    spec_drain(ds, spec_empty_message())
}

/// Fold a burst of drained datagrams, oldest first, into a latest-wins
/// summary, exactly as [`spec_poll`] describes.
pub fn get_return_messages(datagrams: &Vec<Vec<u8>>) -> (r: Result<ReturnMessage, WireError>)
    ensures
        r matches Ok(m) ==> Ok::<ReturnMessageModel, WireError>(m@) == spec_poll(
            datagrams.deep_view(),
        ),
        r matches Err(e) ==> Err::<ReturnMessageModel, WireError>(e) == spec_poll(
            datagrams.deep_view(),
        ),
{
    let ghost ds = datagrams.deep_view();
    let mut game_state: Option<GameState> = None;
    let mut speed: Option<u32> = None;
    let mut paused: Option<bool> = None;
    let n = datagrams.len();
    let mut i: usize = 0;
    proof {
        assert(ds.skip(0) =~= ds);
    }
    while i < n
        invariant
            n == datagrams@.len(),
            i <= n,
            ds == datagrams.deep_view(),
            spec_poll(ds) == spec_drain(
                ds.skip(i as int),
                ReturnMessageModel {
                    game_state: spec_state_view(game_state),
                    speed: speed,
                    paused: paused,
                },
            ),
        decreases n - i,
    {
        proof {
            assert(ds[i as int] == datagrams@[i as int]@);
        }
        let d = &datagrams[i];
        if d.len() == 0 {
            return Err(WireError::FormatError);
        }
        let tag_byte = d[0];
        match UdpPacketTypes::new(tag_byte) {
            None => {
                return Ok(ReturnMessage { game_state, speed, paused });
            },
            Some(UdpPacketTypes::Quit) => {
                return Err(WireError::ProtocolError);
            },
            Some(UdpPacketTypes::Render) => {
                return Err(WireError::ProtocolError);
            },
            Some(UdpPacketTypes::Connection) => {
                proof {
                    assert(ds.skip(i as int).drop_first() =~= ds.skip(i as int + 1));
                }
                i = i + 1;
            },
            Some(UdpPacketTypes::GameState) => {
                if n - i < 2 {
                    proof {
                        assert(ds.skip(i as int).len() < 2);
                    }
                    return Err(WireError::FormatError);
                }
                proof {
                    assert(ds.skip(i as int)[1] == datagrams@[i as int + 1]@);
                }
                let payload = &datagrams[i + 1];
                match GameState::from_bytes(payload.as_slice()) {
                    Ok(gs) => {
                        proof {
                            assert(ds.skip(i as int).skip(2) =~= ds.skip(i as int + 2));
                        }
                        game_state = Some(gs);
                        i = i + 2;
                    },
                    Err(_) => {
                        return Err(WireError::FormatError);
                    },
                }
            },
            Some(UdpPacketTypes::Speed) => {
                if n - i < 2 {
                    proof {
                        assert(ds.skip(i as int).len() < 2);
                    }
                    return Err(WireError::FormatError);
                }
                proof {
                    assert(ds.skip(i as int)[1] == datagrams@[i as int + 1]@);
                }
                let payload = &datagrams[i + 1];
                if payload.len() < 4 {
                    return Err(WireError::FormatError);
                }
                let piece = slice_subrange(payload.as_slice(), 0, 4);
                let v = u32_from_le_bytes(piece);
                proof {
                    assert(ds.skip(i as int).skip(2) =~= ds.skip(i as int + 2));
                }
                speed = Some(v);
                i = i + 2;
            },
            Some(UdpPacketTypes::Paused) => {
                if n - i < 2 {
                    proof {
                        assert(ds.skip(i as int).len() < 2);
                    }
                    return Err(WireError::FormatError);
                }
                proof {
                    assert(ds.skip(i as int)[1] == datagrams@[i as int + 1]@);
                }
                let payload = &datagrams[i + 1];
                if payload.len() == 0 {
                    return Err(WireError::FormatError);
                }
                let p = payload[0] != 0;
                proof {
                    assert(ds.skip(i as int).skip(2) =~= ds.skip(i as int + 2));
                }
                paused = Some(p);
                i = i + 2;
            },
        }
    }
    proof {
        assert(ds.skip(n as int).len() == 0);
    }
    Ok(ReturnMessage { game_state, speed, paused })
}

/// The two datagrams that carry a snapshot: the `GameState` tag, then
/// the encoded snapshot.
pub fn send_game_state(game_state: &GameState) -> (r: (Vec<u8>, Vec<u8>))
    requires
        game_state.enc_ok(),
    ensures
        r.0@ == seq![UdpPacketTypes::GameState.spec_tag()],
        r.1@ == game_state.enc(),
{
    let mut tag: Vec<u8> = Vec::new();
    tag.push(UdpPacketTypes::GameState.tag());
    (tag, game_state.to_bytes())
}

/// The two datagrams that report a playback speed (an IEEE-754 bit
/// pattern): the `Speed` tag, then the four little-endian payload bytes.
pub fn report_game_speed(speed: u32) -> (r: (Vec<u8>, Vec<u8>))
    ensures
        r.0@ == seq![UdpPacketTypes::Speed.spec_tag()],
        r.1@ == spec_u32_to_le_bytes(speed),
{
    let mut tag: Vec<u8> = Vec::new();
    tag.push(UdpPacketTypes::Speed.tag());
    (tag, u32_to_le_bytes(speed))
}

/// The two datagrams that report the pause state: the `Paused` tag, then
/// one boolean byte.
pub fn report_game_paused(paused: bool) -> (r: (Vec<u8>, Vec<u8>))
    ensures
        r.0@ == seq![UdpPacketTypes::Paused.spec_tag()],
        r.1@ == seq![if paused { 1u8 } else { 0u8 }],
{
    let mut tag: Vec<u8> = Vec::new();
    tag.push(UdpPacketTypes::Paused.tag());
    let mut payload: Vec<u8> = Vec::new();
    payload.push(if paused { 1 } else { 0 });
    (tag, payload)
}

/// The single datagram that signals termination: the `Quit` tag alone.
pub fn quit() -> (r: Vec<u8>)
    ensures
        r@ == seq![UdpPacketTypes::Quit.spec_tag()],
{
    let mut tag: Vec<u8> = Vec::new();
    tag.push(UdpPacketTypes::Quit.tag());
    tag
}

/// The single datagram of the one-way handshake sent on first use: the
/// `Connection` tag alone.
pub fn connection_handshake() -> (r: Vec<u8>)
    ensures
        r@ == seq![UdpPacketTypes::Connection.spec_tag()],
{
    let mut tag: Vec<u8> = Vec::new();
    tag.push(UdpPacketTypes::Connection.tag());
    tag
}

/// The state the host keeps between polls: the last playback speed and
/// pause flag the visualizer reported (with their startup values), and a
/// pending snapshot override not yet consumed.
pub struct Session {
    pub game_speed: u32,
    pub game_paused: bool,
    pub game_state: Option<GameState>,
}

impl Session {
    /// A fresh session: full speed (1.0), not paused, no pending
    /// override.
    pub fn new() -> (r: Self)
        ensures
            r.game_speed == F32_ONE_BITS,
            r.game_paused == false,
            r.game_state is None,
    {
        Session { game_speed: F32_ONE_BITS, game_paused: false, game_state: None }
    }

    /// Fold one poll's summary into the session: each field the poll
    /// reported overwrites the kept value, each it did not keeps it.
    pub fn absorb(&mut self, msg: ReturnMessage)
        ensures
            final(self).game_speed == match msg.speed {
                Some(v) => v,
                None => old(self).game_speed,
            },
            final(self).game_paused == match msg.paused {
                Some(p) => p,
                None => old(self).game_paused,
            },
            spec_state_view(final(self).game_state) == match msg.game_state {
                Some(gs) => Some(gs@),
                None => spec_state_view(old(self).game_state),
            },
    {
        if let Some(v) = msg.speed {
            self.game_speed = v;
        }
        if let Some(p) = msg.paused {
            self.game_paused = p;
        }
        if let Some(gs) = msg.game_state {
            self.game_state = Some(gs);
        }
    }

    /// Hand out the pending snapshot override, if any, clearing it.
    pub fn take_game_state(&mut self) -> (r: Option<GameState>)
        ensures
            spec_state_view(r) == spec_state_view(old(self).game_state),
            final(self).game_state is None,
            final(self).game_speed == old(self).game_speed,
            final(self).game_paused == old(self).game_paused,
    {
        let mut taken: Option<GameState> = None;
        core::mem::swap(&mut self.game_state, &mut taken);
        taken
    }
}

/// Last write wins: a burst of two speed reports is summarized with the
/// later value.
pub proof fn lemma_last_write_wins(p1: Seq<u8>, p2: Seq<u8>)
    requires
        p1.len() >= 4,
        p2.len() >= 4,
    ensures
        ({
            let tag = seq![UdpPacketTypes::Speed.spec_tag()];
            spec_poll(seq![tag, p1, tag, p2]) == Ok::<ReturnMessageModel, WireError>(
                ReturnMessageModel {
                    game_state: None,
                    speed: Some(spec_u32_from_le_bytes(p2.subrange(0, 4))),
                    paused: None,
                },
            )
        }),
{
    let tag = seq![UdpPacketTypes::Speed.spec_tag()];
    let ds = seq![tag, p1, tag, p2];
    let acc1 = ReturnMessageModel {
        game_state: None,
        speed: Some(spec_u32_from_le_bytes(p1.subrange(0, 4))),
        paused: None,
    };
    let acc2 = ReturnMessageModel {
        game_state: None,
        speed: Some(spec_u32_from_le_bytes(p2.subrange(0, 4))),
        paused: None,
    };
    assert(ds.skip(2) =~= seq![tag, p2]);
    assert(seq![tag, p2].skip(2) =~= Seq::<Seq<u8>>::empty());
    assert(spec_drain(seq![tag, p2], acc1) == spec_drain(Seq::<Seq<u8>>::empty(), acc2));
}

} // verus!
