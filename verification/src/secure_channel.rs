//! The secure channel: the header of a chunk, the states of a channel,
//! the lifetime of its security tokens, the sequence numbers of its
//! chunks, and the assembly of messages from chunks.

use vstd::prelude::*;
use crate::constants::MAX_MESSAGE_LENGTH;
use crate::encoding::{
    le_bytes_4, le_value_4, lemma_le_4, read_u32, skip_bytes, write_u32, write_u8, BinaryEncoder,
    EncodingResult,
};
use crate::status_codes::{
    StatusCode, BAD_DECODING_ERROR, BAD_ENCODING_LIMITS_EXCEEDED,
    BAD_SECURE_CHANNEL_TOKEN_UNKNOWN, BAD_SECURITY_CHECKS_FAILED, BAD_UNEXPECTED_ERROR,
};

verus! {

/// The size of the header of a chunk in bytes.
pub const CHUNK_HEADER_SIZE: usize = 8;

/// The sequence number from which on the numbers may start again.
pub const SEQUENCE_NUMBER_WRAP: u32 = 4294966272;

/// The number below which the sequence numbers start again.
pub const SEQUENCE_NUMBER_RESTART: u32 = 1024;

/// The ticks of a point in time in a millisecond.
pub const TICKS_PER_MILLISECOND: i64 = 10_000;

/// The kinds of messages on a connection.
#[derive(Debug, Clone, Copy, PartialEq, Eq, Structural, Hash)]
pub enum MessageType {
    /// `HEL`
    Hello,
    /// `ACK`
    Acknowledge,
    /// `OPN`
    OpenSecureChannel,
    /// `MSG`
    Message,
    /// `CLO`
    CloseSecureChannel,
    /// `ERR`
    Error,
}

/// What a chunk is to its message.
#[derive(Debug, Clone, Copy, PartialEq, Eq, Structural, Hash)]
pub enum ChunkType {
    /// `F`: the last chunk of the message.
    Final,
    /// `C`: more chunks follow.
    Continuation,
    /// `A`: the message is given up.
    Abort,
}

/// The header of a chunk.
#[derive(Debug, Clone, Copy, PartialEq, Eq, Structural, Hash)]
pub struct ChunkHeader {
    pub message_type: MessageType,
    pub chunk_type: ChunkType,
    /// The length of the chunk in bytes, with its header.
    pub message_size: u32,
}

impl View for ChunkHeader {
    type V = ChunkHeader;

    open spec fn view(&self) -> ChunkHeader {
        *self
    }
}

/// The three letters that name `message_type`.
pub open spec fn type_letters(message_type: MessageType) -> Seq<u8> {
    match message_type {
        MessageType::Hello => seq![72u8, 69u8, 76u8],
        MessageType::Acknowledge => seq![65u8, 67u8, 75u8],
        MessageType::OpenSecureChannel => seq![79u8, 80u8, 78u8],
        MessageType::Message => seq![77u8, 83u8, 71u8],
        MessageType::CloseSecureChannel => seq![67u8, 76u8, 79u8],
        MessageType::Error => seq![69u8, 82u8, 82u8],
    }
}

/// The kind of message that the letters `a`, `b`, `c` name.
pub open spec fn type_of_letters(a: u8, b: u8, c: u8) -> Option<MessageType> {
    if a == 72 && b == 69 && c == 76 {
        Some(MessageType::Hello)
    } else if a == 65 && b == 67 && c == 75 {
        Some(MessageType::Acknowledge)
    } else if a == 79 && b == 80 && c == 78 {
        Some(MessageType::OpenSecureChannel)
    } else if a == 77 && b == 83 && c == 71 {
        Some(MessageType::Message)
    } else if a == 67 && b == 76 && c == 79 {
        Some(MessageType::CloseSecureChannel)
    } else if a == 69 && b == 82 && c == 82 {
        Some(MessageType::Error)
    } else {
        None
    }
}

/// The letter that names `chunk_type`.
pub open spec fn chunk_letter(chunk_type: ChunkType) -> u8 {
    match chunk_type {
        ChunkType::Final => 70,
        ChunkType::Continuation => 67,
        ChunkType::Abort => 65,
    }
}

/// The chunk type that the letter `letter` names.
pub open spec fn chunk_of_letter(letter: u8) -> Option<ChunkType> {
    if letter == 70 {
        Some(ChunkType::Final)
    } else if letter == 67 {
        Some(ChunkType::Continuation)
    } else if letter == 65 {
        Some(ChunkType::Abort)
    } else {
        None
    }
}

impl BinaryEncoder for ChunkHeader {
    /// Three letters for the kind of message, one for the chunk type,
    /// then the length of the chunk.
    open spec fn wire(v: ChunkHeader) -> Seq<u8> {
        type_letters(v.message_type) + seq![chunk_letter(v.chunk_type)] + le_bytes_4(
            v.message_size as int,
        )
    }

    /// Letters that name nothing and a length below that of the header
    /// are decoding errors; a length above the largest message exceeds the
    /// limits.
    open spec fn parse(s: Seq<u8>) -> Result<(ChunkHeader, int), StatusCode> {
        if s.len() < 8 {
            Err(BAD_DECODING_ERROR)
        } else {
            match (type_of_letters(s[0], s[1], s[2]), chunk_of_letter(s[3])) {
                (Some(message_type), Some(chunk_type)) => {
                    let message_size = le_value_4(s.skip(4));
                    if message_size < 8 {
                        Err(BAD_DECODING_ERROR)
                    } else if message_size > MAX_MESSAGE_LENGTH {
                        Err(BAD_ENCODING_LIMITS_EXCEEDED)
                    } else {
                        Ok(
                            (
                                ChunkHeader {
                                    message_type,
                                    chunk_type,
                                    message_size: message_size as u32,
                                },
                                8,
                            ),
                        )
                    }
                },
                _ => Err(BAD_DECODING_ERROR),
            }
        }
    }

    open spec fn encodable(v: ChunkHeader) -> bool {
        true
    }

    open spec fn canonical(v: ChunkHeader) -> bool {
        8 <= v.message_size <= MAX_MESSAGE_LENGTH
    }

    proof fn lemma_round_trip(v: ChunkHeader, rest: Seq<u8>) {
        let s = Self::wire(v) + rest;
        assert(s[0] == type_letters(v.message_type)[0]);
        assert(s[1] == type_letters(v.message_type)[1]);
        assert(s[2] == type_letters(v.message_type)[2]);
        assert(s[3] == chunk_letter(v.chunk_type));
        assert(s.skip(4) =~= le_bytes_4(v.message_size as int) + rest);
        lemma_le_4(v.message_size as int, rest);
    }

    proof fn lemma_parse_consumes(s: Seq<u8>) {
    }

    fn is_encodable(&self) -> (r: bool) {
        true
    }

    fn byte_len(&self) -> (n: usize) {
        8
    }

    fn encode(&self, stream: &mut Vec<u8>) -> (r: EncodingResult<usize>) {
        let (a, b, c): (u8, u8, u8) = match self.message_type {
            MessageType::Hello => (72, 69, 76),
            MessageType::Acknowledge => (65, 67, 75),
            MessageType::OpenSecureChannel => (79, 80, 78),
            MessageType::Message => (77, 83, 71),
            MessageType::CloseSecureChannel => (67, 76, 79),
            MessageType::Error => (69, 82, 82),
        };
        let letter: u8 = match self.chunk_type {
            ChunkType::Final => 70,
            ChunkType::Continuation => 67,
            ChunkType::Abort => 65,
        };
        let _ = write_u8(stream, a);
        let _ = write_u8(stream, b);
        let _ = write_u8(stream, c);
        let _ = write_u8(stream, letter);
        let _ = write_u32(stream, self.message_size);
        assert(stream@ =~= old(stream)@ + Self::wire(self@));
        Ok(8)
    }

    fn decode(stream: &[u8]) -> (r: EncodingResult<(Self, usize)>) {
        if stream.len() < 8 {
            return Err(BAD_DECODING_ERROR);
        }
        let (a, b, c) = (stream[0], stream[1], stream[2]);
        let message_type = if a == 72 && b == 69 && c == 76 {
            MessageType::Hello
        } else if a == 65 && b == 67 && c == 75 {
            MessageType::Acknowledge
        } else if a == 79 && b == 80 && c == 78 {
            MessageType::OpenSecureChannel
        } else if a == 77 && b == 83 && c == 71 {
            MessageType::Message
        } else if a == 67 && b == 76 && c == 79 {
            MessageType::CloseSecureChannel
        } else if a == 69 && b == 82 && c == 82 {
            MessageType::Error
        } else {
            return Err(BAD_DECODING_ERROR);
        };
        let chunk_type = if stream[3] == 70 {
            ChunkType::Final
        } else if stream[3] == 67 {
            ChunkType::Continuation
        } else if stream[3] == 65 {
            ChunkType::Abort
        } else {
            return Err(BAD_DECODING_ERROR);
        };
        let (message_size, _) = read_u32(skip_bytes(stream, 4))?;
        if message_size < 8 {
            Err(BAD_DECODING_ERROR)
        } else if message_size as usize > MAX_MESSAGE_LENGTH {
            Err(BAD_ENCODING_LIMITS_EXCEEDED)
        } else {
            Ok((ChunkHeader { message_type, chunk_type, message_size }, 8))
        }
    }
}

/// The states of a secure channel.
#[derive(Debug, Clone, Copy, PartialEq, Eq, Structural, Hash)]
pub enum ChannelState {
    /// No channel.
    Closed,
    /// A request to open the channel is being worked on.
    Opening,
    /// The channel is open.
    Open,
    /// A request to renew the token of the open channel is being worked on.
    Renewing,
}

/// A security token: the right to use a channel for some time.
#[derive(Debug, Clone, Copy, PartialEq, Eq, Structural, Hash)]
pub struct SecurityToken {
    pub token_id: u32,
    /// When the token was made, in ticks.
    pub created_at: i64,
    /// How long the token is good for, in milliseconds.
    pub lifetime: u32,
}

/// What the header of a chunk says of its place in a channel.
#[derive(Debug, Clone, Copy, PartialEq, Eq, Structural, Hash)]
pub struct ChunkInfo {
    pub channel_id: u32,
    pub token_id: u32,
    pub sequence_number: u32,
    pub request_id: u32,
}

/// A secure channel as a server keeps it.
#[derive(Debug, Clone, PartialEq, Eq)]
pub struct SecureChannel {
    pub state: ChannelState,
    /// The id of the channel; of no meaning while the channel is closed.
    pub channel_id: u32,
    /// The token in use.
    pub token: Option<SecurityToken>,
    /// The token that was in use before the last renewal, and when it
    /// was renewed.
    pub previous_token: Option<(SecurityToken, i64)>,
    /// The sequence number of the last chunk that was accepted.
    pub last_sequence_number: Option<u32>,
    /// The request whose chunks are being put together, and what has
    /// come of it.
    pub pending: Option<(u32, Vec<u8>)>,
}

/// The point in time, in ticks, at which `token` stops being good.
pub open spec fn token_expiry(token: SecurityToken) -> int {
    token.created_at + token.lifetime * TICKS_PER_MILLISECOND
}

/// The point in time, in ticks, up to which a token that was renewed at
/// `renewed_at` is still accepted: a quarter of its lifetime longer.
pub open spec fn overlap_end(token: SecurityToken, renewed_at: i64) -> int {
    renewed_at + (token.lifetime / 4) * TICKS_PER_MILLISECOND
}

/// True when the token with the id `token_id` is accepted on `channel`
/// at the time `now`: it is the token in use and has not expired, or the
/// token before it and the overlap has not passed.
pub open spec fn token_accepted(channel: SecureChannel, token_id: u32, now: i64) -> bool {
    ||| channel.token matches Some(token) && token.token_id == token_id && now < token_expiry(
        token,
    )
    ||| channel.previous_token matches Some((token, renewed_at)) && token.token_id == token_id
        && now < overlap_end(token, renewed_at)
}

/// True when the sequence number `next` may follow `last`: it is greater,
/// or `last` has reached the point from which the numbers may start again
/// and `next` is below the number at which they restart.
pub open spec fn sequence_follows(last: Option<u32>, next: u32) -> bool {
    match last {
        Some(last) => next > last || (last >= SEQUENCE_NUMBER_WRAP && next
            < SEQUENCE_NUMBER_RESTART),
        None => true,
    }
}

/// The sequence number that a sender uses after `last`.
pub open spec fn sequence_after(last: u32) -> u32 {
    if last >= SEQUENCE_NUMBER_WRAP {
        1
    } else {
        (last + 1) as u32
    }
}

/// A receiver accepts the numbers that a sender counts.
pub proof fn lemma_sequence_after_follows(last: u32)
    ensures
        sequence_follows(Some(last), sequence_after(last)),
{
}

/// The closed channel.
pub open spec fn closed_channel() -> SecureChannel {
    SecureChannel {
        state: ChannelState::Closed,
        channel_id: 0,
        token: None,
        previous_token: None,
        last_sequence_number: None,
        pending: None,
    }
}

/// What a chunk does to the message that is being put together:
/// `Ok(Some(..))` is a whole message, `Ok(None)` says that more is to
/// come or that the message was given up.
pub open spec fn assembled(
    pending: Option<(u32, Seq<u8>)>,
    request_id: u32,
    chunk_type: ChunkType,
    body: Seq<u8>,
) -> (Option<(u32, Seq<u8>)>, Result<Option<Seq<u8>>, StatusCode>) {
    let so_far = match pending {
        Some((id, bytes)) => if id == request_id {
            Some(bytes)
        } else {
            None
        },
        None => Some(Seq::empty()),
    };
    match chunk_type {
        ChunkType::Abort => (None, Ok(None)),
        _ => match so_far {
            None => (None, Err(BAD_DECODING_ERROR)),
            Some(bytes) => if bytes.len() + body.len() > MAX_MESSAGE_LENGTH {
                (None, Err(BAD_ENCODING_LIMITS_EXCEEDED))
            } else if chunk_type is Final {
                (None, Ok(Some(bytes + body)))
            } else {
                (Some((request_id, bytes + body)), Ok(None))
            },
        },
    }
}

/// The view of the message that is being put together.
pub open spec fn pending_view(pending: Option<(u32, Vec<u8>)>) -> Option<(u32, Seq<u8>)> {
    match pending {
        Some((id, bytes)) => Some((id, bytes@)),
        None => None,
    }
}

impl SecureChannel {
    /// A closed channel.
    pub fn new() -> (r: SecureChannel)
        ensures
            r == closed_channel(),
    {
        SecureChannel {
            state: ChannelState::Closed,
            channel_id: 0,
            token: None,
            previous_token: None,
            last_sequence_number: None,
            pending: None,
        }
    }

    /// Closes the channel, whatever its state.
    pub fn close(&mut self)
        ensures
            *final(self) == closed_channel(),
    {
        self.state = ChannelState::Closed;
        self.channel_id = 0;
        self.token = None;
        self.previous_token = None;
        self.last_sequence_number = None;
        self.pending = None;
    }

    /// A request to open a secure channel has come: to open a channel
    /// where there is none, or to renew the token of an open channel.
    /// Any other request is an error that closes the channel.
    pub fn begin_open(&mut self, renew: bool) -> (r: Result<(), StatusCode>)
        ensures
            match (old(self).state, renew) {
                (ChannelState::Closed, false) => r is Ok && *final(self) == (SecureChannel {
                    state: ChannelState::Opening,
                    ..*old(self)
                }),
                (ChannelState::Open, true) => r is Ok && *final(self) == (SecureChannel {
                    state: ChannelState::Renewing,
                    ..*old(self)
                }),
                _ => r == Err::<(), StatusCode>(BAD_UNEXPECTED_ERROR) && *final(self)
                    == closed_channel(),
            },
    {
        match (self.state, renew) {
            (ChannelState::Closed, false) => {
                self.state = ChannelState::Opening;
                Ok(())
            },
            (ChannelState::Open, true) => {
                self.state = ChannelState::Renewing;
                Ok(())
            },
            _ => {
                self.close();
                Err(BAD_UNEXPECTED_ERROR)
            },
        }
    }

    /// The request to open or renew has passed its security checks: the
    /// channel is open with the token `token_id`, made at `now` and good
    /// for `lifetime` milliseconds. After a renewal the token that was in
    /// use stays accepted for the overlap. A renewal for another channel
    /// fails the security checks, and without a request that is being
    /// worked on this is an unexpected error; both close the channel.
    pub fn complete_open(&mut self, channel_id: u32, token_id: u32, now: i64, lifetime: u32) -> (r:
        Result<(), StatusCode>)
        ensures
            match old(self).state {
                ChannelState::Opening => r is Ok && *final(self) == (SecureChannel {
                    state: ChannelState::Open,
                    channel_id,
                    token: Some(SecurityToken { token_id, created_at: now, lifetime }),
                    previous_token: None,
                    last_sequence_number: None,
                    pending: None,
                }),
                ChannelState::Renewing => if channel_id == old(self).channel_id {
                    r is Ok && *final(self) == (SecureChannel {
                        state: ChannelState::Open,
                        token: Some(SecurityToken { token_id, created_at: now, lifetime }),
                        previous_token: match old(self).token {
                            Some(token) => Some((token, now)),
                            None => None,
                        },
                        ..*old(self)
                    })
                } else {
                    r == Err::<(), StatusCode>(BAD_SECURITY_CHECKS_FAILED) && *final(self)
                        == closed_channel()
                },
                _ => r == Err::<(), StatusCode>(BAD_UNEXPECTED_ERROR) && *final(self)
                    == closed_channel(),
            },
    {
        let token = SecurityToken { token_id, created_at: now, lifetime };
        match self.state {
            ChannelState::Opening => {
                self.state = ChannelState::Open;
                self.channel_id = channel_id;
                self.token = Some(token);
                self.previous_token = None;
                self.last_sequence_number = None;
                self.pending = None;
                Ok(())
            },
            ChannelState::Renewing => {
                if channel_id != self.channel_id {
                    self.close();
                    return Err(BAD_SECURITY_CHECKS_FAILED);
                }
                self.previous_token = match self.token {
                    Some(old_token) => Some((old_token, now)),
                    None => None,
                };
                self.token = Some(token);
                self.state = ChannelState::Open;
                Ok(())
            },
            _ => {
                self.close();
                Err(BAD_UNEXPECTED_ERROR)
            },
        }
    }

    /// Tells whether the token `token_id` is accepted at the time `now`.
    pub fn token_is_accepted(&self, token_id: u32, now: i64) -> (r: bool)
        ensures
            r == token_accepted(*self, token_id, now),
    {
        let current = match self.token {
            Some(token) => token.token_id == token_id && (now as i128) < (token.created_at as i128)
                + (token.lifetime as i128) * 10_000,
            None => false,
        };
        let previous = match self.previous_token {
            Some((token, renewed_at)) => token.token_id == token_id && (now as i128) < (
            renewed_at as i128) + ((token.lifetime / 4) as i128) * 10_000,
            None => false,
        };
        current || previous
    }

    /// Closes the channel where the token in use has expired at the time
    /// `now`. Tells whether it did.
    pub fn expire(&mut self, now: i64) -> (r: bool)
        ensures
            r == (old(self).token matches Some(token) && now >= token_expiry(token)),
            r ==> *final(self) == closed_channel(),
            !r ==> *final(self) == *old(self),
    {
        let expired = match self.token {
            Some(token) => (now as i128) >= (token.created_at as i128) + (token.lifetime as i128)
                * 10_000,
            None => false,
        };
        if expired {
            self.close();
        }
        expired
    }

    /// Checks a chunk against the channel at the time `now`. Where the
    /// token in use has expired, the channel closes. A chunk for a channel
    /// that is not open, for another channel, or with a token that is not
    /// accepted has an unknown token. A chunk whose sequence number does
    /// not follow that of the chunk before fails the security checks, and
    /// closes the channel. A chunk that passes is the last that was
    /// accepted.
    pub fn validate_chunk(&mut self, chunk: &ChunkInfo, now: i64) -> (r: Result<(), StatusCode>)
        ensures
            (*final(self), r) == after_chunk(*old(self), *chunk, now),
    {
        if self.expire(now) {
            return Err(BAD_SECURE_CHANNEL_TOKEN_UNKNOWN);
        }
        let open = match self.state {
            ChannelState::Open | ChannelState::Renewing => true,
            _ => false,
        };
        if !open || chunk.channel_id != self.channel_id || !self.token_is_accepted(
            chunk.token_id,
            now,
        ) {
            return Err(BAD_SECURE_CHANNEL_TOKEN_UNKNOWN);
        }
        let follows = match self.last_sequence_number {
            Some(last) => chunk.sequence_number > last || (last >= SEQUENCE_NUMBER_WRAP
                && chunk.sequence_number < SEQUENCE_NUMBER_RESTART),
            None => true,
        };
        if !follows {
            self.close();
            return Err(BAD_SECURITY_CHECKS_FAILED);
        }
        self.last_sequence_number = Some(chunk.sequence_number);
        Ok(())
    }

    /// Takes the body of a chunk of the request `request_id`. A final
    /// chunk gives the whole message; a continuation chunk is kept for
    /// later; an abort chunk discards what was kept. A chunk of another
    /// request than the one that is being put together is a decoding
    /// error, and a message above the largest size exceeds the limits;
    /// both discard what was kept.
    pub fn receive_chunk(&mut self, request_id: u32, chunk_type: ChunkType, body: &[u8]) -> (r:
        Result<Option<Vec<u8>>, StatusCode>)
        ensures
            final(self).state == old(self).state,
            final(self).channel_id == old(self).channel_id,
            final(self).token == old(self).token,
            final(self).previous_token == old(self).previous_token,
            final(self).last_sequence_number == old(self).last_sequence_number,
            pending_view(final(self).pending) == assembled(
                pending_view(old(self).pending),
                request_id,
                chunk_type,
                body@,
            ).0,
            match assembled(pending_view(old(self).pending), request_id, chunk_type, body@).1 {
                Ok(Some(message)) => r matches Ok(Some(bytes)) && bytes@ == message,
                Ok(None) => r matches Ok(None),
                Err(e) => r matches Err(f) && f == e,
            },
    {
        let pending = self.pending.take();
        if let ChunkType::Abort = chunk_type {
            return Ok(None);
        }
        let mut bytes = match pending {
            Some((id, bytes)) => {
                if id != request_id {
                    return Err(BAD_DECODING_ERROR);
                }
                bytes
            },
            None => Vec::new(),
        };
        if bytes.len() > MAX_MESSAGE_LENGTH || body.len() > MAX_MESSAGE_LENGTH - bytes.len() {
            return Err(BAD_ENCODING_LIMITS_EXCEEDED);
        }
        let ghost before = bytes@;
        bytes.extend_from_slice(body);
        assert(bytes@ =~= before + body@);
        match chunk_type {
            ChunkType::Final => Ok(Some(bytes)),
            _ => {
                self.pending = Some((request_id, bytes));
                Ok(None)
            },
        }
    }
}

/// True when a chunk is recognized at the time `now`: the channel is
/// open, the chunk names the channel, and its token is accepted.
pub open spec fn chunk_recognized(channel: SecureChannel, chunk: ChunkInfo, now: i64) -> bool {
    &&& channel.state is Open || channel.state is Renewing
    &&& chunk.channel_id == channel.channel_id
    &&& token_accepted(channel, chunk.token_id, now)
}

/// The channel after the check of a chunk at the time `now`, and what the
/// check says.
pub open spec fn after_chunk(channel: SecureChannel, chunk: ChunkInfo, now: i64) -> (
    SecureChannel,
    Result<(), StatusCode>,
) {
    if channel.token matches Some(token) && now >= token_expiry(token) {
        (closed_channel(), Err(BAD_SECURE_CHANNEL_TOKEN_UNKNOWN))
    } else if !chunk_recognized(channel, chunk, now) {
        (channel, Err(BAD_SECURE_CHANNEL_TOKEN_UNKNOWN))
    } else if !sequence_follows(channel.last_sequence_number, chunk.sequence_number) {
        (closed_channel(), Err(BAD_SECURITY_CHECKS_FAILED))
    } else {
        (SecureChannel { last_sequence_number: Some(chunk.sequence_number), ..channel }, Ok(()))
    }
}

/// The sequence number for the chunk that a sender sends after the one
/// numbered `last`.
pub fn next_sequence_number(last: u32) -> (r: u32)
    ensures
        r == sequence_after(last),
{
    if last >= SEQUENCE_NUMBER_WRAP {
        1
    } else {
        last + 1
    }
}

/// Accepted chunks carry sequence numbers that rise, until the numbers
/// reach the point from which they may start again.
pub proof fn lemma_accepted_sequence_rises(channel: SecureChannel, chunk: ChunkInfo, now: i64)
    requires
        after_chunk(channel, chunk, now).1 is Ok,
        channel.last_sequence_number matches Some(last) && last < SEQUENCE_NUMBER_WRAP,
    ensures
        chunk.sequence_number > channel.last_sequence_number->0,
{
}

/// After the token in use has expired, no chunk is accepted, and the
/// channel is closed.
pub proof fn lemma_expired_channel_closes(channel: SecureChannel, chunk: ChunkInfo, now: i64)
    requires
        channel.token matches Some(token) && now >= token_expiry(token),
    ensures
        after_chunk(channel, chunk, now) == (
            closed_channel(),
            Err::<(), StatusCode>(BAD_SECURE_CHANNEL_TOKEN_UNKNOWN),
        ),
        forall|other: ChunkInfo, later: i64|
            (#[trigger] after_chunk(closed_channel(), other, later)).1 == Err::<(), StatusCode>(
                BAD_SECURE_CHANNEL_TOKEN_UNKNOWN,
            ),
{
}

} // verus!
