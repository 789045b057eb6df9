use opcua::encoding::BinaryEncoder;
use opcua::secure_channel::{
    next_sequence_number, ChannelState, ChunkHeader, ChunkInfo, ChunkType, MessageType,
    SecureChannel, SecurityToken,
};
use opcua::status_codes::{
    BAD_DECODING_ERROR, BAD_ENCODING_LIMITS_EXCEEDED, BAD_SECURE_CHANNEL_TOKEN_UNKNOWN,
    BAD_SECURITY_CHECKS_FAILED, BAD_UNEXPECTED_ERROR,
};

const MS: i64 = 10_000;

fn chunk(token_id: u32, sequence_number: u32) -> ChunkInfo {
    ChunkInfo { channel_id: 5, token_id, sequence_number, request_id: 1 }
}

/// A channel with the id 5 and the token 1, opened at the time 1000 ms
/// for 60 s.
fn open_channel() -> SecureChannel {
    let mut channel = SecureChannel::new();
    assert_eq!(channel.begin_open(false), Ok(()));
    assert_eq!(channel.state, ChannelState::Opening);
    assert_eq!(channel.complete_open(5, 1, 1000 * MS, 60_000), Ok(()));
    channel
}

#[test]
fn chunk_header_is_eight_bytes() {
    let header = ChunkHeader {
        message_type: MessageType::Message,
        chunk_type: ChunkType::Final,
        message_size: 0x0102,
    };
    let mut stream = Vec::new();
    assert_eq!(header.encode(&mut stream), Ok(8));
    assert_eq!(stream, vec![b'M', b'S', b'G', b'F', 0x02, 0x01, 0x00, 0x00]);
    assert_eq!(header.byte_len(), 8);
    assert_eq!(ChunkHeader::decode(&stream), Ok((header, 8)));
    let kinds = [
        (MessageType::Hello, *b"HEL"),
        (MessageType::Acknowledge, *b"ACK"),
        (MessageType::OpenSecureChannel, *b"OPN"),
        (MessageType::Message, *b"MSG"),
        (MessageType::CloseSecureChannel, *b"CLO"),
        (MessageType::Error, *b"ERR"),
    ];
    let chunks =
        [(ChunkType::Final, b'F'), (ChunkType::Continuation, b'C'), (ChunkType::Abort, b'A')];
    for (message_type, letters) in kinds {
        for (chunk_type, letter) in chunks {
            let header = ChunkHeader { message_type, chunk_type, message_size: 16777216 };
            let mut stream = Vec::new();
            header.encode(&mut stream).unwrap();
            assert_eq!(&stream[..3], &letters[..]);
            assert_eq!(stream[3], letter);
            assert_eq!(&stream[4..], &[0, 0, 0, 1][..]);
            stream.push(0xAA);
            assert_eq!(ChunkHeader::decode(&stream), Ok((header, 8)));
        }
    }
}

#[test]
fn chunk_header_rejects_what_it_does_not_know() {
    assert_eq!(ChunkHeader::decode(b"MSGF\x08\x00\x00"), Err(BAD_DECODING_ERROR));
    assert_eq!(ChunkHeader::decode(b"MSXF\x08\x00\x00\x00"), Err(BAD_DECODING_ERROR));
    assert_eq!(ChunkHeader::decode(b"msgF\x08\x00\x00\x00"), Err(BAD_DECODING_ERROR));
    assert_eq!(ChunkHeader::decode(b"MSGX\x08\x00\x00\x00"), Err(BAD_DECODING_ERROR));
    // A chunk is at least its header.
    assert_eq!(ChunkHeader::decode(b"MSGF\x07\x00\x00\x00"), Err(BAD_DECODING_ERROR));
    assert!(ChunkHeader::decode(b"MSGF\x08\x00\x00\x00").is_ok());
    // A chunk is at most the largest message.
    assert_eq!(ChunkHeader::decode(b"MSGF\x01\x00\x00\x01"), Err(BAD_ENCODING_LIMITS_EXCEEDED));
}

#[test]
fn channel_opens_renews_and_closes() {
    let mut channel = open_channel();
    assert_eq!(
        channel,
        SecureChannel {
            state: ChannelState::Open,
            channel_id: 5,
            token: Some(SecurityToken { token_id: 1, created_at: 1000 * MS, lifetime: 60_000 }),
            previous_token: None,
            last_sequence_number: None,
            pending: None,
        }
    );
    assert_eq!(channel.begin_open(true), Ok(()));
    assert_eq!(channel.state, ChannelState::Renewing);
    assert_eq!(channel.complete_open(5, 2, 50_000 * MS, 30_000), Ok(()));
    assert_eq!(channel.state, ChannelState::Open);
    assert_eq!(
        channel.token,
        Some(SecurityToken { token_id: 2, created_at: 50_000 * MS, lifetime: 30_000 })
    );
    assert_eq!(
        channel.previous_token,
        Some((SecurityToken { token_id: 1, created_at: 1000 * MS, lifetime: 60_000 }, 50_000 * MS))
    );
    channel.close();
    assert_eq!(channel, SecureChannel::new());
    assert_eq!(channel.state, ChannelState::Closed);
}

#[test]
fn requests_out_of_turn_close_the_channel() {
    // A renewal without a channel.
    let mut channel = SecureChannel::new();
    assert_eq!(channel.begin_open(true), Err(BAD_UNEXPECTED_ERROR));
    assert_eq!(channel, SecureChannel::new());
    // A second opening of an open channel.
    let mut channel = open_channel();
    assert_eq!(channel.begin_open(false), Err(BAD_UNEXPECTED_ERROR));
    assert_eq!(channel, SecureChannel::new());
    // A request while another is worked on.
    let mut channel = SecureChannel::new();
    channel.begin_open(false).unwrap();
    assert_eq!(channel.begin_open(false), Err(BAD_UNEXPECTED_ERROR));
    assert_eq!(channel.state, ChannelState::Closed);
    // An opening that nobody asked for.
    let mut channel = open_channel();
    assert_eq!(channel.complete_open(5, 9, 0, 1), Err(BAD_UNEXPECTED_ERROR));
    assert_eq!(channel, SecureChannel::new());
    // A renewal for another channel.
    let mut channel = open_channel();
    channel.begin_open(true).unwrap();
    assert_eq!(channel.complete_open(6, 2, 0, 1), Err(BAD_SECURITY_CHECKS_FAILED));
    assert_eq!(channel, SecureChannel::new());
}

#[test]
fn tokens_expire() {
    let mut channel = open_channel();
    let end = (1000 + 60_000) * MS;
    assert!(channel.token_is_accepted(1, 1000 * MS));
    assert!(channel.token_is_accepted(1, end - 1));
    assert!(!channel.token_is_accepted(1, end));
    assert!(!channel.token_is_accepted(2, 1000 * MS));
    assert!(!channel.expire(end - 1));
    assert_eq!(channel.state, ChannelState::Open);
    assert!(channel.expire(end));
    assert_eq!(channel, SecureChannel::new());
    assert!(!channel.expire(i64::MAX));
    // A chunk after the expiry closes the channel, and nothing is accepted after.
    let mut channel = open_channel();
    assert_eq!(channel.validate_chunk(&chunk(1, 1), end - 1), Ok(()));
    assert_eq!(channel.validate_chunk(&chunk(1, 2), end), Err(BAD_SECURE_CHANNEL_TOKEN_UNKNOWN));
    assert_eq!(channel, SecureChannel::new());
    assert_eq!(channel.validate_chunk(&chunk(1, 3), 1000 * MS), Err(BAD_SECURE_CHANNEL_TOKEN_UNKNOWN));
    // Times at the ends of the scale.
    let mut channel = SecureChannel::new();
    channel.begin_open(false).unwrap();
    channel.complete_open(5, 1, i64::MAX, u32::MAX).unwrap();
    assert!(channel.token_is_accepted(1, i64::MAX));
    assert!(!channel.expire(i64::MAX));
}

#[test]
fn renewed_token_overlaps() {
    let mut channel = open_channel();
    channel.begin_open(true).unwrap();
    // A chunk with the old token during the renewal.
    assert_eq!(channel.validate_chunk(&chunk(1, 10), 49_000 * MS), Ok(()));
    channel.complete_open(5, 2, 50_000 * MS, 30_000).unwrap();
    // A quarter of the 60 s of the old token.
    let overlap_end = (50_000 + 15_000) * MS;
    assert!(channel.token_is_accepted(1, overlap_end - 1));
    assert!(!channel.token_is_accepted(1, overlap_end));
    assert!(channel.token_is_accepted(2, overlap_end));
    assert_eq!(channel.validate_chunk(&chunk(1, 11), overlap_end - 1), Ok(()));
    assert_eq!(channel.validate_chunk(&chunk(2, 12), overlap_end - 1), Ok(()));
    assert_eq!(
        channel.validate_chunk(&chunk(1, 13), overlap_end),
        Err(BAD_SECURE_CHANNEL_TOKEN_UNKNOWN)
    );
    // The channel stays open for the token in use.
    assert_eq!(channel.state, ChannelState::Open);
    assert_eq!(channel.last_sequence_number, Some(12));
    assert_eq!(channel.validate_chunk(&chunk(2, 13), overlap_end), Ok(()));
}

#[test]
fn chunks_must_be_recognized() {
    let now = 2000 * MS;
    let mut closed = SecureChannel::new();
    assert_eq!(closed.validate_chunk(&chunk(1, 1), now), Err(BAD_SECURE_CHANNEL_TOKEN_UNKNOWN));
    let mut opening = SecureChannel::new();
    opening.begin_open(false).unwrap();
    assert_eq!(opening.validate_chunk(&chunk(1, 1), now), Err(BAD_SECURE_CHANNEL_TOKEN_UNKNOWN));
    assert_eq!(opening.state, ChannelState::Opening);
    let mut channel = open_channel();
    let other_channel = ChunkInfo { channel_id: 6, token_id: 1, sequence_number: 1, request_id: 1 };
    assert_eq!(channel.validate_chunk(&other_channel, now), Err(BAD_SECURE_CHANNEL_TOKEN_UNKNOWN));
    assert_eq!(channel.validate_chunk(&chunk(7, 1), now), Err(BAD_SECURE_CHANNEL_TOKEN_UNKNOWN));
    assert_eq!(channel, open_channel());
}

#[test]
fn sequence_numbers_rise() {
    let now = 2000 * MS;
    let mut channel = open_channel();
    assert_eq!(channel.validate_chunk(&chunk(1, 51), now), Ok(()));
    assert_eq!(channel.last_sequence_number, Some(51));
    assert_eq!(channel.validate_chunk(&chunk(1, 52), now), Ok(()));
    assert_eq!(channel.validate_chunk(&chunk(1, 60), now), Ok(()));
    // The same number again.
    assert_eq!(channel.validate_chunk(&chunk(1, 60), now), Err(BAD_SECURITY_CHECKS_FAILED));
    assert_eq!(channel, SecureChannel::new());
    // A number that falls back before the wrap is allowed.
    let mut channel = open_channel();
    assert_eq!(channel.validate_chunk(&chunk(1, 4294966271), now), Ok(()));
    assert_eq!(channel.validate_chunk(&chunk(1, 5), now), Err(BAD_SECURITY_CHECKS_FAILED));
    assert_eq!(channel.state, ChannelState::Closed);
}

#[test]
fn sequence_numbers_wrap() {
    let now = 2000 * MS;
    let mut channel = open_channel();
    assert_eq!(channel.validate_chunk(&chunk(1, 4294966272), now), Ok(()));
    assert_eq!(channel.validate_chunk(&chunk(1, 4294966280), now), Ok(()));
    assert_eq!(channel.validate_chunk(&chunk(1, 1023), now), Ok(()));
    assert_eq!(channel.validate_chunk(&chunk(1, 1024), now), Ok(()));
    // The start again must be below 1024.
    let mut channel = open_channel();
    assert_eq!(channel.validate_chunk(&chunk(1, u32::MAX), now), Ok(()));
    assert_eq!(channel.validate_chunk(&chunk(1, 1024), now), Err(BAD_SECURITY_CHECKS_FAILED));
    let mut channel = open_channel();
    assert_eq!(channel.validate_chunk(&chunk(1, u32::MAX), now), Ok(()));
    assert_eq!(channel.validate_chunk(&chunk(1, 0), now), Ok(()));
    // What a sender counts.
    assert_eq!(next_sequence_number(0), 1);
    assert_eq!(next_sequence_number(4294966270), 4294966271);
    assert_eq!(next_sequence_number(4294966271), 4294966272);
    assert_eq!(next_sequence_number(4294966272), 1);
    assert_eq!(next_sequence_number(u32::MAX), 1);
    let mut channel = open_channel();
    let mut number = 4294966270;
    for _ in 0..5 {
        assert_eq!(channel.validate_chunk(&chunk(1, number), now), Ok(()));
        number = next_sequence_number(number);
    }
    assert_eq!(number, 3);
}

#[test]
fn messages_are_put_together_from_chunks() {
    let mut channel = open_channel();
    assert_eq!(channel.receive_chunk(1, ChunkType::Final, &[1, 2]), Ok(Some(vec![1, 2])));
    assert_eq!(channel.pending, None);
    assert_eq!(channel.receive_chunk(2, ChunkType::Continuation, &[1, 2]), Ok(None));
    assert_eq!(channel.pending, Some((2, vec![1, 2])));
    assert_eq!(channel.receive_chunk(2, ChunkType::Continuation, &[]), Ok(None));
    assert_eq!(channel.receive_chunk(2, ChunkType::Continuation, &[3]), Ok(None));
    assert_eq!(channel.receive_chunk(2, ChunkType::Final, &[4, 5]), Ok(Some(vec![1, 2, 3, 4, 5])));
    assert_eq!(channel.pending, None);
    assert_eq!(channel.state, ChannelState::Open);
    // An abort chunk discards the message, whatever it carries.
    assert_eq!(channel.receive_chunk(3, ChunkType::Continuation, &[1]), Ok(None));
    assert_eq!(channel.receive_chunk(3, ChunkType::Abort, &[9, 9]), Ok(None));
    assert_eq!(channel.pending, None);
    assert_eq!(channel.receive_chunk(3, ChunkType::Final, &[2]), Ok(Some(vec![2])));
    assert_eq!(channel.receive_chunk(4, ChunkType::Abort, &[]), Ok(None));
    // A chunk of another request while one is put together.
    assert_eq!(channel.receive_chunk(5, ChunkType::Continuation, &[1]), Ok(None));
    assert_eq!(channel.receive_chunk(6, ChunkType::Final, &[2]), Err(BAD_DECODING_ERROR));
    assert_eq!(channel.pending, None);
    assert_eq!(channel, open_channel());
}

#[test]
fn messages_have_a_largest_size() {
    let mut channel = open_channel();
    let half = vec![0u8; 8 * 1024 * 1024];
    assert_eq!(channel.receive_chunk(1, ChunkType::Continuation, &half), Ok(None));
    assert_eq!(channel.receive_chunk(1, ChunkType::Continuation, &half), Ok(None));
    assert_eq!(
        channel.receive_chunk(1, ChunkType::Final, &[1]),
        Err(BAD_ENCODING_LIMITS_EXCEEDED)
    );
    assert_eq!(channel.pending, None);
    assert_eq!(channel.receive_chunk(1, ChunkType::Continuation, &half), Ok(None));
    let whole = channel.receive_chunk(1, ChunkType::Final, &half).unwrap().unwrap();
    assert_eq!(whole.len(), 16 * 1024 * 1024);
}
