use doubao_asr::audio::{
    is_opus_header, judge_exit, make_ogg_page, opus_stream_arguments, opus_stream_exit,
    start_failure, IoKind, OggFault, OggPacketReader, OggPoll, OpusStream, PageFault,
};

fn reader(bytes: &[u8]) -> OggPacketReader {
    let mut packets = OggPacketReader::new();
    packets.push(bytes);
    packets.close();
    packets
}

fn packet(packets: &mut OggPacketReader) -> Vec<u8> {
    match packets.next().unwrap() {
        OggPoll::Packet(packet) => packet,
        other => panic!("no packet but {other:?}"),
    }
}

#[test]
fn reads_literal_page_vector() {
    // One page containing packets "abc" and "de". Sequence number is little endian.
    let literal = b"\x4f\x67\x67\x53\x00\x00\x00\x00\x00\x00\x00\x00\x00\x00\x00\x00\x00\x00\x04\x03\x02\x01\x00\x00\x00\x00\x02\x03\x02\x61\x62\x63\x64\x65";
    let mut packets = reader(literal);
    assert_eq!(packet(&mut packets), b"abc");
    assert_eq!(packet(&mut packets), b"de");
    assert_eq!(packets.next().unwrap(), OggPoll::End);
}

#[test]
fn reconstructs_continuation_and_queues_following_packet() {
    let mut first_payload = vec![b'a'; 255];
    first_payload.extend(vec![b'b'; 10]);
    let page1 = make_ogg_page(0, 0, &[255], &first_payload[..255]).unwrap();
    let page2_payload = [&first_payload[255..], b"xyz"].concat();
    let page2 = make_ogg_page(1, 1, &[10, 3], &page2_payload).unwrap();
    let mut packets = reader(&[page1, page2].concat());
    assert_eq!(packet(&mut packets), first_payload);
    assert_eq!(packet(&mut packets), b"xyz");
}

#[test]
fn exact_255_byte_packet_needs_zero_terminator() {
    let payload = vec![7; 255];
    let page1 = make_ogg_page(0, 0, &[255], &payload).unwrap();
    let page2 = make_ogg_page(1, 1, &[0], &[]).unwrap();
    let mut packets = reader(&[page1, page2].concat());
    assert_eq!(packet(&mut packets), payload);
}

#[test]
fn eof_in_partial_packet_is_unexpected() {
    let page = make_ogg_page(0, 0, &[255], &[1; 255]).unwrap();
    let fault = reader(&page).next().unwrap_err();
    assert!(fault.is_unexpected_eof());
    assert_eq!(fault, OggFault::TruncatedPacket);
    assert_eq!(fault.text(), "truncated Ogg packet");
}

#[test]
fn rejects_bad_capture_version_and_truncation() {
    for bytes in [vec![0; 27], b"OggS\x01".to_vec(), b"OggS\0".to_vec()] {
        assert!(reader(&bytes).next().is_err());
    }
    let mut page = make_ogg_page(0, 0, &[3], b"abc").unwrap();
    page.pop();
    assert!(reader(&page).next().unwrap_err().is_unexpected_eof());
}

#[test]
fn recognizes_only_opus_identification_and_comment_headers() {
    assert!(is_opus_header(b"OpusHead..."));
    assert!(is_opus_header(b"OpusTags..."));
    assert!(!is_opus_header(&[0xf8, 0xff, 0xfe]));
    assert!(!is_opus_header(b"Opus"));
}

#[test]
fn page_builder_validates_lacing_and_sets_fields() {
    let page = make_ogg_page(1, 0x0102_0304, &[3], b"abc").unwrap();
    assert_eq!(&page[..4], b"OggS");
    assert_eq!(page[5], 1);
    assert_eq!(&page[18..22], &[4, 3, 2, 1]);
    assert!(make_ogg_page(0, 0, &[2], b"abc").is_err());
    assert!(make_ogg_page(0, 0, &vec![0; 256], b"").is_err());
}

#[test]
fn page_builder_says_what_is_wrong() {
    assert_eq!(
        make_ogg_page(0, 0, &[2], b"abc").unwrap_err().message(),
        "lacing length 2 does not match payload 3"
    );
    assert_eq!(
        make_ogg_page(0, 0, &vec![0; 256], b"").unwrap_err().message(),
        "too many Ogg segments"
    );
    assert_eq!(
        make_ogg_page(0, 0, &[2], b"abc"),
        Err(PageFault::LacingMismatch {
            length: 2,
            payload: 3
        })
    );
    assert_eq!(
        PageFault::TooManySegments.kind(),
        IoKind::InvalidInput
    );
}

#[test]
fn a_fault_takes_the_bytes_it_was_found_in() {
    let mut packets = reader(&[0; 27]);
    assert_eq!(packets.next(), Err(OggFault::InvalidHeader));
    assert_eq!(packets.next(), Ok(OggPoll::End));
    let page = make_ogg_page(0, 0, &[3], b"abc").unwrap();
    let mut packets = reader(&[vec![7; 27], page.clone()].concat());
    assert_eq!(packets.next(), Err(OggFault::InvalidHeader));
    assert_eq!(packet(&mut packets), b"abc");
    assert_eq!(packets.next(), Ok(OggPoll::End));
    for length in [1, 26, 27, 28, 29] {
        let mut packets = reader(&page[..length]);
        assert!(packets.next().unwrap_err().is_unexpected_eof());
        assert_eq!(packets.next(), Ok(OggPoll::End));
    }
    // A packet without an end stays without one.
    let open = make_ogg_page(0, 0, &[255], &[1; 255]).unwrap();
    let mut packets = reader(&[open, page[..27].to_vec()].concat());
    assert_eq!(packets.next(), Err(OggFault::TruncatedPage));
    assert_eq!(packets.next(), Err(OggFault::TruncatedPacket));
    assert_eq!(packets.next(), Err(OggFault::TruncatedPacket));
    let mut stream = OpusStream::new();
    stream.push(&[0; 27]);
    stream.close();
    assert_eq!(
        stream.next().unwrap_err().message(),
        "invalid Ogg page header"
    );
    assert_eq!(stream.next().unwrap(), OggPoll::End);
}

#[test]
fn packets_go_over_any_number_of_pages() {
    let long = vec![5u8; 600];
    let pages = [
        make_ogg_page(2, 0, &[2, 255], &[b"ab".as_slice(), &long[..255]].concat()).unwrap(),
        make_ogg_page(1, 1, &[255], &long[255..510]).unwrap(),
        make_ogg_page(1, 2, &[], &[]).unwrap(),
        make_ogg_page(1, 3, &[90, 1], &[&long[510..], b"z".as_slice()].concat()).unwrap(),
    ];
    let mut packets = reader(&pages.concat());
    assert_eq!(packet(&mut packets), b"ab");
    assert_eq!(packet(&mut packets), long);
    assert_eq!(packet(&mut packets), b"z");
    assert_eq!(packets.next(), Ok(OggPoll::End));
}

#[test]
fn faults_are_told_apart() {
    let fault = reader(&[0; 27]).next().unwrap_err();
    assert_eq!(fault, OggFault::InvalidHeader);
    assert!(!fault.is_unexpected_eof());
    assert_eq!(fault.kind(), IoKind::InvalidData);
    assert_eq!(fault.text(), "invalid Ogg page header");
    let mut wrong_version = make_ogg_page(0, 0, &[1], b"a").unwrap();
    wrong_version[4] = 1;
    assert_eq!(
        reader(&wrong_version).next().unwrap_err(),
        OggFault::InvalidHeader
    );
    let fault = reader(b"OggS\0").next().unwrap_err();
    assert_eq!(fault, OggFault::TruncatedHeader);
    assert_eq!(fault.kind(), IoKind::UnexpectedEof);
    assert_eq!(fault.text(), "truncated Ogg page header");
    let page = make_ogg_page(0, 0, &[3], b"abc").unwrap();
    let fault = reader(&page[..27]).next().unwrap_err();
    assert_eq!(fault, OggFault::TruncatedPage);
    assert_eq!(fault.text(), "early eof");
    assert_eq!(reader(&page[..29]).next().unwrap_err(), fault);
    assert_eq!(reader(&[]).next().unwrap(), OggPoll::End);
}

#[test]
fn cutting_the_input_makes_no_difference() {
    let long = vec![9u8; 300];
    let page1 = make_ogg_page(2, 0, &[4, 255], &[b"head".as_slice(), &long[..255]].concat()).unwrap();
    let page2 = make_ogg_page(1, 1, &[45, 0], &long[255..]).unwrap();
    let bytes = [page1, page2].concat();
    for size in [1, 2, 26, 27, 28, 100, bytes.len()] {
        let mut packets = OggPacketReader::new();
        let mut found: Vec<Vec<u8>> = Vec::new();
        for chunk in bytes.chunks(size) {
            packets.push(chunk);
            loop {
                match packets.next().unwrap() {
                    OggPoll::Packet(packet) => found.push(packet),
                    other => {
                        assert_eq!(other, OggPoll::NeedMore);
                        break;
                    }
                }
            }
        }
        packets.close();
        assert_eq!(packets.next().unwrap(), OggPoll::End);
        assert_eq!(found, vec![b"head".to_vec(), long.clone(), Vec::new()]);
    }
}

#[test]
fn opus_stream_passes_over_headers() {
    let payload = [b"OpusHead1".as_slice(), b"OpusTags22", b"audio"].concat();
    let page = make_ogg_page(0, 0, &[9, 10, 5], &payload).unwrap();
    let mut stream = OpusStream::new();
    stream.push(&page[..40]);
    assert_eq!(stream.next().unwrap(), OggPoll::NeedMore);
    stream.push(&page[40..]);
    assert_eq!(stream.next().unwrap(), OggPoll::Packet(b"audio".to_vec()));
    assert_eq!(stream.next().unwrap(), OggPoll::NeedMore);
    stream.close();
    assert_eq!(stream.next().unwrap(), OggPoll::End);
    assert!(stream.finish());
    assert!(!stream.finish());

    let mut broken = OpusStream::new();
    broken.push(&[0; 30]);
    assert_eq!(
        broken.next().unwrap_err().message(),
        "invalid Ogg page header"
    );
}

#[test]
fn converter_writes_mono_opus_of_the_first_audio_stream() {
    let (before, after) = opus_stream_arguments();
    assert_eq!(before.join(" "), "-nostdin -v error -i");
    assert_eq!(
        after.join(" "),
        "-map 0:a:0 -vn -af apad=pad_dur=0.02 -ac 1 -ar 16000 -c:a libopus \
         -application audio -frame_duration 20 -f opus pipe:1"
    );
}

#[test]
fn converter_failures_are_described() {
    assert_eq!(
        start_failure(true, "x").message(),
        "ffmpeg is required but was not found in PATH"
    );
    assert_eq!(
        start_failure(false, "denied").message(),
        "start ffmpeg: denied"
    );
    assert!(opus_stream_exit(true, "exit status: 0", b"noise").is_ok());
    assert_eq!(
        opus_stream_exit(false, "exit status: 1", b"  no such file\n")
            .unwrap_err()
            .message(),
        "ffmpeg failed: no such file"
    );
    assert_eq!(
        opus_stream_exit(false, "exit status: 1", b" \n")
            .unwrap_err()
            .message(),
        "ffmpeg failed: exit status: 1"
    );
    let long = vec![b'x'; 501];
    assert_eq!(
        opus_stream_exit(false, "s", &long).unwrap_err().message(),
        format!("ffmpeg failed: {}...", "x".repeat(500))
    );
    assert_eq!(
        opus_stream_exit(false, "s", &long[..500]).unwrap_err().message(),
        format!("ffmpeg failed: {}", "x".repeat(500))
    );
    assert_eq!(
        opus_stream_exit(false, "s", b"a\xffb").unwrap_err().message(),
        "ffmpeg failed: a\u{fffd}b"
    );
    assert_eq!(
        judge_exit(false, "s", "\u{3000}why\u{3000}")
            .unwrap_err()
            .message(),
        "ffmpeg failed: why"
    );
    assert!(judge_exit(true, "s", "why").is_ok());
}

#[test]
fn position_serial_number_and_checksum_are_not_looked_at() {
    let mut page = make_ogg_page(4, 7, &[3, 2], b"abcde").unwrap();
    for byte in &mut page[5..26] {
        *byte = 0xa5;
    }
    let mut packets = reader(&[page.clone(), page].concat());
    for expected in [&b"abc"[..], b"de", b"abc", b"de"] {
        assert_eq!(packet(&mut packets), expected);
    }
    assert_eq!(packets.next(), Ok(OggPoll::End));
}
