use snss::parser::{parse, parse_command};
use snss::text::round_up4_u64;
use snss::{Command, Content, ErrorKind, PageTransition, PageTransitionQualifiers, PageTransitionType, Tab};

const TITLE: &str = "primary \u{b7} Hetzner Cloud";

fn push_u32(out: &mut Vec<u8>, v: u32) {
    out.extend_from_slice(&v.to_le_bytes());
}

fn push_i32(out: &mut Vec<u8>, v: i32) {
    out.extend_from_slice(&v.to_le_bytes());
}

fn push_bytes_field(out: &mut Vec<u8>, bytes: &[u8]) {
    push_u32(out, bytes.len() as u32);
    out.extend_from_slice(bytes);
    let padded = (bytes.len() + 3) / 4 * 4;
    for _ in bytes.len()..padded {
        out.push(0);
    }
}

fn push_title(out: &mut Vec<u8>, title: &str) {
    let units: Vec<u16> = title.encode_utf16().collect();
    push_u32(out, units.len() as u32);
    let mut bytes = Vec::new();
    for u in &units {
        bytes.extend_from_slice(&u.to_le_bytes());
    }
    out.extend_from_slice(&bytes);
    let padded = (bytes.len() + 3) / 4 * 4;
    for _ in bytes.len()..padded {
        out.push(0);
    }
}

struct TabFields<'a> {
    id: i32,
    index: i32,
    url: &'a str,
    title: &'a str,
    state: &'a [u8],
    transition: u32,
    post: i32,
    referrer_url: &'a str,
    reference_policy: i32,
    original_request_url: &'a str,
    user_agent: i32,
}

/// The body of a tab record: tag, then the tab fields, then `trailer`.
fn tab_record(tag: u8, t: &TabFields, trailer: &[u8]) -> Vec<u8> {
    let mut out = vec![tag];
    push_u32(&mut out, 0);
    push_i32(&mut out, t.id);
    push_i32(&mut out, t.index);
    push_bytes_field(&mut out, t.url.as_bytes());
    push_title(&mut out, t.title);
    push_bytes_field(&mut out, t.state);
    push_u32(&mut out, t.transition);
    push_i32(&mut out, t.post);
    push_bytes_field(&mut out, t.referrer_url.as_bytes());
    push_i32(&mut out, t.reference_policy);
    push_bytes_field(&mut out, t.original_request_url.as_bytes());
    push_i32(&mut out, t.user_agent);
    out.extend_from_slice(trailer);
    out
}

/// A whole file: header with `version`, then each record with its length.
fn file(version: i32, records: &[Vec<u8>]) -> Vec<u8> {
    let mut out = b"SNSS".to_vec();
    push_i32(&mut out, version);
    for r in records {
        out.extend_from_slice(&(r.len() as u16).to_le_bytes());
        out.extend_from_slice(r);
    }
    out
}

fn simple_tab() -> TabFields<'static> {
    TabFields {
        id: 7,
        index: 2,
        url: "https://a.example/",
        title: "Hi",
        state: &[1, 2, 3],
        transition: 1,
        post: 1,
        referrer_url: "",
        reference_policy: -1,
        original_request_url: "https://b.example/",
        user_agent: 5,
    }
}

fn session_file() -> Vec<u8> {
    let graphs = "https://console.hetzner.cloud/projects/3687808/servers/64199561/graphs";
    let backup = "https://console.hetzner.cloud/projects/3687808/servers/64199561/backup";
    let lbs = "https://console.hetzner.cloud/projects/3687808/servers/64199561/loadbalancers";
    let mut first = vec![14u8];
    first.extend_from_slice(&[0xAB; 24]);
    let second = TabFields {
        id: 1994883225,
        index: 0,
        url: graphs,
        title: TITLE,
        state: &[9, 8, 7, 6, 5],
        transition: 0x0000_0008,
        post: 0,
        referrer_url: "https://console.hetzner.cloud/",
        reference_policy: 2,
        original_request_url: backup,
        user_agent: 0,
    };
    let third = TabFields { index: 1, url: lbs, original_request_url: graphs, ..second };
    file(3, &[first, tab_record(6, &second, &[0, 0, 0, 0]), tab_record(6, &third, &[])])
}

fn all_set_but_kind() -> PageTransitionQualifiers {
    PageTransitionQualifiers {
        back_forward: false,
        address_bar: false,
        homepage: true,
        chain_start: true,
        redirect_chain_end: true,
        client_redirect: true,
        server_redirect: true,
    }
}

fn expect_tab(content: Content) -> Tab {
    match content {
        Content::Tab(t) => t,
        Content::Other(_) => panic!("expected a tab record"),
    }
}

#[test]
fn test_parse() {
    let data = session_file();
    let snss = parse(data.as_slice()).unwrap();

    assert_eq!(snss.version, 3);
    let [cmd1, cmd2, cmd3]: [Command; 3] = snss.commands.try_into().unwrap();

    assert_eq!(cmd1.id, 14);
    let Content::Other(c1) = cmd1.content else {
        panic!()
    };
    assert_eq!(c1.len(), 24);

    assert_eq!(cmd2.id, 6);
    let c2 = expect_tab(cmd2.content);
    assert_eq!(c2.id, 1994883225);
    assert_eq!(c2.index, 0);
    assert_eq!(c2.url, "https://console.hetzner.cloud/projects/3687808/servers/64199561/graphs");
    assert_eq!(c2.title, TITLE);
    assert!(!c2.post);
    assert_eq!(c2.referrer_url, "https://console.hetzner.cloud/");
    assert_eq!(c2.reference_policy, 2);
    assert_eq!(
        c2.original_request_url,
        "https://console.hetzner.cloud/projects/3687808/servers/64199561/backup"
    );
    assert!(!c2.user_agent);
    assert_eq!(c2.transition.kind().unwrap(), PageTransitionType::Reload);
    assert_eq!(c2.transition.qualifiers(), all_set_but_kind());

    assert_eq!(cmd3.id, 6);
    let c3 = expect_tab(cmd3.content);
    assert_eq!(c3.id, 1994883225);
    assert_eq!(c3.index, 1);
    assert_eq!(
        c3.url,
        "https://console.hetzner.cloud/projects/3687808/servers/64199561/loadbalancers"
    );
    assert_eq!(c3.title, TITLE);
    assert!(!c3.post);
    assert_eq!(c3.referrer_url, "https://console.hetzner.cloud/");
    assert_eq!(c3.reference_policy, 2);
    assert_eq!(
        c3.original_request_url,
        "https://console.hetzner.cloud/projects/3687808/servers/64199561/graphs"
    );
    assert!(!c3.user_agent);
    assert_eq!(c3.transition.kind().unwrap(), PageTransitionType::Reload);
    assert_eq!(c3.transition.qualifiers(), all_set_but_kind());
}

#[test]
fn tab_fields_state_and_flags() {
    let data = file(1, &[tab_record(1, &simple_tab(), &[0xFF, 0xEE])]);
    let s = parse(&data).unwrap();
    assert_eq!(s.version, 1);
    assert_eq!(s.commands.len(), 1);
    assert_eq!(s.commands[0].id, 1);
    let t = match &s.commands[0].content {
        Content::Tab(t) => t,
        Content::Other(_) => panic!(),
    };
    assert_eq!(t.id, 7);
    assert_eq!(t.index, 2);
    assert_eq!(t.url, "https://a.example/");
    assert_eq!(t.title, "Hi");
    assert_eq!(t.state, vec![1, 2, 3]);
    assert_eq!(t.transition.0, 1);
    assert!(t.post);
    assert_eq!(t.referrer_url, "");
    assert_eq!(t.reference_policy, -1);
    assert_eq!(t.original_request_url, "https://b.example/");
    assert!(t.user_agent);
}

#[test]
fn header_only_gives_no_commands() {
    let data = file(3, &[]);
    let s = parse(&data).unwrap();
    assert_eq!(s.version, 3);
    assert!(s.commands.is_empty());
}

#[test]
fn single_trailing_byte_ends_the_stream() {
    let mut data = file(-2, &[vec![20, 1, 2]]);
    data.push(0x07);
    let s = parse(&data).unwrap();
    assert_eq!(s.version, -2);
    assert_eq!(s.commands.len(), 1);
    assert_eq!(s.commands[0].id, 20);
    match &s.commands[0].content {
        Content::Other(b) => assert_eq!(b, &vec![1, 2]),
        Content::Tab(_) => panic!(),
    }
}

#[test]
fn unknown_tag_keeps_raw_payload() {
    let c = parse_command(&[2, 0xDE, 0xAD], 100).unwrap();
    assert_eq!(c.id, 2);
    match c.content {
        Content::Other(b) => assert_eq!(b, vec![0xDE, 0xAD]),
        Content::Tab(_) => panic!(),
    }
}

#[test]
fn corrupted_tag_is_bad_magic() {
    let mut data = session_file();
    data[0] = b'X';
    data[3] = b'Z';
    let e = parse(&data).unwrap_err();
    assert_eq!(e.kind(), ErrorKind::BadMagic);
    assert_eq!(e.offset(), 0);
    let e = parse(b"SN").unwrap_err();
    assert_eq!(e.kind(), ErrorKind::BadMagic);
    assert_eq!(e.offset(), 0);
}

#[test]
fn missing_version_is_truncated() {
    let e = parse(b"SNSS\x01\x00").unwrap_err();
    assert_eq!(e.kind(), ErrorKind::Truncated);
    assert_eq!(e.offset, 4);
}

#[test]
fn truncated_record_reports_its_length_field() {
    let data = session_file();
    // the second record's length field stands after the header and the first record
    let second_start = 8 + 2 + 25;
    let second_len = u16::from_le_bytes([data[second_start], data[second_start + 1]]) as usize;
    for cut in [second_start + 2, second_start + 10, second_start + 1 + second_len] {
        let e = parse(&data[..cut]).unwrap_err();
        assert_eq!(e.kind(), ErrorKind::Truncated);
        assert_eq!(e.offset(), second_start);
    }
    // a cut that leaves one byte of a length field ends the stream cleanly
    let s = parse(&data[..second_start + 1]).unwrap();
    assert_eq!(s.commands.len(), 1);
}

#[test]
fn framing_adds_up() {
    let data = session_file();
    let s = parse(&data).unwrap();
    let mut pos = 8;
    let mut count = 0;
    while data.len() - pos >= 2 {
        let len = u16::from_le_bytes([data[pos], data[pos + 1]]) as usize;
        pos += 2 + len;
        count += 1;
    }
    assert_eq!(pos, data.len());
    assert_eq!(count, s.commands.len());
}

#[test]
fn field_past_record_end_is_truncated_at_its_length() {
    // a url whose declared length runs past the record
    let mut rec = vec![6u8];
    push_u32(&mut rec, 0);
    push_i32(&mut rec, 1);
    push_i32(&mut rec, 0);
    push_u32(&mut rec, 40);
    rec.extend_from_slice(b"abcd");
    let data = file(3, &[rec]);
    let e = parse(&data).unwrap_err();
    assert_eq!(e.kind(), ErrorKind::Truncated);
    // header 8, length field 2, tag 1, pad 4, id 4, index 4
    assert_eq!(e.offset(), 23);
}

#[test]
fn padding_is_checked_before_content() {
    // five meaningful bytes need eight on the wire
    let mut rec = vec![6u8];
    push_u32(&mut rec, 0);
    push_i32(&mut rec, 1);
    push_i32(&mut rec, 0);
    push_u32(&mut rec, 5);
    rec.extend_from_slice(b"abcde\0\0");
    let e = parse(&file(3, &[rec])).unwrap_err();
    assert_eq!(e.kind(), ErrorKind::Truncated);
    assert_eq!(e.offset(), 23);
}

#[test]
fn short_tab_is_truncated_at_the_failed_read() {
    let e = parse(&file(3, &[vec![1u8, 0, 0, 0, 0, 9, 0]])).unwrap_err();
    assert_eq!(e.kind(), ErrorKind::Truncated);
    assert_eq!(e.offset(), 15);
    let e = parse(&file(3, &[vec![]])).unwrap_err();
    assert_eq!(e.kind(), ErrorKind::Truncated);
    assert_eq!(e.offset(), 10);
}

#[test]
fn invalid_utf8_url() {
    let mut t = simple_tab();
    t.url = "ab";
    let mut rec = tab_record(6, &t, &[]);
    // the url bytes begin after tag 1, pad 4, id 4, index 4, length 4
    rec[17] = 0xFF;
    let e = parse(&file(3, &[rec])).unwrap_err();
    assert_eq!(e.kind(), ErrorKind::InvalidText);
    assert_eq!(e.offset(), 8 + 2 + 17);
    assert_eq!(e.message(), "invalid text encoding");
}

#[test]
fn invalid_utf16_title() {
    let mut t = simple_tab();
    t.url = "abcd";
    let mut rec = tab_record(6, &t, &[]);
    // url field ends at 1 + 12 + 4 + 4 = 21; the title units begin at 25
    rec[25] = 0x00;
    rec[26] = 0xD8;
    let e = parse(&file(3, &[rec])).unwrap_err();
    assert_eq!(e.kind(), ErrorKind::InvalidText);
    assert_eq!(e.offset(), 8 + 2 + 25);
}

#[test]
fn utf8_field_round_trip_keeps_wire_size() {
    let url = "https://\u{e9}t\u{e9}.example/\u{1F600}";
    let mut t = simple_tab();
    t.url = url;
    let rec = tab_record(1, &t, &[]);
    let s = parse(&file(0, &[rec.clone()])).unwrap();
    let tab = match &s.commands[0].content {
        Content::Tab(t) => t,
        Content::Other(_) => panic!(),
    };
    assert_eq!(tab.url, url);
    let n = tab.url.as_bytes().len();
    assert_eq!(n as u32, u32::from_le_bytes([rec[13], rec[14], rec[15], rec[16]]));
    assert_eq!(&rec[17..17 + n], tab.url.as_bytes());
    assert_eq!(tab.title, "Hi");
}

#[test]
fn round_up_values() {
    assert_eq!(round_up4_u64(0), 0);
    assert_eq!(round_up4_u64(1), 4);
    assert_eq!(round_up4_u64(4), 4);
    assert_eq!(round_up4_u64(5), 8);
    assert_eq!(round_up4_u64(70), 72);
    let big = 2 * u32::MAX as u64;
    assert_eq!(round_up4_u64(big), big + 2);
    for n in 0..100u64 {
        let r = round_up4_u64(n);
        assert!(r >= n && r < n + 4 && r % 4 == 0);
    }
}

#[test]
fn transition_kinds() {
    let kinds = [
        PageTransitionType::Link,
        PageTransitionType::Typed,
        PageTransitionType::AutoBookmark,
        PageTransitionType::AutoSubframe,
        PageTransitionType::ManualSubframe,
        PageTransitionType::Generated,
        PageTransitionType::StartPage,
        PageTransitionType::FormSubmit,
        PageTransitionType::Reload,
        PageTransitionType::Keyword,
        PageTransitionType::KeywordGenerated,
    ];
    for (i, k) in kinds.iter().enumerate() {
        assert_eq!(PageTransition(i as u32 | 0xF700_0000).kind(), Ok(*k));
    }
    assert_eq!(PageTransition(11).kind(), Err(11));
    assert_eq!(PageTransition(0x3000_00FF).kind(), Err(0xFF));
}

#[test]
fn transition_qualifiers() {
    assert_eq!(PageTransition(0).qualifiers(), all_set_but_kind());
    assert_eq!(
        PageTransition(0xFFFF_FFFF).qualifiers(),
        PageTransitionQualifiers {
            back_forward: true,
            address_bar: true,
            homepage: false,
            chain_start: false,
            redirect_chain_end: false,
            client_redirect: false,
            server_redirect: false,
        }
    );
    let q = PageTransition(0x0100_0000 | 0x2000_0000).qualifiers();
    assert!(q.back_forward && !q.address_bar && q.homepage && q.chain_start);
    assert!(!q.redirect_chain_end && q.client_redirect && q.server_redirect);
    // bit 0x0800_0000 carries no qualifier
    assert_eq!(PageTransition(0x0800_0000).qualifiers(), all_set_but_kind());
}

#[test]
fn error_messages() {
    let e = parse(b"nope").unwrap_err();
    assert_eq!(e.message(), "missing SNSS tag");
    let e = parse(b"SNSS").unwrap_err();
    assert_eq!(e.message(), "unexpected end of data");
}

#[test]
fn utf16_title_with_surrogate_pair() {
    let mut t = simple_tab();
    t.title = "a\u{1F600}\u{e9}";
    let rec = tab_record(6, &t, &[]);
    let s = parse(&file(3, &[rec.clone()])).unwrap();
    let tab = match &s.commands[0].content {
        Content::Tab(t) => t,
        Content::Other(_) => panic!(),
    };
    assert_eq!(tab.title, "a\u{1F600}\u{e9}");
    // four units: one, a pair, one; re-encoding gives the declared count
    assert_eq!(tab.title.encode_utf16().count(), 4);
    assert_eq!(u32::from_le_bytes([rec[37], rec[38], rec[39], rec[40]]), 4);
    assert_eq!(tab.url, "https://a.example/");
}
