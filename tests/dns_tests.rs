use neochat_core::dns_tunnel::{
    decode_dns_response, encode_message_as_dns, encode_poll_as_dns, DnsTunnelConfig,
};

#[test]
fn dns_round_trip_of_120_bytes() {
    let data: Vec<u8> = (0..120u32).map(|i| (i * 37 % 256) as u8).collect();
    let names = encode_message_as_dns(&data, "ab12", "1234567890abcdef", "chat.example.com");
    // 120 bytes are 192 base-32 characters: four fragments.
    assert_eq!(names.len(), 4);
    let mut records = Vec::new();
    for (i, name) in names.iter().enumerate() {
        assert!(name.ends_with(".ab12.m.chat.example.com"));
        let parts: Vec<&str> = name.split('.').collect();
        assert_eq!(parts[1], format!("{}-4", i + 1));
        assert_eq!(parts[2], "12345678");
        if i < 3 {
            assert_eq!(parts[0].len(), 50);
        } else {
            assert_eq!(parts[0].len(), 42);
        }
        records.push(parts[0].to_string());
    }
    assert_eq!(decode_dns_response(&records), Some(data));
}

#[test]
fn dns_exact_name() {
    let names = encode_message_as_dns(b"foobar", "h", "abcdefghij", "d.example");
    assert_eq!(names, vec!["mzxw6ytboi.1-1.abcdefgh.h.m.d.example".to_string()]);
}

#[test]
fn dns_empty_data_has_no_names() {
    let names = encode_message_as_dns(&[], "h", "abcdefgh", "d.example");
    assert!(names.is_empty());
}

#[test]
fn dns_poll_name() {
    assert_eq!(encode_poll_as_dns("a1b2c3d4", "chat.example.com"), "a1b2c3d4.p.chat.example.com");
}

#[test]
fn dns_decode_trims_and_joins() {
    let records = vec![" mzxw6 ".to_string(), "\tytboi\n".to_string()];
    assert_eq!(decode_dns_response(&records), Some(b"foobar".to_vec()));
}

#[test]
fn dns_decode_absent_data() {
    assert_eq!(decode_dns_response(&[]), None);
    assert_eq!(decode_dns_response(&["   ".to_string()]), None);
    assert_eq!(decode_dns_response(&["not base32!".to_string()]), None);
}

#[test]
fn dns_default_config() {
    let c = DnsTunnelConfig::default();
    assert_eq!(c.base_domain, "chat.neo.example.com");
    assert_eq!(c.resolver, "");
    assert_eq!(c.poll_interval_secs, 5);
}

#[test]
fn dns_decode_upper_cases_whole_text() {
    // U+0131 (dotless i) upper-cases to the ASCII letter I.
    let records = vec!["mzxw6ytbo\u{131}".to_string()];
    assert_eq!(decode_dns_response(&records), Some(b"foobar".to_vec()));
}

#[test]
fn dns_many_chunks_have_multi_digit_numbers() {
    let data = vec![0xabu8; 400];
    let names = encode_message_as_dns(&data, "h", "abcdefghij", "d.example");
    // 400 bytes are 640 characters: thirteen fragments.
    assert_eq!(names.len(), 13);
    assert!(names[9].contains(".10-13.abcdefgh.h.m.d.example"));
    assert!(names[12].contains(".13-13."));
    let records: Vec<String> = names.iter().map(|n| n.split('.').next().unwrap().to_string()).collect();
    assert_eq!(decode_dns_response(&records), Some(data));
}

#[test]
fn dns_decode_rejects_non_alphabet_letters() {
    // '1', '8', '0' are not base-32 symbols.
    assert_eq!(decode_dns_response(&["mzxw1ytboi".to_string()]), None);
    assert_eq!(decode_dns_response(&["8".to_string()]), None);
}
