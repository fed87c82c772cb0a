use md5_hex::{md5_upper_hex, upper_hex_of_bytes};

fn is_upper_hex(s: &str) -> bool {
    s.chars().all(|c| c.is_ascii_digit() || ('A'..='F').contains(&c))
}

#[test]
fn empty_string_digest() {
    assert_eq!(md5_upper_hex(String::new()), "D41D8CD98F00B204E9800998ECF8427E");
}

#[test]
fn abc_digest() {
    assert_eq!(md5_upper_hex("abc".to_string()), "900150983CD24FB0D6963F7D28E17F72");
}

#[test]
fn known_digests() {
    assert_eq!(md5_upper_hex("a".to_string()), "0CC175B9C0F1B6A831C399E269772661");
    assert_eq!(
        md5_upper_hex("message digest".to_string()),
        "F96B697D7CB7938D525A2F31AAF161D0"
    );
    assert_eq!(
        md5_upper_hex("abcdefghijklmnopqrstuvwxyz".to_string()),
        "C3FCD3D76192E4007DFB496CCA67E13B"
    );
    assert_eq!(
        md5_upper_hex("The quick brown fox jumps over the lazy dog".to_string()),
        "9E107D9D372BB6826BD81D3542A419D6"
    );
}

#[test]
fn same_input_same_digest() {
    for s in ["", "abc", "héllo wörld", "a longer line of text\nwith a newline"] {
        assert_eq!(md5_upper_hex(s.to_string()), md5_upper_hex(s.to_string()));
    }
}

#[test]
fn digest_is_32_uppercase_hex_chars() {
    let long = "x".repeat(10_000);
    for s in ["", "abc", "héllo wörld", "日本語", long.as_str()] {
        let r = md5_upper_hex(s.to_string());
        assert_eq!(r.len(), 32);
        assert!(is_upper_hex(&r), "{r}");
    }
}

#[test]
fn distinct_inputs_give_distinct_digests() {
    let inputs = ["", "a", "b", "abc", "abd", "ABC", "abc ", " abc", "héllo", "hello"];
    let outs: Vec<String> = inputs.iter().map(|s| md5_upper_hex(s.to_string())).collect();
    for i in 0..outs.len() {
        for j in (i + 1)..outs.len() {
            assert_ne!(outs[i], outs[j], "{:?} and {:?}", inputs[i], inputs[j]);
        }
    }
}

#[test]
fn digest_differs_from_input_text() {
    let s = "0123456789ABCDEF0123456789ABCDEF".to_string();
    assert_ne!(md5_upper_hex(s.clone()), s);
}

#[test]
fn hex_of_empty_bytes_is_empty() {
    assert_eq!(upper_hex_of_bytes(&[]), "");
}

#[test]
fn hex_of_bytes_is_uppercase_high_nibble_first() {
    assert_eq!(upper_hex_of_bytes(&[0x00, 0x0f, 0xab, 0xff, 0x10]), "000FABFF10");
}

#[test]
fn hex_of_every_byte_value() {
    let all: Vec<u8> = (0..=255u8).collect();
    let r = upper_hex_of_bytes(&all);
    assert_eq!(r.len(), 512);
    for (i, b) in all.iter().enumerate() {
        assert_eq!(&r[2 * i..2 * i + 2], format!("{:02X}", b));
    }
}
