use hosts_edit::codec::{decode_file_bytes, encode_content};
use hosts_edit::paths::resolve_hosts_path;

#[test]
fn load_valid_utf8_unchanged() {
    let bytes: Vec<u8> = b"127.0.0.1 localhost\n# comment\n".to_vec();
    let text = decode_file_bytes(&bytes);
    assert_eq!(text, "127.0.0.1 localhost\n# comment\n");
}

#[test]
fn load_normalizes_tabs_to_four_spaces() {
    let bytes: Vec<u8> = b"127.0.0.1\tlocalhost\n".to_vec();
    let text = decode_file_bytes(&bytes);
    assert_eq!(text, "127.0.0.1    localhost\n");
}

#[test]
fn load_empty_file() {
    let bytes: Vec<u8> = Vec::new();
    let text = decode_file_bytes(&bytes);
    assert_eq!(text, "");
}

#[test]
fn load_falls_back_to_gbk() {
    // GBK encoding of two Chinese characters; not valid UTF-8.
    let bytes: Vec<u8> = vec![0xC4, 0xE3, 0xBA, 0xC3];
    assert!(String::from_utf8(bytes.clone()).is_err());
    let text = decode_file_bytes(&bytes);
    assert_eq!(text, "\u{4F60}\u{597D}");
}

#[test]
fn load_gbk_normalizes_tabs_too() {
    let bytes: Vec<u8> = vec![0xC4, 0xE3, 0x09, 0xBA, 0xC3];
    let text = decode_file_bytes(&bytes);
    assert_eq!(text, "\u{4F60}    \u{597D}");
}

#[test]
fn encode_yields_utf8_bytes() {
    let bytes = encode_content("a\u{4F60}");
    assert_eq!(bytes, vec![0x61, 0xE4, 0xBD, 0xA0]);
}

#[test]
fn commit_then_load_round_trips() {
    let content = "10.0.0.1 gateway\n# end\n";
    let bytes = encode_content(content);
    let reloaded = decode_file_bytes(&bytes);
    assert_eq!(reloaded, content);
}

#[test]
fn path_falls_back_when_root_unset() {
    let path = resolve_hosts_path(None);
    assert_eq!(path, "C:\\Windows\\System32\\drivers\\etc\\hosts");
}

#[test]
fn path_joins_system_root() {
    let path = resolve_hosts_path(Some("D:\\Win".to_string()));
    assert_eq!(path, "D:\\Win\\System32\\drivers\\etc\\hosts");
}
