use seagull::error::Error;
use seagull::renderer::resources::ByteStream;
use seagull::renderer::{resource_id, ReactRenderer};

#[test]
fn byte_stream_collects_writes() {
    let mut s = ByteStream::new();
    assert_eq!(&s.consume()[..], b"");
    assert_eq!(s.write(b"<html>"), 6);
    assert_eq!(s.write(b""), 0);
    assert_eq!(s.write(b"</html>"), 7);
    assert_eq!(&s.consume()[..], b"<html></html>");
    assert_eq!(&s.consume()[..], b"<html></html>");
    assert_eq!(ByteStream::name(), "ByteStream");
}

#[test]
fn stream_rid_lookup() {
    let names = vec![(0u32, "stdin".to_string()), (3, "ByteStream".to_string()), (5, "ByteStream".to_string())];
    assert_eq!(ReactRenderer::stream_rid(&names).unwrap(), 5);
    assert_eq!(resource_id(&names, "stdin"), Some(0));
    assert_eq!(resource_id(&names, "nothing"), None);
    let none = vec![(1u32, "stdout".to_string())];
    match ReactRenderer::stream_rid(&none) {
        Err(Error::Message(m)) => assert_eq!(m, "RID not found for stream"),
        _ => panic!("expected the missing-stream error"),
    }
}

#[test]
fn byte_stream_concatenates_many_writes() {
    let mut s = ByteStream::new();
    let mut expected: Vec<u8> = Vec::new();
    for k in 0..20u8 {
        let buffer: Vec<u8> = (0..k).collect();
        assert_eq!(s.write(&buffer), buffer.len());
        expected.extend_from_slice(&buffer);
    }
    assert_eq!(&s.consume()[..], &expected[..]);
    assert_eq!(&s.consume()[..], &expected[..]);
}
