use rusty_rich::live::LiveWriter;
use rusty_rich::live::RenderHook;
use rusty_rich::segment::Segment;

#[test]
fn test_live_writer() {
    let mut writer = LiveWriter::new();
    let n = writer.write_bytes(b"hello");
    assert_eq!(n, 5);
    assert_eq!(writer.capture(), b"hello");
    writer.clear();
    assert!(writer.capture().is_empty());
}

#[test]
fn test_live_writer_appends() {
    let mut writer = LiveWriter::new();
    writer.write_bytes(b"ab");
    writer.write_bytes(b"cd");
    assert_eq!(writer.capture(), b"abcd");
}

#[test]
fn test_render_hook_basic() {
    let hook = RenderHook::new(|segments: &[Vec<Segment>]| segments.to_vec());
    let input = vec![vec![Segment::new("test")]];
    let output = hook.apply(&input);
    assert_eq!(output.len(), 1);
    assert_eq!(output[0][0].text, "test");
}

#[test]
fn test_render_hook_transform() {
    let hook = RenderHook::new(|segments: &[Vec<Segment>]| {
        let mut transformed = segments.to_vec();
        transformed.push(vec![Segment::new("appended")]);
        transformed
    });
    let input = vec![vec![Segment::new("original")]];
    let output = hook.apply(&input);
    assert_eq!(output.len(), 2);
    assert_eq!(output[1][0].text, "appended");
}
