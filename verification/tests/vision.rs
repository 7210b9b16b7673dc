use omninova_gateway::vision::{extract_and_strip_data_images, resolve_inbound_vision};

#[test]
fn leaves_plain_text_unchanged() {
    let (text, images) = extract_and_strip_data_images("hello");
    assert_eq!(text, "hello");
    assert!(images.is_empty());
}

#[test]
fn extracts_markdown_data_url_and_strips_payload() {
    let input = "看图\n\n![probe.png](data:image/png;base64,QUJDRA==)\n完";
    let (text, images) = extract_and_strip_data_images(input);
    assert_eq!(images, vec!["data:image/png;base64,QUJDRA==".to_string()]);
    assert!(text.contains("![probe.png](已作为视觉输入附加)"));
    assert!(!text.contains("QUJDRA=="));
}

#[test]
fn resolve_keeps_text_when_provider_has_no_vision() {
    let input = "![x](data:image/png;base64,QUJDRA==)";
    let resolved = resolve_inbound_vision(input, Vec::new(), false);
    assert_eq!(resolved.text, input);
    assert!(resolved.images.is_empty());
    assert_eq!(resolved.dropped_unsupported, 1);
}

#[test]
fn resolve_merges_desktop_and_embedded_images() {
    let input = "![x](data:image/png;base64,QUJDRA==)";
    let extra = vec!["data:image/jpeg;base64,/9j/".to_string()];
    let resolved = resolve_inbound_vision(input, extra, true);
    assert_eq!(resolved.images.len(), 2);
    assert_eq!(resolved.dropped_unsupported, 0);
    assert!(!resolved.text.contains("QUJDRA=="));
}

#[test]
fn strips_bare_data_url_with_plain_placeholder() {
    let input = "see data:image/png;base64,AAAA!end";
    let (text, images) = extract_and_strip_data_images(input);
    assert_eq!(text, "see [已作为视觉输入附加]!end");
    assert_eq!(images, vec!["data:image/png;base64,AAAA".to_string()]);
}

#[test]
fn duplicate_and_whitespace_urls_are_merged() {
    let input = "![a](data:image/png;base64,QU JD) ![b](data:image/png;base64,QUJD)";
    let (text, images) = extract_and_strip_data_images(input);
    assert_eq!(images, vec!["data:image/png;base64,QUJD".to_string()]);
    assert_eq!(text, "![a](已作为视觉输入附加) ![b](已作为视觉输入附加)");
}

#[test]
fn header_without_payload_is_not_an_image() {
    let (text, images) = extract_and_strip_data_images("data:image/png;base64,");
    assert_eq!(text, "data:image/png;base64,");
    assert!(images.is_empty());
}

#[test]
fn empty_alt_uses_plain_placeholder() {
    let (text, _) = extract_and_strip_data_images("![](data:image/png;base64,QQ==)!");
    assert_eq!(text, "[已作为视觉输入附加]!");
}
