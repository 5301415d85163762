use naori_ai::filter::StreamingXmlFilter;

#[test]
fn text_without_markers_passes_unchanged() {
    let mut filter = StreamingXmlFilter::with_markers("<tag>", "</tag>");
    let mut shown = filter.process_chunk("a < b and <ta");
    shown.push_str(&filter.finish());
    assert_eq!(shown, "a < b and <ta");
}

#[test]
fn wrapped_text_shows_nothing() {
    let mut filter = StreamingXmlFilter::with_markers("<tag>", "</tag>");
    let mut shown = filter.process_chunk("<tag>hidden</tag>");
    shown.push_str(&filter.finish());
    assert_eq!(shown, "");
}

#[test]
fn span_split_across_two_chunks_at_any_offset_is_removed() {
    let text = "before<tag>hidden</tag>after";
    for cut in 0..=text.len() {
        let mut filter = StreamingXmlFilter::with_markers("<tag>", "</tag>");
        let mut shown = filter.process_chunk(&text[..cut]);
        shown.push_str(&filter.process_chunk(&text[cut..]));
        shown.push_str(&filter.finish());
        assert_eq!(shown, "beforeafter");
    }
}

#[test]
fn partial_marker_is_never_shown_before_it_is_decided() {
    let mut filter = StreamingXmlFilter::with_markers("<tag>", "</tag>");
    assert_eq!(filter.process_chunk("abc<ta"), "abc");
    assert_eq!(filter.process_chunk("b>"), "<tab>");
    assert_eq!(filter.process_chunk("x<"), "x");
    assert_eq!(filter.process_chunk("tag>y</t"), "");
    assert_eq!(filter.process_chunk("ag>z"), "z");
    assert_eq!(filter.finish(), "");
}

#[test]
fn unterminated_span_hides_the_rest() {
    let mut filter = StreamingXmlFilter::new();
    assert_eq!(filter.process_chunk("see <tool_call>{\"name\""), "see ");
    assert_eq!(filter.finish(), "");
}

#[test]
fn marker_that_overlaps_itself_is_found() {
    let mut filter = StreamingXmlFilter::with_markers("<<a", ">>");
    let mut shown = filter.process_chunk("x<");
    shown.push_str(&filter.process_chunk("<<ab>>y"));
    shown.push_str(&filter.finish());
    assert_eq!(shown, "x<y");
}
