use sophia_engine::probe::{xlib_smoke_field, xlib_smoke_title_bytes};

#[test]
fn probe_report_fields_are_read_by_name() {
    let report = "sophia_xlib_probe status=ok title_bytes=13 draw_ops=4\n";

    assert_eq!(xlib_smoke_title_bytes(report), Some(13));
    assert_eq!(xlib_smoke_field(report, "draw_ops"), Some(4));
    assert_eq!(xlib_smoke_field(report, "image_ops"), None);
    assert_eq!(xlib_smoke_field(report, "status"), None);
}

#[test]
fn probe_report_uses_the_first_field_of_a_name() {
    assert_eq!(xlib_smoke_field("draw_ops=x draw_ops=5", "draw_ops"), None);
    assert_eq!(xlib_smoke_field("draw_ops=+5 draw_ops=6", "draw_ops"), Some(5));
    assert_eq!(xlib_smoke_field("xdraw_ops=1 draw_ops=2", "draw_ops"), Some(2));
    assert_eq!(xlib_smoke_field("draw_ops= draw_ops=2", "draw_ops"), None);
}

#[test]
fn probe_report_splits_on_unicode_whitespace() {
    let report = "image_ops=7\u{a0}title_bytes=3\u{3000}draw_ops=1\u{2009}x";

    assert_eq!(xlib_smoke_field(report, "image_ops"), Some(7));
    assert_eq!(xlib_smoke_title_bytes(report), Some(3));
    assert_eq!(xlib_smoke_field(report, "draw_ops"), Some(1));
    assert_eq!(xlib_smoke_field("\t\r\n title_bytes=9 \u{85}", "title_bytes"), Some(9));
    assert_eq!(xlib_smoke_field("title_bytes=9\u{200b}", "title_bytes"), None);
}
