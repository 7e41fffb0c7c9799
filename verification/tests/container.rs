use owning_view::container::StyleSheet;
use owning_view::container::StyleSheetBuf;
use owning_view::container::TeardownEvent;

#[test]
fn view_trims_surrounding_whitespace() {
    let buf = StyleSheetBuf::new(String::from(" ol\u{e1}. "));
    assert_eq!(buf.parsed(), "ol\u{e1}.");
}

#[test]
fn empty_input_yields_empty_view() {
    let buf = StyleSheetBuf::new(String::from(""));
    assert_eq!(buf.parsed(), "");
}

#[test]
fn whitespace_only_input_yields_empty_view() {
    let buf = StyleSheetBuf::new(String::from("   "));
    assert_eq!(buf.parsed(), "");
}

#[test]
fn trimmed_input_is_unchanged() {
    let buf = StyleSheetBuf::new(String::from("ol\u{e1}."));
    assert_eq!(buf.parsed(), "ol\u{e1}.");
}

#[test]
fn view_matches_direct_trim_of_input() {
    let inputs = [
        " ol\u{e1}. ",
        "",
        "   ",
        "\t hello world \n",
        "no surrounding space",
        " inner  spaces  stay ",
        "\u{3000}\u{a0}x\u{2028}",
        "\r\n\u{85}mixed\u{205f}\u{1680}",
    ];
    for input in inputs {
        let buf = StyleSheetBuf::new(String::from(input));
        assert_eq!(buf.parsed(), input.trim());
    }
}

#[test]
fn sheet_is_reachable_while_container_lives() {
    let buf = StyleSheetBuf::new(String::from("  a  "));
    let _sheet: &StyleSheet = buf.sheet();
    assert_eq!(buf.parsed(), "a");
}

#[test]
fn parse_then_read_round_trips() {
    let source = " body { color: red } ";
    let sheet = StyleSheet::parse(source);
    assert_eq!(sheet.read(source), "body { color: red }");
}

#[test]
fn destroy_runs_view_cleanup_before_buffer_release() {
    let buf = StyleSheetBuf::new(String::from(" ol\u{e1}. "));
    let log = buf.destroy();
    assert_eq!(log.len(), 2);
    match &log[0] {
        TeardownEvent::SheetDropped { final_read } => assert_eq!(final_read, "ol\u{e1}."),
        TeardownEvent::BufferDropped => panic!("buffer released before the view's cleanup"),
    }
    assert!(matches!(log[1], TeardownEvent::BufferDropped));
}

#[test]
fn destroy_of_empty_view_still_orders_teardown() {
    let buf = StyleSheetBuf::new(String::from(" \t "));
    let log = buf.destroy();
    assert_eq!(log.len(), 2);
    assert!(matches!(&log[0], TeardownEvent::SheetDropped { final_read } if final_read.is_empty()));
    assert!(matches!(log[1], TeardownEvent::BufferDropped));
}

#[test]
fn container_scope_ends_without_view_escaping() {
    let parsed_copy = {
        let buf = StyleSheetBuf::new(String::from("  scoped  "));
        String::from(buf.parsed())
    };
    assert_eq!(parsed_copy, "scoped");
}
