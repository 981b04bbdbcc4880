use list_images::term::{probe_geometry, Probe, Term};

#[test]
fn probe_parses_full_response() {
    // Window size 800x300 px, 24 rows, 80 columns, then a DA1 reply.
    let input = b"\x1B[4;300;800t\x1B[8;24;80t\x1B[?62;1;4c";
    let t = probe_geometry(input);
    assert_eq!(t.columns, 80);
    assert_eq!(t.cell_height, 300 / 24);
    assert_eq!(t.cell_width, 800 / 80);
}

#[test]
fn probe_stops_at_terminator() {
    // Everything after the first `c` must be ignored.
    let input = b"\x1B[4;300;800t\x1B[8;24;80t\x1B[?62c\x1B[8;99;99t";
    let t = probe_geometry(input);
    assert_eq!(t.columns, 80);
    assert_eq!(t.cell_height, 12);
    assert_eq!(t.cell_width, 10);
}

#[test]
fn probe_without_terminator_falls_back() {
    let input = b"\x1B[4;300;800t\x1B[8;24;80t";
    let t = probe_geometry(input);
    assert_eq!(t.columns, 80);
    assert_eq!(t.cell_height, 16);
    assert_eq!(t.cell_width, 8);
}

#[test]
fn probe_empty_input_falls_back() {
    let t = probe_geometry(b"");
    assert_eq!(t.columns, 80);
    assert_eq!(t.cell_height, 16);
    assert_eq!(t.cell_width, 8);
}

#[test]
fn probe_zero_field_falls_back() {
    // A zero column count is a failed negotiation.
    let input = b"\x1B[4;300;800t\x1B[8;24;0t\x1B[?62c";
    let t = probe_geometry(input);
    assert_eq!(t.columns, 80);
    assert_eq!(t.cell_height, 16);
    assert_eq!(t.cell_width, 8);
}

#[test]
fn probe_zero_cell_size_falls_back() {
    // More rows than pixel height: the computed cell height would be zero.
    let input = b"\x1B[4;5;800t\x1B[8;24;80t\x1B[?62c";
    let t = probe_geometry(input);
    assert_eq!(t.columns, 80);
    assert_eq!(t.cell_height, 16);
    assert_eq!(t.cell_width, 8);
}

#[test]
fn probe_incremental_feed_matches_whole() {
    let input = b"\x1B[4;300;800t\x1B[8;24;80t\x1B[?62c";
    let mut p = Probe::new();
    for chunk in input.chunks(3) {
        if p.is_done() {
            break;
        }
        p.feed(chunk);
    }
    assert!(p.is_done());
    let t: Term = p.geometry().unwrap();
    assert_eq!(t.columns, 80);
    assert_eq!(t.cell_height, 12);
    assert_eq!(t.cell_width, 10);
}

#[test]
fn probe_garbage_between_replies_is_ignored() {
    let input = b"noise\x1B[4;100;200txx\x1B[8;10;20tyy\x1B[?1c";
    let t = probe_geometry(input);
    assert_eq!(t.columns, 20);
    assert_eq!(t.cell_height, 10);
    assert_eq!(t.cell_width, 10);
}
