use base64::Engine;
use list_images::images::Thumbnail;
use list_images::render::Renderer;
use list_images::term::Term;
use list_images::Args;

fn args(no_hyperlinks: bool, thumbnail_size: u32) -> Args {
    Args {
        thumbnail_size,
        no_hyperlinks,
        images: Vec::new(),
        hyperlink_color: [255, 119, 0],
        max_file_size: None,
        jobs: None,
    }
}

fn unit_term(columns: u32) -> Term {
    Term { columns, cell_height: 1, cell_width: 1 }
}

fn thumb(width: u32, height: u32) -> Thumbnail {
    Thumbnail { height, width, pixels: vec![1, 2, 3] }
}

#[test]
fn wraps_exactly_when_row_is_full() {
    // Columns 10, thumbnails 4 cells wide: [4, 4] fit one row, the third
    // wraps, because 5 + 4 <= 10 but 10 + 4 > 10.
    let mut r = Renderer::new_with_output(Vec::new(), unit_term(10), args(true, 1));
    r.render("a", &thumb(4, 1));
    assert_eq!(r.row_offset_x, 5);
    r.render("b", &thumb(4, 1));
    assert_eq!(r.row_offset_x, 10);
    r.render("c", &thumb(4, 1));
    assert_eq!(r.row_offset_x, 5);
}

#[test]
fn first_render_starts_a_row() {
    let mut r = Renderer::new_with_output(Vec::new(), unit_term(100), args(true, 2));
    r.render("a", &thumb(3, 2));
    let out = r.finish();
    // Start of the first row: no cursor restore, three newlines, cursor
    // back up two rows, save position.
    let mut expected: Vec<u8> = Vec::new();
    expected.extend_from_slice(b"\n\n\n\x1B[2A\x1B7");
    // The image itself, base64-encoded.
    expected.extend_from_slice(b"\x1B]1337;File=inline=1:");
    expected.extend_from_slice(b"AQID");
    expected.push(7);
    assert_eq!(out, expected);
}

#[test]
fn base64_payload_matches_reference_encoder() {
    for len in 0..8usize {
        let pixels: Vec<u8> = (0..len as u8).map(|b| b.wrapping_mul(37)).collect();
        let mut r = Renderer::new_with_output(Vec::new(), unit_term(100), args(true, 0));
        r.render("p", &Thumbnail { height: 1, width: 1, pixels: pixels.clone() });
        let out = String::from_utf8(r.finish()).unwrap();
        let expected = base64::engine::general_purpose::STANDARD.encode(&pixels);
        assert!(out.contains(&format!("File=inline=1:{}\x07", expected)));
    }
}

#[test]
fn hyperlinks_wrap_the_image() {
    let mut r = Renderer::new_with_output(Vec::new(), unit_term(100), args(false, 1));
    r.render("/pics/a.png", &thumb(2, 1));
    let out = String::from_utf8(r.finish()).unwrap();
    let color_then_link = "\x1B[38;2;255;119;0m\x1B]8;;/pics/a.png\x07";
    let close = "\x1B]8;;\x07\x1B[m";
    let pos_open = out.find(color_then_link).unwrap();
    let pos_img = out.find("\x1B]1337;").unwrap();
    let pos_close = out.find(close).unwrap();
    assert!(pos_open < pos_img && pos_img < pos_close);
    assert!(out.ends_with(close));
}

#[test]
fn no_hyperlinks_suppresses_link_bytes() {
    let mut r = Renderer::new_with_output(Vec::new(), unit_term(100), args(true, 1));
    r.render("/pics/a.png", &thumb(2, 1));
    let out = String::from_utf8(r.finish()).unwrap();
    assert!(!out.contains("\x1B]8;;"));
    assert!(!out.contains("a.png"));
}

#[test]
fn second_thumbnail_restores_and_moves_right() {
    let mut r = Renderer::new_with_output(Vec::new(), unit_term(100), args(true, 1));
    r.render("a", &thumb(4, 1));
    let after_first = r.output.len();
    r.render("b", &thumb(4, 1));
    let out = r.finish();
    // The second render begins by restoring to the row anchor and moving
    // right past the first thumbnail and the column gap.
    assert_eq!(&out[after_first..after_first + 6], b"\x1B8\x1B[5C");
}

#[test]
fn wrapping_row_moves_down_by_thumbnail_size() {
    let mut r = Renderer::new_with_output(Vec::new(), unit_term(10), args(true, 3));
    r.render("a", &thumb(8, 2));
    let after_first = r.output.len();
    assert_eq!(r.row_height, 2);
    r.render("b", &thumb(8, 2));
    let out = r.finish();
    // The wrap first jumps below the previous row: restore, 3 rows down.
    assert_eq!(&out[after_first..after_first + 6], b"\x1B8\x1B[3B");
}

#[test]
fn row_height_tracks_tallest_thumbnail() {
    let mut r = Renderer::new_with_output(Vec::new(), unit_term(100), args(true, 5));
    r.render("a", &thumb(2, 3));
    assert_eq!(r.row_height, 3);
    r.render("b", &thumb(2, 7));
    assert_eq!(r.row_height, 7);
    r.render("c", &thumb(2, 4));
    assert_eq!(r.row_height, 7);
}

#[test]
fn cell_size_scales_pixel_dimensions() {
    let term = Term { columns: 20, cell_height: 16, cell_width: 8 };
    let mut r = Renderer::new_with_output(Vec::new(), term, args(true, 1));
    // 33x20 px at 8x16 px cells: 4 cells wide, 1 cell tall.
    r.render("a", &Thumbnail { height: 20, width: 33, pixels: vec![1] });
    assert_eq!(r.row_offset_x, 5);
    assert_eq!(r.row_height, 1);
}

#[test]
fn multi_digit_offsets_render_in_decimal() {
    let mut r = Renderer::new_with_output(Vec::new(), unit_term(100), args(true, 1));
    r.render("a", &thumb(25, 1));
    let after_first = r.output.len();
    r.render("b", &thumb(4, 1));
    let out = r.finish();
    // The second render restores and moves right by 26 cells.
    assert_eq!(&out[after_first..after_first + 7], b"\x1B8\x1B[26C");
}

#[test]
fn empty_payload_renders_empty_image() {
    let mut r = Renderer::new_with_output(Vec::new(), unit_term(100), args(true, 1));
    r.render("a", &Thumbnail { height: 1, width: 1, pixels: Vec::new() });
    let out = String::from_utf8(r.finish()).unwrap();
    assert!(out.ends_with("File=inline=1:\x07"));
}
