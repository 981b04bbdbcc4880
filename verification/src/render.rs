//! The grid renderer: consumes completed thumbnails strictly in input
//! order and emits them as a wrapping grid of terminal escape sequences —
//! cursor save/restore and motion, optional OSC-8 hyperlinks, and the
//! inline-image sequence with the payload base64-encoded.
//!
//! The renderer writes into an owned byte buffer; every byte it emits is
//! specified exactly.  A ghost history records each thumbnail rendered, in
//! order, so that callers can state ordering guarantees.

use vstd::prelude::*;
use vstd::utf8::encode_utf8;
use crate::images::Thumbnail;
use crate::term::Term;
use crate::Args;
use base64::Engine;

verus! {

/// The decimal digits of a number, most significant first.
pub open spec fn spec_decimal(n: nat) -> Seq<u8>
    decreases n,
{
    if n < 10 {
        seq![(48 + n) as u8]
    } else {
        spec_decimal(n / 10) + seq![(48 + n % 10) as u8]
    }
}

fn push_decimal(out: &mut Vec<u8>, n: u64)
    ensures
        final(out)@ == old(out)@ + spec_decimal(n as nat),
    decreases n,
{
    if n < 10 {
        out.push(48 + n as u8);
        proof {
            assert(final(out)@ =~= old(out)@ + spec_decimal(n as nat));
        }
    } else {
        push_decimal(out, n / 10);
        out.push(48 + (n % 10) as u8);
        proof {
            assert(final(out)@ =~= old(out)@ + spec_decimal(n as nat));
        }
    }
}

fn push_bytes(out: &mut Vec<u8>, s: &[u8])
    ensures
        final(out)@ == old(out)@ + s@,
{
    let n = s.len();
    let mut i: usize = 0;
    proof {
        assert(old(out)@ + s@.take(0) =~= old(out)@);
    }
    while i < n
        invariant
            i <= n,
            n == s@.len(),
            out@ == old(out)@ + s@.take(i as int),
        decreases n - i,
    {
        out.push(s[i]);
        proof {
            assert(old(out)@ + s@.take(i + 1) =~= (old(out)@ + s@.take(i as int)).push(
                s@[i as int],
            ));
        }
        i = i + 1;
    }
    proof {
        assert(s@.take(n as int) =~= s@);
    }
}

/// The standard base64 alphabet character for a six-bit value.
pub open spec fn b64_char(v: int) -> u8
    recommends
        0 <= v < 64,
{
    if v < 26 {
        (65 + v) as u8
    } else if v < 52 {
        (97 + (v - 26)) as u8
    } else if v < 62 {
        (48 + (v - 52)) as u8
    } else if v == 62 {
        43
    } else {
        47
    }
}

/// Standard base64 with `=` padding: each group of three bytes becomes
/// four alphabet characters; a trailing group of one or two bytes is
/// padded to four characters.
pub open spec fn spec_base64(s: Seq<u8>) -> Seq<u8>
    decreases s.len(),
{
    if s.len() == 0 {
        Seq::empty()
    } else if s.len() == 1 {
        let b0 = s[0] as int;
        seq![b64_char(b0 / 4), b64_char((b0 % 4) * 16), 61, 61]
    } else if s.len() == 2 {
        let b0 = s[0] as int;
        let b1 = s[1] as int;
        seq![b64_char(b0 / 4), b64_char((b0 % 4) * 16 + b1 / 16), b64_char((b1 % 16) * 4), 61]
    } else {
        let b0 = s[0] as int;
        let b1 = s[1] as int;
        let b2 = s[2] as int;
        seq![
            b64_char(b0 / 4),
            b64_char((b0 % 4) * 16 + b1 / 16),
            b64_char((b1 % 16) * 4 + b2 / 64),
            b64_char(b2 % 64),
        ] + spec_base64(s.skip(3))
    }
}

/// Relies on the `base64` crate's `STANDARD` engine: RFC 4648 base64 with
/// the standard alphabet and `=` padding, deterministic in the input.
#[verifier::external_body]
fn base64_encode(data: &[u8]) -> (r: Vec<u8>)
    ensures
        r@ == spec_base64(data@),
{
    base64::engine::general_purpose::STANDARD.encode(data).into_bytes()
}

/// `ESC 8 ESC [ n C`: restore the saved cursor position, then move right.
pub open spec fn spec_move_right_bytes(n: nat) -> Seq<u8> {
    seq![27u8, 56u8, 27u8, 91u8] + spec_decimal(n) + seq![67u8]
}

/// `ESC [ 38;2;r;g;b m`: set the foreground to an RGB color.
pub open spec fn spec_color_bytes(r: u8, g: u8, b: u8) -> Seq<u8> {
    seq![27u8, 91u8, 51u8, 56u8, 59u8, 50u8, 59u8] + spec_decimal(r as nat) + seq![59u8]
        + spec_decimal(g as nat) + seq![59u8] + spec_decimal(b as nat) + seq![109u8]
}

/// `ESC ] 8 ; ; path BEL`: open an OSC-8 hyperlink to the path.
pub open spec fn spec_link_open_bytes(path: Seq<char>) -> Seq<u8> {
    seq![27u8, 93u8, 56u8, 59u8, 59u8] + encode_utf8(path) + seq![7u8]
}

/// `ESC ] 8 ; ; BEL ESC [ m`: close the hyperlink and reset the color.
pub open spec fn spec_link_close_bytes() -> Seq<u8> {
    seq![27u8, 93u8, 56u8, 59u8, 59u8, 7u8, 27u8, 91u8, 109u8]
}

/// `ESC ] 1337 ; File=inline=1 :`: the inline-image introducer.
pub open spec fn spec_image_prefix() -> Seq<u8> {
    seq![
        27u8,
        93u8,
        49u8,
        51u8,
        51u8,
        55u8,
        59u8,
        70u8,
        105u8,
        108u8,
        101u8,
        61u8,
        105u8,
        110u8,
        108u8,
        105u8,
        110u8,
        101u8,
        61u8,
        49u8,
        58u8,
    ]
}

/// The inline-image sequence: introducer, base64 payload, terminating BEL.
pub open spec fn spec_image_bytes(pixels: Seq<u8>) -> Seq<u8> {
    spec_image_prefix() + spec_base64(pixels) + seq![7u8]
}

/// What starting a row emits: if a previous row exists, restore and move
/// down past it; then enough newlines to guarantee scroll space; then move
/// back up and save the cursor as the new row's anchor.
pub open spec fn spec_start_row_bytes(row_height: u32, size: u32) -> Seq<u8> {
    (if row_height > 0 {
        seq![27u8, 56u8, 27u8, 91u8] + spec_decimal(size as nat) + seq![66u8]
    } else {
        Seq::empty()
    }) + Seq::new(size as nat + 1, |i: int| 10u8) + seq![27u8, 91u8] + spec_decimal(size as nat)
        + seq![65u8, 27u8, 55u8]
}

fn emit_restore_move_right(out: &mut Vec<u8>, n: u64)
    ensures
        final(out)@ == old(out)@ + spec_move_right_bytes(n as nat),
{
    out.push(27);
    out.push(56);
    out.push(27);
    out.push(91);
    push_decimal(out, n);
    out.push(67);
    proof {
        assert(final(out)@ =~= old(out)@ + spec_move_right_bytes(n as nat));
    }
}

fn emit_color(out: &mut Vec<u8>, r: u8, g: u8, b: u8)
    ensures
        final(out)@ == old(out)@ + spec_color_bytes(r, g, b),
{
    out.push(27);
    out.push(91);
    out.push(51);
    out.push(56);
    out.push(59);
    out.push(50);
    out.push(59);
    push_decimal(out, r as u64);
    out.push(59);
    push_decimal(out, g as u64);
    out.push(59);
    push_decimal(out, b as u64);
    out.push(109);
    proof {
        assert(final(out)@ =~= old(out)@ + spec_color_bytes(r, g, b));
    }
}

fn emit_link_open(out: &mut Vec<u8>, path: &str)
    ensures
        final(out)@ == old(out)@ + spec_link_open_bytes(path@),
{
    out.push(27);
    out.push(93);
    out.push(56);
    out.push(59);
    out.push(59);
    push_bytes(out, path.as_bytes());
    out.push(7);
    proof {
        assert(final(out)@ =~= old(out)@ + spec_link_open_bytes(path@));
    }
}

fn emit_link_close(out: &mut Vec<u8>)
    ensures
        final(out)@ == old(out)@ + spec_link_close_bytes(),
{
    out.push(27);
    out.push(93);
    out.push(56);
    out.push(59);
    out.push(59);
    out.push(7);
    out.push(27);
    out.push(91);
    out.push(109);
    proof {
        assert(final(out)@ =~= old(out)@ + spec_link_close_bytes());
    }
}

fn emit_image(out: &mut Vec<u8>, pixels: &Vec<u8>)
    ensures
        final(out)@ == old(out)@ + spec_image_bytes(pixels@),
{
    out.push(27);
    out.push(93);
    out.push(49);
    out.push(51);
    out.push(51);
    out.push(55);
    out.push(59);
    out.push(70);
    out.push(105);
    out.push(108);
    out.push(101);
    out.push(61);
    out.push(105);
    out.push(110);
    out.push(108);
    out.push(105);
    out.push(110);
    out.push(101);
    out.push(61);
    out.push(49);
    out.push(58);
    let encoded = base64_encode(pixels.as_slice());
    push_bytes(out, encoded.as_slice());
    out.push(7);
    proof {
        assert(final(out)@ =~= old(out)@ + spec_image_bytes(pixels@));
    }
}

/// The stateful grid renderer.  `output` is the byte sink; `row_offset_x`
/// is the horizontal offset, in cells, within the current row;
/// `row_height` is the tallest thumbnail, in cells, of the current row (0
/// before the first row).  `history` is the ghost record of every
/// thumbnail rendered, in order.
pub struct Renderer {
    pub output: Vec<u8>,
    pub term: Term,
    pub args: Args,
    pub row_height: u32,
    pub row_offset_x: u64,
    pub history: Ghost<Seq<(Seq<char>, Thumbnail)>>,
}

impl Renderer {
    /// The geometry is usable and the row offset stays small enough that
    /// adding one more thumbnail's width cannot overflow.
    pub open spec fn wf(self) -> bool {
        self.term.wf() && self.row_offset_x <= u32::MAX as u64 + self.term.columns as u64 + 1
    }

    /// A thumbnail's width in cells under this renderer's geometry.
    pub open spec fn spec_cell_width(self, img: Thumbnail) -> u32 {
        (img.width / self.term.cell_width) as u32
    }

    /// A thumbnail's height in cells under this renderer's geometry.
    pub open spec fn spec_cell_height(self, img: Thumbnail) -> u32 {
        (img.height / self.term.cell_height) as u32
    }

    /// Whether rendering this thumbnail starts a new row: always for the
    /// very first one (no row exists yet), and otherwise exactly when the
    /// accumulated offset plus this thumbnail's cell width would exceed
    /// the column count.
    pub open spec fn spec_wraps(self, img: Thumbnail) -> bool {
        self.row_height == 0 || self.row_offset_x + self.spec_cell_width(img)
            > self.term.columns
    }

    /// Everything one render call appends to the output.
    pub open spec fn spec_render_bytes(self, path: Seq<char>, img: Thumbnail) -> Seq<u8> {
        let wrapped = self.spec_wraps(img);
        let offset = if wrapped {
            0
        } else {
            self.row_offset_x as nat
        };
        (if wrapped {
            spec_start_row_bytes(self.row_height, self.args.thumbnail_size)
        } else {
            Seq::empty()
        }) + (if offset > 0 {
            spec_move_right_bytes(offset)
        } else {
            Seq::empty()
        }) + (if !self.args.no_hyperlinks {
            spec_color_bytes(
                self.args.hyperlink_color[0],
                self.args.hyperlink_color[1],
                self.args.hyperlink_color[2],
            ) + spec_link_open_bytes(path)
        } else {
            Seq::empty()
        }) + spec_image_bytes(img.pixels@) + (if !self.args.no_hyperlinks {
            spec_link_close_bytes()
        } else {
            Seq::empty()
        })
    }

    /// A renderer writing into the given buffer with the given geometry
    /// and configuration, before any row has been started.
    pub fn new_with_output(output: Vec<u8>, term: Term, args: Args) -> (r: Renderer)
        ensures
            r.output@ == output@,
            r.term == term,
            r.args == args,
            r.row_height == 0,
            r.row_offset_x == 0,
            r.history@ == Seq::<(Seq<char>, Thumbnail)>::empty(),
    {
        Renderer {
            output,
            term,
            args,
            row_height: 0,
            row_offset_x: 0,
            history: Ghost(Seq::empty()),
        }
    }

    /// Open a new row: move the cursor below the finished row (if any),
    /// emit newlines to guarantee scroll space, move back up and save the
    /// cursor as the row anchor; the row state resets.
    pub fn start_row(&mut self)
        ensures
            final(self).output@ == old(self).output@ + spec_start_row_bytes(
                old(self).row_height,
                old(self).args.thumbnail_size,
            ),
            final(self).row_offset_x == 0,
            final(self).row_height == 0,
            final(self).term == old(self).term,
            final(self).args == old(self).args,
            final(self).history == old(self).history,
    {
        let size = self.args.thumbnail_size;
        if self.row_height > 0 {
            self.output.push(27);
            self.output.push(56);
            self.output.push(27);
            self.output.push(91);
            push_decimal(&mut self.output, size as u64);
            self.output.push(66);
        }
        self.row_offset_x = 0;
        self.row_height = 0;
        let ghost mid = self.output@;
        let count: u64 = size as u64 + 1;
        let mut i: u64 = 0;
        proof {
            assert(mid + Seq::new(0, |j: int| 10u8) =~= mid);
        }
        while i < count
            invariant
                i <= count,
                self.output@ == mid + Seq::new(i as nat, |j: int| 10u8),
                self.row_offset_x == 0,
                self.row_height == 0,
                self.term == old(self).term,
                self.args == old(self).args,
                self.history == old(self).history,
            decreases count - i,
        {
            self.output.push(10);
            proof {
                assert(mid + Seq::new((i + 1) as nat, |j: int| 10u8) =~= (mid + Seq::new(
                    i as nat,
                    |j: int| 10u8,
                )).push(10u8));
            }
            i = i + 1;
        }
        self.output.push(27);
        self.output.push(91);
        push_decimal(&mut self.output, size as u64);
        self.output.push(65);
        self.output.push(27);
        self.output.push(55);
        proof {
            assert(final(self).output@ =~= old(self).output@ + spec_start_row_bytes(
                old(self).row_height,
                old(self).args.thumbnail_size,
            ));
        }
    }

    /// Render one thumbnail at the next grid position.  A new row starts
    /// exactly when [`Renderer::spec_wraps`] says so; the emitted bytes
    /// are exactly [`Renderer::spec_render_bytes`]; the thumbnail is
    /// appended to the render history.
    pub fn render(&mut self, path: &str, img: &Thumbnail)
        requires
            old(self).wf(),
        ensures
            final(self).wf(),
            final(self).output@ == old(self).output@ + old(self).spec_render_bytes(path@, *img),
            final(self).row_offset_x == (if old(self).spec_wraps(*img) {
                0
            } else {
                old(self).row_offset_x as int
            }) + old(self).spec_cell_width(*img) + 1,
            final(self).row_height == (if old(self).spec_wraps(*img) {
                old(self).spec_cell_height(*img)
            } else if old(self).spec_cell_height(*img) > old(self).row_height {
                old(self).spec_cell_height(*img)
            } else {
                old(self).row_height
            }),
            final(self).history@ == old(self).history@.push((path@, *img)),
            final(self).term == old(self).term,
            final(self).args == old(self).args,
    {
        let width = img.width / self.term.cell_width;
        let height = img.height / self.term.cell_height;

        if self.row_height == 0 || self.row_offset_x + width as u64 > self.term.columns as u64 {
            self.start_row();
        }
        if self.row_offset_x > 0 {
            emit_restore_move_right(&mut self.output, self.row_offset_x);
        }
        if !self.args.no_hyperlinks {
            emit_color(
                &mut self.output,
                self.args.hyperlink_color[0],
                self.args.hyperlink_color[1],
                self.args.hyperlink_color[2],
            );
            emit_link_open(&mut self.output, path);
        }
        emit_image(&mut self.output, &img.pixels);
        if !self.args.no_hyperlinks {
            emit_link_close(&mut self.output);
        }
        self.row_offset_x = self.row_offset_x + width as u64 + 1;
        if height > self.row_height {
            self.row_height = height;
        }
        proof {
            self.history@ = self.history@.push((path@, *img));
            assert(final(self).output@ =~= old(self).output@ + old(self).spec_render_bytes(
                path@,
                *img,
            ));
        }
    }

    /// Hand back the buffered output; rendering is complete.
    pub fn finish(self) -> (out: Vec<u8>)
        ensures
            out@ == self.output@,
    {
        self.output
    }
}

} // verus!
