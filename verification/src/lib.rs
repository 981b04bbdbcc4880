//! Terminal thumbnail renderer: a verified core for probing terminal geometry,
//! resolving inputs into sources, caching generated thumbnails, producing
//! thumbnails from image bytes, and laying thumbnails out as a terminal grid.

use vstd::prelude::*;

pub mod archives;
pub mod images;
pub mod imgcache;
pub mod render;
pub mod schedule;
pub mod term;

verus! {

/// Run configuration, constructed once at startup and threaded through the
/// components that need it.
#[derive(Clone)]
pub struct Args {
    /// Size, in cells, of the thumbnail.
    pub thumbnail_size: u32,
    /// Don't add hyperlinks to every image.
    pub no_hyperlinks: bool,
    /// Images to render.
    pub images: Vec<String>,
    /// Color to set foreground for hyperlinks.
    pub hyperlink_color: [u8; 3],
    /// Maximum file size to try to read.
    pub max_file_size: Option<u64>,
    /// Number of jobs to run simultaneously.
    pub jobs: Option<usize>,
}

/// The numeric value of a hex digit character, or nothing.
pub open spec fn spec_hex_val(c: char) -> Option<u8> {
    let v = c as u32;
    if 48 <= v && v <= 57 {
        Some((v - 48) as u8)
    } else if 97 <= v && v <= 102 {
        Some((v - 97 + 10) as u8)
    } else if 65 <= v && v <= 70 {
        Some((v - 65 + 10) as u8)
    } else {
        None
    }
}

/// What a six-digit `RRGGBB` hex string denotes: its three color
/// components, or nothing if it is not six hex digits.
pub open spec fn spec_color(s: Seq<char>) -> Option<(u8, u8, u8)> {
    if s.len() == 6 && (forall|i: int| 0 <= i < 6 ==> spec_hex_val(#[trigger] s[i]) is Some) {
        Some(
            (
                (spec_hex_val(s[0]).unwrap() * 16 + spec_hex_val(s[1]).unwrap()) as u8,
                (spec_hex_val(s[2]).unwrap() * 16 + spec_hex_val(s[3]).unwrap()) as u8,
                (spec_hex_val(s[4]).unwrap() * 16 + spec_hex_val(s[5]).unwrap()) as u8,
            ),
        )
    } else {
        None
    }
}

fn hex_val(c: char) -> (r: Option<u8>)
    ensures
        r == spec_hex_val(c),
        r matches Some(v) ==> v < 16,
{
    let v = c as u32;
    if 48 <= v && v <= 57 {
        Some((v - 48) as u8)
    } else if 97 <= v && v <= 102 {
        Some((v - 97 + 10) as u8)
    } else if 65 <= v && v <= 70 {
        Some((v - 65 + 10) as u8)
    } else {
        None
    }
}

/// Parse an `RRGGBB` hex color into its three components; anything that is
/// not exactly six hex digits is rejected.
pub fn parse_color(value: &str) -> (r: Result<[u8; 3], &'static str>)
    ensures
        match r {
            Ok(c) => spec_color(value@) == Some((c[0], c[1], c[2])),
            Err(_) => spec_color(value@) is None,
        },
{
    if value.unicode_len() != 6 {
        return Err("Expected RRGGBB in hexadecimal digits.");
    }
    let v0 = match hex_val(value.get_char(0)) {
        Some(v) => v,
        None => {
            return Err("Expected RRGGBB in hexadecimal digits.");
        },
    };
    let v1 = match hex_val(value.get_char(1)) {
        Some(v) => v,
        None => {
            return Err("Expected RRGGBB in hexadecimal digits.");
        },
    };
    let v2 = match hex_val(value.get_char(2)) {
        Some(v) => v,
        None => {
            return Err("Expected RRGGBB in hexadecimal digits.");
        },
    };
    let v3 = match hex_val(value.get_char(3)) {
        Some(v) => v,
        None => {
            return Err("Expected RRGGBB in hexadecimal digits.");
        },
    };
    let v4 = match hex_val(value.get_char(4)) {
        Some(v) => v,
        None => {
            return Err("Expected RRGGBB in hexadecimal digits.");
        },
    };
    let v5 = match hex_val(value.get_char(5)) {
        Some(v) => v,
        None => {
            return Err("Expected RRGGBB in hexadecimal digits.");
        },
    };
    Ok([v0 * 16 + v1, v2 * 16 + v3, v4 * 16 + v5])
}

} // verus!
