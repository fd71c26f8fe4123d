//! Calibration requests: the ChArUco board that is drawn, and the answer to
//! switching calibration mode.
use vstd::prelude::*;
use crate::recording::options::clamp;
use crate::streams::engine_reply::{command_reply, command_reply_ok, EngineReply, HttpReply};
use crate::text::{decimal, owned, push_decimal};

verus! {

/// The query of a board request; absent values take their defaults.
#[derive(Debug, Clone, PartialEq, Eq)]
pub struct BoardParams {
    pub squares_x: Option<u32>,
    pub squares_y: Option<u32>,
    pub square_px: Option<u32>,
    pub marker_px: Option<u32>,
    pub dictionary: Option<String>,
}

/// The board that is drawn.
#[derive(Debug, Clone, Copy, PartialEq, Eq, Structural)]
pub struct BoardLayout {
    pub squares_x: u32,
    pub squares_y: u32,
    pub square_px: u32,
    pub marker_px: u32,
}

pub open spec fn or_default(v: Option<u32>, d: u32) -> int {
    match v {
        Some(x) => x as int,
        None => d as int,
    }
}

fn clamp_u32(value: u32, lo: u32, hi: u32) -> (r: u32)
    requires
        lo <= hi,
    ensures
        r == clamp(value as int, lo as int, hi as int),
{
    if value < lo {
        lo
    } else if value > hi {
        hi
    } else {
        value
    }
}

/// An 8 by 6 board of 140 px squares with 100 px markers unless asked
/// otherwise; each side keeps 2 to 64 squares, a square 16 to 1000 px, and a
/// marker at least 8 px and 2 px less than its square.
pub fn resolve_board(p: &BoardParams) -> (r: BoardLayout)
    ensures
        r.squares_x == clamp(or_default(p.squares_x, 8), 2, 64),
        r.squares_y == clamp(or_default(p.squares_y, 6), 2, 64),
        r.square_px == clamp(or_default(p.square_px, 140), 16, 1000),
        r.marker_px == clamp(or_default(p.marker_px, 100), 8, r.square_px - 2),
{
    let squares_x = clamp_u32(match p.squares_x { Some(v) => v, None => 8 }, 2, 64);
    let squares_y = clamp_u32(match p.squares_y { Some(v) => v, None => 6 }, 2, 64);
    let square_px = clamp_u32(match p.square_px { Some(v) => v, None => 140 }, 16, 1000);
    let marker_px = clamp_u32(match p.marker_px { Some(v) => v, None => 100 }, 8, square_px - 2);
    BoardLayout { squares_x, squares_y, square_px, marker_px }
}

/// The squares of a PDF board: 8 by 6 unless asked otherwise, each side
/// 2 to 64.
pub fn resolve_board_squares(squares_x: Option<u32>, squares_y: Option<u32>) -> (r: (u32, u32))
    ensures
        r.0 == clamp(or_default(squares_x, 8), 2, 64),
        r.1 == clamp(or_default(squares_y, 6), 2, 64),
{
    (
        clamp_u32(match squares_x { Some(v) => v, None => 8 }, 2, 64),
        clamp_u32(match squares_y { Some(v) => v, None => 6 }, 2, 64),
    )
}

/// `charuco_X_Y_S.png`.
pub fn board_png_file_name(b: &BoardLayout) -> (r: String)
    ensures
        r@ == "charuco_"@ + decimal(b.squares_x as nat) + "_"@ + decimal(b.squares_y as nat) + "_"@
            + decimal(b.square_px as nat) + ".png"@,
{
    let mut out = owned("charuco_");
    push_decimal(&mut out, b.squares_x as u64);
    out.append("_");
    push_decimal(&mut out, b.squares_y as u64);
    out.append("_");
    push_decimal(&mut out, b.square_px as u64);
    out.append(".png");
    out
}

/// `charuco_X_Y.pdf`.
pub fn board_pdf_file_name(squares_x: u32, squares_y: u32) -> (r: String)
    ensures
        r@ == "charuco_"@ + decimal(squares_x as nat) + "_"@ + decimal(squares_y as nat) + ".pdf"@,
{
    let mut out = owned("charuco_");
    push_decimal(&mut out, squares_x as u64);
    out.append("_");
    push_decimal(&mut out, squares_y as u64);
    out.append(".pdf");
    out
}

/// A request to switch calibration mode on or off.
#[derive(Debug, Clone, PartialEq, Eq)]
pub struct CalibrationModeRequest {
    pub enabled: bool,
    pub dictionary: Option<String>,
    pub mode: Option<String>,
}

/// The answer to switching calibration mode, from the engine's reply.
pub fn calibration_mode_reply(reply: &Result<EngineReply, String>) -> (r: HttpReply)
    ensures
        command_reply_ok(*reply, "unexpected engine response"@, "failed to toggle calibration mode: "@, r),
{
    command_reply(reply, "unexpected engine response", "failed to toggle calibration mode: ")
}

} // verus!
