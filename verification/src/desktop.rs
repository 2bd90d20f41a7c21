//! Small rules of the desktop shell: where the window goes, whether a click
//! fell outside it, how a picked colour is written, where `ffmpeg` may be,
//! and the arguments of the system tools.

use crate::layout::{join, join_path};
use crate::number::{decimal, u64_to_decimal};
use crate::text::push_text;
use crate::translate::hex_digit;
use crate::unicode::{to_uppercase, uppercase};
use vstd::prelude::*;
use vstd::string::*;

verus! {

/// A rectangle on the screen, by its edges.
#[derive(Debug, Clone, Copy, PartialEq, Eq, Structural)]
pub struct Rect {
    pub left: i32,
    pub top: i32,
    pub right: i32,
    pub bottom: i32,
}

/// Half of `n`, rounded towards zero.
pub open spec fn half(n: int) -> int {
    if n >= 0 {
        n / 2
    } else {
        -((-n) / 2)
    }
}

/// Where the top-left corner of a window of the given size goes so that the
/// window is centred in a work area that begins at `(x, y)`.
pub open spec fn centered(
    x: int,
    y: int,
    work_width: int,
    work_height: int,
    width: int,
    height: int,
) -> (int, int) {
    (x + half(work_width - width), y + half(work_height - height))
}

/// Whether the point `(x, y)` lies outside a rectangle; its edges belong to it.
pub open spec fn outside(rect: Rect, x: i32, y: i32) -> bool {
    x < rect.left || x > rect.right || y < rect.top || y > rect.bottom
}

/// A byte as two upper-case hexadecimal digits.
pub open spec fn hex_pair(b: u8) -> Seq<char> {
    seq![hex_digit(b / 16), hex_digit(b % 16)]
}

/// A colour as `#RRGGBB`.
pub open spec fn colour_text(r: u8, g: u8, b: u8) -> Seq<char> {
    seq!['#'] + hex_pair(r) + hex_pair(g) + hex_pair(b)
}

/// What is reported when a pixel could not be read.
pub open spec fn no_pixel_message() -> Seq<char> {
    "Failed to read pixel data"@
}

/// Where `ffmpeg` is looked for on Linux, in order: beside the executable,
/// in the working directory of a development build, and in the system.
pub open spec fn linux_ffmpeg_candidates(exe_dir: Seq<char>, cwd: Seq<char>) -> Seq<Seq<char>> {
    seq![
        join_path(exe_dir, "ffmpeg"@),
        join_path(join_path(exe_dir, "binaries"@), "ffmpeg"@),
        join_path(cwd, "src-tauri/binaries/ffmpeg-x86_64-unknown-linux-gnu"@),
        join_path(cwd, "binaries/ffmpeg-x86_64-unknown-linux-gnu"@),
        "/usr/bin/ffmpeg"@,
        "/usr/local/bin/ffmpeg"@,
    ]
}

/// The arguments that kill a process on Linux.
pub open spec fn kill_arguments(pid: u32) -> Seq<Seq<char>> {
    seq!["-9"@, decimal(pid as nat)]
}

/// The arguments that kill a process on Windows.
pub open spec fn taskkill_arguments(pid: u32) -> Seq<Seq<char>> {
    seq!["/F"@, "/PID"@, decimal(pid as nat)]
}

/// The arguments that ask Windows for the name of a process.
pub open spec fn tasklist_arguments(pid: u32) -> Seq<Seq<char>> {
    seq!["/FI"@, "PID eq "@ + decimal(pid as nat), "/FO"@, "CSV"@, "/NH"@]
}

/// The address that asks for the rate between two currencies, whose codes are in upper case.
pub open spec fn currency_url(amount: Seq<char>, from: Seq<char>, to: Seq<char>) -> Seq<char> {
    "https://api.frankfurter.app/latest?amount="@ + amount + "&from="@ + from + "&to="@ + to
}

fn half_of(n: i64) -> (r: i64)
    requires
        -0x1_0000_0000 <= n <= 0x1_0000_0000,
    ensures
        r == half(n as int),
{
    if n >= 0 {
        n / 2
    } else {
        -((-n) / 2)
    }
}

/// Where the top-left corner of a window of the given size goes so that it
/// is centred in the work area `(x, y, width, height)`; `None` when a
/// coordinate does not fit.
pub fn centered_position(work_area: (i32, i32, i32, i32), width: i32, height: i32) -> (r: Option<
    (i32, i32),
>)
    ensures
        ({
            let at = centered(
                work_area.0 as int,
                work_area.1 as int,
                work_area.2 as int,
                work_area.3 as int,
                width as int,
                height as int,
            );
            let fits = -0x8000_0000 <= at.0 <= 0x7fff_ffff && -0x8000_0000 <= at.1 <= 0x7fff_ffff;
            match r {
                Some(p) => fits && p.0 == at.0 && p.1 == at.1,
                None => !fits,
            }
        }),
{
    let x: i64 = work_area.0 as i64 + half_of(work_area.2 as i64 - width as i64);
    let y: i64 = work_area.1 as i64 + half_of(work_area.3 as i64 - height as i64);
    if -0x8000_0000 <= x && x <= 0x7fff_ffff && -0x8000_0000 <= y && y <= 0x7fff_ffff {
        Some((x as i32, y as i32))
    } else {
        None
    }
}

/// The work area of a monitor, as `(x, y, width, height)`, from its edges;
/// `None` when a size does not fit.
pub fn work_area_of(rect: Rect) -> (r: Option<(i32, i32, i32, i32)>)
    ensures
        ({
            let w = rect.right - rect.left;
            let h = rect.bottom - rect.top;
            let fits = -0x8000_0000 <= w <= 0x7fff_ffff && -0x8000_0000 <= h <= 0x7fff_ffff;
            match r {
                Some(a) => fits && a.0 == rect.left && a.1 == rect.top && a.2 == w && a.3 == h,
                None => !fits,
            }
        }),
{
    let w: i64 = rect.right as i64 - rect.left as i64;
    let h: i64 = rect.bottom as i64 - rect.top as i64;
    if -0x8000_0000 <= w && w <= 0x7fff_ffff && -0x8000_0000 <= h && h <= 0x7fff_ffff {
        Some((rect.left, rect.top, w as i32, h as i32))
    } else {
        None
    }
}

/// Whether a click at `(x, y)` fell outside the window.
pub fn is_click_outside(window: Rect, x: i32, y: i32) -> (r: bool)
    ensures
        r == outside(window, x, y),
{
    x < window.left || x > window.right || y < window.top || y > window.bottom
}

fn hex_str(d: u8) -> (r: &'static str)
    requires
        d < 16,
    ensures
        r@ == seq![hex_digit(d)],
{
    proof {
        reveal_strlit("0");
        reveal_strlit("1");
        reveal_strlit("2");
        reveal_strlit("3");
        reveal_strlit("4");
        reveal_strlit("5");
        reveal_strlit("6");
        reveal_strlit("7");
        reveal_strlit("8");
        reveal_strlit("9");
        reveal_strlit("A");
        reveal_strlit("B");
        reveal_strlit("C");
        reveal_strlit("D");
        reveal_strlit("E");
        reveal_strlit("F");
    }
    let r = if d == 0 {
        "0"
    } else if d == 1 {
        "1"
    } else if d == 2 {
        "2"
    } else if d == 3 {
        "3"
    } else if d == 4 {
        "4"
    } else if d == 5 {
        "5"
    } else if d == 6 {
        "6"
    } else if d == 7 {
        "7"
    } else if d == 8 {
        "8"
    } else if d == 9 {
        "9"
    } else if d == 10 {
        "A"
    } else if d == 11 {
        "B"
    } else if d == 12 {
        "C"
    } else if d == 13 {
        "D"
    } else if d == 14 {
        "E"
    } else {
        "F"
    };
    assert(r@ =~= seq![hex_digit(d)]);
    r
}

fn push_hex(out: &mut String, b: u8)
    ensures
        final(out)@ == old(out)@ + hex_pair(b),
{
    let ghost before = out@;
    out.append(hex_str(b / 16));
    out.append(hex_str(b % 16));
    assert(out@ =~= before + hex_pair(b));
}

/// A colour as `#RRGGBB`.
pub fn hex_colour(r: u8, g: u8, b: u8) -> (text: String)
    ensures
        text@ == colour_text(r, g, b),
{
    proof {
        reveal_strlit("#");
    }
    let mut out = String::from_str("#");
    assert(out@ =~= seq!['#']);
    push_hex(&mut out, r);
    push_hex(&mut out, g);
    push_hex(&mut out, b);
    out
}

/// The colour of a pixel whose bytes are blue, green and red, in that
/// order; an error when fewer than three bytes were read.
pub fn colour_of_pixel(data: &Vec<u8>) -> (r: Result<String, String>)
    ensures
        match r {
            Ok(text) => data.len() >= 3 && text@ == colour_text(data[2], data[1], data[0]),
            Err(message) => data.len() < 3 && message@ == no_pixel_message(),
        },
{
    if data.len() >= 3 {
        Ok(hex_colour(data[2], data[1], data[0]))
    } else {
        Err(String::from_str("Failed to read pixel data"))
    }
}

/// The colour that a packed value holds, red in its lowest byte, then green, then blue.
pub fn colour_of_packed(value: u32) -> (r: String)
    ensures
        r@ == colour_text(
            (value % 256) as u8,
            ((value / 256) % 256) as u8,
            ((value / 65536) % 256) as u8,
        ),
{
    hex_colour((value % 256) as u8, ((value / 256) % 256) as u8, ((value / 65536) % 256) as u8)
}

/// Where `ffmpeg` is looked for on Linux, in order.
pub fn ffmpeg_candidates(exe_dir: &str, cwd: &str) -> (r: Vec<String>)
    ensures
        r.deep_view() == linux_ffmpeg_candidates(exe_dir@, cwd@),
{
    let mut out: Vec<String> = Vec::new();
    assert(out.deep_view() =~= Seq::<Seq<char>>::empty());
    let beside = join(exe_dir, "ffmpeg");
    let binaries = join(exe_dir, "binaries");
    let bundled = join(binaries.as_str(), "ffmpeg");
    let dev = join(cwd, "src-tauri/binaries/ffmpeg-x86_64-unknown-linux-gnu");
    let local = join(cwd, "binaries/ffmpeg-x86_64-unknown-linux-gnu");
    push_text(&mut out, beside.as_str());
    push_text(&mut out, bundled.as_str());
    push_text(&mut out, dev.as_str());
    push_text(&mut out, local.as_str());
    push_text(&mut out, "/usr/bin/ffmpeg");
    push_text(&mut out, "/usr/local/bin/ffmpeg");
    assert(out.deep_view() =~= linux_ffmpeg_candidates(exe_dir@, cwd@));
    out
}

/// The arguments that kill process `pid` on Linux.
pub fn kill_process_arguments(pid: u32) -> (r: Vec<String>)
    ensures
        r.deep_view() == kill_arguments(pid),
{
    let mut out: Vec<String> = Vec::new();
    assert(out.deep_view() =~= Seq::<Seq<char>>::empty());
    let id = u64_to_decimal(pid as u64);
    push_text(&mut out, "-9");
    push_text(&mut out, id.as_str());
    assert(out.deep_view() =~= kill_arguments(pid));
    out
}

/// The arguments that kill process `pid` on Windows.
pub fn taskkill_process_arguments(pid: u32) -> (r: Vec<String>)
    ensures
        r.deep_view() == taskkill_arguments(pid),
{
    let mut out: Vec<String> = Vec::new();
    assert(out.deep_view() =~= Seq::<Seq<char>>::empty());
    let id = u64_to_decimal(pid as u64);
    push_text(&mut out, "/F");
    push_text(&mut out, "/PID");
    push_text(&mut out, id.as_str());
    assert(out.deep_view() =~= taskkill_arguments(pid));
    out
}

/// The arguments that ask Windows for the name of process `pid`.
pub fn tasklist_process_arguments(pid: u32) -> (r: Vec<String>)
    ensures
        r.deep_view() == tasklist_arguments(pid),
{
    let mut out: Vec<String> = Vec::new();
    assert(out.deep_view() =~= Seq::<Seq<char>>::empty());
    let mut filter = String::from_str("PID eq ");
    let id = u64_to_decimal(pid as u64);
    filter.append(id.as_str());
    push_text(&mut out, "/FI");
    push_text(&mut out, filter.as_str());
    push_text(&mut out, "/FO");
    push_text(&mut out, "CSV");
    push_text(&mut out, "/NH");
    assert(out.deep_view() =~= tasklist_arguments(pid));
    out
}

/// The address that asks for the rate between two currencies: `amount` is
/// the amount as it is written, and the codes are put in upper case.
pub fn build_currency_url(amount: &str, from: &str, to: &str) -> (r: String)
    ensures
        r@ == currency_url(amount@, uppercase(from@), uppercase(to@)),
{
    let from_code = to_uppercase(from);
    let to_code = to_uppercase(to);
    let mut url = String::from_str("https://api.frankfurter.app/latest?amount=");
    url.append(amount);
    url.append("&from=");
    url.append(from_code.as_str());
    url.append("&to=");
    url.append(to_code.as_str());
    url
}

} // verus!
