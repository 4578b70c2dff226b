//! Turns one raw RGB frame into terminal text: ASCII luminance art, or
//! truecolor background blocks.
use vstd::prelude::*;
use vstd::arithmetic::div_mod::lemma_div_is_ordered;
use crate::decimal::{append_decimal, chars_value, dec, lemma_dec_reads_back};

verus! {

/// Luminance of a pixel, scaled by 10000: `0.2126 R + 0.7152 G + 0.0722 B`.
/// It ranges over `0 ..= LUMA_MAX`.
pub open spec fn luminance(r: u8, g: u8, b: u8) -> int {
    2126 * r + 7152 * g + 722 * b
}

/// Scaled luminance of a white pixel.
pub const LUMA_MAX: u32 = 2550000;

/// Number of characters in the ASCII palette.
pub const PALETTE_LEN: usize = 10;

/// The palette position for a scaled luminance: the luminance mapped
/// linearly onto `0 ..= 9`, rounded down.
pub open spec fn palette_index(lum: int) -> int {
    let t = lum * 9 / 2550000;
    if t > 9 { 9 } else { t }
}

/// The ASCII palette, densest first and sparsest last.
pub open spec fn palette_char(i: int) -> char {
    if i <= 0 { '@' }
    else if i == 1 { '%' }
    else if i == 2 { '#' }
    else if i == 3 { '*' }
    else if i == 4 { '+' }
    else if i == 5 { '=' }
    else if i == 6 { '-' }
    else if i == 7 { ':' }
    else if i == 8 { '.' }
    else { ' ' }
}

/// A brighter pixel never gets a denser palette character than a darker one.
pub proof fn lemma_palette_monotonic(l1: int, l2: int)
    requires
        0 <= l1 < l2,
    ensures
        palette_index(l1) <= palette_index(l2),
{
    assert(l1 * 9 <= l2 * 9) by (nonlinear_arith)
        requires l1 < l2;
    lemma_div_is_ordered(l1 * 9, l2 * 9, 2550000);
}

/// Byte offset of the pixel in column `x` of row `y` in a frame `w` pixels wide.
pub open spec fn pixel_offset(w: nat, x: nat, y: nat) -> int {
    ((y * w + x) * 3) as int
}

/// The pixel at (`x`, `y`), or `None` where the frame is too short to hold it.
pub open spec fn pixel(buf: Seq<u8>, w: nat, x: nat, y: nat) -> Option<(u8, u8, u8)> {
    let i = pixel_offset(w, x, y);
    if i + 2 < buf.len() {
        Some((buf[i], buf[i + 1], buf[i + 2]))
    } else {
        None
    }
}

/// The ASCII cell of a pixel; a blank where the pixel is missing.
pub open spec fn ascii_cell(buf: Seq<u8>, w: nat, x: nat, y: nat) -> char {
    match pixel(buf, w, x, y) {
        Some((r, g, b)) => palette_char(palette_index(luminance(r, g, b))),
        None => ' ',
    }
}

/// The first `n` ASCII cells of row `y`.
pub open spec fn ascii_row(buf: Seq<u8>, w: nat, y: nat, n: nat) -> Seq<char>
    decreases n,
{
    if n == 0 {
        Seq::empty()
    } else {
        ascii_row(buf, w, y, (n - 1) as nat).push(ascii_cell(buf, w, (n - 1) as nat, y))
    }
}

/// The first `k` ASCII rows of a frame, separated by newlines, with no newline
/// after the last.
pub open spec fn ascii_frame(buf: Seq<u8>, w: nat, k: nat) -> Seq<char>
    decreases k,
{
    if k == 0 {
        Seq::empty()
    } else if k == 1 {
        ascii_row(buf, w, 0, w)
    } else {
        ascii_frame(buf, w, (k - 1) as nat).push('\n') + ascii_row(buf, w, (k - 1) as nat, w)
    }
}

/// The truecolor background directive `ESC [ 48 ; 2 ; R ; G ; B m`.
pub open spec fn background_directive(r: u8, g: u8, b: u8) -> Seq<char> {
    seq!['\x1b', '[', '4', '8', ';', '2', ';'] + dec(r as nat) + seq![';'] + dec(g as nat)
        + seq![';'] + dec(b as nat) + seq!['m']
}

/// The two blank columns that make up one color cell.
pub open spec fn two_spaces() -> Seq<char> {
    seq![' ', ' ']
}

/// The directive `ESC [ 0 m` that resets all colors.
pub open spec fn reset_directive() -> Seq<char> {
    seq!['\x1b', '[', '0', 'm']
}

/// The color cell of a pixel: its background directive and two spaces; a
/// single blank where the pixel is missing.
pub open spec fn color_cell(buf: Seq<u8>, w: nat, x: nat, y: nat) -> Seq<char> {
    match pixel(buf, w, x, y) {
        Some((r, g, b)) => background_directive(r, g, b) + two_spaces(),
        None => seq![' '],
    }
}

/// The first `n` color cells of row `y`.
pub open spec fn color_cells(buf: Seq<u8>, w: nat, y: nat, n: nat) -> Seq<char>
    decreases n,
{
    if n == 0 {
        Seq::empty()
    } else {
        color_cells(buf, w, y, (n - 1) as nat) + color_cell(buf, w, (n - 1) as nat, y)
    }
}

/// Row `y` in color: all its cells, then the reset directive.
pub open spec fn color_row(buf: Seq<u8>, w: nat, y: nat) -> Seq<char> {
    color_cells(buf, w, y, w) + reset_directive()
}

/// The first `k` color rows of a frame, separated by newlines, with no
/// newline after the last.
pub open spec fn color_frame(buf: Seq<u8>, w: nat, k: nat) -> Seq<char>
    decreases k,
{
    if k == 0 {
        Seq::empty()
    } else if k == 1 {
        color_row(buf, w, 0)
    } else {
        color_frame(buf, w, (k - 1) as nat).push('\n') + color_row(buf, w, (k - 1) as nat)
    }
}

/// Reads the pixel at (`x`, `y`), if the frame holds all three of its bytes.
pub fn pixel_at(buf: &[u8], w: u32, x: u32, y: u32) -> (r: Option<(u8, u8, u8)>)
    ensures
        r == pixel(buf@, w as nat, x as nat, y as nat),
{
    assert((y as int) * (w as int) <= 0xffff_ffff * 0xffff_ffff) by (nonlinear_arith)
        requires y <= 0xffff_ffffu32, w <= 0xffff_ffffu32;
    let yw: u128 = (y as u128) * (w as u128);
    let idx: u128 = (yw + x as u128) * 3;
    if idx + 2 < buf.len() as u128 {
        let i = idx as usize;
        Some((buf[i], buf[i + 1], buf[i + 2]))
    } else {
        None
    }
}

/// The palette position of a pixel's luminance.
pub fn luminance_index(r: u8, g: u8, b: u8) -> (i: usize)
    ensures
        i == palette_index(luminance(r, g, b)),
        i < PALETTE_LEN,
{
    let lum: u32 = 2126 * (r as u32) + 7152 * (g as u32) + 722 * (b as u32);
    assert(lum * 9 <= LUMA_MAX * 9);
    let t: u32 = lum * 9 / LUMA_MAX;
    assert(t <= 9) by {
        lemma_div_is_ordered(lum as int * 9, 2550000int * 9, 2550000int);
    }
    t as usize
}

/// Appends the palette character at position `i`.
fn append_palette_char(out: &mut String, i: usize)
    requires
        i < PALETTE_LEN,
    ensures
        final(out)@ == old(out)@.push(palette_char(i as int)),
{
    proof {
        reveal_strlit("@");
        reveal_strlit("%");
        reveal_strlit("#");
        reveal_strlit("*");
        reveal_strlit("+");
        reveal_strlit("=");
        reveal_strlit("-");
        reveal_strlit(":");
        reveal_strlit(".");
        reveal_strlit(" ");
    }
    if i == 0 {
        out.append("@");
    } else if i == 1 {
        out.append("%");
    } else if i == 2 {
        out.append("#");
    } else if i == 3 {
        out.append("*");
    } else if i == 4 {
        out.append("+");
    } else if i == 5 {
        out.append("=");
    } else if i == 6 {
        out.append("-");
    } else if i == 7 {
        out.append(":");
    } else if i == 8 {
        out.append(".");
    } else {
        out.append(" ");
    }
}

/// Renders a frame of `w` by `h` pixels as ASCII art, one palette character
/// per pixel, rows separated by newlines.
pub fn render_ascii_frame(buf: &[u8], w: u32, h: u32) -> (r: String)
    ensures
        r@ == ascii_frame(buf@, w as nat, h as nat),
{
    let mut out = String::new();
    let mut y: u32 = 0;
    while y < h
        invariant
            y <= h,
            out@ == ascii_frame(buf@, w as nat, y as nat),
        decreases h - y,
    {
        proof {
            reveal_strlit("\n");
        }
        if y > 0 {
            out.append("\n");
        }
        let ghost start = out@;
        let mut x: u32 = 0;
        while x < w
            invariant
                x <= w,
                out@ == start + ascii_row(buf@, w as nat, y as nat, x as nat),
            decreases w - x,
        {
            proof {
                reveal_strlit(" ");
            }
            match pixel_at(buf, w, x, y) {
                Some((r, g, b)) => {
                    let i = luminance_index(r, g, b);
                    append_palette_char(&mut out, i);
                },
                None => {
                    out.append(" ");
                },
            }
            assert(out@ =~= start + ascii_row(buf@, w as nat, y as nat, (x + 1) as nat));
            x = x + 1;
        }
        assert(out@ =~= ascii_frame(buf@, w as nat, (y + 1) as nat));
        y = y + 1;
    }
    out
}

/// Appends the background directive of a pixel followed by two spaces.
fn append_color_cell(out: &mut String, r: u8, g: u8, b: u8)
    ensures
        final(out)@ == old(out)@ + background_directive(r, g, b) + two_spaces(),
{
    proof {
        reveal_strlit("\x1b[48;2;");
        reveal_strlit(";");
        reveal_strlit("m  ");
    }
    out.append("\x1b[48;2;");
    append_decimal(out, r as u32);
    out.append(";");
    append_decimal(out, g as u32);
    out.append(";");
    append_decimal(out, b as u32);
    out.append("m  ");
    assert(final(out)@ =~= old(out)@ + background_directive(r, g, b) + two_spaces());
}

/// Renders a frame of `w` by `h` pixels as truecolor blocks: per pixel a
/// background directive and two spaces, and a reset after each row.
pub fn render_color_frame(buf: &[u8], w: u32, h: u32) -> (r: String)
    ensures
        r@ == color_frame(buf@, w as nat, h as nat),
{
    let mut out = String::new();
    let mut y: u32 = 0;
    while y < h
        invariant
            y <= h,
            out@ == color_frame(buf@, w as nat, y as nat),
        decreases h - y,
    {
        proof {
            reveal_strlit("\n");
            reveal_strlit("\x1b[0m");
        }
        if y > 0 {
            out.append("\n");
        }
        let ghost start = out@;
        let mut x: u32 = 0;
        while x < w
            invariant
                x <= w,
                out@ == start + color_cells(buf@, w as nat, y as nat, x as nat),
            decreases w - x,
        {
            proof {
                reveal_strlit(" ");
            }
            match pixel_at(buf, w, x, y) {
                Some((r, g, b)) => {
                    append_color_cell(&mut out, r, g, b);
                },
                None => {
                    out.append(" ");
                },
            }
            assert(out@ =~= start + color_cells(buf@, w as nat, y as nat, (x + 1) as nat));
            x = x + 1;
        }
        out.append("\x1b[0m");
        assert(out@ =~= color_frame(buf@, w as nat, (y + 1) as nat));
        y = y + 1;
    }
    out
}

/// The first `n` color cells of a row extend its first `k`, for `k <= n`.
proof fn lemma_color_cells_extend(buf: Seq<u8>, w: nat, y: nat, k: nat, n: nat) -> (tail: Seq<char>)
    requires
        k <= n,
    ensures
        color_cells(buf, w, y, n) == color_cells(buf, w, y, k) + tail,
    decreases n - k,
{
    if n == k {
        assert(color_cells(buf, w, y, n) =~= color_cells(buf, w, y, k) + Seq::<char>::empty());
        Seq::<char>::empty()
    } else {
        let tail = lemma_color_cells_extend(buf, w, y, k, (n - 1) as nat);
        let t2 = tail + color_cell(buf, w, (n - 1) as nat, y);
        assert(color_cells(buf, w, y, n) =~= color_cells(buf, w, y, k) + t2);
        t2
    }
}

/// Renders a frame in the chosen mode: truecolor blocks or ASCII art.
pub fn render_frame(buf: &[u8], w: u32, h: u32, color: bool) -> (r: String)
    ensures
        r@ == (if color { color_frame(buf@, w as nat, h as nat) } else { ascii_frame(buf@, w as nat, h as nat) }),
{
    if color {
        render_color_frame(buf, w, h)
    } else {
        render_ascii_frame(buf, w, h)
    }
}

/// A frame of exactly `w * h * 3` bytes holds every one of its pixels, so no
/// cell is rendered blank.
pub proof fn lemma_full_frame_has_every_pixel(buf: Seq<u8>, w: nat, h: nat, x: nat, y: nat)
    requires
        buf.len() == w * h * 3,
        x < w,
        y < h,
    ensures
        pixel(buf, w, x, y) is Some,
{
    assert((y * w + x) * 3 + 2 < w * h * 3) by (nonlinear_arith)
        requires x < w, y < h;
}

/// Whether `s` holds no newline.
pub open spec fn line_free(s: Seq<char>) -> bool {
    forall|i: int| 0 <= i < s.len() ==> s[i] != '\n'
}

/// The number of newlines in `s`.
pub open spec fn newline_count(s: Seq<char>) -> nat
    decreases s.len(),
{
    if s.len() == 0 {
        0
    } else {
        newline_count(s.drop_last()) + if s.last() == '\n' { 1nat } else { 0nat }
    }
}

proof fn lemma_newline_count_add(a: Seq<char>, b: Seq<char>)
    ensures
        newline_count(a + b) == newline_count(a) + newline_count(b),
    decreases b.len(),
{
    if b.len() == 0 {
        assert(a + b =~= a);
    } else {
        lemma_newline_count_add(a, b.drop_last());
        assert((a + b).drop_last() =~= a + b.drop_last());
    }
}

proof fn lemma_line_free_count(s: Seq<char>)
    requires
        line_free(s),
    ensures
        newline_count(s) == 0,
    decreases s.len(),
{
    if s.len() > 0 {
        assert(line_free(s.drop_last()));
        lemma_line_free_count(s.drop_last());
    }
}

proof fn lemma_color_cells_line_free(buf: Seq<u8>, w: nat, y: nat, n: nat)
    ensures
        line_free(color_cells(buf, w, y, n)),
    decreases n,
{
    if n > 0 {
        lemma_color_cells_line_free(buf, w, y, (n - 1) as nat);
        let c = color_cell(buf, w, (n - 1) as nat, y);
        match pixel(buf, w, (n - 1) as nat, y) {
            Some((r, g, b)) => {
                lemma_dec_reads_back(r as nat);
                lemma_dec_reads_back(g as nat);
                lemma_dec_reads_back(b as nat);
                assert(line_free(background_directive(r, g, b) + two_spaces()));
            },
            None => {},
        }
        assert(line_free(c));
    }
}

/// A color row holds no newline.
pub proof fn lemma_color_row_line_free(buf: Seq<u8>, w: nat, y: nat)
    ensures
        line_free(color_row(buf, w, y)),
{
    lemma_color_cells_line_free(buf, w, y, w);
}

/// What precedes row `y` in a color frame: nothing for the first row, else
/// the rows before it and a newline.
pub open spec fn color_lines_before(buf: Seq<u8>, w: nat, y: nat) -> Seq<char> {
    if y == 0 { Seq::empty() } else { color_frame(buf, w, y).push('\n') }
}

proof fn lemma_color_frame_newlines(buf: Seq<u8>, w: nat, k: nat)
    requires
        k > 0,
    ensures
        newline_count(color_frame(buf, w, k)) == k - 1,
    decreases k,
{
    lemma_color_row_line_free(buf, w, (k - 1) as nat);
    lemma_line_free_count(color_row(buf, w, (k - 1) as nat));
    if k > 1 {
        lemma_color_frame_newlines(buf, w, (k - 1) as nat);
        let f = color_frame(buf, w, (k - 1) as nat);
        lemma_newline_count_add(f.push('\n'), color_row(buf, w, (k - 1) as nat));
        assert(f.push('\n').drop_last() =~= f);
    }
}

/// In a color frame of `k` rows, row `y` is exactly the `y`-th line: it is
/// preceded by `y` newlines and followed by nothing or a newline, and holds
/// no newline itself. Returns what follows it.
pub proof fn lemma_color_frame_row(buf: Seq<u8>, w: nat, k: nat, y: nat) -> (post: Seq<char>)
    requires
        y < k,
    ensures
        color_frame(buf, w, k) == color_lines_before(buf, w, y) + color_row(buf, w, y) + post,
        newline_count(color_lines_before(buf, w, y)) == y,
        line_free(color_row(buf, w, y)),
        post.len() == 0 || post[0] == '\n',
        y + 1 == k ==> post.len() == 0,
    decreases k,
{
    lemma_color_row_line_free(buf, w, y);
    if y > 0 {
        lemma_color_frame_newlines(buf, w, y);
        let f = color_frame(buf, w, y);
        assert(f.push('\n') =~= f + seq!['\n']);
        lemma_newline_count_add(f, seq!['\n']);
        let nl = seq!['\n'];
        assert(nl.len() == 1 && nl.last() == '\n');
        assert(nl.drop_last() =~= Seq::<char>::empty());
        assert(newline_count(nl.drop_last()) == 0);
        assert(newline_count(nl) == 1);
        assert(color_lines_before(buf, w, y) == f.push('\n'));
    }
    if y + 1 == k {
        let post = Seq::<char>::empty();
        assert(color_frame(buf, w, k) =~= color_lines_before(buf, w, y) + color_row(buf, w, y) + post);
        post
    } else {
        let prev = lemma_color_frame_row(buf, w, (k - 1) as nat, y);
        let post = prev.push('\n') + color_row(buf, w, (k - 1) as nat);
        assert(color_frame(buf, w, k) =~= color_lines_before(buf, w, y) + color_row(buf, w, y) + post);
        post
    }
}

/// In a color frame of `h` rows, the `y`-th line shows each pixel it holds
/// as a background directive with exactly that pixel's red, green and blue,
/// two spaces after it, and the reset directive at the end of the line.
/// Returns what lies between the cell and the reset, and what follows the line.
pub proof fn lemma_color_frame_carries_pixel(buf: Seq<u8>, w: nat, h: nat, x: nat, y: nat) -> (r: (Seq<char>, Seq<char>))
    requires
        x < w,
        y < h,
        pixel(buf, w, x, y) is Some,
    ensures
        ({
            let (red, green, blue) = pixel(buf, w, x, y)->0;
            &&& color_frame(buf, w, h) == color_lines_before(buf, w, y) + color_cells(buf, w, y, x)
                + background_directive(red, green, blue) + two_spaces() + r.0 + reset_directive() + r.1
            &&& newline_count(color_lines_before(buf, w, y)) == y
            &&& line_free(color_cells(buf, w, y, x) + background_directive(red, green, blue) + two_spaces() + r.0 + reset_directive())
            &&& (r.1.len() == 0 || r.1[0] == '\n')
            &&& chars_value(dec(red as nat)) == red
            &&& chars_value(dec(green as nat)) == green
            &&& chars_value(dec(blue as nat)) == blue
        }),
{
    let (red, green, blue) = pixel(buf, w, x, y)->0;
    lemma_dec_reads_back(red as nat);
    lemma_dec_reads_back(green as nat);
    lemma_dec_reads_back(blue as nat);
    let post = lemma_color_frame_row(buf, w, h, y);
    let mid = lemma_color_cells_extend(buf, w, y, x + 1, w);
    let pre = color_cells(buf, w, y, x);
    assert(color_cells(buf, w, y, x + 1) == pre + background_directive(red, green, blue) + two_spaces());
    assert(color_row(buf, w, y) =~= pre + background_directive(red, green, blue) + two_spaces() + mid + reset_directive());
    assert(color_frame(buf, w, h) =~= color_lines_before(buf, w, y) + pre
        + background_directive(red, green, blue) + two_spaces() + mid + reset_directive() + post);
    (mid, post)
}

} // verus!
