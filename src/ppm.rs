//! Plain-text PPM ("P3") encoding of a canvas whose channels have already been
//! scaled to integers in `0..=max_colour_value`.
use vstd::prelude::*;
use vstd::string::*;
use vstd::utf8::{encode_utf8, is_ascii_chars, is_ascii_chars_encode_utf8};
use crate::canvas::Canvas;
use crate::text::{decimal, digit_char, pop_char, push_char, push_decimal, to_decimal};

verus! {

/// The longest line, in UTF-8 bytes, that the pixel data may hold.
pub const MAX_LINE_LEN: usize = 70;

/// One pixel, each channel already scaled to the output range.
#[derive(Clone, Copy, Debug, PartialEq, Eq, Structural)]
pub struct Rgb {
    pub red: usize,
    pub green: usize,
    pub blue: usize,
}

/// The channel values of `pixels`, three per pixel, in order.
pub open spec fn channel_values(pixels: Seq<Rgb>) -> Seq<nat>
    decreases pixels.len(),
{
    if pixels.len() == 0 {
        seq![]
    } else {
        let p = pixels.last();
        channel_values(pixels.drop_last()) + seq![p.red as nat, p.green as nat, p.blue as nat]
    }
}

/// `line` without its last character when that character is a space.
pub open spec fn without_trailing_space(line: Seq<char>) -> Seq<char> {
    if line.len() > 0 && line.last() == ' ' {
        line.drop_last()
    } else {
        line
    }
}

/// The length of `s` in UTF-8 bytes.
pub open spec fn byte_len(s: Seq<char>) -> nat {
    encode_utf8(s).len()
}

/// The (body, line) pair after `value` is laid out: when the value would make
/// the line longer than the limit (counted in bytes), the line is first moved, without its
/// trailing space and with a newline, to the body; the value and a space then
/// go on the line.
pub open spec fn add_value(body: Seq<char>, line: Seq<char>, value: nat) -> (Seq<char>, Seq<char>) {
    let token = decimal(value);
    if byte_len(line) + byte_len(token) > MAX_LINE_LEN {
        (body + without_trailing_space(line) + seq!['\n'], token + seq![' '])
    } else {
        (body, line + token + seq![' '])
    }
}

/// The (body, line) pair after each of `values` is laid out in turn.
pub open spec fn add_values(body: Seq<char>, line: Seq<char>, values: Seq<nat>) -> (Seq<char>, Seq<char>)
    decreases values.len(),
{
    if values.len() == 0 {
        (body, line)
    } else {
        let (b, l) = add_values(body, line, values.drop_last());
        add_value(b, l, values.last())
    }
}

/// The body after one row of values: the row is laid out on a fresh line and
/// its last line closed with a newline.
pub open spec fn add_row(body: Seq<char>, values: Seq<nat>) -> Seq<char> {
    let (b, l) = add_values(body, seq![], values);
    b + without_trailing_space(l) + seq!['\n']
}

/// The pixel data for `rows`, each a row of channel values.
pub open spec fn body_text(rows: Seq<Seq<nat>>) -> Seq<char>
    decreases rows.len(),
{
    if rows.len() == 0 {
        seq![]
    } else {
        add_row(body_text(rows.drop_last()), rows.last())
    }
}

/// The header: magic number, width and height, and the largest channel value.
pub open spec fn header_text(width: nat, height: nat, max_colour_value: nat) -> Seq<char> {
    "P3\n"@ + decimal(width) + " "@ + decimal(height) + "\n"@ + decimal(max_colour_value) + "\n"@
}

/// Drops the last character of `line` when it is a space.
pub fn pop_trailing_space(line: &mut String)
    ensures
        final(line)@ == without_trailing_space(old(line)@),
{
    let n = line.as_str().unicode_len();
    if n > 0 && line.as_str().get_char(n - 1) == ' ' {
        pop_char(line);
    }
}

/// Lays `value` out on `line`, first moving the line to `body` when the value
/// would make it longer than the limit.
pub fn add_to_line_or_body(body: &mut String, line: &mut String, value: usize)
    ensures
        (final(body)@, final(line)@) == add_value(old(body)@, old(line)@, value as nat),
{
    let token = to_decimal(value);
    let line_len = line.as_str().as_bytes().len();
    let token_len = token.as_str().as_bytes().len();
    let ghost b0 = body@;
    let ghost l0 = line@;
    if token_len > MAX_LINE_LEN || line_len > MAX_LINE_LEN - token_len {
        pop_trailing_space(line);
        body.append(line.as_str());
        push_char(body, '\n');
        assert(body@ =~= b0 + without_trailing_space(l0) + seq!['\n']);
        *line = String::new();
    }
    line.append(token.as_str());
    push_char(line, ' ');
    assert(body@ =~= add_value(old(body)@, old(line)@, value as nat).0);
    assert(line@ =~= add_value(old(body)@, old(line)@, value as nat).1);
}

/// A canvas of scaled pixels together with the largest channel value.
pub struct PpmWrapper {
    canvas: Canvas<Rgb>,
    max_colour_value: usize,
}

impl PpmWrapper {
    pub closed spec fn spec_canvas(&self) -> Canvas<Rgb> {
        self.canvas
    }

    pub closed spec fn spec_max_colour_value(&self) -> nat {
        self.max_colour_value as nat
    }

    /// The channel values of row `y`.
    pub open spec fn row_values(&self, y: int) -> Seq<nat> {
        let c = self.spec_canvas();
        let w = c.spec_width() as int;
        channel_values(c.grid().subrange(y * w, y * w + w))
    }

    /// The channel values of every row, top to bottom.
    pub open spec fn rows(&self) -> Seq<Seq<nat>> {
        Seq::new(self.spec_canvas().spec_height(), |y: int| self.row_values(y))
    }

    pub fn new(canvas: Canvas<Rgb>, max_colour_value: usize) -> (r: Self)
        requires
            canvas.wf(),
        ensures
            r.wf(),
            r.spec_canvas() == canvas,
            r.spec_max_colour_value() == max_colour_value,
    {
        PpmWrapper { canvas, max_colour_value }
    }

    pub open spec fn wf(&self) -> bool {
        self.spec_canvas().wf()
    }

    pub fn height(&self) -> (r: usize)
        ensures
            r == self.spec_canvas().spec_height(),
    {
        self.canvas.height()
    }

    pub fn width(&self) -> (r: usize)
        ensures
            r == self.spec_canvas().spec_width(),
    {
        self.canvas.width()
    }
}


/// Laying out three more values is laying out each of them in turn.
proof fn add_values_three(body: Seq<char>, line: Seq<char>, vs: Seq<nat>, a: nat, b: nat, c: nat)
    ensures
        ({
            let (b0, l0) = add_values(body, line, vs);
            let (b1, l1) = add_value(b0, l0, a);
            let (b2, l2) = add_value(b1, l1, b);
            add_values(body, line, vs + seq![a, b, c]) == add_value(b2, l2, c)
        }),
{
    let s3 = vs + seq![a, b, c];
    let s2 = vs + seq![a, b];
    let s1 = vs + seq![a];
    reveal_with_fuel(add_values, 4);
    assert(s3.drop_last() =~= s2);
    assert(s2.drop_last() =~= s1);
    assert(s1.drop_last() =~= vs);
}

/// `s` holds no newline.
pub open spec fn newline_free(s: Seq<char>) -> bool {
    forall|k: int| 0 <= k < s.len() ==> s[k] != '\n'
}

/// No line of `s` is longer than `limit` bytes: every stretch of `s` without a
/// newline fits.
pub open spec fn lines_within(s: Seq<char>, limit: nat) -> bool {
    forall|i: int, j: int|
        0 <= i <= j <= s.len() && newline_free(#[trigger] s.subrange(i, j)) ==> byte_len(
            s.subrange(i, j),
        ) <= limit
}

spec fn pow10(k: nat) -> nat
    decreases k,
{
    if k == 0 {
        1
    } else {
        10 * pow10((k - 1) as nat)
    }
}

/// Every stretch without a newline has at most `MAX_LINE_LEN` characters.
spec fn short_lines(s: Seq<char>) -> bool {
    forall|i: int, j: int|
        0 <= i <= j <= s.len() && newline_free(#[trigger] s.subrange(i, j)) ==> j - i
            <= MAX_LINE_LEN
}

/// A body laid out so far: ASCII, short lines, and closed by a newline.
spec fn body_ok(b: Seq<char>) -> bool {
    is_ascii_chars(b) && short_lines(b) && (b.len() == 0 || b.last() == '\n')
}

/// A line being filled: ASCII, no newline, at most one character past the
/// limit, and ending with the space after its last value.
spec fn line_ok(l: Seq<char>) -> bool {
    is_ascii_chars(l) && newline_free(l) && l.len() <= MAX_LINE_LEN + 1 && (l.len() == 0
        || l.last() == ' ')
}

proof fn decimal_facts(n: nat, k: nat)
    requires
        1 <= k,
        n < pow10(k),
    ensures
        decimal(n).len() <= k,
        is_ascii_chars(decimal(n)),
        newline_free(decimal(n)),
    decreases n,
{
    if n < 10 {
        assert(decimal(n) == seq![digit_char(n)]);
    } else {
        if k == 1 {
            assert(pow10(1) == 10) by {
                reveal_with_fuel(pow10, 2);
            }
        }
        assert(k >= 2);
        let k1 = (k - 1) as nat;
        assert(pow10(k) == 10 * pow10(k1));
        assert(n / 10 < pow10(k1)) by (nonlinear_arith)
            requires
                n < 10 * pow10(k1),
        ;
        decimal_facts(n / 10, k1);
        let d = decimal(n / 10);
        assert(decimal(n) == d.push(digit_char(n % 10)));
        assert forall|i: int| 0 <= i < decimal(n).len() implies '\0' <= #[trigger] decimal(n)[i]
            <= '\u{7f}' && decimal(n)[i] != '\n' by {
            if i < d.len() {
                assert(decimal(n)[i] == d[i]);
            }
        }
    }
}

proof fn usize_decimal(n: nat)
    requires
        n <= usize::MAX,
    ensures
        decimal(n).len() <= 20,
        is_ascii_chars(decimal(n)),
        newline_free(decimal(n)),
{
    assert(pow10(20) == 100000000000000000000) by {
        reveal_with_fuel(pow10, 21);
    }
    decimal_facts(n, 20);
}

/// A finished line of at most `MAX_LINE_LEN` characters keeps a body good.
proof fn append_line(b: Seq<char>, seg: Seq<char>)
    requires
        body_ok(b),
        is_ascii_chars(seg),
        newline_free(seg),
        seg.len() <= MAX_LINE_LEN,
    ensures
        body_ok(b + seg + seq!['\n']),
{
    let c = b + seg + seq!['\n'];
    let n = b.len() as int;
    assert forall|i: int, j: int|
        0 <= i <= j <= c.len() && newline_free(#[trigger] c.subrange(i, j)) implies j - i
        <= MAX_LINE_LEN by {
        if j <= n {
            assert(c.subrange(i, j) =~= b.subrange(i, j));
        } else if i >= n {
            if j == c.len() && i < j {
                assert(c.subrange(i, j)[j - 1 - i] == c[j - 1]);
            }
        } else {
            assert(c.subrange(i, j)[n - 1 - i] == b[n - 1]);
        }
    }
    assert forall|k: int| 0 <= k < c.len() implies '\0' <= #[trigger] c[k] <= '\u{7f}' by {
        if k < n {
            assert(c[k] == b[k]);
        } else if k < n + seg.len() {
            assert(c[k] == seg[k - n]);
        }
    }
}

proof fn add_value_ok(b: Seq<char>, l: Seq<char>, v: nat)
    requires
        body_ok(b),
        line_ok(l),
        v <= usize::MAX,
    ensures
        body_ok(add_value(b, l, v).0),
        line_ok(add_value(b, l, v).1),
{
    let t = decimal(v);
    usize_decimal(v);
    is_ascii_chars_encode_utf8(l);
    is_ascii_chars_encode_utf8(t);
    let nl = t + seq![' '];
    assert forall|k: int| 0 <= k < nl.len() implies '\0' <= #[trigger] nl[k] <= '\u{7f}' && nl[k]
        != '\n' by {
        if k < t.len() {
            assert(nl[k] == t[k]);
        }
    }
    if byte_len(l) + byte_len(t) > MAX_LINE_LEN {
        let seg = without_trailing_space(l);
        assert forall|k: int| 0 <= k < seg.len() implies '\0' <= #[trigger] seg[k] <= '\u{7f}'
            && seg[k] != '\n' by {
            assert(seg[k] == l[k]);
        }
        append_line(b, seg);
    } else {
        let l2 = l + t + seq![' '];
        assert forall|k: int| 0 <= k < l2.len() implies '\0' <= #[trigger] l2[k] <= '\u{7f}'
            && l2[k] != '\n' by {
            if k < l.len() {
                assert(l2[k] == l[k]);
            } else if k < l.len() + t.len() {
                assert(l2[k] == t[k - l.len()]);
            }
        }
    }
}

proof fn add_values_ok(b: Seq<char>, l: Seq<char>, vs: Seq<nat>)
    requires
        body_ok(b),
        line_ok(l),
        forall|k: int| 0 <= k < vs.len() ==> vs[k] <= usize::MAX,
    ensures
        body_ok(add_values(b, l, vs).0),
        line_ok(add_values(b, l, vs).1),
    decreases vs.len(),
{
    if vs.len() > 0 {
        add_values_ok(b, l, vs.drop_last());
        let (b1, l1) = add_values(b, l, vs.drop_last());
        add_value_ok(b1, l1, vs.last());
    }
}

proof fn body_text_ok(rows: Seq<Seq<nat>>)
    requires
        forall|r: int, k: int| 0 <= r < rows.len() && 0 <= k < rows[r].len() ==> rows[r][k]
            <= usize::MAX,
    ensures
        body_ok(body_text(rows)),
    decreases rows.len(),
{
    if rows.len() > 0 {
        let prev = rows.drop_last();
        body_text_ok(prev);
        let vs = rows.last();
        assert(line_ok(Seq::<char>::empty()));
        add_values_ok(body_text(prev), seq![], vs);
        let (b1, l1) = add_values(body_text(prev), seq![], vs);
        let seg = without_trailing_space(l1);
        assert forall|k: int| 0 <= k < seg.len() implies '\0' <= #[trigger] seg[k] <= '\u{7f}'
            && seg[k] != '\n' by {
            assert(seg[k] == l1[k]);
        }
        append_line(b1, seg);
    }
}

/// The pixel data of rows of `usize` channel values has no line longer than
/// `MAX_LINE_LEN` bytes.
pub proof fn body_lines_fit(rows: Seq<Seq<nat>>)
    requires
        forall|r: int, k: int| 0 <= r < rows.len() && 0 <= k < rows[r].len() ==> rows[r][k]
            <= usize::MAX,
    ensures
        lines_within(body_text(rows), MAX_LINE_LEN as nat),
{
    let s = body_text(rows);
    body_text_ok(rows);
    assert forall|i: int, j: int|
        0 <= i <= j <= s.len() && newline_free(#[trigger] s.subrange(i, j)) implies byte_len(
        s.subrange(i, j),
    ) <= MAX_LINE_LEN by {
        let w = s.subrange(i, j);
        assert forall|k: int| 0 <= k < w.len() implies '\0' <= #[trigger] w[k] <= '\u{7f}' by {
            assert(w[k] == s[i + k]);
        }
        is_ascii_chars_encode_utf8(w);
    }
}

proof fn channel_values_bounded(pixels: Seq<Rgb>)
    ensures
        forall|k: int| 0 <= k < channel_values(pixels).len() ==> channel_values(pixels)[k]
            <= usize::MAX,
    decreases pixels.len(),
{
    if pixels.len() > 0 {
        let prev = pixels.drop_last();
        channel_values_bounded(prev);
        let p = pixels.last();
        let tail = seq![p.red as nat, p.green as nat, p.blue as nat];
        let all = channel_values(pixels);
        assert(all == channel_values(prev) + tail);
        assert forall|k: int| 0 <= k < all.len() implies all[k] <= usize::MAX by {
            if k < channel_values(prev).len() {
                assert(all[k] == channel_values(prev)[k]);
            } else {
                assert(all[k] == tail[k - channel_values(prev).len()]);
            }
        }
    }
}

impl PpmWrapper {
    /// The header: "P3", the width and height, and the largest channel value.
    pub fn generate_header(&self) -> (r: String)
        ensures
            r@ == header_text(
                self.spec_canvas().spec_width(),
                self.spec_canvas().spec_height(),
                self.spec_max_colour_value(),
            ),
    {
        let mut h = String::from_str("P3\n");
        push_decimal(&mut h, self.width());
        h.append(" ");
        push_decimal(&mut h, self.height());
        h.append("\n");
        push_decimal(&mut h, self.max_colour_value);
        h.append("\n");
        assert(h@ =~= header_text(
            self.spec_canvas().spec_width(),
            self.spec_canvas().spec_height(),
            self.spec_max_colour_value(),
        ));
        h
    }

    /// The pixel data: each row's channel values laid out on lines of at most
    /// the limit, every row starting on a new line, each line ended by a newline.
    pub fn generate_body(&self) -> (r: String)
        requires
            self.wf(),
        ensures
            r@ == body_text(self.rows()),
    {
        let ghost rows = self.rows();
        let ghost grid = self.canvas.grid();
        let w = self.canvas.width();
        let h = self.canvas.height();
        let mut body = String::new();
        let mut y: usize = 0;
        assert(rows.subrange(0, 0) =~= Seq::<Seq<nat>>::empty());
        while y < h
            invariant
                self.wf(),
                rows == self.rows(),
                grid == self.canvas.grid(),
                w == self.spec_canvas().spec_width(),
                h == self.spec_canvas().spec_height(),
                grid.len() == w * h,
                y <= h,
                body@ == body_text(rows.subrange(0, y as int)),
            decreases h - y,
        {
            let ghost start = y * w;
            let ghost body0 = body@;
            proof {
                assert(start + w <= w * h) by (nonlinear_arith)
                    requires
                        start == y * w,
                        y < h,
                ;
                assert(0 <= start) by (nonlinear_arith)
                    requires
                        start == y * w,
                ;
                assert(grid.subrange(start, start) =~= Seq::<Rgb>::empty());
                assert(add_values(body0, seq![], Seq::<nat>::empty()) == (body0, Seq::<char>::empty()));
            }
            let mut line = String::new();
            let mut x: usize = 0;
            while x < w
                invariant
                    self.wf(),
                    grid == self.canvas.grid(),
                    w == self.spec_canvas().spec_width(),
                    h == self.spec_canvas().spec_height(),
                    grid.len() == w * h,
                    y < h,
                    start == y * w,
                    0 <= start,
                    start + w <= w * h,
                    x <= w,
                    (body@, line@) == add_values(
                        body0,
                        seq![],
                        channel_values(grid.subrange(start, start + x)),
                    ),
                decreases w - x,
            {
                let pixel: Rgb = *self.canvas.pixel_at(x, y).unwrap();
                proof {
                    let prefix = grid.subrange(start, start + x);
                    let next = grid.subrange(start, start + x + 1);
                    assert(next.drop_last() =~= prefix);
                    assert(next.last() == pixel);
                    add_values_three(
                        body0,
                        seq![],
                        channel_values(prefix),
                        pixel.red as nat,
                        pixel.green as nat,
                        pixel.blue as nat,
                    );
                }
                add_to_line_or_body(&mut body, &mut line, pixel.red);
                add_to_line_or_body(&mut body, &mut line, pixel.green);
                add_to_line_or_body(&mut body, &mut line, pixel.blue);
                x += 1;
            }
            pop_trailing_space(&mut line);
            body.append(line.as_str());
            push_char(&mut body, '\n');
            proof {
                assert(rows[y as int] == self.row_values(y as int));
                assert(grid.subrange(start, start + w) == grid.subrange(start, start + x));
                assert(body@ =~= add_row(body0, rows[y as int]));
                assert(rows.subrange(0, y + 1).drop_last() =~= rows.subrange(0, y as int));
            }
            y += 1;
        }
        assert(rows.subrange(0, h as int) =~= rows);
        body
    }

    /// The whole file: header followed by pixel data.
    pub fn to_ppm(&self) -> (r: String)
        requires
            self.wf(),
        ensures
            r@ == header_text(
                self.spec_canvas().spec_width(),
                self.spec_canvas().spec_height(),
                self.spec_max_colour_value(),
            ) + body_text(self.rows()),
    {
        let header = self.generate_header();
        let body = self.generate_body();
        let r = header.concat(body.as_str());
        r
    }
}

impl PpmWrapper {
    /// No line of the pixel data that `generate_body` produces is longer than
    /// `MAX_LINE_LEN` bytes.
    pub proof fn generated_lines_fit(&self)
        ensures
            lines_within(body_text(self.rows()), MAX_LINE_LEN as nat),
    {
        let rows = self.rows();
        assert forall|r: int, k: int| 0 <= r < rows.len() && 0 <= k < rows[r].len() implies rows[r][k]
            <= usize::MAX by {
            let c = self.spec_canvas();
            let w = c.spec_width() as int;
            channel_values_bounded(c.grid().subrange(r * w, r * w + w));
        }
        body_lines_fit(rows);
    }
}

} // verus!
