//! Presentation adapter: formats the state of a dive computer as the text
//! block that the display shows.
//!
//! The text is written into a buffer of fixed capacity. Every write is proved
//! to fit, so the text is never cut short.

use crate::clock::{whole_hours, whole_minutes, whole_seconds};
use crate::computer::{div_toward_zero, DiveComputer, DiveState, Unit};
use arraystring::typenum::U200;
use arraystring::ArrayString;
use num::FromPrimitive;
use vstd::pervasive::unreached;
use vstd::prelude::*;
use vstd::string::StringSliceAdditionalSpecFns;
use vstd::utf8::{encode_utf8, is_ascii_chars, is_ascii_chars_encode_utf8};

verus! {

/// Number of bytes that the text buffer holds.
pub const TEXT_CAPACITY: usize = 200;

/// Millimetres in a foot, as the display counts them.
pub const MM_PER_FOOT: u32 = 305;

/// A text buffer of `TEXT_CAPACITY` bytes: an `ArrayString` of the
/// `arraystring` crate.
#[verifier::external_body]
pub struct TextBuffer {
    text: ArrayString<U200>,
}

/// The characters that a text buffer holds.
pub uninterp spec fn buffer_text(buffer: TextBuffer) -> Seq<char>;

impl View for TextBuffer {
    type V = Seq<char>;

    open spec fn view(&self) -> Seq<char> {
        buffer_text(*self)
    }
}

impl TextBuffer {
    /// Whether the buffer holds plain ASCII and has room for `extra` more
    /// characters of it.
    pub open spec fn has_room(&self, extra: nat) -> bool {
        is_ascii_chars(self@) && self@.len() + extra <= TEXT_CAPACITY
    }
}

/// An empty buffer, made by `ArrayString::new`.
#[verifier::external_body]
fn empty_buffer() -> (buffer: TextBuffer)
    ensures
        buffer_text(buffer) == Seq::<char>::empty(),
{
    TextBuffer { text: ArrayString::new() }
}

/// Empties the buffer with `ArrayString::clear`.
#[verifier::external_body]
fn clear_buffer(buffer: &mut TextBuffer)
    ensures
        buffer_text(*final(buffer)) == Seq::<char>::empty(),
{
    buffer.text.clear();
}

/// Appends `piece` with `ArrayString::try_push_str`, which appends the whole
/// piece where the bytes already held and those of the piece together fit the
/// capacity, and otherwise leaves the buffer as it is and reports an error.
#[verifier::external_body]
fn try_push(buffer: &mut TextBuffer, piece: &str) -> (pushed: bool)
    ensures
        pushed == (encode_utf8(buffer_text(*old(buffer))).len() + piece.spec_bytes().len()
            <= TEXT_CAPACITY),
        pushed ==> buffer_text(*final(buffer)) == buffer_text(*old(buffer)) + piece@,
        !pushed ==> buffer_text(*final(buffer)) == buffer_text(*old(buffer)),
{
    buffer.text.try_push_str(piece).is_ok()
}

/// The text of the buffer, borrowed with `ArrayString::as_str`.
#[verifier::external_body]
fn buffer_str(buffer: &TextBuffer) -> (text: &str)
    ensures
        text@ == buffer_text(*buffer),
{
    buffer.text.as_str()
}

/// Converts with `num`'s `FromPrimitive::from_u32` for `i64`, which holds
/// every `u32`.
#[verifier::external_body]
fn i64_from_u32(value: u32) -> (converted: Option<i64>)
    ensures
        converted == Some(value as i64),
{
    FromPrimitive::from_u32(value)
}

/// The decimal digit of a value below ten.
pub open spec fn digit(value: nat) -> char {
    "0123456789"@[value as int]
}

/// The decimal digits of a number, without leading zeros.
pub open spec fn decimal(value: nat) -> Seq<char>
    decreases value,
{
    if value < 10 {
        seq![digit(value)]
    } else {
        decimal(value / 10).push(digit(value % 10))
    }
}

/// The decimal digits of an integer, after a minus sign where it is negative.
pub open spec fn signed_decimal(value: int) -> Seq<char> {
    if value < 0 {
        seq!['-'] + decimal((-value) as nat)
    } else {
        decimal(value as nat)
    }
}

/// `count` times the character `fill`.
pub open spec fn repeated(fill: char, count: nat) -> Seq<char> {
    Seq::new(count, |i: int| fill)
}

/// `text` moved to the right end of a field of `width` characters, the left
/// filled with `fill`; a longer text stays whole.
pub open spec fn right_aligned(text: Seq<char>, width: nat, fill: char) -> Seq<char> {
    if text.len() >= width {
        text
    } else {
        repeated(fill, (width - text.len()) as nat) + text
    }
}

/// `text` at the left end of a field of `width` characters, the right filled
/// with spaces; a longer text stays whole.
pub open spec fn left_aligned(text: Seq<char>, width: nat) -> Seq<char> {
    if text.len() >= width {
        text
    } else {
        text + repeated(' ', (width - text.len()) as nat)
    }
}

/// A length in feet, rounded toward zero.
pub open spec fn feet(length_mm: int) -> int {
    div_toward_zero(length_mm, MM_PER_FOOT as int)
}

/// The depth as shown: whole metres, or feet.
pub open spec fn shown_depth(state: DiveState) -> nat {
    match state.unit {
        Unit::Metric => state.depth_mm / 1000,
        Unit::Imperial => feet(state.depth_mm as int) as nat,
    }
}

/// The rate as shown: metres per minute, or feet per minute.
pub open spec fn shown_rate(state: DiveState) -> int {
    match state.unit {
        Unit::Metric => state.rate,
        Unit::Imperial => feet(state.rate_mm_per_min()),
    }
}

/// Width of the depth's number field: one less in feet, whose label is one
/// longer.
pub open spec fn depth_width(unit: Unit) -> nat {
    match unit {
        Unit::Metric => 12,
        Unit::Imperial => 11,
    }
}

/// Width of the rate's number field.
pub open spec fn rate_width(unit: Unit) -> nat {
    match unit {
        Unit::Metric => 11,
        Unit::Imperial => 10,
    }
}

/// The title and the empty line under it.
pub open spec fn title_lines() -> Seq<char> {
    "DiveMaster\n"@ + "\n"@
}

/// The depth line.
pub open spec fn depth_line(state: DiveState) -> Seq<char> {
    "DEPTH: "@ + right_aligned(decimal(shown_depth(state)), depth_width(state.unit), ' ')
        + state.unit.text() + "\n"@
}

/// The rate line.
pub open spec fn rate_line(state: DiveState) -> Seq<char> {
    "RATE: "@ + right_aligned(signed_decimal(shown_rate(state)), rate_width(state.unit), ' ')
        + state.unit.text() + "/M\n"@
}

/// The air line, in whole litres.
pub open spec fn air_line(state: DiveState) -> Seq<char> {
    "AIR: "@ + right_aligned(decimal(state.air_cl / 100), 14, ' ') + "L\n"@
}

/// The line of the elapsed dive time, as hours, minutes and seconds.
pub open spec fn time_line(state: DiveState) -> Seq<char> {
    "EDT: "@ + right_aligned(decimal(state.elapsed_ms / 3_600_000), 9, ' ') + ":"@
        + right_aligned(decimal((state.elapsed_ms / 60_000) % 60), 2, '0') + ":"@ + right_aligned(
        decimal((state.elapsed_ms / 1000) % 60),
        2,
        '0',
    ) + "\n"@
}

/// The alarm line: the label ends in the last column of the other lines, and
/// spaces after it wipe what a longer label left behind; an empty line ends
/// the block.
pub open spec fn alarm_line(state: DiveState) -> Seq<char> {
    "ALARM: "@ + repeated(' ', (13 - state.alarm().text().len()) as nat) + left_aligned(
        state.alarm().text(),
        13,
    ) + "\n"@ + "\n"@
}

/// The whole text block for a state.
pub open spec fn snapshot(state: DiveState) -> Seq<char> {
    title_lines() + depth_line(state) + rate_line(state) + air_line(state) + time_line(state)
        + alarm_line(state)
}

/// Ten to the power of `digits`.
pub open spec fn pow10(digits: nat) -> nat
    decreases digits,
{
    if digits == 0 {
        1
    } else {
        10 * pow10((digits - 1) as nat)
    }
}

/// A number below ten to the `digits` has at most `digits` digits, and every
/// number has at least one.
pub proof fn lemma_decimal_len(value: nat, digits: nat)
    requires
        digits >= 1,
        value < pow10(digits),
    ensures
        1 <= decimal(value).len() <= digits,
    decreases digits,
{
    reveal_with_fuel(pow10, 2);
    if value >= 10 {
        assert(digits >= 2);
        lemma_decimal_len(value / 10, (digits - 1) as nat);
    }
}

/// The digits of a number with its sign in front.
pub open spec fn number(negative: bool, magnitude: nat) -> Seq<char> {
    if negative {
        seq!['-'] + decimal(magnitude)
    } else {
        decimal(magnitude)
    }
}

/// A field is as long as its width, or as its text where that is longer.
pub proof fn lemma_right_aligned_len(text: Seq<char>, width: nat, fill: char)
    ensures
        right_aligned(text, width, fill).len() == if text.len() >= width {
            text.len()
        } else {
            width
        },
{
}

/// Appends a piece that is known to fit.
fn push(buffer: &mut TextBuffer, piece: &str)
    requires
        old(buffer).has_room(piece@.len()),
        is_ascii_chars(piece@),
    ensures
        final(buffer)@ == old(buffer)@ + piece@,
        is_ascii_chars(final(buffer)@),
{
    proof {
        is_ascii_chars_encode_utf8(buffer@);
        is_ascii_chars_encode_utf8(piece@);
    }
    if !try_push(buffer, piece) {
        // Never reached: a piece that does not fit would be a fatal fault,
        // not a text cut short.
        unreached()
    }
}

/// Appends `count` times the one character of `glyph`.
fn push_repeated(buffer: &mut TextBuffer, glyph: &str, count: usize)
    requires
        old(buffer).has_room(count as nat),
        glyph@.len() == 1,
        is_ascii_chars(glyph@),
    ensures
        final(buffer)@ == old(buffer)@ + repeated(glyph@[0], count as nat),
        is_ascii_chars(final(buffer)@),
{
    let ghost start = buffer@;
    let mut done: usize = 0;
    while done < count
        invariant
            done <= count,
            buffer@ == start + repeated(glyph@[0], done as nat),
            is_ascii_chars(buffer@),
            start.len() + count <= TEXT_CAPACITY,
            glyph@.len() == 1,
            is_ascii_chars(glyph@),
        decreases count - done,
    {
        push(buffer, glyph);
        done = done + 1;
        assert(buffer@ =~= start + repeated(glyph@[0], done as nat));
    }
}

/// The text of one decimal digit.
fn digit_text(value: u64) -> (text: &'static str)
    requires
        value < 10,
    ensures
        text@ == seq![digit(value as nat)],
        is_ascii_chars(text@),
{
    proof {
        reveal_strlit("0123456789");
        reveal_strlit("0");
        reveal_strlit("1");
        reveal_strlit("2");
        reveal_strlit("3");
        reveal_strlit("4");
        reveal_strlit("5");
        reveal_strlit("6");
        reveal_strlit("7");
        reveal_strlit("8");
        reveal_strlit("9");
    }
    match value {
        0 => "0",
        1 => "1",
        2 => "2",
        3 => "3",
        4 => "4",
        5 => "5",
        6 => "6",
        7 => "7",
        8 => "8",
        _ => "9",
    }
}

/// Number of decimal digits of a number.
fn decimal_len(value: u64) -> (len: usize)
    ensures
        len == decimal(value as nat).len(),
        1 <= len <= 20,
    decreases value,
{
    proof {
        reveal_with_fuel(pow10, 21);
        lemma_decimal_len(value as nat, 20);
    }
    if value < 10 {
        1
    } else {
        1 + decimal_len(value / 10)
    }
}

/// Appends the decimal digits of a number.
fn push_decimal(buffer: &mut TextBuffer, value: u64)
    requires
        old(buffer).has_room(decimal(value as nat).len()),
    ensures
        final(buffer)@ == old(buffer)@ + decimal(value as nat),
        is_ascii_chars(final(buffer)@),
    decreases value,
{
    if value >= 10 {
        push_decimal(buffer, value / 10);
    }
    push(buffer, digit_text(value % 10));
}

/// Appends a number at the right end of a field of `width` characters that
/// is filled with the one character of `glyph`.
fn push_number(buffer: &mut TextBuffer, negative: bool, magnitude: u64, width: usize, glyph: &str)
    requires
        old(buffer).has_room(
            right_aligned(number(negative, magnitude as nat), width as nat, glyph@[0]).len(),
        ),
        glyph@.len() == 1,
        is_ascii_chars(glyph@),
    ensures
        final(buffer)@ == old(buffer)@ + right_aligned(
            number(negative, magnitude as nat),
            width as nat,
            glyph@[0],
        ),
        is_ascii_chars(final(buffer)@),
{
    let ghost start = buffer@;
    let ghost text = number(negative, magnitude as nat);
    let digits = decimal_len(magnitude);
    let len = if negative {
        digits + 1
    } else {
        digits
    };
    if len < width {
        push_repeated(buffer, glyph, width - len);
    }
    let ghost filled = buffer@;
    if negative {
        proof {
            reveal_strlit("-");
        }
        push(buffer, "-");
        assert("-"@ =~= seq!['-']);
    }
    push_decimal(buffer, magnitude);
    assert(buffer@ =~= filled + text);
    assert(buffer@ =~= start + right_aligned(text, width as nat, glyph@[0]));
}

/// The title takes twelve characters.
pub proof fn lemma_title_lines()
    ensures
        title_lines().len() == 12,
        is_ascii_chars(title_lines()),
{
    reveal_strlit("DiveMaster\n");
    reveal_strlit("\n");
}

/// The depth line is 21 characters long in either unit.
pub proof fn lemma_depth_line(state: DiveState)
    requires
        state.valid(),
    ensures
        decimal(shown_depth(state)).len() <= 7,
        depth_line(state).len() == 21,
{
    reveal_strlit("DEPTH: ");
    reveal_strlit("M");
    reveal_strlit("FT");
    reveal_strlit("\n");
    reveal_with_fuel(pow10, 8);
    lemma_decimal_len(shown_depth(state), 7);
}

/// The rate line is 21 characters long in either unit.
pub proof fn lemma_rate_line(state: DiveState)
    requires
        state.valid(),
    ensures
        -163 <= shown_rate(state) <= 163,
        signed_decimal(shown_rate(state)).len() <= 4,
        rate_line(state).len() == 21,
{
    reveal_strlit("RATE: ");
    reveal_strlit("M");
    reveal_strlit("FT");
    reveal_strlit("/M\n");
    reveal_with_fuel(pow10, 4);
    let shown = shown_rate(state);
    if shown < 0 {
        lemma_decimal_len((-shown) as nat, 3);
    } else {
        lemma_decimal_len(shown as nat, 3);
    }
}

/// The air line is 21 characters long.
pub proof fn lemma_air_line(state: DiveState)
    requires
        state.valid(),
    ensures
        decimal(state.air_cl / 100).len() <= 4,
        air_line(state).len() == 21,
{
    reveal_strlit("AIR: ");
    reveal_strlit("L\n");
    reveal_with_fuel(pow10, 5);
    lemma_decimal_len(state.air_cl / 100, 4);
}

/// The time line is 21 characters long until the hours need more than nine
/// digits, and never longer than 25.
pub proof fn lemma_time_line(state: DiveState)
    requires
        state.valid(),
    ensures
        21 <= time_line(state).len() <= 25,
        state.elapsed_ms / 3_600_000 < 1_000_000_000 ==> time_line(state).len() == 21,
{
    reveal_strlit("EDT: ");
    reveal_strlit(":");
    reveal_strlit("\n");
    reveal_with_fuel(pow10, 14);
    lemma_decimal_len(state.elapsed_ms / 3_600_000, 13);
    if state.elapsed_ms / 3_600_000 < 1_000_000_000 {
        lemma_decimal_len(state.elapsed_ms / 3_600_000, 9);
    }
    lemma_decimal_len((state.elapsed_ms / 60_000) % 60, 2);
    lemma_decimal_len((state.elapsed_ms / 1000) % 60, 2);
}

/// The alarm line holds the label, twice the spaces that the label leaves of
/// thirteen columns, and nine characters more.
pub proof fn lemma_alarm_line(state: DiveState)
    ensures
        3 <= state.alarm().text().len() <= 6,
        alarm_line(state).len() == 35 - state.alarm().text().len(),
{
    reveal_strlit("ALARM: ");
    reveal_strlit("HIGH");
    reveal_strlit("MEDIUM");
    reveal_strlit("LOW");
    reveal_strlit("NONE");
    reveal_strlit("\n");
}

/// The text block of every valid state fits the buffer.
pub proof fn lemma_snapshot_fits(state: DiveState)
    requires
        state.valid(),
    ensures
        snapshot(state).len() <= 132,
        snapshot(state).len() <= TEXT_CAPACITY,
{
    lemma_title_lines();
    lemma_depth_line(state);
    lemma_rate_line(state);
    lemma_air_line(state);
    lemma_time_line(state);
    lemma_alarm_line(state);
}

/// A length in feet, rounded toward zero.
fn mm2ft(length_mm: i64) -> (length_ft: i64)
    ensures
        length_ft == feet(length_mm as int),
{
    let per_foot = i64_from_u32(MM_PER_FOOT).unwrap();
    length_mm / per_foot
}

/// Appends the title and the empty line under it.
fn push_title_lines(buffer: &mut TextBuffer)
    requires
        old(buffer).has_room(12),
    ensures
        final(buffer)@ == old(buffer)@ + title_lines(),
        is_ascii_chars(final(buffer)@),
{
    let ghost start = buffer@;
    proof {
        reveal_strlit("DiveMaster\n");
        reveal_strlit("\n");
    }
    push(buffer, "DiveMaster\n");
    push(buffer, "\n");
    assert(buffer@ =~= start + title_lines());
}

/// Appends the depth line.
fn push_depth_line(buffer: &mut TextBuffer, computer: &DiveComputer)
    requires
        old(buffer).has_room(21),
    ensures
        final(buffer)@ == old(buffer)@ + depth_line(computer@),
        is_ascii_chars(final(buffer)@),
{
    let ghost start = buffer@;
    let unit = computer.unit();
    let depth_mm = computer.depth();
    let (shown, width): (u64, usize) = match unit {
        Unit::Metric => ((depth_mm / 1000) as u64, 12),
        Unit::Imperial => (mm2ft(depth_mm as i64) as u64, 11),
    };
    proof {
        reveal_strlit("DEPTH: ");
        reveal_strlit(" ");
        reveal_strlit("M");
        reveal_strlit("FT");
        reveal_strlit("\n");
        lemma_depth_line(computer@);
        lemma_right_aligned_len(decimal(shown as nat), width as nat, ' ');
    }
    push(buffer, "DEPTH: ");
    push_number(buffer, false, shown, width, " ");
    push(buffer, unit.label());
    push(buffer, "\n");
    assert(buffer@ =~= start + depth_line(computer@));
}

/// Appends the rate line.
fn push_rate_line(buffer: &mut TextBuffer, computer: &DiveComputer)
    requires
        old(buffer).has_room(21),
    ensures
        final(buffer)@ == old(buffer)@ + rate_line(computer@),
        is_ascii_chars(final(buffer)@),
{
    let ghost start = buffer@;
    let unit = computer.unit();
    let rate = computer.rate();
    let (shown, width): (i64, usize) = match unit {
        Unit::Metric => (rate as i64, 11),
        Unit::Imperial => (mm2ft((rate as i64) * 1000), 10),
    };
    let negative = shown < 0;
    let magnitude: u64 = if negative {
        (-shown) as u64
    } else {
        shown as u64
    };
    proof {
        reveal_strlit("RATE: ");
        reveal_strlit(" ");
        reveal_strlit("M");
        reveal_strlit("FT");
        reveal_strlit("/M\n");
        lemma_rate_line(computer@);
        assert(number(negative, magnitude as nat) == signed_decimal(shown_rate(computer@)));
        lemma_right_aligned_len(number(negative, magnitude as nat), width as nat, ' ');
    }
    push(buffer, "RATE: ");
    push_number(buffer, negative, magnitude, width, " ");
    push(buffer, unit.label());
    push(buffer, "/M\n");
    assert(buffer@ =~= start + rate_line(computer@));
}

/// Appends the air line.
fn push_air_line(buffer: &mut TextBuffer, computer: &DiveComputer)
    requires
        old(buffer).has_room(21),
    ensures
        final(buffer)@ == old(buffer)@ + air_line(computer@),
        is_ascii_chars(final(buffer)@),
{
    let ghost start = buffer@;
    let litres = (computer.air() / 100) as u64;
    proof {
        reveal_strlit("AIR: ");
        reveal_strlit(" ");
        reveal_strlit("L\n");
        lemma_air_line(computer@);
        lemma_right_aligned_len(decimal(litres as nat), 14, ' ');
    }
    push(buffer, "AIR: ");
    push_number(buffer, false, litres, 14, " ");
    push(buffer, "L\n");
    assert(buffer@ =~= start + air_line(computer@));
}

/// Appends the line of the elapsed dive time.
fn push_time_line(buffer: &mut TextBuffer, computer: &DiveComputer)
    requires
        old(buffer).has_room(25),
    ensures
        final(buffer)@ == old(buffer)@ + time_line(computer@),
        is_ascii_chars(final(buffer)@),
{
    let ghost start = buffer@;
    let elapsed_ms = computer.elapsed_ms();
    let hours = whole_hours(elapsed_ms);
    let minutes = whole_minutes(elapsed_ms) % 60;
    let seconds = whole_seconds(elapsed_ms) % 60;
    proof {
        reveal_strlit("EDT: ");
        reveal_strlit(" ");
        reveal_strlit("0");
        reveal_strlit(":");
        reveal_strlit("\n");
        reveal_with_fuel(pow10, 14);
        lemma_decimal_len(hours as nat, 13);
        lemma_decimal_len(minutes as nat, 2);
        lemma_decimal_len(seconds as nat, 2);
        lemma_right_aligned_len(decimal(hours as nat), 9, ' ');
        lemma_right_aligned_len(decimal(minutes as nat), 2, '0');
        lemma_right_aligned_len(decimal(seconds as nat), 2, '0');
    }
    push(buffer, "EDT: ");
    push_number(buffer, false, hours, 9, " ");
    push(buffer, ":");
    push_number(buffer, false, minutes, 2, "0");
    push(buffer, ":");
    push_number(buffer, false, seconds, 2, "0");
    push(buffer, "\n");
    assert(buffer@ =~= start + time_line(computer@));
}

/// Appends the alarm line and the empty line that ends the block.
fn push_alarm_line(buffer: &mut TextBuffer, computer: &DiveComputer)
    requires
        old(buffer).has_room(32),
    ensures
        final(buffer)@ == old(buffer)@ + alarm_line(computer@),
        is_ascii_chars(final(buffer)@),
{
    let ghost start = buffer@;
    let alarm = computer.get_alarm();
    proof {
        reveal_strlit("ALARM: ");
        reveal_strlit(" ");
        reveal_strlit("HIGH");
        reveal_strlit("MEDIUM");
        reveal_strlit("LOW");
        reveal_strlit("NONE");
        reveal_strlit("\n");
    }
    let margin = 13 - alarm.display_len();
    push(buffer, "ALARM: ");
    push_repeated(buffer, " ", margin);
    push(buffer, alarm.label());
    push_repeated(buffer, " ", margin);
    push(buffer, "\n");
    push(buffer, "\n");
    assert(buffer@ =~= start + alarm_line(computer@));
}

/// The presentation adapter: it owns the text buffer and fills it with the
/// text block of a dive computer.
pub struct Presenter {
    buffer: TextBuffer,
}

impl View for Presenter {
    type V = Seq<char>;

    closed spec fn view(&self) -> Seq<char> {
        self.buffer@
    }
}

impl Presenter {
    /// An adapter with an empty text.
    pub fn new() -> (presenter: Self)
        ensures
            presenter@ == Seq::<char>::empty(),
    {
        Presenter { buffer: empty_buffer() }
    }

    /// Replaces the text by the text block of `computer`.
    pub fn render(&mut self, computer: &DiveComputer)
        ensures
            final(self)@ == snapshot(computer@),
            final(self)@.len() <= TEXT_CAPACITY,
    {
        let _ = computer.depth();
        proof {
            lemma_snapshot_fits(computer@);
            lemma_title_lines();
            lemma_depth_line(computer@);
            lemma_rate_line(computer@);
            lemma_air_line(computer@);
            lemma_time_line(computer@);
            lemma_alarm_line(computer@);
        }
        clear_buffer(&mut self.buffer);
        push_title_lines(&mut self.buffer);
        push_depth_line(&mut self.buffer, computer);
        push_rate_line(&mut self.buffer, computer);
        push_air_line(&mut self.buffer, computer);
        push_time_line(&mut self.buffer, computer);
        push_alarm_line(&mut self.buffer, computer);
        assert(self.buffer@ =~= snapshot(computer@));
    }

    /// The text as it was last rendered.
    pub fn text(&self) -> (text: &str)
        ensures
            text@ == self@,
    {
        buffer_str(&self.buffer)
    }
}

} // verus!
