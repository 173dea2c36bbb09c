//! The whole-number side of pedal parameters: whether an integer value is allowed, and where a
//! flip-flop update sends an integer parameter; and the number a value display string is typed
//! with.

use vstd::prelude::*;

use crate::text::push_char;

verus! {

/// An integer value is allowed when it lies within whatever bounds the parameter has.
pub open spec fn spec_int_is_valid(value: i16, min: Option<i16>, max: Option<i16>) -> bool {
    &&& (min matches Some(m) ==> value >= m)
    &&& (max matches Some(m) ==> value <= m)
}

/// Whether an integer value lies within the parameter's integer bounds; a missing bound allows
/// anything on its side.
pub fn int_is_valid(value: i16, min: Option<i16>, max: Option<i16>) -> (valid: bool)
    ensures
        valid == spec_int_is_valid(value, min, max),
{
    if let Some(min) = min {
        if value < min {
            return false;
        }
    }
    if let Some(max) = max {
        if value > max {
            return false;
        }
    }
    true
}

/// Whether an integer value sits in the upper half of its range: at least half of the way from
/// `min` to `max`. An empty range has no upper half.
pub open spec fn in_upper_half(value: int, min: int, max: int) -> bool {
    let offset = value - min;
    let span = max - min;
    span != 0 && if span > 0 {
        2 * offset >= span
    } else {
        2 * offset <= span
    }
}

/// Integer bounds are inclusive: a value is allowed exactly when it is at or above the minimum
/// and at or below the maximum, so both ends of the range are allowed; a missing bound allows
/// everything on its side.
pub proof fn lemma_int_bounds_inclusive(value: i16, min: i16, max: i16)
    ensures
        spec_int_is_valid(value, Some(min), Some(max)) <==> (min <= value && value <= max),
        spec_int_is_valid(value, Some(min), None) <==> min <= value,
        spec_int_is_valid(value, None, Some(max)) <==> value <= max,
        spec_int_is_valid(value, None, None),
{
}

/// The value a flip-flop update gives an integer parameter: the bottom of its range when it is in
/// the upper half of it, the top otherwise.
pub open spec fn spec_flip_flop_int(value: i16, min: i16, max: i16) -> i16 {
    if in_upper_half(value as int, min as int, max as int) {
        min
    } else {
        max
    }
}

/// The value a flip-flop update gives an integer parameter: the bottom of its range when the
/// value is at least half way up it, the top otherwise.
pub fn flip_flop_int(value: i16, min: i16, max: i16) -> (flipped: i16)
    requires
        i16::MIN <= value - min <= i16::MAX,
        i16::MIN <= max - min <= i16::MAX,
    ensures
        flipped == spec_flip_flop_int(value, min, max),
{
    let offset: i32 = (value - min) as i32;
    let span: i32 = (max - min) as i32;
    let is_high = span != 0 && if span > 0 {
        2 * offset >= span
    } else {
        2 * offset <= span
    };
    if is_high {
        min
    } else {
        max
    }
}

/// A flip-flop update moves an integer parameter between the ends of its range: from the
/// bottom to the top, from the top to the bottom, and so back to where it started.
pub proof fn lemma_flip_flop_int_toggles(min: i16, max: i16)
    requires
        min < max,
    ensures
        spec_flip_flop_int(min, min, max) == max,
        spec_flip_flop_int(max, min, max) == min,
        spec_flip_flop_int(spec_flip_flop_int(min, min, max), min, max) == min,
{
}

/// Whether a character has the Unicode `White_Space` property, as `char::is_whitespace` tests:
/// the controls U+0009 to U+000D, the space, U+0085, the no-break space U+00A0, U+1680, the
/// spaces U+2000 to U+200A, the line and paragraph separators U+2028 and U+2029, U+202F, U+205F
/// and the ideographic space U+3000.
pub open spec fn white_space(c: char) -> bool {
    let u = c as u32;
    ||| 0x09 <= u <= 0x0D
    ||| u == 0x20
    ||| u == 0x85
    ||| u == 0xA0
    ||| u == 0x1680
    ||| 0x2000 <= u <= 0x200A
    ||| u == 0x2028
    ||| u == 0x2029
    ||| u == 0x202F
    ||| u == 0x205F
    ||| u == 0x3000
}

/// Whether a character is white space, as `char::is_whitespace` tests: whether it has the
/// Unicode `White_Space` property.
fn is_whitespace(c: char) -> (w: bool)
    ensures
        w == white_space(c),
{
    let u = c as u32;
    (0x09 <= u && u <= 0x0D) || u == 0x20 || u == 0x85 || u == 0xA0 || u == 0x1680
        || (0x2000 <= u && u <= 0x200A) || u == 0x2028 || u == 0x2029 || u == 0x202F
        || u == 0x205F || u == 0x3000
}

/// A text with the white space at its start dropped.
pub open spec fn trim_start_chars(s: Seq<char>) -> Seq<char>
    decreases s.len(),
{
    if s.len() > 0 && white_space(s[0]) {
        trim_start_chars(s.drop_first())
    } else {
        s
    }
}

/// Whether a character can be part of the number a display string starts with.
pub open spec fn is_number_char(c: char) -> bool {
    ('0' <= c && c <= '9') || c == '.' || c == '-' || c == '+'
}

/// The characters at the start of a text up to the first one that cannot be part of a number.
pub open spec fn number_run(s: Seq<char>) -> Seq<char>
    decreases s.len(),
{
    if s.len() > 0 && is_number_char(s[0]) {
        seq![s[0]] + number_run(s.drop_first())
    } else {
        Seq::empty()
    }
}

/// Skipping white space one character at a time reaches the same text as trimming it all.
proof fn lemma_trim_start_step(s: Seq<char>, i: int)
    requires
        0 <= i < s.len(),
        white_space(s[i]),
    ensures
        trim_start_chars(s.skip(i)) == trim_start_chars(s.skip(i + 1)),
{
    assert(s.skip(i).drop_first() =~= s.skip(i + 1));
}

/// Reading one more number character extends the run read so far.
proof fn lemma_number_run_step(s: Seq<char>, i: int)
    requires
        0 <= i <= s.len(),
        forall|k: int| 0 <= k < i ==> #[trigger] is_number_char(s[k]),
    ensures
        number_run(s) == s.take(i) + number_run(s.skip(i)),
    decreases i,
{
    if i > 0 {
        lemma_number_run_step(s.drop_first(), i - 1);
        assert(s.drop_first().take(i - 1) =~= s.take(i).drop_first());
        assert(s.drop_first().skip(i - 1) =~= s.skip(i));
        assert(seq![s[0]] + s.take(i).drop_first() =~= s.take(i));
        assert(number_run(s) == seq![s[0]] + number_run(s.drop_first()));
        assert((seq![s[0]] + s.drop_first().take(i - 1)) + number_run(s.skip(i))
            =~= seq![s[0]] + (s.drop_first().take(i - 1) + number_run(s.skip(i))));
    } else {
        assert(s.skip(0) =~= s);
        assert(s.take(0) + number_run(s) =~= number_run(s));
    }
}

/// The number a parameter's value display string is typed with, as text, and whether the string
/// is a percentage: what follows any white space at the start, up to the first character that
/// cannot be part of a number, so that "6000.0 Hz" is read as "6000.0", "+6.0 dB" as "+6.0" and
/// "50%" as "50" and a percentage. Text that does not start with a number, such as "Off", gives
/// no digits at all.
pub fn value_display_number(text: &str) -> (res: (String, bool))
    ensures
        res.0@ == number_run(trim_start_chars(text@)),
        res.1 == text@.contains('%'),
{
    let ghost s = text@;
    let ghost mut start: int = 0;
    let mut percent = false;
    let mut trimming = true;
    let mut number = String::new();
    let mut reading = true;
    assert(s.skip(0) =~= s);
    for c in it: text.chars()
        invariant
            it.seq() == s,
            0 <= start <= it.index() <= s.len(),
            trimming ==> start == it.index(),
            trimming ==> reading && number@.len() == 0,
            trim_start_chars(s) == trim_start_chars(s.skip(start)),
            !trimming ==> start < s.len() && !white_space(s[start]),
            !trimming ==> trim_start_chars(s.skip(start)) == s.skip(start),
            !trimming && reading ==> forall|k: int| start <= k < it.index() ==> #[trigger] is_number_char(s[k]),
            !trimming && reading ==> number@ == s.subrange(start, it.index() as int),
            !trimming && !reading ==> number@ == number_run(s.skip(start)),
            percent == s.take(it.index() as int).contains('%'),
    {
        let ghost i = it.index() as int;
        proof {
            let before = s.take(i);
            let after = s.take(i + 1);
            if before.contains('%') {
                let j = choose|j: int| 0 <= j < before.len() && before[j] == '%';
                assert(after[j] == '%');
            }
            if c == '%' {
                assert(after[i] == '%');
            }
            if after.contains('%') && c != '%' {
                let j = choose|j: int| 0 <= j < after.len() && after[j] == '%';
                assert(before[j] == '%');
            }
        }
        if c == '%' {
            percent = true;
        }
        if trimming {
            if is_whitespace(c) {
                proof {
                    lemma_trim_start_step(s, i);
                    start = start + 1;
                }
            } else {
                trimming = false;
                proof {
                    assert(s.skip(i).drop_first() =~= s.skip(i + 1));
                }
            }
        }
        if !trimming && reading {
            if ('0' <= c && c <= '9') || c == '.' || c == '-' || c == '+' {
                push_char(&mut number, c);
                assert(number@ =~= s.subrange(start, i + 1));
            } else {
                reading = false;
                proof {
                    let t = s.skip(start);
                    let n = i - start;
                    assert forall|k: int| 0 <= k < n implies #[trigger] is_number_char(t[k]) by {
                        assert(t[k] == s[start + k]);
                    }
                    lemma_number_run_step(t, n);
                    assert(t.skip(n)[0] == c);
                    assert(number_run(t.skip(n)) =~= Seq::<char>::empty());
                    assert(t.take(n) =~= s.subrange(start, i));
                    assert(number@ =~= number_run(t));
                }
            }
        }
    }
    proof {
        assert(s.take(s.len() as int) =~= s);
        if trimming {
            assert(s.skip(start) =~= Seq::<char>::empty());
            assert(number_run(trim_start_chars(s)) =~= Seq::<char>::empty());
        } else if reading {
            let t = s.skip(start);
            let n = s.len() - start;
            assert forall|k: int| 0 <= k < n implies #[trigger] is_number_char(t[k]) by {
                assert(t[k] == s[start + k]);
            }
            lemma_number_run_step(t, n);
            assert(t.skip(n) =~= Seq::<char>::empty());
            assert(t.take(n) =~= s.subrange(start, s.len() as int));
            assert(number@ =~= number_run(t));
        }
    }
    (number, percent)
}

} // verus!
