//! Text of the `<emotion_state>` block that is handed to a language model.
use vstd::prelude::*;
use vstd::string::*;
use crate::decay_schedule::{trunc_div, trunc_rem};

verus! {

/// The character of the decimal digit `d`.
pub open spec fn digit_char(d: int) -> char {
    if d == 0 {
        '0'
    } else if d == 1 {
        '1'
    } else if d == 2 {
        '2'
    } else if d == 3 {
        '3'
    } else if d == 4 {
        '4'
    } else if d == 5 {
        '5'
    } else if d == 6 {
        '6'
    } else if d == 7 {
        '7'
    } else if d == 8 {
        '8'
    } else {
        '9'
    }
}

/// Decimal notation of `n`, without leading zeros.
pub open spec fn decimal(n: nat) -> Seq<char>
    decreases n,
{
    if n < 10 {
        seq![digit_char(n as int)]
    } else {
        decimal(n / 10) + seq![digit_char((n % 10) as int)]
    }
}

/// `n` written with at least two characters, zero-padded after the sign, as Rust's
/// `{:02}` writes a number between -99 and 99.
pub open spec fn pad2(n: int) -> Seq<char> {
    if n >= 0 {
        if n < 10 {
            seq!['0', digit_char(n)]
        } else {
            seq![digit_char(n / 10), digit_char(n % 10)]
        }
    } else if -n < 10 {
        seq!['-', digit_char(-n)]
    } else {
        seq!['-', digit_char((-n) / 10), digit_char((-n) % 10)]
    }
}

/// `HH:MM` of the UTC time of day at `ms`, hours and minutes computed with Rust's
/// truncating division (so a time before the epoch gives negative fields).
pub open spec fn spec_format_timestamp(ms: int) -> Seq<char> {
    let secs = trunc_div(ms, 1000);
    let hours = trunc_rem(trunc_div(secs, 3600), 24);
    let mins = trunc_rem(trunc_div(secs, 60), 60);
    pad2(hours) + seq![':'] + pad2(mins)
}

fn digit_str(d: u64) -> (r: &'static str)
    requires
        d < 10,
    ensures
        r@ == seq![digit_char(d as int)],
{
    proof {
        reveal_strlit("0");
        reveal_strlit("1");
        reveal_strlit("2");
        reveal_strlit("3");
        reveal_strlit("4");
        reveal_strlit("5");
        reveal_strlit("6");
        reveal_strlit("7");
        reveal_strlit("8");
        reveal_strlit("9");
    }
    let r = if d == 0 {
        "0"
    } else if d == 1 {
        "1"
    } else if d == 2 {
        "2"
    } else if d == 3 {
        "3"
    } else if d == 4 {
        "4"
    } else if d == 5 {
        "5"
    } else if d == 6 {
        "6"
    } else if d == 7 {
        "7"
    } else if d == 8 {
        "8"
    } else {
        "9"
    };
    assert(r@ =~= seq![digit_char(d as int)]);
    r
}

/// Appends the decimal notation of `n` to `s`.
pub fn push_decimal(s: &mut String, n: u64)
    ensures
        final(s)@ == old(s)@ + decimal(n as nat),
    decreases n,
{
    if n >= 10 {
        push_decimal(s, n / 10);
    }
    let d = digit_str(n % 10);
    s.append(d);
    proof {
        assert(decimal(n as nat) == if n < 10 {
            seq![digit_char(n as int)]
        } else {
            decimal((n / 10) as nat) + seq![digit_char((n % 10) as int)]
        });
    }
}

fn push_pad2(s: &mut String, n: i64)
    requires
        -100 < n < 100,
    ensures
        final(s)@ == old(s)@ + pad2(n as int),
{
    proof {
        reveal_strlit("-");
    }
    let ghost before = s@;
    if n >= 0 {
        let m = n as u64;
        if m < 10 {
            s.append(digit_str(0));
            s.append(digit_str(m));
        } else {
            s.append(digit_str(m / 10));
            s.append(digit_str(m % 10));
        }
    } else {
        let m = (-n) as u64;
        s.append("-");
        if m < 10 {
            s.append(digit_str(m));
        } else {
            s.append(digit_str(m / 10));
            s.append(digit_str(m % 10));
        }
    }
    assert(s@ =~= before + pad2(n as int));
}

/// Formats the UTC time of day at `ms` as `HH:MM`.
pub fn format_timestamp(ms: i64) -> (r: String)
    ensures
        r@ == spec_format_timestamp(ms as int),
{
    let secs = ms / 1000;
    let hours = (secs / 3600) % 24;
    let mins = (secs / 60) % 60;
    let mut out = String::new();
    push_pad2(&mut out, hours);
    proof {
        reveal_strlit(":");
    }
    out.append(":");
    push_pad2(&mut out, mins);
    assert(out@ =~= spec_format_timestamp(ms as int));
    out
}

/// Number of most recent stimuli that the prompt reports.
pub const STIMULI_IN_PROMPT: usize = 3;

/// A rumination entry as the prompt reports it.
pub struct RuminationLine {
    pub source_event: String,
    pub remaining_rounds: u32,
}

/// The parts of the `<emotion_state>` block, each already in text form.
pub struct PromptSections {
    /// One entry per dimension that deviates notably from its baseline.
    pub dimensions: Vec<String>,
    pub tone: String,
    pub time_phase: String,
    pub plutchik_label: String,
    /// The classifier's confidence, written with two decimals.
    pub plutchik_confidence: String,
    pub ruminations: Vec<RuminationLine>,
    /// One line per recalled memory.
    pub memories: Vec<String>,
    /// One line per recent stimulus, newest first: the `STIMULI_IN_PROMPT` most
    /// recent ones, as `history::recent_first` selects them.
    pub stimuli: Vec<String>,
}

/// The texts of `items` separated by `sep`.
pub open spec fn join_strings(items: Seq<String>, sep: Seq<char>) -> Seq<char>
    decreases items.len(),
{
    if items.len() == 0 {
        Seq::empty()
    } else if items.len() == 1 {
        items[0]@
    } else {
        join_strings(items.drop_last(), sep) + sep + items.last()@
    }
}

/// Each of `items` on a line of its own, indented by four spaces.
pub open spec fn indented_lines(items: Seq<String>) -> Seq<char>
    decreases items.len(),
{
    if items.len() == 0 {
        Seq::empty()
    } else {
        indented_lines(items.drop_last()) + "    "@ + items.last()@ + "\n"@
    }
}

/// One line per rumination entry: its source event and its remaining rounds.
pub open spec fn rumination_lines(rs: Seq<RuminationLine>) -> Seq<char>
    decreases rs.len(),
{
    if rs.len() == 0 {
        Seq::empty()
    } else {
        rumination_lines(rs.drop_last()) + "    Processing residual "@ + rs.last().source_event@ + " ("@
            + decimal(rs.last().remaining_rounds as nat) + " rounds remaining)\n"@
    }
}

/// The dimensions line: the notable dimensions separated by commas, or a note that
/// all dimensions are near their baseline.
pub open spec fn dimensions_text(dims: Seq<String>) -> Seq<char> {
    if dims.len() == 0 {
        "all dimensions near baseline"@
    } else {
        join_strings(dims, ", "@)
    }
}

/// The `<rumination>` block, left out where no entry is active.
pub open spec fn rumination_block(rs: Seq<RuminationLine>) -> Seq<char> {
    if rs.len() == 0 {
        Seq::empty()
    } else {
        "  <rumination active=\""@ + decimal(rs.len()) + "\">\n"@ + rumination_lines(rs) + "  </rumination>\n"@
    }
}

/// A block of indented lines between `tag_open` (completed by the line count) and
/// `tag_close`, left out where there are no lines.
pub open spec fn lines_block(tag_open: Seq<char>, tag_close: Seq<char>, items: Seq<String>) -> Seq<char> {
    if items.len() == 0 {
        Seq::empty()
    } else {
        tag_open + decimal(items.len()) + "\">\n"@ + indented_lines(items) + tag_close
    }
}

/// The whole `<emotion_state>` block.
pub open spec fn spec_emotion_prompt(p: PromptSections) -> Seq<char> {
    "<emotion_state>\n"@
        + "  <dimensions>\n    "@ + dimensions_text(p.dimensions@) + "\n  </dimensions>\n"@
        + "  <tone>"@ + p.tone@ + "</tone>\n"@
        + "  <time_phase>"@ + p.time_phase@ + "</time_phase>\n"@
        + "  <plutchik label=\""@ + p.plutchik_label@ + "\" confidence=\""@ + p.plutchik_confidence@ + "\"/>\n"@
        + rumination_block(p.ruminations@)
        + lines_block("  <memories recent=\""@, "  </memories>\n"@, p.memories@)
        + lines_block("  <stimuli recent=\""@, "  </stimuli>\n"@, p.stimuli@)
        + "</emotion_state>"@
}

fn push_joined(s: &mut String, items: &Vec<String>, sep: &str)
    ensures
        final(s)@ == old(s)@ + join_strings(items@, sep@),
{
    let ghost before = s@;
    let n = items.len();
    let mut i: usize = 0;
    while i < n
        invariant
            n == items@.len(),
            i <= n,
            s@ == before + join_strings(items@.take(i as int), sep@),
        decreases n - i,
    {
        let ghost prev = s@;
        if i > 0 {
            s.append(sep);
        }
        s.append(items[i].as_str());
        proof {
            let t = items@.take(i as int + 1);
            assert(t.drop_last() =~= items@.take(i as int));
            assert(t.last() == items@[i as int]);
            if i == 0 {
                assert(join_strings(t, sep@) == items@[0]@);
                assert(s@ =~= before + join_strings(t, sep@));
            } else {
                assert(s@ =~= before + join_strings(t, sep@));
            }
        }
        i = i + 1;
    }
    assert(items@.take(n as int) =~= items@);
}

fn push_indented_lines(s: &mut String, items: &Vec<String>)
    ensures
        final(s)@ == old(s)@ + indented_lines(items@),
{
    let ghost before = s@;
    let n = items.len();
    let mut i: usize = 0;
    while i < n
        invariant
            n == items@.len(),
            i <= n,
            s@ == before + indented_lines(items@.take(i as int)),
        decreases n - i,
    {
        s.append("    ");
        s.append(items[i].as_str());
        s.append("\n");
        proof {
            let t = items@.take(i as int + 1);
            assert(t.drop_last() =~= items@.take(i as int));
            assert(t.last() == items@[i as int]);
            assert(s@ =~= before + indented_lines(t));
        }
        i = i + 1;
    }
    assert(items@.take(n as int) =~= items@);
}

fn push_rumination_lines(s: &mut String, rs: &Vec<RuminationLine>)
    ensures
        final(s)@ == old(s)@ + rumination_lines(rs@),
{
    let ghost before = s@;
    let n = rs.len();
    let mut i: usize = 0;
    while i < n
        invariant
            n == rs@.len(),
            i <= n,
            s@ == before + rumination_lines(rs@.take(i as int)),
        decreases n - i,
    {
        s.append("    Processing residual ");
        s.append(rs[i].source_event.as_str());
        s.append(" (");
        push_decimal(s, rs[i].remaining_rounds as u64);
        s.append(" rounds remaining)\n");
        proof {
            let t = rs@.take(i as int + 1);
            assert(t.drop_last() =~= rs@.take(i as int));
            assert(t.last() == rs@[i as int]);
            assert(s@ =~= before + rumination_lines(t));
        }
        i = i + 1;
    }
    assert(rs@.take(n as int) =~= rs@);
}

fn push_lines_block(s: &mut String, tag_open: &str, tag_close: &str, items: &Vec<String>)
    ensures
        final(s)@ == old(s)@ + lines_block(tag_open@, tag_close@, items@),
{
    let ghost before = s@;
    if items.len() > 0 {
        s.append(tag_open);
        push_decimal(s, items.len() as u64);
        s.append("\">\n");
        push_indented_lines(s, items);
        s.append(tag_close);
        assert(s@ =~= before + lines_block(tag_open@, tag_close@, items@));
    } else {
        assert(s@ =~= before + lines_block(tag_open@, tag_close@, items@));
    }
}

/// Formats the `<emotion_state>` block from its parts: the notable dimensions (or a
/// note that all are near baseline), tone, time phase and Plutchik classification,
/// then the active ruminations, recalled memories and recent stimuli, each block left
/// out where it would be empty.
pub fn format_emotion_prompt(p: &PromptSections) -> (r: String)
    ensures
        r@ == spec_emotion_prompt(*p),
{
    let mut xml = String::from_str("<emotion_state>\n");
    xml.append("  <dimensions>\n    ");
    if p.dimensions.len() == 0 {
        xml.append("all dimensions near baseline");
    } else {
        push_joined(&mut xml, &p.dimensions, ", ");
    }
    xml.append("\n  </dimensions>\n");
    xml.append("  <tone>");
    xml.append(p.tone.as_str());
    xml.append("</tone>\n");
    xml.append("  <time_phase>");
    xml.append(p.time_phase.as_str());
    xml.append("</time_phase>\n");
    xml.append("  <plutchik label=\"");
    xml.append(p.plutchik_label.as_str());
    xml.append("\" confidence=\"");
    xml.append(p.plutchik_confidence.as_str());
    xml.append("\"/>\n");
    let ghost head = xml@;
    if p.ruminations.len() > 0 {
        xml.append("  <rumination active=\"");
        push_decimal(&mut xml, p.ruminations.len() as u64);
        xml.append("\">\n");
        push_rumination_lines(&mut xml, &p.ruminations);
        xml.append("  </rumination>\n");
    }
    assert(xml@ =~= head + rumination_block(p.ruminations@));
    push_lines_block(&mut xml, "  <memories recent=\"", "  </memories>\n", &p.memories);
    push_lines_block(&mut xml, "  <stimuli recent=\"", "  </stimuli>\n", &p.stimuli);
    xml.append("</emotion_state>");
    assert(xml@ =~= spec_emotion_prompt(*p));
    xml
}

/// The block opens with `<emotion_state>` on a line of its own and closes with
/// `</emotion_state>`, whatever its parts.
#[verifier::rlimit(40)]
pub proof fn lemma_prompt_framed(p: PromptSections)
    ensures
        spec_emotion_prompt(p).len() >= 32,
        spec_emotion_prompt(p).subrange(0, 16) == "<emotion_state>\n"@,
        spec_emotion_prompt(p).subrange(spec_emotion_prompt(p).len() - 16, spec_emotion_prompt(p).len() as int)
            == "</emotion_state>"@,
{
    reveal_strlit("<emotion_state>\n");
    reveal_strlit("</emotion_state>");
    let full = spec_emotion_prompt(p);
    let head = "<emotion_state>\n"@;
    let tail = "</emotion_state>"@;
    let middle = "  <dimensions>\n    "@ + dimensions_text(p.dimensions@) + "\n  </dimensions>\n"@
        + "  <tone>"@ + p.tone@ + "</tone>\n"@
        + "  <time_phase>"@ + p.time_phase@ + "</time_phase>\n"@
        + "  <plutchik label=\""@ + p.plutchik_label@ + "\" confidence=\""@ + p.plutchik_confidence@ + "\"/>\n"@
        + rumination_block(p.ruminations@)
        + lines_block("  <memories recent=\""@, "  </memories>\n"@, p.memories@)
        + lines_block("  <stimuli recent=\""@, "  </stimuli>\n"@, p.stimuli@);
    assert(full =~= head + middle + tail);
    assert(head.len() == 16);
    assert(tail.len() == 16);
    assert((head + middle + tail).subrange(0, 16) =~= head);
    assert((head + middle + tail).subrange(full.len() - 16, full.len() as int) =~= tail);
}

/// From the epoch on, a timestamp is written as five characters `HH:MM`.
pub proof fn lemma_timestamp_shape(ms: int)
    requires
        ms >= 0,
    ensures
        spec_format_timestamp(ms).len() == 5,
        spec_format_timestamp(ms)[2] == ':',
{
    let secs = trunc_div(ms, 1000);
    assert(secs >= 0);
    assert(trunc_div(secs, 3600) >= 0);
    assert(trunc_div(secs, 60) >= 0);
}

/// Whether `c` is one of the ASCII digits `0` to `9`.
pub open spec fn is_digit(c: char) -> bool {
    48 <= c as int <= 57
}

/// The number that a string of decimal digits denotes.
pub open spec fn digits_value(s: Seq<char>) -> int
    decreases s.len(),
{
    if s.len() == 0 {
        0
    } else {
        digits_value(s.drop_last()) * 10 + (s.last() as int - 48)
    }
}

/// The number that a string of digits, possibly after a minus sign, denotes.
pub open spec fn signed_value(s: Seq<char>) -> int {
    if s.len() > 0 && s[0] == '-' {
        -digits_value(s.drop_first())
    } else {
        digits_value(s)
    }
}

/// Whether `s` is a decimal number: digits, possibly after a minus sign.
pub open spec fn is_number_text(s: Seq<char>) -> bool {
    &&& s.len() >= 1
    &&& forall|i: int| 0 <= i < s.len() ==> is_digit(#[trigger] s[i]) || (i == 0 && s[0] == '-' && s.len() >= 2)
}

/// `digit_char(d)` is the ASCII character of the digit `d`.
pub proof fn lemma_digit_char(d: int)
    requires
        0 <= d < 10,
    ensures
        digit_char(d) as int == 48 + d,
        is_digit(digit_char(d)),
{
}

proof fn lemma_digits_value_push(s: Seq<char>, d: int)
    requires
        0 <= d < 10,
    ensures
        digits_value(s.push(digit_char(d))) == digits_value(s) * 10 + d,
{
    lemma_digit_char(d);
    assert(s.push(digit_char(d)).drop_last() =~= s);
}

/// The decimal notation of `n` is made of digits, has no leading zero, and reads back
/// as `n`.
pub proof fn lemma_decimal_value(n: nat)
    ensures
        decimal(n).len() >= 1,
        forall|i: int| 0 <= i < decimal(n).len() ==> is_digit(#[trigger] decimal(n)[i]),
        digits_value(decimal(n)) == n,
        n >= 10 ==> decimal(n)[0] != '0',
    decreases n,
{
    if n < 10 {
        lemma_digit_char(n as int);
        lemma_digits_value_push(Seq::empty(), n as int);
        assert(seq![digit_char(n as int)] =~= Seq::<char>::empty().push(digit_char(n as int)));
    } else {
        lemma_decimal_value(n / 10);
        lemma_digit_char((n % 10) as int);
        let p = decimal(n / 10);
        assert(decimal(n) =~= p.push(digit_char((n % 10) as int)));
        lemma_digits_value_push(p, (n % 10) as int);
        assert forall|i: int| 0 <= i < decimal(n).len() implies is_digit(#[trigger] decimal(n)[i]) by {
            if i < p.len() {
                assert(decimal(n)[i] == p[i]);
            }
        }
        if n / 10 >= 10 {
            assert(decimal(n)[0] == p[0]);
        } else {
            lemma_digit_char((n / 10) as int);
            assert(decimal(n)[0] == digit_char((n / 10) as int));
        }
    }
}

/// A number between -99 and 99 written by `pad2` is a number text of at least two
/// characters that reads back as the number; without a sign it has exactly two.
pub proof fn lemma_pad2_value(n: int)
    requires
        -100 < n < 100,
    ensures
        is_number_text(pad2(n)),
        signed_value(pad2(n)) == n,
        pad2(n).len() >= 2,
        n >= 0 ==> pad2(n).len() == 2,
{
    let e = Seq::<char>::empty();
    if n >= 0 {
        let (a, b) = if n < 10 { (0int, n) } else { (n / 10, n % 10) };
        lemma_digit_char(a);
        lemma_digit_char(b);
        lemma_digits_value_push(e, a);
        lemma_digits_value_push(e.push(digit_char(a)), b);
        assert(pad2(n) =~= e.push(digit_char(a)).push(digit_char(b)));
        assert(digits_value(e) == 0);
    } else {
        let m = -n;
        let digits = if m < 10 {
            lemma_digit_char(m);
            lemma_digits_value_push(e, m);
            e.push(digit_char(m))
        } else {
            lemma_digit_char(m / 10);
            lemma_digit_char(m % 10);
            lemma_digits_value_push(e, m / 10);
            lemma_digits_value_push(e.push(digit_char(m / 10)), m % 10);
            e.push(digit_char(m / 10)).push(digit_char(m % 10))
        };
        assert(digits_value(e) == 0);
        assert(pad2(n) =~= seq!['-'] + digits);
        assert(pad2(n).drop_first() =~= digits);
        assert(digits_value(digits) == m);
    }
}

/// Hours of the day that a timestamp shows, with the sign of the timestamp.
pub open spec fn shown_hours(ms: int) -> int {
    if ms >= 0 {
        (ms / 3_600_000) % 24
    } else {
        -(((-ms) / 3_600_000) % 24)
    }
}

/// Minutes of the hour that a timestamp shows, with the sign of the timestamp.
pub open spec fn shown_minutes(ms: int) -> int {
    if ms >= 0 {
        (ms / 60_000) % 60
    } else {
        -(((-ms) / 60_000) % 60)
    }
}

proof fn lemma_trunc_fields(ms: int)
    ensures
        trunc_rem(trunc_div(trunc_div(ms, 1000), 3600), 24) == shown_hours(ms),
        trunc_rem(trunc_div(trunc_div(ms, 1000), 60), 60) == shown_minutes(ms),
{
    let u = if ms >= 0 { ms } else { -ms };
    let secs = u / 1000;
    vstd::arithmetic::div_mod::lemma_div_denominator(u, 1000, 3600);
    vstd::arithmetic::div_mod::lemma_div_denominator(u, 1000, 60);
    assert(secs >= 0);
    let qh = secs / 3600;
    let qm = secs / 60;
    vstd::arithmetic::div_mod::lemma_fundamental_div_mod(qh, 24);
    vstd::arithmetic::div_mod::lemma_fundamental_div_mod(qm, 60);
    if ms >= 0 {
        assert(trunc_div(ms, 1000) == secs);
    } else {
        assert(trunc_div(ms, 1000) == -secs);
        assert(trunc_div(-secs, 3600) == -qh) by {
            if secs == 0 {
                assert(0int / 3600 == 0);
            }
        }
        assert(trunc_div(-secs, 60) == -qm) by {
            if secs == 0 {
                assert(0int / 60 == 0);
            }
        }
        assert(trunc_div(-qh, 24) == -(qh / 24)) by {
            if qh == 0 {
                assert(0int / 24 == 0);
            }
        }
        assert(trunc_div(-qm, 60) == -(qm / 60)) by {
            if qm == 0 {
                assert(0int / 60 == 0);
            }
        }
    }
}

/// A timestamp is written as its hours, a colon, and its minutes: each a number text
/// that reads back as the hours of the day and the minutes of the hour that the
/// timestamp shows (negative before the epoch).
pub proof fn lemma_timestamp_fields(ms: int)
    ensures
        exists|x: Seq<char>, y: Seq<char>|
            spec_format_timestamp(ms) == x + seq![':'] + y && is_number_text(x) && is_number_text(y)
                && #[trigger] signed_value(x) == shown_hours(ms) && #[trigger] signed_value(y)
                == shown_minutes(ms),
{
    lemma_trunc_fields(ms);
    let h = shown_hours(ms);
    let m = shown_minutes(ms);
    lemma_pad2_value(h);
    lemma_pad2_value(m);
    let x = pad2(h);
    let y = pad2(m);
    assert(spec_format_timestamp(ms) == x + seq![':'] + y);
}

/// Total length of the lines that `indented_lines` writes for `items`: each item's
/// text plus four spaces and a line break.
pub open spec fn lines_len(items: Seq<String>) -> int
    decreases items.len(),
{
    if items.len() == 0 {
        0
    } else {
        lines_len(items.drop_last()) + items.last()@.len() + 5
    }
}

/// The indented block is as long as its lines together.
pub proof fn lemma_indented_len(items: Seq<String>)
    ensures
        indented_lines(items).len() == lines_len(items),
    decreases items.len(),
{
    reveal_strlit("    ");
    reveal_strlit("\n");
    if items.len() > 0 {
        lemma_indented_len(items.drop_last());
    }
}

/// Line `k` of an indented block is item `k`: four spaces, the item's text and a line
/// break, starting where the lines of the items before it end.
pub proof fn lemma_indented_line(items: Seq<String>, k: int)
    requires
        0 <= k < items.len(),
    ensures
        lines_len(items.take(k + 1)) == lines_len(items.take(k)) + items[k]@.len() + 5,
        indented_lines(items).subrange(lines_len(items.take(k)), lines_len(items.take(k + 1)))
            == "    "@ + items[k]@ + "\n"@,
    decreases items.len(),
{
    reveal_strlit("    ");
    reveal_strlit("\n");
    let n = items.len();
    let p = items.drop_last();
    assert(items.take(k + 1).drop_last() =~= items.take(k));
    assert(items.take(k + 1).last() == items[k]);
    lemma_indented_len(p);
    lemma_indented_len(items.take(k));
    let line = "    "@ + items.last()@ + "\n"@;
    assert(indented_lines(items) == indented_lines(p) + line);
    if k == n - 1 {
        assert(items.take(k) =~= p);
        assert(items.take(k + 1) =~= items);
        assert(indented_lines(items).subrange(lines_len(p), lines_len(items)) =~= line);
    } else {
        lemma_indented_line(p, k);
        assert(p.take(k) =~= items.take(k));
        assert(p.take(k + 1) =~= items.take(k + 1));
        lemma_lines_len_prefix(p, k + 1);
        assert(indented_lines(items).subrange(lines_len(items.take(k)), lines_len(items.take(k + 1)))
            =~= indented_lines(p).subrange(lines_len(items.take(k)), lines_len(items.take(k + 1))));
    }
}

proof fn lemma_lines_len_prefix(items: Seq<String>, k: int)
    requires
        0 <= k <= items.len(),
    ensures
        0 <= lines_len(items.take(k)) <= lines_len(items),
    decreases items.len(),
{
    if k < items.len() {
        assert(items.drop_last().take(k) =~= items.take(k));
        lemma_lines_len_prefix(items.drop_last(), k);
    } else {
        assert(items.take(k) =~= items);
        lemma_lines_len_nonneg(items);
    }
}

proof fn lemma_lines_len_nonneg(items: Seq<String>)
    ensures
        lines_len(items) >= 0,
    decreases items.len(),
{
    if items.len() > 0 {
        lemma_lines_len_nonneg(items.drop_last());
    }
}

/// Length of the texts of `items` joined with separators of `sep_len` characters.
pub open spec fn joined_len(items: Seq<String>, sep_len: int) -> int
    decreases items.len(),
{
    if items.len() == 0 {
        0
    } else if items.len() == 1 {
        items[0]@.len() as int
    } else {
        joined_len(items.drop_last(), sep_len) + sep_len + items.last()@.len()
    }
}

/// Where item `k` starts in the joined text.
pub open spec fn joined_start(items: Seq<String>, sep_len: int, k: int) -> int {
    if k == 0 {
        0
    } else {
        joined_len(items.take(k), sep_len) + sep_len
    }
}

/// In a joined text, item `k` stands at its place, preceded (unless it is the first)
/// by the separator, and the text ends with the last item.
pub proof fn lemma_joined_item(items: Seq<String>, sep: Seq<char>, k: int)
    requires
        0 <= k < items.len(),
    ensures
        join_strings(items, sep).len() == joined_len(items, sep.len() as int),
        joined_len(items.take(k + 1), sep.len() as int) == joined_start(items, sep.len() as int, k)
            + items[k]@.len(),
        join_strings(items, sep).subrange(
            joined_start(items, sep.len() as int, k),
            joined_start(items, sep.len() as int, k) + items[k]@.len(),
        ) == items[k]@,
        k > 0 ==> join_strings(items, sep).subrange(
            joined_len(items.take(k), sep.len() as int),
            joined_start(items, sep.len() as int, k),
        ) == sep,
    decreases items.len(),
{
    let n = items.len();
    let sl = sep.len() as int;
    assert(items.take(k + 1).last() == items[k]);
    if n == 1 {
        assert(items.take(1) =~= items);
        assert(join_strings(items, sep).subrange(0, items[0]@.len() as int) =~= items[0]@);
    } else {
        let p = items.drop_last();
        lemma_joined_item(p, sep, 0);
        let head = join_strings(p, sep);
        assert(join_strings(items, sep) == head + sep + items.last()@);
        if k == n - 1 {
            assert(items.take(k) =~= p);
            assert(items.take(k + 1) =~= items);
            assert(join_strings(items, sep).subrange(joined_len(p, sl) + sl, joined_len(p, sl) + sl + items[k]@.len())
                =~= items[k]@);
            assert(join_strings(items, sep).subrange(joined_len(p, sl), joined_len(p, sl) + sl) =~= sep);
        } else {
            lemma_joined_item(p, sep, k);
            assert(p.take(k) =~= items.take(k));
            assert(p.take(k + 1) =~= items.take(k + 1));
            lemma_joined_prefix(p, sl, k + 1);
            assert(p[k] == items[k]);
            assert(joined_start(items, sl, k) == joined_start(p, sl, k));
            assert(head.len() == joined_len(p, sl));
            assert(joined_start(p, sl, k) + p[k]@.len() <= head.len());
            assert(joined_start(p, sl, k) >= 0) by {
                if k > 0 {
                    lemma_joined_prefix(p, sl, k);
                }
            }
            assert(join_strings(items, sep).subrange(
                joined_start(items, sl, k),
                joined_start(items, sl, k) + items[k]@.len(),
            ) =~= head.subrange(joined_start(p, sl, k), joined_start(p, sl, k) + p[k]@.len()));
            if k > 0 {
                lemma_joined_prefix(p, sl, k);
                assert(join_strings(items, sep).subrange(joined_len(items.take(k), sl), joined_start(items, sl, k))
                    =~= head.subrange(joined_len(p.take(k), sl), joined_start(p, sl, k)));
            }
        }
    }
}

proof fn lemma_joined_prefix(items: Seq<String>, sl: int, k: int)
    requires
        sl >= 0,
        1 <= k <= items.len(),
    ensures
        0 <= joined_len(items.take(k), sl) <= joined_len(items, sl),
    decreases items.len(),
{
    if k < items.len() {
        assert(items.drop_last().take(k) =~= items.take(k));
        lemma_joined_prefix(items.drop_last(), sl, k);
    } else {
        assert(items.take(k) =~= items);
        lemma_joined_nonneg(items, sl);
    }
}

proof fn lemma_joined_nonneg(items: Seq<String>, sl: int)
    requires
        sl >= 0,
    ensures
        joined_len(items, sl) >= 0,
    decreases items.len(),
{
    if items.len() > 1 {
        lemma_joined_nonneg(items.drop_last(), sl);
    }
}

/// The line that reports one rumination entry: its source event and, in decimal, its
/// remaining rounds.
pub open spec fn rumination_line(r: RuminationLine) -> Seq<char> {
    "    Processing residual "@ + r.source_event@ + " ("@ + decimal(r.remaining_rounds as nat)
        + " rounds remaining)\n"@
}

/// Total length of the lines that report `rs`.
pub open spec fn rumination_lines_len(rs: Seq<RuminationLine>) -> int
    decreases rs.len(),
{
    if rs.len() == 0 {
        0
    } else {
        rumination_lines_len(rs.drop_last()) + rumination_line(rs.last()).len()
    }
}

proof fn lemma_rumination_len(rs: Seq<RuminationLine>, k: int)
    requires
        0 <= k <= rs.len(),
    ensures
        rumination_lines(rs).len() == rumination_lines_len(rs),
        0 <= rumination_lines_len(rs.take(k)) <= rumination_lines_len(rs),
    decreases rs.len(),
{
    if rs.len() > 0 {
        let p = rs.drop_last();
        if k < rs.len() {
            assert(p.take(k) =~= rs.take(k));
            lemma_rumination_len(p, k);
        } else {
            assert(rs.take(k) =~= rs);
            lemma_rumination_len(p, 0);
        }
        assert(rumination_lines(rs) =~= rumination_lines(p) + rumination_line(rs.last()));
    } else {
        assert(rs.take(k) =~= rs);
    }
}

/// Line `k` of the rumination block reports entry `k`, starting where the lines of
/// the entries before it end.
pub proof fn lemma_rumination_line(rs: Seq<RuminationLine>, k: int)
    requires
        0 <= k < rs.len(),
    ensures
        rumination_lines_len(rs.take(k + 1)) == rumination_lines_len(rs.take(k)) + rumination_line(rs[k]).len(),
        rumination_lines(rs).subrange(rumination_lines_len(rs.take(k)), rumination_lines_len(rs.take(k + 1)))
            == rumination_line(rs[k]),
    decreases rs.len(),
{
    let n = rs.len();
    let p = rs.drop_last();
    assert(rs.take(k + 1).drop_last() =~= rs.take(k));
    assert(rs.take(k + 1).last() == rs[k]);
    lemma_rumination_len(p, 0);
    assert(rumination_lines(rs) =~= rumination_lines(p) + rumination_line(rs.last()));
    if k == n - 1 {
        assert(rs.take(k) =~= p);
        assert(rs.take(k + 1) =~= rs);
        assert(rumination_lines(rs).subrange(rumination_lines_len(p), rumination_lines_len(rs))
            =~= rumination_line(rs.last()));
    } else {
        lemma_rumination_line(p, k);
        assert(p.take(k) =~= rs.take(k));
        assert(p.take(k + 1) =~= rs.take(k + 1));
        lemma_rumination_len(p, k + 1);
        lemma_rumination_len(p, k);
        assert(rumination_lines(rs).subrange(rumination_lines_len(rs.take(k)), rumination_lines_len(rs.take(k + 1)))
            =~= rumination_lines(p).subrange(rumination_lines_len(rs.take(k)), rumination_lines_len(rs.take(k + 1))));
    }
}

/// The block's parts come in order: the dimensions line right after the opening tag,
/// and at the end the memories block, then the stimuli block, then the closing tag.
pub proof fn lemma_prompt_order(p: PromptSections)
    ensures
        exists|mid: Seq<char>|
            spec_emotion_prompt(p) == "<emotion_state>\n"@ + "  <dimensions>\n    "@ + dimensions_text(p.dimensions@)
                + #[trigger] (mid + lines_block("  <memories recent=\""@, "  </memories>\n"@, p.memories@))
                + lines_block("  <stimuli recent=\""@, "  </stimuli>\n"@, p.stimuli@) + "</emotion_state>"@,
{
    let mid = "\n  </dimensions>\n"@
        + "  <tone>"@ + p.tone@ + "</tone>\n"@
        + "  <time_phase>"@ + p.time_phase@ + "</time_phase>\n"@
        + "  <plutchik label=\""@ + p.plutchik_label@ + "\" confidence=\""@ + p.plutchik_confidence@ + "\"/>\n"@
        + rumination_block(p.ruminations@);
    assert(spec_emotion_prompt(p) =~= "<emotion_state>\n"@ + "  <dimensions>\n    "@ + dimensions_text(p.dimensions@)
        + (mid + lines_block("  <memories recent=\""@, "  </memories>\n"@, p.memories@))
        + lines_block("  <stimuli recent=\""@, "  </stimuli>\n"@, p.stimuli@) + "</emotion_state>"@);
}

} // verus!
