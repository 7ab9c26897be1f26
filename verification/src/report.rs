//! The line that a finished session adds to the score log.

use crate::score::{Mode, Modifiers, Score};
use vstd::prelude::*;

verus! {

/// The name a mode is logged under.
pub open spec fn mode_name(mode: Mode) -> Seq<char> {
    match mode {
        Mode::TimeAttack => "TimeAttack"@,
        Mode::Endless => "Endless"@,
        Mode::Race => "Race"@,
    }
}

/// The decimal digit for `d`; `'9'` for anything above nine.
pub open spec fn digit_char(d: nat) -> char {
    if d == 0 {
        '0'
    } else if d == 1 {
        '1'
    } else if d == 2 {
        '2'
    } else if d == 3 {
        '3'
    } else if d == 4 {
        '4'
    } else if d == 5 {
        '5'
    } else if d == 6 {
        '6'
    } else if d == 7 {
        '7'
    } else if d == 8 {
        '8'
    } else {
        '9'
    }
}

/// `n` in decimal, without leading zeros.
pub open spec fn decimal(n: nat) -> Seq<char>
    decreases n,
{
    if n < 10 {
        seq![digit_char(n)]
    } else {
        decimal(n / 10).push(digit_char(n % 10))
    }
}

/// `k` spaces.
pub open spec fn spaces(k: nat) -> Seq<char> {
    Seq::new(k, |i: int| ' ')
}

/// `text` in a column of `width` characters: spaces fill it up on the
/// right, and a longer text is kept whole.
pub open spec fn pad_right(text: Seq<char>, width: nat) -> Seq<char> {
    if text.len() >= width {
        text
    } else {
        text + spaces((width - text.len()) as nat)
    }
}

/// The mode's name, marked where the time budget accumulated.
pub open spec fn mode_label(mode: Mode, accumulate: bool) -> Seq<char> {
    if accumulate {
        mode_name(mode) + " -a"@
    } else {
        mode_name(mode)
    }
}

/// The columns every line has: mode, correct words, errors.
pub open spec fn line_head(score: Score, mode: Mode, accumulate: bool) -> Seq<char> {
    "\nMode: "@ + pad_right(mode_label(mode, accumulate), 12) + "  :  Correct: "@ + pad_right(
        decimal(score.correct as nat),
        5,
    ) + " |  Errors: "@ + pad_right(decimal(score.errors as nat), 5)
}

/// Hundredths of a second nearest to `ms` milliseconds, halves rounded up.
pub open spec fn centis(ms: nat) -> nat {
    (ms + 5) / 10
}

/// `ms` milliseconds as seconds with two decimals.
pub open spec fn seconds_text(ms: nat) -> Seq<char> {
    decimal(centis(ms) / 100) + "."@ + seq![
        digit_char(centis(ms) % 100 / 10),
        digit_char(centis(ms) % 10),
    ]
}

/// A race's trailing field.
pub open spec fn time_field(time: Option<u64>) -> Seq<char> {
    "  |  Time: "@ + match time {
        Some(ms) => seconds_text(ms as nat),
        None => "N/A"@,
    }
}

/// Time Attack's trailing field.
pub open spec fn wpm_field(wpm: Option<u32>) -> Seq<char> {
    "  |  Approx. WPM: "@ + match wpm {
        Some(rate) => decimal(rate as nat),
        None => "N/A"@,
    }
}

/// What follows the columns: the time for a race, the rate for Time Attack,
/// nothing for Endless.
pub open spec fn line_tail(score: Score, mode: Mode) -> Seq<char> {
    match mode {
        Mode::Race => time_field(score.time),
        Mode::TimeAttack => wpm_field(score.wpm),
        Mode::Endless => Seq::empty(),
    }
}

/// The log line of `score`.
pub open spec fn score_line_text(score: Score, mode: Mode, accumulate: bool) -> Seq<char> {
    line_head(score, mode, accumulate) + line_tail(score, mode)
}

/// The line to log for what a session yielded: none where it yielded no
/// score, and none for the empty score.
pub open spec fn log_line_text(yielded: Option<Score>, mode: Mode, accumulate: bool) -> Option<
    Seq<char>,
> {
    match yielded {
        Some(score) => if score == Score::empty() {
            None
        } else {
            Some(score_line_text(score, mode, accumulate))
        },
        None => None,
    }
}

/// The name `mode` is logged under.
pub fn name_of(mode: Mode) -> (name: &'static str)
    ensures
        name@ == mode_name(mode),
{
    match mode {
        Mode::TimeAttack => "TimeAttack",
        Mode::Endless => "Endless",
        Mode::Race => "Race",
    }
}

fn digit_text(d: u64) -> (text: &'static str)
    requires
        d < 10,
    ensures
        text@ == seq![digit_char(d as nat)],
{
    proof {
        reveal_strlit("0");
        reveal_strlit("1");
        reveal_strlit("2");
        reveal_strlit("3");
        reveal_strlit("4");
        reveal_strlit("5");
        reveal_strlit("6");
        reveal_strlit("7");
        reveal_strlit("8");
        reveal_strlit("9");
    }
    let text = if d == 0 {
        "0"
    } else if d == 1 {
        "1"
    } else if d == 2 {
        "2"
    } else if d == 3 {
        "3"
    } else if d == 4 {
        "4"
    } else if d == 5 {
        "5"
    } else if d == 6 {
        "6"
    } else if d == 7 {
        "7"
    } else if d == 8 {
        "8"
    } else {
        "9"
    };
    assert(text@ =~= seq![digit_char(d as nat)]);
    text
}

fn push_decimal(out: &mut String, n: u64)
    ensures
        final(out)@ == old(out)@ + decimal(n as nat),
    decreases n,
{
    if n >= 10 {
        push_decimal(out, n / 10);
    }
    out.append(digit_text(n % 10));
    assert(out@ =~= old(out)@ + decimal(n as nat));
}

/// `n` in decimal.
pub fn decimal_text(n: u64) -> (text: String)
    ensures
        text@ == decimal(n as nat),
{
    let mut text = String::new();
    push_decimal(&mut text, n);
    assert(text@ =~= decimal(n as nat));
    text
}

fn push_padded(out: &mut String, text: &str, width: usize)
    ensures
        final(out)@ == old(out)@ + pad_right(text@, width as nat),
{
    out.append(text);
    let mut len = text.unicode_len();
    proof {
        reveal_strlit(" ");
        assert(spaces(0) =~= Seq::<char>::empty());
    }
    while len < width
        invariant
            len >= text@.len(),
            " "@ == seq![' '],
            text@.len() >= width ==> out@ == old(out)@ + text@,
            text@.len() < width ==> len <= width && out@ == old(out)@ + text@ + spaces(
                (len - text@.len()) as nat,
            ),
        decreases width - len,
    {
        out.append(" ");
        assert(out@ =~= old(out)@ + text@ + spaces((len + 1 - text@.len()) as nat));
        len += 1;
    }
    assert(out@ =~= old(out)@ + pad_right(text@, width as nat));
}

fn push_seconds(out: &mut String, ms: u64)
    ensures
        final(out)@ == old(out)@ + seconds_text(ms as nat),
{
    let up: u64 = if ms % 10 >= 5 {
        1
    } else {
        0
    };
    let hundredths: u64 = ms / 10 + up;
    assert(hundredths == centis(ms as nat));
    push_decimal(out, hundredths / 100);
    out.append(".");
    out.append(digit_text(hundredths % 100 / 10));
    out.append(digit_text(hundredths % 10));
    assert(out@ =~= old(out)@ + seconds_text(ms as nat));
}

/// Renders the log line of `score`: the mode's name in a column of twelve,
/// the correct words and the errors in columns of five, and then the time
/// for a race, the rate for Time Attack, nothing for Endless.
pub fn score_line(score: &Score, mode: &Mode, options: &Modifiers) -> (line: String)
    ensures
        line@ == score_line_text(*score, *mode, options.accumulate),
{
    let mut label = String::from_str(name_of(*mode));
    if options.accumulate {
        label.append(" -a");
    }
    let correct = decimal_text(score.correct as u64);
    let errors = decimal_text(score.errors as u64);
    let mut line = String::from_str("\nMode: ");
    push_padded(&mut line, label.as_str(), 12);
    line.append("  :  Correct: ");
    push_padded(&mut line, correct.as_str(), 5);
    line.append(" |  Errors: ");
    push_padded(&mut line, errors.as_str(), 5);
    assert(line@ =~= line_head(*score, *mode, options.accumulate));
    match mode {
        Mode::Race => {
            line.append("  |  Time: ");
            match score.time {
                Some(ms) => {
                    push_seconds(&mut line, ms);
                },
                None => {
                    line.append("N/A");
                },
            }
        },
        Mode::TimeAttack => {
            line.append("  |  Approx. WPM: ");
            match score.wpm {
                Some(rate) => {
                    push_decimal(&mut line, rate as u64);
                },
                None => {
                    line.append("N/A");
                },
            }
        },
        Mode::Endless => {},
    }
    assert(line@ =~= score_line_text(*score, *mode, options.accumulate));
    line
}

/// The line to log for what a session yielded, if there is anything to log.
pub fn log_line(yielded: &Option<Score>, mode: &Mode, options: &Modifiers) -> (line: Option<String>)
    ensures
        match line {
            Some(text) => log_line_text(*yielded, *mode, options.accumulate) == Some(text@),
            None => log_line_text(*yielded, *mode, options.accumulate) is None,
        },
{
    match yielded {
        Some(score) => {
            if score.is_empty() {
                None
            } else {
                Some(score_line(score, mode, options))
            }
        },
        None => None,
    }
}

/// Whether `part` occurs in `text` as a run of consecutive characters.
pub open spec fn occurs_in(part: Seq<char>, text: Seq<char>) -> bool {
    exists|i: int| occurs_at(part, text, i)
}

/// Whether `part` occurs in `text` from position `i` on.
pub open spec fn occurs_at(part: Seq<char>, text: Seq<char>, i: int) -> bool {
    0 <= i && i + part.len() <= text.len() && text.subrange(i, i + part.len()) == part
}

/// Whether `text` ends with `part`.
pub open spec fn ends_with(text: Seq<char>, part: Seq<char>) -> bool {
    part.len() <= text.len() && text.subrange(text.len() - part.len(), text.len() as int) == part
}

/// Whether `c` is nowhere in `text`.
spec fn lacks(text: Seq<char>, c: char) -> bool {
    forall|i: int| 0 <= i < text.len() ==> text[i] != c
}

/// Whether `c` is none of the ten digits.
spec fn no_digit(c: char) -> bool {
    forall|d: nat| digit_char(d) != c
}

proof fn lemma_occurs_between(before: Seq<char>, part: Seq<char>, after: Seq<char>)
    ensures
        occurs_in(part, before + part + after),
{
    let text = before + part + after;
    assert(text.subrange(before.len() as int, (before.len() + part.len()) as int) =~= part);
    assert(occurs_at(part, text, before.len() as int));
}


proof fn lemma_lacks_decimal(n: nat, c: char)
    requires
        no_digit(c),
    ensures
        lacks(decimal(n), c),
    decreases n,
{
    assert(digit_char(n % 10) != c);
    if n >= 10 {
        lemma_lacks_decimal(n / 10, c);
    } else {
        assert(digit_char(n) != c);
    }
}

proof fn lemma_lacks_padded(text: Seq<char>, width: nat, c: char)
    requires
        lacks(text, c),
        c != ' ',
    ensures
        lacks(pad_right(text, width), c),
{
}

proof fn lemma_not_here(part: Seq<char>, text: Seq<char>, k: int)
    requires
        0 <= k < part.len(),
        lacks(text, part[k]),
    ensures
        !occurs_in(part, text),
{
    assert forall|i: int| !occurs_at(part, text, i) by {
        if occurs_at(part, text, i) {
            assert(text.subrange(i, i + part.len())[k] == part[k]);
        }
    }
}

proof fn lemma_letters_are_no_digits()
    ensures
        no_digit('T'),
        no_digit('W'),
        no_digit('m'),
{
    assert forall|d: nat| digit_char(d) != 'T' && digit_char(d) != 'W' && digit_char(d) != 'm' by {}
}

/// What fills a column of `width` characters behind `text`.
spec fn filling(text: Seq<char>, width: nat) -> Seq<char> {
    if text.len() >= width {
        Seq::empty()
    } else {
        spaces((width - text.len()) as nat)
    }
}

/// What a line holds between the mode's name and the trailing field: the
/// mark of accumulation, the filling of the first column, and the two counts.
spec fn after_name(score: Score, mode: Mode, accumulate: bool) -> Seq<char> {
    (if accumulate {
        " -a"@
    } else {
        Seq::<char>::empty()
    }) + filling(mode_label(mode, accumulate), 12) + "  :  Correct: "@ + pad_right(
        decimal(score.correct as nat),
        5,
    ) + " |  Errors: "@ + pad_right(decimal(score.errors as nat), 5)
}

proof fn lemma_head_parts(score: Score, mode: Mode, accumulate: bool)
    ensures
        line_head(score, mode, accumulate) == "\nMode: "@ + mode_name(mode) + after_name(
            score,
            mode,
            accumulate,
        ),
{
    let label = mode_label(mode, accumulate);
    assert(pad_right(label, 12) =~= label + filling(label, 12));
    assert(line_head(score, mode, accumulate) =~= "\nMode: "@ + mode_name(mode) + after_name(
        score,
        mode,
        accumulate,
    ));
}

proof fn lemma_after_name_lacks(score: Score, mode: Mode, accumulate: bool, c: char)
    requires
        c == 'T' || c == 'W' || c == 'm',
    ensures
        lacks(after_name(score, mode, accumulate), c),
{
    reveal_strlit(" -a");
    reveal_strlit("  :  Correct: ");
    reveal_strlit(" |  Errors: ");
    lemma_letters_are_no_digits();
    lemma_lacks_decimal(score.correct as nat, c);
    lemma_lacks_decimal(score.errors as nat, c);
    lemma_lacks_padded(decimal(score.correct as nat), 5, c);
    lemma_lacks_padded(decimal(score.errors as nat), 5, c);
}

proof fn lemma_time_field_lacks_w(time: Option<u64>)
    ensures
        lacks(time_field(time), 'W'),
{
    reveal_strlit("  |  Time: ");
    reveal_strlit("N/A");
    reveal_strlit(".");
    lemma_letters_are_no_digits();
    if let Some(ms) = time {
        lemma_lacks_decimal(centis(ms as nat) / 100, 'W');
    }
}

proof fn lemma_wpm_field_lacks_m(wpm: Option<u32>)
    ensures
        lacks(wpm_field(wpm), 'm'),
{
    reveal_strlit("  |  Approx. WPM: ");
    reveal_strlit("N/A");
    lemma_letters_are_no_digits();
    if let Some(rate) = wpm {
        lemma_lacks_decimal(rate as nat, 'm');
    }
}

proof fn lemma_labels_split()
    ensures
        "  :  Correct: "@ == "  :  "@ + "Correct: "@,
        " |  Errors: "@ == " |  "@ + "Errors: "@,
        "  |  Time: "@ == "  |  "@ + "Time: "@,
        "  |  Approx. WPM: "@ == "  |  Approx. "@ + "WPM: "@,
{
    reveal_strlit("  :  Correct: ");
    reveal_strlit("  :  ");
    reveal_strlit("Correct: ");
    assert("  :  Correct: "@ =~= "  :  "@ + "Correct: "@);
    reveal_strlit(" |  Errors: ");
    reveal_strlit(" |  ");
    reveal_strlit("Errors: ");
    assert(" |  Errors: "@ =~= " |  "@ + "Errors: "@);
    reveal_strlit("  |  Time: ");
    reveal_strlit("  |  ");
    reveal_strlit("Time: ");
    assert("  |  Time: "@ =~= "  |  "@ + "Time: "@);
    reveal_strlit("  |  Approx. WPM: ");
    reveal_strlit("  |  Approx. ");
    reveal_strlit("WPM: ");
    assert("  |  Approx. WPM: "@ =~= "  |  Approx. "@ + "WPM: "@);
}

proof fn lemma_name_occurs(score: Score, mode: Mode, accumulate: bool)
    ensures
        occurs_in(mode_name(mode), score_line_text(score, mode, accumulate)),
{
    let line = score_line_text(score, mode, accumulate);
    let back = after_name(score, mode, accumulate) + line_tail(score, mode);
    lemma_head_parts(score, mode, accumulate);
    lemma_occurs_between("\nMode: "@, mode_name(mode), back);
    assert(line =~= "\nMode: "@ + mode_name(mode) + back);
}

proof fn lemma_correct_occurs(score: Score, mode: Mode, accumulate: bool)
    ensures
        occurs_in(
            "Correct: "@ + decimal(score.correct as nat),
            score_line_text(score, mode, accumulate),
        ),
{
    let line = score_line_text(score, mode, accumulate);
    let correct = decimal(score.correct as nat);
    let front = "\nMode: "@ + pad_right(mode_label(mode, accumulate), 12) + "  :  "@;
    let back = filling(correct, 5) + " |  Errors: "@ + pad_right(
        decimal(score.errors as nat),
        5,
    ) + line_tail(score, mode);
    lemma_labels_split();
    assert(pad_right(correct, 5) =~= correct + filling(correct, 5));
    lemma_occurs_between(front, "Correct: "@ + correct, back);
    assert(line =~= front + ("Correct: "@ + correct) + back);
}

proof fn lemma_errors_occur(score: Score, mode: Mode, accumulate: bool)
    ensures
        occurs_in(
            "Errors: "@ + decimal(score.errors as nat),
            score_line_text(score, mode, accumulate),
        ),
{
    let line = score_line_text(score, mode, accumulate);
    let errors = decimal(score.errors as nat);
    let front = "\nMode: "@ + pad_right(mode_label(mode, accumulate), 12) + "  :  Correct: "@
        + pad_right(decimal(score.correct as nat), 5) + " |  "@;
    let back = filling(errors, 5) + line_tail(score, mode);
    lemma_labels_split();
    assert(pad_right(errors, 5) =~= errors + filling(errors, 5));
    lemma_occurs_between(front, "Errors: "@ + errors, back);
    assert(line =~= front + ("Errors: "@ + errors) + back);
}

proof fn lemma_time_shown_for_race_only(score: Score, mode: Mode, accumulate: bool)
    ensures
        occurs_in("Time: "@, score_line_text(score, mode, accumulate)) <==> mode is Race,
{
    let line = score_line_text(score, mode, accumulate);
    let head = line_head(score, mode, accumulate);
    let rest = after_name(score, mode, accumulate);
    reveal_strlit("Time: ");
    reveal_strlit("\nMode: ");
    lemma_head_parts(score, mode, accumulate);
    match mode {
        Mode::Race => {
            lemma_labels_split();
            let shown = match score.time {
                Some(ms) => seconds_text(ms as nat),
                None => "N/A"@,
            };
            lemma_occurs_between(head + "  |  "@, "Time: "@, shown);
            assert(line =~= head + "  |  "@ + "Time: "@ + shown);
        },
        Mode::Endless => {
            reveal_strlit("Endless");
            lemma_after_name_lacks(score, mode, accumulate, 'T');
            assert(line =~= "\nMode: "@ + "Endless"@ + rest);
            assert(lacks(line, 'T'));
            lemma_not_here("Time: "@, line, 0);
        },
        Mode::TimeAttack => {
            reveal_strlit("TimeAttack");
            let front = "\nMode: "@ + "TimeAttack"@;
            let back = rest + wpm_field(score.wpm);
            lemma_after_name_lacks(score, mode, accumulate, 'm');
            lemma_wpm_field_lacks_m(score.wpm);
            assert(lacks(back, 'm'));
            assert(line =~= front + back);
            assert(front.len() == 17);
            assert forall|i: int| !occurs_at("Time: "@, line, i) by {
                if occurs_at("Time: "@, line, i) {
                    let found = line.subrange(i, i + 6);
                    assert(found[2] == 'm');
                    assert(found[4] == ':');
                    assert(line[i + 2] == 'm');
                    assert(line[i + 4] == ':');
                    if i + 2 >= 17 {
                        assert(line[i + 2] == back[i + 2 - 17]);
                    } else {
                        assert(line[i + 2] == front[i + 2]);
                        assert(i + 2 == 9);
                        assert(line[11] == front[11]);
                    }
                }
            }
        },
    }
}

proof fn lemma_rate_shown_for_time_attack_only(score: Score, mode: Mode, accumulate: bool)
    ensures
        occurs_in("WPM: "@, score_line_text(score, mode, accumulate)) <==> mode is TimeAttack,
{
    let line = score_line_text(score, mode, accumulate);
    let head = line_head(score, mode, accumulate);
    let rest = after_name(score, mode, accumulate);
    reveal_strlit("WPM: ");
    reveal_strlit("\nMode: ");
    lemma_head_parts(score, mode, accumulate);
    lemma_after_name_lacks(score, mode, accumulate, 'W');
    match mode {
        Mode::TimeAttack => {
            lemma_labels_split();
            let shown = match score.wpm {
                Some(rate) => decimal(rate as nat),
                None => "N/A"@,
            };
            lemma_occurs_between(head + "  |  Approx. "@, "WPM: "@, shown);
            assert(line =~= head + "  |  Approx. "@ + "WPM: "@ + shown);
        },
        Mode::Endless => {
            reveal_strlit("Endless");
            assert(line =~= "\nMode: "@ + "Endless"@ + rest);
            assert(lacks(line, 'W'));
            lemma_not_here("WPM: "@, line, 0);
        },
        Mode::Race => {
            reveal_strlit("Race");
            lemma_time_field_lacks_w(score.time);
            assert(line =~= "\nMode: "@ + "Race"@ + rest + time_field(score.time));
            assert(lacks(line, 'W'));
            lemma_not_here("WPM: "@, line, 0);
        },
    }
}

/// Every line names its mode and gives both counts. It shows a time exactly
/// for a race and a rate exactly for Time Attack, each as the line's last
/// field; an Endless line ends with the column of the errors.
pub proof fn lemma_line_fields(score: Score, mode: Mode, accumulate: bool)
    ensures
        occurs_in(mode_name(mode), score_line_text(score, mode, accumulate)),
        occurs_in(
            "Correct: "@ + decimal(score.correct as nat),
            score_line_text(score, mode, accumulate),
        ),
        occurs_in(
            "Errors: "@ + decimal(score.errors as nat),
            score_line_text(score, mode, accumulate),
        ),
        occurs_in("Time: "@, score_line_text(score, mode, accumulate)) <==> mode is Race,
        occurs_in("WPM: "@, score_line_text(score, mode, accumulate)) <==> mode is TimeAttack,
        mode is Race ==> ends_with(
            score_line_text(score, mode, accumulate),
            time_field(score.time),
        ),
        mode is TimeAttack ==> ends_with(
            score_line_text(score, mode, accumulate),
            wpm_field(score.wpm),
        ),
        mode is Endless ==> score_line_text(score, mode, accumulate) == line_head(
            score,
            mode,
            accumulate,
        ),
{
    let line = score_line_text(score, mode, accumulate);
    let head = line_head(score, mode, accumulate);
    let tail = line_tail(score, mode);
    lemma_name_occurs(score, mode, accumulate);
    lemma_correct_occurs(score, mode, accumulate);
    lemma_errors_occur(score, mode, accumulate);
    lemma_time_shown_for_race_only(score, mode, accumulate);
    lemma_rate_shown_for_time_attack_only(score, mode, accumulate);
    assert(line.subrange(line.len() - tail.len(), line.len() as int) =~= tail);
    assert(head + Seq::<char>::empty() =~= head);
}

} // verus!
