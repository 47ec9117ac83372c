//! The line protocol: two integers on a line in, one line with the result out.

use vstd::prelude::*;

use crate::compute::{compute_checked, fits, law_value_is_cube_and_five_times, value};
use crate::text::{
    all_space, chars_of, dec_int, i64_written, is_decimal_of, is_space,
    law_integers_are_written_in_decimal, law_trim_drops_the_white_space_around,
    law_words_stand_between_white_space, no_space, parse_i64, push_i64, same_text, split_words,
    text_of, trim, trimmed, words,
};

verus! {

/// What comes of a line.
pub enum Answer {
    /// The loop ends.
    Quit,
    /// Nothing is written.
    Skip,
    /// This line is written.
    Line(String),
    /// A step of the computation does not fit in 64 bits: the worker cannot go on.
    Overflow,
}

/// What an [`Answer`] holds.
pub ghost enum AnswerView {
    Quit,
    Skip,
    Line(Seq<char>),
    Overflow,
}

impl View for Answer {
    type V = AnswerView;

    open spec fn view(&self) -> AnswerView {
        match self {
            Answer::Quit => AnswerView::Quit,
            Answer::Skip => AnswerView::Skip,
            Answer::Line(s) => AnswerView::Line(s@),
            Answer::Overflow => AnswerView::Overflow,
        }
    }
}

/// What comes of the words of a line.
pub open spec fn words_answer(ws: Seq<Seq<char>>) -> AnswerView {
    if ws.len() != 2 {
        AnswerView::Line("ERROR=bad_input"@)
    } else {
        match (i64_written(ws[0]), i64_written(ws[1])) {
            (None, _) => AnswerView::Line("ERROR=bad_x"@),
            (Some(_), None) => AnswerView::Line("ERROR=bad_y"@),
            (Some(x), Some(y)) => if fits(x, y) {
                AnswerView::Line("RESULT="@ + dec_int(value(x as int, y as int)))
            } else {
                AnswerView::Overflow
            },
        }
    }
}

/// What comes of a line.
pub open spec fn line_answer(line: Seq<char>) -> AnswerView {
    let t = trimmed(line);
    if t == "quit"@ || t == "exit"@ {
        AnswerView::Quit
    } else if t.len() == 0 {
        AnswerView::Skip
    } else {
        words_answer(words(t))
    }
}

/// Answers one line.
pub fn respond(line: &str) -> (out: Answer)
    ensures
        out@ == line_answer(line@),
{
    let chars = chars_of(line);
    let t = trim(chars.as_slice());
    let text = text_of(t);
    if same_text(text.as_str(), "quit") || same_text(text.as_str(), "exit") {
        return Answer::Quit;
    }
    if t.len() == 0 {
        return Answer::Skip;
    }
    let parts = split_words(t);
    if parts.len() != 2 {
        return Answer::Line("ERROR=bad_input".to_owned());
    }
    let x: i64 = match parse_i64(parts[0]) {
        Some(x) => x,
        None => return Answer::Line("ERROR=bad_x".to_owned()),
    };
    let y: i64 = match parse_i64(parts[1]) {
        Some(y) => y,
        None => return Answer::Line("ERROR=bad_y".to_owned()),
    };
    match compute_checked(x, y) {
        Some(result) => {
            let mut text = "RESULT=".to_owned();
            push_i64(&mut text, result);
            Answer::Line(text)
        },
        None => Answer::Overflow,
    }
}

/// Two words on a line, with any white space around them, are read as integers and answered with
/// the decimal form of `x`³ + 5`y`. A word that is no integer is told, the first one first.
pub proof fn law_two_words_are_computed(
    s0: Seq<char>,
    a: Seq<char>,
    s1: Seq<char>,
    b: Seq<char>,
    s2: Seq<char>,
)
    requires
        all_space(s0) && all_space(s1) && all_space(s2),
        s1.len() > 0,
        no_space(a) && a.len() > 0,
        no_space(b) && b.len() > 0,
    ensures
        ({
            let out = line_answer(s0 + a + s1 + b + s2);
            match (i64_written(a), i64_written(b)) {
                (None, _) => out == AnswerView::Line("ERROR=bad_x"@),
                (Some(_), None) => out == AnswerView::Line("ERROR=bad_y"@),
                (Some(x), Some(y)) => {
                    let fit = -0x20_0000 <= x < 0x20_0000 && -1844674407370955161 <= y
                        <= 1844674407370955161 && i64::MIN <= x * x * x + 5 * y <= i64::MAX;
                    &&& (!fit ==> out is Overflow)
                    &&& (fit ==> {
                        &&& out matches AnswerView::Line(t)
                        &&& "RESULT="@.is_prefix_of(t)
                        &&& is_decimal_of(t.skip("RESULT="@.len() as int), x * x * x + 5 * y)
                    })
                },
            }
        }),
{
    let t = a + s1 + b;
    let e = Seq::<char>::empty();
    assert(s0 + a + s1 + b + s2 =~= s0 + t + s2);
    assert(t[0] == a[0] && t.last() == b.last());
    law_trim_drops_the_white_space_around(s0, t, s2);
    assert(is_space(t[a.len() as int])) by {
        assert(t[a.len() as int] == s1[0]);
    }
    reveal_strlit("quit");
    reveal_strlit("exit");
    lemma_no_space_in_commands();
    assert(t =~= e + a + (s1 + b));
    assert((s1 + b)[0] == s1[0]);
    law_words_stand_between_white_space(e, a, s1 + b);
    assert(s1 + b =~= s1 + b + e);
    law_words_stand_between_white_space(s1, b, e);
    assert(all_space(e));
    law_words_stand_between_white_space(e, b, e);
    assert(words(e) == Seq::<Seq<char>>::empty());
    assert(words(t) =~= seq![a, b]);
    if let (Some(x), Some(y)) = (i64_written(a), i64_written(b)) {
        law_value_is_cube_and_five_times(x, y);
        let v = x * x * x + 5 * y;
        law_integers_are_written_in_decimal(v);
        let r = "RESULT="@ + dec_int(v);
        assert(r.skip("RESULT="@.len() as int) =~= dec_int(v));
        assert(r.take("RESULT="@.len() as int) =~= "RESULT="@);
    }
}

/// The two words that end the loop have no white space in them.
proof fn lemma_no_space_in_commands()
    ensures
        no_space("quit"@) && "quit"@.len() > 0,
        no_space("exit"@) && "exit"@.len() > 0,
{
    reveal_strlit("quit");
    reveal_strlit("exit");
}

/// A line of nothing but white space is passed over; one of `quit` or `exit` ends the loop; any
/// other single word, and three words or more, are bad input.
pub proof fn law_other_lines_are_told_apart(
    s0: Seq<char>,
    a: Seq<char>,
    s1: Seq<char>,
    b: Seq<char>,
    s2: Seq<char>,
    c: Seq<char>,
    s3: Seq<char>,
    rest: Seq<char>,
)
    requires
        all_space(s0) && all_space(s1) && all_space(s2) && all_space(s3),
        s1.len() > 0 && s2.len() > 0,
        no_space(a) && a.len() > 0,
        no_space(b) && b.len() > 0,
        no_space(c) && c.len() > 0,
        rest.len() == 0 || (is_space(rest[0]) && !is_space(rest.last())),
    ensures
        line_answer(s0) == AnswerView::Skip,
        a == "quit"@ || a == "exit"@ ==> line_answer(s0 + a + s3) == AnswerView::Quit,
        a != "quit"@ && a != "exit"@ ==> line_answer(s0 + a + s3) == AnswerView::Line(
            "ERROR=bad_input"@,
        ),
        line_answer(s0 + (a + s1 + b + s2 + c + rest) + s3) == AnswerView::Line(
            "ERROR=bad_input"@,
        ),
{
    let e = Seq::<char>::empty();
    lemma_no_space_in_commands();
    assert(all_space(e));
    law_trim_drops_the_white_space_around(s0, e, e);
    assert(s0 + e + e =~= s0);
    law_trim_drops_the_white_space_around(s0, a, s3);
    law_words_stand_between_white_space(e, a, e);
    assert(e + a + e =~= a);
    assert(words(a) =~= seq![a]);
    let t = a + s1 + b + s2 + c + rest;
    assert(t.last() == if rest.len() == 0 { c.last() } else { rest.last() });
    assert(t[0] == a[0]);
    law_trim_drops_the_white_space_around(s0, t, s3);
    assert(is_space(t[a.len() as int])) by {
        assert(t[a.len() as int] == s1[0]);
    }
    let u = s1 + b + (s2 + c + rest);
    assert(t =~= e + a + u);
    assert(u[0] == s1[0]);
    law_words_stand_between_white_space(e, a, u);
    assert((s2 + c + rest)[0] == s2[0]);
    law_words_stand_between_white_space(s1, b, s2 + c + rest);
    law_words_stand_between_white_space(s2, c, rest);
    assert(words(t).len() >= 3);
}

} // verus!
