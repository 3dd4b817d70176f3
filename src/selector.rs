use crate::clock::{digit_char, push_digit};
use vstd::prelude::*;

verus! {

/// The number of newline characters in `s`.
pub open spec fn newline_count(s: Seq<char>) -> nat
    decreases s.len(),
{
    if s.len() == 0 {
        0
    } else {
        newline_count(s.drop_last()) + if s.last() == '\n' {
            1nat
        } else {
            0nat
        }
    }
}

/// The number of lines of `s`: one per newline, and one more for text after the
/// last newline.
pub open spec fn line_count(s: Seq<char>) -> nat {
    newline_count(s) + if s.len() > 0 && s.last() != '\n' {
        1nat
    } else {
        0nat
    }
}

/// `n` in decimal, without leading zeros.
pub open spec fn decimal_text(n: nat) -> Seq<char>
    decreases n,
{
    if n < 10 {
        seq![digit_char(n as int)]
    } else {
        decimal_text(n / 10) + seq![digit_char((n % 10) as int)]
    }
}

proof fn lemma_newline_count_bound(s: Seq<char>)
    ensures
        newline_count(s) <= s.len(),
    decreases s.len(),
{
    if s.len() > 0 {
        lemma_newline_count_bound(s.drop_last());
    }
}

/// Counts the lines of `text`.
pub fn count_lines(text: &str) -> (r: usize)
    ensures
        r == line_count(text@),
{
    let len = text.unicode_len();
    let mut count: usize = 0;
    let mut i: usize = 0;
    while i < len
        invariant
            len == text@.len(),
            i <= len,
            count == newline_count(text@.subrange(0, i as int)),
            count <= i,
        decreases len - i,
    {
        assert(text@.subrange(0, i + 1).drop_last() =~= text@.subrange(0, i as int));
        if text.get_char(i) == '\n' {
            count += 1;
        }
        i += 1;
    }
    assert(text@.subrange(0, i as int) =~= text@);
    if len > 0 && text.get_char(len - 1) != '\n' {
        proof {
            lemma_newline_count_bound(text@.drop_last());
        }
        count += 1;
    }
    count
}

/// Appends `n` in decimal to `s`.
pub fn push_decimal(s: &mut String, n: u64)
    ensures
        final(s)@ == old(s)@ + decimal_text(n as nat),
    decreases n,
{
    if n < 10 {
        push_digit(s, n);
    } else {
        push_decimal(s, n / 10);
        push_digit(s, n % 10);
        assert(final(s)@ =~= old(s)@ + decimal_text(n as nat));
    }
}

/// The command line that shows `block` in the selector: the program, then
/// `-i -l <lines> -p >`.
pub fn selector_command(block: &str) -> (r: Vec<String>)
    ensures
        r@.len() == 6,
        r@[0]@ == seq!['d', 'm', 'e', 'n', 'u'],
        r@[1]@ == seq!['-', 'i'],
        r@[2]@ == seq!['-', 'l'],
        r@[3]@ == decimal_text(line_count(block@)),
        r@[4]@ == seq!['-', 'p'],
        r@[5]@ == seq!['>'],
{
    let n = count_lines(block);
    let mut lines = String::new();
    push_decimal(&mut lines, n as u64);
    assert(lines@ =~= decimal_text(n as nat));
    proof {
        reveal_strlit("dmenu");
        reveal_strlit("-i");
        reveal_strlit("-l");
        reveal_strlit("-p");
        reveal_strlit(">");
    }
    let mut r: Vec<String> = Vec::new();
    r.push("dmenu".to_string());
    r.push("-i".to_string());
    r.push("-l".to_string());
    r.push(lines);
    r.push("-p".to_string());
    r.push(">".to_string());
    assert(r@[0]@ =~= seq!['d', 'm', 'e', 'n', 'u']);
    assert(r@[1]@ =~= seq!['-', 'i']);
    assert(r@[2]@ =~= seq!['-', 'l']);
    assert(r@[4]@ =~= seq!['-', 'p']);
    assert(r@[5]@ =~= seq!['>']);
    r
}

} // verus!
