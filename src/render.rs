use crate::clock::{digit_char, hour12_text, offset_text, second_of_day, time_text, time_text_of, two_digits};
use crate::entry::ResolvedEntry;
use crate::error::TzError;
use crate::order::{is_offset_order, offset_order_by, sort_by_offset};
use crate::selector::{line_count, newline_count};
use vstd::prelude::*;

verus! {

/// The longest display name of `s`, in characters (0 for no entries).
pub open spec fn max_name_len(s: Seq<ResolvedEntry>) -> nat
    decreases s.len(),
{
    if s.len() == 0 {
        0
    } else {
        let m = max_name_len(s.drop_last());
        let l = s.last().display_name@.len();
        if l > m {
            l
        } else {
            m
        }
    }
}

/// `n` spaces.
pub open spec fn spaces(n: nat) -> Seq<char> {
    Seq::new(n, |_i: int| ' ')
}

/// The text of the time field of `e`.
pub open spec fn time_field(e: ResolvedEntry) -> Seq<char> {
    time_text(e.instant as int, e.offset_seconds as int)
}

/// One row without its terminator: the name padded with spaces to `width + 1`
/// characters, then the time field.
pub open spec fn line_text(e: ResolvedEntry, width: nat) -> Seq<char> {
    e.display_name@ + spaces((width + 1 - e.display_name@.len()) as nat) + time_field(e)
}

/// The rows of `s` at name width `width`, each followed by a newline.
pub open spec fn block_text(s: Seq<ResolvedEntry>, width: nat) -> Seq<char>
    decreases s.len(),
{
    if s.len() == 0 {
        Seq::empty()
    } else {
        block_text(s.drop_last(), width) + line_text(s.last(), width) + seq!['\n']
    }
}

/// The block for `s` in the order given, aligned on its longest name.
pub open spec fn rendered(s: Seq<ResolvedEntry>) -> Seq<char> {
    block_text(s, max_name_len(s))
}

/// Every entry has an offset within a day of UTC.
pub open spec fn all_wf(s: Seq<ResolvedEntry>) -> bool {
    forall|i: int| 0 <= i < s.len() ==> (#[trigger] s[i]).wf()
}

/// The length in characters of the longest display name.
pub fn max_name_width(entries: &Vec<ResolvedEntry>) -> (r: usize)
    ensures
        r == max_name_len(entries@),
{
    let mut best: usize = 0;
    let mut i: usize = 0;
    while i < entries.len()
        invariant
            i <= entries@.len(),
            best == max_name_len(entries@.subrange(0, i as int)),
        decreases entries@.len() - i,
    {
        let l = entries[i].display_name.as_str().unicode_len();
        assert(entries@.subrange(0, i + 1).drop_last() =~= entries@.subrange(0, i as int));
        if l > best {
            best = l;
        }
        i += 1;
    }
    assert(entries@.subrange(0, i as int) =~= entries@);
    best
}

/// Appends `n` spaces to `s`.
fn push_spaces(s: &mut String, n: usize)
    ensures
        final(s)@ == old(s)@ + spaces(n as nat),
{
    let mut k: usize = 0;
    while k < n
        invariant
            k <= n,
            s@ == old(s)@ + spaces(k as nat),
        decreases n - k,
    {
        proof {
            reveal_strlit(" ");
        }
        s.append(" ");
        k += 1;
        assert(s@ =~= old(s)@ + spaces(k as nat));
    }
}

/// Renders one row for `e`, its name padded to `width + 1` characters.
pub fn render_line(e: &ResolvedEntry, width: usize) -> (r: String)
    requires
        e.wf(),
        e.display_name@.len() <= width,
    ensures
        r@ == line_text(*e, width as nat),
{
    let mut s = e.display_name.clone();
    let l = e.display_name.as_str().unicode_len();
    push_spaces(&mut s, width - l);
    push_spaces(&mut s, 1);
    assert(spaces((width - l) as nat) + spaces(1) =~= spaces((width + 1 - l) as nat));
    let t = time_text_of(e.instant, e.offset_seconds);
    s.append(t.as_str());
    s
}

proof fn lemma_max_name_len_bounds(s: Seq<ResolvedEntry>, i: int)
    requires
        0 <= i < s.len(),
    ensures
        s[i].display_name@.len() <= max_name_len(s),
    decreases s.len(),
{
    if i < s.len() - 1 {
        lemma_max_name_len_bounds(s.drop_last(), i);
    }
}

/// Renders the entries, in the order given, as aligned rows: each name padded with
/// spaces to one more than the longest name, then the time, then a newline.
pub fn render_block(entries: &Vec<ResolvedEntry>) -> (r: String)
    requires
        all_wf(entries@),
    ensures
        r@ == rendered(entries@),
{
    let width = max_name_width(entries);
    let mut s = String::new();
    let mut i: usize = 0;
    while i < entries.len()
        invariant
            i <= entries@.len(),
            width == max_name_len(entries@),
            all_wf(entries@),
            s@ == block_text(entries@.subrange(0, i as int), width as nat),
        decreases entries@.len() - i,
    {
        proof {
            lemma_max_name_len_bounds(entries@, i as int);
            reveal_strlit("\n");
        }
        let line = render_line(&entries[i], width);
        s.append(line.as_str());
        s.append("\n");
        assert(entries@.subrange(0, i + 1).drop_last() =~= entries@.subrange(0, i as int));
        i += 1;
    }
    assert(entries@.subrange(0, i as int) =~= entries@);
    s
}

/// Sorts the entries by descending UTC offset and renders them. An empty list has no
/// width to align on and is refused.
pub fn format_entries(entries: Vec<ResolvedEntry>) -> (r: Result<String, TzError>)
    requires
        all_wf(entries@),
    ensures
        entries@.len() == 0 <==> r == Err::<String, TzError>(TzError::EmptyConfigError),
        r is Err ==> r == Err::<String, TzError>(TzError::EmptyConfigError),
        r matches Ok(s) ==> exists|sorted: Seq<ResolvedEntry>|
            is_offset_order(entries@, sorted) && s@ == rendered(sorted),
{
    if entries.len() == 0 {
        return Err(TzError::EmptyConfigError);
    }
    let ghost input = entries@;
    let sorted = sort_by_offset(entries);
    proof {
        let perm = choose|perm: Seq<int>| crate::order::offset_order_by(input, perm, sorted@);
        assert forall|i: int| 0 <= i < sorted@.len() implies (#[trigger] sorted@[i]).wf() by {
            assert(sorted@[i] == input[perm[i]]);
        }
    }
    let s = render_block(&sorted);
    Ok(s)
}

/// No character of `s` is a newline.
pub open spec fn no_newline(s: Seq<char>) -> bool {
    forall|k: int| 0 <= k < s.len() ==> s[k] != '\n'
}

/// Every newline of `b` ends a non-empty line: none is first, none follows another.
pub open spec fn no_blank_line(b: Seq<char>) -> bool {
    forall|k: int| 0 <= k < b.len() && #[trigger] b[k] == '\n' ==> k > 0 && b[k - 1] != '\n'
}

proof fn lemma_newline_count_concat(a: Seq<char>, b: Seq<char>)
    ensures
        newline_count(a + b) == newline_count(a) + newline_count(b),
    decreases b.len(),
{
    if b.len() == 0 {
        assert(a + b =~= a);
    } else {
        lemma_newline_count_concat(a, b.drop_last());
        assert((a + b).drop_last() =~= a + b.drop_last());
    }
}

proof fn lemma_no_newline_count(s: Seq<char>)
    requires
        no_newline(s),
    ensures
        newline_count(s) == 0,
    decreases s.len(),
{
    if s.len() > 0 {
        lemma_no_newline_count(s.drop_last());
    }
}

proof fn lemma_digit_char(d: int)
    requires
        0 <= d < 10,
    ensures
        digit_char(d) != '\n',
{
    let t = seq!['0', '1', '2', '3', '4', '5', '6', '7', '8', '9'];
    assert(t[d] != '\n');
}

proof fn lemma_two_digits(n: int)
    requires
        0 <= n < 100,
    ensures
        no_newline(two_digits(n)),
{
    lemma_digit_char(n / 10);
    lemma_digit_char(n % 10);
}

proof fn lemma_time_field_no_newline(e: ResolvedEntry)
    requires
        e.wf(),
    ensures
        no_newline(time_field(e)),
        time_field(e).len() > 0,
{
    let sod = second_of_day(e.instant as int, e.offset_seconds as int);
    let h24 = sod / 3600;
    let h = if h24 % 12 == 0 { 12 } else { h24 % 12 };
    lemma_digit_char(h % 10);
    lemma_two_digits(h);
    assert(no_newline(hour12_text(h24)));
    lemma_two_digits((sod % 3600) / 60);
    let off = e.offset_seconds as int;
    let mag = if off < 0 { -off } else { off };
    let mins = (mag + 30) / 60;
    lemma_two_digits(mins / 60);
    lemma_two_digits(mins % 60);
    assert(no_newline(offset_text(off)));
}

proof fn lemma_block_lines(s: Seq<ResolvedEntry>, width: nat)
    requires
        all_wf(s),
        forall|i: int| 0 <= i < s.len() ==> no_newline(#[trigger] s[i].display_name@),
    ensures
        newline_count(block_text(s, width)) == s.len(),
        s.len() > 0 ==> block_text(s, width).last() == '\n',
        no_blank_line(block_text(s, width)),
    decreases s.len(),
{
    if s.len() > 0 {
        let prev = block_text(s.drop_last(), width);
        let e = s.last();
        let line = line_text(e, width);
        assert(s[s.len() - 1] == e);
        lemma_block_lines(s.drop_last(), width);
        lemma_time_field_no_newline(e);
        assert(no_newline(line));
        lemma_no_newline_count(line);
        lemma_newline_count_concat(prev, line);
        lemma_newline_count_concat(prev + line, seq!['\n']);
        assert(newline_count(seq!['\n']) == 1) by {
            let nl = seq!['\n'];
            assert(nl.drop_last() =~= Seq::<char>::empty());
            assert(nl.last() == '\n');
            assert(newline_count(nl.drop_last()) == 0);
        }
        let b = block_text(s, width);
        assert(b == prev + line + seq!['\n']);
        assert forall|k: int| 0 <= k < b.len() && #[trigger] b[k] == '\n' implies k > 0 && b[k - 1] != '\n' by {
            if k < prev.len() {
                assert(b[k] == prev[k]);
                assert(b[k - 1] == prev[k - 1]);
            } else if k < prev.len() + line.len() {
                assert(b[k] == line[k - prev.len()]);
            } else {
                assert(b[k - 1] == line[line.len() - 1]);
            }
        }
    }
}

/// The formatter's output has exactly one line per input entry and no blank line,
/// whatever order the entries are sorted into, provided no display name holds a
/// newline.
pub proof fn lemma_one_line_per_entry(entries: Seq<ResolvedEntry>, sorted: Seq<ResolvedEntry>)
    requires
        all_wf(entries),
        forall|i: int| 0 <= i < entries.len() ==> no_newline(#[trigger] entries[i].display_name@),
        is_offset_order(entries, sorted),
    ensures
        line_count(rendered(sorted)) == entries.len(),
        no_blank_line(rendered(sorted)),
{
    let perm = choose|perm: Seq<int>| offset_order_by(entries, perm, sorted);
    assert forall|i: int| 0 <= i < sorted.len() implies (#[trigger] sorted[i]).wf() && no_newline(
        sorted[i].display_name@,
    ) by {
        assert(sorted[i] == entries[perm[i]]);
    }
    lemma_block_lines(sorted, max_name_len(sorted));
}

/// In a rendered block every line's time field starts at the same column, one past
/// the longest display name: line `i` is the name, then spaces up to that column,
/// then the time field.
pub proof fn lemma_time_column(s: Seq<ResolvedEntry>, i: int)
    requires
        0 <= i < s.len(),
    ensures
        ({
            let w = max_name_len(s);
            let name = s[i].display_name@;
            let line = line_text(s[i], w);
            &&& line.subrange(0, name.len() as int) == name
            &&& forall|k: int| name.len() <= k < w + 1 ==> line[k] == ' '
            &&& line.subrange(w + 1int, line.len() as int) == time_field(s[i])
        }),
{
    let w = max_name_len(s);
    let name = s[i].display_name@;
    let line = line_text(s[i], w);
    lemma_max_name_len_bounds(s, i);
    let pad = spaces((w + 1 - name.len()) as nat);
    assert(line.subrange(0, name.len() as int) =~= name);
    assert(line.subrange(w + 1int, line.len() as int) =~= time_field(s[i]));
    assert forall|k: int| name.len() <= k < w + 1 implies line[k] == ' ' by {
        assert(line[k] == pad[k - name.len()]);
    }
}

} // verus!
