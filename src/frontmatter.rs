//! Splitting a note's text into an optional metadata block and a body.
//!
//! A note opens a metadata block when its first line is exactly `---`; the
//! block runs up to the next line that is exactly `---`. Lines end at a line
//! feed, and a carriage return right before that line feed is not part of
//! the line; a final line feed does not start an empty line.
use vstd::prelude::*;

verus! {

/// The line that opens and closes a metadata block.
pub open spec fn delimiter() -> Seq<char> {
    seq!['-', '-', '-']
}

/// Text of a line that starts at `start` and whose line feed stands at `end`.
pub open spec fn line_text(s: Seq<char>, start: int, end: int) -> Seq<char> {
    if start < end && s[end - 1] == '\r' {
        s.subrange(start, end - 1)
    } else {
        s.subrange(start, end)
    }
}

/// The lines of `s` from position `j` on, where the current line began at `start`.
pub open spec fn lines_from(s: Seq<char>, start: int, j: int) -> Seq<Seq<char>>
    decreases s.len() - j,
{
    if j >= s.len() {
        if start < s.len() {
            seq![s.subrange(start, s.len() as int)]
        } else {
            seq![]
        }
    } else if s[j] == '\n' {
        seq![line_text(s, start, j)] + lines_from(s, j + 1, j + 1)
    } else {
        lines_from(s, start, j + 1)
    }
}

/// The lines of `s`.
pub open spec fn lines(s: Seq<char>) -> Seq<Seq<char>> {
    lines_from(s, 0, 0)
}

/// Lines joined back together, with one line feed between neighbours.
pub open spec fn join_lines(ls: Seq<Seq<char>>) -> Seq<char>
    decreases ls.len(),
{
    if ls.len() == 0 {
        seq![]
    } else if ls.len() == 1 {
        ls[0]
    } else {
        join_lines(ls.drop_last()) + seq!['\n'] + ls.last()
    }
}

/// Index of the first delimiter line at or after `k`, or the number of lines.
pub open spec fn closing_from(ls: Seq<Seq<char>>, k: int) -> int
    decreases ls.len() - k,
{
    if k >= ls.len() {
        ls.len() as int
    } else if ls[k] == delimiter() {
        k
    } else {
        closing_from(ls, k + 1)
    }
}

/// The note's first line is the delimiter.
pub open spec fn opens_block(s: Seq<char>) -> bool {
    lines(s).len() > 0 && lines(s)[0] == delimiter()
}

/// Index of the line that closes the block opened by the first line.
pub open spec fn closing_line(s: Seq<char>) -> int {
    closing_from(lines(s), 1)
}

/// A second delimiter line follows the opening one.
pub open spec fn block_closed(s: Seq<char>) -> bool {
    closing_line(s) < lines(s).len()
}

/// The lines between the opening delimiter and the closing one (or the end).
pub open spec fn block_text(s: Seq<char>) -> Seq<char> {
    join_lines(lines(s).subrange(1, closing_line(s)))
}

/// The body: the whole text where no block is opened, else the lines after
/// the closing delimiter (nothing where the block is never closed).
pub open spec fn body_text(s: Seq<char>) -> Seq<char> {
    if !opens_block(s) {
        s
    } else if block_closed(s) {
        join_lines(lines(s).subrange(closing_line(s) + 1, lines(s).len() as int))
    } else {
        seq![]
    }
}

/// No carriage return stands right before a line feed.
pub open spec fn no_crlf(s: Seq<char>) -> bool {
    forall|i: int| 0 <= i < s.len() - 1 ==> !(#[trigger] s[i] == '\r' && s[i + 1] == '\n')
}

/// The lines of `s` up to a line feed at `p - 1`, then those after it.
pub proof fn lemma_lines_split(s: Seq<char>, start: int, j: int, p: int)
    requires
        0 <= start <= j <= p <= s.len(),
        0 < p,
        s[p - 1] == '\n',
        j < p || start == p,
    ensures
        lines_from(s, start, j) == lines_from(s.take(p), start, j) + lines_from(s, p, p),
    decreases p - j,
{
    let t = s.take(p);
    if j == p {
        assert(lines_from(t, start, j) =~= Seq::<Seq<char>>::empty());
        assert(lines_from(s, start, j) =~= lines_from(t, start, j) + lines_from(s, p, p));
    } else if s[j] == '\n' {
        lemma_lines_split(s, j + 1, j + 1, p);
        assert(line_text(s, start, j) =~= line_text(t, start, j));
        assert(lines_from(s, start, j) =~= lines_from(t, start, j) + lines_from(s, p, p));
    } else {
        lemma_lines_split(s, start, j + 1, p);
    }
}

/// Lines do not depend on what precedes the line they start in.
pub proof fn lemma_lines_shift(s: Seq<char>, start: int, j: int, p: int)
    requires
        0 <= p <= start <= j <= s.len(),
    ensures
        lines_from(s, start, j) == lines_from(s.skip(p), start - p, j - p),
    decreases s.len() - j,
{
    let t = s.skip(p);
    if j >= s.len() {
        if start < s.len() {
            assert(s.subrange(start, s.len() as int) =~= t.subrange(start - p, t.len() as int));
        }
    } else if s[j] == '\n' {
        lemma_lines_shift(s, j + 1, j + 1, p);
        assert(line_text(s, start, j) =~= line_text(t, start - p, j - p));
    } else {
        lemma_lines_shift(s, start, j + 1, p);
    }
}

/// Joining a first line to at least one more puts a line feed after it.
pub proof fn lemma_join_front(x: Seq<char>, rest: Seq<Seq<char>>)
    requires
        rest.len() > 0,
    ensures
        join_lines(seq![x] + rest) == x + seq!['\n'] + join_lines(rest),
    decreases rest.len(),
{
    let all = seq![x] + rest;
    assert(all.drop_last() =~= seq![x] + rest.drop_last());
    if rest.len() == 1 {
        assert(all.drop_last() =~= seq![x]);
        assert(join_lines(rest) == rest[0]);
        assert(join_lines(all) =~= x + seq!['\n'] + join_lines(rest));
    } else {
        lemma_join_front(x, rest.drop_last());
        assert(all.last() == rest.last());
        assert(join_lines(all) == join_lines(all.drop_last()) + seq!['\n'] + all.last());
        assert(join_lines(rest) == join_lines(rest.drop_last()) + seq!['\n'] + rest.last());
        assert(join_lines(all) =~= x + seq!['\n'] + join_lines(rest));
    }
}

/// Without carriage returns before line feeds, joining the lines gives the
/// text back, less a final line feed.
pub proof fn lemma_join_lines_from(s: Seq<char>, start: int, j: int)
    requires
        0 <= start <= j <= s.len(),
        start < s.len(),
        no_crlf(s),
        forall|i: int| start <= i < j ==> s[i] != '\n',
    ensures
        join_lines(lines_from(s, start, j)) == s.subrange(
            start,
            if s.last() == '\n' {
                s.len() - 1
            } else {
                s.len() as int
            },
        ),
    decreases s.len() - j,
{
    if j >= s.len() {
        assert(s[s.len() - 1] != '\n');
    } else if s[j] == '\n' {
        assert(line_text(s, start, j) == s.subrange(start, j)) by {
            if start < j {
                assert(!(s[j - 1] == '\r' && s[j] == '\n'));
            }
        }
        if j + 1 == s.len() {
            assert(lines_from(s, j + 1, j + 1) =~= Seq::<Seq<char>>::empty());
            assert(lines_from(s, start, j) =~= seq![s.subrange(start, j)]);
        } else {
            lemma_join_lines_from(s, j + 1, j + 1);
            let rest = lines_from(s, j + 1, j + 1);
            assert(rest.len() > 0) by {
                lemma_lines_nonempty(s, j + 1, j + 1);
            }
            lemma_join_front(s.subrange(start, j), rest);
            assert(join_lines(lines_from(s, start, j)) =~= s.subrange(
                start,
                if s.last() == '\n' {
                    s.len() - 1
                } else {
                    s.len() as int
                },
            ));
        }
    } else {
        lemma_join_lines_from(s, start, j + 1);
    }
}

/// A line that has begun yields at least one line.
pub proof fn lemma_lines_nonempty(s: Seq<char>, start: int, j: int)
    requires
        0 <= start <= j <= s.len(),
        start < s.len(),
    ensures
        lines_from(s, start, j).len() > 0,
    decreases s.len() - j,
{
    if j < s.len() && s[j] != '\n' {
        lemma_lines_nonempty(s, start, j + 1);
    }
}

/// The closing line is the first delimiter line from `k` on.
pub proof fn lemma_closing_at(ls: Seq<Seq<char>>, k: int, m: int)
    requires
        0 <= k <= m <= ls.len(),
        forall|i: int| k <= i < m ==> ls[i] != delimiter(),
        m == ls.len() || ls[m] == delimiter(),
    ensures
        closing_from(ls, k) == m,
    decreases m - k,
{
    if k < m {
        lemma_closing_at(ls, k + 1, m);
    }
}

/// The lines of a delimiter line followed by `rest`.
pub proof fn lemma_lines_after_delimiter(rest: Seq<char>)
    ensures
        lines(delimiter() + seq!['\n'] + rest) == seq![delimiter()] + lines(rest),
{
    let s = delimiter() + seq!['\n'] + rest;
    lemma_lines_split(s, 0, 0, 4);
    lemma_lines_shift(s, 4, 4, 4);
    assert(s.skip(4) =~= rest);
    let head = s.take(4);
    assert(head =~= seq!['-', '-', '-', '\n']);
    reveal_with_fuel(lines_from, 6);
    assert(line_text(head, 0, 3) =~= delimiter());
    assert(lines_from(head, 0, 0) =~= seq![delimiter()]);
}

/// The text of each span.
pub open spec fn span_texts(s: Seq<char>, spans: Seq<(usize, usize)>) -> Seq<Seq<char>> {
    spans.map_values(|p: (usize, usize)| s.subrange(p.0 as int, p.1 as int))
}

pub open spec fn spans_within(s: Seq<char>, spans: Seq<(usize, usize)>) -> bool {
    forall|k: int|
        0 <= k < spans.len() ==> (#[trigger] spans[k]).0 <= spans[k].1 && spans[k].1 <= s.len()
}

/// A note split at its metadata block.
#[derive(Debug)]
pub enum Frontmatter {
    /// The first line is not the delimiter: all of the text is body.
    Absent { body: String },
    /// The first line is the delimiter.
    Present { block: String, closed: bool, body: String },
}

/// The frontmatter split of `s`, as `split_frontmatter` returns it.
pub open spec fn splits_as(s: Seq<char>, f: Frontmatter) -> bool {
    match f {
        Frontmatter::Absent { body } => !opens_block(s) && body@ == s,
        Frontmatter::Present { block, closed, body } => {
            &&& opens_block(s)
            &&& block@ == block_text(s)
            &&& closed == block_closed(s)
            &&& body@ == body_text(s)
        },
    }
}

fn chars_of(s: &str) -> (r: Vec<char>)
    ensures
        r@ == s@,
{
    broadcast use vstd::string::axiom_spec_iter;

    let mut v: Vec<char> = Vec::new();
    for c in it: s.chars()
        invariant
            it.seq() == s@,
            v@ == it.seq().take(it.index() as int),
    {
        v.push(c);
    }
    v
}

fn line_spans(chars: &Vec<char>) -> (r: Vec<(usize, usize)>)
    ensures
        span_texts(chars@, r@) == lines(chars@),
        spans_within(chars@, r@),
{
    let ghost s = chars@;
    let mut spans: Vec<(usize, usize)> = Vec::new();
    let mut start: usize = 0;
    let mut j: usize = 0;
    while j < chars.len()
        invariant
            s == chars@,
            start <= j <= chars.len(),
            span_texts(s, spans@) + lines_from(s, start as int, j as int) == lines(s),
            spans_within(s, spans@),
        decreases chars.len() - j,
    {
        if chars[j] == '\n' {
            let end: usize = if start < j && chars[j - 1] == '\r' {
                j - 1
            } else {
                j
            };
            let ghost old_spans = spans@;
            spans.push((start, end));
            proof {
                assert(span_texts(s, spans@) =~= span_texts(s, old_spans).push(
                    line_text(s, start as int, j as int),
                ));
                assert(span_texts(s, spans@) + lines_from(s, j + 1, j + 1) =~= span_texts(
                    s,
                    old_spans,
                ) + lines_from(s, start as int, j as int));
            }
            start = j + 1;
        }
        j = j + 1;
    }
    if start < chars.len() {
        let ghost old_spans = spans@;
        spans.push((start, chars.len()));
        proof {
            assert(span_texts(s, spans@) =~= span_texts(s, old_spans) + lines_from(
                s,
                start as int,
                j as int,
            ));
        }
    } else {
        assert(span_texts(s, spans@) =~= span_texts(s, spans@) + lines_from(
            s,
            start as int,
            j as int,
        ));
    }
    spans
}

fn is_delimiter(chars: &Vec<char>, span: (usize, usize)) -> (r: bool)
    requires
        span.0 <= span.1 <= chars.len(),
    ensures
        r == (chars@.subrange(span.0 as int, span.1 as int) == delimiter()),
{
    let (a, b) = span;
    if b - a != 3 {
        assert(chars@.subrange(a as int, b as int).len() != delimiter().len());
        return false;
    }
    let r = chars[a] == '-' && chars[a + 1] == '-' && chars[a + 2] == '-';
    if r {
        assert(chars@.subrange(a as int, b as int) =~= delimiter());
    } else {
        assert(chars@.subrange(a as int, b as int) != delimiter()) by {
            if chars@.subrange(a as int, b as int) == delimiter() {
                assert(chars@.subrange(a as int, b as int)[0] == '-');
                assert(chars@.subrange(a as int, b as int)[1] == '-');
                assert(chars@.subrange(a as int, b as int)[2] == '-');
            }
        }
    }
    r
}

fn join_spans(s: &str, spans: &Vec<(usize, usize)>, from: usize, to: usize) -> (r: String)
    requires
        from <= to <= spans.len(),
        spans_within(s@, spans@),
    ensures
        r@ == join_lines(span_texts(s@, spans@).subrange(from as int, to as int)),
{
    let ghost ls = span_texts(s@, spans@);
    let mut out = String::new();
    let mut i: usize = from;
    while i < to
        invariant
            ls == span_texts(s@, spans@),
            from <= i <= to <= spans.len(),
            spans_within(s@, spans@),
            out@ == join_lines(ls.subrange(from as int, i as int)),
        decreases to - i,
    {
        let (a, b) = spans[i];
        assert(spans@[i as int].0 <= spans@[i as int].1 <= s@.len());
        let ghost before = out@;
        if i > from {
            out.append("\n");
        }
        out.append(s.substring_char(a, b));
        proof {
            reveal_strlit("\n");
            let next = ls.subrange(from as int, i + 1);
            if i > from {
                assert(next.drop_last() =~= ls.subrange(from as int, i as int));
                assert(out@ =~= before + seq!['\n'] + ls[i as int]);
            } else {
                assert(out@ =~= ls[i as int]);
            }
        }
        i = i + 1;
    }
    out
}

fn find_closing(chars: &Vec<char>, spans: &Vec<(usize, usize)>) -> (r: usize)
    requires
        spans.len() >= 1,
        spans_within(chars@, spans@),
    ensures
        r as int == closing_from(span_texts(chars@, spans@), 1),
        1 <= r <= spans.len(),
{
    let ghost ls = span_texts(chars@, spans@);
    let mut k: usize = 1;
    while k < spans.len()
        invariant
            ls == span_texts(chars@, spans@),
            1 <= k <= spans.len(),
            spans_within(chars@, spans@),
            closing_from(ls, k as int) == closing_from(ls, 1),
        decreases spans.len() - k,
    {
        assert(spans@[k as int].0 <= spans@[k as int].1 <= chars@.len());
        if is_delimiter(chars, spans[k]) {
            return k;
        }
        k = k + 1;
    }
    k
}

/// Splits a note's text at its metadata block.
pub fn split_frontmatter(content: &str) -> (r: Frontmatter)
    ensures
        splits_as(content@, r),
{
    let chars = chars_of(content);
    let spans = line_spans(&chars);
    let ghost ls = lines(content@);
    if spans.len() == 0 {
        return Frontmatter::Absent { body: content.to_owned() };
    }
    assert(spans@[0].0 <= spans@[0].1 <= chars@.len());
    if !is_delimiter(&chars, spans[0]) {
        return Frontmatter::Absent { body: content.to_owned() };
    }
    let k = find_closing(&chars, &spans);
    let block = join_spans(content, &spans, 1, k);
    let closed = k < spans.len();
    let body = if closed {
        join_spans(content, &spans, k + 1, spans.len())
    } else {
        String::new()
    };
    Frontmatter::Present { block, closed, body }
}

} // verus!
