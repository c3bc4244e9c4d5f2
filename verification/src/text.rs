//! Characters and strings as sequences: the conversions the rest of the
//! library builds on.
use vstd::prelude::*;

verus! {

/// `String::push` appends the given character to the end of the string.
pub assume_specification[ String::push ](s: &mut String, c: char)
    ensures
        final(s)@ == old(s)@.push(c),
;

/// The characters of `s`, in order.
pub fn chars_of(s: &str) -> (v: Vec<char>)
    ensures
        v@ == s@,
{
    let mut v: Vec<char> = Vec::new();
    for c in it: s.chars()
        invariant
            it.seq() == s@,
            v@ == s@.take(it.index() as int),
    {
        v.push(c);
    }
    v
}

/// The string made of the characters of `v`, in order.
pub fn string_of(v: &Vec<char>) -> (s: String)
    ensures
        s@ == v@,
{
    let mut s = String::new();
    let mut i: usize = 0;
    while i < v.len()
        invariant
            i <= v.len(),
            s@ == v@.take(i as int),
        decreases v.len() - i,
    {
        s.push(v[i]);
        i += 1;
    }
    s
}

/// Whether two texts hold the same characters.
pub fn str_eq(a: &str, b: &str) -> (r: bool)
    ensures
        r == (a@ == b@),
{
    let x = a.to_owned();
    let y = b.to_owned();
    x == y
}

/// The character that writes the digit `d`.
pub open spec fn digit_char(d: nat) -> char
    recommends
        d < 10,
{
    if d == 0 {
        '0'
    } else if d == 1 {
        '1'
    } else if d == 2 {
        '2'
    } else if d == 3 {
        '3'
    } else if d == 4 {
        '4'
    } else if d == 5 {
        '5'
    } else if d == 6 {
        '6'
    } else if d == 7 {
        '7'
    } else if d == 8 {
        '8'
    } else {
        '9'
    }
}

/// The decimal numeral of `n`, without leading zeros.
pub open spec fn decimal(n: nat) -> Seq<char>
    decreases n,
{
    if n < 10 {
        seq![digit_char(n)]
    } else {
        decimal(n / 10).push(digit_char(n % 10))
    }
}

fn digit(d: u64) -> (c: char)
    requires
        d < 10,
    ensures
        c == digit_char(d as nat),
{
    if d == 0 {
        '0'
    } else if d == 1 {
        '1'
    } else if d == 2 {
        '2'
    } else if d == 3 {
        '3'
    } else if d == 4 {
        '4'
    } else if d == 5 {
        '5'
    } else if d == 6 {
        '6'
    } else if d == 7 {
        '7'
    } else if d == 8 {
        '8'
    } else {
        '9'
    }
}

fn push_decimal(out: &mut String, n: u64)
    ensures
        final(out)@ == old(out)@ + decimal(n as nat),
    decreases n,
{
    if n < 10 {
        out.push(digit(n));
    } else {
        push_decimal(out, n / 10);
        out.push(digit(n % 10));
    }
}

/// The decimal numeral of `n`.
pub fn decimal_string(n: u64) -> (s: String)
    ensures
        s@ == decimal(n as nat),
{
    let mut s = String::new();
    push_decimal(&mut s, n);
    s
}

/// `a` followed by `b`.
pub fn followed_by(a: &str, b: &str) -> (s: String)
    ensures
        s@ == a@ + b@,
{
    let mut s = a.to_owned();
    s.append(b);
    s
}

/// Whether `c` is white space, as Unicode defines it.
pub open spec fn is_space(c: char) -> bool {
    let n = c as u32;
    ||| 0x09 <= n <= 0x0D
    ||| n == 0x20
    ||| n == 0x85
    ||| n == 0xA0
    ||| n == 0x1680
    ||| 0x2000 <= n <= 0x200A
    ||| n == 0x2028
    ||| n == 0x2029
    ||| n == 0x202F
    ||| n == 0x205F
    ||| n == 0x3000
}

/// Whether `c` is white space.
pub fn is_whitespace(c: char) -> (r: bool)
    ensures
        r == is_space(c),
{
    let n: u32 = c as u32;
    (0x09 <= n && n <= 0x0D) || n == 0x20 || n == 0x85 || n == 0xA0 || n == 0x1680 || (0x2000
        <= n && n <= 0x200A) || n == 0x2028 || n == 0x2029 || n == 0x202F || n == 0x205F || n
        == 0x3000
}

/// The texts that a sequence of strings holds.
pub open spec fn texts(v: Seq<String>) -> Seq<Seq<char>> {
    Seq::new(v.len(), |i: int| v[i]@)
}

/// The character sequences that a sequence of buffers holds.
pub open spec fn rows(v: Seq<Vec<char>>) -> Seq<Seq<char>> {
    Seq::new(v.len(), |i: int| v[i]@)
}

/// How many characters stand before the first white space of `s`.
pub open spec fn word_len(s: Seq<char>) -> nat
    decreases s.len(),
{
    if s.len() > 0 && !is_space(s[0]) {
        1 + word_len(s.drop_first())
    } else {
        0
    }
}

/// `word_len(s)` is the place of the first white space of `s`, or the length
/// of `s` where it has none.
pub proof fn lemma_word_len(s: Seq<char>)
    ensures
        word_len(s) <= s.len(),
        forall|i: int| 0 <= i < word_len(s) ==> !is_space(#[trigger] s[i]),
        word_len(s) < s.len() ==> is_space(s[word_len(s) as int]),
    decreases s.len(),
{
    if s.len() > 0 && !is_space(s[0]) {
        let t = s.drop_first();
        lemma_word_len(t);
        assert forall|i: int| 0 <= i < word_len(s) implies !is_space(#[trigger] s[i]) by {
            if i > 0 {
                assert(s[i] == t[i - 1]);
            }
        }
    }
}

/// A place `n` with no white space before it and white space (or the end) at
/// it is `word_len(s)`.
pub proof fn lemma_word_len_is(s: Seq<char>, n: int)
    requires
        0 <= n <= s.len(),
        forall|i: int| 0 <= i < n ==> !is_space(#[trigger] s[i]),
        n < s.len() ==> is_space(s[n]),
    ensures
        word_len(s) == n,
    decreases s.len(),
{
    if n > 0 {
        let t = s.drop_first();
        lemma_word_len_is(t, n - 1);
    }
}

/// The words of `s`: its longest runs of characters that are not white space,
/// in order.
pub open spec fn words(s: Seq<char>) -> Seq<Seq<char>>
    decreases s.len(),
{
    if s.len() == 0 {
        Seq::empty()
    } else if is_space(s[0]) {
        words(s.drop_first())
    } else {
        let n = word_len(s) as int;
        proof {
            lemma_word_len(s);
        }
        seq![s.take(n)] + words(s.skip(n))
    }
}

/// How many characters stand before the first `stop` of `s`.
pub open spec fn run_before(s: Seq<char>, stop: char) -> nat
    decreases s.len(),
{
    if s.len() > 0 && s[0] != stop {
        1 + run_before(s.drop_first(), stop)
    } else {
        0
    }
}

/// `run_before(s, stop)` is the place of the first `stop` of `s`, or the
/// length of `s` where it has none.
pub proof fn lemma_run_before(s: Seq<char>, stop: char)
    ensures
        run_before(s, stop) <= s.len(),
        forall|i: int| 0 <= i < run_before(s, stop) ==> #[trigger] s[i] != stop,
        run_before(s, stop) < s.len() ==> s[run_before(s, stop) as int] == stop,
    decreases s.len(),
{
    if s.len() > 0 && s[0] != stop {
        let t = s.drop_first();
        lemma_run_before(t, stop);
        assert forall|i: int| 0 <= i < run_before(s, stop) implies #[trigger] s[i] != stop by {
            if i > 0 {
                assert(s[i] == t[i - 1]);
            }
        }
    }
}

/// A place `n` with no `stop` before it and a `stop` (or the end) at it is
/// `run_before(s, stop)`.
pub proof fn lemma_run_before_is(s: Seq<char>, stop: char, n: int)
    requires
        0 <= n <= s.len(),
        forall|i: int| 0 <= i < n ==> #[trigger] s[i] != stop,
        n < s.len() ==> s[n] == stop,
    ensures
        run_before(s, stop) == n,
    decreases s.len(),
{
    if n > 0 {
        let t = s.drop_first();
        lemma_run_before_is(t, stop, n - 1);
    }
}

/// The lines of `s`: what stands between its line feeds. A text without a line
/// feed is one line; a text that ends in a line feed has an empty last line.
pub open spec fn lines(s: Seq<char>) -> Seq<Seq<char>>
    decreases s.len(),
{
    let n = run_before(s, '\n') as int;
    if n < s.len() {
        seq![s.take(n)] + lines(s.skip(n + 1))
    } else {
        seq![s]
    }
}

/// Each of `ws` with a space before it, one after the other.
pub open spec fn join_rest(ws: Seq<Seq<char>>) -> Seq<char>
    decreases ws.len(),
{
    if ws.len() == 0 {
        Seq::empty()
    } else {
        seq![' '] + ws[0] + join_rest(ws.drop_first())
    }
}

/// The texts of `ws` with one space between neighbours.
pub open spec fn join(ws: Seq<Seq<char>>) -> Seq<char> {
    if ws.len() == 0 {
        Seq::empty()
    } else {
        ws[0] + join_rest(ws.drop_first())
    }
}

/// `s` with each run of white space made one space, and none at either end.
pub open spec fn normalized(s: Seq<char>) -> Seq<char> {
    join(words(s))
}

/// The words of `line`, in order.
pub fn split_words(line: &Vec<char>) -> (r: Vec<Vec<char>>)
    ensures
        rows(r@) == words(line@),
{
    let mut out: Vec<Vec<char>> = Vec::new();
    let mut i: usize = 0;
    assert(line@.skip(0) =~= line@);
    while i < line.len()
        invariant
            i <= line.len(),
            rows(out@) + words(line@.skip(i as int)) == words(line@),
        decreases line.len() - i,
    {
        let ghost rest = line@.skip(i as int);
        if is_whitespace(line[i]) {
            assert(rest.drop_first() =~= line@.skip(i + 1));
            i += 1;
        } else {
            let start: usize = i;
            let mut word: Vec<char> = Vec::new();
            while i < line.len() && !is_whitespace(line[i])
                invariant
                    start <= i <= line.len(),
                    word@ == line@.subrange(start as int, i as int),
                    forall|j: int| start <= j < i ==> !is_space(#[trigger] line@[j]),
                decreases line.len() - i,
            {
                word.push(line[i]);
                i += 1;
            }
            proof {
                lemma_word_len_is(rest, i - start);
                assert(rest.take(i - start) =~= word@);
                assert(rest.skip(i - start) =~= line@.skip(i as int));
            }
            out.push(word);
        }
    }
    out
}

/// The lines of `text`, in order.
pub fn split_lines(text: &Vec<char>) -> (r: Vec<Vec<char>>)
    ensures
        rows(r@) == lines(text@),
{
    let mut out: Vec<Vec<char>> = Vec::new();
    let mut line: Vec<char> = Vec::new();
    let mut start: usize = 0;
    let mut i: usize = 0;
    assert(text@.skip(0) =~= text@);
    while i < text.len()
        invariant
            start <= i <= text.len(),
            rows(out@) + lines(text@.skip(start as int)) == lines(text@),
            line@ == text@.subrange(start as int, i as int),
            forall|j: int| start <= j < i ==> #[trigger] text@[j] != '\n',
        decreases text.len() - i,
    {
        let c = text[i];
        if c == '\n' {
            let ghost rest = text@.skip(start as int);
            proof {
                lemma_run_before_is(rest, '\n', i - start);
                assert(rest.take(i - start) =~= line@);
                assert(rest.skip(i - start + 1) =~= text@.skip(i + 1));
            }
            out.push(line);
            line = Vec::new();
            start = i + 1;
        } else {
            line.push(c);
        }
        i += 1;
    }
    proof {
        let rest = text@.skip(start as int);
        lemma_run_before_is(rest, '\n', i - start);
    }
    out.push(line);
    out
}

/// The texts of `ws` from place `from` on, with one space between neighbours;
/// the empty text where `ws` has no such place.
pub fn join_words(ws: &Vec<Vec<char>>, from: usize) -> (r: Vec<char>)
    ensures
        r@ == if from <= ws.len() {
            join(rows(ws@).skip(from as int))
        } else {
            Seq::empty()
        },
{
    let mut out: Vec<char> = Vec::new();
    let ghost all = rows(ws@);
    if from < ws.len() {
        let mut k: usize = 0;
        while k < ws[from].len()
            invariant
                from < ws.len(),
                k <= ws[from as int].len(),
                out@ == ws[from as int]@.take(k as int),
            decreases ws[from as int].len() - k,
        {
            out.push(ws[from][k]);
            k += 1;
        }
        let mut i: usize = from + 1;
        assert(all.skip(from as int).drop_first() =~= all.skip(i as int));
        while i < ws.len()
            invariant
                from < i <= ws.len(),
                all == rows(ws@),
                out@ + join_rest(all.skip(i as int)) == join(all.skip(from as int)),
            decreases ws.len() - i,
        {
            let ghost before = out@;
            out.push(' ');
            let mut k: usize = 0;
            while k < ws[i].len()
                invariant
                    i < ws.len(),
                    k <= ws[i as int].len(),
                    out@ == before + seq![' '] + ws[i as int]@.take(k as int),
                decreases ws[i as int].len() - k,
            {
                out.push(ws[i][k]);
                k += 1;
            }
            assert(all.skip(i as int).drop_first() =~= all.skip(i + 1));
            i += 1;
        }
    }
    out
}

/// Whether `w` can be a word: not empty, and without white space.
pub open spec fn is_word(w: Seq<char>) -> bool {
    w.len() > 0 && forall|i: int| 0 <= i < w.len() ==> !is_space(#[trigger] w[i])
}

/// Whether each of `ws` can be a word.
pub open spec fn all_words(ws: Seq<Seq<char>>) -> bool {
    forall|k: int| 0 <= k < ws.len() ==> is_word(#[trigger] ws[k])
}

/// What `words` gives are words.
pub proof fn lemma_words_are_words(s: Seq<char>)
    ensures
        all_words(words(s)),
    decreases s.len(),
{
    if s.len() > 0 {
        if is_space(s[0]) {
            lemma_words_are_words(s.drop_first());
        } else {
            let n = word_len(s) as int;
            lemma_word_len(s);
            lemma_words_are_words(s.skip(n));
        }
    }
}

/// A word followed by white space or by nothing is the first word of the
/// whole, and the words of what follows come after it.
pub proof fn lemma_words_after_word(w: Seq<char>, t: Seq<char>)
    requires
        is_word(w),
        t.len() == 0 || is_space(t[0]),
    ensures
        words(w + t) == seq![w] + words(t),
{
    let s = w + t;
    lemma_word_len_is(s, w.len() as int);
    assert(s.take(w.len() as int) =~= w);
    assert(s.skip(w.len() as int) =~= t);
}

/// Words joined by single spaces, each with a space before it, fall apart
/// into the same words.
pub proof fn lemma_words_of_join_rest(ws: Seq<Seq<char>>)
    requires
        all_words(ws),
    ensures
        words(join_rest(ws)) == ws,
        join_rest(ws).len() == 0 || is_space(join_rest(ws)[0]),
    decreases ws.len(),
{
    if ws.len() > 0 {
        let rest = ws.drop_first();
        lemma_words_of_join_rest(rest);
        assert(join_rest(ws).drop_first() =~= ws[0] + join_rest(rest));
        lemma_words_after_word(ws[0], join_rest(rest));
    }
}

/// Words joined by single spaces fall apart into the same words.
pub proof fn lemma_words_of_join(ws: Seq<Seq<char>>)
    requires
        all_words(ws),
    ensures
        words(join(ws)) == ws,
{
    if ws.len() > 0 {
        let rest = ws.drop_first();
        lemma_words_of_join_rest(rest);
        lemma_words_after_word(ws[0], join_rest(rest));
    }
}

/// A normalized text has the words of the text it was made from, and
/// normalizing it again changes nothing.
pub proof fn lemma_normalized_is_stable(s: Seq<char>)
    ensures
        words(normalized(s)) == words(s),
        normalized(normalized(s)) == normalized(s),
{
    lemma_words_are_words(s);
    lemma_words_of_join(words(s));
}

/// The only white space in a text made by `join_rest` from words is the
/// space.
pub proof fn lemma_join_rest_spaces(ws: Seq<Seq<char>>)
    requires
        all_words(ws),
    ensures
        forall|i: int|
            0 <= i < join_rest(ws).len() && is_space(#[trigger] join_rest(ws)[i]) ==> join_rest(
                ws,
            )[i] == ' ',
    decreases ws.len(),
{
    if ws.len() > 0 {
        let rest = ws.drop_first();
        lemma_join_rest_spaces(rest);
        let whole = join_rest(ws);
        assert forall|i: int| 0 <= i < whole.len() && is_space(#[trigger] whole[i]) implies whole[i]
            == ' ' by {
            if i >= 1 + ws[0].len() {
                assert(whole[i] == join_rest(rest)[i - 1 - ws[0].len()]);
            }
        }
    }
}

/// A normalized text holds no line feed.
pub proof fn lemma_normalized_is_one_line(s: Seq<char>)
    ensures
        forall|i: int| 0 <= i < normalized(s).len() ==> #[trigger] normalized(s)[i] != '\n',
{
    let ws = words(s);
    lemma_words_are_words(s);
    if ws.len() > 0 {
        let rest = ws.drop_first();
        lemma_join_rest_spaces(rest);
    }
}

/// A text has at least one line, and where the text is empty or ends in a
/// line feed, its last line is empty.
pub proof fn lemma_last_line(s: Seq<char>)
    ensures
        lines(s).len() >= 1,
        s.len() == 0 || s.last() == '\n' ==> lines(s).last().len() == 0,
    decreases s.len(),
{
    let n = run_before(s, '\n') as int;
    lemma_run_before(s, '\n');
    if n < s.len() {
        lemma_last_line(s.skip(n + 1));
    }
}

/// Where a text is empty or ends in a line feed, the lines of what is written
/// after it take the place of its empty last line.
pub proof fn lemma_lines_appended(a: Seq<char>, b: Seq<char>)
    requires
        a.len() == 0 || a.last() == '\n',
    ensures
        lines(a + b) == lines(a).drop_last() + lines(b),
    decreases a.len(),
{
    if a.len() > 0 {
        let n = run_before(a, '\n') as int;
        lemma_run_before(a, '\n');
        let s = a + b;
        lemma_run_before_is(s, '\n', n);
        let rest = a.skip(n + 1);
        lemma_lines_appended(rest, b);
        lemma_last_line(rest);
        assert(s.take(n) =~= a.take(n));
        assert(s.skip(n + 1) =~= rest + b);
    }
}

/// A text without a line feed, closed by one, is that line and an empty one.
pub proof fn lemma_lines_of_closed_line(x: Seq<char>)
    requires
        forall|i: int| 0 <= i < x.len() ==> #[trigger] x[i] != '\n',
    ensures
        lines(x + seq!['\n']) == seq![x, Seq::<char>::empty()],
{
    let s = x + seq!['\n'];
    lemma_run_before_is(s, '\n', x.len() as int);
    assert(s.take(x.len() as int) =~= x);
    let rest = s.skip(x.len() as int + 1);
    assert(rest =~= Seq::<char>::empty());
    assert(lines(rest) =~= seq![rest]);
}

/// A line feed written after a text closes its last line and opens an empty
/// one.
pub proof fn lemma_lines_of_closed_text(a: Seq<char>)
    ensures
        lines(a + seq!['\n']) == lines(a).push(Seq::<char>::empty()),
    decreases a.len(),
{
    let n = run_before(a, '\n') as int;
    let s = a + seq!['\n'];
    lemma_run_before(a, '\n');
    if n < a.len() {
        lemma_run_before_is(s, '\n', n);
        let rest = a.skip(n + 1);
        lemma_lines_of_closed_text(rest);
        assert(s.take(n) =~= a.take(n));
        assert(s.skip(n + 1) =~= rest + seq!['\n']);
    } else {
        lemma_lines_of_closed_line(a);
    }
}

/// Whether `s` ends in `suffix`.
pub open spec fn ends_with(s: Seq<char>, suffix: Seq<char>) -> bool {
    s.len() >= suffix.len() && s.skip(s.len() - suffix.len()) == suffix
}

/// Whether `s` ends in `suffix`.
pub fn has_suffix(s: &Vec<char>, suffix: &Vec<char>) -> (r: bool)
    ensures
        r == ends_with(s@, suffix@),
{
    if s.len() < suffix.len() {
        return false;
    }
    let offset: usize = s.len() - suffix.len();
    let ghost tail = s@.skip(offset as int);
    let mut i: usize = 0;
    while i < suffix.len()
        invariant
            i <= suffix.len(),
            offset + suffix.len() == s.len(),
            tail == s@.skip(offset as int),
            forall|j: int| 0 <= j < i ==> tail[j] == suffix@[j],
        decreases suffix.len() - i,
    {
        if s[offset + i] != suffix[i] {
            return false;
        }
        i += 1;
    }
    assert(tail =~= suffix@);
    true
}

/// Whether `needle` stands in `s` at place `at`.
pub open spec fn occurs_at(s: Seq<char>, needle: Seq<char>, at: int) -> bool {
    0 <= at && at + needle.len() <= s.len() && s.subrange(at, at + needle.len()) == needle
}

/// Whether `needle` stands somewhere in `s`.
pub open spec fn contains_text(s: Seq<char>, needle: Seq<char>) -> bool {
    exists|at: int| occurs_at(s, needle, at)
}

/// Whether `needle` stands in `s` at place `at`.
fn matches_at(s: &Vec<char>, needle: &Vec<char>, at: usize) -> (r: bool)
    requires
        at + needle.len() <= s.len(),
    ensures
        r == occurs_at(s@, needle@, at as int),
{
    let ghost part = s@.subrange(at as int, at + needle.len());
    let mut i: usize = 0;
    while i < needle.len()
        invariant
            i <= needle.len(),
            at + needle.len() <= s.len(),
            part == s@.subrange(at as int, at + needle.len()),
            forall|j: int| 0 <= j < i ==> part[j] == needle@[j],
        decreases needle.len() - i,
    {
        if s[at + i] != needle[i] {
            return false;
        }
        i += 1;
    }
    assert(part =~= needle@);
    true
}

/// Whether `needle` stands somewhere in `s`.
pub fn has_text(s: &Vec<char>, needle: &Vec<char>) -> (r: bool)
    ensures
        r == contains_text(s@, needle@),
{
    if s.len() < needle.len() {
        return false;
    }
    let last: usize = s.len() - needle.len();
    let mut at: usize = 0;
    while at < last
        invariant
            at <= last,
            last + needle.len() == s.len(),
            forall|k: int| 0 <= k < at ==> !occurs_at(s@, needle@, k),
        decreases last - at,
    {
        if matches_at(s, needle, at) {
            return true;
        }
        at += 1;
    }
    matches_at(s, needle, last)
}

} // verus!
