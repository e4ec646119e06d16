//! Text as sequences of characters: whitespace-delimited fields, lines,
//! trimming, joining and decimal numbers.

use vstd::prelude::*;

verus! {

/// Whether `c` carries the Unicode `White_Space` property.
pub open spec fn is_space(c: char) -> bool {
    let n = c as u32;
    ||| 0x09 <= n <= 0x0D
    ||| n == 0x20
    ||| n == 0x85
    ||| n == 0xA0
    ||| n == 0x1680
    ||| 0x2000 <= n <= 0x200A
    ||| n == 0x2028
    ||| n == 0x2029
    ||| n == 0x202F
    ||| n == 0x205F
    ||| n == 0x3000
}

/// Decides [`is_space`].
pub fn is_space_char(c: char) -> (b: bool)
    ensures
        b == is_space(c),
{
    let n: u32 = c as u32;
    (0x09 <= n && n <= 0x0D) || n == 0x20 || n == 0x85 || n == 0xA0 || n == 0x1680 || (0x2000 <= n
        && n <= 0x200A) || n == 0x2028 || n == 0x2029 || n == 0x202F || n == 0x205F || n == 0x3000
}

/// The characters of `s`, in order.
pub fn to_chars(s: &str) -> (v: Vec<char>)
    ensures
        v@ == s@,
{
    let mut v: Vec<char> = Vec::new();
    for c in it: s.chars()
        invariant
            v@ == it.seq().take(it.index()),
            it.seq() == s@,
    {
        v.push(c);
    }
    v
}

/// Appends `c` to `s` with `String::push`, which appends the given character
/// to the end of the string and leaves the rest as it was.
#[verifier::external_body]
fn push_char(s: &mut String, c: char)
    ensures
        final(s)@ == old(s)@.push(c),
{
    s.push(c);
}

/// The string that holds the characters of `v`, in order.
pub fn from_chars(v: &Vec<char>) -> (s: String)
    ensures
        s@ == v@,
{
    let mut s = String::new();
    let mut i: usize = 0;
    while i < v.len()
        invariant
            i <= v.len(),
            s@ == v@.take(i as int),
        decreases v.len() - i,
    {
        push_char(&mut s, v[i]);
        i = i + 1;
    }
    s
}

/// What a vector of character vectors holds: its rows, each by its view.
pub open spec fn rows(v: Seq<Vec<char>>) -> Seq<Seq<char>> {
    v.map_values(|r: Vec<char>| r@)
}

/// What a vector of strings holds: its items, each by its view.
pub open spec fn texts(v: Seq<String>) -> Seq<Seq<char>> {
    v.map_values(|t: String| t@)
}

/// Decides whether two character vectors hold the same text.
pub fn same_chars(a: &Vec<char>, b: &Vec<char>) -> (r: bool)
    ensures
        r == (a@ == b@),
{
    if a.len() != b.len() {
        return false;
    }
    let mut i: usize = 0;
    while i < a.len()
        invariant
            i <= a.len(),
            a.len() == b.len(),
            a@.take(i as int) == b@.take(i as int),
        decreases a.len() - i,
    {
        if a[i] != b[i] {
            return false;
        }
        assert(a@.take(i + 1) == a@.take(i as int).push(a@[i as int]));
        assert(b@.take(i + 1) == b@.take(i as int).push(b@[i as int]));
        i = i + 1;
    }
    assert(a@.take(a.len() as int) == a@);
    assert(b@.take(b.len() as int) == b@);
    true
}

/// Appends the characters `src[from..to]` to `out`.
pub(crate) fn push_range(out: &mut Vec<char>, src: &Vec<char>, from: usize, to: usize)
    requires
        from <= to <= src.len(),
    ensures
        final(out)@ == old(out)@ + src@.subrange(from as int, to as int),
{
    let mut i: usize = from;
    while i < to
        invariant
            from <= i <= to <= src.len(),
            out@ == old(out)@ + src@.subrange(from as int, i as int),
        decreases to - i,
    {
        out.push(src[i]);
        i = i + 1;
    }
}

/// Appends all of `src` to `out`.
pub fn push_all(out: &mut Vec<char>, src: &Vec<char>)
    ensures
        final(out)@ == old(out)@ + src@,
{
    push_range(out, src, 0, src.len());
    assert(src@.subrange(0, src.len() as int) == src@);
}

/// The characters `src[from..to]` as a vector of their own.
pub(crate) fn copy_range(src: &Vec<char>, from: usize, to: usize) -> (out: Vec<char>)
    requires
        from <= to <= src.len(),
    ensures
        out@ == src@.subrange(from as int, to as int),
{
    let mut out: Vec<char> = Vec::new();
    push_range(&mut out, src, from, to);
    out
}

/// Length of the leading run of characters of `s` that are not whitespace.
pub open spec fn word_len(s: Seq<char>) -> nat
    decreases s.len(),
{
    if s.len() > 0 && !is_space(s[0]) {
        1 + word_len(s.skip(1))
    } else {
        0
    }
}

/// The whitespace-delimited fields of `s`: its maximal runs of characters
/// that are not whitespace, in order. None of them is empty.
pub open spec fn fields(s: Seq<char>) -> Seq<Seq<char>>
    decreases s.len(),
{
    if s.len() == 0 {
        Seq::empty()
    } else if is_space(s[0]) {
        fields(s.skip(1))
    } else {
        let n = word_len(s);
        if 1 <= n <= s.len() {
            seq![s.take(n as int)] + fields(s.skip(n as int))
        } else {
            Seq::empty()
        }
    }
}

/// A field: a text that is not empty and holds no whitespace.
pub open spec fn is_field(w: Seq<char>) -> bool {
    w.len() > 0 && forall|i: int| 0 <= i < w.len() ==> !is_space(#[trigger] w[i])
}

/// The leading word of a text is never longer than the text.
pub proof fn lemma_word_len_bound(s: Seq<char>)
    ensures
        word_len(s) <= s.len(),
        forall|i: int| 0 <= i < word_len(s) ==> !is_space(#[trigger] s[i]),
        word_len(s) < s.len() ==> is_space(s[word_len(s) as int]),
    decreases s.len(),
{
    if s.len() > 0 && !is_space(s[0]) {
        let t = s.skip(1);
        lemma_word_len_bound(t);
        assert forall|i: int| 0 <= i < word_len(s) implies !is_space(#[trigger] s[i]) by {
            if i > 0 {
                assert(s[i] == t[i - 1]);
            }
        }
        if word_len(s) < s.len() {
            assert(s[word_len(s) as int] == t[word_len(t) as int]);
        }
    }
}

/// Splits `s` into its whitespace-delimited fields.
pub fn split_fields(s: &Vec<char>) -> (out: Vec<Vec<char>>)
    ensures
        rows(out@) == fields(s@),
{
    let n = s.len();
    let mut out: Vec<Vec<char>> = Vec::new();
    let mut i: usize = 0;
    assert(s@.skip(0) == s@);
    assert(rows(out@) == Seq::<Seq<char>>::empty());
    while i < n
        invariant
            n == s.len(),
            i <= n,
            fields(s@) == rows(out@) + fields(s@.skip(i as int)),
        decreases n - i,
    {
        let ghost rest = s@.skip(i as int);
        assert(rest.len() == n - i);
        assert(rest[0] == s@[i as int]);
        if is_space_char(s[i]) {
            assert(rest.skip(1) == s@.skip(i + 1));
            i = i + 1;
        } else {
            let start = i;
            while i < n && !is_space_char(s[i])
                invariant
                    n == s.len(),
                    start <= i <= n,
                    word_len(rest) == (i - start) + word_len(s@.skip(i as int)),
                    rest == s@.skip(start as int),
                decreases n - i,
            {
                assert(s@.skip(i as int).skip(1) == s@.skip(i + 1));
                i = i + 1;
            }
            assert(word_len(s@.skip(i as int)) == 0);
            let word = copy_range(s, start, i);
            assert(word@ == rest.take(i - start));
            assert(rest.skip(i - start) == s@.skip(i as int));
            proof {
                let before = rows(out@);
                assert(rows(out@.push(word)) == before.push(word@));
                assert(before.push(word@) + fields(s@.skip(i as int)) == before + (seq![word@]
                    + fields(s@.skip(i as int))));
            }
            out.push(word);
        }
    }
    assert(s@.skip(n as int).len() == 0);
    assert(rows(out@) + Seq::<Seq<char>>::empty() == rows(out@));
    out
}

/// Length of the leading run of characters of `s` that are not a newline.
pub open spec fn line_len(s: Seq<char>) -> nat
    decreases s.len(),
{
    if s.len() > 0 && s[0] != '\n' {
        1 + line_len(s.skip(1))
    } else {
        0
    }
}

/// `s` without one trailing carriage return, if it ends in one.
pub open spec fn strip_cr(s: Seq<char>) -> Seq<char> {
    if s.len() > 0 && s.last() == '\r' {
        s.drop_last()
    } else {
        s
    }
}

/// The lines of `s`. A line ends at a newline, or at a carriage return
/// directly before a newline; neither belongs to the line. What follows the
/// last newline is a line of its own unless it is empty, and keeps a
/// trailing carriage return.
pub open spec fn lines(s: Seq<char>) -> Seq<Seq<char>>
    decreases s.len(),
{
    if s.len() == 0 {
        Seq::empty()
    } else {
        let n = line_len(s);
        if n < s.len() {
            seq![strip_cr(s.take(n as int))] + lines(s.skip(n as int + 1))
        } else {
            seq![s]
        }
    }
}

/// The first line of a text ends within the text, at its first newline.
pub proof fn lemma_line_len_bound(s: Seq<char>)
    ensures
        line_len(s) <= s.len(),
        forall|i: int| 0 <= i < line_len(s) ==> #[trigger] s[i] != '\n',
        line_len(s) < s.len() ==> s[line_len(s) as int] == '\n',
    decreases s.len(),
{
    if s.len() > 0 && s[0] != '\n' {
        let t = s.skip(1);
        lemma_line_len_bound(t);
        assert forall|i: int| 0 <= i < line_len(s) implies #[trigger] s[i] != '\n' by {
            if i > 0 {
                assert(s[i] == t[i - 1]);
            }
        }
        if line_len(s) < s.len() {
            assert(s[line_len(s) as int] == t[line_len(t) as int]);
        }
    }
}

/// No character of `s` is a newline.
pub open spec fn one_line(s: Seq<char>) -> bool {
    forall|i: int| 0 <= i < s.len() ==> #[trigger] s[i] != '\n'
}

/// The first line of a text that begins with a run without a newline,
/// followed by a newline, is that run.
pub proof fn lemma_line_len_of_run(r: Seq<char>, rest: Seq<char>)
    requires
        one_line(r),
    ensures
        line_len(r + seq!['\n'] + rest) == r.len(),
    decreases r.len(),
{
    let s = r + seq!['\n'] + rest;
    if r.len() == 0 {
        assert(s[0] == '\n');
    } else {
        assert(s[0] == r[0]);
        assert(s.skip(1) == r.skip(1) + seq!['\n'] + rest);
        assert forall|i: int| 0 <= i < r.skip(1).len() implies #[trigger] r.skip(1)[i] != '\n' by {
            assert(r.skip(1)[i] == r[i + 1]);
        }
        lemma_line_len_of_run(r.skip(1), rest);
    }
}

/// A text that begins with a line, ended by a newline, has that line as its
/// first and the lines of what follows as the others.
pub proof fn lemma_lines_after_line(r: Seq<char>, rest: Seq<char>)
    requires
        one_line(r),
    ensures
        lines(r + seq!['\n'] + rest) == seq![strip_cr(r)] + lines(rest),
{
    let s = r + seq!['\n'] + rest;
    lemma_line_len_of_run(r, rest);
    assert(s.take(r.len() as int) == r);
    assert(s.skip(r.len() as int + 1) == rest);
}

/// Splits `s` into its lines.
pub fn split_lines(s: &Vec<char>) -> (out: Vec<Vec<char>>)
    ensures
        rows(out@) == lines(s@),
{
    let n = s.len();
    let mut out: Vec<Vec<char>> = Vec::new();
    let mut i: usize = 0;
    assert(s@.skip(0) == s@);
    assert(rows(out@) == Seq::<Seq<char>>::empty());
    while i < n
        invariant
            n == s.len(),
            i <= n,
            lines(s@) == rows(out@) + lines(s@.skip(i as int)),
        decreases n - i,
    {
        let ghost rest = s@.skip(i as int);
        let ghost before = rows(out@);
        let start = i;
        while i < n && s[i] != '\n'
            invariant
                n == s.len(),
                start <= i <= n,
                line_len(rest) == (i - start) + line_len(s@.skip(i as int)),
                rest == s@.skip(start as int),
            decreases n - i,
        {
            assert(s@.skip(i as int).skip(1) == s@.skip(i + 1));
            i = i + 1;
        }
        assert(rest.len() == n - start);
        if i < n {
            assert(s@.skip(i as int)[0] == s@[i as int]);
            assert(line_len(rest) == i - start);
            let end = if i > start && s[i - 1] == '\r' {
                i - 1
            } else {
                i
            };
            let line = copy_range(s, start, end);
            assert(rest.take(i - start) == s@.subrange(start as int, i as int));
            assert(line@ == strip_cr(rest.take(i - start)));
            assert(rest.skip(i - start + 1) == s@.skip(i + 1));
            proof {
                assert(rows(out@.push(line)) == before.push(line@));
                assert(before.push(line@) + lines(s@.skip(i + 1)) == before + (seq![line@] + lines(
                    s@.skip(i + 1),
                )));
            }
            out.push(line);
            i = i + 1;
        } else {
            assert(s@.skip(n as int).len() == 0);
            assert(line_len(rest) == rest.len());
            let line = copy_range(s, start, n);
            assert(line@ == rest);
            proof {
                assert(rows(out@.push(line)) == before.push(line@));
                assert(lines(s@.skip(n as int)) == Seq::<Seq<char>>::empty());
                assert(before.push(line@) + Seq::<Seq<char>>::empty() == before + seq![rest]);
            }
            out.push(line);
        }
    }
    assert(s@.skip(n as int).len() == 0);
    assert(rows(out@) + Seq::<Seq<char>>::empty() == rows(out@));
    out
}

/// `s` without its leading whitespace.
pub open spec fn trim_start(s: Seq<char>) -> Seq<char>
    decreases s.len(),
{
    if s.len() > 0 && is_space(s[0]) {
        trim_start(s.skip(1))
    } else {
        s
    }
}

/// `s` without its trailing whitespace.
pub open spec fn trim_end(s: Seq<char>) -> Seq<char>
    decreases s.len(),
{
    if s.len() > 0 && is_space(s.last()) {
        trim_end(s.drop_last())
    } else {
        s
    }
}

/// `s` without its leading and trailing whitespace.
pub open spec fn trim(s: Seq<char>) -> Seq<char> {
    trim_end(trim_start(s))
}

/// Removes leading and trailing whitespace.
pub fn trimmed(s: &Vec<char>) -> (out: Vec<char>)
    ensures
        out@ == trim(s@),
{
    let n = s.len();
    let mut from: usize = 0;
    assert(s@.skip(0) == s@);
    while from < n && is_space_char(s[from])
        invariant
            n == s.len(),
            from <= n,
            trim_start(s@) == trim_start(s@.skip(from as int)),
        decreases n - from,
    {
        assert(s@.skip(from as int).skip(1) == s@.skip(from + 1));
        from = from + 1;
    }
    let ghost body = s@.skip(from as int);
    assert(trim_start(s@) == body) by {
        if from < n {
            assert(body[0] == s@[from as int]);
        }
    }
    let mut to: usize = n;
    assert(body.take(n - from) == body);
    while to > from && is_space_char(s[to - 1])
        invariant
            n == s.len(),
            from <= to <= n,
            body == s@.skip(from as int),
            trim_end(body) == trim_end(body.take(to - from)),
        decreases to,
    {
        assert(body.take(to - from).last() == s@[to - 1]);
        assert(body.take(to - from).drop_last() == body.take(to - 1 - from));
        to = to - 1;
    }
    assert(trim_end(body) == body.take(to - from)) by {
        if to > from {
            assert(body.take(to - from).last() == s@[to - 1]);
        }
    }
    assert(body.take(to - from) == s@.subrange(from as int, to as int));
    copy_range(s, from, to)
}

/// Each item of `parts` preceded by `sep`, one after the other.
pub open spec fn join_rest(parts: Seq<Seq<char>>, sep: Seq<char>) -> Seq<char>
    decreases parts.len(),
{
    if parts.len() == 0 {
        Seq::empty()
    } else {
        sep + parts[0] + join_rest(parts.skip(1), sep)
    }
}

/// The items of `parts` one after the other, with `sep` between each two.
pub open spec fn join(parts: Seq<Seq<char>>, sep: Seq<char>) -> Seq<char> {
    if parts.len() == 0 {
        Seq::empty()
    } else {
        parts[0] + join_rest(parts.skip(1), sep)
    }
}

/// Appends to `out` the rows `parts[from..]`, each preceded by `sep`.
fn push_join_rest(out: &mut Vec<char>, parts: &Vec<Vec<char>>, from: usize, sep: &Vec<char>)
    requires
        from <= parts.len(),
    ensures
        final(out)@ == old(out)@ + join_rest(rows(parts@).skip(from as int), sep@),
{
    let mut i: usize = from;
    let ghost all = rows(parts@);
    assert(old(out)@ + Seq::<char>::empty() == old(out)@);
    while i < parts.len()
        invariant
            from <= i <= parts.len(),
            all == rows(parts@),
            out@ + join_rest(all.skip(i as int), sep@) == old(out)@ + join_rest(
                all.skip(from as int),
                sep@,
            ),
        decreases parts.len() - i,
    {
        let ghost prev = out@;
        assert(all.skip(i as int)[0] == parts@[i as int]@);
        assert(all.skip(i as int).skip(1) == all.skip(i + 1));
        push_all(out, sep);
        push_all(out, &parts[i]);
        assert(out@ + join_rest(all.skip(i + 1), sep@) == prev + (sep@ + parts@[i as int]@
            + join_rest(all.skip(i + 1), sep@)));
        i = i + 1;
    }
    assert(out@ + Seq::<char>::empty() == out@);
}

/// Joins the rows of `parts` with `sep` between each two.
pub fn joined(parts: &Vec<Vec<char>>, sep: &Vec<char>) -> (out: Vec<char>)
    ensures
        out@ == join(rows(parts@), sep@),
{
    let mut out: Vec<char> = Vec::new();
    if parts.len() > 0 {
        push_all(&mut out, &parts[0]);
        push_join_rest(&mut out, parts, 1, sep);
    }
    out
}

/// The decimal digit for `d`, which lies between 0 and 9.
pub open spec fn digit(d: int) -> char {
    if d == 0 {
        '0'
    } else if d == 1 {
        '1'
    } else if d == 2 {
        '2'
    } else if d == 3 {
        '3'
    } else if d == 4 {
        '4'
    } else if d == 5 {
        '5'
    } else if d == 6 {
        '6'
    } else if d == 7 {
        '7'
    } else if d == 8 {
        '8'
    } else {
        '9'
    }
}

/// `n` in decimal digits, without leading zeros.
pub open spec fn decimal(n: nat) -> Seq<char>
    decreases n,
{
    if n < 10 {
        seq![digit(n as int)]
    } else {
        decimal(n / 10).push(digit((n % 10) as int))
    }
}

/// `n` in decimal digits, with a minus sign in front if it is negative.
pub open spec fn signed_decimal(n: int) -> Seq<char> {
    if n < 0 {
        seq!['-'] + decimal((-n) as nat)
    } else {
        decimal(n as nat)
    }
}

/// Computes [`digit`].
fn digit_char(d: u8) -> (c: char)
    requires
        d < 10,
    ensures
        c == digit(d as int),
{
    if d == 0 {
        '0'
    } else if d == 1 {
        '1'
    } else if d == 2 {
        '2'
    } else if d == 3 {
        '3'
    } else if d == 4 {
        '4'
    } else if d == 5 {
        '5'
    } else if d == 6 {
        '6'
    } else if d == 7 {
        '7'
    } else if d == 8 {
        '8'
    } else {
        '9'
    }
}

/// Appends the decimal digits of `n` to `out`.
pub fn push_decimal(out: &mut Vec<char>, n: u64)
    ensures
        final(out)@ == old(out)@ + decimal(n as nat),
    decreases n,
{
    if n >= 10 {
        push_decimal(out, n / 10);
    }
    let d: u8 = (n % 10) as u8;
    out.push(digit_char(d));
    assert(old(out)@ + decimal(n as nat) == final(out)@) by {
        if n >= 10 {
            assert(old(out)@ + decimal((n / 10) as nat).push(digit((n % 10) as int)) == (old(out)@
                + decimal((n / 10) as nat)).push(digit((n % 10) as int)));
        } else {
            assert(old(out)@ + seq![digit(n as int)] == old(out)@.push(digit(n as int)));
        }
    }
}

/// Appends `n` in decimal to `out`, with a minus sign if it is negative.
pub fn push_signed_decimal(out: &mut Vec<char>, n: i32)
    ensures
        final(out)@ == old(out)@ + signed_decimal(n as int),
{
    let wide: i64 = n as i64;
    if wide < 0 {
        out.push('-');
        let m: u64 = (0 - wide) as u64;
        push_decimal(out, m);
        assert(old(out)@.push('-') + decimal(m as nat) == old(out)@ + (seq!['-'] + decimal(
            m as nat,
        )));
    } else {
        push_decimal(out, wide as u64);
    }
}

} // verus!
