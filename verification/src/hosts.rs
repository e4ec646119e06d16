//! The virtual hosts file: the host's own hosts file with the host's name
//! replaced, field by field, by the name that the bottle goes by; and the
//! virtual hostname file.

use crate::chars::{
    copy_range, fields, from_chars, is_field, is_space, join, join_rest, joined,
    lemma_line_len_bound, lemma_line_len_of_run, lemma_word_len_bound, line_len, one_line,
    push_all, rows, same_chars, split_fields, to_chars, trim, trimmed, word_len,
};
use vstd::prelude::*;

verus! {

/// `new_name` where the field `t` is exactly `old_name`; `t` itself
/// otherwise.
pub open spec fn swap_field(t: Seq<char>, old_name: Seq<char>, new_name: Seq<char>) -> Seq<char> {
    if t == old_name {
        new_name
    } else {
        t
    }
}

/// Every field of `fs` after [`swap_field`].
pub open spec fn swap_fields(fs: Seq<Seq<char>>, old_name: Seq<char>, new_name: Seq<char>) -> Seq<
    Seq<char>,
> {
    fs.map_values(|t: Seq<char>| swap_field(t, old_name, new_name))
}

/// A hosts line written out from its fields: the address, a tab, and the
/// names with one blank between each two. `fs` holds at least the address.
pub open spec fn render_line(fs: Seq<Seq<char>>) -> Seq<char> {
    fs[0] + seq!['\t'] + join(fs.skip(1), seq![' '])
}

/// Whether a name on `line`, that is a field past the first, is exactly
/// `old_name`.
pub open spec fn is_matched(line: Seq<char>, old_name: Seq<char>) -> bool {
    exists|i: int| 1 <= i < fields(line).len() && #[trigger] fields(line)[i] == old_name
}

/// What one line of the hosts file becomes. A line on which no name is
/// `old_name` stays as it is, character by character. On any other line the
/// first field, the address, is kept as it is, a tab follows it, and the
/// names follow with one blank between each two, each name that is
/// `old_name` replaced by `new_name`. A name of which `old_name` is only a
/// part is no match.
pub open spec fn patch_line(line: Seq<char>, old_name: Seq<char>, new_name: Seq<char>) -> Seq<
    char,
> {
    if is_matched(line, old_name) {
        let fs = fields(line);
        render_line(seq![fs[0]] + swap_fields(fs.skip(1), old_name, new_name))
    } else {
        line
    }
}

/// The virtual hosts file for the hosts file `hosts`: every line as
/// [`patch_line`] gives it, each ended by a newline, also the last line of
/// a text that does not end in one.
pub open spec fn patched_hosts(
    hosts: Seq<char>,
    old_name: Seq<char>,
    new_name: Seq<char>,
) -> Seq<char>
    decreases hosts.len(),
{
    if hosts.len() == 0 {
        Seq::empty()
    } else {
        let n = line_len(hosts);
        if n < hosts.len() {
            patch_line(hosts.take(n as int), old_name, new_name) + seq!['\n'] + patched_hosts(
                hosts.skip(n as int + 1),
                old_name,
                new_name,
            )
        } else {
            patch_line(hosts, old_name, new_name) + seq!['\n']
        }
    }
}

/// Decides whether one of the fields `fs[1..]` is `old_name`.
fn has_match(fs: &Vec<Vec<char>>, old_name: &Vec<char>) -> (b: bool)
    ensures
        b == exists|i: int| 1 <= i < fs.len() && #[trigger] rows(fs@)[i] == old_name@,
{
    let mut k: usize = 1;
    while k < fs.len()
        invariant
            1 <= k,
            forall|i: int| 1 <= i < k && i < fs.len() ==> #[trigger] rows(fs@)[i] != old_name@,
        decreases fs.len() - k,
    {
        if same_chars(&fs[k], old_name) {
            assert(rows(fs@)[k as int] == old_name@);
            return true;
        }
        k = k + 1;
    }
    false
}

/// The fields `fs[1..]`, each after [`swap_field`].
fn swapped_names(fs: &Vec<Vec<char>>, old_name: &Vec<char>, new_name: &Vec<char>) -> (out: Vec<
    Vec<char>,
>)
    requires
        fs.len() > 0,
    ensures
        rows(out@) == swap_fields(rows(fs@).skip(1), old_name@, new_name@),
{
    let mut out: Vec<Vec<char>> = Vec::new();
    let mut k: usize = 1;
    let ghost names = rows(fs@).skip(1);
    while k < fs.len()
        invariant
            1 <= k <= fs.len(),
            names == rows(fs@).skip(1),
            rows(out@) == swap_fields(names.take(k - 1), old_name@, new_name@),
        decreases fs.len() - k,
    {
        let ghost before = rows(out@);
        let name = if same_chars(&fs[k], old_name) {
            copy_range(new_name, 0, new_name.len())
        } else {
            copy_range(&fs[k], 0, fs[k].len())
        };
        proof {
            assert(new_name@.subrange(0, new_name@.len() as int) == new_name@);
            assert(fs@[k as int]@.subrange(0, fs@[k as int]@.len() as int) == fs@[k as int]@);
            assert(names[k - 1] == fs@[k as int]@);
            assert(name@ == swap_field(names[k - 1], old_name@, new_name@));
            assert(rows(out@.push(name)) == before.push(name@));
            assert(names.take(k as int) == names.take(k - 1).push(names[k - 1]));
            assert(swap_fields(names.take(k as int), old_name@, new_name@) == before.push(name@));
        }
        out.push(name);
        k = k + 1;
    }
    assert(names.take(fs.len() - 1) == names);
    out
}

/// Appends to `out` what `line` becomes.
fn push_patched_line(
    out: &mut Vec<char>,
    line: &Vec<char>,
    old_name: &Vec<char>,
    new_name: &Vec<char>,
)
    ensures
        final(out)@ == old(out)@ + patch_line(line@, old_name@, new_name@),
{
    let fs = split_fields(line);
    assert(rows(fs@).len() == fs.len());
    if has_match(&fs, old_name) {
        let names = swapped_names(&fs, old_name, new_name);
        let mut blank: Vec<char> = Vec::new();
        blank.push(' ');
        assert(blank@ == seq![' ']);
        let tail = joined(&names, &blank);
        push_all(out, &fs[0]);
        out.push('\t');
        push_all(out, &tail);
        proof {
            let f = fields(line@);
            let g = seq![f[0]] + swap_fields(f.skip(1), old_name@, new_name@);
            assert(is_matched(line@, old_name@));
            assert(f[0] == fs@[0]@);
            assert(g[0] == f[0]);
            assert(g.skip(1) == swap_fields(f.skip(1), old_name@, new_name@));
            assert(final(out)@ == old(out)@ + render_line(g));
        }
    } else {
        assert(!is_matched(line@, old_name@));
        push_all(out, line);
    }
}

/// Writes the virtual hosts file for `hosts`, line by line. On a line that
/// has `old_name` among its names, the fields past the first, each such
/// name is replaced by `new_name`; the address is kept, a tab follows it,
/// and one blank separates the names. A name of which `old_name` is only a
/// part is not replaced. Every other line stays as it is. Every line of
/// the result ends in a newline, also the last one where `hosts` does not
/// end in a newline.
pub fn patch_hosts(hosts: &str, old_name: &str, new_name: &str) -> (out: String)
    ensures
        out@ == patched_hosts(hosts@, old_name@, new_name@),
{
    let text = to_chars(hosts);
    let old_chars = to_chars(old_name);
    let new_chars = to_chars(new_name);
    let n = text.len();
    let mut out: Vec<char> = Vec::new();
    let mut i: usize = 0;
    assert(text@.skip(0) == text@);
    assert(out@ + patched_hosts(text@, old_name@, new_name@) == patched_hosts(
        text@,
        old_name@,
        new_name@,
    ));
    while i < n
        invariant
            n == text.len(),
            i <= n,
            old_chars@ == old_name@,
            new_chars@ == new_name@,
            out@ + patched_hosts(text@.skip(i as int), old_name@, new_name@) == patched_hosts(
                text@,
                old_name@,
                new_name@,
            ),
        decreases n - i,
    {
        let ghost rest = text@.skip(i as int);
        let ghost prev = out@;
        let start = i;
        let mut j: usize = i;
        while j < n && text[j] != '\n'
            invariant
                n == text.len(),
                start <= j <= n,
                rest == text@.skip(start as int),
                line_len(rest) == (j - start) + line_len(text@.skip(j as int)),
            decreases n - j,
        {
            assert(text@.skip(j as int).skip(1) == text@.skip(j + 1));
            j = j + 1;
        }
        assert(rest.len() == n - start);
        let line = copy_range(&text, start, j);
        assert(line@ == rest.take(j - start));
        push_patched_line(&mut out, &line, &old_chars, &new_chars);
        if j < n {
            assert(text@.skip(j as int)[0] == text@[j as int]);
            assert(line_len(rest) == j - start);
            assert(rest.skip(j - start + 1) == text@.skip(j + 1));
            out.push('\n');
            assert(out@ + patched_hosts(text@.skip(j + 1), old_name@, new_name@) == prev + (
            patch_line(line@, old_name@, new_name@) + seq!['\n'] + patched_hosts(
                text@.skip(j + 1),
                old_name@,
                new_name@,
            )));
            i = j + 1;
        } else {
            assert(text@.skip(n as int).len() == 0);
            assert(line_len(rest) == rest.len());
            assert(line@ == rest);
            out.push('\n');
            assert(out@ + patched_hosts(text@.skip(n as int), old_name@, new_name@) == prev + (
            patch_line(rest, old_name@, new_name@) + seq!['\n']));
            i = n;
        }
    }
    assert(text@.skip(n as int).len() == 0);
    assert(out@ + Seq::<char>::empty() == out@);
    from_chars(&out)
}

/// Every item of `fs` is a field.
pub open spec fn all_fields(fs: Seq<Seq<char>>) -> bool {
    forall|i: int| 0 <= i < fs.len() ==> is_field(#[trigger] fs[i])
}

proof fn lemma_word_len_of_run(w: Seq<char>, rest: Seq<char>)
    requires
        forall|i: int| 0 <= i < w.len() ==> !is_space(#[trigger] w[i]),
        rest.len() == 0 || is_space(rest[0]),
    ensures
        word_len(w + rest) == w.len(),
    decreases w.len(),
{
    if w.len() == 0 {
        assert(w + rest == rest);
    } else {
        assert((w + rest)[0] == w[0]);
        assert((w + rest).skip(1) == w.skip(1) + rest);
        assert forall|i: int| 0 <= i < w.skip(1).len() implies !is_space(
            #[trigger] w.skip(1)[i],
        ) by {
            assert(w.skip(1)[i] == w[i + 1]);
        }
        lemma_word_len_of_run(w.skip(1), rest);
    }
}

proof fn lemma_fields_after_field(w: Seq<char>, rest: Seq<char>)
    requires
        is_field(w),
        rest.len() == 0 || is_space(rest[0]),
    ensures
        fields(w + rest) == seq![w] + fields(rest),
{
    let s = w + rest;
    lemma_word_len_of_run(w, rest);
    assert(s[0] == w[0]);
    assert(s.take(w.len() as int) == w);
    assert(s.skip(w.len() as int) == rest);
}

proof fn lemma_fields_of_join_rest(ps: Seq<Seq<char>>, c: char)
    requires
        is_space(c),
        all_fields(ps),
    ensures
        fields(join_rest(ps, seq![c])) == ps,
        ps.len() > 0 ==> join_rest(ps, seq![c]).len() > 0 && join_rest(ps, seq![c])[0] == c,
    decreases ps.len(),
{
    let sep = seq![c];
    if ps.len() == 0 {
        assert(fields(Seq::<char>::empty()) == Seq::<Seq<char>>::empty());
    } else {
        let tail = join_rest(ps.skip(1), sep);
        let whole = join_rest(ps, sep);
        assert(all_fields(ps.skip(1))) by {
            assert forall|i: int| 0 <= i < ps.skip(1).len() implies is_field(
                #[trigger] ps.skip(1)[i],
            ) by {
                assert(ps.skip(1)[i] == ps[i + 1]);
            }
        }
        lemma_fields_of_join_rest(ps.skip(1), c);
        assert(whole == sep + ps[0] + tail);
        assert(whole[0] == c);
        assert(whole.skip(1) == ps[0] + tail);
        assert(is_field(ps[0]));
        lemma_fields_after_field(ps[0], tail);
        assert(fields(whole) == fields(ps[0] + tail));
        assert(seq![ps[0]] + ps.skip(1) == ps);
    }
}

/// Reading a rendered line back gives the fields that it was rendered from.
pub proof fn lemma_fields_of_render(fs: Seq<Seq<char>>)
    requires
        fs.len() > 0,
        all_fields(fs),
    ensures
        fields(render_line(fs)) == fs,
{
    let names = fs.skip(1);
    let blank = seq![' '];
    assert(all_fields(names)) by {
        assert forall|i: int| 0 <= i < names.len() implies is_field(#[trigger] names[i]) by {
            assert(names[i] == fs[i + 1]);
        }
    }
    let tail = seq!['\t'] + join(names, blank);
    assert(render_line(fs) == fs[0] + tail);
    assert(tail[0] == '\t');
    assert(is_field(fs[0]));
    lemma_fields_after_field(fs[0], tail);
    assert(tail.skip(1) == join(names, blank));
    assert(fields(tail) == fields(join(names, blank)));
    if names.len() == 0 {
        assert(fields(join(names, blank)) == names);
    } else {
        let more = join_rest(names.skip(1), blank);
        assert(all_fields(names.skip(1))) by {
            assert forall|i: int| 0 <= i < names.skip(1).len() implies is_field(
                #[trigger] names.skip(1)[i],
            ) by {
                assert(names.skip(1)[i] == names[i + 1]);
            }
        }
        lemma_fields_of_join_rest(names.skip(1), ' ');
        assert(is_field(names[0]));
        lemma_fields_after_field(names[0], more);
        assert(seq![names[0]] + names.skip(1) == names);
    }
    assert(seq![fs[0]] + names == fs);
}

proof fn lemma_join_rest_shape(ps: Seq<Seq<char>>)
    requires
        all_fields(ps),
    ensures
        one_line(join_rest(ps, seq![' '])),
    decreases ps.len(),
{
    let blank = seq![' '];
    if ps.len() > 0 {
        let tail = join_rest(ps.skip(1), blank);
        let whole = join_rest(ps, blank);
        assert(all_fields(ps.skip(1))) by {
            assert forall|i: int| 0 <= i < ps.skip(1).len() implies is_field(
                #[trigger] ps.skip(1)[i],
            ) by {
                assert(ps.skip(1)[i] == ps[i + 1]);
            }
        }
        lemma_join_rest_shape(ps.skip(1));
        assert(whole == blank + ps[0] + tail);
        assert(is_field(ps[0]));
        assert forall|i: int| 0 <= i < whole.len() implies #[trigger] whole[i] != '\n' by {
            if i == 0 {
            } else if i < 1 + ps[0].len() {
                assert(whole[i] == ps[0][i - 1]);
            } else {
                assert(whole[i] == tail[i - 1 - ps[0].len()]);
            }
        }
    }
}

/// A rendered line holds no newline.
pub proof fn lemma_render_shape(fs: Seq<Seq<char>>)
    requires
        fs.len() > 0,
        all_fields(fs),
    ensures
        one_line(render_line(fs)),
{
    let names = fs.skip(1);
    let blank = seq![' '];
    let r = render_line(fs);
    assert(is_field(fs[0]));
    assert(all_fields(names)) by {
        assert forall|i: int| 0 <= i < names.len() implies is_field(#[trigger] names[i]) by {
            assert(names[i] == fs[i + 1]);
        }
    }
    if names.len() == 0 {
        assert(r == fs[0] + seq!['\t']);
        assert forall|i: int| 0 <= i < r.len() implies #[trigger] r[i] != '\n' by {
            if i < fs[0].len() {
                assert(r[i] == fs[0][i]);
            }
        }
    } else {
        let more = join_rest(names.skip(1), blank);
        assert(all_fields(names.skip(1))) by {
            assert forall|i: int| 0 <= i < names.skip(1).len() implies is_field(
                #[trigger] names.skip(1)[i],
            ) by {
                assert(names.skip(1)[i] == names[i + 1]);
            }
        }
        lemma_join_rest_shape(names.skip(1));
        assert(is_field(names[0]));
        assert(r == fs[0] + seq!['\t'] + names[0] + more);
        let a = fs[0].len();
        let b = names[0].len();
        assert forall|i: int| 0 <= i < r.len() implies #[trigger] r[i] != '\n' by {
            if i < a {
                assert(r[i] == fs[0][i]);
            } else if i == a {
            } else if i < a + 1 + b {
                assert(r[i] == names[0][i - a - 1]);
            } else {
                assert(r[i] == more[i - a - 1 - b]);
            }
        }
    }
}

/// What [`fields`] returns are fields.
pub proof fn lemma_fields_are_fields(s: Seq<char>)
    ensures
        all_fields(fields(s)),
    decreases s.len(),
{
    if s.len() == 0 {
    } else if is_space(s[0]) {
        lemma_fields_are_fields(s.skip(1));
    } else {
        let n = word_len(s);
        lemma_word_len_bound(s);
        if 1 <= n <= s.len() {
            let w = s.take(n as int);
            let rest = fields(s.skip(n as int));
            lemma_fields_are_fields(s.skip(n as int));
            assert(is_field(w)) by {
                assert forall|i: int| 0 <= i < w.len() implies !is_space(#[trigger] w[i]) by {
                    assert(w[i] == s[i]);
                }
            }
            assert forall|i: int| 0 <= i < fields(s).len() implies is_field(
                #[trigger] fields(s)[i],
            ) by {
                if i > 0 {
                    assert(fields(s)[i] == rest[i - 1]);
                }
            }
        }
    }
}

/// Whether no line of the hosts file `hosts` has `old_name` among its
/// names.
pub open spec fn is_unmatched(hosts: Seq<char>, old_name: Seq<char>) -> bool
    decreases hosts.len(),
{
    if hosts.len() == 0 {
        true
    } else {
        let n = line_len(hosts);
        if n < hosts.len() {
            !is_matched(hosts.take(n as int), old_name) && is_unmatched(
                hosts.skip(n as int + 1),
                old_name,
            )
        } else {
            !is_matched(hosts, old_name)
        }
    }
}

/// The fields of a patched line: the address as it was, the names swapped.
/// With a field for `new_name` they are fields again, and swapping them a
/// second time changes nothing.
proof fn lemma_swapped_fields(fs: Seq<Seq<char>>, old_name: Seq<char>, new_name: Seq<char>)
    requires
        fs.len() > 0,
        all_fields(fs),
        is_field(new_name),
    ensures
        all_fields(seq![fs[0]] + swap_fields(fs.skip(1), old_name, new_name)),
        swap_fields(swap_fields(fs.skip(1), old_name, new_name), old_name, new_name)
            == swap_fields(fs.skip(1), old_name, new_name),
{
    let g = seq![fs[0]] + swap_fields(fs.skip(1), old_name, new_name);
    assert forall|i: int| 0 <= i < g.len() implies is_field(#[trigger] g[i]) by {
        if i == 0 {
            assert(g[0] == fs[0]);
        } else {
            assert(g[i] == swap_field(fs[i], old_name, new_name));
            assert(is_field(fs[i]));
        }
    }
}

/// A patched line holds no newline if the line held none, and patching it
/// again changes nothing, where the new name is a field or no name of the
/// line is the old name.
proof fn lemma_patch_line_stable(line: Seq<char>, old_name: Seq<char>, new_name: Seq<char>)
    requires
        one_line(line),
        is_field(new_name) || !is_matched(line, old_name),
    ensures
        one_line(patch_line(line, old_name, new_name)),
        patch_line(patch_line(line, old_name, new_name), old_name, new_name) == patch_line(
            line,
            old_name,
            new_name,
        ),
{
    if is_matched(line, old_name) {
        let fs = fields(line);
        let g = seq![fs[0]] + swap_fields(fs.skip(1), old_name, new_name);
        let r = render_line(g);
        lemma_fields_are_fields(line);
        lemma_swapped_fields(fs, old_name, new_name);
        lemma_render_shape(g);
        lemma_fields_of_render(g);
        assert(g[0] == fs[0]);
        assert(g.skip(1) == swap_fields(fs.skip(1), old_name, new_name));
        assert(seq![g[0]] + swap_fields(g.skip(1), old_name, new_name) == g);
    }
}

/// The fields of a staged line, where the new name is a field: the address
/// as it was, then the names, each that is the old name replaced by the new
/// one and every other as it was. So a staged line has as many fields as
/// the line had, and a name of which the old name is only a part is kept.
pub proof fn lemma_patched_line_fields(line: Seq<char>, old_name: Seq<char>, new_name: Seq<char>)
    requires
        is_field(new_name),
        fields(line).len() > 0,
    ensures
        fields(patch_line(line, old_name, new_name)) == seq![fields(line)[0]] + swap_fields(
            fields(line).skip(1),
            old_name,
            new_name,
        ),
{
    let fs = fields(line);
    let g = seq![fs[0]] + swap_fields(fs.skip(1), old_name, new_name);
    if is_matched(line, old_name) {
        lemma_fields_are_fields(line);
        lemma_swapped_fields(fs, old_name, new_name);
        lemma_fields_of_render(g);
    } else {
        assert(g == fs) by {
            assert forall|i: int| 0 <= i < fs.len() implies g[i] == fs[i] by {
                if i > 0 {
                    assert(g[i] == swap_field(fs[i], old_name, new_name));
                }
            }
        }
    }
}

/// A virtual hosts file is empty or ends in a newline: every line of it is
/// ended by one.
pub proof fn lemma_patch_ends_in_newline(
    hosts: Seq<char>,
    old_name: Seq<char>,
    new_name: Seq<char>,
)
    ensures
        hosts.len() == 0 ==> patched_hosts(hosts, old_name, new_name).len() == 0,
        hosts.len() > 0 ==> patched_hosts(hosts, old_name, new_name).len() > 0
            && patched_hosts(hosts, old_name, new_name).last() == '\n',
    decreases hosts.len(),
{
    if hosts.len() > 0 {
        let n = line_len(hosts);
        if n < hosts.len() {
            let rest = hosts.skip(n as int + 1);
            let head = patch_line(hosts.take(n as int), old_name, new_name) + seq!['\n'];
            let tail = patched_hosts(rest, old_name, new_name);
            lemma_patch_ends_in_newline(rest, old_name, new_name);
            assert(patched_hosts(hosts, old_name, new_name) == head + tail);
            if tail.len() > 0 {
                assert((head + tail).last() == tail.last());
            } else {
                assert(head + tail == head);
            }
        }
    }
}

/// A hosts file in which no name is the old name, and which is empty or
/// ends in a newline, is not altered: the virtual hosts file is the hosts
/// file, character by character.
pub proof fn lemma_patch_keeps_unmatched(
    hosts: Seq<char>,
    old_name: Seq<char>,
    new_name: Seq<char>,
)
    requires
        is_unmatched(hosts, old_name),
        hosts.len() == 0 || hosts.last() == '\n',
    ensures
        patched_hosts(hosts, old_name, new_name) == hosts,
    decreases hosts.len(),
{
    if hosts.len() > 0 {
        let n = line_len(hosts);
        lemma_line_len_bound(hosts);
        assert(n < hosts.len()) by {
            if n == hosts.len() {
                assert(hosts[hosts.len() - 1] != '\n');
            }
        }
        let rest = hosts.skip(n as int + 1);
        assert(rest.len() == 0 || rest.last() == '\n') by {
            if rest.len() > 0 {
                assert(rest.last() == hosts.last());
            }
        }
        lemma_patch_keeps_unmatched(rest, old_name, new_name);
        assert(hosts == hosts.take(n as int) + seq!['\n'] + rest);
    }
}

proof fn lemma_patch_stable(hosts: Seq<char>, old_name: Seq<char>, new_name: Seq<char>)
    requires
        is_field(new_name) || is_unmatched(hosts, old_name),
    ensures
        patched_hosts(patched_hosts(hosts, old_name, new_name), old_name, new_name)
            == patched_hosts(hosts, old_name, new_name),
    decreases hosts.len(),
{
    if hosts.len() > 0 {
        let n = line_len(hosts);
        lemma_line_len_bound(hosts);
        if n < hosts.len() {
            let line = hosts.take(n as int);
            let rest = patched_hosts(hosts.skip(n as int + 1), old_name, new_name);
            let patched = patch_line(line, old_name, new_name);
            assert(one_line(line)) by {
                assert forall|i: int| 0 <= i < line.len() implies #[trigger] line[i] != '\n' by {
                    assert(line[i] == hosts[i]);
                }
            }
            lemma_patch_line_stable(line, old_name, new_name);
            lemma_patch_stable(hosts.skip(n as int + 1), old_name, new_name);
            let whole = patched + seq!['\n'] + rest;
            lemma_line_len_of_run(patched, rest);
            assert(whole.take(patched.len() as int) == patched);
            assert(whole.skip(patched.len() as int + 1) == rest);
        } else {
            let patched = patch_line(hosts, old_name, new_name);
            let nothing = Seq::<char>::empty();
            assert(one_line(hosts));
            lemma_patch_line_stable(hosts, old_name, new_name);
            let whole = patched + seq!['\n'] + nothing;
            assert(whole == patched + seq!['\n']);
            lemma_line_len_of_run(patched, nothing);
            assert(whole.take(patched.len() as int) == patched);
            assert(whole.skip(patched.len() as int + 1) == nothing);
            assert(patched_hosts(whole, old_name, new_name) == patched + seq!['\n']
                + patched_hosts(nothing, old_name, new_name));
        }
    }
}

/// Patching is idempotent: a virtual hosts file that is patched again with
/// the same two names stays as it is, where the new name is a field, and
/// also where no name of the hosts file is the old name, whatever the new
/// name is. A line on which no name is the old name is never altered.
pub proof fn lemma_patch_idempotent(hosts: Seq<char>, old_name: Seq<char>, new_name: Seq<char>)
    requires
        is_field(new_name) || is_unmatched(hosts, old_name),
    ensures
        patched_hosts(patched_hosts(hosts, old_name, new_name), old_name, new_name)
            == patched_hosts(hosts, old_name, new_name),
{
    lemma_patch_stable(hosts, old_name, new_name);
}

/// The host's name as its hostname file gives it: the text of the file
/// without the whitespace around it.
pub open spec fn host_name(text: Seq<char>) -> Seq<char> {
    trim(text)
}

/// What the virtual hostname file holds: the name and a newline.
pub open spec fn hostname_file(name: Seq<char>) -> Seq<char> {
    name + seq!['\n']
}

/// Reads the host's name from the text of its hostname file.
pub fn read_host_name(text: &str) -> (name: String)
    ensures
        name@ == host_name(text@),
{
    let all = to_chars(text);
    let kept = trimmed(&all);
    from_chars(&kept)
}

/// Names the bottle after the host: `name` with `suffix` behind it.
pub fn virtual_name(name: &str, suffix: &str) -> (out: String)
    ensures
        out@ == name@ + suffix@,
{
    let mut out = name.to_owned();
    out.append(suffix);
    out
}

/// The text of the virtual hostname file for the bottle's name.
pub fn hostname_text(name: &str) -> (out: String)
    ensures
        out@ == hostname_file(name@),
{
    let mut out = name.to_owned();
    out.append("\n");
    proof {
        reveal_strlit("\n");
    }
    out
}

} // verus!
