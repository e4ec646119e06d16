//! The environment bridge: host variables captured when the bottle is made,
//! kept as `NAME=value` lines, and handed back whenever the bottle is entered.

use crate::chars::{
    copy_range, from_chars, join, joined, lemma_line_len_bound, lemma_lines_after_line, line_len,
    lines, one_line, rows, split_lines, strip_cr, texts, to_chars,
};
use vstd::prelude::*;

verus! {

/// The names of the host variables that are captured, in the order in which
/// they are written.
pub open spec fn allow_list_names() -> Seq<Seq<char>> {
    seq!["WSL_DISTRO_NAME"@, "WSL_INTEROP"@, "WSLENV"@]
}

/// The assignment that marks a process as running inside the bottle.
pub open spec fn marker_line() -> Seq<char> {
    "INSIDE_DJINN=true"@
}

/// The name of the variable that holds the terminal type.
pub open spec fn terminal_name() -> Seq<char> {
    "TERM"@
}

/// The line `name=value`.
pub open spec fn assignment(name: Seq<char>, value: Seq<char>) -> Seq<char> {
    name + seq!['='] + value
}

/// What a vector of looked-up values holds, each value by its view.
pub open spec fn lookups(v: Seq<Option<String>>) -> Seq<Option<Seq<char>>> {
    v.map_values(
        |o: Option<String>|
            match o {
                Some(t) => Some(t@),
                None => None,
            },
    )
}

/// The value found for the `i`-th name, if one was found.
pub open spec fn value_at(values: Seq<Option<Seq<char>>>, i: int) -> Option<Seq<char>> {
    if 0 <= i < values.len() {
        values[i]
    } else {
        None
    }
}

/// The assignments of the first `n` names that have a value, in order.
pub open spec fn captured_lines(
    names: Seq<Seq<char>>,
    values: Seq<Option<Seq<char>>>,
    n: nat,
) -> Seq<Seq<char>>
    decreases n,
{
    if n == 0 || n > names.len() {
        Seq::empty()
    } else {
        let before = captured_lines(names, values, (n - 1) as nat);
        match value_at(values, n - 1) {
            Some(v) => before.push(assignment(names[n - 1], v)),
            None => before,
        }
    }
}

/// Those of the first `n` names that have no value, in order.
pub open spec fn missing_names(
    names: Seq<Seq<char>>,
    values: Seq<Option<Seq<char>>>,
    n: nat,
) -> Seq<Seq<char>>
    decreases n,
{
    if n == 0 || n > names.len() {
        Seq::empty()
    } else {
        let before = missing_names(names, values, (n - 1) as nat);
        match value_at(values, n - 1) {
            Some(v) => before,
            None => before.push(names[n - 1]),
        }
    }
}

/// The given lines as a text, each ended by a newline.
pub open spec fn written(ls: Seq<Seq<char>>) -> Seq<char>
    decreases ls.len(),
{
    if ls.len() == 0 {
        Seq::empty()
    } else {
        written(ls.drop_last()) + ls.last() + seq!['\n']
    }
}

/// The saved environment: the marker first, then one assignment for each
/// name that has a value.
pub open spec fn saved_text(names: Seq<Seq<char>>, values: Seq<Option<Seq<char>>>) -> Seq<char> {
    written(seq![marker_line()] + captured_lines(names, values, names.len()))
}

/// What capturing the host variables gives.
#[derive(Clone, Debug, PartialEq, Eq)]
pub struct SavedEnvironment {
    /// The text to persist.
    pub text: String,
    /// The names for which no value was found; each is worth a warning.
    pub missing: Vec<String>,
}

/// The fixed list of host variables that are captured.
pub fn allow_list() -> (names: Vec<String>)
    ensures
        texts(names@) == allow_list_names(),
{
    let mut names: Vec<String> = Vec::new();
    names.push("WSL_DISTRO_NAME".to_owned());
    names.push("WSL_INTEROP".to_owned());
    names.push("WSLENV".to_owned());
    assert(texts(names@) == allow_list_names());
    names
}

/// Captures the host variables `names`, whose looked-up values are `values`
/// (the `i`-th value belongs to the `i`-th name; a name without a value, or
/// past the end of `values`, is missing). The text starts with the marker
/// line and holds `NAME=value` for every name that has a value, in order;
/// a missing name is left out of the text and listed in `missing`.
pub fn save(names: &Vec<String>, values: &Vec<Option<String>>) -> (r: SavedEnvironment)
    ensures
        r.text@ == saved_text(texts(names@), lookups(values@)),
        texts(r.missing@) == missing_names(texts(names@), lookups(values@), names@.len()),
{
    let ghost ns = texts(names@);
    let ghost vs = lookups(values@);
    let mut text = "INSIDE_DJINN=true".to_owned();
    text.append("\n");
    let mut missing: Vec<String> = Vec::new();
    let mut i: usize = 0;
    proof {
        reveal_strlit("\n");
        assert("\n"@ == seq!['\n']);
        let first = seq![marker_line()] + captured_lines(ns, vs, 0);
        assert(first.drop_last() == Seq::<Seq<char>>::empty());
        assert(written(first.drop_last()) == Seq::<char>::empty());
        assert(first.last() == marker_line());
        assert(text@ == Seq::<char>::empty() + marker_line() + seq!['\n']);
        assert(texts(missing@) == missing_names(ns, vs, 0));
    }
    while i < names.len()
        invariant
            i <= names.len(),
            ns == texts(names@),
            vs == lookups(values@),
            text@ == written(seq![marker_line()] + captured_lines(ns, vs, i as nat)),
            texts(missing@) == missing_names(ns, vs, i as nat),
        decreases names.len() - i,
    {
        let ghost before = seq![marker_line()] + captured_lines(ns, vs, i as nat);
        let ghost gone = texts(missing@);
        assert(ns[i as int] == names@[i as int]@);
        let mut found = false;
        if i < values.len() {
            assert(vs[i as int] == lookups(values@)[i as int]);
            if let Some(v) = &values[i] {
                found = true;
                text.append(names[i].as_str());
                text.append("=");
                text.append(v.as_str());
                text.append("\n");
                proof {
                    reveal_strlit("\n");
                    reveal_strlit("=");
                    let line = assignment(ns[i as int], v@);
                    let after = seq![marker_line()] + captured_lines(ns, vs, (i + 1) as nat);
                    assert(value_at(vs, i as int) == Some(v@));
                    assert(after == before.push(line));
                    assert(after.drop_last() == before);
                    assert(text@ == written(before) + line + seq!['\n']);
                }
            }
        }
        if !found {
            let name = names[i].clone();
            proof {
                assert(value_at(vs, i as int) is None);
                assert(texts(missing@.push(name)) == gone.push(name@));
            }
            missing.push(name);
        }
        i = i + 1;
    }
    SavedEnvironment { text, missing }
}

/// Length of the leading run of characters of `line` that are not `=`.
pub open spec fn name_len(line: Seq<char>) -> nat
    decreases line.len(),
{
    if line.len() > 0 && line[0] != '=' {
        1 + name_len(line.skip(1))
    } else {
        0
    }
}

/// Whether `line` holds a `=`, and so a name and a value.
pub open spec fn is_assignment(line: Seq<char>) -> bool {
    name_len(line) < line.len()
}

/// The name that `line` assigns to: what stands before its first `=`.
pub open spec fn name_of(line: Seq<char>) -> Seq<char> {
    line.take(name_len(line) as int)
}

/// The names that the given lines assign to.
pub open spec fn names_of(ls: Seq<Seq<char>>) -> Seq<Seq<char>> {
    ls.map_values(|l: Seq<char>| name_of(l))
}

/// The environment for a process that enters the bottle: the terminal type
/// of this invocation first, then the saved lines as they stand.
pub open spec fn loaded_entries(term: Seq<char>, saved: Seq<char>) -> Seq<Seq<char>> {
    seq![assignment(terminal_name(), term)] + lines(saved)
}

/// The names of [`loaded_entries`], in the same order, with commas between.
pub open spec fn loaded_names(saved: Seq<char>) -> Seq<char> {
    join(seq![terminal_name()] + names_of(lines(saved)), seq![','])
}

/// What entering the bottle takes along.
#[derive(Clone, Debug, PartialEq, Eq)]
pub struct LoadedEnvironment {
    /// The `NAME=value` entries, the terminal type first.
    pub entries: Vec<String>,
    /// The names of the entries, in the same order, joined by commas.
    pub names: String,
}

/// Why a saved environment could not be read.
#[derive(Clone, Copy, Debug, PartialEq, Eq)]
pub enum LoadError {
    /// The line with this index, counted from 0, holds no `=`.
    MalformedLine(usize),
}

/// Finds the first `=` of `line`; the length of the line if it holds none.
fn find_equals(line: &Vec<char>) -> (k: usize)
    ensures
        k == name_len(line@),
        k <= line.len(),
{
    let mut k: usize = 0;
    assert(line@.skip(0) == line@);
    while k < line.len() && line[k] != '='
        invariant
            k <= line.len(),
            name_len(line@) == k + name_len(line@.skip(k as int)),
        decreases line.len() - k,
    {
        assert(line@.skip(k as int).skip(1) == line@.skip(k + 1));
        k = k + 1;
    }
    proof {
        if k < line.len() {
            assert(line@.skip(k as int)[0] == line@[k as int]);
        }
    }
    k
}

/// Reads a saved environment back. `term` is the terminal type of this
/// invocation; `saved` is the persisted text, empty where none was found.
///
/// Succeeds exactly when every line of `saved` holds a `=`. The entries are
/// then `TERM=` with `term`, followed by the saved lines as they stand, and
/// the names are those of the entries, in that order, joined by commas.
/// Otherwise the error names the first line without a `=`.
pub fn load(term: &str, saved: &str) -> (r: Result<LoadedEnvironment, LoadError>)
    ensures
        match r {
            Ok(env) => {
                &&& forall|i: int|
                    0 <= i < lines(saved@).len() ==> is_assignment(#[trigger] lines(saved@)[i])
                &&& texts(env.entries@) == loaded_entries(term@, saved@)
                &&& env.names@ == loaded_names(saved@)
            },
            Err(LoadError::MalformedLine(k)) => {
                &&& k < lines(saved@).len()
                &&& !is_assignment(lines(saved@)[k as int])
                &&& forall|i: int| 0 <= i < k ==> is_assignment(#[trigger] lines(saved@)[i])
            },
        },
{
    let text = to_chars(saved);
    let ls = split_lines(&text);
    let ghost all = lines(saved@);
    let mut first = "TERM".to_owned();
    first.append("=");
    first.append(term);
    proof {
        reveal_strlit("=");
        assert(first@ == assignment(terminal_name(), term@));
    }
    let mut entries: Vec<String> = Vec::new();
    entries.push(first);
    let mut names: Vec<Vec<char>> = Vec::new();
    names.push(to_chars("TERM"));
    let mut i: usize = 0;
    proof {
        assert(all.take(0) == Seq::<Seq<char>>::empty());
        assert(texts(entries@) == seq![assignment(terminal_name(), term@)] + all.take(0));
        assert(rows(names@) == seq![terminal_name()] + names_of(all.take(0)));
    }
    while i < ls.len()
        invariant
            i <= ls.len(),
            all == rows(ls@),
            all == lines(saved@),
            forall|j: int| 0 <= j < i ==> is_assignment(#[trigger] all[j]),
            texts(entries@) == seq![assignment(terminal_name(), term@)] + all.take(i as int),
            rows(names@) == seq![terminal_name()] + names_of(all.take(i as int)),
        decreases ls.len() - i,
    {
        let ghost had = texts(entries@);
        let ghost named = rows(names@);
        assert(all[i as int] == ls@[i as int]@);
        let k = find_equals(&ls[i]);
        if k == ls[i].len() {
            return Err(LoadError::MalformedLine(i));
        }
        let name = copy_range(&ls[i], 0, k);
        let entry = from_chars(&ls[i]);
        proof {
            assert(name@ == name_of(all[i as int]));
            assert(all.take(i + 1) == all.take(i as int).push(all[i as int]));
            assert(texts(entries@.push(entry)) == had.push(entry@));
            assert(rows(names@.push(name)) == named.push(name@));
            assert(names_of(all.take(i + 1)) == names_of(all.take(i as int)).push(name@));
            assert(had.push(entry@) == seq![assignment(terminal_name(), term@)] + all.take(i + 1));
            assert(named.push(name@) == seq![terminal_name()] + names_of(all.take(i + 1)));
        }
        entries.push(entry);
        names.push(name);
        i = i + 1;
    }
    assert(all.take(ls.len() as int) == all);
    let mut comma: Vec<char> = Vec::new();
    comma.push(',');
    assert(comma@ == seq![',']);
    let list = joined(&names, &comma);
    Ok(LoadedEnvironment { entries, names: from_chars(&list) })
}

/// A line that is read back as it was written: it holds no newline and
/// does not end in a carriage return.
pub open spec fn survives(line: Seq<char>) -> bool {
    one_line(line) && strip_cr(line) == line
}

proof fn lemma_written_ends(ls: Seq<Seq<char>>)
    ensures
        written(ls).len() == 0 || written(ls).last() == '\n',
        ls.len() == 0 ==> written(ls).len() == 0,
{
}

proof fn lemma_written_single(ls: Seq<Seq<char>>)
    requires
        ls.len() == 1,
    ensures
        written(ls) == ls[0] + seq!['\n'],
{
    assert(ls.drop_last().len() == 0);
    assert(written(ls.drop_last()) == Seq::<char>::empty());
    assert(Seq::<char>::empty() + ls[0] == ls[0]);
}

proof fn lemma_written_split(ls: Seq<Seq<char>>, p: int)
    requires
        0 <= p <= ls.len(),
    ensures
        written(ls) == written(ls.take(p)) + written(ls.skip(p)),
    decreases ls.len() - p,
{
    if p == ls.len() {
        assert(ls.take(p) == ls);
        assert(ls.skip(p) == Seq::<Seq<char>>::empty());
        assert(written(ls) + Seq::<char>::empty() == written(ls));
    } else {
        let front = ls.drop_last();
        let tail = ls.skip(p);
        lemma_written_split(front, p);
        assert(front.take(p) == ls.take(p));
        assert(front.skip(p) == tail.drop_last());
        assert(tail.last() == ls.last());
        assert(written(ls) == written(ls.take(p)) + (written(tail.drop_last()) + tail.last()
            + seq!['\n']));
    }
}

proof fn lemma_line_len_in_front(a: Seq<char>, b: Seq<char>)
    requires
        line_len(a) < a.len(),
    ensures
        line_len(a + b) == line_len(a),
    decreases a.len(),
{
    assert((a + b)[0] == a[0]);
    if a[0] != '\n' {
        assert((a + b).skip(1) == a.skip(1) + b);
        lemma_line_len_in_front(a.skip(1), b);
    }
}

/// The lines of two texts put together are the lines of the first, then
/// those of the second, where the first is empty or ends in a newline.
pub proof fn lemma_lines_concat(a: Seq<char>, b: Seq<char>)
    requires
        a.len() == 0 || a.last() == '\n',
    ensures
        lines(a + b) == lines(a) + lines(b),
    decreases a.len(),
{
    if a.len() == 0 {
        assert(a + b == b);
        assert(lines(a) + lines(b) == lines(b));
    } else {
        let n = line_len(a);
        lemma_line_len_bound(a);
        assert(n < a.len()) by {
            if n == a.len() {
                assert(a[a.len() - 1] != '\n');
            }
        }
        lemma_line_len_in_front(a, b);
        let rest = a.skip(n as int + 1);
        assert(rest.len() == 0 || rest.last() == '\n') by {
            if rest.len() > 0 {
                assert(rest.last() == a.last());
            }
        }
        lemma_lines_concat(rest, b);
        assert((a + b).take(n as int) == a.take(n as int));
        assert((a + b).skip(n as int + 1) == rest + b);
        assert(lines(a + b) == seq![strip_cr(a.take(n as int))] + lines(rest + b));
        assert(lines(a) == seq![strip_cr(a.take(n as int))] + lines(rest));
        assert(seq![strip_cr(a.take(n as int))] + (lines(rest) + lines(b)) == (seq![
            strip_cr(a.take(n as int)),
        ] + lines(rest)) + lines(b));
    }
}

/// A line that survives is found among the lines of the written text, at
/// the place where it was written.
proof fn lemma_written_line_is_read(ls: Seq<Seq<char>>, p: int)
    requires
        0 <= p < ls.len(),
        survives(ls[p]),
    ensures
        lines(written(ls)).contains(ls[p]),
{
    let front = written(ls.take(p));
    let back = ls.skip(p);
    let after = written(back.skip(1));
    lemma_written_split(ls, p);
    lemma_written_split(back, 1);
    lemma_written_ends(ls.take(p));
    lemma_written_single(back.take(1));
    assert(back.take(1)[0] == ls[p]);
    assert(written(back) == ls[p] + seq!['\n'] + after);
    lemma_lines_concat(front, written(back));
    lemma_lines_after_line(ls[p], after);
    let found = lines(written(ls));
    assert(found == lines(front) + (seq![ls[p]] + lines(after)));
    assert(found[lines(front).len() as int] == ls[p]);
}

proof fn lemma_captured_holds(
    names: Seq<Seq<char>>,
    values: Seq<Option<Seq<char>>>,
    n: nat,
    i: int,
)
    requires
        0 <= i < n <= names.len(),
        value_at(values, i) is Some,
    ensures
        captured_lines(names, values, n).contains(
            assignment(names[i], value_at(values, i)->Some_0),
        ),
    decreases n,
{
    let line = assignment(names[i], value_at(values, i)->Some_0);
    let before = captured_lines(names, values, (n - 1) as nat);
    let now = captured_lines(names, values, n);
    if i == n - 1 {
        assert(now == before.push(line));
        assert(now[before.len() as int] == line);
    } else {
        lemma_captured_holds(names, values, (n - 1) as nat, i);
        let k = choose|k: int| 0 <= k < before.len() && before[k] == line;
        assert(now[k] == line);
    }
}

/// A variable that had a value when the environment was saved is loaded
/// again as the very line `NAME=value`, provided that line survives; and
/// the first entry always carries the terminal type given to the load,
/// whatever was saved.
pub proof fn lemma_saved_variable_is_loaded(
    names: Seq<Seq<char>>,
    values: Seq<Option<Seq<char>>>,
    i: int,
    term: Seq<char>,
)
    requires
        0 <= i < names.len(),
        value_at(values, i) is Some,
        survives(assignment(names[i], value_at(values, i)->Some_0)),
    ensures
        loaded_entries(term, saved_text(names, values)).contains(
            assignment(names[i], value_at(values, i)->Some_0),
        ),
        loaded_entries(term, saved_text(names, values))[0] == assignment(terminal_name(), term),
{
    let line = assignment(names[i], value_at(values, i)->Some_0);
    let captured = captured_lines(names, values, names.len());
    let ls = seq![marker_line()] + captured;
    lemma_captured_holds(names, values, names.len(), i);
    let k = choose|k: int| 0 <= k < captured.len() && captured[k] == line;
    assert(ls[k + 1] == line);
    lemma_written_line_is_read(ls, k + 1);
    let read = lines(written(ls));
    let j = choose|j: int| 0 <= j < read.len() && read[j] == line;
    let loaded = loaded_entries(term, saved_text(names, values));
    assert(loaded[j + 1] == line);
}

proof fn lemma_lines_of_written(ls: Seq<Seq<char>>)
    requires
        forall|i: int| 0 <= i < ls.len() ==> survives(#[trigger] ls[i]),
    ensures
        lines(written(ls)) == ls,
    decreases ls.len(),
{
    if ls.len() == 0 {
    } else {
        let rest = ls.skip(1);
        lemma_written_split(ls, 1);
        lemma_written_single(ls.take(1));
        assert(written(ls) == ls[0] + seq!['\n'] + written(rest));
        assert(survives(ls[0]));
        lemma_lines_after_line(ls[0], written(rest));
        assert forall|i: int| 0 <= i < rest.len() implies survives(#[trigger] rest[i]) by {
            assert(rest[i] == ls[i + 1]);
        }
        lemma_lines_of_written(rest);
        assert(seq![ls[0]] + rest == ls);
    }
}

/// Where every captured line survives, loading what was saved gives the
/// terminal type, the marker and the captured lines, in that order.
pub proof fn lemma_saved_round_trip(
    names: Seq<Seq<char>>,
    values: Seq<Option<Seq<char>>>,
    term: Seq<char>,
)
    requires
        forall|i: int|
            0 <= i < captured_lines(names, values, names.len()).len() ==> survives(
                #[trigger] captured_lines(names, values, names.len())[i],
            ),
    ensures
        loaded_entries(term, saved_text(names, values)) == seq![
            assignment(terminal_name(), term),
            marker_line(),
        ] + captured_lines(names, values, names.len()),
{
    let captured = captured_lines(names, values, names.len());
    let ls = seq![marker_line()] + captured;
    assert(survives(marker_line())) by {
        reveal_strlit("INSIDE_DJINN=true");
    }
    assert forall|i: int| 0 <= i < ls.len() implies survives(#[trigger] ls[i]) by {
        if i > 0 {
            assert(ls[i] == captured[i - 1]);
        }
    }
    lemma_lines_of_written(ls);
    assert(seq![assignment(terminal_name(), term)] + ls == seq![
        assignment(terminal_name(), term),
        marker_line(),
    ] + captured);
}

} // verus!
