//! Rewriting `/etc/fstab` so that the root filesystem is mounted read-only.
use vstd::prelude::*;
use vstd::string::StringExecFns;

use crate::text::{chars_of, push_chars};

verus! {

/// Written in a comment line above every entry that was changed.
pub const BOOTC_EDITED_STAMP: &'static str = "Updated by bootc-fstab-edit.service";

/// The characters that separate the fields of an entry.
pub open spec fn spaces() -> Seq<char> {
    seq![' ', '\t', '\n', '\x0C', '\r']
}

/// Length of the longest prefix of `s` that holds no character of `stop`.
pub open spec fn run_len(s: Seq<char>, stop: Seq<char>) -> int
    decreases s.len(),
{
    if s.len() == 0 || stop.contains(s[0]) {
        0
    } else {
        1 + run_len(s.skip(1), stop)
    }
}

/// The fields of an entry: its maximal runs of characters that are not whitespace.
pub open spec fn fields(s: Seq<char>) -> Seq<Seq<char>>
    decreases s.len(),
{
    if s.len() == 0 {
        seq![]
    } else if spaces().contains(s[0]) {
        fields(s.skip(1))
    } else {
        let n = run_len(s, spaces());
        proof {
            run_len_props(s, spaces());
            run_len_props(s.skip(1), spaces());
        }
        seq![s.take(n)] + fields(s.skip(n))
    }
}

/// The pieces of `s` between the occurrences of `sep`, empty pieces included.
pub open spec fn split_on(s: Seq<char>, sep: char) -> Seq<Seq<char>>
    decreases s.len(),
{
    let n = run_len(s, seq![sep]);
    proof {
        run_len_props(s, seq![sep]);
    }
    if n >= s.len() {
        seq![s]
    } else {
        seq![s.take(n)] + split_on(s.skip(n + 1), sep)
    }
}

/// `s` without a carriage return at its end.
pub open spec fn strip_cr(s: Seq<char>) -> Seq<char> {
    if s.len() > 0 && s.last() == '\r' {
        s.drop_last()
    } else {
        s
    }
}

/// The lines of a file. A line ends at a line feed, which may follow a carriage return;
/// neither is part of the line. What follows the last line feed is a line too, unless it is empty.
pub open spec fn lines(s: Seq<char>) -> Seq<Seq<char>>
    decreases s.len(),
{
    let n = run_len(s, seq!['\n']);
    proof {
        run_len_props(s, seq!['\n']);
    }
    if s.len() == 0 {
        seq![]
    } else if n >= s.len() {
        seq![s]
    } else {
        seq![strip_cr(s.take(n))] + lines(s.skip(n + 1))
    }
}

/// The pieces with one space between neighbours.
pub open spec fn join(parts: Seq<Seq<char>>) -> Seq<char>
    decreases parts.len(),
{
    if parts.len() == 0 {
        seq![]
    } else if parts.len() == 1 {
        parts[0]
    } else {
        parts[0] + seq![' '] + join(parts.skip(1))
    }
}

/// Whether the line is an entry for `/` whose options lack `ro`.
pub open spec fn needs_edit(line: Seq<char>) -> bool {
    let parts = fields(line);
    &&& !(line.len() > 0 && line[0] == '#')
    &&& parts.len() > 3
    &&& parts[1] == seq!['/']
    &&& !split_on(parts[3], ',').contains(seq!['r', 'o'])
}

/// The comment line that marks a changed entry.
pub open spec fn stamp_line() -> Seq<char> {
    seq!['#', ' '] + BOOTC_EDITED_STAMP@
}

/// The changed entry: `ro` is added to its options, and its fields are set one space apart.
pub open spec fn edited_entry(line: Seq<char>) -> Seq<char> {
    let parts = fields(line);
    join(parts.update(3, parts[3] + seq![',', 'r', 'o']))
}

/// What is written for one line.
pub open spec fn rendered(line: Seq<char>) -> Seq<char> {
    if needs_edit(line) {
        stamp_line() + seq!['\n'] + edited_entry(line) + seq!['\n']
    } else {
        line + seq!['\n']
    }
}

/// What is written for a sequence of lines.
pub open spec fn rendered_all(ls: Seq<Seq<char>>) -> Seq<char>
    decreases ls.len(),
{
    if ls.len() == 0 {
        seq![]
    } else {
        rendered(ls[0]) + rendered_all(ls.skip(1))
    }
}

/// The new content of the file.
pub open spec fn fixed(content: Seq<char>) -> Seq<char> {
    rendered_all(lines(content))
}

// ---------------------------------------------------------------------------
// Scanning

/// What `run_len` counts: nothing before that place is in `stop`, and what is at it, is.
pub proof fn run_len_props(s: Seq<char>, stop: Seq<char>)
    ensures
        0 <= run_len(s, stop) <= s.len(),
        forall|i: int| 0 <= i < run_len(s, stop) ==> !stop.contains(#[trigger] s[i]),
        run_len(s, stop) < s.len() ==> stop.contains(s[run_len(s, stop)]),
    decreases s.len(),
{
    if s.len() > 0 && !stop.contains(s[0]) {
        run_len_props(s.skip(1), stop);
        let n = run_len(s.skip(1), stop);
        assert forall|i: int| 0 <= i < run_len(s, stop) implies !stop.contains(#[trigger] s[i]) by {
            if i > 0 {
                assert(s.skip(1)[i - 1] == s[i]);
            }
        }
        if run_len(s, stop) < s.len() {
            assert(s.skip(1)[n] == s[n + 1]);
        }
    }
}

/// The count is the only number with those two properties.
pub(crate) proof fn run_len_unique(s: Seq<char>, stop: Seq<char>, n: int)
    requires
        0 <= n <= s.len(),
        forall|i: int| 0 <= i < n ==> !stop.contains(#[trigger] s[i]),
        n < s.len() ==> stop.contains(s[n]),
    ensures
        run_len(s, stop) == n,
{
    run_len_props(s, stop);
    let m = run_len(s, stop);
    if m < n {
        assert(!stop.contains(s[m]));
    }
    if n < m {
        assert(!stop.contains(s[n]));
    }
}

/// The characters of each piece.
spec fn views(v: Seq<Vec<char>>) -> Seq<Seq<char>> {
    v.map_values(|x: Vec<char>| x@)
}

fn has_char(set: &Vec<char>, c: char) -> (r: bool)
    ensures
        r == set@.contains(c),
{
    let mut i: usize = 0;
    while i < set.len()
        invariant
            i <= set.len(),
            forall|k: int| 0 <= k < i ==> set@[k] != c,
        decreases set.len() - i,
    {
        if set[i] == c {
            return true;
        }
        i = i + 1;
    }
    false
}

/// The end of the run that starts at `start`.
fn run_end(v: &Vec<char>, start: usize, stop: &Vec<char>) -> (end: usize)
    requires
        start <= v.len(),
    ensures
        start <= end <= v.len(),
        end - start == run_len(v@.skip(start as int), stop@),
{
    let ghost s = v@.skip(start as int);
    let mut end: usize = start;
    while end < v.len() && !has_char(stop, v[end])
        invariant
            start <= end <= v.len(),
            s == v@.skip(start as int),
            forall|i: int| 0 <= i < end - start ==> !stop@.contains(#[trigger] s[i]),
        decreases v.len() - end,
    {
        assert(s[end - start] == v@[end as int]);
        end = end + 1;
    }
    proof {
        if end < v.len() {
            assert(s[end - start] == v@[end as int]);
        }
        run_len_unique(s, stop@, end - start);
    }
    end
}

fn copy_range(v: &Vec<char>, start: usize, end: usize) -> (r: Vec<char>)
    requires
        start <= end <= v.len(),
    ensures
        r@ == v@.subrange(start as int, end as int),
{
    let mut out: Vec<char> = Vec::new();
    let mut i: usize = start;
    while i < end
        invariant
            start <= i <= end <= v.len(),
            out@ == v@.subrange(start as int, i as int),
        decreases end - i,
    {
        out.push(v[i]);
        i = i + 1;
        assert(out@ == v@.subrange(start as int, i as int));
    }
    out
}

fn space_chars() -> (r: Vec<char>)
    ensures
        r@ == spaces(),
{
    let r = vec![' ', '\t', '\n', '\x0C', '\r'];
    assert(r@ == spaces());
    r
}

fn split_fields(v: &Vec<char>) -> (r: Vec<Vec<char>>)
    ensures
        views(r@) == fields(v@),
{
    let stop = space_chars();
    let mut out: Vec<Vec<char>> = Vec::new();
    let mut i: usize = 0;
    assert(v@.skip(0) == v@);
    assert(views(out@) + fields(v@) == fields(v@));
    while i < v.len()
        invariant
            i <= v.len(),
            stop@ == spaces(),
            fields(v@) == views(out@) + fields(v@.skip(i as int)),
        decreases v.len() - i,
    {
        let ghost rest = v@.skip(i as int);
        let ghost before = views(out@);
        if has_char(&stop, v[i]) {
            assert(rest.skip(1) == v@.skip(i + 1));
            i = i + 1;
        } else {
            let end = run_end(v, i, &stop);
            let ghost n = run_len(rest, spaces());
            proof {
                assert(rest[0] == v@[i as int]);
                run_len_props(rest.skip(1), spaces());
            }
            let part = copy_range(v, i, end);
            assert(part@ == rest.take(n));
            assert(rest.skip(n) == v@.skip(end as int));
            out.push(part);
            assert(views(out@) == before.push(part@));
            assert(before + (seq![part@] + fields(v@.skip(end as int))) == before.push(part@)
                + fields(v@.skip(end as int)));
            i = end;
        }
    }
    assert(v@.skip(i as int) == Seq::<char>::empty());
    assert(views(out@) + Seq::<Seq<char>>::empty() == views(out@));
    out
}

fn split_char(v: &Vec<char>, sep: char) -> (r: Vec<Vec<char>>)
    ensures
        views(r@) == split_on(v@, sep),
{
    let stop = vec![sep];
    assert(stop@ == seq![sep]);
    let mut out: Vec<Vec<char>> = Vec::new();
    let mut i: usize = 0;
    let mut end: usize = run_end(v, 0, &stop);
    assert(v@.skip(0) == v@);
    assert(views(out@) + split_on(v@, sep) == split_on(v@, sep));
    while end < v.len()
        invariant
            i <= end <= v.len(),
            stop@ == seq![sep],
            end - i == run_len(v@.skip(i as int), seq![sep]),
            split_on(v@, sep) == views(out@) + split_on(v@.skip(i as int), sep),
        decreases v.len() - end,
    {
        let ghost rest = v@.skip(i as int);
        let ghost before = views(out@);
        let part = copy_range(v, i, end);
        assert(part@ == rest.take(end - i));
        assert(rest.skip(end - i + 1) == v@.skip(end + 1));
        out.push(part);
        assert(views(out@) == before.push(part@));
        assert(before + (seq![part@] + split_on(v@.skip(end + 1), sep)) == before.push(part@)
            + split_on(v@.skip(end + 1), sep));
        i = end + 1;
        end = run_end(v, i, &stop);
    }
    let ghost before = views(out@);
    let part = copy_range(v, i, v.len());
    assert(part@ == v@.skip(i as int));
    out.push(part);
    assert(views(out@) == before.push(part@));
    assert(before + seq![part@] == before.push(part@));
    out
}

fn split_lines(v: &Vec<char>) -> (r: Vec<Vec<char>>)
    ensures
        views(r@) == lines(v@),
{
    let stop = vec!['\n'];
    assert(stop@ == seq!['\n']);
    let mut out: Vec<Vec<char>> = Vec::new();
    let mut i: usize = 0;
    assert(v@.skip(0) == v@);
    assert(views(out@) + lines(v@) == lines(v@));
    while i < v.len()
        invariant
            i <= v.len(),
            stop@ == seq!['\n'],
            lines(v@) == views(out@) + lines(v@.skip(i as int)),
        decreases v.len() - i,
    {
        let ghost rest = v@.skip(i as int);
        let ghost before = views(out@);
        let end = run_end(v, i, &stop);
        if end == v.len() {
            let part = copy_range(v, i, end);
            assert(part@ == rest);
            out.push(part);
            assert(views(out@) == before.push(part@));
            assert(lines(v@.skip(end as int)) == Seq::<Seq<char>>::empty());
            assert(before + seq![rest] == before.push(rest) + Seq::<Seq<char>>::empty());
            i = end;
        } else {
            let cut: usize = if end > i && v[end - 1] == '\r' {
                end - 1
            } else {
                end
            };
            let part = copy_range(v, i, cut);
            assert(part@ == strip_cr(rest.take(end - i)));
            assert(rest.skip(end - i + 1) == v@.skip(end + 1));
            out.push(part);
            assert(views(out@) == before.push(part@));
            assert(before + (seq![part@] + lines(v@.skip(end + 1))) == before.push(part@) + lines(
                v@.skip(end + 1),
            ));
            i = end + 1;
        }
    }
    assert(v@.skip(i as int) == Seq::<char>::empty());
    assert(views(out@) + Seq::<Seq<char>>::empty() == views(out@));
    out
}

/// The same characters, compared one by one.
fn same_chars(a: &Vec<char>, b: &Vec<char>) -> (r: bool)
    ensures
        r == (a@ == b@),
{
    if a.len() != b.len() {
        return false;
    }
    let mut i: usize = 0;
    while i < a.len()
        invariant
            i <= a.len(),
            a.len() == b.len(),
            forall|k: int| 0 <= k < i ==> a@[k] == b@[k],
        decreases a.len() - i,
    {
        if a[i] != b[i] {
            return false;
        }
        i = i + 1;
    }
    assert(a@ == b@);
    true
}

fn has_piece(pieces: &Vec<Vec<char>>, piece: &Vec<char>) -> (r: bool)
    ensures
        r == views(pieces@).contains(piece@),
{
    let mut i: usize = 0;
    while i < pieces.len()
        invariant
            i <= pieces.len(),
            forall|k: int| 0 <= k < i ==> pieces@[k]@ != piece@,
        decreases pieces.len() - i,
    {
        if same_chars(&pieces[i], piece) {
            assert(views(pieces@)[i as int] == piece@);
            return true;
        }
        i = i + 1;
    }
    proof {
        if views(pieces@).contains(piece@) {
            let k = choose|k: int| 0 <= k < pieces@.len() && views(pieces@)[k] == piece@;
            assert(pieces@[k]@ == piece@);
        }
    }
    false
}

fn push_joined(out: &mut String, parts: &Vec<Vec<char>>)
    ensures
        final(out)@ == old(out)@ + join(views(parts@)),
{
    let ghost all = views(parts@);
    let mut i: usize = 0;
    assert(all.skip(0) == all);
    while i < parts.len()
        invariant
            i <= parts.len(),
            all == views(parts@),
            i < parts.len() ==> old(out)@ + join(all) == out@ + join(all.skip(i as int)),
            i == parts.len() ==> old(out)@ + join(all) == out@,
        decreases parts.len() - i,
    {
        let ghost before = out@;
        let ghost rest = all.skip(i as int);
        assert(rest[0] == parts@[i as int]@);
        assert(rest.skip(1) == all.skip(i + 1));
        push_chars(out, &parts[i]);
        if i + 1 < parts.len() {
            out.push(' ');
            assert(before + (rest[0] + seq![' '] + join(rest.skip(1))) == (before + rest[0]).push(
                ' ',
            ) + join(rest.skip(1)));
        }
        i = i + 1;
    }
    assert(parts.len() == 0 ==> old(out)@ + join(all) == old(out)@);
}

/// Appends what `edit_fstab_line` writes for the line, if it writes anything.
fn push_edited(out: &mut String, line: &Vec<char>) -> (edited: bool)
    ensures
        edited == needs_edit(line@),
        edited ==> final(out)@ == old(out)@ + rendered(line@),
        !edited ==> final(out)@ == old(out)@,
{
    if line.len() > 0 && line[0] == '#' {
        return false;
    }
    let mut parts = split_fields(line);
    let ghost fs = fields(line@);
    if parts.len() <= 3 {
        return false;
    }
    assert(fs[1] == parts@[1]@ && fs[3] == parts@[3]@);
    let root = vec!['/'];
    assert(root@ == seq!['/']);
    if !same_chars(&parts[1], &root) {
        return false;
    }
    let ro = vec!['r', 'o'];
    assert(ro@ == seq!['r', 'o']);
    let options = split_char(&parts[3], ',');
    if has_piece(&options, &ro) {
        return false;
    }
    out.push('#');
    out.push(' ');
    out.append(BOOTC_EDITED_STAMP);
    out.push('\n');
    let mut new_options = copy_range(&parts[3], 0, parts[3].len());
    new_options.push(',');
    new_options.push('r');
    new_options.push('o');
    assert(new_options@ == fs[3] + seq![',', 'r', 'o']);
    parts.set(3, new_options);
    assert(views(parts@) == fs.update(3, fs[3] + seq![',', 'r', 'o']));
    push_joined(out, &parts);
    out.push('\n');
    assert(out@ == old(out)@ + rendered(line@));
    true
}

/// The text to write in place of `line`, a line of `/etc/fstab`, or nothing if the line stays.
///
/// An entry for `/` whose options do not hold `ro` gets it, below a comment that says so.
pub fn edit_fstab_line(line: &str) -> (r: Option<String>)
    ensures
        r is Some <==> needs_edit(line@),
        r is Some ==> r->0@ == rendered(line@),
        r is Some <==> {
            &&& line@.len() > 0
            &&& line@[0] != '#'
            &&& fields(line@).len() >= 4
            &&& fields(line@)[1] == seq!['/']
            &&& !split_on(fields(line@)[3], ',').contains(seq!['r', 'o'])
        },
{
    let chars = chars_of(line);
    let mut out = String::new();
    if push_edited(&mut out, &chars) {
        assert(Seq::<char>::empty() + rendered(line@) == rendered(line@));
        Some(out)
    } else {
        None
    }
}

/// The new content of `/etc/fstab`: each line, edited where `edit_fstab_line` edits it.
pub fn fixup_etc_fstab(content: &str) -> (r: String)
    ensures
        r@ == fixed(content@),
{
    let chars = chars_of(content);
    let all = split_lines(&chars);
    let ghost ls = lines(content@);
    let mut out = String::new();
    let mut i: usize = 0;
    assert(ls.skip(0) == ls);
    assert(out@ + rendered_all(ls) == rendered_all(ls));
    while i < all.len()
        invariant
            i <= all.len(),
            views(all@) == ls,
            rendered_all(ls) == out@ + rendered_all(ls.skip(i as int)),
        decreases all.len() - i,
    {
        let ghost before = out@;
        let ghost rest = ls.skip(i as int);
        assert(rest[0] == all@[i as int]@);
        assert(rest.skip(1) == ls.skip(i + 1));
        if !push_edited(&mut out, &all[i]) {
            push_chars(&mut out, &all[i]);
            out.push('\n');
        }
        assert(out@ == before + rendered(rest[0]));
        assert(before + (rendered(rest[0]) + rendered_all(rest.skip(1))) == out@ + rendered_all(
            rest.skip(1),
        ));
        i = i + 1;
    }
    assert(ls.skip(i as int) == Seq::<Seq<char>>::empty());
    assert(out@ + Seq::<char>::empty() == out@);
    out
}

} // verus!
