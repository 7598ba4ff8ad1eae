//! What holds of a rewritten `/etc/fstab`.
use vstd::prelude::*;

use crate::fstab::{
    edited_entry, fields, fixed, join, lines, needs_edit, rendered, rendered_all, run_len,
    run_len_props, run_len_unique, spaces, split_on, stamp_line, strip_cr,
};

verus! {

/// Whether `s` holds no whitespace and is not empty.
spec fn is_word(s: Seq<char>) -> bool {
    s.len() > 0 && forall|i: int| 0 <= i < s.len() ==> !spaces().contains(#[trigger] s[i])
}

spec fn no_newline(s: Seq<char>) -> bool {
    forall|i: int| 0 <= i < s.len() ==> #[trigger] s[i] != '\n'
}

proof fn space_members()
    ensures
        spaces().contains(' '),
        spaces().contains('\n'),
        spaces().contains('\r'),
        !spaces().contains(','),
        !spaces().contains('r'),
        !spaces().contains('o'),
{
    assert(spaces()[0] == ' ');
    assert(spaces()[2] == '\n');
    assert(spaces()[4] == '\r');
}

proof fn single_contains(sep: char, c: char)
    ensures
        seq![sep].contains(c) <==> c == sep,
{
    assert(seq![sep][0] == sep);
}

/// The fields of an entry are words.
proof fn fields_are_words(s: Seq<char>)
    ensures
        forall|k: int| 0 <= k < fields(s).len() ==> is_word(#[trigger] fields(s)[k]),
    decreases s.len(),
{
    if s.len() > 0 {
        if spaces().contains(s[0]) {
            fields_are_words(s.skip(1));
            assert(fields(s) == fields(s.skip(1)));
        } else {
            run_len_props(s, spaces());
            run_len_props(s.skip(1), spaces());
            let n = run_len(s, spaces());
            let tail = fields(s.skip(n));
            fields_are_words(s.skip(n));
            assert(is_word(s.take(n)));
            assert forall|k: int| 0 <= k < fields(s).len() implies is_word(
                #[trigger] fields(s)[k],
            ) by {
                if k > 0 {
                    assert(fields(s)[k] == tail[k - 1]);
                }
            }
        }
    }
}

/// A word followed by a space starts the list of fields.
proof fn fields_of_word_then(w: Seq<char>, rest: Seq<char>)
    requires
        is_word(w),
        rest.len() > 0 ==> spaces().contains(rest[0]),
    ensures
        fields(w + rest) == seq![w] + fields(rest),
{
    let s = w + rest;
    assert(s[0] == w[0]);
    run_len_unique(s, spaces(), w.len() as int);
    assert(s.take(w.len() as int) == w);
    assert(s.skip(w.len() as int) == rest);
}

/// Splitting what was joined gives the words back.
proof fn fields_of_join(parts: Seq<Seq<char>>)
    requires
        forall|k: int| 0 <= k < parts.len() ==> is_word(#[trigger] parts[k]),
    ensures
        fields(join(parts)) == parts,
    decreases parts.len(),
{
    space_members();
    if parts.len() == 1 {
        fields_of_word_then(parts[0], seq![]);
        assert(parts[0] + Seq::<char>::empty() == parts[0]);
        assert(fields(Seq::<char>::empty()) == Seq::<Seq<char>>::empty());
        assert(seq![parts[0]] + Seq::<Seq<char>>::empty() == parts);
    } else if parts.len() > 1 {
        let tail = parts.skip(1);
        fields_of_join(tail);
        let rest = seq![' '] + join(tail);
        assert(join(parts) == parts[0] + rest);
        fields_of_word_then(parts[0], rest);
        assert(rest.skip(1) == join(tail));
        assert(fields(rest) == tail);
        assert(seq![parts[0]] + tail == parts);
    }
}

/// Whitespace at the end of an entry does not change its fields.
proof fn fields_ignore_last_space(s: Seq<char>, c: char)
    requires
        spaces().contains(c),
    ensures
        fields(s.push(c)) == fields(s),
    decreases s.len(),
{
    let t = s.push(c);
    if s.len() == 0 {
        assert(t.skip(1) == s);
    } else if spaces().contains(s[0]) {
        assert(t[0] == s[0]);
        assert(t.skip(1) == s.skip(1).push(c));
        fields_ignore_last_space(s.skip(1), c);
    } else {
        run_len_props(s, spaces());
        run_len_props(s.skip(1), spaces());
        let n = run_len(s, spaces());
        assert(t[0] == s[0]);
        assert forall|i: int| 0 <= i < n implies !spaces().contains(#[trigger] t[i]) by {
            assert(t[i] == s[i]);
        }
        run_len_unique(t, spaces(), n);
        assert(t.take(n) == s.take(n));
        assert(t.skip(n) == s.skip(n).push(c));
        fields_ignore_last_space(s.skip(n), c);
    }
}

/// Splitting at a separator can be done on either side of one occurrence of it.
proof fn split_at_separator(a: Seq<char>, sep: char, b: Seq<char>)
    ensures
        split_on(a + seq![sep] + b, sep) == split_on(a, sep) + split_on(b, sep),
    decreases a.len(),
{
    let s = a + seq![sep] + b;
    let stop = seq![sep];
    single_contains(sep, sep);
    run_len_props(a, stop);
    let n = run_len(a, stop);
    assert forall|i: int| 0 <= i < n implies !stop.contains(#[trigger] s[i]) by {
        assert(s[i] == a[i]);
    }
    run_len_unique(s, stop, n);
    assert(s.take(n) == a.take(n));
    if n == a.len() {
        assert(a.take(n) == a);
        assert(s.skip(n + 1) == b);
    } else {
        split_at_separator(a.skip(n + 1), sep, b);
        assert(s.skip(n + 1) == a.skip(n + 1) + seq![sep] + b);
        assert(seq![a.take(n)] + (split_on(a.skip(n + 1), sep) + split_on(b, sep)) == seq![a.take(n)]
            + split_on(a.skip(n + 1), sep) + split_on(b, sep));
    }
}

/// Options that end in `,ro` hold `ro`.
proof fn ro_is_an_option(options: Seq<char>)
    ensures
        split_on(options + seq![',', 'r', 'o'], ',').contains(seq!['r', 'o']),
{
    let ro = seq!['r', 'o'];
    split_at_separator(options, ',', ro);
    assert(options + seq![','] + ro == options + seq![',', 'r', 'o']);
    single_contains(',', 'r');
    single_contains(',', 'o');
    run_len_unique(ro, seq![','], 2);
    assert(split_on(ro, ',') == seq![ro]);
    let all = split_on(options, ',') + seq![ro];
    assert(all[all.len() - 1] == ro);
}

proof fn stamp_facts()
    ensures
        no_newline(stamp_line()),
        strip_cr(stamp_line()) == stamp_line(),
        !needs_edit(stamp_line()),
{
    reveal_strlit("Updated by bootc-fstab-edit.service");
    assert(stamp_line()[0] == '#');
}

proof fn join_chars(parts: Seq<Seq<char>>)
    requires
        forall|k: int| 0 <= k < parts.len() ==> is_word(#[trigger] parts[k]),
    ensures
        no_newline(join(parts)),
        parts.len() > 0 ==> join(parts).len() > 0 && join(parts)[0] == parts[0][0]
            && !spaces().contains(join(parts).last()),
    decreases parts.len(),
{
    space_members();
    if parts.len() == 1 {
        assert forall|i: int| 0 <= i < join(parts).len() implies #[trigger] join(parts)[i]
            != '\n' by {
            assert(!spaces().contains(parts[0][i]));
        }
    } else if parts.len() > 1 {
        let tail = parts.skip(1);
        join_chars(tail);
        let j = join(parts);
        let n = parts[0].len() as int;
        assert forall|i: int| 0 <= i < j.len() implies #[trigger] j[i] != '\n' by {
            if i < n {
                assert(j[i] == parts[0][i]);
                assert(!spaces().contains(parts[0][i]));
            } else if i > n {
                assert(j[i] == join(tail)[i - n - 1]);
            }
        }
        assert(j.last() == join(tail).last());
    }
}

/// A changed entry has the fields of the old one, but for `ro` among its options, and is not changed
/// again.
pub proof fn edited_entry_law(line: Seq<char>)
    requires
        needs_edit(line),
    ensures
        fields(edited_entry(line)) == fields(line).update(
            3,
            fields(line)[3] + seq![',', 'r', 'o'],
        ),
        split_on(fields(edited_entry(line))[3], ',').contains(seq!['r', 'o']),
        !needs_edit(edited_entry(line)),
{
    edited_entry_facts(line);
}

proof fn edited_entry_facts(line: Seq<char>)
    requires
        needs_edit(line),
    ensures
        fields(edited_entry(line)) == fields(line).update(
            3,
            fields(line)[3] + seq![',', 'r', 'o'],
        ),
        split_on(fields(edited_entry(line))[3], ',').contains(seq!['r', 'o']),
        !needs_edit(edited_entry(line)),
        no_newline(edited_entry(line)),
        strip_cr(edited_entry(line)) == edited_entry(line),
{
    let old_parts = fields(line);
    let options = old_parts[3];
    let new_options = options + seq![',', 'r', 'o'];
    let parts = old_parts.update(3, new_options);
    space_members();
    fields_are_words(line);
    assert(is_word(options));
    assert forall|i: int| 0 <= i < new_options.len() implies !spaces().contains(
        #[trigger] new_options[i],
    ) by {
        if i < options.len() {
            assert(new_options[i] == options[i]);
        }
    }
    assert(is_word(new_options));
    assert forall|k: int| 0 <= k < parts.len() implies is_word(#[trigger] parts[k]) by {
        if k != 3 {
            assert(parts[k] == old_parts[k]);
        }
    }
    fields_of_join(parts);
    join_chars(parts);
    ro_is_an_option(options);
}

/// Lines hold no line feed.
proof fn lines_have_no_newline(s: Seq<char>)
    ensures
        forall|k: int| 0 <= k < lines(s).len() ==> no_newline(#[trigger] lines(s)[k]),
    decreases s.len(),
{
    if s.len() > 0 {
        let n = run_len(s, seq!['\n']);
        run_len_props(s, seq!['\n']);
        assert forall|i: int| 0 <= i < n implies #[trigger] s[i] != '\n' by {
            single_contains('\n', s[i]);
        }
        if n < s.len() {
            lines_have_no_newline(s.skip(n + 1));
            let tail = lines(s.skip(n + 1));
            assert forall|k: int| 0 <= k < lines(s).len() implies no_newline(
                #[trigger] lines(s)[k],
            ) by {
                if k > 0 {
                    assert(lines(s)[k] == tail[k - 1]);
                }
            }
        }
    }
}

/// Text up to a line feed is the first line.
proof fn first_line(a: Seq<char>, rest: Seq<char>)
    requires
        no_newline(a),
    ensures
        lines(a + seq!['\n'] + rest) == seq![strip_cr(a)] + lines(rest),
{
    let s = a + seq!['\n'] + rest;
    assert forall|i: int| 0 <= i < a.len() implies !seq!['\n'].contains(#[trigger] s[i]) by {
        assert(s[i] == a[i]);
        single_contains('\n', s[i]);
    }
    single_contains('\n', '\n');
    run_len_unique(s, seq!['\n'], a.len() as int);
    assert(s.take(a.len() as int) == a);
    assert(s.skip(a.len() as int + 1) == rest);
}

/// The lines that are read back from what was written for `ls`: an edited line has become two, any
/// other line is kept.
pub open spec fn read_back(ls: Seq<Seq<char>>) -> Seq<Seq<char>>
    decreases ls.len(),
{
    if ls.len() == 0 {
        seq![]
    } else if needs_edit(ls[0]) {
        seq![stamp_line(), edited_entry(ls[0])] + read_back(ls.skip(1))
    } else {
        seq![strip_cr(ls[0])] + read_back(ls.skip(1))
    }
}

proof fn lines_of_rendered(ls: Seq<Seq<char>>)
    requires
        forall|k: int| 0 <= k < ls.len() ==> no_newline(#[trigger] ls[k]),
    ensures
        lines(rendered_all(ls)) == read_back(ls),
    decreases ls.len(),
{
    if ls.len() > 0 {
        let tail = rendered_all(ls.skip(1));
        lines_of_rendered(ls.skip(1));
        if needs_edit(ls[0]) {
            let e = edited_entry(ls[0]);
            stamp_facts();
            edited_entry_facts(ls[0]);
            first_line(e, tail);
            first_line(stamp_line(), e + seq!['\n'] + tail);
            assert(rendered_all(ls) == stamp_line() + seq!['\n'] + (e + seq!['\n'] + tail));
            assert(seq![stamp_line()] + (seq![e] + lines(tail)) == seq![stamp_line(), e] + lines(
                tail,
            ));
        } else {
            first_line(ls[0], tail);
            assert(rendered_all(ls) == ls[0] + seq!['\n'] + tail);
        }
    }
}

proof fn stripped_stays_settled(line: Seq<char>)
    requires
        !needs_edit(line),
    ensures
        !needs_edit(strip_cr(line)),
{
    if line.len() > 0 && line.last() == '\r' {
        space_members();
        let s = line.drop_last();
        assert(s.push('\r') == line);
        fields_ignore_last_space(s, '\r');
        if s.len() == 0 {
            assert(fields(s).len() == 0);
        }
    }
}

proof fn read_back_settled(ls: Seq<Seq<char>>)
    ensures
        forall|k: int| 0 <= k < read_back(ls).len() ==> !needs_edit(#[trigger] read_back(ls)[k]),
    decreases ls.len(),
{
    if ls.len() > 0 {
        let tail = read_back(ls.skip(1));
        read_back_settled(ls.skip(1));
        let head = if needs_edit(ls[0]) {
            seq![stamp_line(), edited_entry(ls[0])]
        } else {
            seq![strip_cr(ls[0])]
        };
        if needs_edit(ls[0]) {
            stamp_facts();
            edited_entry_facts(ls[0]);
        } else {
            stripped_stays_settled(ls[0]);
        }
        assert forall|k: int| 0 <= k < read_back(ls).len() implies !needs_edit(
            #[trigger] read_back(ls)[k],
        ) by {
            if k >= head.len() {
                assert(read_back(ls)[k] == tail[k - head.len()]);
            }
        }
    }
}

/// The lines of the rewritten file are those of the file, in their order: each one that needed an
/// edit is replaced by the comment and the changed entry, and the others are kept.
pub proof fn lines_of_rewritten_file(content: Seq<char>)
    ensures
        lines(fixed(content)) == read_back(lines(content)),
{
    lines_have_no_newline(content);
    lines_of_rendered(lines(content));
}

/// After the rewrite no line is left to edit: every entry for `/` has `ro` among its options.
pub proof fn nothing_left_to_edit(content: Seq<char>)
    ensures
        forall|k: int|
            0 <= k < lines(fixed(content)).len() ==> !needs_edit(
                #[trigger] lines(fixed(content))[k],
            ),
{
    lines_have_no_newline(content);
    lines_of_rendered(lines(content));
    read_back_settled(lines(content));
}

/// Whether the line is written as it was read and ends in a carriage return, which the next reader
/// takes for a part of the line's end.
pub open spec fn keeps_stray_cr(line: Seq<char>) -> bool {
    !needs_edit(line) && line.len() > 0 && line.last() == '\r'
}

/// Writing what was read back gives the same text, unless a stray carriage return was lost.
proof fn rendered_read_back(ls: Seq<Seq<char>>)
    ensures
        rendered_all(read_back(ls)).len() <= rendered_all(ls).len(),
        rendered_all(read_back(ls)) == rendered_all(ls) <==> forall|k: int|
            0 <= k < ls.len() ==> !keeps_stray_cr(#[trigger] ls[k]),
    decreases ls.len(),
{
    if ls.len() > 0 {
        let rest = ls.skip(1);
        let back = read_back(rest);
        rendered_read_back(rest);
        read_back_settled(ls);
        assert(forall|k: int| 0 <= k < rest.len() ==> #[trigger] rest[k] == ls[k + 1]);
        assert((forall|k: int| 0 <= k < ls.len() ==> !keeps_stray_cr(#[trigger] ls[k])) <==> (
        !keeps_stray_cr(ls[0]) && forall|k: int|
            0 <= k < rest.len() ==> !keeps_stray_cr(#[trigger] rest[k]))) by {
            assert forall|k: int|
                !keeps_stray_cr(ls[0]) && (forall|j: int|
                    0 <= j < rest.len() ==> !keeps_stray_cr(#[trigger] rest[j])) && 0 <= k
                    < ls.len() implies !keeps_stray_cr(#[trigger] ls[k]) by {
                if k > 0 {
                    assert(!keeps_stray_cr(rest[k - 1]));
                }
            }
        }
        let head: Seq<char>;
        if needs_edit(ls[0]) {
            let e = edited_entry(ls[0]);
            stamp_facts();
            edited_entry_facts(ls[0]);
            let two = seq![stamp_line(), e] + back;
            assert(two.skip(1) == seq![e] + back);
            assert((seq![e] + back).skip(1) == back);
            assert(rendered_all(seq![e] + back) == rendered(e) + rendered_all(back));
            assert(rendered_all(two) == rendered(stamp_line()) + rendered_all(seq![e] + back));
            head = rendered(ls[0]);
            assert(rendered_all(two) == head + rendered_all(back));
        } else {
            let one = seq![strip_cr(ls[0])] + back;
            stripped_stays_settled(ls[0]);
            assert(one.skip(1) == back);
            head = strip_cr(ls[0]) + seq!['\n'];
            assert(rendered_all(one) == head + rendered_all(back));
        }
        let a = head + rendered_all(back);
        let b = rendered(ls[0]) + rendered_all(rest);
        if a == b && head.len() == rendered(ls[0]).len() {
            assert(rendered_all(back) == a.skip(head.len() as int));
            assert(rendered_all(rest) == b.skip(head.len() as int));
        }
    }
}

/// Rewriting twice is rewriting once, exactly when no unedited line ends in a carriage return that is
/// not part of its line's end.
pub proof fn rewriting_twice(content: Seq<char>)
    ensures
        fixed(fixed(content)) == fixed(content) <==> forall|k: int|
            0 <= k < lines(content).len() ==> !keeps_stray_cr(#[trigger] lines(content)[k]),
{
    lines_have_no_newline(content);
    lines_of_rendered(lines(content));
    rendered_read_back(lines(content));
}

/// Whether every line ends in a line feed alone.
pub open spec fn plain_line_ends(content: Seq<char>) -> bool {
    &&& content.len() > 0 ==> content.last() == '\n'
    &&& forall|i: int|
        0 < i < content.len() && #[trigger] content[i] == '\n' ==> content[i - 1] != '\r'
}

/// A file whose lines end in line feeds and need no edit is not changed.
pub proof fn settled_file_is_kept(content: Seq<char>)
    requires
        plain_line_ends(content),
        forall|k: int| 0 <= k < lines(content).len() ==> !needs_edit(#[trigger] lines(content)[k]),
    ensures
        fixed(content) == content,
    decreases content.len(),
{
    if content.len() > 0 {
        let n = run_len(content, seq!['\n']);
        run_len_props(content, seq!['\n']);
        single_contains('\n', '\n');
        if n == content.len() {
            assert(seq!['\n'].contains(content[n - 1]));
        }
        single_contains('\n', content[n]);
        let line = content.take(n);
        let rest = content.skip(n + 1);
        let ls = lines(content);
        assert(n > 0 ==> content[n - 1] != '\r');
        assert(strip_cr(line) == line);
        assert(ls == seq![line] + lines(rest));
        assert(ls.skip(1) == lines(rest));
        assert forall|k: int| 0 <= k < lines(rest).len() implies !needs_edit(
            #[trigger] lines(rest)[k],
        ) by {
            assert(ls[k + 1] == lines(rest)[k]);
        }
        assert forall|i: int| 0 < i < rest.len() && #[trigger] rest[i] == '\n' implies rest[i - 1]
            != '\r' by {
            assert(content[i + n + 1] == rest[i]);
            assert(content[i + n] == rest[i - 1]);
        }
        settled_file_is_kept(rest);
        assert(!needs_edit(ls[0]));
        assert(line + seq!['\n'] + rest == content);
    }
}

proof fn lines_of_parts(a: Seq<char>, b: Seq<char>)
    requires
        a.len() == 0 || a.last() == '\n',
    ensures
        lines(a + b) == lines(a) + lines(b),
    decreases a.len(),
{
    if a.len() == 0 {
        assert(a + b == b);
    } else {
        let n = run_len(a, seq!['\n']);
        run_len_props(a, seq!['\n']);
        single_contains('\n', '\n');
        if n == a.len() {
            assert(!seq!['\n'].contains(a[a.len() - 1]));
        }
        single_contains('\n', a[n]);
        let first = a.take(n);
        let rest = a.skip(n + 1);
        assert forall|i: int| 0 <= i < first.len() implies #[trigger] first[i] != '\n' by {
            assert(first[i] == a[i]);
        }
        if rest.len() > 0 {
            assert(rest.last() == a.last());
        }
        lines_of_parts(rest, b);
        first_line(first, rest + b);
        assert(a + b == first + seq!['\n'] + (rest + b));
    }
}

proof fn rendered_parts(a: Seq<Seq<char>>, b: Seq<Seq<char>>)
    ensures
        rendered_all(a + b) == rendered_all(a) + rendered_all(b),
    decreases a.len(),
{
    if a.len() == 0 {
        assert(a + b == b);
    } else {
        rendered_parts(a.skip(1), b);
        assert((a + b).skip(1) == a.skip(1) + b);
    }
}

/// A file is rewritten line by line: where one part of it ends with a line, what is written is that
/// part rewritten, and then the rest rewritten.
pub proof fn parts_are_rewritten_alone(a: Seq<char>, b: Seq<char>)
    requires
        a.len() == 0 || a.last() == '\n',
    ensures
        fixed(a + b) == fixed(a) + fixed(b),
{
    lines_of_parts(a, b);
    rendered_parts(lines(a), lines(b));
}

// ---------------------------------------------------------------------------
// What the parts of a file are

/// Whitespace separates fields, wherever it stands: what is before it and what is after it are taken
/// apart on their own. Whitespace is a space, a tab, a line feed, a form feed or a carriage return.
pub proof fn fields_between_whitespace(a: Seq<char>, c: char, b: Seq<char>)
    requires
        c == ' ' || c == '\t' || c == '\n' || c == '\x0C' || c == '\r',
    ensures
        fields(a + seq![c] + b) == fields(a) + fields(b),
    decreases a.len(),
{
    let s = a + seq![c] + b;
    assert(spaces()[0] == ' ' && spaces()[1] == '\t' && spaces()[2] == '\n' && spaces()[3]
        == '\x0C' && spaces()[4] == '\r');
    assert(spaces().contains(c));
    if a.len() == 0 {
        assert(s.skip(1) == b);
        assert(fields(a) + fields(b) == fields(b));
    } else if spaces().contains(a[0]) {
        assert(s[0] == a[0]);
        assert(s.skip(1) == a.skip(1) + seq![c] + b);
        fields_between_whitespace(a.skip(1), c, b);
    } else {
        run_len_props(a, spaces());
        run_len_props(a.skip(1), spaces());
        let n = run_len(a, spaces());
        assert(s[0] == a[0]);
        assert forall|i: int| 0 <= i < n implies !spaces().contains(#[trigger] s[i]) by {
            assert(s[i] == a[i]);
        }
        run_len_unique(s, spaces(), n);
        assert(s.take(n) == a.take(n));
        assert(s.skip(n) == a.skip(n) + seq![c] + b);
        fields_between_whitespace(a.skip(n), c, b);
        assert(seq![a.take(n)] + (fields(a.skip(n)) + fields(b)) == seq![a.take(n)] + fields(
            a.skip(n),
        ) + fields(b));
    }
}

/// Text without whitespace is one field, or none if it is empty.
pub proof fn word_is_one_field(w: Seq<char>)
    requires
        forall|i: int|
            0 <= i < w.len() ==> {
                let c = #[trigger] w[i];
                c != ' ' && c != '\t' && c != '\n' && c != '\x0C' && c != '\r'
            },
    ensures
        w.len() > 0 ==> fields(w) == seq![w],
        w.len() == 0 ==> fields(w) == Seq::<Seq<char>>::empty(),
{
    if w.len() > 0 {
        assert forall|i: int| 0 <= i < w.len() implies !spaces().contains(#[trigger] w[i]) by {
            let c = w[i];
            if spaces().contains(c) {
                let k = choose|k: int| 0 <= k < spaces().len() && spaces()[k] == c;
                assert(spaces().len() == 5);
            }
        }
        assert(is_word(w));
        fields_of_word_then(w, seq![]);
        assert(w + Seq::<char>::empty() == w);
        assert(fields(Seq::<char>::empty()) == Seq::<Seq<char>>::empty());
        assert(seq![w] + Seq::<Seq<char>>::empty() == seq![w]);
    }
}

/// A separator divides text into the pieces before it and the pieces after it, and text without one is
/// a single piece, which may be empty.
pub proof fn pieces_between_separators(a: Seq<char>, sep: char, b: Seq<char>)
    ensures
        split_on(a + seq![sep] + b, sep) == split_on(a, sep) + split_on(b, sep),
        (forall|i: int| 0 <= i < a.len() ==> #[trigger] a[i] != sep) ==> split_on(a, sep) == seq![a],
{
    split_at_separator(a, sep, b);
    if forall|i: int| 0 <= i < a.len() ==> #[trigger] a[i] != sep {
        assert forall|i: int| 0 <= i < a.len() implies !seq![sep].contains(#[trigger] a[i]) by {
            single_contains(sep, a[i]);
        }
        run_len_unique(a, seq![sep], a.len() as int);
    }
}

/// A line ends at a line feed, or at a carriage return and a line feed; the rest of the file is taken
/// apart on its own. Text without a line feed is one line, or none if it is empty.
pub proof fn lines_end_at_feeds(a: Seq<char>, b: Seq<char>)
    requires
        forall|i: int| 0 <= i < a.len() ==> #[trigger] a[i] != '\n',
    ensures
        a.len() == 0 || a.last() != '\r' ==> lines(a + seq!['\n'] + b) == seq![a] + lines(b),
        lines(a + seq!['\r', '\n'] + b) == seq![a] + lines(b),
        a.len() > 0 ==> lines(a) == seq![a],
        a.len() == 0 ==> lines(a) == Seq::<Seq<char>>::empty(),
{
    first_line(a, b);
    let with_cr = a.push('\r');
    assert forall|i: int| 0 <= i < with_cr.len() implies #[trigger] with_cr[i] != '\n' by {
        if i < a.len() {
            assert(with_cr[i] == a[i]);
        }
    }
    first_line(with_cr, b);
    assert(with_cr + seq!['\n'] + b == a + seq!['\r', '\n'] + b);
    assert(with_cr.drop_last() == a);
    if a.len() > 0 {
        assert forall|i: int| 0 <= i < a.len() implies !seq!['\n'].contains(#[trigger] a[i]) by {
            single_contains('\n', a[i]);
        }
        run_len_unique(a, seq!['\n'], a.len() as int);
    }
}

/// Fields are put together with one space between neighbours and nothing else.
pub proof fn joined_by_single_spaces(a: Seq<Seq<char>>, b: Seq<Seq<char>>, w: Seq<char>)
    ensures
        join(seq![w]) == w,
        a.len() > 0 && b.len() > 0 ==> join(a + b) == join(a) + seq![' '] + join(b),
    decreases a.len(),
{
    if a.len() > 1 && b.len() > 0 {
        joined_by_single_spaces(a.skip(1), b, w);
        assert((a + b).skip(1) == a.skip(1) + b);
        assert(join(a + b) == a[0] + seq![' '] + (join(a.skip(1)) + seq![' '] + join(b)));
    } else if a.len() == 1 && b.len() > 0 {
        assert((a + b).skip(1) == b);
    }
}

// ---------------------------------------------------------------------------
// What becomes of them

/// In the rewritten file the root filesystem is read-only: of every line that is no comment and has at
/// least four fields, the second of which is `/`, the fourth has `ro` among its options, whatever the
/// other fields are.
pub proof fn root_is_read_only(content: Seq<char>)
    ensures
        forall|k: int|
            0 <= k < lines(fixed(content)).len() ==> {
                let line = #[trigger] lines(fixed(content))[k];
                let entry = fields(line);
                line[0] != '#' && entry.len() >= 4 && entry[1] == seq!['/'] ==> split_on(
                    entry[3],
                    ',',
                ).contains(seq!['r', 'o'])
            },
{
    nothing_left_to_edit(content);
    assert forall|k: int| 0 <= k < lines(fixed(content)).len() implies {
        let line = #[trigger] lines(fixed(content))[k];
        let entry = fields(line);
        line[0] != '#' && entry.len() >= 4 && entry[1] == seq!['/'] ==> split_on(
            entry[3],
            ',',
        ).contains(seq!['r', 'o'])
    } by {
        assert(!needs_edit(lines(fixed(content))[k]));
    }
}

/// A line is edited exactly if it is no comment, has at least four fields of which the second is `/`,
/// and lacks `ro` among the options in the fourth.
pub proof fn only_root_entries_are_edited(line: Seq<char>)
    ensures
        needs_edit(line) <==> {
            &&& line.len() > 0
            &&& line[0] != '#'
            &&& fields(line).len() >= 4
            &&& fields(line)[1] == seq!['/']
            &&& !split_on(fields(line)[3], ',').contains(seq!['r', 'o'])
        },
{
}

/// What is written for a line: an entry for `/` without `ro` becomes a comment and the entry with `,ro`
/// at the end of its options, all else as it was; any other line stays as it is, to the character.
pub proof fn line_is_rendered(line: Seq<char>)
    ensures
        ({
            let entry = fields(line);
            let edited = line.len() > 0 && line[0] != '#' && entry.len() >= 4 && entry[1] == seq!['/']
                && !split_on(entry[3], ',').contains(seq!['r', 'o']);
            &&& edited ==> exists|new: Seq<char>|
                {
                    &&& #[trigger] fields(new) == entry.update(3, entry[3] + seq![',', 'r', 'o'])
                    &&& new == join(fields(new))
                    &&& rendered(line) == seq!['#', ' '] + "Updated by bootc-fstab-edit.service"@ + seq![
                        '\n',
                    ] + new + seq!['\n']
                }
            &&& !edited ==> rendered(line) == line + seq!['\n']
        }),
{
    if needs_edit(line) {
        edited_entry_facts(line);
        let new = edited_entry(line);
        assert(fields(new) == fields(line).update(3, fields(line)[3] + seq![',', 'r', 'o']));
        assert(new == join(fields(new)));
        assert(rendered(line) == seq!['#', ' '] + "Updated by bootc-fstab-edit.service"@ + seq!['\n']
            + new + seq!['\n']);
    }
}

/// A file of one line is written as that line is, with a line feed at its end, however it ended. With
/// `parts_are_rewritten_alone` this says what is written for every file.
pub proof fn one_line_is_rewritten(line: Seq<char>)
    requires
        forall|i: int| 0 <= i < line.len() ==> #[trigger] line[i] != '\n',
    ensures
        fixed(line + seq!['\r', '\n']) == rendered(line),
        line.len() == 0 || line.last() != '\r' ==> fixed(line + seq!['\n']) == rendered(line),
        line.len() > 0 ==> fixed(line) == rendered(line),
        fixed(Seq::empty()) == Seq::<char>::empty(),
{
    let none = Seq::<char>::empty();
    lines_end_at_feeds(line, none);
    assert(line + seq!['\r', '\n'] + none == line + seq!['\r', '\n']);
    assert(line + seq!['\n'] + none == line + seq!['\n']);
    assert(lines(none) == Seq::<Seq<char>>::empty());
    let one = seq![line];
    assert(one + lines(none) == one);
    assert(one.skip(1) == Seq::<Seq<char>>::empty());
    assert(rendered_all(one) == rendered(line) + rendered_all(one.skip(1)));
    assert(rendered(line) + Seq::<char>::empty() == rendered(line));
}

/// How the fields of an entry for `/` are set apart, what device it is of, what type of filesystem it
/// has, and what follows its options make no difference to whether it is edited.
pub proof fn only_path_and_options_matter(line: Seq<char>, other: Seq<char>)
    requires
        line.len() > 0 && line[0] != '#',
        other.len() > 0 && other[0] != '#',
        fields(line).len() >= 4,
        fields(other).len() >= 4,
        fields(line)[1] == fields(other)[1],
        fields(line)[3] == fields(other)[3],
    ensures
        needs_edit(line) == needs_edit(other),
{
}

} // verus!
