use vstd::prelude::*;

verus! {

/// The buffer contents that a vector of lines denotes: each line as a
/// sequence of characters.
pub open spec fn lines_view(v: Seq<Vec<char>>) -> Seq<Seq<char>> {
    Seq::new(v.len(), |i: int| v[i]@)
}

/// The line buffer that a text denotes: the text is cut at every newline,
/// the newlines themselves are not stored, and a trailing newline ends the
/// last line rather than opening an empty one. The empty text denotes the
/// empty buffer.
pub open spec fn line_split(s: Seq<char>) -> Seq<Seq<char>>
    decreases s.len(),
{
    if s.len() == 0 {
        Seq::empty()
    } else if s[0] == '\n' {
        seq![Seq::<char>::empty()] + line_split(s.skip(1))
    } else {
        let rest = line_split(s.skip(1));
        if rest.len() == 0 {
            seq![seq![s[0]]]
        } else {
            seq![seq![s[0]] + rest[0]] + rest.skip(1)
        }
    }
}

/// The text that a line buffer denotes: the lines joined by single newlines,
/// with no trailing newline.
pub open spec fn flat_text(lines: Seq<Seq<char>>) -> Seq<char>
    decreases lines.len(),
{
    if lines.len() == 0 {
        Seq::empty()
    } else if lines.len() == 1 {
        lines[0]
    } else {
        lines[0] + seq!['\n'] + flat_text(lines.skip(1))
    }
}

/// Index of the first newline of `s`, or `s.len()` when it has none.
pub open spec fn first_newline(s: Seq<char>) -> int
    decreases s.len(),
{
    if s.len() == 0 {
        0
    } else if s[0] == '\n' {
        0
    } else {
        1 + first_newline(s.skip(1))
    }
}

pub proof fn lemma_first_newline_bounds(s: Seq<char>)
    ensures
        0 <= first_newline(s) <= s.len(),
        forall|k: int| 0 <= k < first_newline(s) ==> s[k] != '\n',
        first_newline(s) < s.len() ==> s[first_newline(s)] == '\n',
    decreases s.len(),
{
    if s.len() == 0 {
    } else if s[0] == '\n' {
    } else {
        let i = first_newline(s);
        lemma_first_newline_bounds(s.skip(1));
        assert forall|k: int| 0 <= k < i implies s[k] != '\n' by {
            if k > 0 {
                assert(s.skip(1)[k - 1] == s[k]);
            }
        }
        if i < s.len() {
            assert(s.skip(1)[i - 1] == s[i]);
        }
    }
}

/// Splitting a text whose first newline stands at `i` yields the prefix
/// before it as one line, followed by the split of what stands after it;
/// a text without any newline is one single line.
pub proof fn lemma_line_split_chunk(s: Seq<char>, i: int)
    requires
        0 <= i <= s.len(),
        forall|k: int| 0 <= k < i ==> s[k] != '\n',
        i < s.len() ==> s[i] == '\n',
    ensures
        i == s.len() && s.len() > 0 ==> line_split(s) == seq![s],
        i < s.len() ==> line_split(s) == seq![s.take(i)] + line_split(s.skip(i + 1)),
    decreases s.len(),
{
    if s.len() == 0 {
    } else if i == 0 {
        if i < s.len() {
            assert(s.take(0) =~= Seq::<char>::empty());
            assert(s.skip(1) =~= s.skip(i + 1));
        }
    } else {
        let rest = line_split(s.skip(1));
        assert forall|k: int| 0 <= k < i - 1 implies s.skip(1)[k] != '\n' by {
            assert(s.skip(1)[k] == s[k + 1]);
        }
        lemma_line_split_chunk(s.skip(1), i - 1);
        if i == s.len() {
            if s.len() == 1 {
                assert(rest.len() == 0);
                assert(seq![s[0]] =~= s);
            } else {
                assert(rest == seq![s.skip(1)]);
                assert(seq![s[0]] + rest[0] =~= s);
                assert(line_split(s) == seq![seq![s[0]] + rest[0]] + rest.skip(1));
                assert(rest.skip(1) =~= Seq::<Seq<char>>::empty());
                assert(line_split(s) =~= seq![seq![s[0]] + rest[0]]);
            }
        } else {
            assert(rest == seq![s.skip(1).take(i - 1)] + line_split(s.skip(1).skip(i)));
            assert(rest.len() > 0);
            assert(line_split(s) == seq![seq![s[0]] + rest[0]] + rest.skip(1));
            assert(seq![s[0]] + s.skip(1).take(i - 1) =~= s.take(i));
            assert(rest[0] == s.skip(1).take(i - 1));
            assert(s.skip(1).skip(i) =~= s.skip(i + 1));
            assert(rest.skip(1) =~= line_split(s.skip(i + 1)));
            assert(line_split(s) =~= seq![s.take(i)] + line_split(s.skip(i + 1)));
        }
    }
}

/// Appending one more line to a buffer appends its text after a separating
/// newline (or is the whole text, when the buffer was empty).
pub proof fn lemma_flat_text_push(lines: Seq<Seq<char>>, l: Seq<char>)
    ensures
        lines.len() == 0 ==> flat_text(lines.push(l)) == l,
        lines.len() > 0 ==> flat_text(lines.push(l)) == flat_text(lines) + seq!['\n'] + l,
    decreases lines.len(),
{
    let p = lines.push(l);
    if lines.len() == 0 {
        assert(p.len() == 1);
        assert(p[0] == l);
    } else if lines.len() == 1 {
        assert(p.skip(1) =~= seq![l]);
        assert(flat_text(p.skip(1)) == l);
        assert(p[0] == lines[0]);
    } else {
        lemma_flat_text_push(lines.skip(1), l);
        assert(p.skip(1) =~= lines.skip(1).push(l));
        assert(flat_text(p) == lines[0] + seq!['\n'] + (flat_text(lines.skip(1)) + seq!['\n'] + l));
        assert(lines[0] + seq!['\n'] + (flat_text(lines.skip(1)) + seq!['\n'] + l)
            =~= (lines[0] + seq!['\n'] + flat_text(lines.skip(1))) + seq!['\n'] + l);
    }
}

/// Splitting a text into lines and joining the lines again reproduces the
/// text, for every text that does not end in a newline (a trailing newline
/// is the one thing the joined form does not keep).
pub proof fn lemma_flat_text_of_line_split(s: Seq<char>)
    requires
        s.len() == 0 || s[s.len() - 1] != '\n',
    ensures
        flat_text(line_split(s)) == s,
    decreases s.len(),
{
    lemma_first_newline_bounds(s);
    let i = first_newline(s);
    if s.len() == 0 {
    } else if i == s.len() {
        lemma_line_split_chunk(s, i);
        assert(line_split(s) == seq![s]);
    } else {
        lemma_line_split_chunk(s, i);
        let rest = s.skip(i + 1);
        assert(rest.len() > 0) by {
            if rest.len() == 0 {
                assert(s[s.len() - 1] == '\n');
            }
        }
        assert(rest[rest.len() - 1] == s[s.len() - 1]);
        lemma_flat_text_of_line_split(rest);
        let parts = seq![s.take(i)] + line_split(rest);
        assert(line_split(rest).len() > 0);
        assert(parts.len() >= 2);
        assert(parts.skip(1) =~= line_split(rest));
        assert(flat_text(parts) == s.take(i) + seq!['\n'] + flat_text(line_split(rest)));
        assert(s.take(i) + seq!['\n'] + rest =~= s);
    }
}

/// Cuts a text into its lines at every newline, the way the split of the
/// loaded file contents is specified: no newline is stored, and a trailing
/// newline does not open an extra empty line.
pub fn split_lines(content: &Vec<char>) -> (lines: Vec<Vec<char>>)
    ensures
        lines_view(lines@) == line_split(content@),
{
    let mut lines: Vec<Vec<char>> = Vec::new();
    let mut cur: Vec<char> = Vec::new();
    let mut start: usize = 0;
    let mut i: usize = 0;
    proof {
        assert(content@.skip(0) =~= content@);
        assert(lines_view(lines@) + line_split(content@) =~= line_split(content@));
        assert(cur@ =~= content@.subrange(0, 0));
    }
    while i < content.len()
        invariant
            start <= i <= content@.len(),
            cur@ == content@.subrange(start as int, i as int),
            forall|k: int| start <= k < i ==> content@[k] != '\n',
            line_split(content@) == lines_view(lines@) + line_split(content@.skip(start as int)),
        decreases content@.len() - i,
    {
        let c = content[i];
        if c == '\n' {
            proof {
                let tail = content@.skip(start as int);
                let j = i - start;
                assert forall|k: int| 0 <= k < j implies tail[k] != '\n' by {
                    assert(tail[k] == content@[start + k]);
                }
                assert(tail[j] == content@[i as int]);
                lemma_line_split_chunk(tail, j);
                assert(tail.take(j) =~= cur@);
                assert(tail.skip(j + 1) =~= content@.skip(i + 1));
                assert(lines_view(lines@.push(cur)) =~= lines_view(lines@) + seq![cur@]);
                assert((lines_view(lines@) + seq![cur@]) + line_split(content@.skip(i + 1))
                    =~= lines_view(lines@) + (seq![cur@] + line_split(content@.skip(i + 1))));
                assert(seq![cur@] + line_split(content@.skip(i + 1))
                    =~= seq![tail.take(j)] + line_split(tail.skip(j + 1)));
            }
            lines.push(cur);
            cur = Vec::new();
            start = i + 1;
            proof {
                assert(cur@ =~= content@.subrange(start as int, start as int));
            }
        } else {
            cur.push(c);
            proof {
                assert(cur@ =~= content@.subrange(start as int, i + 1));
            }
        }
        i = i + 1;
    }
    if start < content.len() {
        proof {
            let tail = content@.skip(start as int);
            assert forall|k: int| 0 <= k < tail.len() implies tail[k] != '\n' by {
                assert(tail[k] == content@[start + k]);
            }
            lemma_line_split_chunk(tail, tail.len() as int);
            assert(tail =~= cur@);
            assert(lines_view(lines@.push(cur)) =~= lines_view(lines@) + seq![cur@]);
        }
        lines.push(cur);
    } else {
        proof {
            assert(content@.skip(start as int) =~= Seq::<char>::empty());
            assert(line_split(content@.skip(start as int)) == Seq::<Seq<char>>::empty());
            assert(lines_view(lines@) + Seq::<Seq<char>>::empty() =~= lines_view(lines@));
        }
    }
    lines
}

/// Joins the lines of a buffer into one text with a single newline between
/// consecutive lines, the form in which the buffer is written back to disk.
pub fn join_lines(lines: &Vec<Vec<char>>) -> (text: Vec<char>)
    ensures
        text@ == flat_text(lines_view(lines@)),
{
    let mut text: Vec<char> = Vec::new();
    let mut i: usize = 0;
    proof {
        assert(lines_view(lines@).take(0) =~= Seq::<Seq<char>>::empty());
    }
    while i < lines.len()
        invariant
            i <= lines@.len(),
            text@ == flat_text(lines_view(lines@).take(i as int)),
        decreases lines@.len() - i,
    {
        if i > 0 {
            text.push('\n');
        }
        let ghost sep: Seq<char> = if i > 0 { seq!['\n'] } else { Seq::empty() };
        let ghost prefix = flat_text(lines_view(lines@).take(i as int)) + sep;
        proof {
            assert(text@ =~= prefix + Seq::<char>::empty());
        }
        let line = &lines[i];
        let mut k: usize = 0;
        proof {
            assert(line@.take(0) =~= Seq::<char>::empty());
        }
        while k < line.len()
            invariant
                k <= line@.len(),
                text@ == prefix + line@.take(k as int),
            decreases line@.len() - k,
        {
            text.push(line[k]);
            proof {
                assert(prefix + line@.take(k + 1) =~= (prefix + line@.take(k as int)).push(line@[k as int]));
            }
            k = k + 1;
        }
        proof {
            assert(line@.take(line@.len() as int) =~= line@);
            lemma_flat_text_push(lines_view(lines@).take(i as int), lines@[i as int]@);
            assert(lines_view(lines@).take(i as int).push(lines@[i as int]@)
                =~= lines_view(lines@).take(i + 1));
            if i > 0 {
                assert(text@ =~= flat_text(lines_view(lines@).take(i as int)) + seq!['\n'] + line@);
            } else {
                assert(text@ =~= line@);
            }
        }
        i = i + 1;
    }
    proof {
        assert(lines_view(lines@).take(lines@.len() as int) =~= lines_view(lines@));
    }
    text
}

} // verus!
