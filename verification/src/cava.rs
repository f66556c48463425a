use vstd::prelude::*;
use crate::text::{chars_of, decimal, push_char, push_decimal, trim_bounds, trimmed};

verus! {

/// The pieces of `s` between occurrences of `sep`, as `str::split` gives
/// them: one more piece than there are separators, empty pieces kept.
pub open spec fn split_on(s: Seq<char>, sep: char) -> Seq<Seq<char>>
    decreases s.len(),
{
    if s.len() == 0 {
        seq![Seq::<char>::empty()]
    } else {
        let r = split_on(s.drop_last(), sep);
        if s.last() == sep {
            r.push(Seq::<char>::empty())
        } else {
            r.update(r.len() - 1, r.last().push(s.last()))
        }
    }
}

/// How many times `c` occurs in `s`.
pub open spec fn occurrences(s: Seq<char>, c: char) -> nat
    decreases s.len(),
{
    if s.len() == 0 {
        0
    } else {
        occurrences(s.drop_last(), c) + if s.last() == c {
            1nat
        } else {
            0nat
        }
    }
}

/// The fields of a visualiser frame: the text between `;` separators, each
/// trimmed of white space.
pub open spec fn frame_fields_of(frame: Seq<char>) -> Seq<Seq<char>> {
    split_on(frame, ';').map_values(|f: Seq<char>| trimmed(f))
}

/// The path of the visualiser's configuration file for process `pid`.
pub open spec fn config_path_of(pid: u32) -> Seq<char> {
    "/tmp/notch-cava-"@ + decimal(pid as nat) + ".conf"@
}

/// The string made of `s[from..to]`.
fn string_of(s: &Vec<char>, from: usize, to: usize) -> (t: String)
    requires
        from <= to <= s.len(),
    ensures
        t@ == s@.subrange(from as int, to as int),
{
    let mut t = String::new();
    let mut i = from;
    while i < to
        invariant
            from <= i <= to <= s.len(),
            t@ == s@.subrange(from as int, i as int),
        decreases to - i,
    {
        push_char(&mut t, s[i]);
        assert(s@.subrange(from as int, i + 1) =~= s@.subrange(from as int, i as int).push(s@[i as int]));
        i = i + 1;
    }
    t
}

/// The trimmed text of `s[from..to]`.
fn trimmed_string(s: &Vec<char>, from: usize, to: usize) -> (t: String)
    requires
        from <= to <= s.len(),
    ensures
        t@ == trimmed(s@.subrange(from as int, to as int)),
{
    let (a, b) = trim_bounds(s, from, to);
    string_of(s, a, b)
}

/// The trimmed fields of a visualiser frame, in order: the text between the
/// `;` separators, white space cut from both ends of each.
pub fn frame_fields(frame: &str) -> (fields: Vec<String>)
    ensures
        fields.len() == frame_fields_of(frame@).len(),
        forall|k: int| 0 <= k < fields.len() ==> #[trigger] fields[k]@ == frame_fields_of(frame@)[k],
{
    let cs = chars_of(frame);
    let mut fields: Vec<String> = Vec::new();
    let ghost mut done: Seq<Seq<char>> = Seq::empty();
    let mut start: usize = 0;
    let mut i: usize = 0;
    assert(cs@.take(0) =~= Seq::<char>::empty());
    assert(cs@.subrange(0, 0) =~= Seq::<char>::empty());
    while i < cs.len()
        invariant
            start <= i <= cs.len(),
            split_on(cs@.take(i as int), ';') == done.push(cs@.subrange(start as int, i as int)),
            fields.len() == done.len(),
            forall|k: int| 0 <= k < fields.len() ==> #[trigger] fields[k]@ == trimmed(done[k]),
        decreases cs.len() - i,
    {
        assert(cs@.take(i + 1).drop_last() =~= cs@.take(i as int));
        assert(cs@.take(i + 1).last() == cs@[i as int]);
        if cs[i] == ';' {
            let f = trimmed_string(&cs, start, i);
            fields.push(f);
            proof {
                done = done.push(cs@.subrange(start as int, i as int));
            }
            start = i + 1;
            assert(cs@.subrange(start as int, i + 1) =~= Seq::<char>::empty());
        } else {
            assert(cs@.subrange(start as int, i + 1) =~= cs@.subrange(start as int, i as int).push(
                cs@[i as int],
            ));
            assert(done.push(cs@.subrange(start as int, i as int)).update(
                done.len() as int,
                cs@.subrange(start as int, i + 1),
            ) =~= done.push(cs@.subrange(start as int, i + 1)));
        }
        i = i + 1;
    }
    let f = trimmed_string(&cs, start, cs.len());
    fields.push(f);
    proof {
        done = done.push(cs@.subrange(start as int, cs.len() as int));
        assert(cs@.take(cs.len() as int) =~= cs@);
        assert(frame@ == cs@);
    }
    fields
}

/// The path of the visualiser's configuration file for process `pid`.
pub fn config_path(pid: u32) -> (t: String)
    ensures
        t@ == config_path_of(pid),
{
    let mut t = String::from_str("/tmp/notch-cava-");
    push_decimal(&mut t, pid);
    t.append(".conf");
    t
}

/// A frame has one field more than it has `;` separators.
pub proof fn lemma_split_count(s: Seq<char>, sep: char)
    ensures
        split_on(s, sep).len() == occurrences(s, sep) + 1,
    decreases s.len(),
{
    if s.len() > 0 {
        lemma_split_count(s.drop_last(), sep);
    }
}

/// The number of fields of a frame is the number of `;` in it plus one.
pub proof fn lemma_field_count(frame: Seq<char>)
    ensures
        frame_fields_of(frame).len() == occurrences(frame, ';') + 1,
{
    lemma_split_count(frame, ';');
}

/// `pieces` joined together with `sep` between each two of them.
pub open spec fn join_with(pieces: Seq<Seq<char>>, sep: char) -> Seq<char>
    decreases pieces.len(),
{
    if pieces.len() == 0 {
        Seq::<char>::empty()
    } else if pieces.len() == 1 {
        pieces[0]
    } else {
        join_with(pieces.drop_last(), sep).push(sep) + pieces.last()
    }
}

/// Splitting undoes joining: the pieces of `s`, put back together with the
/// separator between them, give `s`, and no piece holds the separator, so
/// the pieces are exactly the runs of text between separators.
pub proof fn lemma_split_join(s: Seq<char>, sep: char)
    ensures
        join_with(split_on(s, sep), sep) == s,
        forall|k: int, j: int|
            0 <= k < split_on(s, sep).len() && 0 <= j < split_on(s, sep)[k].len()
                ==> #[trigger] split_on(s, sep)[k][j] != sep,
    decreases s.len(),
{
    if s.len() > 0 {
        let p = s.drop_last();
        let c = s.last();
        lemma_split_join(p, sep);
        lemma_split_count(p, sep);
        let r = split_on(p, sep);
        let n = r.len();
        let q = split_on(s, sep);
        if c == sep {
            assert(q == r.push(Seq::<char>::empty()));
            assert(q.drop_last() =~= r);
            assert(join_with(q, sep) =~= p.push(sep));
            assert(p.push(sep) =~= s);
            assert forall|k: int, j: int| 0 <= k < q.len() && 0 <= j < q[k].len() implies #[trigger] q[k][j] != sep by {
                if k < n {
                    assert(q[k] == r[k]);
                }
            }
        } else {
            let x = r.last().push(c);
            assert(q == r.update(n - 1, x));
            if n == 1 {
                assert(join_with(q, sep) == x);
                assert(join_with(r, sep) == r[0]);
                assert(x =~= s);
            } else {
                assert(q.drop_last() =~= r.drop_last());
                assert(join_with(q, sep) == join_with(r.drop_last(), sep).push(sep) + x);
                assert(join_with(r, sep) == join_with(r.drop_last(), sep).push(sep) + r.last());
                assert(join_with(r.drop_last(), sep).push(sep) + x =~= (join_with(
                    r.drop_last(),
                    sep,
                ).push(sep) + r.last()).push(c));
                assert(p.push(c) =~= s);
            }
            assert forall|k: int, j: int| 0 <= k < q.len() && 0 <= j < q[k].len() implies #[trigger] q[k][j] != sep by {
                if k < n - 1 {
                    assert(q[k] == r[k]);
                } else {
                    assert(q[k] == x);
                    if j < r.last().len() {
                        assert(x[j] == r[n - 1][j]);
                    }
                }
            }
        }
    }
}

/// Each field of a frame is the text of the matching piece between `;`
/// separators, trimmed of white space, and there is one field per piece.
pub proof fn lemma_fields_are_trimmed_pieces(frame: Seq<char>)
    ensures
        frame_fields_of(frame).len() == split_on(frame, ';').len(),
        forall|k: int|
            0 <= k < frame_fields_of(frame).len() ==> #[trigger] frame_fields_of(frame)[k]
                == trimmed(split_on(frame, ';')[k]),
        join_with(split_on(frame, ';'), ';') == frame,
{
    lemma_split_join(frame, ';');
}

} // verus!
