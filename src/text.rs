//! The line format of a store snapshot: one `key:value` line per entry.
use vstd::prelude::*;
use vstd::string::StringExecFns;
use crate::database::pair_views;

verus! {

broadcast use vstd::string::axiom_spec_iter;

/// A line without the carriage return that ended it, if one did.
pub open spec fn strip_cr(line: Seq<char>) -> Seq<char> {
    if line.len() > 0 && line.last() == '\r' {
        line.drop_last()
    } else {
        line
    }
}

/// `i` is where the first `:` of `line` stands.
pub open spec fn is_first_colon(line: Seq<char>, i: int) -> bool {
    &&& 0 <= i < line.len()
    &&& line[i] == ':'
    &&& forall|j: int| 0 <= j < i ==> line[j] != ':'
}

/// The (key, value) pair of a line, split at its first `:`; none for a line
/// without one.
pub open spec fn line_record(line: Seq<char>) -> Option<(Seq<char>, Seq<char>)> {
    if exists|i: int| is_first_colon(line, i) {
        let i = choose|i: int| is_first_colon(line, i);
        Some((line.take(i), line.skip(i + 1)))
    } else {
        None
    }
}

/// The records read so far, followed by the record of `line` if it has one.
pub open spec fn add_record(
    recs: Seq<(Seq<char>, Seq<char>)>,
    line: Seq<char>,
) -> Seq<(Seq<char>, Seq<char>)> {
    match line_record(line) {
        Some(p) => recs.push(p),
        None => recs,
    }
}

/// Reading `s` from the left: the records of the finished lines, and the
/// line still open.
pub open spec fn scan_lines(s: Seq<char>) -> (Seq<(Seq<char>, Seq<char>)>, Seq<char>)
    decreases s.len(),
{
    if s.len() == 0 {
        (Seq::empty(), Seq::empty())
    } else {
        let prev = scan_lines(s.drop_last());
        if s.last() == '\n' {
            (add_record(prev.0, strip_cr(prev.1)), Seq::empty())
        } else {
            (prev.0, prev.1.push(s.last()))
        }
    }
}

/// The records of a snapshot text, in order of their lines. Lines end at
/// `\n` or `\r\n`; the last line needs no ending; lines without `:` are skipped.
pub open spec fn parse_spec(s: Seq<char>) -> Seq<(Seq<char>, Seq<char>)> {
    let st = scan_lines(s);
    add_record(st.0, st.1)
}

/// The snapshot text of a list of pairs: `key:value` and a newline for each.
pub open spec fn render_spec(s: Seq<(Seq<char>, Seq<char>)>) -> Seq<char>
    decreases s.len(),
{
    if s.len() == 0 {
        Seq::empty()
    } else {
        render_spec(s.drop_last()) + s.last().0 + ":"@ + s.last().1 + "\n"@
    }
}

/// Keys hold no `:` and no newline; values hold no newline and do not end
/// in a carriage return. These are the pairs that the line format carries.
pub open spec fn text_safe(s: Seq<(Seq<char>, Seq<char>)>) -> bool {
    forall|i: int|
        0 <= i < s.len() ==> {
            &&& !(#[trigger] s[i]).0.contains(':')
            &&& !s[i].0.contains('\n')
            &&& !s[i].1.contains('\n')
            &&& strip_cr(s[i].1) == s[i].1
        }
}

proof fn lemma_scan_append(x: Seq<char>, y: Seq<char>)
    requires
        !y.contains('\n'),
    ensures
        scan_lines(x + y) == (scan_lines(x).0, scan_lines(x).1 + y),
    decreases y.len(),
{
    if y.len() == 0 {
        assert(x + y =~= x);
        assert(scan_lines(x).1 + y =~= scan_lines(x).1);
    } else {
        let yi = y.drop_last();
        assert(!yi.contains('\n')) by {
            if yi.contains('\n') {
                let j = choose|j: int| 0 <= j < yi.len() && yi[j] == '\n';
                assert(y[j] == '\n');
            }
        }
        lemma_scan_append(x, yi);
        assert((x + y).drop_last() =~= x + yi);
        assert((x + y).last() == y.last());
        assert(y.last() != '\n') by {
            assert(y[y.len() - 1] == y.last());
        }
        assert((scan_lines(x).1 + yi).push(y.last()) =~= scan_lines(x).1 + y);
    }
}

proof fn lemma_scan_render(s: Seq<(Seq<char>, Seq<char>)>)
    requires
        text_safe(s),
    ensures
        scan_lines(render_spec(s)) == (s, Seq::<char>::empty()),
    decreases s.len(),
{
    reveal_strlit(":");
    reveal_strlit("\n");
    if s.len() > 0 {
        let init = s.drop_last();
        assert(text_safe(init)) by {
            assert forall|i: int| 0 <= i < init.len() implies init[i] == s[i] by {}
        }
        lemma_scan_render(init);
        let (k, v) = s.last();
        assert(s[s.len() - 1] == s.last());
        let r = render_spec(init);
        let line = k + ":"@ + v;
        assert(!line.contains('\n')) by {
            if line.contains('\n') {
                let j = choose|j: int| 0 <= j < line.len() && line[j] == '\n';
                if j < k.len() {
                    assert(k[j] == '\n');
                } else if j > k.len() {
                    assert(v[j - k.len() - 1] == '\n');
                }
            }
        }
        lemma_scan_append(r, line);
        let whole = render_spec(s);
        assert(whole =~= (r + line).push('\n'));
        assert(whole.drop_last() =~= r + line);
        assert(Seq::<char>::empty() + line =~= line);
        assert(strip_cr(line) =~= line) by {
            if v.len() > 0 {
                assert(line.last() == v.last());
            }
        }
        let i0 = k.len() as int;
        assert(is_first_colon(line, i0)) by {
            assert forall|j: int| 0 <= j < i0 implies line[j] != ':' by {
                assert(line[j] == k[j]);
            }
        }
        assert forall|i2: int| is_first_colon(line, i2) implies i2 == i0 by {
            if i2 < i0 {
                assert(line[i2] == k[i2]);
            } else if i2 > i0 {
                assert(line[i0] == ':');
            }
        }
        assert(line.take(i0) =~= k);
        assert(line.skip(i0 + 1) =~= v);
        assert(init.push((k, v)) =~= s);
    }
}

/// Rendering pairs that the format can carry and parsing the text back
/// gives the same pairs, in the same order.
pub proof fn law_render_then_parse(s: Seq<(Seq<char>, Seq<char>)>)
    requires
        text_safe(s),
    ensures
        parse_spec(render_spec(s)) == s,
{
    lemma_scan_render(s);
    assert forall|i2: int| !is_first_colon(Seq::<char>::empty(), i2) by {}
}

fn chars_of(s: &str) -> (r: Vec<char>)
    ensures
        r@ == s@,
{
    let mut out: Vec<char> = Vec::new();
    for c in it: s.chars()
        invariant
            out@ == it.seq().take(it.index() as int),
    {
        out.push(c);
    }
    assert(out@ =~= s@);
    out
}

/// Relies on `FromIterator<char>` for `String`: the string of the given
/// characters, in order.
#[verifier::external_body]
fn string_from_chars(cs: &Vec<char>, from: usize, to: usize) -> (r: String)
    requires
        from <= to <= cs@.len(),
    ensures
        r@ == cs@.subrange(from as int, to as int),
{
    cs[from..to].iter().collect()
}

fn push_line_record(recs: &mut Vec<(String, String)>, cs: &Vec<char>, start: usize, end: usize)
    requires
        start <= end <= cs@.len(),
    ensures
        pair_views(final(recs)@) == add_record(
            pair_views(old(recs)@),
            cs@.subrange(start as int, end as int),
        ),
{
    let ghost line = cs@.subrange(start as int, end as int);
    let mut j: usize = start;
    while j < end
        invariant
            start <= j <= end <= cs@.len(),
            line == cs@.subrange(start as int, end as int),
            recs@ == old(recs)@,
            forall|k: int| 0 <= k < j - start ==> line[k] != ':',
        decreases end - j,
    {
        if cs[j] == ':' {
            let key = string_from_chars(cs, start, j);
            let value = string_from_chars(cs, j + 1, end);
            let ghost before = recs@;
            recs.push((key, value));
            proof {
                let i0 = j - start;
                assert(is_first_colon(line, i0));
                assert forall|i2: int| is_first_colon(line, i2) implies i2 == i0 by {
                    if i2 < i0 {
                        assert(line[i2] != ':');
                    } else if i2 > i0 {
                        assert(line[i0] != ':');
                    }
                }
                let c = choose|i: int| is_first_colon(line, i);
                assert(c == i0);
                assert(line.take(i0) =~= key@);
                assert(line.skip(i0 + 1) =~= value@);
                assert(pair_views(recs@) =~= pair_views(before).push((key@, value@)));
            }
            return;
        }
        j = j + 1;
    }
    proof {
        assert forall|i2: int| !is_first_colon(line, i2) by {
            if 0 <= i2 < line.len() {
                assert(line[i2] != ':');
            }
        }
        assert(line_record(line) is None);
    }
}

/// Reads the records of a snapshot text, in order of their lines.
pub fn parse_snapshot(contents: &str) -> (r: Vec<(String, String)>)
    ensures
        pair_views(r@) == parse_spec(contents@),
{
    let cs = chars_of(contents);
    let mut recs: Vec<(String, String)> = Vec::new();
    let mut start: usize = 0;
    let mut i: usize = 0;
    assert(pair_views(recs@) =~= Seq::empty());
    assert(cs@.take(0) =~= Seq::empty());
    while i < cs.len()
        invariant
            start <= i <= cs@.len(),
            cs@ == contents@,
            scan_lines(cs@.take(i as int)) == (
                pair_views(recs@),
                cs@.subrange(start as int, i as int),
            ),
        decreases cs@.len() - i,
    {
        let ghost cur = cs@.subrange(start as int, i as int);
        assert(cs@.take(i + 1).drop_last() =~= cs@.take(i as int));
        if cs[i] == '\n' {
            let end = if i > start && cs[i - 1] == '\r' {
                i - 1
            } else {
                i
            };
            assert(strip_cr(cur) =~= cs@.subrange(start as int, end as int));
            push_line_record(&mut recs, &cs, start, end);
            start = i + 1;
            assert(cs@.subrange(start as int, i + 1) =~= Seq::<char>::empty());
        } else {
            assert(cur.push(cs@[i as int]) =~= cs@.subrange(start as int, i + 1));
        }
        i = i + 1;
    }
    assert(cs@.take(i as int) =~= cs@);
    push_line_record(&mut recs, &cs, start, i);
    recs
}

/// Writes a list of pairs as snapshot text: `key:value` and a newline for each.
pub fn render_snapshot(entries: &Vec<(String, String)>) -> (r: String)
    ensures
        r@ == render_spec(pair_views(entries@)),
{
    let mut out = String::new();
    let mut i: usize = 0;
    assert(pair_views(entries@).take(0) =~= Seq::empty());
    while i < entries.len()
        invariant
            i <= entries@.len(),
            out@ == render_spec(pair_views(entries@).take(i as int)),
        decreases entries@.len() - i,
    {
        out.append(entries[i].0.as_str());
        out.append(":");
        out.append(entries[i].1.as_str());
        out.append("\n");
        proof {
            let p = pair_views(entries@);
            assert(p.take(i + 1).drop_last() =~= p.take(i as int));
        }
        i = i + 1;
    }
    assert(pair_views(entries@).take(i as int) =~= pair_views(entries@));
    out
}

} // verus!
