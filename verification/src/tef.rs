//! The TEF exporter: turns newline-delimited JSON records into one JSON
//! array document.  A line is kept when, after trimming, it is non-empty and
//! brace-delimited; blank lines are ignored and any other line is skipped
//! and counted, never a failure.  The transform is purely textual: the JSON
//! payload is never parsed structurally.

use vstd::prelude::*;

use crate::bytes::trimmed;

verus! {

/// The length of the first line of `s`: the index of the first line feed,
/// or the length of `s` when it holds none.
pub open spec fn line_end(s: Seq<u8>) -> nat
    decreases s.len(),
{
    if s.len() == 0 {
        0
    } else if s[0] == 10 {
        0
    } else {
        1 + line_end(s.drop_first())
    }
}

/// Any index with no line feed before it and a line feed (or the end) at it
/// is `line_end`.
pub proof fn lemma_line_end_is(s: Seq<u8>, i: int)
    requires
        0 <= i <= s.len(),
        forall|k: int| 0 <= k < i ==> s[k] != 10,
        i == s.len() || s[i] == 10,
    ensures
        line_end(s) == i,
    decreases i,
{
    if i > 0 {
        assert(s[0] != 10);
        lemma_line_end_is(s.drop_first(), i - 1);
    }
}

/// The lines of `s`: the segments between line feeds, in order, without the
/// line feeds themselves.  A final segment without a line feed still counts.
pub open spec fn split_lines(s: Seq<u8>) -> Seq<Seq<u8>>
    decreases s.len(),
{
    if s.len() == 0 {
        Seq::empty()
    } else {
        let i = line_end(s);
        if i >= s.len() {
            seq![s]
        } else {
            seq![s.take(i as int)] + split_lines(s.skip(i as int + 1))
        }
    }
}

/// A line that the exporter keeps: non-empty after trimming, opening with
/// `{` and closing with `}`.
pub open spec fn is_record(line: Seq<u8>) -> bool {
    let t = trimmed(line);
    t.len() > 0 && t[0] == 123 && t.last() == 125
}

/// A line that is whitespace only; ignored without being counted.
pub open spec fn is_blank(line: Seq<u8>) -> bool {
    trimmed(line).len() == 0
}

/// A line that is neither blank nor a record; skipped and counted.
pub open spec fn is_bad(line: Seq<u8>) -> bool {
    !is_blank(line) && !is_record(line)
}

/// The record payloads the exporter keeps out of `ls`: each record line,
/// trimmed, in order.
pub open spec fn records_of(ls: Seq<Seq<u8>>) -> Seq<Seq<u8>>
    decreases ls.len(),
{
    if ls.len() == 0 {
        Seq::empty()
    } else if is_record(ls.last()) {
        records_of(ls.drop_last()).push(trimmed(ls.last()))
    } else {
        records_of(ls.drop_last())
    }
}

/// How many lines of `ls` are skipped as malformed.
pub open spec fn bad_count(ls: Seq<Seq<u8>>) -> nat
    decreases ls.len(),
{
    if ls.len() == 0 {
        0
    } else {
        bad_count(ls.drop_last()) + if is_bad(ls.last()) {
            1nat
        } else {
            0nat
        }
    }
}

/// The records joined by `,` followed by a line feed.
pub open spec fn joined(recs: Seq<Seq<u8>>) -> Seq<u8>
    decreases recs.len(),
{
    if recs.len() == 0 {
        Seq::empty()
    } else if recs.len() == 1 {
        recs[0]
    } else {
        joined(recs.drop_last()) + seq![44u8, 10u8] + recs.last()
    }
}

/// The whole TEF document for source bytes `s`: `[`, the kept records
/// joined by `,` and a line feed, then `]` and a final line feed.
pub open spec fn tef_document(s: Seq<u8>) -> Seq<u8> {
    seq![91u8] + joined(records_of(split_lines(s))) + seq![93u8, 10u8]
}

/// How many lines of source bytes `s` the exporter skips as malformed.
pub open spec fn tef_bad_count(s: Seq<u8>) -> nat {
    bad_count(split_lines(s))
}

/// `bad_count` never exceeds the number of lines.
proof fn lemma_bad_count_le_len(ls: Seq<Seq<u8>>)
    ensures
        bad_count(ls) <= ls.len(),
    decreases ls.len(),
{
    if ls.len() != 0 {
        lemma_bad_count_le_len(ls.drop_last());
    }
}

/// Classify the line `s[from..to]`: `(blank, record)`, and hand back the
/// trimmed payload.
fn classify_line(line: &[u8]) -> (r: (bool, bool, Vec<u8>))
    ensures
        r.0 == is_blank(line@),
        r.1 == is_record(line@),
        r.2@ == trimmed(line@),
{
    let t = crate::bytes::trim_bytes(line);
    if t.len() == 0 {
        (true, false, t)
    } else {
        let record = t[0] == 123 && t[t.len() - 1] == 125;
        (false, record, t)
    }
}

/// Stream source bytes already bounded to a snapshot into a TEF document.
/// Returns the document and the count of malformed lines skipped, for the
/// caller's warning log.  An empty source yields exactly `[]` and a line
/// feed.
pub fn emit_tef(input: &[u8]) -> (r: (Vec<u8>, usize))
    ensures
        r.0@ == tef_document(input@),
        r.1 == tef_bad_count(input@),
        input@.len() == 0 ==> r.0@ == seq![91u8, 93u8, 10u8],
{
    let n: usize = input.len();
    let mut out: Vec<u8> = Vec::new();
    out.push(91);
    let mut bad: usize = 0;
    let mut first: bool = true;
    let mut pos: usize = 0;
    let ghost mut done: Seq<Seq<u8>> = Seq::empty();
    proof {
        assert(input@.skip(0) =~= input@);
        assert(out@ =~= seq![91u8] + joined(records_of(done)));
    }
    while pos < n
        invariant
            0 <= pos <= n == input@.len(),
            split_lines(input@) == done + split_lines(input@.skip(pos as int)),
            out@ == seq![91u8] + joined(records_of(done)),
            bad == bad_count(done),
            done.len() <= pos,
            first == (records_of(done).len() == 0),
        decreases n - pos,
    {
        let ghost rest = input@.skip(pos as int);
        let mut j: usize = pos;
        while j < n && input[j] != 10
            invariant
                pos <= j <= n == input@.len(),
                forall|k: int| pos <= k < j ==> input@[k] != 10,
            decreases n - j,
        {
            j = j + 1;
        }
        proof {
            assert forall|k: int| 0 <= k < j - pos implies rest[k] != 10 by {
                assert(rest[k] == input@[pos + k]);
            }
            if j < n {
                assert(rest[j - pos] == input@[j as int]);
            }
            lemma_line_end_is(rest, j - pos);
        }
        let line = vstd::slice::slice_subrange(input, pos, j);
        proof {
            if j == n {
                assert(line@ =~= rest);
                assert(split_lines(rest) =~= seq![line@]);
            } else {
                assert(line@ =~= rest.take(j - pos));
                assert(split_lines(rest) =~= seq![line@] + split_lines(rest.skip(j - pos + 1)));
                assert(rest.skip(j - pos + 1) =~= input@.skip(j + 1));
            }
        }
        let (blank, record, payload) = classify_line(line);
        if record {
            if first {
                first = false;
            } else {
                out.push(44);
                out.push(10);
            }
            out.extend_from_slice(payload.as_slice());
        } else if !blank {
            proof {
                lemma_bad_count_le_len(done);
            }
            bad = bad + 1;
        }
        proof {
            let prev = done;
            done = done.push(line@);
            assert(done.drop_last() =~= prev);
            assert(done.last() == line@);
            if is_record(line@) {
                let recs = records_of(prev);
                assert(records_of(done) == recs.push(trimmed(line@)));
                if recs.len() == 0 {
                    assert(joined(records_of(done)) == trimmed(line@));
                } else {
                    assert(records_of(done).drop_last() =~= recs);
                    assert(joined(records_of(done)) == joined(recs) + seq![44u8, 10u8] + trimmed(
                        line@,
                    ));
                }
            }
            assert(out@ =~= seq![91u8] + joined(records_of(done)));
        }
        if j < n {
            pos = j + 1;
        } else {
            pos = j;
        }
        proof {
            if pos == n {
                assert(input@.skip(n as int) =~= Seq::<u8>::empty());
            }
        }
    }
    proof {
        assert(input@.skip(n as int) =~= Seq::<u8>::empty());
        assert(split_lines(input@) =~= done);
    }
    out.push(93);
    out.push(10);
    proof {
        assert(out@ =~= tef_document(input@));
        if input@.len() == 0 {
            assert(out@ =~= seq![91u8, 93u8, 10u8]);
        }
        lemma_bad_count_le_len(done);
    }
    (out, bad)
}

/// Over a source whose lines are all well-formed records, the export keeps
/// every line: the array holds exactly one element per line, byte-identical
/// to that line up to the surrounding whitespace trim.
pub proof fn lemma_tef_keeps_records(ls: Seq<Seq<u8>>)
    requires
        forall|i: int| 0 <= i < ls.len() ==> is_record(#[trigger] ls[i]),
    ensures
        records_of(ls).len() == ls.len(),
        forall|i: int| 0 <= i < ls.len() ==> records_of(ls)[i] == trimmed(#[trigger] ls[i]),
    decreases ls.len(),
{
    if ls.len() != 0 {
        let dl = ls.drop_last();
        assert forall|i: int| 0 <= i < dl.len() implies is_record(#[trigger] dl[i]) by {
            assert(dl[i] == ls[i]);
        }
        lemma_tef_keeps_records(dl);
        assert(is_record(ls[ls.len() - 1]));
        assert(records_of(ls) == records_of(dl).push(trimmed(ls.last())));
        assert forall|i: int| 0 <= i < ls.len() implies records_of(ls)[i] == trimmed(
            #[trigger] ls[i],
        ) by {
            if i < ls.len() - 1 {
                assert(records_of(dl)[i] == trimmed(dl[i]));
                assert(dl[i] == ls[i]);
            }
        }
    }
}

/// The export omits exactly the lines that are not kept as records: its
/// records are the record lines alone, in order, trimmed.
pub proof fn lemma_tef_omits_bad(ls: Seq<Seq<u8>>)
    ensures
        records_of(ls) == ls.filter(|l: Seq<u8>| is_record(l)).map_values(
            |l: Seq<u8>| trimmed(l),
        ),
    decreases ls.len(),
{
    broadcast use vstd::seq_lib::group_filter_ensures;

    let pred = |l: Seq<u8>| is_record(l);
    let f = |l: Seq<u8>| trimmed(l);
    if ls.len() == 0 {
        reveal(Seq::filter);
        assert(ls.filter(pred) =~= Seq::<Seq<u8>>::empty());
        assert(ls.filter(pred).map_values(f) =~= Seq::<Seq<u8>>::empty());
    } else {
        let dl = ls.drop_last();
        lemma_tef_omits_bad(dl);
        assert(dl.push(ls.last()) =~= ls);
        Seq::lemma_filter_push(dl, ls.last(), pred);
        if pred(ls.last()) {
            Seq::lemma_push_map_commute(dl.filter(pred), f, ls.last());
            assert(records_of(ls) =~= ls.filter(pred).map_values(f));
        } else {
            assert(records_of(ls) =~= ls.filter(pred).map_values(f));
        }
    }
}

/// An export bounded at a snapshot length is a point-in-time view: bytes
/// appended after the snapshot never change its output.
pub proof fn lemma_export_bounded(content: Seq<u8>, later: Seq<u8>)
    ensures
        (content + later).take(content.len() as int) == content,
        tef_document((content + later).take(content.len() as int)) == tef_document(content),
{
    assert((content + later).take(content.len() as int) =~= content);
}

} // verus!
