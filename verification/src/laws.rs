//! The laws the codec obeys, stated once and proved for every input.

use vstd::prelude::*;

use crate::task::TodoView;
use crate::task::complete_prefix;
use crate::task::decoded_tasks;
use crate::task::incomplete_prefix;
use crate::task::recognized_count;
use crate::task::spec_decode;
use crate::task::spec_encode;
use crate::task::spec_encode_file;
use crate::task::spec_file_tasks;

verus! {

/// Round trip: a record whose content holds no newline decodes from
/// its own encoded line unchanged.
pub proof fn lemma_encode_decode(t: TodoView)
    requires
        !t.content.contains('\n'),
    ensures
        spec_decode(spec_encode(t)) == Some(t),
{
    let line = spec_encode(t);
    if t.completed {
        assert(line.subrange(0, 6) =~= complete_prefix());
        assert(line.subrange(0, 6)[3] == 'x');
        assert(incomplete_prefix()[3] == ' ');
        assert(line.subrange(6, line.len() as int) =~= t.content);
    } else {
        assert(line.subrange(0, 6) =~= incomplete_prefix());
        assert(line.subrange(6, line.len() as int) =~= t.content);
    }
}

/// An encoded line holds no newline as long as the record's content
/// holds none.
pub proof fn lemma_encode_single_line(t: TodoView)
    requires
        !t.content.contains('\n'),
    ensures
        !spec_encode(t).contains('\n'),
{
    let line = spec_encode(t);
    if line.contains('\n') {
        let j = choose|j: int| 0 <= j < line.len() && line[j] == '\n';
        if j < 6 {
            assert(incomplete_prefix()[j] != '\n');
            assert(complete_prefix()[j] != '\n');
        } else {
            assert(t.content[j - 6] == '\n');
        }
    }
}

/// Decoding the encoded lines of a list, line by line, restores the
/// list, as long as no content holds a newline.
pub proof fn lemma_decoded_of_encoded(ts: Seq<TodoView>)
    requires
        forall|i: int| 0 <= i < ts.len() ==> !(#[trigger] ts[i]).content.contains('\n'),
    ensures
        decoded_tasks(ts.map_values(|t: TodoView| spec_encode(t))) == ts,
    decreases ts.len(),
{
    let m = ts.map_values(|t: TodoView| spec_encode(t));
    if ts.len() == 0 {
        assert(decoded_tasks(m) =~= ts);
    } else {
        lemma_encode_decode(ts[0]);
        assert forall|j: int| 0 <= j < ts.drop_first().len() implies !(
        #[trigger] ts.drop_first()[j]).content.contains('\n') by {
            assert(ts.drop_first()[j] == ts[j + 1]);
        }
        lemma_decoded_of_encoded(ts.drop_first());
        assert(ts.drop_first().map_values(|t: TodoView| spec_encode(t)) =~~= m.drop_first());
        assert(m[0] == spec_encode(ts[0]));
        assert(decoded_tasks(m) =~= ts);
    }
}

/// Round trip for a whole file: a saved list loads back record for
/// record, as long as no content holds a newline.
pub proof fn lemma_file_round_trip(ts: Seq<TodoView>)
    requires
        forall|i: int| 0 <= i < ts.len() ==> !(#[trigger] ts[i]).content.contains('\n'),
    ensures
        spec_file_tasks(spec_encode_file(ts)) == ts,
{
    let m = ts.map_values(|t: TodoView| spec_encode(t));
    if ts.len() == 0 {
        assert(spec_encode_file(ts) == Seq::<char>::empty());
        assert(spec_decode(Seq::<char>::empty()) is None);
        assert((seq![Seq::<char>::empty()]).drop_first() =~~= Seq::<Seq<char>>::empty());
        assert(decoded_tasks(Seq::<Seq<char>>::empty()) == Seq::<TodoView>::empty());
        assert(spec_file_tasks(spec_encode_file(ts)) =~= ts);
    } else {
        assert forall|i: int| 0 <= i < m.len() implies !(#[trigger] m[i]).contains('\n') by {
            lemma_encode_single_line(ts[i]);
        }
        crate::text::lemma_lines_of_join(m);
        lemma_decoded_of_encoded(ts);
    }
}

/// Filter purity, composition: the records of two line lists in
/// sequence are the records of the first, then those of the second,
/// each in their original order.
pub proof fn lemma_decoded_tasks_concat(a: Seq<Seq<char>>, b: Seq<Seq<char>>)
    ensures
        decoded_tasks(a + b) == decoded_tasks(a) + decoded_tasks(b),
    decreases a.len(),
{
    if a.len() == 0 {
        assert(a + b =~~= b);
        assert(decoded_tasks(a) + decoded_tasks(b) =~= decoded_tasks(b));
    } else {
        lemma_decoded_tasks_concat(a.drop_first(), b);
        assert((a + b).drop_first() =~~= a.drop_first() + b);
        assert((a + b)[0] == a[0]);
        assert(decoded_tasks(a + b) =~= decoded_tasks(a) + decoded_tasks(b));
    }
}

/// Filter purity, count: decoding yields exactly one record per
/// recognized line, and skipped lines are dropped without a trace.
pub proof fn lemma_decoded_tasks_count(lines: Seq<Seq<char>>)
    ensures
        decoded_tasks(lines).len() == recognized_count(lines),
        recognized_count(lines) <= lines.len(),
    decreases lines.len(),
{
    if lines.len() > 0 {
        lemma_decoded_tasks_count(lines.drop_first());
    }
}

/// Filter purity, in full: decoding a list of lines is exactly the
/// filter that keeps each recognized line's record, in original
/// order; no line yields more than one record.
pub proof fn lemma_decoded_tasks_filter_map(lines: Seq<Seq<char>>)
    ensures
        decoded_tasks(lines) == lines.filter_map(|l: Seq<char>| spec_decode(l)),
    decreases lines.len(),
{
    let f = |l: Seq<char>| spec_decode(l);
    if lines.len() == 0 {
    } else {
        let rest = lines.drop_last();
        lemma_decoded_tasks_filter_map(rest);
        lemma_decoded_tasks_concat(rest, seq![lines.last()]);
        assert(rest + seq![lines.last()] =~~= lines);
        assert((seq![lines.last()]).drop_first() =~~= Seq::<Seq<char>>::empty());
        assert(decoded_tasks(Seq::<Seq<char>>::empty()) == Seq::<TodoView>::empty());
        assert(decoded_tasks((seq![lines.last()]).drop_first()) == Seq::<TodoView>::empty());
        match spec_decode(lines.last()) {
            Some(t) => {
                assert(decoded_tasks(seq![lines.last()]) =~= seq![t]);
            },
            None => {
                assert(decoded_tasks(seq![lines.last()]) =~= Seq::<TodoView>::empty());
                assert(decoded_tasks(lines) =~= decoded_tasks(rest));
            },
        }
        assert(decoded_tasks(lines) =~= lines.filter_map(f));
    }
}

} // verus!
