//! Batch ingestion of newline-delimited event records.
use vstd::prelude::*;
use crate::engine::ingest_one;

verus! {

/// A line without the `\r` of a `\r\n` ending.
pub open spec fn strip_cr(l: Seq<char>) -> Seq<char> {
    if l.len() > 0 && l.last() == '\r' {
        l.drop_last()
    } else {
        l
    }
}

/// The lines of `rest`, the current line having begun with `cur`.
pub open spec fn lines_from(rest: Seq<char>, cur: Seq<char>) -> Seq<Seq<char>>
    decreases rest.len(),
{
    if rest.len() == 0 {
        if cur.len() == 0 {
            Seq::empty()
        } else {
            seq![cur]
        }
    } else if rest[0] == '\n' {
        seq![strip_cr(cur)] + lines_from(rest.drop_first(), Seq::empty())
    } else {
        lines_from(rest.drop_first(), cur.push(rest[0]))
    }
}

/// The lines of `s` as std's `str::lines` gives them: split at each `\n`,
/// a `\r` just before it dropped, and no empty line after a final `\n`.
pub open spec fn lines_of(s: Seq<char>) -> Seq<Seq<char>> {
    lines_from(s, Seq::empty())
}

/// Whether `c` has the Unicode `White_Space` property.
pub open spec fn is_ws(c: char) -> bool {
    let v = c as u32;
    (0x09 <= v <= 0x0d) || v == 0x20 || v == 0x85 || v == 0xa0 || v == 0x1680 || (0x2000 <= v
        <= 0x200a) || v == 0x2028 || v == 0x2029 || v == 0x202f || v == 0x205f || v == 0x3000
}

pub open spec fn trim_start(s: Seq<char>) -> Seq<char>
    decreases s.len(),
{
    if s.len() > 0 && is_ws(s[0]) {
        trim_start(s.drop_first())
    } else {
        s
    }
}

pub open spec fn trim_end(s: Seq<char>) -> Seq<char>
    decreases s.len(),
{
    if s.len() > 0 && is_ws(s.last()) {
        trim_end(s.drop_last())
    } else {
        s
    }
}

/// `s` without its leading and trailing whitespace, as std's `str::trim`
/// leaves it.
pub open spec fn trim_of(s: Seq<char>) -> Seq<char> {
    trim_end(trim_start(s))
}

/// Relies on str::lines: lines end at `\n` or `\r\n`, the endings are not
/// part of the lines, and the final line ending is optional.
#[verifier::external_body]
fn split_lines(s: &str) -> (r: Vec<String>)
    ensures
        r@.map_values(|l: String| l@) == lines_of(s@),
{
    s.lines().map(|l| l.to_string()).collect()
}

/// Relies on str::trim: `s` without the leading and trailing characters that
/// have the Unicode `White_Space` property.
#[verifier::external_body]
fn trimmed(s: &str) -> (r: String)
    ensures
        r@ == trim_of(s@),
{
    s.trim().to_string()
}

/// Whether a line holds more than whitespace.
pub open spec fn is_record_line(l: Seq<char>) -> bool {
    trim_of(l).len() > 0
}

/// The lines that hold more than whitespace, in order.
pub open spec fn record_lines(ls: Seq<Seq<char>>) -> Seq<Seq<char>>
    decreases ls.len(),
{
    if ls.len() == 0 {
        Seq::empty()
    } else if is_record_line(ls.last()) {
        record_lines(ls.drop_last()).push(ls.last())
    } else {
        record_lines(ls.drop_last())
    }
}

/// The lines of `text` that hold a record: every line but the blank ones.
pub fn record_lines_of(text: &str) -> (r: Vec<String>)
    ensures
        r@.map_values(|l: String| l@) == record_lines(lines_of(text@)),
{
    let lines = split_lines(text);
    let ghost ls = lines@.map_values(|l: String| l@);
    let mut out: Vec<String> = Vec::new();
    let mut i: usize = 0;
    while i < lines.len()
        invariant
            i <= lines@.len(),
            ls == lines@.map_values(|l: String| l@),
            out@.map_values(|l: String| l@) == record_lines(ls.subrange(0, i as int)),
        decreases lines@.len() - i,
    {
        let line: &String = &lines[i];
        let t = trimmed(line.as_str());
        proof {
            assert(ls.subrange(0, i + 1).drop_last() =~= ls.subrange(0, i as int));
            assert(ls.subrange(0, i + 1).last() == line@);
        }
        if !t.as_str().is_empty() {
            let ghost before = out@;
            out.push(line.clone());
            proof {
                assert(out@.map_values(|l: String| l@) =~= before.map_values(|l: String| l@).push(
                    line@,
                ));
            }
        }
        i = i + 1;
    }
    assert(ls.subrange(0, lines@.len() as int) =~= ls);
    out
}

/// How many of the outcomes are acceptances.
pub open spec fn accepted_count(outcomes: Seq<bool>) -> nat
    decreases outcomes.len(),
{
    if outcomes.len() == 0 {
        0
    } else {
        accepted_count(outcomes.drop_last()) + if outcomes.last() {
            1nat
        } else {
            0nat
        }
    }
}

proof fn lemma_accepted_count_bound(outcomes: Seq<bool>)
    ensures
        accepted_count(outcomes) <= outcomes.len(),
    decreases outcomes.len(),
{
    if outcomes.len() > 0 {
        lemma_accepted_count_bound(outcomes.drop_last());
    }
}

/// The number of lines the engine accepted, given its outcome for each.
pub fn count_accepted(outcomes: &Vec<bool>) -> (r: usize)
    ensures
        r == accepted_count(outcomes@),
{
    let mut count: usize = 0;
    let mut i: usize = 0;
    while i < outcomes.len()
        invariant
            i <= outcomes@.len(),
            count == accepted_count(outcomes@.subrange(0, i as int)),
            count <= i,
        decreases outcomes@.len() - i,
    {
        assert(outcomes@.subrange(0, i + 1).drop_last() =~= outcomes@.subrange(0, i as int));
        if outcomes[i] {
            count = count + 1;
        }
        i = i + 1;
    }
    assert(outcomes@.subrange(0, outcomes@.len() as int) =~= outcomes@);
    count
}

/// Ingests each record line of `text` on its own, in order; a line that
/// fails is skipped and does not stop the batch. Returns how many lines the
/// engine accepted: with `outcomes` the engine's answer for each record line,
/// the result is `accepted_count(outcomes)`.
pub fn ingest_batch(ndb: &nostrdb::Ndb, text: &str) -> (r: usize)
    ensures
        exists|outcomes: Seq<bool>|
            outcomes.len() == record_lines(lines_of(text@)).len() && r == accepted_count(outcomes),
        r <= record_lines(lines_of(text@)).len(),
{
    let lines = record_lines_of(text);
    proof {
        assert(lines@.map_values(|l: String| l@).len() == lines@.len());
    }
    let mut outcomes: Vec<bool> = Vec::new();
    let mut i: usize = 0;
    while i < lines.len()
        invariant
            i <= lines@.len(),
            outcomes@.len() == i,
        decreases lines@.len() - i,
    {
        outcomes.push(ingest_one(ndb, lines[i].as_str()).is_ok());
        i = i + 1;
    }
    let r = count_accepted(&outcomes);
    proof {
        lemma_accepted_count_bound(outcomes@);
    }
    r
}

/// Whether `s` has a character that is not whitespace.
pub open spec fn has_content(s: Seq<char>) -> bool {
    exists|i: int| 0 <= i < s.len() && !is_ws(#[trigger] s[i])
}

proof fn lemma_trim_start_content(s: Seq<char>)
    requires
        has_content(s),
    ensures
        has_content(trim_start(s)),
    decreases s.len(),
{
    if s.len() > 0 && is_ws(s[0]) {
        let i = choose|i: int| 0 <= i < s.len() && !is_ws(#[trigger] s[i]);
        assert(s.drop_first()[i - 1] == s[i]);
        lemma_trim_start_content(s.drop_first());
    }
}

proof fn lemma_trim_end_content(s: Seq<char>)
    requires
        has_content(s),
    ensures
        has_content(trim_end(s)),
    decreases s.len(),
{
    if s.len() > 0 && is_ws(s.last()) {
        let i = choose|i: int| 0 <= i < s.len() && !is_ws(#[trigger] s[i]);
        assert(s.drop_last()[i] == s[i]);
        lemma_trim_end_content(s.drop_last());
    }
}

proof fn lemma_record_line(s: Seq<char>)
    requires
        has_content(s),
    ensures
        is_record_line(s),
{
    lemma_trim_start_content(s);
    lemma_trim_end_content(trim_start(s));
}

/// Characters without a line feed join the current line.
proof fn lemma_no_newline(s: Seq<char>, rest: Seq<char>, cur: Seq<char>)
    requires
        !s.contains('\n'),
    ensures
        lines_from(s + rest, cur) == lines_from(rest, cur + s),
    decreases s.len(),
{
    if s.len() == 0 {
        assert(s + rest =~= rest);
        assert(cur + s =~= cur);
    } else {
        assert((s + rest)[0] == s[0]);
        assert(!s.drop_first().contains('\n')) by {
            if s.drop_first().contains('\n') {
                let j = choose|j: int| 0 <= j < s.drop_first().len() && s.drop_first()[j] == '\n';
                assert(s[j + 1] == '\n');
            }
        }
        assert((s + rest).drop_first() =~= s.drop_first() + rest);
        lemma_no_newline(s.drop_first(), rest, cur.push(s[0]));
        assert(cur.push(s[0]) + s.drop_first() =~= cur + s);
    }
}

/// A record line, an empty line, a rejected record line and one more record
/// line: the batch hands the engine the three records in order (without the
/// `\r` of a `\r\n` ending), and counts the two it accepted.
pub proof fn lemma_batch_counts_accepted(v1: Seq<char>, bad: Seq<char>, v2: Seq<char>)
    requires
        !v1.contains('\n'),
        !bad.contains('\n'),
        !v2.contains('\n'),
        has_content(strip_cr(v1)),
        has_content(strip_cr(bad)),
        has_content(v2),
    ensures
        record_lines(lines_of(v1 + seq!['\n', '\n'] + bad + seq!['\n'] + v2)) == seq![
            strip_cr(v1),
            strip_cr(bad),
            v2,
        ],
        accepted_count(seq![true, false, true]) == 2,
{
    let e = Seq::<char>::empty();
    let w1 = strip_cr(v1);
    let w2 = strip_cr(bad);
    let t3 = bad + seq!['\n'] + v2;
    let t2 = seq!['\n'] + t3;
    let t1 = seq!['\n'] + t2;
    assert(v1 + seq!['\n', '\n'] + bad + seq!['\n'] + v2 =~= v1 + t1);
    lemma_no_newline(v1, t1, e);
    assert(e + v1 =~= v1);
    assert(t1.drop_first() =~= t2);
    assert(lines_from(t1, v1) == seq![w1] + lines_from(t2, e));
    assert(t2.drop_first() =~= t3);
    assert(strip_cr(e) =~= e);
    assert(lines_from(t2, e) == seq![e] + lines_from(t3, e));
    let t4 = seq!['\n'] + v2;
    assert(t3 =~= bad + t4);
    lemma_no_newline(bad, t4, e);
    assert(e + bad =~= bad);
    assert(t4.drop_first() =~= v2);
    assert(lines_from(t4, bad) == seq![w2] + lines_from(v2, e));
    assert(v2 =~= v2 + e);
    lemma_no_newline(v2, e, e);
    assert(e + v2 =~= v2);
    assert(v2.len() > 0);
    assert(lines_from(e, v2) == seq![v2]);
    let ls = seq![w1] + (seq![e] + (seq![w2] + seq![v2]));
    assert(lines_of(v1 + seq!['\n', '\n'] + bad + seq!['\n'] + v2) == ls);
    lemma_record_line(w1);
    lemma_record_line(w2);
    lemma_record_line(v2);
    assert(!is_record_line(e));
    assert(ls =~= seq![w1, e, w2, v2]);
    let l3 = seq![w1, e, w2];
    let l2 = seq![w1, e];
    let l1 = seq![w1];
    assert(seq![w1, e, w2, v2].drop_last() =~= l3);
    assert(l3.drop_last() =~= l2);
    assert(l2.drop_last() =~= l1);
    assert(l1.drop_last() =~= Seq::<Seq<char>>::empty());
    assert(l1.last() == w1);
    assert(record_lines(Seq::<Seq<char>>::empty()) =~= Seq::<Seq<char>>::empty());
    assert(record_lines(l1) =~= seq![w1]);
    assert(record_lines(l2) == seq![w1]);
    assert(record_lines(l3) =~= seq![w1, w2]);
    assert(record_lines(seq![w1, e, w2, v2]) =~= seq![w1, w2, v2]);
    let o = seq![true, false, true];
    assert(o.drop_last() =~= seq![true, false]);
    assert(seq![true, false].drop_last() =~= seq![true]);
    assert(seq![true].drop_last() =~= Seq::<bool>::empty());
    assert(accepted_count(Seq::<bool>::empty()) == 0);
    assert(seq![true].last());
    assert(accepted_count(seq![true]) == 1);
    assert(accepted_count(seq![true, false]) == 1);
    assert(accepted_count(o) == 2);
}

} // verus!
