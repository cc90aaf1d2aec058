//! The log parser: a pure, deterministic transformation from the text that
//! the tool's log subcommand emits to an ordered sequence of change records.
//!
//! The text is split on the literal separator line `---\n` into candidate
//! blocks.  A block is trimmed and split into lines; its first five lines are
//! the record's fields, each trimmed.  Blocks that are blank, have fewer than
//! five lines, or lack an identifier are dropped without aborting the parse.
//! A blank description or author is replaced by its placeholder.  If nothing
//! survives although the input was not blank, the whole parse fails with
//! `NoValidChanges`.

use vstd::prelude::*;
use vstd::string::StringExecFns;
use crate::errors::JJError;
use crate::record::{ChangeData, JJChange, record_views};
use crate::sys::{chars_of, string_from_chars};
use crate::text::{
    has_pattern, is_space, lemma_split_no_pattern, lemma_trim_empty_all_space, matches_at,
    split_on, split_pattern, trim, trim_chars, views_of,
};

verus! {

/// The record separator the log template emits: a line holding `---`.
pub open spec fn separator() -> Seq<char> {
    seq!['-', '-', '-', '\n']
}

/// The line separator within a block.
pub open spec fn newline() -> Seq<char> {
    seq!['\n']
}

/// Placeholder for a change without a description.
pub open spec fn no_description() -> Seq<char> {
    "(no description)"@
}

/// Placeholder for a change without an author.
pub open spec fn unknown_author() -> Seq<char> {
    "(unknown)"@
}

/// `f` itself when non-empty, the placeholder otherwise.
pub open spec fn field_or(f: Seq<char>, placeholder: Seq<char>) -> Seq<char> {
    if f.len() == 0 {
        placeholder
    } else {
        f
    }
}

/// The record a candidate block yields, or `None` when the block is dropped:
/// blank blocks, blocks of fewer than five lines, and blocks whose change or
/// commit identifier trims to nothing.
pub open spec fn block_record(b: Seq<char>) -> Option<ChangeData> {
    let t = trim(b);
    if t.len() == 0 {
        None
    } else {
        let ls = split_on(t, newline());
        if ls.len() >= 5 {
            let cid = trim(ls[0]);
            let coid = trim(ls[1]);
            if cid.len() == 0 || coid.len() == 0 {
                None
            } else {
                Some(
                    ChangeData {
                        change_id: cid,
                        commit_id: coid,
                        description: field_or(trim(ls[2]), no_description()),
                        author: field_or(trim(ls[3]), unknown_author()),
                        timestamp: trim(ls[4]),
                    },
                )
            }
        } else {
            None
        }
    }
}

/// What one candidate block adds to the result: one record, or nothing.
pub open spec fn record_opt(b: Seq<char>) -> Seq<ChangeData> {
    match block_record(b) {
        Some(r) => seq![r],
        None => Seq::<ChangeData>::empty(),
    }
}

/// The records that a sequence of candidate blocks yields, in block order.
pub open spec fn records_of(blocks: Seq<Seq<char>>) -> Seq<ChangeData>
    decreases blocks.len(),
{
    if blocks.len() == 0 {
        Seq::<ChangeData>::empty()
    } else {
        record_opt(blocks[0]) + records_of(blocks.skip(1))
    }
}

/// The full parse of a log text: what `parse_jj_log` returns on success.
pub open spec fn parse_records(s: Seq<char>) -> Seq<ChangeData> {
    records_of(split_on(s, separator()))
}

/// Whether the parse succeeds: some record survived, or the input was blank
/// (a repository with no changes in range is not an error).
pub open spec fn parse_accepts(s: Seq<char>) -> bool {
    parse_records(s).len() > 0 || trim(s).len() == 0
}

proof fn lemma_records_of_push(blocks: Seq<Seq<char>>, b: Seq<char>)
    ensures
        records_of(blocks.push(b)) == records_of(blocks) + record_opt(b),
    decreases blocks.len(),
{
    let piece = record_opt(b);
    if blocks.len() == 0 {
        assert(blocks.push(b)[0] == b);
        assert(blocks.push(b).skip(1) =~~= Seq::<Seq<char>>::empty());
        assert(records_of(Seq::<Seq<char>>::empty()) == Seq::<ChangeData>::empty());
        assert(records_of(blocks.push(b)) == piece + Seq::<ChangeData>::empty());
        assert(piece + Seq::<ChangeData>::empty() =~= piece);
        assert(records_of(blocks) + piece =~= piece);
    } else {
        assert(blocks.push(b)[0] == blocks[0]);
        assert(blocks.push(b).skip(1) =~~= blocks.skip(1).push(b));
        lemma_records_of_push(blocks.skip(1), b);
        let head = record_opt(blocks[0]);
        assert(head + (records_of(blocks.skip(1)) + piece) =~= (head + records_of(
            blocks.skip(1),
        )) + piece);
    }
}

proof fn lemma_records_of_take_step(blocks: Seq<Seq<char>>, i: int)
    requires
        0 <= i < blocks.len(),
    ensures
        records_of(blocks.take(i + 1)) == records_of(blocks.take(i)) + record_opt(blocks[i]),
{
    lemma_records_of_push(blocks.take(i), blocks[i]);
    assert(blocks.take(i + 1) =~~= blocks.take(i).push(blocks[i]));
}

/// Parse the captured output of the log subcommand.
///
/// The result is fully determined by the text: on success the records are
/// exactly `parse_records` of the input, and the parse fails, with
/// `NoValidChanges` alone, exactly when the input was non-blank yet no block
/// yielded a record.
pub fn parse_jj_log(log_output: &str) -> (r: Result<Vec<JJChange>, JJError>)
    ensures
        parse_accepts(log_output@) ==> (r matches Ok(v) && record_views(v@) == parse_records(
            log_output@,
        )),
        !parse_accepts(log_output@) ==> r == Err::<Vec<JJChange>, JJError>(JJError::NoValidChanges),
        trim(log_output@).len() == 0 ==> (r matches Ok(v) && v@.len() == 0),
{
    let chars = chars_of(log_output);
    let sep: Vec<char> = vec!['-', '-', '-', '\n'];
    proof {
        assert(sep@ =~= separator());
    }
    let blocks = split_pattern(&chars, &sep);
    let trimmed_all = trim_chars(&chars);
    let mut changes: Vec<JJChange> = Vec::new();
    let nb = blocks.len();
    let mut bi: usize = 0;
    proof {
        assert(views_of(blocks@).take(0) =~~= Seq::<Seq<char>>::empty());
        assert(record_views(changes@) =~= Seq::<ChangeData>::empty());
    }
    while bi < nb
        invariant
            nb == blocks@.len(),
            bi <= nb,
            chars@ == log_output@,
            views_of(blocks@) == split_on(chars@, separator()),
            record_views(changes@) == records_of(views_of(blocks@).take(bi as int)),
        decreases nb - bi,
    {
        let ghost bs = views_of(blocks@);
        let ghost bv = bs[bi as int];
        let t = trim_chars(&blocks[bi]);
        if t.len() == 0 {
            proof {
                assert(block_record(bv) is None);
                lemma_records_of_take_step(bs, bi as int);
                assert(records_of(bs.take(bi as int)) + Seq::<ChangeData>::empty() =~= records_of(
                    bs.take(bi as int),
                ));
            }
        } else {
            let nl: Vec<char> = vec!['\n'];
            proof {
                assert(nl@ =~= newline());
            }
            let lines = split_pattern(&t, &nl);
            let ghost ls = split_on(trim(bv), newline());
            proof {
                assert(views_of(lines@) == ls);
            }
            if lines.len() < 5 {
                proof {
                    assert(block_record(bv) is None);
                    lemma_records_of_take_step(bs, bi as int);
                    assert(records_of(bs.take(bi as int)) + Seq::<ChangeData>::empty()
                        =~= records_of(bs.take(bi as int)));
                }
            } else {
                let f0 = trim_chars(&lines[0]);
                let f1 = trim_chars(&lines[1]);
                if f0.len() == 0 || f1.len() == 0 {
                    proof {
                        assert(block_record(bv) is None);
                        lemma_records_of_take_step(bs, bi as int);
                        assert(records_of(bs.take(bi as int)) + Seq::<ChangeData>::empty()
                            =~= records_of(bs.take(bi as int)));
                    }
                } else {
                    let f2 = trim_chars(&lines[2]);
                    let f3 = trim_chars(&lines[3]);
                    let f4 = trim_chars(&lines[4]);
                    let description = if f2.len() == 0 {
                        String::from_str("(no description)")
                    } else {
                        string_from_chars(&f2)
                    };
                    let author = if f3.len() == 0 {
                        String::from_str("(unknown)")
                    } else {
                        string_from_chars(&f3)
                    };
                    let rec = JJChange {
                        change_id: string_from_chars(&f0),
                        commit_id: string_from_chars(&f1),
                        description,
                        author,
                        timestamp: string_from_chars(&f4),
                    };
                    proof {
                        assert(block_record(bv) == Some(rec@));
                        lemma_records_of_take_step(bs, bi as int);
                        assert(record_views(changes@.push(rec)) =~= record_views(changes@).push(
                            rec@,
                        ));
                        assert(records_of(bs.take(bi as int)) + seq![rec@] =~= records_of(
                            bs.take(bi as int),
                        ).push(rec@));
                    }
                    changes.push(rec);
                }
            }
        }
        bi += 1;
    }
    proof {
        assert(views_of(blocks@).take(nb as int) =~~= views_of(blocks@));
    }
    if changes.len() == 0 && trimmed_all.len() > 0 {
        return Err(JJError::NoValidChanges);
    }
    proof {
        if trim(log_output@).len() == 0 {
            lemma_blank_input_no_records(log_output@);
        }
    }
    Ok(changes)
}

/// Concatenation of blocks, each terminated by the separator line: the shape
/// of well-formed log output.
pub open spec fn join_blocks(blocks: Seq<Seq<char>>) -> Seq<char>
    decreases blocks.len(),
{
    if blocks.len() == 0 {
        Seq::<char>::empty()
    } else {
        blocks[0] + separator() + join_blocks(blocks.skip(1))
    }
}

/// A well-formed candidate block: it yields a record and does not itself
/// contain the separator.
pub open spec fn wf_block(b: Seq<char>) -> bool {
    block_record(b) is Some && !has_pattern(b, separator())
}

/// No character of the separator other than its last equals its last; this is
/// what rules out a separator occurrence straddling a block boundary.
proof fn lemma_separator_shape()
    ensures
        separator().len() == 4,
        separator()[3] == '\n',
        forall|j: int| 0 <= j < 3 ==> separator()[j] == '-',
{
    assert(separator()[0] == '-');
    assert(separator()[1] == '-');
    assert(separator()[2] == '-');
}

/// Splitting separator-terminated text peels off its first block.
proof fn lemma_split_concat(b: Seq<char>, t: Seq<char>)
    requires
        !has_pattern(b, separator()),
    ensures
        split_on(b + separator() + t, separator()) == seq![b] + split_on(t, separator()),
    decreases b.len(),
{
    let pat = separator();
    let s = b + pat + t;
    lemma_separator_shape();
    if b.len() == 0 {
        assert(s.subrange(0, 4) =~= pat);
        assert(s.skip(4) =~= t);
        assert(seq![Seq::<char>::empty()] + split_on(t, pat) =~~= seq![b] + split_on(t, pat));
    } else {
        assert(s.len() >= 4);
        assert(s.subrange(0, 4) != pat) by {
            if s.subrange(0, 4) == pat {
                assert(s.subrange(0, 4)[3] == s[3]);
                if b.len() >= 4 {
                    assert(b.subrange(0, 4) =~= s.subrange(0, 4));
                    assert(matches_at(b, pat, 0));
                } else {
                    assert(s[3] == pat[3 - b.len()]);
                    assert(pat[3 - b.len()] == '-');
                    assert(s[3] == pat[3]);
                }
            }
        }
        assert(!matches_at(s, pat, 0));
        assert(s.skip(1) =~= b.skip(1) + pat + t);
        assert(!has_pattern(b.skip(1), pat)) by {
            if has_pattern(b.skip(1), pat) {
                let k = choose|k: int| matches_at(b.skip(1), pat, k);
                assert(b.subrange(k + 1, k + 1 + 4) =~= b.skip(1).subrange(k, k + 4));
                assert(matches_at(b, pat, k + 1));
            }
        }
        lemma_split_concat(b.skip(1), t);
        let rest = split_on(s.skip(1), pat);
        assert(rest == seq![b.skip(1)] + split_on(t, pat));
        assert(rest[0] == b.skip(1));
        assert(rest.skip(1) =~~= split_on(t, pat));
        assert(seq![s[0]] + rest[0] =~= b);
        assert(seq![seq![s[0]] + rest[0]] + rest.skip(1) =~~= seq![b] + split_on(t, pat));
    }
}

/// Splitting a separator-terminated concatenation of separator-free blocks
/// recovers exactly those blocks, plus the empty tail segment.
proof fn lemma_split_join(blocks: Seq<Seq<char>>)
    requires
        forall|i: int| 0 <= i < blocks.len() ==> !has_pattern(#[trigger] blocks[i], separator()),
    ensures
        split_on(join_blocks(blocks), separator()) == blocks + seq![Seq::<char>::empty()],
    decreases blocks.len(),
{
    if blocks.len() == 0 {
        assert(join_blocks(blocks).len() == 0);
        assert(blocks + seq![Seq::<char>::empty()] =~~= seq![Seq::<char>::empty()]);
        assert(split_on(Seq::<char>::empty(), separator()) == seq![Seq::<char>::empty()]);
    } else {
        assert(forall|i: int|
            0 <= i < blocks.skip(1).len() ==> !has_pattern(
                #[trigger] blocks.skip(1)[i],
                separator(),
            ));
        lemma_split_join(blocks.skip(1));
        lemma_split_concat(blocks[0], join_blocks(blocks.skip(1)));
        assert(seq![blocks[0]] + (blocks.skip(1) + seq![Seq::<char>::empty()]) =~~= blocks + seq![
            Seq::<char>::empty(),
        ]);
    }
}

proof fn lemma_records_of_all_some(blocks: Seq<Seq<char>>)
    requires
        forall|i: int| 0 <= i < blocks.len() ==> (#[trigger] block_record(blocks[i])) is Some,
    ensures
        records_of(blocks).len() == blocks.len(),
        forall|i: int|
            0 <= i < blocks.len() ==> block_record(blocks[i]) == Some(
                #[trigger] records_of(blocks)[i],
            ),
    decreases blocks.len(),
{
    if blocks.len() == 0 {
    } else {
        assert(forall|i: int|
            0 <= i < blocks.skip(1).len() ==> (#[trigger] block_record(
                blocks.skip(1)[i],
            )) is Some);
        lemma_records_of_all_some(blocks.skip(1));
        assert(block_record(blocks[0]) is Some);
        let r0 = block_record(blocks[0])->Some_0;
        assert(records_of(blocks) == seq![r0] + records_of(blocks.skip(1)));
        assert forall|i: int| 0 <= i < blocks.len() implies block_record(blocks[i]) == Some(
            #[trigger] records_of(blocks)[i],
        ) by {
            if i == 0 {
                assert(records_of(blocks)[0] == r0);
            } else {
                assert(records_of(blocks)[i] == records_of(blocks.skip(1))[i - 1]);
                assert(blocks.skip(1)[i - 1] == blocks[i]);
            }
        }
    }
}

/// Every well-formed, separator-free block contributes exactly one record,
/// and the records come in block order.
pub proof fn lemma_one_record_per_block(blocks: Seq<Seq<char>>)
    requires
        forall|i: int| 0 <= i < blocks.len() ==> wf_block(#[trigger] blocks[i]),
    ensures
        parse_records(join_blocks(blocks)).len() == blocks.len(),
        forall|i: int|
            0 <= i < blocks.len() ==> block_record(blocks[i]) == Some(
                #[trigger] parse_records(join_blocks(blocks))[i],
            ),
{
    lemma_split_join(blocks);
    assert(blocks + seq![Seq::<char>::empty()] =~~= blocks.push(Seq::<char>::empty()));
    lemma_records_of_push(blocks, Seq::<char>::empty());
    assert(block_record(Seq::<char>::empty()) is None);
    lemma_records_of_all_some(blocks);
    assert(records_of(blocks) + Seq::<ChangeData>::empty() =~= records_of(blocks));
}

/// Blank input parses to the empty sequence of records: blankness is success
/// with no changes, never `NoValidChanges`.
pub proof fn lemma_blank_input_no_records(s: Seq<char>)
    requires
        trim(s).len() == 0,
    ensures
        parse_records(s).len() == 0,
{
    lemma_trim_empty_all_space(s);
    assert(!has_pattern(s, separator())) by {
        if has_pattern(s, separator()) {
            let k = choose|k: int| matches_at(s, separator(), k);
            assert(s.subrange(k, k + 4)[0] == s[k]);
            assert(s[k] == '-');
            assert(is_space(s[k]));
        }
    }
    lemma_split_no_pattern(s, separator());
    assert(block_record(s) is None);
    assert(seq![s].skip(1) =~~= Seq::<Seq<char>>::empty());
    assert(records_of(seq![s]) == Seq::<ChangeData>::empty() + records_of(
        Seq::<Seq<char>>::empty(),
    ));
}

proof fn lemma_records_of_concat(x: Seq<Seq<char>>, y: Seq<Seq<char>>)
    ensures
        records_of(x + y) == records_of(x) + records_of(y),
    decreases x.len(),
{
    if x.len() == 0 {
        assert(x + y =~~= y);
        assert(records_of(x) + records_of(y) =~= records_of(y));
    } else {
        assert((x + y)[0] == x[0]);
        assert((x + y).skip(1) =~~= x.skip(1) + y);
        lemma_records_of_concat(x.skip(1), y);
        assert(record_opt(x[0]) + (records_of(x.skip(1)) + records_of(y)) =~= (record_opt(x[0])
            + records_of(x.skip(1))) + records_of(y));
    }
}

/// A block that yields no record — blank, too short, or missing an
/// identifier — is invisible: the records are exactly those of the remaining
/// blocks, so a malformed block neither aborts the parse nor disturbs the
/// records around it.
pub proof fn lemma_dropped_block_invisible(a: Seq<Seq<char>>, b: Seq<char>, c: Seq<Seq<char>>)
    requires
        block_record(b) is None,
    ensures
        records_of(a + seq![b] + c) == records_of(a + c),
{
    lemma_records_of_concat(a + seq![b], c);
    lemma_records_of_concat(a, seq![b]);
    lemma_records_of_concat(a, c);
    assert(seq![b].skip(1) =~~= Seq::<Seq<char>>::empty());
    assert(records_of(Seq::<Seq<char>>::empty()) == Seq::<ChangeData>::empty());
    assert(records_of(seq![b]) == record_opt(b) + Seq::<ChangeData>::empty());
    assert(record_opt(b) + Seq::<ChangeData>::empty() =~= Seq::<ChangeData>::empty());
    assert(records_of(a) + Seq::<ChangeData>::empty() =~= records_of(a));
}

/// Every record the parser yields satisfies the record invariant: its change
/// and commit identifiers are non-empty.
pub proof fn lemma_parse_records_wf(s: Seq<char>)
    ensures
        forall|i: int|
            0 <= i < parse_records(s).len() ==> (#[trigger] parse_records(s)[i]).wf(),
{
    lemma_records_of_wf(split_on(s, separator()));
}

proof fn lemma_records_of_wf(blocks: Seq<Seq<char>>)
    ensures
        forall|i: int| 0 <= i < records_of(blocks).len() ==> (#[trigger] records_of(blocks)[i]).wf(),
    decreases blocks.len(),
{
    if blocks.len() == 0 {
    } else {
        lemma_records_of_wf(blocks.skip(1));
        match block_record(blocks[0]) {
            Some(r0) => {
                assert(r0.wf());
                assert forall|i: int| 0 <= i < records_of(blocks).len() implies (
                #[trigger] records_of(blocks)[i]).wf() by {
                    if i > 0 {
                        assert(records_of(blocks)[i] == records_of(blocks.skip(1))[i - 1]);
                    }
                }
            },
            None => {
                assert forall|i: int| 0 <= i < records_of(blocks).len() implies (
                #[trigger] records_of(blocks)[i]).wf() by {
                    assert(records_of(blocks)[i] == records_of(blocks.skip(1))[i]);
                }
            },
        }
    }
}

} // verus!
