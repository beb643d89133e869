//! The per-line filters: each one rewrites the line and may annotate its
//! metadata, and a chain of them is applied strictly in registration order.
//!
//! The timestamp filter parses the log's own prefix grammar: a date
//! `dddd/dd/dd`, a clock `dd:dd:dd`, a tick counter, then anything up to the
//! line's last `]`.

use crate::events::PoeLogLineInfo;
use crate::text::{
    all_digits,
    decimal_value,
    digit_exec,
    is_digit,
    parse_decimal,
    string_chars,
    trim_chars,
    trim_spec,
};
use vstd::prelude::*;

verus! {

/// The fixed positions of the timestamp prefix: `dddd/dd/dd dd:dd:dd d`,
/// the last digit opening the tick counter.
pub open spec fn prefix_shape(cs: Seq<char>) -> bool {
    &&& cs.len() > 20
    &&& is_digit(cs[0])
    &&& is_digit(cs[1])
    &&& is_digit(cs[2])
    &&& is_digit(cs[3])
    &&& cs[4] == '/'
    &&& is_digit(cs[5])
    &&& is_digit(cs[6])
    &&& cs[7] == '/'
    &&& is_digit(cs[8])
    &&& is_digit(cs[9])
    &&& cs[10] == ' '
    &&& is_digit(cs[11])
    &&& is_digit(cs[12])
    &&& cs[13] == ':'
    &&& is_digit(cs[14])
    &&& is_digit(cs[15])
    &&& cs[16] == ':'
    &&& is_digit(cs[17])
    &&& is_digit(cs[18])
    &&& cs[19] == ' '
    &&& is_digit(cs[20])
}

/// The index just past the maximal digit run starting at `i`.
pub open spec fn digit_run_end(cs: Seq<char>, i: int) -> int
    decreases cs.len() - i when 0 <= i <= cs.len()
{
    if i < cs.len() && is_digit(cs[i]) {
        digit_run_end(cs, i + 1)
    } else {
        i
    }
}

/// The index of the last occurrence of `c` in `cs`, or -1 when there is none.
pub open spec fn last_index_of(cs: Seq<char>, c: char) -> int
    decreases cs.len(),
{
    if cs.len() == 0 {
        -1
    } else if cs.last() == c {
        cs.len() - 1
    } else {
        last_index_of(cs.drop_last(), c)
    }
}

/// Whether the timestamp prefix matches `cs`: the fixed shape, then a tick
/// counter, then anything up to a closing `]` somewhere in the line.
pub open spec fn info_prefix_matches(cs: Seq<char>) -> bool {
    &&& prefix_shape(cs)
    &&& last_index_of(cs, ']') >= 0
}

/// The digits of the tick counter.
pub open spec fn prefix_time_digits(cs: Seq<char>) -> Seq<char> {
    cs.subrange(20, digit_run_end(cs, 20))
}

/// What the timestamp filter does to one line: when the prefix matches and
/// the tick fits a `u64`, the line loses everything up to its last `]` plus
/// surrounding whitespace, and the metadata records the tick; otherwise line
/// and metadata pass through unchanged.
pub open spec fn timestamp_filter_spec(cs: Seq<char>, info: PoeLogLineInfo) -> (Seq<
    char,
>, PoeLogLineInfo) {
    if info_prefix_matches(cs) && decimal_value(prefix_time_digits(cs)) <= u64::MAX {
        (
            trim_spec(cs.skip(last_index_of(cs, ']') + 1)),
            PoeLogLineInfo { time: decimal_value(prefix_time_digits(cs)) as u64 },
        )
    } else {
        (cs, info)
    }
}

/// What the literal-prefix filter does: drop `p` from the front of a line
/// that starts with it, leave any other line alone.
pub open spec fn drop_prefix_spec(p: Seq<char>, cs: Seq<char>) -> Seq<char> {
    if p.len() <= cs.len() && cs.take(p.len() as int) == p {
        cs.skip(p.len() as int)
    } else {
        cs
    }
}

/// A per-line rewrite/annotate step.
pub enum LineFilter {
    /// Parse the timestamp prefix: strip it and record the tick counter.
    TimestampPrefix,
    /// Drop the given literal from the front of lines that start with it.
    DropLiteralPrefix(String),
}

/// What one filter does to a line and its metadata.
pub open spec fn filter_spec(f: LineFilter, cs: Seq<char>, info: PoeLogLineInfo) -> (Seq<
    char,
>, PoeLogLineInfo) {
    match f {
        LineFilter::TimestampPrefix => timestamp_filter_spec(cs, info),
        LineFilter::DropLiteralPrefix(p) => (drop_prefix_spec(p@, cs), info),
    }
}

/// A whole chain: filter 1, then 2, …, then N, each receiving the previous
/// filter's output.
pub open spec fn apply_filters_spec(fs: Seq<LineFilter>, cs: Seq<char>, info: PoeLogLineInfo) -> (
    Seq<char>,
    PoeLogLineInfo,
)
    decreases fs.len(),
{
    if fs.len() == 0 {
        (cs, info)
    } else {
        let st = filter_spec(fs[0], cs, info);
        apply_filters_spec(fs.drop_first(), st.0, st.1)
    }
}

/// Law: a filter chain composes in order — running `fs1 ++ fs2` equals
/// running `fs1` and handing its line and metadata to `fs2`.
pub proof fn lemma_apply_filters_append(
    fs1: Seq<LineFilter>,
    fs2: Seq<LineFilter>,
    cs: Seq<char>,
    info: PoeLogLineInfo,
)
    ensures
        apply_filters_spec(fs1 + fs2, cs, info).0 == apply_filters_spec(
            fs2,
            apply_filters_spec(fs1, cs, info).0,
            apply_filters_spec(fs1, cs, info).1,
        ).0,
        apply_filters_spec(fs1 + fs2, cs, info).1 == apply_filters_spec(
            fs2,
            apply_filters_spec(fs1, cs, info).0,
            apply_filters_spec(fs1, cs, info).1,
        ).1,
    decreases fs1.len(),
{
    if fs1.len() == 0 {
        assert(fs1 + fs2 =~= fs2);
    } else {
        assert((fs1 + fs2)[0] == fs1[0]);
        assert((fs1 + fs2).drop_first() =~= fs1.drop_first() + fs2);
        let st = filter_spec(fs1[0], cs, info);
        lemma_apply_filters_append(fs1.drop_first(), fs2, st.0, st.1);
    }
}

/// A chain of one filter is that filter.
pub proof fn lemma_apply_filters_singleton(f: LineFilter, cs: Seq<char>, info: PoeLogLineInfo)
    ensures
        apply_filters_spec(seq![f], cs, info).0 == filter_spec(f, cs, info).0,
        apply_filters_spec(seq![f], cs, info).1 == filter_spec(f, cs, info).1,
{
    let one = seq![f];
    let st = filter_spec(f, cs, info);
    assert(one[0] == f);
    assert(one.drop_first() =~= Seq::<LineFilter>::empty());
    assert(apply_filters_spec(Seq::<LineFilter>::empty(), st.0, st.1).0 == st.0);
    assert(apply_filters_spec(Seq::<LineFilter>::empty(), st.0, st.1).1 == st.1);
}

proof fn lemma_digit_run_end_bounds(cs: Seq<char>, i: int)
    requires
        0 <= i <= cs.len(),
    ensures
        i <= digit_run_end(cs, i) <= cs.len(),
        forall|k: int| i <= k < digit_run_end(cs, i) ==> is_digit(cs[k]),
        digit_run_end(cs, i) < cs.len() ==> !is_digit(cs[digit_run_end(cs, i)]),
    decreases cs.len() - i,
{
    if i < cs.len() && is_digit(cs[i]) {
        lemma_digit_run_end_bounds(cs, i + 1);
    }
}

proof fn lemma_last_index_of_bounds(cs: Seq<char>, c: char)
    ensures
        -1 <= last_index_of(cs, c) < cs.len(),
        last_index_of(cs, c) >= 0 ==> cs[last_index_of(cs, c)] == c,
        forall|k: int| last_index_of(cs, c) < k < cs.len() ==> cs[k] != c,
    decreases cs.len(),
{
    if cs.len() > 0 && cs.last() != c {
        lemma_last_index_of_bounds(cs.drop_last(), c);
        assert forall|k: int| last_index_of(cs, c) < k < cs.len() implies cs[k] != c by {
            if k < cs.len() - 1 {
                assert(cs[k] == cs.drop_last()[k]);
            }
        }
    }
}

impl LineFilter {
    /// Apply this filter to one line, rewriting it and annotating `info`.
    /// Filters are total: every line comes out as the filter's rule says,
    /// and nothing fails.
    pub fn apply(&self, line: Vec<char>, info: &mut PoeLogLineInfo) -> (r: Vec<char>)
        ensures
            r@ == filter_spec(*self, line@, *old(info)).0,
            *final(info) == filter_spec(*self, line@, *old(info)).1,
    {
        match self {
            LineFilter::TimestampPrefix => apply_timestamp(line, info),
            LineFilter::DropLiteralPrefix(p) => apply_drop_prefix(p, line, info),
        }
    }
}

/// The timestamp filter's executable side; see `timestamp_filter_spec`.
fn apply_timestamp(line: Vec<char>, info: &mut PoeLogLineInfo) -> (r: Vec<char>)
    ensures
        r@ == timestamp_filter_spec(line@, *old(info)).0,
        *final(info) == timestamp_filter_spec(line@, *old(info)).1,
{
    proof {
        lemma_last_index_of_bounds(line@, ']');
    }
    if line.len() <= 20 {
        return line;
    }
    let shape = digit_exec(line[0]) && digit_exec(line[1]) && digit_exec(line[2]) && digit_exec(
        line[3],
    ) && line[4] == '/' && digit_exec(line[5]) && digit_exec(line[6]) && line[7] == '/'
        && digit_exec(line[8]) && digit_exec(line[9]) && line[10] == ' ' && digit_exec(line[11])
        && digit_exec(line[12]) && line[13] == ':' && digit_exec(line[14]) && digit_exec(line[15])
        && line[16] == ':' && digit_exec(line[17]) && digit_exec(line[18]) && line[19] == ' '
        && digit_exec(line[20]);
    if !shape {
        assert(!prefix_shape(line@));
        return line;
    }
    assert(prefix_shape(line@));
    // the tick counter: the maximal digit run from position 20
    let mut run_end: usize = 20;
    while run_end < line.len() && digit_exec(line[run_end])
        invariant
            20 <= run_end <= line@.len(),
            forall|k: int| 20 <= k < run_end ==> is_digit(line@[k]),
        decreases line@.len() - run_end,
    {
        run_end = run_end + 1;
    }
    proof {
        lemma_digit_run_end_bounds(line@, 20);
        assert(digit_run_end(line@, 20) == run_end) by {
            let e = digit_run_end(line@, 20);
            if e < run_end {
                assert(is_digit(line@[e]));
            }
            if e > run_end {
                assert(is_digit(line@[run_end as int]));
            }
        }
    }
    // the last `]` in the line; the prefix runs up to it
    let mut bracket: usize = line.len();
    while bracket > 0 && line[bracket - 1] != ']'
        invariant
            0 <= bracket <= line@.len(),
            forall|k: int| bracket <= k < line@.len() ==> line@[k] != ']',
        decreases bracket,
    {
        bracket = bracket - 1;
    }
    let ghost li = last_index_of(line@, ']');
    if bracket == 0 {
        assert(li == -1) by {
            if li >= 0 {
                assert(line@[li] == ']');
            }
        }
        assert(!info_prefix_matches(line@));
        return line;
    }
    assert(line@[bracket - 1] == ']');
    assert(li == bracket - 1) by {
        if li > bracket - 1 {
            assert(line@[li] != ']');
        }
        if li < bracket - 1 {
            assert(line@[bracket - 1] != ']');
        }
    }
    assert(info_prefix_matches(line@));
    proof {
        assert(all_digits(line@.subrange(20, run_end as int)));
    }
    let time = match parse_decimal(&line, 20, run_end) {
        Some(t) => t,
        None => {
            // a tick too large for u64: the prefix is left untouched
            return line;
        },
    };
    let mut rest: Vec<char> = Vec::new();
    let mut i: usize = bracket;
    while i < line.len()
        invariant
            bracket <= i <= line@.len(),
            rest@ == line@.subrange(bracket as int, i as int),
        decreases line@.len() - i,
    {
        rest.push(line[i]);
        assert(rest@ =~= line@.subrange(bracket as int, i + 1 as int));
        i = i + 1;
    }
    assert(rest@ =~= line@.skip(li + 1));
    let trimmed = trim_chars(&rest);
    info.time = time;
    trimmed
}

/// The literal-prefix filter's executable side; see `drop_prefix_spec`.
fn apply_drop_prefix(p: &String, line: Vec<char>, info: &mut PoeLogLineInfo) -> (r: Vec<char>)
    ensures
        r@ == drop_prefix_spec(p@, line@),
        *final(info) == *old(info),
{
    let pc = string_chars(p.as_str());
    if pc.len() > line.len() {
        return line;
    }
    let mut i: usize = 0;
    while i < pc.len()
        invariant
            0 <= i <= pc@.len() <= line@.len(),
            pc@ == p@,
            forall|k: int| 0 <= k < i ==> line@[k] == p@[k],
        decreases pc@.len() - i,
    {
        if line[i] != pc[i] {
            assert(line@.take(p@.len() as int)[i as int] != p@[i as int]);
            return line;
        }
        i = i + 1;
    }
    assert(line@.take(p@.len() as int) =~= p@);
    let mut rest: Vec<char> = Vec::new();
    let mut j: usize = pc.len();
    while j < line.len()
        invariant
            pc@.len() <= j <= line@.len(),
            pc@ == p@,
            rest@ == line@.subrange(pc@.len() as int, j as int),
        decreases line@.len() - j,
    {
        rest.push(line[j]);
        assert(rest@ =~= line@.subrange(pc@.len() as int, j + 1 as int));
        j = j + 1;
    }
    assert(rest@ =~= line@.skip(p@.len() as int));
    rest
}

} // verus!
