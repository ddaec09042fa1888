//! Daily coupon types, system columns and the rules that a set of selections
//! must satisfy to form a coupon.
use vstd::prelude::*;
use crate::text::{owned, text_eq};

verus! {

/// The number of ways to choose `k` of `n` items.
pub open spec fn binom(n: nat, k: nat) -> nat
    decreases n,
{
    if k == 0 {
        1
    } else if n == 0 {
        0
    } else {
        binom((n - 1) as nat, (k - 1) as nat) + binom((n - 1) as nat, k)
    }
}

/// All `k`-element selections of `s`, keeping the order of `s` inside each
/// selection and listing the selections in lexicographic order of positions.
pub open spec fn selections(s: Seq<i64>, k: nat) -> Seq<Seq<i64>>
    decreases s.len(), k,
{
    if k == 0 {
        seq![Seq::<i64>::empty()]
    } else if s.len() == 0 {
        Seq::empty()
    } else {
        selections(s.drop_first(), (k - 1) as nat).map_values(|c: Seq<i64>| seq![s[0]] + c)
            + selections(s.drop_first(), k)
    }
}

/// There are exactly `binom(n, k)` selections of `k` out of `n`.
pub proof fn lemma_selections_len(s: Seq<i64>, k: nat)
    ensures
        selections(s, k).len() == binom(s.len(), k),
    decreases s.len(), k,
{
    if k > 0 && s.len() > 0 {
        lemma_selections_len(s.drop_first(), (k - 1) as nat);
        lemma_selections_len(s.drop_first(), k);
    }
}

/// Every selection has `k` elements, all taken from `s`.
pub proof fn lemma_selections_members(s: Seq<i64>, k: nat)
    ensures
        forall|i: int| 0 <= i < selections(s, k).len() ==> {
            &&& #[trigger] selections(s, k)[i].len() == k
            &&& forall|j: int| 0 <= j < k ==> s.contains(selections(s, k)[i][j])
        },
    decreases s.len(), k,
{
    if k > 0 && s.len() > 0 {
        let rest = s.drop_first();
        lemma_selections_members(rest, (k - 1) as nat);
        lemma_selections_members(rest, k);
        let left = selections(rest, (k - 1) as nat).map_values(|c: Seq<i64>| seq![s[0]] + c);
        let right = selections(rest, k);
        assert forall|i: int| 0 <= i < selections(s, k).len() implies {
            &&& #[trigger] selections(s, k)[i].len() == k
            &&& forall|j: int| 0 <= j < k ==> s.contains(selections(s, k)[i][j])
        } by {
            if i < left.len() {
                let c = selections(rest, (k - 1) as nat)[i];
                assert(selections(s, k)[i] == seq![s[0]] + c);
                assert forall|j: int| 0 <= j < k implies s.contains(selections(s, k)[i][j]) by {
                    if j == 0 {
                        assert(s[0] == s[0]);
                    } else {
                        assert(selections(s, k)[i][j] == c[j - 1]);
                        assert(rest.contains(c[j - 1]));
                        let t = selections(rest, (k - 1) as nat)[i][j - 1];
                        let w = selections(rest, (k - 1) as nat)[i];
                        assert(rest.contains(w[j - 1]));
                        let p = choose|p: int| 0 <= p < rest.len() && rest[p] == w[j - 1];
                        assert(s[p + 1] == rest[p]);
                    }
                }
            } else {
                let c = right[i - left.len()];
                assert(selections(s, k)[i] == c);
                assert forall|j: int| 0 <= j < k implies s.contains(selections(s, k)[i][j]) by {
                    assert(rest.contains(c[j]));
                    let p = choose|p: int| 0 <= p < rest.len() && rest[p] == c[j];
                    assert(s[p + 1] == rest[p]);
                }
            }
        }
    } else if k == 0 {
        assert(selections(s, k) =~= seq![Seq::<i64>::empty()]);
    }
}

/// The contents of a list of id lists.
pub open spec fn id_lists(v: Seq<Vec<i64>>) -> Seq<Seq<i64>> {
    v.map_values(|x: Vec<i64>| x@)
}

fn combinations_from(ids: &Vec<i64>, start: usize, k: usize) -> (r: Vec<Vec<i64>>)
    requires
        start <= ids@.len(),
    ensures
        id_lists(r@) == selections(ids@.skip(start as int), k as nat),
    decreases ids@.len() - start, k,
{
    let ghost s = ids@.skip(start as int);
    if k == 0 {
        let mut out: Vec<Vec<i64>> = Vec::new();
        let e: Vec<i64> = Vec::new();
        out.push(e);
        assert(id_lists(out@) =~= seq![Seq::<i64>::empty()]);
        return out;
    }
    if start == ids.len() {
        let out: Vec<Vec<i64>> = Vec::new();
        assert(id_lists(out@) =~= selections(s, k as nat));
        return out;
    }
    assert(ids@.skip(start + 1) =~= s.drop_first());
    let with_first = combinations_from(ids, start + 1, k - 1);
    let without_first = combinations_from(ids, start + 1, k);
    let first = ids[start];
    let mut out: Vec<Vec<i64>> = Vec::new();
    let ghost inner = selections(s.drop_first(), (k - 1) as nat);
    let ghost left = inner.map_values(|c: Seq<i64>| seq![s[0]] + c);
    let mut i: usize = 0;
    while i < with_first.len()
        invariant
            i <= with_first@.len(),
            first == s[0],
            id_lists(with_first@) == inner,
            left == inner.map_values(|c: Seq<i64>| seq![s[0]] + c),
            id_lists(out@) =~= left.take(i as int),
        decreases with_first@.len() - i,
    {
        let mut c: Vec<i64> = Vec::new();
        c.push(first);
        let mut j: usize = 0;
        let tail = &with_first[i];
        while j < tail.len()
            invariant
                j <= tail@.len(),
                c@ =~= seq![first] + tail@.take(j as int),
            decreases tail@.len() - j,
        {
            c.push(tail[j]);
            j = j + 1;
        }
        assert(tail@.take(tail@.len() as int) =~= tail@);
        assert(inner[i as int] == tail@);
        assert(left[i as int] == c@);
        let ghost before = out@;
        out.push(c);
        assert(id_lists(out@) =~= id_lists(before).push(c@));
        assert(left.take(i + 1) =~= left.take(i as int).push(left[i as int]));
        i = i + 1;
    }
    assert(left.take(with_first@.len() as int) =~= left);
    let ghost right = selections(s.drop_first(), k as nat);
    let mut i: usize = 0;
    while i < without_first.len()
        invariant
            i <= without_first@.len(),
            id_lists(without_first@) == right,
            id_lists(out@) =~= left + right.take(i as int),
        decreases without_first@.len() - i,
    {
        let mut c: Vec<i64> = Vec::new();
        let mut j: usize = 0;
        let tail = &without_first[i];
        while j < tail.len()
            invariant
                j <= tail@.len(),
                c@ =~= tail@.take(j as int),
            decreases tail@.len() - j,
        {
            c.push(tail[j]);
            j = j + 1;
        }
        assert(tail@.take(tail@.len() as int) =~= tail@);
        assert(right[i as int] == c@);
        let ghost before = out@;
        out.push(c);
        assert(id_lists(out@) =~= id_lists(before).push(c@));
        assert((left + right.take(i + 1)) =~= (left + right.take(i as int)).push(right[i as int]));
        i = i + 1;
    }
    assert(right.take(without_first@.len() as int) =~= right);
    out
}

/// All `size`-element combinations of `ids`, in lexicographic order of
/// positions.
pub fn combinations(ids: &Vec<i64>, size: usize) -> (r: Vec<Vec<i64>>)
    ensures
        id_lists(r@) == selections(ids@, size as nat),
        r@.len() == binom(ids@.len(), size as nat),
{
    assert(ids@.skip(0) =~= ids@);
    let r = combinations_from(ids, 0, size);
    proof {
        lemma_selections_len(ids@, size as nat);
        assert(id_lists(r@).len() == r@.len());
    }
    r
}

/// One column of a system coupon: its number (from one), its size and the
/// candidates it combines.
#[derive(Clone, Debug)]
pub struct SystemColumnKey {
    pub column_number: usize,
    pub system_size: usize,
    pub candidate_ids: Vec<i64>,
}

/// The columns of a system coupon: for each system size in turn, every
/// combination of that many selections.
pub open spec fn column_sets(ids: Seq<i64>, sizes: Seq<usize>) -> Seq<(usize, Seq<i64>)>
    decreases sizes.len(),
{
    if sizes.len() == 0 {
        Seq::empty()
    } else {
        column_sets(ids, sizes.drop_last()) + selections(ids, sizes.last() as nat).map_values(
            |c: Seq<i64>| (sizes.last(), c),
        )
    }
}

/// The number of columns of a system coupon over `n` selections.
pub open spec fn column_count(n: nat, sizes: Seq<usize>) -> nat
    decreases sizes.len(),
{
    if sizes.len() == 0 {
        0
    } else {
        column_count(n, sizes.drop_last()) + binom(n, sizes.last() as nat)
    }
}

/// A system coupon has one column per combination: `binom(n, k)` columns of
/// each size `k`.
pub proof fn lemma_column_count(ids: Seq<i64>, sizes: Seq<usize>)
    ensures
        column_sets(ids, sizes).len() == column_count(ids.len(), sizes),
    decreases sizes.len(),
{
    if sizes.len() > 0 {
        lemma_column_count(ids, sizes.drop_last());
        lemma_selections_len(ids, sizes.last() as nat);
    }
}

/// The system coupons of the daily product: six selections played as 5/6
/// make seven columns, seven selections played as 5/6/7 make twenty-nine.
pub proof fn law_daily_system_column_counts()
    ensures
        column_count(6, seq![5usize, 6usize]) == 7,
        column_count(7, seq![5usize, 6usize, 7usize]) == 29,
{
    reveal_with_fuel(binom, 8);
    reveal_with_fuel(column_count, 4);
    assert(binom(5, 5) == 1);
    assert(binom(6, 6) == 1);
    assert(binom(7, 7) == 1);
    assert(binom(6, 5) == 6);
    assert(binom(7, 6) == 7);
    assert(binom(4, 4) == 1);
    assert(binom(5, 4) == 5);
    assert(binom(6, 4) == 15);
    assert(binom(7, 5) == 21);
    assert(seq![5usize, 6usize].drop_last() =~= seq![5usize]);
    assert(seq![5usize].drop_last() =~= Seq::<usize>::empty());
    assert(seq![5usize, 6usize, 7usize].drop_last() =~= seq![5usize, 6usize]);
    assert(column_count(6, Seq::<usize>::empty()) == 0);
    assert(column_count(6, seq![5usize]) == 6);
    assert(column_count(6, seq![5usize, 6usize]) == 7);
    assert(column_count(7, seq![5usize]) == 21);
    assert(column_count(7, seq![5usize, 6usize]) == 28);
}

/// `out` lists the columns `sets` in order, numbered from one.
pub open spec fn columns_match(out: Seq<SystemColumnKey>, sets: Seq<(usize, Seq<i64>)>) -> bool {
    &&& out.len() == sets.len()
    &&& forall|i: int| 0 <= i < out.len() ==> {
        &&& (#[trigger] out[i]).column_number == i + 1
        &&& out[i].system_size == sets[i].0
        &&& out[i].candidate_ids@ == sets[i].1
    }
}

/// The columns of a system coupon over the selections `ids`, numbered from
/// one in the order of `sizes`.
pub fn system_columns(ids: &Vec<i64>, sizes: &Vec<usize>) -> (r: Vec<SystemColumnKey>)
    requires
        column_count(ids@.len(), sizes@) < usize::MAX,
    ensures
        columns_match(r@, column_sets(ids@, sizes@)),
{
    let mut out: Vec<SystemColumnKey> = Vec::new();
    let mut t: usize = 0;
    assert(sizes@.take(0) =~= Seq::<usize>::empty());
    while t < sizes.len()
        invariant
            t <= sizes@.len(),
            column_count(ids@.len(), sizes@) < usize::MAX,
            columns_match(out@, column_sets(ids@, sizes@.take(t as int))),
        decreases sizes@.len() - t,
    {
        let size = sizes[t];
        let sets = combinations(ids, size);
        let ghost prev = column_sets(ids@, sizes@.take(t as int));
        let ghost added = selections(ids@, size as nat).map_values(|c: Seq<i64>| (size, c));
        assert(sizes@.take(t + 1).drop_last() =~= sizes@.take(t as int));
        assert(sizes@.take(t + 1).last() == size);
        assert(column_sets(ids@, sizes@.take(t + 1)) == prev + added);
        proof {
            lemma_column_count(ids@, sizes@.take(t + 1));
            lemma_column_count_prefix(ids@.len(), sizes@, t as int + 1);
        }
        let mut j: usize = 0;
        while j < sets.len()
            invariant
                j <= sets@.len(),
                sets@.len() == added.len(),
                id_lists(sets@) == selections(ids@, size as nat),
                added == selections(ids@, size as nat).map_values(|c: Seq<i64>| (size, c)),
                prev.len() + added.len() < usize::MAX,
                columns_match(out@, (prev + added).take(prev.len() + j)),
            decreases sets@.len() - j,
        {
            let n = out.len() + 1;
            let mut c: Vec<i64> = Vec::new();
            let mut q: usize = 0;
            let src = &sets[j];
            while q < src.len()
                invariant
                    q <= src@.len(),
                    c@ =~= src@.take(q as int),
                decreases src@.len() - q,
            {
                c.push(src[q]);
                q = q + 1;
            }
            assert(src@.take(src@.len() as int) =~= src@);
            assert(id_lists(sets@)[j as int] == src@);
            let ghost before = out@;
            out.push(SystemColumnKey { column_number: n, system_size: size, candidate_ids: c });
            assert forall|i: int| 0 <= i < out@.len() implies {
                &&& (#[trigger] out@[i]).column_number == i + 1
                &&& out@[i].system_size == (prev + added).take(prev.len() + j + 1)[i].0
                &&& out@[i].candidate_ids@ == (prev + added).take(prev.len() + j + 1)[i].1
            } by {
                if i < before.len() {
                    assert(out@[i] == before[i]);
                }
            }
            j = j + 1;
        }
        assert((prev + added).take((prev.len() + added.len()) as int) =~= prev + added);
        t = t + 1;
    }
    assert(sizes@.take(sizes@.len() as int) =~= sizes@);
    out
}

proof fn lemma_column_count_prefix(n: nat, sizes: Seq<usize>, t: int)
    requires
        0 <= t <= sizes.len(),
    ensures
        column_count(n, sizes.take(t)) <= column_count(n, sizes),
    decreases sizes.len() - t,
{
    if t < sizes.len() {
        lemma_column_count_prefix(n, sizes, t + 1);
        assert(sizes.take(t + 1).drop_last() =~= sizes.take(t));
    } else {
        assert(sizes.take(t) =~= sizes);
    }
}


/// The daily coupon types, in the order the product lists them.
pub fn all_types() -> (r: [&'static str; 7])
    ensures
        r@.map_values(|x: &str| x@) == seq![
            "DAILY_CORNERS"@,
            "DAILY_OVER_25"@,
            "DAILY_OVER_35"@,
            "DAILY_BTTS"@,
            "DAILY_HIGH_CONFIDENCE"@,
            "DAILY_SURPRISE_SYSTEM"@,
            "DAILY_COMPOUND"@,
        ],
{
    let r = [
        "DAILY_CORNERS",
        "DAILY_OVER_25",
        "DAILY_OVER_35",
        "DAILY_BTTS",
        "DAILY_HIGH_CONFIDENCE",
        "DAILY_SURPRISE_SYSTEM",
        "DAILY_COMPOUND",
    ];
    assert(r@.map_values(|x: &str| x@) =~= seq![
        "DAILY_CORNERS"@,
        "DAILY_OVER_25"@,
        "DAILY_OVER_35"@,
        "DAILY_BTTS"@,
        "DAILY_HIGH_CONFIDENCE"@,
        "DAILY_SURPRISE_SYSTEM"@,
        "DAILY_COMPOUND"@,
    ]);
    r
}

/// The candidate category that feeds each coupon type.
pub open spec fn kind_category(kind: Seq<char>) -> Option<Seq<char>> {
    if kind == "DAILY_CORNERS"@ {
        Some("CORNERS"@)
    } else if kind == "DAILY_OVER_25"@ {
        Some("OVER_25"@)
    } else if kind == "DAILY_OVER_35"@ {
        Some("OVER_35"@)
    } else if kind == "DAILY_BTTS"@ {
        Some("BTTS_YES"@)
    } else if kind == "DAILY_HIGH_CONFIDENCE"@ {
        Some("HIGH_CONFIDENCE"@)
    } else if kind == "DAILY_SURPRISE_SYSTEM"@ {
        Some("SURPRISE"@)
    } else if kind == "DAILY_COMPOUND"@ {
        Some("COMPOUND"@)
    } else {
        None
    }
}

pub fn category(kind: &str) -> (r: Option<&'static str>)
    ensures
        match r {
            Some(c) => kind_category(kind@) == Some(c@),
            None => kind_category(kind@) is None,
        },
{
    if text_eq(kind, "DAILY_CORNERS") {
        Some("CORNERS")
    } else if text_eq(kind, "DAILY_OVER_25") {
        Some("OVER_25")
    } else if text_eq(kind, "DAILY_OVER_35") {
        Some("OVER_35")
    } else if text_eq(kind, "DAILY_BTTS") {
        Some("BTTS_YES")
    } else if text_eq(kind, "DAILY_HIGH_CONFIDENCE") {
        Some("HIGH_CONFIDENCE")
    } else if text_eq(kind, "DAILY_SURPRISE_SYSTEM") {
        Some("SURPRISE")
    } else if text_eq(kind, "DAILY_COMPOUND") {
        Some("COMPOUND")
    } else {
        None
    }
}

/// The Turkish title of each coupon type.
pub open spec fn display_name_spec(kind: Seq<char>) -> Seq<char> {
    if kind == "DAILY_CORNERS"@ {
        "Günün Korner Kuponu"@
    } else if kind == "DAILY_OVER_25"@ {
        "Günün 2.5 Üst Kuponu"@
    } else if kind == "DAILY_OVER_35"@ {
        "Günün 3.5 Üst Kuponu"@
    } else if kind == "DAILY_BTTS"@ {
        "Günün KG Var Kuponu"@
    } else if kind == "DAILY_HIGH_CONFIDENCE"@ {
        "Günün Yüksek Güven Kuponu"@
    } else if kind == "DAILY_SURPRISE_SYSTEM"@ {
        "Günün Sürpriz Kuponu"@
    } else if kind == "DAILY_COMPOUND"@ {
        "Günün Katlama Kuponu"@
    } else {
        "Günün Kuponu"@
    }
}

pub fn display_name(kind: &str) -> (r: &'static str)
    ensures
        r@ == display_name_spec(kind@),
{
    if text_eq(kind, "DAILY_CORNERS") {
        "Günün Korner Kuponu"
    } else if text_eq(kind, "DAILY_OVER_25") {
        "Günün 2.5 Üst Kuponu"
    } else if text_eq(kind, "DAILY_OVER_35") {
        "Günün 3.5 Üst Kuponu"
    } else if text_eq(kind, "DAILY_BTTS") {
        "Günün KG Var Kuponu"
    } else if text_eq(kind, "DAILY_HIGH_CONFIDENCE") {
        "Günün Yüksek Güven Kuponu"
    } else if text_eq(kind, "DAILY_SURPRISE_SYSTEM") {
        "Günün Sürpriz Kuponu"
    } else if text_eq(kind, "DAILY_COMPOUND") {
        "Günün Katlama Kuponu"
    } else {
        "Günün Kuponu"
    }
}

/// Why a daily coupon type produced no coupon.
pub open spec fn unavailable_reason_spec(kind: Seq<char>) -> Seq<char> {
    if kind == "DAILY_SURPRISE_SYSTEM"@ {
        "INSUFFICIENT_QUALIFIED_SURPRISE_SELECTIONS"@
    } else if kind == "DAILY_COMPOUND"@ {
        "NO_QUALIFYING_COMPOUND_COUPON"@
    } else {
        "INSUFFICIENT_QUALIFIED_CANDIDATES"@
    }
}

pub fn unavailable_reason(kind: &str) -> (r: &'static str)
    ensures
        r@ == unavailable_reason_spec(kind@),
{
    if text_eq(kind, "DAILY_SURPRISE_SYSTEM") {
        "INSUFFICIENT_QUALIFIED_SURPRISE_SELECTIONS"
    } else if text_eq(kind, "DAILY_COMPOUND") {
        "NO_QUALIFYING_COMPOUND_COUPON"
    } else {
        "INSUFFICIENT_QUALIFIED_CANDIDATES"
    }
}

/// The line of a selection, compared as numbers compare: two absent lines
/// are equal, two numbers are equal when their (canonical) bits are, and a
/// NaN line equals nothing.
#[derive(Clone, Copy, Debug, PartialEq, Eq, Structural)]
pub enum LineKey {
    Absent,
    Number(u64),
    NotANumber,
}

pub open spec fn same_line(a: LineKey, b: LineKey) -> bool {
    match (a, b) {
        (LineKey::Absent, LineKey::Absent) => true,
        (LineKey::Number(x), LineKey::Number(y)) => x == y,
        _ => false,
    }
}

pub fn lines_equal(a: LineKey, b: LineKey) -> (r: bool)
    ensures
        r == same_line(a, b),
{
    match (a, b) {
        (LineKey::Absent, LineKey::Absent) => true,
        (LineKey::Number(x), LineKey::Number(y)) => x == y,
        _ => false,
    }
}

/// What the coupon rules read of one selection.
#[derive(Clone, Debug)]
pub struct SelectionKey {
    pub id: i64,
    pub match_id: i64,
    pub market: String,
    pub line: LineKey,
}

/// Where the combined odds of a compound coupon fall against the policy
/// range.
#[derive(Clone, Copy, Debug, PartialEq, Eq, Structural)]
pub enum CompoundOdds {
    BelowMinimum,
    InRange,
    AboveMaximum,
}

#[derive(Clone, Copy, Debug, PartialEq, Eq, Structural)]
pub enum SelectionError {
    EmptySelectionSet,
    NestedTotalConflict,
    BttsGoalsConflict,
    NestedCornersConflict,
    SameMatchConflict,
    DuplicateCandidate,
    InvalidSystemSelectionCount,
    InvalidCompoundSelectionCount,
    CompoundOddsBelowMinimum,
    CompoundOddsAboveMaximum,
}

pub open spec fn selection_error_name(e: SelectionError) -> Seq<char> {
    match e {
        SelectionError::EmptySelectionSet => "EMPTY_SELECTION_SET"@,
        SelectionError::NestedTotalConflict => "NESTED_TOTAL_CONFLICT"@,
        SelectionError::BttsGoalsConflict => "BTTS_GOALS_CONFLICT"@,
        SelectionError::NestedCornersConflict => "NESTED_CORNERS_CONFLICT"@,
        SelectionError::SameMatchConflict => "SAME_MATCH_CONFLICT"@,
        SelectionError::DuplicateCandidate => "DUPLICATE_CANDIDATE"@,
        SelectionError::InvalidSystemSelectionCount => "INVALID_SYSTEM_SELECTION_COUNT"@,
        SelectionError::InvalidCompoundSelectionCount => "INVALID_COMPOUND_SELECTION_COUNT"@,
        SelectionError::CompoundOddsBelowMinimum => "COMPOUND_ODDS_BELOW_MINIMUM"@,
        SelectionError::CompoundOddsAboveMaximum => "COMPOUND_ODDS_ABOVE_MAXIMUM"@,
    }
}

impl SelectionError {
    pub fn as_str(&self) -> (r: &'static str)
        ensures
            r@ == selection_error_name(*self),
    {
        match self {
            SelectionError::EmptySelectionSet => "EMPTY_SELECTION_SET",
            SelectionError::NestedTotalConflict => "NESTED_TOTAL_CONFLICT",
            SelectionError::BttsGoalsConflict => "BTTS_GOALS_CONFLICT",
            SelectionError::NestedCornersConflict => "NESTED_CORNERS_CONFLICT",
            SelectionError::SameMatchConflict => "SAME_MATCH_CONFLICT",
            SelectionError::DuplicateCandidate => "DUPLICATE_CANDIDATE",
            SelectionError::InvalidSystemSelectionCount => "INVALID_SYSTEM_SELECTION_COUNT",
            SelectionError::InvalidCompoundSelectionCount => "INVALID_COMPOUND_SELECTION_COUNT",
            SelectionError::CompoundOddsBelowMinimum => "COMPOUND_ODDS_BELOW_MINIMUM",
            SelectionError::CompoundOddsAboveMaximum => "COMPOUND_ODDS_ABOVE_MAXIMUM",
        }
    }
}

/// The selection at `j` repeats a match of an earlier selection.
pub open spec fn repeats_match(sel: Seq<SelectionKey>, j: int) -> bool {
    exists|i: int| 0 <= i < j && sel[i].match_id == sel[j].match_id
}

/// The first selection, from position `j` on, that repeats an earlier match.
pub open spec fn first_repeat_from(sel: Seq<SelectionKey>, j: int) -> Option<int>
    decreases sel.len() - j,
{
    if j < 0 || j >= sel.len() {
        None
    } else if repeats_match(sel, j) {
        Some(j)
    } else {
        first_repeat_from(sel, j + 1)
    }
}

/// The first selection from position `y` on that shares the match of the
/// selection at `j` but is another candidate.
pub open spec fn partner_from(sel: Seq<SelectionKey>, j: int, y: int) -> Option<int>
    decreases sel.len() - y,
{
    if y < 0 || y >= sel.len() {
        None
    } else if sel[y].id != sel[j].id && sel[y].match_id == sel[j].match_id {
        Some(y)
    } else {
        partner_from(sel, j, y + 1)
    }
}

/// The conflict between two selections of the same match.
pub open spec fn conflict_spec(x: SelectionKey, other: SelectionKey) -> SelectionError {
    if x.market@ == "TOTAL_GOALS"@ && other.market@ == "TOTAL_GOALS"@ && !same_line(x.line, other.line) {
        SelectionError::NestedTotalConflict
    } else if (x.market@ == "BTTS"@ && other.market@ == "TOTAL_GOALS"@) || (x.market@ == "TOTAL_GOALS"@
        && other.market@ == "BTTS"@) {
        SelectionError::BttsGoalsConflict
    } else if x.market@ == "FULL_TIME_TOTAL_CORNERS"@ && other.market@ == x.market@ && !same_line(x.line, other.line) {
        SelectionError::NestedCornersConflict
    } else {
        SelectionError::SameMatchConflict
    }
}

pub open spec fn validate_spec(kind: Seq<char>, sel: Seq<SelectionKey>, odds: CompoundOdds) -> Result<Seq<usize>, SelectionError> {
    if sel.len() == 0 {
        Err(SelectionError::EmptySelectionSet)
    } else if first_repeat_from(sel, 0) is Some {
        let j = first_repeat_from(sel, 0)->0;
        match partner_from(sel, j, 0) {
            Some(y) => Err(conflict_spec(sel[j], sel[y])),
            None => Err(SelectionError::DuplicateCandidate),
        }
    } else if kind == "DAILY_SURPRISE_SYSTEM"@ {
        if sel.len() == 6 {
            Ok(seq![5usize, 6usize])
        } else if sel.len() == 7 {
            Ok(seq![5usize, 6usize, 7usize])
        } else {
            Err(SelectionError::InvalidSystemSelectionCount)
        }
    } else if kind == "DAILY_COMPOUND"@ {
        if !(2 <= sel.len() <= 3) {
            Err(SelectionError::InvalidCompoundSelectionCount)
        } else if odds == CompoundOdds::BelowMinimum {
            Err(SelectionError::CompoundOddsBelowMinimum)
        } else if odds == CompoundOdds::AboveMaximum {
            Err(SelectionError::CompoundOddsAboveMaximum)
        } else {
            Ok(Seq::empty())
        }
    } else {
        Ok(Seq::empty())
    }
}

fn conflict(x: &SelectionKey, other: &SelectionKey) -> (r: SelectionError)
    ensures
        r == conflict_spec(*x, *other),
{
    let xm = x.market.as_str();
    let om = other.market.as_str();
    if text_eq(xm, "TOTAL_GOALS") && text_eq(om, "TOTAL_GOALS") && !lines_equal(x.line, other.line) {
        SelectionError::NestedTotalConflict
    } else if (text_eq(xm, "BTTS") && text_eq(om, "TOTAL_GOALS")) || (text_eq(xm, "TOTAL_GOALS") && text_eq(om, "BTTS")) {
        SelectionError::BttsGoalsConflict
    } else if text_eq(xm, "FULL_TIME_TOTAL_CORNERS") && text_eq(om, xm) && !lines_equal(x.line, other.line) {
        SelectionError::NestedCornersConflict
    } else {
        SelectionError::SameMatchConflict
    }
}

fn first_repeat(sel: &Vec<SelectionKey>) -> (r: Option<usize>)
    ensures
        match r {
            Some(j) => first_repeat_from(sel@, 0) == Some(j as int) && j < sel@.len(),
            None => first_repeat_from(sel@, 0) is None,
        },
{
    let mut j: usize = 0;
    while j < sel.len()
        invariant
            j <= sel@.len(),
            first_repeat_from(sel@, 0) == first_repeat_from(sel@, j as int),
        decreases sel@.len() - j,
    {
        let mut i: usize = 0;
        let mut found = false;
        while i < j
            invariant
                i <= j < sel@.len(),
                found <==> exists|k: int| 0 <= k < i && sel@[k].match_id == sel@[j as int].match_id,
            decreases j - i,
        {
            if sel[i].match_id == sel[j].match_id {
                found = true;
            }
            i = i + 1;
        }
        if found {
            return Some(j);
        }
        j = j + 1;
    }
    None
}

fn partner(sel: &Vec<SelectionKey>, j: usize) -> (r: Option<usize>)
    requires
        j < sel@.len(),
    ensures
        match r {
            Some(y) => partner_from(sel@, j as int, 0) == Some(y as int) && y < sel@.len(),
            None => partner_from(sel@, j as int, 0) is None,
        },
{
    let mut y: usize = 0;
    while y < sel.len()
        invariant
            j < sel@.len(),
            y <= sel@.len(),
            partner_from(sel@, j as int, 0) == partner_from(sel@, j as int, y as int),
        decreases sel@.len() - y,
    {
        if sel[y].id != sel[j].id && sel[y].match_id == sel[j].match_id {
            return Some(y);
        }
        y = y + 1;
    }
    None
}

/// Checks that `selected` can form a coupon of type `kind`: it is not empty,
/// no match is repeated (the first repetition names the conflict with another
/// candidate of that match, or the candidate listed twice), a system
/// coupon has six or seven selections (played as 5/6 or 5/6/7), and a compound
/// coupon has two or three selections whose combined odds lie in range.
/// Returns the system sizes (empty for a non-system coupon).
pub fn validate_selection_set(kind: &str, selected: &Vec<SelectionKey>, compound_odds: CompoundOdds) -> (r: Result<Vec<usize>, SelectionError>)
    ensures
        match r {
            Ok(v) => validate_spec(kind@, selected@, compound_odds) == Ok::<Seq<usize>, SelectionError>(v@),
            Err(e) => validate_spec(kind@, selected@, compound_odds) == Err::<Seq<usize>, SelectionError>(e),
        },
{
    if selected.len() == 0 {
        return Err(SelectionError::EmptySelectionSet);
    }
    match first_repeat(selected) {
        Some(j) => {
            match partner(selected, j) {
                Some(y) => {
                    return Err(conflict(&selected[j], &selected[y]));
                },
                None => {
                    return Err(SelectionError::DuplicateCandidate);
                },
            }
        },
        None => {},
    }
    if text_eq(kind, "DAILY_SURPRISE_SYSTEM") {
        if selected.len() == 6 {
            let mut v: Vec<usize> = Vec::new();
            v.push(5);
            v.push(6);
            assert(v@ =~= seq![5usize, 6usize]);
            return Ok(v);
        } else if selected.len() == 7 {
            let mut v: Vec<usize> = Vec::new();
            v.push(5);
            v.push(6);
            v.push(7);
            assert(v@ =~= seq![5usize, 6usize, 7usize]);
            return Ok(v);
        } else {
            return Err(SelectionError::InvalidSystemSelectionCount);
        }
    }
    if text_eq(kind, "DAILY_COMPOUND") {
        if !(2 <= selected.len() && selected.len() <= 3) {
            return Err(SelectionError::InvalidCompoundSelectionCount);
        }
        match compound_odds {
            CompoundOdds::BelowMinimum => { return Err(SelectionError::CompoundOddsBelowMinimum); },
            CompoundOdds::AboveMaximum => { return Err(SelectionError::CompoundOddsAboveMaximum); },
            CompoundOdds::InRange => {},
        }
    }
    let v: Vec<usize> = Vec::new();
    assert(v@ =~= Seq::<usize>::empty());
    Ok(v)
}


/// The first position of a candidate in a pool.
pub open spec fn pool_position(pool: Seq<SelectionKey>, id: i64) -> Option<int>
    decreases pool.len(),
{
    if pool.len() == 0 {
        None
    } else {
        match pool_position(pool.drop_last(), id) {
            Some(k) => Some(k),
            None => if pool.last().id == id { Some(pool.len() - 1) } else { None },
        }
    }
}

/// Why a draft cannot be created.
#[derive(Clone, Copy, Debug, PartialEq, Eq, Structural)]
pub enum DraftError {
    InvalidCouponType,
    CandidateNotFoundOrNotQualified,
    Selection(SelectionError),
}

impl DraftError {
    pub fn as_str(&self) -> (r: &'static str)
        ensures
            r@ == (match *self {
                DraftError::InvalidCouponType => "INVALID_COUPON_TYPE"@,
                DraftError::CandidateNotFoundOrNotQualified => "CANDIDATE_NOT_FOUND_OR_NOT_QUALIFIED"@,
                DraftError::Selection(e) => selection_error_name(e),
            }),
    {
        match self {
            DraftError::InvalidCouponType => "INVALID_COUPON_TYPE",
            DraftError::CandidateNotFoundOrNotQualified => "CANDIDATE_NOT_FOUND_OR_NOT_QUALIFIED",
            DraftError::Selection(e) => e.as_str(),
        }
    }
}

/// A draft of type `kind` over the requested candidates of `pool` (the
/// qualified candidates of the source run in the coupon's category): their
/// positions in the pool and the system sizes, or the refusal.
pub open spec fn draft_spec(kind: Seq<char>, requested: Seq<i64>, pool: Seq<SelectionKey>, odds: CompoundOdds) -> Result<
    (Seq<int>, Seq<usize>),
    DraftError,
> {
    if kind_category(kind) is None {
        Err(DraftError::InvalidCouponType)
    } else if exists|i: int| 0 <= i < requested.len() && (#[trigger] pool_position(pool, requested[i])) is None {
        Err(DraftError::CandidateNotFoundOrNotQualified)
    } else {
        let positions = Seq::new(requested.len(), |i: int| pool_position(pool, requested[i])->0);
        let selected = positions.map_values(|k: int| pool[k]);
        match validate_spec(kind, selected, odds) {
            Ok(sizes) => Ok((positions, sizes)),
            Err(e) => Err(DraftError::Selection(e)),
        }
    }
}

fn copy_key(k: &SelectionKey) -> (r: SelectionKey)
    ensures
        r == *k,
{
    SelectionKey { id: k.id, match_id: k.match_id, market: k.market.clone(), line: k.line }
}

fn find_in_pool(pool: &Vec<SelectionKey>, id: i64) -> (r: Option<usize>)
    ensures
        match r {
            Some(k) => pool_position(pool@, id) == Some(k as int) && k < pool@.len(),
            None => pool_position(pool@, id) is None,
        },
{
    let mut k: usize = 0;
    while k < pool.len()
        invariant
            k <= pool@.len(),
            pool_position(pool@.take(k as int), id) is None,
        decreases pool@.len() - k,
    {
        assert(pool@.take(k + 1).drop_last() =~= pool@.take(k as int));
        if pool[k].id == id {
            proof {
                lemma_pool_position_prefix(pool@, id, k as int + 1);
            }
            return Some(k);
        }
        k = k + 1;
    }
    assert(pool@.take(pool@.len() as int) =~= pool@);
    None
}

proof fn lemma_pool_position_prefix(pool: Seq<SelectionKey>, id: i64, t: int)
    requires
        0 <= t <= pool.len(),
        pool_position(pool.take(t), id) is Some,
    ensures
        pool_position(pool, id) == pool_position(pool.take(t), id),
    decreases pool.len() - t,
{
    if t < pool.len() {
        assert(pool.take(t + 1).drop_last() =~= pool.take(t));
        lemma_pool_position_prefix(pool, id, t + 1);
    } else {
        assert(pool.take(t) =~= pool);
    }
}

/// Picks the requested candidates of a new draft out of the pool and checks
/// them as a selection set: an unknown coupon type, a candidate that is not
/// in the pool, or a selection-set refusal (a candidate listed twice among
/// them) is an error; nothing is picked then.
pub fn draft_selection(kind: &str, requested: &Vec<i64>, pool: &Vec<SelectionKey>, compound_odds: CompoundOdds) -> (r: Result<
    (Vec<usize>, Vec<usize>),
    DraftError,
>)
    ensures
        match r {
            Ok((positions, sizes)) => draft_spec(kind@, requested@, pool@, compound_odds) == Ok::<
                (Seq<int>, Seq<usize>),
                DraftError,
            >((positions@.map_values(|k: usize| k as int), sizes@)),
            Err(e) => draft_spec(kind@, requested@, pool@, compound_odds) == Err::<(Seq<int>, Seq<usize>), DraftError>(e),
        },
{
    let cat = category(kind);
    if cat.is_none() {
        return Err(DraftError::InvalidCouponType);
    }
    let n = requested.len();
    let mut positions: Vec<usize> = Vec::new();
    let mut selected: Vec<SelectionKey> = Vec::new();
    let mut i: usize = 0;
    while i < n
        invariant
            n == requested@.len(),
            kind_category(kind@) is Some,
            i <= n,
            positions@.len() == i,
            selected@.len() == i,
            forall|j: int|
                0 <= j < i ==> #[trigger] pool_position(pool@, requested@[j]) == Some(positions@[j] as int)
                    && positions@[j] < pool@.len() && selected@[j] == pool@[positions@[j] as int],
        decreases n - i,
    {
        match find_in_pool(pool, requested[i]) {
            Some(k) => {
                positions.push(k);
                selected.push(copy_key(&pool[k]));
            },
            None => {
                proof {
                    assert(pool_position(pool@, requested@[i as int]) is None);
                    assert(exists|x: int| 0 <= x < requested@.len() && (#[trigger] pool_position(pool@, requested@[x])) is None);
                    assert(kind_category(kind@) is Some);
                }
                return Err(DraftError::CandidateNotFoundOrNotQualified);
            },
        }
        i = i + 1;
    }
    let ghost want = Seq::new(requested@.len(), |j: int| pool_position(pool@, requested@[j])->0);
    proof {
        assert(positions@.map_values(|k: usize| k as int) =~= want);
        assert(selected@ =~= want.map_values(|k: int| pool@[k]));
    }
    match validate_selection_set(kind, &selected, compound_odds) {
        Ok(sizes) => Ok((positions, sizes)),
        Err(e) => Err(DraftError::Selection(e)),
    }
}

/// The positions kept when at most one selection per match is allowed: the
/// first selection of each match, in order.
pub open spec fn first_per_match_spec(m: Seq<i64>) -> Seq<int>
    decreases m.len(),
{
    if m.len() == 0 {
        Seq::empty()
    } else if m.drop_last().contains(m.last()) {
        first_per_match_spec(m.drop_last())
    } else {
        first_per_match_spec(m.drop_last()).push(m.len() - 1)
    }
}

/// A daily pool takes one selection per match: the kept positions increase,
/// no two of them share a match, and every match of the ranked list keeps its
/// first selection.
pub proof fn law_pools_take_one_selection_per_match(m: Seq<i64>)
    ensures
        forall|i: int|
            0 <= i < first_per_match_spec(m).len() ==> 0 <= #[trigger] first_per_match_spec(m)[i] < m.len(),
        forall|i: int, j: int|
            0 <= i < j < first_per_match_spec(m).len() ==> #[trigger] first_per_match_spec(m)[i]
                < #[trigger] first_per_match_spec(m)[j] && m[first_per_match_spec(m)[i]] != m[first_per_match_spec(
                m,
            )[j]],
        forall|x: i64|
            #[trigger] m.contains(x) ==> exists|i: int|
                0 <= i < first_per_match_spec(m).len() && m[first_per_match_spec(m)[i]] == x,
    decreases m.len(),
{
    if m.len() > 0 {
        let p = m.drop_last();
        let k = first_per_match_spec(p);
        law_pools_take_one_selection_per_match(p);
        assert forall|i: int| 0 <= i < k.len() implies m[k[i]] == p[k[i]] by {}
        if p.contains(m.last()) {
            assert(first_per_match_spec(m) == k);
            assert forall|x: i64| #[trigger] m.contains(x) implies exists|i: int|
                0 <= i < k.len() && m[k[i]] == x by {
                let w = choose|w: int| 0 <= w < m.len() && m[w] == x;
                if w < p.len() {
                    assert(p[w] == x);
                    assert(p.contains(x));
                } else {
                    assert(x == m.last());
                }
                let i = choose|i: int| 0 <= i < k.len() && p[k[i]] == x;
                assert(m[k[i]] == x);
            }
        } else {
            let r = k.push(m.len() - 1);
            assert(first_per_match_spec(m) == r);
            assert forall|i: int, j: int| 0 <= i < j < r.len() implies #[trigger] r[i] < #[trigger] r[j] && m[r[i]]
                != m[r[j]] by {
                if j == r.len() - 1 {
                    assert(r[i] == k[i]);
                    assert(p[k[i]] == m[k[i]]);
                    assert(p.contains(m[k[i]]));
                } else {
                    assert(r[i] == k[i] && r[j] == k[j]);
                }
            }
            assert forall|x: i64| #[trigger] m.contains(x) implies exists|i: int| 0 <= i < r.len() && m[r[i]] == x by {
                let w = choose|w: int| 0 <= w < m.len() && m[w] == x;
                if w < p.len() {
                    assert(p[w] == x);
                    assert(p.contains(x));
                    let i = choose|i: int| 0 <= i < k.len() && p[k[i]] == x;
                    assert(r[i] == k[i]);
                    assert(m[r[i]] == x);
                } else {
                    assert(r[r.len() - 1] == m.len() - 1);
                    assert(m[r[r.len() - 1]] == x);
                }
            }
        }
    }
}

/// Keeps the first selection of each match (the pool of an ordinary or a
/// system coupon takes one selection per match).
pub fn first_per_match(match_ids: &Vec<i64>) -> (r: Vec<usize>)
    ensures
        r@.map_values(|i: usize| i as int) == first_per_match_spec(match_ids@),
{
    let mut out: Vec<usize> = Vec::new();
    let mut i: usize = 0;
    while i < match_ids.len()
        invariant
            i <= match_ids@.len(),
            out@.map_values(|k: usize| k as int) == first_per_match_spec(match_ids@.take(i as int)),
        decreases match_ids@.len() - i,
    {
        let ghost pre = match_ids@.take(i as int);
        let mut seen = false;
        let mut k: usize = 0;
        while k < i
            invariant
                k <= i < match_ids@.len(),
                pre == match_ids@.take(i as int),
                seen <==> exists|q: int| 0 <= q < k && match_ids@[q] == match_ids@[i as int],
            decreases i - k,
        {
            if match_ids[k] == match_ids[i] {
                seen = true;
            }
            k = k + 1;
        }
        assert(match_ids@.take(i + 1).drop_last() =~= pre);
        assert(match_ids@.take(i + 1).last() == match_ids@[i as int]);
        assert(seen <==> pre.contains(match_ids@[i as int])) by {
            if seen {
                let q = choose|q: int| 0 <= q < i && match_ids@[q] == match_ids@[i as int];
                assert(pre[q] == match_ids@[i as int]);
            }
            if pre.contains(match_ids@[i as int]) {
                let q = choose|q: int| 0 <= q < pre.len() && pre[q] == match_ids@[i as int];
                assert(match_ids@[q] == match_ids@[i as int]);
            }
        }
        if !seen {
            let ghost before = out@;
            out.push(i);
            assert(out@.map_values(|k: usize| k as int) =~= before.map_values(|k: usize| k as int).push(i as int));
        }
        i = i + 1;
    }
    assert(match_ids@.take(match_ids@.len() as int) =~= match_ids@);
    out
}

/// The pool of a daily ordinary or system coupon, as positions in the
/// ranked qualified candidates of its category: one selection per match; a
/// system coupon needs at least six and takes at most seven. `None` when no
/// coupon can be formed.
pub open spec fn daily_pool_spec(kind: Seq<char>, match_ids: Seq<i64>) -> Option<Seq<int>> {
    let kept = first_per_match_spec(match_ids);
    if kind == "DAILY_SURPRISE_SYSTEM"@ {
        if kept.len() < 6 {
            None
        } else if kept.len() > 7 {
            Some(kept.take(7))
        } else {
            Some(kept)
        }
    } else {
        Some(kept)
    }
}

pub fn daily_pool(kind: &str, match_ids: &Vec<i64>) -> (r: Option<Vec<usize>>)
    requires
        kind@ != "DAILY_COMPOUND"@,
    ensures
        match r {
            Some(v) => daily_pool_spec(kind@, match_ids@) == Some(v@.map_values(|i: usize| i as int)),
            None => daily_pool_spec(kind@, match_ids@) is None,
        },
{
    let mut kept = first_per_match(match_ids);
    if text_eq(kind, "DAILY_SURPRISE_SYSTEM") {
        if kept.len() < 6 {
            return None;
        }
        if kept.len() > 7 {
            let ghost before = kept@;
            kept.truncate(7);
            assert(kept@.map_values(|i: usize| i as int) =~= before.map_values(|i: usize| i as int).take(7));
        }
    }
    Some(kept)
}

/// The system sizes a daily coupon type is generated with.
pub fn generated_system_sizes(kind: &str) -> (r: Vec<usize>)
    ensures
        r@ == (if kind@ == "DAILY_SURPRISE_SYSTEM"@ { seq![5usize, 6usize, 7usize] } else { Seq::empty() }),
{
    let mut v: Vec<usize> = Vec::new();
    if text_eq(kind, "DAILY_SURPRISE_SYSTEM") {
        v.push(5);
        v.push(6);
        v.push(7);
        assert(v@ =~= seq![5usize, 6usize, 7usize]);
    } else {
        assert(v@ =~= Seq::<usize>::empty());
    }
    v
}

/// A system preview is offered only as 5/6 or 5/6/7.
pub fn valid_system_sizes(sizes: &Vec<usize>) -> (r: bool)
    ensures
        r == (sizes@ == seq![5usize, 6usize] || sizes@ == seq![5usize, 6usize, 7usize]),
{
    if sizes.len() == 2 && sizes[0] == 5 && sizes[1] == 6 {
        assert(sizes@ =~= seq![5usize, 6usize]);
        true
    } else if sizes.len() == 3 && sizes[0] == 5 && sizes[1] == 6 && sizes[2] == 7 {
        assert(sizes@ =~= seq![5usize, 6usize, 7usize]);
        true
    } else {
        proof {
            if sizes@ == seq![5usize, 6usize] {
                assert(sizes@.len() == 2 && sizes@[0] == 5 && sizes@[1] == 6);
            }
            if sizes@ == seq![5usize, 6usize, 7usize] {
                assert(sizes@.len() == 3 && sizes@[0] == 5 && sizes@[1] == 6 && sizes@[2] == 7);
            }
        }
        false
    }
}

/// The total stake of a coupon: the unit stake of an accumulator, the unit
/// stake times the number of columns of a system coupon.
pub fn coupon_total_stake(unit: Option<i64>, system: bool, columns: usize) -> (r: Option<i64>)
    requires
        system ==> (unit matches Some(u) ==> i64::MIN <= u * columns <= i64::MAX),
    ensures
        r == match unit {
            Some(u) => Some((if system { u * columns } else { u as int }) as i64),
            None => None::<i64>,
        },
{
    match unit {
        None => None,
        Some(u) => {
            if system {
                let wide = (u as i128) * (columns as i128);
                Some(wide as i64)
            } else {
                Some(u)
            }
        },
    }
}

#[derive(Clone, Copy, Debug, PartialEq, Eq, Structural)]
pub enum ReplacementError {
    CouponNotDraft,
    DuplicateCandidate,
    WrongCategory,
    CandidateNotFound,
    CandidateFromDifferentRun,
    CandidateNotQualified,
}

pub open spec fn replacement_error_name(e: ReplacementError) -> Seq<char> {
    match e {
        ReplacementError::CouponNotDraft => "COUPON_NOT_DRAFT"@,
        ReplacementError::DuplicateCandidate => "DUPLICATE_CANDIDATE"@,
        ReplacementError::WrongCategory => "WRONG_CATEGORY"@,
        ReplacementError::CandidateNotFound => "CANDIDATE_NOT_FOUND"@,
        ReplacementError::CandidateFromDifferentRun => "CANDIDATE_FROM_DIFFERENT_RUN"@,
        ReplacementError::CandidateNotQualified => "CANDIDATE_NOT_QUALIFIED"@,
    }
}

impl ReplacementError {
    pub fn as_str(&self) -> (r: &'static str)
        ensures
            r@ == replacement_error_name(*self),
    {
        match self {
            ReplacementError::CouponNotDraft => "COUPON_NOT_DRAFT",
            ReplacementError::DuplicateCandidate => "DUPLICATE_CANDIDATE",
            ReplacementError::WrongCategory => "WRONG_CATEGORY",
            ReplacementError::CandidateNotFound => "CANDIDATE_NOT_FOUND",
            ReplacementError::CandidateFromDifferentRun => "CANDIDATE_FROM_DIFFERENT_RUN",
            ReplacementError::CandidateNotQualified => "CANDIDATE_NOT_QUALIFIED",
        }
    }
}

/// Only a draft coupon can have its selections replaced.
pub fn require_draft(status: &str) -> (r: Result<(), ReplacementError>)
    ensures
        r is Ok <==> status@ == "DRAFT"@,
        r is Err ==> r == Err::<(), ReplacementError>(ReplacementError::CouponNotDraft),
{
    if text_eq(status, "DRAFT") { Ok(()) } else { Err(ReplacementError::CouponNotDraft) }
}

/// Finalizing succeeds when a draft was finalized now, or the coupon was
/// already final.
pub fn finalize_check(changed: bool, status: &str) -> (r: Result<(), ReplacementError>)
    ensures
        r is Ok <==> (changed || status@ == "FINALIZED"@),
        r is Err ==> r == Err::<(), ReplacementError>(ReplacementError::CouponNotDraft),
{
    if changed || text_eq(status, "FINALIZED") { Ok(()) } else { Err(ReplacementError::CouponNotDraft) }
}

/// A stored candidate of any run: its run, its category and whether it
/// qualified.
#[derive(Clone, Debug)]
pub struct StoredCandidate {
    pub id: i64,
    pub run_id: i64,
    pub category: String,
    pub qualification_state: String,
}

/// A qualified candidate of the coupon's source run.
#[derive(Clone, Debug)]
pub struct RunCandidate {
    pub id: i64,
    pub category: String,
}

pub open spec fn find_run(run: Seq<RunCandidate>, id: i64) -> Option<int>
    decreases run.len(),
{
    if run.len() == 0 {
        None
    } else {
        match find_run(run.drop_last(), id) {
            Some(k) => Some(k),
            None => if run.last().id == id { Some(run.len() - 1) } else { None },
        }
    }
}

pub open spec fn find_stored(stored: Seq<StoredCandidate>, id: i64) -> Option<int>
    decreases stored.len(),
{
    if stored.len() == 0 {
        None
    } else {
        match find_stored(stored.drop_last(), id) {
            Some(k) => Some(k),
            None => if stored.last().id == id { Some(stored.len() - 1) } else { None },
        }
    }
}

/// The check of one requested candidate, given the candidates accepted
/// before it.
pub open spec fn replacement_step(
    id: i64,
    earlier: Seq<i64>,
    run: Seq<RunCandidate>,
    stored: Seq<StoredCandidate>,
    coupon_run: i64,
    category: Seq<char>,
) -> Result<int, ReplacementError> {
    if earlier.contains(id) {
        Err(ReplacementError::DuplicateCandidate)
    } else if find_run(run, id) is Some {
        let k = find_run(run, id)->0;
        if run[k].category@ != category {
            Err(ReplacementError::WrongCategory)
        } else {
            Ok(k)
        }
    } else if find_stored(stored, id) is None {
        Err(ReplacementError::CandidateNotFound)
    } else {
        let x = stored[find_stored(stored, id)->0];
        if x.run_id != coupon_run {
            Err(ReplacementError::CandidateFromDifferentRun)
        } else if x.category@ != category {
            Err(ReplacementError::WrongCategory)
        } else if x.qualification_state@ != "QUALIFIED"@ {
            Err(ReplacementError::CandidateNotQualified)
        } else {
            Err(ReplacementError::CandidateNotFound)
        }
    }
}

/// The candidates replacing a draft's selections, as positions in the
/// source run, or the first requested candidate that cannot be used.
pub open spec fn replacement_spec(
    requested: Seq<i64>,
    run: Seq<RunCandidate>,
    stored: Seq<StoredCandidate>,
    coupon_run: i64,
    category: Seq<char>,
) -> Result<Seq<int>, ReplacementError>
    decreases requested.len(),
{
    if requested.len() == 0 {
        Ok(Seq::empty())
    } else {
        match replacement_spec(requested.drop_last(), run, stored, coupon_run, category) {
            Err(e) => Err(e),
            Ok(v) => match replacement_step(requested.last(), requested.drop_last(), run, stored, coupon_run, category) {
                Err(e) => Err(e),
                Ok(k) => Ok(v.push(k)),
            },
        }
    }
}

proof fn lemma_replacement_error_sticks(
    requested: Seq<i64>,
    run: Seq<RunCandidate>,
    stored: Seq<StoredCandidate>,
    coupon_run: i64,
    category: Seq<char>,
    t: int,
)
    requires
        0 <= t <= requested.len(),
        replacement_spec(requested.take(t), run, stored, coupon_run, category) is Err,
    ensures
        replacement_spec(requested, run, stored, coupon_run, category)
            == replacement_spec(requested.take(t), run, stored, coupon_run, category),
    decreases requested.len() - t,
{
    if t < requested.len() {
        assert(requested.take(t + 1).drop_last() =~= requested.take(t));
        lemma_replacement_error_sticks(requested, run, stored, coupon_run, category, t + 1);
    } else {
        assert(requested.take(t) =~= requested);
    }
}

fn find_in_run(run: &Vec<RunCandidate>, id: i64) -> (r: Option<usize>)
    ensures
        match r {
            Some(k) => find_run(run@, id) == Some(k as int) && k < run@.len(),
            None => find_run(run@, id) is None,
        },
{
    let mut k: usize = 0;
    while k < run.len()
        invariant
            k <= run@.len(),
            find_run(run@.take(k as int), id) is None,
        decreases run@.len() - k,
    {
        assert(run@.take(k + 1).drop_last() =~= run@.take(k as int));
        if run[k].id == id {
            proof { lemma_find_run_prefix(run@, id, k as int + 1); }
            return Some(k);
        }
        k = k + 1;
    }
    assert(run@.take(run@.len() as int) =~= run@);
    None
}

proof fn lemma_find_run_prefix(run: Seq<RunCandidate>, id: i64, t: int)
    requires
        0 <= t <= run.len(),
        find_run(run.take(t), id) is Some,
    ensures
        find_run(run, id) == find_run(run.take(t), id),
    decreases run.len() - t,
{
    if t < run.len() {
        assert(run.take(t + 1).drop_last() =~= run.take(t));
        lemma_find_run_prefix(run, id, t + 1);
    } else {
        assert(run.take(t) =~= run);
    }
}

fn find_in_stored(stored: &Vec<StoredCandidate>, id: i64) -> (r: Option<usize>)
    ensures
        match r {
            Some(k) => find_stored(stored@, id) == Some(k as int) && k < stored@.len(),
            None => find_stored(stored@, id) is None,
        },
{
    let mut k: usize = 0;
    while k < stored.len()
        invariant
            k <= stored@.len(),
            find_stored(stored@.take(k as int), id) is None,
        decreases stored@.len() - k,
    {
        assert(stored@.take(k + 1).drop_last() =~= stored@.take(k as int));
        if stored[k].id == id {
            proof { lemma_find_stored_prefix(stored@, id, k as int + 1); }
            return Some(k);
        }
        k = k + 1;
    }
    assert(stored@.take(stored@.len() as int) =~= stored@);
    None
}

proof fn lemma_find_stored_prefix(stored: Seq<StoredCandidate>, id: i64, t: int)
    requires
        0 <= t <= stored.len(),
        find_stored(stored.take(t), id) is Some,
    ensures
        find_stored(stored, id) == find_stored(stored.take(t), id),
    decreases stored.len() - t,
{
    if t < stored.len() {
        assert(stored.take(t + 1).drop_last() =~= stored.take(t));
        lemma_find_stored_prefix(stored, id, t + 1);
    } else {
        assert(stored.take(t) =~= stored);
    }
}

/// Checks the candidates requested to replace a draft's selections, in
/// order: no candidate twice; a qualified candidate of the source run must
/// belong to the coupon's category; any other candidate is refused with the
/// most specific reason (another run, another category, not qualified,
/// unknown). Returns the positions of the accepted candidates in `run`.
pub fn check_replacement(
    requested: &Vec<i64>,
    run: &Vec<RunCandidate>,
    stored: &Vec<StoredCandidate>,
    coupon_run: i64,
    category: &str,
) -> (r: Result<Vec<usize>, ReplacementError>)
    ensures
        match r {
            Ok(v) => replacement_spec(requested@, run@, stored@, coupon_run, category@)
                == Ok::<Seq<int>, ReplacementError>(v@.map_values(|i: usize| i as int)),
            Err(e) => replacement_spec(requested@, run@, stored@, coupon_run, category@)
                == Err::<Seq<int>, ReplacementError>(e),
        },
{
    let mut out: Vec<usize> = Vec::new();
    let mut p: usize = 0;
    assert(requested@.take(0) =~= Seq::<i64>::empty());
    assert(out@.map_values(|i: usize| i as int) =~= Seq::<int>::empty());
    while p < requested.len()
        invariant
            p <= requested@.len(),
            replacement_spec(requested@.take(p as int), run@, stored@, coupon_run, category@)
                == Ok::<Seq<int>, ReplacementError>(out@.map_values(|i: usize| i as int)),
        decreases requested@.len() - p,
    {
        let id = requested[p];
        assert(requested@.take(p + 1).drop_last() =~= requested@.take(p as int));
        assert(requested@.take(p + 1).last() == id);
        let mut dup = false;
        let mut q: usize = 0;
        while q < p
            invariant
                q <= p < requested@.len(),
                id == requested@[p as int],
                dup <==> exists|z: int| 0 <= z < q && requested@[z] == id,
            decreases p - q,
        {
            if requested[q] == id {
                dup = true;
            }
            q = q + 1;
        }
        assert(dup <==> requested@.take(p as int).contains(id)) by {
            if dup {
                let z = choose|z: int| 0 <= z < p && requested@[z] == id;
                assert(requested@.take(p as int)[z] == id);
            }
            if requested@.take(p as int).contains(id) {
                let z = choose|z: int| 0 <= z < p && requested@.take(p as int)[z] == id;
                assert(requested@[z] == id);
            }
        }
        if dup {
            proof { lemma_replacement_error_sticks(requested@, run@, stored@, coupon_run, category@, p as int + 1); }
                return Err(ReplacementError::DuplicateCandidate);
        }
        match find_in_run(run, id) {
            Some(k) => {
                if !text_eq(run[k].category.as_str(), category) {
                    proof { lemma_replacement_error_sticks(requested@, run@, stored@, coupon_run, category@, p as int + 1); }
                return Err(ReplacementError::WrongCategory);
                }
                let ghost before = out@;
                out.push(k);
                assert(out@.map_values(|i: usize| i as int) =~= before.map_values(|i: usize| i as int).push(k as int));
            },
            None => {
                match find_in_stored(stored, id) {
                    None => {
                        proof { lemma_replacement_error_sticks(requested@, run@, stored@, coupon_run, category@, p as int + 1); }
                return Err(ReplacementError::CandidateNotFound);
                    },
                    Some(k) => {
                        let x = &stored[k];
                        if x.run_id != coupon_run {
                            proof { lemma_replacement_error_sticks(requested@, run@, stored@, coupon_run, category@, p as int + 1); }
                return Err(ReplacementError::CandidateFromDifferentRun);
                        } else if !text_eq(x.category.as_str(), category) {
                            proof { lemma_replacement_error_sticks(requested@, run@, stored@, coupon_run, category@, p as int + 1); }
                return Err(ReplacementError::WrongCategory);
                        } else if !text_eq(x.qualification_state.as_str(), "QUALIFIED") {
                            proof { lemma_replacement_error_sticks(requested@, run@, stored@, coupon_run, category@, p as int + 1); }
                return Err(ReplacementError::CandidateNotQualified);
                        } else {
                            proof { lemma_replacement_error_sticks(requested@, run@, stored@, coupon_run, category@, p as int + 1); }
                return Err(ReplacementError::CandidateNotFound);
                        }
                    },
                }
            },
        }
        p = p + 1;
    }
    assert(requested@.take(requested@.len() as int) =~= requested@);
    Ok(out)
}

/// How a lineup revision affects a coupon selection.
pub open spec fn impact_type_spec(base_state: Seq<char>, latest_state: Seq<char>, changed: bool) -> Seq<char> {
    if base_state == "QUALIFIED"@ && latest_state != "QUALIFIED"@ {
        "NO_LONGER_QUALIFIED"@
    } else if changed && latest_state == "QUALIFIED"@ {
        "STILL_QUALIFIED"@
    } else if changed {
        "PROBABILITY_CHANGED"@
    } else {
        "UNCHANGED"@
    }
}

pub fn impact_type(base_state: &str, latest_state: &str, changed: bool) -> (r: &'static str)
    ensures
        r@ == impact_type_spec(base_state@, latest_state@, changed),
{
    let latest_qualified = text_eq(latest_state, "QUALIFIED");
    if text_eq(base_state, "QUALIFIED") && !latest_qualified {
        "NO_LONGER_QUALIFIED"
    } else if changed && latest_qualified {
        "STILL_QUALIFIED"
    } else if changed {
        "PROBABILITY_CHANGED"
    } else {
        "UNCHANGED"
    }
}

/// A request to generate the day's coupons.
#[derive(Clone, Debug)]
pub struct GenerateRequest {
    pub business_date: String,
    pub candidate_run_id: Option<i64>,
    pub coupon_type: Option<String>,
    pub unit_stake_cents: Option<i64>,
}

/// A request to build a draft coupon from chosen candidates.
#[derive(Clone, Debug)]
pub struct DraftRequest {
    pub business_date: String,
    pub candidate_run_id: i64,
    pub coupon_type: String,
    pub candidate_ids: Vec<i64>,
    pub unit_stake_cents: Option<i64>,
}

/// A request to change a draft's candidates.
#[derive(Clone, Debug)]
pub struct UpdateRequest {
    pub coupon_id: i64,
    pub candidate_ids: Vec<i64>,
}

/// A request to preview the columns of a system coupon.
#[derive(Clone, Debug)]
pub struct SystemPreviewRequest {
    pub candidate_ids: Vec<i64>,
    pub system_sizes: Vec<usize>,
    pub unit_stake_cents: i64,
}

/// A request for the effect of lineup revisions on a coupon.
#[derive(Clone, Copy, Debug)]
pub struct LineupRevisionImpactRequest {
    pub coupon_id: i64,
}

/// The reported result of one selection.
#[derive(Clone, Debug)]
pub struct SelectionOutcome {
    pub candidate_id: i64,
    pub result: String,
}

/// A request to settle a coupon.
#[derive(Clone, Debug)]
pub struct SettlementRequest {
    pub coupon_id: i64,
    pub outcomes: Vec<SelectionOutcome>,
    pub settled_at: String,
}

/// The coupon types a daily report covers: the one asked for, or all of them
/// in product order.
pub fn report_types(requested: &Option<String>) -> (r: Vec<String>)
    ensures
        r@.map_values(|x: String| x@) == (match requested {
            Some(k) => seq![k@],
            None => seq![
                "DAILY_CORNERS"@,
                "DAILY_OVER_25"@,
                "DAILY_OVER_35"@,
                "DAILY_BTTS"@,
                "DAILY_HIGH_CONFIDENCE"@,
                "DAILY_SURPRISE_SYSTEM"@,
                "DAILY_COMPOUND"@,
            ],
        }),
{
    let mut out: Vec<String> = Vec::new();
    match requested {
        Some(k) => {
            out.push(owned(k.as_str()));
        },
        None => {
            let types = all_types();
            let mut i: usize = 0;
            while i < 7
                invariant
                    i <= 7,
                    types@.map_values(|x: &str| x@) == seq![
                        "DAILY_CORNERS"@,
                        "DAILY_OVER_25"@,
                        "DAILY_OVER_35"@,
                        "DAILY_BTTS"@,
                        "DAILY_HIGH_CONFIDENCE"@,
                        "DAILY_SURPRISE_SYSTEM"@,
                        "DAILY_COMPOUND"@,
                    ],
                    out@.len() == i,
                    forall|k: int| 0 <= k < i ==> (#[trigger] out@[k])@ == types@[k]@,
                decreases 7 - i,
            {
                out.push(owned(types[i]));
                i = i + 1;
            }
            proof {
                let want = seq![
                    "DAILY_CORNERS"@,
                    "DAILY_OVER_25"@,
                    "DAILY_OVER_35"@,
                    "DAILY_BTTS"@,
                    "DAILY_HIGH_CONFIDENCE"@,
                    "DAILY_SURPRISE_SYSTEM"@,
                    "DAILY_COMPOUND"@,
                ];
                assert forall|k: int| 0 <= k < 7 implies out@.map_values(|x: String| x@)[k] == want[k] by {
                    assert(types@.map_values(|x: &str| x@)[k] == types@[k]@);
                }
                assert(out@.map_values(|x: String| x@) =~= want);
            }
        },
    }
    proof {
        if let Some(k) = requested {
            assert(out@.map_values(|x: String| x@) =~= seq![k@]);
        }
    }
    out
}

/// Whether a report entry holds a coupon, or why it holds none.
#[derive(Clone, Copy, Debug, PartialEq, Eq, Structural)]
pub enum ReportVerdict {
    Generated,
    InvalidCouponType,
    SourceCandidateRunNotFound,
    Insufficient,
}

pub open spec fn report_verdict_spec(kind: Seq<char>, run_found: bool, generated: bool) -> ReportVerdict {
    if kind_category(kind) is None {
        ReportVerdict::InvalidCouponType
    } else if !run_found {
        ReportVerdict::SourceCandidateRunNotFound
    } else if generated {
        ReportVerdict::Generated
    } else {
        ReportVerdict::Insufficient
    }
}

/// The verdict of one coupon type in the daily report: an unknown type, a
/// missing candidate run, a generated coupon, or too few qualified
/// selections. Every requested type gets an entry.
pub fn report_verdict(kind: &str, run_found: bool, generated: bool) -> (r: ReportVerdict)
    ensures
        r == report_verdict_spec(kind@, run_found, generated),
{
    if category(kind).is_none() {
        ReportVerdict::InvalidCouponType
    } else if !run_found {
        ReportVerdict::SourceCandidateRunNotFound
    } else if generated {
        ReportVerdict::Generated
    } else {
        ReportVerdict::Insufficient
    }
}

/// The reason given for a report entry without a coupon.
pub fn report_unavailable_reason(kind: &str, verdict: ReportVerdict) -> (r: Option<&'static str>)
    ensures
        r matches Some(x) ==> x@ == (match verdict {
            ReportVerdict::InvalidCouponType => "INVALID_COUPON_TYPE"@,
            ReportVerdict::SourceCandidateRunNotFound => "SOURCE_CANDIDATE_RUN_NOT_FOUND"@,
            _ => unavailable_reason_spec(kind@),
        }),
        r is None <==> verdict == ReportVerdict::Generated,
{
    match verdict {
        ReportVerdict::Generated => None,
        ReportVerdict::InvalidCouponType => Some("INVALID_COUPON_TYPE"),
        ReportVerdict::SourceCandidateRunNotFound => Some("SOURCE_CANDIDATE_RUN_NOT_FOUND"),
        ReportVerdict::Insufficient => Some(unavailable_reason(kind)),
    }
}

proof fn lemma_no_repeat_from(sel: Seq<SelectionKey>, j: int)
    requires
        0 <= j <= sel.len(),
        first_repeat_from(sel, j) is None,
    ensures
        forall|a: int, b: int| 0 <= a < b < sel.len() && j <= b ==> sel[a].match_id != sel[b].match_id,
    decreases sel.len() - j,
{
    if j < sel.len() {
        assert(!repeats_match(sel, j));
        lemma_no_repeat_from(sel, j + 1);
        assert forall|a: int, b: int| 0 <= a < b < sel.len() && j <= b implies sel[a].match_id != sel[b].match_id by {
            if b == j && sel[a].match_id == sel[b].match_id {
                assert(repeats_match(sel, j));
            }
        }
    }
}

proof fn lemma_kind_names_differ()
    ensures
        "DAILY_SURPRISE_SYSTEM"@ != "DAILY_COMPOUND"@,
{
    reveal_strlit("DAILY_SURPRISE_SYSTEM");
    reveal_strlit("DAILY_COMPOUND");
    assert("DAILY_SURPRISE_SYSTEM"@[6] != "DAILY_COMPOUND"@[6]);
}

/// An accepted selection set is a coupon of its type: it is not empty, no two
/// of its selections share a match, a system coupon has six selections
/// played 5/6 or seven played 5/6/7, a compound coupon has two or three
/// selections at odds within range, and any other coupon plays no system.
/// A refusal for a duplicate names a candidate that really is listed twice.
pub proof fn law_accepted_selections_form_their_coupon(kind: Seq<char>, sel: Seq<SelectionKey>, odds: CompoundOdds)
    ensures
        validate_spec(kind, sel, odds) matches Ok(sizes) ==> {
            &&& sel.len() > 0
            &&& forall|a: int, b: int| 0 <= a < b < sel.len() ==> sel[a].match_id != sel[b].match_id
            &&& kind == "DAILY_SURPRISE_SYSTEM"@ ==> (sel.len() == 6 && sizes == seq![5usize, 6usize]) || (sel.len()
                == 7 && sizes == seq![5usize, 6usize, 7usize])
            &&& kind == "DAILY_COMPOUND"@ ==> 2 <= sel.len() <= 3 && odds == CompoundOdds::InRange && sizes.len() == 0
            &&& kind != "DAILY_SURPRISE_SYSTEM"@ && kind != "DAILY_COMPOUND"@ ==> sizes.len() == 0
        },
        validate_spec(kind, sel, odds) == Err::<Seq<usize>, SelectionError>(SelectionError::DuplicateCandidate)
            ==> exists|a: int, b: int| 0 <= a < b < sel.len() && sel[a].id == sel[b].id,
{
    lemma_kind_names_differ();
    if validate_spec(kind, sel, odds) is Ok {
        lemma_no_repeat_from(sel, 0);
    }
    if validate_spec(kind, sel, odds) == Err::<Seq<usize>, SelectionError>(SelectionError::DuplicateCandidate) {
        let j = first_repeat_from(sel, 0)->0;
        lemma_first_repeat_is_repeat(sel, 0);
        let a = choose|a: int| 0 <= a < j && sel[a].match_id == sel[j].match_id;
        if sel[a].id != sel[j].id {
            lemma_partner_found(sel, j, 0, a);
        }
        assert(sel[a].id == sel[j].id);
    }
}

proof fn lemma_first_repeat_is_repeat(sel: Seq<SelectionKey>, j: int)
    requires
        0 <= j,
    ensures
        first_repeat_from(sel, j) matches Some(k) ==> j <= k < sel.len() && repeats_match(sel, k),
    decreases sel.len() - j,
{
    if j < sel.len() && !repeats_match(sel, j) {
        lemma_first_repeat_is_repeat(sel, j + 1);
    }
}

proof fn lemma_partner_found(sel: Seq<SelectionKey>, j: int, y: int, a: int)
    requires
        0 <= y <= a < sel.len(),
        0 <= j < sel.len(),
        sel[a].id != sel[j].id,
        sel[a].match_id == sel[j].match_id,
    ensures
        partner_from(sel, j, y) is Some,
    decreases sel.len() - y,
{
    if y < a && !(sel[y].id != sel[j].id && sel[y].match_id == sel[j].match_id) {
        lemma_partner_found(sel, j, y + 1, a);
    }
}

} // verus!
