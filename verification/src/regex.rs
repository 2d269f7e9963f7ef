//! A small regular-expression engine: patterns compile to a column-per-step
//! transition table, and matching is one pass of the resulting machine over
//! the input.

use vstd::prelude::*;
use vstd::std_specs::vec::vec_index_mut;
use vstd::string::StrSliceExecFns;

verus! {

pub const COL_SIZE: usize = 130;

pub const EOE: usize = 129;

/// A failure raised while compiling a pattern.
#[derive(Clone, Copy, Debug, PartialEq, Eq, Structural)]
pub enum RegexError {
    /// A range group did not hold exactly one low and one high symbol.
    UnbalancedRange,
    /// A repetition sat on a column it cannot modify.
    MisplacedStar,
    /// A symbol lies outside the machine's alphabet.
    UnsupportedSymbol,
}

/// One transition: the next column and how far the read head advances.
#[derive(Debug, Clone, Copy, PartialEq, Eq, Structural)]
pub struct Action {
    pub next: usize,
    pub offset: usize,
}

/// One column of the transition table: an action per alphabet symbol.
pub struct State {
    ts: Vec<Action>,
}

impl View for State {
    type V = Seq<Action>;

    closed spec fn view(&self) -> Seq<Action> {
        self.ts@
    }
}

/// A compiled pattern: the ordered transition columns.
pub struct Regex {
    cs: Vec<State>,
}

/// Well-formedness of a transition table: every column covers the whole
/// alphabet, every head offset is zero or one, and an action that does not
/// advance the head either fails or moves strictly forward through the
/// columns, which is what bounds a match run.
pub open spec fn wf_table(t: Seq<Seq<Action>>) -> bool {
    &&& forall|i: int| 0 <= i < t.len() ==> (#[trigger] t[i]).len() == COL_SIZE
    &&& forall|i: int, sym: int|
        0 <= i < t.len() && 0 <= sym < t[i].len() ==> (#[trigger] t[i][sym]).offset <= 1 && (
        t[i][sym].offset == 0 ==> t[i][sym].next == 0 || t[i][sym].next > i)
}

/// The machine's configuration when a run from `state` and `head` stops:
/// either the head passed the end of the input, or the state left the
/// table's live range.
pub open spec fn spec_run(t: Seq<Seq<Action>>, input: Seq<char>, state: int, head: int) -> (
    int,
    int,
)
    decreases input.len() - head, t.len() - state,
    when wf_table(t) && 0 <= state && 0 <= head && (forall|i: int|
        0 <= i < input.len() ==> (input[i] as u32) < 130)
{
    if !(0 < state && state < t.len() && head < input.len()) {
        (state, head)
    } else {
        let a = t[state][(input[head] as u32) as int];
        let s2 = a.next as int;
        let h2 = head + a.offset;
        if 0 < s2 && s2 < t.len() && h2 < input.len() {
            spec_run(t, input, s2, h2)
        } else {
            (s2, h2)
        }
    }
}

/// Whether the machine accepts the input: the run may not fail, and after
/// a final end-of-expression step the state must have left the table.
pub open spec fn spec_matches(t: Seq<Seq<Action>>, input: Seq<char>) -> bool {
    let end = spec_run(t, input, 1, 0);
    if end.0 == 0 {
        false
    } else {
        (if end.0 < t.len() {
            t[end.0][EOE as int].next as int
        } else {
            end.0
        }) >= t.len()
    }
}

impl State {
    /// A fresh column: every symbol fails without advancing.
    pub fn new() -> (r: State)
        ensures
            r@.len() == COL_SIZE,
            forall|i: int| 0 <= i < r@.len() ==> r@[i] == (Action { next: 0, offset: 0 }),
    {
        let mut ts = Vec::<Action>::new();
        let mut i: usize = 0;
        while i < COL_SIZE
            invariant
                i <= COL_SIZE,
                ts@.len() == i,
                forall|j: int| 0 <= j < i ==> ts@[j] == (Action { next: 0, offset: 0 }),
            decreases COL_SIZE - i,
        {
            ts.push(Action { next: 0, offset: 0 });
            i = i + 1;
        }
        State { ts }
    }

    /// Sends every symbol in `from .. to` to column `state`, advancing the
    /// head.
    pub fn fill(&mut self, from: usize, to: usize, state: usize)
        requires
            to <= old(self)@.len(),
        ensures
            final(self)@.len() == old(self)@.len(),
            forall|j: int|
                0 <= j < final(self)@.len() ==> final(self)@[j] == (if from <= j < to {
                    Action { next: state, offset: 1 }
                } else {
                    old(self)@[j]
                }),
    {
        let mut i: usize = from;
        if i >= to {
            return ;
        }
        while i < to
            invariant
                from <= i <= to,
                to <= self@.len(),
                self@.len() == old(self)@.len(),
                forall|j: int|
                    0 <= j < self@.len() ==> self@[j] == (if from <= j < i {
                        Action { next: state, offset: 1 }
                    } else {
                        old(self)@[j]
                    }),
            decreases to - i,
        {
            let slot = vec_index_mut(&mut self.ts, i);
            *slot = Action { next: state, offset: 1 };
            i = i + 1;
        }
    }

    /// Rewires this column for a repetition that loops back to the column
    /// before `n`: advancing entries loop back, failing entries step over
    /// without consuming. A column holding any other entry cannot take a
    /// repetition.
    fn star_adjust(&mut self, n: usize) -> (ok: bool)
        requires
            n >= 1,
        ensures
            ok ==> final(self)@.len() == old(self)@.len() && forall|j: int|
                0 <= j < final(self)@.len() ==> final(self)@[j] == (if old(self)@[j].next == n {
                    Action { next: (n - 1) as usize, offset: 1 }
                } else {
                    Action { next: n, offset: 0 }
                }) && (old(self)@[j].next == n || old(self)@[j].next == 0),
    {
        let mut i: usize = 0;
        let len = self.ts.len();
        while i < len
            invariant
                n >= 1,
                i <= len,
                len == self@.len(),
                self@.len() == old(self)@.len(),
                forall|j: int| i <= j < self@.len() ==> self@[j] == old(self)@[j],
                forall|j: int|
                    0 <= j < i ==> self@[j] == (if old(self)@[j].next == n {
                        Action { next: (n - 1) as usize, offset: 1 }
                    } else {
                        Action { next: n, offset: 0 }
                    }) && (old(self)@[j].next == n || old(self)@[j].next == 0),
            decreases len - i,
        {
            let current = self.ts[i].next;
            if current == n {
                let slot = vec_index_mut(&mut self.ts, i);
                *slot = Action { next: n - 1, offset: 1 };
            } else if current == 0 {
                let slot = vec_index_mut(&mut self.ts, i);
                *slot = Action { next: n, offset: 0 };
            } else {
                return false;
            }
            i = i + 1;
        }
        true
    }
}

/// The end-of-expression column for a table of `len` columns: only the
/// end marker advances, into the column past the new one.
pub open spec fn eoe_col(len: int) -> Seq<Action> {
    Seq::new(
        COL_SIZE as nat,
        |j: int|
            if j == EOE {
                Action { next: (len + 1) as usize, offset: 1 }
            } else {
                Action { next: 0, offset: 0 }
            },
    )
}

impl Regex {
    /// The transition table.
    pub closed spec fn table(self) -> Seq<Seq<Action>> {
        self.cs@.map_values(|s: State| s@)
    }

    /// Well-formedness of the compiled machine.
    pub open spec fn wf(self) -> bool {
        wf_table(self.table())
    }

    pub fn new() -> (r: Regex)
        ensures
            r.table() == Seq::<Seq<Action>>::empty(),
    {
        let r = Regex { cs: Vec::new() };
        proof {
            assert(r.table() =~= Seq::<Seq<Action>>::empty());
        }
        r
    }

    /// Appends one column.
    pub fn push(&mut self, col: State)
        ensures
            final(self).table() == old(self).table().push(col@),
    {
        let ghost cv = col@;
        let ghost prev = self.cs@;
        self.cs.push(col);
        proof {
            assert(final(self).table() =~= old(self).table().push(cv));
        }
    }

    /// Appends the end-of-expression column: only the end marker advances,
    /// into the column past this one.
    pub fn push_eoe(&mut self)
        requires
            old(self).table().len() + 1 <= usize::MAX,
        ensures
            final(self).table() == old(self).table().push(eoe_col(old(self).table().len() as int)),
    {
        let mut col = State::new();
        let target = self.cs.len() + 1;
        col.fill(EOE, EOE + 1, target);
        proof {
            assert(col@ =~= eoe_col(old(self).table().len() as int));
        }
        self.push(col);
    }

    /// Runs the machine over the input; the requirement on the input's
    /// symbols is the machine's alphabet.
    pub fn matches(&self, input: &str) -> (r: bool)
        requires
            self.wf(),
            forall|i: int| 0 <= i < input@.len() ==> (input@[i] as u32) < 130,
        ensures
            r == spec_matches(self.table(), input@),
    {
        let ghost t = self.table();
        let mut state: usize = 1;
        let mut head: usize = 0;
        let n = input.unicode_len();
        while 0 < state && state < self.cs.len() && head < n
            invariant
                self.wf(),
                t == self.table(),
                n == input@.len(),
                forall|i: int| 0 <= i < input@.len() ==> (input@[i] as u32) < 130,
                head <= n,
                spec_run(t, input@, 1, 0) == spec_run(t, input@, state as int, head as int),
            decreases
                    n - head,
                    (if 0 < state && state <= self.cs.len() {
                        self.cs.len() - state
                    } else {
                        0
                    }),
        {
            let c = input.get_char(head);
            let sym = (c as u32) as usize;
            proof {
                assert(t[state as int] == self.cs@[state as int]@);
                assert(t[state as int].len() == COL_SIZE);
            }
            let action = self.cs[state].ts[sym];
            proof {
                assert(t[state as int][sym as int] == action);
            }
            state = action.next;
            head = head + action.offset;
        }
        if state == 0 {
            return false;
        }
        if state < self.cs.len() {
            proof {
                assert(t[state as int] == self.cs@[state as int]@);
                assert(t[state as int].len() == COL_SIZE);
            }
            let action = self.cs[state].ts[EOE];
            proof {
                assert(t[state as int][EOE as int] == action);
            }
            state = action.next;
        }
        state >= self.cs.len()
    }

    /// Compiles a pattern into a machine. The recognized forms are a
    /// literal symbol, `.` for any printable symbol, `[x-y]` for a symbol
    /// range, `*` for repetition of the previous column, and `$` for the
    /// end of the expression, which is also appended when the pattern does
    /// not end with it. A pattern of plain in-alphabet symbols without
    /// repetition or range groups always compiles.
    pub fn compile(src: &str) -> (r: Result<Regex, RegexError>)
        requires
            src@.len() + 2 <= usize::MAX,
        ensures
            r matches Ok(re) ==> re.wf() && re.table().len() >= 1,
            (forall|i: int|
                0 <= i < src@.len() ==> src@[i] != '[' && src@[i] != ']' && src@[i] != '*' && (
                src@[i] as u32) < 130) ==> r is Ok,
    {
        let mut regex = Regex::new();
        regex.push(State::new());
        let mut inside_range: bool = false;
        let mut ranges = Vec::<usize>::new();
        let n = src.unicode_len();
        let mut i: usize = 0;
        while i < n
            invariant
                i <= n,
                n == src@.len(),
                n + 2 <= usize::MAX,
                regex.wf(),
                1 <= regex.table().len() <= 1 + i,
                forall|k: int| 0 <= k < ranges@.len() ==> #[trigger] ranges@[k] < 0x110000,
                (forall|k: int|
                    0 <= k < src@.len() ==> src@[k] != '[' && src@[k] != ']' && src@[k] != '*' && (
                    src@[k] as u32) < 130) ==> !inside_range && ranges@.len() == 0,
            decreases n - i,
        {
            let c = src.get_char(i);
            if c == '$' {
                regex.push_eoe();
                proof {
                    lemma_push_preserves_wf(regex);
                }
            } else if c == '.' {
                let mut col = State::new();
                let target = regex.cs.len() + 1;
                col.fill(32, 127, target);
                regex.push(col);
                proof {
                    lemma_push_preserves_wf(regex);
                }
            } else if c == '*' {
                proof {
                    assert(regex.cs@.len() == regex.table().len());
                }
                let here = regex.cs.len();
                let ghost told = regex.table();
                let ghost tcs = regex.cs@;
                let last = vec_index_mut(&mut regex.cs, here - 1);
                let ok = last.star_adjust(here);
                if !ok {
                    return Err(RegexError::MisplacedStar);
                }
                proof {
                    assert forall|a: int| 0 <= a < regex.table().len() implies (
                    #[trigger] regex.table()[a]).len() == COL_SIZE by {
                        assert(regex.table()[a] == regex.cs@[a]@);
                        if a != here - 1 {
                            assert(regex.cs@[a] == tcs[a]);
                            assert(told[a] == tcs[a]@);
                        } else {
                            assert(told[a] == tcs[a]@);
                        }
                    }
                    assert forall|a: int, sym: int|
                        0 <= a < regex.table().len() && 0 <= sym < regex.table()[a].len() implies (
                    #[trigger] regex.table()[a][sym]).offset <= 1 && (regex.table()[a][sym].offset
                        == 0 ==> regex.table()[a][sym].next == 0 || regex.table()[a][sym].next
                        > a) by {
                        assert(regex.table()[a] == regex.cs@[a]@);
                        if a != here - 1 {
                            assert(regex.cs@[a] == tcs[a]);
                            assert(told[a] == tcs[a]@);
                        } else {
                            assert(told[a] == tcs[a]@);
                        }
                    }
                    assert(regex.wf());
                }
            } else if c == '[' {
                inside_range = true;
            } else if c == ']' {
                inside_range = false;
                if ranges.len() != 2 {
                    return Err(RegexError::UnbalancedRange);
                }
                let lo = ranges[0];
                let hi = ranges[1];
                let mut last: usize = hi + 1;
                if last >= COL_SIZE {
                    last = hi;
                }
                if last > COL_SIZE {
                    return Err(RegexError::UnsupportedSymbol);
                }
                let mut col = State::new();
                let target = regex.cs.len() + 1;
                col.fill(lo, last, target);
                regex.push(col);
                ranges.clear();
                proof {
                    lemma_push_preserves_wf(regex);
                }
            } else {
                if inside_range {
                    if c != '-' {
                        ranges.push((c as u32) as usize);
                    }
                } else {
                    let sym = (c as u32) as usize;
                    if sym >= COL_SIZE {
                        return Err(RegexError::UnsupportedSymbol);
                    }
                    let mut col = State::new();
                    let target = regex.cs.len() + 1;
                    col.fill(sym, sym + 1, target);
                    regex.push(col);
                    proof {
                        lemma_push_preserves_wf(regex);
                    }
                }
            }
            i = i + 1;
        }
        if ranges.len() != 0 {
            return Err(RegexError::UnbalancedRange);
        }
        let ends_with_marker = if n >= 1 {
            src.get_char(n - 1) == '$'
        } else {
            false
        };
        if !ends_with_marker {
            regex.push_eoe();
            proof {
                lemma_push_preserves_wf(regex);
            }
        }
        Ok(regex)
    }
}

/// A machine stays well-formed when the column just appended advances the
/// head everywhere it does not fail.
proof fn lemma_push_preserves_wf(re: Regex)
    requires
        re.table().len() >= 1,
        wf_table(re.table().drop_last()),
        re.table().last().len() == COL_SIZE,
        forall|j: int|
            0 <= j < re.table().last().len() ==> (#[trigger] re.table().last()[j]).offset <= 1 && (
            re.table().last()[j].offset == 0 ==> re.table().last()[j].next == 0),
    ensures
        re.wf(),
{
    let t = re.table();
    assert forall|i: int| 0 <= i < t.len() implies (#[trigger] t[i]).len() == COL_SIZE by {
        if i < t.len() - 1 {
            assert(t.drop_last()[i] == t[i]);
        } else {
            assert(t[i] == t.last());
        }
    }
    assert forall|i: int, sym: int|
        0 <= i < t.len() && 0 <= sym < t[i].len() implies (#[trigger] t[i][sym]).offset <= 1 && (
    t[i][sym].offset == 0 ==> t[i][sym].next == 0 || t[i][sym].next > i) by {
        if i < t.len() - 1 {
            assert(t.drop_last()[i] == t[i]);
        } else {
            assert(t[i] == t.last());
        }
    }
}

} // verus!
