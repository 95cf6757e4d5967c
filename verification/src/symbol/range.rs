use vstd::prelude::*;
use crate::symbol::number::Number;
use crate::symbol::symbol::{Range, Symbol, Value};

verus! {

/// How many values an arithmetic sequence yields that starts at `from`, moves
/// by `step` and stops before `end`. A sequence that does not move yields
/// none by this count.
pub open spec fn count_between(from: int, end: int, step: int) -> nat
    decreases
        if step > 0 && end > from {
            end - from
        } else if step < 0 && from > end {
            from - end
        } else {
            0
        },
{
    if step > 0 && from < end {
        1 + count_between(from + step, end, step)
    } else if step < 0 && from > end {
        1 + count_between(from + step, end, step)
    } else {
        0
    }
}

/// A sequence that has reached or passed its end yields nothing more.
pub proof fn lemma_count_past_end(from: int, end: int, step: int)
    requires
        (step > 0 && from >= end) || (step < 0 && from <= end),
    ensures
        count_between(from, end, step) == 0,
{
}

/// A range that moves by one, as it does where no increment is given, yields
/// as many values as lie between its start and its end: `end - start` of
/// them, and none where the end is not above the start.
pub proof fn law_range_by_one(start: i32, end: i32)
    ensures
        (Range { start, end, increment: 1, ticker: start }).remaining() == if end > start {
            end - start
        } else {
            0
        },
{
    lemma_count_by_one(start as int, end as int);
}

/// A sequence that moves by one yields as many values as lie between its
/// start and its end.
pub proof fn lemma_count_by_one(from: int, end: int)
    ensures
        count_between(from, end, 1) == if end > from {
            end - from
        } else {
            0
        },
    decreases end - from,
{
    if from < end {
        lemma_count_by_one(from + 1, end);
    }
}

impl Range {
    /// Whether the range has a value left to yield. A range that does not
    /// move never runs out.
    pub open spec fn has_next(self) -> bool {
        !(self.increment > 0 && self.ticker >= self.end) && !(self.increment < 0 && self.ticker
            <= self.end)
    }

    /// How many values the range has left to yield, where it moves.
    pub open spec fn remaining(self) -> nat {
        count_between(self.ticker as int, self.end as int, self.increment as int)
    }

    /// The range after it has yielded a value: the ticker has moved by the
    /// increment, and stays at the bound of its type where it would pass it.
    pub open spec fn advanced(self) -> Range {
        Range {
            ticker: if self.ticker + self.increment > i32::MAX {
                i32::MAX
            } else if self.ticker + self.increment < i32::MIN {
                i32::MIN
            } else {
                (self.ticker + self.increment) as i32
            },
            ..self
        }
    }

    /// A range from `start` up or down to `end`, moving by `increment`, or
    /// by one where none is given.
    pub fn new(start: i32, end: i32, increment: Option<i32>) -> (r: Range)
        ensures
            r.start == start,
            r.end == end,
            r.ticker == start,
            r.increment == match increment {
                Some(i) => i,
                None => 1,
            },
    {
        Range {
            start,
            end,
            increment: match increment {
                Some(i) => i,
                None => 1,
            },
            ticker: start,
        }
    }

    /// Yields the next value and moves on, or yields nothing where the range
    /// has run out.
    pub fn next(&mut self) -> (r: Option<Symbol>)
        ensures
            old(self).has_next() ==> r is Some && r->0@ == Value::Number(
                Number { bits: Number::bits_of_int(old(self).ticker as int) as u64 },
            ) && *final(self) == old(self).advanced(),
            !old(self).has_next() ==> r is None && *final(self) == *old(self),
            old(self).increment != 0 ==> (r is Some <==> old(self).remaining() > 0),
            old(self).increment != 0 && r is Some ==> final(self).remaining() + 1 == old(
                self,
            ).remaining(),
    {
        if self.increment > 0 && self.ticker >= self.end {
            return None;
        } else if self.increment < 0 && self.ticker <= self.end {
            return None;
        }
        let result = Symbol::Number(Number::from_int(self.ticker));
        let moved: i64 = self.ticker as i64 + self.increment as i64;
        proof {
            let step = self.increment as int;
            let end = self.end as int;
            if moved > i32::MAX {
                lemma_count_past_end(moved as int, end, step);
                lemma_count_past_end(i32::MAX as int, end, step);
            } else if moved < i32::MIN {
                lemma_count_past_end(moved as int, end, step);
                lemma_count_past_end(i32::MIN as int, end, step);
            }
        }
        self.ticker = if moved > i32::MAX as i64 {
            i32::MAX
        } else if moved < i32::MIN as i64 {
            i32::MIN
        } else {
            moved as i32
        };
        Some(result)
    }
}

} // verus!
