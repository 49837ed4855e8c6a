//! The bounded diagnostic log buffer: a FIFO of formatted log lines capped
//! at 5000 entries, oldest dropped first. The buffer travels with the
//! persisted snapshot across restarts; stamping and printing a line is the
//! runtime's business, keeping the bounded buffer is this module's.

use vstd::prelude::*;

verus! {

/// Upper bound on how many log lines are retained.
pub const LOG_CAP: usize = 5000;

/// The retained log lines after one is appended: the new line goes at the
/// tail and the oldest lines are dropped down to the cap.
pub open spec fn log_after_append(s: Seq<Seq<char>>, line: Seq<char>) -> Seq<Seq<char>> {
    let t = s.push(line);
    if t.len() <= LOG_CAP {
        t
    } else {
        t.skip(t.len() - LOG_CAP)
    }
}

/// A bounded FIFO of log lines.
#[derive(Debug)]
pub struct LogBuffer {
    entries: Vec<String>,
}

impl View for LogBuffer {
    type V = Seq<Seq<char>>;

    closed spec fn view(&self) -> Seq<Seq<char>> {
        self.entries.deep_view()
    }
}

impl LogBuffer {
    /// Appends one formatted line, dropping the oldest lines over the cap.
    pub fn append(&mut self, line: String)
        ensures
            final(self)@ == log_after_append(old(self)@, line@),
    {
        let ghost t = old(self)@.push(line@);
        self.entries.push(line);
        proof {
            assert(self@ =~= t);
        }
        while self.entries.len() > LOG_CAP
            invariant
                self@ == t.skip(t.len() - self@.len()),
                self@.len() <= t.len(),
                self@.len() >= LOG_CAP || self@.len() == t.len(),
                self@.len() == self.entries@.len(),
            decreases self.entries@.len(),
        {
            let ghost k = t.len() - self@.len();
            self.entries.remove(0);
            proof {
                assert(t.skip(k).drop_first() =~= t.skip(k + 1));
                assert(self@ =~= t.skip(k + 1));
            }
        }
        proof {
            if t.len() <= LOG_CAP {
                assert(t.skip(0) =~= t);
            }
            assert(self@ =~= log_after_append(old(self)@, line@));
        }
    }

    pub fn len(&self) -> (r: usize)
        ensures
            r == self@.len(),
    {
        self.entries.len()
    }
}

/// Builds the buffer from previously retained lines (restored from a
/// snapshot at startup).
pub fn init(entries: Vec<String>) -> (r: LogBuffer)
    ensures
        r@ == entries.deep_view(),
{
    LogBuffer { entries }
}

/// A copy of the retained lines, oldest first.
pub fn logs(buffer: &LogBuffer) -> (r: Vec<String>)
    ensures
        r.deep_view() == buffer@,
{
    let n = buffer.entries.len();
    let mut r: Vec<String> = Vec::new();
    let mut i: usize = 0;
    while i < n
        invariant
            n == buffer.entries@.len(),
            0 <= i <= n,
            r@.len() == i,
            forall|j: int| 0 <= j < i ==> r@[j]@ == buffer.entries@[j]@,
        decreases n - i,
    {
        r.push(buffer.entries[i].clone());
        i = i + 1;
    }
    proof {
        assert(r.deep_view() =~= buffer@);
    }
    r
}

} // verus!
