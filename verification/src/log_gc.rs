//! Retention of daily log files: which files are past the retention date,
//! and what becomes of a file once its records were filtered.
//!
//! Listing directories, opening files and filtering records are the
//! caller's; the decisions are here.
use vstd::prelude::*;
use crate::text::{chars_of, find_from, occurs_at};

verus! {

/// The extension of daily log files.
pub open spec fn log_ext() -> Seq<char> {
    ".msgpack"@
}

/// `a` sorts before `b` character by character (the order of `str`).
pub open spec fn lex_less(a: Seq<char>, b: Seq<char>) -> bool
    decreases a.len(),
{
    if a.len() == 0 {
        b.len() > 0
    } else if b.len() == 0 {
        false
    } else if a[0] != b[0] {
        (a[0] as u32) < (b[0] as u32)
    } else {
        lex_less(a.drop_first(), b.drop_first())
    }
}

/// Whether `a` sorts before `b`.
pub fn str_less(a: &str, b: &str) -> (r: bool)
    ensures
        r == lex_less(a@, b@),
{
    let x = chars_of(a);
    let y = chars_of(b);
    let mut i: usize = 0;
    assert(x@.skip(0) =~= x@);
    assert(y@.skip(0) =~= y@);
    while i < x.len() && i < y.len() && x[i] == y[i]
        invariant
            i <= x@.len() && i <= y@.len(),
            lex_less(x@, y@) == lex_less(x@.skip(i as int), y@.skip(i as int)),
        decreases x.len() - i,
    {
        assert(x@.skip(i as int).drop_first() =~= x@.skip(i + 1));
        assert(y@.skip(i as int).drop_first() =~= y@.skip(i + 1));
        i = i + 1;
    }
    if i == x.len() {
        i < y.len()
    } else if i == y.len() {
        false
    } else {
        (x[i] as u32) < (y[i] as u32)
    }
}

/// The first index where `p` occurs in `s`.
pub open spec fn first_occurrence(s: Seq<char>, p: Seq<char>, i: int) -> bool {
    occurs_at(s, p, i) && forall|j: int| 0 <= j < i ==> !occurs_at(s, p, j)
}

/// The date part of a daily log file name: what precedes the first
/// `.msgpack`, for names that end with `.msgpack`.
pub open spec fn log_file_date_spec(name: Seq<char>) -> Option<Seq<char>> {
    if name.len() >= log_ext().len() && name.skip(name.len() - log_ext().len()) == log_ext() {
        Some(name.take(choose|i: int| first_occurrence(name, log_ext(), i)))
    } else {
        None
    }
}

/// The date part of a daily log file name, or `None` for other files.
pub fn log_file_date(name: &str) -> (d: Option<String>)
    ensures
        match d {
            Some(s) => log_file_date_spec(name@) == Some(s@),
            None => log_file_date_spec(name@) is None,
        },
{
    proof {
        reveal_strlit(".msgpack");
    }
    let n = chars_of(name);
    let ext = chars_of(".msgpack");
    if n.len() < ext.len() {
        return None;
    }
    let start = n.len() - ext.len();
    if !crate::text::matches_at(n.as_slice(), ext.as_slice(), start) {
        assert(!(n@.skip(start as int) == log_ext())) by {
            if n@.skip(start as int) == log_ext() {
                assert(n@.subrange(start as int, start + ext@.len()) =~= n@.skip(start as int));
            }
        }
        return None;
    }
    assert(n@.skip(start as int) =~= n@.subrange(start as int, start + ext@.len()));
    match find_from(n.as_slice(), ext.as_slice(), 0) {
        Some(i) => {
            assert(first_occurrence(n@, log_ext(), i as int));
            proof {
                let c = choose|k: int| first_occurrence(n@, log_ext(), k);
                assert(first_occurrence(n@, log_ext(), c));
                if c < i {
                    assert(!occurs_at(n@, log_ext(), c));
                } else if c > i {
                    assert(!occurs_at(n@, log_ext(), i as int));
                }
            }
            let part = crate::text::slice_chars(n.as_slice(), 0, i);
            assert(part@ =~= n@.take(i as int));
            Some(crate::text::string_from_chars(part.as_slice()))
        },
        None => {
            assert(occurs_at(n@, ext@, start as int));
            None
        },
    }
}

/// Whether a log file is older than the retention date: a daily log whose
/// date sorts before `cutoff` (both `YYYY-MM-DD`).
pub fn is_expired_log(name: &str, cutoff: &str) -> (b: bool)
    ensures
        b == (log_file_date_spec(name@) matches Some(d) && lex_less(d, cutoff@)),
{
    match log_file_date(name) {
        Some(d) => str_less(d.as_str(), cutoff),
        None => false,
    }
}

/// What becomes of an expired log file after its records were filtered.
#[derive(Debug, Clone, Copy, PartialEq, Eq, Structural)]
pub enum LogGcAction {
    /// No record is kept: delete the file.
    Delete,
    /// Some records are dropped: rewrite the file with the kept ones.
    Prune,
    /// Every record is kept: leave the file.
    Keep,
}

/// The fate of a file of `total` records of which `retained` are kept.
pub fn gc_action(total: usize, retained: usize) -> (a: LogGcAction)
    ensures
        retained == 0 ==> a == LogGcAction::Delete,
        0 < retained < total ==> a == LogGcAction::Prune,
        0 < retained && retained >= total ==> a == LogGcAction::Keep,
{
    if retained == 0 {
        LogGcAction::Delete
    } else if retained < total {
        LogGcAction::Prune
    } else {
        LogGcAction::Keep
    }
}

/// The order of log dates is strict: no date sorts before itself, and of
/// two dates at most one sorts before the other; so a log dated on the
/// cutoff day is kept.
pub proof fn law_date_order_strict(a: Seq<char>, b: Seq<char>)
    ensures
        !lex_less(a, a),
        !(lex_less(a, b) && lex_less(b, a)),
    decreases a.len(),
{
    if a.len() > 0 {
        law_date_order_strict(a.drop_first(), a.drop_first());
        if b.len() > 0 {
            law_date_order_strict(a.drop_first(), b.drop_first());
        }
    }
}

} // verus!
