//! Settings of the IP reputation cache, and the name under which a DNS
//! blocklist is asked about an address.
use vstd::prelude::*;
use crate::text::{chars_of, string_from_chars, split_char, join_chars, append_chars, split_spec, join_with, views};

verus! {

/// How many reputations are cached and for how long (seconds): clean
/// addresses longer than flagged ones.
#[derive(Debug, Clone, Copy)]
pub struct ReputationAggregatorConfig {
    pub max_cache_size: usize,
    pub clean_ttl_secs: u64,
    pub flagged_ttl_secs: u64,
}

impl Default for ReputationAggregatorConfig {
    /// A hundred thousand entries, clean ones kept an hour, flagged ones five minutes.
    fn default() -> (c: Self)
        ensures
            c.max_cache_size == 100_000,
            c.clean_ttl_secs == 3600,
            c.flagged_ttl_secs == 300,
    {
        ReputationAggregatorConfig { max_cache_size: 100_000, clean_ttl_secs: 3600, flagged_ttl_secs: 300 }
    }
}

/// The dot-separated labels of `ip` in reverse order, joined with dots
/// again (`1.2.3.4` gives `4.3.2.1`).
pub open spec fn reversed_labels(ip: Seq<char>) -> Seq<char> {
    join_with(split_spec(ip, '.').reverse(), seq!['.'])
}

/// The address with its labels reversed, as a DNS blocklist is queried.
pub fn reverse_ip(ip: &str) -> (r: String)
    ensures
        r@ == reversed_labels(ip@),
{
    let chars = chars_of(ip);
    let pieces = split_char(chars.as_slice(), '.');
    let ghost ps = views(pieces@);
    let mut rev: Vec<Vec<char>> = Vec::new();
    let mut i: usize = pieces.len();
    while i > 0
        invariant
            i <= pieces@.len(),
            ps == views(pieces@),
            views(rev@) == ps.subrange(i as int, ps.len() as int).reverse(),
        decreases i,
    {
        i = i - 1;
        let mut piece: Vec<char> = Vec::new();
        append_chars(&mut piece, pieces[i].as_slice());
        let ghost before = views(rev@);
        rev.push(piece);
        assert(views(rev@) =~= before.push(ps[i as int]));
        assert(ps.subrange(i as int, ps.len() as int).reverse() =~= ps.subrange(i + 1, ps.len() as int).reverse().push(ps[i as int]));
    }
    assert(ps.subrange(0, ps.len() as int) =~= ps);
    let sep: [char; 1] = ['.'];
    assert(sep@ =~= seq!['.']);
    let out = join_chars(&rev, &sep);
    string_from_chars(out.as_slice())
}

} // verus!
