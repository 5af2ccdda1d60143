//! Counters and a latency histogram, with a Prometheus text rendering.
use vstd::prelude::*;
use crate::text::{chars_of, string_from_chars, append_chars, push_decimal, decimal};

verus! {

/// Upper bounds (exclusive, nanoseconds) of the first five latency buckets;
/// the sixth holds the rest.
pub open spec fn bucket_of(nanos: u64) -> int {
    if nanos < 1_000_000 {
        0
    } else if nanos < 5_000_000 {
        1
    } else if nanos < 10_000_000 {
        2
    } else if nanos < 50_000_000 {
        3
    } else if nanos < 200_000_000 {
        4
    } else {
        5
    }
}

/// Counters of the firewall's activity and a latency histogram.
#[derive(Debug, Clone, Copy)]
pub struct Metrics {
    pub requests_total: u64,
    pub requests_blocked: u64,
    pub requests_passed: u64,
    pub requests_challenged: u64,
    pub llm_calls_total: u64,
    pub llm_calls_tier1: u64,
    pub llm_calls_tier2: u64,
    pub llm_tokens_total: u64,
    pub llm_cache_hits: u64,
    pub llm_cache_misses: u64,
    pub llm_dedup_hits: u64,
    pub waf_regex_matches: u64,
    pub waf_cache_hits: u64,
    pub waf_cache_misses: u64,
    pub db_write_ops: u64,
    pub db_read_ops: u64,
    pub rate_limit_triggers: u64,
    pub challenge_tokens_issued: u64,
    pub challenge_tokens_verified: u64,
    pub reputation_checks: u64,
    pub reputation_bans: u64,
    /// Operations per latency bucket: under 1 ms, 5 ms, 10 ms, 50 ms, 200 ms, and the rest.
    pub latency_buckets: [u64; 6],
}

/// The counters and histogram of a metrics value at one moment.
#[derive(Debug, Clone, Copy)]
pub struct MetricsSnapshot {
    pub requests_total: u64,
    pub requests_blocked: u64,
    pub requests_passed: u64,
    pub requests_challenged: u64,
    pub llm_calls_total: u64,
    pub llm_calls_tier1: u64,
    pub llm_calls_tier2: u64,
    pub llm_tokens_total: u64,
    pub llm_cache_hits: u64,
    pub llm_cache_misses: u64,
    pub llm_dedup_hits: u64,
    pub waf_regex_matches: u64,
    pub waf_cache_hits: u64,
    pub waf_cache_misses: u64,
    pub db_write_ops: u64,
    pub db_read_ops: u64,
    pub rate_limit_triggers: u64,
    pub challenge_tokens_issued: u64,
    pub challenge_tokens_verified: u64,
    pub reputation_checks: u64,
    pub reputation_bans: u64,
    pub latency_buckets: [u64; 6],
}

/// The snapshot of a metrics value.
pub open spec fn snapshot_of(m: Metrics) -> MetricsSnapshot {
    MetricsSnapshot {
        requests_total: m.requests_total,
        requests_blocked: m.requests_blocked,
        requests_passed: m.requests_passed,
        requests_challenged: m.requests_challenged,
        llm_calls_total: m.llm_calls_total,
        llm_calls_tier1: m.llm_calls_tier1,
        llm_calls_tier2: m.llm_calls_tier2,
        llm_tokens_total: m.llm_tokens_total,
        llm_cache_hits: m.llm_cache_hits,
        llm_cache_misses: m.llm_cache_misses,
        llm_dedup_hits: m.llm_dedup_hits,
        waf_regex_matches: m.waf_regex_matches,
        waf_cache_hits: m.waf_cache_hits,
        waf_cache_misses: m.waf_cache_misses,
        db_write_ops: m.db_write_ops,
        db_read_ops: m.db_read_ops,
        rate_limit_triggers: m.rate_limit_triggers,
        challenge_tokens_issued: m.challenge_tokens_issued,
        challenge_tokens_verified: m.challenge_tokens_verified,
        reputation_checks: m.reputation_checks,
        reputation_bans: m.reputation_bans,
        latency_buckets: m.latency_buckets,
    }
}

/// The snapshot with every counter and bucket at zero.
pub open spec fn zero_snapshot() -> MetricsSnapshot {
    MetricsSnapshot {
        requests_total: 0,
        requests_blocked: 0,
        requests_passed: 0,
        requests_challenged: 0,
        llm_calls_total: 0,
        llm_calls_tier1: 0,
        llm_calls_tier2: 0,
        llm_tokens_total: 0,
        llm_cache_hits: 0,
        llm_cache_misses: 0,
        llm_dedup_hits: 0,
        waf_regex_matches: 0,
        waf_cache_hits: 0,
        waf_cache_misses: 0,
        db_write_ops: 0,
        db_read_ops: 0,
        rate_limit_triggers: 0,
        challenge_tokens_issued: 0,
        challenge_tokens_verified: 0,
        reputation_checks: 0,
        reputation_bans: 0,
        latency_buckets: [0u64, 0u64, 0u64, 0u64, 0u64, 0u64],
    }
}

/// `after` is `before` with one operation of `nanos` nanoseconds counted.
pub open spec fn one_recorded(before: [u64; 6], after: [u64; 6], nanos: u64) -> bool {
    forall|i: int| 0 <= i < 6 ==> #[trigger] after[i] == before[i] + if i == bucket_of(nanos) { 1int } else { 0int }
}

/// A snapshot with its histogram replaced and every counter kept.
pub open spec fn with_buckets(s: MetricsSnapshot, b: [u64; 6]) -> MetricsSnapshot {
    MetricsSnapshot { latency_buckets: b, ..s }
}

/// Sum of the latency buckets.
pub open spec fn bucket_total(b: [u64; 6]) -> int {
    b[0] + b[1] + b[2] + b[3] + b[4] + b[5]
}

/// A counter's lines: `# HELP`, `# TYPE ... counter`, then its value.
pub open spec fn counter_block(name: Seq<char>, help: Seq<char>, value: u64) -> Seq<char> {
    "# HELP "@ + name + seq![' '] + help + seq!['\n'] + "# TYPE "@ + name + " counter"@ + seq!['\n']
        + name + seq![' '] + decimal(value as nat) + seq!['\n']
}

/// The counters in output order: name, help text, value.
pub open spec fn counter_list(s: MetricsSnapshot) -> Seq<(Seq<char>, Seq<char>, u64)> {
    seq![
        ("biubo_requests_total"@, "Total requests processed"@, s.requests_total),
        ("biubo_requests_blocked"@, "Total blocked requests"@, s.requests_blocked),
        ("biubo_requests_passed"@, "Total passed requests"@, s.requests_passed),
        ("biubo_requests_challenged"@, "Total challenged requests"@, s.requests_challenged),
        ("biubo_llm_calls_total"@, "Total LLM API calls"@, s.llm_calls_total),
        ("biubo_llm_calls_tier1"@, "Total LLM tier-1 (quick) calls"@, s.llm_calls_tier1),
        ("biubo_llm_calls_tier2"@, "Total LLM tier-2 (deep) calls"@, s.llm_calls_tier2),
        ("biubo_llm_tokens_total"@, "Total LLM tokens consumed"@, s.llm_tokens_total),
        ("biubo_llm_cache_hits"@, "LLM semantic cache hits"@, s.llm_cache_hits),
        ("biubo_llm_cache_misses"@, "LLM semantic cache misses"@, s.llm_cache_misses),
        ("biubo_llm_dedup_hits"@, "LLM in-flight dedup hits"@, s.llm_dedup_hits),
        ("biubo_waf_regex_matches"@, "WAF regex match count"@, s.waf_regex_matches),
        ("biubo_waf_cache_hits"@, "WAF detection cache hits"@, s.waf_cache_hits),
        ("biubo_waf_cache_misses"@, "WAF detection cache misses"@, s.waf_cache_misses),
        ("biubo_db_write_ops"@, "Database write operations"@, s.db_write_ops),
        ("biubo_db_read_ops"@, "Database read operations"@, s.db_read_ops),
        ("biubo_rate_limit_triggers"@, "Rate limit trigger count"@, s.rate_limit_triggers),
        ("biubo_challenge_tokens_issued"@, "Challenge tokens issued"@, s.challenge_tokens_issued),
        ("biubo_challenge_tokens_verified"@, "Challenge tokens verified"@, s.challenge_tokens_verified),
        ("biubo_reputation_checks"@, "Reputation checks performed"@, s.reputation_checks),
        ("biubo_reputation_bans"@, "IPs banned by reputation"@, s.reputation_bans),
    ]
}

/// The blocks of the first `k` counters.
pub open spec fn counter_blocks(list: Seq<(Seq<char>, Seq<char>, u64)>, k: nat) -> Seq<char>
    decreases k,
{
    if k == 0 || k > list.len() {
        Seq::empty()
    } else {
        counter_blocks(list, (k - 1) as nat) + counter_block(list[k - 1].0, list[k - 1].1, list[k - 1].2)
    }
}

/// The bucket labels in order.
pub open spec fn bucket_labels() -> Seq<Seq<char>> {
    seq!["1ms"@, "5ms"@, "10ms"@, "50ms"@, "200ms"@, "+Inf"@]
}

/// One histogram bucket line.
pub open spec fn bucket_line(label: Seq<char>, value: u64) -> Seq<char> {
    "biubo_request_latency_ns_bucket{le=\""@ + label + "\"} "@ + decimal(value as nat) + seq!['\n']
}

/// The lines of the first `k` buckets.
pub open spec fn bucket_lines(b: [u64; 6], k: nat) -> Seq<char>
    decreases k,
{
    if k == 0 || k > 6 {
        Seq::empty()
    } else {
        bucket_lines(b, (k - 1) as nat) + bucket_line(bucket_labels()[k - 1], b[k - 1])
    }
}

/// The full Prometheus text of a snapshot.
pub open spec fn prometheus_text(s: MetricsSnapshot) -> Seq<char> {
    counter_blocks(counter_list(s), 21)
        + "# HELP biubo_request_latency_ns Request latency buckets (ns)\n"@
        + "# TYPE biubo_request_latency_ns histogram\n"@
        + bucket_lines(s.latency_buckets, 6)
        + "biubo_request_latency_ns_total "@ + decimal(bucket_total(s.latency_buckets) as nat) + seq!['\n']
}

fn push_counter(out: &mut Vec<char>, name: &str, help: &str, value: u64)
    ensures
        final(out)@ == old(out)@ + counter_block(name@, help@, value),
{
    let ghost start = out@;
    append_chars(out, chars_of("# HELP ").as_slice());
    append_chars(out, chars_of(name).as_slice());
    out.push(' ');
    append_chars(out, chars_of(help).as_slice());
    out.push('\n');
    append_chars(out, chars_of("# TYPE ").as_slice());
    append_chars(out, chars_of(name).as_slice());
    append_chars(out, chars_of(" counter").as_slice());
    out.push('\n');
    append_chars(out, chars_of(name).as_slice());
    out.push(' ');
    push_decimal(out, value);
    out.push('\n');
    assert(out@ =~= start + counter_block(name@, help@, value));
}

impl Metrics {
    /// All counters and buckets at zero.
    pub fn new() -> (m: Self)
        ensures
            snapshot_of(m) == zero_snapshot(),
    {
        Metrics {
            requests_total: 0, requests_blocked: 0, requests_passed: 0, requests_challenged: 0,
            llm_calls_total: 0, llm_calls_tier1: 0, llm_calls_tier2: 0, llm_tokens_total: 0,
            llm_cache_hits: 0, llm_cache_misses: 0, llm_dedup_hits: 0, waf_regex_matches: 0,
            waf_cache_hits: 0, waf_cache_misses: 0, db_write_ops: 0, db_read_ops: 0,
            rate_limit_triggers: 0, challenge_tokens_issued: 0, challenge_tokens_verified: 0,
            reputation_checks: 0, reputation_bans: 0, latency_buckets: [0u64, 0u64, 0u64, 0u64, 0u64, 0u64],
        }
    }

    /// Counts one operation of `nanos` nanoseconds in its latency bucket.
    pub fn record_latency_nanos(&mut self, nanos: u64)
        requires
            old(self).latency_buckets[bucket_of(nanos)] < u64::MAX,
        ensures
            one_recorded(old(self).latency_buckets, final(self).latency_buckets, nanos),
            snapshot_of(*final(self)) == with_buckets(snapshot_of(*old(self)), final(self).latency_buckets),
    {
        let bucket: usize = if nanos < 1_000_000 {
            0
        } else if nanos < 5_000_000 {
            1
        } else if nanos < 10_000_000 {
            2
        } else if nanos < 50_000_000 {
            3
        } else if nanos < 200_000_000 {
            4
        } else {
            5
        };
        self.latency_buckets[bucket] = self.latency_buckets[bucket] + 1;
    }

    /// Counts one operation of the given duration in its latency bucket.
    pub fn record_latency(&mut self, duration: std::time::Duration)
        requires
            forall|i: int| 0 <= i < 6 ==> old(self).latency_buckets[i] < u64::MAX,
        ensures
            one_recorded(old(self).latency_buckets, final(self).latency_buckets, duration_as_nanos(duration)),
            snapshot_of(*final(self)) == with_buckets(snapshot_of(*old(self)), final(self).latency_buckets),
    {
        let nanos = duration_nanos(duration);
        self.record_latency_nanos(nanos);
    }

    /// The counters and histogram now.
    pub fn snapshot(&self) -> (s: MetricsSnapshot)
        ensures
            s == snapshot_of(*self),
    {
        MetricsSnapshot {
            requests_total: self.requests_total,
            requests_blocked: self.requests_blocked,
            requests_passed: self.requests_passed,
            requests_challenged: self.requests_challenged,
            llm_calls_total: self.llm_calls_total,
            llm_calls_tier1: self.llm_calls_tier1,
            llm_calls_tier2: self.llm_calls_tier2,
            llm_tokens_total: self.llm_tokens_total,
            llm_cache_hits: self.llm_cache_hits,
            llm_cache_misses: self.llm_cache_misses,
            llm_dedup_hits: self.llm_dedup_hits,
            waf_regex_matches: self.waf_regex_matches,
            waf_cache_hits: self.waf_cache_hits,
            waf_cache_misses: self.waf_cache_misses,
            db_write_ops: self.db_write_ops,
            db_read_ops: self.db_read_ops,
            rate_limit_triggers: self.rate_limit_triggers,
            challenge_tokens_issued: self.challenge_tokens_issued,
            challenge_tokens_verified: self.challenge_tokens_verified,
            reputation_checks: self.reputation_checks,
            reputation_bans: self.reputation_bans,
            latency_buckets: self.latency_buckets,
        }
    }

    /// The metrics in Prometheus text format: a help, type and value line per
    /// counter, then the latency histogram with its total.
    pub fn prometheus_output(&self) -> (out: String)
        requires
            bucket_total(self.latency_buckets) <= u64::MAX,
        ensures
            out@ == prometheus_text(snapshot_of(*self)),
    {
        let s = self.snapshot();
        let mut names: Vec<&str> = Vec::new();
        let mut helps: Vec<&str> = Vec::new();
        let mut values: Vec<u64> = Vec::new();
        names.push("biubo_requests_total"); helps.push("Total requests processed"); values.push(s.requests_total);
        names.push("biubo_requests_blocked"); helps.push("Total blocked requests"); values.push(s.requests_blocked);
        names.push("biubo_requests_passed"); helps.push("Total passed requests"); values.push(s.requests_passed);
        names.push("biubo_requests_challenged"); helps.push("Total challenged requests"); values.push(s.requests_challenged);
        names.push("biubo_llm_calls_total"); helps.push("Total LLM API calls"); values.push(s.llm_calls_total);
        names.push("biubo_llm_calls_tier1"); helps.push("Total LLM tier-1 (quick) calls"); values.push(s.llm_calls_tier1);
        names.push("biubo_llm_calls_tier2"); helps.push("Total LLM tier-2 (deep) calls"); values.push(s.llm_calls_tier2);
        names.push("biubo_llm_tokens_total"); helps.push("Total LLM tokens consumed"); values.push(s.llm_tokens_total);
        names.push("biubo_llm_cache_hits"); helps.push("LLM semantic cache hits"); values.push(s.llm_cache_hits);
        names.push("biubo_llm_cache_misses"); helps.push("LLM semantic cache misses"); values.push(s.llm_cache_misses);
        names.push("biubo_llm_dedup_hits"); helps.push("LLM in-flight dedup hits"); values.push(s.llm_dedup_hits);
        names.push("biubo_waf_regex_matches"); helps.push("WAF regex match count"); values.push(s.waf_regex_matches);
        names.push("biubo_waf_cache_hits"); helps.push("WAF detection cache hits"); values.push(s.waf_cache_hits);
        names.push("biubo_waf_cache_misses"); helps.push("WAF detection cache misses"); values.push(s.waf_cache_misses);
        names.push("biubo_db_write_ops"); helps.push("Database write operations"); values.push(s.db_write_ops);
        names.push("biubo_db_read_ops"); helps.push("Database read operations"); values.push(s.db_read_ops);
        names.push("biubo_rate_limit_triggers"); helps.push("Rate limit trigger count"); values.push(s.rate_limit_triggers);
        names.push("biubo_challenge_tokens_issued"); helps.push("Challenge tokens issued"); values.push(s.challenge_tokens_issued);
        names.push("biubo_challenge_tokens_verified"); helps.push("Challenge tokens verified"); values.push(s.challenge_tokens_verified);
        names.push("biubo_reputation_checks"); helps.push("Reputation checks performed"); values.push(s.reputation_checks);
        names.push("biubo_reputation_bans"); helps.push("IPs banned by reputation"); values.push(s.reputation_bans);
        let ghost list = counter_list(s);
        assert(names@.len() == 21 && helps@.len() == 21 && values@.len() == 21);
        assert forall|j: int| 0 <= j < 21 implies #[trigger] list[j] == (names@[j]@, helps@[j]@, values@[j]) by {
        }
        let mut out: Vec<char> = Vec::new();
        let mut k: usize = 0;
        while k < 21
            invariant
                k <= 21,
                names@.len() == 21 && helps@.len() == 21 && values@.len() == 21,
                list.len() == 21,
                forall|j: int| 0 <= j < 21 ==> #[trigger] list[j] == (names@[j]@, helps@[j]@, values@[j]),
                out@ == counter_blocks(list, k as nat),
            decreases 21 - k,
        {
            push_counter(&mut out, names[k], helps[k], values[k]);
            assert(list[k as int] == (names@[k as int]@, helps@[k as int]@, values@[k as int]));
            k = k + 1;
        }
        append_chars(&mut out, chars_of("# HELP biubo_request_latency_ns Request latency buckets (ns)\n").as_slice());
        append_chars(&mut out, chars_of("# TYPE biubo_request_latency_ns histogram\n").as_slice());
        let ghost head = out@;
        let mut labels: Vec<&str> = Vec::new();
        labels.push("1ms"); labels.push("5ms"); labels.push("10ms"); labels.push("50ms"); labels.push("200ms"); labels.push("+Inf");
        assert forall|j: int| 0 <= j < 6 implies #[trigger] bucket_labels()[j] == labels@[j]@ by {}
        let mut b: usize = 0;
        while b < 6
            invariant
                b <= 6,
                labels@.len() == 6,
                forall|j: int| 0 <= j < 6 ==> #[trigger] bucket_labels()[j] == labels@[j]@,
                out@ == head + bucket_lines(s.latency_buckets, b as nat),
            decreases 6 - b,
        {
            let ghost before = out@;
            append_chars(&mut out, chars_of("biubo_request_latency_ns_bucket{le=\"").as_slice());
            append_chars(&mut out, chars_of(labels[b]).as_slice());
            append_chars(&mut out, chars_of("\"} ").as_slice());
            push_decimal(&mut out, s.latency_buckets[b]);
            out.push('\n');
            assert(bucket_labels()[b as int] == labels@[b as int]@);
            assert(out@ =~= before + bucket_line(bucket_labels()[b as int], s.latency_buckets[b as int]));
            b = b + 1;
        }
        let total = s.latency_buckets[0] + s.latency_buckets[1] + s.latency_buckets[2]
            + s.latency_buckets[3] + s.latency_buckets[4] + s.latency_buckets[5];
        append_chars(&mut out, chars_of("biubo_request_latency_ns_total ").as_slice());
        push_decimal(&mut out, total);
        out.push('\n');
        assert(out@ =~= prometheus_text(snapshot_of(*self)));
        string_from_chars(out.as_slice())
    }
}

/// The whole nanoseconds of a duration, as `Duration::as_nanos` counts them,
/// cut to their low 64 bits.
pub uninterp spec fn duration_as_nanos(d: std::time::Duration) -> u64;

/// Whole nanoseconds of a duration (`Duration::as_nanos`), cut to 64 bits.
#[verifier::external_body]
fn duration_nanos(d: std::time::Duration) -> (n: u64)
    ensures
        n == duration_as_nanos(d),
{
    d.as_nanos() as u64
}

/// Every recorded latency lands in exactly one bucket, so the histogram
/// total grows by one per recorded operation.
pub proof fn law_histogram_total_counts_operations(before: [u64; 6], after: [u64; 6], nanos: u64)
    requires
        one_recorded(before, after, nanos),
    ensures
        bucket_total(after) == bucket_total(before) + 1,
        0 <= bucket_of(nanos) < 6,
{
    assert(after[0] == before[0] + if 0 == bucket_of(nanos) { 1int } else { 0int });
    assert(after[1] == before[1] + if 1 == bucket_of(nanos) { 1int } else { 0int });
    assert(after[2] == before[2] + if 2 == bucket_of(nanos) { 1int } else { 0int });
    assert(after[3] == before[3] + if 3 == bucket_of(nanos) { 1int } else { 0int });
    assert(after[4] == before[4] + if 4 == bucket_of(nanos) { 1int } else { 0int });
    assert(after[5] == before[5] + if 5 == bucket_of(nanos) { 1int } else { 0int });
}


/// `piece` stands in `text` from position `at` on.
pub open spec fn stands_at(text: Seq<char>, piece: Seq<char>, at: int) -> bool {
    0 <= at && at + piece.len() <= text.len() && text.subrange(at, at + piece.len()) == piece
}

/// A counter's value line: its name, a space, its value and a newline.
pub open spec fn counter_line(name: Seq<char>, value: u64) -> Seq<char> {
    name + seq![' '] + decimal(value as nat) + seq!['\n']
}

/// The histogram's total line.
pub open spec fn total_line(b: [u64; 6]) -> Seq<char> {
    "biubo_request_latency_ns_total "@ + decimal(bucket_total(b) as nat) + seq!['\n']
}

proof fn lemma_stands_in_longer(a: Seq<char>, b: Seq<char>, piece: Seq<char>, at: int)
    requires
        stands_at(a, piece, at),
    ensures
        stands_at(a + b, piece, at),
        stands_at(b + a, piece, at + b.len()),
{
    assert((a + b).subrange(at, at + piece.len()) =~= a.subrange(at, at + piece.len()));
    assert((b + a).subrange(at + b.len(), at + b.len() + piece.len()) =~= a.subrange(at, at + piece.len()));
}

proof fn lemma_counter_blocks_prefix(list: Seq<(Seq<char>, Seq<char>, u64)>, j: nat, k: nat)
    requires
        j <= k <= list.len(),
    ensures
        counter_blocks(list, k) == counter_blocks(list, j) + counter_blocks(list, k).subrange(
            counter_blocks(list, j).len() as int, counter_blocks(list, k).len() as int),
    decreases k,
{
    let ck = counter_blocks(list, k);
    let cj = counter_blocks(list, j);
    if j < k {
        lemma_counter_blocks_prefix(list, j, (k - 1) as nat);
        let ck1 = counter_blocks(list, (k - 1) as nat);
        assert(ck =~= ck1 + counter_block(list[k - 1].0, list[k - 1].1, list[k - 1].2));
        assert(ck.subrange(0, cj.len() as int) =~= ck1.subrange(0, cj.len() as int));
        assert(ck1.subrange(0, cj.len() as int) =~= cj);
    }
    assert(ck =~= ck.subrange(0, cj.len() as int) + ck.subrange(cj.len() as int, ck.len() as int));
}

proof fn lemma_counter_line_in_blocks(list: Seq<(Seq<char>, Seq<char>, u64)>, i: nat, k: nat)
    requires
        i < k <= list.len(),
    ensures
        stands_at(counter_blocks(list, k), counter_line(list[i as int].0, list[i as int].2),
            counter_blocks(list, i + 1).len() - counter_line(list[i as int].0, list[i as int].2).len()),
{
    let line = counter_line(list[i as int].0, list[i as int].2);
    let block = counter_block(list[i as int].0, list[i as int].1, list[i as int].2);
    let head = "# HELP "@ + list[i as int].0 + seq![' '] + list[i as int].1 + seq!['\n'] + "# TYPE "@
        + list[i as int].0 + " counter"@ + seq!['\n'];
    assert(block =~= head + line);
    let ci1 = counter_blocks(list, i + 1);
    assert(ci1 =~= counter_blocks(list, i) + block);
    assert(stands_at(ci1, line, ci1.len() - line.len())) by {
        assert(ci1.subrange(ci1.len() - line.len(), ci1.len() as int) =~= line);
    }
    lemma_counter_blocks_prefix(list, i + 1, k);
    let ck = counter_blocks(list, k);
    lemma_stands_in_longer(ci1, ck.subrange(ci1.len() as int, ck.len() as int), line, ci1.len() - line.len());
}

proof fn lemma_bucket_lines_len(b: [u64; 6], i: nat)
    requires
        i < 6,
    ensures
        bucket_lines(b, i + 1) == bucket_lines(b, i) + bucket_line(bucket_labels()[i as int], b[i as int]),
{
}

proof fn lemma_bucket_lines_prefix(b: [u64; 6], j: nat, k: nat)
    requires
        j <= k <= 6,
    ensures
        bucket_lines(b, k) == bucket_lines(b, j) + bucket_lines(b, k).subrange(
            bucket_lines(b, j).len() as int, bucket_lines(b, k).len() as int),
    decreases k,
{
    let bk = bucket_lines(b, k);
    let bj = bucket_lines(b, j);
    if j < k {
        lemma_bucket_lines_prefix(b, j, (k - 1) as nat);
        let bk1 = bucket_lines(b, (k - 1) as nat);
        assert(bk =~= bk1 + bucket_line(bucket_labels()[k - 1], b[k - 1]));
        assert(bk.subrange(0, bj.len() as int) =~= bk1.subrange(0, bj.len() as int));
        assert(bk1.subrange(0, bj.len() as int) =~= bj);
    }
    assert(bk =~= bk.subrange(0, bj.len() as int) + bk.subrange(bj.len() as int, bk.len() as int));
}

/// The Prometheus text holds each counter's value line, the six bucket lines
/// in the order 1ms, 5ms, 10ms, 50ms, 200ms, +Inf, each with its bucket's
/// count, and ends with the total of the buckets.
pub proof fn law_prometheus_lines(s: MetricsSnapshot)
    ensures
        forall|i: int| #![trigger counter_list(s)[i]] 0 <= i < 21 ==> exists|at: int| #[trigger] stands_at(prometheus_text(s),
            counter_line(counter_list(s)[i].0, counter_list(s)[i].2), at),
        forall|i: int| #![trigger bucket_labels()[i]] 0 <= i < 5 ==> exists|at: int, next: int| at < next
            && #[trigger] stands_at(prometheus_text(s), bucket_line(bucket_labels()[i], s.latency_buckets[i]), at)
            && #[trigger] stands_at(prometheus_text(s), bucket_line(bucket_labels()[i + 1], s.latency_buckets[i + 1]), next),
        stands_at(prometheus_text(s), total_line(s.latency_buckets),
            prometheus_text(s).len() - total_line(s.latency_buckets).len()),
{
    let list = counter_list(s);
    let t = prometheus_text(s);
    let cb = counter_blocks(list, 21);
    let h = "# HELP biubo_request_latency_ns Request latency buckets (ns)\n"@
        + "# TYPE biubo_request_latency_ns histogram\n"@;
    let bl = bucket_lines(s.latency_buckets, 6);
    let tl = total_line(s.latency_buckets);
    assert(t =~= cb + (h + bl + tl));
    assert forall|i: int| #![trigger list[i]] 0 <= i < 21 implies exists|at: int| #[trigger] stands_at(t,
        counter_line(list[i].0, list[i].2), at) by {
        lemma_counter_line_in_blocks(list, i as nat, 21);
        let at = counter_blocks(list, (i + 1) as nat).len() - counter_line(list[i].0, list[i].2).len();
        lemma_stands_in_longer(cb, h + bl + tl, counter_line(list[i].0, list[i].2), at);
    }
    let base: int = (cb.len() + h.len()) as int;
    assert forall|i: int| 0 <= i < 6 implies #[trigger] stands_at(t,
        bucket_line(bucket_labels()[i], s.latency_buckets[i]), base + bucket_lines(s.latency_buckets, i as nat).len() as int) by {
        let line = bucket_line(bucket_labels()[i], s.latency_buckets[i]);
        let bi = bucket_lines(s.latency_buckets, i as nat);
        let bi1 = bucket_lines(s.latency_buckets, (i + 1) as nat);
        lemma_bucket_lines_len(s.latency_buckets, i as nat);
        assert(stands_at(bi1, line, bi.len() as int)) by {
            assert(bi1.subrange(bi.len() as int, bi.len() + line.len() as int) =~= line);
        }
        lemma_bucket_lines_prefix(s.latency_buckets, (i + 1) as nat, 6);
        lemma_stands_in_longer(bi1, bl.subrange(bi1.len() as int, bl.len() as int), line, bi.len() as int);
        lemma_stands_in_longer(bl, tl, line, bi.len() as int);
        lemma_stands_in_longer(bl + tl, cb + h, line, bi.len() as int);
        assert(t =~= (cb + h) + (bl + tl));
    }
    assert forall|i: int| #![trigger bucket_labels()[i]] 0 <= i < 5 implies exists|at: int, next: int| at < next
        && #[trigger] stands_at(t, bucket_line(bucket_labels()[i], s.latency_buckets[i]), at)
        && #[trigger] stands_at(t, bucket_line(bucket_labels()[i + 1], s.latency_buckets[i + 1]), next) by {
        let at: int = base + bucket_lines(s.latency_buckets, i as nat).len();
        let next: int = base + bucket_lines(s.latency_buckets, (i + 1) as nat).len();
        lemma_bucket_lines_len(s.latency_buckets, i as nat);
        assert(stands_at(t, bucket_line(bucket_labels()[i], s.latency_buckets[i]), at));
        assert(stands_at(t, bucket_line(bucket_labels()[i + 1], s.latency_buckets[i + 1]), next));
    }
    assert(t.subrange(t.len() - tl.len(), t.len() as int) =~= tl);
}

} // verus!
