//! Reading a multipart form body for detection: the content of each
//! uploaded file is cut after its first 64 characters, so that detection
//! sees the form's fields and the start of each file but not whole files.
use vstd::prelude::*;
use crate::text::{chars_of, string_from_chars, append_chars};

verus! {

/// Characters of a file's content that are kept.
pub const KEPT_FILE_CHARS: usize = 64;

/// What replaces the rest of a file's content.
pub open spec fn file_cut_marker() -> Seq<char> {
    "\n...<Binary File Truncated>\n"@
}

/// The code of a character's ASCII lower case; other codes unchanged.
pub open spec fn lower_code(c: char) -> u32 {
    if 0x41 <= (c as u32) && (c as u32) <= 0x5a {
        ((c as u32) + 32) as u32
    } else {
        c as u32
    }
}

/// `s` holds `lit` (lower case) at `p`, ignoring ASCII case.
pub open spec fn holds_ci(s: Seq<char>, p: int, lit: Seq<char>) -> bool {
    0 <= p && p + lit.len() <= s.len() && forall|k: int| 0 <= k < lit.len() ==> #[trigger] lower_code(s[p + k]) == lit[k] as u32
}

/// The first index found is at or after where the search starts.
pub proof fn lemma_next_index_bounds(s: Seq<char>, from: int, c: char)
    ensures
        next_index(s, from, c) matches Some(k) ==> from <= k < s.len() && s[k] == c,
    decreases s.len() - from,
{
    if !(from < 0 || from >= s.len()) && s[from] != c {
        lemma_next_index_bounds(s, from + 1, c);
    }
}

/// A header ends past where it starts.
pub proof fn lemma_header_end_bounds(s: Seq<char>, p: int)
    ensures
        file_header_end(s, p) matches Some(h) ==> p < h <= s.len(),
{
    lemma_next_index_bounds(s, p + 10, '"');
    if let Some(q) = next_index(s, p + 10, '"') {
        lemma_next_index_bounds(s, q + 1, '\n');
    }
}

/// The first index at or after `from` that holds `c`.
pub open spec fn next_index(s: Seq<char>, from: int, c: char) -> Option<int>
    decreases s.len() - from,
{
    if from < 0 || from >= s.len() {
        None
    } else if s[from] == c {
        Some(from)
    } else {
        next_index(s, from + 1, c)
    }
}

/// The part header that a file's content follows: `filename="…"` (in any
/// case), the rest of that line, and a blank line (`\n` or `\r\n` each).
/// Where the header starting at `p` ends, if one starts there.
pub open spec fn file_header_end(s: Seq<char>, p: int) -> Option<int> {
    if !holds_ci(s, p, "filename=\""@) {
        None
    } else {
        match next_index(s, p + 10, '"') {
            None => None,
            Some(q) => match next_index(s, q + 1, '\n') {
                None => None,
                Some(k) => if k + 1 < s.len() && s[k + 1] == '\n' {
                    Some(k + 2)
                } else if k + 2 < s.len() && s[k + 1] == '\r' && s[k + 2] == '\n' {
                    Some(k + 3)
                } else {
                    None
                },
            },
        }
    }
}

/// A part boundary (`\n--` or `\r\n--`) or the end of the text stands at `e`.
pub open spec fn boundary_at(s: Seq<char>, e: int) -> bool {
    ||| e == s.len()
    ||| (e + 2 < s.len() && s[e] == '\n' && s[e + 1] == '-' && s[e + 2] == '-')
    ||| (e + 3 < s.len() && s[e] == '\r' && s[e + 1] == '\n' && s[e + 2] == '-' && s[e + 3] == '-')
}

/// The first boundary at or after `from`.
pub open spec fn next_boundary(s: Seq<char>, from: int) -> int
    decreases s.len() - from,
{
    if from >= s.len() || boundary_at(s, from) {
        if from >= s.len() { s.len() as int } else { from }
    } else {
        next_boundary(s, from + 1)
    }
}

/// The body from `i` on with each file's content after its first
/// [`KEPT_FILE_CHARS`] characters replaced by [`file_cut_marker`], up to the
/// next part boundary. A file needs at least one character beyond those
/// kept; files are found from the left, and the search goes on after each
/// cut file.
pub open spec fn cut_files_from(s: Seq<char>, i: int) -> Seq<char>
    decreases s.len() - i,
{
    if i < 0 || i >= s.len() {
        Seq::empty()
    } else {
        match file_header_end(s, i) {
            Some(h) if h + KEPT_FILE_CHARS < s.len() => {
                let e = next_boundary(s, h + KEPT_FILE_CHARS + 1);
                proof {
                    lemma_header_end_bounds(s, i);
                    lemma_next_boundary_bounds(s, h + KEPT_FILE_CHARS + 1);
                }
                s.subrange(i, h + KEPT_FILE_CHARS) + file_cut_marker() + cut_files_from(s, e)
            },
            _ => seq![s[i]] + cut_files_from(s, i + 1),
        }
    }
}

/// The body with each file's content cut (see [`cut_files_from`]).
pub open spec fn cut_files(s: Seq<char>) -> Seq<char> {
    cut_files_from(s, 0)
}

/// The next boundary lies between `from` and the end.
pub proof fn lemma_next_boundary_bounds(s: Seq<char>, from: int)
    requires
        0 <= from,
    ensures
        from <= next_boundary(s, from) <= s.len() || (from > s.len() && next_boundary(s, from) == s.len()),
        next_boundary(s, from) <= s.len(),
    decreases s.len() - from,
{
    if !(from >= s.len() || boundary_at(s, from)) {
        lemma_next_boundary_bounds(s, from + 1);
    }
}

/// The code of a character's ASCII lower case.
fn lower_code_of(c: char) -> (r: u32)
    ensures
        r == lower_code(c),
{
    let v = c as u32;
    if 0x41 <= v && v <= 0x5a {
        v + 32
    } else {
        v
    }
}

/// Whether `s` holds `lit` (lower case) at `p`, ignoring ASCII case.
fn holds_ci_at(s: &Vec<char>, p: usize, lit: &Vec<char>) -> (b: bool)
    ensures
        b == holds_ci(s@, p as int, lit@),
{
    if p > s.len() || lit.len() > s.len() - p {
        return false;
    }
    let n = s.len();
    let mut k: usize = 0;
    while k < lit.len()
        invariant
            n == s@.len(),
            p + lit@.len() <= s@.len(),
            p <= s@.len(),
            k <= lit@.len(),
            forall|m: int| 0 <= m < k ==> #[trigger] lower_code(s@[p + m]) == lit@[m] as u32,
        decreases lit.len() - k,
    {
        if lower_code_of(s[p + k]) != lit[k] as u32 {
            return false;
        }
        k = k + 1;
    }
    true
}

/// The first index at or after `from` that holds `c`.
fn find_from(s: &Vec<char>, from: usize, c: char) -> (r: Option<usize>)
    ensures
        match next_index(s@, from as int, c) {
            Some(k) => r == Some(k as usize),
            None => r is None,
        },
{
    let mut i = from;
    while i < s.len()
        invariant
            from <= i,
            next_index(s@, from as int, c) == next_index(s@, i as int, c),
        decreases s.len() - i,
    {
        if s[i] == c {
            return Some(i);
        }
        i = i + 1;
    }
    None
}

/// Where a file's part header starting at `p` ends, if one starts there.
fn header_end(s: &Vec<char>, p: usize, lit: &Vec<char>) -> (r: Option<usize>)
    requires
        lit@ == "filename=\""@,
    ensures
        match file_header_end(s@, p as int) {
            Some(h) => r == Some(h as usize),
            None => r is None,
        },
{
    proof {
        reveal_strlit("filename=\"");
    }
    assert(lit@.len() == 10);
    let n = s.len();
    if !holds_ci_at(s, p, lit) {
        return None;
    }
    proof {
        lemma_next_index_bounds(s@, p + 10, '"');
    }
    let q = match find_from(s, p + 10, '"') {
        Some(q) => q,
        None => return None,
    };
    proof {
        lemma_next_index_bounds(s@, q + 1, '\n');
    }
    let k = match find_from(s, q + 1, '\n') {
        Some(k) => k,
        None => return None,
    };
    if s.len() - k > 1 && s[k + 1] == '\n' {
        Some(k + 2)
    } else if s.len() - k > 2 && s[k + 1] == '\r' && s[k + 2] == '\n' {
        Some(k + 3)
    } else {
        None
    }
}

/// The first boundary at or after `from`.
fn boundary_from(s: &Vec<char>, from: usize) -> (e: usize)
    ensures
        e == next_boundary(s@, from as int),
{
    let n = s.len();
    let mut e = from;
    while e < n
        invariant
            from <= e,
            n == s@.len(),
            next_boundary(s@, from as int) == next_boundary(s@, e as int),
        decreases n - e,
    {
        let here = (n - e > 2 && s[e] == '\n' && s[e + 1] == '-' && s[e + 2] == '-')
            || (n - e > 3 && s[e] == '\r' && s[e + 1] == '\n' && s[e + 2] == '-' && s[e + 3] == '-');
        if here {
            return e;
        }
        e = e + 1;
    }
    n
}

/// Cuts each file's content in a multipart body (see [`cut_files`]).
pub fn cut_multipart_files(body: &str) -> (r: String)
    ensures
        r@ == cut_files(body@),
{
    let s = chars_of(body);
    let lit = chars_of("filename=\"");
    let marker = chars_of("\n...<Binary File Truncated>\n");
    let n = s.len();
    let mut out: Vec<char> = Vec::new();
    let mut i: usize = 0;
    while i < n
        invariant
            n == s@.len(),
            lit@ == "filename=\""@,
            marker@ == file_cut_marker(),
            cut_files_from(s@, 0) == out@ + cut_files_from(s@, i as int),
        decreases n - i,
    {
        let ghost before = out@;
        match header_end(&s, i, &lit) {
            Some(h) => {
                proof {
                    lemma_header_end_bounds(s@, i as int);
                }
                if h < n && KEPT_FILE_CHARS < n - h {
                    let e = boundary_from(&s, h + KEPT_FILE_CHARS + 1);
                    proof {
                        lemma_next_boundary_bounds(s@, h + KEPT_FILE_CHARS + 1);
                    }
                    let mut k = i;
                    while k < h + KEPT_FILE_CHARS
                        invariant
                            i <= k <= h + KEPT_FILE_CHARS,
                            h + KEPT_FILE_CHARS < n,
                            n == s@.len(),
                            out@ == before + s@.subrange(i as int, k as int),
                        decreases h + KEPT_FILE_CHARS - k,
                    {
                        out.push(s[k]);
                        assert(out@ =~= before + s@.subrange(i as int, k + 1));
                        k = k + 1;
                    }
                    append_chars(&mut out, marker.as_slice());
                    assert(out@ =~= before + (s@.subrange(i as int, h + KEPT_FILE_CHARS) + file_cut_marker()));
                    i = e;
                } else {
                    out.push(s[i]);
                    assert(out@ =~= before + seq![s@[i as int]]);
                    i = i + 1;
                }
            },
            None => {
                out.push(s[i]);
                assert(out@ =~= before + seq![s@[i as int]]);
                i = i + 1;
            },
        }
    }
    assert(cut_files_from(s@, i as int) =~= Seq::<char>::empty());
    string_from_chars(out.as_slice())
}

} // verus!
