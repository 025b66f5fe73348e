//! The result codec: the wire encoding of an execution outcome, and the
//! parser that reads a percentage out of a textual coverage report.

use vstd::prelude::*;

use crate::numbers::{all_digits, dec_value};
use crate::outcome::Outcome;

verus! {

/// The wire text of an outcome: `"0\n"` followed by standard output for a
/// clean exit, the literal `"1\nTimeout"` for a deadline overrun, and
/// `"1\n"` followed by standard error (empty when the process never
/// spawned) for every other terminal state.
pub open spec fn spec_encode(o: Outcome) -> Seq<char> {
    match o {
        Outcome::Completed { code, stdout, stderr } => {
            if code == Some(0i32) {
                "0\n"@ + stdout@
            } else {
                "1\n"@ + stderr@
            }
        },
        Outcome::TimedOut => "1\nTimeout"@,
        Outcome::SpawnFailed => "1\n"@,
    }
}

/// Encodes an outcome as the wire text described by [`spec_encode`].
pub fn encode_outcome(o: &Outcome) -> (r: String)
    ensures
        r@ == spec_encode(*o),
{
    match o {
        Outcome::Completed { code, stdout, stderr } => {
            let clean = match code {
                Some(c) => *c == 0,
                None => false,
            };
            if clean {
                let mut s = "0\n".to_owned();
                s.append(stdout.as_str());
                s
            } else {
                let mut s = "1\n".to_owned();
                s.append(stderr.as_str());
                s
            }
        },
        Outcome::TimedOut => "1\nTimeout".to_owned(),
        Outcome::SpawnFailed => "1\n".to_owned(),
    }
}

/// Horizontal whitespace inside a report row.
pub open spec fn is_space(c: char) -> bool {
    c == ' ' || c == '\t' || c == '\r'
}

/// The index of the first newline in `s`, or `s.len()` if there is none.
pub open spec fn find_newline(s: Seq<char>) -> nat
    decreases s.len(),
{
    if s.len() == 0 || s[0] == '\n' {
        0
    } else {
        1 + find_newline(s.drop_first())
    }
}

/// The first newline lies within the string.
pub broadcast proof fn lemma_find_newline_le(s: Seq<char>)
    ensures
        #[trigger] find_newline(s) <= s.len(),
    decreases s.len(),
{
    if s.len() == 0 || s[0] == '\n' {
    } else {
        lemma_find_newline_le(s.drop_first());
    }
}

/// The length of the run of non-whitespace characters at the front of `s`.
pub open spec fn token_len(s: Seq<char>) -> nat
    decreases s.len(),
{
    if s.len() == 0 || is_space(s[0]) {
        0
    } else {
        1 + token_len(s.drop_first())
    }
}

/// The leading token lies within the string.
pub broadcast proof fn lemma_token_len_le(s: Seq<char>)
    ensures
        #[trigger] token_len(s) <= s.len(),
    decreases s.len(),
{
    if s.len() == 0 || is_space(s[0]) {
    } else {
        lemma_token_len_le(s.drop_first());
    }
}

/// A line with a trailing carriage return dropped, as a text-mode read
/// would present it.
pub open spec fn strip_cr(l: Seq<char>) -> Seq<char> {
    if l.len() > 0 && l.last() == '\r' {
        l.drop_last()
    } else {
        l
    }
}

/// `s` split at newlines, each line without its line break.
pub open spec fn spec_lines(s: Seq<char>) -> Seq<Seq<char>>
    decreases s.len(),
    via spec_lines_termination
{
    let k = find_newline(s);
    if k == s.len() {
        seq![strip_cr(s)]
    } else {
        seq![strip_cr(s.take(k as int))] + spec_lines(s.skip(k as int + 1))
    }
}

#[via_fn]
proof fn spec_lines_termination(s: Seq<char>) {
    lemma_find_newline_le(s);
}

/// The whitespace-separated tokens of `s`, in order, none empty.
pub open spec fn spec_tokens(s: Seq<char>) -> Seq<Seq<char>>
    decreases s.len(),
    via spec_tokens_termination
{
    if s.len() == 0 {
        seq![]
    } else if is_space(s[0]) {
        spec_tokens(s.drop_first())
    } else {
        seq![s.take(token_len(s) as int)] + spec_tokens(s.skip(token_len(s) as int))
    }
}

#[via_fn]
proof fn spec_tokens_termination(s: Seq<char>) {
    lemma_token_len_le(s);
}

/// A nonempty line made solely of dash characters: the header/body
/// separator of the coverage tool's textual report.
pub open spec fn is_dash_line(l: Seq<char>) -> bool {
    l.len() > 0 && forall|i: int| 0 <= i < l.len() ==> #[trigger] l[i] == '-'
}

/// The index of the first separator line, or `lines.len()` if there is none.
pub open spec fn first_sep(lines: Seq<Seq<char>>) -> nat
    decreases lines.len(),
{
    if lines.len() == 0 {
        0
    } else if is_dash_line(lines[0]) {
        0
    } else {
        1 + first_sep(lines.drop_first())
    }
}

/// `t` with its trailing percent signs removed.
pub open spec fn strip_pct(t: Seq<char>) -> Seq<char>
    decreases t.len(),
{
    if t.len() > 0 && t.last() == '%' {
        strip_pct(t.drop_last())
    } else {
        t
    }
}

/// The percentage read from a summary row: its fourth whitespace-separated
/// token, with trailing percent signs removed, as a decimal value in
/// [0, 100]; -1 when the row does not have that shape.
pub open spec fn spec_row_value(row: Seq<char>) -> int {
    let toks = spec_tokens(row);
    if toks.len() < 4 {
        -1int
    } else {
        let t = strip_pct(toks[3]);
        if t.len() > 0 && all_digits(t) && dec_value(t) <= 100 {
            dec_value(t) as int
        } else {
            -1int
        }
    }
}

/// Characterizes `token_len`: a run of `k` non-space characters followed
/// by the end of the string or a space has token length exactly `k`.
proof fn lemma_token_len_at(s: Seq<char>, k: int)
    requires
        0 <= k <= s.len(),
        forall|j: int| 0 <= j < k ==> !is_space(#[trigger] s[j]),
        k == s.len() || is_space(s[k]),
    ensures
        token_len(s) == k,
    decreases k,
{
    if k == 0 {
    } else {
        assert(!is_space(s[0]));
        assert forall|j: int| 0 <= j < k - 1 implies !is_space(#[trigger] s.drop_first()[j]) by {
            assert(s.drop_first()[j] == s[j + 1]);
        }
        if k < s.len() {
            assert(s.drop_first()[k - 1] == s[k]);
        }
        lemma_token_len_at(s.drop_first(), k - 1);
    }
}

/// An exec test for [`is_space`].
fn space_char(c: char) -> (r: bool)
    ensures
        r == is_space(c),
{
    c == ' ' || c == '\t' || c == '\r'
}

/// Reads the percentage out of one summary row, as [`spec_row_value`]
/// describes it.
pub fn row_value(row: &str) -> (r: i32)
    ensures
        r as int == spec_row_value(row@),
        -1 <= r <= 100,
{
    let n = row.unicode_len();
    let ghost toks = spec_tokens(row@);
    let mut i: usize = 0;
    let mut count: usize = 0;
    proof {
        assert(toks.skip(0) =~= toks);
        assert(row@.skip(0) =~= row@);
    }
    // Consume the first three tokens.
    while i < n && count < 3
        invariant
            0 <= i <= n,
            0 <= count <= 3,
            n == row@.len(),
            toks == spec_tokens(row@),
            count <= toks.len(),
            toks.skip(count as int) == spec_tokens(row@.skip(i as int)),
        decreases n - i,
    {
        if space_char(row.get_char(i)) {
            proof {
                assert(row@.skip(i as int)[0] == row@[i as int]);
                assert(row@.skip(i as int).drop_first() =~= row@.skip(i as int + 1));
            }
            i = i + 1;
        } else {
            let mut j = i + 1;
            while j < n && !space_char(row.get_char(j))
                invariant
                    i < j <= n,
                    n == row@.len(),
                    forall|t: int| i <= t < j ==> !is_space(#[trigger] row@[t]),
                decreases n - j,
            {
                j = j + 1;
            }
            proof {
                let s = row@.skip(i as int);
                assert forall|t: int| 0 <= t < j - i implies !is_space(#[trigger] s[t]) by {
                    assert(s[t] == row@[i + t]);
                }
                if j < n {
                    assert(s[j - i] == row@[j as int]);
                }
                lemma_token_len_at(s, j - i);
                assert(s.take(j - i) =~= row@.subrange(i as int, j as int));
                assert(s.skip(j - i) =~= row@.skip(j as int));
                assert(spec_tokens(s) == seq![row@.subrange(i as int, j as int)]
                    + spec_tokens(row@.skip(j as int)));
                assert(toks.skip(count as int).len() >= 1);
                assert(toks.skip(count as int + 1) =~= toks.skip(count as int).drop_first());
                assert(toks.skip(count as int + 1) =~= spec_tokens(row@.skip(j as int)));
            }
            count = count + 1;
            i = j;
        }
    }
    // Skip the spaces before the fourth token.
    while i < n && space_char(row.get_char(i))
        invariant
            0 <= i <= n,
            n == row@.len(),
            toks == spec_tokens(row@),
            count <= toks.len(),
            toks.skip(count as int) == spec_tokens(row@.skip(i as int)),
        decreases n - i,
    {
        proof {
            assert(row@.skip(i as int)[0] == row@[i as int]);
            assert(row@.skip(i as int).drop_first() =~= row@.skip(i as int + 1));
        }
        i = i + 1;
    }
    if i >= n || count < 3 {
        proof {
            assert(row@.skip(i as int).len() == 0);
            assert(spec_tokens(row@.skip(i as int)) =~= Seq::<Seq<char>>::empty());
            assert(toks.skip(count as int).len() == 0);
            assert(toks.len() == count);
            assert(toks.len() < 4);
        }
        return -1;
    }
    // The fourth token runs from `i` to the next space.
    let start = i;
    let mut j = i + 1;
    proof {
        assert(!is_space(row@[i as int]));
    }
    while j < n && !space_char(row.get_char(j))
        invariant
            start < j <= n,
            n == row@.len(),
            forall|t: int| start <= t < j ==> !is_space(#[trigger] row@[t]),
        decreases n - j,
    {
        j = j + 1;
    }
    proof {
        let s = row@.skip(start as int);
        assert forall|t: int| 0 <= t < j - start implies !is_space(#[trigger] s[t]) by {
            assert(s[t] == row@[start + t]);
        }
        if j < n {
            assert(s[j - start] == row@[j as int]);
        }
        lemma_token_len_at(s, j - start);
        assert(s.take(j - start) =~= row@.subrange(start as int, j as int));
        assert(spec_tokens(s) == seq![row@.subrange(start as int, j as int)]
            + spec_tokens(s.skip(j - start)));
        assert(toks.skip(3)[0] == row@.subrange(start as int, j as int));
        assert(toks.len() >= 4);
        assert(toks[3] == row@.subrange(start as int, j as int));
    }
    // Strip trailing percent signs.
    let mut e = j;
    while e > start && row.get_char(e - 1) == '%'
        invariant
            start <= e <= j <= n,
            n == row@.len(),
            strip_pct(row@.subrange(start as int, j as int)) == strip_pct(
                row@.subrange(start as int, e as int),
            ),
        decreases e,
    {
        proof {
            let u = row@.subrange(start as int, e as int);
            assert(u.last() == row@[e - 1]);
            assert(u.drop_last() =~= row@.subrange(start as int, e - 1));
        }
        e = e - 1;
    }
    proof {
        let u = row@.subrange(start as int, e as int);
        if e > start {
            assert(u.last() == row@[e - 1]);
        }
        assert(strip_pct(u) == u);
        assert(strip_pct(toks[3]) == row@.subrange(start as int, e as int));
    }
    let t = row.substring_char(start, e);
    match crate::numbers::parse_u64_digits(t) {
        Some(v) => {
            if v <= 100 {
                proof {
                    assert(spec_row_value(row@) == dec_value(t@) as int);
                }
                v as i32
            } else {
                -1
            }
        },
        None => -1,
    }
}

/// The percentage announced by a textual coverage report: the line right
/// after the first line made solely of dashes is the summary row and
/// carries the percentage; -1 when the report has no such structure.
pub open spec fn spec_coverage(report: Seq<char>) -> int {
    let ls = spec_lines(report);
    let k = first_sep(ls) as int;
    if k + 1 < ls.len() {
        spec_row_value(ls[k + 1])
    } else {
        -1int
    }
}

/// One pass over the report text: `after_sep` records whether the line
/// before the current position was the first separator line.
pub open spec fn spec_scan(s: Seq<char>, after_sep: bool) -> int
    decreases s.len(),
    via spec_scan_termination
{
    let k = find_newline(s) as int;
    let line = strip_cr(s.take(k));
    if after_sep {
        spec_row_value(line)
    } else if k == s.len() {
        -1int
    } else {
        spec_scan(s.skip(k + 1), is_dash_line(line))
    }
}

#[via_fn]
proof fn spec_scan_termination(s: Seq<char>, after_sep: bool) {
    lemma_find_newline_le(s);
}

/// Characterizes `find_newline`: `k` newline-free characters followed by
/// the end of the string or a newline.
proof fn lemma_find_newline_at(s: Seq<char>, k: int)
    requires
        0 <= k <= s.len(),
        forall|j: int| 0 <= j < k ==> #[trigger] s[j] != '\n',
        k == s.len() || s[k] == '\n',
    ensures
        find_newline(s) == k,
    decreases k,
{
    if k == 0 {
    } else {
        assert(s[0] != '\n');
        assert forall|j: int| 0 <= j < k - 1 implies #[trigger] s.drop_first()[j] != '\n' by {
            assert(s.drop_first()[j] == s[j + 1]);
        }
        if k < s.len() {
            assert(s.drop_first()[k - 1] == s[k]);
        }
        lemma_find_newline_at(s.drop_first(), k - 1);
    }
}

/// A split never yields an empty sequence of lines.
proof fn lemma_lines_nonempty(s: Seq<char>)
    ensures
        spec_lines(s).len() >= 1,
{
    lemma_find_newline_le(s);
}

/// Scanning from the first line with no separator seen yet computes
/// exactly the percentage that [`spec_coverage`] describes.
proof fn lemma_scan_is_coverage(s: Seq<char>)
    ensures
        spec_scan(s, false) == spec_coverage(s),
    decreases s.len(),
{
    lemma_find_newline_le(s);
    let k = find_newline(s) as int;
    let line = strip_cr(s.take(k));
    let ls = spec_lines(s);
    if k == s.len() {
        assert(s.take(k) =~= s);
        assert(ls == seq![line]);
        if is_dash_line(line) {
            assert(first_sep(ls) == 0);
        } else {
            assert(ls.drop_first() =~= Seq::<Seq<char>>::empty());
            reveal_with_fuel(first_sep, 2);
            assert(first_sep(ls) == 1);
        }
    } else {
        let rest = s.skip(k + 1);
        lemma_find_newline_le(rest);
        lemma_lines_nonempty(rest);
        let ls2 = spec_lines(rest);
        assert(ls == seq![line] + ls2);
        assert(ls[0] == line);
        if is_dash_line(line) {
            assert(first_sep(ls) == 0);
            assert(ls[1] == ls2[0]);
            // Scanning the rest with the separator seen yields the value of
            // its first line.
            let k2 = find_newline(rest) as int;
            if k2 == rest.len() {
                assert(rest.take(k2) =~= rest);
                assert(ls2[0] == strip_cr(rest));
            } else {
                assert(ls2[0] == strip_cr(rest.take(k2)));
            }
            assert(spec_scan(rest, true) == spec_row_value(ls2[0]));
        } else {
            assert(ls.drop_first() =~= ls2);
            assert(first_sep(ls) == 1 + first_sep(ls2));
            lemma_scan_is_coverage(rest);
            let k2 = first_sep(ls2) as int;
            if k2 + 1 < ls2.len() {
                assert(ls[k2 + 2] == ls2[k2 + 1]);
            }
        }
    }
}

/// Parses a textual coverage report into the percentage it announces, or
/// -1 when the report does not carry one, as [`spec_coverage`] describes.
pub fn parse_coverage_report(report: &str) -> (r: i32)
    ensures
        r as int == spec_coverage(report@),
        -1 <= r <= 100,
{
    let n = report.unicode_len();
    let mut pos: usize = 0;
    let mut found_sep = false;
    proof {
        lemma_scan_is_coverage(report@);
        assert(report@.skip(0) =~= report@);
    }
    loop
        invariant
            0 <= pos <= n,
            n == report@.len(),
            spec_scan(report@.skip(pos as int), found_sep) == spec_coverage(report@),
        decreases n - pos,
    {
        let ghost s = report@.skip(pos as int);
        // Find the end of the current line.
        let mut k = pos;
        while k < n && report.get_char(k) != '\n'
            invariant
                pos <= k <= n,
                n == report@.len(),
                forall|t: int| pos <= t < k ==> #[trigger] report@[t] != '\n',
            decreases n - k,
        {
            k = k + 1;
        }
        proof {
            assert forall|t: int| 0 <= t < k - pos implies #[trigger] s[t] != '\n' by {
                assert(s[t] == report@[pos + t]);
            }
            if k < n {
                assert(s[k - pos] == report@[k as int]);
            }
            lemma_find_newline_at(s, k - pos);
        }
        // Drop a trailing carriage return from the line.
        let mut e = k;
        if k > pos && report.get_char(k - 1) == '\r' {
            e = k - 1;
        }
        proof {
            let raw = s.take(k - pos);
            assert(raw =~= report@.subrange(pos as int, k as int));
            if k > pos && report@[k - 1] == '\r' {
                assert(raw.last() == report@[k - 1]);
                assert(raw.drop_last() =~= report@.subrange(pos as int, e as int));
            } else {
                if k > pos {
                    assert(raw.last() == report@[k - 1]);
                }
            }
            assert(strip_cr(raw) == report@.subrange(pos as int, e as int));
        }
        if found_sep {
            let row = report.substring_char(pos, e);
            let v = row_value(row);
            proof {
                assert(spec_scan(s, true) == spec_row_value(row@));
            }
            return v;
        }
        if k == n {
            proof {
                assert(spec_scan(s, false) == -1);
            }
            return -1;
        }
        // Is this line the separator?
        let mut dash = e > pos;
        let mut q = pos;
        while q < e
            invariant
                pos <= q <= e <= n,
                n == report@.len(),
                dash == (e > pos && forall|t: int| pos <= t < q ==> #[trigger] report@[t] == '-'),
            decreases e - q,
        {
            if report.get_char(q) != '-' {
                dash = false;
            }
            q = q + 1;
        }
        proof {
            let line = report@.subrange(pos as int, e as int);
            if dash {
                assert forall|t: int| 0 <= t < line.len() implies #[trigger] line[t] == '-' by {
                    assert(line[t] == report@[pos + t]);
                }
                assert(is_dash_line(line));
            } else {
                if e > pos && is_dash_line(line) {
                    let w = choose|t: int| pos <= t < q && #[trigger] report@[t] != '-';
                    assert(line[w - pos] == report@[w]);
                    assert(false);
                }
                assert(!is_dash_line(line));
            }
            assert(report@.skip(k as int + 1) =~= s.skip(k - pos + 1));
            assert(spec_scan(s, false) == spec_scan(s.skip(k - pos + 1), is_dash_line(line)));
        }
        found_sep = dash;
        pos = k + 1;
    }
}

} // verus!
