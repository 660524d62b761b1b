//! Lines of the session transcript: colour and style escapes removed, the
//! time of capture in front.

use vstd::prelude::*;

verus! {

/// Pattern of a complete SGR (colour/style) escape sequence: `ESC [ <digits and ;> m`.
pub const SGR_PATTERN: &'static str = "\x1b\\[[0-9;]*m";

/// Pattern of a left-over SGR parameter fragment: `; <digits> m`.
pub const FRAGMENT_PATTERN: &'static str = ";[0-9]*m";

/// Separator between the timestamp and the text of a transcript line.
pub const TIMESTAMP_SEPARATOR: &'static str = " - ";

pub open spec fn is_digit(c: char) -> bool {
    '0' <= c && c <= '9'
}

/// Characters that may stand between `ESC [` and `m` (only digits for a
/// fragment).
pub open spec fn is_param_char(c: char, sgr: bool) -> bool {
    is_digit(c) || (sgr && c == ';')
}

/// Index of the first character at or after `i` that is not a parameter
/// character.
pub open spec fn param_run_end(s: Seq<char>, i: int, sgr: bool) -> int
    decreases s.len() - i,
{
    if i < 0 || i >= s.len() || !is_param_char(s[i], sgr) {
        i
    } else {
        param_run_end(s, i + 1, sgr)
    }
}

/// Where a match that starts at `i` ends (exclusive), if one starts there.
/// For `sgr` the match is `ESC [ [0-9;]* m`, else `; [0-9]* m`. As `m` is no
/// parameter character, the greedy run is the only candidate.
pub open spec fn match_end(s: Seq<char>, i: int, sgr: bool) -> Option<int> {
    let body = if sgr { i + 2 } else { i + 1 };
    let opens = if sgr {
        i + 1 < s.len() && s[i] == '\x1b' && s[i + 1] == '['
    } else {
        i < s.len() && s[i] == ';'
    };
    let j = param_run_end(s, body, sgr);
    if 0 <= i && opens && j < s.len() && s[j] == 'm' {
        Some(j + 1)
    } else {
        None
    }
}

/// `s` from index `i` on, with every leftmost non-overlapping match removed.
pub open spec fn remove_matches_from(s: Seq<char>, i: int, sgr: bool) -> Seq<char>
    decreases s.len() - i,
{
    if i < 0 || i >= s.len() {
        Seq::empty()
    } else {
        match match_end(s, i, sgr) {
            Some(e) => if e > i {
                remove_matches_from(s, e, sgr)
            } else {
                Seq::empty()
            },
            None => seq![s[i]] + remove_matches_from(s, i + 1, sgr),
        }
    }
}

/// One pass: every SGR escape sequence removed, then every left-over fragment.
pub open spec fn strip_pass(s: Seq<char>) -> Seq<char> {
    remove_matches_from(remove_matches_from(s, 0, true), 0, false)
}

/// No match of the pattern (SGR for `sgr`, fragment otherwise) starts
/// anywhere in `s`.
pub open spec fn no_match(s: Seq<char>, sgr: bool) -> bool {
    forall|k: int| 0 <= k < s.len() ==> #[trigger] match_end(s, k, sgr) is None
}

/// `s` with passes repeated until one changes nothing: a removal can bring
/// the two ends of a new sequence together, which the next pass removes.
pub open spec fn strip_ansi(s: Seq<char>) -> Seq<char>
    decreases s.len(),
    via strip_ansi_decreases
{
    let t = strip_pass(s);
    if t == s {
        s
    } else {
        strip_ansi(t)
    }
}

#[via_fn]
proof fn strip_ansi_decreases(s: Seq<char>) {
    lemma_pass_shrinks(s);
}

proof fn lemma_run_end_ge(s: Seq<char>, i: int, sgr: bool)
    ensures
        param_run_end(s, i, sgr) >= i,
    decreases s.len() - i,
{
    if !(i < 0 || i >= s.len() || !is_param_char(s[i], sgr)) {
        lemma_run_end_ge(s, i + 1, sgr);
    }
}

/// Removing matches never lengthens the text, shortens it whenever it
/// changes it, and changes it whenever a match starts somewhere.
proof fn lemma_remove_shrinks(s: Seq<char>, i: int, sgr: bool)
    requires
        0 <= i <= s.len(),
    ensures
        remove_matches_from(s, i, sgr).len() <= s.len() - i,
        remove_matches_from(s, i, sgr) == s.subrange(i, s.len() as int) || remove_matches_from(
            s,
            i,
            sgr,
        ).len() < s.len() - i,
        remove_matches_from(s, i, sgr) == s.subrange(i, s.len() as int) ==> forall|k: int|
            i <= k < s.len() ==> #[trigger] match_end(s, k, sgr) is None,
    decreases s.len() - i,
{
    let r = remove_matches_from(s, i, sgr);
    if i == s.len() {
        assert(s.subrange(i, s.len() as int) =~= Seq::<char>::empty());
    } else {
        match match_end(s, i, sgr) {
            Some(e) => {
                lemma_run_end_ge(s, if sgr { i + 2 } else { i + 1 }, sgr);
                lemma_remove_shrinks(s, e, sgr);
            },
            None => {
                lemma_remove_shrinks(s, i + 1, sgr);
                let rest = remove_matches_from(s, i + 1, sgr);
                assert(r == seq![s[i]] + rest);
                if rest == s.subrange(i + 1, s.len() as int) {
                    assert(r =~= s.subrange(i, s.len() as int));
                }
                if r == s.subrange(i, s.len() as int) {
                    assert(rest =~= r.drop_first());
                    assert(s.subrange(i + 1, s.len() as int) =~= s.subrange(
                        i,
                        s.len() as int,
                    ).drop_first());
                }
            },
        }
    }
}

/// A pass shortens the text whenever it changes it; a pass that changes
/// nothing meets no match of either pattern.
proof fn lemma_pass_shrinks(s: Seq<char>)
    ensures
        strip_pass(s).len() <= s.len(),
        strip_pass(s) != s ==> strip_pass(s).len() < s.len(),
        strip_pass(s) == s ==> no_match(s, true) && no_match(s, false),
{
    let a = remove_matches_from(s, 0, true);
    lemma_remove_shrinks(s, 0, true);
    lemma_remove_shrinks(a, 0, false);
    assert(s.subrange(0, s.len() as int) =~= s);
    assert(a.subrange(0, a.len() as int) =~= a);
}

/// The stripped text is left as it is by one more pass.
proof fn lemma_strip_fixed(s: Seq<char>)
    ensures
        strip_pass(strip_ansi(s)) == strip_ansi(s),
    decreases s.len(),
{
    let t = strip_pass(s);
    if t != s {
        lemma_pass_shrinks(s);
        lemma_strip_fixed(t);
    }
}

/// Stripping twice gives what stripping once gave.
pub proof fn lemma_strip_idempotent(s: Seq<char>)
    ensures
        strip_ansi(strip_ansi(s)) == strip_ansi(s),
{
    lemma_strip_fixed(s);
}

/// No colour sequence, and no fragment of one, is left in stripped text.
pub proof fn lemma_stripped_text_is_clean(s: Seq<char>)
    ensures
        no_match(strip_ansi(s), true),
        no_match(strip_ansi(s), false),
{
    lemma_strip_fixed(s);
    lemma_pass_shrinks(strip_ansi(s));
}

/// Non-empty, and without spaces.
pub open spec fn timestamp_text(ts: Seq<char>) -> bool {
    ts.len() > 0 && forall|k: int| 0 <= k < ts.len() ==> ts[k] != ' '
}

/// Every character of `s` is a decimal digit.
pub open spec fn all_digits(s: Seq<char>) -> bool {
    forall|k: int| 0 <= k < s.len() ==> is_digit(s[k])
}

/// `n` digits stand in `s` from index `from` on.
pub open spec fn digits_at(s: Seq<char>, from: int, n: int) -> bool {
    0 <= from && from + n <= s.len() && forall|k: int| from <= k < from + n ==> is_digit(s[k])
}

/// The year: four digits, or a sign and at least four digits.
pub open spec fn rfc3339_year(y: Seq<char>) -> bool {
    (y.len() == 4 && all_digits(y)) || (y.len() >= 5 && (y[0] == '+' || y[0] == '-') && all_digits(
        y.drop_first(),
    ))
}

/// Month, day, hour, minute and second: `-MM-DDTHH:MM:SS`.
pub open spec fn rfc3339_clock(c: Seq<char>) -> bool {
    &&& c.len() == 15
    &&& c[0] == '-' && c[3] == '-' && c[6] == 'T' && c[9] == ':' && c[12] == ':'
    &&& digits_at(c, 1, 2) && digits_at(c, 4, 2) && digits_at(c, 7, 2)
    &&& digits_at(c, 10, 2) && digits_at(c, 13, 2)
}

/// The fraction of a second: none, or a point and three, six or nine digits.
pub open spec fn rfc3339_fraction(f: Seq<char>) -> bool {
    f.len() == 0 || ((f.len() == 4 || f.len() == 7 || f.len() == 10) && f[0] == '.' && all_digits(
        f.drop_first(),
    ))
}

/// The offset from UTC: `+HH:MM` or `-HH:MM`.
pub open spec fn rfc3339_offset(o: Seq<char>) -> bool {
    &&& o.len() == 6
    &&& (o[0] == '+' || o[0] == '-') && o[3] == ':'
    &&& digits_at(o, 1, 2) && digits_at(o, 4, 2)
}

/// An RFC 3339 date-time as chrono writes `%+`, e.g.
/// `2001-07-08T00:34:60.026490+09:30`.
pub open spec fn rfc3339_text(ts: Seq<char>) -> bool {
    exists|y: Seq<char>, c: Seq<char>, f: Seq<char>, o: Seq<char>|
        #![trigger y + c + f + o]
        ts == y + c + f + o && rfc3339_year(y) && rfc3339_clock(c) && rfc3339_fraction(f)
            && rfc3339_offset(o)
}

/// An RFC 3339 date-time is non-empty and holds no space.
pub proof fn lemma_rfc3339_has_no_space(ts: Seq<char>)
    requires
        rfc3339_text(ts),
    ensures
        timestamp_text(ts),
{
    let (y, c, f, o) = choose|y: Seq<char>, c: Seq<char>, f: Seq<char>, o: Seq<char>|
        #![trigger y + c + f + o]
        ts == y + c + f + o && rfc3339_year(y) && rfc3339_clock(c) && rfc3339_fraction(f)
            && rfc3339_offset(o);
    assert forall|k: int| 0 <= k < ts.len() implies ts[k] != ' ' by {
        let a = y.len() as int;
        let b = a + 15;
        let d = b + f.len();
        if k < a {
            assert(ts[k] == y[k]);
            if k > 0 {
                assert(y.drop_first()[k - 1] == y[k]);
            }
        } else if k < b {
            assert(ts[k] == c[k - a]);
        } else if k < d {
            assert(ts[k] == f[k - b]);
            if k > b {
                assert(f.drop_first()[k - b - 1] == f[k - b]);
            }
        } else {
            assert(ts[k] == o[k - d]);
        }
    }
}

/// A transcript line: timestamp, separator, stripped text.
pub open spec fn timestamped_line(timestamp: Seq<char>, line: Seq<char>) -> Seq<char> {
    timestamp + TIMESTAMP_SEPARATOR@ + strip_ansi(line)
}

/// Relies on regex::Regex::new (both patterns above are valid) and
/// regex::Regex::replace_all with an empty replacement: every leftmost-first,
/// non-overlapping match of the pattern is removed. Neither pattern can match
/// the empty string, and as `m` is no parameter character the greedy run is
/// the only way a match can go on from where it starts.
#[verifier::external_body]
fn remove_all_matches(pattern: &str, text: &str) -> (r: Option<String>)
    ensures
        pattern@ == SGR_PATTERN@ ==> r.is_some() && r.unwrap()@ == remove_matches_from(
            text@,
            0,
            true,
        ),
        pattern@ == FRAGMENT_PATTERN@ ==> r.is_some() && r.unwrap()@ == remove_matches_from(
            text@,
            0,
            false,
        ),
{
    regex::Regex::new(pattern).ok().map(|re| re.replace_all(text, "").into_owned())
}

/// Relies on chrono::Local::now formatted with `%+`: the local time of the
/// call written by chrono's RFC 3339 writer, with the fraction of a second
/// chosen by its non-zero digits and the offset as `+HH:MM` or `-HH:MM`.
#[verifier::external_body]
fn local_timestamp() -> (r: String)
    ensures
        rfc3339_text(r@),
{
    chrono::Local::now().format("%+").to_string()
}

/// Removes colour and style escape sequences, and any fragments of them,
/// until none is left.
pub fn strip_ansi_formatting(line: &str) -> (r: String)
    ensures
        r@ == strip_ansi(line@),
        no_match(r@, true),
        no_match(r@, false),
{
    let mut cur = String::from_str(line);
    loop
        invariant
            strip_ansi(cur@) == strip_ansi(line@),
        decreases cur@.len(),
    {
        let first = match remove_all_matches(SGR_PATTERN, cur.as_str()) {
            Some(s) => s,
            None => String::new(),
        };
        let next = match remove_all_matches(FRAGMENT_PATTERN, first.as_str()) {
            Some(s) => s,
            None => String::new(),
        };
        proof {
            lemma_pass_shrinks(cur@);
        }
        if next == cur {
            return cur;
        }
        cur = next;
    }
}

/// Builds a transcript line from a timestamp and a raw chunk of text.
pub fn apply_timestamp(timestamp: &str, line: &str) -> (r: String)
    ensures
        r@ == timestamped_line(timestamp@, line@),
{
    let stripped = strip_ansi_formatting(line);
    let mut out = String::from_str(timestamp);
    out.append(TIMESTAMP_SEPARATOR);
    out.append(stripped.as_str());
    out
}

/// Strips a raw chunk and puts the current local time in front of it.
pub fn strip_ansi_formatting_and_apply_timestamp(line_str: &str) -> (r: String)
    ensures
        exists|ts: Seq<char>|
            rfc3339_text(ts) && timestamp_text(ts) && r@ == #[trigger] timestamped_line(ts, line_str@),
{
    let now = local_timestamp();
    proof {
        lemma_rfc3339_has_no_space(now@);
    }
    let r = apply_timestamp(now.as_str(), line_str);
    assert(r@ == timestamped_line(now@, line_str@));
    r
}

} // verus!

