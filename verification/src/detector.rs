//! Log-tail event detection with duplicate suppression.
//!
//! Each file-modification notification hands the detector the full current
//! text of the watched log. The detector extracts the last line that is not
//! blank, suppresses the notification when that line equals the last line
//! already processed, records the new line as the processing baseline
//! otherwise, and, when the line carries the online-announcement marker,
//! extracts the announced player names.

use vstd::prelude::*;

use crate::text::find_str;
use crate::text::lemma_find_characterisation;
use crate::text::lemma_find_of_leftmost_match;
use crate::text::match_at;
use crate::text::spec_find;

verus! {

/// A whitespace character, by the Unicode `White_Space` property (the
/// characters that `str::trim` removes).
pub open spec fn is_space_char(c: char) -> bool {
    let u = c as int;
    u == 0x20 || (0x09 <= u && u <= 0x0d) || u == 0x85 || u == 0xa0 || u == 0x1680 || (0x2000
        <= u && u <= 0x200a) || u == 0x2028 || u == 0x2029 || u == 0x202f || u == 0x205f || u
        == 0x3000
}

/// A line is blank when every character in it is whitespace.
pub open spec fn line_blank(s: Seq<char>) -> bool {
    forall|i: int| 0 <= i < s.len() ==> is_space_char(s[i])
}

fn is_space(c: char) -> (r: bool)
    ensures
        r == is_space_char(c),
{
    let u = c as u32;
    u == 0x20 || (0x09 <= u && u <= 0x0d) || u == 0x85 || u == 0xa0 || u == 0x1680 || (0x2000
        <= u && u <= 0x200a) || u == 0x2028 || u == 0x2029 || u == 0x202f || u == 0x205f || u
        == 0x3000
}

/// A line with a trailing carriage return stripped, as line splitting
/// produces it.
pub open spec fn strip_cr(l: Seq<char>) -> Seq<char> {
    if l.len() > 0 && l[l.len() - 1] == '\r' {
        l.drop_last()
    } else {
        l
    }
}

/// The lines of `s`: split on line feeds, each line with one trailing
/// carriage return removed, a trailing line terminator producing no final
/// empty line.
pub open spec fn spec_lines(s: Seq<char>) -> Seq<Seq<char>>
    decreases s.len(),
    via spec_lines_decreases
{
    if s.len() == 0 {
        Seq::empty()
    } else {
        match spec_find(s, seq!['\n']) {
            Some(k) => seq![strip_cr(s.subrange(0, k))] + spec_lines(
                s.subrange(k + 1, s.len() as int),
            ),
            None => seq![strip_cr(s)],
        }
    }
}

#[via_fn]
proof fn spec_lines_decreases(s: Seq<char>) {
    lemma_find_characterisation(s, seq!['\n']);
}

/// The last line of `lines` that is not blank, or the empty sequence when
/// every line is blank.
pub open spec fn last_non_blank(lines: Seq<Seq<char>>) -> Seq<char>
    decreases lines.len(),
{
    if lines.len() == 0 {
        Seq::empty()
    } else if !line_blank(lines.last()) {
        lines.last()
    } else {
        last_non_blank(lines.drop_last())
    }
}

/// The last non-blank line of the watched file's content.
pub open spec fn spec_last_line(content: Seq<char>) -> Seq<char> {
    last_non_blank(spec_lines(content))
}

/// Splitting distributes over an explicit first line: when `a` holds no
/// line feed, the lines of `a + "\n" + b` are `strip_cr(a)` followed by the
/// lines of `b`.
proof fn lemma_lines_step(a: Seq<char>, b: Seq<char>)
    requires
        forall|i: int| 0 <= i < a.len() ==> a[i] != '\n',
    ensures
        spec_lines(a + seq!['\n'] + b) == seq![strip_cr(a)] + spec_lines(b),
{
    let s = a + seq!['\n'] + b;
    let pat = seq!['\n'];
    assert(s.len() > 0);
    assert(match_at(s, pat, a.len() as int)) by {
        assert(s.subrange(a.len() as int, a.len() as int + 1) =~= pat);
    }
    assert forall|j: int| 0 <= j < a.len() implies !match_at(s, pat, j) by {
        if s.subrange(j, j + 1) == pat {
            assert(s.subrange(j, j + 1)[0] == s[j]);
            assert(s[j] == a[j]);
        }
    }
    lemma_find_of_leftmost_match(s, pat, a.len() as int);
    assert(s.subrange(0, a.len() as int) =~= a);
    assert(s.subrange(a.len() as int + 1, s.len() as int) =~= b);
}

/// Strips one trailing carriage return from `l`.
fn strip_cr_exec(l: &str) -> (r: String)
    ensures
        r@ == strip_cr(l@),
{
    let n = l.unicode_len();
    if n > 0 && l.get_char(n - 1) == '\r' {
        let sub = l.substring_char(0, n - 1);
        assert(sub@ =~= l@.drop_last());
        sub.to_owned()
    } else {
        l.to_owned()
    }
}

/// Splits `content` into its lines.
fn split_lines(content: &str) -> (lines: Vec<String>)
    ensures
        lines.deep_view() == spec_lines(content@),
{
    let n = content.unicode_len();
    let mut lines: Vec<String> = Vec::new();
    let mut start: usize = 0;
    let mut i: usize = 0;
    proof {
        assert(content@.subrange(0, n as int) =~= content@);
        assert(lines.deep_view() =~= Seq::<Seq<char>>::empty());
        assert(lines.deep_view() + spec_lines(content@) =~= spec_lines(content@));
    }
    while i < n
        invariant
            0 <= start <= i <= n,
            n == content@.len(),
            forall|k: int| start <= k < i ==> content@[k] != '\n',
            spec_lines(content@) == lines.deep_view() + spec_lines(
                content@.subrange(start as int, n as int),
            ),
        decreases n - i,
    {
        let c = content.get_char(i);
        if c == '\n' {
            let ghost a = content@.subrange(start as int, i as int);
            let ghost rest_after = content@.subrange(i + 1, n as int);
            let ghost old_lines = lines.deep_view();
            let line = content.substring_char(start, i);
            let done = strip_cr_exec(line);
            lines.push(done);
            proof {
                assert(content@.subrange(start as int, n as int) =~= a + seq!['\n'] + rest_after);
                lemma_lines_step(a, rest_after);
                assert(lines.deep_view() =~= old_lines + seq![strip_cr(a)]);
                assert((old_lines + seq![strip_cr(a)]) + spec_lines(rest_after) =~= old_lines + (
                seq![strip_cr(a)] + spec_lines(rest_after)));
            }
            start = i + 1;
        }
        i = i + 1;
    }
    let ghost tail = content@.subrange(start as int, n as int);
    if start < n {
        let ghost old_lines = lines.deep_view();
        let line = content.substring_char(start, n);
        let done = strip_cr_exec(line);
        lines.push(done);
        proof {
            assert(spec_find(tail, seq!['\n']) is None) by {
                lemma_find_characterisation(tail, seq!['\n']);
                if spec_find(tail, seq!['\n']) is Some {
                    let k = spec_find(tail, seq!['\n'])->0;
                    assert(tail.subrange(k, k + 1)[0] == tail[k]);
                }
            }
            assert(spec_lines(tail) =~= seq![strip_cr(tail)]);
            assert(lines.deep_view() =~= old_lines + seq![strip_cr(tail)]);
        }
    } else {
        assert(tail =~= Seq::<char>::empty());
        assert(spec_lines(tail) =~= Seq::<Seq<char>>::empty());
        assert(lines.deep_view() + spec_lines(tail) =~= lines.deep_view());
    }
    lines
}

fn line_blank_exec(l: &str) -> (r: bool)
    ensures
        r == line_blank(l@),
{
    let n = l.unicode_len();
    let mut i: usize = 0;
    while i < n
        invariant
            0 <= i <= n,
            n == l@.len(),
            forall|k: int| 0 <= k < i ==> is_space_char(l@[k]),
        decreases n - i,
    {
        if !is_space(l.get_char(i)) {
            return false;
        }
        i = i + 1;
    }
    true
}

/// Extracts the last non-blank line of the watched file's content, the
/// empty string when every line is blank.
pub fn last_non_blank_line(content: &str) -> (r: String)
    ensures
        r@ == spec_last_line(content@),
{
    let lines = split_lines(content);
    let mut k = lines.len();
    proof {
        assert(lines.deep_view().take(k as int) =~= lines.deep_view());
    }
    while k > 0
        invariant
            0 <= k <= lines@.len(),
            lines.deep_view() == spec_lines(content@),
            last_non_blank(lines.deep_view()) == last_non_blank(lines.deep_view().take(k as int)),
        decreases k,
    {
        k = k - 1;
        let ghost pre = lines.deep_view().take(k + 1);
        assert(pre.last() == lines.deep_view()[k as int]);
        assert(lines.deep_view()[k as int] == lines@[k as int]@);
        if !line_blank_exec(lines[k].as_str()) {
            assert(last_non_blank(pre) == pre.last());
            return lines[k].clone();
        }
        assert(pre.drop_last() =~= lines.deep_view().take(k as int));
    }
    assert(lines.deep_view().take(0) =~= Seq::<Seq<char>>::empty());
    String::new()
}

/// The chat-broadcast marker that announces the online player list.
pub open spec fn online_marker() -> Seq<char> {
    "[CHAT] ONLINE: "@
}

/// What follows the leftmost occurrence of the online marker in `line`,
/// to the end of the line; `None` when the marker does not occur.
pub open spec fn spec_trigger_capture(line: Seq<char>) -> Option<Seq<char>> {
    match spec_find(line, online_marker()) {
        Some(i) => Some(line.subrange(i + online_marker().len() as int, line.len() as int)),
        None => None,
    }
}

/// The fields of `s` between non-overlapping leftmost occurrences of the
/// `", "` separator.
pub open spec fn spec_split_names(s: Seq<char>) -> Seq<Seq<char>>
    decreases s.len(),
    via spec_split_names_decreases
{
    match spec_find(s, ", "@) {
        Some(k) => seq![s.subrange(0, k)] + spec_split_names(s.subrange(k + 2, s.len() as int)),
        None => seq![s],
    }
}

#[via_fn]
proof fn spec_split_names_decreases(s: Seq<char>) {
    reveal_strlit(", ");
    lemma_find_characterisation(s, ", "@);
}

/// The player names announced by a captured list: the `", "`-separated
/// fields, or no names at all when the capture is empty.
pub open spec fn spec_names(capture: Seq<char>) -> Seq<Seq<char>> {
    if capture.len() == 0 {
        Seq::empty()
    } else {
        spec_split_names(capture)
    }
}

/// One detector transition: against the baseline `last`, the content's
/// last non-blank line either repeats the baseline (no dispatch), carries
/// no marker (no dispatch), or announces a list of names.
pub open spec fn spec_detect(last: Seq<char>, content: Seq<char>) -> Option<Seq<Seq<char>>> {
    let line = spec_last_line(content);
    if line == last {
        None
    } else {
        match spec_trigger_capture(line) {
            Some(c) => Some(spec_names(c)),
            None => None,
        }
    }
}

/// Duplicate suppression: a processed notification leaves the content's
/// last non-blank line as the new baseline, so when the next
/// notification's content still has that same last non-blank line —
/// whatever else in the file changed — it dispatches nothing.
pub proof fn lemma_duplicate_notification_suppressed(first: Seq<char>, second: Seq<char>)
    requires
        spec_last_line(first) == spec_last_line(second),
    ensures
        spec_detect(spec_last_line(first), second) is None,
{
}

/// A last line that does not contain the trigger marker dispatches
/// nothing, whatever the baseline.
pub proof fn lemma_no_marker_no_dispatch(last: Seq<char>, content: Seq<char>)
    requires
        spec_find(spec_last_line(content), online_marker()) is None,
    ensures
        spec_detect(last, content) is None,
{
}

/// Extracts what follows the online marker in `line`, if the marker
/// occurs.
pub fn trigger_capture(line: &str) -> (r: Option<String>)
    ensures
        (r is Some) == (spec_trigger_capture(line@) is Some),
        r is Some ==> r->0@ == spec_trigger_capture(line@)->0,
{
    proof {
        reveal_strlit("[CHAT] ONLINE: ");
    }
    match find_str(line, "[CHAT] ONLINE: ") {
        Some(i) => {
            proof {
                lemma_find_characterisation(line@, online_marker());
            }
            let n = line.unicode_len();
            let cap = line.substring_char(i + 15, n);
            Some(cap.to_owned())
        },
        None => None,
    }
}

/// Splits a captured list into the announced names.
pub fn split_names(capture: &str) -> (names: Vec<String>)
    ensures
        names.deep_view() == spec_names(capture@),
{
    let mut names: Vec<String> = Vec::new();
    if capture.unicode_len() == 0 {
        assert(names.deep_view() =~= spec_names(capture@));
        return names;
    }
    let mut rest: &str = capture;
    proof {
        assert(names.deep_view() + spec_split_names(rest@) =~= spec_split_names(capture@));
    }
    loop
        invariant
            names.deep_view() + spec_split_names(rest@) == spec_split_names(capture@),
            capture@.len() != 0,
        decreases rest@.len(),
    {
        proof {
            reveal_strlit(", ");
        }
        let ghost old_names = names.deep_view();
        let ghost old_rest = rest@;
        match find_str(rest, ", ") {
            Some(k) => {
                proof {
                    lemma_find_characterisation(rest@, ", "@);
                }
                let head = rest.substring_char(0, k);
                names.push(head.to_owned());
                let n = rest.unicode_len();
                rest = rest.substring_char(k + 2, n);
                proof {
                    assert(spec_split_names(old_rest) == seq![old_rest.subrange(0, k as int)]
                        + spec_split_names(rest@));
                    assert(names.deep_view() =~= old_names + seq![head@]);
                    assert((old_names + seq![head@]) + spec_split_names(rest@) =~= old_names + (
                    seq![head@] + spec_split_names(rest@)));
                }
            },
            None => {
                names.push(rest.to_owned());
                proof {
                    assert(spec_split_names(old_rest) == seq![old_rest]);
                    assert(names.deep_view() =~= old_names + seq![old_rest]);
                }
                return names;
            },
        }
    }
}

/// The event detector: holds the last processed line as the duplicate-
/// suppression baseline and turns each file-modification notification
/// into at most one dispatched name list.
pub struct EventDetector {
    last_processed_line: String,
}

impl EventDetector {
    /// The duplicate-suppression baseline: the last line processed, or
    /// empty before any notification was processed.
    pub closed spec fn baseline(&self) -> Seq<char> {
        self.last_processed_line@
    }

    /// A fresh detector that has processed nothing.
    pub fn new() -> (d: Self)
        ensures
            d.baseline() == Seq::<char>::empty(),
    {
        EventDetector { last_processed_line: String::new() }
    }

    /// Handles one file-modification notification carrying the full
    /// current content of the watched file. Returns the announced names
    /// when the content's last non-blank line is new and carries the
    /// marker; records that line as the new baseline whenever it is new,
    /// whether or not it matches.
    pub fn on_modify(&mut self, content: &str) -> (names: Option<Vec<String>>)
        ensures
            final(self).baseline() == spec_last_line(content@),
            (names is Some) == (spec_detect(old(self).baseline(), content@) is Some),
            names is Some ==> names->0.deep_view() == spec_detect(old(self).baseline(), content@)->0,
    {
        let line = last_non_blank_line(content);
        if line.eq(&self.last_processed_line) {
            return None;
        }
        self.last_processed_line = line;
        match trigger_capture(self.last_processed_line.as_str()) {
            Some(capture) => Some(split_names(capture.as_str())),
            None => None,
        }
    }
}

} // verus!
