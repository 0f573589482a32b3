//! The attempt runner: tries candidate URLs strictly in order, records one
//! line per failed attempt, and aggregates all recorded lines into the final
//! failure report.
//!
//! The runner holds no network code. The binary around the library asks it
//! for the next URL, performs the request, and hands back the outcome; the
//! runner decides and records. A candidate is handed out only after a
//! failure has been recorded for every candidate before it, so a success
//! leaves all later candidates unattempted.

use vstd::prelude::*;
use vstd::string::StringExecFns;
use crate::strutil::push_char;
use crate::textspec::contains_seq;
use crate::textspec::lemma_contains_extend_left;
use crate::textspec::lemma_contains_extend_right;
use crate::textspec::lemma_contains_self;

verus! {

/// A status code is successful exactly when it lies in the 2xx range.
pub open spec fn is_success_spec(status: u16) -> bool {
    200 <= status < 300
}

/// Decides whether an HTTP status code counts as a success (2xx). On a
/// success the body is parsed and printed and no further candidate is tried;
/// otherwise the attempt is recorded as failed.
pub fn is_success_status(status: u16) -> (r: bool)
    ensures
        r == is_success_spec(status),
{
    200 <= status && status < 300
}

/// What one attempted request came to: a response with some status code, or
/// a transport-level failure with its message.
pub enum FetchOutcome {
    Status(u16),
    TransportError(String),
}

/// The decimal digit character for a value below ten.
pub open spec fn digit_char(d: nat) -> char {
    if d == 0 {
        '0'
    } else if d == 1 {
        '1'
    } else if d == 2 {
        '2'
    } else if d == 3 {
        '3'
    } else if d == 4 {
        '4'
    } else if d == 5 {
        '5'
    } else if d == 6 {
        '6'
    } else if d == 7 {
        '7'
    } else if d == 8 {
        '8'
    } else {
        '9'
    }
}

/// The usual decimal rendering of a natural number, most significant digit
/// first, with no leading zeros (a lone zero for zero).
pub open spec fn dec_digits(n: nat) -> Seq<char>
    decreases n,
{
    if n < 10 {
        seq![digit_char(n)]
    } else {
        dec_digits(n / 10).push(digit_char(n % 10))
    }
}

/// The decimal digit character for a value below ten, as executable code.
fn digit_of(d: u16) -> (c: char)
    requires
        d < 10,
    ensures
        c == digit_char(d as nat),
{
    if d == 0 {
        '0'
    } else if d == 1 {
        '1'
    } else if d == 2 {
        '2'
    } else if d == 3 {
        '3'
    } else if d == 4 {
        '4'
    } else if d == 5 {
        '5'
    } else if d == 6 {
        '6'
    } else if d == 7 {
        '7'
    } else if d == 8 {
        '8'
    } else {
        '9'
    }
}

/// Renders a status code in decimal.
pub fn u16_to_decimal(n: u16) -> (s: String)
    ensures
        s@ == dec_digits(n as nat),
    decreases n,
{
    if n < 10 {
        let mut s: String = String::new();
        push_char(&mut s, digit_of(n));
        proof {
            assert(s@ =~= dec_digits(n as nat));
        }
        s
    } else {
        let mut s: String = u16_to_decimal(n / 10);
        push_char(&mut s, digit_of(n % 10));
        proof {
            assert((n / 10) as nat == n as nat / 10);
            assert((n % 10) as nat == n as nat % 10);
        }
        s
    }
}

/// The recorded line for one failed attempt: the URL, then the status code
/// in decimal, or the transport error's message.
pub open spec fn outcome_line_spec(url: Seq<char>, outcome: FetchOutcome) -> Seq<char> {
    match outcome {
        FetchOutcome::Status(code) => url + " => "@ + dec_digits(code as nat),
        FetchOutcome::TransportError(msg) => url + " => request error: "@ + msg@,
    }
}

/// Renders the recorded line for one failed attempt against a URL.
pub fn outcome_line(url: &str, outcome: &FetchOutcome) -> (r: String)
    ensures
        r@ == outcome_line_spec(url@, *outcome),
{
    let mut s: String = url.to_owned();
    match outcome {
        FetchOutcome::Status(code) => {
            s.append(" => ");
            let d = u16_to_decimal(*code);
            s.append(d.as_str());
        },
        FetchOutcome::TransportError(msg) => {
            s.append(" => request error: ");
            s.append(msg.as_str());
        },
    }
    s
}

/// The attempted lines joined with single newlines, in order.
pub open spec fn join_lines(lines: Seq<Seq<char>>) -> Seq<char>
    decreases lines.len(),
{
    if lines.len() == 0 {
        Seq::empty()
    } else if lines.len() == 1 {
        lines[0]
    } else {
        lines[0] + seq!['\n'] + join_lines(lines.drop_first())
    }
}

/// The aggregated failure report: a fixed heading, then one recorded line
/// per attempted URL, newline-separated, in attempt order.
pub open spec fn aggregate_spec(lines: Seq<Seq<char>>) -> Seq<char> {
    "All endpoints failed:\n"@ + join_lines(lines)
}

/// Every line occurs in the joined text.
proof fn lemma_join_contains(lines: Seq<Seq<char>>, i: int)
    requires
        0 <= i < lines.len(),
    ensures
        contains_seq(join_lines(lines), lines[i]),
    decreases i,
{
    if lines.len() == 1 {
        lemma_contains_self(lines[0]);
    } else if i == 0 {
        lemma_contains_self(lines[0]);
        lemma_contains_extend_right(lines[0], seq!['\n'], lines[0]);
        lemma_contains_extend_right(
            lines[0] + seq!['\n'],
            join_lines(lines.drop_first()),
            lines[0],
        );
    } else {
        lemma_join_contains(lines.drop_first(), i - 1);
        assert(lines.drop_first()[i - 1] == lines[i]);
        lemma_contains_extend_left(
            lines[0] + seq!['\n'],
            join_lines(lines.drop_first()),
            lines[i],
        );
    }
}

/// When every candidate has failed, the aggregated report holds one line per
/// attempted URL: by definition the recorded lines stand in it in attempt
/// order, newline-separated after the heading, and this lemma states that
/// each recorded line indeed occurs in the report.
pub proof fn lemma_aggregate_contains_each_line(lines: Seq<Seq<char>>, i: int)
    requires
        0 <= i < lines.len(),
    ensures
        contains_seq(aggregate_spec(lines), lines[i]),
{
    lemma_join_contains(lines, i);
    lemma_contains_extend_left("All endpoints failed:\n"@, join_lines(lines), lines[i]);
}

/// The number of newline characters in a text.
pub open spec fn newline_count(s: Seq<char>) -> nat
    decreases s.len(),
{
    if s.len() == 0 {
        0
    } else {
        (if s[0] == '\n' {
            1nat
        } else {
            0nat
        }) + newline_count(s.drop_first())
    }
}

/// Newlines add up over concatenation.
proof fn lemma_newline_count_concat(a: Seq<char>, b: Seq<char>)
    ensures
        newline_count(a + b) == newline_count(a) + newline_count(b),
    decreases a.len(),
{
    if a.len() == 0 {
        assert(a + b =~= b);
    } else {
        assert((a + b).drop_first() =~= a.drop_first() + b);
        lemma_newline_count_concat(a.drop_first(), b);
    }
}

/// A text none of whose characters is a newline counts zero newlines.
proof fn lemma_no_newline_chars(s: Seq<char>)
    requires
        forall|i: int| 0 <= i < s.len() ==> #[trigger] s[i] != '\n',
    ensures
        newline_count(s) == 0,
    decreases s.len(),
{
    if s.len() > 0 {
        assert(forall|i: int|
            0 <= i < s.drop_first().len() ==> #[trigger] s.drop_first()[i] != '\n');
        lemma_no_newline_chars(s.drop_first());
    }
}

/// A one-character text other than a newline counts zero newlines.
proof fn lemma_single_char_count(c: char)
    requires
        c != '\n',
    ensures
        newline_count(seq![c]) == 0,
{
    assert(newline_count(Seq::<char>::empty()) == 0);
    assert(seq![c].drop_first() =~= Seq::<char>::empty());
}

/// A decimal rendering holds no newline.
proof fn lemma_dec_digits_newline_free(n: nat)
    ensures
        newline_count(dec_digits(n)) == 0,
    decreases n,
{
    if n < 10 {
        lemma_single_char_count(digit_char(n));
    } else {
        lemma_dec_digits_newline_free(n / 10);
        assert(dec_digits(n / 10).push(digit_char(n % 10)) =~= dec_digits(n / 10) + seq![
            digit_char(n % 10),
        ]);
        lemma_newline_count_concat(dec_digits(n / 10), seq![digit_char(n % 10)]);
        lemma_single_char_count(digit_char(n % 10));
    }
}

/// A status line stays on one line when its URL does: a recorded line for a
/// non-success status holds no newline.
pub proof fn lemma_status_line_single_line(url: Seq<char>, code: u16)
    requires
        newline_count(url) == 0,
    ensures
        newline_count(outcome_line_spec(url, FetchOutcome::Status(code))) == 0,
{
    lemma_dec_digits_newline_free(code as nat);
    assert(newline_count(" => "@) == 0) by {
        reveal_strlit(" => ");
        assert(forall|i: int| 0 <= i < " => "@.len() ==> #[trigger] " => "@[i] != '\n');
        lemma_no_newline_chars(" => "@);
    }
    lemma_newline_count_concat(url, " => "@);
    lemma_newline_count_concat(url + " => "@, dec_digits(code as nat));
}

/// When each recorded line is free of newlines, as recorded lines are for
/// single-line transport messages, the body of the aggregated report holds
/// exactly one line per attempted URL: joining puts one newline between
/// each pair of neighbouring lines and none elsewhere.
pub proof fn lemma_join_one_line_per_attempt(lines: Seq<Seq<char>>)
    requires
        forall|i: int| 0 <= i < lines.len() ==> newline_count(#[trigger] lines[i]) == 0,
        lines.len() > 0,
    ensures
        newline_count(join_lines(lines)) == lines.len() - 1,
    decreases lines.len(),
{
    if lines.len() > 1 {
        assert(newline_count(seq!['\n']) == 1) by {
            assert(newline_count(Seq::<char>::empty()) == 0);
            assert(seq!['\n'].drop_first() =~= Seq::<char>::empty());
            assert(seq!['\n'][0] == '\n');
        }
        lemma_newline_count_concat(lines[0], seq!['\n']);
        lemma_newline_count_concat(lines[0] + seq!['\n'], join_lines(lines.drop_first()));
        assert(forall|i: int|
            0 <= i < lines.drop_first().len() ==> newline_count(
                #[trigger] lines.drop_first()[i],
            ) == 0);
        lemma_join_one_line_per_attempt(lines.drop_first());
    }
}

/// Tries candidates strictly in order. `tried` holds one recorded line per
/// failed attempt; the candidate at position `i` is handed out only once
/// `tried` holds `i` lines.
pub struct Runner {
    candidates: Vec<String>,
    tried: Vec<String>,
}

impl Runner {
    /// The candidate URLs, in attempt order.
    pub closed spec fn candidates_view(self) -> Seq<Seq<char>> {
        self.candidates.deep_view()
    }

    /// One recorded line per failed attempt so far, in attempt order.
    pub closed spec fn tried_view(self) -> Seq<Seq<char>> {
        self.tried.deep_view()
    }

    /// The position of the next candidate to attempt.
    pub closed spec fn next_index(self) -> int {
        self.tried@.len() as int
    }

    /// No more failures recorded than there are candidates.
    pub closed spec fn wf(self) -> bool {
        self.tried@.len() <= self.candidates@.len()
    }

    /// Starts a run over an ordered candidate list with nothing attempted.
    pub fn new(candidates: Vec<String>) -> (r: Runner)
        ensures
            r.candidates_view() == candidates.deep_view(),
            r.tried_view() == Seq::<Seq<char>>::empty(),
            r.next_index() == 0,
            r.wf(),
    {
        let r = Runner { candidates, tried: Vec::new() };
        proof {
            assert(r.tried_view() =~= Seq::<Seq<char>>::empty());
        }
        r
    }

    /// Hands out the next candidate to attempt, or nothing once every
    /// candidate has a recorded failure. The candidate at position `i` is
    /// revealed only after `i` failures were recorded, so attempts follow
    /// the candidate order exactly and stop at the first success.
    pub fn next_url(&self) -> (r: Option<String>)
        requires
            self.wf(),
        ensures
            match r {
                Some(u) => self.next_index() < self.candidates_view().len() && u@
                    == self.candidates_view()[self.next_index()],
                None => self.next_index() == self.candidates_view().len(),
            },
    {
        if self.tried.len() < self.candidates.len() {
            Some(self.candidates[self.tried.len()].clone())
        } else {
            None
        }
    }

    /// Records a failed attempt of the current candidate and advances to the
    /// next one: appends the recorded line for this URL and outcome, and
    /// changes nothing else.
    pub fn record_failure(&mut self, outcome: FetchOutcome)
        requires
            old(self).wf(),
            old(self).next_index() < old(self).candidates_view().len(),
        ensures
            final(self).wf(),
            final(self).candidates_view() == old(self).candidates_view(),
            final(self).next_index() == old(self).next_index() + 1,
            final(self).tried_view() == old(self).tried_view().push(
                outcome_line_spec(
                    old(self).candidates_view()[old(self).next_index()],
                    outcome,
                ),
            ),
    {
        let line = outcome_line(self.candidates[self.tried.len()].as_str(), &outcome);
        self.tried.push(line);
        proof {
            assert(self.tried_view() =~= old(self).tried_view().push(
                outcome_line_spec(
                    old(self).candidates_view()[old(self).next_index()],
                    outcome,
                ),
            ));
        }
    }

    /// The lines joined from position `i` on.
    fn join_from(&self, i: usize) -> (r: String)
        requires
            i <= self.tried@.len(),
        ensures
            r@ == join_lines(self.tried_view().skip(i as int)),
        decreases self.tried@.len() - i,
    {
        if i == self.tried.len() {
            let s: String = String::new();
            proof {
                assert(self.tried_view().skip(i as int).len() == 0);
                assert(s@ =~= join_lines(self.tried_view().skip(i as int)));
            }
            s
        } else if i + 1 == self.tried.len() {
            let s = self.tried[i].clone();
            proof {
                assert(self.tried_view().skip(i as int).len() == 1);
                assert(self.tried_view().skip(i as int)[0] == self.tried_view()[i as int]);
            }
            s
        } else {
            let mut s = self.tried[i].clone();
            push_char(&mut s, '\n');
            let rest = self.join_from(i + 1);
            s.append(rest.as_str());
            proof {
                let lines = self.tried_view().skip(i as int);
                assert(lines.len() >= 2);
                assert(lines[0] == self.tried_view()[i as int]);
                assert(lines.drop_first() =~= self.tried_view().skip(i as int + 1));
                assert(s@ =~= lines[0] + seq!['\n'] + join_lines(lines.drop_first()));
            }
            s
        }
    }

    /// The aggregated failure report for everything attempted so far: the
    /// heading, then one recorded line per attempted URL, in attempt order.
    pub fn aggregate_message(&self) -> (r: String)
        ensures
            r@ == aggregate_spec(self.tried_view()),
    {
        let mut s: String = "All endpoints failed:\n".to_owned();
        let rest = self.join_from(0);
        s.append(rest.as_str());
        proof {
            assert(self.tried_view().skip(0) =~= self.tried_view());
        }
        s
    }
}

/// The fatal message when the credential environment variable is absent; it
/// names the variable. Emitted before any request is made.
pub fn missing_credential_message() -> (r: String)
    ensures
        r@ == "LEANPUB_API_KEY env var must be set with your Leanpub API key"@,
{
    "LEANPUB_API_KEY env var must be set with your Leanpub API key".to_owned()
}

/// The fatal message when a successful response's body is not valid JSON; it
/// names the URL that produced the bad body.
pub fn decode_error_message(url: &str) -> (r: String)
    ensures
        r@ == url@ + " => invalid JSON body"@,
{
    let mut s: String = url.to_owned();
    s.append(" => invalid JSON body");
    s
}

} // verus!
