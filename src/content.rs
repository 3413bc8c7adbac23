//! Front matter: an optional TOML block at the head of a content file,
//! delimited by two lines of the same number (three or more) of `+`.
//!
//! The parser is a state machine over the bytes of the text. Every byte it
//! reacts to is ASCII, and the bytes of a multi-byte character never are, so
//! reading bytes instead of characters changes no decision and yields byte
//! offsets directly.
use vstd::prelude::*;
use vstd::string::StringSliceAdditionalSpecFns;
use vstd::utf8::*;

verus! {

broadcast use {
    vstd::string::group_string_axioms,
    vstd::utf8::encode_utf8_valid_utf8,
    vstd::utf8::is_char_boundary_iff_not_is_continuation_byte,
    vstd::utf8::is_char_boundary_start_end_of_seq,
};

/// Failure of the front-matter parser.
#[derive(Debug, Clone, Copy, PartialEq, Eq, Structural)]
pub enum Error {
    /// The opening marker line is shorter than three `+` or holds another character.
    InvalidStartMarker,
    /// The input ended before the front matter was closed and a body began.
    Eof,
}

/// The marker byte `+`.
pub const PLUS: u8 = 0x2b;

/// True for the line-break bytes (`\n`, `\r`) that the parser treats as blank.
pub open spec fn is_line_break(c: u8) -> bool {
    c == 0x0a || c == 0x0d
}

fn line_break(c: u8) -> (r: bool)
    ensures
        r == is_line_break(c),
{
    c == 0x0a || c == 0x0d
}

/// Where the parser stands between two bytes of the input.
#[derive(Debug, Clone, Copy)]
pub enum State {
    /// Only line breaks seen so far.
    SearchForBeginMarker,
    /// Inside the opening marker line.
    StartedBeginMarker { marker_count: usize },
    /// After the opening marker line, skipping blank lines.
    EndedBeginMarker { marker_count: usize },
    /// Inside the block. `end_marker_count` counts the `+` that begin the
    /// current line, and is `None` once the line holds anything else.
    StartedFrontMatter {
        marker_count: usize,
        front_matter_start: usize,
        front_matter_end: usize,
        end_marker_count: Option<usize>,
    },
    /// After the closing marker line, skipping blank lines.
    EndedFrontMatter { front_matter_start: usize, front_matter_end: usize },
}

/// How a parse ends.
#[derive(Debug, Clone, Copy)]
pub enum Outcome {
    /// The text does not open with a marker: it has no front matter.
    NoFrontMatter,
    /// Front matter at `front_matter_start..front_matter_end`, body from
    /// `contents_start` to the end (byte offsets).
    Split { front_matter_start: usize, front_matter_end: usize, contents_start: usize },
    /// The text is malformed.
    Failed(Error),
}

/// The effect of one byte on the parser.
#[derive(Debug, Clone, Copy)]
pub enum Transition {
    Continue(State),
    Finish(Outcome),
}

/// The transition on byte `c` at offset `idx` from state `st`.
pub open spec fn step(st: State, idx: usize, c: u8) -> Transition {
    match st {
        State::SearchForBeginMarker => {
            if c == PLUS {
                Transition::Continue(State::StartedBeginMarker { marker_count: 1 })
            } else if is_line_break(c) {
                Transition::Continue(st)
            } else {
                Transition::Finish(Outcome::NoFrontMatter)
            }
        },
        State::StartedBeginMarker { marker_count } => {
            if c == PLUS {
                Transition::Continue(
                    State::StartedBeginMarker { marker_count: (marker_count + 1) as usize },
                )
            } else if is_line_break(c) && marker_count >= 3 {
                Transition::Continue(State::EndedBeginMarker { marker_count })
            } else {
                Transition::Finish(Outcome::Failed(Error::InvalidStartMarker))
            }
        },
        State::EndedBeginMarker { marker_count } => {
            if is_line_break(c) {
                Transition::Continue(st)
            } else {
                Transition::Continue(
                    State::StartedFrontMatter {
                        marker_count,
                        front_matter_start: idx,
                        front_matter_end: idx,
                        end_marker_count: if c == PLUS {
                            Some(1usize)
                        } else {
                            None
                        },
                    },
                )
            }
        },
        State::StartedFrontMatter {
            marker_count,
            front_matter_start,
            front_matter_end,
            end_marker_count,
        } => {
            if is_line_break(c) {
                if end_marker_count == Some(marker_count) {
                    Transition::Continue(
                        State::EndedFrontMatter { front_matter_start, front_matter_end },
                    )
                } else {
                    Transition::Continue(
                        State::StartedFrontMatter {
                            marker_count,
                            front_matter_start,
                            front_matter_end: idx,
                            end_marker_count: Some(0),
                        },
                    )
                }
            } else if c == PLUS {
                Transition::Continue(
                    State::StartedFrontMatter {
                        marker_count,
                        front_matter_start,
                        front_matter_end,
                        end_marker_count: match end_marker_count {
                            Some(n) => Some((n + 1) as usize),
                            None => None,
                        },
                    },
                )
            } else {
                Transition::Continue(
                    State::StartedFrontMatter {
                        marker_count,
                        front_matter_start,
                        front_matter_end: idx,
                        end_marker_count: None,
                    },
                )
            }
        },
        State::EndedFrontMatter { front_matter_start, front_matter_end } => {
            if is_line_break(c) {
                Transition::Continue(st)
            } else {
                Transition::Finish(
                    Outcome::Split { front_matter_start, front_matter_end, contents_start: idx },
                )
            }
        },
    }
}

/// The outcome of running the parser on `b` from offset `i` in state `st`;
/// running out of input is `Eof`.
pub open spec fn run(b: Seq<u8>, i: int, st: State) -> Outcome
    decreases b.len() - i,
{
    if i < 0 || i >= b.len() {
        Outcome::Failed(Error::Eof)
    } else {
        match step(st, i as usize, b[i]) {
            Transition::Continue(next) => run(b, i + 1, next),
            Transition::Finish(o) => o,
        }
    }
}

/// The outcome of parsing the bytes `b` of a text.
pub open spec fn front_matter_outcome(b: Seq<u8>) -> Outcome {
    run(b, 0, State::SearchForBeginMarker)
}

/// True when the byte before offset `k` is ASCII.
pub open spec fn follows_ascii(b: Seq<u8>, k: int) -> bool {
    1 <= k <= b.len() && b[k - 1] < 0x80
}

/// What holds of a state reached at offset `i` of `b`.
pub open spec fn state_wf(b: Seq<u8>, st: State, i: int) -> bool {
    match st {
        State::SearchForBeginMarker => true,
        State::StartedBeginMarker { marker_count } => 1 <= marker_count <= i,
        State::EndedBeginMarker { marker_count } => {
            &&& 3 <= marker_count <= i
            &&& is_line_break(b[i - 1])
        },
        State::StartedFrontMatter {
            marker_count,
            front_matter_start,
            front_matter_end,
            end_marker_count,
        } => {
            &&& marker_count <= i
            &&& front_matter_start <= front_matter_end < i
            &&& follows_ascii(b, front_matter_start as int)
            &&& (end_marker_count is Some ==> (front_matter_end == front_matter_start
                || b[front_matter_end as int] < 0x80))
            &&& (end_marker_count matches Some(n) ==> n <= i)
        },
        State::EndedFrontMatter { front_matter_start, front_matter_end } => {
            &&& front_matter_start <= front_matter_end < i
            &&& follows_ascii(b, front_matter_start as int)
            &&& (front_matter_end == front_matter_start || b[front_matter_end as int] < 0x80)
            &&& is_line_break(b[i - 1])
        },
    }
}

/// What holds of the outcome of a parse of `b`.
pub open spec fn outcome_wf(b: Seq<u8>, o: Outcome) -> bool {
    match o {
        Outcome::Split { front_matter_start, front_matter_end, contents_start } => {
            &&& front_matter_start <= front_matter_end < contents_start < b.len()
            &&& follows_ascii(b, front_matter_start as int)
            &&& (front_matter_end == front_matter_start || b[front_matter_end as int] < 0x80)
            &&& follows_ascii(b, contents_start as int)
            &&& !is_line_break(b[contents_start as int])
        },
        _ => true,
    }
}

/// The state or outcome that byte `i` leads to is well formed.
pub open spec fn step_wf(b: Seq<u8>, st: State, i: int) -> bool {
    match step(st, i as usize, b[i]) {
        Transition::Continue(next) => state_wf(b, next, i + 1),
        Transition::Finish(o) => outcome_wf(b, o),
    }
}

proof fn lemma_step_wf(b: Seq<u8>, st: State, i: int)
    requires
        0 <= i < b.len(),
        b.len() <= usize::MAX,
        state_wf(b, st, i),
    ensures
        step_wf(b, st, i),
{
}

proof fn lemma_run_wf(b: Seq<u8>, i: int, st: State)
    requires
        0 <= i <= b.len(),
        b.len() <= usize::MAX,
        state_wf(b, st, i),
    ensures
        outcome_wf(b, run(b, i, st)),
    decreases b.len() - i,
{
    if i < b.len() {
        lemma_step_wf(b, st, i);
        if let Transition::Continue(next) = step(st, i as usize, b[i]) {
            lemma_run_wf(b, i + 1, next);
        }
    }
}

/// In valid UTF-8 the byte that follows an ASCII byte starts a character.
proof fn lemma_follows_ascii_not_continuation(b: Seq<u8>, i: int)
    requires
        valid_utf8(b),
        1 <= i < b.len(),
        b[i - 1] < 0x80,
    ensures
        !is_continuation_byte(b[i]),
    decreases b.len(),
{
    reveal_with_fuel(valid_utf8, 2);
    let n = length_of_first_scalar(b);
    let p = pop_first_scalar(b);
    assert(valid_first_scalar(b) && valid_utf8(p));
    assert(1 <= n <= b.len());
    assert(p.len() == b.len() - n);
    if i - 1 < n {
        if n == 1 {
            assert(p[0] == b[1]);
            assert(valid_first_scalar(p));
        }
    } else {
        assert(p[i - n] == b[i]);
        assert(p[i - n - 1] == b[i - 1]);
        lemma_follows_ascii_not_continuation(p, i - n);
    }
}

/// An offset just after an ASCII byte is a character boundary.
proof fn lemma_follows_ascii_boundary(b: Seq<u8>, k: int)
    requires
        valid_utf8(b),
        follows_ascii(b, k),
    ensures
        is_char_boundary(b, k),
{
    if k < b.len() {
        lemma_follows_ascii_not_continuation(b, k);
    }
}

fn advance(st: State, idx: usize, c: u8) -> (r: Transition)
    requires
        match st {
            State::StartedBeginMarker { marker_count } => marker_count <= idx,
            State::StartedFrontMatter { end_marker_count, .. } => end_marker_count matches Some(
                n,
            ) ==> n <= idx,
            _ => true,
        },
        idx < usize::MAX,
    ensures
        r == step(st, idx, c),
{
    match st {
        State::SearchForBeginMarker => {
            if c == PLUS {
                Transition::Continue(State::StartedBeginMarker { marker_count: 1 })
            } else if line_break(c) {
                Transition::Continue(st)
            } else {
                Transition::Finish(Outcome::NoFrontMatter)
            }
        },
        State::StartedBeginMarker { marker_count } => {
            if c == PLUS {
                Transition::Continue(State::StartedBeginMarker { marker_count: marker_count + 1 })
            } else if line_break(c) && marker_count >= 3 {
                Transition::Continue(State::EndedBeginMarker { marker_count })
            } else {
                Transition::Finish(Outcome::Failed(Error::InvalidStartMarker))
            }
        },
        State::EndedBeginMarker { marker_count } => {
            if line_break(c) {
                Transition::Continue(st)
            } else {
                let count = if c == PLUS {
                    Some(1usize)
                } else {
                    None
                };
                Transition::Continue(
                    State::StartedFrontMatter {
                        marker_count,
                        front_matter_start: idx,
                        front_matter_end: idx,
                        end_marker_count: count,
                    },
                )
            }
        },
        State::StartedFrontMatter {
            marker_count,
            front_matter_start,
            front_matter_end,
            end_marker_count,
        } => {
            if line_break(c) {
                let closes = match end_marker_count {
                    Some(n) => n == marker_count,
                    None => false,
                };
                if closes {
                    Transition::Continue(
                        State::EndedFrontMatter { front_matter_start, front_matter_end },
                    )
                } else {
                    Transition::Continue(
                        State::StartedFrontMatter {
                            marker_count,
                            front_matter_start,
                            front_matter_end: idx,
                            end_marker_count: Some(0),
                        },
                    )
                }
            } else if c == PLUS {
                let counted = match end_marker_count {
                    Some(n) => Some(n + 1),
                    None => None,
                };
                Transition::Continue(
                    State::StartedFrontMatter {
                        marker_count,
                        front_matter_start,
                        front_matter_end,
                        end_marker_count: counted,
                    },
                )
            } else {
                Transition::Continue(
                    State::StartedFrontMatter {
                        marker_count,
                        front_matter_start,
                        front_matter_end: idx,
                        end_marker_count: None,
                    },
                )
            }
        },
        State::EndedFrontMatter { front_matter_start, front_matter_end } => {
            if line_break(c) {
                Transition::Continue(st)
            } else {
                Transition::Finish(
                    Outcome::Split { front_matter_start, front_matter_end, contents_start: idx },
                )
            }
        },
    }
}

/// `r` is the result that outcome `o` on the bytes of `contents` stands for.
pub open spec fn result_of(
    contents: &str,
    o: Outcome,
    r: Result<(Option<&str>, usize, &str), Error>,
) -> bool {
    let b = contents.spec_bytes();
    match o {
        Outcome::NoFrontMatter => {
            &&& r is Ok
            &&& r->Ok_0.0 is None
            &&& r->Ok_0.1 == 0
            &&& r->Ok_0.2@ == contents@
        },
        Outcome::Split { front_matter_start, front_matter_end, contents_start } => {
            &&& r is Ok
            &&& r->Ok_0.0 is Some
            &&& r->Ok_0.0->Some_0.spec_bytes() == b.subrange(
                front_matter_start as int,
                front_matter_end as int,
            )
            &&& r->Ok_0.1 == contents_start
            &&& r->Ok_0.2.spec_bytes() == b.subrange(contents_start as int, b.len() as int)
        },
        Outcome::Failed(e) => r == Err::<(Option<&str>, usize, &str), Error>(e),
    }
}

/// Splits a content file into its front matter, the byte offset of its body
/// and the body.
///
/// A text whose first non-blank character is not `+` has no front matter and
/// comes back whole with offset 0. Otherwise the opening line must be three
/// or more `+`, and a line of exactly as many `+` closes the block; the body
/// starts at the first non-blank character after it.
pub fn parse(contents: &str) -> (r: Result<(Option<&str>, usize, &str), Error>)
    ensures
        result_of(contents, front_matter_outcome(contents.spec_bytes()), r),
{
    let bytes = contents.as_bytes();
    let ghost b = bytes@;
    let len = bytes.len();
    let mut state = State::SearchForBeginMarker;
    let mut i: usize = 0;
    while i < len
        invariant
            b == bytes@,
            b == contents.spec_bytes(),
            len == b.len(),
            0 <= i <= len,
            state_wf(b, state, i as int),
            run(b, 0, State::SearchForBeginMarker) == run(b, i as int, state),
        decreases len - i,
    {
        proof {
            lemma_step_wf(b, state, i as int);
        }
        let t = advance(state, i, bytes[i]);
        match t {
            Transition::Continue(next) => {
                state = next;
            },
            Transition::Finish(outcome) => {
                return finish(contents, outcome);
            },
        }
        i = i + 1;
    }
    Err(Error::Eof)
}

fn finish(contents: &str, outcome: Outcome) -> (r: Result<(Option<&str>, usize, &str), Error>)
    requires
        outcome_wf(contents.spec_bytes(), outcome),
    ensures
        result_of(contents, outcome, r),
{
    match outcome {
        Outcome::NoFrontMatter => Ok((None, 0, contents)),
        Outcome::Split { front_matter_start, front_matter_end, contents_start } => {
            let ghost b = contents.spec_bytes();
            proof {
                lemma_follows_ascii_boundary(b, front_matter_start as int);
                lemma_follows_ascii_boundary(b, contents_start as int);
            }
            let (_, tail) = contents.split_at(front_matter_start);
            let ghost t = tail.spec_bytes();
            proof {
                valid_utf8_split(b, front_matter_start as int);
                assert(t =~= b.subrange(front_matter_start as int, b.len() as int));
                let k = front_matter_end - front_matter_start;
                if k != 0 {
                    assert(t[k] == b[front_matter_end as int]);
                    assert(!is_continuation_byte(t[k]));
                    is_char_boundary_iff_not_is_continuation_byte(t, k);
                }
                assert(is_char_boundary(t, k));
            }
            let (front_matter, _) = tail.split_at(front_matter_end - front_matter_start);
            let (_, body) = contents.split_at(contents_start);
            proof {
                assert(front_matter.spec_bytes() =~= b.subrange(
                    front_matter_start as int,
                    front_matter_end as int,
                ));
            }
            Ok((Some(front_matter), contents_start, body))
        },
        Outcome::Failed(e) => Err(e),
    }
}

proof fn lemma_search_leads_to_plain(b: Seq<u8>, i: int, k: int)
    requires
        0 <= i <= k < b.len(),
        b.len() <= usize::MAX,
        forall|j: int| i <= j < k ==> is_line_break(b[j]),
        !is_line_break(b[k]),
        b[k] != PLUS,
    ensures
        run(b, i, State::SearchForBeginMarker) == Outcome::NoFrontMatter,
    decreases k - i,
{
    if i < k {
        lemma_search_leads_to_plain(b, i + 1, k);
    }
}

/// A text whose first byte other than a line break is not `+` has no front
/// matter: `parse` hands it back whole, with offset 0.
pub proof fn lemma_no_marker_no_front_matter(b: Seq<u8>, k: int)
    requires
        0 <= k < b.len(),
        b.len() <= usize::MAX,
        forall|j: int| 0 <= j < k ==> is_line_break(b[j]),
        !is_line_break(b[k]),
        b[k] != PLUS,
    ensures
        front_matter_outcome(b) == Outcome::NoFrontMatter,
{
    lemma_search_leads_to_plain(b, 0, k);
}

proof fn lemma_marker_run_fails(b: Seq<u8>, k: int, i: int, n: int)
    requires
        1 <= k + 1 <= i <= k + n < b.len(),
        b.len() <= usize::MAX,
        forall|j: int| k <= j < k + n ==> b[j] == PLUS,
        b[k + n] != PLUS,
        !is_line_break(b[k + n]) || n < 3,
    ensures
        run(b, i, State::StartedBeginMarker { marker_count: (i - k) as usize }) == Outcome::Failed(
            Error::InvalidStartMarker,
        ),
    decreases k + n - i,
{
    if i < k + n {
        lemma_marker_run_fails(b, k, i + 1, n);
    }
}

/// A text whose first non-blank line starts with `+` but is not three or
/// more `+` alone on their line fails with `InvalidStartMarker`.
pub proof fn lemma_bad_start_marker(b: Seq<u8>, k: int, n: int)
    requires
        0 <= k,
        1 <= n,
        k + n < b.len(),
        b.len() <= usize::MAX,
        forall|j: int| 0 <= j < k ==> is_line_break(b[j]),
        forall|j: int| k <= j < k + n ==> b[j] == PLUS,
        b[k + n] != PLUS,
        !is_line_break(b[k + n]) || n < 3,
    ensures
        front_matter_outcome(b) == Outcome::Failed(Error::InvalidStartMarker),
{
    lemma_marker_run_fails(b, k, k + 1, n);
    lemma_search_reaches_marker(b, 0, k);
}

proof fn lemma_search_reaches_marker(b: Seq<u8>, i: int, k: int)
    requires
        0 <= i <= k < b.len(),
        b.len() <= usize::MAX,
        forall|j: int| i <= j < k ==> is_line_break(b[j]),
        b[k] == PLUS,
    ensures
        run(b, i, State::SearchForBeginMarker) == run(
            b,
            k + 1,
            State::StartedBeginMarker { marker_count: 1 },
        ),
    decreases k - i,
{
    if i < k {
        lemma_search_reaches_marker(b, i + 1, k);
    }
}

/// A closing marker line of `m` `+` ends at offset `j` of `b`, inside the
/// block that starts at `s`: a line break at `j` preceded by exactly `m`
/// `+` that follow a line break.
pub open spec fn closes_at(b: Seq<u8>, m: int, s: int, j: int) -> bool {
    &&& s <= j - m
    &&& j < b.len()
    &&& is_line_break(b[j])
    &&& is_line_break(b[j - m - 1])
    &&& forall|k: int| j - m <= k < j ==> b[k] == PLUS
}

proof fn lemma_opening_counts(b: Seq<u8>, k0: int, m: int, i: int)
    requires
        0 <= k0,
        k0 + 1 <= i <= k0 + m,
        k0 + m < b.len(),
        b.len() <= usize::MAX,
        m >= 3,
        forall|k: int| k0 <= k < k0 + m ==> b[k] == PLUS,
        is_line_break(b[k0 + m]),
    ensures
        run(b, i, State::StartedBeginMarker { marker_count: (i - k0) as usize }) == run(
            b,
            k0 + m + 1,
            State::EndedBeginMarker { marker_count: m as usize },
        ),
    decreases k0 + m - i,
{
    if i < k0 + m {
        lemma_opening_counts(b, k0, m, i + 1);
    }
}

proof fn lemma_block_unclosed(b: Seq<u8>, m: int, s: int, i: int, st: State)
    requires
        1 <= s <= i <= b.len(),
        b.len() <= usize::MAX,
        forall|j: int| s <= j < b.len() ==> !#[trigger] closes_at(b, m, s, j),
        match st {
            State::EndedBeginMarker { marker_count } => marker_count == m && is_line_break(
                b[i - 1],
            ),
            State::StartedFrontMatter {
                marker_count,
                front_matter_start,
                end_marker_count,
                ..
            } => {
                &&& marker_count == m
                &&& s <= front_matter_start < i
                &&& is_line_break(b[front_matter_start - 1])
                &&& end_marker_count matches Some(n) ==> {
                    &&& front_matter_start <= i - n
                    &&& (i - n == front_matter_start || is_line_break(b[i - n - 1]))
                    &&& forall|k: int| i - n <= k < i ==> b[k] == PLUS
                }
            },
            _ => false,
        },
    ensures
        run(b, i, st) == Outcome::Failed(Error::Eof),
    decreases b.len() - i,
{
    if i < b.len() {
        let c = b[i];
        match st {
            State::EndedBeginMarker { .. } => {
                if let Transition::Continue(next) = step(st, i as usize, c) {
                    lemma_block_unclosed(b, m, s, i + 1, next);
                }
            },
            State::StartedFrontMatter { end_marker_count, front_matter_start, .. } => {
                if is_line_break(c) {
                    if let Some(n) = end_marker_count {
                        if n == m {
                            assert(closes_at(b, m, s, i));
                        }
                    }
                }
                if let Transition::Continue(next) = step(st, i as usize, c) {
                    lemma_block_unclosed(b, m, s, i + 1, next);
                }
            },
            _ => {},
        }
    }
}

/// A block that is opened (`m` >= 3 `+` alone on the first non-blank line)
/// and never closed by a line of exactly `m` `+` makes the parse fail with
/// `Eof`.
pub proof fn lemma_unclosed_block_eof(b: Seq<u8>, k0: int, m: int)
    requires
        0 <= k0,
        m >= 3,
        k0 + m < b.len(),
        b.len() <= usize::MAX,
        forall|j: int| 0 <= j < k0 ==> is_line_break(b[j]),
        forall|k: int| k0 <= k < k0 + m ==> b[k] == PLUS,
        is_line_break(b[k0 + m]),
        forall|j: int| k0 + m + 1 <= j < b.len() ==> !#[trigger] closes_at(b, m, k0 + m + 1, j),
    ensures
        front_matter_outcome(b) == Outcome::Failed(Error::Eof),
{
    lemma_search_reaches_marker(b, 0, k0);
    lemma_opening_counts(b, k0, m, k0 + 1);
    lemma_block_unclosed(
        b,
        m,
        k0 + m + 1,
        k0 + m + 1,
        State::EndedBeginMarker { marker_count: m as usize },
    );
}

/// Parsing is idempotent on bodies: the body that a parse splits off,
/// parsed again, has no front matter (and so comes back whole), unless it
/// starts with `+`.
pub proof fn lemma_body_reparses_plain(b: Seq<u8>)
    requires
        b.len() <= usize::MAX,
        front_matter_outcome(b) is Split,
        b[front_matter_outcome(b)->contents_start as int] != PLUS,
    ensures
        front_matter_outcome(
            b.subrange(front_matter_outcome(b)->contents_start as int, b.len() as int),
        ) == Outcome::NoFrontMatter,
{
    lemma_run_wf(b, 0, State::SearchForBeginMarker);
    let cs = front_matter_outcome(b)->contents_start as int;
    let body = b.subrange(cs, b.len() as int);
    assert(body[0] == b[cs]);
    lemma_no_marker_no_front_matter(body, 0);
}

} // verus!
