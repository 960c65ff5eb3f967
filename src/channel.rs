use vstd::prelude::*;
use vstd::string::*;

verus! {

/// `t` occurs in `s` starting at position `i`.
pub open spec fn occurs_at(s: Seq<char>, t: Seq<char>, i: int) -> bool {
    0 <= i && i + t.len() <= s.len() && s.subrange(i, i + t.len()) == t
}

/// `t` occurs somewhere in `s`.
pub open spec fn contains_seq(s: Seq<char>, t: Seq<char>) -> bool {
    exists|i: int| occurs_at(s, t, i)
}

/// The last position `<= n` at which `t` occurs in `s`, or -1.
pub open spec fn last_occurrence_upto(s: Seq<char>, t: Seq<char>, n: int) -> int
    decreases n + 1,
{
    if n < 0 {
        -1
    } else if occurs_at(s, t, n) {
        n
    } else {
        last_occurrence_upto(s, t, n - 1)
    }
}

/// The text after the last occurrence of `t` in `s`; all of `s` when `t` does not occur.
pub open spec fn after_last(s: Seq<char>, t: Seq<char>) -> Seq<char> {
    let i = last_occurrence_upto(s, t, s.len() - t.len());
    if i < 0 {
        s
    } else {
        s.subrange(i + t.len(), s.len() as int)
    }
}

/// `s` with every `_` separator removed.
pub open spec fn strip_separators(s: Seq<char>) -> Seq<char>
    decreases s.len(),
{
    if s.len() == 0 {
        s
    } else if s.last() == '_' {
        strip_separators(s.drop_last())
    } else {
        strip_separators(s.drop_last()).push(s.last())
    }
}

/// The instrument named by a channel: the text after the last `token`, separators stripped.
pub open spec fn instrument_of(name: Seq<char>, token: Seq<char>) -> Seq<char> {
    strip_separators(after_last(name, token))
}

/// The kinds of inbound feed messages, with the instrument where one is named.
#[derive(Debug)]
pub enum FeedMessage {
    Executions(String),
    Ticker,
    BoardSnapshot(String),
    BoardDelta(String),
    Kicked,
    Unknown,
}

/// Classification by ordered substring match, most specific token first.
pub open spec fn classified(name: Seq<char>, r: FeedMessage) -> bool {
    if contains_seq(name, "executions"@) {
        r matches FeedMessage::Executions(sym) && sym@ == instrument_of(name, "executions_"@)
    } else if contains_seq(name, "ticker"@) {
        r is Ticker
    } else if contains_seq(name, "board_snapshot"@) {
        r matches FeedMessage::BoardSnapshot(sym) && sym@ == instrument_of(
            name,
            "board_snapshot_"@,
        )
    } else if contains_seq(name, "board"@) {
        r matches FeedMessage::BoardDelta(sym) && sym@ == instrument_of(name, "board_"@)
    } else if contains_seq(name, "kicked"@) {
        r is Kicked
    } else {
        r is Unknown
    }
}

fn chars_of(s: &str) -> (r: Vec<char>)
    ensures
        r@ == s@,
{
    let n = s.unicode_len();
    let mut out: Vec<char> = Vec::new();
    let mut i: usize = 0;
    while i < n
        invariant
            n == s@.len(),
            i <= n,
            out@ == s@.subrange(0, i as int),
        decreases n - i,
    {
        out.push(s.get_char(i));
        i = i + 1;
    }
    assert(out@ =~= s@);
    out
}

fn occurs_at_exec(s: &Vec<char>, t: &Vec<char>, i: usize) -> (r: bool)
    ensures
        r == occurs_at(s@, t@, i as int),
{
    if i > s.len() || t.len() > s.len() - i {
        return false;
    }
    let sl = s.len();
    let mut k: usize = 0;
    while k < t.len()
        invariant
            sl == s@.len(),
            i + t@.len() <= s@.len(),
            k <= t@.len(),
            forall|j: int| 0 <= j < k ==> s@[i + j] == t@[j],
        decreases t@.len() - k,
    {
        if s[i + k] != t[k] {
            assert(s@.subrange(i as int, i + t@.len())[k as int] != t@[k as int]);
            return false;
        }
        k = k + 1;
    }
    assert(s@.subrange(i as int, i + t@.len()) =~= t@);
    true
}

/// Whether `t` occurs in `s`.
fn contains_exec(s: &Vec<char>, t: &Vec<char>) -> (r: bool)
    ensures
        r == contains_seq(s@, t@),
{
    if t.len() > s.len() {
        return false;
    }
    let sl = s.len();
    let mut i: usize = 0;
    loop
        invariant
            sl == s@.len(),
            t@.len() <= s@.len(),
            i <= s@.len() - t@.len(),
            forall|j: int| 0 <= j < i ==> !occurs_at(s@, t@, j),
        decreases s@.len() - t@.len() - i,
    {
        if occurs_at_exec(s, t, i) {
            return true;
        }
        if i == sl - t.len() {
            assert forall|j: int| !occurs_at(s@, t@, j) by {
                if 0 <= j <= i {
                }
            }
            return false;
        }
        i = i + 1;
    }
}

/// Start of the text after the last occurrence of `t`, or 0 when it does not occur.
fn start_after_last(s: &Vec<char>, t: &Vec<char>) -> (r: usize)
    ensures
        r <= s@.len(),
        s@.subrange(r as int, s@.len() as int) == after_last(s@, t@),
{
    if t.len() > s.len() {
        assert(last_occurrence_upto(s@, t@, s@.len() - t@.len()) == -1);
        assert(s@.subrange(0, s@.len() as int) =~= s@);
        return 0;
    }
    let sl = s.len();
    let mut i: usize = s.len() - t.len();
    loop
        invariant
            sl == s@.len(),
            t@.len() <= s@.len(),
            i <= s@.len() - t@.len(),
            last_occurrence_upto(s@, t@, s@.len() - t@.len()) == last_occurrence_upto(
                s@,
                t@,
                i as int,
            ),
        decreases i,
    {
        if occurs_at_exec(s, t, i) {
            return i + t.len();
        }
        if i == 0 {
            assert(last_occurrence_upto(s@, t@, -1) == -1);
            assert(s@.subrange(0, s@.len() as int) =~= s@);
            return 0;
        }
        i = i - 1;
    }
}

/// `s[from..]` with every `_` removed.
fn strip_from(s: &str, from: usize) -> (r: String)
    requires
        from <= s@.len(),
    ensures
        r@ == strip_separators(s@.subrange(from as int, s@.len() as int)),
{
    let n = s.unicode_len();
    let mut out = String::new();
    let mut i: usize = from;
    while i < n
        invariant
            n == s@.len(),
            from <= i <= n,
            out@ == strip_separators(s@.subrange(from as int, i as int)),
        decreases n - i,
    {
        let c = s.get_char(i);
        let ghost pre = s@.subrange(from as int, i as int + 1);
        assert(pre.drop_last() =~= s@.subrange(from as int, i as int));
        assert(pre.last() == c);
        if c != '_' {
            let piece = s.substring_char(i, i + 1);
            assert(piece@ =~= seq![c]);
            out.append(piece);
            assert(out@ =~= strip_separators(pre));
        }
        i = i + 1;
    }
    out
}

/// The instrument named by `name` after the last `token`, with separators stripped.
pub fn extract_instrument(name: &str, token: &str) -> (r: String)
    ensures
        r@ == instrument_of(name@, token@),
{
    let s = chars_of(name);
    let t = chars_of(token);
    let start = start_after_last(&s, &t);
    strip_from(name, start)
}

/// Classify an inbound event name and extract the instrument it names.
/// Tokens are tried in the order executions, ticker, board_snapshot, board, kicked.
pub fn classify_event(name: &str) -> (r: FeedMessage)
    ensures
        classified(name@, r),
{
    let s = chars_of(name);
    let executions = chars_of("executions");
    if contains_exec(&s, &executions) {
        return FeedMessage::Executions(extract_instrument(name, "executions_"));
    }
    let ticker = chars_of("ticker");
    if contains_exec(&s, &ticker) {
        return FeedMessage::Ticker;
    }
    let snapshot = chars_of("board_snapshot");
    if contains_exec(&s, &snapshot) {
        return FeedMessage::BoardSnapshot(extract_instrument(name, "board_snapshot_"));
    }
    let board = chars_of("board");
    if contains_exec(&s, &board) {
        return FeedMessage::BoardDelta(extract_instrument(name, "board_"));
    }
    let kicked = chars_of("kicked");
    if contains_exec(&s, &kicked) {
        return FeedMessage::Kicked;
    }
    FeedMessage::Unknown
}

} // verus!
