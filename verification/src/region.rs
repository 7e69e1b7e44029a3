//! What holds of every region that is taken out of a stream.
//!
//! A region is read the same whatever follows it; it begins and ends with its
//! pair and leaves no region open; and where none can be taken, the failure is
//! met at the first token or at the end of the stream, never in between.

use vstd::prelude::*;
use crate::error::{ErrorView, ParseErrorView};
use crate::lex::TokenView;
use crate::stream::{
    follows, lemma_follows_end, lemma_follows_skip, lemma_region_takes_prefix,
    lemma_scan_takes_prefix, Stream,
};
use crate::token::TokenKind;

verus! {

/// The number of regions that are open after `tokens`, where `level` were open
/// before them. A token of kind `end` closes one, a token of kind `start`
/// opens one. A quoted string of another kind than `start` counts for nothing,
/// and where `escapes` holds, neither does a backslash with the token behind it.
pub open spec fn level_after(
    tokens: Seq<TokenView>,
    start: TokenKind,
    end: TokenKind,
    escapes: bool,
    level: int,
) -> int
    decreases tokens.len(),
{
    if tokens.len() == 0 {
        level
    } else if tokens[0].kind.quotes() && tokens[0].kind != start {
        match Stream::of_tokens(tokens).region(tokens[0].kind, tokens[0].kind, true) {
            Ok((_, rest)) => if rest.tokens.len() < tokens.len() {
                level_after(rest.tokens, start, end, escapes, level)
            } else {
                level
            },
            Err(_) => level,
        }
    } else if escapes && tokens[0].kind == TokenKind::Backslash {
        if tokens.len() == 1 {
            level
        } else {
            level_after(tokens.skip(2), start, end, escapes, level)
        }
    } else if tokens[0].kind == end {
        level_after(tokens.skip(1), start, end, escapes, level - 1)
    } else if tokens[0].kind == start {
        level_after(tokens.skip(1), start, end, escapes, level + 1)
    } else {
        level_after(tokens.skip(1), start, end, escapes, level)
    }
}

/// `head` stands at the front of `tokens`.
pub open spec fn begins_with(tokens: Seq<TokenView>, head: Seq<TokenView>) -> bool {
    head.len() <= tokens.len() && tokens.take(head.len() as int) == head
}

/// Tokens that begin with `a + b` begin with `a`, and behind `a` they begin
/// with `b`.
proof fn lemma_begins_with_both(tokens: Seq<TokenView>, a: Seq<TokenView>, b: Seq<TokenView>)
    requires
        begins_with(tokens, a + b),
    ensures
        begins_with(tokens, a),
        begins_with(tokens.skip(a.len() as int), b),
        tokens.skip(a.len() as int).skip(b.len() as int) == tokens.skip((a + b).len() as int),
{
    let whole = a + b;
    assert(tokens.take(a.len() as int) =~= whole.take(a.len() as int));
    assert(whole.take(a.len() as int) =~= a);
    assert(tokens.skip(a.len() as int).take(b.len() as int) =~= whole.skip(a.len() as int));
    assert(whole.skip(a.len() as int) =~= b);
    assert(tokens.skip(a.len() as int).skip(b.len() as int) =~= tokens.skip(whole.len() as int));
}

/// The first of the tokens that a scan takes is the first token of the stream.
proof fn lemma_scan_takes_first(
    s: Stream,
    start: TokenKind,
    end: TokenKind,
    escapes: bool,
    level: nat,
)
    requires
        s.scan(start, end, escapes, level) is Ok,
    ensures
        s.tokens.len() > 0,
        s.scan(start, end, escapes, level)->Ok_0.0.len() > 0,
        s.scan(start, end, escapes, level)->Ok_0.0[0] == s.tokens[0],
{
    lemma_scan_takes_prefix(s, start, end, escapes, level);
    let taken = s.scan(start, end, escapes, level)->Ok_0.0;
    let rest = s.scan(start, end, escapes, level)->Ok_0.1;
    assert((taken + rest.tokens)[0] == taken[0]);
}

/// A scan goes by the tokens that it takes alone: on any stream that begins
/// with them it takes the same tokens, and leaves what follows them.
pub proof fn lemma_scan_local(
    s: Stream,
    t: Stream,
    start: TokenKind,
    end: TokenKind,
    escapes: bool,
    level: nat,
)
    requires
        s.scan(start, end, escapes, level) is Ok,
        begins_with(t.tokens, s.scan(start, end, escapes, level)->Ok_0.0),
    ensures
        t.scan(start, end, escapes, level) == Ok::<(Seq<TokenView>, Stream), (ErrorView, Stream)>(
            (
                s.scan(start, end, escapes, level)->Ok_0.0,
                t.skip(s.scan(start, end, escapes, level)->Ok_0.0.len() as int),
            ),
        ),
    decreases s.tokens.len(), 1nat,
{
    let taken = s.scan(start, end, escapes, level)->Ok_0.0;
    lemma_scan_takes_first(s, start, end, escapes, level);
    let token = s.tokens[0];
    assert(t.tokens[0] == token) by {
        assert(t.tokens.take(taken.len() as int)[0] == t.tokens[0]);
    }
    if token.kind.quotes() && token.kind != start {
        let q = token.kind;
        lemma_region_takes_prefix(s, q, q, true);
        let quoted = s.region(q, q, true)->Ok_0.0;
        let s1 = s.region(q, q, true)->Ok_0.1;
        let more = s1.scan(start, end, escapes, level)->Ok_0.0;
        assert(taken == quoted + more);
        lemma_begins_with_both(t.tokens, quoted, more);
        lemma_region_local(s, t, q, q, true);
        let t1 = t.skip(quoted.len() as int);
        lemma_scan_local(s1, t1, start, end, escapes, level);
        assert(t1.skip(more.len() as int) == t.skip(taken.len() as int));
    } else if escapes && token.kind == TokenKind::Backslash {
        let s1 = s.skip(2);
        let more = s1.scan(start, end, escapes, level)->Ok_0.0;
        let pair = s.tokens.take(2);
        assert(taken == pair + more);
        lemma_begins_with_both(t.tokens, pair, more);
        assert(t.tokens.take(2) == pair);
        let t1 = t.skip(2);
        lemma_scan_local(s1, t1, start, end, escapes, level);
        assert(t1.skip(more.len() as int) == t.skip(taken.len() as int));
    } else if token.kind == end && level <= 1 {
        assert(taken == seq![token]);
    } else {
        let next_level = if token.kind == end {
            (level - 1) as nat
        } else if token.kind == start {
            level + 1
        } else {
            level
        };
        let s1 = s.skip(1);
        let more = s1.scan(start, end, escapes, next_level)->Ok_0.0;
        let one = seq![token];
        assert(taken == one + more);
        lemma_begins_with_both(t.tokens, one, more);
        let t1 = t.skip(1);
        lemma_scan_local(s1, t1, start, end, escapes, next_level);
        assert(t1.skip(more.len() as int) == t.skip(taken.len() as int));
    }
}

/// A region is read the same whatever follows it: on any stream that begins
/// with the tokens of the region, the same region is taken, and what follows
/// it is left.
pub proof fn lemma_region_local(
    s: Stream,
    t: Stream,
    start: TokenKind,
    end: TokenKind,
    escapes: bool,
)
    requires
        s.region(start, end, escapes) is Ok,
        begins_with(t.tokens, s.region(start, end, escapes)->Ok_0.0),
    ensures
        t.region(start, end, escapes) == Ok::<(Seq<TokenView>, Stream), (ErrorView, Stream)>(
            (
                s.region(start, end, escapes)->Ok_0.0,
                t.skip(s.region(start, end, escapes)->Ok_0.0.len() as int),
            ),
        ),
    decreases s.tokens.len(), 0nat,
{
    let tokens = s.region(start, end, escapes)->Ok_0.0;
    lemma_region_takes_prefix(s, start, end, escapes);
    let opener = s.tokens[0];
    assert(tokens[0] == opener);
    assert(t.tokens[0] == opener) by {
        assert(t.tokens.take(tokens.len() as int)[0] == t.tokens[0]);
    }
    let s1 = s.skip(1);
    let more = s1.scan(start, end, escapes, 1)->Ok_0.0;
    let one = seq![opener];
    assert(tokens == one + more);
    lemma_begins_with_both(t.tokens, one, more);
    let t1 = t.skip(1);
    lemma_scan_local(s1, t1, start, end, escapes, 1);
    assert(t1.skip(more.len() as int) == t.skip(tokens.len() as int));
}

/// The tokens that a scan takes close all the regions that were open: after
/// them none is open.
pub proof fn lemma_scan_balanced(
    s: Stream,
    start: TokenKind,
    end: TokenKind,
    escapes: bool,
    level: nat,
)
    requires
        level >= 1,
    ensures
        s.scan(start, end, escapes, level) matches Ok((taken, _)) ==> level_after(
            taken,
            start,
            end,
            escapes,
            level as int,
        ) == 0,
    decreases s.tokens.len(),
{
    if let Ok((taken, rest)) = s.scan(start, end, escapes, level) {
        lemma_scan_takes_first(s, start, end, escapes, level);
        let token = s.tokens[0];
        if token.kind.quotes() && token.kind != start {
            let q = token.kind;
            lemma_region_takes_prefix(s, q, q, true);
            let quoted = s.region(q, q, true)->Ok_0.0;
            let s1 = s.region(q, q, true)->Ok_0.1;
            let more = s1.scan(start, end, escapes, level)->Ok_0.0;
            assert(taken == quoted + more);
            let own = Stream::of_tokens(taken);
            assert(begins_with(own.tokens, quoted)) by {
                assert(taken.take(quoted.len() as int) =~= quoted);
            }
            lemma_region_local(s, own, q, q, true);
            assert(own.skip(quoted.len() as int).tokens =~= more);
            lemma_scan_balanced(s1, start, end, escapes, level);
            assert(level_after(taken, start, end, escapes, level as int) == level_after(
                more,
                start,
                end,
                escapes,
                level as int,
            ));
        } else if escapes && token.kind == TokenKind::Backslash {
            let s1 = s.skip(2);
            let more = s1.scan(start, end, escapes, level)->Ok_0.0;
            assert(taken == s.tokens.take(2) + more);
            assert(taken.skip(2) =~= more);
            lemma_scan_balanced(s1, start, end, escapes, level);
            assert(level_after(taken, start, end, escapes, level as int) == level_after(
                more,
                start,
                end,
                escapes,
                level as int,
            ));
        } else if token.kind == end && level <= 1 {
            assert(taken =~= seq![token]);
            assert(taken.skip(1).len() == 0);
            assert(level_after(taken, start, end, escapes, level as int) == level_after(
                taken.skip(1),
                start,
                end,
                escapes,
                level - 1,
            ));
        } else {
            let next_level = if token.kind == end {
                (level - 1) as nat
            } else if token.kind == start {
                level + 1
            } else {
                level
            };
            let s1 = s.skip(1);
            let more = s1.scan(start, end, escapes, next_level)->Ok_0.0;
            assert(taken == seq![token] + more);
            assert(taken.skip(1) =~= more);
            lemma_scan_balanced(s1, start, end, escapes, next_level);
            assert(level_after(taken, start, end, escapes, level as int) == level_after(
                more,
                start,
                end,
                escapes,
                next_level as int,
            ));
        }
    }
}

/// A scan fails at the end of the stream only: because of the fault that lies
/// there, or else because a region, or a quoted string in it, is not closed
/// or a backslash has nothing behind it.
pub proof fn lemma_scan_fails_at_end(
    s: Stream,
    start: TokenKind,
    end: TokenKind,
    escapes: bool,
    level: nat,
)
    ensures
        s.scan(start, end, escapes, level) matches Err((e, at)) ==> {
            &&& at.tokens.len() == 0
            &&& at.fault == s.fault
            &&& match s.fault {
                Some(fault) => e == ErrorView::Decode(fault),
                None => e matches ErrorView::Parse(ParseErrorView::Unbalanced(_, _)) || e
                    == ErrorView::Parse(ParseErrorView::EndAfterEscape),
            }
        },
    decreases s.tokens.len(), 1nat,
{
    if s.tokens.len() > 0 {
        let token = s.tokens[0];
        if token.kind.quotes() && token.kind != start {
            let q = token.kind;
            lemma_region_takes_prefix(s, q, q, true);
            lemma_scan_fails_at_end(s.skip(1), q, q, true, 1);
            if let Ok((_, rest)) = s.region(q, q, true) {
                lemma_scan_fails_at_end(rest, start, end, escapes, level);
            }
        } else if escapes && token.kind == TokenKind::Backslash {
            if s.tokens.len() > 1 {
                lemma_scan_fails_at_end(s.skip(2), start, end, escapes, level);
            }
        } else if token.kind == end && level <= 1 {
        } else {
            let next_level = if token.kind == end {
                (level - 1) as nat
            } else if token.kind == start {
                level + 1
            } else {
                level
            };
            lemma_scan_fails_at_end(s.skip(1), start, end, escapes, next_level);
        }
    }
}

/// Taking a region gives the whole region or a failure, and never less than
/// the region. The region that is given begins with a token of kind `start`
/// and ends with one of kind `end`; it is the front of the stream as it
/// stands, token by token, and the rest of the stream follows it; and its
/// tokens leave no region open. Without `keep` the first and the last token
/// are left out and nothing else. A failure is met at the first token, which
/// is missing or of another kind, or at the end of the stream.
pub proof fn lemma_find_pair_balanced(
    s: Stream,
    start: TokenKind,
    end: TokenKind,
    keep: bool,
    escapes: bool,
)
    ensures
        match s.find_pair(start, end, keep, escapes) {
            Ok((found, rest)) => {
                let whole = s.tokens.take(s.tokens.len() - rest.tokens.len());
                &&& found.fault is None
                &&& rest == s.skip(whole.len() as int)
                &&& whole.len() >= 2
                &&& whole.first().kind == start
                &&& whole.last().kind == end
                &&& level_after(whole.skip(1), start, end, escapes, 1) == 0
                &&& keep ==> found.tokens == whole
                &&& !keep ==> found.tokens == whole.subrange(1, whole.len() - 1)
            },
            Err((e, at)) => {
                ||| s.tokens.len() == 0 && at == s && e == s.at_end(ParseErrorView::EndOfInput)
                ||| s.tokens.len() > 0 && at == s.skip(1) && e == ErrorView::Parse(
                    ParseErrorView::ExpectedKind(start, s.tokens[0].kind),
                ) && s.tokens[0].kind != start
                ||| s.tokens.len() > 0 && s.tokens[0].kind == start && at.tokens.len() == 0
                    && at.fault == s.fault && match s.fault {
                    Some(fault) => e == ErrorView::Decode(fault),
                    None => e matches ErrorView::Parse(ParseErrorView::Unbalanced(_, _)) || e
                        == ErrorView::Parse(ParseErrorView::EndAfterEscape),
                }
            },
        },
{
    lemma_region_takes_prefix(s, start, end, escapes);
    if s.tokens.len() > 0 && s.tokens[0].kind == start {
        lemma_scan_fails_at_end(s.skip(1), start, end, escapes, 1);
        lemma_scan_balanced(s.skip(1), start, end, escapes, 1);
        if let Ok((tokens, rest)) = s.region(start, end, escapes) {
            let whole = s.tokens.take(s.tokens.len() - rest.tokens.len());
            assert(whole =~= tokens);
            assert(s.tokens.skip(tokens.len() as int) =~= rest.tokens);
            let more = s.skip(1).scan(start, end, escapes, 1)->Ok_0.0;
            assert(tokens.skip(1) =~= more);
        }
    }
}

/// Taking a region moves the stream forward: past the region, which has two
/// tokens at least, or to where the failure was met.
pub proof fn lemma_find_pair_forward(
    s: Stream,
    start: TokenKind,
    end: TokenKind,
    keep: bool,
    escapes: bool,
)
    ensures
        match s.find_pair(start, end, keep, escapes) {
            Ok((_, rest)) => follows(rest, s) && rest.tokens.len() + 2 <= s.tokens.len(),
            Err((_, at)) => follows(at, s),
        },
{
    lemma_find_pair_balanced(s, start, end, keep, escapes);
    lemma_region_takes_prefix(s, start, end, escapes);
    match s.find_pair(start, end, keep, escapes) {
        Ok((_, rest)) => {
            let tokens = s.region(start, end, escapes)->Ok_0.0;
            assert(s.tokens.len() == tokens.len() + rest.tokens.len()) by {
                assert((tokens + rest.tokens).len() == tokens.len() + rest.tokens.len());
            }
            lemma_follows_skip(s, s.tokens.len() - rest.tokens.len());
        },
        Err((_, at)) => {
            if s.tokens.len() == 0 {
                lemma_follows_skip(s, 0);
            } else if s.tokens[0].kind != start {
                lemma_follows_skip(s, 1);
            } else {
                lemma_follows_end(s, at);
            }
        },
    }
}

} // verus!
