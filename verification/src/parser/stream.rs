//! Token streams.
//!
//! A token stream is the sequence of the tokens that are still to come, the
//! current one first; behind its end every token is the end-of-input marker.
use vstd::prelude::*;

use crate::lexer::SpecToken;

verus! {

/// The token at index `i` of the stream: the end-of-input marker behind its
/// end.
#[verifier::opaque]
pub open spec fn token_at(s: Seq<SpecToken>, i: nat) -> SpecToken {
    if i < s.len() {
        s[i as int]
    } else {
        SpecToken::Eof
    }
}

/// The stream after the cursor has moved by `n` tokens.
#[verifier::opaque]
pub open spec fn after(s: Seq<SpecToken>, n: nat) -> Seq<SpecToken> {
    if n <= s.len() {
        s.subrange(n as int, s.len() as int)
    } else {
        Seq::empty()
    }
}

/// Moving the cursor twice moves it by the sum.
pub broadcast proof fn lemma_after_after(s: Seq<SpecToken>, a: nat, b: nat)
    ensures
        #[trigger] after(after(s, a), b) == after(s, a + b),
{
    reveal(after);
    assert(after(after(s, a), b) =~= after(s, a + b));
}

/// The tokens of a moved stream are those of the stream, shifted.
pub broadcast proof fn lemma_token_at_after(s: Seq<SpecToken>, a: nat, i: nat)
    ensures
        #[trigger] token_at(after(s, a), i) == token_at(s, a + i),
{
    reveal(after);
    reveal(token_at);
}

/// Moving the cursor by nothing leaves the stream as it is.
pub broadcast proof fn lemma_after_zero(s: Seq<SpecToken>)
    ensures
        #[trigger] after(s, 0) == s,
{
    reveal(after);
    assert(after(s, 0) =~= s);
}

/// A moved stream is shorter by the tokens passed, and empty at the end.
pub broadcast proof fn lemma_after_len(s: Seq<SpecToken>, n: nat)
    ensures
        #[trigger] after(s, n).len() == if n <= s.len() {
            s.len() - n
        } else {
            0
        },
{
    reveal(after);
}

/// A token other than the end-of-input marker stands inside the stream.
pub broadcast proof fn lemma_token_at_inside(s: Seq<SpecToken>, i: nat)
    ensures
        #[trigger] token_at(s, i) != SpecToken::Eof ==> i < s.len(),
{
    reveal(token_at);
}

pub broadcast group group_stream {
    lemma_after_after,
    lemma_token_at_after,
    lemma_after_zero,
    lemma_after_len,
    lemma_token_at_inside,
}

} // verus!
