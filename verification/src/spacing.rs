//! Whitespace and the token sequence: where whitespace may come and go
//! without changing what the lexer yields.

use crate::tokenize::{
    in_class, is_digit, is_whitespace, is_word_start, lemma_run_len_bound, lemma_step_progress,
    lex_all, lex_step, run_len, CharClass, LexStep, Location, TokenDataView, TokenFeed, TokenView,
    TokenizerError,
};
use vstd::prelude::*;

verus! {

/// What the tokens are, without where they stand.
pub open spec fn token_data(tokens: Seq<TokenView>) -> Seq<TokenDataView> {
    Seq::new(tokens.len(), |i: int| tokens[i].data)
}

/// The two feeds hold the same tokens, but for where they stand, and end in
/// the same way.
pub open spec fn reads_alike(first: TokenFeed, second: TokenFeed) -> bool {
    token_data(first.tokens) =~= token_data(second.tokens) && first.error == second.error
}

/// What a step yields, without where it stands.
pub open spec fn step_data(step: LexStep) -> Result<Option<TokenDataView>, TokenizerError> {
    match step.result {
        Ok(Some(token)) => Ok(Some(token.data)),
        Ok(None) => Ok(None),
        Err(error) => Err(error),
    }
}

/// Whether the position `position` of `source` lies between tokens: before
/// the first token, after the last one, or between two, the whitespace that
/// there is between them included.
pub open spec fn between_tokens(source: Seq<char>, position: int) -> bool
    decreases source.len(),
{
    let step = lex_step(source, Location::start());
    let taken = source.len() - step.rest.len();
    ||| 0 <= position <= run_len(source, CharClass::Whitespace)
    ||| {
        &&& step_data(step) matches Ok(Some(_))
        &&& step.rest.len() < source.len()
        &&& taken <= position
        &&& between_tokens(step.rest, position - taken)
    }
}

/// The characters of a run are all of its class, and the character after
/// the run, if there is one, is not.
pub proof fn lemma_run_len_facts(s: Seq<char>, class: CharClass)
    ensures
        run_len(s, class) <= s.len(),
        forall|i: int| 0 <= i < run_len(s, class) ==> in_class(class, #[trigger] s[i]),
        run_len(s, class) < s.len() ==> !in_class(class, s[run_len(s, class) as int]),
    decreases s.len(),
{
    if s.len() > 0 && in_class(class, s[0]) {
        lemma_run_len_facts(s.skip(1), class);
        assert forall|i: int| 0 <= i < run_len(s, class) implies in_class(
            class,
            #[trigger] s[i],
        ) by {
            if i > 0 {
                assert(s[i] == s.skip(1)[i - 1]);
            }
        }
        if run_len(s, class) < s.len() {
            assert(s[run_len(s, class) as int] == s.skip(1)[run_len(s.skip(1), class) as int]);
        }
    }
}

/// A prefix of characters of one class, with no character of that class
/// after it, is the run.
pub proof fn lemma_run_len_is(s: Seq<char>, class: CharClass, n: int)
    requires
        0 <= n <= s.len(),
        forall|i: int| 0 <= i < n ==> in_class(class, #[trigger] s[i]),
        n < s.len() ==> !in_class(class, s[n]),
    ensures
        run_len(s, class) == n,
    decreases n,
{
    if n > 0 {
        assert(in_class(class, s[0]));
        assert forall|i: int| 0 <= i < n - 1 implies in_class(class, #[trigger] s.skip(1)[i]) by {
            assert(s.skip(1)[i] == s[i + 1]);
        }
        lemma_run_len_is(s.skip(1), class, n - 1);
    }
}

/// Where the lexer stands does not change what a step yields or leaves,
/// but for where the token stands.
pub proof fn lemma_step_ignores_location(source: Seq<char>, first: Location, second: Location)
    ensures
        step_data(lex_step(source, first)) == step_data(lex_step(source, second)),
        lex_step(source, first).rest == lex_step(source, second).rest,
{
}

/// Where the lexer starts does not change the tokens, but for where they
/// stand.
pub proof fn lemma_location_is_irrelevant(source: Seq<char>, first: Location, second: Location)
    ensures
        reads_alike(lex_all(source, first), lex_all(source, second)),
    decreases source.len(),
{
    let one = lex_step(source, first);
    let other = lex_step(source, second);
    lemma_step_ignores_location(source, first, second);
    if one.result is Ok && one.result->Ok_0 is Some {
        let token = one.result->Ok_0->Some_0;
        if one.rest.len() < source.len() {
            lemma_location_is_irrelevant(one.rest, one.location, other.location);
            lemma_reads_alike_after(
                token,
                other.result->Ok_0->Some_0,
                lex_all(one.rest, one.location),
                lex_all(other.rest, other.location),
            );
        }
    }
}

/// Feeds that read alike still do so with one more token in front, the
/// same in both but for where it stands.
pub proof fn lemma_reads_alike_after(
    first: TokenView,
    second: TokenView,
    one: TokenFeed,
    other: TokenFeed,
)
    requires
        first.data == second.data,
        reads_alike(one, other),
    ensures
        reads_alike(
            TokenFeed { tokens: seq![first] + one.tokens, error: one.error },
            TokenFeed { tokens: seq![second] + other.tokens, error: other.error },
        ),
{
    let a = seq![first] + one.tokens;
    let b = seq![second] + other.tokens;
    assert(token_data(one.tokens).len() == token_data(other.tokens).len());
    assert forall|i: int| 0 <= i < a.len() implies token_data(a)[i] == token_data(b)[i] by {
        if i > 0 {
            assert(token_data(one.tokens)[i - 1] == token_data(other.tokens)[i - 1]);
        }
    }
}

/// A step that yields a token reads only as far as one character past the
/// token: a source that agrees with `source` up to the end of the token,
/// and goes on with the same character, with whitespace, or not at all,
/// gives the same token and is read as far.
pub proof fn lemma_step_is_local(
    source: Seq<char>,
    at: Location,
    other: Seq<char>,
    other_at: Location,
)
    requires
        step_data(lex_step(source, at)) matches Ok(Some(_)),
        ({
            let taken = source.len() - lex_step(source, at).rest.len();
            &&& taken <= other.len()
            &&& other.take(taken) == source.take(taken)
            &&& (other.len() == taken || is_whitespace(other[taken]) || (source.len() > taken
                && other[taken] == source[taken]))
        }),
    ensures
        step_data(lex_step(other, other_at)) == step_data(lex_step(source, at)),
        lex_step(other, other_at).rest == other.skip(
            source.len() - lex_step(source, at).rest.len(),
        ),
        0 < source.len() - lex_step(source, at).rest.len() <= source.len(),
{
    let blank = run_len(source, CharClass::Whitespace) as int;
    lemma_run_len_facts(source, CharClass::Whitespace);
    let s = source.skip(blank);
    lemma_run_len_facts(s, CharClass::Word);
    lemma_run_len_facts(s, CharClass::Digit);
    let taken = source.len() - lex_step(source, at).rest.len();
    let n = taken - blank;
    assert(n >= 1);
    assert forall|i: int| 0 <= i < taken implies other[i] == source[i] by {
        assert(other.take(taken)[i] == source.take(taken)[i]);
    }
    assert forall|i: int| 0 <= i < blank implies in_class(
        CharClass::Whitespace,
        #[trigger] other[i],
    ) by {
        assert(other[i] == source[i]);
    }
    lemma_run_len_is(other, CharClass::Whitespace, blank);
    let o = other.skip(blank);
    assert(o[0] == s[0]);
    assert forall|i: int| 0 <= i < n implies o[i] == s[i] by {
        assert(o[i] == other[blank + i]);
        assert(s[i] == source[blank + i]);
    }
    if n < o.len() {
        assert(o[n] == other[taken]);
    }
    if n < s.len() {
        assert(s[n] == source[taken]);
    }
    if is_word_start(s[0]) {
        assert forall|i: int| 0 <= i < n implies in_class(CharClass::Word, #[trigger] o[i]) by {
            assert(o[i] == s[i]);
        }
        lemma_run_len_is(o, CharClass::Word, n);
        assert(o.take(n) =~= s.take(n));
    } else if is_digit(s[0]) {
        assert forall|i: int| 0 <= i < n implies in_class(CharClass::Digit, #[trigger] o[i]) by {
            assert(o[i] == s[i]);
        }
        lemma_run_len_is(o, CharClass::Digit, n);
        assert(o.take(n) =~= s.take(n));
    } else {
        if n == 2 {
            assert(o[1] == s[1]);
        }
    }
    assert(o.skip(n) =~= other.skip(taken));
}

/// Whitespace put in where whitespace may stand before the first token
/// changes neither what the first step yields nor what it leaves.
proof fn lemma_blank_before_token(source: Seq<char>, position: int, blank: char, at: Location, other_at: Location)
    requires
        0 <= position <= run_len(source, CharClass::Whitespace),
        is_whitespace(blank),
    ensures
        step_data(
            lex_step(source.take(position) + seq![blank] + source.skip(position), other_at),
        ) == step_data(lex_step(source, at)),
        lex_step(source.take(position) + seq![blank] + source.skip(position), other_at).rest
            == lex_step(source, at).rest,
{
    let run = run_len(source, CharClass::Whitespace) as int;
    lemma_run_len_facts(source, CharClass::Whitespace);
    let other = source.take(position) + seq![blank] + source.skip(position);
    assert forall|i: int| 0 <= i < run + 1 implies in_class(
        CharClass::Whitespace,
        #[trigger] other[i],
    ) by {
        if i < position {
            assert(other[i] == source[i]);
        } else if i > position {
            assert(other[i] == source[i - 1]);
        }
    }
    if run + 1 < other.len() {
        assert(other[run + 1] == source[run]);
    }
    lemma_run_len_is(other, CharClass::Whitespace, run + 1);
    assert(other.skip(run + 1) =~= source.skip(run));
}

/// A position between tokens is a position of the source.
pub proof fn lemma_between_tokens_bound(source: Seq<char>, position: int)
    requires
        between_tokens(source, position),
    ensures
        0 <= position <= source.len(),
    decreases source.len(),
{
    lemma_run_len_bound(source, CharClass::Whitespace);
    let step = lex_step(source, Location::start());
    lemma_step_progress(source, Location::start());
    if !(0 <= position <= run_len(source, CharClass::Whitespace)) {
        lemma_between_tokens_bound(step.rest, position - (source.len() - step.rest.len()));
    }
}

/// Whitespace between tokens is irrelevant to the token sequence: a
/// whitespace character put in at a position between tokens leaves the
/// tokens as they are, but for where they stand, and the lexer ends as it
/// ended: with the same error or with none.
pub proof fn lemma_whitespace_between_tokens(
    source: Seq<char>,
    position: int,
    blank: char,
    at: Location,
    other_at: Location,
)
    requires
        between_tokens(source, position),
        is_whitespace(blank),
    ensures
        reads_alike(
            lex_all(source.take(position) + seq![blank] + source.skip(position), other_at),
            lex_all(source, at),
        ),
    decreases source.len(),
{
    lemma_between_tokens_bound(source, position);
    let other = source.take(position) + seq![blank] + source.skip(position);
    let step = lex_step(source, at);
    let other_step = lex_step(other, other_at);
    lemma_step_ignores_location(source, at, Location::start());
    lemma_step_progress(source, at);
    lemma_step_progress(other, other_at);
    if 0 <= position <= run_len(source, CharClass::Whitespace) {
        lemma_blank_before_token(source, position, blank, at, other_at);
        if step.result is Ok && step.result->Ok_0 is Some {
            let token = step.result->Ok_0->Some_0;
            lemma_location_is_irrelevant(step.rest, other_step.location, step.location);
            lemma_reads_alike_after(
                other_step.result->Ok_0->Some_0,
                token,
                lex_all(other_step.rest, other_step.location),
                lex_all(step.rest, step.location),
            );
        }
    } else {
        let taken = source.len() - step.rest.len();
        let rest = step.rest;
        let token = step.result->Ok_0->Some_0;
        lemma_between_tokens_bound(rest, position - taken);
        lemma_step_rest_is_suffix(source, at);
        let other_rest = rest.take(position - taken) + seq![blank] + rest.skip(position - taken);
        assert(other =~= source.take(taken) + other_rest);
        assert(other.take(taken) =~= source.take(taken));
        if position - taken > 0 {
            assert(other[taken] == other_rest[0]);
            assert(other_rest[0] == rest[0]);
            assert(rest[0] == source[taken]);
        } else {
            assert(other[taken] == blank);
        }
        lemma_step_is_local(source, at, other, other_at);
        assert(other.skip(taken) =~= other_rest);
        lemma_whitespace_between_tokens(
            rest,
            position - taken,
            blank,
            step.location,
            other_step.location,
        );
        lemma_reads_alike_after(
            other_step.result->Ok_0->Some_0,
            token,
            lex_all(other_rest, other_step.location),
            lex_all(rest, step.location),
        );
    }
}

/// What a step leaves is the end of what it was given.
pub proof fn lemma_step_rest_is_suffix(source: Seq<char>, at: Location)
    ensures
        lex_step(source, at).rest.len() <= source.len(),
        lex_step(source, at).rest == source.skip(source.len() - lex_step(source, at).rest.len()),
{
    let blank = run_len(source, CharClass::Whitespace) as int;
    lemma_run_len_bound(source, CharClass::Whitespace);
    let s = source.skip(blank);
    if s.len() > 0 {
        lemma_run_len_bound(s, CharClass::Word);
        lemma_run_len_bound(s, CharClass::Digit);
        let n = s.len() - lex_step(source, at).rest.len();
        assert(s.skip(n) =~= source.skip(blank + n));
    } else {
        assert(s =~= source.skip(source.len() as int));
    }
}

/// Whether every character of `blanks` is whitespace.
pub open spec fn all_whitespace(blanks: Seq<char>) -> bool {
    forall|i: int| 0 <= i < blanks.len() ==> is_whitespace(#[trigger] blanks[i])
}

/// Whether `wider` is `source` with a run of whitespace put in at a
/// position between tokens.
pub open spec fn spaced_out(source: Seq<char>, wider: Seq<char>) -> bool {
    exists|position: int, blanks: Seq<char>|
        #![trigger source.take(position) + blanks]
        between_tokens(source, position) && all_whitespace(blanks) && wider == source.take(
            position,
        ) + blanks + source.skip(position)
}

/// Whether the sources of `chain` differ from one to the next only by a run
/// of whitespace between tokens: one that was put in, or one that was
/// taken out without two tokens running together. A run that is replaced
/// by another is a run put in and a run taken out.
pub open spec fn differ_in_spacing(chain: Seq<Seq<char>>) -> bool {
    forall|i: int|
        #![trigger chain[i]]
        0 <= i < chain.len() - 1 ==> spaced_out(chain[i], chain[i + 1]) || spaced_out(
            chain[i + 1],
            chain[i],
        )
}

/// Reading alike is symmetric and transitive.
pub proof fn lemma_reads_alike_chain(first: TokenFeed, second: TokenFeed, third: TokenFeed)
    requires
        reads_alike(first, second),
        reads_alike(second, third),
    ensures
        reads_alike(second, first),
        reads_alike(first, third),
{
}

/// With whitespace put in at a position between tokens, the position still
/// lies between tokens.
pub proof fn lemma_between_tokens_stays(source: Seq<char>, position: int, blank: char)
    requires
        between_tokens(source, position),
        is_whitespace(blank),
    ensures
        between_tokens(source.take(position) + seq![blank] + source.skip(position), position),
    decreases source.len(),
{
    lemma_between_tokens_bound(source, position);
    let at = Location::start();
    let other = source.take(position) + seq![blank] + source.skip(position);
    let step = lex_step(source, at);
    lemma_step_progress(source, at);
    lemma_step_progress(other, at);
    if 0 <= position <= run_len(source, CharClass::Whitespace) {
        let run = run_len(source, CharClass::Whitespace) as int;
        lemma_run_len_facts(source, CharClass::Whitespace);
        assert forall|i: int| 0 <= i < run + 1 implies in_class(
            CharClass::Whitespace,
            #[trigger] other[i],
        ) by {
            if i < position {
                assert(other[i] == source[i]);
            } else if i > position {
                assert(other[i] == source[i - 1]);
            }
        }
        if run + 1 < other.len() {
            assert(other[run + 1] == source[run]);
        }
        lemma_run_len_is(other, CharClass::Whitespace, run + 1);
    } else {
        let taken = source.len() - step.rest.len();
        let rest = step.rest;
        lemma_between_tokens_bound(rest, position - taken);
        lemma_step_rest_is_suffix(source, at);
        let other_rest = rest.take(position - taken) + seq![blank] + rest.skip(position - taken);
        assert(other =~= source.take(taken) + other_rest);
        assert(other.take(taken) =~= source.take(taken));
        if position - taken > 0 {
            assert(other[taken] == other_rest[0]);
            assert(other_rest[0] == rest[0]);
            assert(rest[0] == source[taken]);
        } else {
            assert(other[taken] == blank);
        }
        lemma_step_is_local(source, at, other, at);
        assert(other.skip(taken) =~= other_rest);
        lemma_between_tokens_stays(rest, position - taken, blank);
    }
}

/// A run of whitespace put in at a position between tokens leaves the
/// tokens as they are, but for where they stand.
pub proof fn lemma_whitespace_run_between_tokens(
    source: Seq<char>,
    position: int,
    blanks: Seq<char>,
    at: Location,
    other_at: Location,
)
    requires
        between_tokens(source, position),
        all_whitespace(blanks),
    ensures
        reads_alike(
            lex_all(source.take(position) + blanks + source.skip(position), other_at),
            lex_all(source, at),
        ),
    decreases blanks.len(),
{
    lemma_between_tokens_bound(source, position);
    if blanks.len() == 0 {
        assert(source.take(position) + blanks + source.skip(position) =~= source);
        lemma_location_is_irrelevant(source, other_at, at);
    } else {
        let blank = blanks.last();
        let front = blanks.drop_last();
        let one = source.take(position) + seq![blank] + source.skip(position);
        lemma_whitespace_between_tokens(source, position, blank, at, at);
        lemma_between_tokens_stays(source, position, blank);
        assert(all_whitespace(front)) by {
            assert forall|i: int| 0 <= i < front.len() implies is_whitespace(
                #[trigger] front[i],
            ) by {
                assert(front[i] == blanks[i]);
            }
        }
        lemma_whitespace_run_between_tokens(one, position, front, at, other_at);
        assert(one.take(position) + front + one.skip(position) =~= source.take(position) + blanks
            + source.skip(position));
    }
}

/// Whitespace between tokens is irrelevant to the token sequence: sources
/// that differ only in the whitespace before, between and after their
/// tokens, by runs put in, taken out or replaced in any number, give the
/// same tokens, but for where they stand, and end in the same way.
pub proof fn lemma_spacing_is_irrelevant(chain: Seq<Seq<char>>, at: Location, other_at: Location)
    requires
        chain.len() > 0,
        differ_in_spacing(chain),
    ensures
        reads_alike(lex_all(chain.first(), at), lex_all(chain.last(), other_at)),
    decreases chain.len(),
{
    if chain.len() == 1 {
        lemma_location_is_irrelevant(chain.first(), at, other_at);
    } else {
        let shorter = chain.drop_last();
        assert(differ_in_spacing(shorter)) by {
            assert forall|i: int| #![trigger shorter[i]] 0 <= i < shorter.len() - 1 implies spaced_out(
                shorter[i],
                shorter[i + 1],
            ) || spaced_out(shorter[i + 1], shorter[i]) by {
                assert(shorter[i] == chain[i]);
                assert(shorter[i + 1] == chain[i + 1]);
            }
        }
        lemma_spacing_is_irrelevant(shorter, at, at);
        let before = chain[chain.len() - 2];
        let last = chain.last();
        assert(shorter.last() == before);
        assert(shorter.first() == chain.first());
        assert(chain[chain.len() - 2 + 1] == last);
        if spaced_out(before, last) {
            let (position, blanks) = choose|position: int, blanks: Seq<char>|
                #![trigger before.take(position) + blanks]
                between_tokens(before, position) && all_whitespace(blanks) && last == before.take(
                    position,
                ) + blanks + before.skip(position);
            lemma_whitespace_run_between_tokens(before, position, blanks, at, other_at);
        } else {
            let (position, blanks) = choose|position: int, blanks: Seq<char>|
                #![trigger last.take(position) + blanks]
                between_tokens(last, position) && all_whitespace(blanks) && before == last.take(
                    position,
                ) + blanks + last.skip(position);
            lemma_whitespace_run_between_tokens(last, position, blanks, other_at, at);
        }
    }
}

} // verus!
