//! What holds of every command line: the scanner's rules seen from outside.

use vstd::prelude::*;
use crate::machine::{arguments_of, backslashes, feed, step, Machine, Phase, QuoteKind};
use crate::split::{is_solid, lemma_word_len_of_prefix, lemma_words_are_solid, split_whitespace};
use crate::units::{is_whitespace, Variant, BACKSLASH, DOUBLE_QUOTE, SINGLE_QUOTE};

verus! {

/// Whether every unit of `units` is a space or a tab.
pub open spec fn all_whitespace(units: Seq<u16>) -> bool {
    forall|i: int| 0 <= i < units.len() ==> is_whitespace(#[trigger] units[i])
}

/// Whether `units` holds no backslash and nothing that `variant` reads as a
/// quote.
pub open spec fn is_plain(units: Seq<u16>, variant: Variant) -> bool {
    forall|i: int|
        0 <= i < units.len() ==> {
            &&& (#[trigger] units[i]) != DOUBLE_QUOTE
            &&& units[i] != BACKSLASH
            &&& (variant == Variant::Generalized ==> units[i] != SINGLE_QUOTE)
        }
}

/// Feeding one unit is one step; the unit is the last of the line where no
/// more input follows.
pub proof fn lemma_feed_one(m: Machine, unit: u16, more: bool, variant: Variant)
    ensures
        feed(m, seq![unit], more, variant) == step(m, unit, !more, variant),
{
    let one = seq![unit];
    assert(one.skip(1).len() == 0);
    assert(feed(m, one, more, variant) == feed(
        step(m, one[0], !more, variant),
        one.skip(1),
        more,
        variant,
    ));
}

/// Feeding a line in two pieces is feeding it whole: the scanner keeps no
/// more of the first piece than its state.
pub proof fn lemma_feed_concat(m: Machine, a: Seq<u16>, b: Seq<u16>, more: bool, variant: Variant)
    ensures
        feed(m, a + b, more, variant) == feed(
            feed(m, a, more || b.len() > 0, variant),
            b,
            more,
            variant,
        ),
    decreases a.len(),
{
    if a.len() == 0 {
        assert(a + b =~= b);
    } else {
        assert((a + b).skip(1) =~= a.skip(1) + b);
        let last = !more && (a + b).len() == 1;
        lemma_feed_concat(step(m, a[0], last, variant), a.skip(1), b, more, variant);
    }
}

/// Whether a unit is the last of the line matters only to a backslash that
/// would otherwise lengthen a run.
pub proof fn lemma_last_matters_in_runs_only(m: Machine, unit: u16, variant: Variant)
    requires
        !(step(m, unit, false, variant).phase is OnBackslashRun) || !(m.phase is OnBackslashRun),
    ensures
        step(m, unit, true, variant) == step(m, unit, false, variant),
{
}

/// Where the scanner ends between tokens, it made no difference whether
/// more input was to follow.
pub proof fn lemma_outside_whatever_follows(m: Machine, units: Seq<u16>, variant: Variant)
    requires
        feed(m, units, true, variant).phase is OutsideToken,
    ensures
        feed(m, units, false, variant) == feed(m, units, true, variant),
    decreases units.len(),
{
    if units.len() == 0 {
    } else if units.len() == 1 {
        assert(units =~= seq![units[0]]);
        lemma_feed_one(m, units[0], true, variant);
        lemma_feed_one(m, units[0], false, variant);
        lemma_last_matters_in_runs_only(m, units[0], variant);
    } else {
        lemma_outside_whatever_follows(step(m, units[0], false, variant), units.skip(1), variant);
    }
}

/// Between tokens, whitespace leaves the scanner as it was.
pub proof fn lemma_whitespace_between_tokens(m: Machine, gap: Seq<u16>, more: bool, variant: Variant)
    requires
        m.phase is OutsideToken,
        all_whitespace(gap),
    ensures
        feed(m, gap, more, variant) == m,
    decreases gap.len(),
{
    if gap.len() > 0 {
        assert(is_whitespace(gap[0]));
        assert forall|i: int| 0 <= i < gap.skip(1).len() implies is_whitespace(
            #[trigger] gap.skip(1)[i],
        ) by {
            assert(gap.skip(1)[i] == gap[i + 1]);
        }
        lemma_whitespace_between_tokens(m, gap.skip(1), more, variant);
    }
}

/// A line of nothing but whitespace has no arguments.
pub proof fn lemma_whitespace_line_has_no_arguments(line: Seq<u16>, variant: Variant)
    requires
        all_whitespace(line),
    ensures
        arguments_of(line, variant) == Seq::<Seq<u16>>::empty(),
{
    lemma_whitespace_between_tokens(Machine::initial(), line, false, variant);
}

/// Between tokens, a run of whitespace of any length does what no
/// whitespace does: where the scanner stands outside a token after `head`,
/// the line with `gap` put in there has the arguments of the line without.
/// One separator is thus as good as many.
pub proof fn lemma_whitespace_run_collapses(
    head: Seq<u16>,
    gap: Seq<u16>,
    tail: Seq<u16>,
    variant: Variant,
)
    requires
        feed(Machine::initial(), head, true, variant).phase is OutsideToken,
        all_whitespace(gap),
    ensures
        arguments_of(head + gap + tail, variant) == arguments_of(head + tail, variant),
{
    let start = Machine::initial();
    let outside = feed(start, head, true, variant);
    lemma_outside_whatever_follows(start, head, variant);
    // the line with the gap
    assert(head + gap + tail =~= head + (gap + tail));
    lemma_feed_concat(start, head, gap + tail, false, variant);
    lemma_feed_concat(
        feed(start, head, (gap + tail).len() > 0, variant),
        gap,
        tail,
        false,
        variant,
    );
    lemma_whitespace_between_tokens(outside, gap, tail.len() > 0, variant);
    // the line without
    lemma_feed_concat(start, head, tail, false, variant);
}

/// A run of whitespace separates as one unit of whitespace does: where
/// `separator` after `head` leaves the scanner between tokens, any run of
/// spaces and tabs in its place gives the line the same arguments.
pub proof fn lemma_whitespace_run_is_one_separator(
    head: Seq<u16>,
    separator: u16,
    run: Seq<u16>,
    tail: Seq<u16>,
    variant: Variant,
)
    requires
        is_whitespace(separator),
        feed(Machine::initial(), head + seq![separator], true, variant).phase is OutsideToken,
        run.len() >= 1,
        all_whitespace(run),
    ensures
        arguments_of(head + run + tail, variant) == arguments_of(
            head + seq![separator] + tail,
            variant,
        ),
{
    let start = Machine::initial();
    let one = seq![separator];
    let first = seq![run[0]];
    let gap = run.skip(1);
    let before = feed(start, head, true, variant);
    // the first unit of the run does what the separator does
    lemma_feed_concat(start, head, one, true, variant);
    lemma_feed_concat(start, head, first, true, variant);
    lemma_feed_one(before, separator, true, variant);
    lemma_feed_one(before, run[0], true, variant);
    assert(is_whitespace(run[0]));
    assert(step(before, run[0], false, variant) == step(before, separator, false, variant));
    let outside = feed(start, head + first, true, variant);
    assert(outside == feed(start, head + one, true, variant));
    // the rest of the run does nothing
    assert forall|i: int| 0 <= i < gap.len() implies is_whitespace(#[trigger] gap[i]) by {
        assert(gap[i] == run[i + 1]);
    }
    lemma_whitespace_run_collapses(head + first, gap, tail, variant);
    assert(head + first + gap + tail =~= head + run + tail);
    // and what follows meets the same scanner either way
    lemma_outside_whatever_follows(start, head + first, variant);
    lemma_outside_whatever_follows(start, head + one, variant);
    lemma_feed_concat(start, head + first, tail, false, variant);
    lemma_feed_concat(start, head + one, tail, false, variant);
}

/// The quoting context in which a run of backslashes begins at `phase`.
pub open spec fn context_of(phase: Phase) -> QuoteKind {
    match phase {
        Phase::InToken(kind) => kind,
        _ => QuoteKind::Literal,
    }
}

/// A run of `count` backslashes, begun between tokens or inside one, is
/// still unresolved when more input follows it.
pub proof fn lemma_backslashes_gather(m: Machine, count: nat, variant: Variant)
    requires
        count >= 1,
        m.phase is OutsideToken || m.phase is InToken,
    ensures
        feed(m, backslashes(count), true, variant) == m.moved_to(
            Phase::OnBackslashRun(count, context_of(m.phase)),
        ),
    decreases count,
{
    let run = backslashes(count);
    if count == 1 {
        assert(run =~= seq![BACKSLASH]);
        lemma_feed_one(m, BACKSLASH, true, variant);
    } else {
        let shorter = backslashes((count - 1) as nat);
        assert(run =~= shorter + seq![BACKSLASH]);
        lemma_feed_concat(m, shorter, seq![BACKSLASH], true, variant);
        lemma_backslashes_gather(m, (count - 1) as nat, variant);
        lemma_feed_one(feed(m, shorter, true, variant), BACKSLASH, true, variant);
    }
}

/// The backslash rule. A run of `count` backslashes that begins between
/// tokens or inside one, with a double quote right after it, leaves half as
/// many backslashes, rounded down, under every variant. After an odd run the
/// quote is kept as a literal unit and the quoting context stays. After an
/// even run the quote is not kept: it delimits. Outside quotes it opens
/// double quotes; inside quotes it ends the argument, after which the
/// pre-2008 rules stand in a new unquoted token and the later rules between
/// tokens.
pub proof fn lemma_backslash_run_before_quote(m: Machine, count: nat, more: bool, variant: Variant)
    requires
        count >= 1,
        m.phase is OutsideToken || m.phase is InToken,
    ensures
        ({
            let after = feed(m, backslashes(count) + seq![DOUBLE_QUOTE], more, variant);
            let kind = context_of(m.phase);
            let halved = m.buffer + backslashes(count / 2);
            if count % 2 == 1 {
                &&& after.buffer == halved.push(DOUBLE_QUOTE)
                &&& after.args == m.args
                &&& after.phase == Phase::InToken(kind)
            } else if kind == QuoteKind::Literal {
                &&& after.buffer == halved
                &&& after.args == m.args
                &&& after.phase == Phase::InToken(QuoteKind::DoubleQuoted)
            } else {
                &&& after.buffer == Seq::<u16>::empty()
                &&& after.args == m.args.push(halved)
                &&& after.phase == if variant == Variant::Pre2008 {
                    Phase::InToken(QuoteKind::Literal)
                } else {
                    Phase::OutsideToken
                }
            }
        }),
{
    let quote = seq![DOUBLE_QUOTE];
    lemma_feed_concat(m, backslashes(count), quote, more, variant);
    lemma_backslashes_gather(m, count, variant);
    lemma_feed_one(feed(m, backslashes(count), true, variant), DOUBLE_QUOTE, more, variant);
    let after = feed(m, backslashes(count) + quote, more, variant);
    let halved = m.buffer + backslashes(count / 2);
    if count % 2 == 1 {
        assert(after.buffer =~= halved.push(DOUBLE_QUOTE));
    }
}

/// How the scanner stands on a plain line: between tokens with nothing
/// gathered, or in an unquoted token of at least one unit, none of them
/// whitespace.
pub open spec fn stands_plainly(m: Machine) -> bool {
    ||| m.phase is OutsideToken && m.buffer.len() == 0
    ||| m.phase == Phase::InToken(QuoteKind::Literal) && is_solid(m.buffer)
}

/// From a plain standing, a plain rest of the line adds to the arguments
/// the words of what was gathered and what follows, read as one.
pub proof fn lemma_plain_rest_splits_at_whitespace(m: Machine, rest: Seq<u16>, variant: Variant)
    requires
        stands_plainly(m),
        is_plain(rest, variant),
    ensures
        feed(m, rest, false, variant).finished() == m.args + split_whitespace(m.buffer + rest),
    decreases rest.len(),
{
    let whole = m.buffer + rest;
    if rest.len() == 0 {
        assert(whole =~= m.buffer);
        if m.buffer.len() > 0 {
            lemma_word_len_of_prefix(m.buffer, rest);
            assert(whole.take(whole.len() as int) =~= whole);
            assert(split_whitespace(whole.skip(whole.len() as int)) =~= Seq::<Seq<u16>>::empty());
            assert(split_whitespace(whole) =~= seq![whole]);
            assert(m.args.push(m.buffer) =~= m.args + seq![m.buffer]);
        } else {
            assert(m.args + split_whitespace(whole) =~= m.args);
        }
    } else {
        let unit = rest[0];
        let next = step(m, unit, rest.len() == 1, variant);
        assert(unit != DOUBLE_QUOTE && unit != BACKSLASH);
        assert forall|i: int| 0 <= i < rest.skip(1).len() implies {
            &&& (#[trigger] rest.skip(1)[i]) != DOUBLE_QUOTE
            &&& rest.skip(1)[i] != BACKSLASH
            &&& (variant == Variant::Generalized ==> rest.skip(1)[i] != SINGLE_QUOTE)
        } by {
            assert(rest.skip(1)[i] == rest[i + 1]);
        }
        if is_whitespace(unit) {
            if m.buffer.len() == 0 {
                assert(next == m);
                assert(whole =~= rest);
                assert(m.buffer + rest.skip(1) =~= rest.skip(1));
                lemma_plain_rest_splits_at_whitespace(next, rest.skip(1), variant);
            } else {
                lemma_word_len_of_prefix(m.buffer, rest);
                let n = m.buffer.len() as int;
                assert(whole.take(n) =~= m.buffer);
                assert(whole.skip(n) =~= rest);
                assert(whole[0] == m.buffer[0]);
                assert(split_whitespace(whole) == seq![m.buffer] + split_whitespace(rest));
                assert(split_whitespace(rest) == split_whitespace(rest.skip(1)));
                assert(next.buffer + rest.skip(1) =~= rest.skip(1));
                lemma_plain_rest_splits_at_whitespace(next, rest.skip(1), variant);
                assert(m.args.push(m.buffer) + split_whitespace(rest.skip(1)) =~= m.args + (
                seq![m.buffer] + split_whitespace(rest.skip(1))));
            }
        } else {
            assert(next.buffer =~= m.buffer.push(unit));
            assert(next.buffer + rest.skip(1) =~= whole);
            assert(is_solid(next.buffer));
            lemma_plain_rest_splits_at_whitespace(next, rest.skip(1), variant);
        }
    }
}

/// A line with no backslash and nothing that the variant reads as a quote
/// has as its arguments its words: the runs between whitespace, none empty.
pub proof fn lemma_plain_line_splits_at_whitespace(line: Seq<u16>, variant: Variant)
    requires
        is_plain(line, variant),
    ensures
        arguments_of(line, variant) == split_whitespace(line),
        forall|k: int|
            0 <= k < arguments_of(line, variant).len() ==> is_solid(
                #[trigger] arguments_of(line, variant)[k],
            ),
{
    let start = Machine::initial();
    lemma_plain_rest_splits_at_whitespace(start, line, variant);
    assert(start.buffer + line =~= line);
    assert(start.args + split_whitespace(line) =~= split_whitespace(line));
    lemma_words_are_solid(line);
}

/// Whether `phase` stands inside single quotes, or came from there.
pub open spec fn in_single_quotes(phase: Phase) -> bool {
    match phase {
        Phase::OutsideToken => false,
        Phase::InToken(kind) => kind == QuoteKind::SingleQuoted,
        Phase::OnClosingQuote(kind) => kind == QuoteKind::SingleQuoted,
        Phase::OnBackslashRun(_, kind) => kind == QuoteKind::SingleQuoted,
    }
}

/// Only the generalized variant ever stands inside single quotes.
pub proof fn lemma_single_quotes_need_generalized(
    m: Machine,
    units: Seq<u16>,
    more: bool,
    variant: Variant,
)
    requires
        variant != Variant::Generalized,
        !in_single_quotes(m.phase),
    ensures
        !in_single_quotes(feed(m, units, more, variant).phase),
    decreases units.len(),
{
    if units.len() > 0 {
        let last = !more && units.len() == 1;
        lemma_single_quotes_need_generalized(
            step(m, units[0], last, variant),
            units.skip(1),
            more,
            variant,
        );
    }
}

/// Outside single quotes, and on units other than the single quote, the
/// generalized variant does what the rules from 2008 do.
pub proof fn lemma_generalized_extends_2008(m: Machine, units: Seq<u16>, more: bool)
    requires
        !in_single_quotes(m.phase),
        forall|i: int| 0 <= i < units.len() ==> #[trigger] units[i] != SINGLE_QUOTE,
    ensures
        feed(m, units, more, Variant::Generalized) == feed(m, units, more, Variant::Post2008),
    decreases units.len(),
{
    if units.len() > 0 {
        let last = !more && units.len() == 1;
        assert(units[0] != SINGLE_QUOTE);
        assert(step(m, units[0], last, Variant::Generalized) == step(
            m,
            units[0],
            last,
            Variant::Post2008,
        ));
        assert forall|i: int| 0 <= i < units.skip(1).len() implies #[trigger] units.skip(1)[i]
            != SINGLE_QUOTE by {
            assert(units.skip(1)[i] == units[i + 1]);
        }
        lemma_generalized_extends_2008(
            step(m, units[0], last, Variant::Post2008),
            units.skip(1),
            more,
        );
    }
}

/// A line without single quotes has the same arguments under the
/// generalized variant as under the rules from 2008.
pub proof fn lemma_generalized_agrees_without_single_quotes(line: Seq<u16>)
    requires
        forall|i: int| 0 <= i < line.len() ==> #[trigger] line[i] != SINGLE_QUOTE,
    ensures
        arguments_of(line, Variant::Generalized) == arguments_of(line, Variant::Post2008),
{
    lemma_generalized_extends_2008(Machine::initial(), line, false);
}

/// The count of a backslash run is the number of backslashes that stand
/// unresolved right before the scanner: after `head`, a run of that count
/// means that `head` ends in at least that many backslashes.
pub proof fn lemma_run_counts_trailing_backslashes(head: Seq<u16>, more: bool, variant: Variant)
    ensures
        feed(Machine::initial(), head, more, variant).phase matches Phase::OnBackslashRun(count, _)
            ==> 1 <= count <= head.len() && forall|j: int|
            head.len() - count <= j < head.len() ==> #[trigger] head[j] == BACKSLASH,
    decreases head.len(),
{
    let start = Machine::initial();
    if head.len() > 0 {
        let front = head.drop_last();
        let unit = head.last();
        let one = seq![unit];
        assert(head =~= front + one);
        lemma_feed_concat(start, front, one, more, variant);
        lemma_feed_one(feed(start, front, true, variant), unit, more, variant);
        lemma_run_counts_trailing_backslashes(front, true, variant);
        let after = feed(start, head, more, variant);
        if let Phase::OnBackslashRun(count, _) = after.phase {
            assert(unit == BACKSLASH);
            assert forall|j: int| head.len() - count <= j < head.len() implies #[trigger] head[j]
                == BACKSLASH by {
                if j < front.len() {
                    assert(head[j] == front[j]);
                }
            }
        }
    }
}

/// Between tokens nothing is gathered: the token under construction holds
/// units only from the first unit of a token to the flush that ends it.
pub proof fn lemma_nothing_gathered_between_tokens(
    m: Machine,
    units: Seq<u16>,
    more: bool,
    variant: Variant,
)
    requires
        m.phase is OutsideToken ==> m.buffer.len() == 0,
    ensures
        feed(m, units, more, variant).phase is OutsideToken ==> feed(
            m,
            units,
            more,
            variant,
        ).buffer.len() == 0,
    decreases units.len(),
{
    if units.len() > 0 {
        let last = !more && units.len() == 1;
        lemma_nothing_gathered_between_tokens(
            step(m, units[0], last, variant),
            units.skip(1),
            more,
            variant,
        );
    }
}

/// Inside double quotes, units other than the double quote and the
/// backslash are content, whitespace included.
pub proof fn lemma_quoted_content_gathers(
    m: Machine,
    content: Seq<u16>,
    more: bool,
    variant: Variant,
)
    requires
        m.phase == Phase::InToken(QuoteKind::DoubleQuoted),
        forall|i: int|
            0 <= i < content.len() ==> (#[trigger] content[i]) != DOUBLE_QUOTE && content[i]
                != BACKSLASH,
    ensures
        feed(m, content, more, variant) == m.appended(content),
    decreases content.len(),
{
    if content.len() == 0 {
        assert(m.appended(content) =~= m);
    } else {
        let last = !more && content.len() == 1;
        let unit = content[0];
        assert(unit != DOUBLE_QUOTE && unit != BACKSLASH);
        let next = step(m, unit, last, variant);
        assert(next == m.appended(seq![unit]));
        assert forall|i: int| 0 <= i < content.skip(1).len() implies (
        #[trigger] content.skip(1)[i]) != DOUBLE_QUOTE && content.skip(1)[i] != BACKSLASH by {
            assert(content.skip(1)[i] == content[i + 1]);
        }
        lemma_quoted_content_gathers(next, content.skip(1), more, variant);
        assert(next.appended(content.skip(1)) =~= m.appended(content));
    }
}

/// A quote left open at the end of the line still yields its content: after
/// a `head` that leaves the scanner between tokens, a double quote and then
/// content that is never closed make one last argument of that content.
pub proof fn lemma_open_quote_yields_its_content(
    head: Seq<u16>,
    content: Seq<u16>,
    variant: Variant,
)
    requires
        feed(Machine::initial(), head, true, variant).phase is OutsideToken,
        content.len() > 0,
        forall|i: int|
            0 <= i < content.len() ==> (#[trigger] content[i]) != DOUBLE_QUOTE && content[i]
                != BACKSLASH,
    ensures
        arguments_of(head + seq![DOUBLE_QUOTE] + content, variant) == feed(
            Machine::initial(),
            head,
            true,
            variant,
        ).args.push(content),
{
    let start = Machine::initial();
    let quote = seq![DOUBLE_QUOTE];
    let outside = feed(start, head, true, variant);
    lemma_nothing_gathered_between_tokens(start, head, true, variant);
    assert(head + quote + content =~= head + (quote + content));
    lemma_feed_concat(start, head, quote + content, false, variant);
    lemma_feed_concat(outside, quote, content, false, variant);
    lemma_feed_one(outside, DOUBLE_QUOTE, true, variant);
    let opened = outside.moved_to(Phase::InToken(QuoteKind::DoubleQuoted));
    lemma_quoted_content_gathers(opened, content, false, variant);
    assert(opened.appended(content).buffer =~= content);
}

/// The arguments are a function of the line and the variant and of nothing
/// else: the same line under the same variant has the same arguments,
/// whenever it is asked.
pub proof fn lemma_same_line_same_arguments(
    first: Seq<u16>,
    second: Seq<u16>,
    first_variant: Variant,
    second_variant: Variant,
)
    requires
        first =~= second,
        first_variant == second_variant,
    ensures
        arguments_of(first, first_variant) == arguments_of(second, second_variant),
{
}

} // verus!
