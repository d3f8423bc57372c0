//! Literal substring replacement and placeholder substitution.
//!
//! A placeholder is a `{{name}}` token. Substitution walks an argument list in
//! order and, for each `(name, value)` pair, replaces every literal occurrence
//! of `{{name}}` in the current string by `value`. Replacement is a plain
//! left-to-right, non-overlapping substring replace: no escaping, and a value
//! substituted by an earlier pair can itself be rewritten by a later pair.

use vstd::prelude::*;

verus! {

/// `s` with every occurrence of `from` replaced by `to`, scanning left to
/// right without overlap, exactly as `str::replace` does for a non-empty
/// pattern.
pub open spec fn replaced(s: Seq<char>, from: Seq<char>, to: Seq<char>) -> Seq<char>
    decreases s.len(),
{
    if from.len() == 0 || s.len() < from.len() {
        s
    } else if s.subrange(0, from.len() as int) == from {
        to + replaced(s.skip(from.len() as int), from, to)
    } else {
        seq![s[0]] + replaced(s.skip(1), from, to)
    }
}

/// The `{{name}}` token that stands for the argument called `name`.
pub open spec fn placeholder(name: Seq<char>) -> Seq<char> {
    "{{"@ + name + "}}"@
}

/// The `(name, value)` pairs of an argument list, as sequences of characters.
pub open spec fn pairs_view(args: Seq<(&str, &str)>) -> Seq<(Seq<char>, Seq<char>)> {
    args.map_values(|p: (&str, &str)| (p.0@, p.1@))
}

/// `template` after substituting the argument list `args` in order: each pair
/// replaces every occurrence of its placeholder in the result of all earlier
/// pairs, so substitution is sequential, not one atomic pass.
pub open spec fn substituted(template: Seq<char>, args: Seq<(Seq<char>, Seq<char>)>) -> Seq<char>
    decreases args.len(),
{
    if args.len() == 0 {
        template
    } else {
        substituted(replaced(template, placeholder(args[0].0), args[0].1), args.skip(1))
    }
}

/// Whether `pat` occurs as a contiguous subsequence of `s`.
pub open spec fn occurs_in(s: Seq<char>, pat: Seq<char>) -> bool {
    exists|i: int| 0 <= i && i + pat.len() <= s.len() && #[trigger] s.subrange(i, i + pat.len())
        == pat
}

/// Law: replacing a pattern that occurs nowhere in a string leaves the string
/// untouched, so an argument with no corresponding placeholder is silently
/// unused and an unmatched placeholder remains literal.
pub proof fn lemma_replaced_absent(s: Seq<char>, from: Seq<char>, to: Seq<char>)
    requires
        from.len() > 0,
        !occurs_in(s, from),
    ensures
        replaced(s, from, to) == s,
    decreases s.len(),
{
    if s.len() < from.len() {
    } else {
        assert(s.subrange(0, from.len() as int) != from) by {
            if s.subrange(0, from.len() as int) == from {
                assert(0 <= 0 && 0 + from.len() <= s.len() && s.subrange(0, 0 + from.len() as int)
                    == from);
            }
        }
        assert(!occurs_in(s.skip(1), from)) by {
            if occurs_in(s.skip(1), from) {
                let i = choose|i: int|
                    0 <= i && i + from.len() <= s.skip(1).len() && #[trigger] s.skip(1).subrange(
                        i,
                        i + from.len(),
                    ) == from;
                assert(s.subrange(i + 1, i + 1 + from.len()) =~= s.skip(1).subrange(
                    i,
                    i + from.len(),
                ));
            }
        }
        lemma_replaced_absent(s.skip(1), from, to);
        assert(seq![s[0]] + s.skip(1) =~= s);
    }
}

/// Law: an argument list none of whose placeholders occurs in the template
/// substitutes to the template itself.
pub proof fn lemma_arguments_unused(template: Seq<char>, args: Seq<(Seq<char>, Seq<char>)>)
    requires
        forall|j: int| 0 <= j < args.len() ==> !occurs_in(template, placeholder(#[trigger] args[j].0)),
    ensures
        substituted(template, args) == template,
    decreases args.len(),
{
    if args.len() == 0 {
    } else {
        reveal_strlit("{{");
        assert(placeholder(args[0].0).len() > 0);
        lemma_replaced_absent(template, placeholder(args[0].0), args[0].1);
        assert(forall|j: int|
            0 <= j < args.skip(1).len() ==> args.skip(1)[j] == args[j + 1]);
        lemma_arguments_unused(template, args.skip(1));
    }
}

/// Law: substitution is sequential, not one atomic pass. Applying a list of
/// two arguments means replacing the first pair's placeholder everywhere, then
/// replacing the second pair's placeholder everywhere in that result; so a
/// value substituted by the first pair is itself rewritten where it contains
/// the second pair's placeholder.
pub proof fn lemma_substitution_is_sequential(
    template: Seq<char>,
    first: (Seq<char>, Seq<char>),
    second: (Seq<char>, Seq<char>),
)
    ensures
        substituted(template, seq![first, second]) == replaced(
            replaced(template, placeholder(first.0), first.1),
            placeholder(second.0),
            second.1,
        ),
{
    let once = replaced(template, placeholder(first.0), first.1);
    let twice = replaced(once, placeholder(second.0), second.1);
    assert(seq![first, second].skip(1) =~= seq![second]);
    assert(seq![second].skip(1) =~= Seq::<(Seq<char>, Seq<char>)>::empty());
    assert(substituted(seq![second][0].1 + Seq::<char>::empty(), Seq::empty()) == seq![
        second,
    ][0].1 + Seq::<char>::empty());
    assert(substituted(once, seq![second]) == substituted(twice, Seq::empty()));
}

/// Law: substituting a concatenated argument list is substituting the first
/// list and then the second. The built-in table, which stands after the
/// caller's arguments, therefore always acts on the result of every user
/// substitution, never the other way round.
pub proof fn lemma_substituted_append(
    template: Seq<char>,
    first: Seq<(Seq<char>, Seq<char>)>,
    second: Seq<(Seq<char>, Seq<char>)>,
)
    ensures
        substituted(template, first + second) == substituted(
            substituted(template, first),
            second,
        ),
    decreases first.len(),
{
    if first.len() == 0 {
        assert(first + second =~= second);
    } else {
        assert((first + second)[0] == first[0]);
        assert((first + second).skip(1) =~= first.skip(1) + second);
        lemma_substituted_append(
            replaced(template, placeholder(first[0].0), first[0].1),
            first.skip(1),
            second,
        );
    }
}

/// Law: every occurrence of a placeholder is replaced in one pass, not only
/// the first: a string that is the pattern written twice in a row becomes the
/// replacement written twice in a row.
pub proof fn lemma_replaced_every_occurrence(from: Seq<char>, to: Seq<char>)
    requires
        from.len() > 0,
    ensures
        replaced(from + from, from, to) == to + to,
{
    let s = from + from;
    assert(s.subrange(0, from.len() as int) =~= from);
    assert(s.skip(from.len() as int) =~= from);
    assert(from.subrange(0, from.len() as int) =~= from);
    assert(from.skip(from.len() as int) =~= Seq::<char>::empty());
    assert(replaced(Seq::<char>::empty(), from, to) == Seq::<char>::empty());
    assert(replaced(from, from, to) == to + Seq::<char>::empty());
    assert(to + (to + Seq::<char>::empty()) =~= to + to);
}

/// The segments written out with `sep` between each two: the shape of a string
/// holding one occurrence of `sep` for each gap between segments.
pub open spec fn joined(segments: Seq<Seq<char>>, sep: Seq<char>) -> Seq<char>
    decreases segments.len(),
{
    if segments.len() == 0 {
        Seq::empty()
    } else if segments.len() == 1 {
        segments[0]
    } else {
        segments[0] + sep + joined(segments.skip(1), sep)
    }
}

/// Whether no occurrence of `from` starts inside `prefix` when `from` follows
/// it, so that a left-to-right scan of `prefix + from + ...` first matches
/// exactly after `prefix`.
pub open spec fn no_early_occurrence(prefix: Seq<char>, from: Seq<char>) -> bool {
    forall|i: int|
        0 <= i < prefix.len() ==> #[trigger] (prefix + from).subrange(i, i + from.len()) != from
}

/// A token that occurs in a string occurs in any extension of it to the right.
pub proof fn lemma_occurs_in_extended_right(s: Seq<char>, rest: Seq<char>, tok: Seq<char>)
    requires
        occurs_in(s, tok),
    ensures
        occurs_in(s + rest, tok),
{
    let i = choose|i: int|
        0 <= i && i + tok.len() <= s.len() && #[trigger] s.subrange(i, i + tok.len()) == tok;
    assert((s + rest).subrange(i, i + tok.len()) =~= s.subrange(i, i + tok.len()));
}

/// A token that occurs in a string occurs in any extension of it to the left.
pub proof fn lemma_occurs_in_extended_left(s: Seq<char>, before: Seq<char>, tok: Seq<char>)
    requires
        occurs_in(s, tok),
    ensures
        occurs_in(before + s, tok),
{
    let i = choose|i: int|
        0 <= i && i + tok.len() <= s.len() && #[trigger] s.subrange(i, i + tok.len()) == tok;
    assert((before + s).subrange(before.len() + i, before.len() + i + tok.len()) =~= s.subrange(
        i,
        i + tok.len(),
    ));
}

/// A token that occurs in one of the segments occurs in the segments joined by
/// any separator.
pub proof fn lemma_occurs_in_joined(
    segments: Seq<Seq<char>>,
    sep: Seq<char>,
    tok: Seq<char>,
    j: int,
)
    requires
        0 <= j < segments.len(),
        occurs_in(segments[j], tok),
    ensures
        occurs_in(joined(segments, sep), tok),
    decreases segments.len(),
{
    if segments.len() == 1 {
    } else if j == 0 {
        lemma_occurs_in_extended_right(segments[0], sep + joined(segments.skip(1), sep), tok);
        assert(segments[0] + (sep + joined(segments.skip(1), sep)) =~= joined(segments, sep));
    } else {
        lemma_occurs_in_joined(segments.skip(1), sep, tok, j - 1);
        lemma_occurs_in_extended_left(joined(segments.skip(1), sep), segments[0] + sep, tok);
        assert((segments[0] + sep) + joined(segments.skip(1), sep) =~= joined(segments, sep));
    }
}

/// Law: where the pattern's first occurrence stands exactly after a prefix,
/// replacement copies the prefix verbatim, replaces that occurrence, and scans
/// on through the rest alone.
pub proof fn lemma_replaced_at_occurrence(
    prefix: Seq<char>,
    from: Seq<char>,
    to: Seq<char>,
    rest: Seq<char>,
)
    requires
        from.len() > 0,
        no_early_occurrence(prefix, from),
    ensures
        replaced(prefix + from + rest, from, to) == prefix + to + replaced(rest, from, to),
    decreases prefix.len(),
{
    let s = prefix + from + rest;
    if prefix.len() == 0 {
        assert(s.subrange(0, from.len() as int) =~= from);
        assert(s.skip(from.len() as int) =~= rest);
        assert(prefix + to + replaced(rest, from, to) =~= to + replaced(rest, from, to));
    } else {
        assert(s.subrange(0, from.len() as int) != from) by {
            assert((prefix + from).subrange(0, 0 + from.len() as int) != from);
            assert(s.subrange(0, from.len() as int) =~= (prefix + from).subrange(
                0,
                from.len() as int,
            ));
        }
        let tail = prefix.skip(1);
        assert(no_early_occurrence(tail, from)) by {
            assert forall|i: int|
                0 <= i < tail.len() implies #[trigger] (tail + from).subrange(i, i + from.len())
                != from by {
                assert((tail + from).subrange(i, i + from.len()) =~= (prefix + from).subrange(
                    i + 1,
                    i + 1 + from.len(),
                ));
            }
        }
        lemma_replaced_at_occurrence(tail, from, to, rest);
        assert(s.skip(1) =~= tail + from + rest);
        assert(seq![s[0]] + (tail + to + replaced(rest, from, to)) =~= prefix + to + replaced(
            rest,
            from,
            to,
        ));
    }
}

/// Law: every occurrence of the pattern is replaced in one pass. A string that
/// decomposes into segments around the pattern's occurrences — no occurrence
/// starting inside a segment, none in the last segment — becomes the same
/// segments joined by the replacement instead: one replacement for each
/// occurrence, the segments copied verbatim.
pub proof fn lemma_replaced_all_occurrences(
    segments: Seq<Seq<char>>,
    from: Seq<char>,
    to: Seq<char>,
)
    requires
        from.len() > 0,
        segments.len() > 0,
        forall|j: int| 0 <= j < segments.len() - 1 ==> no_early_occurrence(#[trigger] segments[j], from),
        !occurs_in(segments.last(), from),
    ensures
        replaced(joined(segments, from), from, to) == joined(segments, to),
    decreases segments.len(),
{
    if segments.len() == 1 {
        lemma_replaced_absent(segments[0], from, to);
    } else {
        let tail = segments.skip(1);
        assert(tail.last() == segments.last());
        lemma_replaced_all_occurrences(tail, from, to);
        lemma_replaced_at_occurrence(segments[0], from, to, joined(tail, from));
        assert(segments[0] + from + joined(tail, from) =~= joined(segments, from));
        assert(segments[0] + to + joined(tail, to) =~= joined(segments, to));
    }
}

/// Law: a placeholder matched by no argument survives a replacement pass: a
/// token inside one of the segments — so no replaced occurrence overlaps it —
/// still occurs, verbatim, in the result.
pub proof fn lemma_unmatched_token_survives(
    segments: Seq<Seq<char>>,
    from: Seq<char>,
    to: Seq<char>,
    tok: Seq<char>,
    j: int,
)
    requires
        from.len() > 0,
        segments.len() > 0,
        forall|j2: int| 0 <= j2 < segments.len() - 1 ==> no_early_occurrence(
            #[trigger] segments[j2],
            from,
        ),
        !occurs_in(segments.last(), from),
        0 <= j < segments.len(),
        occurs_in(segments[j], tok),
    ensures
        occurs_in(replaced(joined(segments, from), from, to), tok),
{
    lemma_replaced_all_occurrences(segments, from, to);
    lemma_occurs_in_joined(segments, to, tok, j);
}

/// Law: text that an earlier argument's value brings in is itself rewritten by
/// a later pair. Where the string after the first pair's pass decomposes into
/// segments around the second pair's placeholder — including occurrences that
/// the first pair's value introduced — the second pass replaces every one of
/// them.
pub proof fn lemma_introduced_token_resubstituted(
    template: Seq<char>,
    first: (Seq<char>, Seq<char>),
    second: (Seq<char>, Seq<char>),
    segments: Seq<Seq<char>>,
)
    requires
        segments.len() > 0,
        forall|j: int| 0 <= j < segments.len() - 1 ==> no_early_occurrence(
            #[trigger] segments[j],
            placeholder(second.0),
        ),
        !occurs_in(segments.last(), placeholder(second.0)),
        replaced(template, placeholder(first.0), first.1) == joined(
            segments,
            placeholder(second.0),
        ),
    ensures
        substituted(template, seq![first, second]) == joined(segments, second.1),
{
    reveal_strlit("{{");
    assert(placeholder(second.0).len() > 0);
    lemma_substitution_is_sequential(template, first, second);
    lemma_replaced_all_occurrences(segments, placeholder(second.0), second.1);
}

/// Whether the characters of `from` stand at position `i` of `s`.
fn match_at(s: &str, i: usize, from: &str, n: usize, m: usize) -> (r: bool)
    requires
        n == s@.len(),
        m == from@.len(),
        i + m <= n,
    ensures
        r == (s@.subrange(i as int, i + m) == from@),
{
    let mut j: usize = 0;
    while j < m
        invariant
            n == s@.len(),
            m == from@.len(),
            i + m <= n,
            j <= m,
            forall|k: int| 0 <= k < j ==> s@[i + k] == from@[k],
        decreases m - j,
    {
        if s.get_char(i + j) != from.get_char(j) {
            assert(s@.subrange(i as int, i + m)[j as int] != from@[j as int]);
            return false;
        }
        j += 1;
    }
    assert(s@.subrange(i as int, i + m) =~= from@);
    true
}

/// `s` with every occurrence of `from` replaced by `to`, left to right,
/// without overlap.
pub(crate) fn replace_all(s: &str, from: &str, to: &str) -> (r: String)
    requires
        from@.len() >= 1,
    ensures
        r@ == replaced(s@, from@, to@),
{
    let n = s.unicode_len();
    let m = from.unicode_len();
    let mut out = String::new();
    let mut i: usize = 0;
    proof {
        assert(s@.skip(0) =~= s@);
        assert(Seq::<char>::empty() + replaced(s@, from@, to@) =~= replaced(s@, from@, to@));
    }
    while i < n
        invariant
            n == s@.len(),
            m == from@.len(),
            m >= 1,
            i <= n,
            replaced(s@, from@, to@) == out@ + replaced(s@.skip(i as int), from@, to@),
        decreases n - i,
    {
        let ghost rest = s@.skip(i as int);
        if m <= n - i && match_at(s, i, from, n, m) {
            out.append(to);
            proof {
                assert(rest.subrange(0, m as int) =~= s@.subrange(i as int, i + m));
                assert(rest.skip(m as int) =~= s@.skip(i + m));
                assert(replaced(rest, from@, to@) == to@ + replaced(
                    s@.skip(i + m),
                    from@,
                    to@,
                ));
            }
            i += m;
        } else {
            out.append(s.substring_char(i, i + 1));
            proof {
                assert(s@.subrange(i as int, i + 1) =~= seq![s@[i as int]]);
                if rest.len() < m {
                    assert(rest =~= seq![s@[i as int]] + s@.skip(i + 1));
                    assert(s@.skip(i + 1).len() < m);
                    assert(replaced(rest, from@, to@) == rest);
                    assert(replaced(s@.skip(i + 1), from@, to@) == s@.skip(i + 1));
                } else {
                    assert(rest.subrange(0, m as int) =~= s@.subrange(i as int, i + m));
                    assert(rest.subrange(0, m as int) != from@);
                    assert(rest.skip(1) =~= s@.skip(i + 1));
                    assert(rest[0] == s@[i as int]);
                }
            }
            i += 1;
        }
    }
    proof {
        assert(s@.skip(n as int) =~= Seq::<char>::empty());
        assert(replaced(Seq::<char>::empty(), from@, to@) == Seq::<char>::empty());
        assert(out@ + Seq::<char>::empty() =~= out@);
    }
    out
}

/// Builds the literal `{{name}}` token for an argument name.
pub(crate) fn make_placeholder(name: &str) -> (r: String)
    ensures
        r@ == placeholder(name@),
{
    let mut out = String::from_str("{{");
    out.append(name);
    out.append("}}");
    out
}

/// Applies the argument list to `template` in order: each `(name, value)`
/// pair replaces every occurrence of `{{name}}` in the result so far.
pub(crate) fn apply_arguments(template: String, args: &Vec<(&str, &str)>) -> (r: String)
    ensures
        r@ == substituted(template@, pairs_view(args@)),
{
    let ghost all = pairs_view(args@);
    let mut cur = template;
    let mut i: usize = 0;
    proof {
        assert(all.skip(0) =~= all);
    }
    while i < args.len()
        invariant
            all == pairs_view(args@),
            i <= args.len(),
            substituted(template@, all) == substituted(cur@, all.skip(i as int)),
        decreases args.len() - i,
    {
        let (name, value) = args[i];
        let ph = make_placeholder(name);
        proof {
            reveal_strlit("{{");
            reveal_strlit("}}");
            assert(ph@.len() >= 1);
            assert(all.skip(i as int)[0] == all[i as int]);
            assert(all.skip(i as int).skip(1) =~= all.skip(i + 1));
            assert(ph@ == placeholder(all[i as int].0));
        }
        let next = replace_all(cur.as_str(), ph.as_str(), value);
        proof {
            assert(substituted(cur@, all.skip(i as int)) == substituted(
                next@,
                all.skip(i + 1),
            ));
        }
        cur = next;
        i += 1;
    }
    proof {
        assert(all.skip(args@.len() as int) =~= Seq::<(Seq<char>, Seq<char>)>::empty());
    }
    cur
}

} // verus!
